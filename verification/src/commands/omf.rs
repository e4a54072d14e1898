//! Projects that were read from files: opened in the place of the open one, or
//! merged into it.

use crate::arrivals::renderable;
use crate::commands::projects::{marked_saved, project_installed};
use crate::document::{layer_models, object_models, Document, LayerModel, ObjectModel};
use crate::ids::{IdSet, LayerId};
use crate::intake::{
    all_taken_in, ids_enough, take_in_all, ImportedBlockModel, ImportedDrillHoles, ImportedPointCloud, ImportedRaster, ImportedTriangulation, Intake,
};
use crate::items::{
    ItemState, Items, OpenBlockModel, OpenDrillHoleDataset, OpenPointCloud, OpenRasterTexture, OpenTriangulation,
};
use crate::loads::fitted_if;
use crate::merging::document_merged;
use crate::snapshots::{layer_under, object_under};
use crate::state::{App, Canvas};
use crate::text::{trim, trimmed};
use crate::workspace::{index_of_runtime, local_id, OpenProject, Workspace};
use vstd::prelude::*;
use vstd::string::*;

verus! {

/// Whether the view moves to a project that was opened.
#[derive(Clone, Copy, PartialEq, Eq, Structural, Debug)]
pub enum ViewOnOpen {
    Fit,
    Keep,
}

/// What a project file holds.
pub struct ImportBundle {
    pub project_name: String,
    pub coordinate_reference_system: String,
    pub units: String,
    pub designs: Vec<Document>,
    pub triangulations: Vec<ImportedTriangulation>,
    pub block_models: Vec<ImportedBlockModel>,
    pub drill_holes: Vec<ImportedDrillHoles>,
    pub point_clouds: Vec<ImportedPointCloud>,
    pub rasters: Vec<ImportedRaster>,
    pub warnings: Vec<String>,
}

/// The items of a file were taken in: rasters first, so that surfaces find
/// what is draped over them.
pub open spec fn items_taken_in(b: ImportBundle, pre: Items, before: Intake, post: Items, then: Intake) -> bool {
    exists|i1: Items, a1: Intake, i2: Items, a2: Intake, i3: Items, a3: Intake, i4: Items, a4: Intake|
        {
            &&& #[trigger] all_taken_in(b.rasters@, pre, before, i1, a1)
            &&& #[trigger] all_taken_in(b.triangulations@, i1, a1, i2, a2)
            &&& #[trigger] all_taken_in(b.block_models@, i2, a2, i3, a3)
            &&& #[trigger] all_taken_in(b.drill_holes@, i3, a3, i4, a4)
            &&& all_taken_in(b.point_clouds@, i4, a4, post, then)
        }
}

/// There are ids enough for everything that a file holds.
pub open spec fn bundle_fits(b: ImportBundle, items: Items, keep: bool) -> bool {
    &&& ids_enough(b.rasters@, items, keep)
    &&& ids_enough(b.triangulations@, items, keep)
    &&& ids_enough(b.block_models@, items, keep)
    &&& ids_enough(b.drill_holes@, items, keep)
    &&& ids_enough(b.point_clouds@, items, keep)
}

/// There are no items.
pub open spec fn no_items_open(items: Items) -> bool {
    &&& items.triangulations@.len() == 0
    &&& items.block_models@.len() == 0
    &&& items.drill_holes@.len() == 0
    &&& items.point_clouds@.len() == 0
    &&& items.raster_textures@.len() == 0
}

/// Takes in the items of a file.
fn take_in_items(
    rasters: Vec<ImportedRaster>,
    triangulations: Vec<ImportedTriangulation>,
    block_models: Vec<ImportedBlockModel>,
    drill_holes: Vec<ImportedDrillHoles>,
    point_clouds: Vec<ImportedPointCloud>,
    items: &mut Items,
    intake: &mut Intake,
    bundle: Ghost<ImportBundle>,
)
    requires
        bundle@.rasters == rasters,
        bundle@.triangulations == triangulations,
        bundle@.block_models == block_models,
        bundle@.drill_holes == drill_holes,
        bundle@.point_clouds == point_clouds,
        bundle_fits(bundle@, *old(items), old(intake).keep_ids),
        old(intake).keep_ids ==> no_items_open(*old(items)),
    ensures
        items_taken_in(bundle@, *old(items), *old(intake), *final(items), *final(intake)),
        !old(intake).keep_ids ==> counters_grew(*old(items), *final(items), bundle_size(bundle@)),
{
    take_in_all(rasters, items, intake);
    let ghost (i1, a1) = (*items, *intake);
    take_in_all(triangulations, items, intake);
    let ghost (i2, a2) = (*items, *intake);
    take_in_all(block_models, items, intake);
    let ghost (i3, a3) = (*items, *intake);
    take_in_all(drill_holes, items, intake);
    let ghost (i4, a4) = (*items, *intake);
    take_in_all(point_clouds, items, intake);
    proof {
        assert(all_taken_in(rasters@, *old(items), *old(intake), i1, a1));
        assert(all_taken_in(triangulations@, i1, a1, i2, a2));
        assert(all_taken_in(block_models@, i2, a2, i3, a3));
        assert(all_taken_in(drill_holes@, i3, a3, i4, a4));
    }
}

/// How many items a file holds.
pub open spec fn bundle_size(b: ImportBundle) -> int {
    (b.rasters@.len() + b.triangulations@.len() + b.block_models@.len() + b.drill_holes@.len() + b.point_clouds@.len()) as int
}

/// How many datasets of any kind a file holds.
pub open spec fn item_count(b: ImportBundle) -> int {
    bundle_size(b) + b.designs@.len()
}

/// The counters moved by no more than twice so many.
pub open spec fn counters_grew(pre: Items, post: Items, n: int) -> bool {
    &&& post.next_triangulation_id <= pre.next_triangulation_id + 2 * n
    &&& post.next_block_model_id <= pre.next_block_model_id + 2 * n
    &&& post.next_drill_hole_id <= pre.next_drill_hole_id + 2 * n
    &&& post.next_point_cloud_id <= pre.next_point_cloud_id + 2 * n
    &&& post.next_raster_texture_id <= pre.next_raster_texture_id + 2 * n
}

/// The state of an item whose stored copy is up to date.
pub open spec fn state_stored(pre: ItemState) -> ItemState {
    ItemState { saved_epoch: Some(pre.epoch), ..pre }
}

/// Every item is stored as it stands.
pub open spec fn items_stored(pre: Items, post: Items) -> bool {
    &&& post == (Items {
        triangulations: post.triangulations,
        block_models: post.block_models,
        drill_holes: post.drill_holes,
        point_clouds: post.point_clouds,
        raster_textures: post.raster_textures,
        ..pre
    })
    &&& post.triangulations@ == pre.triangulations@.map_values(|t: OpenTriangulation| OpenTriangulation { state: state_stored(t.state), ..t })
    &&& post.block_models@ == pre.block_models@.map_values(|t: OpenBlockModel| OpenBlockModel { state: state_stored(t.state), ..t })
    &&& post.drill_holes@ == pre.drill_holes@.map_values(|t: OpenDrillHoleDataset| OpenDrillHoleDataset { state: state_stored(t.state), ..t })
    &&& post.point_clouds@ == pre.point_clouds@.map_values(|t: OpenPointCloud| OpenPointCloud { state: state_stored(t.state), ..t })
    &&& post.raster_textures@ == pre.raster_textures@.map_values(|t: OpenRasterTexture| OpenRasterTexture { state: state_stored(t.state), ..t })
}

impl Items {
    fn mark_stored(&mut self)
        ensures
            items_stored(*old(self), *final(self)),
    {
        let mut i: usize = 0;
        while i < self.triangulations.len()
            invariant
                i <= self.triangulations@.len(),
                self.triangulations@.len() == old(self).triangulations@.len(),
                *self == (Items { triangulations: self.triangulations, ..*old(self) }),
                forall|j: int| 0 <= j < i ==> #[trigger] self.triangulations@[j] == (OpenTriangulation {
                    state: state_stored(old(self).triangulations@[j].state),
                    ..old(self).triangulations@[j]
                }),
                forall|j: int| i <= j < self.triangulations@.len() ==> #[trigger] self.triangulations@[j] == old(self).triangulations@[j],
            decreases self.triangulations.len() - i,
        {
            let epoch: u64 = self.triangulations[i].state.epoch;
            self.triangulations[i].state.saved_epoch = Some(epoch);
            i += 1;
        }
        let ghost a = *self;
        let mut i: usize = 0;
        while i < self.block_models.len()
            invariant
                i <= self.block_models@.len(),
                self.block_models@.len() == a.block_models@.len(),
                *self == (Items { block_models: self.block_models, ..a }),
                forall|j: int| 0 <= j < i ==> #[trigger] self.block_models@[j] == (OpenBlockModel {
                    state: state_stored(a.block_models@[j].state),
                    ..a.block_models@[j]
                }),
                forall|j: int| i <= j < self.block_models@.len() ==> #[trigger] self.block_models@[j] == a.block_models@[j],
            decreases self.block_models.len() - i,
        {
            let epoch: u64 = self.block_models[i].state.epoch;
            self.block_models[i].state.saved_epoch = Some(epoch);
            i += 1;
        }
        let ghost b = *self;
        let mut i: usize = 0;
        while i < self.drill_holes.len()
            invariant
                i <= self.drill_holes@.len(),
                self.drill_holes@.len() == b.drill_holes@.len(),
                *self == (Items { drill_holes: self.drill_holes, ..b }),
                forall|j: int| 0 <= j < i ==> #[trigger] self.drill_holes@[j] == (OpenDrillHoleDataset {
                    state: state_stored(b.drill_holes@[j].state),
                    ..b.drill_holes@[j]
                }),
                forall|j: int| i <= j < self.drill_holes@.len() ==> #[trigger] self.drill_holes@[j] == b.drill_holes@[j],
            decreases self.drill_holes.len() - i,
        {
            let epoch: u64 = self.drill_holes[i].state.epoch;
            self.drill_holes[i].state.saved_epoch = Some(epoch);
            i += 1;
        }
        let ghost c = *self;
        let mut i: usize = 0;
        while i < self.point_clouds.len()
            invariant
                i <= self.point_clouds@.len(),
                self.point_clouds@.len() == c.point_clouds@.len(),
                *self == (Items { point_clouds: self.point_clouds, ..c }),
                forall|j: int| 0 <= j < i ==> #[trigger] self.point_clouds@[j] == (OpenPointCloud {
                    state: state_stored(c.point_clouds@[j].state),
                    ..c.point_clouds@[j]
                }),
                forall|j: int| i <= j < self.point_clouds@.len() ==> #[trigger] self.point_clouds@[j] == c.point_clouds@[j],
            decreases self.point_clouds.len() - i,
        {
            let epoch: u64 = self.point_clouds[i].state.epoch;
            self.point_clouds[i].state.saved_epoch = Some(epoch);
            i += 1;
        }
        let ghost d = *self;
        let mut i: usize = 0;
        while i < self.raster_textures.len()
            invariant
                i <= self.raster_textures@.len(),
                self.raster_textures@.len() == d.raster_textures@.len(),
                *self == (Items { raster_textures: self.raster_textures, ..d }),
                forall|j: int| 0 <= j < i ==> #[trigger] self.raster_textures@[j] == (OpenRasterTexture {
                    state: state_stored(d.raster_textures@[j].state),
                    ..d.raster_textures@[j]
                }),
                forall|j: int| i <= j < self.raster_textures@.len() ==> #[trigger] self.raster_textures@[j] == d.raster_textures@[j],
            decreases self.raster_textures.len() - i,
        {
            let epoch: u64 = self.raster_textures[i].state.epoch;
            self.raster_textures[i].state.saved_epoch = Some(epoch);
            i += 1;
        }
        proof {
            let pre = *old(self);
            assert(self.triangulations@ =~= pre.triangulations@.map_values(
                |t: OpenTriangulation| OpenTriangulation { state: state_stored(t.state), ..t },
            ));
            assert(self.block_models@ =~= pre.block_models@.map_values(|t: OpenBlockModel| OpenBlockModel { state: state_stored(t.state), ..t }));
            assert(self.drill_holes@ =~= pre.drill_holes@.map_values(
                |t: OpenDrillHoleDataset| OpenDrillHoleDataset { state: state_stored(t.state), ..t },
            ));
            assert(self.point_clouds@ =~= pre.point_clouds@.map_values(|t: OpenPointCloud| OpenPointCloud { state: state_stored(t.state), ..t }));
            assert(self.raster_textures@ =~= pre.raster_textures@.map_values(
                |t: OpenRasterTexture| OpenRasterTexture { state: state_stored(t.state), ..t },
            ));
        }
    }
}

/// The project as the file describes it.
pub open spec fn described(blank: OpenProject, b: ImportBundle, post: OpenProject) -> bool {
    &&& post == (OpenProject {
        name: if trimmed(b.project_name@).len() > 0 {
            b.project_name
        } else {
            blank.name
        },
        coordinate_reference_system: b.coordinate_reference_system,
        units: b.units,
        lossy_save_warnings: b.warnings,
        lossy_save_confirmed: false,
        ..blank
    })
}

/// The intake of a file begins.
pub open spec fn intake_begun(app: App, keep: bool, intake: Intake) -> bool {
    &&& intake == (Intake {
        keep_ids: keep,
        scene_drawn: app.scene.objects@.len() > 0,
        revision: app.workspace.active()->0.asset_revision,
        active: app.canvas.active_triangulation,
        frame: app.frame,
        rasters: intake.rasters,
    })
    &&& intake.rasters@.len() == 0
}

/// The active project once its items have changed so often.
pub open spec fn revision_set(pre: Workspace, revision: u64, post: Workspace) -> bool {
    let i = pre.active_index->0 as int;
    &&& post == (Workspace { projects: post.projects, ..pre })
    &&& post.projects@ == pre.projects@.update(i, OpenProject { asset_revision: revision, ..pre.projects@[i] })
}

/// What taking in the items of a file does to the whole state.
pub open spec fn bundle_taken_in(pre: App, keep: bool, b: ImportBundle, post: App) -> bool {
    exists|before: Intake, then: Intake|
        {
            &&& #[trigger] intake_begun(pre, keep, before)
            &&& #[trigger] items_taken_in(b, pre.items, before, post.items, then)
            &&& revision_set(pre.workspace, then.revision, post.workspace)
            &&& post == (App {
                items: post.items,
                workspace: post.workspace,
                canvas: Canvas { active_triangulation: then.active, ..pre.canvas },
                frame: then.frame,
                ..pre
            })
        }
}

/// Everything in the active project is stored as it stands.
pub open spec fn content_stored(pre: App, post: App) -> bool {
    let i = pre.workspace.active_index->0 as int;
    &&& post == (App { items: post.items, workspace: post.workspace, ..pre })
    &&& items_stored(pre.items, post.items)
    &&& post.workspace == (Workspace { projects: post.workspace.projects, ..pre.workspace })
    &&& post.workspace.projects@.len() == pre.workspace.projects@.len()
    &&& marked_saved(pre.workspace.projects@[i], post.workspace.projects@[i])
    &&& forall|j: int| 0 <= j < pre.workspace.projects@.len() && j != i ==> #[trigger] post.workspace.projects@[j] == pre.workspace.projects@[j]
}

/// One of the designs has the layer.
pub open spec fn layer_in(designs: Seq<Document>, l: LayerModel) -> bool {
    exists|k: int| 0 <= k < designs.len() && layer_models((#[trigger] designs[k]).layers@).contains(l)
}

/// One of the designs has the object.
pub open spec fn object_in(designs: Seq<Document>, o: ObjectModel) -> bool {
    exists|k: int| 0 <= k < designs.len() && object_models((#[trigger] designs[k]).objects@).contains(o)
}

/// The document holds the layers and the objects of the designs, under their
/// own ids, and no others.
pub open spec fn holds_designs(document: Document, designs: Seq<Document>) -> bool {
    &&& forall|l: LayerModel| #[trigger] layer_models(document.layers@).contains(l) <==> layer_in(designs, l)
    &&& forall|o: ObjectModel| #[trigger] object_models(document.objects@).contains(o) <==> object_in(designs, o)
}

/// What opening a project from a file does. `blank` is a project with the
/// designs of the file in it, where one could be made.
pub open spec fn bundle_opened(pre: App, blank: Option<OpenProject>, b: ImportBundle, view: ViewOnOpen, post: App) -> bool {
    match blank {
        None => post == pre,
        Some(blank) => exists|named: OpenProject, installed: App, taken: App, stored: App|
            {
                &&& described(blank, b, named)
                &&& #[trigger] project_installed(pre, named, installed)
                &&& #[trigger] bundle_taken_in(installed, true, b, taken)
                &&& #[trigger] content_stored(taken, stored)
                &&& post == (App {
                    frame: fitted_if(stored.frame.geometry(), view == ViewOnOpen::Fit || !renderable(pre)).session(),
                    ..stored
                })
            },
    }
}

/// The document has a layer with the id.
pub open spec fn has_layer(document: Document, l: LayerId) -> bool {
    exists|k: int| 0 <= k < document.layers@.len() && (#[trigger] document.layers@[k]).id == l
}

/// One of these layers has the same id within its project.
pub open spec fn known_before(s: Seq<LayerId>, l: LayerId) -> bool {
    exists|i: int| 0 <= i < s.len() && local_id(#[trigger] s[i]) == local_id(l)
}

/// The layers of a document among these, told by their ids within the project,
/// are those that are loaded.
pub open spec fn loaded_as_before(s: Seq<LayerId>, document: Document, loaded: Set<LayerId>) -> bool {
    forall|l: LayerId| #[trigger] loaded.contains(l) <==> has_layer(document, l) && known_before(s, l)
}

/// The project has the layers loaded that were loaded before.
pub open spec fn loaded_kept(was: OpenProject, pre: App, post: App) -> bool {
    let (p, q) = (pre.workspace.projects@[0], post.workspace.projects@[0]);
    &&& post == (App { workspace: Workspace { projects: post.workspace.projects, ..pre.workspace }, ..pre })
    &&& post.workspace.projects@.len() == 1
    &&& q == (OpenProject { loaded_layers: q.loaded_layers, ..p })
    &&& loaded_as_before(was.loaded_layers.order(), p.document, q.loaded_layers@)
}

/// What taking over a project that was read again does: nothing where it is
/// gone or has changed since. The layers that were loaded still are.
pub open spec fn project_revert_applied(pre: App, runtime_id: u32, hash: u64, blank: Option<OpenProject>, b: ImportBundle, post: App) -> bool {
    let projects = pre.workspace.projects@;
    let i = index_of_runtime(projects, runtime_id);
    if i >= projects.len() || projects[i].content_hash != hash || blank is None {
        post == pre
    } else {
        exists|mid: App| #[trigger] bundle_opened(pre, blank, b, ViewOnOpen::Keep, mid) && loaded_kept(projects[i], mid, post)
    }
}

/// A project that was read again holds no unsaved work, is the active one, and
/// has just the layers loaded that were loaded before and are still there.
pub proof fn law_reverted_project(pre: App, runtime_id: u32, hash: u64, blank: OpenProject, b: ImportBundle, post: App)
    requires
        project_revert_applied(pre, runtime_id, hash, Some(blank), b, post),
        index_of_runtime(pre.workspace.projects@, runtime_id) < pre.workspace.projects@.len(),
        pre.workspace.projects@[index_of_runtime(pre.workspace.projects@, runtime_id)].content_hash == hash,
    ensures
        post.workspace.active() matches Some(p) && !p.dirty() && loaded_as_before(
            pre.workspace.projects@[index_of_runtime(pre.workspace.projects@, runtime_id)].loaded_layers.order(),
            p.document,
            p.loaded_layers@,
        ),
{
    let was = pre.workspace.projects@[index_of_runtime(pre.workspace.projects@, runtime_id)];
    let mid = choose|mid: App| #[trigger] bundle_opened(pre, Some(blank), b, ViewOnOpen::Keep, mid) && loaded_kept(was, mid, post);
    law_opened_project_is_clean(pre, blank, b, ViewOnOpen::Keep, mid);
}

/// A project that was opened from a file holds no unsaved work.
pub proof fn law_opened_project_is_clean(pre: App, blank: OpenProject, b: ImportBundle, view: ViewOnOpen, post: App)
    requires
        bundle_opened(pre, Some(blank), b, view, post),
    ensures
        post.workspace.active() matches Some(p) && !p.dirty(),
        post.workspace.projects@.len() == 1,
{
    let (named, installed, taken, stored) = choose|named: OpenProject, installed: App, taken: App, stored: App|
        {
            &&& described(blank, b, named)
            &&& #[trigger] project_installed(pre, named, installed)
            &&& #[trigger] bundle_taken_in(installed, true, b, taken)
            &&& #[trigger] content_stored(taken, stored)
            &&& post == (App { frame: fitted_if(stored.frame.geometry(), view == ViewOnOpen::Fit || !renderable(pre)).session(), ..stored })
        };
    assert(project_installed(pre, named, installed));
    assert(bundle_taken_in(installed, true, b, taken));
    assert(content_stored(taken, stored));
}

/// A project that was opened from a file holds the layers and the objects of
/// the file's designs, with their ids under the number of the project.
pub proof fn law_opened_project_holds_the_designs(pre: App, blank: OpenProject, b: ImportBundle, view: ViewOnOpen, post: App)
    requires
        bundle_opened(pre, Some(blank), b, view, post),
        holds_designs(blank.document, b.designs@),
    ensures
        post.workspace.active() matches Some(p) && {
            &&& p.runtime_id == pre.workspace.next_runtime_id
            &&& forall|l: LayerModel|
                layer_in(b.designs@, l) ==> layer_models(p.document.layers@).contains(#[trigger] layer_under(l, pre.workspace.next_runtime_id))
            &&& forall|o: ObjectModel|
                object_in(b.designs@, o) ==> object_models(p.document.objects@).contains(#[trigger] object_under(o, pre.workspace.next_runtime_id))
        },
{
    let (named, installed, taken, stored) = choose|named: OpenProject, installed: App, taken: App, stored: App|
        {
            &&& described(blank, b, named)
            &&& #[trigger] project_installed(pre, named, installed)
            &&& #[trigger] bundle_taken_in(installed, true, b, taken)
            &&& #[trigger] content_stored(taken, stored)
            &&& post == (App { frame: fitted_if(stored.frame.geometry(), view == ViewOnOpen::Fit || !renderable(pre)).session(), ..stored })
        };
    assert(project_installed(pre, named, installed));
    assert(bundle_taken_in(installed, true, b, taken));
    assert(content_stored(taken, stored));
    let ns = pre.workspace.next_runtime_id;
    let d = installed.workspace.projects@[0].document;
    assert(post.workspace.active()->0.document == d);
    assert forall|l: LayerModel| layer_in(b.designs@, l) implies layer_models(d.layers@).contains(#[trigger] layer_under(l, ns)) by {
        let from = layer_models(blank.document.layers@);
        assert(from.contains(l));
        let i = choose|i: int| 0 <= i < from.len() && from[i] == l;
        assert(layer_models(d.layers@)[i] == layer_under(l, ns));
    }
    assert forall|o: ObjectModel| object_in(b.designs@, o) implies object_models(d.objects@).contains(#[trigger] object_under(o, ns)) by {
        let from = object_models(blank.document.objects@);
        assert(from.contains(o));
        let i = choose|i: int| 0 <= i < from.len() && from[i] == o;
        assert(object_models(d.objects@)[i] == object_under(o, ns));
    }
}

/// Nothing is in the active project yet.
pub open spec fn target_empty(app: App) -> bool {
    &&& no_items_open(app.items)
    &&& app.workspace.active() matches Some(p) && p.document.layers@.len() == 0 && p.document.objects@.len() == 0
}

/// The designs of a file were merged into a document, one after the other.
pub open spec fn designs_merged(pre: Document, designs: Seq<Document>, n: int, post: Document) -> bool
    decreases n,
{
    if n <= 0 {
        post == pre
    } else {
        exists|mid: Document| designs_merged(pre, designs, n - 1, mid) && #[trigger] document_merged(mid, designs[n - 1], post)
    }
}

/// The active project with the designs of a file: an empty one without a
/// coordinate system or units of its own takes those of the file.
pub open spec fn project_merged(pre: OpenProject, empty: bool, b: ImportBundle, post: OpenProject) -> bool {
    &&& post == (OpenProject {
        coordinate_reference_system: post.coordinate_reference_system,
        units: post.units,
        document: post.document,
        ..pre
    })
    &&& post.coordinate_reference_system@ == (if empty && trimmed(pre.coordinate_reference_system@).len() == 0 {
        b.coordinate_reference_system@
    } else {
        pre.coordinate_reference_system@
    })
    &&& post.units@ == (if empty && trimmed(pre.units@).len() == 0 {
        b.units@
    } else {
        pre.units@
    })
    &&& designs_merged(pre.document, b.designs@, b.designs@.len() as int, post.document)
}

/// The projects once the designs of a file were merged into the active one.
pub open spec fn workspace_merged(pre: Workspace, empty: bool, b: ImportBundle, post: Workspace) -> bool {
    let i = pre.active_index->0 as int;
    &&& post == (Workspace { projects: post.projects, ..pre })
    &&& post.projects@.len() == pre.projects@.len()
    &&& project_merged(pre.projects@[i], empty, b, post.projects@[i])
    &&& forall|j: int| 0 <= j < pre.projects@.len() && j != i ==> #[trigger] post.projects@[j] == pre.projects@[j]
}

/// What merging one file does.
pub open spec fn bundle_merged(pre: App, b: ImportBundle, post: App) -> bool {
    exists|mid: App|
        {
            &&& mid == (App { workspace: mid.workspace, ..pre })
            &&& workspace_merged(pre.workspace, target_empty(pre), b, mid.workspace)
            &&& #[trigger] bundle_taken_in(mid, false, b, post)
        }
}

/// The first `n` files were merged, one after the other.
pub open spec fn bundles_merged(pre: App, bundles: Seq<ImportBundle>, n: int, post: App) -> bool
    decreases n,
{
    if n <= 0 {
        post == pre
    } else {
        exists|mid: App| bundles_merged(pre, bundles, n - 1, mid) && #[trigger] bundle_merged(mid, bundles[n - 1], post)
    }
}

/// One of the files holds something.
pub open spec fn any_content(bundles: Seq<ImportBundle>) -> bool {
    exists|i: int| 0 <= i < bundles.len() && item_count(#[trigger] bundles[i]) > 0
}

/// What merging files into the active project does.
pub open spec fn bundles_applied(pre: App, bundles: Seq<ImportBundle>, post: App) -> bool {
    if pre.workspace.active() is None {
        post == pre
    } else {
        exists|mid: App| #[trigger]
            bundles_merged(pre, bundles, bundles.len() as int, mid) && post == (if any_content(bundles) {
                App { frame: fitted_if(mid.frame.geometry(), !renderable(pre)).session(), ..mid }
            } else {
                mid
            })
    }
}

/// How much files hold: items, layers and objects.
pub open spec fn bundles_size(bundles: Seq<ImportBundle>) -> int
    decreases bundles.len(),
{
    if bundles.len() == 0 {
        0
    } else {
        bundles_size(bundles.drop_first()) + bundle_size(bundles[0]) + designs_size(bundles[0].designs@)
    }
}

/// How many layers and objects documents hold.
pub open spec fn designs_size(designs: Seq<Document>) -> int
    decreases designs.len(),
{
    if designs.len() == 0 {
        0
    } else {
        designs_size(designs.drop_first()) + designs[0].layers@.len() + designs[0].objects@.len()
    }
}

/// There is room for so much more.
pub open spec fn room_to_merge(app: App, n: int) -> bool {
    &&& app.items.next_triangulation_id + 2 * n < u64::MAX - 2
    &&& app.items.next_block_model_id + 2 * n < u64::MAX - 2
    &&& app.items.next_drill_hole_id + 2 * n < u64::MAX - 2
    &&& app.items.next_point_cloud_id + 2 * n < u64::MAX - 2
    &&& app.items.next_raster_texture_id + 2 * n < u64::MAX - 2
    &&& app.workspace.active() matches Some(p) ==> p.document.next_layer_id + n <= u64::MAX && p.document.next_object_id + n <= u64::MAX
}

proof fn lemma_sizes(bundles: Seq<ImportBundle>)
    ensures
        bundles_size(bundles) >= 0,
    decreases bundles.len(),
{
    if bundles.len() > 0 {
        lemma_sizes(bundles.drop_first());
        lemma_design_sizes(bundles[0].designs@);
    }
}

proof fn lemma_design_sizes(designs: Seq<Document>)
    ensures
        designs_size(designs) >= 0,
    decreases designs.len(),
{
    if designs.len() > 0 {
        lemma_design_sizes(designs.drop_first());
    }
}

/// Merges documents into one, one after the other.
fn merge_designs(document: &mut Document, designs: Vec<Document>)
    requires
        old(document).next_layer_id + designs_size(designs@) <= u64::MAX,
        old(document).next_object_id + designs_size(designs@) <= u64::MAX,
    ensures
        designs_merged(*old(document), designs@, designs@.len() as int, *final(document)),
        final(document).next_layer_id <= old(document).next_layer_id + designs_size(designs@),
        final(document).next_object_id <= old(document).next_object_id + designs_size(designs@),
{
    let ghost all = designs@;
    let mut left = designs;
    let mut done: Ghost<int> = Ghost(0);
    proof {
        assert(all.skip(0) =~= all);
    }
    while left.len() > 0
        invariant
            0 <= done@ <= all.len(),
            left@ == all.skip(done@),
            designs_merged(*old(document), all, done@, *document),
            document.next_layer_id + designs_size(left@) <= u64::MAX,
            document.next_object_id + designs_size(left@) <= u64::MAX,
            document.next_layer_id + designs_size(left@) <= old(document).next_layer_id + designs_size(all),
            document.next_object_id + designs_size(left@) <= old(document).next_object_id + designs_size(all),
        decreases left.len(),
    {
        let ghost mid = *document;
        let ghost before = left@;
        let other = left.remove(0);
        proof {
            assert(other == all[done@]);
            assert(left@ =~= all.skip(done@ + 1));
            assert(left@ =~= before.drop_first());
            lemma_design_sizes(left@);
        }
        document.merge_document_unique_layers(&other);
        proof {
            crate::merging::law_merging_keeps_what_was_there(mid, other, *document);
            lemma_merged_growth(mid, other, *document);
            assert(document_merged(mid, all[done@ + 1 - 1], *document));
            done@ = done@ + 1;
        }
    }
    proof {
        lemma_design_sizes(left@);
    }
}

proof fn lemma_merged_growth(pre: Document, other: Document, post: Document)
    requires
        document_merged(pre, other, post),
    ensures
        post.objects@.len() <= pre.objects@.len() + other.objects@.len(),
{
    let layers = crate::document::layer_models(other.layers@);
    let objects = crate::document::object_models(other.objects@);
    crate::merging::lemma_objects_kept(
        crate::document::object_models(pre.objects@),
        objects,
        layers,
        pre.next_layer_id,
        pre.next_object_id,
        objects.len() as int,
    );
    assert(crate::document::object_models(post.objects@).len() == post.objects@.len());
}

impl OpenProject {
    fn merge_bundle(&mut self, empty: bool, crs: String, units: String, designs: Vec<Document>, bundle: Ghost<ImportBundle>)
        requires
            bundle@.coordinate_reference_system == crs,
            bundle@.units == units,
            bundle@.designs == designs,
            old(self).document.next_layer_id + designs_size(designs@) <= u64::MAX,
            old(self).document.next_object_id + designs_size(designs@) <= u64::MAX,
        ensures
            project_merged(*old(self), empty, bundle@, *final(self)),
            final(self).document.next_layer_id <= old(self).document.next_layer_id + designs_size(designs@),
            final(self).document.next_object_id <= old(self).document.next_object_id + designs_size(designs@),
    {
        if empty && trim(self.coordinate_reference_system.as_str()).as_str().unicode_len() == 0 {
            self.coordinate_reference_system = crs;
        }
        if empty && trim(self.units.as_str()).as_str().unicode_len() == 0 {
            self.units = units;
        }
        merge_designs(&mut self.document, designs);
    }
}

fn find_local(layer: LayerId) -> (r: u64)
    ensures
        r == local_id(layer),
{
    layer.0 % 0x1_0000_0000
}

fn was_known(s: &Vec<LayerId>, l: LayerId) -> (r: bool)
    ensures
        r == known_before(s@, l),
{
    let mut i: usize = 0;
    while i < s.len()
        invariant
            i <= s.len(),
            forall|j: int| 0 <= j < i ==> local_id(#[trigger] s@[j]) != local_id(l),
        decreases s.len() - i,
    {
        if find_local(s[i]) == find_local(l) {
            return true;
        }
        i += 1;
    }
    false
}

impl OpenProject {
    fn list_loaded(&self) -> (r: Vec<LayerId>)
        ensures
            r@ == self.loaded_layers.order(),
    {
        let all = self.loaded_layers.as_vec();
        let mut r: Vec<LayerId> = Vec::new();
        let mut i: usize = 0;
        while i < all.len()
            invariant
                i <= all.len(),
                r@ == all@.take(i as int),
            decreases all.len() - i,
        {
            r.push(all[i]);
            i += 1;
            assert(r@ =~= all@.take(i as int));
        }
        assert(r@ =~= all@);
        r
    }
}

impl Workspace {
    fn load_as_before(&mut self, loaded: &Vec<LayerId>)
        requires
            old(self).projects@.len() == 1,
        ensures
            *final(self) == (Workspace { projects: final(self).projects, ..*old(self) }),
            final(self).projects@.len() == 1,
            final(self).projects@[0] == (OpenProject { loaded_layers: final(self).projects@[0].loaded_layers, ..old(self).projects@[0] }),
            loaded_as_before(loaded@, old(self).projects@[0].document, final(self).projects@[0].loaded_layers@),
    {
        let mut kept: IdSet<LayerId> = IdSet::new();
        let ghost d = self.projects@[0].document;
        let mut i: usize = 0;
        while i < self.projects[0].document.layers.len()
            invariant
                *self == *old(self),
                self.projects@.len() == 1,
                d == self.projects@[0].document,
                i <= d.layers@.len(),
                forall|l: LayerId| #[trigger] kept@.contains(l) <==> known_before(loaded@, l) && exists|k: int| 0 <= k < i && (#[trigger] d.layers@[k]).id == l,
            decreases d.layers@.len() - i,
        {
            let id = self.projects[0].document.layers[i].id;
            let ghost before = kept@;
            if was_known(loaded, id) {
                kept.insert(id);
            }
            proof {
                assert forall|l: LayerId| #[trigger] kept@.contains(l) <==> known_before(loaded@, l) && exists|k: int|
                    0 <= k < i + 1 && (#[trigger] d.layers@[k]).id == l by {
                    assert(before.contains(l) <==> known_before(loaded@, l) && exists|k: int| 0 <= k < i && (#[trigger] d.layers@[k]).id == l);
                    if l == id {
                        assert(d.layers@[i as int].id == l);
                    }
                }
            }
            i += 1;
        }
        self.projects[0].loaded_layers = kept;
        assert forall|l: LayerId| #[trigger] kept@.contains(l) <==> has_layer(d, l) && known_before(loaded@, l) by {
            assert(kept@.contains(l) <==> known_before(loaded@, l) && exists|k: int| 0 <= k < d.layers@.len() && (#[trigger] d.layers@[k]).id == l);
        }
    }
}

impl App {
    fn begin_intake(&self, keep_ids: bool) -> (r: Intake)
        requires
            self.workspace.active() is Some,
        ensures
            intake_begun(*self, keep_ids, r),
    {
        let revision: u64 = match self.workspace.active_project() {
            Some(p) => p.asset_revision,
            None => 0,
        };
        Intake {
            keep_ids,
            scene_drawn: self.scene.objects.len() > 0,
            revision,
            active: self.canvas.active_triangulation,
            frame: self.frame,
            rasters: Vec::new(),
        }
    }

    /// Takes in the items of a file.
    fn take_in_bundle(
        &mut self,
        keep_ids: bool,
        rasters: Vec<ImportedRaster>,
        triangulations: Vec<ImportedTriangulation>,
        block_models: Vec<ImportedBlockModel>,
        drill_holes: Vec<ImportedDrillHoles>,
        point_clouds: Vec<ImportedPointCloud>,
        bundle: Ghost<ImportBundle>,
    )
        requires
            bundle@.rasters == rasters,
            bundle@.triangulations == triangulations,
            bundle@.block_models == block_models,
            bundle@.drill_holes == drill_holes,
            bundle@.point_clouds == point_clouds,
            bundle_fits(bundle@, old(self).items, keep_ids),
            keep_ids ==> no_items_open(old(self).items),
            old(self).workspace.active() is Some,
        ensures
            bundle_taken_in(*old(self), keep_ids, bundle@, *final(self)),
            !keep_ids ==> counters_grew(old(self).items, final(self).items, bundle_size(bundle@)),
    {
        let mut intake = self.begin_intake(keep_ids);
        let ghost before = intake;
        assert(intake_begun(*self, keep_ids, before));
        take_in_items(rasters, triangulations, block_models, drill_holes, point_clouds, &mut self.items, &mut intake, bundle);
        let ghost then = intake;
        assert(items_taken_in(bundle@, old(self).items, before, self.items, then));
        self.canvas.active_triangulation = intake.active;
        self.frame = intake.frame;
        match self.workspace.active_index {
            Some(i) => {
                self.workspace.projects[i].asset_revision = intake.revision;
                assert(self.workspace.projects@ =~= old(self).workspace.projects@.update(i as int, self.workspace.projects@[i as int]));
            },
            None => {},
        }
    }

    /// Takes everything in the active project for stored.
    fn mark_all_project_content_saved(&mut self)
        requires
            old(self).workspace.active() is Some,
        ensures
            content_stored(*old(self), *final(self)),
    {
        self.items.mark_stored();
        match self.workspace.active_index {
            Some(i) => {
                self.workspace.projects[i].mark_saved();
            },
            None => {},
        }
    }

    /// Opens a project that was read from a file in the place of the open one.
    /// `blank` is the project that could be made of the designs in the file.
    pub fn apply_opened_omf_bundle(&mut self, blank: Option<OpenProject>, bundle: ImportBundle, view: ViewOnOpen)
        requires
            old(self).workspace.next_runtime_id < u32::MAX,
            bundle_fits(bundle, old(self).items, true),
            blank matches Some(p) ==> holds_designs(p.document, bundle.designs@),
        ensures
            bundle_opened(*old(self), blank, bundle, view, *final(self)),
    {
        let should_fit = view == ViewOnOpen::Fit || !self.scene_has_renderables();
        let mut named = match blank {
            Some(blank) => blank,
            None => {
                return ;
            },
        };
        let ghost whole = bundle;
        if trim(bundle.project_name.as_str()).as_str().unicode_len() > 0 {
            named.name = bundle.project_name;
        }
        named.coordinate_reference_system = bundle.coordinate_reference_system;
        named.units = bundle.units;
        named.lossy_save_warnings = bundle.warnings;
        named.lossy_save_confirmed = false;
        assert(described(blank->0, whole, named));
        self.set_active_project(named);
        let ghost installed = *self;
        assert(project_installed(*old(self), named, installed));
        proof {
            lemma_installed_empty(*old(self), named, installed);
        }
        self.take_in_bundle(
            true,
            bundle.rasters,
            bundle.triangulations,
            bundle.block_models,
            bundle.drill_holes,
            bundle.point_clouds,
            Ghost(whole),
        );
        let ghost taken = *self;
        assert(bundle_taken_in(installed, true, whole, taken));
        self.mark_all_project_content_saved();
        let ghost stored = *self;
        assert(content_stored(taken, stored));
        self.invalidate_geometry();
        if should_fit {
            self.fit_view_to_extents();
        }
        self.persist_session();
    }

    /// Takes over a project that was read again, unless it is gone or has
    /// changed since. The layers that were loaded still are.
    pub fn apply_project_revert(&mut self, runtime_id: u32, expected_hash: u64, blank: Option<OpenProject>, bundle: ImportBundle)
        requires
            old(self).workspace.next_runtime_id < u32::MAX,
            bundle_fits(bundle, old(self).items, true),
            blank matches Some(p) ==> holds_designs(p.document, bundle.designs@),
        ensures
            project_revert_applied(*old(self), runtime_id, expected_hash, blank, bundle, *final(self)),
    {
        let i: usize = match self.workspace.project_index_for_runtime_id(runtime_id) {
            Some(i) => i,
            None => {
                return ;
            },
        };
        if self.workspace.projects[i].content_hash != expected_hash {
            return ;
        }
        let made = match blank {
            Some(made) => made,
            None => {
                return ;
            },
        };
        let loaded = self.workspace.projects[i].list_loaded();
        self.apply_opened_omf_bundle(Some(made), bundle, ViewOnOpen::Keep);
        let ghost mid = *self;
        proof {
            law_opened_project_is_clean(*old(self), made, bundle, ViewOnOpen::Keep, mid);
        }
        self.workspace.load_as_before(&loaded);
        assert(bundle_opened(*old(self), blank, bundle, ViewOnOpen::Keep, mid));
        assert(loaded_kept(old(self).workspace.projects@[i as int], mid, *self));
    }

    fn target_is_empty(&self) -> (r: bool)
        ensures
            r == target_empty(*self),
    {
        let bare = match self.workspace.active_project() {
            Some(p) => p.document.layers.len() == 0 && p.document.objects.len() == 0,
            None => false,
        };
        bare && self.items.triangulations.len() == 0 && self.items.block_models.len() == 0 && self.items.drill_holes.len() == 0
            && self.items.point_clouds.len() == 0 && self.items.raster_textures.len() == 0
    }

    fn merge_into_active(&mut self, empty: bool, crs: String, units: String, designs: Vec<Document>, bundle: Ghost<ImportBundle>)
        requires
            bundle@.coordinate_reference_system == crs,
            bundle@.units == units,
            bundle@.designs == designs,
            old(self).workspace.active() matches Some(p) && p.document.next_layer_id + designs_size(designs@) <= u64::MAX
                && p.document.next_object_id + designs_size(designs@) <= u64::MAX,
        ensures
            *final(self) == (App { workspace: final(self).workspace, ..*old(self) }),
            workspace_merged(old(self).workspace, empty, bundle@, final(self).workspace),
            final(self).workspace.active() matches Some(p) && p.document.next_layer_id <= old(self).workspace.active()->0.document.next_layer_id
                + designs_size(designs@) && p.document.next_object_id <= old(self).workspace.active()->0.document.next_object_id + designs_size(
                designs@,
            ),
    {
        match self.workspace.active_index {
            Some(i) => {
                self.workspace.projects[i].merge_bundle(empty, crs, units, designs, bundle);
            },
            None => {},
        }
    }

    fn merge_bundle(&mut self, bundle: ImportBundle, rest: Ghost<int>)
        requires
            old(self).workspace.active() is Some,
            rest@ >= 0,
            room_to_merge(*old(self), rest@ + bundle_size(bundle) + designs_size(bundle.designs@)),
        ensures
            bundle_merged(*old(self), bundle, *final(self)),
            final(self).workspace.active() is Some,
            room_to_merge(*final(self), rest@),
    {
        let ghost whole = bundle;
        let empty = self.target_is_empty();
        proof {
            lemma_design_sizes(whole.designs@);
        }
        self.merge_into_active(empty, bundle.coordinate_reference_system, bundle.units, bundle.designs, Ghost(whole));
        let ghost mid = *self;
        assert(mid == (App { workspace: mid.workspace, ..*old(self) }));
        self.take_in_bundle(
            false,
            bundle.rasters,
            bundle.triangulations,
            bundle.block_models,
            bundle.drill_holes,
            bundle.point_clouds,
            Ghost(whole),
        );
        assert(bundle_taken_in(mid, false, whole, *self));
    }

    /// Merges projects that were read from files into the active one.
    pub fn apply_omf_bundles(&mut self, bundles: Vec<ImportBundle>)
        requires
            room_to_merge(*old(self), bundles_size(bundles@)),
        ensures
            bundles_applied(*old(self), bundles@, *final(self)),
    {
        if !self.workspace.has_active_project() {
            return ;
        }
        let should_fit = !self.scene_has_renderables();
        let ghost all = bundles@;
        let mut left = bundles;
        let mut imported = false;
        let mut done: Ghost<int> = Ghost(0);
        proof {
            assert(all.skip(0) =~= all);
        }
        while left.len() > 0
            invariant
                0 <= done@ <= all.len(),
                left@ == all.skip(done@),
                self.workspace.active() is Some,
                bundles_merged(*old(self), all, done@, *self),
                imported == (exists|i: int| 0 <= i < done@ && item_count(#[trigger] all[i]) > 0),
                room_to_merge(*self, bundles_size(left@)),
            decreases left.len(),
        {
            let ghost before = left@;
            let ghost mid = *self;
            let bundle = left.remove(0);
            proof {
                assert(bundle == all[done@]);
                assert(left@ =~= all.skip(done@ + 1));
                assert(left@ =~= before.drop_first());
                lemma_sizes(left@);
            }
            if bundle.designs.len() > 0 || bundle.rasters.len() > 0 || bundle.triangulations.len() > 0 || bundle.block_models.len() > 0
                || bundle.drill_holes.len() > 0 || bundle.point_clouds.len() > 0 {
                imported = true;
            }
            self.merge_bundle(bundle, Ghost(bundles_size(left@)));
            proof {
                assert(bundle_merged(mid, all[done@ + 1 - 1], *self));
                done@ = done@ + 1;
            }
        }
        let ghost merged = *self;
        assert(bundles_merged(*old(self), all, all.len() as int, merged));
        assert(imported == any_content(all));
        if imported {
            self.invalidate_geometry();
            if should_fit {
                self.fit_view_to_extents();
            }
            self.persist_session();
        }
    }
}

/// A project that took the place of another comes without items.
proof fn lemma_installed_empty(pre: App, project: OpenProject, post: App)
    requires
        project_installed(pre, project, post),
    ensures
        no_items_open(post.items),
        post.items.next_triangulation_id == pre.items.next_triangulation_id,
        post.items.next_block_model_id == pre.items.next_block_model_id,
        post.items.next_drill_hole_id == pre.items.next_drill_hole_id,
        post.items.next_point_cloud_id == pre.items.next_point_cloud_id,
        post.items.next_raster_texture_id == pre.items.next_raster_texture_id,
        post.workspace.active() is Some,
{
}

} // verus!
