//! Items that come in from files, and how they look.

use crate::arrivals::{block_model_names, dataset_names, point_cloud_names, raster_names, triangulation_names};
use crate::document::Rgba;
use crate::edit::Edit;
use crate::ids::{BlockModelId, DrillHoleId, ItemRef, PointCloudId, RasterTextureId, TriangulationId};
use crate::intake::{
    raster_for, taken_id, Arrival, ImportedBlockModel, ImportedDrillHoles, ImportedPointCloud, ImportedRaster, ImportedTriangulation, Intake,
};
use crate::items::{
    block_model_index, dataset_index, item_state, point_cloud_index, raster_index, triangulation_index, BlockModelSlice, ItemState, Items,
    OpenBlockModel, OpenDrillHoleDataset, OpenPointCloud, OpenRasterTexture, OpenTriangulation,
};
use crate::loads::{arrived, load_begun, still_reading, LoadKind, LoadOutcome, Loaded, PendingLoad};
use crate::names::{law_unique_name_is_free, numbered, unique_name};
use crate::search::lemma_first_index;
use crate::state::App;
use crate::styles::{
    shown, style_of, style_set, with_color, with_loaded, with_raster, with_slice, with_transfers, with_variable, with_visible, StyleModel,
};
use crate::text::text_of;
use vstd::prelude::*;

verus! {

/// A name that no other has; the wanted one where that is free.
pub open spec fn name_is_new(taken: Seq<Seq<char>>, wanted: Seq<char>, got: Seq<char>) -> bool {
    !taken.contains(got) && (!taken.contains(wanted) ==> got == wanted)
}

/// A name is made free by the least number, from two on, that does it; one
/// that is free stays as it is.
pub proof fn law_names_are_numbered(taken: Seq<Seq<char>>, name: Seq<char>)
    ensures
        name_is_new(taken, name, unique_name(taken, name)),
        taken.contains(name) ==> exists|k: int|
            2 <= k && unique_name(taken, name) == #[trigger] numbered(name, k) && forall|j: int| 2 <= j < k ==> taken.contains(#[trigger] numbered(name, j)),
{
    law_unique_name_is_free(taken, name);
    if taken.contains(name) {
        crate::names::lemma_free_number(taken, name, 2, taken.len());
        let k = crate::names::free_number(taken, name, 2, taken.len());
        assert(unique_name(taken, name) == numbered(name, k));
    }
}

/// A file that was read brings one item of its kind, under the next id and a
/// name that is free, with what the file held; it is shown and loaded.
pub proof fn law_read_file_brings_its_item(pre: App, path: Seq<char>, loaded: Loaded, post: App)
    requires
        arrived(pre, path, loaded, post),
    ensures
        match loaded {
            Loaded::Triangulation(l) => {
                let t = post.items.triangulations@.last();
                &&& post.items.triangulations@.len() == pre.items.triangulations@.len() + 1
                &&& t.id == TriangulationId(pre.items.next_triangulation_id)
                &&& t.mesh == l.mesh && t.bounds == l.bounds && t.visible && t.state.loaded && t.raster_texture is None
                &&& name_is_new(triangulation_names(pre.items.triangulations@), l.name@, t.name@)
                &&& post.items.next_triangulation_id == pre.items.next_triangulation_id + 1
            },
            Loaded::PointCloud(l) => {
                let t = post.items.point_clouds@.last();
                &&& post.items.point_clouds@.len() == pre.items.point_clouds@.len() + 1
                &&& t.id == PointCloudId(pre.items.next_point_cloud_id)
                &&& t.points == l.points && t.state.loaded && t.point_size == 0x3dcc_cccd
                &&& name_is_new(point_cloud_names(pre.items.point_clouds@), l.name@, t.name@)
                &&& post.items.next_point_cloud_id == pre.items.next_point_cloud_id + 1
            },
            Loaded::Raster(l) => {
                let t = post.items.raster_textures@.last();
                &&& post.items.raster_textures@.len() == pre.items.raster_textures@.len() + 1
                &&& t.id == RasterTextureId(pre.items.next_raster_texture_id)
                &&& t.pixels == l.pixels && t.world_to_uv == l.world_to_uv && t.projection == l.projection && t.state.loaded
                &&& name_is_new(raster_names(pre.items.raster_textures@), l.name@, t.name@)
                &&& post.items.next_raster_texture_id == pre.items.next_raster_texture_id + 1
            },
            Loaded::BlockModel(l) => {
                let t = post.items.block_models@.last();
                &&& post.items.block_models@.len() == pre.items.block_models@.len() + 1
                &&& t.id == BlockModelId(pre.items.next_block_model_id)
                &&& t.blocks == l.blocks && t.local_bounds == l.local_bounds && t.visible && t.state.loaded && t.slice is None
                &&& t.active_color_variable == l.active_color_variable && text_of(t.decoded) == text_of(l.active_color_variable)
                &&& t.hide_empty_color_values
                &&& (l.active_color_variable, l.ramp) matches (Some(v), Some(ramp)) ==> t.color_transfers@.len() == 1 && t.color_transfers@[0].variable@ == v@
                    && t.color_transfers@[0].ramp == ramp
                &&& name_is_new(block_model_names(pre.items.block_models@), l.name@, t.name@)
                &&& post.items.next_block_model_id == pre.items.next_block_model_id + 1
            },
            Loaded::DrillHoles(l) => {
                let t = post.items.drill_holes@.last();
                &&& post.items.drill_holes@.len() == pre.items.drill_holes@.len() + 1
                &&& t.id == DrillHoleId(pre.items.next_drill_hole_id)
                &&& t.holes == l.holes && t.fields == l.fields && t.bounds == l.bounds && t.tie_ins == l.tie_ins && t.initiations == l.initiations
                &&& t.visible && t.state.loaded && text_of(t.state.source) == Some(path)
                &&& t.color.active_field is None && t.color.stops@.len() == 0 && t.color.categories@.len() == 0
                &&& name_is_new(dataset_names(pre.items.drill_holes@), l.name@, t.name@)
                &&& post.items.next_drill_hole_id == pre.items.next_drill_hole_id + 1
            },
        },
        !(loaded is Triangulation) ==> post.items.triangulations == pre.items.triangulations,
        !(loaded is PointCloud) ==> post.items.point_clouds == pre.items.point_clouds,
        !(loaded is Raster) ==> post.items.raster_textures == pre.items.raster_textures,
        !(loaded is BlockModel) ==> post.items.block_models == pre.items.block_models,
        !(loaded is DrillHoles) ==> post.items.drill_holes == pre.items.drill_holes,
        post.frame.redraw_requested,
        post.selection == pre.selection && post.steps == pre.steps,
{
    match loaded {
        Loaded::Triangulation(l) => law_names_are_numbered(triangulation_names(pre.items.triangulations@), l.name@),
        Loaded::PointCloud(l) => law_names_are_numbered(point_cloud_names(pre.items.point_clouds@), l.name@),
        Loaded::Raster(l) => law_names_are_numbered(raster_names(pre.items.raster_textures@), l.name@),
        Loaded::BlockModel(l) => law_names_are_numbered(block_model_names(pre.items.block_models@), l.name@),
        Loaded::DrillHoles(l) => law_names_are_numbered(dataset_names(pre.items.drill_holes@), l.name@),
    }
}

/// A file is read once at a time: one that is being read is not read again,
/// else it waits under a ticket of its own with what was asked for.
pub proof fn law_files_are_read_once(pre: App, kind: LoadKind, path: Seq<char>, mapping: Option<u64>, limit: u32, post: App)
    requires
        load_begun(pre, kind, path, mapping, limit, post),
    ensures
        ({
            let (was, is) = (pre.loads.of(kind)@, post.loads.of(kind)@);
            let again = exists|i: int| 0 <= i < was.len() && (#[trigger] was[i]).path@ == path && (kind == LoadKind::DrillHoles ==> was[i].mapping == mapping);
            &&& again ==> post == pre
            &&& !again ==> is.len() == was.len() + 1 && is.last().path@ == path && is.last().mapping == mapping && is.last().limit == limit && is.last().ticket
                == pre.jobs.next_ticket && post.jobs.tasks@.len() == pre.jobs.tasks@.len() + 1 && post.jobs.tasks@.last().ticket == is.last().ticket
        }),
        post.items == pre.items && post.steps == pre.steps,
{
}

/// Each kind of file waits in a list of its own.
pub proof fn law_kinds_wait_apart(app: App)
    ensures
        app.loads.of(LoadKind::Triangulation) == app.loads.triangulations,
        app.loads.of(LoadKind::PointCloud) == app.loads.point_clouds,
        app.loads.of(LoadKind::Raster) == app.loads.rasters,
        app.loads.of(LoadKind::BlockModel) == app.loads.block_models,
        app.loads.of(LoadKind::DrillHoles) == app.loads.drill_holes,
{
}

/// Files that are still being read stay in the list, in their order, and the
/// others leave it.
pub proof fn law_read_files_leave_the_list(files: Seq<PendingLoad>, outcomes: Seq<LoadOutcome>, k: int)
    requires
        0 <= k < files.len(),
        files.len() == outcomes.len(),
    ensures
        outcomes[k] is Running ==> still_reading(files, outcomes).contains(files[k]),
        still_reading(files, outcomes).len() <= files.len(),
        (forall|i: int| 0 <= i < files.len() ==> (#[trigger] outcomes[i]) is Running) ==> still_reading(files, outcomes) == files,
        (forall|i: int| 0 <= i < files.len() ==> !((#[trigger] outcomes[i]) is Running)) ==> still_reading(files, outcomes).len() == 0,
{
    lemma_still_reading(files, outcomes, k);
    lemma_all_reading(files, outcomes);
}

proof fn lemma_still_reading(files: Seq<PendingLoad>, outcomes: Seq<LoadOutcome>, k: int)
    requires
        0 <= k < files.len() <= outcomes.len(),
    ensures
        outcomes[k] is Running ==> still_reading(files, outcomes).contains(files[k]),
    decreases files.len(),
{
    let short = files.drop_last();
    let (before, all) = (still_reading(short, outcomes), still_reading(files, outcomes));
    if outcomes[k] is Running {
        if k < files.len() - 1 {
            lemma_still_reading(short, outcomes, k);
            let i = choose|i: int| 0 <= i < before.len() && before[i] == files[k];
            assert(all[i] == files[k]);
        } else {
            assert(all[all.len() - 1] == files[k]);
        }
    }
}

proof fn lemma_all_reading(files: Seq<PendingLoad>, outcomes: Seq<LoadOutcome>)
    requires
        files.len() <= outcomes.len(),
    ensures
        still_reading(files, outcomes).len() <= files.len(),
        (forall|i: int| 0 <= i < files.len() ==> (#[trigger] outcomes[i]) is Running) ==> still_reading(files, outcomes) == files,
        (forall|i: int| 0 <= i < files.len() ==> !((#[trigger] outcomes[i]) is Running)) ==> still_reading(files, outcomes).len() == 0,
    decreases files.len(),
{
    if files.len() > 0 {
        lemma_all_reading(files.drop_last(), outcomes);
        assert(files.drop_last().push(files.last()) =~= files);
        if forall|i: int| 0 <= i < files.len() ==> (#[trigger] outcomes[i]) is Running {
            assert(outcomes[files.len() - 1] is Running);
        }
        if forall|i: int| 0 <= i < files.len() ==> !((#[trigger] outcomes[i]) is Running) {
            assert(!(outcomes[files.len() - 1] is Running));
        }
    }
}

/// An item of a project keeps the id that it had where that is still free;
/// else it gets one that no other has.
pub open spec fn id_fits(keep: bool, wish: Option<u64>, used: Set<u64>, next: u64, got: u64) -> bool {
    &&& keep && wish is Some && !used.contains(wish->0) ==> got == wish->0
    &&& !keep ==> got == next
    &&& keep && crate::intake::some_free(next, used) ==> !used.contains(got)
}

/// An id is given as it fits.
pub proof fn law_ids_fit(keep: bool, wish: Option<u64>, next: u64, used: Set<u64>, twice: bool)
    ensures
        id_fits(keep, wish, used, next, taken_id(keep, wish, next, used, twice).0),
{
    if crate::intake::some_free(next, used) {
        crate::intake::law_allocated_id_is_free(wish, next, used);
    }
}

/// What an item that came with a project is stored and loaded as.
pub open spec fn state_fits(s: ItemState, source: Option<String>, format: Option<String>, loaded: bool, deferred: bool) -> bool {
    s.loaded == loaded && s.deferred == deferred && s.source == source && s.format == format && s.epoch == 0 && s.saved_epoch is None
}

/// A surface that came with a project looks as it did there: its mesh, colours
/// and lines, and the picture that the raster of its file has become.
pub proof fn law_surface_comes_as_it_was(x: ImportedTriangulation, pre: Items, before: Intake, post: Items, then: Intake)
    requires
        x.taken_in(pre, before, post, then),
    ensures
        ({
            let t = post.triangulations@.last();
            &&& post.triangulations@.len() == pre.triangulations@.len() + 1 && post.triangulations@.drop_last() == pre.triangulations@
            &&& t.mesh == x.loaded.mesh && t.bounds == x.loaded.bounds && t.color == x.color && t.line_color == x.line_color && t.line_weight == x.line_weight
                && t.raster_opacity == x.raster_opacity && t.visible
            &&& x.raster_texture_id is None ==> t.raster_texture is None
            &&& x.raster_texture_id matches Some(r) ==> t.raster_texture == raster_for(before.rasters@, r)
            &&& state_fits(t.state, x.source_name, x.source_format, x.is_loaded, x.deferred)
            &&& name_is_new(triangulation_names(pre.triangulations@), x.loaded.name@, t.name@)
            &&& id_fits(
                before.keep_ids,
                x.preferred_id,
                crate::arriving::triangulation_ids(pre.triangulations@).to_set(),
                pre.next_triangulation_id,
                t.id.0,
            )
            &&& before.active is Some ==> then.active == before.active
            &&& before.active is None && x.is_loaded ==> then.active == Some(t.id)
        }),
        before.revision < u64::MAX ==> then.revision == before.revision + 1,
        then.keep_ids == before.keep_ids,
        !before.keep_ids && pre.next_triangulation_id < u64::MAX ==> post.next_triangulation_id == pre.next_triangulation_id + 1,
        post.raster_textures == pre.raster_textures && post.block_models == pre.block_models && post.drill_holes == pre.drill_holes && post.point_clouds == pre.point_clouds,
{
    law_names_are_numbered(triangulation_names(pre.triangulations@), x.loaded.name@);
    law_ids_fit(
        before.keep_ids,
        x.preferred_id,
        pre.next_triangulation_id,
        crate::arriving::triangulation_ids(pre.triangulations@).to_set(),
        false,
    );
}

/// The picture of a surface is the one that was taken in last under the id
/// that the file names.
pub proof fn law_rasters_are_found(rasters: Seq<(u64, RasterTextureId)>, id: u64, k: int)
    requires
        0 <= k < rasters.len(),
        rasters[k].0 == id,
        forall|j: int| k < j < rasters.len() ==> (#[trigger] rasters[j]).0 != id,
    ensures
        raster_for(rasters, id) == Some(rasters[k].1),
    decreases rasters.len(),
{
    if k < rasters.len() - 1 {
        assert(rasters[rasters.len() - 1].0 != id);
        law_rasters_are_found(rasters.drop_last(), id, k);
    }
}

/// A raster keeps its pixels and where it lies, and is remembered under the id
/// that its file gives it.
pub proof fn law_raster_comes_as_it_was(x: ImportedRaster, pre: Items, before: Intake, post: Items, then: Intake)
    requires
        x.taken_in(pre, before, post, then),
    ensures
        ({
            let t = post.raster_textures@.last();
            &&& post.raster_textures@.len() == pre.raster_textures@.len() + 1 && post.raster_textures@.drop_last() == pre.raster_textures@
            &&& t.pixels == x.loaded.pixels && t.world_to_uv == x.loaded.world_to_uv && t.projection == x.loaded.projection
            &&& state_fits(t.state, x.source_name, x.source_format, x.is_loaded, x.deferred)
            &&& name_is_new(raster_names(pre.raster_textures@), x.loaded.name@, t.name@)
            &&& id_fits(
                before.keep_ids,
                x.preferred_id,
                crate::arriving::raster_ids(pre.raster_textures@).to_set(),
                pre.next_raster_texture_id,
                t.id.0,
            )
            &&& x.preferred_id matches Some(w) ==> then.rasters@.last() == (w, t.id) && then.rasters@.drop_last() == before.rasters@
            &&& x.preferred_id is None ==> then.rasters@ == before.rasters@
        }),
        before.revision < u64::MAX ==> then.revision == before.revision + 1,
        then.keep_ids == before.keep_ids,
        !before.keep_ids && pre.next_raster_texture_id < u64::MAX ==> post.next_raster_texture_id == pre.next_raster_texture_id + 1,
        post.triangulations == pre.triangulations && post.block_models == pre.block_models && post.drill_holes == pre.drill_holes && post.point_clouds == pre.point_clouds,
{
    law_names_are_numbered(raster_names(pre.raster_textures@), x.loaded.name@);
    law_ids_fit(before.keep_ids, x.preferred_id, pre.next_raster_texture_id, crate::arriving::raster_ids(pre.raster_textures@).to_set(), true);
    if x.preferred_id is Some {
        assert(then.rasters@.drop_last() =~= before.rasters@);
    }
}

/// A block model keeps its blocks, colour and slice. Its ramps follow the one
/// that its file gives for the variable that is shown.
pub proof fn law_block_model_comes_as_it_was(x: ImportedBlockModel, pre: Items, before: Intake, post: Items, then: Intake)
    requires
        x.taken_in(pre, before, post, then),
    ensures
        ({
            let t = post.block_models@.last();
            let n = t.color_transfers@.len() - x.color_transfers@.len();
            &&& post.block_models@.len() == pre.block_models@.len() + 1 && post.block_models@.drop_last() == pre.block_models@
            &&& t.blocks == x.loaded.blocks && t.local_bounds == x.loaded.local_bounds && t.color == x.color && t.slice == x.slice && t.visible
            &&& t.active_color_variable == x.loaded.active_color_variable && t.hide_empty_color_values == x.hide_empty_color_values
            &&& n == if x.is_loaded && x.loaded.active_color_variable is Some && x.loaded.ramp is Some {
                1int
            } else {
                0
            }
            &&& n == 1 ==> t.color_transfers@[0].variable@ == x.loaded.active_color_variable->0@ && t.color_transfers@[0].ramp == x.loaded.ramp->0
            &&& forall|k: int| 0 <= k < x.color_transfers@.len() ==> t.color_transfers@[n + k] == #[trigger] x.color_transfers@[k]
            &&& state_fits(t.state, x.source_name, x.source_format, x.is_loaded, x.deferred)
            &&& name_is_new(block_model_names(pre.block_models@), x.loaded.name@, t.name@)
            &&& id_fits(
                before.keep_ids,
                x.preferred_id,
                crate::arriving::block_model_ids(pre.block_models@).to_set(),
                pre.next_block_model_id,
                t.id.0,
            )
        }),
        before.revision < u64::MAX ==> then.revision == before.revision + 1,
        then.keep_ids == before.keep_ids,
        !before.keep_ids && pre.next_block_model_id < u64::MAX ==> post.next_block_model_id == pre.next_block_model_id + 1,
        post.triangulations == pre.triangulations && post.raster_textures == pre.raster_textures && post.drill_holes == pre.drill_holes && post.point_clouds == pre.point_clouds,
{
    law_names_are_numbered(block_model_names(pre.block_models@), x.loaded.name@);
    law_ids_fit(before.keep_ids, x.preferred_id, pre.next_block_model_id, crate::arriving::block_model_ids(pre.block_models@).to_set(), true);
}

/// A dataset keeps its holes, fields, colours, legs and starts.
pub proof fn law_dataset_comes_as_it_was(x: ImportedDrillHoles, pre: Items, before: Intake, post: Items, then: Intake)
    requires
        x.taken_in(pre, before, post, then),
    ensures
        ({
            let t = post.drill_holes@.last();
            &&& post.drill_holes@.len() == pre.drill_holes@.len() + 1 && post.drill_holes@.drop_last() == pre.drill_holes@
            &&& t.holes == x.loaded.holes && t.fields == x.loaded.fields && t.bounds == x.loaded.bounds && t.color == x.color && t.tie_ins == x.loaded.tie_ins
                && t.initiations == x.loaded.initiations && t.visible
            &&& state_fits(t.state, x.source_name, x.source_format, x.is_loaded, x.deferred)
            &&& name_is_new(dataset_names(pre.drill_holes@), x.loaded.name@, t.name@)
            &&& id_fits(
                before.keep_ids,
                x.preferred_id,
                crate::arriving::dataset_ids(pre.drill_holes@).to_set(),
                pre.next_drill_hole_id,
                t.id.0,
            )
        }),
        before.revision < u64::MAX ==> then.revision == before.revision + 1,
        then.keep_ids == before.keep_ids,
        !before.keep_ids && pre.next_drill_hole_id < u64::MAX ==> post.next_drill_hole_id == pre.next_drill_hole_id + 1,
        post.triangulations == pre.triangulations && post.raster_textures == pre.raster_textures && post.block_models == pre.block_models && post.point_clouds == pre.point_clouds,
{
    law_names_are_numbered(dataset_names(pre.drill_holes@), x.loaded.name@);
    law_ids_fit(before.keep_ids, x.preferred_id, pre.next_drill_hole_id, crate::arriving::dataset_ids(pre.drill_holes@).to_set(), true);
}

/// A point cloud keeps its points, colour and size.
pub proof fn law_point_cloud_comes_as_it_was(x: ImportedPointCloud, pre: Items, before: Intake, post: Items, then: Intake)
    requires
        x.taken_in(pre, before, post, then),
    ensures
        ({
            let t = post.point_clouds@.last();
            &&& post.point_clouds@.len() == pre.point_clouds@.len() + 1 && post.point_clouds@.drop_last() == pre.point_clouds@
            &&& t.points == x.loaded.points && t.color == x.color && t.point_size == x.point_size
            &&& state_fits(t.state, x.source_name, x.source_format, x.is_loaded, x.deferred)
            &&& name_is_new(point_cloud_names(pre.point_clouds@), x.loaded.name@, t.name@)
            &&& id_fits(
                before.keep_ids,
                x.preferred_id,
                crate::arriving::point_cloud_ids(pre.point_clouds@).to_set(),
                pre.next_point_cloud_id,
                t.id.0,
            )
        }),
        before.revision < u64::MAX ==> then.revision == before.revision + 1,
        then.keep_ids == before.keep_ids,
        !before.keep_ids && pre.next_point_cloud_id < u64::MAX ==> post.next_point_cloud_id == pre.next_point_cloud_id + 1,
        post.triangulations == pre.triangulations && post.raster_textures == pre.raster_textures && post.block_models == pre.block_models && post.drill_holes == pre.drill_holes,
{
    law_names_are_numbered(point_cloud_names(pre.point_clouds@), x.loaded.name@);
    law_ids_fit(before.keep_ids, x.preferred_id, pre.next_point_cloud_id, crate::arriving::point_cloud_ids(pre.point_clouds@).to_set(), true);
}

/// An item is found by its id: what is found has it, and nothing is found only
/// where no item has it.
pub proof fn law_items_are_found(items: Items, a: TriangulationId, b: BlockModelId, c: DrillHoleId, d: PointCloudId, e: RasterTextureId, k: int)
    ensures
        ({
            let (s, i) = (items.triangulations@, triangulation_index(items.triangulations@, a));
            &&& i < s.len() ==> 0 <= i && s[i].id == a
            &&& 0 <= k < s.len() && s[k].id == a ==> i <= k
        }),
        ({
            let (s, i) = (items.block_models@, block_model_index(items.block_models@, b));
            &&& i < s.len() ==> 0 <= i && s[i].id == b
            &&& 0 <= k < s.len() && s[k].id == b ==> i <= k
        }),
        ({
            let (s, i) = (items.drill_holes@, dataset_index(items.drill_holes@, c));
            &&& i < s.len() ==> 0 <= i && s[i].id == c
            &&& 0 <= k < s.len() && s[k].id == c ==> i <= k
        }),
        ({
            let (s, i) = (items.point_clouds@, point_cloud_index(items.point_clouds@, d));
            &&& i < s.len() ==> 0 <= i && s[i].id == d
            &&& 0 <= k < s.len() && s[k].id == d ==> i <= k
        }),
        ({
            let (s, i) = (items.raster_textures@, raster_index(items.raster_textures@, e));
            &&& i < s.len() ==> 0 <= i && s[i].id == e
            &&& 0 <= k < s.len() && s[k].id == e ==> i <= k
        }),
{
    lemma_first_index(items.triangulations@, |t: OpenTriangulation| t.id == a);
    lemma_first_index(items.block_models@, |x: OpenBlockModel| x.id == b);
    lemma_first_index(items.drill_holes@, |x: OpenDrillHoleDataset| x.id == c);
    lemma_first_index(items.point_clouds@, |x: OpenPointCloud| x.id == d);
    lemma_first_index(items.raster_textures@, |x: OpenRasterTexture| x.id == e);
}

/// The state of an item is that of the item found by its id.
pub proof fn law_state_of_an_item(items: Items, item: ItemRef, s: ItemState)
    requires
        item_state(items, item) == Some(s),
    ensures
        match item {
            ItemRef::Triangulation(id) => exists|k: int|
                0 <= k < items.triangulations@.len() && (#[trigger] items.triangulations@[k]).id == id && items.triangulations@[k].state == s,
            ItemRef::BlockModel(id) => exists|k: int|
                0 <= k < items.block_models@.len() && (#[trigger] items.block_models@[k]).id == id && items.block_models@[k].state == s,
            ItemRef::DrillHole(id) => exists|k: int|
                0 <= k < items.drill_holes@.len() && (#[trigger] items.drill_holes@[k]).id == id && items.drill_holes@[k].state == s,
            ItemRef::PointCloud(id) => exists|k: int|
                0 <= k < items.point_clouds@.len() && (#[trigger] items.point_clouds@[k]).id == id && items.point_clouds@[k].state == s,
            ItemRef::Raster(id) => exists|k: int|
                0 <= k < items.raster_textures@.len() && (#[trigger] items.raster_textures@[k]).id == id && items.raster_textures@[k].state == s,
        },
{
    match item {
        ItemRef::Triangulation(id) => {
            lemma_first_index(items.triangulations@, |t: OpenTriangulation| t.id == id);
            assert(items.triangulations@[triangulation_index(items.triangulations@, id)].id == id);
        },
        ItemRef::BlockModel(id) => {
            lemma_first_index(items.block_models@, |x: OpenBlockModel| x.id == id);
            assert(items.block_models@[block_model_index(items.block_models@, id)].id == id);
        },
        ItemRef::DrillHole(id) => {
            lemma_first_index(items.drill_holes@, |d: OpenDrillHoleDataset| d.id == id);
            assert(items.drill_holes@[dataset_index(items.drill_holes@, id)].id == id);
        },
        ItemRef::PointCloud(id) => {
            lemma_first_index(items.point_clouds@, |x: OpenPointCloud| x.id == id);
            assert(items.point_clouds@[point_cloud_index(items.point_clouds@, id)].id == id);
        },
        ItemRef::Raster(id) => {
            lemma_first_index(items.raster_textures@, |x: OpenRasterTexture| x.id == id);
            assert(items.raster_textures@[raster_index(items.raster_textures@, id)].id == id);
        },
    }
}

/// The style of an item is how it is drawn now: every setting of it.
pub proof fn law_style_of_an_item(items: Items, item: ItemRef, style: StyleModel)
    requires
        style_of(items, item) == Some(style),
    ensures
        match item {
            ItemRef::Triangulation(id) => {
                let t = items.triangulations@[triangulation_index(items.triangulations@, id)];
                style is Triangulation && style->Triangulation_loaded == t.state.loaded && style->Triangulation_visible == t.visible
                    && style->Triangulation_color == t.color && style->Triangulation_line_color == t.line_color && style->Triangulation_line_weight
                    == t.line_weight && style->Triangulation_raster_texture == t.raster_texture && style->Triangulation_raster_opacity == t.raster_opacity
            },
            ItemRef::BlockModel(id) => {
                let t = items.block_models@[block_model_index(items.block_models@, id)];
                style is BlockModel && style->BlockModel_loaded == t.state.loaded && style->BlockModel_visible == t.visible && style->BlockModel_color == t.color
                    && style->BlockModel_slice == t.slice && style->BlockModel_active_color_variable == text_of(t.active_color_variable)
                    && style->BlockModel_hide_empty_color_values == t.hide_empty_color_values && style->BlockModel_color_transfers.len()
                    == t.color_transfers@.len() && forall|k: int|
                    0 <= k < t.color_transfers@.len() ==> #[trigger] style->BlockModel_color_transfers[k] == (
                        t.color_transfers@[k].variable@,
                        t.color_transfers@[k].ramp,
                    )
            },
            ItemRef::DrillHole(id) => {
                let t = items.drill_holes@[dataset_index(items.drill_holes@, id)];
                style is DrillHole && style->DrillHole_loaded == t.state.loaded && style->DrillHole_color.active_field == text_of(t.color.active_field)
                    && style->DrillHole_color.preset == t.color.preset && style->DrillHole_color.smooth == t.color.smooth && style->DrillHole_color.stops
                    == t.color.stops@ && style->DrillHole_color.categories.len() == t.color.categories@.len() && forall|k: int|
                    0 <= k < t.color.categories@.len() ==> #[trigger] style->DrillHole_color.categories[k] == (
                        t.color.categories@[k].category@,
                        t.color.categories@[k].color,
                    )
            },
            ItemRef::PointCloud(id) => {
                let t = items.point_clouds@[point_cloud_index(items.point_clouds@, id)];
                style is PointCloud && style->PointCloud_loaded == t.state.loaded && style->PointCloud_color == t.color && style->PointCloud_point_size
                    == t.point_size
            },
            ItemRef::Raster(id) => style is Raster && style->Raster_loaded == items.raster_textures@[raster_index(items.raster_textures@, id)].state.loaded,
        },
{
}

/// Changing a style goes in one step from how the item is drawn to how it is
/// to be; where that is how it is drawn, nothing happens.
pub proof fn law_restyling(pre: App, item: ItemRef, to: StyleModel, post: App)
    requires
        style_set(pre, item, to, post),
    ensures
        post.steps@.len() == pre.steps@.len() || post.steps@.len() == pre.steps@.len() + 1,
        post.steps@.len() == pre.steps@.len() + 1 ==> post.steps@.last().edits@.len() == 1 && (post.steps@.last().edits@[0] matches Edit::SetItemStyle {
            item: i,
            before,
            after,
        } && i == item && Some(before@) == style_of(pre.items, item) && after@ == to),
        style_of(pre.items, item) is None ==> post == pre,
        post.items == pre.items && post.selection == pre.selection,
{
}

/// Changing one setting of a style changes that one and no other.
pub proof fn law_one_setting_at_a_time(
    style: StyleModel,
    on: bool,
    color: Rgba,
    raster: Option<RasterTextureId>,
    slice: Option<BlockModelSlice>,
    variable: Seq<char>,
    transfers: Seq<(Seq<char>, u64)>,
)
    ensures
        style matches StyleModel::Triangulation { loaded, visible, color: c, line_color, line_weight, raster_texture, raster_opacity } ==> {
            &&& with_loaded(style, on) == (StyleModel::Triangulation {
                loaded: on,
                visible,
                color: c,
                line_color,
                line_weight,
                raster_texture,
                raster_opacity,
            })
            &&& with_visible(style, on) == (StyleModel::Triangulation {
                loaded,
                visible: on,
                color: c,
                line_color,
                line_weight,
                raster_texture,
                raster_opacity,
            })
            &&& with_color(style, color) == (StyleModel::Triangulation {
                loaded,
                visible,
                color,
                line_color,
                line_weight,
                raster_texture,
                raster_opacity,
            })
            &&& with_raster(style, raster) == (StyleModel::Triangulation {
                loaded,
                visible,
                color: c,
                line_color,
                line_weight,
                raster_texture: raster,
                raster_opacity,
            })
        },
        with_slice(style, slice) is BlockModel ==> with_slice(style, slice)->BlockModel_slice == slice && with_slice(
            with_slice(style, slice),
            style->BlockModel_slice,
        ) == style,
        with_variable(style, variable) is BlockModel ==> with_variable(style, variable)->BlockModel_active_color_variable == Some(variable) && (
        style->BlockModel_active_color_variable is Some ==> with_variable(with_variable(style, variable), style->BlockModel_active_color_variable->0) == style),
        with_transfers(style, transfers) is BlockModel ==> with_transfers(style, transfers)->BlockModel_color_transfers == transfers && with_transfers(
            with_transfers(style, transfers),
            style->BlockModel_color_transfers,
        ) == style,
        with_color(style, color) is BlockModel ==> with_color(style, color)->BlockModel_color == color && with_color(
            with_color(style, color),
            style->BlockModel_color,
        ) == style,
        with_color(style, color) is PointCloud ==> with_color(style, color)->PointCloud_color == color && with_color(
            with_color(style, color),
            style->PointCloud_color,
        ) == style,
        with_visible(style, on) is BlockModel ==> with_visible(style, on)->BlockModel_visible == on && with_visible(
            with_visible(style, on),
            style->BlockModel_visible,
        ) == style,
        with_loaded(style, on) is BlockModel ==> with_loaded(style, on)->BlockModel_loaded == on && with_loaded(
            with_loaded(style, on),
            style->BlockModel_loaded,
        ) == style,
        with_loaded(style, on) is DrillHole ==> with_loaded(style, on)->DrillHole_loaded == on && with_loaded(
            with_loaded(style, on),
            style->DrillHole_loaded,
        ) == style,
        with_loaded(style, on) is PointCloud ==> with_loaded(style, on)->PointCloud_loaded == on && with_loaded(
            with_loaded(style, on),
            style->PointCloud_loaded,
        ) == style,
        with_loaded(style, on) is Raster ==> with_loaded(style, on)->Raster_loaded == on,
        shown(with_visible(style, on)) == (on || !(style is Triangulation || style is BlockModel)),
{
}

} // verus!
