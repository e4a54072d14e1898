//! Converting what is selected into another coordinate system.

use crate::collars::{extent_of, refresh_bounds};
use crate::document::{Document, Object};
use crate::drawing::move_tool::active_runtime;
use crate::edit::Edit;
use crate::error::AppError;
use crate::ids::{contains_key, ItemRef, LayerId, ObjectId, SceneEntityId};
use crate::ieee::{equal32, f32_equal, f32_finite, f64_finite, finite32, finite64};
use crate::items::{
    item_state, Bounds, BlockModelSlice, DrillHole, DrillInterval, HolePlacement, Items, OpenBlockModel, OpenDrillHoleDataset, OpenItem,
    OpenPointCloud, OpenRasterTexture, OpenTriangulation,
};
use crate::jobs::{job_queued, last_work, JobKey, Work};
use crate::state::App;
use crate::workspace::{index_of_runtime, OpenProject};
use vstd::prelude::*;

verus! {

/// What the chosen conversion makes of layers: the elevation of each, where it
/// has one, or why there is no conversion.
pub struct SurveyFacts {
    pub refused: Option<AppError>,
    pub elevations: Vec<(LayerId, Option<u32>)>,
    pub target_system: String,
}

/// A layer that moves up or down: the bits of its elevation before and after.
#[derive(Clone, Copy, PartialEq, Eq, Structural, Debug)]
pub struct ElevationChange {
    pub layer: LayerId,
    pub before: u32,
    pub after: u32,
}

/// An item as it stood, by its content counter.
#[derive(Clone, Copy, PartialEq, Eq, Structural, Debug)]
pub struct ItemMark {
    pub item: ItemRef,
    pub epoch: u64,
}

/// A conversion under way.
pub struct SurveyJob {
    pub runtime_id: u32,
    pub objects: Vec<ObjectId>,
    pub marks: Vec<ItemMark>,
    pub elevations: Vec<ElevationChange>,
    pub target_system: String,
}

/// What is converted.
pub ghost struct Gathered {
    pub objects: Seq<ObjectId>,
    pub layers: Seq<LayerId>,
    pub marks: Seq<ItemMark>,
    pub keys: Seq<JobKey>,
}

/// The item behind a handle, and what a job on it derives from.
pub open spec fn item_behind(handle: SceneEntityId) -> Option<(ItemRef, JobKey)> {
    match handle {
        SceneEntityId::Object(_) => None,
        SceneEntityId::Triangulation(id) => Some((ItemRef::Triangulation(id), JobKey::Triangulation(id))),
        SceneEntityId::BlockModel(id) => Some((ItemRef::BlockModel(id), JobKey::BlockModel(id))),
        SceneEntityId::DrillHole(id) => Some((ItemRef::DrillHole(id), JobKey::DrillHole(id))),
        SceneEntityId::PointCloud(id) => Some((ItemRef::PointCloud(id), JobKey::PointCloud(id))),
        SceneEntityId::Raster(id) => Some((ItemRef::Raster(id), JobKey::Raster(id))),
    }
}

fn find_item_behind(handle: SceneEntityId) -> (r: Option<(ItemRef, JobKey)>)
    ensures
        r == item_behind(handle),
{
    match handle {
        SceneEntityId::Object(_) => None,
        SceneEntityId::Triangulation(id) => Some((ItemRef::Triangulation(id), JobKey::Triangulation(id))),
        SceneEntityId::BlockModel(id) => Some((ItemRef::BlockModel(id), JobKey::BlockModel(id))),
        SceneEntityId::DrillHole(id) => Some((ItemRef::DrillHole(id), JobKey::DrillHole(id))),
        SceneEntityId::PointCloud(id) => Some((ItemRef::PointCloud(id), JobKey::PointCloud(id))),
        SceneEntityId::Raster(id) => Some((ItemRef::Raster(id), JobKey::Raster(id))),
    }
}

/// One more handle is converted: an object of the project on a loaded layer,
/// or an item whose data is in memory.
pub open spec fn gathered_one(g: Gathered, document: Document, items: Items, handle: SceneEntityId) -> Result<Gathered, AppError> {
    match handle {
        SceneEntityId::Object(id) => match document.object(id) {
            None => Err(AppError::WrongProject),
            Some(o) => match document.layer_model(o.layer()) {
                Some(l) if l.loaded => Ok(
                    Gathered {
                        objects: g.objects.push(id),
                        layers: if g.layers.contains(l.id) {
                            g.layers
                        } else {
                            g.layers.push(l.id)
                        },
                        ..g
                    },
                ),
                _ => Err(AppError::DataUnavailable),
            },
        },
        _ => {
            let (item, key) = item_behind(handle)->0;
            match item_state(items, item) {
                Some(s) if s.loaded && !s.deferred => Ok(
                    Gathered { marks: g.marks.push(ItemMark { item, epoch: s.epoch }), keys: g.keys.push(key), ..g },
                ),
                _ => Err(AppError::DataUnavailable),
            }
        },
    }
}

/// What is converted of the first `n` handles.
pub open spec fn gathered(project: OpenProject, items: Items, handles: Seq<SceneEntityId>, n: int) -> Result<Gathered, AppError>
    decreases n,
{
    if n <= 0 {
        Ok(
            Gathered {
                objects: Seq::empty(),
                layers: Seq::empty(),
                marks: Seq::empty(),
                keys: seq![JobKey::Project { runtime_id: project.runtime_id, document_revision: project.revision }],
            },
        )
    } else {
        match gathered(project, items, handles, n - 1) {
            Err(e) => Err(e),
            Ok(g) => gathered_one(g, project.document, items, handles[n - 1]),
        }
    }
}

/// The elevation that the conversion gives a layer.
pub open spec fn elevation_for(told: Seq<(LayerId, Option<u32>)>, layer: LayerId) -> Option<u32>
    decreases told.len(),
{
    if told.len() == 0 {
        None
    } else if told.last().0 == layer {
        told.last().1
    } else {
        elevation_for(told.drop_last(), layer)
    }
}

/// The layers among the first `n` that move up or down.
pub open spec fn elevation_changes(
    document: Document,
    layers: Seq<LayerId>,
    told: Seq<(LayerId, Option<u32>)>,
    n: int,
) -> Result<Seq<ElevationChange>, AppError>
    decreases n,
{
    if n <= 0 {
        Ok(Seq::empty())
    } else {
        match elevation_changes(document, layers, told, n - 1) {
            Err(e) => Err(e),
            Ok(before) => match (elevation_for(told, layers[n - 1]), document.layer_model(layers[n - 1])) {
                (Some(to), Some(l)) if f32_finite(to) => Ok(
                    if f32_equal(to, l.elevation) {
                        before
                    } else {
                        before.push(ElevationChange { layer: layers[n - 1], before: l.elevation, after: to })
                    },
                ),
                _ => Err(AppError::InvalidTransform),
            },
        }
    }
}

/// What is queued: the objects, the items as they stand and the layers that
/// move.
pub open spec fn converts(job: SurveyJob, project: OpenProject, g: Gathered, changes: Seq<ElevationChange>, facts: SurveyFacts) -> bool {
    &&& job.runtime_id == project.runtime_id
    &&& job.objects@ == g.objects
    &&& job.marks@ == g.marks
    &&& job.elevations@ == changes
    &&& job.target_system@ == facts.target_system@
}

/// What converting the selection does: it is converted in the background, all
/// of it or nothing.
pub open spec fn selection_transformed(pre: App, facts: SurveyFacts, r: Result<(), AppError>, post: App) -> bool {
    let handles = pre.selection.handles.order();
    match (facts.refused, pre.workspace.active()) {
        (Some(e), _) => r == Err::<(), AppError>(e) && post == pre,
        (None, None) => r == Err::<(), AppError>(AppError::WrongProject) && post == pre,
        (None, Some(project)) => match gathered(project, pre.items, handles, handles.len() as int) {
            Err(e) => r == Err::<(), AppError>(e) && post == pre,
            Ok(g) => if g.objects.len() == 0 && g.marks.len() == 0 {
                r == Err::<(), AppError>(AppError::EmptySelection) && post == pre
            } else {
                match elevation_changes(project.document, g.layers, facts.elevations@, g.layers.len() as int) {
                    Err(e) => r == Err::<(), AppError>(e) && post == pre,
                    Ok(changes) => {
                        &&& r == Ok::<(), AppError>(())
                        &&& job_queued(pre, "survey-working"@, g.keys, last_work(post), post)
                        &&& last_work(post) matches Work::TransformSurvey(job) && converts(job, project, g, changes, facts)
                    },
                }
            },
        },
    }
}

/// What the conversion is gathered in.
struct Gathering {
    objects: Vec<ObjectId>,
    layers: Vec<LayerId>,
    marks: Vec<ItemMark>,
    keys: Vec<JobKey>,
}

impl Gathering {
    closed spec fn model(&self) -> Gathered {
        Gathered { objects: self.objects@, layers: self.layers@, marks: self.marks@, keys: self.keys@ }
    }

    fn add_handle(&mut self, document: &Document, items: &Items, handle: SceneEntityId) -> (r: Result<(), AppError>)
        ensures
            match gathered_one(old(self).model(), *document, *items, handle) {
                Err(e) => r == Err::<(), AppError>(e),
                Ok(g) => r is Ok && final(self).model() == g,
            },
    {
        match handle {
            SceneEntityId::Object(id) => {
                let layer = match document.get_object(id) {
                    None => {
                        return Err(AppError::WrongProject);
                    },
                    Some(object) => object.layer(),
                };
                match document.layer(layer) {
                    Some(l) => {
                        if !l.loaded {
                            return Err(AppError::DataUnavailable);
                        }
                        self.objects.push(id);
                        if !contains_key(&self.layers, l.id) {
                            self.layers.push(l.id);
                        }
                    },
                    None => {
                        return Err(AppError::DataUnavailable);
                    },
                }
            },
            _ => {
                match find_item_behind(handle) {
                    Some((item, key)) => match items.state_of(item) {
                        Some(s) => {
                            if !s.loaded || s.deferred {
                                return Err(AppError::DataUnavailable);
                            }
                            self.marks.push(ItemMark { item, epoch: s.epoch });
                            self.keys.push(key);
                        },
                        None => {
                            return Err(AppError::DataUnavailable);
                        },
                    },
                    None => {},
                }
            },
        }
        Ok(())
    }
}

fn gather(project: &OpenProject, items: &Items, handles: &Vec<SceneEntityId>) -> (r: Result<Gathering, AppError>)
    ensures
        match gathered(*project, *items, handles@, handles@.len() as int) {
            Err(e) => r == Err::<Gathering, AppError>(e),
            Ok(g) => r is Ok && r->Ok_0.model() == g,
        },
{
    let keys = crate::jobs::one_key(JobKey::Project { runtime_id: project.runtime_id, document_revision: project.revision });
    let mut g = Gathering { objects: Vec::new(), layers: Vec::new(), marks: Vec::new(), keys };
    let mut i: usize = 0;
    while i < handles.len()
        invariant
            i <= handles.len(),
            gathered(*project, *items, handles@, i as int) == Ok::<Gathered, AppError>(g.model()),
        decreases handles.len() - i,
    {
        match g.add_handle(&project.document, items, handles[i]) {
            Ok(_) => {},
            Err(e) => {
                proof {
                    lemma_gather_stops(*project, *items, handles@, i + 1, handles@.len() as int, e);
                }
                return Err(e);
            },
        }
        i += 1;
    }
    Ok(g)
}

proof fn lemma_gather_stops(project: OpenProject, items: Items, handles: Seq<SceneEntityId>, i: int, n: int, e: AppError)
    requires
        i <= n,
        gathered(project, items, handles, i) == Err::<Gathered, AppError>(e),
    ensures
        gathered(project, items, handles, n) == Err::<Gathered, AppError>(e),
    decreases n - i,
{
    if i < n {
        assert(n > 0) by {
            assert(i > 0);
        }
        lemma_gather_stops(project, items, handles, i, n - 1, e);
    }
}

fn find_elevation(told: &Vec<(LayerId, Option<u32>)>, layer: LayerId) -> (r: Option<u32>)
    ensures
        r == elevation_for(told@, layer),
{
    let mut n: usize = told.len();
    assert(told@.take(n as int) =~= told@);
    while n > 0
        invariant
            n <= told.len(),
            elevation_for(told@, layer) == elevation_for(told@.take(n as int), layer),
        decreases n,
    {
        if told[n - 1].0 == layer {
            return told[n - 1].1;
        }
        assert(told@.take(n as int).drop_last() =~= told@.take(n - 1));
        n -= 1;
    }
    None
}

fn find_changes(document: &Document, layers: &Vec<LayerId>, told: &Vec<(LayerId, Option<u32>)>) -> (r: Result<Vec<ElevationChange>, AppError>)
    ensures
        match elevation_changes(*document, layers@, told@, layers@.len() as int) {
            Err(e) => r == Err::<Vec<ElevationChange>, AppError>(e),
            Ok(changes) => r is Ok && r->Ok_0@ == changes,
        },
{
    let mut changes: Vec<ElevationChange> = Vec::new();
    let mut i: usize = 0;
    while i < layers.len()
        invariant
            i <= layers.len(),
            elevation_changes(*document, layers@, told@, i as int) == Ok::<Seq<ElevationChange>, AppError>(changes@),
        decreases layers.len() - i,
    {
        match (find_elevation(told, layers[i]), document.layer(layers[i])) {
            (Some(to), Some(l)) => {
                if !finite32(to) {
                    proof {
                        lemma_changes_stop(*document, layers@, told@, i + 1, layers@.len() as int);
                    }
                    return Err(AppError::InvalidTransform);
                }
                if !equal32(to, l.elevation) {
                    changes.push(ElevationChange { layer: layers[i], before: l.elevation, after: to });
                }
            },
            _ => {
                proof {
                    lemma_changes_stop(*document, layers@, told@, i + 1, layers@.len() as int);
                }
                return Err(AppError::InvalidTransform);
            },
        }
        i += 1;
    }
    Ok(changes)
}

proof fn lemma_changes_stop(document: Document, layers: Seq<LayerId>, told: Seq<(LayerId, Option<u32>)>, i: int, n: int)
    requires
        i <= n,
        elevation_changes(document, layers, told, i) == Err::<Seq<ElevationChange>, AppError>(AppError::InvalidTransform),
    ensures
        elevation_changes(document, layers, told, n) == Err::<Seq<ElevationChange>, AppError>(AppError::InvalidTransform),
    decreases n - i,
{
    if i < n {
        assert(i > 0);
        lemma_changes_stop(document, layers, told, i, n - 1);
    }
}

/// The item is as it was when the conversion began.
pub open spec fn mark_current(items: Items, mark: ItemMark) -> bool {
    item_state(items, mark.item) matches Some(s) && s.epoch == mark.epoch && s.loaded && !s.deferred
}

/// Everything that was converted is as it was.
pub open spec fn conversion_current(app: App, job: SurveyJob) -> bool {
    &&& active_runtime(app.workspace) == Some(job.runtime_id)
    &&& forall|i: int| 0 <= i < job.marks@.len() ==> mark_current(app.items, #[trigger] job.marks@[i])
}

/// Every object that was converted is still there.
pub open spec fn objects_there(document: Document, objects: Seq<Object>) -> bool {
    forall|i: int| 0 <= i < objects.len() ==> document.object((#[trigger] objects[i])@.id()) is Some
}

/// The edits that put what was converted in the place of what it was.
pub open spec fn conversion_edits(
    document: Document,
    objects: Seq<Object>,
    elevations: Seq<ElevationChange>,
    items: Seq<OpenItem>,
    edits: Seq<Edit>,
) -> bool {
    &&& edits.len() == objects.len() + elevations.len() + items.len()
    &&& forall|i: int| 0 <= i < objects.len() ==> (#[trigger] edits[i]).replaces(document.object(objects[i]@.id())->0, objects[i]@)
    &&& forall|i: int| 0 <= i < elevations.len() ==> #[trigger] edits[objects.len() + i] == (Edit::SetLayerElevation {
        layer: elevations[i].layer,
        before: elevations[i].before,
        after: elevations[i].after,
    })
    &&& forall|i: int| 0 <= i < items.len() ==> #[trigger] edits[objects.len() + elevations.len() + i] == Edit::ReplaceItem(items[i])
}

/// What the end of a conversion does: one step that replaces everything, or
/// nothing where something has changed since.
pub open spec fn conversion_applied(pre: App, job: SurveyJob, result: Option<(Vec<Object>, Vec<OpenItem>)>, post: App) -> bool {
    let projects = pre.workspace.projects@;
    let i = index_of_runtime(projects, job.runtime_id);
    match result {
        Some((objects, items)) if conversion_current(pre, job) && i < projects.len() && objects_there(projects[i].document, objects@) => {
            let step = post.steps@.last();
            &&& post == (App { steps: post.steps, ..pre })
            &&& post.steps@.len() == pre.steps@.len() + 1
            &&& post.steps@.drop_last() == pre.steps@
            &&& step.batch && !step.applied && step.project == Some(job.runtime_id)
            &&& conversion_edits(projects[i].document, objects@, job.elevations@, items@, step.edits@)
        },
        _ => post == pre,
    }
}

fn object_edits(document: &Document, objects: Vec<Object>) -> (r: Option<Vec<Edit>>)
    ensures
        r is Some <==> objects_there(*document, objects@),
        r matches Some(edits) ==> edits@.len() == objects@.len() && forall|i: int|
            0 <= i < objects@.len() ==> (#[trigger] edits@[i]).replaces(document.object(objects@[i]@.id())->0, objects@[i]@),
{
    let ghost all = objects@;
    let mut left = objects;
    let mut edits: Vec<Edit> = Vec::new();
    let mut done: Ghost<int> = Ghost(0);
    assert(all.skip(0) =~= all);
    while left.len() > 0
        invariant
            0 <= done@ <= all.len(),
            left@ == all.skip(done@),
            edits@.len() == done@,
            all == objects@,
            forall|i: int| 0 <= i < done@ ==> document.object((#[trigger] all[i])@.id()) is Some,
            forall|i: int| 0 <= i < done@ ==> (#[trigger] edits@[i]).replaces(document.object(all[i]@.id())->0, all[i]@),
        decreases left.len(),
    {
        let after = left.remove(0);
        proof {
            assert(after == all[done@]);
            assert(left@ =~= all.skip(done@ + 1));
        }
        match document.get_object(after.id()) {
            Some(object) => {
                let before = object.copy();
                edits.push(Edit::Replace { before, after });
            },
            None => {
                assert(!objects_there(*document, all)) by {
                    assert(document.object(all[done@]@.id()) is None);
                }
                return None;
            },
        }
        proof {
            done@ = done@ + 1;
        }
    }
    Some(edits)
}

fn add_elevations(edits: &mut Vec<Edit>, elevations: &Vec<ElevationChange>)
    ensures
        final(edits)@.len() == old(edits)@.len() + elevations@.len(),
        forall|i: int| 0 <= i < old(edits)@.len() ==> #[trigger] final(edits)@[i] == old(edits)@[i],
        forall|i: int| 0 <= i < elevations@.len() ==> #[trigger] final(edits)@[old(edits)@.len() + i] == (Edit::SetLayerElevation {
            layer: elevations@[i].layer,
            before: elevations@[i].before,
            after: elevations@[i].after,
        }),
{
    let ghost n = edits@.len();
    let mut i: usize = 0;
    while i < elevations.len()
        invariant
            i <= elevations.len(),
            n == old(edits)@.len(),
            edits@.len() == n + i,
            forall|j: int| 0 <= j < n ==> #[trigger] edits@[j] == old(edits)@[j],
            forall|j: int| 0 <= j < i ==> #[trigger] edits@[n + j] == (Edit::SetLayerElevation {
                layer: elevations@[j].layer,
                before: elevations@[j].before,
                after: elevations@[j].after,
            }),
        decreases elevations.len() - i,
    {
        let e = elevations[i];
        edits.push(Edit::SetLayerElevation { layer: e.layer, before: e.before, after: e.after });
        i += 1;
    }
}

fn add_items(edits: &mut Vec<Edit>, items: Vec<OpenItem>)
    ensures
        final(edits)@.len() == old(edits)@.len() + items@.len(),
        forall|i: int| 0 <= i < old(edits)@.len() ==> #[trigger] final(edits)@[i] == old(edits)@[i],
        forall|i: int| 0 <= i < items@.len() ==> #[trigger] final(edits)@[old(edits)@.len() + i] == Edit::ReplaceItem(items@[i]),
{
    let ghost all = items@;
    let ghost n = edits@.len();
    let mut left = items;
    let mut done: Ghost<int> = Ghost(0);
    assert(all.skip(0) =~= all);
    while left.len() > 0
        invariant
            0 <= done@ <= all.len(),
            left@ == all.skip(done@),
            n == old(edits)@.len(),
            edits@.len() == n + done@,
            forall|j: int| 0 <= j < n ==> #[trigger] edits@[j] == old(edits)@[j],
            forall|j: int| 0 <= j < done@ ==> #[trigger] edits@[n + j] == Edit::ReplaceItem(all[j]),
        decreases left.len(),
    {
        let item = left.remove(0);
        proof {
            assert(item == all[done@]);
            assert(left@ =~= all.skip(done@ + 1));
            done@ = done@ + 1;
        }
        edits.push(Edit::ReplaceItem(item));
    }
}

/// What the conversion makes of one item: keys to the converted data and the
/// numbers that are checked. `grid` tells that the conversion shifts a grid,
/// `known` that every point could be converted (of a block model its origin),
/// `empty` that there are no points, and `corners_finite` that every corner of
/// a block lies at a finite place in the world.
#[allow(inconsistent_fields)]
pub enum ItemTransform {
    Surface { known: bool, mesh: u64, bounds: Bounds },
    Blocks { grid: bool, known: bool, blocks: u64, local_bounds: Bounds, corners_finite: bool, slice: Option<BlockModelSlice> },
    Points { points: u64, empty: bool, known: bool, bounded: bool, point_size: u32 },
    Holes { known: bool, holes: Vec<MovedHole> },
    Raster { grid: bool, world_to_uv: [u64; 6] },
}

/// What the conversion makes of one hole.
pub struct MovedHole {
    pub placement: HolePlacement,
    pub depths: Vec<u64>,
    pub diameter: u64,
    pub intervals: Vec<(u64, u64)>,
}

/// All numbers are finite.
pub open spec fn all_finite(s: Seq<u64>) -> bool {
    forall|i: int| 0 <= i < s.len() ==> f64_finite(#[trigger] s[i])
}

/// All depths of the intervals are finite.
pub open spec fn all_intervals_finite(s: Seq<(u64, u64)>) -> bool {
    forall|i: int| 0 <= i < s.len() ==> f64_finite((#[trigger] s[i]).0) && f64_finite(s[i].1)
}

/// What the conversion makes of a hole can be used for it.
pub open spec fn hole_fits(hole: DrillHole, moved: MovedHole) -> bool {
    &&& all_finite(moved.depths@)
    &&& hole.diameter is Some ==> f64_finite(moved.diameter)
    &&& moved.intervals@.len() == hole.intervals@.len()
    &&& all_intervals_finite(moved.intervals@)
}

/// A hole after the conversion: what was found in it stays.
pub open spec fn hole_moved(pre: DrillHole, moved: MovedHole, post: DrillHole) -> bool {
    &&& post == (DrillHole {
        placement: moved.placement,
        diameter: if pre.diameter is Some {
            Some(moved.diameter)
        } else {
            None
        },
        intervals: post.intervals,
        ..pre
    })
    &&& post.intervals@.len() == pre.intervals@.len()
    &&& forall|i: int| 0 <= i < pre.intervals@.len() ==> #[trigger] post.intervals@[i] == (DrillInterval {
        from: moved.intervals@[i].0,
        to: moved.intervals@[i].1,
        ..pre.intervals@[i]
    })
}

/// Every hole can be converted.
pub open spec fn holes_fit(holes: Seq<DrillHole>, moved: Seq<MovedHole>) -> bool {
    holes.len() == moved.len() && forall|i: int| 0 <= i < holes.len() ==> hole_fits(#[trigger] holes[i], moved[i])
}

/// Every hole after the conversion, in its place: ties and initiations name
/// holes by their places.
pub open spec fn holes_moved(pre: Seq<DrillHole>, moved: Seq<MovedHole>, post: Seq<DrillHole>) -> bool {
    post.len() == pre.len() && forall|i: int| 0 <= i < pre.len() ==> hole_moved(pre[i], moved[i], #[trigger] post[i])
}

/// Why an item cannot be converted, by what is found first: that the work was
/// cancelled is found before each point or hole is looked at, and otherwise at
/// the end.
pub open spec fn transform_refused(item: OpenItem, t: ItemTransform, cancelled: bool) -> Option<AppError> {
    match (item, t) {
        (OpenItem::Triangulation(_), ItemTransform::Surface { known, .. }) => if cancelled {
            Some(AppError::Cancelled)
        } else if !known {
            Some(AppError::InvalidTransform)
        } else {
            None
        },
        (OpenItem::BlockModel(_), ItemTransform::Blocks { grid, known, local_bounds, corners_finite, .. }) => if !grid {
            Some(AppError::NeedsGrid)
        } else if !known || !bounds_finite(local_bounds) {
            Some(AppError::InvalidTransform)
        } else if cancelled {
            Some(AppError::Cancelled)
        } else if !corners_finite {
            Some(AppError::InvalidTransform)
        } else {
            None
        },
        (OpenItem::PointCloud(_), ItemTransform::Points { empty, known, bounded, point_size, .. }) => if empty {
            Some(AppError::InvalidTransform)
        } else if cancelled {
            Some(AppError::Cancelled)
        } else if !known || !bounded || !f32_finite(point_size) {
            Some(AppError::InvalidTransform)
        } else {
            None
        },
        (OpenItem::DrillHole(d), ItemTransform::Holes { known, holes }) => if cancelled {
            Some(AppError::Cancelled)
        } else if !known || !holes_fit(d.holes@, holes@) {
            Some(AppError::InvalidTransform)
        } else {
            None
        },
        (OpenItem::Raster(_), ItemTransform::Raster { grid, world_to_uv }) => if !grid {
            Some(AppError::NeedsGrid)
        } else if !all_finite(world_to_uv@) {
            Some(AppError::InvalidTransform)
        } else if cancelled {
            Some(AppError::Cancelled)
        } else {
            None
        },
        _ => Some(AppError::InvalidTransform),
    }
}

/// The corners of a box are finite.
pub open spec fn bounds_finite(b: Bounds) -> bool {
    &&& f64_finite(b.min.x) && f64_finite(b.min.y) && f64_finite(b.min.z)
    &&& f64_finite(b.max.x) && f64_finite(b.max.y) && f64_finite(b.max.z)
}

/// An item after the conversion.
pub open spec fn item_transformed(pre: OpenItem, t: ItemTransform, target_system: Seq<char>, post: OpenItem) -> bool {
    match (pre, t, post) {
        (OpenItem::Triangulation(a), ItemTransform::Surface { mesh, bounds, .. }, OpenItem::Triangulation(b)) => b == (OpenTriangulation {
            mesh,
            bounds,
            raster_texture: None,
            ..a
        }),
        (OpenItem::BlockModel(a), ItemTransform::Blocks { blocks, local_bounds, slice, .. }, OpenItem::BlockModel(b)) => b == (OpenBlockModel {
            blocks,
            local_bounds,
            slice: if a.slice is Some {
                slice
            } else {
                None
            },
            ..a
        }),
        (OpenItem::PointCloud(a), ItemTransform::Points { points, point_size, .. }, OpenItem::PointCloud(b)) => b == (OpenPointCloud {
            points,
            point_size,
            ..a
        }),
        (OpenItem::DrillHole(a), ItemTransform::Holes { holes, .. }, OpenItem::DrillHole(b)) => b == (OpenDrillHoleDataset {
            holes: b.holes,
            bounds: extent_of(b.holes@),
            ..a
        }) && holes_moved(a.holes@, holes@, b.holes@),
        (OpenItem::Raster(a), ItemTransform::Raster { world_to_uv, .. }, OpenItem::Raster(b)) => b == (OpenRasterTexture {
            world_to_uv,
            projection: b.projection,
            ..a
        }) && b.projection@ == target_system,
        _ => false,
    }
}

/// A conversion leaves an item what it is: under its id, in its state, and a
/// dataset with its ties and initiations.
pub proof fn law_transformed_item_is_itself(pre: OpenItem, t: ItemTransform, target_system: Seq<char>, post: OpenItem)
    requires
        item_transformed(pre, t, target_system, post),
    ensures
        post.which() == pre.which(),
        post.status() == pre.status(),
        (pre, post) matches (OpenItem::DrillHole(a), OpenItem::DrillHole(b)) ==> b.tie_ins == a.tie_ins && b.initiations == a.initiations && b.holes@.len()
            == a.holes@.len() && forall|i: int| 0 <= i < a.holes@.len() ==> (#[trigger] b.holes@[i]).name == a.holes@[i].name,
{
}

fn are_finite(s: &Vec<u64>) -> (r: bool)
    ensures
        r == all_finite(s@),
{
    let mut i: usize = 0;
    while i < s.len()
        invariant
            i <= s.len(),
            forall|j: int| 0 <= j < i ==> f64_finite(#[trigger] s@[j]),
        decreases s.len() - i,
    {
        if !finite64(s[i]) {
            assert(!all_finite(s@)) by {
                assert(!f64_finite(s@[i as int]));
            }
            return false;
        }
        i += 1;
    }
    true
}

fn are_intervals_finite(s: &Vec<(u64, u64)>) -> (r: bool)
    ensures
        r == all_intervals_finite(s@),
{
    let mut i: usize = 0;
    while i < s.len()
        invariant
            i <= s.len(),
            forall|j: int| 0 <= j < i ==> f64_finite((#[trigger] s@[j]).0) && f64_finite(s@[j].1),
        decreases s.len() - i,
    {
        if !finite64(s[i].0) || !finite64(s[i].1) {
            assert(!all_intervals_finite(s@)) by {
                assert(!(f64_finite(s@[i as int].0) && f64_finite(s@[i as int].1)));
            }
            return false;
        }
        i += 1;
    }
    true
}

impl DrillHole {
    fn fits(&self, moved: &MovedHole) -> (r: bool)
        ensures
            r == hole_fits(*self, *moved),
    {
        are_finite(&moved.depths) && (self.diameter.is_none() || finite64(moved.diameter)) && moved.intervals.len() == self.intervals.len()
            && are_intervals_finite(&moved.intervals)
    }

    fn take_over(&mut self, moved: &MovedHole)
        requires
            hole_fits(*old(self), *moved),
        ensures
            hole_moved(*old(self), *moved, *final(self)),
    {
        self.placement = moved.placement;
        if self.diameter.is_some() {
            self.diameter = Some(moved.diameter);
        }
        let mut i: usize = 0;
        let n: usize = self.intervals.len();
        let ghost pre = self.intervals@;
        let ghost whole = *self;
        while i < n
            invariant
                i <= n,
                n == pre.len(),
                moved.intervals@.len() == n,
                self.intervals@.len() == n,
                *self == (DrillHole { intervals: self.intervals, ..whole }),
                forall|j: int| 0 <= j < i ==> #[trigger] self.intervals@[j] == (DrillInterval {
                    from: moved.intervals@[j].0,
                    to: moved.intervals@[j].1,
                    ..pre[j]
                }),
                forall|j: int| i <= j < n ==> #[trigger] self.intervals@[j] == pre[j],
            decreases n - i,
        {
            let (from, to): (u64, u64) = moved.intervals[i];
            self.intervals[i].from = from;
            self.intervals[i].to = to;
            i += 1;
        }
    }
}

fn do_holes_fit(holes: &Vec<DrillHole>, moved: &Vec<MovedHole>) -> (r: bool)
    ensures
        r == holes_fit(holes@, moved@),
{
    if holes.len() != moved.len() {
        return false;
    }
    let mut i: usize = 0;
    while i < holes.len()
        invariant
            i <= holes.len(),
            holes.len() == moved.len(),
            forall|j: int| 0 <= j < i ==> hole_fits(#[trigger] holes@[j], moved@[j]),
        decreases holes.len() - i,
    {
        if !holes[i].fits(&moved[i]) {
            assert(!holes_fit(holes@, moved@)) by {
                assert(!hole_fits(holes@[i as int], moved@[i as int]));
            }
            return false;
        }
        i += 1;
    }
    true
}

fn move_holes(holes: &mut Vec<DrillHole>, moved: &Vec<MovedHole>)
    requires
        holes_fit(old(holes)@, moved@),
    ensures
        holes_moved(old(holes)@, moved@, final(holes)@),
{
    let mut i: usize = 0;
    let n: usize = holes.len();
    while i < n
        invariant
            i <= n,
            n == old(holes)@.len(),
            holes@.len() == n,
            holes_fit(old(holes)@, moved@),
            forall|j: int| 0 <= j < i ==> hole_moved(old(holes)@[j], moved@[j], #[trigger] holes@[j]),
            forall|j: int| i <= j < n ==> #[trigger] holes@[j] == old(holes)@[j],
        decreases n - i,
    {
        assert(holes@[i as int] == old(holes)@[i as int]);
        assert(hole_fits(old(holes)@[i as int], moved@[i as int]));
        holes[i].take_over(&moved[i]);
        i += 1;
    }
}

fn is_box_finite(b: Bounds) -> (r: bool)
    ensures
        r == bounds_finite(b),
{
    finite64(b.min.x) && finite64(b.min.y) && finite64(b.min.z) && finite64(b.max.x) && finite64(b.max.y) && finite64(b.max.z)
}

fn is_map_finite(m: &[u64; 6]) -> (r: bool)
    ensures
        r == all_finite(m@),
{
    let mut i: usize = 0;
    while i < 6
        invariant
            i <= 6,
            m@.len() == 6,
            forall|j: int| 0 <= j < i ==> f64_finite(#[trigger] m@[j]),
        decreases 6 - i,
    {
        if !finite64(m[i]) {
            assert(!all_finite(m@)) by {
                assert(!f64_finite(m@[i as int]));
            }
            return false;
        }
        i += 1;
    }
    true
}

/// Takes over what the conversion makes of an item. A block model and a raster
/// can only follow a shift of the grid.
pub fn transform_item(item: OpenItem, t: ItemTransform, target_system: &str, cancelled: bool) -> (r: Result<OpenItem, AppError>)
    ensures
        match transform_refused(item, t, cancelled) {
            Some(e) => r == Err::<OpenItem, AppError>(e),
            None => r is Ok && item_transformed(item, t, target_system@, r->Ok_0),
        },
{
    match (item, t) {
        (OpenItem::Triangulation(mut a), ItemTransform::Surface { known, mesh, bounds }) => {
            if cancelled {
                return Err(AppError::Cancelled);
            }
            if !known {
                return Err(AppError::InvalidTransform);
            }
            a.mesh = mesh;
            a.bounds = bounds;
            a.raster_texture = None;
            Ok(OpenItem::Triangulation(a))
        },
        (OpenItem::BlockModel(mut a), ItemTransform::Blocks { grid, known, blocks, local_bounds, corners_finite, slice }) => {
            if !grid {
                return Err(AppError::NeedsGrid);
            }
            if !known || !is_box_finite(local_bounds) {
                return Err(AppError::InvalidTransform);
            }
            if cancelled {
                return Err(AppError::Cancelled);
            }
            if !corners_finite {
                return Err(AppError::InvalidTransform);
            }
            a.blocks = blocks;
            a.local_bounds = local_bounds;
            if a.slice.is_some() {
                a.slice = slice;
            }
            Ok(OpenItem::BlockModel(a))
        },
        (OpenItem::PointCloud(mut a), ItemTransform::Points { points, empty, known, bounded, point_size }) => {
            if empty {
                return Err(AppError::InvalidTransform);
            }
            if cancelled {
                return Err(AppError::Cancelled);
            }
            if !known || !bounded || !finite32(point_size) {
                return Err(AppError::InvalidTransform);
            }
            a.points = points;
            a.point_size = point_size;
            Ok(OpenItem::PointCloud(a))
        },
        (OpenItem::DrillHole(mut a), ItemTransform::Holes { known, holes }) => {
            if cancelled {
                return Err(AppError::Cancelled);
            }
            if !known || !do_holes_fit(&a.holes, &holes) {
                return Err(AppError::InvalidTransform);
            }
            move_holes(&mut a.holes, &holes);
            a.bounds = refresh_bounds(&a.holes);
            Ok(OpenItem::DrillHole(a))
        },
        (OpenItem::Raster(mut a), ItemTransform::Raster { grid, world_to_uv }) => {
            if !grid {
                return Err(AppError::NeedsGrid);
            }
            if !is_map_finite(&world_to_uv) {
                return Err(AppError::InvalidTransform);
            }
            if cancelled {
                return Err(AppError::Cancelled);
            }
            a.world_to_uv = world_to_uv;
            a.projection = target_system.to_string();
            Ok(OpenItem::Raster(a))
        },
        _ => Err(AppError::InvalidTransform),
    }
}

impl App {
    /// Converts the selection into another coordinate system.
    pub fn transform_survey_selection(&mut self, facts: SurveyFacts) -> (r: Result<(), AppError>)
        requires
            old(self).jobs.next_ticket < u64::MAX,
        ensures
            selection_transformed(*old(self), facts, r, *final(self)),
    {
        match facts.refused {
            Some(e) => {
                return Err(e);
            },
            None => {},
        }
        let (g, changes, runtime_id) = match self.workspace.active_project() {
            None => {
                return Err(AppError::WrongProject);
            },
            Some(project) => {
                let g = match gather(project, &self.items, self.selection.handles.as_vec()) {
                    Ok(g) => g,
                    Err(e) => {
                        return Err(e);
                    },
                };
                if g.objects.len() == 0 && g.marks.len() == 0 {
                    return Err(AppError::EmptySelection);
                }
                let changes = match find_changes(&project.document, &g.layers, &facts.elevations) {
                    Ok(changes) => changes,
                    Err(e) => {
                        return Err(e);
                    },
                };
                (g, changes, project.runtime_id)
            },
        };
        let job = SurveyJob { runtime_id, objects: g.objects, marks: g.marks, elevations: changes, target_system: facts.target_system };
        self.spawn_job("survey-working".to_owned(), g.keys, Work::TransformSurvey(job));
        Ok(())
    }

    fn conversion_is_current(&self, job: &SurveyJob) -> (r: bool)
        ensures
            r == conversion_current(*self, *job),
    {
        let active = match self.active_runtime_id() {
            Some(id) => id == job.runtime_id,
            None => false,
        };
        if !active {
            return false;
        }
        let mut i: usize = 0;
        while i < job.marks.len()
            invariant
                i <= job.marks.len(),
                forall|j: int| 0 <= j < i ==> mark_current(self.items, #[trigger] job.marks@[j]),
            decreases job.marks.len() - i,
        {
            let current = match self.items.state_of(job.marks[i].item) {
                Some(s) => s.epoch == job.marks[i].epoch && s.loaded && !s.deferred,
                None => false,
            };
            if !current {
                assert(!mark_current(self.items, job.marks@[i as int]));
                return false;
            }
            i += 1;
        }
        true
    }

    /// Takes over what was converted, unless something has changed since.
    pub fn apply_survey_transform(&mut self, job: &SurveyJob, result: Option<(Vec<Object>, Vec<OpenItem>)>)
        ensures
            conversion_applied(*old(self), *job, result, *final(self)),
    {
        if !self.conversion_is_current(job) {
            return ;
        }
        let (objects, items) = match result {
            Some(result) => result,
            None => {
                return ;
            },
        };
        let i: usize = match self.workspace.project_index_for_runtime_id(job.runtime_id) {
            Some(i) => i,
            None => {
                return ;
            },
        };
        let mut edits = match object_edits(&self.workspace.projects[i].document, objects) {
            Some(edits) => edits,
            None => {
                return ;
            },
        };
        let ghost first = edits@;
        add_elevations(&mut edits, &job.elevations);
        let ghost second = edits@;
        add_items(&mut edits, items);
        proof {
            let document = self.workspace.projects@[i as int].document;
            assert forall|k: int| 0 <= k < objects@.len() implies (#[trigger] edits@[k]).replaces(document.object(objects@[k]@.id())->0, objects@[k]@) by {
                assert(edits@[k] == second[k] && second[k] == first[k]);
            }
            assert forall|k: int| 0 <= k < job.elevations@.len() implies #[trigger] edits@[objects@.len() + k] == (Edit::SetLayerElevation {
                layer: job.elevations@[k].layer,
                before: job.elevations@[k].before,
                after: job.elevations@[k].after,
            }) by {
                assert(edits@[objects@.len() + k] == second[first.len() + k]);
            }
            assert forall|k: int| 0 <= k < items@.len() implies #[trigger] edits@[objects@.len() + job.elevations@.len() + k] == Edit::ReplaceItem(items@[k]) by {
                assert(edits@[objects@.len() + job.elevations@.len() + k] == edits@[second.len() + k]);
            }
        }
        self.execute_edit_for(job.runtime_id, edits, true);
    }
}

} // verus!
