//! Coordinate systems, and what converting the selection between them does.

use crate::collars::extent_of;
use crate::commands::survey::{
    conversion_applied, elevation_changes, elevation_for, gathered, item_behind, item_transformed, transform_refused, ElevationChange, Gathered,
    ItemTransform, SurveyJob,
};
use crate::document::{Document, Object};
use crate::edit::Edit;
use crate::error::AppError;
use crate::ids::{LayerId, SceneEntityId};
use crate::ieee::{f32_equal, f32_finite, f64_finite, f64_less};
use crate::items::{item_state, Bounds, DrillHole, Items, OpenItem};
use crate::jobs::JobKey;
use crate::laws::lookup::keeps_steps;
use crate::search::lemma_first_index;
use crate::state::App;
use crate::survey::{
    sorted_systems, system_deleted, system_index, system_models, system_saved, text_before, with_saved, without_system, Survey, SystemModel,
};
use crate::text::text_of;
use crate::workspace::{index_of_runtime, OpenProject};
use vstd::prelude::*;

verus! {

/// A converted hole stands where the conversion puts it: its collar, trace,
/// orientation and extent are the converted ones. Its intervals run between
/// the converted depths and hold what they held, and its name stays.
pub proof fn law_converted_holes_stand_where_told(
    pre: OpenItem,
    t: ItemTransform,
    cancelled: bool,
    target_system: Seq<char>,
    post: OpenItem,
    k: int,
    j: int,
)
    requires
        transform_refused(pre, t, cancelled) is None,
        item_transformed(pre, t, target_system, post),
        pre matches OpenItem::DrillHole(a) && 0 <= k < a.holes@.len() && 0 <= j < a.holes@[k].intervals@.len(),
    ensures
        (pre, t, post) matches (OpenItem::DrillHole(a), ItemTransform::Holes { holes, .. }, OpenItem::DrillHole(b)) && {
            let (was, told, is) = (a.holes@[k], holes@[k], b.holes@[k]);
            &&& b.holes@.len() == a.holes@.len() && holes@.len() == a.holes@.len()
            &&& is.placement.collar == told.placement.collar
            &&& is.placement.trace == told.placement.trace
            &&& is.placement.orientation == told.placement.orientation
            &&& is.placement.extent == told.placement.extent
            &&& is.name == was.name
            &&& was.diameter is Some ==> is.diameter == Some(told.diameter) && f64_finite(told.diameter)
            &&& was.diameter is None ==> is.diameter is None
            &&& is.intervals@.len() == was.intervals@.len() && told.intervals@.len() == was.intervals@.len()
            &&& is.intervals@[j].from == told.intervals@[j].0 && is.intervals@[j].to == told.intervals@[j].1
            &&& is.intervals@[j].values == was.intervals@[j].values
            &&& f64_finite(is.intervals@[j].from) && f64_finite(is.intervals@[j].to)
            &&& b.id == a.id && b.state == a.state && b.tie_ins == a.tie_ins && b.initiations == a.initiations
        },
{
    if let (OpenItem::DrillHole(a), ItemTransform::Holes { holes, .. }, OpenItem::DrillHole(b)) = (pre, t, post) {
        assert(b.holes@[k].intervals@[j].from == holes@[k].intervals@[j].0);
        assert(crate::commands::survey::hole_fits(a.holes@[k], holes@[k]));
    }
}

/// A hole without intervals stands where the conversion puts it too.
pub proof fn law_converted_holes_are_placed(pre: OpenItem, t: ItemTransform, target_system: Seq<char>, post: OpenItem, k: int)
    requires
        item_transformed(pre, t, target_system, post),
        pre matches OpenItem::DrillHole(a) && 0 <= k < a.holes@.len(),
    ensures
        (t, post) matches (ItemTransform::Holes { holes, .. }, OpenItem::DrillHole(b)) && b.holes@[k].placement.collar == holes@[k].placement.collar
            && b.holes@[k].placement.trace == holes@[k].placement.trace && b.holes@[k].placement.orientation == holes@[k].placement.orientation
            && b.holes@[k].placement.extent == holes@[k].placement.extent && b.holes@.len() == pre->DrillHole_0.holes@.len() && b.holes@[k].name
            == pre->DrillHole_0.holes@[k].name && (pre->DrillHole_0.holes@[k].diameter is Some ==> b.holes@[k].diameter == Some(holes@[k].diameter)) && (
        pre->DrillHole_0.holes@[k].diameter is None ==> b.holes@[k].diameter is None) && b.holes@[k].intervals@.len() == pre->DrillHole_0.holes@[k].intervals@.len()
            && b.bounds == extent_of(b.holes@) && b.name == pre->DrillHole_0.name && b.fields == pre->DrillHole_0.fields && b.color == pre->DrillHole_0.color,
{
}

/// Surfaces, block models, point clouds and pictures are converted unless the
/// work was stopped, the conversion does not know them, or a number that it
/// gives is not finite; blocks and pictures need a grid, and a cloud points.
pub proof fn law_which_other_items_convert(item: OpenItem, t: ItemTransform, cancelled: bool)
    ensures
        (item, t) matches (OpenItem::Triangulation(_), ItemTransform::Surface { known, .. }) ==> (transform_refused(item, t, cancelled) is None <==> known
            && !cancelled),
        (item, t) matches (OpenItem::BlockModel(_), ItemTransform::Blocks { grid, known, local_bounds, corners_finite, .. }) ==> {
            &&& transform_refused(item, t, cancelled) is None <==> grid && known && !cancelled && corners_finite && f64_finite(local_bounds.min.x) && f64_finite(
                local_bounds.min.y,
            ) && f64_finite(local_bounds.min.z) && f64_finite(local_bounds.max.x) && f64_finite(local_bounds.max.y) && f64_finite(local_bounds.max.z)
            &&& !grid ==> transform_refused(item, t, cancelled) == Some(AppError::NeedsGrid)
        },
        (item, t) matches (OpenItem::PointCloud(_), ItemTransform::Points { empty, known, bounded, point_size, .. }) ==> (transform_refused(
            item,
            t,
            cancelled,
        ) is None <==> !empty && known && bounded && !cancelled && f32_finite(point_size)),
        (item, t) matches (OpenItem::Raster(_), ItemTransform::Raster { grid, world_to_uv }) ==> {
            &&& transform_refused(item, t, cancelled) is None <==> grid && !cancelled && forall|i: int| 0 <= i < 6 ==> f64_finite(#[trigger] world_to_uv@[i])
            &&& !grid ==> transform_refused(item, t, cancelled) == Some(AppError::NeedsGrid)
        },
        (item is Triangulation && !(t is Surface)) || (item is BlockModel && !(t is Blocks)) || (item is PointCloud && !(t is Points)) || (item is DrillHole && !(
        t is Holes)) || (item is Raster && !(t is Raster)) ==> transform_refused(item, t, cancelled) == Some(AppError::InvalidTransform),
{
}

/// Holes are converted unless the work was stopped, the conversion is unknown,
/// or what it gives does not fit: one result for each hole, all of its numbers
/// finite, and as many intervals as before.
pub proof fn law_which_holes_convert(item: OpenItem, t: ItemTransform, cancelled: bool)
    requires
        item is DrillHole,
        t is Holes,
    ensures
        transform_refused(item, t, cancelled) is None <==> ((item, t) matches (OpenItem::DrillHole(d), ItemTransform::Holes { known, holes }) && {
            &&& !cancelled && known && d.holes@.len() == holes@.len()
            &&& forall|k: int|
                0 <= k < d.holes@.len() ==> {
                    &&& (#[trigger] d.holes@[k]).intervals@.len() == holes@[k].intervals@.len()
                    &&& d.holes@[k].diameter is Some ==> f64_finite(holes@[k].diameter)
                    &&& forall|j: int| 0 <= j < holes@[k].depths@.len() ==> f64_finite(#[trigger] holes@[k].depths@[j])
                    &&& forall|j: int| 0 <= j < holes@[k].intervals@.len() ==> f64_finite((#[trigger] holes@[k].intervals@[j]).0) && f64_finite(
                        holes@[k].intervals@[j].1,
                    )
                }
        }),
        transform_refused(item, t, true) == Some(AppError::Cancelled),
        !cancelled && transform_refused(item, t, cancelled) is Some ==> transform_refused(item, t, cancelled) == Some(AppError::InvalidTransform),
{
    if let (OpenItem::DrillHole(d), ItemTransform::Holes { known, holes }) = (item, t) {
        if transform_refused(item, t, cancelled) is None {
            assert forall|k: int| 0 <= k < d.holes@.len() implies {
                &&& (#[trigger] d.holes@[k]).intervals@.len() == holes@[k].intervals@.len()
                &&& d.holes@[k].diameter is Some ==> f64_finite(holes@[k].diameter)
                &&& forall|j: int| 0 <= j < holes@[k].depths@.len() ==> f64_finite(#[trigger] holes@[k].depths@[j])
                &&& forall|j: int| 0 <= j < holes@[k].intervals@.len() ==> f64_finite((#[trigger] holes@[k].intervals@[j]).0) && f64_finite(
                    holes@[k].intervals@[j].1,
                )
            } by {
                assert(crate::commands::survey::hole_fits(d.holes@[k], holes@[k]));
            }
        }
    }
}

/// What else is converted takes the converted shape and extent, and no more:
/// a surface loses its picture, a block model its slice unless it had one, and
/// a picture says which system it lies in then.
pub proof fn law_converted_items(pre: OpenItem, t: ItemTransform, target_system: Seq<char>, post: OpenItem)
    requires
        item_transformed(pre, t, target_system, post),
    ensures
        (pre, t, post) matches (OpenItem::Triangulation(a), ItemTransform::Surface { mesh, bounds, .. }, OpenItem::Triangulation(b)) ==> {
            &&& b.mesh == mesh && b.bounds == bounds && b.raster_texture is None
            &&& b.id == a.id && b.name == a.name && b.state == a.state && b.visible == a.visible && b.color == a.color
        },
        (pre, t, post) matches (OpenItem::BlockModel(a), ItemTransform::Blocks { blocks, local_bounds, slice, .. }, OpenItem::BlockModel(b)) ==> {
            &&& b.blocks == blocks && b.local_bounds == local_bounds && b.slice == (if a.slice is Some {
                slice
            } else {
                None
            })
            &&& b.id == a.id && b.name == a.name && b.state == a.state
        },
        (pre, t, post) matches (OpenItem::PointCloud(a), ItemTransform::Points { points, point_size, .. }, OpenItem::PointCloud(b)) ==> {
            &&& b.points == points && b.point_size == point_size
            &&& b.id == a.id && b.name == a.name && b.state == a.state
        },
        (pre, t, post) matches (OpenItem::Raster(a), ItemTransform::Raster { world_to_uv, .. }, OpenItem::Raster(b)) ==> {
            &&& b.world_to_uv == world_to_uv && b.projection@ == target_system
            &&& b.id == a.id && b.name == a.name && b.state == a.state
        },
{
}

/// A box reaches as far as another on every side.
pub open spec fn reaches(outer: Bounds, inner: Bounds) -> bool {
    &&& !f64_less(inner.min.x, outer.min.x) && !f64_less(inner.min.y, outer.min.y) && !f64_less(inner.min.z, outer.min.z)
    &&& !f64_less(outer.max.x, inner.max.x) && !f64_less(outer.max.y, inner.max.y) && !f64_less(outer.max.z, inner.max.z)
}

/// The box around holes reaches as far as each of them, and no further than
/// the farthest: each of its sides is that of some hole.
pub proof fn law_extent_holds_the_holes(holes: Seq<DrillHole>, k: int)
    requires
        0 <= k < holes.len(),
        holes[k].placement.extent is Some,
    ensures
        extent_of(holes) matches Some(all) && {
            &&& reaches(all, holes[k].placement.extent->0)
            &&& exists|j: int| 0 <= j < holes.len() && ((#[trigger] holes[j]).placement.extent matches Some(e) && e.min.x == all.min.x)
            &&& exists|j: int| 0 <= j < holes.len() && ((#[trigger] holes[j]).placement.extent matches Some(e) && e.min.y == all.min.y)
            &&& exists|j: int| 0 <= j < holes.len() && ((#[trigger] holes[j]).placement.extent matches Some(e) && e.min.z == all.min.z)
            &&& exists|j: int| 0 <= j < holes.len() && ((#[trigger] holes[j]).placement.extent matches Some(e) && e.max.x == all.max.x)
            &&& exists|j: int| 0 <= j < holes.len() && ((#[trigger] holes[j]).placement.extent matches Some(e) && e.max.y == all.max.y)
            &&& exists|j: int| 0 <= j < holes.len() && ((#[trigger] holes[j]).placement.extent matches Some(e) && e.max.z == all.max.z)
        },
    decreases holes.len(),
{
    lemma_extent(holes);
    lemma_extent_reaches(holes, k);
}

proof fn lemma_extent_reaches(holes: Seq<DrillHole>, k: int)
    requires
        0 <= k < holes.len(),
        holes[k].placement.extent is Some,
    ensures
        extent_of(holes) matches Some(all) && reaches(all, holes[k].placement.extent->0),
    decreases holes.len(),
{
    let before = holes.drop_last();
    if k < holes.len() - 1 {
        assert(before[k] == holes[k]);
        lemma_extent_reaches(before, k);
    }
}

proof fn lemma_extent(holes: Seq<DrillHole>)
    ensures
        extent_of(holes) matches Some(all) ==> {
            &&& exists|j: int| 0 <= j < holes.len() && ((#[trigger] holes[j]).placement.extent matches Some(e) && e.min.x == all.min.x)
            &&& exists|j: int| 0 <= j < holes.len() && ((#[trigger] holes[j]).placement.extent matches Some(e) && e.min.y == all.min.y)
            &&& exists|j: int| 0 <= j < holes.len() && ((#[trigger] holes[j]).placement.extent matches Some(e) && e.min.z == all.min.z)
            &&& exists|j: int| 0 <= j < holes.len() && ((#[trigger] holes[j]).placement.extent matches Some(e) && e.max.x == all.max.x)
            &&& exists|j: int| 0 <= j < holes.len() && ((#[trigger] holes[j]).placement.extent matches Some(e) && e.max.y == all.max.y)
            &&& exists|j: int| 0 <= j < holes.len() && ((#[trigger] holes[j]).placement.extent matches Some(e) && e.max.z == all.max.z)
        },
    decreases holes.len(),
{
    if holes.len() > 0 {
        let before = holes.drop_last();
        lemma_extent(before);
        let last = holes.len() - 1;
        assert(holes[last] == holes.last());
        assert forall|j: int| 0 <= j < before.len() implies #[trigger] before[j] == holes[j] by {}
        if let (Some(b), Some(all)) = (extent_of(before), extent_of(holes)) {
            let j = choose|j: int| 0 <= j < before.len() && ((#[trigger] before[j]).placement.extent matches Some(e) && e.min.x == b.min.x);
            assert(holes[j] == before[j]);
            let j = choose|j: int| 0 <= j < before.len() && ((#[trigger] before[j]).placement.extent matches Some(e) && e.min.y == b.min.y);
            assert(holes[j] == before[j]);
            let j = choose|j: int| 0 <= j < before.len() && ((#[trigger] before[j]).placement.extent matches Some(e) && e.min.z == b.min.z);
            assert(holes[j] == before[j]);
            let j = choose|j: int| 0 <= j < before.len() && ((#[trigger] before[j]).placement.extent matches Some(e) && e.max.x == b.max.x);
            assert(holes[j] == before[j]);
            let j = choose|j: int| 0 <= j < before.len() && ((#[trigger] before[j]).placement.extent matches Some(e) && e.max.y == b.max.y);
            assert(holes[j] == before[j]);
            let j = choose|j: int| 0 <= j < before.len() && ((#[trigger] before[j]).placement.extent matches Some(e) && e.max.z == b.max.z);
            assert(holes[j] == before[j]);
        }
    }
}

/// A finished conversion is one step: each converted object takes the place of
/// the one of its id, each change of elevation goes from what it was to what
/// it is, and each converted item takes its place.
pub proof fn law_conversion_replaces(pre: App, job: SurveyJob, objects: Vec<Object>, items: Vec<OpenItem>, post: App, i: int, p: OpenProject)
    requires
        conversion_applied(pre, job, Some((objects, items)), post),
        post.steps@.len() != pre.steps@.len(),
        i == index_of_runtime(pre.workspace.projects@, job.runtime_id),
        0 <= i < pre.workspace.projects@.len(),
        p == pre.workspace.projects@[i],
    ensures
        keeps_steps(pre, post) && post.steps@.len() == pre.steps@.len() + 1,
        ({
            let step = post.steps@.last();
            let (n, m) = (objects@.len() as int, job.elevations@.len() as int);
            &&& step.project == Some(job.runtime_id) && step.batch && !step.applied
            &&& step.edits@.len() == n + m + items@.len()
            &&& forall|k: int|
                0 <= k < n ==> ((#[trigger] step.edits@[k]) matches Edit::Replace { before, after } && after@ == objects@[k]@ && before@.id()
                    == objects@[k]@.id() && p.document.object(objects@[k]@.id()) == Some(before@))
            &&& forall|k: int|
                0 <= k < m ==> ((#[trigger] step.edits@[n + k]) matches Edit::SetLayerElevation { layer, before, after } && layer == job.elevations@[k].layer
                    && before == job.elevations@[k].before && after == job.elevations@[k].after)
            &&& forall|k: int| 0 <= k < items@.len() ==> #[trigger] step.edits@[n + m + k] == Edit::ReplaceItem(items@[k])
        }),
        post.workspace == pre.workspace && post.items == pre.items && post.selection == pre.selection,
{
    let step = post.steps@.last();
    assert forall|k: int| 0 <= k < objects@.len() implies ((#[trigger] step.edits@[k]) matches Edit::Replace { before, after } && after@ == objects@[k]@ && before@.id()
        == objects@[k]@.id() && p.document.object(objects@[k]@.id()) == Some(before@)) by {
        crate::laws::lookup::law_object_is_found_by_its_id(p.document, objects@[k]@.id());
    }
}

/// What is gathered for a conversion is the selection: each selected object,
/// on a layer that is loaded; each selected item, as it is now; and nothing
/// else. What is not there, or not loaded, cannot be gathered.
pub proof fn law_gathered_is_the_selection(project: OpenProject, items: Items, handles: Seq<SceneEntityId>, n: int, g: Gathered)
    requires
        0 <= n <= handles.len(),
        gathered(project, items, handles, n) == Ok::<Gathered, AppError>(g),
    ensures
        forall|k: int|
            0 <= k < n ==> match #[trigger] handles[k] {
                SceneEntityId::Object(id) => g.objects.contains(id) && (project.document.object(id) matches Some(o) && g.layers.contains(o.layer()) && (
                project.document.layer_model(o.layer()) matches Some(l) && l.loaded)),
                h => exists|m: int|
                    0 <= m < g.marks.len() && (item_behind(h) matches Some((item, key)) && (#[trigger] g.marks[m]).item == item && g.keys.contains(key) && (
                    item_state(items, item) matches Some(s) && s.epoch == g.marks[m].epoch && s.loaded && !s.deferred)),
            },
        forall|m: int| 0 <= m < g.objects.len() ==> handles.take(n).contains(SceneEntityId::Object(#[trigger] g.objects[m])),
        g.objects.len() + g.marks.len() == n,
        g.keys.len() == g.marks.len() + 1,
        g.keys.contains(JobKey::Project { runtime_id: project.runtime_id, document_revision: project.revision }),
    decreases n,
{
    if n > 0 {
        let before = gathered(project, items, handles, n - 1)->Ok_0;
        law_gathered_is_the_selection(project, items, handles, n - 1, before);
        let own = JobKey::Project { runtime_id: project.runtime_id, document_revision: project.revision };
        let at = choose|x: int| 0 <= x < before.keys.len() && before.keys[x] == own;
        assert(g.keys[at] == own);
        assert forall|id: crate::ids::ObjectId| before.objects.contains(id) implies g.objects.contains(id) by {
            let x = choose|x: int| 0 <= x < before.objects.len() && before.objects[x] == id;
            assert(g.objects[x] == id);
        }
        assert forall|id: LayerId| before.layers.contains(id) implies g.layers.contains(id) by {
            let x = choose|x: int| 0 <= x < before.layers.len() && before.layers[x] == id;
            assert(g.layers[x] == id);
        }
        assert forall|key: JobKey| before.keys.contains(key) implies g.keys.contains(key) by {
            let x = choose|x: int| 0 <= x < before.keys.len() && before.keys[x] == key;
            assert(g.keys[x] == key);
        }
        let h = handles[n - 1];
        if h is Object {
            let o = project.document.object(h->Object_0)->0;
            assert(g.objects[g.objects.len() - 1] == h->Object_0);
            crate::laws::lookup::law_layer_is_found_by_its_id(project.document, o.layer());
            if !before.layers.contains(o.layer()) {
                assert(g.layers[g.layers.len() - 1] == o.layer());
            }
        } else {
            assert(g.marks[g.marks.len() - 1].item == item_behind(h)->Some_0.0);
            assert(g.keys[g.keys.len() - 1] == item_behind(h)->Some_0.1);
        }
        assert forall|k: int| 0 <= k < n implies match #[trigger] handles[k] {
            SceneEntityId::Object(id) => g.objects.contains(id) && (project.document.object(id) matches Some(o) && g.layers.contains(o.layer()) && (
            project.document.layer_model(o.layer()) matches Some(l) && l.loaded)),
            h => exists|m: int|
                0 <= m < g.marks.len() && (item_behind(h) matches Some((item, key)) && (#[trigger] g.marks[m]).item == item && g.keys.contains(key) && (
                item_state(items, item) matches Some(s) && s.epoch == g.marks[m].epoch && s.loaded && !s.deferred)),
        } by {
            if k < n - 1 && !(handles[k] is Object) {
                let h = handles[k];
                let m = choose|m: int|
                    0 <= m < before.marks.len() && (item_behind(h) matches Some((item, key)) && (#[trigger] before.marks[m]).item == item
                        && before.keys.contains(key) && (item_state(items, item) matches Some(s) && s.epoch == before.marks[m].epoch && s.loaded && !s.deferred));
                assert(g.marks[m] == before.marks[m]);
            }
        }
        let (shorter, longer) = (handles.take(n - 1), handles.take(n));
        assert forall|m: int| 0 <= m < g.objects.len() implies longer.contains(SceneEntityId::Object(#[trigger] g.objects[m])) by {
            let sought = SceneEntityId::Object(g.objects[m]);
            if m < before.objects.len() {
                assert(g.objects[m] == before.objects[m]);
                let k = choose|k: int| 0 <= k < shorter.len() && shorter[k] == sought;
                assert(longer[k] == sought);
            } else {
                assert(longer[n - 1] == sought);
            }
        }
    } else {
        assert(g.keys[0] == JobKey::Project { runtime_id: project.runtime_id, document_revision: project.revision });
    }
}

/// What stands behind a handle is the item of its own kind and id.
pub proof fn law_item_behind_a_handle(h: SceneEntityId)
    ensures
        h is Object <==> item_behind(h) is None,
        item_behind(h) matches Some((item, _)) ==> match h {
            SceneEntityId::Triangulation(id) => item == crate::ids::ItemRef::Triangulation(id),
            SceneEntityId::BlockModel(id) => item == crate::ids::ItemRef::BlockModel(id),
            SceneEntityId::DrillHole(id) => item == crate::ids::ItemRef::DrillHole(id),
            SceneEntityId::PointCloud(id) => item == crate::ids::ItemRef::PointCloud(id),
            SceneEntityId::Raster(id) => item == crate::ids::ItemRef::Raster(id),
            SceneEntityId::Object(_) => false,
        },
{
}

/// The elevation told for a layer is the last that was told for it.
pub proof fn law_told_elevation(told: Seq<(LayerId, Option<u32>)>, layer: LayerId, k: int)
    requires
        0 <= k < told.len(),
        told[k].0 == layer,
        forall|j: int| k < j < told.len() ==> (#[trigger] told[j]).0 != layer,
    ensures
        elevation_for(told, layer) == told[k].1,
    decreases told.len(),
{
    if k < told.len() - 1 {
        assert(told[told.len() - 1].0 != layer);
        law_told_elevation(told.drop_last(), layer, k);
    }
}

/// The changes of elevation are those of the gathered layers whose elevation
/// is told anew: each goes from what the layer has to what was told.
pub proof fn law_elevation_changes(document: Document, layers: Seq<LayerId>, told: Seq<(LayerId, Option<u32>)>, n: int, changes: Seq<ElevationChange>)
    requires
        0 <= n <= layers.len(),
        elevation_changes(document, layers, told, n) == Ok::<Seq<ElevationChange>, AppError>(changes),
    ensures
        forall|k: int|
            0 <= k < changes.len() ==> (document.layer_model((#[trigger] changes[k]).layer) matches Some(l) && l.elevation == changes[k].before && !f32_equal(
                l.elevation,
                changes[k].after,
            )) && elevation_for(told, changes[k].layer) == Some(changes[k].after) && f32_finite(changes[k].after) && exists|j: int|
                0 <= j < n && #[trigger] layers[j] == changes[k].layer,
        forall|j: int|
            0 <= j < n ==> (document.layer_model(#[trigger] layers[j]) matches Some(l) && (elevation_for(told, layers[j]) matches Some(to) && f32_finite(to)
                && (f32_equal(to, l.elevation) || exists|k: int| 0 <= k < changes.len() && (#[trigger] changes[k]).layer == layers[j]))),
    decreases n,
{
    if n > 0 {
        let before = elevation_changes(document, layers, told, n - 1)->Ok_0;
        law_elevation_changes(document, layers, told, n - 1, before);
        assert forall|j: int| 0 <= j < n implies (document.layer_model(#[trigger] layers[j]) matches Some(l) && (elevation_for(told, layers[j]) matches Some(
            to,
        ) && f32_finite(to) && (f32_equal(to, l.elevation) || exists|k: int| 0 <= k < changes.len() && (#[trigger] changes[k]).layer == layers[j]))) by {
            if j < n - 1 {
                if exists|k: int| 0 <= k < before.len() && (#[trigger] before[k]).layer == layers[j] {
                    let k = choose|k: int| 0 <= k < before.len() && (#[trigger] before[k]).layer == layers[j];
                    assert(changes[k] == before[k]);
                }
            } else if changes.len() > before.len() {
                assert(changes[changes.len() - 1].layer == layers[j]);
            }
        }
        assert forall|k: int| 0 <= k < changes.len() implies (document.layer_model((#[trigger] changes[k]).layer) matches Some(l) && l.elevation
            == changes[k].before && !f32_equal(l.elevation, changes[k].after)) && elevation_for(told, changes[k].layer) == Some(changes[k].after) && f32_finite(
            changes[k].after,
        ) && exists|j: int| 0 <= j < n && #[trigger] layers[j] == changes[k].layer by {
            if k < before.len() {
                assert(changes[k] == before[k]);
                let j = choose|j: int| 0 <= j < n - 1 && #[trigger] layers[j] == before[k].layer;
                assert(layers[j] == changes[k].layer);
            } else {
                assert(layers[n - 1] == changes[k].layer);
            }
        }
    }
}

/// Texts stand in the order of their characters: at the first place where they
/// differ the smaller character comes first, and a text comes before those
/// that go on after it.
pub proof fn law_text_order(a: Seq<char>, b: Seq<char>, k: int)
    requires
        0 <= k <= a.len(),
        k <= b.len(),
        forall|i: int| 0 <= i < k ==> a[i] == b[i],
        k < a.len() && k < b.len() ==> a[k] != b[k],
    ensures
        text_before(a, b) <==> (k == a.len() && k < b.len()) || (k < a.len() && k < b.len() && (a[k] as u32) < (b[k] as u32)),
    decreases k,
{
    if k > 0 {
        law_text_order(a.drop_first(), b.drop_first(), k - 1);
    }
}

proof fn lemma_characters(x: char, y: char)
    ensures
        x != y ==> x as u32 != y as u32,
{
}

proof fn lemma_text_order(a: Seq<char>, b: Seq<char>, c: Seq<char>)
    ensures
        !(text_before(a, b) && text_before(b, a)),
        !text_before(b, a) && !text_before(c, b) ==> !text_before(c, a),
        text_before(a, b) && !text_before(c, b) ==> !text_before(c, a),
    decreases a.len() + b.len() + c.len(),
{
    if a.len() > 0 && b.len() > 0 && c.len() > 0 {
        lemma_characters(a[0], b[0]);
        lemma_characters(c[0], b[0]);
        lemma_text_order(a.drop_first(), b.drop_first(), c.drop_first());
    } else if a.len() > 0 && b.len() > 0 {
        lemma_text_order(a.drop_first(), b.drop_first(), c);
    }
}

/// Systems stand in the order of their names.
pub open spec fn in_name_order(s: Seq<SystemModel>) -> bool {
    forall|i: int, j: int| 0 <= i < j < s.len() ==> !text_before((#[trigger] s[j]).name, (#[trigger] s[i]).name)
}

/// Sorted systems stand in the order of their names.
pub proof fn law_systems_stand_in_order(s: Seq<SystemModel>)
    ensures
        in_name_order(sorted_systems(s)),
    decreases s.len(),
{
    if s.len() > 0 {
        let (before, d) = (sorted_systems(s.drop_last()), s.last());
        law_systems_stand_in_order(s.drop_last());
        let f = |x: SystemModel| text_before(d.name, x.name);
        lemma_first_index(before, f);
        let at = crate::search::first_index(before, f);
        let all = sorted_systems(s);
        assert(all == before.insert(at, d));
        assert forall|i: int, j: int| 0 <= i < j < all.len() implies !text_before((#[trigger] all[j]).name, (#[trigger] all[i]).name) by {
            if i == at {
                assert(f(before[at]));
                lemma_text_order(d.name, before[at].name, before[j - 1].name);
                if j - 1 == at {
                    lemma_text_order(d.name, before[at].name, d.name);
                }
            } else if j == at {
                assert(!f(before[i]));
            } else {
                let (x, y) = (if i < at { i } else { i - 1 }, if j < at { j } else { j - 1 });
                assert(all[i] == before[x] && all[j] == before[y]);
            }
        }
    }
}

proof fn lemma_kept(s: Seq<SystemModel>, name: Seq<char>, d: SystemModel)
    ensures
        without_system(s, name).contains(d) <==> s.contains(d) && d.name != name,
{
    let f = |d: SystemModel| d.name != name;
    let kept = s.filter(f);
    crate::ids::lemma_filter_members(s, f);
    assert(kept == without_system(s, name));
    assert(kept.contains(d) <==> s.contains(d) && f(d));
}

/// A saved system is among the systems with all that was given of it. With it
/// are those that were there, but for the one that it takes the place of; what
/// was placed in that one is placed in the saved one. They stand in the order
/// of their names.
pub proof fn law_saved_system_is_there(pre: Survey, target: Option<Seq<char>>, d: SystemModel, post: Survey, x: SystemModel)
    requires
        system_saved(pre, target, d, post),
        d.parent is Some ==> target != d.parent,
    ensures
        system_models(post.definitions@).contains(d),
        in_name_order(system_models(post.definitions@)),
        system_models(pre.definitions@).contains(x) && target != Some(x.name) ==> system_models(post.definitions@).contains(
            if target is Some && x.parent == target {
                SystemModel { name: x.name, parent: Some(d.name), key: x.key, axis_names: x.axis_names }
            } else {
                x
            },
        ),
        system_models(post.definitions@).contains(x) && x != d ==> exists|y: SystemModel| #[trigger]
            system_models(pre.definitions@).contains(y) && target != Some(y.name) && y.name == x.name && y.key == x.key && y.axis_names == x.axis_names && (
            x.parent == y.parent || (target is Some && y.parent == target && x.parent == Some(d.name))),
{
    let s = system_models(pre.definitions@);
    let all = with_saved(s, target, d);
    let moved = if target is Some && x.parent == target {
        SystemModel { name: x.name, parent: Some(d.name), key: x.key, axis_names: x.axis_names }
    } else {
        x
    };
    law_systems_stand_in_order(all);
    crate::survey::law_sorting_keeps_systems(all, d);
    crate::survey::law_sorting_keeps_systems(all, x);
    crate::survey::law_sorting_keeps_systems(all, moved);
    match target {
        None => {
            let n = s.len() as int;
            assert(all[n] == d);
            if s.contains(x) {
                let i = choose|i: int| 0 <= i < s.len() && s[i] == x;
                assert(all[i] == x);
            }
            if all.contains(x) && x != d {
                let i = choose|i: int| 0 <= i < all.len() && all[i] == x;
                assert(s[i] == x);
                assert(s.contains(x));
            }
        },
        Some(old) => {
            let rest = without_system(s, old);
            let plain = rest.push(d);
            let n = rest.len() as int;
            assert(plain[n] == d);
            assert(all.len() == plain.len());
            assert(all[n] == d);
            lemma_kept(s, old, x);
            if s.contains(x) && x.name != old {
                let i = choose|i: int| 0 <= i < rest.len() && rest[i] == x;
                assert(plain[i] == x);
                assert(all[i] == moved);
            }
            if all.contains(x) && x != d {
                let i = choose|i: int| 0 <= i < all.len() && all[i] == x;
                let y = rest[i];
                assert(plain[i] == y);
                lemma_kept(s, old, y);
                assert(rest.contains(y));
                assert(s.contains(y));
            }
        },
    }
}

/// A deleted system is gone, and no other.
pub proof fn law_deleted_system_is_gone(pre: Survey, name: Seq<char>, post: Survey, x: SystemModel)
    requires
        system_deleted(pre, name, post),
    ensures
        system_models(post.definitions@).contains(x) <==> system_models(pre.definitions@).contains(x) && x.name != name,
        text_of(pre.local_system) == Some(name) ==> post.local_system is None,
        text_of(pre.local_system) != Some(name) ==> text_of(post.local_system) == text_of(pre.local_system),
        text_of(pre.source_system) == Some(name) ==> post.source_system is None,
        text_of(pre.target_system) == Some(name) ==> post.target_system is None,
        text_of(pre.editing_name) == Some(name) ==> post.editing_name is None,
{
    lemma_kept(system_models(pre.definitions@), name, x);
}

/// The names of the axes are those of the local system, where there is one.
pub proof fn law_axes_are_named_by_the_local_system(pre: Survey, target: Option<Seq<char>>, d: SystemModel, post: Survey)
    requires
        system_saved(pre, target, d, post),
    ensures
        text_of(post.local_system) matches Some(name) ==> (forall|x: SystemModel|
            system_models(post.definitions@).contains(x) && x.name == name && (forall|y: SystemModel|
                system_models(post.definitions@).contains(y) && y.name == name ==> y == x) ==> post.axis_names == x.axis_names),
        post.local_system is None ==> post.axis_names is None,
        (target is Some && text_of(pre.local_system) == target) ==> text_of(post.local_system) == Some(d.name),
        target is Some && text_of(pre.local_system) is Some && text_of(pre.local_system) != target ==> text_of(post.local_system) == text_of(pre.local_system),
        target is None && pre.definitions@.len() == 0 && pre.local_system is None ==> text_of(post.local_system) == Some(d.name),
        target is None && pre.definitions@.len() > 0 ==> text_of(post.local_system) == text_of(pre.local_system),
{
    let s = system_models(post.definitions@);
    if let Some(name) = text_of(post.local_system) {
        lemma_first_index(s, |d: SystemModel| d.name == name);
        assert forall|x: SystemModel|
            s.contains(x) && x.name == name && (forall|y: SystemModel| s.contains(y) && y.name == name ==> y == x) implies post.axis_names == x.axis_names by {
            let i = choose|i: int| 0 <= i < s.len() && s[i] == x;
            assert(s[i].name == name);
            assert(s.contains(s[system_index(s, name)]));
        }
    }
    assert(system_models(pre.definitions@).len() == pre.definitions@.len());
}

/// A finished conversion counts only where its project is the active one and
/// each item that it was made from is as it was then: loaded, in memory and not
/// changed since.
pub proof fn law_stale_conversions(pre: App, job: SurveyJob, objects: Vec<Object>, items: Vec<OpenItem>, post: App, k: int)
    requires
        conversion_applied(pre, job, Some((objects, items)), post),
        post != pre,
        0 <= k < job.marks@.len(),
    ensures
        pre.workspace.active() matches Some(p) && p.runtime_id == job.runtime_id,
        item_state(pre.items, job.marks@[k].item) matches Some(s) && s.epoch == job.marks@[k].epoch && s.loaded && !s.deferred,
        keeps_steps(pre, post),
{
    assert(crate::commands::survey::mark_current(pre.items, job.marks@[k]));
}

} // verus!
