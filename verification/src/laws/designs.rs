//! Layers, contours, and designs that come from elsewhere.

use crate::commands::contours::{contour_home, contour_span, contours_applied, intervals_error, ContourLine, ContourOutput, ContourRequest, ZRange};
use crate::commands::layers::{
    handles_on, layer_created, layer_deleted, layer_duplicated, layer_loaded, layer_lock_toggled, layer_selected, layer_unloaded,
    layer_visibility_toggled, positioned_on,
};
use crate::document::{layer_models, object_models, Document, FillStyle, LayerModel, ObjectModel};
use crate::edit::Edit;
use crate::error::AppError;
use crate::ids::{LayerId, ObjectId, SceneEntityId, TriangulationId};
use crate::ieee::{f64_finite, f64_less};
use crate::items::triangulation_index;
use crate::laws::drawing::added;
use crate::laws::lookup::{alike, keeps_steps};
use crate::merging::{document_merged, layer_names, layers_merged, objects_merged};
use crate::names::{law_unique_name_is_free, unique_name};
use crate::search::lemma_first_index;
use crate::snapshots::{id_under, object_under, objects_off, objects_on};
use crate::state::App;
use crate::workspace::{index_of_layer, index_of_runtime, OpenProject};
use vstd::prelude::*;

verus! {

/// White, opaque: four times the bits of 1 as an `f32`.
pub open spec fn is_white(c: crate::document::Rgba) -> bool {
    c.r == 0x3f80_0000 && c.g == 0x3f80_0000 && c.b == 0x3f80_0000 && c.a == 0x3f80_0000
}

/// Making a layer adds one of that name, shown, loaded and white, with nothing
/// on it, under the next free id; it is the one that is drawn on then, and
/// nothing is selected.
pub proof fn law_new_layer_is_empty_and_drawn_on(pre: App, name: Seq<char>, post: App, p: OpenProject)
    requires
        layer_created(pre, name, post),
        pre.workspace.active() == Some(p),
    ensures
        keeps_steps(pre, post) && post.steps@.len() == pre.steps@.len() + 1,
        post.steps@.last().edits@.len() == 1,
        post.steps@.last().edits@[0] matches Edit::AddLayer { layer, objects } && {
            &&& layer.name@ == name
            &&& layer.id == LayerId(p.document.next_layer_id)
            &&& layer.visible && layer.loaded && layer.elevation == 0 && layer.color_index is None && is_white(layer.color)
            &&& objects@.len() == 0
        },
        post.canvas.active_layer == Some(LayerId(p.document.next_layer_id)),
        post.selection.handles@ == Set::<SceneEntityId>::empty(),
        post.workspace.active() matches Some(q) && q.document.objects
            == p.document.objects && q.document.layers == p.document.layers && (p.document.next_layer_id < u64::MAX ==> q.document.next_layer_id
            == p.document.next_layer_id + 1) && q.loaded_layers@.contains(LayerId(p.document.next_layer_id)),
{
    if let Edit::AddLayer { layer, objects } = post.steps@.last().edits@[0] {
        assert(object_models(objects@).len() == objects@.len());
    }
}

/// The objects on a layer are taken one by one, in their order: each that is
/// on it, and no other.
pub proof fn law_objects_on_a_layer(s: Seq<ObjectModel>, o: ObjectModel, layer: LayerId)
    ensures
        objects_on(Seq::empty(), layer) == Seq::<ObjectModel>::empty(),
        objects_on(s.push(o), layer) == if o.layer() == layer {
            objects_on(s, layer).push(o)
        } else {
            objects_on(s, layer)
        },
        objects_off(Seq::empty(), layer) == Seq::<ObjectModel>::empty(),
        objects_off(s.push(o), layer) == if o.layer() == layer {
            objects_off(s, layer)
        } else {
            objects_off(s, layer).push(o)
        },
{
    reveal(Seq::filter);
    assert(s.push(o).drop_last() =~= s);
}

proof fn lemma_fewer_on(s: Seq<ObjectModel>, layer: LayerId)
    ensures
        objects_on(s, layer).len() <= s.len(),
    decreases s.len(),
{
    reveal(Seq::filter);
    if s.len() > 0 {
        lemma_fewer_on(s.drop_last(), layer);
    }
}

/// Copying a layer adds one with the same settings and a name of its own. On
/// it stand copies of all that stands on the source, in the same order: each
/// on the new layer, under an id of its own, and looking just like the object
/// that it is a copy of.
pub proof fn law_copied_layer_holds_the_copies(pre: App, layer: LayerId, post: App, p: OpenProject, source: LayerModel, k: int)
    requires
        layer_duplicated(pre, layer, post),
        pre.workspace.active() == Some(p),
        p.document.layer_model(layer) == Some(source),
        0 <= k < objects_on(object_models(p.document.objects@), layer).len(),
        p.document.next_object_id + p.document.objects@.len() <= u64::MAX,
    ensures
        ({
            let on = objects_on(object_models(p.document.objects@), layer);
            &&& keeps_steps(pre, post) && post.steps@.len() == pre.steps@.len() + 1
            &&& post.steps@.last().edits@.len() == 1
            &&& post.steps@.last().edits@[0] matches Edit::AddLayer { layer: made, objects } && {
                &&& made.id == LayerId(p.document.next_layer_id)
                &&& made.color == source.color && made.color_index == source.color_index && made.visible == source.visible && made.elevation
                    == source.elevation && made.loaded == source.loaded
                &&& !layer_names(layer_models(p.document.layers@)).contains(made.name@)
                &&& objects@.len() == on.len()
                &&& objects@[k]@.layer() == made.id
                &&& objects@[k]@.id() == ObjectId((p.document.next_object_id + k) as u64)
                &&& alike(on[k], objects@[k]@)
            }
            &&& on[k].layer() == layer
        }),
        post.workspace.active() matches Some(q) && q.document.objects == p.document.objects && q.document.layers == p.document.layers
            && q.document.next_object_id == p.document.next_object_id + objects_on(object_models(p.document.objects@), layer).len() && q.loaded_layers@.contains(
            LayerId(p.document.next_layer_id),
        ) && (p.document.next_layer_id < u64::MAX ==> q.document.next_layer_id == p.document.next_layer_id + 1),
        post.canvas.active_layer == pre.canvas.active_layer,
        post.selection.handles@ == Set::<SceneEntityId>::empty(),
{
    let models = object_models(p.document.objects@);
    let on = objects_on(models, layer);
    crate::ids::lemma_filter_members(models, |o: ObjectModel| o.layer() == layer);
    assert(on.contains(on[k]));
    lemma_fewer_on(models, layer);
    law_unique_name_is_free(layer_names(layer_models(p.document.layers@)), source.name + " copy"@);
    let edit = post.steps@.last().edits@[0];
    if let Edit::AddLayer { layer: made, objects } = edit {
        let copies = crate::commands::layers::copied_to(on, p.document.next_object_id, made.id);
        assert(object_models(objects@) == copies);
        assert(object_models(objects@).len() == objects@.len());
        assert(copies.len() == on.len());
        assert(object_models(objects@)[k] == objects@[k]@);
    }
}

/// The objects on a layer are told with their places: each place is that of
/// the object, places rise, and every object on the layer is told.
pub proof fn law_placed_objects(models: Seq<ObjectModel>, layer: LayerId, n: int)
    requires
        0 <= n <= models.len(),
    ensures
        forall|k: int|
            0 <= k < positioned_on(models, layer, n).len() ==> {
                let (at, o) = #[trigger] positioned_on(models, layer, n)[k];
                0 <= at < n && o == models[at] && o.layer() == layer
            },
        forall|j: int, k: int|
            0 <= j < k < positioned_on(models, layer, n).len() ==> (#[trigger] positioned_on(models, layer, n)[j]).0 < (#[trigger] positioned_on(
                models,
                layer,
                n,
            )[k]).0,
        forall|m: int|
            0 <= m < n && (#[trigger] models[m]).layer() == layer ==> exists|k: int|
                0 <= k < positioned_on(models, layer, n).len() && (#[trigger] positioned_on(models, layer, n)[k]).0 == m,
    decreases n,
{
    if n > 0 {
        law_placed_objects(models, layer, n - 1);
        let before = positioned_on(models, layer, n - 1);
        let all = positioned_on(models, layer, n);
        assert forall|m: int| 0 <= m < n && (#[trigger] models[m]).layer() == layer implies exists|k: int| 0 <= k < all.len() && (#[trigger] all[k]).0 == m by {
            if m < n - 1 {
                let k = choose|k: int| 0 <= k < before.len() && (#[trigger] before[k]).0 == m;
                assert(all[k] == before[k]);
            } else {
                assert(all[all.len() - 1].0 == m);
            }
        }
    }
}

/// Deleting a layer takes it out of its place with all that stands on it, and
/// nothing else. It is no longer drawn on, and nothing stays selected.
pub proof fn law_deleted_layer_goes_with_its_objects(pre: App, layer: LayerId, post: App, p: OpenProject, gone: LayerModel, k: int)
    requires
        layer_deleted(pre, layer, post),
        pre.workspace.active() == Some(p),
        p.document.layer_model(layer) == Some(gone),
        0 <= k < p.document.objects@.len(),
    ensures
        keeps_steps(pre, post) && post.steps@.len() == pre.steps@.len() + 1,
        post.steps@.last().edits@.len() == 1,
        post.steps@.last().edits@[0] matches Edit::DeleteLayer { layer: l, layer_index, placed } && {
            &&& l@ == gone
            &&& layer_index < p.document.layers@.len() && p.document.layers@[layer_index as int]@ == gone
            &&& p.document.objects@[k]@.layer() == layer ==> exists|m: int|
                0 <= m < placed@.len() && (#[trigger] placed@[m]).0 == k && placed@[m].1@ == p.document.objects@[k]@
            &&& forall|m: int|
                0 <= m < placed@.len() ==> (#[trigger] placed@[m]).0 < p.document.objects@.len() && placed@[m].1@ == p.document.objects@[placed@[m].0 as int]@
                    && placed@[m].1@.layer() == layer
        },
        post.canvas.active_layer != Some(layer),
        post.selection.handles@ == Set::<SceneEntityId>::empty(),
{
    let models = object_models(p.document.objects@);
    let n = models.len() as int;
    law_placed_objects(models, layer, n);
    lemma_first_index(p.document.layers@, |l: crate::document::Layer| l.id == layer);
    let told = positioned_on(models, layer, n);
    if let Edit::DeleteLayer { layer: l, layer_index, placed } = post.steps@.last().edits@[0] {
        let shown = crate::edit::placed_models(placed@);
        assert(shown == told);
        assert(shown.len() == placed@.len());
        assert forall|m: int| 0 <= m < placed@.len() implies (#[trigger] placed@[m]).0 < p.document.objects@.len() && placed@[m].1@ == p.document.objects@[placed@[m].0 as int]@
            && placed@[m].1@.layer() == layer by {
            assert(shown[m] == told[m]);
            assert(models[told[m].0] == p.document.objects@[told[m].0]@);
        }
        if models[k].layer() == layer {
            let m = choose|m: int| 0 <= m < told.len() && (#[trigger] told[m]).0 == k;
            assert(shown[m] == told[m]);
            assert(placed@[m].0 == k);
            assert(models[k] == p.document.objects@[k]@);
        }
    }
}

/// The handles on a layer are those of the objects that stand on it.
pub proof fn law_handles_on_a_layer(s: Seq<ObjectModel>, layer: LayerId, k: int)
    requires
        0 <= k < s.len(),
    ensures
        s[k].layer() == layer ==> handles_on(s, layer).contains(SceneEntityId::Object(s[k].id())),
        (forall|j: int| 0 <= j < s.len() && (#[trigger] s[j]).id() == s[k].id() ==> s[j].layer() != layer) ==> !handles_on(s, layer).contains(
            SceneEntityId::Object(s[k].id()),
        ),
        forall|h: SceneEntityId| #[trigger] handles_on(s, layer).contains(h) ==> h is Object,
{
}

/// Selecting a layer that is loaded selects the objects that stand on it and
/// nothing else, and makes it the one that is drawn on.
pub proof fn law_selecting_a_layer(pre: App, layer: LayerId, post: App, p: OpenProject, h: SceneEntityId)
    requires
        layer_selected(pre, layer, post),
        pre.workspace.active() == Some(p),
        p.loaded_layers@.contains(layer),
    ensures
        post.selection.handles@.contains(h) <==> exists|k: int|
            0 <= k < p.document.objects@.len() && (#[trigger] p.document.objects@[k])@.layer() == layer && h == SceneEntityId::Object(
                p.document.objects@[k]@.id(),
            ),
        post.canvas.active_layer == Some(layer),
        post.selection.tri_objects@.len() == 0,
        post.steps == pre.steps && post.workspace == pre.workspace,
{
    let models = object_models(p.document.objects@);
    if post.selection.handles@.contains(h) {
        let id = h->Object_0;
        let i = choose|i: int| 0 <= i < models.len() && (#[trigger] models[i]).id() == id && models[i].layer() == layer;
        assert(p.document.objects@[i]@ == models[i]);
    }
    if exists|k: int|
        0 <= k < p.document.objects@.len() && (#[trigger] p.document.objects@[k])@.layer() == layer && h == SceneEntityId::Object(
            p.document.objects@[k]@.id(),
        ) {
        let k = choose|k: int|
            0 <= k < p.document.objects@.len() && (#[trigger] p.document.objects@[k])@.layer() == layer && h == SceneEntityId::Object(
                p.document.objects@[k]@.id(),
            );
        assert(models[k] == p.document.objects@[k]@);
    }
}

/// Loading a layer makes it one of those loaded in its project, unloading
/// takes it out of them; neither touches any other layer, nor what is drawn.
pub proof fn law_loading_and_unloading(pre: App, layer: LayerId, loaded: App, unloaded: App, other: LayerId)
    requires
        layer_loaded(pre, layer, loaded),
        layer_unloaded(pre, layer, unloaded),
        index_of_layer(pre.workspace.projects@, layer) < pre.workspace.projects@.len(),
        pre.workspace.projects@[index_of_layer(pre.workspace.projects@, layer)].loaded_layers@.contains(layer),
    ensures
        ({
            let i = index_of_layer(pre.workspace.projects@, layer);
            &&& loaded.workspace.projects@[i].loaded_layers@.contains(layer)
            &&& !unloaded.workspace.projects@[i].loaded_layers@.contains(layer)
            &&& other != layer ==> (loaded.workspace.projects@[i].loaded_layers@.contains(other)
                <==> pre.workspace.projects@[i].loaded_layers@.contains(other))
            &&& other != layer ==> (unloaded.workspace.projects@[i].loaded_layers@.contains(other)
                <==> pre.workspace.projects@[i].loaded_layers@.contains(other))
            &&& loaded.workspace.projects@[i].document == pre.workspace.projects@[i].document
            &&& unloaded.workspace.projects@[i].document == pre.workspace.projects@[i].document
        }),
        unloaded.canvas.active_layer != Some(layer),
        loaded.canvas == pre.canvas,
        loaded.selection.handles@ == Set::<SceneEntityId>::empty(),
        loaded.steps == pre.steps && unloaded.steps == pre.steps,
{
    lemma_first_index(pre.workspace.projects@, |p: OpenProject| crate::workspace::holds_layer(p, layer));
}

/// What stood on a layer that was unloaded is no longer selected, hidden,
/// locked or see-through; all else is as it was.
pub proof fn law_unloaded_objects_are_let_go(pre: App, layer: LayerId, post: App, h: SceneEntityId)
    requires
        layer_unloaded(pre, layer, post),
        index_of_layer(pre.workspace.projects@, layer) < pre.workspace.projects@.len(),
        pre.workspace.projects@[index_of_layer(pre.workspace.projects@, layer)].loaded_layers@.contains(layer),
    ensures
        ({
            let gone = exists|k: int|
                0 <= k < pre.workspace.projects@[index_of_layer(pre.workspace.projects@, layer)].document.objects@.len() && {
                    let o = (#[trigger] pre.workspace.projects@[index_of_layer(pre.workspace.projects@, layer)].document.objects@[k])@;
                    o.layer() == layer && h == SceneEntityId::Object(o.id())
                };
            &&& post.selection.handles@.contains(h) <==> pre.selection.handles@.contains(h) && !gone
            &&& post.visibility.hidden@.contains(h) <==> pre.visibility.hidden@.contains(h) && !gone
            &&& post.visibility.frozen@.contains(h) <==> pre.visibility.frozen@.contains(h) && !gone
            &&& post.visibility.explicitly_frozen@.contains(h) <==> pre.visibility.explicitly_frozen@.contains(h) && !gone
            &&& post.visibility.translucent@.contains(h) <==> pre.visibility.translucent@.contains(h) && !gone
        }),
{
    let d = pre.workspace.projects@[index_of_layer(pre.workspace.projects@, layer)].document;
    let models = object_models(d.objects@);
    if handles_on(models, layer).contains(h) {
        let id = h->Object_0;
        let i = choose|i: int| 0 <= i < models.len() && (#[trigger] models[i]).id() == id && models[i].layer() == layer;
        assert(d.objects@[i]@ == models[i]);
    }
    if exists|k: int| 0 <= k < d.objects@.len() && (#[trigger] d.objects@[k])@.layer() == layer && h == SceneEntityId::Object(d.objects@[k]@.id()) {
        let k = choose|k: int| 0 <= k < d.objects@.len() && (#[trigger] d.objects@[k])@.layer() == layer && h == SceneEntityId::Object(d.objects@[k]@.id());
        assert(models[k] == d.objects@[k]@);
    }
}

/// Showing a layer turns its visibility over, and does so from how it was.
pub proof fn law_layer_visibility_turns_over(pre: App, layer: LayerId, post: App, i: int)
    requires
        layer_visibility_toggled(pre, layer, post),
        i == index_of_layer(pre.workspace.projects@, layer),
        i < pre.workspace.projects@.len(),
        pre.workspace.projects@.len() <= usize::MAX,
    ensures
        pre.workspace.projects@[i].document.layer_model(layer) matches Some(l) && keeps_steps(pre, post) && post.steps@.len() == pre.steps@.len() + 1
            && post.steps@.last().edits@.len() == 1 && post.steps@.last().edits@[0] == (Edit::SetLayerVisible { id: layer, from: l.visible, to: !l.visible }),
        post.workspace.active() == Some(pre.workspace.projects@[i]),
        post.selection == pre.selection && post.visibility == pre.visibility,
{
    lemma_first_index(pre.workspace.projects@, |p: OpenProject| crate::workspace::holds_layer(p, layer));
}

/// Locking a layer that is not locked locks it, and locking it again unlocks
/// it; no other layer's lock changes.
pub proof fn law_locks(pre: App, layer: LayerId, post: App, other: LayerId)
    requires
        layer_lock_toggled(pre, layer, post),
        index_of_layer(pre.workspace.projects@, layer) < pre.workspace.projects@.len(),
        pre.workspace.projects@.len() <= usize::MAX,
    ensures
        post.visibility.locked_layers@.contains(layer) <==> !pre.visibility.locked_layers@.contains(layer),
        other != layer ==> (post.visibility.locked_layers@.contains(other) <==> pre.visibility.locked_layers@.contains(other)),
        pre.visibility.locked_layers@.contains(layer) ==> post.selection == pre.selection || post.selection.handles@ == pre.selection.handles@,
        post.visibility.locked_layers@.contains(layer) ==> post.canvas.active_layer != Some(layer),
        post.steps == pre.steps,
{
    lemma_first_index(pre.workspace.projects@, |p: OpenProject| crate::workspace::holds_layer(p, layer));
}

/// The object of the k-th line that a step of contours adds, on a layer of
/// their own or on one that is there.
pub open spec fn added_line(edits: Seq<Edit>, output: ContourOutput, k: int) -> Option<ObjectModel> {
    match output {
        ContourOutput::New(_) => match edits[0] {
            Edit::AddLayer { objects, .. } if k < objects@.len() => Some(objects@[k]@),
            _ => None,
        },
        ContourOutput::Existing(_) => added(edits[k]),
    }
}

/// Finished contours add an open polyline for each line, in their order, on
/// the layer that was asked for. It runs through the points of its line with
/// straight edges, from the first to the last and no further, and has the
/// line's colour.
pub proof fn law_contours_follow_their_lines(pre: App, request: ContourRequest, lines: Seq<ContourLine>, post: App, i: int, k: int)
    requires
        contours_applied(pre, request, lines, post),
        i == index_of_runtime(pre.workspace.projects@, request.project_runtime_id),
        i < pre.workspace.projects@.len(),
        contour_home(pre.workspace.projects@[i].document, request.output) is Some,
        0 <= k < lines.len(),
        pre.workspace.projects@[i].document.next_object_id + lines.len() <= u64::MAX,
    ensures
        keeps_steps(pre, post) && post.steps@.len() == pre.steps@.len() + 1,
        post.steps@.last().project == Some(request.project_runtime_id),
        added_line(post.steps@.last().edits@, request.output, k) matches Some(o) && {
            &&& o is Polyline
            &&& !o->Polyline_closed
            &&& o->Polyline_color == lines[k].color
            &&& o->Polyline_fill == FillStyle::Clear
            &&& o->Polyline_line_weight == 0x3f80_0000
            &&& o->Polyline_verts.len() == lines[k].points@.len()
            &&& forall|v: int|
                0 <= v < lines[k].points@.len() ==> (#[trigger] o->Polyline_verts[v]).pos == lines[k].points@[v] && o->Polyline_verts[v].bulge == 0
            &&& o.id() == ObjectId((pre.workspace.projects@[i].document.next_object_id + k) as u64)
            &&& request.output matches ContourOutput::Existing(layer) ==> o.layer() == layer
            &&& request.output is New ==> o.layer() == LayerId(pre.workspace.projects@[i].document.next_layer_id)
        },
        request.output is Existing ==> post.steps@.last().edits@.len() == lines.len(),
        request.output matches ContourOutput::New(name) ==> post.steps@.last().edits@.len() == 1 && (post.steps@.last().edits@[0] matches Edit::AddLayer {
            layer,
            objects,
        } && layer.name@ == name@ && layer.id == LayerId(pre.workspace.projects@[i].document.next_layer_id) && objects@.len() == lines.len() && layer.visible
            && layer.loaded && is_white(layer.color)),
{
    let edits = post.steps@.last().edits@;
    if request.output is New {
        if let Edit::AddLayer { layer, objects } = edits[0] {
            assert(object_models(objects@).len() == objects@.len());
            assert(object_models(objects@)[k] == objects@[k]@);
        }
    } else {
        let home = contour_home(pre.workspace.projects@[i].document, request.output)->0;
        let objects = crate::commands::contours::contour_objects(lines, home, pre.workspace.projects@[i].document.next_object_id as int);
        assert(edits[k].adds(objects[k]));
    }
}

/// Contours find a layer where the one asked for is there, or where the name
/// for a new one is still free; else nothing changes.
pub proof fn law_contours_need_a_layer(pre: App, request: ContourRequest, lines: Seq<ContourLine>, post: App, i: int)
    requires
        contours_applied(pre, request, lines, post),
        i == index_of_runtime(pre.workspace.projects@, request.project_runtime_id),
    ensures
        i >= pre.workspace.projects@.len() ==> post == pre,
        i < pre.workspace.projects@.len() ==> (request.output matches ContourOutput::Existing(layer) ==> (pre.workspace.projects@[i].document.layer_model(
            layer,
        ) is None ==> post == pre) && (pre.workspace.projects@[i].document.layer_model(layer) is Some ==> keeps_steps(pre, post) && post.steps@.len() == pre.steps@.len() + 1)),
        i < pre.workspace.projects@.len() ==> (request.output matches ContourOutput::New(name) ==> {
            let taken = exists|j: int|
                0 <= j < pre.workspace.projects@[i].document.layers@.len() && (#[trigger] pre.workspace.projects@[i].document.layers@[j]).name@ == name@;
            (taken ==> post == pre) && (!taken ==> keeps_steps(pre, post) && post.steps@.len() == pre.steps@.len() + 1)
        }),
{
}

/// Contours are drawn only where their intervals make sense: both positive
/// and finite, the minor no less than a thousandth, and the major no less than
/// the minor.
pub proof fn law_contour_intervals(major: u64, minor: u64)
    ensures
        intervals_error(major, minor) is None <==> {
            &&& f64_finite(major) && f64_finite(minor)
            &&& f64_less(0, major) && f64_less(0, minor)
            &&& !f64_less(minor, crate::commands::contours::LEAST_INTERVAL)
            &&& !f64_less(major, minor)
        },
        intervals_error(major, minor) is Some && f64_finite(major) && f64_finite(minor) && f64_less(0, major) && f64_less(0, minor) ==> intervals_error(
            major,
            minor,
        ) == if f64_less(minor, crate::commands::contours::LEAST_INTERVAL) {
            Some(AppError::IntervalTooSmall)
        } else {
            Some(AppError::MajorBelowMinor)
        },
{
}

/// The range of contours lies within the surface and within what was asked
/// for; without a wish it is that of the surface.
pub proof fn law_contour_range(app: App, id: TriangulationId, range: Option<ZRange>, i: int)
    requires
        i == triangulation_index(app.items.triangulations@, id),
        i < app.items.triangulations@.len(),
    ensures
        range is None ==> contour_span(app, id, range) == Ok::<ZRange, AppError>(
            ZRange { lo: app.items.triangulations@[i].bounds.min.z, hi: app.items.triangulations@[i].bounds.max.z },
        ),
        range matches Some(r) ==> (contour_span(app, id, range) matches Ok(span) ==> {
            &&& f64_less(span.lo, span.hi)
            &&& !f64_less(span.lo, r.lo) && !f64_less(r.hi, span.hi)
            &&& !f64_less(span.lo, app.items.triangulations@[i].bounds.min.z) && !f64_less(app.items.triangulations@[i].bounds.max.z, span.hi)
            &&& span.lo == r.lo || span.lo == app.items.triangulations@[i].bounds.min.z
            &&& span.hi == r.hi || span.hi == app.items.triangulations@[i].bounds.max.z
        }),
        range matches Some(r) && f64_less(r.hi, r.lo) ==> contour_span(app, id, range) == Err::<ZRange, AppError>(AppError::ZRangeInvalid),
{
}

/// An id under a number has the number in its upper half and itself in its
/// lower half.
pub proof fn law_id_under_a_number(id: u64, ns: u32)
    ensures
        id_under(id, ns) / 0x1_0000_0000 == ns,
        id_under(id, ns) % 0x1_0000_0000 == id % 0x1_0000_0000,
{
    let whole = ns as int * 0x1_0000_0000 + id as int % 0x1_0000_0000;
    assert(0 <= whole <= u64::MAX) by (nonlinear_arith)
        requires
            0 <= ns as int <= 0xffff_ffff,
            whole == ns as int * 0x1_0000_0000 + id as int % 0x1_0000_0000,
            0 <= id as int % 0x1_0000_0000 < 0x1_0000_0000,
    ;
}

/// An object under a number looks as it did; only its ids are under it.
pub proof fn law_objects_under_a_number(o: ObjectModel, ns: u32)
    ensures
        alike(o, object_under(o, ns)),
        object_under(o, ns).id() == ObjectId(id_under(o.id().0, ns)),
        object_under(o, ns).layer() == LayerId(id_under(o.layer().0, ns)),
{
}

proof fn lemma_layers_merged(layers: Seq<LayerModel>, others: Seq<LayerModel>, next: u64, n: int, k: int)
    requires
        0 <= k < n <= others.len(),
    ensures
        layers_merged(layers, others, next, n).len() == layers.len() + n,
        layers_merged(layers, others, next, n)[layers.len() + k] == (LayerModel {
            id: LayerId((next + k) as u64),
            name: unique_name(layer_names(layers_merged(layers, others, next, k)), others[k].name),
            ..others[k]
        }),
        layers_merged(layers, others, next, n).take(layers.len() + k) == layers_merged(layers, others, next, k),
    decreases n,
{
    lemma_merged_len(layers, others, next, n - 1);
    let before = layers_merged(layers, others, next, n - 1);
    let all = layers_merged(layers, others, next, n);
    if k < n - 1 {
        lemma_layers_merged(layers, others, next, n - 1, k);
        assert(all[layers.len() + k] == before[layers.len() + k]);
        assert(all.take(layers.len() + k) =~= before.take(layers.len() + k));
    } else {
        assert(all.take(layers.len() + k) =~= before);
    }
}

proof fn lemma_merged_len(layers: Seq<LayerModel>, others: Seq<LayerModel>, next: u64, n: int)
    requires
        0 <= n,
    ensures
        layers_merged(layers, others, next, n).len() == layers.len() + n,
    decreases n,
{
    if n > 0 {
        lemma_merged_len(layers, others, next, n - 1);
    }
}

/// Merging a design adds each of its layers behind those that were there: with
/// the same settings, under the next free id, and with a name that no layer
/// before it has, which is its own where that is free.
pub proof fn law_merged_layers(pre: Document, other: Document, post: Document, k: int)
    requires
        document_merged(pre, other, post),
        0 <= k < other.layers@.len(),
    ensures
        post.layers@.len() == pre.layers@.len() + other.layers@.len(),
        post.next_layer_id == pre.next_layer_id + other.layers@.len(),
        post.next_object_id == pre.next_object_id + (post.objects@.len() - pre.objects@.len()),
        ({
            let (from, to) = (other.layers@[k], post.layers@[pre.layers@.len() + k]);
            &&& to.id == LayerId((pre.next_layer_id + k) as u64)
            &&& to.color == from.color && to.color_index == from.color_index && to.visible == from.visible && to.loaded == from.loaded && to.elevation
                == from.elevation
            &&& forall|j: int| 0 <= j < pre.layers@.len() + k ==> (#[trigger] post.layers@[j]).name@ != to.name@
            &&& (forall|j: int| 0 <= j < pre.layers@.len() + k ==> (#[trigger] post.layers@[j]).name@ != from.name@) ==> to.name@ == from.name@
        }),
{
    let (layers, others) = (layer_models(pre.layers@), layer_models(other.layers@));
    let n = others.len() as int;
    let all = layer_models(post.layers@);
    lemma_layers_merged(layers, others, pre.next_layer_id, n, k);
    let before = layers_merged(layers, others, pre.next_layer_id, k);
    let names = layer_names(before);
    let at = layers.len() + k;
    assert(all[at] == post.layers@[at]@);
    assert(others[k] == other.layers@[k]@);
    law_unique_name_is_free(names, others[k].name);
    assert forall|j: int| 0 <= j < at implies (#[trigger] post.layers@[j]).name@ != post.layers@[at].name@ by {
        assert(all[j] == post.layers@[j]@);
        assert(before[j] == all.take(at)[j]);
        assert(names[j] == post.layers@[j].name@);
        assert(names.contains(names[j]));
    }
    if forall|j: int| 0 <= j < at ==> (#[trigger] post.layers@[j]).name@ != others[k].name {
        assert(!names.contains(others[k].name)) by {
            if names.contains(others[k].name) {
                let j = choose|j: int| 0 <= j < names.len() && names[j] == others[k].name;
                lemma_merged_len(layers, others, pre.next_layer_id, k);
                assert(before[j] == all.take(at)[j]);
                assert(all[j] == post.layers@[j]@);
            }
        }
    }
}

proof fn lemma_objects_merged(
    objects: Seq<ObjectModel>,
    others: Seq<ObjectModel>,
    layers: Seq<LayerModel>,
    next_layer: u64,
    next_object: u64,
    n: int,
)
    requires
        0 <= n <= others.len(),
    ensures
        ({
            let all = objects_merged(objects, others, layers, next_layer, next_object, n);
            &&& all.len() >= objects.len()
            &&& forall|k: int|
                objects.len() <= k < all.len() ==> (#[trigger] all[k]).id() == ObjectId((next_object + (k - objects.len())) as u64) && exists|m: int|
                    0 <= m < n && alike(#[trigger] others[m], all[k]) && exists|l: int|
                        0 <= l < layers.len() && (#[trigger] layers[l]).id == others[m].layer() && all[k].layer() == LayerId((next_layer + l) as u64)
            &&& forall|m: int|
                0 <= m < n && (exists|l: int| 0 <= l < layers.len() && (#[trigger] layers[l]).id == (#[trigger] others[m]).layer()) ==> exists|k: int|
                    objects.len() <= k < all.len() && alike(others[m], #[trigger] all[k])
        }),
    decreases n,
{
    if n > 0 {
        lemma_objects_merged(objects, others, layers, next_layer, next_object, n - 1);
        let before = objects_merged(objects, others, layers, next_layer, next_object, n - 1);
        let all = objects_merged(objects, others, layers, next_layer, next_object, n);
        let o = others[n - 1];
        let f = |l: LayerModel| l.id == o.layer();
        lemma_first_index(layers, f);
        let at = crate::merging::layer_place(layers, o.layer());
        if at < layers.len() {
            assert(f(layers[at]));
        }
        assert forall|k: int| objects.len() <= k < all.len() implies (#[trigger] all[k]).id() == ObjectId((next_object + (k - objects.len())) as u64) && exists|m: int|
            0 <= m < n && alike(#[trigger] others[m], all[k]) && exists|l: int|
                0 <= l < layers.len() && (#[trigger] layers[l]).id == others[m].layer() && all[k].layer() == LayerId((next_layer + l) as u64) by {
            if k < before.len() {
                assert(all[k] == before[k]);
                let m = choose|m: int|
                    0 <= m < n - 1 && alike(#[trigger] others[m], before[k]) && exists|l: int|
                        0 <= l < layers.len() && (#[trigger] layers[l]).id == others[m].layer() && before[k].layer() == LayerId((next_layer + l) as u64);
                assert(alike(others[m], all[k]));
            } else {
                assert(alike(others[n - 1], all[k]));
                assert(layers[at].id == others[n - 1].layer());
            }
        }
        assert forall|m: int|
            0 <= m < n && (exists|l: int| 0 <= l < layers.len() && (#[trigger] layers[l]).id == (#[trigger] others[m]).layer()) implies exists|k: int|
            objects.len() <= k < all.len() && alike(others[m], #[trigger] all[k]) by {
            if m < n - 1 {
                let k = choose|k: int| objects.len() <= k < before.len() && alike(others[m], #[trigger] before[k]);
                assert(all[k] == before[k]);
            } else {
                let l = choose|l: int| 0 <= l < layers.len() && (#[trigger] layers[l]).id == others[m].layer();
                assert(f(layers[l]));
                assert(alike(others[m], all[all.len() - 1]));
            }
        }
    }
}

/// Merging a design adds its objects behind those that were there: each that
/// stands on one of its layers comes over, looking as it did, onto the layer
/// that its own has become, under the next free id; and none else comes.
pub proof fn law_merged_objects(pre: Document, other: Document, post: Document, k: int, m: int)
    requires
        document_merged(pre, other, post),
        pre.objects@.len() <= k < post.objects@.len(),
        0 <= m < other.objects@.len(),
    ensures
        post.objects@[k]@.id() == ObjectId((pre.next_object_id + (k - pre.objects@.len())) as u64),
        exists|j: int|
            0 <= j < other.objects@.len() && alike((#[trigger] other.objects@[j])@, post.objects@[k]@) && exists|l: int|
                0 <= l < other.layers@.len() && (#[trigger] other.layers@[l]).id == other.objects@[j]@.layer() && post.objects@[k]@.layer() == LayerId(
                    (pre.next_layer_id + l) as u64,
                ),
        (exists|l: int| 0 <= l < other.layers@.len() && (#[trigger] other.layers@[l]).id == other.objects@[m]@.layer()) ==> exists|q: int|
            pre.objects@.len() <= q < post.objects@.len() && alike(other.objects@[m]@, (#[trigger] post.objects@[q])@),
{
    let (objects, others, layers) = (object_models(pre.objects@), object_models(other.objects@), layer_models(other.layers@));
    let all = object_models(post.objects@);
    lemma_objects_merged(objects, others, layers, pre.next_layer_id, pre.next_object_id, others.len() as int);
    assert(all[k] == post.objects@[k]@);
    let j = choose|j: int|
        0 <= j < others.len() && alike(#[trigger] others[j], all[k]) && exists|l: int|
            0 <= l < layers.len() && (#[trigger] layers[l]).id == others[j].layer() && all[k].layer() == LayerId((pre.next_layer_id + l) as u64);
    let l = choose|l: int| 0 <= l < layers.len() && (#[trigger] layers[l]).id == others[j].layer() && all[k].layer() == LayerId((pre.next_layer_id + l) as u64);
    assert(layers[l] == other.layers@[l]@);
    assert(others[j] == other.objects@[j]@);
    if exists|l: int| 0 <= l < other.layers@.len() && (#[trigger] other.layers@[l]).id == other.objects@[m]@.layer() {
        let l = choose|l: int| 0 <= l < other.layers@.len() && (#[trigger] other.layers@[l]).id == other.objects@[m]@.layer();
        assert(layers[l].id == others[m].layer());
        let q = choose|q: int| objects.len() <= q < all.len() && alike(others[m], #[trigger] all[q]);
        assert(all[q] == post.objects@[q]@);
    }
}

/// Finished contours take ids for their lines, and for a layer of their own,
/// from their project, and touch no other. That layer is loaded and drawn on
/// where the project is the active one.
pub proof fn law_contours_take_their_ids(pre: App, request: ContourRequest, lines: Seq<ContourLine>, post: App, i: int, j: int)
    requires
        contours_applied(pre, request, lines, post),
        i == index_of_runtime(pre.workspace.projects@, request.project_runtime_id),
        0 <= i < pre.workspace.projects@.len(),
        contour_home(pre.workspace.projects@[i].document, request.output) is Some,
        0 <= j < pre.workspace.projects@.len(),
        pre.workspace.projects@[i].document.next_object_id + lines.len() <= u64::MAX,
        pre.workspace.projects@[i].document.next_layer_id < u64::MAX,
    ensures
        ({
            let (a, b) = (pre.workspace.projects@[i].document, post.workspace.projects@[i].document);
            &&& b.next_object_id == a.next_object_id + lines.len()
            &&& request.output is New ==> b.next_layer_id == a.next_layer_id + 1
            &&& request.output is Existing ==> b.next_layer_id == a.next_layer_id
            &&& b.objects == a.objects && b.layers == a.layers
        }),
        j != i ==> post.workspace.projects@[j].document == pre.workspace.projects@[j].document,
        post.workspace.projects@.len() == pre.workspace.projects@.len() && post.workspace.active_index == pre.workspace.active_index,
        pre.workspace.active_index == Some(i as usize) && i <= usize::MAX ==> ({
            let home = match request.output {
                ContourOutput::New(_) => LayerId(pre.workspace.projects@[i].document.next_layer_id),
                ContourOutput::Existing(layer) => layer,
            };
            post.canvas.active_layer == Some(home) && post.workspace.projects@[i].loaded_layers@.contains(home)
        }),
        keeps_steps(pre, post) && !post.steps@.last().applied,
        post.items == pre.items && post.frame.geometry_stale,
{
    crate::search::lemma_first_index(pre.workspace.projects@, |p: OpenProject| p.runtime_id == request.project_runtime_id);
    assert(post.workspace.projects@[i].document.objects == pre.workspace.projects@[i].document.objects);
    assert(post.workspace.projects@[j].runtime_id == pre.workspace.projects@[j].runtime_id);
}

} // verus!
