//! What is found under an id, and what an object is apart from its id and
//! its layer.

use crate::document::{replaced, same_object, Document, Layer, Object, ObjectModel};
use crate::ids::{LayerId, ObjectId};
use crate::ieee::{f32_equal, f64_equal};
use crate::search::{lemma_first_index, lemma_is_first_index};
use crate::state::App;
use crate::workspace::{holds_layer, holds_object, index_of_layer, index_of_object, index_of_runtime, OpenProject, Workspace};
use vstd::prelude::*;

verus! {

/// The steps that were there are there still, as they were and in their order.
pub open spec fn keeps_steps(pre: App, post: App) -> bool {
    pre.steps@.len() <= post.steps@.len() && post.steps@.take(pre.steps@.len() as int) == pre.steps@
}

/// The object that is found under an id has that id and is the first that
/// does; none is found only where none has it.
pub proof fn law_object_is_found_by_its_id(d: Document, id: ObjectId)
    ensures
        d.object(id) is None <==> forall|k: int| 0 <= k < d.objects@.len() ==> (#[trigger] d.objects@[k])@.id() != id,
        d.object(id) matches Some(o) ==> exists|k: int|
            0 <= k < d.objects@.len() && (#[trigger] d.objects@[k])@ == o && o.id() == id && forall|m: int|
                0 <= m < k ==> (#[trigger] d.objects@[m])@.id() != id,
{
    let f = |o: Object| o@.id() == id;
    lemma_first_index(d.objects@, f);
    let k = crate::document::object_index(d.objects@, id);
    if k < d.objects@.len() {
        assert(f(d.objects@[k]));
        assert(d.objects@[k]@ == d.object(id)->0);
    }
}

/// The layer that is found under an id has that id and is the first that does;
/// none is found only where none has it.
pub proof fn law_layer_is_found_by_its_id(d: Document, id: LayerId)
    ensures
        d.layer_model(id) is None <==> forall|k: int| 0 <= k < d.layers@.len() ==> (#[trigger] d.layers@[k]).id != id,
        d.layer_model(id) matches Some(l) ==> exists|k: int|
            0 <= k < d.layers@.len() && (#[trigger] d.layers@[k])@ == l && l.id == id && forall|m: int|
                0 <= m < k ==> (#[trigger] d.layers@[m]).id != id,
{
    let f = |l: Layer| l.id == id;
    lemma_first_index(d.layers@, f);
    let k = crate::document::layer_index(d.layers@, id);
    if k < d.layers@.len() {
        assert(f(d.layers@[k]));
        assert(d.layers@[k]@ == d.layer_model(id)->0);
    }
}

/// A project is found by the objects and the layers that it has, and by its
/// number: the first that fits, or none where none does.
pub proof fn law_projects_are_found(s: Seq<OpenProject>, object: ObjectId, layer: LayerId, runtime_id: u32)
    ensures
        index_of_object(s, object) < s.len() ==> s[index_of_object(s, object)].document.object(object) is Some,
        index_of_object(s, object) >= s.len() ==> forall|j: int| 0 <= j < s.len() ==> (#[trigger] s[j]).document.object(object) is None,
        forall|j: int| 0 <= j < index_of_object(s, object) ==> (#[trigger] s[j]).document.object(object) is None,
        index_of_layer(s, layer) < s.len() ==> s[index_of_layer(s, layer)].document.layer_model(layer) is Some,
        index_of_layer(s, layer) >= s.len() ==> forall|j: int| 0 <= j < s.len() ==> (#[trigger] s[j]).document.layer_model(layer) is None,
        index_of_runtime(s, runtime_id) < s.len() ==> s[index_of_runtime(s, runtime_id)].runtime_id == runtime_id,
        index_of_runtime(s, runtime_id) >= s.len() ==> forall|j: int| 0 <= j < s.len() ==> (#[trigger] s[j]).runtime_id != runtime_id,
{
    let f = |p: OpenProject| holds_object(p, object);
    let g = |p: OpenProject| holds_layer(p, layer);
    let h = |p: OpenProject| p.runtime_id == runtime_id;
    lemma_first_index(s, f);
    lemma_first_index(s, g);
    lemma_first_index(s, h);
    if index_of_object(s, object) < s.len() {
        assert(f(s[index_of_object(s, object)]));
    }
    if index_of_layer(s, layer) < s.len() {
        assert(g(s[index_of_layer(s, layer)]));
    }
    assert forall|j: int| 0 <= j < s.len() && (j < index_of_object(s, object) || index_of_object(s, object) >= s.len()) implies (
    #[trigger] s[j]).document.object(object) is None by {
        assert(!f(s[j]));
    }
    assert forall|j: int| 0 <= j < s.len() && index_of_layer(s, layer) >= s.len() implies (#[trigger] s[j]).document.layer_model(layer) is None by {
        assert(!g(s[j]));
    }
    assert forall|j: int| 0 <= j < s.len() && index_of_runtime(s, runtime_id) >= s.len() implies (#[trigger] s[j]).runtime_id != runtime_id by {
        assert(!h(s[j]));
    }
}

/// The active project is the one at the active place.
pub proof fn law_active_project(w: Workspace)
    ensures
        w.active_index is None ==> w.active() is None,
        w.active_index matches Some(i) ==> if i < w.projects@.len() {
            w.active() == Some(w.projects@[i as int])
        } else {
            w.active() is None
        },
{
}

/// Two objects look alike: of one kind, with the same points and the same
/// style, wherever they belong.
pub open spec fn alike(a: ObjectModel, b: ObjectModel) -> bool {
    match (a, b) {
        (ObjectModel::Point { pos, color, .. }, ObjectModel::Point { pos: pos2, color: color2, .. }) => pos == pos2 && color == color2,
        (
            ObjectModel::Polyline { verts, closed, color, fill, line_weight, .. },
            ObjectModel::Polyline { verts: verts2, closed: closed2, color: color2, fill: fill2, line_weight: weight2, .. },
        ) => verts == verts2 && closed == closed2 && color == color2 && fill == fill2 && line_weight == weight2,
        (ObjectModel::Text { pos, content, color, .. }, ObjectModel::Text { pos: pos2, content: content2, color: color2, .. }) => pos == pos2 && content
            == content2 && color == color2,
        _ => false,
    }
}

/// Two polylines are drawn alike: both open or both rings, in one style.
pub open spec fn drawn_alike(a: ObjectModel, b: ObjectModel) -> bool {
    match (a, b) {
        (
            ObjectModel::Polyline { closed, color, fill, line_weight, .. },
            ObjectModel::Polyline { closed: closed2, color: color2, fill: fill2, line_weight: weight2, .. },
        ) => closed == closed2 && color == color2 && fill == fill2 && line_weight == weight2,
        _ => false,
    }
}

/// An object that gets another id and another layer has them, and looks as it
/// did.
pub proof fn law_moved_object_looks_the_same(o: ObjectModel, id: ObjectId, layer: LayerId)
    ensures
        o.moved_to(id, layer).id() == id,
        o.moved_to(id, layer).layer() == layer,
        alike(o, o.moved_to(id, layer)),
{
}

/// What an object is: nothing of it is left out.
pub proof fn law_objects_are_told_apart(o: Object)
    ensures
        match (o, o@) {
            (Object::Point { id, layer, pos, color }, ObjectModel::Point { id: a, layer: b, pos: c, color: d }) => id == a && layer == b && pos == c && color
                == d && o@.id() == id && o@.layer() == layer,
            (
                Object::Polyline { id, layer, verts, closed, color, fill, line_weight },
                ObjectModel::Polyline { id: a, layer: b, verts: c, closed: d, color: e, fill: f, line_weight: g },
            ) => id == a && layer == b && verts@ == c && closed == d && color == e && fill == f && line_weight == g && o@.id() == id && o@.layer() == layer,
            (
                Object::Text { id, layer, pos, content, color },
                ObjectModel::Text { id: a, layer: b, pos: c, content: d, color: e },
            ) => id == a && layer == b && pos == c && content@ == d && color == e && o@.id() == id && o@.layer() == layer,
            _ => false,
        },
{
}

/// What a layer is: nothing of it is left out.
pub proof fn law_layers_are_told_apart(l: Layer)
    ensures
        l@.id == l.id,
        l@.name == l.name@,
        l@.color_index == l.color_index,
        l@.color == l.color,
        l@.visible == l.visible,
        l@.loaded == l.loaded,
        l@.elevation == l.elevation,
{
}

/// Replacing an object puts it in the place of the one with its id and leaves
/// all others; where none has its id, nothing changes.
pub proof fn law_replacing_takes_one_place(s: Seq<ObjectModel>, o: ObjectModel, k: int)
    requires
        0 <= k < s.len(),
        forall|i: int, j: int| 0 <= i < j < s.len() ==> (#[trigger] s[i]).id() != (#[trigger] s[j]).id(),
    ensures
        replaced(s, o).len() == s.len(),
        replaced(s, o)[k] == if s[k].id() == o.id() {
            o
        } else {
            s[k]
        },
{
    let f = |m: ObjectModel| m.id() == o.id();
    lemma_first_index(s, f);
    if s[k].id() == o.id() {
        assert forall|j: int| 0 <= j < k implies !f(#[trigger] s[j]) by {}
        lemma_is_first_index(s, f, k);
    }
}

/// Objects that are the same have the same kind, id, layer and shape: an object
/// that differs in one of them is another.
pub proof fn law_same_objects(a: ObjectModel, b: ObjectModel)
    requires
        same_object(a, b),
    ensures
        a.id() == b.id() && a.layer() == b.layer(),
        a is Point <==> b is Point,
        a is Polyline <==> b is Polyline,
        a is Polyline ==> a->Polyline_closed == b->Polyline_closed && a->Polyline_fill == b->Polyline_fill && a->Polyline_verts.len() == b->Polyline_verts.len()
            && f32_equal(a->Polyline_line_weight, b->Polyline_line_weight) && forall|i: int|
            0 <= i < a->Polyline_verts.len() ==> {
                let (p, q) = (#[trigger] a->Polyline_verts[i], b->Polyline_verts[i]);
                f64_equal(p.pos.x, q.pos.x) && f64_equal(p.pos.y, q.pos.y) && f64_equal(p.pos.z, q.pos.z) && f64_equal(p.bulge, q.bulge)
            },
        a is Text ==> a->Text_content == b->Text_content && f64_equal(a->Text_pos.x, b->Text_pos.x) && f64_equal(a->Text_pos.y, b->Text_pos.y) && f64_equal(
            a->Text_pos.z,
            b->Text_pos.z,
        ),
        a is Point ==> f64_equal(a->Point_pos.x, b->Point_pos.x) && f64_equal(a->Point_pos.y, b->Point_pos.y) && f64_equal(a->Point_pos.z, b->Point_pos.z),
{
    if a is Polyline {
        assert forall|i: int| 0 <= i < a->Polyline_verts.len() implies {
            let (p, q) = (#[trigger] a->Polyline_verts[i], b->Polyline_verts[i]);
            f64_equal(p.pos.x, q.pos.x) && f64_equal(p.pos.y, q.pos.y) && f64_equal(p.pos.z, q.pos.z) && f64_equal(p.bulge, q.bulge)
        } by {
            assert(crate::document::same_vertex(a->Polyline_verts[i], b->Polyline_verts[i]));
        }
    }
}

} // verus!
