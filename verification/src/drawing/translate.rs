//! Which points of an object a move takes along.

use crate::document::{object_models, Object, ObjectModel, PolyVertex};
use crate::drawing::drape::{point_count, point_of};
use crate::ids::ObjectId;
use crate::ieee::Point3;
use crate::state::ObjectPoint;
use vstd::prelude::*;

verus! {

/// The point is moved: every point where no single one is aimed at, else that
/// one alone. The centre is one of a circle only, and takes all of it along.
pub open spec fn point_moves(o: ObjectModel, aim: Option<(ObjectId, ObjectPoint)>, circle: bool, i: int) -> bool {
    match aim {
        None => true,
        Some((id, point)) => o.id() == id && match (o, point) {
            (ObjectModel::Polyline { .. }, ObjectPoint::Vertex(k)) => i == k,
            (ObjectModel::Polyline { .. }, ObjectPoint::Center) => circle,
            (ObjectModel::Point { .. }, ObjectPoint::Vertex(k)) => k == i && k == 0,
            _ => false,
        },
    }
}

/// The object with the points that move where they go.
pub open spec fn translated(o: ObjectModel, aim: Option<(ObjectId, ObjectPoint)>, circle: bool, shifted: Seq<Point3>) -> ObjectModel {
    match o {
        ObjectModel::Point { id, layer, pos, color } => ObjectModel::Point {
            id,
            layer,
            pos: if point_moves(o, aim, circle, 0) {
                shifted[0]
            } else {
                pos
            },
            color,
        },
        ObjectModel::Polyline { id, layer, verts, closed, color, fill, line_weight } => ObjectModel::Polyline {
            id,
            layer,
            verts: Seq::new(
                verts.len(),
                |i: int|
                    PolyVertex {
                        pos: if point_moves(o, aim, circle, i) {
                            shifted[i]
                        } else {
                            verts[i].pos
                        },
                        bulge: verts[i].bulge,
                    },
            ),
            closed,
            color,
            fill,
            line_weight,
        },
        ObjectModel::Text { id, layer, pos, content, color } => ObjectModel::Text {
            id,
            layer,
            pos: if point_moves(o, aim, circle, 0) {
                shifted[0]
            } else {
                pos
            },
            content,
            color,
        },
    }
}

/// The move is aimed at another object, or at another vertex.
pub open spec fn aims_elsewhere(aim: Option<(ObjectId, ObjectPoint)>, object: ObjectId, i: int) -> bool {
    match aim {
        Some((id, ObjectPoint::Vertex(k))) => id != object || k != i,
        Some((id, ObjectPoint::Center)) => id != object,
        None => false,
    }
}

/// A move that is aimed at one vertex moves no other, and no other object; one
/// that is aimed at nothing moves every point.
pub proof fn law_move_takes_its_points(o: ObjectModel, aim: Option<(ObjectId, ObjectPoint)>, circle: bool, shifted: Seq<Point3>, i: int)
    requires
        shifted.len() == point_count(o),
        0 <= i < point_count(o),
    ensures
        translated(o, aim, circle, shifted).id() == o.id(),
        translated(o, aim, circle, shifted).layer() == o.layer(),
        point_count(translated(o, aim, circle, shifted)) == point_count(o),
        aim is None ==> point_of(translated(o, aim, circle, shifted), i) == shifted[i],
        aims_elsewhere(aim, o.id(), i) ==> point_of(translated(o, aim, circle, shifted), i) == point_of(o, i),
{
}

fn is_moved(o: &Object, aim: Option<(ObjectId, ObjectPoint)>, circle: bool, i: usize) -> (r: bool)
    ensures
        r == point_moves(o@, aim, circle, i as int),
{
    match aim {
        None => true,
        Some((id, point)) => {
            if o.id() != id {
                return false;
            }
            match (o, point) {
                (Object::Polyline { .. }, ObjectPoint::Vertex(k)) => i == k,
                (Object::Polyline { .. }, ObjectPoint::Center) => circle,
                (Object::Point { .. }, ObjectPoint::Vertex(k)) => k == i && k == 0,
                _ => false,
            }
        },
    }
}

/// The object with the points that move where they go. `shifted` holds each of
/// its points moved; `circle` tells that it is a circle drawn with few points.
pub fn translate_move_target(o: &Object, aim: Option<(ObjectId, ObjectPoint)>, circle: bool, shifted: &Vec<Point3>) -> (r: Object)
    requires
        shifted@.len() == point_count(o@),
    ensures
        r@ == translated(o@, aim, circle, shifted@),
{
    match o {
        Object::Point { id, layer, pos, color } => {
            let at = if is_moved(o, aim, circle, 0) {
                shifted[0]
            } else {
                *pos
            };
            Object::Point { id: *id, layer: *layer, pos: at, color: *color }
        },
        Object::Text { id, layer, pos, content, color } => {
            let at = if is_moved(o, aim, circle, 0) {
                shifted[0]
            } else {
                *pos
            };
            Object::Text { id: *id, layer: *layer, pos: at, content: content.clone(), color: *color }
        },
        Object::Polyline { id, layer, verts, closed, color, fill, line_weight } => {
            let ghost all = translated(o@, aim, circle, shifted@)->Polyline_verts;
            let mut out: Vec<PolyVertex> = Vec::new();
            let mut i: usize = 0;
            while i < verts.len()
                invariant
                    i <= verts.len(),
                    o@ is Polyline && o@->Polyline_verts == verts@,
                    shifted@.len() == verts@.len(),
                    all == translated(o@, aim, circle, shifted@)->Polyline_verts,
                    out@ == all.take(i as int),
                decreases verts.len() - i,
            {
                let at = if is_moved(o, aim, circle, i) {
                    shifted[i]
                } else {
                    verts[i].pos
                };
                out.push(PolyVertex { pos: at, bulge: verts[i].bulge });
                i += 1;
                assert(out@ =~= all.take(i as int));
            }
            assert(all.take(verts@.len() as int) =~= all);
            Object::Polyline { id: *id, layer: *layer, verts: out, closed: *closed, color: *color, fill: *fill, line_weight: *line_weight }
        },
    }
}

/// Where a shift takes the points of one object, and whether the object is a
/// circle drawn with few points.
pub struct ShiftedPoints {
    pub circle: bool,
    pub points: Vec<Point3>,
}

/// An object where a move takes it; one of which too little or too much is told
/// stays.
pub open spec fn shown_as(o: ObjectModel, aim: Option<(ObjectId, ObjectPoint)>, told: Option<ShiftedPoints>) -> ObjectModel {
    match told {
        Some(t) if t.points@.len() == point_count(o) => translated(o, aim, t.circle, t.points@),
        _ => o,
    }
}

/// What is told of the k-th object.
pub open spec fn told_of(told: Seq<ShiftedPoints>, k: int) -> Option<ShiftedPoints> {
    if 0 <= k < told.len() {
        Some(told[k])
    } else {
        None
    }
}

/// Captured objects where a move takes them.
pub open spec fn shown_objects(originals: Seq<ObjectModel>, aim: Option<(ObjectId, ObjectPoint)>, told: Seq<ShiftedPoints>) -> Seq<ObjectModel> {
    Seq::new(originals.len(), |k: int| shown_as(originals[k], aim, told_of(told, k)))
}

/// A move shows the objects that were captured and no others, each on its own
/// layer and with as many points.
pub proof fn law_shown_objects_are_the_captured(originals: Seq<ObjectModel>, aim: Option<(ObjectId, ObjectPoint)>, told: Seq<ShiftedPoints>, k: int)
    requires
        0 <= k < originals.len(),
    ensures
        shown_objects(originals, aim, told).len() == originals.len(),
        shown_objects(originals, aim, told)[k].id() == originals[k].id(),
        shown_objects(originals, aim, told)[k].layer() == originals[k].layer(),
        point_count(shown_objects(originals, aim, told)[k]) == point_count(originals[k]),
{
}

fn count_points(o: &Object) -> (r: usize)
    ensures
        r == point_count(o@),
{
    match o {
        Object::Polyline { verts, .. } => verts.len(),
        _ => 1,
    }
}

/// Captured objects where a move takes them. `told` holds where the shift takes
/// the points of each.
pub fn move_objects(originals: &Vec<Object>, aim: Option<(ObjectId, ObjectPoint)>, told: &Vec<ShiftedPoints>) -> (r: Vec<Object>)
    ensures
        object_models(r@) == shown_objects(object_models(originals@), aim, told@),
{
    let ghost all = shown_objects(object_models(originals@), aim, told@);
    let mut r: Vec<Object> = Vec::new();
    let mut k: usize = 0;
    assert(object_models(r@) =~= all.take(0));
    while k < originals.len()
        invariant
            k <= originals.len(),
            all == shown_objects(object_models(originals@), aim, told@),
            object_models(r@) == all.take(k as int),
        decreases originals.len() - k,
    {
        let ghost before = r@;
        let o = &originals[k];
        let moved = if k < told.len() && told[k].points.len() == count_points(o) {
            translate_move_target(o, aim, told[k].circle, &told[k].points)
        } else {
            o.copy()
        };
        assert(moved@ == all[k as int]);
        r.push(moved);
        k += 1;
        assert(object_models(r@) =~= object_models(before).push(moved@));
        assert(object_models(r@) =~= all.take(k as int));
    }
    assert(all.take(originals@.len() as int) =~= all);
    r
}

} // verus!
