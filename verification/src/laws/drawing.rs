//! The drawing tools: rings, splits, curves, draping and moves.

use crate::document::{same_object, ObjectModel, PolyVertex};
use crate::drawing::batter_berm::{
    benches_shown, berm_committed, berm_inputs_valid, berm_preview_updated, berm_target_picked, inward_sign, offset_fits, rings_shown, steps_outward,
    BatterBerm, BatterBermGeneration, BatterBermMode, OffsetFacts,
};
use crate::drawing::bezier::{bezier_applied, bezier_polyline_picked, curve_ends};
use crate::drawing::drape::{
    drape_confirmed, height_at, height_on, law_draped_to_the_top, point_count, point_of, redraped, selected_bounds, total_key,
};
use crate::drawing::split::{law_closed_pieces, law_open_pieces, split_committed, split_polyline_picked};
use crate::drawing::translate::{shown_objects, ShiftedPoints};
use crate::edit::Edit;
use crate::ids::{ObjectId, SceneEntityId};
use crate::ieee::{f64_equal, f64_finite, f64_less, negated, F64_ONE, Point3};
use crate::items::{Bounds, OpenTriangulation};
use crate::laws::lookup::{drawn_alike, keeps_steps};
use crate::state::{ActiveTool, App, DrapePhase, ObjectPoint};
use crate::workspace::index_of_object;
use vstd::prelude::*;

verus! {

/// The object that the edit adds.
pub open spec fn added(e: Edit) -> Option<ObjectModel> {
    match e {
        Edit::AddObject(o) => Some(o@),
        _ => None,
    }
}

/// Adding the rings of a pit or a stockpile adds one polyline for each ring
/// that is shown, in their order and under the next free ids. Each runs through
/// the points of its ring with straight edges, is closed exactly where the
/// outline is, and has the outline's layer, colour, fill and line weight.
pub proof fn law_rings_are_drawn_like_their_outline(pre: App, post: App, id: ObjectId, outline: ObjectModel, r: int)
    requires
        berm_committed(pre, post),
        pre.berm.target == Some(id),
        index_of_object(pre.workspace.projects@, id) < pre.workspace.projects@.len(),
        pre.workspace.projects@[index_of_object(pre.workspace.projects@, id)].document.object(id) == Some(outline),
        outline is Polyline,
        0 <= r < pre.berm.rings_world@.len(),
    ensures
        keeps_steps(pre, post) && post.steps@.len() == pre.steps@.len() + 1,
        forall|j: int| 0 <= j < pre.steps@.len() ==> #[trigger] post.steps@[j] == pre.steps@[j],
        post.steps@.last().edits@.len() == pre.berm.rings_world@.len(),
        post.steps@.last().batch && !post.steps@.last().applied,
        added(post.steps@.last().edits@[r]) matches Some(ring) && {
            &&& drawn_alike(outline, ring)
            &&& ring.layer() == outline.layer()
            &&& ring.id() == ObjectId((pre.workspace.projects@[index_of_object(pre.workspace.projects@, id)].document.next_object_id + r) as u64)
            &&& ring->Polyline_verts.len() == pre.berm.rings_world@[r]@.len()
            &&& forall|v: int|
                0 <= v < ring->Polyline_verts.len() ==> (#[trigger] ring->Polyline_verts[v]).pos == pre.berm.rings_world@[r]@[v]
                    && ring->Polyline_verts[v].bulge == 0
        },
        post.workspace.projects@[index_of_object(pre.workspace.projects@, id)].document.next_object_id == (
        pre.workspace.projects@[index_of_object(pre.workspace.projects@, id)].document.next_object_id + pre.berm.rings_world@.len()) as u64,
        post.berm.target is None && !post.berm.dialog_open && post.berm.rings_world@.len() == 0,
        post.canvas.active_tool == ActiveTool::Idle,
{
    assert(post.steps@.drop_last() == pre.steps@);
    assert forall|j: int| 0 <= j < pre.steps@.len() implies #[trigger] post.steps@[j] == pre.steps@[j] by {
        assert(post.steps@.drop_last()[j] == post.steps@[j]);
    }
}

/// A pit steps outward on its way up and inward on its way down, a stockpile
/// the other way round; inward is to the left of a ring that runs
/// counter-clockwise, which has a positive area, and to the right of any other
/// polyline.
pub proof fn law_which_way_rings_step(count: int, area: u64)
    ensures
        steps_outward(BatterBermMode::Pit, true),
        !steps_outward(BatterBermMode::Pit, false),
        !steps_outward(BatterBermMode::Stockpile, true),
        steps_outward(BatterBermMode::Stockpile, false),
        f64_less(0, area) && count >= 3 ==> inward_sign(count, true, area) == F64_ONE,
        !f64_less(0, area) || count < 3 ==> inward_sign(count, true, area) == negated(F64_ONE),
        inward_sign(count, false, area) == negated(F64_ONE),
{
}

/// A ring that steps outward may not shrink, one that steps inward may not
/// grow; either way it keeps its winding, the smaller lies in the larger, and
/// rings have three points. A line that is no ring needs two.
pub proof fn law_rings_that_fit(f: OffsetFacts, closed: bool, outward: bool)
    requires
        offset_fits(f, closed, outward),
    ensures
        closed ==> f.same_winding && f.inner_inside && f.next_len >= 3 && f.previous_len >= 3,
        closed && outward ==> !f.area_shrank,
        closed && !outward ==> !f.area_grew,
        !closed ==> f.next_len >= 2,
{
}

/// A ring that meets all that is asked of one fits.
pub proof fn law_rings_fit_where_they_may(f: OffsetFacts, closed: bool, outward: bool)
    requires
        closed ==> f.same_winding && f.inner_inside && f.next_len >= 3 && f.previous_len >= 3,
        closed && outward ==> !f.area_shrank,
        closed && !outward ==> !f.area_grew,
        !closed ==> f.next_len >= 2,
    ensures
        offset_fits(f, closed, outward),
{
}

/// As many benches are shown as were asked for, but at least one where any is
/// possible and never more than are; with each bench two rings, the first ones
/// that were found.
pub proof fn law_benches_that_are_shown(asked: u32, generation: BatterBermGeneration)
    requires
        generation.rings@.len() == 2 * generation.completed_benches,
    ensures
        ({
            let n = benches_shown(asked, generation.completed_benches);
            let shown = rings_shown(generation.rings@, n);
            &&& n <= generation.completed_benches
            &&& generation.completed_benches > 0 ==> n >= 1
            &&& 1 <= asked <= generation.completed_benches ==> n == asked
            &&& asked > generation.completed_benches ==> n == generation.completed_benches
            &&& shown.len() == 2 * n
            &&& forall|k: int| 0 <= k < shown.len() ==> #[trigger] shown[k] == generation.rings@[k]
        }),
{
}

/// A width and a height of a bench are positive, and its angle lies between
/// flat and upright; all are finite.
pub proof fn law_bench_numbers(app: App)
    ensures
        berm_inputs_valid(app.berm) <==> {
            &&& f64_finite(app.berm.width) && f64_finite(app.berm.angle) && f64_finite(app.berm.bench_height)
            &&& f64_less(0, app.berm.width) && f64_less(0, app.berm.bench_height)
            &&& f64_less(0, app.berm.angle) && f64_less(app.berm.angle, 0x4056_8000_0000_0000)
        },
{
}

/// While the dialog stands over a polyline, the preview shows the rings that
/// were found for what the dialog says now, and none where it says nothing
/// that makes sense.
pub proof fn law_preview_follows_the_dialog(pre: App, revision: u64, outline: Seq<Point3>, generation: BatterBermGeneration, post: App, id: ObjectId)
    requires
        berm_preview_updated(pre, revision, outline, generation, post),
        pre.berm.dialog_open,
        pre.berm.target == Some(id),
        pre.berm.key is None,
        index_of_object(pre.workspace.projects@, id) < pre.workspace.projects@.len(),
        pre.workspace.projects@[index_of_object(pre.workspace.projects@, id)].document.object(id) matches Some(o) && o is Polyline,
    ensures
        post.berm.source_world@ == outline,
        !berm_inputs_valid(pre.berm) ==> post.berm.rings_world@.len() == 0 && post.berm.max_benches == 0 && post.berm.benches == pre.berm.benches,
        berm_inputs_valid(pre.berm) ==> {
            &&& post.berm.max_benches == generation.completed_benches
            &&& post.berm.benches <= post.berm.max_benches
            &&& forall|k: int| 0 <= k < post.berm.rings_world@.len() ==> #[trigger] post.berm.rings_world@[k] == generation.rings@[k]
            &&& 2 * post.berm.benches <= generation.rings@.len() ==> post.berm.rings_world@.len() == 2 * post.berm.benches
            &&& post.berm.closed == pre.workspace.projects@[index_of_object(pre.workspace.projects@, id)].document.object(id)->0->Polyline_closed
        },
        post.berm.width == pre.berm.width && post.berm.angle == pre.berm.angle && post.berm.bench_height == pre.berm.bench_height,
        post.berm.mode == pre.berm.mode && post.berm.direction_up == pre.berm.direction_up,
        post.steps == pre.steps,
{
}

/// A click on a polyline opens the dialog over it and makes its project the
/// active one; a click on anything else opens nothing.
pub proof fn law_berm_target(pre: App, id: ObjectId, post: App)
    requires
        berm_target_picked(pre, Some(SceneEntityId::Object(id)), post),
        index_of_object(pre.workspace.projects@, id) < pre.workspace.projects@.len(),
        pre.workspace.projects@.len() <= usize::MAX,
    ensures
        ({
            let o = pre.workspace.projects@[index_of_object(pre.workspace.projects@, id)].document.object(id);
            &&& (o matches Some(line) && line is Polyline) ==> post.berm.target == Some(id) && post.berm.dialog_open && post.canvas.highlight == Some(id)
                && post.berm.closed == o->0->Polyline_closed
            &&& !(o matches Some(line) && line is Polyline) ==> post.berm == pre.berm
            &&& post.workspace.active_index == Some(index_of_object(pre.workspace.projects@, id) as usize)
            &&& post.workspace.projects == pre.workspace.projects
        }),
{
}

/// Splitting a polyline takes it away and adds two open ones in its place: on
/// its layer, in its style, under the next two ids. Of an open line they run up
/// to the chosen vertex and on from it; of a ring, from the first vertex to the
/// second and from the second back to the first. Every edge of the line is an
/// edge of one of them.
pub proof fn law_split_takes_a_line_apart(pre: App, post: App, id: ObjectId, source: ObjectModel)
    requires
        split_committed(pre, post),
        pre.split.poly == Some(id),
        pre.split.first is Some,
        index_of_object(pre.workspace.projects@, id) < pre.workspace.projects@.len(),
        pre.workspace.projects@[index_of_object(pre.workspace.projects@, id)].document.object(id) == Some(source),
        source is Polyline,
        post.steps@.len() != pre.steps@.len(),
    ensures
        ({
            let verts = source->Polyline_verts;
            let first = pre.split.first->0 as int;
            let next = pre.workspace.projects@[index_of_object(pre.workspace.projects@, id)].document.next_object_id;
            let edits = post.steps@.last().edits@;
            &&& keeps_steps(pre, post) && post.steps@.len() == pre.steps@.len() + 1
            &&& edits.len() == 3
            &&& edits[0] matches Edit::DeleteObject(o) && o@ == source
            &&& (added(edits[1]), added(edits[2])) matches (Some(a), Some(b)) && {
                let (va, vb) = (a->Polyline_verts, b->Polyline_verts);
                &&& a is Polyline && b is Polyline
                &&& !a->Polyline_closed && !b->Polyline_closed
                &&& a.layer() == source.layer() && b.layer() == source.layer()
                &&& a->Polyline_color == source->Polyline_color && b->Polyline_color == source->Polyline_color
                &&& a->Polyline_fill == source->Polyline_fill && b->Polyline_fill == source->Polyline_fill
                &&& a->Polyline_line_weight == source->Polyline_line_weight && b->Polyline_line_weight == source->Polyline_line_weight
                &&& a.id() == ObjectId(next) && b.id() == ObjectId((next + 1) as u64)
                &&& !source->Polyline_closed ==> va.drop_last() + vb == verts && va.len() == first + 1
                &&& source->Polyline_closed ==> va.drop_last() + vb.drop_last() == verts.skip(first) + verts.take(first)
                &&& source->Polyline_closed ==> pre.split.second is Some && va.last().pos == verts[pre.split.second->0 as int].pos && vb.last().pos == verts[first].pos
                &&& va.last().pos == vb[0].pos && va.last().bulge == 0
            }
        }),
        post.selection.handles@ == Set::<SceneEntityId>::empty(),
        post.split.poly is None,
        post.canvas.active_tool == ActiveTool::Idle,
{
    let verts = source->Polyline_verts;
    let first = pre.split.first->0 as int;
    if source->Polyline_closed {
        let s = pre.split.second->0 as int;
        law_closed_pieces(verts, first, s);
        let (a, b) = crate::drawing::split::closed_pieces(verts, first, s)->0;
        assert(b[0] == crate::drawing::split::ring_between(verts, s, first)[0]);
        assert(a[0] == crate::drawing::split::ring_between(verts, first, s)[0]);
    } else {
        law_open_pieces(verts, first);
    }
}

/// A polyline can be split where it leaves two lines: one that is open needs
/// three vertices, a ring four.
pub proof fn law_what_can_be_split(pre: App, id: ObjectId, post: App)
    requires
        split_polyline_picked(pre, Some(SceneEntityId::Object(id)), post),
        index_of_object(pre.workspace.projects@, id) < pre.workspace.projects@.len(),
    ensures
        match pre.scene.object(id) {
            Some(ObjectModel::Polyline { verts, closed, .. }) => if (closed && verts.len() >= 4) || (!closed && verts.len() >= 3) {
                post.split.poly == Some(id) && post.split.first is None && post.selection.handles@ == pre.selection.handles@.insert(
                    SceneEntityId::Object(id),
                )
            } else {
                post.split == pre.split && post.selection == pre.selection
            },
            _ => post.split == pre.split && post.selection == pre.selection,
        },
        post.steps == pre.steps,
{
}

/// Drawing a curve replaces one polyline by another: the same in id, layer and
/// style, and open or closed as it was. The vertices before the stretch and
/// behind it stay; between its two ends run the points of the curve, with
/// straight edges.
pub proof fn law_curve_replaces_a_stretch(pre: App, samples: Seq<Point3>, post: App, id: ObjectId, before: ObjectModel)
    requires
        bezier_applied(pre, samples, post),
        pre.bezier.poly == Some(id),
        pre.bezier.first is Some && pre.bezier.second is Some,
        index_of_object(pre.workspace.projects@, id) < pre.workspace.projects@.len(),
        pre.workspace.projects@[index_of_object(pre.workspace.projects@, id)].document.object(id) == Some(before),
        post.steps@.len() != pre.steps@.len(),
    ensures
        ({
            let (first, second) = (pre.bezier.first->0 as int, pre.bezier.second->0 as int);
            &&& keeps_steps(pre, post) && post.steps@.len() == pre.steps@.len() + 1
            &&& post.steps@.last().edits@.len() == 1
            &&& before is Polyline
            &&& post.steps@.last().edits@[0] matches Edit::Replace { before: b, after: a } && {
                let (old_verts, new_verts) = (before->Polyline_verts, a@->Polyline_verts);
                &&& b@ == before
                &&& drawn_alike(before, a@)
                &&& a@.id() == before.id() && a@.layer() == before.layer()
                &&& first < second ==> {
                    &&& new_verts.len() == first + 1 + samples.len() + old_verts.len() - second
                    &&& forall|k: int| 0 <= k < first ==> #[trigger] new_verts[k] == old_verts[k]
                    &&& new_verts[first] == (PolyVertex { pos: old_verts[first].pos, bulge: 0 })
                    &&& forall|k: int|
                        0 <= k < samples.len() ==> (#[trigger] new_verts[first + 1 + k]) == (PolyVertex { pos: samples[k], bulge: 0 })
                    &&& forall|k: int|
                        second <= k < old_verts.len() ==> #[trigger] new_verts[first + 1 + samples.len() + k - second] == old_verts[k]
                }
                &&& second < first ==> {
                    &&& before->Polyline_closed
                    &&& new_verts.len() == first - second + 1 + samples.len()
                    &&& forall|k: int| 0 <= k < first - second ==> #[trigger] new_verts[k] == old_verts[second + k]
                    &&& new_verts[first - second] == (PolyVertex { pos: old_verts[first].pos, bulge: 0 })
                    &&& forall|k: int|
                        0 <= k < samples.len() ==> (#[trigger] new_verts[first - second + 1 + k]) == (PolyVertex { pos: samples[k], bulge: 0 })
                }
            }
        }),
        post.bezier.poly is None,
        post.canvas.active_tool == ActiveTool::Idle,
{
    let act = crate::state::App {
        workspace: crate::workspace::Workspace { active_index: Some(index_of_object(pre.workspace.projects@, id) as usize), ..pre.workspace },
        ..pre
    };
    assert(act.steps == pre.steps);
}

/// A curve can stand in for a stretch of any polyline: one that is open needs
/// two vertices, a ring three.
pub proof fn law_what_can_be_curved(pre: App, id: ObjectId, post: App)
    requires
        bezier_polyline_picked(pre, Some(SceneEntityId::Object(id)), post),
        index_of_object(pre.workspace.projects@, id) < pre.workspace.projects@.len(),
    ensures
        match pre.workspace.projects@[index_of_object(pre.workspace.projects@, id)].document.object(id) {
            Some(ObjectModel::Polyline { verts, closed, .. }) if (closed && verts.len() >= 3) || (!closed && verts.len() >= 2) => {
                &&& post.bezier.poly == Some(id)
                &&& post.bezier.poly_closed == closed
                &&& post.bezier.first is None && post.bezier.second is None && !post.bezier.replace_longer
                &&& post.bezier.dialog_open
                &&& post.frame.overlay_stale && post.steps == pre.steps
            },
            _ => post.bezier == pre.bezier,
        },
{
}

/// The curve of an open line runs the way of the line; that of a ring takes
/// the shorter way round, and the way from the first vertex where both are as
/// long.
pub proof fn law_curve_takes_the_shorter_way(closed: bool, first: usize, click: usize, forward: u64, reverse: u64)
    ensures
        !closed ==> curve_ends(closed, first, click, forward, reverse).0 <= curve_ends(closed, first, click, forward, reverse).1,
        curve_ends(closed, first, click, forward, reverse) == (first, click) || curve_ends(closed, first, click, forward, reverse) == (click, first),
        closed && f64_less(forward, reverse) ==> curve_ends(closed, first, click, forward, reverse) == (first, click),
        closed && f64_less(reverse, forward) ==> curve_ends(closed, first, click, forward, reverse) == (click, first),
        closed && f64_equal(forward, reverse) ==> curve_ends(closed, first, click, forward, reverse) == (first, click),
{
}

/// The point lies within the bounds, seen from above.
pub open spec fn above(p: Point3, b: Bounds) -> bool {
    !f64_less(p.x, b.min.x) && !f64_less(b.max.x, p.x) && !f64_less(p.y, b.min.y) && !f64_less(b.max.y, p.y)
}

/// The second point is the first, lifted straight up or down onto the
/// uppermost of the surfaces that it meets; where it meets none it stays.
pub open spec fn on_top(p: Point3, q: Point3, surfaces: Seq<Bounds>, hits: Seq<Option<u64>>) -> bool {
    let met = |s: int| 0 <= s < surfaces.len() && above(p, surfaces[s]) && hits[s] is Some;
    &&& q.x == p.x && q.y == p.y
    &&& (forall|s: int| !#[trigger] met(s)) ==> q == p
    &&& forall|s: int| #[trigger] met(s) ==> !f64_less(q.z, hits[s]->0)
    &&& (exists|s: int| #[trigger] met(s)) ==> exists|s: int| #[trigger] met(s) && (q.z == hits[s]->0 || f64_equal(q.z, hits[s]->0))
}

proof fn lemma_lifted(p: Point3, surfaces: Seq<Bounds>, hits: Seq<Option<u64>>)
    requires
        hits.len() == surfaces.len(),
    ensures
        on_top(p, crate::drawing::drape::draped_point(p, height_at(p, surfaces, hits)), surfaces, hits),
{
    let n = surfaces.len() as int;
    let q = crate::drawing::drape::draped_point(p, height_at(p, surfaces, hits));
    let met = |s: int| 0 <= s < surfaces.len() && above(p, surfaces[s]) && hits[s] is Some;
    law_draped_to_the_top(p, surfaces, hits, n);
    assert forall|s: int| #[trigger] met(s) implies height_on(p, surfaces[s], hits[s]) == hits[s] && height_at(p, surfaces, hits) is Some by {
        assert(height_on(p, surfaces[s], hits[s]) is Some);
    }
    match height_at(p, surfaces, hits) {
        Some(z) => {
            let s = choose|s: int| 0 <= s < n && height_on(p, #[trigger] surfaces[s], hits[s]) == Some(z);
            assert(met(s));
            assert(q.z == z || f64_equal(q.z, z));
            assert forall|t: int| #[trigger] met(t) implies !f64_less(q.z, hits[t]->0) by {
                assert(height_on(p, surfaces[t], hits[t]) == hits[t]);
                assert(total_key(hits[t]->0) <= total_key(z));
            }
        },
        None => {
            assert forall|s: int| !#[trigger] met(s) by {
                if met(s) {
                    assert(height_on(p, surfaces[s], hits[s]) is None);
                }
            }
        },
    }
}

/// The second object is the first, draped: each of its points lifted onto the
/// uppermost surface there, and all else of it as it was.
pub open spec fn draped_onto(o: ObjectModel, q: ObjectModel, surfaces: Seq<Bounds>, hits: Seq<Vec<Option<u64>>>) -> bool {
    &&& q.id() == o.id() && q.layer() == o.layer()
    &&& match (o, q) {
        (ObjectModel::Point { pos, color, .. }, ObjectModel::Point { pos: pos2, color: color2, .. }) => on_top(pos, pos2, surfaces, hits[0]@) && color
            == color2,
        (ObjectModel::Text { pos, content, color, .. }, ObjectModel::Text { pos: pos2, content: content2, color: color2, .. }) => on_top(
            pos,
            pos2,
            surfaces,
            hits[0]@,
        ) && content == content2 && color == color2,
        (ObjectModel::Polyline { verts, .. }, ObjectModel::Polyline { verts: verts2, .. }) => {
            &&& drawn_alike(o, q)
            &&& verts2.len() == verts.len()
            &&& forall|i: int|
                0 <= i < verts.len() ==> on_top((#[trigger] verts[i]).pos, verts2[i].pos, surfaces, hits[i]@) && verts2[i].bulge == verts[i].bulge
        },
        _ => false,
    }
}

/// Draping an object lifts each of its points onto the uppermost surface there
/// and leaves all else of it.
pub proof fn law_draped_objects_lie_on_top(o: ObjectModel, surfaces: Seq<Bounds>, hits: Seq<Vec<Option<u64>>>)
    requires
        crate::drawing::drape::hits_fit(o, surfaces, hits),
    ensures
        draped_onto(o, crate::drawing::drape::draped(o, surfaces, hits), surfaces, hits),
{
    let q = crate::drawing::drape::draped(o, surfaces, hits);
    match o {
        ObjectModel::Polyline { verts, .. } => {
            assert forall|i: int| 0 <= i < verts.len() implies on_top((#[trigger] verts[i]).pos, q->Polyline_verts[i].pos, surfaces, hits[i]@)
                && q->Polyline_verts[i].bulge == verts[i].bulge by {
                lemma_lifted(verts[i].pos, surfaces, hits[i]@);
            }
        },
        _ => {
            lemma_lifted(point_of(o, 0), surfaces, hits[0]@);
        },
    }
}

/// An edit among these replaces the object.
pub open spec fn edits_replace(edits: Seq<Edit>, o: ObjectModel) -> bool {
    exists|k: int| 0 <= k < edits.len() && ((#[trigger] edits[k]) matches Edit::Replace { before, .. } && before@ == o)
}

proof fn lemma_redraped(
    d: crate::document::Document,
    ids: Seq<ObjectId>,
    surfaces: Seq<Bounds>,
    hits: Seq<Vec<Vec<Option<u64>>>>,
    n: int,
)
    requires
        0 <= n <= ids.len(),
        crate::drawing::drape::all_hits_fit(d, ids, surfaces, hits),
    ensures
        forall|k: int|
            0 <= k < redraped(d, ids, surfaces, hits, n).len() ==> exists|m: int|
                0 <= m < n && d.object(#[trigger] ids[m]) == Some((#[trigger] redraped(d, ids, surfaces, hits, n)[k]).0) && draped_onto(
                    redraped(d, ids, surfaces, hits, n)[k].0,
                    redraped(d, ids, surfaces, hits, n)[k].1,
                    surfaces,
                    hits[m]@,
                ),
        forall|m: int|
            0 <= m < n ==> (d.object(#[trigger] ids[m]) matches Some(o) ==> same_object(o, crate::drawing::drape::draped(o, surfaces, hits[m]@)) || exists|
                k: int,
            |
                0 <= k < redraped(d, ids, surfaces, hits, n).len() && (#[trigger] redraped(d, ids, surfaces, hits, n)[k]).0 == o),
    decreases n,
{
    if n > 0 {
        lemma_redraped(d, ids, surfaces, hits, n - 1);
        let rest = redraped(d, ids, surfaces, hits, n - 1);
        let all = redraped(d, ids, surfaces, hits, n);
        if let Some(o) = d.object(ids[n - 1]) {
            law_draped_objects_lie_on_top(o, surfaces, hits[n - 1]@);
        }
        assert forall|k: int| 0 <= k < all.len() implies exists|m: int|
            0 <= m < n && d.object(#[trigger] ids[m]) == Some((#[trigger] all[k]).0) && draped_onto(all[k].0, all[k].1, surfaces, hits[m]@) by {
            if k < rest.len() {
                assert(all[k] == rest[k]);
                let m = choose|m: int|
                    0 <= m < n - 1 && d.object(#[trigger] ids[m]) == Some(rest[k].0) && draped_onto(rest[k].0, rest[k].1, surfaces, hits[m]@);
                assert(d.object(ids[m]) == Some(all[k].0));
            } else {
                assert(d.object(ids[n - 1]) == Some(all[k].0));
            }
        }
        assert forall|m: int| 0 <= m < n implies (d.object(#[trigger] ids[m]) matches Some(o) ==> same_object(
            o,
            crate::drawing::drape::draped(o, surfaces, hits[m]@),
        ) || exists|k: int| 0 <= k < all.len() && (#[trigger] all[k]).0 == o) by {
            if let Some(o) = d.object(ids[m]) {
                if !same_object(o, crate::drawing::drape::draped(o, surfaces, hits[m]@)) {
                    if m < n - 1 {
                        let k = choose|k: int| 0 <= k < rest.len() && (#[trigger] rest[k]).0 == o;
                        assert(all[k] == rest[k]);
                    } else {
                        assert(all[all.len() - 1].0 == o);
                    }
                }
            }
        }
    }
}

/// Confirming a drape replaces designs by what they are once draped, and takes
/// up no others: every replacement is of a design that was chosen, with each
/// point on the uppermost chosen surface there. A design that draping changes
/// is replaced.
pub proof fn law_drape_replaces_the_chosen_designs(pre: App, hits: Seq<Vec<Vec<Option<u64>>>>, post: App)
    requires
        drape_confirmed(pre, hits, post),
        pre.canvas.active_tool == ActiveTool::DrapeToTopology,
        pre.drape.phase == DrapePhase::Topologies,
        pre.workspace.active() is Some,
        selected_bounds(pre.items.triangulations@, pre.selection.handles@).len() > 0,
        crate::drawing::drape::all_hits_fit(
            pre.workspace.active()->0.document,
            pre.drape.objects@,
            selected_bounds(pre.items.triangulations@, pre.selection.handles@),
            hits,
        ),
    ensures
        ({
            let d = pre.workspace.active()->0.document;
            let surfaces = selected_bounds(pre.items.triangulations@, pre.selection.handles@);
            let ids = pre.drape.objects@;
            &&& post.steps@.len() > pre.steps@.len() ==> forall|k: int|
                0 <= k < post.steps@.last().edits@.len() ==> ((#[trigger] post.steps@.last().edits@[k]) matches Edit::Replace { before, after } && exists|
                    m: int,
                |
                    0 <= m < ids.len() && d.object(#[trigger] ids[m]) == Some(before@) && draped_onto(before@, after@, surfaces, hits[m]@))
            &&& forall|m: int|
                0 <= m < ids.len() && post.steps@.len() == pre.steps@.len() ==> (d.object(#[trigger] ids[m]) matches Some(o) ==> same_object(
                    o,
                    crate::drawing::drape::draped(o, surfaces, hits[m]@),
                ))
            &&& forall|m: int|
                0 <= m < ids.len() && post.steps@.len() > pre.steps@.len() ==> (d.object(#[trigger] ids[m]) matches Some(o) ==> same_object(
                    o,
                    crate::drawing::drape::draped(o, surfaces, hits[m]@),
                ) || edits_replace(post.steps@.last().edits@, o))
            &&& post.drape.phase == DrapePhase::Designs && post.drape.objects@.len() == 0
            &&& post.workspace == pre.workspace
            &&& post.canvas.active_tool == ActiveTool::Idle && post.frame.geometry_stale
            &&& forall|h: SceneEntityId| #[trigger] post.selection.handles@.contains(h) <==> h is Object && ids.contains(h->Object_0)
        }),
        keeps_steps(pre, post) && post.steps@.len() <= pre.steps@.len() + 1,
        post.steps@.len() > pre.steps@.len() ==> post.steps@.last().batch && !post.steps@.last().applied,
{
    let d = pre.workspace.active()->0.document;
    let surfaces = selected_bounds(pre.items.triangulations@, pre.selection.handles@);
    let ids = pre.drape.objects@;
    let pairs = redraped(d, ids, surfaces, hits, ids.len() as int);
    lemma_redraped(d, ids, surfaces, hits, ids.len() as int);
    if pairs.len() == 0 {
        assert(pre.steps@.take(pre.steps@.len() as int) =~= pre.steps@);
    }
    if pairs.len() > 0 {
        let edits = post.steps@.last().edits@;
        assert forall|m: int| 0 <= m < ids.len() implies (d.object(#[trigger] ids[m]) matches Some(o) ==> same_object(
            o,
            crate::drawing::drape::draped(o, surfaces, hits[m]@),
        ) || edits_replace(edits, o)) by {
            if let Some(o) = d.object(ids[m]) {
                if !same_object(o, crate::drawing::drape::draped(o, surfaces, hits[m]@)) {
                    let k = choose|k: int| 0 <= k < pairs.len() && (#[trigger] pairs[k]).0 == o;
                    assert(edits[k].replaces(pairs[k].0, pairs[k].1));
                }
            }
        }
        assert forall|k: int| 0 <= k < edits.len() implies ((#[trigger] edits[k]) matches Edit::Replace { before, after } && exists|m: int|
            0 <= m < ids.len() && d.object(#[trigger] ids[m]) == Some(before@) && draped_onto(before@, after@, surfaces, hits[m]@)) by {
            assert(edits[k].replaces(pairs[k].0, pairs[k].1));
            let m = choose|m: int| 0 <= m < ids.len() && d.object(#[trigger] ids[m]) == Some(pairs[k].0) && draped_onto(pairs[k].0, pairs[k].1, surfaces, hits[m]@);
            assert(d.object(ids[m]) == Some(pairs[k].0));
        }
    }
}

/// The surfaces that designs are draped onto are those that are selected.
pub proof fn law_selected_surfaces(list: Seq<OpenTriangulation>, selected: Set<SceneEntityId>)
    ensures
        selected_bounds(list, selected).len() <= list.len(),
        forall|k: int|
            0 <= k < list.len() && selected.contains(SceneEntityId::Triangulation((#[trigger] list[k]).id)) ==> selected_bounds(list, selected).contains(
                list[k].bounds,
            ),
        forall|b: Bounds| #[trigger]
            selected_bounds(list, selected).contains(b) ==> exists|k: int|
                0 <= k < list.len() && (#[trigger] list[k]).bounds == b && selected.contains(SceneEntityId::Triangulation(list[k].id)),
    decreases list.len(),
{
    if list.len() > 0 {
        let less = list.drop_last();
        let rest = selected_bounds(less, selected);
        let all = selected_bounds(list, selected);
        law_selected_surfaces(less, selected);
        assert forall|k: int| 0 <= k < list.len() && selected.contains(SceneEntityId::Triangulation((#[trigger] list[k]).id)) implies all.contains(
            list[k].bounds,
        ) by {
            if k < less.len() {
                assert(less[k] == list[k]);
                assert(rest.contains(less[k].bounds));
                let i = choose|i: int| 0 <= i < rest.len() && rest[i] == less[k].bounds;
                assert(all[i] == rest[i]);
            } else {
                assert(all[all.len() - 1] == list[k].bounds);
            }
        }
        assert forall|b: Bounds| #[trigger] all.contains(b) implies exists|k: int|
            0 <= k < list.len() && (#[trigger] list[k]).bounds == b && selected.contains(SceneEntityId::Triangulation(list[k].id)) by {
            let i = choose|i: int| 0 <= i < all.len() && all[i] == b;
            if i < rest.len() {
                assert(rest[i] == b);
                assert(rest.contains(b));
                let k = choose|k: int| 0 <= k < less.len() && (#[trigger] less[k]).bounds == b && selected.contains(SceneEntityId::Triangulation(less[k].id));
                assert(list[k] == less[k]);
            } else {
                assert(list[list.len() - 1].bounds == b);
            }
        }
    }
}

/// Confirming the designs to be draped takes those selected that are of the
/// active project, and goes on to the surfaces.
pub proof fn law_drape_goes_on_to_surfaces(pre: App, hits: Seq<Vec<Vec<Option<u64>>>>, post: App)
    requires
        drape_confirmed(pre, hits, post),
        pre.canvas.active_tool == ActiveTool::DrapeToTopology,
        pre.drape.phase == DrapePhase::Designs,
        post.drape.phase == DrapePhase::Topologies,
    ensures
        post.selection.handles@ == Set::<SceneEntityId>::empty(),
        post.drape.objects@.len() > 0,
        forall|id: ObjectId| #[trigger]
            post.drape.objects@.contains(id) <==> pre.selection.handles.order().contains(SceneEntityId::Object(id)) && crate::canvas::active_ids(
                pre.workspace,
            ).contains(id),
        post.steps == pre.steps,
{
    lemma_designs(pre, pre.selection.handles.order());
}

proof fn lemma_designs(app: App, handles: Seq<SceneEntityId>)
    ensures
        forall|id: ObjectId| #[trigger]
            crate::drawing::drape::designs_in(app, handles).contains(id) <==> handles.contains(SceneEntityId::Object(id)) && crate::canvas::active_ids(
                app.workspace,
            ).contains(id),
    decreases handles.len(),
{
    if handles.len() > 0 {
        let less = handles.drop_last();
        lemma_designs(app, less);
        let rest = crate::drawing::drape::designs_in(app, less);
        let all = crate::drawing::drape::designs_in(app, handles);
        assert(handles =~= less.push(handles.last()));
        assert forall|id: ObjectId| #[trigger] all.contains(id) <==> handles.contains(SceneEntityId::Object(id)) && crate::canvas::active_ids(
            app.workspace,
        ).contains(id) by {
            if rest.contains(id) {
                let i = choose|i: int| 0 <= i < rest.len() && rest[i] == id;
                assert(all[i] == id);
            }
            if less.contains(SceneEntityId::Object(id)) {
                let i = choose|i: int| 0 <= i < less.len() && less[i] == SceneEntityId::Object(id);
                assert(handles[i] == SceneEntityId::Object(id));
            }
            if handles.last() == SceneEntityId::Object(id) {
                assert(handles[handles.len() - 1] == SceneEntityId::Object(id));
                if crate::canvas::active_ids(app.workspace).contains(id) {
                    assert(all[all.len() - 1] == id);
                }
            }
            if all.contains(id) {
                let i = choose|i: int| 0 <= i < all.len() && all[i] == id;
                if i < rest.len() {
                    assert(rest[i] == id);
                    assert(rest.contains(id));
                }
            }
            if handles.contains(SceneEntityId::Object(id)) {
                let i = choose|i: int| 0 <= i < handles.len() && handles[i] == SceneEntityId::Object(id);
                if i < less.len() {
                    assert(less[i] == SceneEntityId::Object(id));
                    assert(less.contains(SceneEntityId::Object(id)));
                }
            }
        }
    }
}

/// A move that is aimed at no single point takes every point of every captured
/// object to where it leads; one that is aimed at a vertex takes that vertex
/// alone. Whatever it moves keeps its id, its layer, its bulges and its style.
pub proof fn law_move_shifts_points_alone(
    originals: Seq<ObjectModel>,
    aim: Option<(ObjectId, ObjectPoint)>,
    told: Seq<ShiftedPoints>,
    k: int,
)
    requires
        0 <= k < originals.len(),
        told.len() == originals.len(),
        told[k].points@.len() == point_count(originals[k]),
    ensures
        ({
            let (o, q) = (originals[k], shown_objects(originals, aim, told)[k]);
            let to = told[k].points@;
            let aimed = aim matches Some(a) && a.0 == o.id();
            &&& q.id() == o.id() && q.layer() == o.layer()
            &&& aim is Some && !aimed ==> q == o
            &&& match (o, q) {
                (ObjectModel::Point { pos, color, .. }, ObjectModel::Point { pos: pos2, color: color2, .. }) => color2 == color && (aim is None ==> pos2
                    == to[0]) && (aim == Some((o.id(), ObjectPoint::Vertex(0))) ==> pos2 == to[0]),
                (ObjectModel::Text { pos, content, color, .. }, ObjectModel::Text { pos: pos2, content: content2, color: color2, .. }) => color2 == color
                    && content2 == content && (aim is None ==> pos2 == to[0]) && (aim is Some ==> pos2 == pos),
                (ObjectModel::Polyline { verts, .. }, ObjectModel::Polyline { verts: verts2, .. }) => {
                    &&& drawn_alike(o, q)
                    &&& verts2.len() == verts.len()
                    &&& forall|i: int|
                        0 <= i < verts.len() ==> {
                            &&& (#[trigger] verts2[i]).bulge == verts[i].bulge
                            &&& aim is None ==> verts2[i].pos == to[i]
                            &&& (aim matches Some((id, ObjectPoint::Vertex(v))) && id == o.id() && v == i) ==> verts2[i].pos == to[i]
                            &&& (aim matches Some((_, ObjectPoint::Vertex(v))) && v != i) ==> verts2[i].pos == verts[i].pos
                            &&& aim == Some((o.id(), ObjectPoint::Center)) ==> verts2[i].pos == if told[k].circle {
                                to[i]
                            } else {
                                verts[i].pos
                            }
                        }
                },
                _ => false,
            }
        }),
{
    let (o, q) = (originals[k], shown_objects(originals, aim, told)[k]);
    if o is Polyline {
        if let Some((id, _)) = aim {
            if id != o.id() {
                assert(q->Polyline_verts =~= o->Polyline_verts);
            }
        }
    }
}

/// A closed berm dialog shows no outline and no ring.
pub proof fn law_closed_berm_shows_nothing(pre: BatterBerm, post: BatterBerm)
    requires
        crate::drawing::batter_berm::berm_closed(pre, post),
    ensures
        !post.dialog_open && post.target is None && post.key is None,
        post.source_world@.len() == 0 && post.rings_world@.len() == 0 && post.source_px@.len() == 0 && post.rings_px@.len() == 0,
{
}

} // verus!
