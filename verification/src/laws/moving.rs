//! Moving objects and collars, and turning holes.

use crate::collars::{captured, collars_written, extent_of, grouped, holes_written, live_hole, placement_at, targets_of, CollarGroupModel};
use crate::document::{object_models, replaced_all, same_object, Document, ObjectModel};
use crate::drawing::move_tool::{captured_objects, changes, collar_move_settled, design_written, move_session_settled, objects_among, standing_shift};
use crate::drawing::rotate_collar::{
    advanced, aims_of, differs, rotation_settled, selected_aim, turned_count, turned_placements, AZIMUTH_RING, TurnedHole,
};
use crate::edit::{Edit, Shift};
use crate::ids::{DrillHoleId, HoleRef, ObjectId, SceneEntityId};
use crate::ieee::f64_equal;
use crate::items::{DrillHole, HoleOrientation, HolePlacement, OpenDrillHoleDataset};
use crate::laws::lookup::{keeps_steps, law_replacing_takes_one_place};
use crate::search::lemma_first_index;
use crate::state::{App, CapturedHole, CollarRotation, MoveSession};
use crate::workspace::{index_of_runtime, OpenProject, Workspace};
use vstd::prelude::*;

verus! {

/// A hole was captured, where it stood then.
pub open spec fn was_captured(originals: Seq<CapturedHole>, dataset: DrillHoleId, hole: (usize, HolePlacement)) -> bool {
    exists|k: int|
        0 <= k < originals.len() && (#[trigger] originals[k]).target.dataset == dataset && originals[k].target.hole == hole.0 && originals[k].placement == hole.1
}

spec fn only_captured(originals: Seq<CapturedHole>, g: CollarGroupModel) -> bool {
    g.holes.len() > 0 && forall|q: int| 0 <= q < g.holes.len() ==> was_captured(originals, g.dataset, #[trigger] g.holes[q])
}

proof fn lemma_groups_hold_captured(originals: Seq<CapturedHole>)
    ensures
        forall|g: int| 0 <= g < grouped(originals).len() ==> only_captured(originals, #[trigger] grouped(originals)[g]),
    decreases originals.len(),
{
    if originals.len() > 0 {
        let front = originals.drop_last();
        let c = originals.last();
        lemma_groups_hold_captured(front);
        let (groups, all) = (grouped(front), grouped(originals));
        let fits = |g: CollarGroupModel| g.dataset == c.target.dataset;
        lemma_first_index(groups, fits);
        assert(originals[originals.len() - 1] == c);
        assert forall|g: int| 0 <= g < all.len() implies only_captured(originals, #[trigger] all[g]) by {
            assert forall|q: int| 0 <= q < all[g].holes.len() implies was_captured(originals, all[g].dataset, #[trigger] all[g].holes[q]) by {
                if g < groups.len() && q < groups[g].holes.len() {
                    assert(only_captured(front, groups[g]));
                    assert(groups[g].holes[q] == all[g].holes[q]);
                    assert(was_captured(front, groups[g].dataset, groups[g].holes[q]));
                    let k = choose|k: int|
                        0 <= k < front.len() && (#[trigger] front[k]).target.dataset == groups[g].dataset && front[k].target.hole == groups[g].holes[q].0
                            && front[k].placement == groups[g].holes[q].1;
                    assert(originals[k] == front[k]);
                } else {
                    assert(all[g].holes[q] == (c.target.hole, c.placement));
                }
            }
            if g < groups.len() {
                assert(only_captured(front, groups[g]));
            }
        }
    }
}

/// A finished move of collars is one step. Each captured hole is moved by the
/// one distance from where it stood, in the edit of its dataset, and no other
/// hole is.
pub proof fn law_collars_are_moved_together(mid: App, by: Shift, post: App, originals: Seq<CapturedHole>, k: int, e: int)
    requires
        collar_move_settled(mid, by, post),
        mid.moving.collars matches Some(s) && s.originals@ == originals,
        post.steps@.len() > mid.steps@.len(),
        0 <= k < originals.len(),
        0 <= e < post.steps@.last().edits@.len(),
    ensures
        keeps_steps(mid, post) && post.steps@.len() == mid.steps@.len() + 1,
        !post.steps@.last().applied,
        exists|x: int|
            0 <= x < post.steps@.last().edits@.len() && (#[trigger] post.steps@.last().edits@[x] matches Edit::MoveCollars { dataset, holes, shift } && dataset
                == originals[k].target.dataset && holes@.contains((originals[k].target.hole, originals[k].placement)) && shift == by),
        post.steps@.last().edits@[e] matches Edit::MoveCollars { dataset, holes, shift } && shift == by && holes@.len() > 0 && forall|q: int|
            0 <= q < holes@.len() ==> was_captured(originals, dataset, #[trigger] holes@[q]),
{
    crate::collars::law_grouped(originals);
    lemma_groups_hold_captured(originals);
    let groups = grouped(originals);
    assert(crate::collars::in_group(groups, originals[k]));
    let g = choose|g: int| 0 <= g < groups.len() && (#[trigger] groups[g]).dataset == originals[k].target.dataset && groups[g].holes.contains(
        (originals[k].target.hole, originals[k].placement),
    );
    assert(post.steps@.last().edits@[g] is MoveCollars);
    assert(only_captured(originals, groups[e]));
}

/// A finished turn is one step too: each captured hole is turned alike, and no
/// other hole is.
pub proof fn law_holes_are_turned_together(
    mid: App,
    turn: CollarRotation,
    after: Seq<Option<HoleOrientation>>,
    post: App,
    originals: Seq<CapturedHole>,
    k: int,
    e: int,
)
    requires
        rotation_settled(mid, turn, after, post),
        mid.moving.collars matches Some(s) && s.originals@ == originals,
        post.steps@.len() > mid.steps@.len(),
        0 <= k < originals.len(),
        0 <= e < post.steps@.last().edits@.len(),
    ensures
        keeps_steps(mid, post) && post.steps@.len() == mid.steps@.len() + 1,
        !post.steps@.last().applied,
        exists|x: int|
            0 <= x < post.steps@.last().edits@.len() && (#[trigger] post.steps@.last().edits@[x] matches Edit::RotateCollars { dataset, holes, rotation } && dataset
                == originals[k].target.dataset && holes@.contains((originals[k].target.hole, originals[k].placement)) && rotation == turn),
        post.steps@.last().edits@[e] matches Edit::RotateCollars { dataset, holes, rotation } && rotation == turn && holes@.len() > 0 && forall|q: int|
            0 <= q < holes@.len() ==> was_captured(originals, dataset, #[trigger] holes@[q]),
{
    crate::collars::law_grouped(originals);
    lemma_groups_hold_captured(originals);
    let groups = grouped(originals);
    assert(crate::collars::in_group(groups, originals[k]));
    let g = choose|g: int| 0 <= g < groups.len() && (#[trigger] groups[g]).dataset == originals[k].target.dataset && groups[g].holes.contains(
        (originals[k].target.hole, originals[k].placement),
    );
    assert(post.steps@.last().edits@[g] is RotateCollars);
    assert(only_captured(originals, groups[e]));
}

/// A turn is worth a step where it turns some hole: one whose azimuth or dip
/// comes out another, or that had none.
pub proof fn law_some_hole_is_turned(originals: Seq<CapturedHole>, after: Seq<Option<HoleOrientation>>)
    requires
        originals.len() == after.len(),
    ensures
        turned_count(originals, after) >= 0,
        turned_count(originals, after) > 0 <==> exists|k: int|
            0 <= k < originals.len() && ((#[trigger] after[k]) matches Some(a) && (originals[k].placement.orientation matches Some(b) ==> !f64_equal(
                a.azimuth,
                b.azimuth,
            ) || !f64_equal(a.dip, b.dip))),
{
    lemma_turned(originals, after);
}

proof fn lemma_turned(originals: Seq<CapturedHole>, after: Seq<Option<HoleOrientation>>)
    requires
        originals.len() <= after.len(),
    ensures
        turned_count(originals, after) >= 0,
        turned_count(originals, after) > 0 <==> exists|k: int| 0 <= k < originals.len() && differs(#[trigger] after[k], originals[k].placement.orientation),
    decreases originals.len(),
{
    if originals.len() > 0 {
        let n = originals.len() - 1;
        let front = originals.drop_last();
        lemma_turned(front, after);
        if turned_count(front, after) > 0 {
            let k = choose|k: int| 0 <= k < front.len() && differs(#[trigger] after[k], front[k].placement.orientation);
            assert(front[k] == originals[k]);
        } else {
            assert forall|k: int| 0 <= k < n implies !differs(#[trigger] after[k], originals[k].placement.orientation) by {
                assert(front[k] == originals[k]);
            }
        }
    }
}

/// A move that goes nowhere is no step, and neither is one whose project is
/// not the active one any more; the holes are back where they stood.
pub proof fn law_still_moves_leave_no_step(mid: App, by: Shift, post: App)
    requires
        collar_move_settled(mid, by, post),
        by matches Shift::By(d) && d.x == 0 && d.y == 0 && d.z == 0,
    ensures
        post.steps == mid.steps,
        post.moving.collars is None,
{
}

proof fn lemma_changes(originals: Seq<ObjectModel>, document: Document)
    ensures
        forall|k: int|
            0 <= k < changes(originals, document).len() ==> originals.contains((#[trigger] changes(originals, document)[k]).0) && document.object(
                changes(originals, document)[k].0.id(),
            ) == Some(changes(originals, document)[k].1),
        forall|j: int|
            0 <= j < originals.len() ==> ((document.object((#[trigger] originals[j]).id()) matches Some(now) && !same_object(originals[j], now)) ==> changes(
                originals,
                document,
            ).contains((originals[j], document.object(originals[j].id())->0))),
    decreases originals.len(),
{
    if originals.len() > 0 {
        let front = originals.drop_last();
        let o = originals.last();
        lemma_changes(front, document);
        let (before, all) = (changes(front, document), changes(originals, document));
        assert(originals[originals.len() - 1] == o);
        assert forall|k: int| 0 <= k < all.len() implies originals.contains((#[trigger] all[k]).0) && document.object(all[k].0.id()) == Some(all[k].1) by {
            if k < before.len() {
                assert(all[k] == before[k]);
                assert(front.contains(before[k].0));
                let j = choose|j: int| 0 <= j < front.len() && front[j] == before[k].0;
                assert(originals[j] == before[k].0);
            }
        }
        assert forall|j: int|
            0 <= j < originals.len() && (document.object((#[trigger] originals[j]).id()) matches Some(now) && !same_object(originals[j], now)) implies all.contains(
            (originals[j], document.object(originals[j].id())->0),
        ) by {
            let x = (originals[j], document.object(originals[j].id())->0);
            if j < front.len() {
                assert(front[j] == originals[j]);
                assert(before.contains(x));
                let m = choose|m: int| 0 <= m < before.len() && before[m] == x;
                assert(all[m] == x);
            } else {
                assert(all[all.len() - 1] == x);
            }
        }
    }
}

/// A finished move of objects is one step, carried out already: each object
/// that came out another goes from what it was to what it is, and no other
/// object is touched.
pub proof fn law_moved_objects_leave_a_step(pre: App, session: MoveSession, post: App, p: OpenProject, j: int, e: int)
    requires
        move_session_settled(pre, session, post),
        pre.workspace.active() == Some(p),
        p.runtime_id == session.project_runtime_id,
        0 <= j < session.originals@.len(),
        post.steps@.len() > pre.steps@.len() ==> 0 <= e < post.steps@.last().edits@.len(),
    ensures
        (p.document.object(session.originals@[j]@.id()) matches Some(now) && !same_object(session.originals@[j]@, now)) ==> post.steps@.len() == pre.steps@.len()
            + 1 && exists|x: int|
            0 <= x < post.steps@.last().edits@.len() && (#[trigger] post.steps@.last().edits@[x] matches Edit::Replace { before, after } && before@
                == session.originals@[j]@ && Some(after@) == p.document.object(session.originals@[j]@.id())),
        post.steps@.len() > pre.steps@.len() ==> post.steps@.last().applied && (post.steps@.last().edits@[e] matches Edit::Replace { before, after }
            && object_models(session.originals@).contains(before@) && p.document.object(before@.id()) == Some(after@)),
        post.workspace == pre.workspace && post.items == pre.items,
{
    let originals = object_models(session.originals@);
    lemma_changes(originals, p.document);
    let pairs = changes(originals, p.document);
    assert(originals[j] == session.originals@[j]@);
    if p.document.object(originals[j].id()) is Some && !same_object(originals[j], p.document.object(originals[j].id())->0) {
        let x = (originals[j], p.document.object(originals[j].id())->0);
        assert(pairs.contains(x));
        let m = choose|m: int| 0 <= m < pairs.len() && pairs[m] == x;
        assert(post.steps@.last().edits@[m].replaces(pairs[m].0, pairs[m].1));
        assert(post.steps@.last().edits@[m] is Replace);
    }
    if post.steps@.len() > pre.steps@.len() {
        assert(post.steps@.last().edits@[e].replaces(pairs[e].0, pairs[e].1));
    }
}

/// The objects that are moved are the selected ones.
pub proof fn law_objects_among_handles(handles: Seq<SceneEntityId>, id: ObjectId)
    ensures
        objects_among(handles).contains(id) <==> handles.contains(SceneEntityId::Object(id)),
    decreases handles.len(),
{
    if handles.len() > 0 {
        let front = handles.drop_last();
        law_objects_among_handles(front, id);
        let (before, all) = (objects_among(front), objects_among(handles));
        let h = SceneEntityId::Object(id);
        assert(handles[handles.len() - 1] == handles.last());
        if front.contains(h) {
            let i = choose|i: int| 0 <= i < front.len() && front[i] == h;
            assert(handles[i] == h);
        }
        if before.contains(id) {
            let i = choose|i: int| 0 <= i < before.len() && before[i] == id;
            assert(all[i] == id);
        }
        if handles.last() == h {
            assert(all[all.len() - 1] == id);
        }
        if handles.contains(h) && handles.last() != h {
            let i = choose|i: int| 0 <= i < handles.len() && handles[i] == h;
            assert(front[i] == h);
        }
        if all.contains(id) && !before.contains(id) {
            let i = choose|i: int| 0 <= i < all.len() && all[i] == id;
            if i < before.len() {
                assert(before[i] == id);
            }
        }
    }
}

/// Each object that is there is captured as it is.
pub proof fn law_captured_objects(document: Document, ids: Seq<ObjectId>, id: ObjectId)
    ensures
        ids.contains(id) && document.object(id) is Some ==> captured_objects(document, ids).contains(document.object(id)->0),
        captured_objects(document, ids).len() <= ids.len(),
    decreases ids.len(),
{
    if ids.len() > 0 {
        let front = ids.drop_last();
        law_captured_objects(document, front, id);
        let (before, all) = (captured_objects(document, front), captured_objects(document, ids));
        if ids.contains(id) && document.object(id) is Some {
            let o = document.object(id)->0;
            if ids.last() == id {
                assert(all[all.len() - 1] == o);
            } else {
                let i = choose|i: int| 0 <= i < ids.len() && ids[i] == id;
                assert(front[i] == id);
                assert(before.contains(o));
                let m = choose|m: int| 0 <= m < before.len() && before[m] == o;
                assert(all[m] == o);
            }
        }
    }
}

/// The holes that are moved are the selected ones that are there, in a dataset
/// that is loaded.
pub proof fn law_which_holes_are_moved(datasets: Seq<OpenDrillHoleDataset>, selected: Seq<HoleRef>, h: HoleRef)
    ensures
        targets_of(datasets, selected).contains(h) <==> selected.contains(h) && exists|d: int|
            0 <= d < datasets.len() && (#[trigger] datasets[d]).id == h.dataset && datasets[d].state.loaded && h.hole < datasets[d].holes@.len(),
{
    let keep = |h: HoleRef| live_hole(datasets, h);
    crate::ids::lemma_filter_members(selected, keep);
    crate::collars::law_sorted_holes(selected.filter(keep));
}

/// A hole is captured where it stands.
pub proof fn law_captured_holes(datasets: Seq<OpenDrillHoleDataset>, targets: Seq<HoleRef>, k: int)
    requires
        0 <= k < targets.len(),
        forall|i: int| 0 <= i < targets.len() ==> placement_at(datasets, #[trigger] targets[i]) is Some,
    ensures
        captured(datasets, targets).len() == targets.len(),
        captured(datasets, targets)[k].target == targets[k],
        Some(captured(datasets, targets)[k].placement) == placement_at(datasets, targets[k]),
    decreases targets.len(),
{
    let front = targets.drop_last();
    assert forall|i: int| 0 <= i < front.len() implies placement_at(datasets, #[trigger] front[i]) is Some by {
        assert(targets[i] == front[i]);
    }
    assert(placement_at(datasets, targets[targets.len() - 1]) is Some);
    if k < front.len() {
        law_captured_holes(datasets, front, k);
    } else if front.len() > 0 {
        law_captured_holes(datasets, front, 0);
    } else {
        assert(captured(datasets, front).len() == 0);
    }
}

/// Where a hole stands is told by its dataset.
pub proof fn law_where_a_hole_stands(datasets: Seq<OpenDrillHoleDataset>, target: HoleRef, d: int)
    requires
        0 <= d < datasets.len(),
        datasets[d].id == target.dataset,
        forall|j: int| 0 <= j < d ==> (#[trigger] datasets[j]).id != target.dataset,
    ensures
        target.hole < datasets[d].holes@.len() ==> placement_at(datasets, target) == Some(datasets[d].holes@[target.hole as int].placement),
        target.hole >= datasets[d].holes@.len() ==> placement_at(datasets, target) is None,
{
    let id = target.dataset;
    crate::search::lemma_is_first_index(datasets, |d: OpenDrillHoleDataset| d.id == id, d);
}

/// No hole is captured twice.
pub open spec fn captured_once(originals: Seq<CapturedHole>) -> bool {
    forall|i: int, j: int| 0 <= i < j < originals.len() ==> (#[trigger] originals[i]).target != (#[trigger] originals[j]).target
}

proof fn lemma_written(holes: Seq<DrillHole>, dataset: DrillHoleId, originals: Seq<CapturedHole>, written: Seq<HolePlacement>, k: int)
    requires
        captured_once(originals),
        0 <= k < holes.len(),
    ensures
        holes_written(holes, dataset, originals, written).len() == holes.len(),
        holes_written(holes, dataset, originals, written)[k].name == holes[k].name,
        holes_written(holes, dataset, originals, written)[k].intervals == holes[k].intervals,
        holes_written(holes, dataset, originals, written)[k].diameter == holes[k].diameter,
        forall|c: int|
            0 <= c < originals.len() && (#[trigger] originals[c]).target.dataset == dataset && originals[c].target.hole == k ==> holes_written(
                holes,
                dataset,
                originals,
                written,
            )[k].placement == written[c],
        (forall|c: int| 0 <= c < originals.len() && (#[trigger] originals[c]).target.dataset == dataset ==> originals[c].target.hole != k) ==> holes_written(
            holes,
            dataset,
            originals,
            written,
        )[k] == holes[k],
    decreases originals.len(),
{
    if originals.len() > 0 {
        let front = originals.drop_last();
        assert forall|i: int, j: int| 0 <= i < j < front.len() implies (#[trigger] front[i]).target != (#[trigger] front[j]).target by {
            assert(originals[i].target != originals[j].target);
        }
        lemma_written(holes, dataset, front, written, k);
        let last = originals.len() - 1;
        let t = originals[last].target;
        assert forall|c: int|
            0 <= c < originals.len() && (#[trigger] originals[c]).target.dataset == dataset && originals[c].target.hole == k implies holes_written(
            holes,
            dataset,
            originals,
            written,
        )[k].placement == written[c] by {
            if c < last {
                assert(front[c] == originals[c]);
                assert(originals[c].target != originals[last].target);
            }
        }
        if forall|c: int| 0 <= c < originals.len() && (#[trigger] originals[c]).target.dataset == dataset ==> originals[c].target.hole != k {
            assert forall|c: int| 0 <= c < front.len() && (#[trigger] front[c]).target.dataset == dataset implies front[c].target.hole != k by {
                assert(originals[c] == front[c]);
            }
            assert(!(t.dataset == dataset && t.hole == k));
        }
    }
}

/// Writing placements puts each captured hole where it is told to stand, with
/// all else that it has, and leaves the others where they are. The box of a
/// dataset that was written is that around its holes.
pub proof fn law_written_collars(
    pre: Seq<OpenDrillHoleDataset>,
    post: Seq<OpenDrillHoleDataset>,
    originals: Seq<CapturedHole>,
    written: Seq<HolePlacement>,
    d: int,
    k: int,
    c: int,
)
    requires
        collars_written(pre, post, originals, written),
        captured_once(originals),
        0 <= d < pre.len(),
        0 <= k < pre[d].holes@.len(),
        0 <= c < originals.len(),
    ensures
        post.len() == pre.len(),
        post[d].id == pre[d].id && post[d].holes@.len() == pre[d].holes@.len(),
        originals[c].target.dataset == pre[d].id && originals[c].target.hole == k ==> post[d].holes@[k].placement == written[c],
        originals[c].target.dataset == pre[d].id ==> post[d].bounds == extent_of(post[d].holes@),
        (forall|x: int| 0 <= x < originals.len() && (#[trigger] originals[x]).target.dataset == pre[d].id ==> originals[x].target.hole != k)
            ==> post[d].holes@[k] == pre[d].holes@[k],
        post[d].holes@[k].name == pre[d].holes@[k].name && post[d].holes@[k].intervals == pre[d].holes@[k].intervals && post[d].holes@[k].diameter
            == pre[d].holes@[k].diameter,
        post[d].tie_ins == pre[d].tie_ins && post[d].initiations == pre[d].initiations,
{
    lemma_written(pre[d].holes@, pre[d].id, originals, written, k);
    assert(crate::collars::dataset_written(pre[d], post[d], originals, written));
    if originals[c].target.dataset == pre[d].id {
        assert(crate::collars::captured_from(originals, pre[d].id));
    }
}

/// A turned hole is put where the turn tells it; one of which nothing is told
/// stays where it was captured.
pub proof fn law_turned_placements(originals: Seq<CapturedHole>, turned: Seq<TurnedHole>, k: int)
    requires
        0 <= k < originals.len(),
    ensures
        turned_placements(originals, turned).len() == originals.len(),
        k < turned.len() ==> turned_placements(originals, turned)[k] == turned[k].placement,
        k >= turned.len() ==> turned_placements(originals, turned)[k] == originals[k].placement,
{
}

/// The distance that collars have come is from where the first captured hole
/// stood to where it stands.
pub proof fn law_distance_come(app: App, c: CapturedHole, now: HolePlacement)
    requires
        app.moving.collars matches Some(s) && s.originals@.len() > 0 && s.originals@[0] == c,
        placement_at(app.items.drill_holes@, c.target) == Some(now),
    ensures
        standing_shift(app) matches Some(Shift::Between { from, to }) && from == c.placement.collar && to == now.collar,
{
}

/// A ring turns what it stands for: the azimuth as it is told, or the dip
/// within its room, and leaves the other.
pub proof fn law_rings_turn_one_angle(start: CollarRotation, ring: u8, azimuth: u64, dip: u64, room: (u64, u64))
    ensures
        (start, advanced(start, ring, azimuth, dip, room)) matches (CollarRotation::Absolute(a), CollarRotation::Absolute(b)) ==> {
            &&& ring == AZIMUTH_RING ==> b.azimuth == azimuth && b.dip == a.dip
            &&& ring != AZIMUTH_RING ==> b.azimuth == a.azimuth && (b.dip == dip || b.dip == room.0 || b.dip == room.1)
        },
        (start, advanced(start, ring, azimuth, dip, room)) matches (
            CollarRotation::Delta { azimuth: a, dip: d },
            CollarRotation::Delta { azimuth: b, dip: e },
        ) ==> {
            &&& ring == AZIMUTH_RING ==> b == azimuth && e == d
            &&& ring != AZIMUTH_RING ==> b == a && (e == dip || e == room.0 || e == room.1)
        },
        start is Absolute <==> advanced(start, ring, azimuth, dip, room) is Absolute,
        ring != AZIMUTH_RING && !crate::ieee::f64_less(dip, room.0) && !crate::ieee::f64_less(room.1, dip) ==> crate::drawing::rotate_collar::dip_of(
            advanced(start, ring, azimuth, dip, room),
        ) == dip,
{
}

/// The aim that is shown is that of the first selected hole that has one; the
/// others are said to differ where one of them is not near it.
pub proof fn law_shown_aim(app: App, near: Seq<bool>)
    ensures
        ({
            let aims = aims_of(app.items.drill_holes@, targets_of(app.items.drill_holes@, app.selection.holes.order()));
            &&& aims.len() == 0 ==> selected_aim(app, near) is None
            &&& aims.len() > 0 && near.len() == aims.len() ==> (selected_aim(app, near) matches Some((aim, mixed)) && aim == aims[0] && (mixed <==> exists|k: int|
                1 <= k < near.len() && !(#[trigger] near[k])))
        }),
{
}

/// The aims of holes are taken one by one: each hole that has one gives its own.
pub proof fn law_aims_of_holes(datasets: Seq<OpenDrillHoleDataset>, targets: Seq<HoleRef>, t: HoleRef)
    ensures
        aims_of(datasets, Seq::empty()) == Seq::<HoleOrientation>::empty(),
        aims_of(datasets, targets.push(t)) == match placement_at(datasets, t) {
            Some(HolePlacement { orientation: Some(o), .. }) => aims_of(datasets, targets).push(o),
            _ => aims_of(datasets, targets),
        },
{
    assert(targets.push(t).drop_last() =~= targets);
}

/// Writing objects into a design puts each in the place of the one of its id
/// and leaves the others.
pub proof fn law_written_objects(s: Seq<ObjectModel>, objects: Seq<ObjectModel>, k: int)
    requires
        0 <= k < s.len(),
        forall|i: int, j: int| 0 <= i < j < s.len() ==> (#[trigger] s[i]).id() != (#[trigger] s[j]).id(),
        forall|i: int, j: int| 0 <= i < j < objects.len() ==> (#[trigger] objects[i]).id() != (#[trigger] objects[j]).id(),
    ensures
        replaced_all(s, objects).len() == s.len(),
        replaced_all(s, objects)[k].id() == s[k].id(),
        forall|c: int| 0 <= c < objects.len() && (#[trigger] objects[c]).id() == s[k].id() ==> replaced_all(s, objects)[k] == objects[c],
        (forall|c: int| 0 <= c < objects.len() ==> (#[trigger] objects[c]).id() != s[k].id()) ==> replaced_all(s, objects)[k] == s[k],
    decreases objects.len(),
{
    if objects.len() > 0 {
        let front = objects.drop_last();
        let o = objects.last();
        let before = replaced_all(s, front);
        assert forall|i: int, j: int| 0 <= i < j < front.len() implies (#[trigger] front[i]).id() != (#[trigger] front[j]).id() by {
            assert(objects[i].id() != objects[j].id());
        }
        law_written_objects(s, front, k);
        assert forall|i: int, j: int| 0 <= i < j < before.len() implies (#[trigger] before[i]).id() != (#[trigger] before[j]).id() by {
            law_written_objects(s, front, i);
            law_written_objects(s, front, j);
        }
        law_replacing_takes_one_place(before, o, k);
        let last = objects.len() - 1;
        assert(objects[last] == o);
        assert forall|c: int| 0 <= c < objects.len() && (#[trigger] objects[c]).id() == s[k].id() implies replaced_all(s, objects)[k] == objects[c] by {
            if c < last {
                assert(front[c] == objects[c]);
                assert(objects[c].id() != objects[last].id());
            }
        }
        if forall|c: int| 0 <= c < objects.len() ==> (#[trigger] objects[c]).id() != s[k].id() {
            assert forall|c: int| 0 <= c < front.len() implies (#[trigger] front[c]).id() != s[k].id() by {
                assert(objects[c] == front[c]);
            }
        }
    }
}

/// A design that is written holds those objects; nothing else of it changes.
pub proof fn law_written_design(pre: Workspace, post: Workspace, runtime_id: u32, objects: Seq<ObjectModel>, i: int, j: int)
    requires
        design_written(pre, post, runtime_id, objects),
        i == index_of_runtime(pre.projects@, runtime_id),
        0 <= i < pre.projects@.len(),
        0 <= j < pre.projects@.len(),
    ensures
        object_models(post.projects@[i].document.objects@) == replaced_all(object_models(pre.projects@[i].document.objects@), objects),
        post.projects@[i].document.layers == pre.projects@[i].document.layers,
        post.projects@[i].runtime_id == pre.projects@[i].runtime_id && post.projects@[i].revision == pre.projects@[i].revision,
        j != i ==> post.projects@[j] == pre.projects@[j],
        post.active_index == pre.active_index,
{
}

/// A turn that was kept or given up is over, and the holes are where they were
/// captured until the step is carried out.
pub proof fn law_turns_are_over(mid: App, turn: CollarRotation, after: Seq<Option<HoleOrientation>>, post: App)
    requires
        rotation_settled(mid, turn, after, post),
    ensures
        post.turning.rotation is None && post.turning.drag is None && !post.turning.preview_active,
        post.moving.collars is None,
        mid.moving.collars matches Some(s) ==> (crate::drawing::move_tool::active_runtime(mid.workspace) != Some(s.project_runtime_id) || turned_count(
            s.originals@,
            after,
        ) == 0 ==> post.steps == mid.steps),
{
}

} // verus!
