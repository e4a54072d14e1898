//! What a gesture that was put down leaves behind: nothing.

use crate::collars::{
    captured, captured_epochs, captured_from, collars_restored, collars_written, dataset_written, extent_of, holes_written, marks, marks_restored, placement_at,
    placements, same_but_epochs,
};
use crate::document::{lemma_replaced_ids, model_index, object_index, object_models, replaced_all, Document, Object, ObjectModel};
use crate::drawing::move_tool::{captured_objects, design_put_back, design_written};
use crate::drawing::translate::{law_shown_objects_are_the_captured, shown_objects, ShiftedPoints};
use crate::ids::{DrillHoleId, HoleRef, ObjectId};
use crate::items::{dataset_index, DrillHole, HolePlacement, ItemState, OpenDrillHoleDataset};
use crate::search::{first_index, lemma_first_index};
use crate::state::{CapturedHole, CollarMoveSession, DatasetMark, MoveSession, ObjectPoint};
use crate::workspace::{index_of_runtime, OpenProject, Workspace};
use vstd::prelude::*;

verus! {

/// No two datasets have one id.
pub open spec fn datasets_apart(s: Seq<OpenDrillHoleDataset>) -> bool {
    forall|i: int, j: int| 0 <= i < j < s.len() ==> (#[trigger] s[i]).id != (#[trigger] s[j]).id
}

/// The hole is among the captured ones.
pub open spec fn is_captured(originals: Seq<CapturedHole>, dataset: DrillHoleId, hole: int) -> bool {
    exists|k: int| 0 <= k < originals.len() && (#[trigger] originals[k]).target.dataset == dataset && originals[k].target.hole == hole
}

/// A hole that differs from another in where it stands at most, and only if it
/// was captured.
pub open spec fn hole_drifted(a: DrillHole, b: DrillHole, taken: bool) -> bool {
    &&& b == (DrillHole { placement: b.placement, ..a })
    &&& !taken ==> b.placement == a.placement
}

/// A dataset whose captured holes may stand elsewhere, with its bounds, and
/// whose counter may have moved on.
pub open spec fn dataset_drifted(a: OpenDrillHoleDataset, b: OpenDrillHoleDataset, originals: Seq<CapturedHole>) -> bool {
    if captured_from(originals, a.id) {
        &&& b == (OpenDrillHoleDataset { holes: b.holes, bounds: b.bounds, state: ItemState { epoch: b.state.epoch, ..a.state }, ..a })
        &&& b.holes@.len() == a.holes@.len()
        &&& forall|h: int| 0 <= h < a.holes@.len() ==> hole_drifted(a.holes@[h], #[trigger] b.holes@[h], is_captured(originals, a.id, h))
    } else {
        b == a
    }
}

/// Datasets as a gesture may have left them while it stands.
pub open spec fn datasets_drifted(start: Seq<OpenDrillHoleDataset>, now: Seq<OpenDrillHoleDataset>, originals: Seq<CapturedHole>) -> bool {
    &&& now.len() == start.len()
    &&& forall|d: int| 0 <= d < start.len() ==> dataset_drifted(start[d], #[trigger] now[d], originals)
}

/// The two lists hold the same datasets, hole for hole.
pub open spec fn same_datasets(a: Seq<OpenDrillHoleDataset>, b: Seq<OpenDrillHoleDataset>) -> bool {
    &&& b.len() == a.len()
    &&& forall|d: int| 0 <= d < a.len() ==> (#[trigger] b[d]).holes@ == a[d].holes@ && b[d] == (OpenDrillHoleDataset { holes: b[d].holes, ..a[d] })
}

proof fn lemma_written_holes(holes: Seq<DrillHole>, dataset: DrillHoleId, originals: Seq<CapturedHole>, written: Seq<HolePlacement>)
    requires
        originals.len() <= written.len(),
    ensures
        holes_written(holes, dataset, originals, written).len() == holes.len(),
        forall|h: int|
            0 <= h < holes.len() ==> hole_drifted(holes[h], #[trigger] holes_written(holes, dataset, originals, written)[h], is_captured(originals, dataset, h)),
    decreases originals.len(),
{
    if originals.len() > 0 {
        let less = originals.drop_last();
        lemma_written_holes(holes, dataset, less, written);
        let before = holes_written(holes, dataset, less, written);
        let now = holes_written(holes, dataset, originals, written);
        assert forall|h: int| 0 <= h < holes.len() implies hole_drifted(holes[h], #[trigger] now[h], is_captured(originals, dataset, h)) by {
            assert(hole_drifted(holes[h], before[h], is_captured(less, dataset, h)));
            if is_captured(less, dataset, h) {
                let k = choose|k: int| 0 <= k < less.len() && (#[trigger] less[k]).target.dataset == dataset && less[k].target.hole == h;
                assert(originals[k] == less[k]);
            }
            assert(originals[originals.len() - 1] == originals.last());
        }
    }
}

/// Showing a gesture moves captured holes alone: whatever it is shown with, of
/// everything else the datasets stay as they were when it began.
pub proof fn law_gesture_moves_captured_only(
    start: Seq<OpenDrillHoleDataset>,
    now: Seq<OpenDrillHoleDataset>,
    next: Seq<OpenDrillHoleDataset>,
    originals: Seq<CapturedHole>,
    written: Seq<HolePlacement>,
)
    requires
        datasets_drifted(start, now, originals),
        written.len() == originals.len(),
        collars_written(now, next, originals, written),
    ensures
        datasets_drifted(start, next, originals),
{
    assert forall|d: int| 0 <= d < start.len() implies dataset_drifted(start[d], #[trigger] next[d], originals) by {
        assert(dataset_drifted(start[d], now[d], originals));
        assert(dataset_written(now[d], next[d], originals, written));
        if captured_from(originals, start[d].id) {
            lemma_written_holes(now[d].holes@, now[d].id, originals, written);
            let (a, b, c) = (start[d].holes@, now[d].holes@, next[d].holes@);
            assert forall|h: int| 0 <= h < a.len() implies hole_drifted(a[h], #[trigger] c[h], is_captured(originals, start[d].id, h)) by {
                assert(hole_drifted(a[h], b[h], is_captured(originals, start[d].id, h)));
                assert(hole_drifted(b[h], holes_written(b, now[d].id, originals, written)[h], is_captured(originals, now[d].id, h)));
            }
        }
    }
}

proof fn lemma_captured(datasets: Seq<OpenDrillHoleDataset>, targets: Seq<HoleRef>)
    ensures
        forall|k: int|
            0 <= k < captured(datasets, targets).len() ==> placement_at(datasets, (#[trigger] captured(datasets, targets)[k]).target) == Some(
                captured(datasets, targets)[k].placement,
            ),
    decreases targets.len(),
{
    if targets.len() > 0 {
        lemma_captured(datasets, targets.drop_last());
        let before = captured(datasets, targets.drop_last());
        let now = captured(datasets, targets);
        assert forall|k: int| 0 <= k < now.len() implies placement_at(datasets, (#[trigger] now[k]).target) == Some(now[k].placement) by {
            if k < before.len() {
                assert(now[k] == before[k]);
            }
        }
    }
}

/// Written back, every captured hole stands where it was captured.
proof fn lemma_written_back(datasets: Seq<OpenDrillHoleDataset>, d: int, holes: Seq<DrillHole>, originals: Seq<CapturedHole>, written: Seq<HolePlacement>)
    requires
        datasets_apart(datasets),
        0 <= d < datasets.len(),
        holes.len() == datasets[d].holes@.len(),
        originals.len() <= written.len(),
        forall|k: int| 0 <= k < originals.len() ==> placement_at(datasets, (#[trigger] originals[k]).target) == Some(written[k]),
    ensures
        forall|h: int|
            0 <= h < holes.len() ==> (#[trigger] holes_written(holes, datasets[d].id, originals, written)[h]).placement == if is_captured(
                originals,
                datasets[d].id,
                h,
            ) {
                datasets[d].holes@[h].placement
            } else {
                holes[h].placement
            },
    decreases originals.len(),
{
    let id = datasets[d].id;
    lemma_written_holes(holes, id, originals, written);
    if originals.len() > 0 {
        let less = originals.drop_last();
        assert forall|k: int| 0 <= k < less.len() implies placement_at(datasets, (#[trigger] less[k]).target) == Some(written[k]) by {
            assert(less[k] == originals[k]);
        }
        lemma_written_back(datasets, d, holes, less, written);
        lemma_written_holes(holes, id, less, written);
        let before = holes_written(holes, id, less, written);
        let now = holes_written(holes, id, originals, written);
        let last = originals[originals.len() - 1];
        lemma_first_index(datasets, |x: OpenDrillHoleDataset| x.id == id);
        if dataset_index(datasets, id) < d {
            assert(datasets[dataset_index(datasets, id)].id != datasets[d].id);
        }
        assert(dataset_index(datasets, id) == d);
        assert forall|h: int| 0 <= h < holes.len() implies (#[trigger] now[h]).placement == if is_captured(originals, id, h) {
            datasets[d].holes@[h].placement
        } else {
            holes[h].placement
        } by {
            assert(before[h].placement == if is_captured(less, id, h) {
                datasets[d].holes@[h].placement
            } else {
                holes[h].placement
            });
            if is_captured(less, id, h) {
                let k = choose|k: int| 0 <= k < less.len() && (#[trigger] less[k]).target.dataset == id && less[k].target.hole == h;
                assert(originals[k] == less[k]);
            }
            if is_captured(originals, id, h) && !is_captured(less, id, h) {
                let k = choose|k: int| 0 <= k < originals.len() && (#[trigger] originals[k]).target.dataset == id && originals[k].target.hole == h;
                if k < less.len() {
                    assert(less[k] == originals[k]);
                }
            }
            assert(placement_at(datasets, last.target) == Some(written[originals.len() - 1]));
        }
    }
}

/// The counter of the dataset is among the remembered ones.
pub open spec fn is_marked(epochs: Seq<DatasetMark>, id: DrillHoleId) -> bool {
    exists|k: int| 0 <= k < epochs.len() && (#[trigger] epochs[k]).id == id
}

proof fn lemma_captured_epochs(datasets: Seq<OpenDrillHoleDataset>, originals: Seq<CapturedHole>)
    requires
        datasets_apart(datasets),
    ensures
        forall|k: int|
            0 <= k < captured_epochs(datasets, originals).len() ==> {
                let e = #[trigger] captured_epochs(datasets, originals)[k];
                let d = dataset_index(datasets, e.id);
                d < datasets.len() && e.epoch == datasets[d].state.epoch
            },
        forall|d: int|
            0 <= d < datasets.len() && captured_from(originals, (#[trigger] datasets[d]).id) ==> is_marked(
                captured_epochs(datasets, originals),
                datasets[d].id,
            ),
    decreases originals.len(),
{
    if originals.len() > 0 {
        let less = originals.drop_last();
        lemma_captured_epochs(datasets, less);
        let before = captured_epochs(datasets, less);
        let now = captured_epochs(datasets, originals);
        let id = originals.last().target.dataset;
        lemma_first_index(before, |e: DatasetMark| e.id == id);
        lemma_first_index(datasets, |x: OpenDrillHoleDataset| x.id == id);
        assert forall|k: int| 0 <= k < now.len() implies {
            let e = #[trigger] now[k];
            let d = dataset_index(datasets, e.id);
            d < datasets.len() && e.epoch == datasets[d].state.epoch
        } by {
            if k < before.len() {
                assert(now[k] == before[k]);
            }
        }
        assert forall|d: int| 0 <= d < datasets.len() && captured_from(originals, (#[trigger] datasets[d]).id) implies is_marked(now, datasets[d].id) by {
            if captured_from(less, datasets[d].id) {
                assert(is_marked(before, datasets[d].id));
                let k = choose|k: int| 0 <= k < before.len() && (#[trigger] before[k]).id == datasets[d].id;
                assert(now[k] == before[k]);
            } else {
                let k = choose|k: int| 0 <= k < originals.len() && (#[trigger] originals[k]).target.dataset == datasets[d].id;
                if k < less.len() {
                    assert(less[k] == originals[k]);
                }
                assert(id == datasets[d].id);
                let i = first_index(before, |e: DatasetMark| e.id == id);
                if i < before.len() {
                    assert(now[i].id == id);
                } else {
                    assert(now[before.len() as int].id == id);
                }
            }
        }
    }
}

/// Once counters were put back: a remembered one is as it was remembered, any
/// other as it was.
proof fn lemma_marks_restored(list: Seq<DatasetMark>, epochs: Seq<DatasetMark>, was: Seq<DatasetMark>)
    requires
        was.len() == list.len(),
        forall|i: int| 0 <= i < list.len() ==> (#[trigger] list[i]).id == was[i].id,
        forall|i: int, j: int| 0 <= i < j < list.len() ==> (#[trigger] was[i]).id != (#[trigger] was[j]).id,
        forall|k: int, i: int| 0 <= k < epochs.len() && 0 <= i < was.len() && (#[trigger] epochs[k]).id == (#[trigger] was[i]).id ==> epochs[k] == was[i],
    ensures
        marks_restored(list, epochs).len() == list.len(),
        forall|i: int|
            0 <= i < list.len() ==> #[trigger] marks_restored(list, epochs)[i] == if is_marked(epochs, was[i].id) {
                was[i]
            } else {
                list[i]
            },
    decreases epochs.len(),
{
    if epochs.len() > 0 {
        let less = epochs.drop_last();
        assert forall|k: int, i: int| 0 <= k < less.len() && 0 <= i < was.len() && (#[trigger] less[k]).id == (#[trigger] was[i]).id implies less[k] == was[i] by {
            assert(less[k] == epochs[k]);
        }
        lemma_marks_restored(list, less, was);
        let before = marks_restored(list, less);
        let now = marks_restored(list, epochs);
        let e = epochs[epochs.len() - 1];
        lemma_first_index(before, |m: DatasetMark| m.id == e.id);
        let at = first_index(before, |m: DatasetMark| m.id == e.id);
        assert forall|i: int| 0 <= i < list.len() implies #[trigger] now[i] == if is_marked(epochs, was[i].id) {
            was[i]
        } else {
            list[i]
        } by {
            assert(before[i] == if is_marked(less, was[i].id) {
                was[i]
            } else {
                list[i]
            });
            assert(before[i].id == was[i].id);
            if is_marked(less, was[i].id) {
                let k = choose|k: int| 0 <= k < less.len() && (#[trigger] less[k]).id == was[i].id;
                assert(epochs[k] == less[k]);
            }
            if is_marked(epochs, was[i].id) && !is_marked(less, was[i].id) {
                let k = choose|k: int| 0 <= k < epochs.len() && (#[trigger] epochs[k]).id == was[i].id;
                if k < less.len() {
                    assert(less[k] == epochs[k]);
                }
                assert(e.id == was[i].id);
                assert(at <= i);
                if at < i {
                    assert(before[at] == if is_marked(less, was[at].id) {
                        was[at]
                    } else {
                        list[at]
                    });
                    assert(was[at].id != was[i].id);
                }
            }
            if e.id == was[i].id {
                assert(is_marked(epochs, was[i].id));
            }
        }
    }
}

/// The bounds of every dataset are those of its holes.
pub open spec fn bounds_fresh(s: Seq<OpenDrillHoleDataset>) -> bool {
    forall|d: int| 0 <= d < s.len() ==> (#[trigger] s[d]).bounds == extent_of(s[d].holes@)
}

/// A collar gesture that is put down leaves every dataset as it was when the
/// gesture began, its bounds and its counter too, whatever was shown meanwhile.
pub proof fn law_cancel_puts_collars_back(
    start: Seq<OpenDrillHoleDataset>,
    now: Seq<OpenDrillHoleDataset>,
    post: Seq<OpenDrillHoleDataset>,
    targets: Seq<HoleRef>,
    session: CollarMoveSession,
)
    requires
        datasets_apart(start),
        bounds_fresh(start),
        session.originals@ == captured(start, targets),
        session.epochs@ == captured_epochs(start, session.originals@),
        datasets_drifted(start, now, session.originals@),
        collars_restored(now, post, session),
    ensures
        same_datasets(start, post),
{
    let originals = session.originals@;
    let written = placements(originals);
    let mid = choose|mid: Seq<OpenDrillHoleDataset>| #[trigger]
        collars_written(now, mid, originals, written) && same_but_epochs(mid, post) && marks(post) == marks_restored(marks(mid), session.epochs@);
    lemma_captured(start, targets);
    lemma_captured_epochs(start, originals);
    assert forall|k: int| 0 <= k < originals.len() implies placement_at(start, (#[trigger] originals[k]).target) == Some(written[k]) by {
        assert(written[k] == originals[k].placement);
    }
    law_gesture_moves_captured_only(start, now, mid, originals, written);
    let was = marks(start);
    assert forall|i: int| 0 <= i < start.len() implies (#[trigger] marks(mid)[i]).id == was[i].id by {
        assert(dataset_drifted(start[i], mid[i], originals));
    }
    assert forall|i: int, j: int| 0 <= i < j < was.len() implies (#[trigger] was[i]).id != (#[trigger] was[j]).id by {
        assert(start[i].id != start[j].id);
    }
    assert forall|k: int, i: int| 0 <= k < session.epochs@.len() && 0 <= i < was.len() && (#[trigger] session.epochs@[k]).id == (#[trigger] was[i]).id implies session.epochs@[k]
        == was[i] by {
        let e = session.epochs@[k];
        let d = dataset_index(start, e.id);
        lemma_first_index(start, |x: OpenDrillHoleDataset| x.id == e.id);
        if d < i {
            assert(start[d].id != start[i].id);
        }
        assert(start[i].id == e.id);
        assert(d == i);
    }
    lemma_marks_restored(marks(mid), session.epochs@, was);
    assert forall|d: int| 0 <= d < start.len() implies (#[trigger] post[d]).holes@ == start[d].holes@ && post[d] == (OpenDrillHoleDataset {
        holes: post[d].holes,
        ..start[d]
    }) by {
        assert(dataset_drifted(start[d], now[d], originals));
        assert(dataset_written(now[d], mid[d], originals, written));
        assert(dataset_drifted(start[d], mid[d], originals));
        assert(marks(post)[d].epoch == post[d].state.epoch);
        assert(marks(mid)[d].epoch == mid[d].state.epoch);
        if captured_from(originals, start[d].id) {
            lemma_written_back(start, d, now[d].holes@, originals, written);
            assert(is_marked(session.epochs@, was[d].id));
            assert(marks(post)[d] == was[d]);
            let (a, b, c) = (start[d].holes@, now[d].holes@, mid[d].holes@);
            assert forall|h: int| 0 <= h < a.len() implies #[trigger] c[h] == a[h] by {
                assert(hole_drifted(a[h], b[h], is_captured(originals, start[d].id, h)));
                assert(hole_drifted(a[h], c[h], is_captured(originals, start[d].id, h)));
                assert(holes_written(b, start[d].id, originals, written)[h] == c[h]);
            }
            assert(c =~= a);
        } else if is_marked(session.epochs@, was[d].id) {
            assert(marks(post)[d] == was[d]);
        } else {
            assert(marks(post)[d] == marks(mid)[d]);
        }
    }
}

/// The list holds the object at the place of its id.
proof fn lemma_put_back(models: Seq<ObjectModel>, objects: Seq<ObjectModel>, start: Seq<ObjectModel>)
    requires
        models.len() == start.len(),
        forall|i: int| 0 <= i < start.len() ==> (#[trigger] models[i]).id() == start[i].id(),
        forall|i: int, j: int| 0 <= i < j < start.len() ==> (#[trigger] start[i]).id() != (#[trigger] start[j]).id(),
        forall|k: int| 0 <= k < objects.len() ==> start.contains(#[trigger] objects[k]),
    ensures
        replaced_all(models, objects).len() == start.len(),
        forall|i: int|
            0 <= i < start.len() ==> #[trigger] replaced_all(models, objects)[i] == if objects.contains(start[i]) {
                start[i]
            } else {
                models[i]
            },
    decreases objects.len(),
{
    lemma_replaced_ids(models, objects);
    if objects.len() > 0 {
        let less = objects.drop_last();
        assert forall|k: int| 0 <= k < less.len() implies start.contains(#[trigger] less[k]) by {
            assert(less[k] == objects[k]);
        }
        lemma_put_back(models, less, start);
        let before = replaced_all(models, less);
        let o = objects[objects.len() - 1];
        lemma_replaced_ids(models, less);
        lemma_first_index(before, |m: ObjectModel| m.id() == o.id());
        let at = model_index(before, o.id());
        assert(start.contains(o));
        let home = choose|i: int| 0 <= i < start.len() && start[i] == o;
        assert(before[home].id() == o.id());
        assert(at <= home);
        if at < home {
            assert(before[at].id() == models[at].id());
            assert(start[at].id() != start[home].id());
        }
        assert(at == home);
        let now = replaced_all(models, objects);
        assert forall|i: int| 0 <= i < start.len() implies #[trigger] now[i] == if objects.contains(start[i]) {
            start[i]
        } else {
            models[i]
        } by {
            assert(before[i] == if less.contains(start[i]) {
                start[i]
            } else {
                models[i]
            });
            if less.contains(start[i]) {
                let k = choose|k: int| 0 <= k < less.len() && less[k] == start[i];
                assert(objects[k] == start[i]);
            }
            if objects.contains(start[i]) && !less.contains(start[i]) {
                let k = choose|k: int| 0 <= k < objects.len() && objects[k] == start[i];
                if k < less.len() {
                    assert(less[k] == start[i]);
                }
                assert(start[i] == o);
                if i != home {
                    assert(start[i].id() != start[home].id() || start[home].id() != start[i].id());
                }
            }
            if i == home {
                assert(objects.contains(start[i]));
            }
        }
    }
}

/// A design move that is put down leaves every object as it was when the move
/// began, whatever the captured ones were shown as meanwhile.
pub proof fn law_cancel_puts_objects_back(start: Seq<ObjectModel>, now: Seq<ObjectModel>, originals: Seq<ObjectModel>)
    requires
        forall|i: int, j: int| 0 <= i < j < start.len() ==> (#[trigger] start[i]).id() != (#[trigger] start[j]).id(),
        forall|k: int| 0 <= k < originals.len() ==> start.contains(#[trigger] originals[k]),
        now.len() == start.len(),
        forall|i: int| 0 <= i < start.len() ==> (#[trigger] now[i]).id() == start[i].id(),
        forall|i: int| 0 <= i < start.len() && !originals.contains(start[i]) ==> #[trigger] now[i] == start[i],
    ensures
        replaced_all(now, originals) == start,
{
    lemma_put_back(now, originals, start);
    assert(replaced_all(now, originals) =~= start);
}

/// One of the objects has the id.
pub open spec fn has_object(objects: Seq<ObjectModel>, id: ObjectId) -> bool {
    exists|k: int| 0 <= k < objects.len() && (#[trigger] objects[k]).id() == id
}

/// No two objects have one id.
pub open spec fn objects_apart(s: Seq<ObjectModel>) -> bool {
    forall|i: int, j: int| 0 <= i < j < s.len() ==> (#[trigger] s[i]).id() != (#[trigger] s[j]).id()
}

/// Objects of which those that were taken may have changed, but for their ids.
pub open spec fn objects_drifted(start: Seq<ObjectModel>, now: Seq<ObjectModel>, taken: Seq<ObjectModel>) -> bool {
    &&& now.len() == start.len()
    &&& forall|i: int| 0 <= i < start.len() ==> (#[trigger] now[i]).id() == start[i].id()
    &&& forall|i: int| 0 <= i < start.len() && !has_object(taken, start[i].id()) ==> #[trigger] now[i] == start[i]
}

/// A workspace as a move may have left it while it stands: of one project the
/// captured objects may have changed, and nothing else.
pub open spec fn design_drifted(start: Workspace, now: Workspace, runtime_id: u32, taken: Seq<ObjectModel>) -> bool {
    let i = index_of_runtime(start.projects@, runtime_id);
    &&& now == (Workspace { projects: now.projects, ..start })
    &&& now.projects@.len() == start.projects@.len()
    &&& forall|j: int| 0 <= j < start.projects@.len() && j != i ==> #[trigger] now.projects@[j] == start.projects@[j]
    &&& i < start.projects@.len() ==> project_drifted(start.projects@[i], now.projects@[i], taken)
}

/// A project of which the captured objects may have changed.
pub open spec fn project_drifted(a: OpenProject, b: OpenProject, taken: Seq<ObjectModel>) -> bool {
    &&& b == (OpenProject { document: b.document, ..a })
    &&& b.document == (Document { objects: b.document.objects, ..a.document })
    &&& objects_drifted(object_models(a.document.objects@), object_models(b.document.objects@), taken)
}

proof fn lemma_others_kept(models: Seq<ObjectModel>, objects: Seq<ObjectModel>, i: int)
    requires
        0 <= i < models.len(),
        !has_object(objects, models[i].id()),
    ensures
        replaced_all(models, objects).len() == models.len(),
        replaced_all(models, objects)[i] == models[i],
    decreases objects.len(),
{
    lemma_replaced_ids(models, objects);
    if objects.len() > 0 {
        let less = objects.drop_last();
        if has_object(less, models[i].id()) {
            let k = choose|k: int| 0 <= k < less.len() && (#[trigger] less[k]).id() == models[i].id();
            assert(objects[k].id() == models[i].id());
        }
        lemma_others_kept(models, less, i);
        let before = replaced_all(models, less);
        let o = objects[objects.len() - 1];
        lemma_first_index(before, |m: ObjectModel| m.id() == o.id());
        assert(o.id() != models[i].id());
    }
}

proof fn lemma_runtime_index(a: Seq<OpenProject>, b: Seq<OpenProject>, runtime_id: u32)
    requires
        a.len() == b.len(),
        forall|j: int| 0 <= j < a.len() ==> (#[trigger] b[j]).runtime_id == a[j].runtime_id,
    ensures
        index_of_runtime(a, runtime_id) == index_of_runtime(b, runtime_id),
{
    let f = |p: OpenProject| p.runtime_id == runtime_id;
    lemma_first_index(a, f);
    lemma_first_index(b, f);
    let (i, k) = (first_index(a, f), first_index(b, f));
    if i < k {
        assert(f(b[i]));
    }
    if k < i {
        assert(b[k].runtime_id == a[k].runtime_id);
        assert(f(a[k]));
    }
}

proof fn lemma_drift_keeps_runtime(start: Workspace, now: Workspace, runtime_id: u32, taken: Seq<ObjectModel>)
    requires
        design_drifted(start, now, runtime_id, taken),
    ensures
        index_of_runtime(now.projects@, runtime_id) == index_of_runtime(start.projects@, runtime_id),
        0 <= index_of_runtime(start.projects@, runtime_id) <= start.projects@.len(),
{
    lemma_first_index(start.projects@, |p: OpenProject| p.runtime_id == runtime_id);
    let i = index_of_runtime(start.projects@, runtime_id);
    assert forall|j: int| 0 <= j < start.projects@.len() implies (#[trigger] now.projects@[j]).runtime_id == start.projects@[j].runtime_id by {
        if j == i {
            assert(project_drifted(start.projects@[i], now.projects@[i], taken));
        }
    }
    lemma_runtime_index(start.projects@, now.projects@, runtime_id);
}

/// Showing a move changes captured objects alone, as often as it is shown and
/// whatever it shows them as.
pub proof fn law_move_changes_captured_only(
    start: Workspace,
    now: Workspace,
    next: Workspace,
    runtime_id: u32,
    taken: Seq<ObjectModel>,
    shown: Seq<ObjectModel>,
)
    requires
        design_drifted(start, now, runtime_id, taken),
        forall|k: int| 0 <= k < shown.len() ==> has_object(taken, (#[trigger] shown[k]).id()),
        design_written(now, next, runtime_id, shown),
    ensures
        design_drifted(start, next, runtime_id, taken),
{
    lemma_drift_keeps_runtime(start, now, runtime_id, taken);
    let i = index_of_runtime(start.projects@, runtime_id);
    if i < start.projects@.len() {
        let (a, b, c) = (start.projects@[i], now.projects@[i], next.projects@[i]);
        let (was, is, then) = (object_models(a.document.objects@), object_models(b.document.objects@), object_models(c.document.objects@));
        lemma_replaced_ids(is, shown);
        assert forall|k: int| 0 <= k < was.len() implies (#[trigger] then[k]).id() == was[k].id() by {
            assert(is[k].id() == was[k].id());
        }
        assert forall|k: int| 0 <= k < was.len() && !has_object(taken, was[k].id()) implies #[trigger] then[k] == was[k] by {
            assert(is[k] == was[k]);
            if has_object(shown, is[k].id()) {
                let m = choose|m: int| 0 <= m < shown.len() && (#[trigger] shown[m]).id() == is[k].id();
                assert(has_object(taken, shown[m].id()));
            }
            lemma_others_kept(is, shown, k);
        }
        assert(project_drifted(a, c, taken));
    }
}

/// However often a move is shown, and wherever it is said to lead, nothing but
/// the captured objects changes: what restoring them gives back is all.
pub proof fn law_previews_change_captured_only(
    start: Workspace,
    now: Workspace,
    next: Workspace,
    session: MoveSession,
    aim: Option<(ObjectId, ObjectPoint)>,
    told: Seq<ShiftedPoints>,
)
    requires
        design_drifted(start, now, session.project_runtime_id, object_models(session.originals@)),
        design_written(now, next, session.project_runtime_id, shown_objects(object_models(session.originals@), aim, told)),
    ensures
        design_drifted(start, next, session.project_runtime_id, object_models(session.originals@)),
{
    let taken = object_models(session.originals@);
    let shown = shown_objects(taken, aim, told);
    assert forall|k: int| 0 <= k < shown.len() implies has_object(taken, (#[trigger] shown[k]).id()) by {
        law_shown_objects_are_the_captured(taken, aim, told, k);
        assert(taken[k].id() == shown[k].id());
    }
    law_move_changes_captured_only(start, now, next, session.project_runtime_id, taken, shown);
}

proof fn lemma_captured_objects(d: Document, ids: Seq<ObjectId>, k: int)
    requires
        0 <= k < captured_objects(d, ids).len(),
    ensures
        object_models(d.objects@).contains(captured_objects(d, ids)[k]),
    decreases ids.len(),
{
    if ids.len() > 0 {
        let before = captured_objects(d, ids.drop_last());
        if k < before.len() {
            lemma_captured_objects(d, ids.drop_last(), k);
        } else {
            let id = ids.last();
            lemma_first_index(d.objects@, |o: Object| o@.id() == id);
            let at = object_index(d.objects@, id);
            assert(object_models(d.objects@)[at] == d.objects@[at]@);
        }
    }
}

/// Restoring a move gives every captured object back: whatever was shown since
/// the capture, the project holds again just the objects that it held, and
/// nothing else has changed. Without a move nothing changes.
pub proof fn law_restore_gives_objects_back(start: Workspace, now: Workspace, post: Workspace, session: MoveSession, ids: Seq<ObjectId>)
    requires
        index_of_runtime(start.projects@, session.project_runtime_id) < start.projects@.len(),
        objects_apart(object_models(start.projects@[index_of_runtime(start.projects@, session.project_runtime_id)].document.objects@)),
        object_models(session.originals@) == captured_objects(
            start.projects@[index_of_runtime(start.projects@, session.project_runtime_id)].document,
            ids,
        ),
        design_drifted(start, now, session.project_runtime_id, object_models(session.originals@)),
        design_put_back(now, post, Some(session)),
    ensures
        ({
            let i = index_of_runtime(start.projects@, session.project_runtime_id);
            let (a, b) = (start.projects@[i], post.projects@[i]);
            &&& object_models(b.document.objects@) == object_models(a.document.objects@)
            &&& b == (OpenProject { document: Document { objects: b.document.objects, ..a.document }, ..a })
            &&& post == (Workspace { projects: post.projects, ..start })
            &&& post.projects@.len() == start.projects@.len()
            &&& forall|j: int| 0 <= j < start.projects@.len() && j != i ==> #[trigger] post.projects@[j] == start.projects@[j]
        }),
        forall|w: Workspace| #[trigger] design_put_back(now, w, None) ==> w == now,
{
    let id = session.project_runtime_id;
    let i = index_of_runtime(start.projects@, id);
    let taken = object_models(session.originals@);
    lemma_drift_keeps_runtime(start, now, id, taken);
    let (a, b) = (start.projects@[i], now.projects@[i]);
    let (was, is) = (object_models(a.document.objects@), object_models(b.document.objects@));
    assert forall|k: int| 0 <= k < taken.len() implies was.contains(#[trigger] taken[k]) by {
        lemma_captured_objects(a.document, ids, k);
    }
    assert forall|k: int| 0 <= k < was.len() && !taken.contains(was[k]) implies #[trigger] is[k] == was[k] by {
        if has_object(taken, was[k].id()) {
            let m = choose|m: int| 0 <= m < taken.len() && (#[trigger] taken[m]).id() == was[k].id();
            assert(was.contains(taken[m]));
            let h = choose|h: int| 0 <= h < was.len() && was[h] == taken[m];
            if h < k {
                assert(was[h].id() != was[k].id());
            } else if k < h {
                assert(was[k].id() != was[h].id());
            }
            assert(taken.contains(was[k]));
        }
    }
    law_cancel_puts_objects_back(was, is, taken);
}

} // verus!
