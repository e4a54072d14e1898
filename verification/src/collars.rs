//! Capturing, writing and restoring the collars that a gesture holds.

use crate::ids::{DrillHoleId, HoleRef};
use crate::ieee::{f64_less, less64, Point3};
use crate::items::{dataset_index, Bounds, DrillHole, HolePlacement, ItemState, Items, OpenDrillHoleDataset};
use crate::search::{find_first, first_index, lemma_first_index};
use crate::state::{CapturedHole, CollarMoveSession, DatasetMark};
use vstd::prelude::*;

verus! {

/// The hole comes before the other: by dataset, then by place in it.
pub open spec fn hole_before(a: HoleRef, b: HoleRef) -> bool {
    a.dataset.0 < b.dataset.0 || (a.dataset.0 == b.dataset.0 && a.hole < b.hole)
}

/// The list with the hole put in before the first that comes after it.
pub open spec fn with_hole(sorted: Seq<HoleRef>, h: HoleRef) -> Seq<HoleRef> {
    sorted.insert(first_index(sorted, |x: HoleRef| hole_before(h, x)), h)
}

/// The holes in order.
pub open spec fn sorted_holes(holes: Seq<HoleRef>) -> Seq<HoleRef>
    decreases holes.len(),
{
    if holes.len() == 0 {
        holes
    } else {
        with_hole(sorted_holes(holes.drop_last()), holes.last())
    }
}

/// Every hole comes before, or is, each of those behind it.
pub open spec fn in_order(holes: Seq<HoleRef>) -> bool {
    forall|i: int, j: int| 0 <= i < j < holes.len() ==> !hole_before(#[trigger] holes[j], #[trigger] holes[i])
}

/// Sorting orders the holes, and neither loses nor adds one.
pub proof fn law_sorted_holes(holes: Seq<HoleRef>)
    ensures
        in_order(sorted_holes(holes)),
        sorted_holes(holes).len() == holes.len(),
        forall|h: HoleRef| sorted_holes(holes).contains(h) <==> holes.contains(h),
    decreases holes.len(),
{
    if holes.len() > 0 {
        let front = holes.drop_last();
        let h = holes.last();
        law_sorted_holes(front);
        let s = sorted_holes(front);
        let after = |x: HoleRef| hole_before(h, x);
        lemma_first_index(s, after);
        let p = first_index(s, after);
        let r = s.insert(p, h);
        assert(r == sorted_holes(holes));
        assert forall|i: int, j: int| 0 <= i < j < r.len() implies !hole_before(#[trigger] r[j], #[trigger] r[i]) by {
            if p < s.len() && i == p && j > p {
                assert(after(s[p]));
                assert(p <= j - 1);
                if p < j - 1 {
                    assert(!hole_before(s[j - 1], s[p]));
                }
            }
        }
        assert forall|k: HoleRef| r.contains(k) <==> holes.contains(k) by {
            if r.contains(k) {
                let i = choose|i: int| 0 <= i < r.len() && r[i] == k;
                if i < p {
                    assert(s[i] == k);
                    assert(s.contains(k));
                } else if i > p {
                    assert(s[i - 1] == k);
                    assert(s.contains(k));
                }
                if s.contains(k) {
                    assert(front.contains(k));
                    let q = choose|q: int| 0 <= q < front.len() && front[q] == k;
                    assert(holes[q] == k);
                }
                assert(holes[holes.len() - 1] == h);
            }
            if holes.contains(k) {
                let q = choose|q: int| 0 <= q < holes.len() && holes[q] == k;
                if q < front.len() {
                    assert(front[q] == k);
                    assert(front.contains(k));
                    assert(s.contains(k));
                    let i = choose|i: int| 0 <= i < s.len() && s[i] == k;
                    if i < p {
                        assert(r[i] == k);
                    } else {
                        assert(r[i + 1] == k);
                    }
                } else {
                    assert(r[p] == k);
                }
            }
        }
    }
}

/// A loaded dataset has the hole.
pub open spec fn live_hole(datasets: Seq<OpenDrillHoleDataset>, target: HoleRef) -> bool {
    exists|d: int|
        0 <= d < datasets.len() && (#[trigger] datasets[d]).id == target.dataset && datasets[d].state.loaded && target.hole < datasets[d].holes@.len()
}

/// The selected holes that a loaded dataset has, in order.
pub open spec fn targets_of(datasets: Seq<OpenDrillHoleDataset>, selected: Seq<HoleRef>) -> Seq<HoleRef> {
    sorted_holes(selected.filter(|h: HoleRef| live_hole(datasets, h)))
}

/// Whether a loaded dataset has the hole.
pub fn hole_is_live(items: &Items, target: HoleRef) -> (r: bool)
    ensures
        r == live_hole(items.drill_holes@, target),
{
    let fits = Ghost(|d: OpenDrillHoleDataset| d.id == target.dataset && d.state.loaded && target.hole < d.holes@.len());
    let found = find_first(&items.drill_holes, fits, |d: &OpenDrillHoleDataset| -> (b: bool)
        ensures
            b == (d.id == target.dataset && d.state.loaded && target.hole < d.holes@.len()),
        { d.id == target.dataset && d.state.loaded && target.hole < d.holes.len() });
    found.is_some()
}

/// The selected holes that a loaded dataset has, in order.
pub fn collect_targets(items: &Items, selected: &Vec<HoleRef>) -> (r: Vec<HoleRef>)
    ensures
        r@ == targets_of(items.drill_holes@, selected@),
{
    let ghost live = |h: HoleRef| live_hole(items.drill_holes@, h);
    let mut r: Vec<HoleRef> = Vec::new();
    let mut i: usize = 0;
    assert(selected@.take(0).filter(live) =~= Seq::<HoleRef>::empty()) by {
        reveal(Seq::filter);
    }
    while i < selected.len()
        invariant
            i <= selected.len(),
            live == (|h: HoleRef| live_hole(items.drill_holes@, h)),
            r@ == sorted_holes(selected@.take(i as int).filter(live)),
        decreases selected.len() - i,
    {
        let h = selected[i];
        let ghost kept = selected@.take(i as int).filter(live);
        proof {
            assert(selected@.take(i + 1).drop_last() =~= selected@.take(i as int));
            reveal(Seq::filter);
        }
        if hole_is_live(items, h) {
            let at: usize = match find_first(&r, Ghost(|x: HoleRef| hole_before(h, x)), |x: &HoleRef| -> (b: bool)
                ensures
                    b == hole_before(h, *x),
                { h.dataset.0 < x.dataset.0 || (h.dataset.0 == x.dataset.0 && h.hole < x.hole) }) {
                Some(p) => p,
                None => r.len(),
            };
            r.insert(at, h);
            assert(kept.push(h).drop_last() =~= kept);
        }
        i += 1;
    }
    assert(selected@.take(selected@.len() as int) =~= selected@);
    r
}

/// The content counter after one more change.
pub open spec fn epoch_after(epoch: u64) -> u64 {
    if epoch < u64::MAX {
        (epoch + 1) as u64
    } else {
        0
    }
}

impl ItemState {
    /// Counts one more change to the content.
    pub fn touch(&mut self)
        ensures
            *final(self) == (ItemState { epoch: epoch_after(old(self).epoch), ..*old(self) }),
    {
        self.epoch = if self.epoch < u64::MAX {
            self.epoch + 1
        } else {
            0
        };
    }
}

/// The placements of a capture, apart from whose they are.
pub open spec fn placements(originals: Seq<CapturedHole>) -> Seq<HolePlacement> {
    originals.map_values(|o: CapturedHole| o.placement)
}

/// The holes of one dataset once those captured from it are written in turn.
pub open spec fn holes_written(
    holes: Seq<DrillHole>,
    dataset: DrillHoleId,
    originals: Seq<CapturedHole>,
    written: Seq<HolePlacement>,
) -> Seq<DrillHole>
    decreases originals.len(),
{
    if originals.len() == 0 {
        holes
    } else {
        let before = holes_written(holes, dataset, originals.drop_last(), written);
        let target = originals.last().target;
        if target.dataset == dataset && target.hole < before.len() {
            before.update(
                target.hole as int,
                DrillHole { placement: written[originals.len() - 1], ..before[target.hole as int] },
            )
        } else {
            before
        }
    }
}

/// Something was captured from the dataset.
pub open spec fn captured_from(originals: Seq<CapturedHole>, dataset: DrillHoleId) -> bool {
    exists|k: int| 0 <= k < originals.len() && (#[trigger] originals[k]).target.dataset == dataset
}

/// The lower of two numbers.
pub open spec fn lower(a: u64, b: u64) -> u64 {
    if f64_less(b, a) {
        b
    } else {
        a
    }
}

/// The higher of two numbers.
pub open spec fn higher(a: u64, b: u64) -> u64 {
    if f64_less(a, b) {
        b
    } else {
        a
    }
}

/// The box around two boxes.
pub open spec fn around(a: Option<Bounds>, b: Option<Bounds>) -> Option<Bounds> {
    match (a, b) {
        (Some(p), Some(q)) => Some(
            Bounds {
                min: Point3 { x: lower(p.min.x, q.min.x), y: lower(p.min.y, q.min.y), z: lower(p.min.z, q.min.z) },
                max: Point3 { x: higher(p.max.x, q.max.x), y: higher(p.max.y, q.max.y), z: higher(p.max.z, q.max.z) },
            },
        ),
        (Some(_), None) => a,
        (None, _) => b,
    }
}

/// The box around holes.
pub open spec fn extent_of(holes: Seq<DrillHole>) -> Option<Bounds>
    decreases holes.len(),
{
    if holes.len() == 0 {
        None
    } else {
        around(extent_of(holes.drop_last()), holes.last().placement.extent)
    }
}

fn lower_of(a: u64, b: u64) -> (r: u64)
    ensures
        r == lower(a, b),
{
    if less64(b, a) {
        b
    } else {
        a
    }
}

fn higher_of(a: u64, b: u64) -> (r: u64)
    ensures
        r == higher(a, b),
{
    if less64(a, b) {
        b
    } else {
        a
    }
}

/// The box around holes.
pub fn refresh_bounds(holes: &Vec<DrillHole>) -> (r: Option<Bounds>)
    ensures
        r == extent_of(holes@),
{
    let mut all: Option<Bounds> = None;
    let mut i: usize = 0;
    assert(holes@.take(0) =~= Seq::<DrillHole>::empty());
    while i < holes.len()
        invariant
            i <= holes.len(),
            all == extent_of(holes@.take(i as int)),
        decreases holes.len() - i,
    {
        assert(holes@.take(i + 1).drop_last() =~= holes@.take(i as int));
        let one = holes[i].placement.extent;
        all = match (all, one) {
            (Some(p), Some(q)) => Some(
                Bounds {
                    min: Point3 { x: lower_of(p.min.x, q.min.x), y: lower_of(p.min.y, q.min.y), z: lower_of(p.min.z, q.min.z) },
                    max: Point3 { x: higher_of(p.max.x, q.max.x), y: higher_of(p.max.y, q.max.y), z: higher_of(p.max.z, q.max.z) },
                },
            ),
            (Some(p), None) => Some(p),
            (None, other) => other,
        };
        i += 1;
    }
    assert(holes@.take(holes@.len() as int) =~= holes@);
    all
}

/// A dataset before and after the captured holes were written: untouched where
/// none is its own, else with those holes placed, its bounds found again and
/// its counter moved on.
pub open spec fn dataset_written(
    a: OpenDrillHoleDataset,
    b: OpenDrillHoleDataset,
    originals: Seq<CapturedHole>,
    written: Seq<HolePlacement>,
) -> bool {
    if captured_from(originals, a.id) {
        &&& b == (OpenDrillHoleDataset {
            holes: b.holes,
            bounds: extent_of(b.holes@),
            state: ItemState { epoch: epoch_after(a.state.epoch), ..a.state },
            ..a
        })
        &&& b.holes@ == holes_written(a.holes@, a.id, originals, written)
    } else {
        b == a
    }
}

/// Every dataset before and after the captured holes were written.
pub open spec fn collars_written(
    pre: Seq<OpenDrillHoleDataset>,
    post: Seq<OpenDrillHoleDataset>,
    originals: Seq<CapturedHole>,
    written: Seq<HolePlacement>,
) -> bool {
    &&& post.len() == pre.len()
    &&& forall|d: int| 0 <= d < pre.len() ==> dataset_written(pre[d], #[trigger] post[d], originals, written)
}

/// Whether something was captured from the dataset.
pub fn is_captured_from(originals: &Vec<CapturedHole>, dataset: DrillHoleId) -> (r: bool)
    ensures
        r == captured_from(originals@, dataset),
{
    let found = find_first(originals, Ghost(|o: CapturedHole| o.target.dataset == dataset), |o: &CapturedHole| -> (b: bool)
        ensures
            b == (o.target.dataset == dataset),
        { o.target.dataset == dataset });
    found.is_some()
}

/// Writes the captured holes of one dataset.
fn write_holes(holes: &mut Vec<DrillHole>, dataset: DrillHoleId, originals: &Vec<CapturedHole>, written: &Vec<HolePlacement>)
    requires
        written@.len() == originals@.len(),
    ensures
        final(holes)@ == holes_written(old(holes)@, dataset, originals@, written@),
{
    let mut i: usize = 0;
    assert(originals@.take(0) =~= Seq::<CapturedHole>::empty());
    while i < originals.len()
        invariant
            i <= originals.len(),
            written@.len() == originals@.len(),
            holes@ == holes_written(old(holes)@, dataset, originals@.take(i as int), written@),
        decreases originals.len() - i,
    {
        let target = originals[i].target;
        assert(originals@.take(i + 1).drop_last() =~= originals@.take(i as int));
        let n: usize = holes.len();
        let at: usize = target.hole;
        if target.dataset == dataset && n > at {
            let placement = written[i];
            holes[at].placement = placement;
        }
        i += 1;
    }
    assert(originals@.take(originals@.len() as int) =~= originals@);
}

/// Writes every captured hole.
pub fn write_datasets(datasets: &mut Vec<OpenDrillHoleDataset>, originals: &Vec<CapturedHole>, written: &Vec<HolePlacement>)
    requires
        written@.len() == originals@.len(),
    ensures
        collars_written(old(datasets)@, final(datasets)@, originals@, written@),
{
    let mut d: usize = 0;
    while d < datasets.len()
        invariant
            d <= datasets.len(),
            datasets.len() == old(datasets).len(),
            written@.len() == originals@.len(),
            forall|k: int| 0 <= k < d ==> dataset_written(old(datasets)@[k], #[trigger] datasets@[k], originals@, written@),
            forall|k: int| d <= k < datasets.len() ==> #[trigger] datasets@[k] == old(datasets)@[k],
        decreases datasets.len() - d,
    {
        let id = datasets[d].id;
        if is_captured_from(originals, id) {
            write_holes(&mut datasets[d].holes, id, originals, written);
            let bounds = refresh_bounds(&datasets[d].holes);
            datasets[d].bounds = bounds;
            datasets[d].state.touch();
        }
        d += 1;
    }
}

/// The datasets' ids with their counters.
pub open spec fn marks(datasets: Seq<OpenDrillHoleDataset>) -> Seq<DatasetMark> {
    datasets.map_values(|d: OpenDrillHoleDataset| DatasetMark { id: d.id, epoch: d.state.epoch })
}

/// The counters once each remembered one was put back in turn.
pub open spec fn marks_restored(marks: Seq<DatasetMark>, epochs: Seq<DatasetMark>) -> Seq<DatasetMark>
    decreases epochs.len(),
{
    if epochs.len() == 0 {
        marks
    } else {
        let before = marks_restored(marks, epochs.drop_last());
        let e = epochs.last();
        let i = first_index(before, |m: DatasetMark| m.id == e.id);
        if i < before.len() {
            before.update(i, e)
        } else {
            before
        }
    }
}

/// The datasets differ in their counters at most.
pub open spec fn same_but_epochs(pre: Seq<OpenDrillHoleDataset>, post: Seq<OpenDrillHoleDataset>) -> bool {
    &&& post.len() == pre.len()
    &&& forall|d: int|
        0 <= d < pre.len() ==> #[trigger] post[d] == (OpenDrillHoleDataset {
            state: ItemState { epoch: post[d].state.epoch, ..pre[d].state },
            ..pre[d]
        })
}

/// Puts the remembered counters back.
pub fn restore_epochs(datasets: &mut Vec<OpenDrillHoleDataset>, epochs: &Vec<DatasetMark>)
    ensures
        same_but_epochs(old(datasets)@, final(datasets)@),
        marks(final(datasets)@) == marks_restored(marks(old(datasets)@), epochs@),
{
    let mut i: usize = 0;
    assert(epochs@.take(0) =~= Seq::<DatasetMark>::empty());
    while i < epochs.len()
        invariant
            i <= epochs.len(),
            same_but_epochs(old(datasets)@, datasets@),
            marks(datasets@) == marks_restored(marks(old(datasets)@), epochs@.take(i as int)),
        decreases epochs.len() - i,
    {
        let id = epochs[i].id;
        let ghost before = datasets@;
        let found = find_first(datasets, Ghost(|d: OpenDrillHoleDataset| d.id == id), |d: &OpenDrillHoleDataset| -> (b: bool)
            ensures
                b == (d.id == id),
            { d.id == id });
        proof {
            assert(epochs@.take(i + 1).drop_last() =~= epochs@.take(i as int));
            lemma_mark_index(before, id);
        }
        match found {
            Some(d) => {
                datasets[d].state.epoch = epochs[i].epoch;
                assert(marks(datasets@) =~= marks(before).update(d as int, epochs@[i as int]));
            },
            None => {},
        }
        i += 1;
    }
    assert(epochs@.take(epochs@.len() as int) =~= epochs@);
}

/// A dataset stands at the same place among the datasets as among their marks.
pub proof fn lemma_mark_index(datasets: Seq<OpenDrillHoleDataset>, id: DrillHoleId)
    ensures
        first_index(marks(datasets), |m: DatasetMark| m.id == id) == dataset_index(datasets, id),
{
    let ms = marks(datasets);
    lemma_first_index(datasets, |d: OpenDrillHoleDataset| d.id == id);
    lemma_first_index(ms, |m: DatasetMark| m.id == id);
    let i = dataset_index(datasets, id);
    let k = first_index(ms, |m: DatasetMark| m.id == id);
    if i < k {
        assert(ms[i].id == id);
    }
    if k < i {
        assert(ms[k].id == datasets[k].id);
    }
}

/// The datasets before and after the capture was written back and its counters
/// restored.
pub open spec fn collars_restored(pre: Seq<OpenDrillHoleDataset>, post: Seq<OpenDrillHoleDataset>, session: CollarMoveSession) -> bool {
    exists|mid: Seq<OpenDrillHoleDataset>| #[trigger]
        collars_written(pre, mid, session.originals@, placements(session.originals@)) && same_but_epochs(mid, post) && marks(post) == marks_restored(
            marks(mid),
            session.epochs@,
        )
}

/// The placements of a capture, apart from whose they are.
pub fn placements_of(originals: &Vec<CapturedHole>) -> (r: Vec<HolePlacement>)
    ensures
        r@ == placements(originals@),
{
    let mut r: Vec<HolePlacement> = Vec::new();
    let mut i: usize = 0;
    while i < originals.len()
        invariant
            i <= originals.len(),
            r@.len() == i,
            forall|j: int| 0 <= j < i ==> #[trigger] r@[j] == originals@[j].placement,
        decreases originals.len() - i,
    {
        r.push(originals[i].placement);
        i += 1;
    }
    assert(r@ =~= placements(originals@));
    r
}

/// Where the hole stands in the first dataset with its id.
pub open spec fn placement_at(datasets: Seq<OpenDrillHoleDataset>, target: HoleRef) -> Option<HolePlacement> {
    let d = dataset_index(datasets, target.dataset);
    if d < datasets.len() && target.hole < datasets[d].holes@.len() {
        Some(datasets[d].holes@[target.hole as int].placement)
    } else {
        None
    }
}

/// The targets with where they stand, without those that are nowhere.
pub open spec fn captured(datasets: Seq<OpenDrillHoleDataset>, targets: Seq<HoleRef>) -> Seq<CapturedHole>
    decreases targets.len(),
{
    if targets.len() == 0 {
        Seq::empty()
    } else {
        let before = captured(datasets, targets.drop_last());
        match placement_at(datasets, targets.last()) {
            Some(p) => before.push(CapturedHole { target: targets.last(), placement: p }),
            None => before,
        }
    }
}

/// The counters of the datasets that something was captured from, each once.
pub open spec fn captured_epochs(datasets: Seq<OpenDrillHoleDataset>, originals: Seq<CapturedHole>) -> Seq<DatasetMark>
    decreases originals.len(),
{
    if originals.len() == 0 {
        Seq::empty()
    } else {
        let before = captured_epochs(datasets, originals.drop_last());
        let id = originals.last().target.dataset;
        let d = dataset_index(datasets, id);
        if first_index(before, |e: DatasetMark| e.id == id) < before.len() || d >= datasets.len() {
            before
        } else {
            before.push(DatasetMark { id, epoch: datasets[d].state.epoch })
        }
    }
}

/// Where the hole stands in the first dataset with its id.
pub fn find_placement(items: &Items, target: HoleRef) -> (r: Option<HolePlacement>)
    ensures
        r == placement_at(items.drill_holes@, target),
{
    match items.find_dataset(target.dataset) {
        Some(d) => {
            if target.hole < items.drill_holes[d].holes.len() {
                Some(items.drill_holes[d].holes[target.hole].placement)
            } else {
                None
            }
        },
        None => None,
    }
}

/// Captures the targets, and the counters of the datasets that they are in.
pub fn capture(items: &Items, targets: &Vec<HoleRef>, project_runtime_id: u32) -> (r: CollarMoveSession)
    ensures
        r.project_runtime_id == project_runtime_id,
        r.originals@ == captured(items.drill_holes@, targets@),
        r.epochs@ == captured_epochs(items.drill_holes@, r.originals@),
{
    let mut originals: Vec<CapturedHole> = Vec::new();
    let mut i: usize = 0;
    assert(targets@.take(0) =~= Seq::<HoleRef>::empty());
    while i < targets.len()
        invariant
            i <= targets.len(),
            originals@ == captured(items.drill_holes@, targets@.take(i as int)),
        decreases targets.len() - i,
    {
        assert(targets@.take(i + 1).drop_last() =~= targets@.take(i as int));
        match find_placement(items, targets[i]) {
            Some(p) => originals.push(CapturedHole { target: targets[i], placement: p }),
            None => {},
        }
        i += 1;
    }
    assert(targets@.take(targets@.len() as int) =~= targets@);
    let mut epochs: Vec<DatasetMark> = Vec::new();
    let mut k: usize = 0;
    assert(originals@.take(0) =~= Seq::<CapturedHole>::empty());
    while k < originals.len()
        invariant
            k <= originals.len(),
            epochs@ == captured_epochs(items.drill_holes@, originals@.take(k as int)),
        decreases originals.len() - k,
    {
        let id = originals[k].target.dataset;
        assert(originals@.take(k + 1).drop_last() =~= originals@.take(k as int));
        let known = find_first(&epochs, Ghost(|e: DatasetMark| e.id == id), |e: &DatasetMark| -> (b: bool)
            ensures
                b == (e.id == id),
            { e.id == id });
        if known.is_none() {
            match items.find_dataset(id) {
                Some(d) => epochs.push(DatasetMark { id: items.drill_holes[d].id, epoch: items.drill_holes[d].state.epoch }),
                None => {},
            }
        }
        k += 1;
    }
    assert(originals@.take(originals@.len() as int) =~= originals@);
    CollarMoveSession { project_runtime_id, originals, epochs }
}

/// The captured holes of one dataset, by their places in it.
pub struct CollarGroup {
    pub dataset: DrillHoleId,
    pub holes: Vec<(usize, HolePlacement)>,
}

/// What a group is.
pub ghost struct CollarGroupModel {
    pub dataset: DrillHoleId,
    pub holes: Seq<(usize, HolePlacement)>,
}

impl View for CollarGroup {
    type V = CollarGroupModel;

    open spec fn view(&self) -> CollarGroupModel {
        CollarGroupModel { dataset: self.dataset, holes: self.holes@ }
    }
}

/// What the groups of a list are.
pub open spec fn group_models(groups: Seq<CollarGroup>) -> Seq<CollarGroupModel> {
    groups.map_values(|g: CollarGroup| g@)
}

/// The groups with one more hole: in the group of its dataset, or in a new one.
pub open spec fn with_captured(groups: Seq<CollarGroupModel>, c: CapturedHole) -> Seq<CollarGroupModel> {
    let i = first_index(groups, |g: CollarGroupModel| g.dataset == c.target.dataset);
    if i < groups.len() {
        groups.update(i, CollarGroupModel { dataset: groups[i].dataset, holes: groups[i].holes.push((c.target.hole, c.placement)) })
    } else {
        groups.push(CollarGroupModel { dataset: c.target.dataset, holes: seq![(c.target.hole, c.placement)] })
    }
}

/// The captured holes by dataset, in the order in which the datasets come.
pub open spec fn grouped(originals: Seq<CapturedHole>) -> Seq<CollarGroupModel>
    decreases originals.len(),
{
    if originals.len() == 0 {
        Seq::empty()
    } else {
        with_captured(grouped(originals.drop_last()), originals.last())
    }
}

/// No dataset has two groups, and every captured hole is in the group of its dataset.
pub proof fn law_grouped(originals: Seq<CapturedHole>)
    ensures
        forall|i: int, j: int| 0 <= i < j < grouped(originals).len() ==> grouped(originals)[i].dataset != grouped(originals)[j].dataset,
        forall|k: int|
            0 <= k < originals.len() ==> in_group(grouped(originals), #[trigger] originals[k]),
        originals.len() > 0 ==> grouped(originals).len() > 0,
    decreases originals.len(),
{
    if originals.len() > 0 {
        let front = originals.drop_last();
        let c = originals.last();
        law_grouped(front);
        let groups = grouped(front);
        let fits = |g: CollarGroupModel| g.dataset == c.target.dataset;
        lemma_first_index(groups, fits);
        let i = first_index(groups, fits);
        let r = grouped(originals);
        let at = if i < groups.len() { i } else { groups.len() as int };
        assert(r[at].dataset == c.target.dataset);
        assert(r[at].holes[r[at].holes.len() - 1] == (c.target.hole, c.placement));
        assert forall|k: int| 0 <= k < originals.len() implies in_group(r, #[trigger] originals[k]) by {
            if k < front.len() {
                assert(front[k] == originals[k]);
                assert(in_group(groups, front[k]));
                let g = choose|g: int| 0 <= g < groups.len() && (#[trigger] groups[g]).dataset == front[k].target.dataset && groups[g].holes.contains(
                    (front[k].target.hole, front[k].placement),
                );
                let q = choose|q: int| 0 <= q < groups[g].holes.len() && groups[g].holes[q] == (front[k].target.hole, front[k].placement);
                assert(r[g].holes[q] == groups[g].holes[q]);
                assert(r[g].holes.contains((front[k].target.hole, front[k].placement)));
            } else {
                assert(r[at].holes.contains((c.target.hole, c.placement)));
            }
        }
    }
}

/// The hole is in the group of its dataset.
pub open spec fn in_group(groups: Seq<CollarGroupModel>, c: CapturedHole) -> bool {
    exists|g: int|
        0 <= g < groups.len() && (#[trigger] groups[g]).dataset == c.target.dataset && groups[g].holes.contains((c.target.hole, c.placement))
}

/// The captured holes by dataset.
pub fn group_by_dataset(originals: &Vec<CapturedHole>) -> (r: Vec<CollarGroup>)
    ensures
        group_models(r@) == grouped(originals@),
{
    let mut r: Vec<CollarGroup> = Vec::new();
    let mut k: usize = 0;
    assert(originals@.take(0) =~= Seq::<CapturedHole>::empty());
    assert(group_models(r@) =~= Seq::<CollarGroupModel>::empty());
    while k < originals.len()
        invariant
            k <= originals.len(),
            group_models(r@) == grouped(originals@.take(k as int)),
        decreases originals.len() - k,
    {
        let c = originals[k];
        let id = c.target.dataset;
        let ghost before = r@;
        assert(originals@.take(k + 1).drop_last() =~= originals@.take(k as int));
        let found = find_first(&r, Ghost(|g: CollarGroup| g.dataset == id), |g: &CollarGroup| -> (b: bool)
            ensures
                b == (g.dataset == id),
            { g.dataset == id });
        proof {
            lemma_group_index(before, id);
        }
        match found {
            Some(i) => {
                r[i].holes.push((c.target.hole, c.placement));
                assert(group_models(r@) =~= with_captured(group_models(before), c));
            },
            None => {
                let mut holes: Vec<(usize, HolePlacement)> = Vec::new();
                holes.push((c.target.hole, c.placement));
                assert(holes@ =~= seq![(c.target.hole, c.placement)]);
                r.push(CollarGroup { dataset: id, holes });
                assert(group_models(r@) =~= with_captured(group_models(before), c));
            },
        }
        k += 1;
    }
    assert(originals@.take(originals@.len() as int) =~= originals@);
    r
}

/// A dataset's group stands at the same place among the groups as among what they are.
pub proof fn lemma_group_index(groups: Seq<CollarGroup>, id: DrillHoleId)
    ensures
        first_index(groups, |g: CollarGroup| g.dataset == id) == first_index(group_models(groups), |g: CollarGroupModel| g.dataset == id),
{
    let ms = group_models(groups);
    lemma_first_index(groups, |g: CollarGroup| g.dataset == id);
    lemma_first_index(ms, |g: CollarGroupModel| g.dataset == id);
    let i = first_index(groups, |g: CollarGroup| g.dataset == id);
    let k = first_index(ms, |g: CollarGroupModel| g.dataset == id);
    if i < k {
        assert(ms[i].dataset == id);
    }
    if k < i {
        assert(ms[k].dataset == groups[k].dataset);
    }
}

} // verus!
