//! Tying holes in: laying legs between them, and saying where a round starts.

use crate::blast::{Blast, BlastRound, InitiationDialog, TieLeg};
use crate::canvas::{in_reach, law_picks_stay_on_the_active_dataset, selectable};
use crate::commands::closing::no_selection;
use crate::document::{points_equal, same_point};
use crate::edit::{Edit, Step};
use crate::ids::{DrillHoleId, HoleRef, IdSet, SceneEntityId, TieRef};
use crate::ieee::{f32_less, less32, Point3};
use crate::items::{dataset_index, DrillHole, Initiation, Items, OpenDrillHoleDataset, TieIn};
use crate::search::{find_first, first_index};
use crate::state::{ActiveTool, App, Selection, Visibility, WorkspaceKind};
use vstd::prelude::*;

verus! {

/// What a leg is.
pub ghost struct TieModel {
    pub from: usize,
    pub to: usize,
    pub delay_ms: u32,
    pub product: Seq<char>,
    pub color: u32,
}

impl View for TieIn {
    type V = TieModel;

    open spec fn view(&self) -> TieModel {
        TieModel { from: self.from, to: self.to, delay_ms: self.delay_ms, product: self.product@, color: self.color }
    }
}

/// What legs are.
pub open spec fn tie_models(s: Seq<TieIn>) -> Seq<TieModel> {
    s.map_values(|t: TieIn| t@)
}

impl TieIn {
    fn copy(&self) -> (r: TieIn)
        ensures
            r@ == self@,
    {
        TieIn { from: self.from, to: self.to, delay_ms: self.delay_ms, product: self.product.clone(), color: self.color }
    }
}

/// What is known of the pointer while holes are tied: whether there is a
/// renderer, the holes from the anchor to the pointer, and where the pointer
/// is in the world.
pub struct TieFacts {
    pub ready: bool,
    pub chain: Vec<usize>,
    pub path_end: Option<Point3>,
}

/// The dataset can be worked on: neither hidden nor frozen.
pub open spec fn reachable(v: Visibility, id: DrillHoleId) -> bool {
    !v.hidden@.contains(SceneEntityId::DrillHole(id)) && !v.frozen@.contains(SceneEntityId::DrillHole(id))
}

/// The place of the loaded dataset with the id.
pub open spec fn loaded_index(s: Seq<OpenDrillHoleDataset>, id: DrillHoleId) -> int {
    first_index(s, |d: OpenDrillHoleDataset| d.id == id && d.state.loaded)
}

/// The place of the loaded dataset with the id that is drawn.
pub open spec fn drawn_index(s: Seq<OpenDrillHoleDataset>, id: DrillHoleId) -> int {
    first_index(s, |d: OpenDrillHoleDataset| d.id == id && d.state.loaded && d.visible)
}

/// The dataset that is tied in.
pub open spec fn tie_target(app: App) -> Option<OpenDrillHoleDataset> {
    match app.canvas.active_drill_hole {
        Some(id) => {
            let s = app.items.drill_holes@;
            let i = drawn_index(s, id);
            if reachable(app.visibility, id) && i < s.len() {
                Some(s[i])
            } else {
                None
            }
        },
        None => None,
    }
}

/// The leg joins the two holes.
pub open spec fn joins(t: TieIn, a: usize, b: usize) -> bool {
    (t.from == a && t.to == b) || (t.from == b && t.to == a)
}

/// The place of the leg between two holes.
pub open spec fn tie_between(s: Seq<TieIn>, a: usize, b: usize) -> int {
    first_index(s, |t: TieIn| joins(t, a, b))
}

/// The legs along a chain of holes, over its first `n` steps.
pub open spec fn legs_along(d: OpenDrillHoleDataset, chain: Seq<usize>, n: int) -> Seq<TieLeg>
    decreases n,
{
    if n <= 0 {
        Seq::empty()
    } else {
        let before = legs_along(d, chain, n - 1);
        let (a, b) = (chain[n - 1], chain[n]);
        if a < d.holes@.len() && b < d.holes@.len() {
            before.push(
                TieLeg {
                    from: a,
                    to: b,
                    start: d.holes@[a as int].placement.collar,
                    end: d.holes@[b as int].placement.collar,
                    overwrite: tie_between(d.tie_ins@, a, b) < d.tie_ins@.len(),
                },
            )
        } else {
            before
        }
    }
}

/// The legs that a click would lay.
pub open spec fn preview_legs(app: App, facts: TieFacts) -> Seq<TieLeg> {
    match (app.blast.anchor, tie_target(app)) {
        (Some(anchor), Some(d)) if app.canvas.active_tool == ActiveTool::TieHoles && app.canvas.cursor_px is Some && facts.ready && anchor.dataset
            == d.id => legs_along(d, facts.chain@, facts.chain@.len() - 1),
        _ => Seq::empty(),
    }
}

/// Where the anchor of the chain stands.
pub open spec fn anchor_place(app: App) -> Option<Point3> {
    match (app.blast.anchor, tie_target(app)) {
        (Some(anchor), Some(d)) if app.canvas.active_tool == ActiveTool::TieHoles && anchor.dataset == d.id && anchor.hole < d.holes@.len() => Some(
            d.holes@[anchor.hole as int].placement.collar,
        ),
        _ => None,
    }
}

/// Both legs are the same, their coordinates compared as numbers.
pub open spec fn same_leg(a: TieLeg, b: TieLeg) -> bool {
    a.from == b.from && a.to == b.to && same_point(a.start, b.start) && same_point(a.end, b.end) && a.overwrite == b.overwrite
}

/// Both lists of legs are the same.
pub open spec fn same_legs(a: Seq<TieLeg>, b: Seq<TieLeg>) -> bool {
    a.len() == b.len() && forall|i: int| 0 <= i < a.len() ==> same_leg(#[trigger] a[i], b[i])
}

/// Both places are the same, or missing.
pub open spec fn same_place(a: Option<Point3>, b: Option<Point3>) -> bool {
    match (a, b) {
        (Some(x), Some(y)) => same_point(x, y),
        (None, None) => true,
        _ => false,
    }
}

/// What bringing the shown legs up to date does.
pub open spec fn preview_refreshed(pre: App, facts: TieFacts, post: App) -> bool {
    let legs = preview_legs(pre, facts);
    let at = anchor_place(pre);
    let end = if at is Some && facts.ready {
        facts.path_end
    } else {
        None
    };
    if same_legs(legs, pre.blast.preview@) && same_place(at, pre.blast.anchor_world) && same_place(end, pre.blast.path_end_world) {
        post == pre
    } else {
        &&& post == (App {
            blast: Blast { preview: post.blast.preview, anchor_world: at, path_end_world: end, ..pre.blast },
            frame: pre.frame.overlay(),
            ..pre
        })
        &&& post.blast.preview@ == legs
    }
}

/// The legs that are replaced, in the order of those that replace them.
pub open spec fn replaced_ties(s: Seq<TieIn>, legs: Seq<TieLeg>) -> Seq<TieModel>
    decreases legs.len(),
{
    if legs.len() == 0 {
        Seq::empty()
    } else {
        let before = replaced_ties(s, legs.drop_last());
        let i = tie_between(s, legs.last().from, legs.last().to);
        if i < s.len() {
            before.push(s[i]@)
        } else {
            before
        }
    }
}

/// The legs that are laid with a product.
pub open spec fn laid_ties(legs: Seq<TieLeg>, delay_ms: u32, product: Seq<char>, color: u32) -> Seq<TieModel> {
    legs.map_values(|l: TieLeg| TieModel { from: l.from, to: l.to, delay_ms, product, color })
}

/// The step lays these legs.
pub open spec fn lays(step: Step, dataset: DrillHoleId, before: Seq<TieModel>, after: Seq<TieModel>) -> bool {
    step.single() && match step.edits@[0] {
        Edit::SetTieIns { dataset: d, before: b, after: a } => d == dataset && tie_models(b@) == before && tie_models(a@) == after,
        _ => false,
    }
}

/// What laying the shown legs does: the chain goes on from their far end.
pub open spec fn legs_laid(pre: App, post: App) -> bool {
    let legs = pre.blast.preview@;
    match tie_target(pre) {
        Some(d) if legs.len() > 0 && pre.blast.chosen() < pre.blast.products@.len() => {
            let product = pre.blast.products@[pre.blast.chosen()];
            &&& post == (App {
                steps: post.steps,
                blast: Blast { anchor: Some(HoleRef { dataset: d.id, hole: legs.last().to }), ..pre.blast },
                ..pre
            })
            &&& post.steps@.len() == pre.steps@.len() + 1
            &&& post.steps@.drop_last() == pre.steps@
            &&& lays(
                post.steps@.last(),
                d.id,
                replaced_ties(d.tie_ins@, legs),
                laid_ties(legs, product.delay_ms, product.name@, product.color),
            )
        },
        _ => post == pre,
    }
}

/// What a click with the tool that ties holes does: it anchors a chain, or
/// lays the legs that are shown.
pub open spec fn tie_clicked(pre: App, picked: Option<HoleRef>, facts: TieFacts, next: TieFacts, post: App) -> bool {
    if pre.blast.chosen() >= pre.blast.products@.len() || tie_target(pre) is None {
        post == pre
    } else if pre.blast.anchor is None {
        match picked {
            None => post == pre,
            Some(hole) => exists|mid: App| #[trigger]
                preview_refreshed(App { blast: Blast { anchor: Some(hole), ..pre.blast }, ..pre }, next, mid) && post == (App {
                    frame: mid.frame.redraw(),
                    ..mid
                }),
        }
    } else {
        exists|shown: App, laid: App|
            {
                &&& #[trigger] preview_refreshed(pre, facts, shown)
                &&& #[trigger] legs_laid(shown, laid)
                &&& if shown.blast.preview@.len() == 0 {
                    post == laid
                } else {
                    preview_refreshed(laid, next, post)
                }
            }
    }
}

/// What is shown is what is laid: a click lays exactly the legs that the
/// refreshed preview holds.
pub proof fn law_shown_legs_are_laid(pre: App, post: App)
    requires
        legs_laid(pre, post),
        tie_target(pre) is Some,
        pre.blast.preview@.len() > 0,
        pre.blast.chosen() < pre.blast.products@.len(),
    ensures
        post.steps@.last().edits@[0] matches Edit::SetTieIns { after, .. } && after@.len() == pre.blast.preview@.len() && forall|i: int|
            0 <= i < after@.len() ==> (#[trigger] after@[i]).from == pre.blast.preview@[i].from && after@[i].to == pre.blast.preview@[i].to,
{
    let legs = pre.blast.preview@;
    let product = pre.blast.products@[pre.blast.chosen()];
    let want = laid_ties(legs, product.delay_ms, product.name@, product.color);
    if let Edit::SetTieIns { after, .. } = post.steps@.last().edits@[0] {
        assert(tie_models(after@) == want);
        assert(tie_models(after@).len() == after@.len());
        assert forall|i: int| 0 <= i < after@.len() implies (#[trigger] after@[i]).from == legs[i].from && after@[i].to == legs[i].to by {
            assert(tie_models(after@)[i] == after@[i]@);
            assert(want[i].from == legs[i].from);
        }
    }
}

/// The initiation of a hole.
pub open spec fn initiation_of(s: Seq<Initiation>, hole: usize) -> Option<Initiation> {
    let i = first_index(s, |x: Initiation| x.hole == hole);
    if i < s.len() {
        Some(s[i])
    } else {
        None
    }
}

/// What a hole is called.
pub open spec fn hole_name(d: OpenDrillHoleDataset, hole: usize) -> Seq<char> {
    if hole < d.holes@.len() {
        d.holes@[hole as int].name@
    } else {
        "hole"@
    }
}

/// What a click with the tool that sets initiations does: it opens the dialog
/// for the hole.
pub open spec fn initiation_asked(pre: App, picked: Option<HoleRef>, post: App) -> bool {
    match picked {
        Some(hole) if dataset_index(pre.items.drill_holes@, hole.dataset) < pre.items.drill_holes@.len() => {
            let d = pre.items.drill_holes@[dataset_index(pre.items.drill_holes@, hole.dataset)];
            let known = initiation_of(d.initiations@, hole.hole);
            &&& post == (App {
                blast: Blast { initiation_dialog: post.blast.initiation_dialog, ..pre.blast },
                frame: pre.frame.redraw(),
                ..pre
            })
            &&& post.blast.initiation_dialog matches Some(dialog) && dialog.target == hole && dialog.hole_name@ == hole_name(d, hole.hole)
                && dialog.delay_ms == (match known {
                Some(i) => i.delay_ms,
                None => 0,
            }) && dialog.existing == (known is Some)
        },
        _ => post == pre,
    }
}

/// What setting the initiation of a hole does: one edit that speaks of that
/// hole alone.
pub open spec fn initiation_set(pre: App, target: HoleRef, delay_ms: Option<u32>, post: App) -> bool {
    let s = pre.items.drill_holes@;
    let i = loaded_index(s, target.dataset);
    if !reachable(pre.visibility, target.dataset) || i >= s.len() {
        post == pre
    } else {
        let before = initiation_of(s[i].initiations@, target.hole);
        let after = match delay_ms {
            Some(delay_ms) => Some(Initiation { hole: target.hole, delay_ms }),
            None => None,
        };
        if before == after {
            post == pre
        } else {
            &&& post == (App { steps: post.steps, ..pre })
            &&& post.steps@.len() == pre.steps@.len() + 1
            &&& post.steps@.drop_last() == pre.steps@
            &&& post.steps@.last().single()
            &&& post.steps@.last().edits@[0] == (Edit::SetInitiation { dataset: target.dataset, before, after })
        }
    }
}

/// A leg near the pointer: how far away it is, and whether the pointer is
/// clear of the holes at its ends.
#[derive(Clone, Copy, PartialEq, Eq, Structural, Debug)]
pub struct TieHit {
    pub tie: TieRef,
    pub distance: u32,
    pub clear: bool,
}

/// A hole near the pointer, and how far away it is.
#[derive(Clone, Copy, PartialEq, Eq, Structural, Debug)]
pub struct HoleHit {
    pub hole: HoleRef,
    pub distance: u32,
}

/// How near a leg has to be: eight pixels.
pub const TIE_PICK_PX: u32 = 0x4100_0000;

/// The first number is not above the second.
pub open spec fn not_above(a: u32, b: u32) -> bool {
    f32_less(a, b) || crate::ieee::f32_equal(a, b)
}

fn is_not_above(a: u32, b: u32) -> (r: bool)
    ensures
        r == not_above(a, b),
{
    less32(a, b) || crate::ieee::equal32(a, b)
}

/// A dataset that holes and legs can be picked from: a pick may land on it, it
/// is loaded and drawn, and it is neither hidden nor frozen.
pub open spec fn pickable(v: Visibility, d: OpenDrillHoleDataset) -> bool {
    d.state.loaded && d.visible && reachable(v, d.id)
}

/// The dataset has the leg, between holes that are there.
pub open spec fn has_leg(d: OpenDrillHoleDataset, tie: TieRef) -> bool {
    &&& tie.from < d.holes@.len() && tie.to < d.holes@.len()
    &&& exists|k: int| 0 <= k < d.tie_ins@.len() && (#[trigger] d.tie_ins@[k]).from == tie.from && d.tie_ins@[k].to == tie.to
}

/// The dataset is that of the leg, which can be picked there.
pub open spec fn leg_in(v: Visibility, d: OpenDrillHoleDataset, tie: TieRef) -> bool {
    d.id == tie.dataset && pickable(v, d) && has_leg(d, tie)
}

/// The dataset is that of the hole, which can be picked there.
pub open spec fn hole_in(v: Visibility, d: OpenDrillHoleDataset, hole: HoleRef) -> bool {
    d.id == hole.dataset && pickable(v, d) && hole.hole < d.holes@.len()
}

/// The hit can be picked.
pub open spec fn tie_usable(app: App, h: TieHit) -> bool {
    &&& h.clear && not_above(h.distance, TIE_PICK_PX)
    &&& exists|i: int| 0 <= i < selectable(app).len() && leg_in(app.visibility, #[trigger] selectable(app)[i], h.tie)
}

/// The nearest leg among the first `n` hits; of two as near, the first.
pub open spec fn nearest_tie(app: App, hits: Seq<TieHit>, n: int) -> Option<TieHit>
    decreases n,
{
    if n <= 0 {
        None
    } else {
        let best = nearest_tie(app, hits, n - 1);
        let h = hits[n - 1];
        if tie_usable(app, h) && (best is None || f32_less(h.distance, best->0.distance)) {
            Some(h)
        } else {
            best
        }
    }
}

/// The hit can be picked.
pub open spec fn hole_usable(app: App, limit: u32, h: HoleHit) -> bool {
    &&& not_above(h.distance, limit)
    &&& exists|i: int| 0 <= i < selectable(app).len() && hole_in(app.visibility, #[trigger] selectable(app)[i], h.hole)
}

/// The nearest hole among the first `n` hits; of two as near, the first.
pub open spec fn nearest_hole(app: App, limit: u32, hits: Seq<HoleHit>, n: int) -> Option<HoleHit>
    decreases n,
{
    if n <= 0 {
        None
    } else {
        let best = nearest_hole(app, limit, hits, n - 1);
        let h = hits[n - 1];
        if hole_usable(app, limit, h) && (best is None || f32_less(h.distance, best->0.distance)) {
            Some(h)
        } else {
            best
        }
    }
}

/// The hole that is picked can be picked, and none that can be is nearer.
pub proof fn law_picked_hole_is_nearest(app: App, limit: u32, hits: Seq<HoleHit>, n: int)
    requires
        0 <= n <= hits.len(),
    ensures
        match nearest_hole(app, limit, hits, n) {
            Some(best) => {
                &&& hole_usable(app, limit, best)
                &&& forall|i: int| 0 <= i < n && hole_usable(app, limit, #[trigger] hits[i]) ==> !f32_less(hits[i].distance, best.distance)
            },
            None => forall|i: int| 0 <= i < n ==> !hole_usable(app, limit, #[trigger] hits[i]),
        },
    decreases n,
{
    if n > 0 {
        law_picked_hole_is_nearest(app, limit, hits, n - 1);
    }
}

/// The hole that is picked: none without a pointer.
pub open spec fn picked_hole(app: App, limit: u32, hits: Seq<HoleHit>) -> Option<HoleRef> {
    match nearest_hole(app, limit, hits, hits.len() as int) {
        Some(h) if app.canvas.cursor_px is Some => Some(h.hole),
        _ => None,
    }
}

/// The leg that is picked can be picked, and none that can be is nearer.
pub proof fn law_picked_leg_is_nearest(app: App, hits: Seq<TieHit>, n: int)
    requires
        0 <= n <= hits.len(),
    ensures
        match nearest_tie(app, hits, n) {
            Some(best) => {
                &&& tie_usable(app, best)
                &&& forall|i: int| 0 <= i < n && tie_usable(app, #[trigger] hits[i]) ==> !f32_less(hits[i].distance, best.distance)
            },
            None => forall|i: int| 0 <= i < n ==> !tie_usable(app, #[trigger] hits[i]),
        },
    decreases n,
{
    if n > 0 {
        law_picked_leg_is_nearest(app, hits, n - 1);
    }
}

/// Whatever is told of the pointer, a hole or a leg that is picked in drill
/// and blast belongs to the active dataset, and without one nothing is picked.
pub proof fn law_blast_picks_from_the_active_dataset(app: App, limit: u32, holes: Seq<HoleHit>, ties: Seq<TieHit>)
    requires
        app.canvas.workspace == WorkspaceKind::DrillAndBlast,
    ensures
        picked_hole(app, limit, holes) matches Some(hole) ==> app.canvas.active_drill_hole == Some(hole.dataset),
        nearest_tie(app, ties, ties.len() as int) matches Some(hit) ==> app.canvas.active_drill_hole == Some(hit.tie.dataset),
        app.canvas.active_drill_hole is None ==> picked_hole(app, limit, holes) is None && nearest_tie(app, ties, ties.len() as int) is None,
{
    law_picked_hole_is_nearest(app, limit, holes, holes.len() as int);
    law_picked_leg_is_nearest(app, ties, ties.len() as int);
    let s = selectable(app);
    if let Some(h) = nearest_hole(app, limit, holes, holes.len() as int) {
        let i = choose|i: int| 0 <= i < s.len() && hole_in(app.visibility, #[trigger] s[i], h.hole);
        assert(in_reach(app, h.hole.dataset));
        law_picks_stay_on_the_active_dataset(app, h.hole.dataset);
    }
    if let Some(h) = nearest_tie(app, ties, ties.len() as int) {
        let i = choose|i: int| 0 <= i < s.len() && leg_in(app.visibility, #[trigger] s[i], h.tie);
        assert(in_reach(app, h.tie.dataset));
        law_picks_stay_on_the_active_dataset(app, h.tie.dataset);
    }
}

/// The selection once a leg was picked.
pub open spec fn tie_picked(pre: Selection, tie: TieRef, shift: bool, control: bool, post: Selection) -> bool {
    let was = pre.ties@.contains(tie);
    if shift || (!control && was) {
        &&& post == (Selection { ties: post.ties, ..pre })
        &&& post.ties@ == (if was {
            pre.ties@.remove(tie)
        } else {
            pre.ties@.insert(tie)
        })
    } else if control {
        post == (Selection { ties: post.ties, ..pre }) && post.ties@ == pre.ties@.insert(tie)
    } else {
        exists|mid: Selection| #[trigger]
            no_selection(pre, mid) && post == (Selection { ties: post.ties, ..mid }) && post.ties@ == Set::<TieRef>::empty().insert(tie)
    }
}

/// What a click on a leg does; tells whether there was one.
pub open spec fn tie_selected(pre: App, hits: Seq<TieHit>, r: bool, post: App) -> bool {
    match nearest_tie(pre, hits, hits.len() as int) {
        Some(hit) if pre.canvas.workspace == WorkspaceKind::DrillAndBlast && pre.canvas.cursor_px is Some => {
            &&& r
            &&& post == (App { selection: post.selection, frame: pre.frame.redraw(), ..pre })
            &&& tie_picked(pre.selection, hit.tie, pre.canvas.shift, pre.canvas.control, post.selection)
        },
        _ => !r && post == pre,
    }
}

/// The legs of a dataset that are selected.
pub open spec fn selected_ties(id: DrillHoleId, s: Seq<TieIn>, selected: Set<TieRef>) -> Seq<TieModel>
    decreases s.len(),
{
    if s.len() == 0 {
        Seq::empty()
    } else {
        let before = selected_ties(id, s.drop_last(), selected);
        if selected.contains(TieRef { dataset: id, from: s.last().from, to: s.last().to }) {
            before.push(s.last()@)
        } else {
            before
        }
    }
}

/// The datasets with legs that are selected, and those legs.
pub open spec fn ties_to_delete(s: Seq<OpenDrillHoleDataset>, selected: Set<TieRef>) -> Seq<(DrillHoleId, Seq<TieModel>)>
    decreases s.len(),
{
    if s.len() == 0 {
        Seq::empty()
    } else {
        let before = ties_to_delete(s.drop_last(), selected);
        let ties = selected_ties(s.last().id, s.last().tie_ins@, selected);
        if ties.len() > 0 {
            before.push((s.last().id, ties))
        } else {
            before
        }
    }
}

/// The edits take these legs away.
pub open spec fn deletes_ties(edits: Seq<Edit>, gone: Seq<(DrillHoleId, Seq<TieModel>)>) -> bool {
    &&& edits.len() == gone.len()
    &&& forall|i: int| 0 <= i < edits.len() ==> takes_ties(#[trigger] edits[i], gone[i].0, gone[i].1)
}

/// The edit takes these legs of a dataset away.
pub open spec fn takes_ties(edit: Edit, id: DrillHoleId, gone: Seq<TieModel>) -> bool {
    match edit {
        Edit::SetTieIns { dataset, before, after } => dataset == id && tie_models(before@) == gone && after@.len() == 0,
        _ => false,
    }
}

/// What deleting the selected legs does: one step over all datasets.
pub open spec fn ties_deleted(pre: App, post: App) -> bool {
    let gone = ties_to_delete(pre.items.drill_holes@, pre.selection.ties@);
    &&& post == (App { steps: post.steps, selection: Selection { ties: post.selection.ties, ..pre.selection }, ..pre })
    &&& post.selection.ties@ == Set::<TieRef>::empty()
    &&& if gone.len() == 0 {
        post.steps == pre.steps
    } else {
        let step = post.steps@.last();
        &&& post.steps@.len() == pre.steps@.len() + 1
        &&& post.steps@.drop_last() == pre.steps@
        &&& step.batch && !step.applied && step.project is None
        &&& deletes_ties(step.edits@, gone)
    }
}

/// The latest of the times, where there is one.
pub open spec fn latest(times: Seq<Option<u64>>) -> Option<u64>
    decreases times.len(),
{
    if times.len() == 0 {
        None
    } else {
        match (latest(times.drop_last()), times.last()) {
            (Some(a), Some(b)) => Some(
                if a > b {
                    a
                } else {
                    b
                },
            ),
            (None, b) => b,
            (a, None) => a,
        }
    }
}

/// How many times are missing.
pub open spec fn missing(times: Seq<Option<u64>>) -> int
    decreases times.len(),
{
    if times.len() == 0 {
        0
    } else {
        missing(times.drop_last()) + if times.last() is None {
            1int
        } else {
            0
        }
    }
}

/// The named starts of a round.
pub open spec fn starts(d: OpenDrillHoleDataset, n: int) -> Seq<(Seq<char>, u32)>
    decreases n,
{
    if n <= 0 {
        Seq::empty()
    } else {
        let before = starts(d, n - 1);
        let i = d.initiations@[n - 1];
        if i.hole < d.holes@.len() {
            before.push((d.holes@[i.hole as int].name@, i.delay_ms))
        } else {
            before
        }
    }
}

/// What a list of named starts is.
pub open spec fn start_models(s: Seq<(String, u32)>) -> Seq<(Seq<char>, u32)> {
    s.map_values(|x: (String, u32)| (x.0@, x.1))
}

/// What a round adds up to. Nothing is unreached until there is somewhere for
/// a signal to come from.
pub open spec fn round_of(target: Option<OpenDrillHoleDataset>, times: Seq<Option<u64>>, round: BlastRound) -> bool {
    match target {
        Some(d) => {
            &&& start_models(round.initiations@) == starts(d, d.initiations@.len() as int)
            &&& round.connectors == d.tie_ins@.len()
            &&& round.duration_ms == latest(times)
            &&& round.unreached == (if d.initiations@.len() > 0 {
                missing(times)
            } else {
                0
            })
        },
        None => round.initiations@.len() == 0 && round.connectors == 0 && round.duration_ms is None && round.unreached == 0,
    }
}

/// What tells one state of a round from another.
pub open spec fn round_key_of(target: Option<OpenDrillHoleDataset>) -> Option<(u64, u64)> {
    match target {
        Some(d) => Some((d.id.0, d.state.epoch)),
        None => None,
    }
}

/// What bringing the sum of a round up to date does: nothing while the dataset
/// has not changed.
pub open spec fn round_refreshed(pre: App, times: Seq<Option<u64>>, post: App) -> bool {
    let key = round_key_of(tie_target(pre));
    if key == pre.blast.round_key {
        post == pre
    } else {
        &&& post == (App { blast: Blast { round_key: key, round: post.blast.round, ..pre.blast }, ..pre })
        &&& round_of(tie_target(pre), times, post.blast.round)
    }
}

fn is_same_leg(a: TieLeg, b: TieLeg) -> (r: bool)
    ensures
        r == same_leg(a, b),
{
    a.from == b.from && a.to == b.to && points_equal(a.start, b.start) && points_equal(a.end, b.end) && a.overwrite == b.overwrite
}

fn are_same_legs(a: &Vec<TieLeg>, b: &Vec<TieLeg>) -> (r: bool)
    ensures
        r == same_legs(a@, b@),
{
    if a.len() != b.len() {
        return false;
    }
    let mut i: usize = 0;
    while i < a.len()
        invariant
            i <= a.len(),
            a.len() == b.len(),
            forall|j: int| 0 <= j < i ==> same_leg(#[trigger] a@[j], b@[j]),
        decreases a.len() - i,
    {
        if !is_same_leg(a[i], b[i]) {
            assert(!same_leg(a@[i as int], b@[i as int]));
            return false;
        }
        i += 1;
    }
    true
}

fn is_same_place(a: Option<Point3>, b: Option<Point3>) -> (r: bool)
    ensures
        r == same_place(a, b),
{
    match (a, b) {
        (Some(x), Some(y)) => points_equal(x, y),
        (None, None) => true,
        _ => false,
    }
}

impl OpenDrillHoleDataset {
    fn find_tie(&self, a: usize, b: usize) -> (r: Option<usize>)
        ensures
            match r {
                Some(i) => i == tie_between(self.tie_ins@, a, b) && i < self.tie_ins@.len(),
                None => tie_between(self.tie_ins@, a, b) == self.tie_ins@.len(),
            },
    {
        find_first(&self.tie_ins, Ghost(|t: TieIn| joins(t, a, b)), |t: &TieIn| -> (x: bool)
            ensures
                x == joins(*t, a, b),
            { (t.from == a && t.to == b) || (t.from == b && t.to == a) })
    }

    fn find_legs(&self, chain: &Vec<usize>) -> (r: Vec<TieLeg>)
        ensures
            r@ == legs_along(*self, chain@, chain@.len() - 1),
    {
        let mut legs: Vec<TieLeg> = Vec::new();
        let mut k: usize = 1;
        while k < chain.len()
            invariant
                1 <= k,
                k <= chain.len() || k == 1,
                legs@ == legs_along(*self, chain@, k - 1),
            decreases chain.len() - k,
        {
            let a: usize = chain[k - 1];
            let b: usize = chain[k];
            if a < self.holes.len() && b < self.holes.len() {
                let overwrite = self.find_tie(a, b).is_some();
                legs.push(TieLeg { from: a, to: b, start: self.holes[a].placement.collar, end: self.holes[b].placement.collar, overwrite });
            }
            k += 1;
        }
        legs
    }

    fn find_replaced(&self, legs: &Vec<TieLeg>) -> (r: Vec<TieIn>)
        ensures
            tie_models(r@) == replaced_ties(self.tie_ins@, legs@),
    {
        let mut ties: Vec<TieIn> = Vec::new();
        let mut i: usize = 0;
        assert(legs@.take(0) =~= Seq::<TieLeg>::empty());
        assert(tie_models(ties@) =~= replaced_ties(self.tie_ins@, legs@.take(0)));
        while i < legs.len()
            invariant
                i <= legs.len(),
                tie_models(ties@) == replaced_ties(self.tie_ins@, legs@.take(i as int)),
            decreases legs.len() - i,
        {
            let ghost before = ties@;
            assert(legs@.take(i + 1).drop_last() =~= legs@.take(i as int));
            match self.find_tie(legs[i].from, legs[i].to) {
                Some(k) => {
                    let tie = self.tie_ins[k].copy();
                    ties.push(tie);
                    assert(tie_models(ties@) =~= tie_models(before).push(tie@));
                },
                None => {},
            }
            i += 1;
        }
        assert(legs@.take(legs@.len() as int) =~= legs@);
        ties
    }

    fn is_with_leg(&self, tie: TieRef) -> (r: bool)
        ensures
            r == has_leg(*self, tie),
    {
        if tie.from >= self.holes.len() || tie.to >= self.holes.len() {
            return false;
        }
        let mut k: usize = 0;
        while k < self.tie_ins.len()
            invariant
                k <= self.tie_ins.len(),
                tie.from < self.holes@.len() && tie.to < self.holes@.len(),
                forall|j: int| 0 <= j < k ==> !((#[trigger] self.tie_ins@[j]).from == tie.from && self.tie_ins@[j].to == tie.to),
            decreases self.tie_ins.len() - k,
        {
            if self.tie_ins[k].from == tie.from && self.tie_ins[k].to == tie.to {
                assert(self.tie_ins@[k as int].from == tie.from);
                return true;
            }
            k += 1;
        }
        false
    }

    fn find_selected(&self, selected: &IdSet<TieRef>) -> (r: Vec<TieIn>)
        ensures
            tie_models(r@) == selected_ties(self.id, self.tie_ins@, selected@),
    {
        let mut ties: Vec<TieIn> = Vec::new();
        let mut i: usize = 0;
        assert(self.tie_ins@.take(0) =~= Seq::<TieIn>::empty());
        assert(tie_models(ties@) =~= selected_ties(self.id, self.tie_ins@.take(0), selected@));
        while i < self.tie_ins.len()
            invariant
                i <= self.tie_ins.len(),
                tie_models(ties@) == selected_ties(self.id, self.tie_ins@.take(i as int), selected@),
            decreases self.tie_ins.len() - i,
        {
            let ghost before = ties@;
            assert(self.tie_ins@.take(i + 1).drop_last() =~= self.tie_ins@.take(i as int));
            let t = &self.tie_ins[i];
            if selected.contains(TieRef { dataset: self.id, from: t.from, to: t.to }) {
                let tie = t.copy();
                ties.push(tie);
                assert(tie_models(ties@) =~= tie_models(before).push(tie@));
            }
            i += 1;
        }
        assert(self.tie_ins@.take(self.tie_ins@.len() as int) =~= self.tie_ins@);
        ties
    }

    fn find_initiation(&self, hole: usize) -> (r: Option<Initiation>)
        ensures
            r == initiation_of(self.initiations@, hole),
    {
        match find_first(&self.initiations, Ghost(|x: Initiation| x.hole == hole), |x: &Initiation| -> (b: bool)
            ensures
                b == (x.hole == hole),
            { x.hole == hole }) {
            Some(i) => Some(self.initiations[i]),
            None => None,
        }
    }

    fn find_starts(&self) -> (r: Vec<(String, u32)>)
        ensures
            start_models(r@) == starts(*self, self.initiations@.len() as int),
    {
        let mut list: Vec<(String, u32)> = Vec::new();
        let mut i: usize = 0;
        assert(start_models(list@) =~= starts(*self, 0));
        while i < self.initiations.len()
            invariant
                i <= self.initiations.len(),
                start_models(list@) == starts(*self, i as int),
            decreases self.initiations.len() - i,
        {
            let ghost before = list@;
            let x = self.initiations[i];
            if x.hole < self.holes.len() {
                let name = self.holes[x.hole].name.clone();
                list.push((name, x.delay_ms));
                assert(start_models(list@) =~= start_models(before).push((name@, x.delay_ms)));
            }
            i += 1;
        }
        list
    }
}

fn lay_ties(legs: &Vec<TieLeg>, delay_ms: u32, product: &str, color: u32) -> (r: Vec<TieIn>)
    ensures
        tie_models(r@) == laid_ties(legs@, delay_ms, product@, color),
{
    let mut ties: Vec<TieIn> = Vec::new();
    let mut i: usize = 0;
    while i < legs.len()
        invariant
            i <= legs.len(),
            ties@.len() == i,
            forall|j: int| 0 <= j < i ==> (#[trigger] ties@[j])@ == (TieModel {
                from: legs@[j].from,
                to: legs@[j].to,
                delay_ms,
                product: product@,
                color,
            }),
        decreases legs.len() - i,
    {
        ties.push(TieIn { from: legs[i].from, to: legs[i].to, delay_ms, product: product.to_string(), color });
        i += 1;
    }
    assert(tie_models(ties@) =~= laid_ties(legs@, delay_ms, product@, color));
    ties
}

impl Visibility {
    fn picks_from(&self, d: &OpenDrillHoleDataset) -> (r: bool)
        ensures
            r == pickable(*self, *d),
    {
        d.state.loaded && d.visible && self.is_reachable(d.id)
    }

    fn is_reachable(&self, id: DrillHoleId) -> (r: bool)
        ensures
            r == reachable(*self, id),
    {
        !self.hidden.contains(SceneEntityId::DrillHole(id)) && !self.frozen.contains(SceneEntityId::DrillHole(id))
    }
}

impl Items {
    fn find_drawn_dataset(&self, id: DrillHoleId) -> (r: Option<usize>)
        ensures
            match r {
                Some(i) => i == drawn_index(self.drill_holes@, id) && i < self.drill_holes@.len(),
                None => drawn_index(self.drill_holes@, id) == self.drill_holes@.len(),
            },
    {
        let ghost f = |d: OpenDrillHoleDataset| d.id == id && d.state.loaded && d.visible;
        find_first(&self.drill_holes, Ghost(f), |d: &OpenDrillHoleDataset| -> (b: bool)
            ensures
                b == (d.id == id && d.state.loaded && d.visible),
            { d.id == id && d.state.loaded && d.visible })
    }

    fn find_loaded_dataset(&self, id: DrillHoleId) -> (r: Option<usize>)
        ensures
            match r {
                Some(i) => i == loaded_index(self.drill_holes@, id) && i < self.drill_holes@.len(),
                None => loaded_index(self.drill_holes@, id) == self.drill_holes@.len(),
            },
    {
        find_first(&self.drill_holes, Ghost(|d: OpenDrillHoleDataset| d.id == id && d.state.loaded), |d: &OpenDrillHoleDataset| -> (b: bool)
            ensures
                b == (d.id == id && d.state.loaded),
            { d.id == id && d.state.loaded })
    }
}

fn sum_times(times: &Vec<Option<u64>>) -> (r: (Option<u64>, usize))
    ensures
        r.0 == latest(times@),
        r.1 == missing(times@),
{
    let mut most: Option<u64> = None;
    let mut gaps: usize = 0;
    let mut i: usize = 0;
    assert(times@.take(0) =~= Seq::<Option<u64>>::empty());
    while i < times.len()
        invariant
            i <= times.len(),
            gaps <= i,
            most == latest(times@.take(i as int)),
            gaps == missing(times@.take(i as int)),
        decreases times.len() - i,
    {
        assert(times@.take(i + 1).drop_last() =~= times@.take(i as int));
        match times[i] {
            Some(t) => {
                most = match most {
                    Some(m) => if m > t {
                        Some(m)
                    } else {
                        Some(t)
                    },
                    None => Some(t),
                };
            },
            None => {
                gaps += 1;
            },
        }
        i += 1;
    }
    assert(times@.take(times@.len() as int) =~= times@);
    (most, gaps)
}

impl Selection {
    fn pick_tie(&mut self, tie: TieRef, shift: bool, control: bool)
        ensures
            tie_picked(*old(self), tie, shift, control, *final(self)),
    {
        let was = self.ties.contains(tie);
        if shift || (!control && was) {
            if was {
                self.ties.remove(tie);
            } else {
                self.ties.insert(tie);
            }
        } else if control {
            self.ties.insert(tie);
        } else {
            self.drop_all();
            let ghost mid = *self;
            assert(no_selection(*old(self), mid));
            self.ties.insert(tie);
        }
    }
}

impl App {
    /// The dataset that is tied in.
    fn find_tie_target(&self) -> (r: Option<usize>)
        ensures
            match r {
                Some(i) => i < self.items.drill_holes@.len() && tie_target(*self) == Some(self.items.drill_holes@[i as int]),
                None => tie_target(*self) is None,
            },
    {
        match self.canvas.active_drill_hole {
            Some(id) => {
                if self.visibility.is_reachable(id) {
                    self.items.find_drawn_dataset(id)
                } else {
                    None
                }
            },
            None => None,
        }
    }

    fn is_hole_there(&self, hole: HoleRef) -> (r: bool)
        ensures
            r == exists|i: int| 0 <= i < selectable(*self).len() && hole_in(self.visibility, #[trigger] selectable(*self)[i], hole),
    {
        let s = self.selectable_drill_holes();
        let mut i: usize = 0;
        while i < s.len()
            invariant
                i <= s@.len(),
                s@ == selectable(*self),
                forall|j: int| 0 <= j < i ==> !hole_in(self.visibility, #[trigger] s@[j], hole),
            decreases s.len() - i,
        {
            let d = &s[i];
            if d.id == hole.dataset && self.visibility.picks_from(d) && hole.hole < d.holes.len() {
                assert(hole_in(self.visibility, s@[i as int], hole));
                return true;
            }
            i += 1;
        }
        false
    }

    fn is_leg_there(&self, tie: TieRef) -> (r: bool)
        ensures
            r == exists|i: int| 0 <= i < selectable(*self).len() && leg_in(self.visibility, #[trigger] selectable(*self)[i], tie),
    {
        let s = self.selectable_drill_holes();
        let mut i: usize = 0;
        while i < s.len()
            invariant
                i <= s@.len(),
                s@ == selectable(*self),
                forall|j: int| 0 <= j < i ==> !leg_in(self.visibility, #[trigger] s@[j], tie),
            decreases s.len() - i,
        {
            let d = &s[i];
            if d.id == tie.dataset && self.visibility.picks_from(d) && d.is_with_leg(tie) {
                assert(leg_in(self.visibility, s@[i as int], tie));
                return true;
            }
            i += 1;
        }
        false
    }

    /// The hole nearest to the pointer, among those that can be picked. `hits`
    /// are the holes that are drawn, in their order, with their distances.
    pub fn pick_hole_at_cursor(&self, hits: &Vec<HoleHit>, limit: u32) -> (r: Option<HoleRef>)
        ensures
            r == picked_hole(*self, limit, hits@),
    {
        if self.canvas.cursor_px.is_none() {
            return None;
        }
        let mut best: Option<HoleHit> = None;
        let mut i: usize = 0;
        while i < hits.len()
            invariant
                i <= hits.len(),
                best == nearest_hole(*self, limit, hits@, i as int),
            decreases hits.len() - i,
        {
            let h = hits[i];
            if is_not_above(h.distance, limit) && self.is_hole_there(h.hole) {
                let nearer = match best {
                    Some(b) => less32(h.distance, b.distance),
                    None => true,
                };
                if nearer {
                    best = Some(h);
                }
            }
            i += 1;
        }
        match best {
            Some(h) => Some(h.hole),
            None => None,
        }
    }

    /// The legs that a click would lay.
    pub fn tie_preview_legs(&self, facts: &TieFacts) -> (r: Vec<TieLeg>)
        ensures
            r@ == preview_legs(*self, *facts),
    {
        let none: Vec<TieLeg> = Vec::new();
        assert(none@ =~= Seq::<TieLeg>::empty());
        if self.canvas.active_tool != ActiveTool::TieHoles || self.canvas.cursor_px.is_none() || !facts.ready {
            return none;
        }
        match (self.blast.anchor, self.find_tie_target()) {
            (Some(anchor), Some(i)) => {
                let d = &self.items.drill_holes[i];
                if anchor.dataset == d.id {
                    d.find_legs(&facts.chain)
                } else {
                    none
                }
            },
            _ => none,
        }
    }

    fn find_anchor_place(&self) -> (r: Option<Point3>)
        ensures
            r == anchor_place(*self),
    {
        if self.canvas.active_tool != ActiveTool::TieHoles {
            return None;
        }
        match (self.blast.anchor, self.find_tie_target()) {
            (Some(anchor), Some(i)) => {
                let d = &self.items.drill_holes[i];
                if anchor.dataset == d.id && anchor.hole < d.holes.len() {
                    Some(d.holes[anchor.hole].placement.collar)
                } else {
                    None
                }
            },
            _ => None,
        }
    }

    /// Brings the shown legs up to date with the pointer.
    pub fn refresh_tie_preview(&mut self, facts: &TieFacts)
        ensures
            preview_refreshed(*old(self), *facts, *final(self)),
    {
        let at = self.find_anchor_place();
        let end: Option<Point3> = if at.is_some() && facts.ready {
            facts.path_end
        } else {
            None
        };
        let legs = self.tie_preview_legs(facts);
        if !are_same_legs(&legs, &self.blast.preview) || !is_same_place(at, self.blast.anchor_world) || !is_same_place(end, self.blast.path_end_world) {
            self.blast.preview = legs;
            self.blast.anchor_world = at;
            self.blast.path_end_world = end;
            self.invalidate_overlay();
        }
    }

    /// Brings the sum of the round up to date. `times` is when each hole of
    /// the dataset that is tied in fires, where it is reached.
    pub fn refresh_blast_round(&mut self, times: &Vec<Option<u64>>)
        ensures
            round_refreshed(*old(self), times@, *final(self)),
    {
        let target = self.find_tie_target();
        let key: Option<(u64, u64)> = match target {
            Some(i) => Some((self.items.drill_holes[i].id.0, self.items.drill_holes[i].state.epoch)),
            None => None,
        };
        let known = match (key, self.blast.round_key) {
            (Some(a), Some(b)) => a.0 == b.0 && a.1 == b.1,
            (None, None) => true,
            _ => false,
        };
        if known {
            return ;
        }
        let round = match target {
            Some(i) => {
                let d = &self.items.drill_holes[i];
                let (duration_ms, gaps) = sum_times(times);
                let unreached: usize = if d.initiations.len() > 0 {
                    gaps
                } else {
                    0
                };
                BlastRound { initiations: d.find_starts(), connectors: d.tie_ins.len(), duration_ms, unreached }
            },
            None => BlastRound { initiations: Vec::new(), connectors: 0, duration_ms: None, unreached: 0 },
        };
        self.blast.round_key = key;
        self.blast.round = round;
    }

    /// Puts the chain down.
    pub fn end_tie_chain(&mut self)
        ensures
            *final(self) == (App {
                blast: Blast { preview: final(self).blast.preview, ..old(self).blast.chain_down() },
                frame: if old(self).blast.anchor is Some || old(self).blast.preview@.len() > 0 {
                    old(self).frame.overlay()
                } else {
                    old(self).frame
                },
                ..*old(self)
            }),
            final(self).blast.preview@.len() == 0,
    {
        if self.blast.end_tie_chain() {
            self.invalidate_overlay();
        }
    }

    fn lay_legs(&mut self)
        ensures
            legs_laid(*old(self), *final(self)),
    {
        let (dataset, before, after, far) = match (self.find_tie_target(), self.blast.find_chosen()) {
            (Some(i), Some(p)) => {
                let n: usize = self.blast.preview.len();
                if n == 0 {
                    return ;
                }
                let d = &self.items.drill_holes[i];
                let product = &self.blast.products[p];
                (
                    d.id,
                    d.find_replaced(&self.blast.preview),
                    lay_ties(&self.blast.preview, product.delay_ms, product.name.as_str(), product.color),
                    self.blast.preview[n - 1].to,
                )
            },
            _ => {
                return ;
            },
        };
        self.execute_edit(Edit::SetTieIns { dataset, before, after });
        self.blast.anchor = Some(HoleRef { dataset, hole: far });
    }

    /// A click with the tool that ties holes. `hits` are the holes that are
    /// drawn, in their order, with their distances; `facts` and `next` tell of
    /// the pointer as the chain stands and as it stands after the click.
    pub fn tie_holes_click(&mut self, hits: &Vec<HoleHit>, limit: u32, facts: &TieFacts, next: &TieFacts)
        ensures
            tie_clicked(*old(self), picked_hole(*old(self), limit, hits@), *facts, *next, *final(self)),
    {
        if self.blast.find_chosen().is_none() || self.find_tie_target().is_none() {
            return ;
        }
        if self.blast.anchor.is_none() {
            match self.pick_hole_at_cursor(hits, limit) {
                Some(hole) => {
                    self.blast.anchor = Some(hole);
                    let ghost held = *self;
                    self.refresh_tie_preview(next);
                    let ghost mid = *self;
                    assert(preview_refreshed(held, *next, mid));
                    self.frame.redraw_requested = true;
                },
                None => {},
            }
            return ;
        }
        self.refresh_tie_preview(facts);
        let ghost shown = *self;
        let any = self.blast.preview.len() > 0;
        self.lay_legs();
        let ghost laid = *self;
        proof {
            assert(preview_refreshed(*old(self), *facts, shown));
            assert(legs_laid(shown, laid));
        }
        if any {
            self.refresh_tie_preview(next);
        }
    }

    /// A click with the tool that sets initiations. `hits` are the holes that
    /// are drawn, in their order, with their distances.
    pub fn set_initiation_at_cursor(&mut self, hits: &Vec<HoleHit>, limit: u32)
        ensures
            initiation_asked(*old(self), picked_hole(*old(self), limit, hits@), *final(self)),
    {
        let hole = match self.pick_hole_at_cursor(hits, limit) {
            Some(hole) => hole,
            None => {
                return ;
            },
        };
        let dialog = match self.items.find_dataset(hole.dataset) {
            Some(i) => {
                let d = &self.items.drill_holes[i];
                let hole_name = if hole.hole < d.holes.len() {
                    d.holes[hole.hole].name.clone()
                } else {
                    "hole".to_owned()
                };
                let (delay_ms, existing): (u32, bool) = match d.find_initiation(hole.hole) {
                    Some(x) => (x.delay_ms, true),
                    None => (0, false),
                };
                InitiationDialog { target: hole, hole_name, delay_ms, existing }
            },
            None => {
                return ;
            },
        };
        self.blast.initiation_dialog = Some(dialog);
        self.frame.redraw_requested = true;
    }

    /// Sets or lifts the initiation of one hole.
    pub fn set_initiation(&mut self, target: HoleRef, delay_ms: Option<u32>)
        ensures
            initiation_set(*old(self), target, delay_ms, *final(self)),
    {
        if !self.visibility.is_reachable(target.dataset) {
            return ;
        }
        let before = match self.items.find_loaded_dataset(target.dataset) {
            Some(i) => self.items.drill_holes[i].find_initiation(target.hole),
            None => {
                return ;
            },
        };
        let after: Option<Initiation> = match delay_ms {
            Some(delay_ms) => Some(Initiation { hole: target.hole, delay_ms }),
            None => None,
        };
        let same = match (before, after) {
            (Some(a), Some(b)) => a == b,
            (None, None) => true,
            _ => false,
        };
        if !same {
            self.execute_edit(Edit::SetInitiation { dataset: target.dataset, before, after });
        }
    }

    fn find_nearest_tie(&self, hits: &Vec<TieHit>) -> (r: Option<TieHit>)
        ensures
            r == nearest_tie(*self, hits@, hits@.len() as int),
    {
        let mut best: Option<TieHit> = None;
        let mut i: usize = 0;
        while i < hits.len()
            invariant
                i <= hits.len(),
                best == nearest_tie(*self, hits@, i as int),
            decreases hits.len() - i,
        {
            let h = hits[i];
            if h.clear && is_not_above(h.distance, TIE_PICK_PX) && self.is_leg_there(h.tie) {
                let nearer = match best {
                    Some(b) => less32(h.distance, b.distance),
                    None => true,
                };
                if nearer {
                    best = Some(h);
                }
            }
            i += 1;
        }
        best
    }

    /// Selects the leg nearest to the pointer, among those that can be picked;
    /// tells whether there is one. `hits` are the legs that are drawn, in their
    /// order, with their distances.
    pub fn select_tie_at_cursor(&mut self, hits: &Vec<TieHit>) -> (r: bool)
        ensures
            tie_selected(*old(self), hits@, r, *final(self)),
    {
        if self.canvas.workspace != WorkspaceKind::DrillAndBlast || self.canvas.cursor_px.is_none() {
            return false;
        }
        match self.find_nearest_tie(hits) {
            Some(hit) => {
                let (shift, control) = (self.canvas.shift, self.canvas.control);
                self.selection.pick_tie(hit.tie, shift, control);
                self.frame.redraw_requested = true;
                true
            },
            None => false,
        }
    }

    fn make_tie_deletions(&self) -> (r: Vec<Edit>)
        ensures
            deletes_ties(r@, ties_to_delete(self.items.drill_holes@, self.selection.ties@)),
    {
        let s = &self.items.drill_holes;
        let selected = &self.selection.ties;
        let mut edits: Vec<Edit> = Vec::new();
        let mut i: usize = 0;
        assert(s@.take(0) =~= Seq::<OpenDrillHoleDataset>::empty());
        while i < s.len()
            invariant
                i <= s.len(),
                deletes_ties(edits@, ties_to_delete(s@.take(i as int), selected@)),
            decreases s.len() - i,
        {
            let ghost had = edits@;
            let ghost gone = ties_to_delete(s@.take(i as int), selected@);
            assert(s@.take(i + 1).drop_last() =~= s@.take(i as int));
            let ties = s[i].find_selected(selected);
            assert(tie_models(ties@).len() == ties@.len());
            if ties.len() > 0 {
                edits.push(Edit::SetTieIns { dataset: s[i].id, before: ties, after: Vec::new() });
                proof {
                    let now = ties_to_delete(s@.take(i + 1), selected@);
                    assert(now == gone.push((s@[i as int].id, tie_models(ties@))));
                    assert forall|j: int| 0 <= j < now.len() implies takes_ties(#[trigger] edits@[j], now[j].0, now[j].1) by {
                        if j < gone.len() {
                            assert(edits@[j] == had[j]);
                        }
                    }
                }
            }
            i += 1;
        }
        assert(s@.take(s@.len() as int) =~= s@);
        edits
    }

    /// Deletes the selected legs.
    pub fn delete_selected_tie_ins(&mut self)
        ensures
            ties_deleted(*old(self), *final(self)),
    {
        let edits = self.make_tie_deletions();
        let ghost made = edits@;
        if edits.len() > 0 {
            self.execute_batch(edits);
            assert(self.steps@.drop_last() =~= old(self).steps@);
        }
        self.selection.ties.clear();
    }
}

} // verus!
