//! Tying holes together and starting the round.

use crate::blast::{product_added, product_deleted, Blast, DelayProduct, TieLeg};
use crate::commands::tie_in::{
    initiation_asked, initiation_set, joins, latest, legs_along, legs_laid, missing, preview_legs, replaced_ties, round_refreshed, selected_ties,
    starts, tie_between, tie_models, tie_picked, tie_target, ties_deleted, ties_to_delete, TieFacts, TieModel,
};
use crate::edit::Edit;
use crate::ids::{DrillHoleId, HoleRef, SceneEntityId, TieRef};
use crate::items::{dataset_index, Initiation, OpenDrillHoleDataset, TieIn};
use crate::laws::lookup::keeps_steps;
use crate::search::{first_index, lemma_first_index};
use crate::state::{ActiveTool, App, Selection};
use vstd::prelude::*;

verus! {

/// A leg runs between two holes, in either direction.
pub open spec fn runs_between(t: TieIn, a: usize, b: usize) -> bool {
    (t.from == a && t.to == b) || (t.from == b && t.to == a)
}

/// Two legs are the same in every respect.
pub open spec fn same_tie(a: TieIn, b: TieIn) -> bool {
    a.from == b.from && a.to == b.to && a.delay_ms == b.delay_ms && a.product@ == b.product@ && a.color == b.color
}

/// A leg is one of a dataset, and runs between the holes of a leg that is laid.
pub open spec fn is_covered(t: TieIn, s: Seq<TieIn>, legs: Seq<TieLeg>) -> bool {
    exists|k: int, l: int|
        0 <= k < s.len() && 0 <= l < legs.len() && same_tie(t, #[trigger] s[k]) && runs_between(s[k], (#[trigger] legs[l]).from, legs[l].to)
}

spec fn model_covered(t: TieModel, s: Seq<TieIn>, legs: Seq<TieLeg>) -> bool {
    exists|k: int, l: int| 0 <= k < s.len() && 0 <= l < legs.len() && (#[trigger] s[k])@ == t && runs_between(s[k], (#[trigger] legs[l]).from, legs[l].to)
}

proof fn lemma_replaced(s: Seq<TieIn>, legs: Seq<TieLeg>)
    ensures
        replaced_ties(s, legs).len() <= legs.len(),
        forall|m: int|
            0 <= m < replaced_ties(s, legs).len() ==> model_covered(#[trigger] replaced_ties(s, legs)[m], s, legs),
        forall|l: int, k: int|
            0 <= l < legs.len() && 0 <= k < s.len() && runs_between(#[trigger] s[k], (#[trigger] legs[l]).from, legs[l].to) && (forall|j: int|
                0 <= j < k ==> !runs_between(#[trigger] s[j], legs[l].from, legs[l].to)) ==> replaced_ties(s, legs).contains(s[k]@),
    decreases legs.len(),
{
    if legs.len() > 0 {
        let short = legs.drop_last();
        let leg = legs.last();
        let before = replaced_ties(s, short);
        let all = replaced_ties(s, legs);
        lemma_replaced(s, short);
        let f = |t: TieIn| joins(t, leg.from, leg.to);
        lemma_first_index(s, f);
        let i = tie_between(s, leg.from, leg.to);
        assert(i == first_index(s, f));
        assert forall|m: int| 0 <= m < all.len() implies model_covered(#[trigger] all[m], s, legs) by {
            if m < before.len() {
                assert(model_covered(before[m], s, short));
                let (k, l) = choose|k: int, l: int|
                    0 <= k < s.len() && 0 <= l < short.len() && (#[trigger] s[k])@ == before[m] && runs_between(s[k], (#[trigger] short[l]).from, short[l].to);
                assert(legs[l] == short[l]);
                assert(s[k]@ == all[m]);
            } else {
                assert(f(s[i]));
                assert(legs[legs.len() - 1] == leg);
                assert(s[i]@ == all[m] && runs_between(s[i], legs[legs.len() - 1].from, legs[legs.len() - 1].to));
            }
        }
        assert forall|l: int, k: int|
            0 <= l < legs.len() && 0 <= k < s.len() && runs_between(#[trigger] s[k], (#[trigger] legs[l]).from, legs[l].to) && (forall|j: int|
                0 <= j < k ==> !runs_between(#[trigger] s[j], legs[l].from, legs[l].to)) implies all.contains(s[k]@) by {
            if l < legs.len() - 1 {
                assert(short[l] == legs[l]);
                assert(before.contains(s[k]@));
                let m = choose|m: int| 0 <= m < before.len() && before[m] == s[k]@;
                assert(all[m] == s[k]@);
            } else {
                assert(f(s[k]));
                if i < k {
                    assert(!runs_between(s[i], legs[l].from, legs[l].to));
                } else if k < i {
                    assert(!f(s[k]));
                }
                assert(i == k);
                assert(all[all.len() - 1] == s[k]@);
            }
        }
    }
}

/// Laying legs takes away what ran between their holes. Where the dataset ties
/// the two holes of a leg, in either direction, the leg that it has there
/// (the first, should it have several) is taken away as it is: with its delay,
/// product and colour. Nothing else is taken away.
pub proof fn law_laid_legs_replace_what_they_cover(pre: App, post: App, d: OpenDrillHoleDataset, l: int, k: int)
    requires
        legs_laid(pre, post),
        tie_target(pre) == Some(d),
        pre.blast.chosen() < pre.blast.products@.len(),
        0 <= l < pre.blast.preview@.len(),
        0 <= k < d.tie_ins@.len(),
    ensures
        post.steps@.last().edits@[0] matches Edit::SetTieIns { dataset, before, after } && {
            let leg = pre.blast.preview@[l];
            &&& dataset == d.id
            &&& runs_between(d.tie_ins@[k], leg.from, leg.to) ==> exists|m: int|
                0 <= m < before@.len() && runs_between(#[trigger] before@[m], leg.from, leg.to)
            &&& runs_between(d.tie_ins@[k], leg.from, leg.to) && (forall|j: int|
                0 <= j < k ==> !runs_between(#[trigger] d.tie_ins@[j], leg.from, leg.to)) ==> exists|m: int|
                0 <= m < before@.len() && same_tie(#[trigger] before@[m], d.tie_ins@[k])
            &&& forall|m: int|
                0 <= m < before@.len() ==> is_covered(#[trigger] before@[m], d.tie_ins@, pre.blast.preview@)
        },
{
    let legs = pre.blast.preview@;
    let s = d.tie_ins@;
    lemma_replaced(s, legs);
    let told = replaced_ties(s, legs);
    if let Edit::SetTieIns { dataset, before, after } = post.steps@.last().edits@[0] {
        assert(tie_models(before@) == told);
        assert(told.len() == before@.len());
        assert forall|m: int| 0 <= m < before@.len() implies told[m] == (#[trigger] before@[m])@ by {
            assert(tie_models(before@)[m] == before@[m]@);
        }
        assert forall|m: int| 0 <= m < before@.len() implies is_covered(#[trigger] before@[m], s, legs) by {
            assert(model_covered(told[m], s, legs));
            let (j, x) = choose|j: int, x: int|
                0 <= j < s.len() && 0 <= x < legs.len() && (#[trigger] s[j])@ == told[m] && runs_between(s[j], (#[trigger] legs[x]).from, legs[x].to);
            assert(same_tie(before@[m], s[j]));
        }
        let leg = legs[l];
        if runs_between(s[k], leg.from, leg.to) {
            let f = |t: TieIn| runs_between(t, leg.from, leg.to);
            lemma_first_index(s, f);
            let i = first_index(s, f);
            assert(f(s[k]));
            assert(runs_between(s[i], legs[l].from, legs[l].to));
            assert forall|j: int| 0 <= j < i implies !runs_between(#[trigger] s[j], legs[l].from, legs[l].to) by {
                assert(!f(s[j]));
            }
            assert(told.contains(s[i]@));
            let m = choose|m: int| 0 <= m < told.len() && told[m] == s[i]@;
            assert(before@[m]@ == s[i]@);
            assert(runs_between(before@[m], leg.from, leg.to));
            if forall|j: int| 0 <= j < k ==> !runs_between(#[trigger] s[j], leg.from, leg.to) {
                assert(i == k);
                assert(same_tie(before@[m], s[k]));
            }
        }
    }
}

/// Each leg that was shown is laid from its first hole to its second, with the
/// delay, name and colour of the chosen product. The next leg goes on from
/// where the last one ends.
pub proof fn law_laid_legs_are_those_shown(pre: App, post: App, d: OpenDrillHoleDataset, l: int)
    requires
        legs_laid(pre, post),
        tie_target(pre) == Some(d),
        pre.blast.chosen() < pre.blast.products@.len(),
        0 <= l < pre.blast.preview@.len(),
    ensures
        keeps_steps(pre, post) && post.steps@.len() == pre.steps@.len() + 1,
        post.steps@.last().edits@.len() == 1 && !post.steps@.last().applied,
        post.steps@.last().edits@[0] matches Edit::SetTieIns { dataset, before, after } && {
            let product = pre.blast.products@[pre.blast.chosen()];
            &&& dataset == d.id
            &&& after@.len() == pre.blast.preview@.len()
            &&& after@[l].from == pre.blast.preview@[l].from && after@[l].to == pre.blast.preview@[l].to
            &&& after@[l].delay_ms == product.delay_ms && after@[l].product@ == product.name@ && after@[l].color == product.color
        },
        post.blast.anchor == Some(HoleRef { dataset: d.id, hole: pre.blast.preview@.last().to }),
        post.blast.products == pre.blast.products && post.items == pre.items && post.selection == pre.selection,
{
    if let Edit::SetTieIns { dataset, before, after } = post.steps@.last().edits@[0] {
        assert(tie_models(after@).len() == after@.len());
        assert(tie_models(after@)[l] == after@[l]@);
    }
}

/// Legs are laid only in a dataset that is chosen, loaded, shown and neither
/// hidden nor locked, and only with a product chosen.
pub proof fn law_where_legs_are_laid(app: App, d: OpenDrillHoleDataset)
    requires
        tie_target(app) == Some(d),
    ensures
        app.canvas.active_drill_hole == Some(d.id),
        d.state.loaded && d.visible,
        app.items.drill_holes@.contains(d),
        !app.visibility.hidden@.contains(SceneEntityId::DrillHole(d.id)),
        !app.visibility.frozen@.contains(SceneEntityId::DrillHole(d.id)),
{
    let id = app.canvas.active_drill_hole->0;
    lemma_first_index(app.items.drill_holes@, |d: OpenDrillHoleDataset| d.id == id && d.state.loaded && d.visible);
}

/// The chosen product is the one of the chosen id.
pub proof fn law_chosen_product(b: Blast)
    ensures
        b.chosen() < b.products@.len() ==> b.active_product == Some(b.products@[b.chosen()].id) && 0 <= b.chosen(),
        b.active_product is None ==> b.chosen() >= b.products@.len(),
        b.active_product matches Some(id) ==> (b.chosen() >= b.products@.len() ==> forall|i: int| 0 <= i < b.products@.len() ==> (#[trigger] b.products@[i]).id != id),
{
    if let Some(id) = b.active_product {
        let f = |p: DelayProduct| p.id == id;
        lemma_first_index(b.products@, f);
        if b.chosen() >= b.products@.len() {
            assert forall|i: int| 0 <= i < b.products@.len() implies (#[trigger] b.products@[i]).id != id by {
                assert(!f(b.products@[i]));
            }
        }
    }
}

/// A chain of holes is shown as the legs between neighbours, from collar to
/// collar, each marked where it would take the place of one that is there.
pub proof fn law_shown_legs_join_neighbours(d: OpenDrillHoleDataset, chain: Seq<usize>, n: int)
    requires
        0 <= n < chain.len() || (n <= 0 && chain.len() == 0),
        forall|i: int| 0 <= i < chain.len() ==> (#[trigger] chain[i]) < d.holes@.len(),
    ensures
        legs_along(d, chain, n).len() == if n < 0 {
            0
        } else {
            n
        },
        forall|i: int|
            0 <= i < n ==> {
                let leg = #[trigger] legs_along(d, chain, n)[i];
                &&& leg.from == chain[i] && leg.to == chain[i + 1]
                &&& leg.start == d.holes@[chain[i] as int].placement.collar && leg.end == d.holes@[chain[i + 1] as int].placement.collar
                &&& leg.overwrite <==> exists|k: int| 0 <= k < d.tie_ins@.len() && runs_between(#[trigger] d.tie_ins@[k], chain[i], chain[i + 1])
            },
    decreases n,
{
    if n > 0 {
        law_shown_legs_join_neighbours(d, chain, n - 1);
        let (a, b) = (chain[n - 1], chain[n]);
        let f = |t: TieIn| joins(t, a, b);
        lemma_first_index(d.tie_ins@, f);
        let last = legs_along(d, chain, n)[n - 1];
        if last.overwrite {
            let k = first_index(d.tie_ins@, f);
            assert(f(d.tie_ins@[k]));
            assert(runs_between(d.tie_ins@[k], a, b));
        } else {
            assert forall|k: int| 0 <= k < d.tie_ins@.len() implies !runs_between(#[trigger] d.tie_ins@[k], a, b) by {
                assert(!f(d.tie_ins@[k]));
            }
        }
    }
}

/// A hole without a place among the holes has no leg.
pub proof fn law_shown_legs_are_within(d: OpenDrillHoleDataset, chain: Seq<usize>, n: int)
    requires
        n < chain.len(),
    ensures
        forall|i: int|
            0 <= i < legs_along(d, chain, n).len() ==> (#[trigger] legs_along(d, chain, n)[i]).from < d.holes@.len() && legs_along(d, chain, n)[i].to
                < d.holes@.len(),
    decreases n,
{
    if n > 0 {
        law_shown_legs_are_within(d, chain, n - 1);
        let (before, all) = (legs_along(d, chain, n - 1), legs_along(d, chain, n));
        assert forall|i: int| 0 <= i < all.len() implies (#[trigger] all[i]).from < d.holes@.len() && all[i].to < d.holes@.len() by {
            if i < before.len() {
                assert(all[i] == before[i]);
            }
        }
    }
}

/// Legs are shown only while holes are tied, from a hole of the dataset that
/// is tied, under the cursor.
pub proof fn law_when_legs_are_shown(app: App, facts: TieFacts)
    requires
        preview_legs(app, facts).len() > 0,
    ensures
        app.canvas.active_tool == ActiveTool::TieHoles && app.canvas.cursor_px is Some && facts.ready,
        (app.blast.anchor, tie_target(app)) matches (Some(anchor), Some(d)) && anchor.dataset == d.id && preview_legs(app, facts) == legs_along(
            d,
            facts.chain@,
            facts.chain@.len() - 1,
        ),
{
}

/// Asking for the start of a hole shows its name and the delay that it starts
/// with, zero where it does not start yet.
pub proof fn law_asking_for_a_start(pre: App, hole: HoleRef, post: App, i: int, d: OpenDrillHoleDataset)
    requires
        initiation_asked(pre, Some(hole), post),
        i == dataset_index(pre.items.drill_holes@, hole.dataset),
        0 <= i < pre.items.drill_holes@.len(),
        d == pre.items.drill_holes@[i],
    ensures
        post.blast.initiation_dialog matches Some(dialog) && {
            &&& dialog.target == hole
            &&& hole.hole < d.holes@.len() ==> dialog.hole_name@ == d.holes@[hole.hole as int].name@
            &&& dialog.existing <==> exists|k: int| 0 <= k < d.initiations@.len() && (#[trigger] d.initiations@[k]).hole == hole.hole
            &&& dialog.existing ==> exists|k: int|
                0 <= k < d.initiations@.len() && (#[trigger] d.initiations@[k]).hole == hole.hole && d.initiations@[k].delay_ms == dialog.delay_ms
            &&& !dialog.existing ==> dialog.delay_ms == 0
        },
        post.steps == pre.steps && post.items == pre.items && post.selection == pre.selection,
{
    lemma_start(d.initiations@, hole.hole);
}

proof fn lemma_start(s: Seq<Initiation>, hole: usize)
    ensures
        crate::commands::tie_in::initiation_of(s, hole) is Some <==> exists|k: int| 0 <= k < s.len() && (#[trigger] s[k]).hole == hole,
        crate::commands::tie_in::initiation_of(s, hole) matches Some(x) ==> x.hole == hole && exists|k: int| 0 <= k < s.len() && #[trigger] s[k] == x && s[k].hole
            == hole,
{
    let f = |x: Initiation| x.hole == hole;
    lemma_first_index(s, f);
    let i = first_index(s, f);
    if i < s.len() {
        assert(f(s[i]));
        assert(s[i].hole == hole);
    } else {
        assert forall|k: int| 0 <= k < s.len() implies (#[trigger] s[k]).hole != hole by {
            assert(!f(s[k]));
        }
    }
}

/// Setting the start of a hole that can be reached goes from what it was to
/// the delay that was told; where that changes nothing, nothing happens.
pub proof fn law_setting_a_start(pre: App, target: HoleRef, delay_ms: Option<u32>, post: App)
    requires
        initiation_set(pre, target, delay_ms, post),
    ensures
        post.steps@.len() == pre.steps@.len() || post.steps@.len() == pre.steps@.len() + 1,
        post.steps@.len() == pre.steps@.len() + 1 ==> {
            &&& post.steps@.last().edits@.len() == 1
            &&& post.steps@.last().edits@[0] matches Edit::SetInitiation { dataset, before, after } && {
                &&& dataset == target.dataset
                &&& before != after
                &&& delay_ms is None <==> after is None
                &&& after matches Some(x) ==> x.hole == target.hole && delay_ms == Some(x.delay_ms)
                &&& before matches Some(x) ==> x.hole == target.hole && exists|i: int, k: int|
                    0 <= i < pre.items.drill_holes@.len() && pre.items.drill_holes@[i].id == target.dataset && pre.items.drill_holes@[i].state.loaded && 0 <= k
                        < pre.items.drill_holes@[i].initiations@.len() && #[trigger] pre.items.drill_holes@[i].initiations@[k] == x
                &&& before is None ==> exists|i: int|
                    0 <= i < pre.items.drill_holes@.len() && (#[trigger] pre.items.drill_holes@[i]).id == target.dataset && forall|k: int|
                        0 <= k < pre.items.drill_holes@[i].initiations@.len() ==> (#[trigger] pre.items.drill_holes@[i].initiations@[k]).hole != target.hole
            }
            &&& !pre.visibility.hidden@.contains(SceneEntityId::DrillHole(target.dataset))
            &&& !pre.visibility.frozen@.contains(SceneEntityId::DrillHole(target.dataset))
        },
        post.items == pre.items && post.blast == pre.blast && post.selection == pre.selection,
{
    let s = pre.items.drill_holes@;
    let id = target.dataset;
    let f = |d: OpenDrillHoleDataset| d.id == id && d.state.loaded;
    lemma_first_index(s, f);
    let i = first_index(s, f);
    assert(i == crate::commands::tie_in::loaded_index(s, id));
    if i < s.len() {
        assert(f(s[i]));
        lemma_start(s[i].initiations@, target.hole);
        let x = crate::commands::tie_in::initiation_of(s[i].initiations@, target.hole);
        if x is None {
            assert(s[i].id == target.dataset);
        } else {
            let k = choose|k: int| 0 <= k < s[i].initiations@.len() && #[trigger] s[i].initiations@[k] == x->0;
            assert(pre.items.drill_holes@[i].initiations@[k] == x->0);
        }
    }
}

spec fn model_selected(t: TieModel, id: DrillHoleId, s: Seq<TieIn>, selected: Set<TieRef>) -> bool {
    exists|k: int| 0 <= k < s.len() && (#[trigger] s[k])@ == t && selected.contains(TieRef { dataset: id, from: s[k].from, to: s[k].to })
}

spec fn dataset_deleted(gone: (DrillHoleId, Seq<TieModel>), s: Seq<OpenDrillHoleDataset>, selected: Set<TieRef>) -> bool {
    exists|d: int|
        0 <= d < s.len() && (#[trigger] s[d]).id == gone.0 && gone.1 == selected_ties(s[d].id, s[d].tie_ins@, selected) && gone.1.len() > 0
}

proof fn lemma_selected(id: DrillHoleId, s: Seq<TieIn>, selected: Set<TieRef>)
    ensures
        forall|k: int|
            0 <= k < s.len() && selected.contains(TieRef { dataset: id, from: (#[trigger] s[k]).from, to: s[k].to }) ==> selected_ties(id, s, selected).contains(
                s[k]@,
            ),
        forall|m: int|
            0 <= m < selected_ties(id, s, selected).len() ==> model_selected(#[trigger] selected_ties(id, s, selected)[m], id, s, selected),
    decreases s.len(),
{
    if s.len() > 0 {
        let short = s.drop_last();
        lemma_selected(id, short, selected);
        let (before, all) = (selected_ties(id, short, selected), selected_ties(id, s, selected));
        assert forall|k: int|
            0 <= k < s.len() && selected.contains(TieRef { dataset: id, from: (#[trigger] s[k]).from, to: s[k].to }) implies all.contains(s[k]@) by {
            if k < s.len() - 1 {
                assert(short[k] == s[k]);
                assert(before.contains(s[k]@));
                let m = choose|m: int| 0 <= m < before.len() && before[m] == s[k]@;
                assert(all[m] == s[k]@);
            } else {
                assert(all[all.len() - 1] == s[k]@);
            }
        }
        assert forall|m: int| 0 <= m < all.len() implies model_selected(#[trigger] all[m], id, s, selected) by {
            if m < before.len() {
                assert(model_selected(before[m], id, short, selected));
                let k = choose|k: int|
                    0 <= k < short.len() && (#[trigger] short[k])@ == before[m] && selected.contains(TieRef { dataset: id, from: short[k].from, to: short[k].to });
                assert(s[k] == short[k]);
            } else {
                assert(s[s.len() - 1] == s.last());
            }
        }
    }
}

proof fn lemma_deleted(s: Seq<OpenDrillHoleDataset>, selected: Set<TieRef>)
    ensures
        forall|e: int|
            0 <= e < ties_to_delete(s, selected).len() ==> dataset_deleted(#[trigger] ties_to_delete(s, selected)[e], s, selected),
        forall|d: int|
            0 <= d < s.len() && selected_ties((#[trigger] s[d]).id, s[d].tie_ins@, selected).len() > 0 ==> ties_to_delete(s, selected).contains(
                (s[d].id, selected_ties(s[d].id, s[d].tie_ins@, selected)),
            ),
    decreases s.len(),
{
    if s.len() > 0 {
        let short = s.drop_last();
        lemma_deleted(short, selected);
        let (before, all) = (ties_to_delete(short, selected), ties_to_delete(s, selected));
        assert forall|e: int| 0 <= e < all.len() implies dataset_deleted(#[trigger] all[e], s, selected) by {
            if e < before.len() {
                assert(dataset_deleted(before[e], short, selected));
                let d = choose|d: int|
                    0 <= d < short.len() && (#[trigger] short[d]).id == before[e].0 && before[e].1 == selected_ties(short[d].id, short[d].tie_ins@, selected)
                        && before[e].1.len() > 0;
                assert(s[d] == short[d]);
            } else {
                assert(s[s.len() - 1] == s.last());
            }
        }
        assert forall|d: int| 0 <= d < s.len() && selected_ties((#[trigger] s[d]).id, s[d].tie_ins@, selected).len() > 0 implies all.contains(
            (s[d].id, selected_ties(s[d].id, s[d].tie_ins@, selected)),
        ) by {
            let x = (s[d].id, selected_ties(s[d].id, s[d].tie_ins@, selected));
            if d < s.len() - 1 {
                assert(short[d] == s[d]);
                assert(before.contains(x));
                let m = choose|m: int| 0 <= m < before.len() && before[m] == x;
                assert(all[m] == x);
            } else {
                assert(all[all.len() - 1] == x);
            }
        }
    }
}

/// Deleting the selected legs takes away each of them as it is, with its
/// delay, product and colour, puts nothing in their place, and takes away no
/// other.
pub proof fn law_deleted_legs_are_the_selected(pre: App, post: App, d: int, k: int, e: int)
    requires
        ties_deleted(pre, post),
        0 <= d < pre.items.drill_holes@.len(),
        0 <= k < pre.items.drill_holes@[d].tie_ins@.len(),
        post.steps@.len() > pre.steps@.len() ==> 0 <= e < post.steps@.last().edits@.len(),
    ensures
        ({
            let set = pre.items.drill_holes@[d];
            let tie = set.tie_ins@[k];
            pre.selection.ties@.contains(TieRef { dataset: set.id, from: tie.from, to: tie.to }) ==> keeps_steps(pre, post) && post.steps@.len() == pre.steps@.len() + 1 && exists|x: int|
                0 <= x < post.steps@.last().edits@.len() && ((#[trigger] post.steps@.last().edits@[x]) matches Edit::SetTieIns { dataset, before, after }
                    && dataset == set.id && exists|m: int| 0 <= m < before@.len() && same_tie(#[trigger] before@[m], tie))
        }),
        post.steps@.len() > pre.steps@.len() ==> (post.steps@.last().edits@[e] matches Edit::SetTieIns { dataset, before, after } && {
            &&& after@.len() == 0
            &&& before@.len() > 0
            &&& forall|m: int|
                0 <= m < before@.len() ==> pre.selection.ties@.contains(
                    TieRef { dataset, from: (#[trigger] before@[m]).from, to: before@[m].to },
                ) && exists|y: int, j: int|
                    0 <= y < pre.items.drill_holes@.len() && pre.items.drill_holes@[y].id == dataset && 0 <= j < pre.items.drill_holes@[y].tie_ins@.len()
                        && same_tie(before@[m], #[trigger] pre.items.drill_holes@[y].tie_ins@[j])
        }),
        post.selection.ties@ == Set::<TieRef>::empty(),
        post.selection.handles == pre.selection.handles,
{
    let sets = pre.items.drill_holes@;
    let selected = pre.selection.ties@;
    let gone = ties_to_delete(sets, selected);
    lemma_deleted(sets, selected);
    let set = sets[d];
    let tie = set.tie_ins@[k];
    lemma_selected(set.id, set.tie_ins@, selected);
    let mine = selected_ties(set.id, set.tie_ins@, selected);
    if selected.contains(TieRef { dataset: set.id, from: tie.from, to: tie.to }) {
        assert(mine.contains(tie@));
        assert(gone.contains((set.id, mine)));
        let x = choose|x: int| 0 <= x < gone.len() && gone[x] == (set.id, mine);
        let edit = post.steps@.last().edits@[x];
        assert(crate::commands::tie_in::takes_ties(edit, gone[x].0, gone[x].1));
        if let Edit::SetTieIns { dataset, before, after } = edit {
            assert(tie_models(before@) == mine);
            let m = choose|m: int| 0 <= m < mine.len() && mine[m] == tie@;
            assert(tie_models(before@).len() == before@.len());
            assert(tie_models(before@)[m] == before@[m]@);
            assert(same_tie(before@[m], tie));
        }
    }
    if post.steps@.len() > pre.steps@.len() {
        let edit = post.steps@.last().edits@[e];
        assert(crate::commands::tie_in::takes_ties(edit, gone[e].0, gone[e].1));
        assert(dataset_deleted(gone[e], sets, selected));
        let y = choose|y: int|
            0 <= y < sets.len() && (#[trigger] sets[y]).id == gone[e].0 && gone[e].1 == selected_ties(sets[y].id, sets[y].tie_ins@, selected) && gone[e].1.len()
                > 0;
        lemma_selected(sets[y].id, sets[y].tie_ins@, selected);
        if let Edit::SetTieIns { dataset, before, after } = edit {
            assert(tie_models(before@).len() == before@.len());
            assert forall|m: int| 0 <= m < before@.len() implies selected.contains(TieRef { dataset, from: (#[trigger] before@[m]).from, to: before@[m].to })
                && exists|y: int, j: int|
                0 <= y < sets.len() && sets[y].id == dataset && 0 <= j < sets[y].tie_ins@.len() && same_tie(before@[m], #[trigger] sets[y].tie_ins@[j]) by {
                assert(tie_models(before@)[m] == before@[m]@);
                assert(model_selected(gone[e].1[m], sets[y].id, sets[y].tie_ins@, selected));
                let j = choose|j: int|
                    0 <= j < sets[y].tie_ins@.len() && (#[trigger] sets[y].tie_ins@[j])@ == gone[e].1[m] && selected.contains(
                        TieRef { dataset: sets[y].id, from: sets[y].tie_ins@[j].from, to: sets[y].tie_ins@[j].to },
                    );
                assert(same_tie(before@[m], sets[y].tie_ins@[j]));
            }
        }
    }
}

/// The latest of the times is one of them, and none is later.
pub proof fn law_latest_time(times: Seq<Option<u64>>)
    ensures
        latest(times) matches Some(t) ==> times.contains(Some(t)),
        forall|i: int| 0 <= i < times.len() ==> ((#[trigger] times[i]) matches Some(u) ==> latest(times) is Some && u <= latest(times)->0),
    decreases times.len(),
{
    if times.len() > 0 {
        let short = times.drop_last();
        law_latest_time(short);
        assert(times[times.len() - 1] == times.last());
        if latest(short) is Some {
            let i = choose|i: int| 0 <= i < short.len() && short[i] == latest(short);
            assert(times[i] == short[i]);
        }
        assert forall|i: int| 0 <= i < times.len() implies ((#[trigger] times[i]) matches Some(u) ==> latest(times) is Some && u <= latest(times)->0) by {
            if i < times.len() - 1 {
                assert(short[i] == times[i]);
            }
        }
    }
}

/// The holes that are never reached are those without a time.
pub proof fn law_unreached_holes(times: Seq<Option<u64>>, t: Option<u64>)
    ensures
        missing(Seq::empty()) == 0,
        missing(times.push(t)) == missing(times) + if t is None {
            1int
        } else {
            0
        },
        0 <= missing(times) <= times.len(),
    decreases times.len(),
{
    assert(times.push(t).drop_last() =~= times);
    if times.len() > 0 {
        law_unreached_holes(times.drop_last(), None);
    }
}

/// A round starts where its holes are started, under their names and with
/// their delays; it has the legs of its dataset, runs until the last hole
/// fires, and tells how many are never reached.
pub proof fn law_round_adds_up(pre: App, times: Seq<Option<u64>>, post: App, d: OpenDrillHoleDataset, k: int)
    requires
        round_refreshed(pre, times, post),
        tie_target(pre) == Some(d),
        pre.blast.round_key != Some((d.id.0, d.state.epoch)),
        0 <= k < d.initiations@.len(),
        forall|i: int| 0 <= i < d.initiations@.len() ==> (#[trigger] d.initiations@[i]).hole < d.holes@.len(),
    ensures
        post.blast.round_key == Some((d.id.0, d.state.epoch)),
        post.blast.round.initiations@.len() == d.initiations@.len(),
        post.blast.round.initiations@[k].0@ == d.holes@[d.initiations@[k].hole as int].name@,
        post.blast.round.initiations@[k].1 == d.initiations@[k].delay_ms,
        post.blast.round.connectors == d.tie_ins@.len(),
        post.blast.round.duration_ms == latest(times),
        post.blast.round.unreached == missing(times),
{
    lemma_starts(d, d.initiations@.len() as int);
    let told = crate::commands::tie_in::start_models(post.blast.round.initiations@);
    assert(told.len() == post.blast.round.initiations@.len());
    assert(told[k] == (post.blast.round.initiations@[k].0@, post.blast.round.initiations@[k].1));
}

proof fn lemma_starts(d: OpenDrillHoleDataset, n: int)
    requires
        0 <= n <= d.initiations@.len(),
        forall|i: int| 0 <= i < d.initiations@.len() ==> (#[trigger] d.initiations@[i]).hole < d.holes@.len(),
    ensures
        starts(d, n).len() == n,
        forall|i: int|
            0 <= i < n ==> #[trigger] starts(d, n)[i] == (d.holes@[d.initiations@[i].hole as int].name@, d.initiations@[i].delay_ms),
    decreases n,
{
    if n > 0 {
        lemma_starts(d, n - 1);
    }
}

/// Picking a leg alone selects it and nothing else; with control it is added;
/// with shift, or where it is selected already, its own selection turns over.
pub proof fn law_picking_a_leg(pre: Selection, tie: TieRef, shift: bool, control: bool, post: Selection, other: TieRef)
    requires
        tie_picked(pre, tie, shift, control, post),
    ensures
        shift ==> (post.ties@.contains(tie) <==> !pre.ties@.contains(tie)),
        control && !shift ==> post.ties@.contains(tie),
        !control && !shift ==> (post.ties@.contains(tie) <==> !pre.ties@.contains(tie)),
        other != tie && (shift || control) ==> (post.ties@.contains(other) <==> pre.ties@.contains(other)),
        other != tie && !shift && !control ==> (post.ties@.contains(other) <==> pre.ties@.contains(tie) && pre.ties@.contains(other)),
        !shift && !control && !pre.ties@.contains(tie) ==> post.handles@.len() == 0,
        shift || control ==> post.handles == pre.handles,
{
}

/// A new product has what it was given and is chosen; a deleted one is gone,
/// and where it was chosen the first that is left is.
pub proof fn law_products(pre: Blast, delay_ms: u32, name: String, color: u32, added: Blast, id: u64, deleted: Blast, k: int)
    requires
        product_added(pre, delay_ms, name, color, added),
        product_deleted(pre, id, deleted),
        0 <= k < pre.products@.len(),
        pre.products@[k].id == id,
        forall|j: int| 0 <= j < k ==> (#[trigger] pre.products@[j]).id != id,
    ensures
        added.products@.last().id == pre.next_product_id && added.products@.last().delay_ms == delay_ms && added.products@.last().name == name
            && added.products@.last().color == color,
        added.active_product == Some(pre.next_product_id),
        deleted.products@ == pre.products@.remove(k),
        pre.active_product == Some(id) && pre.products@.len() > 1 ==> deleted.active_product == Some(deleted.products@[0].id),
        pre.active_product == Some(id) && pre.products@.len() == 1 ==> deleted.active_product is None,
        pre.active_product != Some(id) ==> deleted.active_product == pre.active_product,
        added.products_stale && deleted.products_stale,
        pre.next_product_id < u64::MAX ==> added.next_product_id == pre.next_product_id + 1,
        deleted.next_product_id == pre.next_product_id,
        added.products@.drop_last() == pre.products@,
{
    crate::search::lemma_is_first_index(pre.products@, |p: DelayProduct| p.id == id, k);
}

} // verus!
