//! Block models, drillholes and point clouds.

use crate::commands::blocks::{
    all_samples, decode_applied, decode_begun, dialog_opened, estimates_refused, hole_samples, initial_variable, kriging_refused, middle_of,
    model_closed, model_removed, model_selected, model_visibility_toggled, ore_blocks, preferred_variable, ramp_place, ramp_set, slice_set,
    variable_set, variables_refused, Estimate, KrigingDialog, KrigingExtent, KrigingRequest, KrigingSample, OreFilterMode, TablePage,
};
use crate::commands::boreholes::{
    categories_colored, cloud_removed, dataset_removed, field_colored, pattern_created, preset_colored, sorted_stops, stop_finite, stops_set,
    total_key, usable_stops,
};
use crate::document::Rgba;
use crate::edit::Edit;
use crate::error::AppError;
use crate::ids::{BlockModelId, DrillHoleId, HoleRef, ItemRef, PointCloudId, SceneEntityId, TieRef};
use crate::ieee::{f32_less, f64_finite, f64_less, f64_nan, Point3};
use crate::items::{
    block_model_index, dataset_index, BlockModelSlice, BlockVariable, Bounds, DrillColorPreset, DrillColorStop, DrillField, DrillHole, DrillValue,
    HolePlacement, Items, OpenBlockModel, OpenDrillHoleDataset, OpenItem,
};
use crate::jobs::{JobKey, Work};
use crate::laws::items::name_is_new;
use crate::laws::lookup::keeps_steps;
use crate::search::{first_index, lemma_first_index};
use crate::state::App;
use crate::styles::{transfer_models, StyleModel};
use crate::text::{text_of, trimmed};
use vstd::prelude::*;

verus! {

/// The last step is a change of the style of one item; this is what it goes to.
pub open spec fn restyled(pre: App, post: App, item: ItemRef) -> Option<StyleModel> {
    if keeps_steps(pre, post) && post.steps@.len() == pre.steps@.len() + 1 && post.steps@.last().edits@.len() == 1 {
        match post.steps@.last().edits@[0] {
            Edit::SetItemStyle { item: i, before: _, after } if i == item => Some(after@),
            _ => None,
        }
    } else {
        None
    }
}

/// The style is that of a block model, but for what is told of it.
pub open spec fn looks(
    style: StyleModel,
    m: OpenBlockModel,
    visible: bool,
    slice: Option<BlockModelSlice>,
    variable: Option<Seq<char>>,
    transfers: Seq<(Seq<char>, u64)>,
) -> bool {
    style == (StyleModel::BlockModel {
        loaded: m.state.loaded,
        visible,
        color: m.color,
        slice,
        active_color_variable: variable,
        color_transfers: transfers,
        hide_empty_color_values: m.hide_empty_color_values,
    })
}

/// The ramps of a block model are those that it has, in their order.
pub proof fn law_ramps_of_a_model(m: OpenBlockModel)
    ensures
        transfer_models(m.color_transfers@).len() == m.color_transfers@.len(),
        forall|k: int|
            0 <= k < m.color_transfers@.len() ==> #[trigger] transfer_models(m.color_transfers@)[k] == (
                m.color_transfers@[k].variable@,
                m.color_transfers@[k].ramp,
            ),
{
}

/// Showing a block model turns its visibility over and nothing else.
pub proof fn law_block_model_visibility_turns_over(pre: App, id: BlockModelId, post: App, i: int)
    requires
        model_visibility_toggled(pre, id, post),
        i == block_model_index(pre.items.block_models@, id),
        0 <= i < pre.items.block_models@.len(),
    ensures
        restyled(pre, post, ItemRef::BlockModel(id)) matches Some(s) && ({
            let m = pre.items.block_models@[i];
            looks(s, m, !m.visible, m.slice, text_of(m.active_color_variable), transfer_models(m.color_transfers@))
        }),
        post.items == pre.items && post.selection == pre.selection,
{
}

/// Choosing another variable shows that one and changes nothing else.
pub proof fn law_shown_variable(pre: App, id: BlockModelId, variable: Seq<char>, post: App, i: int)
    requires
        variable_set(pre, id, variable, post),
        i == block_model_index(pre.items.block_models@, id),
        0 <= i < pre.items.block_models@.len(),
    ensures
        text_of(pre.items.block_models@[i].active_color_variable) == Some(variable) ==> post == pre,
        text_of(pre.items.block_models@[i].active_color_variable) != Some(variable) ==> (restyled(pre, post, ItemRef::BlockModel(id)) matches Some(s) && ({
            let m = pre.items.block_models@[i];
            looks(s, m, m.visible, m.slice, Some(variable), transfer_models(m.color_transfers@))
        })),
{
}

/// Values are decoded for the variable that is shown, once they are not yet.
pub proof fn law_decoding(pre: App, id: BlockModelId, post: App, i: int)
    requires
        decode_begun(pre, id, post),
        i == block_model_index(pre.items.block_models@, id),
        0 <= i < pre.items.block_models@.len(),
    ensures
        ({
            let m = pre.items.block_models@[i];
            let due = m.active_color_variable is Some && text_of(m.decoded) != text_of(m.active_color_variable);
            &&& !due ==> post == pre
            &&& due ==> post.jobs.pending@.len() == pre.jobs.pending@.len() + 1 && post.jobs.pending@.last().keys@ == seq![JobKey::BlockModel(id)] && (
            post.jobs.pending@.last().work matches Work::DecodeValues { id: b, variable } && b == id && Some(variable@) == text_of(m.active_color_variable))
        }),
        post.items == pre.items,
{
}

proof fn lemma_ramp_place(s: Seq<(Seq<char>, u64)>, variable: Seq<char>)
    ensures
        -1 <= ramp_place(s, variable) < s.len(),
        ramp_place(s, variable) >= 0 ==> s[ramp_place(s, variable)].0 == variable,
        forall|k: int| ramp_place(s, variable) < k < s.len() ==> (#[trigger] s[k]).0 != variable,
    decreases s.len(),
{
    if s.len() > 0 && s.last().0 != variable {
        let short = s.drop_last();
        lemma_ramp_place(short, variable);
        assert forall|k: int| ramp_place(s, variable) < k < s.len() implies (#[trigger] s[k]).0 != variable by {
            if k < s.len() - 1 {
                assert(short[k] == s[k]);
            }
        }
    }
}

/// Decoded values belong to their model as long as it shows their variable. A
/// variable without a ramp gets the one that came with them; one that has a
/// ramp keeps it, and the others keep theirs.
pub proof fn law_decoded_values(pre: App, id: BlockModelId, variable: Seq<char>, ramp: Option<u64>, post: App, i: int)
    requires
        decode_applied(pre, id, variable, ramp, post),
        i == block_model_index(pre.items.block_models@, id),
        0 <= i < pre.items.block_models@.len(),
    ensures
        ({
            let (m, n) = (pre.items.block_models@[i], post.items.block_models@[i]);
            let had = exists|k: int| 0 <= k < m.color_transfers@.len() && (#[trigger] m.color_transfers@[k]).variable@ == variable;
            &&& text_of(m.active_color_variable) != Some(variable) ==> post == pre
            &&& text_of(m.active_color_variable) == Some(variable) ==> {
                &&& text_of(n.decoded) == Some(variable)
                &&& n.blocks == m.blocks && n.color == m.color && n.slice == m.slice && n.visible == m.visible && n.active_color_variable
                    == m.active_color_variable
                &&& forall|k: int|
                    0 <= k < m.color_transfers@.len() ==> (#[trigger] n.color_transfers@[k]).variable@ == m.color_transfers@[k].variable@
                        && n.color_transfers@[k].ramp == m.color_transfers@[k].ramp
                &&& n.color_transfers@.len() == m.color_transfers@.len() + if !had && ramp is Some {
                    1int
                } else {
                    0
                }
                &&& !had && ramp is Some ==> n.color_transfers@.last().variable@ == variable && Some(n.color_transfers@.last().ramp) == ramp
                &&& had ==> n.state == m.state
            }
        }),
{
    let (m, n) = (pre.items.block_models@[i], post.items.block_models@[i]);
    let (was, is) = (transfer_models(m.color_transfers@), transfer_models(n.color_transfers@));
    lemma_ramp_place(was, variable);
    let at = ramp_place(was, variable);
    law_ramps_of_a_model(m);
    law_ramps_of_a_model(n);
    if at >= 0 {
        assert(was[at].0 == variable);
        assert(m.color_transfers@[at].variable@ == variable);
    } else {
        assert forall|k: int| 0 <= k < m.color_transfers@.len() implies (#[trigger] m.color_transfers@[k]).variable@ != variable by {
            assert(was[k].0 != variable);
        }
    }
    if text_of(m.active_color_variable) == Some(variable) {
        assert(was.len() == m.color_transfers@.len() && is.len() == n.color_transfers@.len());
        assert forall|k: int| 0 <= k < m.color_transfers@.len() implies (#[trigger] n.color_transfers@[k]).variable@ == m.color_transfers@[k].variable@
            && n.color_transfers@[k].ramp == m.color_transfers@[k].ramp by {
            assert(is[k] == was[k]);
        }
        if at < 0 && ramp is Some {
            let last = n.color_transfers@.len() - 1;
            assert(is[last] == (variable, ramp->0));
        }
    }
}

/// Setting the ramp sets it for the variable that is shown and for no other.
pub proof fn law_ramp_of_the_shown_variable(pre: App, id: BlockModelId, ramp: u64, post: App, i: int)
    requires
        ramp_set(pre, id, ramp, post),
        i == block_model_index(pre.items.block_models@, id),
        0 <= i < pre.items.block_models@.len(),
    ensures
        restyled(pre, post, ItemRef::BlockModel(id)) matches Some(s) ==> {
            let m = pre.items.block_models@[i];
            let now = s->BlockModel_color_transfers;
            &&& m.active_color_variable matches Some(v) && looks(s, m, m.visible, m.slice, Some(v@), now) && exists|k: int|
                0 <= k < now.len() && #[trigger] now[k] == (v@, ramp)
            &&& forall|k: int|
                0 <= k < m.color_transfers@.len() && (#[trigger] m.color_transfers@[k]).variable@ != m.active_color_variable->0@ ==> now[k] == (
                    m.color_transfers@[k].variable@,
                    m.color_transfers@[k].ramp,
                )
            &&& m.color_transfers@.len() <= now.len() <= m.color_transfers@.len() + 1
        },
        post.steps@.len() == pre.steps@.len() || restyled(pre, post, ItemRef::BlockModel(id)) is Some,
        post.items == pre.items,
{
    let m = pre.items.block_models@[i];
    if let Some(v) = m.active_color_variable {
        let was = transfer_models(m.color_transfers@);
        lemma_ramp_place(was, v@);
        law_ramps_of_a_model(m);
        let now = crate::commands::blocks::with_ramp(was, v@, ramp);
        let at = if ramp_place(was, v@) < 0 {
            was.len() as int
        } else {
            ramp_place(was, v@)
        };
        assert(now[at] == (v@, ramp));
        assert forall|k: int| 0 <= k < m.color_transfers@.len() && (#[trigger] m.color_transfers@[k]).variable@ != v@ implies now[k] == (
            m.color_transfers@[k].variable@,
            m.color_transfers@[k].ramp,
        ) by {
            assert(was[k].0 != v@);
            assert(now[k] == was[k]);
        }
    }
}

/// A number lies between two others.
pub open spec fn between(v: u64, low: u64, high: u64) -> bool {
    !f64_less(v, low) && !f64_less(high, v)
}

/// A slice lies within its model: it is cut off at the model's bounds and
/// otherwise as it was asked for. One that is turned inside out is refused.
pub proof fn law_slices_lie_within(pre: App, id: BlockModelId, slice: Option<BlockModelSlice>, post: App, i: int)
    requires
        slice_set(pre, id, slice, post),
        i == block_model_index(pre.items.block_models@, id),
        0 <= i < pre.items.block_models@.len(),
        ({
            let b = pre.items.block_models@[i].local_bounds;
            f64_less(b.min.x, b.max.x) && f64_less(b.min.y, b.max.y) && f64_less(b.min.z, b.max.z)
        }),
    ensures
        restyled(pre, post, ItemRef::BlockModel(id)) matches Some(s) ==> {
            let m = pre.items.block_models@[i];
            let b = m.local_bounds;
            let now = s->BlockModel_slice;
            &&& looks(s, m, m.visible, now, text_of(m.active_color_variable), transfer_models(m.color_transfers@))
            &&& slice is None <==> now is None
            &&& (slice, now) matches (Some(v), Some(w)) ==> {
                &&& between(w.min.x, b.min.x, b.max.x) && between(w.min.y, b.min.y, b.max.y) && between(w.min.z, b.min.z, b.max.z)
                &&& between(w.max.x, b.min.x, b.max.x) && between(w.max.y, b.min.y, b.max.y) && between(w.max.z, b.min.z, b.max.z)
                &&& between(v.min.x, b.min.x, b.max.x) ==> w.min.x == v.min.x
                &&& between(v.min.y, b.min.y, b.max.y) ==> w.min.y == v.min.y
                &&& between(v.min.z, b.min.z, b.max.z) ==> w.min.z == v.min.z
                &&& between(v.max.x, b.min.x, b.max.x) ==> w.max.x == v.max.x
                &&& between(v.max.y, b.min.y, b.max.y) ==> w.max.y == v.max.y
                &&& between(v.max.z, b.min.z, b.max.z) ==> w.max.z == v.max.z
                &&& !f64_less(w.max.x, w.min.x) && !f64_less(w.max.y, w.min.y) && !f64_less(w.max.z, w.min.z)
                &&& f64_finite(w.min.x) && f64_finite(w.min.y) && f64_finite(w.min.z) && f64_finite(w.max.x) && f64_finite(w.max.y) && f64_finite(w.max.z)
            }
        },
        post.steps@.len() == pre.steps@.len() || restyled(pre, post, ItemRef::BlockModel(id)) is Some,
        slice is None && pre.items.block_models@[i].slice is Some ==> restyled(pre, post, ItemRef::BlockModel(id)) is Some,
{
}

/// Selecting a block model that is loaded selects it alone and shows it.
pub proof fn law_selecting_a_block_model(pre: App, id: BlockModelId, post: App, h: SceneEntityId)
    requires
        model_selected(pre, id, post),
    ensures
        (exists|i: int| 0 <= i < pre.items.block_models@.len() && (#[trigger] pre.items.block_models@[i]).id == id && pre.items.block_models@[i].state.loaded) ==> (
        post.selection.handles@.contains(h) <==> h == SceneEntityId::BlockModel(id)) && post.blocks.viewport == Some(id),
        (forall|i: int| 0 <= i < pre.items.block_models@.len() && (#[trigger] pre.items.block_models@[i]).id == id ==> !pre.items.block_models@[i].state.loaded)
            ==> post == pre,
        post.items == pre.items && post.steps == pre.steps,
{
    let f = |m: OpenBlockModel| m.id == id && m.state.loaded;
    lemma_first_index(pre.items.block_models@, f);
    if exists|i: int| 0 <= i < pre.items.block_models@.len() && (#[trigger] pre.items.block_models@[i]).id == id && pre.items.block_models@[i].state.loaded {
        let i = choose|i: int| 0 <= i < pre.items.block_models@.len() && (#[trigger] pre.items.block_models@[i]).id == id && pre.items.block_models@[i].state.loaded;
        assert(f(pre.items.block_models@[i]));
    }
}

/// Closing a block model unloads it and no other; it is not selected, hidden,
/// locked or see-through any more, and its table pages are forgotten.
pub proof fn law_closing_a_block_model(pre: App, id: BlockModelId, post: App, i: int, k: int, h: SceneEntityId, page: TablePage)
    requires
        model_closed(pre, id, post),
        i == block_model_index(pre.items.block_models@, id),
        0 <= i < pre.items.block_models@.len(),
        0 <= k < pre.items.block_models@.len(),
    ensures
        post.items.block_models@.len() == pre.items.block_models@.len(),
        !post.items.block_models@[i].state.loaded,
        post.items.block_models@[i].blocks == pre.items.block_models@[i].blocks && post.items.block_models@[i].state.epoch
            == pre.items.block_models@[i].state.epoch,
        k != i ==> post.items.block_models@[k] == pre.items.block_models@[k],
        post.selection.handles@.contains(h) <==> pre.selection.handles@.contains(h) && h != SceneEntityId::BlockModel(id),
        post.visibility.hidden@.contains(h) <==> pre.visibility.hidden@.contains(h) && h != SceneEntityId::BlockModel(id),
        post.visibility.frozen@.contains(h) <==> pre.visibility.frozen@.contains(h) && h != SceneEntityId::BlockModel(id),
        post.visibility.translucent@.contains(h) <==> pre.visibility.translucent@.contains(h) && h != SceneEntityId::BlockModel(id),
        post.blocks.viewport != Some(id) && post.blocks.active != Some(id),
        pre.blocks.viewport != Some(id) ==> post.blocks.viewport == pre.blocks.viewport,
        pre.blocks.active != Some(id) ==> post.blocks.active == pre.blocks.active,
        post.blocks.table_pages@.contains(page) <==> pre.blocks.table_pages@.contains(page) && page.model != id,
        post.steps == pre.steps,
{
    crate::ids::lemma_filter_members(pre.blocks.table_pages@, |p: TablePage| p.model != id);
}

/// Removing a block model is a step that deletes it.
pub proof fn law_removing_a_block_model(pre: App, id: BlockModelId, post: App, h: SceneEntityId)
    requires
        model_removed(pre, id, post),
    ensures
        keeps_steps(pre, post) && post.steps@.len() == pre.steps@.len() + 1,
        post.steps@.last().edits@.len() == 1 && post.steps@.last().edits@[0] == Edit::DeleteItem(ItemRef::BlockModel(id)),
        post.selection.handles@.contains(h) <==> pre.selection.handles@.contains(h) && h != SceneEntityId::BlockModel(id),
        post.items == pre.items,
{
}

/// The dialog for a block model starts from a dataset: its first numeric
/// field, a name made from its own, and the extent found for it.
pub proof fn law_block_model_dialog(pre: KrigingDialog, d: OpenDrillHoleDataset, extent: Option<KrigingExtent>, sill: u64, post: KrigingDialog)
    requires
        dialog_opened(pre, Some(d), extent, sill, post),
    ensures
        post.open && post.drill_hole == Some(d.id),
        post.variables@.len() <= 1,
        post.variables@.len() == 1 ==> post.sill == sill && exists|k: int|
            0 <= k < d.fields@.len() && (#[trigger] d.fields@[k]).kind is Numeric && d.fields@[k].key@ == post.variables@[0]@ && forall|j: int|
                0 <= j < k ==> !((#[trigger] d.fields@[j]).kind is Numeric),
        post.variables@.len() == 0 ==> forall|j: int| 0 <= j < d.fields@.len() ==> !((#[trigger] d.fields@[j]).kind is Numeric),
        extent matches Some(e) ==> (d.bounds is Some ==> post.lower == e.lower && post.upper == e.upper && post.cell == e.cell && post.range == e.range),
        extent is None || d.bounds is None ==> post.lower == pre.lower && post.upper == pre.upper && post.cell == pre.cell && post.range == pre.range,
{
    let f = |f: DrillField| f.kind is Numeric;
    lemma_first_index(d.fields@, f);
    let i = first_index(d.fields@, f);
    assert forall|j: int| 0 <= j < i implies !((#[trigger] d.fields@[j]).kind is Numeric) by {
        assert(!f(d.fields@[j]));
    }
    if i < d.fields@.len() {
        assert(f(d.fields@[i]));
    }
}

/// A model is estimated from variables that are named once each, and are
/// numeric fields of the dataset, which has to be there.
pub proof fn law_what_can_be_estimated(items: Items, request: KrigingRequest, i: int)
    requires
        i == dataset_index(items.drill_holes@, request.drill_hole),
    ensures
        i >= items.drill_holes@.len() ==> kriging_refused(items, request) == Some(AppError::DatasetNotFound),
        0 <= i < items.drill_holes@.len() ==> (kriging_refused(items, request) is None <==> {
            let d = items.drill_holes@[i];
            let v = request.variables@;
            &&& v.len() > 0
            &&& forall|j: int, k: int| 0 <= j < k < v.len() ==> (#[trigger] v[j])@ != (#[trigger] v[k])@
            &&& forall|j: int| 0 <= j < v.len() ==> crate::commands::blocks::numeric_key(d, (#[trigger] v[j])@)
        }),
{
    if 0 <= i < items.drill_holes@.len() {
        lemma_variables(items.drill_holes@[i], request.variables@, request.variables@.len() as int);
    }
}

proof fn lemma_variables(d: OpenDrillHoleDataset, v: Seq<String>, n: int)
    requires
        0 <= n <= v.len(),
    ensures
        variables_refused(d, v, n) is None <==> {
            &&& forall|j: int, k: int| 0 <= j < k < n ==> (#[trigger] v[j])@ != (#[trigger] v[k])@
            &&& forall|j: int| 0 <= j < n ==> crate::commands::blocks::numeric_key(d, (#[trigger] v[j])@)
        },
    decreases n,
{
    if n > 0 {
        lemma_variables(d, v, n - 1);
    }
}

/// A numeric key is that of a field, the first of that key, that holds numbers.
pub proof fn law_numeric_keys(d: OpenDrillHoleDataset, key: Seq<char>)
    ensures
        crate::commands::blocks::numeric_key(d, key) ==> exists|k: int|
            0 <= k < d.fields@.len() && (#[trigger] d.fields@[k]).key@ == key && d.fields@[k].kind is Numeric,
        (forall|k: int| 0 <= k < d.fields@.len() && (#[trigger] d.fields@[k]).key@ == key ==> d.fields@[k].kind is Numeric) && (exists|k: int|
            0 <= k < d.fields@.len() && (#[trigger] d.fields@[k]).key@ == key) ==> crate::commands::blocks::numeric_key(d, key),
{
    lemma_first_index(d.fields@, crate::commands::blocks::field_called(key));
    let i = first_index(d.fields@, crate::commands::blocks::field_called(key));
    if i < d.fields@.len() {
        assert(d.fields@[i].key@ == key);
    }
}

/// A sample stands for an interval that holds a finite number of the field,
/// has some length, and whose middle is known: it is that number, there.
pub open spec fn stands_for(x: KrigingSample, h: DrillHole, j: int, field: Seq<char>, middle: Option<Point3>) -> bool {
    let interval = h.intervals@[j];
    &&& Some(x.position) == middle
    &&& f64_finite(x.value) && f64_finite(x.position.x) && f64_finite(x.position.y) && f64_finite(x.position.z)
    &&& f64_finite(interval.from) && f64_finite(interval.to) && f64_less(interval.from, interval.to)
    &&& exists|k: int|
        0 <= k < interval.values@.len() && (#[trigger] interval.values@[k]).field@ == field && interval.values@[k].value == DrillValue::Numeric(x.value)
}

spec fn sampled(x: KrigingSample, holes: Seq<DrillHole>, field: Seq<char>, middles: Seq<Vec<Option<Point3>>>, n: int) -> bool {
    exists|h: int, j: int|
        0 <= h < n && 0 <= j < holes[h].intervals@.len() && #[trigger] stands_for(x, holes[h], j, field, middle_of(middles, h, j))
}

spec fn sampled_in(x: KrigingSample, holes: Seq<DrillHole>, h: int, field: Seq<char>, middles: Seq<Vec<Option<Point3>>>, n: int) -> bool {
    exists|j: int| 0 <= j < n && #[trigger] stands_for(x, holes[h], j, field, middle_of(middles, h, j))
}

proof fn lemma_hole_samples(holes: Seq<DrillHole>, h: int, field: Seq<char>, middles: Seq<Vec<Option<Point3>>>, n: int)
    requires
        0 <= h < holes.len(),
        0 <= n <= holes[h].intervals@.len(),
    ensures
        forall|k: int|
            0 <= k < hole_samples(holes, h, field, middles, n).len() ==> sampled_in(
                #[trigger] hole_samples(holes, h, field, middles, n)[k],
                holes,
                h,
                field,
                middles,
                n,
            ),
    decreases n,
{
    if n > 0 {
        lemma_hole_samples(holes, h, field, middles, n - 1);
        let (before, all) = (hole_samples(holes, h, field, middles, n - 1), hole_samples(holes, h, field, middles, n));
        let interval = holes[h].intervals@[n - 1];
        lemma_first_index(interval.values@, crate::commands::blocks::value_in(field));
        let i = first_index(interval.values@, crate::commands::blocks::value_in(field));
        assert forall|k: int| 0 <= k < all.len() implies sampled_in(#[trigger] all[k], holes, h, field, middles, n) by {
            if k < before.len() {
                assert(sampled_in(before[k], holes, h, field, middles, n - 1));
                let j = choose|j: int| 0 <= j < n - 1 && #[trigger] stands_for(before[k], holes[h], j, field, middle_of(middles, h, j));
                assert(stands_for(all[k], holes[h], j, field, middle_of(middles, h, j)));
            } else {
                assert(interval.values@[i].field@ == field && interval.values@[i].value == DrillValue::Numeric(all[k].value));
                assert(stands_for(all[k], holes[h], n - 1, field, middle_of(middles, h, n - 1)));
            }
        }
    }
}

proof fn lemma_samples(holes: Seq<DrillHole>, field: Seq<char>, middles: Seq<Vec<Option<Point3>>>, n: int)
    requires
        0 <= n <= holes.len(),
    ensures
        forall|k: int|
            0 <= k < all_samples(holes, field, middles, n).len() ==> sampled(#[trigger] all_samples(holes, field, middles, n)[k], holes, field, middles, n),
    decreases n,
{
    if n > 0 {
        lemma_samples(holes, field, middles, n - 1);
        let m = holes[n - 1].intervals@.len() as int;
        lemma_hole_samples(holes, n - 1, field, middles, m);
        let (before, own, all) = (
            all_samples(holes, field, middles, n - 1),
            hole_samples(holes, n - 1, field, middles, m),
            all_samples(holes, field, middles, n),
        );
        assert forall|k: int| 0 <= k < all.len() implies sampled(#[trigger] all[k], holes, field, middles, n) by {
            if k < before.len() {
                assert(all[k] == before[k]);
                assert(sampled(before[k], holes, field, middles, n - 1));
                let (h, j) = choose|h: int, j: int|
                    0 <= h < n - 1 && 0 <= j < holes[h].intervals@.len() && #[trigger] stands_for(before[k], holes[h], j, field, middle_of(middles, h, j));
                assert(stands_for(all[k], holes[h], j, field, middle_of(middles, h, j)));
            } else {
                assert(all[k] == own[k - before.len()]);
                assert(sampled_in(own[k - before.len()], holes, n - 1, field, middles, m));
                let j = choose|j: int| 0 <= j < m && #[trigger] stands_for(all[k], holes[n - 1], j, field, middle_of(middles, n - 1, j));
                assert(stands_for(all[k], holes[n - 1], j, field, middle_of(middles, n - 1, j)));
            }
        }
    }
}

/// Each sample stands for an interval of a hole.
pub proof fn law_samples_stand_for_intervals(holes: Seq<DrillHole>, field: Seq<char>, middles: Seq<Vec<Option<Point3>>>, k: int)
    requires
        0 <= k < all_samples(holes, field, middles, holes.len() as int).len(),
    ensures
        exists|h: int, j: int|
            0 <= h < holes.len() && 0 <= j < holes[h].intervals@.len() && #[trigger] stands_for(
                all_samples(holes, field, middles, holes.len() as int)[k],
                holes[h],
                j,
                field,
                middle_of(middles, h, j),
            ),
{
    lemma_samples(holes, field, middles, holes.len() as int);
    assert(sampled(all_samples(holes, field, middles, holes.len() as int)[k], holes, field, middles, holes.len() as int));
}

/// An interval that holds a finite number of the field alone, has some length
/// and whose middle is known gives a sample: that number, there.
pub proof fn law_samples_are_counted(holes: Seq<DrillHole>, h: int, field: Seq<char>, middles: Seq<Vec<Option<Point3>>>, n: int, v: u64)
    requires
        0 <= h < holes.len(),
        0 <= n < holes[h].intervals@.len(),
        ({
            let interval = holes[h].intervals@[n];
            let middle = middle_of(middles, h, n);
            &&& interval.values@.len() == 1 && interval.values@[0].field@ == field && interval.values@[0].value == DrillValue::Numeric(v)
            &&& f64_finite(v) && f64_finite(interval.from) && f64_finite(interval.to) && f64_less(interval.from, interval.to)
            &&& middle matches Some(p) && f64_finite(p.x) && f64_finite(p.y) && f64_finite(p.z)
        }),
    ensures
        hole_samples(holes, h, field, middles, n + 1) == hole_samples(holes, h, field, middles, n).push(
            KrigingSample { position: middle_of(middles, h, n)->0, value: v },
        ),
{
    let interval = holes[h].intervals@[n];
    crate::search::lemma_is_first_index(interval.values@, crate::commands::blocks::value_in(field), 0);
}

/// Estimates are good where each had samples enough and estimated something.
pub proof fn law_good_estimates(estimates: Seq<Estimate>, min_samples: u32, n: int)
    requires
        0 <= n <= estimates.len(),
    ensures
        estimates_refused(estimates, min_samples, n) is None <==> forall|k: int|
            0 <= k < n ==> (#[trigger] estimates[k]).samples >= min_samples && estimates[k].estimated > 0,
    decreases n,
{
    if n > 0 {
        law_good_estimates(estimates, min_samples, n - 1);
    }
}

/// A value is ore where it is no less than the bound, no more than it, or
/// between both, whichever is the larger.
pub open spec fn counts_as_ore(v: u64, mode: OreFilterMode, min: u64, max: u64) -> bool {
    match mode {
        OreFilterMode::GreaterOrEqual => !f64_less(v, min),
        OreFilterMode::LessOrEqual => !f64_less(min, v),
        OreFilterMode::Between => (!f64_less(v, min) && !f64_less(max, v)) || (!f64_less(v, max) && !f64_less(min, v)),
    }
}

/// The blocks of ore are those drawn whose value is known, finite and ore, in
/// the order in which they are drawn.
pub proof fn law_blocks_of_ore(values: Seq<u64>, drawn: Seq<usize>, blank: Seq<bool>, mode: OreFilterMode, min: u64, max: u64, n: int)
    requires
        0 <= n < drawn.len(),
        !f64_nan(min) && !f64_nan(max),
        drawn[n] < values.len() && drawn[n] < blank.len(),
    ensures
        ore_blocks(values, drawn, blank, mode, min, max, 0) == Seq::<usize>::empty(),
        ore_blocks(values, drawn, blank, mode, min, max, n + 1) == if f64_finite(values[drawn[n] as int]) && !blank[drawn[n] as int] && counts_as_ore(
            values[drawn[n] as int],
            mode,
            min,
            max,
        ) {
            ore_blocks(values, drawn, blank, mode, min, max, n).push(drawn[n])
        } else {
            ore_blocks(values, drawn, blank, mode, min, max, n)
        },
{
}

/// A block model is coloured at first by a variable of its own: the first that
/// is not special, or the first of all.
pub proof fn law_first_shown_variable(s: Seq<BlockVariable>, k: int)
    requires
        0 <= k < s.len(),
        forall|j: int| 0 <= j < k ==> (#[trigger] s[j]).special,
    ensures
        !s[k].special ==> preferred_variable(s) == Some(s[k].name@),
        (forall|j: int| 0 <= j < s.len() ==> (#[trigger] s[j]).special) ==> preferred_variable(s) == Some(s[0].name@),
        preferred_variable(Seq::empty()) is None,
        initial_variable(s, Seq::empty(), true) == preferred_variable(s),
{
    let f = |v: BlockVariable| !v.special;
    lemma_first_index(s, f);
    if !s[k].special {
        crate::search::lemma_is_first_index(s, f, k);
    }
    let none = Seq::<BlockVariable>::empty();
    lemma_first_index(none, f);
}

/// A pattern that was laid out adds one dataset under a free name: a hole for
/// each collar, in their order, where it was laid, of the one diameter, with a
/// number of its own. It is the dataset that is worked on then.
pub proof fn law_pattern_adds_its_holes(
    pre: App,
    name: Seq<char>,
    placements: Seq<HolePlacement>,
    depth: u64,
    diameter: u64,
    bounds: Option<Bounds>,
    most: usize,
    r: Result<(), AppError>,
    post: App,
    k: int,
)
    requires
        pattern_created(pre, name, placements, depth, diameter, bounds, most, r, post),
        r is Ok,
        0 <= k < placements.len(),
    ensures
        keeps_steps(pre, post) && post.steps@.len() == pre.steps@.len() + 1,
        post.steps@.last().edits@.len() == 1,
        post.steps@.last().edits@[0] matches Edit::AddItem { index, item: OpenItem::DrillHole(d) } && {
            &&& index == pre.items.drill_holes@.len()
            &&& d.id == DrillHoleId(pre.items.next_drill_hole_id)
            &&& name_is_new(crate::arrivals::dataset_names(pre.items.drill_holes@), trimmed(name), d.name@)
            &&& d.visible && d.state.loaded && d.bounds == bounds && d.fields@.len() == 0 && d.tie_ins@.len() == 0 && d.initiations@.len() == 0
            &&& d.holes@.len() == placements.len()
            &&& d.holes@[k].placement == placements[k] && d.holes@[k].diameter == Some(diameter) && d.holes@[k].intervals@.len() == 0
            &&& d.holes@[k].name@.len() >= 4 && d.holes@[k].name@[0] == 'H'
            &&& d.color.active_field is None && d.color.stops@.len() == 0 && d.color.categories@.len() == 0 && d.color.smooth && d.color.preset
                == DrillColorPreset::Rainbow
            &&& post.canvas.active_drill_hole == Some(d.id)
        },
        post.pattern.boundary is None && !post.pattern.awaiting_shape_pick,
{
    crate::laws::items::law_names_are_numbered(crate::arrivals::dataset_names(pre.items.drill_holes@), trimmed(name));
}

/// A pattern needs a name, a depth and a diameter above zero, and collars:
/// some, not too many, and all of them finite.
pub proof fn law_which_patterns_are_laid(
    pre: App,
    name: Seq<char>,
    placements: Seq<HolePlacement>,
    depth: u64,
    diameter: u64,
    bounds: Option<Bounds>,
    most: usize,
    r: Result<(), AppError>,
    post: App,
)
    requires
        pattern_created(pre, name, placements, depth, diameter, bounds, most, r, post),
    ensures
        r is Ok <==> {
            &&& trimmed(name).len() > 0
            &&& f64_finite(depth) && f64_less(0, depth) && f64_finite(diameter) && f64_less(0, diameter)
            &&& 0 < placements.len() <= most
            &&& forall|k: int|
                0 <= k < placements.len() ==> f64_finite((#[trigger] placements[k]).collar.x) && f64_finite(placements[k].collar.y) && f64_finite(
                    placements[k].collar.z,
                )
        },
        r is Err ==> post == pre,
        trimmed(name).len() == 0 ==> r == Err::<(), AppError>(AppError::PatternNameBlank),
{
    if r is Ok {
        assert forall|k: int| 0 <= k < placements.len() implies f64_finite((#[trigger] placements[k]).collar.x) && f64_finite(placements[k].collar.y)
            && f64_finite(placements[k].collar.z) by {
            assert(crate::commands::boreholes::point_finite(placements[k].collar));
        }
    }
}

/// Colouring a dataset by a field shows that field with the given ramp, smooth
/// and in the plain preset; only a field of categories keeps colours for them.
pub proof fn law_colouring_by_a_field(
    pre: App,
    id: DrillHoleId,
    field: Option<Seq<char>>,
    ramp: Seq<DrillColorStop>,
    usual: Seq<(Seq<char>, Rgba)>,
    post: App,
)
    requires
        field_colored(pre, id, field, ramp, usual, post),
    ensures
        post.steps@.len() == pre.steps@.len() || restyled(pre, post, ItemRef::DrillHole(id)) is Some,
        restyled(pre, post, ItemRef::DrillHole(id)) matches Some(s) ==> {
            &&& s is DrillHole
            &&& s->DrillHole_color.active_field == field && s->DrillHole_color.stops == ramp
            &&& s->DrillHole_color.smooth && s->DrillHole_color.preset == DrillColorPreset::Rainbow
            &&& field is None ==> s->DrillHole_color.categories.len() == 0
            &&& s->DrillHole_color.categories == usual || s->DrillHole_color.categories.len() == 0
        },
        post.items == pre.items,
{
}

/// Colouring by a preset, by stops or by categories changes those alone.
pub proof fn law_colouring_keeps_the_rest(
    pre: App,
    id: DrillHoleId,
    preset: DrillColorPreset,
    smooth: bool,
    stops: Seq<DrillColorStop>,
    categories: Seq<(Seq<char>, Rgba)>,
    by_preset: App,
    by_stops: App,
    by_categories: App,
    i: int,
)
    requires
        preset_colored(pre, id, preset, smooth, stops, by_preset),
        stops_set(pre, id, stops, by_stops),
        categories_colored(pre, id, categories, by_categories),
        i == dataset_index(pre.items.drill_holes@, id),
        0 <= i < pre.items.drill_holes@.len(),
    ensures
        restyled(pre, by_preset, ItemRef::DrillHole(id)) matches Some(s) ==> {
            let c = pre.items.drill_holes@[i].color@;
            &&& s is DrillHole && s->DrillHole_loaded == pre.items.drill_holes@[i].state.loaded
            &&& s->DrillHole_color.preset == preset && s->DrillHole_color.smooth == smooth && s->DrillHole_color.stops == stops
            &&& s->DrillHole_color.active_field == c.active_field && s->DrillHole_color.categories == c.categories
        },
        restyled(pre, by_stops, ItemRef::DrillHole(id)) matches Some(s) ==> {
            let c = pre.items.drill_holes@[i].color@;
            &&& s is DrillHole && s->DrillHole_loaded == pre.items.drill_holes@[i].state.loaded
            &&& 2 <= s->DrillHole_color.stops.len() <= 12
            &&& s->DrillHole_color.active_field == c.active_field && s->DrillHole_color.categories == c.categories && s->DrillHole_color.preset == c.preset
                && s->DrillHole_color.smooth == c.smooth
        },
        restyled(pre, by_categories, ItemRef::DrillHole(id)) matches Some(s) ==> {
            let c = pre.items.drill_holes@[i].color@;
            &&& s is DrillHole && s->DrillHole_loaded == pre.items.drill_holes@[i].state.loaded
            &&& s->DrillHole_color.categories.len() == (if categories.len() > 12 {
                12
            } else {
                categories.len()
            })
            &&& forall|k: int| 0 <= k < s->DrillHole_color.categories.len() ==> #[trigger] s->DrillHole_color.categories[k] == categories[k]
            &&& s->DrillHole_color.active_field == c.active_field && s->DrillHole_color.stops == c.stops && s->DrillHole_color.preset == c.preset
                && s->DrillHole_color.smooth == c.smooth
        },
{
}

/// The stops that are used are those whose numbers are all finite, with their
/// colours, in the order of their places, which lie between 0 and 1.
pub proof fn law_usable_stops(s: Seq<DrillColorStop>)
    ensures
        usable_stops(s).len() == sorted_stops(s).len(),
        forall|i: int|
            0 <= i < usable_stops(s).len() ==> {
                let (a, b) = (sorted_stops(s)[i], #[trigger] usable_stops(s)[i]);
                &&& b.color == a.color
                &&& !f32_less(b.t, 0) && !f32_less(0x3f80_0000, b.t)
                &&& !f32_less(a.t, 0) && !f32_less(0x3f80_0000, a.t) ==> b.t == a.t
            },
        forall|x: DrillColorStop| #[trigger] sorted_stops(s).contains(x) <==> s.contains(x) && stop_finite(x),
{
    lemma_sorted_stops(s);
}

proof fn lemma_sorted_stops(s: Seq<DrillColorStop>)
    ensures
        forall|x: DrillColorStop| #[trigger] sorted_stops(s).contains(x) <==> s.contains(x) && stop_finite(x),
    decreases s.len(),
{
    if s.len() > 0 {
        let short = s.drop_last();
        let d = s.last();
        lemma_sorted_stops(short);
        let before = sorted_stops(short);
        let f = |y: DrillColorStop| total_key(y.t) > total_key(d.t);
        lemma_first_index(before, f);
        let at = first_index(before, f);
        let all = sorted_stops(s);
        assert forall|x: DrillColorStop| #[trigger] all.contains(x) <==> s.contains(x) && stop_finite(x) by {
            assert(before.contains(x) <==> short.contains(x) && stop_finite(x));
            if before.contains(x) {
                let i = choose|i: int| 0 <= i < before.len() && before[i] == x;
                if stop_finite(d) {
                    assert(all == before.insert(at, d));
                    assert(all[if i < at { i } else { i + 1 }] == x);
                }
            }
            if stop_finite(d) {
                assert(all == before.insert(at, d));
                assert(all[at] == d);
                if all.contains(x) && x != d {
                    let i = choose|i: int| 0 <= i < all.len() && all[i] == x;
                    assert(before[if i < at { i } else { i - 1 }] == x);
                }
            }
            if short.contains(x) {
                let i = choose|i: int| 0 <= i < short.len() && short[i] == x;
                assert(s[i] == x);
            }
            assert(s[s.len() - 1] == d);
            if s.contains(x) && x != d {
                let i = choose|i: int| 0 <= i < s.len() && s[i] == x;
                assert(short[i] == x);
            }
        }
    }
}

/// Removing a dataset is a step that deletes it; none of its holes or legs
/// stays selected and others do. Removing a point cloud is one too.
pub proof fn law_removing_datasets(pre: App, id: DrillHoleId, post: App, h: HoleRef, t: TieRef)
    requires
        dataset_removed(pre, id, post),
        pre.canvas.active_tool == crate::state::ActiveTool::Idle,
        !crate::drawing::move_tool::holds_dataset(pre, id),
    ensures
        keeps_steps(pre, post) && post.steps@.len() == pre.steps@.len() + 1,
        post.steps@.last().edits@.len() == 1 && post.steps@.last().edits@[0] == Edit::DeleteItem(ItemRef::DrillHole(id)),
        post.selection.holes@.contains(h) <==> pre.selection.holes@.contains(h) && h.dataset != id,
        post.selection.ties@.contains(t) <==> pre.selection.ties@.contains(t) && t.dataset != id,
        post.canvas.active_drill_hole != Some(id),
        pre.canvas.active_drill_hole != Some(id) ==> post.canvas.active_drill_hole == pre.canvas.active_drill_hole,
        !post.selection.handles@.contains(SceneEntityId::DrillHole(id)),
        post.blast.anchor matches Some(a) ==> a.dataset != id,
{
}

/// Removing a point cloud is a step that deletes it.
pub proof fn law_removing_point_clouds(pre: App, id: PointCloudId, post: App, h: SceneEntityId)
    requires
        cloud_removed(pre, id, post),
    ensures
        keeps_steps(pre, post) && post.steps@.len() == pre.steps@.len() + 1,
        post.steps@.last().edits@.len() == 1 && post.steps@.last().edits@[0] == Edit::DeleteItem(ItemRef::PointCloud(id)),
        post.selection.handles@.contains(h) <==> pre.selection.handles@.contains(h) && h != SceneEntityId::PointCloud(id),
        post.visibility.hidden@.contains(h) <==> pre.visibility.hidden@.contains(h) && h != SceneEntityId::PointCloud(id),
{
}

/// Places of stops are ordered as their numbers are, a negative zero before
/// zero.
pub proof fn law_places_of_stops(a: u32, b: u32)
    ensures
        f32_less(a, b) ==> total_key(a) < total_key(b),
        total_key(a) == total_key(b) <==> a == b,
        total_key(a) >= 0 <==> a < 0x8000_0000,
{
}

} // verus!
