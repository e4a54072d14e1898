//! Block models.

use crate::arrivals::content_touched;
use crate::collars::epoch_after;
use crate::commands::surfaces::item_deleted;
use crate::error::AppError;
use crate::fresh::{hyphenated, new_uuid, random_uuid, uuid_text};
use crate::ids::{BlockModelId, DrillHoleId, ItemRef, SceneEntityId};
use crate::ieee::{equal64, f64_equal, f64_finite, f64_less, f64_nan, finite64, less64, magnitude64, Point3, F64_INFINITY};
use crate::items::{
    block_model_index, dataset_index, BlockModelSlice, BlockVariable, ColorTransfer, DrillField, DrillFieldKind, DrillHole, DrillInterval, DrillValue,
    FieldValue, ItemState, Items, OpenBlockModel, OpenDrillHoleDataset,
};
use crate::jobs::{job_queued, jobs_cancelled, last_work, one_key, JobFilter, JobKey, Work};
use crate::search::{filter_copied, find_first, first_index};
use crate::state::{App, Selection, Visibility};
use crate::styles::{block_style, copy_transfers, same_slice, slices_equal, style_equal, style_set, transfer_models, with_slice, with_transfers, with_variable, with_visible};
use crate::text::{join, join3, same_optional_text, same_text, text_of};
use vstd::prelude::*;

verus! {

/// The dialog that makes a block model from drillholes. Numbers are the bits
/// of an `f64`.
pub struct KrigingDialog {
    pub open: bool,
    pub drill_hole: Option<DrillHoleId>,
    pub variables: Vec<String>,
    pub name: String,
    pub lower: Point3,
    pub upper: Point3,
    pub cell: Point3,
    pub range: u64,
    pub sill: u64,
}

/// What is chosen among block models, and the dialog that makes one.
pub struct BlockPanel {
    pub viewport: Option<BlockModelId>,
    pub active: Option<BlockModelId>,
    pub dialog: KrigingDialog,
    pub table_pages: Vec<TablePage>,
    pub variable_ranges: Vec<VariableRange>,
}

/// The page of a block model's table that is shown.
#[derive(Clone, Copy, PartialEq, Eq, Structural, Debug)]
pub struct TablePage {
    pub model: BlockModelId,
    pub page: u64,
}

/// The range of a variable of a block model, as it was found.
pub struct VariableRange {
    pub model: BlockModelId,
    pub variable: String,
    pub min: u64,
    pub max: u64,
}

/// A box around a dataset and what suits it: the numbers that a dialog starts
/// from.
#[derive(Clone, Copy, PartialEq, Eq, Structural, Debug)]
pub struct KrigingExtent {
    pub lower: Point3,
    pub upper: Point3,
    pub cell: Point3,
    pub range: u64,
}

/// What is to be estimated, and how.
pub struct KrigingRequest {
    pub drill_hole: DrillHoleId,
    pub variables: Vec<String>,
    pub name: String,
    pub lower: Point3,
    pub upper: Point3,
    pub cell: Point3,
    pub range: u64,
    pub sill: u64,
    pub nugget: u64,
    pub min_samples: u32,
    pub max_samples: u32,
}

/// Which values are ore.
#[derive(Clone, Copy, PartialEq, Eq, Structural, Debug)]
pub enum OreFilterMode {
    GreaterOrEqual,
    LessOrEqual,
    Between,
}

/// A surface to be built around the blocks of an ore.
pub struct OreRequest {
    pub block_model: BlockModelId,
    pub variable: String,
    pub mode: OreFilterMode,
    pub min: u64,
    pub max: u64,
    pub name: String,
}

/// One handle is gone from the selection and from the sets, apart from locks
/// that were set by hand.
pub open spec fn model_handle_forgotten(pre: App, handle: SceneEntityId, post: App) -> bool {
    &&& post == (App {
        selection: Selection { handles: post.selection.handles, ..pre.selection },
        visibility: Visibility {
            hidden: post.visibility.hidden,
            frozen: post.visibility.frozen,
            translucent: post.visibility.translucent,
            ..pre.visibility
        },
        ..pre
    })
    &&& post.selection.handles@ == pre.selection.handles@.remove(handle)
    &&& post.visibility.hidden@ == pre.visibility.hidden@.remove(handle)
    &&& post.visibility.frozen@ == pre.visibility.frozen@.remove(handle)
    &&& post.visibility.translucent@ == pre.visibility.translucent@.remove(handle)
}

/// What showing or hiding a block model does.
pub open spec fn model_visibility_toggled(pre: App, id: BlockModelId, post: App) -> bool {
    let s = pre.items.block_models@;
    let i = block_model_index(s, id);
    if i >= s.len() {
        post == pre
    } else {
        style_set(pre, ItemRef::BlockModel(id), with_visible(block_style(s[i]), !s[i].visible), post)
    }
}

/// What colouring a block model by another variable does.
pub open spec fn variable_set(pre: App, id: BlockModelId, variable: Seq<char>, post: App) -> bool {
    let s = pre.items.block_models@;
    let i = block_model_index(s, id);
    if i >= s.len() || text_of(s[i].active_color_variable) == Some(variable) {
        post == pre
    } else {
        style_set(pre, ItemRef::BlockModel(id), with_variable(block_style(s[i]), variable), post)
    }
}

/// The values that the model is coloured by are not decoded.
pub open spec fn undecoded(m: OpenBlockModel) -> bool {
    m.active_color_variable is Some && text_of(m.decoded) != text_of(m.active_color_variable)
}

/// What decoding the values of a model does.
pub open spec fn decode_begun(pre: App, id: BlockModelId, post: App) -> bool {
    let s = pre.items.block_models@;
    let i = block_model_index(s, id);
    if i >= s.len() || !undecoded(s[i]) {
        post == pre
    } else {
        let drawn = App { frame: pre.frame.topology(), ..pre };
        &&& job_queued(drawn, "Decoding block-model colour variable…"@, seq![JobKey::BlockModel(id)], last_work(post), post)
        &&& last_work(post) matches Work::DecodeValues { id: b, variable } && b == id && Some(variable@) == text_of(s[i].active_color_variable)
    }
}

/// The place of the ramp of a variable: where there are several, the last
/// counts.
pub open spec fn ramp_place(s: Seq<(Seq<char>, u64)>, variable: Seq<char>) -> int
    decreases s.len(),
{
    if s.len() == 0 {
        -1
    } else if s.last().0 == variable {
        s.len() - 1
    } else {
        ramp_place(s.drop_last(), variable)
    }
}

/// The ramps with one for a variable.
pub open spec fn with_ramp(s: Seq<(Seq<char>, u64)>, variable: Seq<char>, ramp: u64) -> Seq<(Seq<char>, u64)> {
    let i = ramp_place(s, variable);
    if i < 0 {
        s.push((variable, ramp))
    } else {
        s.update(i, (variable, ramp))
    }
}

/// A model whose values were decoded: a variable without a ramp gets one.
pub open spec fn model_decoded(pre: OpenBlockModel, variable: Seq<char>, ramp: Option<u64>, post: OpenBlockModel) -> bool {
    let ramps = transfer_models(pre.color_transfers@);
    let had = ramp_place(ramps, variable) >= 0;
    &&& post == (OpenBlockModel {
        decoded: post.decoded,
        color_transfers: post.color_transfers,
        state: if had {
            pre.state
        } else {
            ItemState { epoch: epoch_after(pre.state.epoch), ..pre.state }
        },
        ..pre
    })
    &&& text_of(post.decoded) == Some(variable)
    &&& transfer_models(post.color_transfers@) == (match ramp {
        Some(ramp) if !had => ramps.push((variable, ramp)),
        _ => ramps,
    })
}

/// What decoded values do: nothing where the model is gone or is coloured by
/// another variable by now.
pub open spec fn decode_applied(pre: App, id: BlockModelId, variable: Seq<char>, ramp: Option<u64>, post: App) -> bool {
    let s = pre.items.block_models@;
    let i = block_model_index(s, id);
    if i >= s.len() || text_of(s[i].active_color_variable) != Some(variable) {
        post == pre
    } else {
        &&& post == (App { items: post.items, workspace: post.workspace, frame: pre.frame.topology(), ..pre })
        &&& post.items == (Items { block_models: post.items.block_models, ..pre.items })
        &&& post.items.block_models@.len() == s.len()
        &&& model_decoded(s[i], variable, ramp, post.items.block_models@[i])
        &&& forall|j: int| 0 <= j < s.len() && j != i ==> #[trigger] post.items.block_models@[j] == s[j]
        &&& if ramp_place(transfer_models(s[i].color_transfers@), variable) >= 0 {
            post.workspace == pre.workspace
        } else {
            content_touched(pre.workspace, post.workspace)
        }
    }
}

/// What giving the variable in use another ramp does.
pub open spec fn ramp_set(pre: App, id: BlockModelId, ramp: u64, post: App) -> bool {
    let s = pre.items.block_models@;
    let i = block_model_index(s, id);
    if i >= s.len() || s[i].active_color_variable is None {
        post == pre
    } else {
        let now = with_ramp(transfer_models(s[i].color_transfers@), s[i].active_color_variable->0@, ramp);
        if style_equal(block_style(s[i]), with_transfers(block_style(s[i]), now)) {
            post == pre
        } else {
            exists|mid: App| #[trigger]
                style_set(pre, ItemRef::BlockModel(id), with_transfers(block_style(s[i]), now), mid) && post == (App {
                    frame: mid.frame.topology(),
                    ..mid
                })
        }
    }
}

/// A part that can be cut out: finite, and no corner beyond the other.
pub open spec fn slice_usable(v: BlockModelSlice) -> bool {
    &&& f64_finite(v.min.x) && f64_finite(v.min.y) && f64_finite(v.min.z)
    &&& f64_finite(v.max.x) && f64_finite(v.max.y) && f64_finite(v.max.z)
    &&& !f64_less(v.max.x, v.min.x) && !f64_less(v.max.y, v.min.y) && !f64_less(v.max.z, v.min.z)
}

/// A number within two others.
pub open spec fn within(v: u64, low: u64, high: u64) -> u64 {
    if f64_less(v, low) {
        low
    } else if f64_less(high, v) {
        high
    } else {
        v
    }
}

/// A point within a box.
pub open spec fn point_within(p: Point3, low: Point3, high: Point3) -> Point3 {
    Point3 { x: within(p.x, low.x, high.x), y: within(p.y, low.y, high.y), z: within(p.z, low.z, high.z) }
}

/// A part within the model.
pub open spec fn slice_within(v: BlockModelSlice, m: OpenBlockModel) -> BlockModelSlice {
    BlockModelSlice {
        min: point_within(v.min, m.local_bounds.min, m.local_bounds.max),
        max: point_within(v.max, m.local_bounds.min, m.local_bounds.max),
    }
}

/// A part within the model, where there is one.
pub open spec fn cut_within(slice: Option<BlockModelSlice>, m: OpenBlockModel) -> Option<BlockModelSlice> {
    match slice {
        Some(v) => Some(slice_within(v, m)),
        None => None,
    }
}

/// What cutting a part out of a block model does.
pub open spec fn slice_set(pre: App, id: BlockModelId, slice: Option<BlockModelSlice>, post: App) -> bool {
    let s = pre.items.block_models@;
    let i = block_model_index(s, id);
    if i >= s.len() {
        post == pre
    } else {
        let now = cut_within(slice, s[i]);
        if (now is Some && !slice_usable(now->0)) || slices_equal(s[i].slice, now) {
            post == pre
        } else {
            exists|mid: App| #[trigger]
                style_set(pre, ItemRef::BlockModel(id), with_slice(block_style(s[i]), cut_within(slice, s[i])), mid) && post == (App {
                    frame: mid.frame.topology(),
                    ..mid
                })
        }
    }
}

/// What making one block model the whole selection does.
pub open spec fn model_selected(pre: App, id: BlockModelId, post: App) -> bool {
    let s = pre.items.block_models@;
    if first_index(s, |m: OpenBlockModel| m.id == id && m.state.loaded) >= s.len() {
        post == pre
    } else {
        &&& post == (App {
            selection: Selection { handles: post.selection.handles, ..pre.selection },
            blocks: BlockPanel { viewport: Some(id), ..pre.blocks },
            frame: pre.frame.geometry().overlay(),
            ..pre
        })
        &&& post.selection.handles@ == Set::<SceneEntityId>::empty().insert(SceneEntityId::BlockModel(id))
    }
}

/// The panel no longer speaks of a block model.
pub open spec fn panel_left(pre: BlockPanel, id: BlockModelId, post: BlockPanel) -> bool {
    &&& post.table_pages@ == pre.table_pages@.filter(|p: TablePage| p.model != id)
    &&& post.variable_ranges@ == pre.variable_ranges@.filter(|r: VariableRange| r.model != id)
    &&& post == (BlockPanel {
        viewport: if pre.viewport == Some(id) {
            None
        } else {
            pre.viewport
        },
        active: if pre.active == Some(id) {
            None
        } else {
            pre.active
        },
        table_pages: post.table_pages,
        variable_ranges: post.variable_ranges,
        ..pre
    })
}

/// The jobs of a block model are withdrawn.
pub open spec fn model_jobs_cancelled(pre: App, id: BlockModelId, post: App) -> bool {
    post == (App { jobs: post.jobs, ..pre }) && jobs_cancelled(pre.jobs, JobFilter::Key(JobKey::BlockModel(id)), post.jobs)
}

/// What unloading a block model does.
pub open spec fn model_closed(pre: App, id: BlockModelId, post: App) -> bool {
    let s = pre.items.block_models@;
    let i = block_model_index(s, id);
    if i >= s.len() {
        post == pre
    } else {
        exists|idle: App, gone: App|
            {
                &&& #[trigger] model_jobs_cancelled(pre, id, idle)
                &&& #[trigger] model_handle_forgotten(idle, SceneEntityId::BlockModel(id), gone)
                &&& post == (App { items: post.items, blocks: post.blocks, frame: pre.frame.bounds(), ..gone })
                &&& panel_left(pre.blocks, id, post.blocks)
                &&& post.items == (Items { block_models: post.items.block_models, ..pre.items })
                &&& post.items.block_models@ == s.update(i, OpenBlockModel { state: ItemState { loaded: false, ..s[i].state }, ..s[i] })
            }
    }
}

/// What deleting a block model does.
pub open spec fn model_removed(pre: App, id: BlockModelId, post: App) -> bool {
    exists|idle: App, gone: App, deleted: App|
        {
            &&& #[trigger] model_jobs_cancelled(pre, id, idle)
            &&& #[trigger] model_handle_forgotten(idle, SceneEntityId::BlockModel(id), gone)
            &&& #[trigger] item_deleted(gone, ItemRef::BlockModel(id), deleted)
            &&& post == (App { frame: deleted.frame.topology(), ..deleted })
        }
}

/// The place of the first numeric field.
pub open spec fn numeric_field(s: Seq<DrillField>) -> int {
    first_index(s, |f: DrillField| f.kind is Numeric)
}

/// The dataset that a dialog starts from: the preferred one, or the first.
pub open spec fn dataset_for(s: Seq<OpenDrillHoleDataset>, preferred: Option<DrillHoleId>) -> Option<OpenDrillHoleDataset> {
    let first = if s.len() > 0 {
        Some(s[0])
    } else {
        None
    };
    match preferred {
        Some(id) => if dataset_index(s, id) < s.len() {
            Some(s[dataset_index(s, id)])
        } else {
            first
        },
        None => first,
    }
}

/// The dialog once it was opened.
pub open spec fn dialog_opened(
    pre: KrigingDialog,
    dataset: Option<OpenDrillHoleDataset>,
    extent: Option<KrigingExtent>,
    sill: u64,
    post: KrigingDialog,
) -> bool {
    match dataset {
        None => post == (KrigingDialog { open: true, drill_hole: None, ..pre }),
        Some(d) => {
            let i = numeric_field(d.fields@);
            &&& post.open && post.drill_hole == Some(d.id)
            &&& if i < d.fields@.len() {
                post.variables@.len() == 1 && post.variables@[0]@ == d.fields@[i].key@ && post.sill == sill
            } else {
                post.variables@.len() == 0 && post.sill == pre.sill
            }
            &&& post.name@ == d.name@ + " Block Model"@
            &&& match extent {
                Some(e) if d.bounds is Some => post.lower == e.lower && post.upper == e.upper && post.cell == e.cell && post.range == e.range,
                _ => post.lower == pre.lower && post.upper == pre.upper && post.cell == pre.cell && post.range == pre.range,
            }
        },
    }
}

/// A field has this key.
pub open spec fn field_called(key: Seq<char>) -> spec_fn(DrillField) -> bool {
    |f: DrillField| f.key@ == key
}

/// A value is one of this field.
pub open spec fn value_in(field: Seq<char>) -> spec_fn(FieldValue) -> bool {
    |v: FieldValue| v.field@ == field
}

/// A field of the dataset holds numbers under this key.
pub open spec fn numeric_key(d: OpenDrillHoleDataset, key: Seq<char>) -> bool {
    let i = first_index(d.fields@, field_called(key));
    i < d.fields@.len() && d.fields@[i].kind is Numeric
}

/// A variable occurs among the first `n`.
pub open spec fn occurs(variables: Seq<String>, n: int, text: Seq<char>) -> bool {
    exists|i: int| 0 <= i < n && (#[trigger] variables[i])@ == text
}

/// Why the first `n` variables cannot be estimated.
pub open spec fn variables_refused(d: OpenDrillHoleDataset, variables: Seq<String>, n: int) -> Option<AppError>
    decreases n,
{
    if n <= 0 {
        None
    } else {
        match variables_refused(d, variables, n - 1) {
            Some(e) => Some(e),
            None => if occurs(variables, n - 1, variables[n - 1]@) {
                Some(AppError::VariableTwice)
            } else if !numeric_key(d, variables[n - 1]@) {
                Some(AppError::VariableNotNumeric)
            } else {
                None
            },
        }
    }
}

/// Why a request cannot be carried out.
pub open spec fn kriging_refused(items: Items, request: KrigingRequest) -> Option<AppError> {
    let s = items.drill_holes@;
    let i = dataset_index(s, request.drill_hole);
    if i >= s.len() {
        Some(AppError::DatasetNotFound)
    } else if request.variables@.len() == 0 {
        Some(AppError::NoVariables)
    } else {
        variables_refused(s[i], request.variables@, request.variables@.len() as int)
    }
}

/// What asking for an estimate does.
pub open spec fn kriging_begun(pre: App, request: KrigingRequest, r: Result<(), AppError>, post: App) -> bool {
    match kriging_refused(pre.items, request) {
        Some(e) => r == Err::<(), AppError>(e) && post == pre,
        None => {
            &&& r == Ok::<(), AppError>(())
            &&& job_queued(pre, "Ordinary Kriging…"@, seq![JobKey::DrillHole(request.drill_hole)], Work::Krige(request), post)
        },
    }
}

/// A value found at a place.
#[derive(Clone, Copy, PartialEq, Eq, Structural, Debug)]
pub struct KrigingSample {
    pub position: Point3,
    pub value: u64,
}

/// The number that an interval holds of a field.
pub open spec fn number_of(interval: DrillInterval, field: Seq<char>) -> Option<u64> {
    let i = first_index(interval.values@, value_in(field));
    if i < interval.values@.len() {
        match interval.values@[i].value {
            DrillValue::Numeric(x) => Some(x),
            _ => None,
        }
    } else {
        None
    }
}

/// What an interval gives: its number at its middle, where all is finite and
/// the interval has a length.
pub open spec fn sample_of(interval: DrillInterval, field: Seq<char>, middle: Option<Point3>) -> Option<KrigingSample> {
    match (number_of(interval, field), middle) {
        (Some(value), Some(position)) if f64_finite(value) && f64_finite(interval.from) && f64_finite(interval.to) && f64_less(interval.from, interval.to)
            && f64_finite(position.x) && f64_finite(position.y) && f64_finite(position.z) => Some(KrigingSample { position, value }),
        _ => None,
    }
}

/// The middle of an interval, by what is told of each.
pub open spec fn middle_of(middles: Seq<Vec<Option<Point3>>>, hole: int, interval: int) -> Option<Point3> {
    if 0 <= hole < middles.len() && 0 <= interval < middles[hole]@.len() {
        middles[hole]@[interval]
    } else {
        None
    }
}

/// What the first `n` intervals of a hole give.
pub open spec fn hole_samples(holes: Seq<DrillHole>, hole: int, field: Seq<char>, middles: Seq<Vec<Option<Point3>>>, n: int) -> Seq<KrigingSample>
    decreases n,
{
    if n <= 0 {
        Seq::empty()
    } else {
        let before = hole_samples(holes, hole, field, middles, n - 1);
        match sample_of(holes[hole].intervals@[n - 1], field, middle_of(middles, hole, n - 1)) {
            Some(x) => before.push(x),
            None => before,
        }
    }
}

/// What the first `n` holes give.
pub open spec fn all_samples(holes: Seq<DrillHole>, field: Seq<char>, middles: Seq<Vec<Option<Point3>>>, n: int) -> Seq<KrigingSample>
    decreases n,
{
    if n <= 0 {
        Seq::empty()
    } else {
        all_samples(holes, field, middles, n - 1) + hole_samples(holes, n - 1, field, middles, holes[n - 1].intervals@.len() as int)
    }
}

/// What came of estimating one variable: how many samples there were, and how
/// many blocks got a value.
#[derive(Clone, Copy, PartialEq, Eq, Structural, Debug)]
pub struct Estimate {
    pub samples: usize,
    pub estimated: usize,
}

/// Why an estimate of the first `n` variables is of no use.
pub open spec fn estimates_refused(estimates: Seq<Estimate>, min_samples: u32, n: int) -> Option<AppError>
    decreases n,
{
    if n <= 0 {
        None
    } else {
        match estimates_refused(estimates, min_samples, n - 1) {
            Some(e) => Some(e),
            None => if estimates[n - 1].samples < min_samples {
                Some(AppError::TooFewSamples)
            } else if estimates[n - 1].estimated == 0 {
                Some(AppError::NothingEstimated)
            } else {
                None
            },
        }
    }
}

/// What asking for a surface around an ore does.
pub open spec fn ore_begun(pre: App, request: OreRequest, r: Result<(), AppError>, post: App) -> bool {
    let s = pre.items.block_models@;
    if block_model_index(s, request.block_model) >= s.len() {
        r == Err::<(), AppError>(AppError::BlockModelNotFound) && post == pre
    } else {
        &&& r == Ok::<(), AppError>(())
        &&& job_queued(pre, "Building ore mesh…"@, seq![JobKey::BlockModel(request.block_model)], Work::OreMesh(request), post)
    }
}

/// The smaller of two numbers, or the one that is a number.
pub open spec fn smaller(a: u64, b: u64) -> u64 {
    if f64_nan(a) {
        b
    } else if f64_less(b, a) {
        b
    } else {
        a
    }
}

/// The larger of two numbers, or the one that is a number.
pub open spec fn larger(a: u64, b: u64) -> u64 {
    if f64_nan(a) {
        b
    } else if f64_less(a, b) {
        b
    } else {
        a
    }
}

/// The first number is the second or above it.
pub open spec fn at_least(a: u64, b: u64) -> bool {
    f64_less(b, a) || f64_equal(a, b)
}

/// The value is ore.
pub open spec fn is_ore(value: u64, mode: OreFilterMode, min: u64, max: u64) -> bool {
    match mode {
        OreFilterMode::GreaterOrEqual => at_least(value, min),
        OreFilterMode::LessOrEqual => at_least(min, value),
        OreFilterMode::Between => at_least(value, smaller(min, max)) && at_least(larger(min, max), value),
    }
}

/// The block is ore: it has a finite value that stands for something.
pub open spec fn ore_block(values: Seq<u64>, blank: Seq<bool>, index: usize, mode: OreFilterMode, min: u64, max: u64) -> bool {
    &&& index < values.len()
    &&& f64_finite(values[index as int])
    &&& !(index < blank.len() && blank[index as int])
    &&& is_ore(values[index as int], mode, min, max)
}

/// The blocks among the first `n` drawn ones that are ore.
pub open spec fn ore_blocks(values: Seq<u64>, drawn: Seq<usize>, blank: Seq<bool>, mode: OreFilterMode, min: u64, max: u64, n: int) -> Seq<usize>
    decreases n,
{
    if n <= 0 {
        Seq::empty()
    } else {
        let before = ore_blocks(values, drawn, blank, mode, min, max, n - 1);
        if ore_block(values, blank, drawn[n - 1], mode, min, max) {
            before.push(drawn[n - 1])
        } else {
            before
        }
    }
}

fn is_at_least(a: u64, b: u64) -> (r: bool)
    ensures
        r == at_least(a, b),
{
    less64(b, a) || equal64(a, b)
}

fn smaller_of(a: u64, b: u64) -> (r: u64)
    ensures
        r == smaller(a, b),
{
    if magnitude64(a) > F64_INFINITY {
        b
    } else if less64(b, a) {
        b
    } else {
        a
    }
}

fn larger_of(a: u64, b: u64) -> (r: u64)
    ensures
        r == larger(a, b),
{
    if magnitude64(a) > F64_INFINITY {
        b
    } else if less64(a, b) {
        b
    } else {
        a
    }
}

/// The drawn blocks that are ore. `blank` tells of each block whether its
/// value is the default or stands for nothing.
pub fn ore_block_indices(values: &Vec<u64>, drawn: &Vec<usize>, blank: &Vec<bool>, mode: OreFilterMode, min: u64, max: u64) -> (r: Vec<usize>)
    ensures
        r@ == ore_blocks(values@, drawn@, blank@, mode, min, max, drawn@.len() as int),
{
    let mut found: Vec<usize> = Vec::new();
    let low: u64 = smaller_of(min, max);
    let high: u64 = larger_of(min, max);
    let mut i: usize = 0;
    while i < drawn.len()
        invariant
            i <= drawn.len(),
            low == smaller(min, max),
            high == larger(min, max),
            found@ == ore_blocks(values@, drawn@, blank@, mode, min, max, i as int),
        decreases drawn.len() - i,
    {
        let index: usize = drawn[i];
        if index < values.len() && finite64(values[index]) && !(index < blank.len() && blank[index]) {
            let value: u64 = values[index];
            let ore = match mode {
                OreFilterMode::GreaterOrEqual => is_at_least(value, min),
                OreFilterMode::LessOrEqual => is_at_least(min, value),
                OreFilterMode::Between => is_at_least(value, low) && is_at_least(high, value),
            };
            if ore {
                found.push(index);
            }
        }
        i += 1;
    }
    found
}

/// The variable that a model is coloured by at first: the first that is not
/// special, or else the first.
pub open spec fn preferred_variable(s: Seq<BlockVariable>) -> Option<Seq<char>> {
    let i = first_index(s, |v: BlockVariable| !v.special);
    if i < s.len() {
        Some(s[i].name@)
    } else if s.len() > 0 {
        Some(s[0].name@)
    } else {
        None
    }
}

/// The variable that a model is coloured by at first.
pub fn preferred_block_model_color_variable(numeric: &Vec<BlockVariable>) -> (r: Option<String>)
    ensures
        text_of(r) == preferred_variable(numeric@),
{
    match find_first(numeric, Ghost(|v: BlockVariable| !v.special), |v: &BlockVariable| -> (b: bool)
        ensures
            b == !v.special,
        { !v.special }) {
        Some(i) => Some(numeric[i].name.clone()),
        None => {
            if numeric.len() > 0 {
                Some(numeric[0].name.clone())
            } else {
                None
            }
        },
    }
}

/// The variable sorts blocks into named categories.
pub open spec fn names_categories(v: BlockVariable) -> bool {
    !v.special && (v.physical_type@ == "namedbyte"@ || v.physical_type@ == "namedshort"@)
}

/// The variable that a model starts with: the preferred one where its values
/// differ, or else one that names categories.
pub open spec fn initial_variable(numeric: Seq<BlockVariable>, all: Seq<BlockVariable>, ranged: bool) -> Option<Seq<char>> {
    let i = first_index(all, |v: BlockVariable| names_categories(v));
    if !ranged && i < all.len() {
        Some(all[i].name@)
    } else {
        preferred_variable(numeric)
    }
}

/// The variable that a model starts with. `ranged` tells whether the values of
/// the preferred one differ.
pub fn prepare_initial_block_model_color(numeric: &Vec<BlockVariable>, all: &Vec<BlockVariable>, ranged: bool) -> (r: Option<String>)
    ensures
        text_of(r) == initial_variable(numeric@, all@, ranged),
{
    if !ranged {
        match find_first(all, Ghost(|v: BlockVariable| names_categories(v)), |v: &BlockVariable| -> (b: bool)
            ensures
                b == names_categories(*v),
            {
                !v.special && (same_text(v.physical_type.as_str(), "namedbyte") || same_text(v.physical_type.as_str(), "namedshort"))
            }) {
            Some(i) => {
                return Some(all[i].name.clone());
            },
            None => {},
        }
    }
    preferred_block_model_color_variable(numeric)
}

impl DrillInterval {
    fn find_number(&self, field: &str) -> (r: Option<u64>)
        ensures
            r == number_of(*self, field@),
    {
        match find_first(&self.values, Ghost(value_in(field@)), |v: &FieldValue| -> (b: bool)
            ensures
                b == (v.field@ == field@),
            { same_text(v.field.as_str(), field) }) {
            Some(i) => match &self.values[i].value {
                DrillValue::Numeric(x) => Some(*x),
                _ => None,
            },
            None => None,
        }
    }

    fn find_sample(&self, field: &str, middle: Option<Point3>) -> (r: Option<KrigingSample>)
        ensures
            r == sample_of(*self, field@, middle),
    {
        match (self.find_number(field), middle) {
            (Some(value), Some(position)) => {
                if finite64(value) && finite64(self.from) && finite64(self.to) && less64(self.from, self.to) && finite64(position.x) && finite64(position.y)
                    && finite64(position.z) {
                    Some(KrigingSample { position, value })
                } else {
                    None
                }
            },
            _ => None,
        }
    }
}

/// What the intervals of a dataset give of a field. `middles` is where the
/// middle of each interval lies, where the trace of its hole reaches it.
pub fn collect_kriging_samples(holes: &Vec<DrillHole>, field: &str, middles: &Vec<Vec<Option<Point3>>>) -> (r: Vec<KrigingSample>)
    ensures
        r@ == all_samples(holes@, field@, middles@, holes@.len() as int),
{
    let mut samples: Vec<KrigingSample> = Vec::new();
    let mut h: usize = 0;
    while h < holes.len()
        invariant
            h <= holes.len(),
            samples@ == all_samples(holes@, field@, middles@, h as int),
        decreases holes.len() - h,
    {
        let ghost before = samples@;
        let mut k: usize = 0;
        assert(before + hole_samples(holes@, h as int, field@, middles@, 0) =~= before);
        while k < holes[h as usize].intervals.len()
            invariant
                h < holes.len(),
                k <= holes@[h as int].intervals@.len(),
                samples@ == before + hole_samples(holes@, h as int, field@, middles@, k as int),
            decreases holes@[h as int].intervals@.len() - k,
        {
            let middle: Option<Point3> = if h < middles.len() && k < middles[h].len() {
                middles[h][k]
            } else {
                None
            };
            match holes[h].intervals[k].find_sample(field, middle) {
                Some(x) => samples.push(x),
                None => {},
            }
            k += 1;
            assert(samples@ =~= before + hole_samples(holes@, h as int, field@, middles@, k as int));
        }
        h += 1;
    }
    samples
}

/// Whether an estimate is of use: every variable had samples enough and gave
/// some block a value.
pub fn check_estimates(estimates: &Vec<Estimate>, min_samples: u32) -> (r: Result<(), AppError>)
    ensures
        r == (match estimates_refused(estimates@, min_samples, estimates@.len() as int) {
            Some(e) => Err::<(), AppError>(e),
            None => Ok(()),
        }),
{
    let mut i: usize = 0;
    while i < estimates.len()
        invariant
            i <= estimates.len(),
            estimates_refused(estimates@, min_samples, i as int) is None,
        decreases estimates.len() - i,
    {
        if estimates[i].samples < min_samples as usize {
            proof {
                lemma_estimates_stop(estimates@, min_samples, i + 1, estimates@.len() as int);
            }
            return Err(AppError::TooFewSamples);
        }
        if estimates[i].estimated == 0 {
            proof {
                lemma_estimates_stop(estimates@, min_samples, i + 1, estimates@.len() as int);
            }
            return Err(AppError::NothingEstimated);
        }
        i += 1;
    }
    Ok(())
}

proof fn lemma_estimates_stop(estimates: Seq<Estimate>, min_samples: u32, i: int, n: int)
    requires
        0 < i <= n,
        estimates_refused(estimates, min_samples, i) is Some,
    ensures
        estimates_refused(estimates, min_samples, n) == estimates_refused(estimates, min_samples, i),
    decreases n - i,
{
    if i < n {
        lemma_estimates_stop(estimates, min_samples, i, n - 1);
    }
}

/// A name for the source of a block model that comes from no file.
pub fn generated_source() -> (r: String)
    ensures
        exists|n: u128| random_uuid(n) && r@ == "generated/"@ + #[trigger] hyphenated(n) + ".blockmodel"@,
{
    let n: u128 = new_uuid();
    let text = uuid_text(n);
    join3("generated/", text.as_str(), ".blockmodel")
}

impl OpenDrillHoleDataset {
    fn has_numeric(&self, key: &str) -> (r: bool)
        ensures
            r == numeric_key(*self, key@),
    {
        match find_first(&self.fields, Ghost(field_called(key@)), |f: &DrillField| -> (b: bool)
            ensures
                b == (f.key@ == key@),
            { same_text(f.key.as_str(), key) }) {
            Some(i) => match &self.fields[i].kind {
                DrillFieldKind::Numeric { .. } => true,
                _ => false,
            },
            None => false,
        }
    }

    fn check_variables(&self, variables: &Vec<String>) -> (r: Option<AppError>)
        ensures
            r == variables_refused(*self, variables@, variables@.len() as int),
    {
        let mut i: usize = 0;
        while i < variables.len()
            invariant
                i <= variables.len(),
                variables_refused(*self, variables@, i as int) is None,
            decreases variables.len() - i,
        {
            let mut j: usize = 0;
            let mut twice = false;
            while j < i
                invariant
                    j <= i < variables.len(),
                    twice == occurs(variables@, j as int, variables@[i as int]@),
                decreases i - j,
            {
                if same_text(variables[j].as_str(), variables[i].as_str()) {
                    twice = true;
                }
                j += 1;
            }
            if twice {
                proof {
                    lemma_variables_stop(*self, variables@, i + 1, variables@.len() as int);
                }
                return Some(AppError::VariableTwice);
            }
            if !self.has_numeric(variables[i].as_str()) {
                proof {
                    lemma_variables_stop(*self, variables@, i + 1, variables@.len() as int);
                }
                return Some(AppError::VariableNotNumeric);
            }
            i += 1;
        }
        None
    }
}

proof fn lemma_variables_stop(d: OpenDrillHoleDataset, variables: Seq<String>, i: int, n: int)
    requires
        0 < i <= n,
        variables_refused(d, variables, i) is Some,
    ensures
        variables_refused(d, variables, n) == variables_refused(d, variables, i),
    decreases n - i,
{
    if i < n {
        lemma_variables_stop(d, variables, i, n - 1);
    }
}

fn find_ramp(s: &Vec<ColorTransfer>, variable: &str) -> (r: Option<usize>)
    ensures
        match r {
            Some(i) => i == ramp_place(transfer_models(s@), variable@) && i < s@.len(),
            None => ramp_place(transfer_models(s@), variable@) == -1,
        },
{
    let ghost m = transfer_models(s@);
    let mut n: usize = s.len();
    assert(m.take(n as int) =~= m);
    while n > 0
        invariant
            n <= s.len(),
            m == transfer_models(s@),
            ramp_place(m, variable@) == ramp_place(m.take(n as int), variable@),
        decreases n,
    {
        assert(m.take(n as int).last() == (s@[n - 1].variable@, s@[n - 1].ramp));
        if same_text(s[n - 1].variable.as_str(), variable) {
            return Some(n - 1);
        }
        assert(m.take(n as int).drop_last() =~= m.take(n - 1));
        n -= 1;
    }
    None
}

impl OpenBlockModel {
    fn take_decoded(&mut self, variable: &str, ramp: Option<u64>) -> (r: bool)
        ensures
            model_decoded(*old(self), variable@, ramp, *final(self)),
            r == (ramp_place(transfer_models(old(self).color_transfers@), variable@) >= 0),
    {
        let ghost before = self.color_transfers@;
        let had = find_ramp(&self.color_transfers, variable).is_some();
        self.decoded = Some(variable.to_string());
        if !had {
            match ramp {
                Some(ramp) => {
                    self.color_transfers.push(ColorTransfer { variable: variable.to_string(), ramp });
                    assert(transfer_models(self.color_transfers@) =~= transfer_models(before).push((variable@, ramp)));
                },
                None => {},
            }
            self.state.touch();
        }
        had
    }

    fn ramps_with(&self, variable: &str, ramp: u64) -> (r: Vec<ColorTransfer>)
        ensures
            transfer_models(r@) == with_ramp(transfer_models(self.color_transfers@), variable@, ramp),
    {
        let mut ramps = copy_transfers(&self.color_transfers);
        let ghost before = ramps@;
        assert(transfer_models(before).len() == before.len());
        assert(transfer_models(self.color_transfers@).len() == self.color_transfers@.len());
        match find_ramp(&self.color_transfers, variable) {
            Some(i) => {
                ramps.set(i, ColorTransfer { variable: variable.to_string(), ramp });
                assert(transfer_models(ramps@) =~= transfer_models(before).update(i as int, (variable@, ramp)));
            },
            None => {
                ramps.push(ColorTransfer { variable: variable.to_string(), ramp });
                assert(transfer_models(ramps@) =~= transfer_models(before).push((variable@, ramp)));
            },
        }
        ramps
    }

    fn is_undecoded(&self) -> (r: bool)
        ensures
            r == undecoded(*self),
    {
        self.active_color_variable.is_some() && !same_optional_text(&self.decoded, &self.active_color_variable)
    }
}

impl Items {
    fn take_decoded(&mut self, i: usize, variable: &str, ramp: Option<u64>) -> (r: bool)
        requires
            i < old(self).block_models@.len(),
        ensures
            *final(self) == (Items { block_models: final(self).block_models, ..*old(self) }),
            final(self).block_models@.len() == old(self).block_models@.len(),
            model_decoded(old(self).block_models@[i as int], variable@, ramp, final(self).block_models@[i as int]),
            forall|j: int| 0 <= j < old(self).block_models@.len() && j != i ==> #[trigger] final(self).block_models@[j] == old(self).block_models@[j],
            r == (ramp_place(transfer_models(old(self).block_models@[i as int].color_transfers@), variable@) >= 0),
    {
        self.block_models[i].take_decoded(variable, ramp)
    }

    fn unload_block_model(&mut self, i: usize)
        requires
            i < old(self).block_models@.len(),
        ensures
            *final(self) == (Items { block_models: final(self).block_models, ..*old(self) }),
            final(self).block_models@ == old(self).block_models@.update(
                i as int,
                OpenBlockModel {
                    state: ItemState { loaded: false, ..old(self).block_models@[i as int].state },
                    ..old(self).block_models@[i as int]
                },
            ),
    {
        self.block_models[i].state.loaded = false;
        assert(self.block_models@ =~= old(self).block_models@.update(i as int, self.block_models@[i as int]));
    }
}

fn put_within(v: u64, low: u64, high: u64) -> (r: u64)
    ensures
        r == within(v, low, high),
{
    if less64(v, low) {
        low
    } else if less64(high, v) {
        high
    } else {
        v
    }
}

fn put_point_within(p: Point3, low: Point3, high: Point3) -> (r: Point3)
    ensures
        r == point_within(p, low, high),
{
    Point3 { x: put_within(p.x, low.x, high.x), y: put_within(p.y, low.y, high.y), z: put_within(p.z, low.z, high.z) }
}

fn is_slice_usable(v: BlockModelSlice) -> (r: bool)
    ensures
        r == slice_usable(v),
{
    finite64(v.min.x) && finite64(v.min.y) && finite64(v.min.z) && finite64(v.max.x) && finite64(v.max.y) && finite64(v.max.z) && !less64(
        v.max.x,
        v.min.x,
    ) && !less64(v.max.y, v.min.y) && !less64(v.max.z, v.min.z)
}

impl KrigingDialog {
    fn start_from(&mut self, d: &OpenDrillHoleDataset, extent: Option<KrigingExtent>, sill: u64)
        requires
            old(self).open,
        ensures
            dialog_opened(*old(self), Some(*d), extent, sill, *final(self)),
    {
        self.drill_hole = Some(d.id);
        let mut variables: Vec<String> = Vec::new();
        match find_first(&d.fields, Ghost(|f: DrillField| f.kind is Numeric), |f: &DrillField| -> (b: bool)
            ensures
                b == (f.kind is Numeric),
            {
                match &f.kind {
                    DrillFieldKind::Numeric { .. } => true,
                    _ => false,
                }
            }) {
            Some(i) => {
                variables.push(d.fields[i].key.clone());
                self.sill = sill;
            },
            None => {},
        }
        self.variables = variables;
        self.name = join(d.name.as_str(), " Block Model");
        match extent {
            Some(e) => {
                if d.bounds.is_some() {
                    self.lower = e.lower;
                    self.upper = e.upper;
                    self.cell = e.cell;
                    self.range = e.range;
                }
            },
            None => {},
        }
    }
}

impl BlockPanel {
    fn forget_ranges(&mut self, id: BlockModelId)
        ensures
            *final(self) == (BlockPanel { variable_ranges: final(self).variable_ranges, ..*old(self) }),
            final(self).variable_ranges@ == old(self).variable_ranges@.filter(|r: VariableRange| r.model != id),
    {
        let ghost f = |r: VariableRange| r.model != id;
        let ghost all = self.variable_ranges@;
        let mut kept: Vec<VariableRange> = Vec::new();
        let mut done: Ghost<int> = Ghost(0);
        proof {
            reveal(Seq::filter);
            assert(all.skip(0) =~= all);
            assert(all.take(0).filter(f) =~= kept@);
        }
        while self.variable_ranges.len() > 0
            invariant
                0 <= done@ <= all.len(),
                f == (|r: VariableRange| r.model != id),
                *self == (BlockPanel { variable_ranges: self.variable_ranges, ..*old(self) }),
                self.variable_ranges@ == all.skip(done@),
                kept@ == all.take(done@).filter(f),
            decreases self.variable_ranges.len(),
        {
            let range = self.variable_ranges.remove(0);
            proof {
                reveal(Seq::filter);
                assert(range == all[done@]);
                assert(self.variable_ranges@ =~= all.skip(done@ + 1));
                assert(all.take(done@ + 1).drop_last() =~= all.take(done@));
                done@ = done@ + 1;
            }
            if range.model != id {
                kept.push(range);
            }
        }
        assert(all.take(all.len() as int) =~= all);
        self.variable_ranges = kept;
    }

    fn leave(&mut self, id: BlockModelId)
        ensures
            panel_left(*old(self), id, *final(self)),
    {
        self.table_pages = filter_copied(&self.table_pages, Ghost(|p: TablePage| p.model != id), |p: TablePage| -> (b: bool)
            ensures
                b == (p.model != id),
            { p.model != id });
        self.forget_ranges(id);
        let seen = match self.viewport {
            Some(m) => m == id,
            None => false,
        };
        if seen {
            self.viewport = None;
        }
        let chosen = match self.active {
            Some(m) => m == id,
            None => false,
        };
        if chosen {
            self.active = None;
        }
    }
}

impl App {
    fn forget_model_handle(&mut self, handle: SceneEntityId)
        ensures
            model_handle_forgotten(*old(self), handle, *final(self)),
    {
        self.selection.handles.remove(handle);
        self.visibility.hidden.remove(handle);
        self.visibility.frozen.remove(handle);
        self.visibility.translucent.remove(handle);
    }

    /// Shows or hides a block model.
    pub fn toggle_block_model_visible(&mut self, id: BlockModelId)
        ensures
            model_visibility_toggled(*old(self), id, *final(self)),
    {
        let item = ItemRef::BlockModel(id);
        match self.items.item_style(item) {
            Some(style) => {
                let now = !style.visible();
                self.set_item_style(item, style.with_visible(now));
            },
            None => {},
        }
    }

    /// Colours a block model by another variable.
    pub fn set_block_model_color_variable(&mut self, id: BlockModelId, variable: String)
        ensures
            variable_set(*old(self), id, variable@, *final(self)),
    {
        let i: usize = match self.items.find_block_model(id) {
            Some(i) => i,
            None => {
                return ;
            },
        };
        match &self.items.block_models[i].active_color_variable {
            Some(v) => {
                if same_text(v.as_str(), variable.as_str()) {
                    return ;
                }
            },
            None => {},
        }
        match self.items.item_style(ItemRef::BlockModel(id)) {
            Some(style) => self.set_item_style(ItemRef::BlockModel(id), style.with_color_variable(variable)),
            None => {},
        }
    }

    /// Decodes the values that a block model is coloured by.
    pub fn spawn_block_model_values_decode(&mut self, id: BlockModelId)
        requires
            old(self).jobs.next_ticket < u64::MAX,
        ensures
            decode_begun(*old(self), id, *final(self)),
    {
        let variable = match self.items.find_block_model(id) {
            Some(i) => {
                if !self.items.block_models[i].is_undecoded() {
                    return ;
                }
                match &self.items.block_models[i].active_color_variable {
                    Some(v) => v.clone(),
                    None => {
                        return ;
                    },
                }
            },
            None => {
                return ;
            },
        };
        self.request_topology_redraw();
        self.spawn_job(
            "Decoding block-model colour variable…".to_owned(),
            one_key(JobKey::BlockModel(id)),
            Work::DecodeValues { id, variable },
        );
    }

    /// Takes over decoded values. `ramp` is a ramp that suits them.
    pub fn apply_decoded_values(&mut self, id: BlockModelId, variable: &str, ramp: Option<u64>)
        ensures
            decode_applied(*old(self), id, variable@, ramp, *final(self)),
    {
        let i: usize = match self.items.find_block_model(id) {
            Some(i) => i,
            None => {
                return ;
            },
        };
        let wanted = match &self.items.block_models[i].active_color_variable {
            Some(v) => same_text(v.as_str(), variable),
            None => false,
        };
        if !wanted {
            return ;
        }
        let had = self.items.take_decoded(i, variable, ramp);
        if !had {
            self.touch_active_project_content();
        }
        self.request_topology_redraw();
    }

    fn set_ramp(&mut self, id: BlockModelId, ramp: u64)
        ensures
            ramp_set(*old(self), id, ramp, *final(self)),
    {
        let item = ItemRef::BlockModel(id);
        let ramps = match self.items.find_block_model(id) {
            Some(i) => match &self.items.block_models[i].active_color_variable {
                Some(v) => self.items.block_models[i].ramps_with(v.as_str(), ramp),
                None => {
                    return ;
                },
            },
            None => {
                return ;
            },
        };
        let ghost now = transfer_models(ramps@);
        match (self.items.item_style(item), self.items.item_style(item)) {
            (Some(from), Some(again)) => {
                let ghost style = from@;
                let to = again.with_color_transfers(ramps);
                if from.same(&to) {
                    return ;
                }
                self.set_item_style(item, to);
                let ghost mid = *self;
                assert(style_set(*old(self), item, with_transfers(style, now), mid));
                self.request_topology_redraw();
            },
            _ => {},
        }
    }

    /// Gives the variable that a block model is coloured by another ramp.
    pub fn set_block_model_color_transfer(&mut self, id: BlockModelId, ramp: u64)
        ensures
            ramp_set(*old(self), id, ramp, *final(self)),
    {
        self.set_ramp(id, ramp);
    }

    /// Gives the variable that a block model is coloured by the ramp that
    /// suits its values.
    pub fn reset_block_model_color_transfer(&mut self, id: BlockModelId, usual: u64)
        ensures
            ramp_set(*old(self), id, usual, *final(self)),
    {
        self.set_ramp(id, usual);
    }

    /// Cuts a part out of a block model, or shows all of it.
    pub fn set_block_model_slice(&mut self, id: BlockModelId, slice: Option<BlockModelSlice>)
        ensures
            slice_set(*old(self), id, slice, *final(self)),
    {
        let item = ItemRef::BlockModel(id);
        let i: usize = match self.items.find_block_model(id) {
            Some(i) => i,
            None => {
                return ;
            },
        };
        let low = self.items.block_models[i].local_bounds.min;
        let high = self.items.block_models[i].local_bounds.max;
        let now: Option<BlockModelSlice> = match slice {
            Some(v) => {
                let kept = BlockModelSlice { min: put_point_within(v.min, low, high), max: put_point_within(v.max, low, high) };
                if !is_slice_usable(kept) {
                    return ;
                }
                Some(kept)
            },
            None => None,
        };
        if same_slice(self.items.block_models[i].slice, now) {
            return ;
        }
        match self.items.item_style(item) {
            Some(style) => {
                let ghost from = style@;
                self.set_item_style(item, style.with_slice(now));
                let ghost mid = *self;
                assert(now == cut_within(slice, old(self).items.block_models@[i as int]));
                assert(style_set(*old(self), item, with_slice(from, now), mid));
                self.request_topology_redraw();
            },
            None => {},
        }
    }

    /// Opens the dialog that makes a block model. `extent` and `sill` are what
    /// suits the dataset that it starts from.
    pub fn open_create_block_model_dialog(&mut self, preferred: Option<DrillHoleId>, extent: Option<KrigingExtent>, sill: u64)
        ensures
            *final(self) == (App { blocks: BlockPanel { dialog: final(self).blocks.dialog, ..old(self).blocks }, ..*old(self) }),
            dialog_opened(
                old(self).blocks.dialog,
                dataset_for(old(self).items.drill_holes@, preferred),
                extent,
                sill,
                final(self).blocks.dialog,
            ),
    {
        let found: Option<usize> = match preferred {
            Some(id) => match self.items.find_dataset(id) {
                Some(i) => Some(i),
                None => if self.items.drill_holes.len() > 0 {
                    Some(0)
                } else {
                    None
                },
            },
            None => if self.items.drill_holes.len() > 0 {
                Some(0)
            } else {
                None
            },
        };
        self.blocks.dialog.open = true;
        match found {
            Some(i) => self.blocks.dialog.start_from(&self.items.drill_holes[i], extent, sill),
            None => {
                self.blocks.dialog.drill_hole = None;
            },
        }
    }

    /// Asks for a block model estimated from drillholes.
    pub fn create_block_model_ordinary_kriging(&mut self, request: KrigingRequest) -> (r: Result<(), AppError>)
        requires
            old(self).jobs.next_ticket < u64::MAX,
        ensures
            kriging_begun(*old(self), request, r, *final(self)),
    {
        match self.items.find_dataset(request.drill_hole) {
            None => {
                return Err(AppError::DatasetNotFound);
            },
            Some(i) => {
                if request.variables.len() == 0 {
                    return Err(AppError::NoVariables);
                }
                match self.items.drill_holes[i].check_variables(&request.variables) {
                    Some(e) => {
                        return Err(e);
                    },
                    None => {},
                }
            },
        }
        let keys = one_key(JobKey::DrillHole(request.drill_hole));
        self.spawn_job("Ordinary Kriging…".to_owned(), keys, Work::Krige(request));
        Ok(())
    }

    /// Makes one block model the whole selection.
    pub fn select_block_model(&mut self, id: BlockModelId)
        ensures
            model_selected(*old(self), id, *final(self)),
    {
        let found = find_first(&self.items.block_models, Ghost(|m: OpenBlockModel| m.id == id && m.state.loaded), |m: &OpenBlockModel| -> (b: bool)
            ensures
                b == (m.id == id && m.state.loaded),
            { m.id == id && m.state.loaded });
        if found.is_none() {
            return ;
        }
        self.selection.handles.clear();
        self.selection.handles.insert(SceneEntityId::BlockModel(id));
        self.blocks.viewport = Some(id);
        self.invalidate_geometry();
        self.invalidate_overlay();
    }

    /// Unloads a block model.
    pub fn close_block_model(&mut self, id: BlockModelId)
        ensures
            model_closed(*old(self), id, *final(self)),
    {
        let i: usize = match self.items.find_block_model(id) {
            Some(i) => i,
            None => {
                return ;
            },
        };
        self.cancel_jobs(JobFilter::Key(JobKey::BlockModel(id)));
        let ghost idle = *self;
        self.forget_model_handle(SceneEntityId::BlockModel(id));
        let ghost gone = *self;
        self.items.unload_block_model(i);
        self.blocks.leave(id);
        self.invalidate_topology_bounds_and_redraw();
        assert(model_jobs_cancelled(*old(self), id, idle));
        assert(model_handle_forgotten(idle, SceneEntityId::BlockModel(id), gone));
    }

    /// Deletes a block model from the project.
    pub fn remove_block_model(&mut self, id: BlockModelId)
        ensures
            model_removed(*old(self), id, *final(self)),
    {
        self.cancel_jobs(JobFilter::Key(JobKey::BlockModel(id)));
        let ghost idle = *self;
        self.forget_model_handle(SceneEntityId::BlockModel(id));
        let ghost gone = *self;
        self.delete_project_item(ItemRef::BlockModel(id));
        let ghost deleted = *self;
        self.request_topology_redraw();
        assert(model_jobs_cancelled(*old(self), id, idle));
        assert(model_handle_forgotten(idle, SceneEntityId::BlockModel(id), gone));
        assert(item_deleted(gone, ItemRef::BlockModel(id), deleted));
    }

    /// Asks for a surface around the blocks of an ore.
    pub fn create_ore_triangulation(&mut self, request: OreRequest) -> (r: Result<(), AppError>)
        requires
            old(self).jobs.next_ticket < u64::MAX,
        ensures
            ore_begun(*old(self), request, r, *final(self)),
    {
        if self.items.find_block_model(request.block_model).is_none() {
            return Err(AppError::BlockModelNotFound);
        }
        let keys = one_key(JobKey::BlockModel(request.block_model));
        self.spawn_job("Building ore mesh…".to_owned(), keys, Work::OreMesh(request));
        Ok(())
    }
}

} // verus!
