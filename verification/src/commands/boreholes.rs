//! Drillhole datasets and point clouds.

use crate::arrivals::{dataset_names, fresh_state, new_drill_color, new_state, plain_drill_color};
use crate::blast::Blast;
use crate::commands::layers::one_edit;
use crate::commands::residency::item_loaded_set;
use crate::commands::surfaces::{handle_forgotten, item_deleted};
use crate::document::Rgba;
use crate::drawing::move_tool::{holds_dataset, move_cancelled};
use crate::edit::Edit;
use crate::error::AppError;
use crate::ids::{DrillHoleId, HoleRef, IdSet, ItemRef, PointCloudId, SceneEntityId, TieRef};
use crate::ieee::{f32_finite, f32_less, f64_finite, f64_less, finite32, finite64, less32, less64};
use crate::items::{
    dataset_index, Bounds, DrillCategoryColor, DrillColorPreset, DrillColorState, DrillColorStop, DrillField, DrillFieldKind, DrillHole, HolePlacement, Items,
    OpenDrillHoleDataset, OpenItem,
};
use crate::jobs::{jobs_cancelled, JobFilter, JobKey};
use crate::names::unique_name;
use crate::search::{filter_copied, find_first, first_index};
use crate::state::{App, Canvas, Pattern, Selection, Visibility};
use crate::styles::{category_models, style_set, DrillColorModel, ItemStyle, StyleModel};
use crate::text::{decimal, decimal_digits, same_text, text_of, trim, trimmed};
use vstd::prelude::*;
use vstd::string::*;

verus! {

/// So many zeros.
pub open spec fn zeros(n: int) -> Seq<char> {
    Seq::new(
        if n > 0 {
            n as nat
        } else {
            0
        },
        |i: int| '0',
    )
}

/// The number written in decimal, with zeros in front up to a width.
pub open spec fn padded(n: nat, width: int) -> Seq<char> {
    zeros(width - decimal_digits(n).len()) + decimal_digits(n)
}

/// How wide the numbers of so many holes are: three digits at least.
pub open spec fn number_width(count: nat) -> int {
    if decimal_digits(count).len() > 3 {
        decimal_digits(count).len() as int
    } else {
        3
    }
}

/// What the holes of a pattern are called, from the first on.
pub open spec fn pattern_name(count: nat, index: int) -> Seq<char> {
    seq!['H'] + padded((index + 1) as nat, number_width(count))
}

/// The number is positive and finite.
pub open spec fn positive(bits: u64) -> bool {
    f64_finite(bits) && f64_less(0, bits)
}

fn is_positive(bits: u64) -> (r: bool)
    ensures
        r == positive(bits),
{
    finite64(bits) && less64(0, bits)
}

/// The collars of all holes are finite.
pub open spec fn collars_finite(s: Seq<HolePlacement>) -> bool {
    forall|i: int| 0 <= i < s.len() ==> point_finite((#[trigger] s[i]).collar)
}

/// The coordinates of a point are finite.
pub open spec fn point_finite(p: crate::ieee::Point3) -> bool {
    f64_finite(p.x) && f64_finite(p.y) && f64_finite(p.z)
}

/// Why a pattern cannot be made.
pub open spec fn pattern_refused(name: Seq<char>, holes: Seq<HolePlacement>, depth: u64, diameter: u64, most: usize) -> Option<AppError> {
    if trimmed(name).len() == 0 {
        Some(AppError::PatternNameBlank)
    } else if !positive(depth) {
        Some(AppError::DepthNotPositive)
    } else if !positive(diameter) {
        Some(AppError::DiameterNotPositive)
    } else if holes.len() == 0 {
        Some(AppError::PatternEmpty)
    } else if holes.len() > most || !collars_finite(holes) {
        Some(AppError::PatternTooLarge)
    } else {
        None
    }
}

/// The holes of a pattern.
pub open spec fn pattern_holes(placements: Seq<HolePlacement>, diameter: u64, holes: Seq<DrillHole>) -> bool {
    &&& holes.len() == placements.len()
    &&& forall|i: int|
        0 <= i < holes.len() ==> (#[trigger] holes[i]).name@ == pattern_name(placements.len(), i) && holes[i].placement == placements[i] && holes[i].diameter
            == Some(diameter) && holes[i].intervals@.len() == 0
}

/// The dataset that a pattern becomes.
pub open spec fn pattern_dataset(
    items: Items,
    name: Seq<char>,
    placements: Seq<HolePlacement>,
    diameter: u64,
    bounds: Option<Bounds>,
    d: OpenDrillHoleDataset,
) -> bool {
    &&& d.id == DrillHoleId(items.next_drill_hole_id)
    &&& d.state == fresh_state(None, None, true, false)
    &&& d.name@ == unique_name(dataset_names(items.drill_holes@), trimmed(name))
    &&& d.visible
    &&& pattern_holes(placements, diameter, d.holes@)
    &&& d.fields@.len() == 0
    &&& d.bounds == bounds
    &&& plain_drill_color(d.color)
    &&& d.tie_ins@.len() == 0
    &&& d.initiations@.len() == 0
}

/// What making a pattern does: it becomes a dataset of the project, and the
/// dialog closes.
pub open spec fn pattern_created(
    pre: App,
    name: Seq<char>,
    placements: Seq<HolePlacement>,
    depth: u64,
    diameter: u64,
    bounds: Option<Bounds>,
    most: usize,
    r: Result<(), AppError>,
    post: App,
) -> bool {
    match pattern_refused(name, placements, depth, diameter, most) {
        Some(e) => r == Err::<(), AppError>(e) && post == pre,
        None => {
            &&& r == Ok::<(), AppError>(())
            &&& post == (App {
                items: Items { next_drill_hole_id: (pre.items.next_drill_hole_id + 1) as u64, ..pre.items },
                steps: post.steps,
                canvas: Canvas { active_drill_hole: Some(DrillHoleId(pre.items.next_drill_hole_id)), ..pre.canvas },
                pattern: post.pattern,
                ..pre
            })
            &&& one_edit(pre.steps@, post.steps@)
            &&& post.steps@.last().edits@[0] matches Edit::AddItem { index, item: OpenItem::DrillHole(d) } && index == pre.items.drill_holes@.len()
                && pattern_dataset(pre.items, name, placements, diameter, bounds, d)
            &&& !post.pattern.awaiting_shape_pick && post.pattern.boundary is None && post.pattern.boundary_name@.len() == 0
        },
    }
}

/// The field of a dataset with the key.
pub open spec fn field_index(s: Seq<DrillField>, key: Seq<char>) -> int {
    first_index(s, |f: DrillField| f.key@ == key)
}

/// What colouring a dataset does: one step, and the surfaces are drawn again.
pub open spec fn dataset_colored(pre: App, id: DrillHoleId, color: DrillColorModel, post: App) -> bool {
    let s = pre.items.drill_holes@;
    let i = dataset_index(s, id);
    if i >= s.len() {
        post == pre
    } else {
        exists|mid: App| #[trigger]
            style_set(pre, ItemRef::DrillHole(id), StyleModel::DrillHole { loaded: s[i].state.loaded, color }, mid) && post == (App {
                frame: mid.frame.topology(),
                ..mid
            })
    }
}

/// The dataset has the field, or none is asked for.
pub open spec fn field_known(s: Seq<OpenDrillHoleDataset>, id: DrillHoleId, field: Option<Seq<char>>) -> bool {
    let i = dataset_index(s, id);
    i < s.len() && (field matches Some(key) ==> field_index(s[i].fields@, key) < s[i].fields@.len())
}

/// The field sorts into categories.
pub open spec fn field_categorical(d: OpenDrillHoleDataset, field: Option<Seq<char>>) -> bool {
    match field {
        Some(key) => {
            let i = field_index(d.fields@, key);
            i < d.fields@.len() && d.fields@[i].kind is Categorical
        },
        None => false,
    }
}

/// What colouring a dataset by a field does: from the usual ramp, and from the
/// usual colours where the field sorts into categories.
pub open spec fn field_colored(
    pre: App,
    id: DrillHoleId,
    field: Option<Seq<char>>,
    ramp: Seq<DrillColorStop>,
    usual: Seq<(Seq<char>, Rgba)>,
    post: App,
) -> bool {
    let s = pre.items.drill_holes@;
    if !field_known(s, id, field) {
        post == pre
    } else {
        dataset_colored(
            pre,
            id,
            DrillColorModel {
                active_field: field,
                preset: DrillColorPreset::Rainbow,
                smooth: true,
                stops: ramp,
                categories: if field_categorical(s[dataset_index(s, id)], field) {
                    usual
                } else {
                    Seq::empty()
                },
            },
            post,
        )
    }
}

/// The place of a number among all numbers, minus zero before zero.
pub open spec fn total_key(bits: u32) -> int {
    if bits < 0x8000_0000 {
        bits as int
    } else {
        0x7fff_ffff - bits
    }
}

/// The stop can be used.
pub open spec fn stop_finite(s: DrillColorStop) -> bool {
    f32_finite(s.t) && f32_finite(s.color.r) && f32_finite(s.color.g) && f32_finite(s.color.b) && f32_finite(s.color.a)
}

/// The stops with one more, put before the first that comes after it.
pub open spec fn with_stop(s: Seq<DrillColorStop>, x: DrillColorStop) -> Seq<DrillColorStop> {
    s.insert(first_index(s, |y: DrillColorStop| total_key(y.t) > total_key(x.t)), x)
}

/// The stops that can be used, in their order along the ramp.
pub open spec fn sorted_stops(s: Seq<DrillColorStop>) -> Seq<DrillColorStop>
    decreases s.len(),
{
    if s.len() == 0 {
        s
    } else {
        let before = sorted_stops(s.drop_last());
        if stop_finite(s.last()) {
            with_stop(before, s.last())
        } else {
            before
        }
    }
}

/// A place along the ramp, moved to its nearer end where it lies outside.
pub open spec fn clamped(t: u32) -> u32 {
    if f32_less(t, 0) {
        0
    } else if f32_less(crate::arrivals::ONE, t) {
        crate::arrivals::ONE
    } else {
        t
    }
}

/// The stops that a ramp is given.
pub open spec fn usable_stops(s: Seq<DrillColorStop>) -> Seq<DrillColorStop> {
    sorted_stops(s).map_values(|x: DrillColorStop| DrillColorStop { t: clamped(x.t), ..x })
}

/// What giving a ramp stops does: two to twelve are taken.
pub open spec fn stops_set(pre: App, id: DrillHoleId, stops: Seq<DrillColorStop>, post: App) -> bool {
    let s = pre.items.drill_holes@;
    let i = dataset_index(s, id);
    let usable = usable_stops(stops);
    if i >= s.len() || usable.len() < 2 || usable.len() > 12 {
        post == pre
    } else {
        dataset_colored(pre, id, DrillColorModel { stops: usable, ..s[i].color@ }, post)
    }
}

/// No more than twelve.
pub open spec fn first_twelve<T>(s: Seq<T>) -> Seq<T> {
    if s.len() > 12 {
        s.take(12)
    } else {
        s
    }
}

/// A collar gesture over the dataset is put down.
pub open spec fn gesture_put_down(pre: App, id: DrillHoleId, post: App) -> bool {
    if holds_dataset(pre, id) {
        move_cancelled(pre, post)
    } else {
        post == pre
    }
}

/// Everything about drill and blast that speaks of a dataset is put down.
pub open spec fn blast_without(pre: Blast, id: DrillHoleId, post: Blast) -> bool {
    let mine = pre.anchor matches Some(a) && a.dataset == id;
    &&& post == (Blast {
        preview: post.preview,
        initiation_dialog: match pre.initiation_dialog {
            Some(d) if d.target.dataset == id => None,
            other => other,
        },
        ..(if mine {
            pre.chain_down()
        } else {
            pre
        })
    })
    &&& if mine {
        post.preview@.len() == 0
    } else {
        post.preview == pre.preview
    }
}

/// The holes and legs of a dataset are gone from the selection.
pub open spec fn selection_without(pre: Selection, id: DrillHoleId, post: Selection) -> bool {
    &&& post == (Selection { holes: post.holes, ties: post.ties, ..pre })
    &&& forall|h: HoleRef| #[trigger] post.holes@.contains(h) <==> pre.holes@.contains(h) && h.dataset != id
    &&& forall|t: TieRef| #[trigger] post.ties@.contains(t) <==> pre.ties@.contains(t) && t.dataset != id
}

/// Nothing speaks of the dataset any more, apart from its handle.
pub open spec fn dataset_left(pre: App, id: DrillHoleId, post: App) -> bool {
    &&& post == (App {
        jobs: post.jobs,
        blast: post.blast,
        selection: post.selection,
        canvas: Canvas {
            active_drill_hole: if pre.canvas.active_drill_hole == Some(id) {
                None
            } else {
                pre.canvas.active_drill_hole
            },
            ..pre.canvas
        },
        ..pre
    })
    &&& jobs_cancelled(pre.jobs, JobFilter::Key(JobKey::DrillHole(id)), post.jobs)
    &&& blast_without(pre.blast, id, post.blast)
    &&& selection_without(pre.selection, id, post.selection)
}

/// A handle is gone from the selection and no longer hidden or see-through; a
/// lock stays.
pub open spec fn handle_unloaded(pre: App, handle: SceneEntityId, post: App) -> bool {
    &&& post == (App {
        selection: Selection { handles: post.selection.handles, ..pre.selection },
        visibility: Visibility { hidden: post.visibility.hidden, translucent: post.visibility.translucent, ..pre.visibility },
        ..pre
    })
    &&& post.selection.handles@ == pre.selection.handles@.remove(handle)
    &&& post.visibility.hidden@ == pre.visibility.hidden@.remove(handle)
    &&& post.visibility.translucent@ == pre.visibility.translucent@.remove(handle)
}

/// What a dataset that left memory does.
pub open spec fn dataset_released(pre: App, id: DrillHoleId, post: App) -> bool {
    exists|calm: App, left: App, unloaded: App|
        {
            &&& #[trigger] gesture_put_down(pre, id, calm)
            &&& #[trigger] dataset_left(calm, id, left)
            &&& #[trigger] handle_unloaded(left, SceneEntityId::DrillHole(id), unloaded)
            &&& post == (App {
                frame: unloaded.frame.bounds(),
                blast: Blast {
                    color_dialog: if unloaded.blast.color_dialog == Some(id) {
                        None
                    } else {
                        unloaded.blast.color_dialog
                    },
                    ..unloaded.blast
                },
                ..unloaded
            })
        }
}

/// What deleting a dataset does. The dialog for its colours stays as it is.
pub open spec fn dataset_removed(pre: App, id: DrillHoleId, post: App) -> bool {
    exists|calm: App, left: App, gone: App, deleted: App|
        {
            &&& #[trigger] gesture_put_down(pre, id, calm)
            &&& #[trigger] dataset_left(calm, id, left)
            &&& #[trigger] handle_forgotten(left, SceneEntityId::DrillHole(id), gone)
            &&& #[trigger] item_deleted(gone, ItemRef::DrillHole(id), deleted)
            &&& post == (App { frame: deleted.frame.topology(), ..deleted })
        }
}

/// The jobs of a point cloud are withdrawn.
pub open spec fn cloud_jobs_cancelled(pre: App, id: PointCloudId, post: App) -> bool {
    post == (App { jobs: post.jobs, ..pre }) && jobs_cancelled(pre.jobs, JobFilter::Key(JobKey::PointCloud(id)), post.jobs)
}

/// What a point cloud that left memory does.
pub open spec fn cloud_released(pre: App, id: PointCloudId, post: App) -> bool {
    exists|idle: App, unloaded: App|
        {
            &&& #[trigger] cloud_jobs_cancelled(pre, id, idle)
            &&& #[trigger] handle_unloaded(idle, SceneEntityId::PointCloud(id), unloaded)
            &&& post == (App { frame: unloaded.frame.bounds(), ..unloaded })
        }
}

/// What deleting a point cloud does.
pub open spec fn cloud_removed(pre: App, id: PointCloudId, post: App) -> bool {
    exists|idle: App, gone: App|
        {
            &&& #[trigger] cloud_jobs_cancelled(pre, id, idle)
            &&& #[trigger] handle_forgotten(idle, SceneEntityId::PointCloud(id), gone)
            &&& item_deleted(gone, ItemRef::PointCloud(id), post)
        }
}

fn pad(n: usize, width: usize) -> (r: String)
    ensures
        r@ == padded(n as nat, width as int),
{
    let digits = decimal(n as u128);
    let have: usize = digits.as_str().unicode_len();
    let mut r = String::new();
    let mut i: usize = have;
    assert(r@ =~= zeros(0));
    while i < width
        invariant
            have <= i,
            i <= width || i == have,
            r@ == zeros(i - have),
        decreases width - i,
    {
        r.push('0');
        i += 1;
        assert(r@ =~= zeros(i - have));
    }
    if have >= width {
        assert(zeros(width - have) =~= zeros(0));
    }
    crate::text::join(r.as_str(), digits.as_str())
}

fn name_hole(count: usize, index: usize) -> (r: String)
    requires
        index < count,
    ensures
        r@ == pattern_name(count as nat, index as int),
{
    let wide: usize = decimal(count as u128).as_str().unicode_len();
    let width: usize = if wide > 3 {
        wide
    } else {
        3
    };
    let number = pad(index + 1, width);
    proof {
        reveal_strlit("H");
        assert("H"@ =~= seq!['H']);
    }
    crate::text::join("H", number.as_str())
}

fn are_collars_finite(s: &Vec<HolePlacement>) -> (r: bool)
    ensures
        r == collars_finite(s@),
{
    let mut i: usize = 0;
    while i < s.len()
        invariant
            i <= s.len(),
            forall|j: int| 0 <= j < i ==> point_finite((#[trigger] s@[j]).collar),
        decreases s.len() - i,
    {
        let p = s[i].collar;
        if !(finite64(p.x) && finite64(p.y) && finite64(p.z)) {
            assert(!point_finite(s@[i as int].collar));
            return false;
        }
        i += 1;
    }
    true
}

fn make_holes(placements: &Vec<HolePlacement>, diameter: u64) -> (r: Vec<DrillHole>)
    ensures
        pattern_holes(placements@, diameter, r@),
{
    let n: usize = placements.len();
    let mut holes: Vec<DrillHole> = Vec::new();
    let mut i: usize = 0;
    while i < n
        invariant
            i <= n,
            n == placements@.len(),
            holes@.len() == i,
            forall|j: int|
                0 <= j < i ==> (#[trigger] holes@[j]).name@ == pattern_name(n as nat, j) && holes@[j].placement == placements@[j] && holes@[j].diameter == Some(
                    diameter,
                ) && holes@[j].intervals@.len() == 0,
        decreases n - i,
    {
        let name = name_hole(n, i);
        holes.push(DrillHole { name, placement: placements[i], diameter: Some(diameter), intervals: Vec::new() });
        i += 1;
    }
    holes
}

fn total_after(a: u32, b: u32) -> (r: bool)
    ensures
        r == (total_key(a) > total_key(b)),
{
    if a < 0x8000_0000 {
        if b < 0x8000_0000 {
            a > b
        } else {
            true
        }
    } else if b < 0x8000_0000 {
        false
    } else {
        a < b
    }
}

fn is_stop_finite(s: DrillColorStop) -> (r: bool)
    ensures
        r == stop_finite(s),
{
    finite32(s.t) && finite32(s.color.r) && finite32(s.color.g) && finite32(s.color.b) && finite32(s.color.a)
}

fn sort_stops(s: &Vec<DrillColorStop>) -> (r: Vec<DrillColorStop>)
    ensures
        r@ == sorted_stops(s@),
{
    let mut sorted: Vec<DrillColorStop> = Vec::new();
    let mut i: usize = 0;
    assert(s@.take(0) =~= Seq::<DrillColorStop>::empty());
    while i < s.len()
        invariant
            i <= s.len(),
            sorted@ == sorted_stops(s@.take(i as int)),
        decreases s.len() - i,
    {
        let x = s[i];
        assert(s@.take(i + 1).drop_last() =~= s@.take(i as int));
        if is_stop_finite(x) {
            let at: usize = match find_first(&sorted, Ghost(|y: DrillColorStop| total_key(y.t) > total_key(x.t)), |y: &DrillColorStop| -> (b: bool)
                ensures
                    b == (total_key(y.t) > total_key(x.t)),
                { total_after(y.t, x.t) }) {
                Some(at) => at,
                None => sorted.len(),
            };
            sorted.insert(at, x);
        }
        i += 1;
    }
    assert(s@.take(s@.len() as int) =~= s@);
    sorted
}

fn clamp_stops(s: Vec<DrillColorStop>) -> (r: Vec<DrillColorStop>)
    ensures
        r@ == s@.map_values(|x: DrillColorStop| DrillColorStop { t: clamped(x.t), ..x }),
{
    let ghost want = s@.map_values(|x: DrillColorStop| DrillColorStop { t: clamped(x.t), ..x });
    let mut r: Vec<DrillColorStop> = Vec::new();
    let mut i: usize = 0;
    while i < s.len()
        invariant
            i <= s.len(),
            want == s@.map_values(|x: DrillColorStop| DrillColorStop { t: clamped(x.t), ..x }),
            r@ == want.take(i as int),
        decreases s.len() - i,
    {
        let t: u32 = s[i].t;
        let c: u32 = if less32(t, 0) {
            0
        } else if less32(crate::arrivals::ONE, t) {
            crate::arrivals::ONE
        } else {
            t
        };
        r.push(DrillColorStop { t: c, color: s[i].color });
        i += 1;
        assert(r@ =~= want.take(i as int));
    }
    assert(r@ =~= want);
    r
}

impl Blast {
    fn leave(&mut self, id: DrillHoleId)
        ensures
            blast_without(*old(self), id, *final(self)),
    {
        let mine = match self.anchor {
            Some(a) => a.dataset == id,
            None => false,
        };
        if mine {
            self.end_tie_chain();
        }
        let asked = match &self.initiation_dialog {
            Some(d) => d.target.dataset == id,
            None => false,
        };
        if asked {
            self.initiation_dialog = None;
        }
    }
}

impl Blast {
    fn close_colors_of(&mut self, id: DrillHoleId)
        ensures
            *final(self) == (Blast {
                color_dialog: if old(self).color_dialog == Some(id) {
                    None
                } else {
                    old(self).color_dialog
                },
                ..*old(self)
            }),
    {
        let colored = match self.color_dialog {
            Some(d) => d == id,
            None => false,
        };
        if colored {
            self.color_dialog = None;
        }
    }
}

impl Selection {
    fn leave(&mut self, id: DrillHoleId)
        ensures
            selection_without(*old(self), id, *final(self)),
    {
        let ghost keep = |h: HoleRef| h.dataset != id;
        let kept = filter_copied(self.holes.as_vec(), Ghost(keep), |h: HoleRef| -> (b: bool)
            ensures
                b == (h.dataset != id),
            { h.dataset != id });
        let holes = IdSet::from_vec(&kept);
        proof {
            crate::ids::lemma_filter_members(self.holes.order(), keep);
            assert forall|h: HoleRef| #[trigger] holes@.contains(h) <==> self.holes@.contains(h) && h.dataset != id by {
                assert(holes@.contains(h) <==> kept@.contains(h));
                assert(self.holes.order().to_set().contains(h) <==> self.holes.order().contains(h));
            }
        }
        let ghost keep = |t: TieRef| t.dataset != id;
        let kept = filter_copied(self.ties.as_vec(), Ghost(keep), |t: TieRef| -> (b: bool)
            ensures
                b == (t.dataset != id),
            { t.dataset != id });
        let ties = IdSet::from_vec(&kept);
        proof {
            crate::ids::lemma_filter_members(self.ties.order(), keep);
            assert forall|t: TieRef| #[trigger] ties@.contains(t) <==> self.ties@.contains(t) && t.dataset != id by {
                assert(ties@.contains(t) <==> kept@.contains(t));
                assert(self.ties.order().to_set().contains(t) <==> self.ties.order().contains(t));
            }
        }
        self.holes = holes;
        self.ties = ties;
    }
}

impl OpenDrillHoleDataset {
    fn find_field(&self, key: &str) -> (r: Option<usize>)
        ensures
            match r {
                Some(i) => i == field_index(self.fields@, key@) && i < self.fields@.len(),
                None => field_index(self.fields@, key@) == self.fields@.len(),
            },
    {
        find_first(&self.fields, Ghost(|f: DrillField| f.key@ == key@), |f: &DrillField| -> (b: bool)
            ensures
                b == (f.key@ == key@),
            { same_text(f.key.as_str(), key) })
    }
}

impl App {
    fn make_pattern(&mut self, name: &str, placements: &Vec<HolePlacement>, diameter: u64, bounds: Option<Bounds>) -> (r: OpenDrillHoleDataset)
        requires
            old(self).items.next_drill_hole_id < u64::MAX,
        ensures
            pattern_dataset(old(self).items, name@, placements@, diameter, bounds, r),
            *final(self) == (App {
                items: Items { next_drill_hole_id: (old(self).items.next_drill_hole_id + 1) as u64, ..old(self).items },
                ..*old(self)
            }),
    {
        let id: u64 = self.items.next_drill_hole_id;
        let wanted = trim(name);
        let own = self.items.free_dataset_name(wanted.as_str());
        self.items.next_drill_hole_id = id + 1;
        OpenDrillHoleDataset {
            id: DrillHoleId(id),
            state: new_state(None, None, true, false),
            name: own,
            visible: true,
            holes: make_holes(placements, diameter),
            fields: Vec::new(),
            bounds,
            color: new_drill_color(),
            tie_ins: Vec::new(),
            initiations: Vec::new(),
        }
    }

    /// Makes a dataset of a pattern. `placements` are the holes as the pattern
    /// shows them, straight down to the depth, and `bounds` the box around
    /// them; `most` is how many a pattern may have.
    pub fn create_drill_pattern(
        &mut self,
        name: &str,
        placements: &Vec<HolePlacement>,
        depth: u64,
        diameter: u64,
        bounds: Option<Bounds>,
        most: usize,
    ) -> (r: Result<(), AppError>)
        requires
            old(self).items.next_drill_hole_id < u64::MAX,
        ensures
            pattern_created(*old(self), name@, placements@, depth, diameter, bounds, most, r, *final(self)),
    {
        if trim(name).as_str().unicode_len() == 0 {
            return Err(AppError::PatternNameBlank);
        }
        if !is_positive(depth) {
            return Err(AppError::DepthNotPositive);
        }
        if !is_positive(diameter) {
            return Err(AppError::DiameterNotPositive);
        }
        if placements.len() == 0 {
            return Err(AppError::PatternEmpty);
        }
        if placements.len() > most || !are_collars_finite(placements) {
            return Err(AppError::PatternTooLarge);
        }
        let dataset = self.make_pattern(name, placements, diameter, bounds);
        let id = dataset.id;
        let index: usize = self.items.drill_holes.len();
        self.execute_edit(Edit::AddItem { index, item: OpenItem::DrillHole(dataset) });
        self.canvas.active_drill_hole = Some(id);
        self.pattern = Pattern { awaiting_shape_pick: false, boundary: None, boundary_name: String::new() };
        Ok(())
    }

    fn color_dataset(&mut self, id: DrillHoleId, color: DrillColorState)
        ensures
            dataset_colored(*old(self), id, color@, *final(self)),
    {
        let loaded = match self.items.find_dataset(id) {
            Some(i) => self.items.drill_holes[i].state.loaded,
            None => {
                return ;
            },
        };
        self.set_item_style(ItemRef::DrillHole(id), ItemStyle::DrillHole { loaded, color });
        let ghost mid = *self;
        assert(style_set(*old(self), ItemRef::DrillHole(id), StyleModel::DrillHole { loaded, color: color@ }, mid));
        self.request_topology_redraw();
    }

    /// Colours a dataset by a field, or by nothing. `ramp` is the usual ramp,
    /// `usual` the usual colours of the field's categories.
    pub fn set_drill_hole_color_field(&mut self, id: DrillHoleId, field: Option<String>, ramp: Vec<DrillColorStop>, usual: Vec<DrillCategoryColor>)
        ensures
            field_colored(*old(self), id, text_of(field), ramp@, category_models(usual@), *final(self)),
    {
        let categorical = match self.items.find_dataset(id) {
            Some(i) => match &field {
                Some(key) => match self.items.drill_holes[i].find_field(key.as_str()) {
                    Some(f) => match &self.items.drill_holes[i].fields[f].kind {
                        DrillFieldKind::Categorical { .. } => true,
                        _ => false,
                    },
                    None => {
                        return ;
                    },
                },
                None => false,
            },
            None => {
                return ;
            },
        };
        let categories: Vec<DrillCategoryColor> = if categorical {
            usual
        } else {
            Vec::new()
        };
        assert(!categorical ==> category_models(categories@) =~= Seq::<(Seq<char>, Rgba)>::empty());
        let color = DrillColorState { active_field: field, preset: DrillColorPreset::Rainbow, smooth: true, stops: ramp, categories };
        self.color_dataset(id, color);
    }

    /// Colours a dataset by another ramp.
    pub fn set_drill_hole_color_preset(&mut self, id: DrillHoleId, preset: DrillColorPreset, smooth: bool, stops: Vec<DrillColorStop>)
        ensures
            preset_colored(*old(self), id, preset, smooth, stops@, *final(self)),
    {
        let mut color = match self.items.find_dataset(id) {
            Some(i) => self.items.drill_holes[i].color.copy(),
            None => {
                return ;
            },
        };
        color.preset = preset;
        color.smooth = smooth;
        color.stops = stops;
        self.color_dataset(id, color);
    }

    /// Gives the ramp of a dataset other stops.
    pub fn set_drill_hole_color_stops(&mut self, id: DrillHoleId, stops: &Vec<DrillColorStop>)
        ensures
            stops_set(*old(self), id, stops@, *final(self)),
    {
        let usable = clamp_stops(sort_stops(stops));
        if usable.len() < 2 || usable.len() > 12 {
            return ;
        }
        let mut color = match self.items.find_dataset(id) {
            Some(i) => self.items.drill_holes[i].color.copy(),
            None => {
                return ;
            },
        };
        color.stops = usable;
        self.color_dataset(id, color);
    }

    /// Gives the categories of a dataset other colours, to the first twelve.
    pub fn set_drill_hole_category_colors(&mut self, id: DrillHoleId, categories: Vec<DrillCategoryColor>)
        ensures
            categories_colored(*old(self), id, category_models(categories@), *final(self)),
    {
        let mut color = match self.items.find_dataset(id) {
            Some(i) => self.items.drill_holes[i].color.copy(),
            None => {
                return ;
            },
        };
        let ghost all = category_models(categories@);
        let mut kept = categories;
        if kept.len() > 12 {
            kept.truncate(12);
        }
        assert(category_models(kept@) =~= first_twelve(all));
        color.categories = kept;
        self.color_dataset(id, color);
    }

    /// Unloads a dataset.
    pub fn close_drill_hole(&mut self, id: DrillHoleId)
        ensures
            item_loaded_set(*old(self), ItemRef::DrillHole(id), false, *final(self)),
    {
        self.set_item_loaded(ItemRef::DrillHole(id), false);
    }

    fn leave_dataset(&mut self, id: DrillHoleId)
        ensures
            dataset_left(*old(self), id, *final(self)),
    {
        self.cancel_jobs(JobFilter::Key(JobKey::DrillHole(id)));
        self.blast.leave(id);
        self.selection.leave(id);
        let chosen = match self.canvas.active_drill_hole {
            Some(d) => d == id,
            None => false,
        };
        if chosen {
            self.canvas.active_drill_hole = None;
        }
    }

    fn unload_handle(&mut self, handle: SceneEntityId)
        ensures
            handle_unloaded(*old(self), handle, *final(self)),
    {
        self.selection.handles.remove(handle);
        self.visibility.hidden.remove(handle);
        self.visibility.translucent.remove(handle);
    }

    /// A dataset left memory.
    pub fn release_drillhole_runtime(&mut self, id: DrillHoleId)
        ensures
            dataset_released(*old(self), id, *final(self)),
    {
        self.cancel_collar_move_touching(id);
        let ghost calm = *self;
        self.leave_dataset(id);
        let ghost left = *self;
        self.unload_handle(SceneEntityId::DrillHole(id));
        let ghost unloaded = *self;
        self.blast.close_colors_of(id);
        self.invalidate_topology_bounds_and_redraw();
        assert(gesture_put_down(*old(self), id, calm));
        assert(dataset_left(calm, id, left));
        assert(handle_unloaded(left, SceneEntityId::DrillHole(id), unloaded));
    }

    /// Deletes a dataset from the project.
    pub fn remove_drill_hole(&mut self, id: DrillHoleId)
        ensures
            dataset_removed(*old(self), id, *final(self)),
    {
        self.cancel_collar_move_touching(id);
        let ghost calm = *self;
        self.leave_dataset(id);
        let ghost left = *self;
        self.forget_handle(SceneEntityId::DrillHole(id));
        let ghost gone = *self;
        self.delete_project_item(ItemRef::DrillHole(id));
        let ghost deleted = *self;
        self.request_topology_redraw();
        assert(gesture_put_down(*old(self), id, calm));
        assert(dataset_left(calm, id, left));
        assert(handle_forgotten(left, SceneEntityId::DrillHole(id), gone));
        assert(item_deleted(gone, ItemRef::DrillHole(id), deleted));
    }

    /// Unloads a point cloud.
    pub fn close_point_cloud(&mut self, id: PointCloudId)
        ensures
            item_loaded_set(*old(self), ItemRef::PointCloud(id), false, *final(self)),
    {
        self.set_item_loaded(ItemRef::PointCloud(id), false);
    }

    /// A point cloud left memory.
    pub fn release_pointcloud_runtime(&mut self, id: PointCloudId)
        ensures
            cloud_released(*old(self), id, *final(self)),
    {
        self.cancel_jobs(JobFilter::Key(JobKey::PointCloud(id)));
        let ghost idle = *self;
        self.unload_handle(SceneEntityId::PointCloud(id));
        let ghost unloaded = *self;
        self.invalidate_topology_bounds_and_redraw();
        assert(cloud_jobs_cancelled(*old(self), id, idle));
        assert(handle_unloaded(idle, SceneEntityId::PointCloud(id), unloaded));
    }

    /// Deletes a point cloud from the project.
    pub fn remove_point_cloud(&mut self, id: PointCloudId)
        ensures
            cloud_removed(*old(self), id, *final(self)),
    {
        self.cancel_jobs(JobFilter::Key(JobKey::PointCloud(id)));
        let ghost idle = *self;
        self.forget_handle(SceneEntityId::PointCloud(id));
        let ghost gone = *self;
        self.delete_project_item(ItemRef::PointCloud(id));
        assert(cloud_jobs_cancelled(*old(self), id, idle));
        assert(handle_forgotten(idle, SceneEntityId::PointCloud(id), gone));
    }
}

/// What colouring a dataset by another ramp does.
pub open spec fn preset_colored(pre: App, id: DrillHoleId, preset: DrillColorPreset, smooth: bool, stops: Seq<DrillColorStop>, post: App) -> bool {
    let s = pre.items.drill_holes@;
    let i = dataset_index(s, id);
    if i >= s.len() {
        post == pre
    } else {
        dataset_colored(pre, id, DrillColorModel { preset, smooth, stops, ..s[i].color@ }, post)
    }
}

/// What giving categories other colours does.
pub open spec fn categories_colored(pre: App, id: DrillHoleId, categories: Seq<(Seq<char>, Rgba)>, post: App) -> bool {
    let s = pre.items.drill_holes@;
    let i = dataset_index(s, id);
    if i >= s.len() {
        post == pre
    } else {
        dataset_colored(pre, id, DrillColorModel { categories: first_twelve(categories), ..s[i].color@ }, post)
    }
}

/// The stops of a ramp come in order, and none lies outside.
pub proof fn law_stops_are_in_order(s: Seq<DrillColorStop>)
    ensures
        forall|i: int, j: int| 0 <= i < j < sorted_stops(s).len() ==> total_key((#[trigger] sorted_stops(s)[i]).t) <= total_key((#[trigger] sorted_stops(s)[j]).t),
        forall|i: int| 0 <= i < sorted_stops(s).len() ==> stop_finite(#[trigger] sorted_stops(s)[i]),
    decreases s.len(),
{
    if s.len() > 0 {
        let before = sorted_stops(s.drop_last());
        let x = s.last();
        law_stops_are_in_order(s.drop_last());
        if stop_finite(x) {
            let f = |y: DrillColorStop| total_key(y.t) > total_key(x.t);
            crate::search::lemma_first_index(before, f);
            let k = first_index(before, f);
            let r = before.insert(k, x);
            assert(r == sorted_stops(s));
            assert forall|i: int, j: int| 0 <= i < j < r.len() implies total_key((#[trigger] r[i]).t) <= total_key((#[trigger] r[j]).t) by {
                if i == k && j > k {
                    assert(f(before[k]));
                    if j - 1 > k {
                        assert(total_key(before[k].t) <= total_key(before[j - 1].t));
                    }
                } else if j == k && i < k {
                    assert(!f(before[i]));
                } else {
                    let a = if i < k {
                        i
                    } else {
                        i - 1
                    };
                    let b = if j < k {
                        j
                    } else {
                        j - 1
                    };
                    assert(r[i] == before[a] && r[j] == before[b]);
                }
            }
            assert forall|i: int| 0 <= i < r.len() implies stop_finite(#[trigger] r[i]) by {
                if i != k {
                    let a = if i < k {
                        i
                    } else {
                        i - 1
                    };
                    assert(r[i] == before[a]);
                }
            }
        }
    }
}

} // verus!
