//! Batters and berms: rings stepped out from, or in from, a polyline.

use crate::document::{Document, Object, ObjectModel, PolyVertex};
use crate::edit::Edit;
use crate::ids::{ObjectId, SceneEntityId};
use crate::ieee::{equal64, f64_equal, f64_finite, f64_less, finite64, less64, negate, negated, Point3, ScreenPoint, F64_ONE};
use crate::search::lemma_first_index;
use crate::state::{ActiveTool, App, Canvas};
use crate::workspace::{holds_object, index_of_object, object_ids_left, OpenProject, Workspace};
use vstd::prelude::*;

verus! {

/// How many benches the search for the deepest design goes through at most: an
/// open string does not collapse under an offset.
pub const BATTER_BERM_SEARCH_LIMIT: u32 = 4096;

/// How many vertices the rings of one design have at most.
pub const MAX_OUTPUT_VERTICES: usize = 1_000_000;

/// The number 90.
pub const F64_NINETY: u64 = 0x4056_8000_0000_0000;

/// What is designed.
#[derive(Clone, Copy, PartialEq, Eq, Structural, Debug)]
pub enum BatterBermMode {
    Pit,
    Stockpile,
}

/// What a preview was made of.
#[derive(Clone, Copy, PartialEq, Eq, Structural, Debug)]
pub struct BatterBermPreviewKey {
    pub target: ObjectId,
    pub revision: u64,
    pub width: u64,
    pub angle: u64,
    pub bench_height: u64,
    pub benches: u32,
    pub mode: BatterBermMode,
    pub direction_up: bool,
}

/// Two previews are made of the same.
pub open spec fn same_preview(a: BatterBermPreviewKey, b: BatterBermPreviewKey) -> bool {
    &&& a.target == b.target && a.revision == b.revision && a.benches == b.benches && a.mode == b.mode && a.direction_up == b.direction_up
    &&& f64_equal(a.width, b.width) && f64_equal(a.angle, b.angle) && f64_equal(a.bench_height, b.bench_height)
}

/// The dialog, and the rings that it shows.
pub struct BatterBerm {
    pub dialog_open: bool,
    pub target: Option<ObjectId>,
    pub key: Option<BatterBermPreviewKey>,
    pub closed: bool,
    pub width: u64,
    pub angle: u64,
    pub bench_height: u64,
    pub benches: u32,
    pub max_benches: u32,
    pub mode: BatterBermMode,
    pub direction_up: bool,
    pub source_world: Vec<Point3>,
    pub rings_world: Vec<Vec<Point3>>,
    pub source_px: Vec<ScreenPoint>,
    pub rings_px: Vec<Vec<ScreenPoint>>,
}

/// Why the search for benches ended.
#[derive(Clone, Copy, PartialEq, Eq, Structural, Debug)]
pub enum BatterBermStopReason {
    RequestedCount,
    NoValidBatter,
    NoValidBerm,
    SafetyLimit,
    Cancelled,
}

/// The benches that were found: a toe and a berm each, in turn.
pub struct BatterBermGeneration {
    pub rings: Vec<Vec<Point3>>,
    pub completed_benches: u32,
    pub stop_reason: BatterBermStopReason,
}

/// One bench to be tried: its two rings, whether each fits the one before it,
/// and whether the search was called off before the one or the other.
pub struct Bench {
    pub cancelled: bool,
    pub toe: Vec<Point3>,
    pub toe_valid: bool,
    pub cancelled_at_berm: bool,
    pub berm: Vec<Point3>,
    pub berm_valid: bool,
}

/// A search for benches.
pub struct BenchSearch {
    pub requested: Option<u32>,
    pub target: u32,
    pub rings: Vec<Vec<Point3>>,
    pub completed: u32,
    pub vertices: usize,
    pub stop: Option<BatterBermStopReason>,
}

/// How many vertices rings have.
pub open spec fn total_vertices(rings: Seq<Vec<Point3>>) -> int
    decreases rings.len(),
{
    if rings.len() == 0 {
        0
    } else {
        total_vertices(rings.drop_last()) + rings.last()@.len()
    }
}

proof fn lemma_bench_vertices(rings: Seq<Vec<Point3>>, toe: Vec<Point3>, berm: Vec<Point3>)
    ensures
        total_vertices(rings.push(toe).push(berm)) == total_vertices(rings) + toe@.len() + berm@.len(),
{
    let with_toe = rings.push(toe);
    assert(with_toe.push(berm).drop_last() =~= with_toe);
    assert(with_toe.drop_last() =~= rings);
    assert(total_vertices(with_toe) == total_vertices(rings) + toe@.len());
}

/// How many benches a search goes through at most.
pub open spec fn bench_target(requested: Option<u32>, hard_limit: u32) -> u32 {
    match requested {
        Some(n) if n < hard_limit => n,
        _ => hard_limit,
    }
}

/// Why a search ends that has all its benches.
pub open spec fn full_reason(requested: Option<u32>, completed: u32) -> BatterBermStopReason {
    match requested {
        Some(n) if completed >= n => BatterBermStopReason::RequestedCount,
        _ => BatterBermStopReason::SafetyLimit,
    }
}

/// Why a bench ends the search, if it does.
pub open spec fn bench_refused(vertices: int, b: Bench) -> Option<BatterBermStopReason> {
    if b.cancelled {
        Some(BatterBermStopReason::Cancelled)
    } else if !b.toe_valid {
        Some(BatterBermStopReason::NoValidBatter)
    } else if b.cancelled_at_berm {
        Some(BatterBermStopReason::Cancelled)
    } else if !b.berm_valid {
        Some(BatterBermStopReason::NoValidBerm)
    } else if vertices + b.toe@.len() + b.berm@.len() > MAX_OUTPUT_VERTICES {
        Some(BatterBermStopReason::SafetyLimit)
    } else {
        None
    }
}

impl BenchSearch {
    /// The search has whole benches, no more than asked for, and goes on while
    /// it has fewer.
    pub open spec fn sound(self) -> bool {
        &&& self.rings@.len() == 2 * self.completed
        &&& self.completed <= self.target
        &&& self.vertices == total_vertices(self.rings@)
        &&& self.vertices <= MAX_OUTPUT_VERTICES
        &&& self.stop is None ==> self.completed < self.target
    }

    /// The search with one more bench tried.
    pub open spec fn tried(self, b: Bench, post: BenchSearch) -> bool {
        &&& post == (BenchSearch { rings: post.rings, completed: post.completed, vertices: post.vertices, stop: post.stop, ..self })
        &&& if self.stop is Some {
            post == self
        } else {
            match bench_refused(self.vertices as int, b) {
                Some(reason) => post == (BenchSearch { stop: Some(reason), ..self }),
                None => {
                    &&& post.rings@ == self.rings@.push(b.toe).push(b.berm)
                    &&& post.completed == self.completed + 1
                    &&& post.vertices == self.vertices + b.toe@.len() + b.berm@.len()
                    &&& post.stop == if post.completed >= self.target {
                        Some(full_reason(self.requested, post.completed))
                    } else {
                        None
                    }
                },
            }
        }
    }

    /// A search that has yet to try its first bench.
    pub fn begin(requested: Option<u32>, hard_limit: u32) -> (r: BenchSearch)
        ensures
            r.sound(),
            r.requested == requested,
            r.target == bench_target(requested, hard_limit),
            r.rings@.len() == 0,
            r.completed == 0,
            r.stop == if r.target == 0 {
                Some(full_reason(requested, 0))
            } else {
                None
            },
    {
        let target: u32 = match requested {
            Some(n) => if n < hard_limit {
                n
            } else {
                hard_limit
            },
            None => hard_limit,
        };
        let stop = if target == 0 {
            Some(find_full_reason(requested, 0))
        } else {
            None
        };
        BenchSearch { requested, target, rings: Vec::new(), completed: 0, vertices: 0, stop }
    }

    /// What a search that has ended has found.
    pub fn found(self) -> (r: BatterBermGeneration)
        requires
            self.stop is Some,
        ensures
            r.rings == self.rings,
            r.completed_benches == self.completed,
            self.stop == Some(r.stop_reason),
    {
        BatterBermGeneration { rings: self.rings, completed_benches: self.completed, stop_reason: self.stop.unwrap() }
    }
}

fn find_full_reason(requested: Option<u32>, completed: u32) -> (r: BatterBermStopReason)
    ensures
        r == full_reason(requested, completed),
{
    match requested {
        Some(n) => if completed >= n {
            BatterBermStopReason::RequestedCount
        } else {
            BatterBermStopReason::SafetyLimit
        },
        None => BatterBermStopReason::SafetyLimit,
    }
}

/// Tries one more bench; tells whether the search goes on. A bench counts only
/// with both of its rings.
pub fn compute_batter_berm_rings(search: &mut BenchSearch, bench: Bench) -> (r: bool)
    requires
        old(search).sound(),
    ensures
        final(search).sound(),
        old(search).tried(bench, *final(search)),
        r == (final(search).stop is None),
{
    if search.stop.is_some() {
        return false;
    }
    if bench.cancelled {
        search.stop = Some(BatterBermStopReason::Cancelled);
        return false;
    }
    if !bench.toe_valid {
        search.stop = Some(BatterBermStopReason::NoValidBatter);
        return false;
    }
    if bench.cancelled_at_berm {
        search.stop = Some(BatterBermStopReason::Cancelled);
        return false;
    }
    if !bench.berm_valid {
        search.stop = Some(BatterBermStopReason::NoValidBerm);
        return false;
    }
    let room: usize = MAX_OUTPUT_VERTICES - search.vertices;
    if bench.toe.len() > room || bench.berm.len() > room - bench.toe.len() {
        search.stop = Some(BatterBermStopReason::SafetyLimit);
        return false;
    }
    let pair: usize = bench.toe.len() + bench.berm.len();
    let ghost before = search.rings@;
    search.vertices = search.vertices + pair;
    search.rings.push(bench.toe);
    search.rings.push(bench.berm);
    search.completed = search.completed + 1;
    proof {
        lemma_bench_vertices(before, bench.toe, bench.berm);
    }
    if search.completed >= search.target {
        search.stop = Some(find_full_reason(search.requested, search.completed));
        return false;
    }
    true
}

/// What is known of a ring and the one before it: their vertices, whether they
/// run the same way round, how their areas compare within tolerance, and
/// whether the inner one lies inside the outer one.
#[derive(Clone, Copy, PartialEq, Eq, Structural, Debug)]
pub struct OffsetFacts {
    pub previous_len: usize,
    pub next_len: usize,
    pub same_winding: bool,
    pub area_grew: bool,
    pub area_shrank: bool,
    pub inner_inside: bool,
}

/// A ring fits the one before it: an inward step shrinks and stays inside, an
/// outward one grows and contains it.
pub open spec fn offset_fits(f: OffsetFacts, closed: bool, outward: bool) -> bool {
    if !closed {
        f.next_len >= 2
    } else {
        &&& f.previous_len >= 3 && f.next_len >= 3
        &&& f.same_winding
        &&& !(if outward {
            f.area_shrank
        } else {
            f.area_grew
        })
        &&& f.inner_inside
    }
}

/// Whether a ring fits the one before it.
pub fn valid_offset(f: OffsetFacts, closed: bool, outward: bool) -> (r: bool)
    ensures
        r == offset_fits(f, closed, outward),
{
    if !closed {
        return f.next_len >= 2;
    }
    if f.previous_len < 3 || f.next_len < 3 || !f.same_winding {
        return false;
    }
    if (outward && f.area_shrank) || (!outward && f.area_grew) {
        return false;
    }
    f.inner_inside
}

/// The sign of an inward offset: 1 for a ring that runs counter-clockwise,
/// whose area is positive; -1 for any other polyline.
pub open spec fn inward_sign(count: int, closed: bool, area: u64) -> u64 {
    if closed && count >= 3 && f64_less(0, area) {
        F64_ONE
    } else {
        negated(F64_ONE)
    }
}

/// The sign of an inward offset of a polyline with so many vertices and such a
/// signed area.
pub fn inward_side(count: usize, closed: bool, area: u64) -> (r: u64)
    ensures
        r == inward_sign(count as int, closed, area),
{
    if closed && count >= 3 && less64(0, area) {
        F64_ONE
    } else {
        negate(F64_ONE)
    }
}

/// The rings step outward: up from a pit, down from a stockpile.
pub open spec fn steps_outward(mode: BatterBermMode, direction_up: bool) -> bool {
    (mode == BatterBermMode::Pit) == direction_up
}

/// The side that rings are offset to, how far each bench rises, and whether
/// the rings step outward, for a polyline with so many vertices and such a
/// signed area.
pub fn mode_to_side_and_dz(count: usize, closed: bool, area: u64, mode: BatterBermMode, direction_up: bool, bench_height: u64) -> (r: (
    u64,
    u64,
    bool,
))
    ensures
        r.0 == if steps_outward(mode, direction_up) {
            negated(inward_sign(count as int, closed, area))
        } else {
            inward_sign(count as int, closed, area)
        },
        r.1 == if direction_up {
            bench_height
        } else {
            negated(bench_height)
        },
        r.2 == steps_outward(mode, direction_up),
{
    let inward: u64 = inward_side(count, closed, area);
    let outward = (mode == BatterBermMode::Pit) == direction_up;
    let side: u64 = if outward {
        negate(inward)
    } else {
        inward
    };
    let dz: u64 = if direction_up {
        bench_height
    } else {
        negate(bench_height)
    };
    (side, dz, outward)
}

/// A pit that goes up steps out exactly where a stockpile that goes up steps
/// in, and the other way round when they go down.
pub proof fn law_pit_and_stockpile_are_opposite(direction_up: bool)
    ensures
        steps_outward(BatterBermMode::Pit, direction_up) == !steps_outward(BatterBermMode::Stockpile, direction_up),
        steps_outward(BatterBermMode::Pit, direction_up) == steps_outward(BatterBermMode::Stockpile, !direction_up),
        steps_outward(BatterBermMode::Pit, true),
{
}

/// Trying a bench keeps the rings that were found and adds two or none; one
/// that adds none ends the search.
pub proof fn law_benches_are_whole(pre: BenchSearch, bench: Bench, post: BenchSearch)
    requires
        pre.sound(),
        pre.tried(bench, post),
    ensures
        post.rings@.len() == 2 * post.completed,
        post.completed <= pre.target,
        post.completed >= pre.completed,
        post.rings@.take(pre.rings@.len() as int) == pre.rings@,
        post.completed == pre.completed ==> post.stop is Some,
        total_vertices(post.rings@) <= MAX_OUTPUT_VERTICES,
{
    assert(post.rings@.take(pre.rings@.len() as int) =~= pre.rings@);
    if pre.stop is None && bench_refused(pre.vertices as int, bench) is None {
        lemma_bench_vertices(pre.rings@, bench.toe, bench.berm);
    }
}

/// The object is a polyline.
pub open spec fn polyline_at(d: Document, id: ObjectId) -> bool {
    d.object(id) is Some && d.object(id)->0 is Polyline
}

/// The object is a closed polyline.
pub open spec fn ring_at(d: Document, id: ObjectId) -> bool {
    match d.object(id) {
        Some(ObjectModel::Polyline { closed, .. }) => closed,
        _ => false,
    }
}

/// The dialog is up for the polyline.
pub open spec fn berm_aimed(pre: App, id: ObjectId, post: App) -> bool {
    let i = index_of_object(pre.workspace.projects@, id);
    post == (App {
        workspace: Workspace { active_index: Some(i as usize), ..pre.workspace },
        berm: BatterBerm {
            target: Some(id),
            dialog_open: true,
            key: None,
            closed: ring_at(pre.workspace.projects@[i].document, id),
            ..pre.berm
        },
        canvas: Canvas { highlight: Some(id), ..pre.canvas },
        frame: pre.frame.geometry(),
        ..pre
    })
}

/// The first of these that is a polyline of the active project.
pub open spec fn first_polyline(app: App, handles: Seq<SceneEntityId>) -> Option<ObjectId>
    decreases handles.len(),
{
    if handles.len() == 0 {
        None
    } else {
        match handles[0] {
            SceneEntityId::Object(id) if app.workspace.active() is Some && polyline_at(app.workspace.active()->0.document, id) => Some(id),
            _ => first_polyline(app, handles.drop_first()),
        }
    }
}

/// What pointing at the polyline does.
pub open spec fn berm_target_picked(pre: App, under: Option<SceneEntityId>, post: App) -> bool {
    match under {
        Some(SceneEntityId::Object(id)) => {
            let i = index_of_object(pre.workspace.projects@, id);
            if i >= pre.workspace.projects@.len() {
                post == pre
            } else if polyline_at(pre.workspace.projects@[i].document, id) {
                berm_aimed(pre, id, post)
            } else {
                post == (App { workspace: Workspace { active_index: Some(i as usize), ..pre.workspace }, ..pre })
            }
        },
        _ => post == pre,
    }
}

/// The numbers of the dialog make sense.
pub open spec fn berm_inputs_valid(b: BatterBerm) -> bool {
    &&& f64_finite(b.width) && f64_less(0, b.width)
    &&& f64_finite(b.angle) && f64_less(0, b.angle) && f64_less(b.angle, F64_NINETY)
    &&& f64_finite(b.bench_height) && f64_less(0, b.bench_height)
}

/// What a preview of the dialog would be made of.
pub open spec fn preview_key(b: BatterBerm, id: ObjectId, revision: u64) -> BatterBermPreviewKey {
    BatterBermPreviewKey {
        target: id,
        revision,
        width: b.width,
        angle: b.angle,
        bench_height: b.bench_height,
        benches: b.benches,
        mode: b.mode,
        direction_up: b.direction_up,
    }
}

/// How many benches are shown of those that are possible.
pub open spec fn benches_shown(asked: u32, possible: u32) -> u32 {
    if possible == 0 {
        0
    } else if asked < 1 {
        1
    } else if asked > possible {
        possible
    } else {
        asked
    }
}

/// The first rings.
pub open spec fn rings_shown(rings: Seq<Vec<Point3>>, benches: u32) -> Seq<Vec<Point3>> {
    if 2 * benches <= rings.len() {
        rings.take(2 * benches as int)
    } else {
        rings
    }
}

/// The dialog with a preview of the polyline.
pub open spec fn berm_previewed(
    pre: BatterBerm,
    id: ObjectId,
    closed: bool,
    revision: u64,
    outline: Seq<Point3>,
    generation: BatterBermGeneration,
    post: BatterBerm,
) -> bool {
    let key = preview_key(pre, id, revision);
    if pre.key is Some && same_preview(pre.key->0, key) {
        post == pre
    } else {
        &&& post.source_world@ == outline
        &&& if !berm_inputs_valid(pre) {
            &&& post == (BatterBerm {
                max_benches: 0,
                key: Some(key),
                source_world: post.source_world,
                rings_world: post.rings_world,
                ..pre
            })
            &&& post.rings_world@.len() == 0
        } else {
            let n = benches_shown(pre.benches, generation.completed_benches);
            &&& post == (BatterBerm {
                max_benches: generation.completed_benches,
                benches: n,
                closed,
                key: Some(BatterBermPreviewKey { benches: n, ..key }),
                source_world: post.source_world,
                rings_world: post.rings_world,
                ..pre
            })
            &&& post.rings_world@ == rings_shown(generation.rings@, n)
        }
    }
}

/// What bringing the preview up to date does.
pub open spec fn berm_preview_updated(pre: App, revision: u64, outline: Seq<Point3>, generation: BatterBermGeneration, post: App) -> bool {
    if !pre.berm.dialog_open || pre.berm.target is None {
        post == pre
    } else {
        let id = pre.berm.target->0;
        let i = index_of_object(pre.workspace.projects@, id);
        if i >= pre.workspace.projects@.len() {
            post == pre
        } else {
            let d = pre.workspace.projects@[i].document;
            &&& post == (App { workspace: Workspace { active_index: Some(i as usize), ..pre.workspace }, berm: post.berm, ..pre })
            &&& if polyline_at(d, id) {
                berm_previewed(pre.berm, id, ring_at(d, id), revision, outline, generation, post.berm)
            } else {
                post.berm == pre.berm
            }
        }
    }
}

/// The tool is put down.
pub open spec fn berm_closed(pre: BatterBerm, post: BatterBerm) -> bool {
    &&& post == (BatterBerm {
        dialog_open: false,
        target: None,
        key: None,
        source_world: post.source_world,
        rings_world: post.rings_world,
        source_px: post.source_px,
        rings_px: post.rings_px,
        ..pre
    })
    &&& post.source_world@.len() == 0
    &&& post.rings_world@.len() == 0
    &&& post.source_px@.len() == 0
    &&& post.rings_px@.len() == 0
}

/// The vertices of a ring of straight edges.
pub open spec fn straight_ring(points: Seq<Point3>) -> Seq<PolyVertex> {
    points.map_values(|p: Point3| PolyVertex { pos: p, bulge: 0 })
}

/// A polyline like another, with an id and a ring of its own.
pub open spec fn ring_like(source: ObjectModel, id: ObjectId, points: Seq<Point3>) -> ObjectModel {
    match source {
        ObjectModel::Polyline { layer, closed, color, fill, line_weight, .. } => ObjectModel::Polyline {
            id,
            layer,
            verts: straight_ring(points),
            closed,
            color,
            fill,
            line_weight,
        },
        o => o,
    }
}

/// The step adds the rings, with ids from `next` on.
pub open spec fn adds_rings(edits: Seq<Edit>, source: ObjectModel, next: int, rings: Seq<Vec<Point3>>) -> bool {
    &&& edits.len() == rings.len()
    &&& forall|k: int| 0 <= k < rings.len() ==> (#[trigger] edits[k]).adds(ring_like(source, ObjectId((next + k) as u64), rings[k]@))
}

/// The workspace with the project at an index active and so many of its object
/// ids taken.
pub open spec fn ids_taken(pre: Workspace, i: int, n: int, post: Workspace) -> bool {
    let a = pre.projects@[i];
    let b = post.projects@[i];
    &&& post == (Workspace { active_index: Some(i as usize), projects: post.projects, ..pre })
    &&& post.projects@ == pre.projects@.update(i, b)
    &&& b == (OpenProject { document: Document { next_object_id: (a.document.next_object_id + n) as u64, ..a.document }, ..a })
}

/// What adding the rings to the design does.
pub open spec fn berm_committed(pre: App, post: App) -> bool {
    if pre.berm.target is None {
        post == pre
    } else {
        let id = pre.berm.target->0;
        let i = index_of_object(pre.workspace.projects@, id);
        if i >= pre.workspace.projects@.len() {
            post == pre
        } else if pre.berm.rings_world@.len() == 0 || !polyline_at(pre.workspace.projects@[i].document, id) {
            post == (App { workspace: Workspace { active_index: Some(i as usize), ..pre.workspace }, ..pre })
        } else {
            let d = pre.workspace.projects@[i].document;
            &&& post == (App {
                workspace: post.workspace,
                berm: post.berm,
                canvas: Canvas { highlight: None, active_tool: ActiveTool::Idle, ..pre.canvas },
                frame: pre.frame.geometry(),
                steps: post.steps,
                ..pre
            })
            &&& ids_taken(pre.workspace, i, pre.berm.rings_world@.len() as int, post.workspace)
            &&& berm_closed(pre.berm, post.berm)
            &&& post.steps@.len() == pre.steps@.len() + 1
            &&& post.steps@.drop_last() == pre.steps@
            &&& post.steps@.last().batch && !post.steps@.last().applied && post.steps@.last().project is None
            &&& adds_rings(post.steps@.last().edits@, d.object(id)->0, d.next_object_id as int, pre.berm.rings_world@)
        }
    }
}

fn is_polyline(d: &Document, id: ObjectId) -> (r: bool)
    ensures
        r == polyline_at(*d, id),
{
    match d.get_object(id) {
        Some(Object::Polyline { .. }) => true,
        _ => false,
    }
}

fn is_ring(d: &Document, id: ObjectId) -> (r: bool)
    ensures
        r == ring_at(*d, id),
{
    match d.get_object(id) {
        Some(Object::Polyline { closed, .. }) => *closed,
        _ => false,
    }
}

fn ring_object(source: &Object, id: ObjectId, points: &Vec<Point3>) -> (r: Object)
    requires
        source@ is Polyline,
    ensures
        r@ == ring_like(source@, id, points@),
{
    let mut verts: Vec<PolyVertex> = Vec::new();
    let mut i: usize = 0;
    while i < points.len()
        invariant
            i <= points.len(),
            verts@ == straight_ring(points@.take(i as int)),
        decreases points.len() - i,
    {
        verts.push(PolyVertex { pos: points[i], bulge: 0 });
        i += 1;
        assert(verts@ =~= straight_ring(points@.take(i as int)));
    }
    assert(points@.take(points@.len() as int) =~= points@);
    match source {
        Object::Polyline { layer, closed, color, fill, line_weight, .. } => Object::Polyline {
            id,
            layer: *layer,
            verts,
            closed: *closed,
            color: *color,
            fill: *fill,
            line_weight: *line_weight,
        },
        o => o.copy(),
    }
}

fn ring_edits(source: &Object, next: u64, rings: &Vec<Vec<Point3>>) -> (r: Vec<Edit>)
    requires
        source@ is Polyline,
        next + rings@.len() <= u64::MAX,
    ensures
        adds_rings(r@, source@, next as int, rings@),
{
    let mut edits: Vec<Edit> = Vec::new();
    let mut i: usize = 0;
    while i < rings.len()
        invariant
            i <= rings.len(),
            source@ is Polyline,
            next + rings@.len() <= u64::MAX,
            edits@.len() == i,
            forall|k: int| 0 <= k < i ==> (#[trigger] edits@[k]).adds(ring_like(source@, ObjectId((next + k) as u64), rings@[k]@)),
        decreases rings.len() - i,
    {
        edits.push(Edit::AddObject(ring_object(source, ObjectId(next + i as u64), &rings[i])));
        i += 1;
    }
    edits
}

impl BatterBerm {
    fn show_preview(&mut self, id: ObjectId, closed: bool, revision: u64, outline: Vec<Point3>, generation: BatterBermGeneration)
        ensures
            berm_previewed(*old(self), id, closed, revision, outline@, generation, *final(self)),
    {
        let key = BatterBermPreviewKey {
            target: id,
            revision,
            width: self.width,
            angle: self.angle,
            bench_height: self.bench_height,
            benches: self.benches,
            mode: self.mode,
            direction_up: self.direction_up,
        };
        match self.key {
            Some(k) => {
                if k.target == key.target && k.revision == key.revision && k.benches == key.benches && k.mode == key.mode && k.direction_up
                    == key.direction_up && equal64(k.width, key.width) && equal64(k.angle, key.angle) && equal64(k.bench_height, key.bench_height) {
                    return ;
                }
            },
            None => {},
        }
        self.source_world = outline;
        if !(finite64(self.width) && less64(0, self.width) && finite64(self.angle) && less64(0, self.angle) && less64(self.angle, F64_NINETY)
            && finite64(self.bench_height) && less64(0, self.bench_height)) {
            self.max_benches = 0;
            self.rings_world.clear();
            self.key = Some(key);
            return ;
        }
        let possible: u32 = generation.completed_benches;
        let n: u32 = if possible == 0 {
            0
        } else if self.benches < 1 {
            1
        } else if self.benches > possible {
            possible
        } else {
            self.benches
        };
        self.max_benches = possible;
        self.benches = n;
        self.closed = closed;
        self.key = Some(BatterBermPreviewKey { benches: n, ..key });
        let mut rings = generation.rings;
        if (rings.len() as u128) > 2 * (n as u128) {
            rings.truncate(2 * (n as usize));
            assert(rings@ =~= rings_shown(generation.rings@, n));
        }
        assert(rings@ =~= rings_shown(generation.rings@, n));
        self.rings_world = rings;
    }

    fn close(&mut self)
        ensures
            berm_closed(*old(self), *final(self)),
    {
        self.dialog_open = false;
        self.target = None;
        self.key = None;
        self.source_world.clear();
        self.rings_world.clear();
        self.source_px.clear();
        self.rings_px.clear();
    }
}

impl App {
    fn aim_berm(&mut self, id: ObjectId)
        requires
            index_of_object(old(self).workspace.projects@, id) < old(self).workspace.projects@.len(),
            old(self).workspace.active_index matches Some(i) && i == index_of_object(old(self).workspace.projects@, id),
        ensures
            berm_aimed(*old(self), id, *final(self)),
    {
        proof {
            lemma_first_index(self.workspace.projects@, |p: OpenProject| holds_object(p, id));
        }
        let closed = match self.workspace.active_project() {
            Some(p) => is_ring(&p.document, id),
            None => false,
        };
        self.berm.target = Some(id);
        self.berm.dialog_open = true;
        self.berm.key = None;
        self.berm.closed = closed;
        self.canvas.highlight = Some(id);
        self.invalidate_geometry();
    }

    fn find_selected_polyline(&self) -> (r: Option<ObjectId>)
        ensures
            r == first_polyline(*self, self.selection.handles.order()),
    {
        let handles = self.selection.handles.as_vec();
        let mut i: usize = 0;
        assert(handles@.skip(0) =~= handles@);
        while i < handles.len()
            invariant
                i <= handles.len(),
                handles@ == self.selection.handles.order(),
                first_polyline(*self, handles@) == first_polyline(*self, handles@.skip(i as int)),
            decreases handles.len() - i,
        {
            assert(handles@.skip(i as int).drop_first() =~= handles@.skip(i + 1));
            match handles[i] {
                SceneEntityId::Object(id) => {
                    match self.workspace.active_project() {
                        Some(p) => {
                            if is_polyline(&p.document, id) {
                                return Some(id);
                            }
                        },
                        None => {},
                    }
                },
                _ => {},
            }
            i += 1;
        }
        None
    }

    /// Opens the dialog for the first selected polyline, if there is one.
    pub fn open_batter_berm_dialog(&mut self)
        ensures
            match first_polyline(*old(self), old(self).selection.handles.order()) {
                Some(id) => if index_of_object(old(self).workspace.projects@, id) < old(self).workspace.projects@.len() {
                    berm_aimed(*old(self), id, *final(self))
                } else {
                    *final(self) == *old(self)
                },
                None => *final(self) == *old(self),
            },
    {
        match self.find_selected_polyline() {
            Some(id) => {
                if !self.activate_project_for_object(id) {
                    return ;
                }
                self.aim_berm(id);
            },
            None => {},
        }
    }

    /// Opens the dialog for the polyline that is pointed at, if it is one.
    pub fn pick_batter_berm_target(&mut self, under: Option<SceneEntityId>)
        ensures
            berm_target_picked(*old(self), under, *final(self)),
    {
        match under {
            Some(SceneEntityId::Object(id)) => {
                proof {
                    lemma_first_index(self.workspace.projects@, |p: OpenProject| holds_object(p, id));
                }
                if !self.activate_project_for_object(id) {
                    return ;
                }
                let polyline = match self.workspace.active_project() {
                    Some(p) => is_polyline(&p.document, id),
                    None => false,
                };
                if polyline {
                    self.aim_berm(id);
                }
            },
            _ => {},
        }
    }

    /// Brings the preview up to date with the dialog. `outline` is the polyline
    /// with its arcs drawn out, `generation` the deepest design for it.
    pub fn update_batter_berm_preview(&mut self, revision: u64, outline: Vec<Point3>, generation: BatterBermGeneration)
        ensures
            berm_preview_updated(*old(self), revision, outline@, generation, *final(self)),
    {
        if !self.berm.dialog_open {
            return ;
        }
        let id: ObjectId = match self.berm.target {
            Some(id) => id,
            None => {
                return ;
            },
        };
        proof {
            lemma_first_index(self.workspace.projects@, |p: OpenProject| holds_object(p, id));
        }
        if !self.activate_project_for_object(id) {
            return ;
        }
        let (polyline, closed): (bool, bool) = match self.workspace.active_project() {
            Some(p) => (is_polyline(&p.document, id), is_ring(&p.document, id)),
            None => (false, false),
        };
        if polyline {
            self.berm.show_preview(id, closed, revision, outline, generation);
        }
    }

    /// Adds the rings that are shown to the design.
    pub fn commit_batter_berm(&mut self)
        requires
            object_ids_left(old(self).workspace, old(self).berm.rings_world@.len() as int),
        ensures
            berm_committed(*old(self), *final(self)),
    {
        let id: ObjectId = match self.berm.target {
            Some(id) => id,
            None => {
                return ;
            },
        };
        proof {
            lemma_first_index(self.workspace.projects@, |p: OpenProject| holds_object(p, id));
        }
        if !self.activate_project_for_object(id) {
            return ;
        }
        if self.berm.rings_world.len() == 0 {
            return ;
        }
        let index: usize = match self.workspace.active_index {
            Some(i) => i,
            None => {
                return ;
            },
        };
        let source = match self.workspace.projects[index].document.get_object(id) {
            Some(o) => o.copy(),
            None => {
                return ;
            },
        };
        match &source {
            Object::Polyline { .. } => {},
            _ => {
                return ;
            },
        }
        let next: u64 = self.workspace.projects[index].document.next_object_id;
        let n: usize = self.berm.rings_world.len();
        let edits = ring_edits(&source, next, &self.berm.rings_world);
        self.workspace.projects[index].document.next_object_id = next + n as u64;
        self.execute_batch(edits);
        assert(self.steps@.drop_last() =~= old(self).steps@);
        self.cancel_batter_berm();
    }

    /// Puts the tool down.
    pub fn cancel_batter_berm(&mut self)
        ensures
            *final(self) == (App {
                berm: final(self).berm,
                canvas: Canvas { highlight: None, active_tool: ActiveTool::Idle, ..old(self).canvas },
                frame: old(self).frame.geometry(),
                ..*old(self)
            }),
            berm_closed(old(self).berm, final(self).berm),
    {
        self.berm.close();
        self.canvas.highlight = None;
        self.canvas.active_tool = ActiveTool::Idle;
        self.invalidate_geometry();
    }
}

} // verus!
