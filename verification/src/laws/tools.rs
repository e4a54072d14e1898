//! What tools show while they are used, and the work that they begin.

use crate::commands::blocks::{kriging_begun, ore_begun, KrigingRequest, OreRequest};
use crate::commands::contours::{contour_span, contours_error, intervals_error, output_error, ContourOutput, ZRange};
use crate::commands::surfaces::active_undraped;
use crate::commands::survey::{elevation_changes, gathered, selection_transformed, SurveyFacts};
use crate::commands::tie_in::{nearest_tie, preview_legs, preview_refreshed, tie_clicked, tie_selected, tie_target, TieFacts, TieHit};
use crate::document::{object_models, ObjectModel, PolyVertex};
use crate::drawing::batter_berm::{bench_target, first_polyline, polyline_at};
use crate::drawing::bezier::{bezier_vertex_picked, span_points, VertexClick};
use crate::drawing::drape::{height_at, met_upto, point_of};
use crate::drawing::move_tool::{gizmo_followed, gizmo_held};
use crate::drawing::rotate_collar::{ring_held, rotation_previewed, tilt_room, TurnedHole};
use crate::drawing::split::{first_splittable, split_vertex_picked, valid_split};
use crate::drawing::translate::ShiftedPoints;
use crate::error::AppError;
use crate::ids::{HoleRef, ObjectId, SceneEntityId, TriangulationId};
use crate::ieee::{f64_equal, f64_less, Point3, ScreenPoint};
use crate::items::{block_model_index, triangulation_index, Bounds, HolePlacement};
use crate::jobs::{JobKey, Work};
use crate::loads::{load_settled, names_table, LoadOutcome, PendingLoad};
use crate::release::dragged_to;
use crate::state::{App, CollarRotation, GizmoConstraint, ObjectDrag, RingDrag};
use crate::survey::{
    planned_delete, planned_save, resolves, save_refused, system_deleted, system_index, system_models, system_saved, with_saved, Survey, SurveyPlan,
    SystemModel,
};
use crate::text::{text_of, trimmed};
use crate::workspace::OpenProject;
use vstd::prelude::*;

verus! {

/// The legs that are shown are those that would be laid now, between the same
/// holes and with the same marks.
pub proof fn law_shown_legs_are_current(pre: App, facts: TieFacts, post: App, i: int)
    requires
        preview_refreshed(pre, facts, post),
        0 <= i < preview_legs(pre, facts).len(),
    ensures
        post.blast.preview@.len() == preview_legs(pre, facts).len(),
        post.blast.preview@[i].from == preview_legs(pre, facts)[i].from && post.blast.preview@[i].to == preview_legs(pre, facts)[i].to
            && post.blast.preview@[i].overwrite == preview_legs(pre, facts)[i].overwrite,
        post.steps == pre.steps && post.items == pre.items && post.blast.anchor == pre.blast.anchor && post.blast.products == pre.blast.products,
{
    if crate::commands::tie_in::same_legs(preview_legs(pre, facts), pre.blast.preview@) {
        assert(crate::commands::tie_in::same_leg(preview_legs(pre, facts)[i], pre.blast.preview@[i]));
    }
}

/// Where no leg would be laid, none is shown.
pub proof fn law_no_legs_are_shown(pre: App, facts: TieFacts, post: App)
    requires
        preview_refreshed(pre, facts, post),
        preview_legs(pre, facts).len() == 0,
    ensures
        post.blast.preview@.len() == 0,
{
}

/// The first hole that is clicked starts a chain; without a product or a
/// dataset a click does nothing.
pub proof fn law_first_click_starts_a_chain(pre: App, picked: Option<HoleRef>, facts: TieFacts, next: TieFacts, post: App)
    requires
        tie_clicked(pre, picked, facts, next, post),
        pre.blast.anchor is None,
    ensures
        pre.blast.chosen() >= pre.blast.products@.len() || tie_target(pre) is None ==> post == pre,
        pre.blast.chosen() < pre.blast.products@.len() && tie_target(pre) is Some ==> post.blast.anchor == picked,
        post.steps == pre.steps && post.items == pre.items,
{
}

/// A leg is selected where one is near the cursor in the blast workspace.
pub proof fn law_selecting_a_leg(pre: App, hits: Seq<TieHit>, r: bool, post: App)
    requires
        tie_selected(pre, hits, r, post),
    ensures
        r <==> nearest_tie(pre, hits, hits.len() as int) is Some && pre.canvas.workspace == crate::state::WorkspaceKind::DrillAndBlast
            && pre.canvas.cursor_px is Some,
        !r ==> post == pre,
        r && !pre.canvas.shift && pre.canvas.control ==> post.selection.ties@.contains(nearest_tie(pre, hits, hits.len() as int)->0.tie),
        post.steps == pre.steps && post.items == pre.items,
{
}

/// A block model is estimated, and ore is meshed, just as it was asked for.
pub proof fn law_begun_models(pre: App, kriging: KrigingRequest, r: Result<(), AppError>, estimated: App, ore: OreRequest, s: Result<(), AppError>, meshed: App)
    requires
        kriging_begun(pre, kriging, r, estimated),
        ore_begun(pre, ore, s, meshed),
    ensures
        r is Err ==> estimated == pre,
        r is Ok ==> estimated.jobs.pending@.last().work == Work::Krige(kriging) && estimated.jobs.pending@.last().keys@ == seq![
            JobKey::DrillHole(kriging.drill_hole),
        ] && estimated.jobs.pending@.len() == pre.jobs.pending@.len() + 1,
        s is Ok <==> block_model_index(pre.items.block_models@, ore.block_model) < pre.items.block_models@.len(),
        s is Err ==> meshed == pre && s == Err::<(), AppError>(AppError::BlockModelNotFound),
        s is Ok ==> meshed.jobs.pending@.last().work == Work::OreMesh(ore) && meshed.jobs.pending@.last().keys@ == seq![JobKey::BlockModel(ore.block_model)],
{
}

/// A conversion begins with what is selected, in the active project, into the
/// system that was chosen.
pub proof fn law_begun_conversion(pre: App, facts: SurveyFacts, r: Result<(), AppError>, post: App, p: OpenProject)
    requires
        selection_transformed(pre, facts, r, post),
        pre.workspace.active() == Some(p),
        r is Ok,
    ensures
        facts.refused is None,
        ({
            let handles = pre.selection.handles.order();
            &&& gathered(p, pre.items, handles, handles.len() as int) matches Ok(g) && {
                &&& g.objects.len() > 0 || g.marks.len() > 0
                &&& post.jobs.pending@.last().work matches Work::TransformSurvey(job) && job.runtime_id == p.runtime_id && job.objects@ == g.objects && job.marks@
                    == g.marks && job.target_system@ == facts.target_system@ && Ok::<Seq<crate::commands::survey::ElevationChange>, AppError>(job.elevations@)
                    == elevation_changes(p.document, g.layers, facts.elevations@, g.layers.len() as int)
                &&& post.jobs.pending@.last().keys@ == g.keys
            }
        }),
        post.jobs.pending@.len() == pre.jobs.pending@.len() + 1,
{
}

/// A conversion that is refused changes nothing.
pub proof fn law_refused_conversion(pre: App, facts: SurveyFacts, r: Result<(), AppError>, post: App)
    requires
        selection_transformed(pre, facts, r, post),
        r is Err,
    ensures
        post == pre,
        facts.refused matches Some(e) ==> r == Err::<(), AppError>(e),
        facts.refused is None && pre.workspace.active() is None ==> r == Err::<(), AppError>(AppError::WrongProject),
{
}

/// Contours can be drawn where their intervals and range make sense, the
/// surface is not flat, the levels are not too many, and they have a layer to
/// go to.
pub proof fn law_which_contours_are_drawn(
    app: App,
    id: TriangulationId,
    major: u64,
    minor: u64,
    range: Option<ZRange>,
    output: ContourOutput,
    flat: bool,
    too_many: bool,
)
    ensures
        contours_error(app, id, major, minor, range, output, flat, too_many) is None <==> intervals_error(major, minor) is None && contour_span(
            app,
            id,
            range,
        ) is Ok && !flat && !too_many && (app.workspace.active() matches Some(p) && output_error(p, output) is None),
        app.workspace.active() matches Some(p) ==> {
            &&& output matches ContourOutput::Existing(l) ==> (output_error(p, output) is None <==> p.document.layer_model(l) is Some)
            &&& output matches ContourOutput::New(name) ==> (output_error(p, output) is None <==> trimmed(name@).len() > 0 && forall|j: int|
                0 <= j < p.document.layers@.len() ==> (#[trigger] p.document.layers@[j]).name@ != name@)
        },
{
}

/// Systems that stand in each other up to one that stands alone.
pub open spec fn stands_in(s: Seq<SystemModel>, path: Seq<Seq<char>>) -> bool {
    &&& path.len() > 0
    &&& forall|i: int|
        0 <= i < path.len() ==> system_index(s, #[trigger] path[i]) < s.len() && s[system_index(s, path[i])].parent == if i + 1 < path.len() {
            Some(path[i + 1])
        } else {
            None
        }
}

/// A system that resolves stands, through others, in one that stands alone.
pub proof fn law_resolved_systems(s: Seq<SystemModel>, name: Seq<char>, steps: int)
    requires
        resolves(s, name, steps),
    ensures
        exists|path: Seq<Seq<char>>| #[trigger] stands_in(s, path) && path[0] == name && path.len() <= steps + 1,
    decreases steps + 1,
{
    let i = system_index(s, name);
    match s[i].parent {
        None => {
            let path = seq![name];
            assert(stands_in(s, path));
        },
        Some(parent) => {
            law_resolved_systems(s, parent, steps - 1);
            let rest = choose|path: Seq<Seq<char>>| #[trigger] stands_in(s, path) && path[0] == parent && path.len() <= steps;
            let path = seq![name] + rest;
            assert forall|k: int| 0 <= k < path.len() implies system_index(s, #[trigger] path[k]) < s.len() && s[system_index(s, path[k])].parent == if k + 1
                < path.len() {
                Some(path[k + 1])
            } else {
                None
            } by {
                if k > 0 {
                    assert(path[k] == rest[k - 1]);
                }
            }
            assert(stands_in(s, path));
        },
    }
}

/// And one that stands in such a way resolves.
pub proof fn law_systems_that_resolve(s: Seq<SystemModel>, path: Seq<Seq<char>>, steps: int)
    requires
        stands_in(s, path),
        path.len() <= steps + 1,
    ensures
        resolves(s, path[0], steps),
    decreases path.len(),
{
    assert(system_index(s, path[0]) < s.len());
    if path.len() > 1 {
        let rest = path.drop_first();
        assert forall|k: int| 0 <= k < rest.len() implies system_index(s, #[trigger] rest[k]) < s.len() && s[system_index(s, rest[k])].parent == if k + 1
            < rest.len() {
            Some(rest[k + 1])
        } else {
            None
        } by {
            assert(rest[k] == path[k + 1]);
        }
        law_systems_that_resolve(s, rest, steps - 1);
    }
}

/// A system can be saved under a name that is not blank and not that of
/// another, in the place of one that is there, as long as it stands somewhere.
pub proof fn law_which_systems_are_saved(s: Seq<SystemModel>, target: Option<Seq<char>>, d: SystemModel)
    ensures
        d.name.len() == 0 ==> save_refused(s, target, d) == Some(AppError::SystemNameBlank),
        d.name.len() > 0 && target != Some(d.name) && (exists|i: int| 0 <= i < s.len() && (#[trigger] s[i]).name == d.name) ==> save_refused(s, target, d) == Some(
            AppError::SystemNameTaken,
        ),
        save_refused(s, target, d) is None ==> d.name.len() > 0 && (target matches Some(old) ==> exists|i: int| 0 <= i < s.len() && (#[trigger] s[i]).name == old)
            && resolves(with_saved(s, target, d), d.name, with_saved(s, target, d).len() as int),
        target is None && d.parent is None && d.name.len() > 0 && (forall|i: int| 0 <= i < s.len() ==> (#[trigger] s[i]).name != d.name) ==> save_refused(
            s,
            target,
            d,
        ) is None,
{
    if target is None && d.parent is None && d.name.len() > 0 && forall|i: int| 0 <= i < s.len() ==> (#[trigger] s[i]).name != d.name {
        let all = s.push(d);
        let name = d.name;
        let n = s.len() as int;
        assert forall|j: int| 0 <= j < n implies (#[trigger] all[j]).name != name by {
            assert(s[j].name != d.name);
        }
        crate::search::lemma_is_first_index(all, |d: SystemModel| d.name == name, n);
        assert(resolves(all, name, all.len() as int));
    }
}

/// What is planned for the systems is what saving or deleting then does.
pub proof fn law_plans_come_true(
    pre: Survey,
    target: Option<Seq<char>>,
    d: SystemModel,
    plan: SurveyPlan,
    saved: Survey,
    name: Seq<char>,
    deletion: SurveyPlan,
    deleted: Survey,
)
    requires
        planned_save(pre, target, d, plan),
        system_saved(pre, target, d, saved),
        planned_delete(pre, name, deletion),
        system_deleted(pre, name, deleted),
    ensures
        system_models(plan.definitions@) == system_models(saved.definitions@) && text_of(plan.local_system) == text_of(saved.local_system),
        system_models(deletion.definitions@) == system_models(deleted.definitions@) && text_of(deletion.local_system) == text_of(deleted.local_system),
{
}

/// The second vertex of a curve makes it run between the two that were
/// clicked, with its handles a third of the way in its direction.
pub proof fn law_second_vertex_of_a_curve(pre: App, click: VertexClick, post: App, f: usize, v: usize)
    requires
        bezier_vertex_picked(pre, click, post),
        pre.bezier.poly is Some,
        pre.canvas.cursor_px is Some,
        click.nearest == Some(v),
        pre.bezier.first == Some(f),
        f != v,
        pre.scene.object(pre.bezier.poly->0) matches Some(o) && o is Polyline && v < o->Polyline_verts.len(),
    ensures
        (post.bezier.first == Some(f) && post.bezier.second == Some(v) && post.bezier.cp1 == click.thirds.0 && post.bezier.cp2 == click.thirds.1) || (
        post.bezier.first == Some(v) && post.bezier.second == Some(f) && post.bezier.cp1 == click.thirds_back.0 && post.bezier.cp2 == click.thirds_back.1),
        !(pre.scene.object(pre.bezier.poly->0)->0->Polyline_closed) && f < v ==> post.bezier.first == Some(f),
        !(pre.scene.object(pre.bezier.poly->0)->0->Polyline_closed) && v < f ==> post.bezier.first == Some(v),
        pre.scene.object(pre.bezier.poly->0)->0->Polyline_closed && f64_less(click.forward, click.reverse) ==> post.bezier.first == Some(f),
        pre.scene.object(pre.bezier.poly->0)->0->Polyline_closed && f64_less(click.reverse, click.forward) ==> post.bezier.first == Some(v),
        post.steps == pre.steps && post.workspace == pre.workspace,
{
}

/// The first vertex that is clicked begins the stretch; one that is not on the
/// line does nothing.
pub proof fn law_first_vertex_of_a_curve(pre: App, click: VertexClick, post: App, v: usize, o: ObjectModel)
    requires
        bezier_vertex_picked(pre, click, post),
        pre.bezier.poly is Some,
        pre.canvas.cursor_px is Some,
        click.nearest == Some(v),
        pre.bezier.first is None,
        pre.scene.object(pre.bezier.poly->0) == Some(o),
        o is Polyline,
    ensures
        v < o->Polyline_verts.len() ==> post.bezier.first == Some(v) && post.bezier.second == pre.bezier.second,
        v >= o->Polyline_verts.len() ==> post == pre,
{
}

/// A stretch of edges runs through their points in order, each joint once.
pub proof fn law_points_of_a_stretch(verts: Seq<PolyVertex>, edges: Seq<Vec<Point3>>, closed: bool, start: int, end: int)
    requires
        0 <= start < verts.len(),
        0 <= end < verts.len(),
        edges.len() == verts.len(),
    ensures
        start < end ==> span_points(verts, edges, closed, start, end).len() > 0 && span_points(verts, edges, closed, start, end)[0] == verts[start].pos,
        start > end && closed ==> span_points(verts, edges, closed, start, end)[0] == verts[start].pos,
        start == end || (!closed && start > end) ==> span_points(verts, edges, closed, start, end).len() == 0,
        start < end && end + 1 < verts.len() ==> span_points(verts, edges, closed, start, end + 1) == span_points(verts, edges, closed, start, end)
            + edges[end]@.skip(1),
{
    if start < end && end + 1 < verts.len() {
        assert(span_points(verts, edges, closed, start, end + 1) =~= span_points(verts, edges, closed, start, end) + edges[end]@.skip(1));
    }
}

/// A ring is split between two of its vertices, which are clicked one after
/// the other; clicking an end of an open line, or the same vertex twice, does
/// nothing.
pub proof fn law_clicks_that_split(pre: App, nearest: Option<usize>, post: App, o: ObjectModel, v: usize)
    requires
        split_vertex_picked(pre, nearest, post),
        pre.split.poly is Some,
        nearest == Some(v),
        pre.canvas.cursor_px is Some,
        pre.scene.object(pre.split.poly->0) == Some(o),
        o is Polyline,
    ensures
        v >= o->Polyline_verts.len() ==> post == pre,
        !o->Polyline_closed && (v == 0 || v + 1 == o->Polyline_verts.len()) ==> post == pre,
        o->Polyline_closed && v < o->Polyline_verts.len() && pre.split.first is None ==> post.split.first == Some(v) && post.steps == pre.steps,
        o->Polyline_closed && pre.split.first == Some(v) ==> post == pre,
{
}

/// The line that a tool starts from is the first selected one that it can work
/// on.
pub proof fn law_first_line(app: App, handles: Seq<SceneEntityId>, k: int, id: ObjectId, p: OpenProject)
    requires
        0 <= k < handles.len(),
        handles[k] == SceneEntityId::Object(id),
        app.workspace.active() == Some(p),
    ensures
        polyline_at(p.document, id) && (forall|j: int| 0 <= j < k ==> ((#[trigger] handles[j]) matches SceneEntityId::Object(x) ==> !polyline_at(p.document, x)))
            ==> first_polyline(app, handles) == Some(id),
        valid_split(app, id) && (forall|j: int| 0 <= j < k ==> ((#[trigger] handles[j]) matches SceneEntityId::Object(x) ==> !valid_split(app, x)))
            ==> first_splittable(app, handles) == Some(id),
    decreases handles.len(),
{
    if k > 0 {
        let rest = handles.drop_first();
        law_first_line(app, rest, k - 1, id, p);
        assert forall|j: int| 0 <= j < k - 1 implies #[trigger] rest[j] == handles[j + 1] by {}
        if forall|j: int| 0 <= j < k ==> ((#[trigger] handles[j]) matches SceneEntityId::Object(x) ==> !polyline_at(p.document, x)) {
            assert(handles[0] matches SceneEntityId::Object(x) ==> !polyline_at(p.document, x));
            assert forall|j: int| 0 <= j < k - 1 implies ((#[trigger] rest[j]) matches SceneEntityId::Object(x) ==> !polyline_at(p.document, x)) by {
                assert(rest[j] == handles[j + 1]);
            }
        }
        if forall|j: int| 0 <= j < k ==> ((#[trigger] handles[j]) matches SceneEntityId::Object(x) ==> !valid_split(app, x)) {
            assert(handles[0] matches SceneEntityId::Object(x) ==> !valid_split(app, x));
            assert forall|j: int| 0 <= j < k - 1 implies ((#[trigger] rest[j]) matches SceneEntityId::Object(x) ==> !valid_split(app, x)) by {
                assert(rest[j] == handles[j + 1]);
            }
        }
    }
}

/// As many benches are made as were asked for, but no more than there may be.
pub proof fn law_how_many_benches(requested: Option<u32>, limit: u32)
    ensures
        bench_target(requested, limit) <= limit,
        requested matches Some(n) ==> bench_target(requested, limit) <= n && (n <= limit ==> bench_target(requested, limit) == n),
        requested is None ==> bench_target(requested, limit) == limit,
{
}

/// Of the points of an object those are counted that met a surface, and of
/// them those whose height it changes.
pub proof fn law_points_that_met(o: ObjectModel, surfaces: Seq<Bounds>, hits: Seq<Vec<Option<u64>>>, n: int)
    requires
        0 <= n < hits.len(),
    ensures
        met_upto(o, surfaces, hits, 0) == (0int, 0int),
        ({
            let (before, after) = (met_upto(o, surfaces, hits, n), met_upto(o, surfaces, hits, n + 1));
            let p = point_of(o, n);
            &&& height_at(p, surfaces, hits[n]@) is None ==> after == before
            &&& height_at(p, surfaces, hits[n]@) matches Some(z) ==> after.0 == before.0 + 1 && (f64_equal(p.z, z) ==> after.1 == before.1) && (!f64_equal(p.z, z)
                ==> after.1 == before.1 + 1)
        }),
{
}

/// Holding a handle of the gizmo begins a drag from where it is held; moving it
/// shows the distance, and the objects moved by it.
pub proof fn law_dragging_the_gizmo(
    pre: App,
    handle: Option<u8>,
    plane: Option<u8>,
    constraint: GizmoConstraint,
    at: ScreenPoint,
    held: App,
    delta: Point3,
    shifted: Seq<ShiftedPoints>,
    written: Seq<HolePlacement>,
    moved: App,
)
    requires
        gizmo_held(pre, handle, plane, constraint, at, held),
        gizmo_followed(pre, delta, shifted, written, moved),
    ensures
        held.moving.drag matches Some(d) && d.constraint == constraint && d.start_px == at && d.start_delta == held.moving.panel_delta,
        held.moving.drag_axis == handle && held.moving.drag_plane == plane,
        held.steps == pre.steps && moved.steps == pre.steps,
        moved.moving.panel_delta == delta,
        moved.moving.session == pre.moving.session && moved.moving.collars == pre.moving.collars,
        pre.moving.collars is None ==> moved.items == pre.items,
        pre.moving.collars is Some || pre.moving.session is None ==> moved.workspace == pre.workspace,
        pre.moving.collars matches Some(s) ==> crate::collars::collars_written(pre.items.drill_holes@, moved.items.drill_holes@, s.originals@, written),
{
}

/// A turn is shown on the captured holes, from where they were captured, and
/// is remembered until it is kept or given up.
pub proof fn law_showing_a_turn(pre: App, rotation: CollarRotation, turned: Seq<TurnedHole>, post: App)
    requires
        rotation_previewed(pre, rotation, turned, post),
        post.moving.collars is Some,
    ensures
        post.turning.rotation == Some(rotation) && post.turning.preview_active,
        post.steps == pre.steps,
        post.moving.collars->0.originals@.len() > 0 && turned.len() > 0 ==> (turned[0].aim matches Some(aim) ==> post.turning.panel == aim
            && post.turning.panel_last_preview == aim),
{
}

/// Holding a ring begins a turn from the one that is shown, or from none.
pub proof fn law_holding_a_ring(pre: App, ring: u8, center_px: ScreenPoint, angle: u64, dip_room: (u64, u64), post: App)
    requires
        ring_held(pre, ring, center_px, angle, dip_room, post),
    ensures
        post.turning.drag matches Some(d) && d.ring == ring && d.center_px == center_px && d.last_angle == angle && d.swept == 0 && d.dip_room == dip_room && (
        pre.turning.rotation matches Some(r) ==> d.start == r) && (pre.turning.rotation is None ==> d.start == (CollarRotation::Delta { azimuth: 0, dip: 0 })),
        post.turning.drag_ring == Some(ring),
        post.steps == pre.steps,
{
}

/// An aim may tilt as far as it can either way; a turn has the room that it
/// began with.
pub proof fn law_room_to_tilt(drag: RingDrag, steepest: u64)
    ensures
        drag.start is Absolute ==> tilt_room(drag, steepest).1 == steepest && tilt_room(drag, steepest).0 == crate::ieee::negated(steepest),
        drag.start is Delta ==> tilt_room(drag, steepest) == drag.dip_room,
{
}

/// Dragging an object puts the moved one in its place in the active project,
/// and notes that it moved and to where.
pub proof fn law_dragging_an_object(pre: App, drag: ObjectDrag, world: Point3, moved: ObjectModel, post: App, p: OpenProject)
    requires
        dragged_to(pre, drag, world, moved, post),
        pre.workspace.active() == Some(p),
    ensures
        post.canvas.drag matches Some(d) && d.moved && d.last_world == world && d.object_id == drag.object_id && d.before == drag.before,
        post.workspace.active() matches Some(q) && object_models(q.document.objects@) == crate::document::replaced(object_models(p.document.objects@), moved)
            && q.document.layers == p.document.layers,
        post.steps == pre.steps,
{
}

/// A file that was read ends its task; one that failed brings nothing.
pub proof fn law_files_that_end(pre: App, load: PendingLoad, outcome: LoadOutcome, post: App)
    requires
        load_settled(pre, load, outcome, post),
    ensures
        outcome is Running ==> post == pre,
        !(outcome is Running) ==> post.jobs.ended@.last().ticket == load.ticket && post.jobs.ended@.len() == pre.jobs.ended@.len() + 1,
        outcome matches LoadOutcome::Done(loaded) ==> post.jobs.ended@.last().topology == !(loaded is Raster),
        !(outcome is Running) && !(outcome is Done) ==> post.items == pre.items && post.workspace == pre.workspace && !post.jobs.ended@.last().topology,
{
}

/// A table is named by its ending, in capitals or not.
pub proof fn law_tables_are_named(e: Seq<char>)
    ensures
        !names_table(None),
        names_table(Some(e)) <==> e.len() == 3 && (e[0] == 'c' || e[0] == 'C') && (e[1] == 's' || e[1] == 'S') && (e[2] == 'v' || e[2] == 'V'),
{
}

/// Taking the picture off the active surface needs one that is there.
pub proof fn law_taking_a_picture_off(pre: App, r: Result<(), AppError>, post: App)
    requires
        active_undraped(pre, r, post),
    ensures
        pre.canvas.active_triangulation is None ==> r == Err::<(), AppError>(AppError::NoSurfaceChosen),
        pre.canvas.active_triangulation matches Some(id) ==> (r is Ok <==> triangulation_index(pre.items.triangulations@, id) < pre.items.triangulations@.len()),
        r is Err ==> post == pre,
        post.items == pre.items,
{
}

} // verus!
