//! What presses, boxes and drags select and change.

use crate::canvas::{
    active_ids, fields_picked, handle_picked, hole_picked, in_reach, marquee, mode_for, pressed, CursorPicks, ScenePick, SelectionMode,
};
use crate::document::Document;
use crate::edit::Edit;
use crate::ids::{HoleRef, ObjectId, SceneEntityId, TieRef, TriangulationId};
use crate::ieee::{f32_less, Point3, ScreenPoint};
use crate::laws::lookup::keeps_steps;
use crate::release::{box_released, drag_finished, hovered, sources_added, BoxHits, ReleaseAction};
use crate::state::{ActiveTool, App, DrapePhase, Frame, Selection, Surfaces, TriangulationPickTarget, WorkspaceKind};
use crate::text::text_of;
use crate::workspace::index_of_object;
use vstd::prelude::*;

verus! {

/// What a frame is told to draw anew, and that it is drawn; all else stays.
pub proof fn law_frames_are_told_what_changed(f: Frame)
    ensures
        f.geometry().geometry_stale && f.geometry().redraw_requested && f.geometry() == (Frame {
            geometry_stale: f.geometry().geometry_stale,
            redraw_requested: f.geometry().redraw_requested,
            ..f
        }),
        f.overlay().overlay_stale && f.overlay().redraw_requested && f.overlay().geometry_stale == f.geometry_stale,
        f.topology().topology_stale && f.topology().redraw_requested && f.topology().geometry_stale == f.geometry_stale,
        f.bounds().bounds_stale && f.bounds().topology_stale && f.bounds().redraw_requested,
        f.redraw().redraw_requested && f.redraw() == (Frame { redraw_requested: f.redraw().redraw_requested, ..f }),
        f.session().session_stale && f.session() == (Frame { session_stale: f.session().session_stale, ..f }),
        f.fit().fit_view && f.fit().redraw_requested,
        f.evict().evict_due && f.evict() == (Frame { evict_due: f.evict().evict_due, ..f }),
{
}

/// Picking a handle replaces what was selected, adds to it, or turns the
/// handle's own selection over; where it was picked is remembered.
pub proof fn law_picking_a_handle(pre: Selection, handle: SceneEntityId, world: Point3, mode: SelectionMode, post: Selection, other: SceneEntityId)
    requires
        handle_picked(pre, handle, world, mode, post),
    ensures
        post.handles@.contains(handle) <==> mode != SelectionMode::Toggle || !pre.handles@.contains(handle),
        other != handle ==> (post.handles@.contains(other) <==> mode != SelectionMode::Replace && pre.handles@.contains(other)),
        mode == SelectionMode::Replace ==> post.holes@.len() == 0 && post.ties@.len() == 0,
        mode != SelectionMode::Replace ==> post.holes == pre.holes && post.ties == pre.ties,
        post.last_pick == Some(world),
{
}

/// The same of a hole.
pub proof fn law_picking_a_hole(pre: Selection, hole: HoleRef, world: Point3, mode: SelectionMode, post: Selection, other: HoleRef)
    requires
        hole_picked(pre, hole, world, mode, post),
    ensures
        post.holes@.contains(hole) <==> mode != SelectionMode::Toggle || !pre.holes@.contains(hole),
        other != hole ==> (post.holes@.contains(other) <==> mode != SelectionMode::Replace && pre.holes@.contains(other)),
        mode == SelectionMode::Replace ==> post.handles@.len() == 0 && post.ties@.len() == 0,
        mode != SelectionMode::Replace ==> post.handles == pre.handles && post.ties == pre.ties,
        post.last_pick == Some(world),
{
}

/// Shift turns over, control adds, and a press without them replaces, unless
/// what is pressed is selected already.
pub proof fn law_which_way_a_press_picks(control: bool, already: bool)
    ensures
        mode_for(true, control, already) == SelectionMode::Toggle,
        mode_for(false, true, already) == SelectionMode::Add,
        mode_for(false, false, true) == SelectionMode::Toggle,
        mode_for(false, false, false) == SelectionMode::Replace,
{
}

/// What a box holds is selected in place of what was; with control it is added
/// and with shift turned over.
pub proof fn law_box_selects_what_it_holds<T>(selected: Set<T>, hits: Seq<T>, shift: bool, control: bool, x: T)
    ensures
        !shift && !control ==> (marquee(selected, hits, shift, control).contains(x) <==> hits.contains(x)),
        !shift && control ==> (marquee(selected, hits, shift, control).contains(x) <==> selected.contains(x) || hits.contains(x)),
        shift && hits.no_duplicates() ==> (marquee(selected, hits, shift, control).contains(x) <==> (selected.contains(x) != hits.contains(x))),
        !hits.contains(x) && (shift || control) ==> (marquee(selected, hits, shift, control).contains(x) <==> selected.contains(x)),
{
    if shift {
        if hits.no_duplicates() {
            crate::ids::law_toggle_is_difference(selected, hits);
        }
        lemma_toggling_others(selected, hits, x);
    }
}

proof fn lemma_toggling_others<T>(selected: Set<T>, hits: Seq<T>, x: T)
    ensures
        !hits.contains(x) ==> (crate::ids::toggled_each(selected, hits).contains(x) <==> selected.contains(x)),
    decreases hits.len(),
{
    if hits.len() > 0 {
        let front = hits.drop_last();
        lemma_toggling_others(selected, front, x);
        assert(hits[hits.len() - 1] == hits.last());
        if front.contains(x) {
            let i = choose|i: int| 0 <= i < front.len() && front[i] == x;
            assert(hits[i] == x);
        }
    }
}

/// No press is waited for but the one that selects.
pub open spec fn plain_press(app: App) -> bool {
    &&& app.surfaces.pick_target is None && !app.pattern.awaiting_shape_pick && !app.surfaces.clip_ring.awaiting_pick && !app.surfaces.create_open
    &&& app.canvas.active_tool == ActiveTool::Idle
    &&& app.workspace.active() is Some
}

/// Pressing on an object selects it and makes the project that holds it the
/// active one. Without shift or control nothing else stays selected.
pub proof fn law_press_on_an_object(pre: App, picks: CursorPicks, post: App, pick: ScenePick, id: ObjectId, h: SceneEntityId)
    requires
        plain_press(pre),
        pressed(pre, picks, post),
        picks.scene == Some(pick),
        pick.entity == SceneEntityId::Object(id),
        pick.hole is None,
    ensures
        !pre.canvas.shift && !pre.canvas.control ==> (post.selection.handles@.contains(h) <==> h == pick.entity),
        !pre.canvas.shift && pre.canvas.control ==> (post.selection.handles@.contains(h) <==> h == pick.entity || pre.selection.handles@.contains(h)),
        pre.canvas.shift ==> (post.selection.handles@.contains(h) <==> (h == pick.entity) != pre.selection.handles@.contains(h)),
        post.selection.last_pick == Some(pick.world),
        ({
            let i = index_of_object(pre.workspace.projects@, id);
            0 <= i < pre.workspace.projects@.len() && pre.workspace.projects@.len() <= usize::MAX ==> post.workspace.active() == Some(
                pre.workspace.projects@[i],
            )
        }),
        post.workspace.projects == pre.workspace.projects,
        post.items == pre.items && post.steps == pre.steps,
{
}

/// In the blast workspace a press on a hole selects the hole and nothing of
/// the dataset's own handle.
pub proof fn law_press_on_a_hole(pre: App, picks: CursorPicks, post: App, pick: ScenePick, hole: HoleRef, other: HoleRef)
    requires
        plain_press(pre),
        pressed(pre, picks, post),
        picks.scene == Some(pick),
        pick.hole == Some(hole),
        pick.entity == SceneEntityId::DrillHole(hole.dataset),
        in_reach(pre, hole.dataset),
        pre.canvas.workspace == WorkspaceKind::DrillAndBlast,
        !pre.canvas.shift,
    ensures
        pre.canvas.control ==> (post.selection.holes@.contains(other) <==> other == hole || pre.selection.holes@.contains(other)),
        !pre.canvas.control && !pre.selection.holes@.contains(hole) ==> (post.selection.holes@.contains(other) <==> other == hole),
        !pre.canvas.control && pre.selection.holes@.contains(hole) ==> (post.selection.holes@.contains(other) <==> other != hole && pre.selection.holes@.contains(
            other,
        )),
        pre.canvas.control ==> post.selection.handles == pre.selection.handles,
{
}

/// Outside the blast workspace a press on a hole selects its dataset.
pub proof fn law_press_on_a_dataset(pre: App, picks: CursorPicks, post: App, pick: ScenePick, h: SceneEntityId)
    requires
        plain_press(pre),
        pressed(pre, picks, post),
        picks.scene == Some(pick),
        pick.entity is DrillHole,
        in_reach(pre, pick.entity->DrillHole_0),
        pick.hole matches Some(hole) ==> in_reach(pre, hole.dataset),
        pre.canvas.workspace != WorkspaceKind::DrillAndBlast,
        !pre.canvas.shift && !pre.canvas.control,
    ensures
        !pre.selection.handles@.contains(pick.entity) ==> (post.selection.handles@.contains(h) <==> h == pick.entity) && post.selection.holes@.len() == 0,
        pre.selection.handles@.contains(pick.entity) ==> (post.selection.handles@.contains(h) <==> h != pick.entity && pre.selection.handles@.contains(h)),
        post.workspace == pre.workspace,
{
}

/// Pressing on a surface only waits for the button to come up: it may start a
/// box. Pressing on nothing starts one too.
pub proof fn law_press_starts_a_box(pre: App, picks: CursorPicks, post: App)
    requires
        plain_press(pre),
        pressed(pre, picks, post),
        picks.scene is None || picks.scene->0.entity is Triangulation,
        picks.scene is Some ==> picks.scene->0.hole is None,
    ensures
        post.canvas.box_start_px == pre.canvas.cursor_px && post.canvas.box_current_px == pre.canvas.cursor_px,
        post.selection == pre.selection,
        picks.scene matches Some(pick) ==> post.canvas.pending_topology_click == Some((pick.entity, pick.world)),
        picks.scene is None ==> post.canvas.pending_topology_click is None,
{
}

/// While a boundary is waited for, pressing on a closed ring of the active
/// project chooses it, and on anything else chooses nothing.
pub proof fn law_press_chooses_a_boundary(pre: App, picks: CursorPicks, post: App)
    requires
        pre.surfaces.pick_target is None,
        pre.pattern.awaiting_shape_pick,
        pressed(pre, picks, post),
    ensures
        post.pattern.boundary != pre.pattern.boundary || !post.pattern.awaiting_shape_pick ==> (picks.design matches Some((SceneEntityId::Object(id), _))
            && post.pattern.boundary == Some(id) && post.canvas.highlight == Some(id) && active_ids(pre.workspace).contains(id) && (pre.scene.object(
            id,
        ) matches Some(o) && o is Polyline && o->Polyline_closed && o->Polyline_verts.len() >= 2) && !post.pattern.awaiting_shape_pick),
        picks.design matches Some((SceneEntityId::Object(id), _)) ==> (active_ids(pre.workspace).contains(id) && (pre.scene.object(id) matches Some(o)
            && o is Polyline && o->Polyline_closed && o->Polyline_verts.len() >= 3) ==> post.pattern.boundary == Some(id) && !post.pattern.awaiting_shape_pick),
        post.selection == pre.selection && post.steps == pre.steps,
{
}

/// While a ring to clip with is waited for, pressing on a closed ring chooses
/// it, and on anything else chooses nothing.
pub proof fn law_press_chooses_a_ring(pre: App, picks: CursorPicks, post: App)
    requires
        pre.surfaces.pick_target is None,
        !pre.pattern.awaiting_shape_pick,
        pre.canvas.active_tool != ActiveTool::DrapeToTopology,
        pre.surfaces.clip_ring.awaiting_pick,
        pressed(pre, picks, post),
    ensures
        !post.surfaces.clip_ring.awaiting_pick ==> (picks.design matches Some((SceneEntityId::Object(id), _)) && post.surfaces.clip_ring.object == Some(id)
            && post.canvas.highlight == Some(id) && (pre.scene.object(id) matches Some(o) && o is Polyline && o->Polyline_closed && o->Polyline_verts.len() >= 3)),
        picks.design matches Some((SceneEntityId::Object(id), _)) ==> ((pre.scene.object(id) matches Some(o) && o is Polyline && o->Polyline_closed
            && o->Polyline_verts.len() >= 3) ==> post.surfaces.clip_ring.object == Some(id) && !post.surfaces.clip_ring.awaiting_pick),
        post.surfaces.clip_ring.awaiting_pick ==> post.surfaces == pre.surfaces,
        post.selection == pre.selection && post.steps == pre.steps,
{
}

/// The surface that is pressed fills the field that asked for it and no other;
/// the field beside it gives it up where it held the same one.
pub proof fn law_pressed_surface_fills_its_field(pre: Surfaces, target: TriangulationPickTarget, id: TriangulationId, name: Seq<char>, post: Surfaces)
    requires
        fields_picked(pre, target, id, name, post),
    ensures
        post.pick_target is None,
        target == TriangulationPickTarget::ClipSurface ==> post.clip.surface == Some(id),
        target != TriangulationPickTarget::ClipSurface ==> post.clip == pre.clip,
        target == TriangulationPickTarget::SliceSurface ==> post.slice.surface == Some(id),
        target != TriangulationPickTarget::SliceSurface ==> post.slice == pre.slice,
        target == TriangulationPickTarget::ContourSurface ==> post.contour.surface == Some(id) && (pre.contour.name_auto ==> post.contour.name@ == name),
        target != TriangulationPickTarget::ContourSurface ==> post.contour == pre.contour,
        target == TriangulationPickTarget::TrimTopology ==> post.trim.topology == Some(id),
        target == TriangulationPickTarget::TrimSurface ==> post.trim.other == Some(id),
        target == TriangulationPickTarget::TrimTopology ==> (pre.trim.other != Some(id) ==> post.trim.other == pre.trim.other),
        target == TriangulationPickTarget::TrimSurface ==> (pre.trim.topology != Some(id) ==> post.trim.topology == pre.trim.topology),
        target == TriangulationPickTarget::CutPitTopology ==> post.cut_pit.topology == Some(id),
        target == TriangulationPickTarget::CutPitShell ==> post.cut_pit.other == Some(id),
        target == TriangulationPickTarget::CutPitTopology ==> (pre.cut_pit.other != Some(id) ==> post.cut_pit.other == pre.cut_pit.other),
        target == TriangulationPickTarget::CutPitShell ==> (pre.cut_pit.topology != Some(id) ==> post.cut_pit.topology == pre.cut_pit.topology),
        target == TriangulationPickTarget::IncludeTopology ==> post.with_shell.topology == Some(id),
        target == TriangulationPickTarget::IncludeShape ==> post.with_shell.other == Some(id),
        target == TriangulationPickTarget::IncludeTopology ==> (pre.with_shell.other != Some(id) ==> post.with_shell.other == pre.with_shell.other),
        target == TriangulationPickTarget::IncludeShape ==> (pre.with_shell.topology != Some(id) ==> post.with_shell.topology == pre.with_shell.topology),
        target == TriangulationPickTarget::TrimSurface && !pre.trim.name_auto ==> post.trim.name == pre.trim.name,
        target == TriangulationPickTarget::TrimTopology ==> post.trim.name == pre.trim.name,
        target == TriangulationPickTarget::CutPitShell ==> post.cut_pit.name == pre.cut_pit.name,
        target == TriangulationPickTarget::IncludeShape ==> post.with_shell.name == pre.with_shell.name,
{
}

/// What a box holds, or touches where it was drawn from left to right.
pub open spec fn boxed(hits: BoxHits, start: ScreenPoint, end: ScreenPoint) -> Seq<SceneEntityId> {
    if f32_less(start.x, end.x) {
        hits.touching@
    } else {
        hits.inside@
    }
}

/// The same of legs.
pub open spec fn boxed_ties(hits: BoxHits, start: ScreenPoint, end: ScreenPoint) -> Seq<TieRef> {
    if f32_less(start.x, end.x) {
        hits.ties_touching@
    } else {
        hits.ties_inside@
    }
}

/// The same of holes.
pub open spec fn boxed_holes(hits: BoxHits, start: ScreenPoint, end: ScreenPoint) -> Seq<HoleRef> {
    if f32_less(start.x, end.x) {
        hits.holes_touching@
    } else {
        hits.holes_inside@
    }
}

/// A box selects what it holds of the active project's objects and of items;
/// while objects are moved, of objects alone. A box drawn from left to right
/// takes what it touches.
pub proof fn law_box_selects(
    pre: App,
    start: ScreenPoint,
    end: ScreenPoint,
    hits: BoxHits,
    picks: CursorPicks,
    under: Option<SceneEntityId>,
    r: ReleaseAction,
    post: App,
    h: SceneEntityId,
)
    requires
        box_released(pre, start, end, true, hits, picks, under, r, post),
        pre.canvas.active_tool == ActiveTool::Idle || pre.canvas.active_tool == ActiveTool::Move,
        !pre.surfaces.create_open,
        pre.canvas.workspace != WorkspaceKind::DrillAndBlast,
    ensures
        ({
            let takes = boxed(hits, start, end).contains(h) && match h {
                SceneEntityId::Object(id) => pre.workspace.active() is Some && pre.workspace.active()->0.document.object_ids().contains(id),
                _ => pre.canvas.active_tool != ActiveTool::Move,
            };
            &&& !pre.canvas.shift && !pre.canvas.control ==> (post.selection.handles@.contains(h) <==> takes)
            &&& !pre.canvas.shift && pre.canvas.control ==> (post.selection.handles@.contains(h) <==> pre.selection.handles@.contains(h) || takes)
            &&& pre.canvas.shift && !takes ==> (post.selection.handles@.contains(h) <==> pre.selection.handles@.contains(h))
            &&& pre.canvas.shift && takes && boxed(hits, start, end).no_duplicates() ==> (post.selection.handles@.contains(h)
                <==> !pre.selection.handles@.contains(h))
        }),
        post.selection.holes == pre.selection.holes && post.selection.ties == pre.selection.ties,
        post.canvas.box_start_px is None && post.canvas.box_current_px is None && post.canvas.pending_topology_click is None,
        post.steps == pre.steps,
{
    let mid = App { canvas: crate::release::box_taken(pre.canvas), ..pre };
    let all = boxed(hits, start, end);
    let keep = |h: SceneEntityId| crate::release::marquee_takes(mid, h);
    crate::ids::lemma_filter_members(all, keep);
    law_box_selects_what_it_holds(pre.selection.handles@, all.filter(keep), pre.canvas.shift, pre.canvas.control, h);
}

/// In the blast workspace a box selects legs of the dataset in reach, or holes
/// where it holds no leg, and no handle.
pub proof fn law_box_selects_holes(
    pre: App,
    start: ScreenPoint,
    end: ScreenPoint,
    hits: BoxHits,
    picks: CursorPicks,
    under: Option<SceneEntityId>,
    r: ReleaseAction,
    post: App,
    t: TieRef,
    hole: HoleRef,
)
    requires
        box_released(pre, start, end, true, hits, picks, under, r, post),
        pre.canvas.active_tool == ActiveTool::Idle,
        !pre.surfaces.create_open,
        pre.canvas.workspace == WorkspaceKind::DrillAndBlast,
        !pre.canvas.shift && !pre.canvas.control,
    ensures
        ({
            let (ties, holes) = (boxed_ties(hits, start, end), boxed_holes(hits, start, end));
            &&& post.selection.ties@.contains(t) <==> ties.contains(t) && in_reach(pre, t.dataset)
            &&& post.selection.holes@.contains(hole) ==> holes.contains(hole) && in_reach(pre, hole.dataset)
            &&& (forall|x: TieRef| #[trigger] boxed_ties(hits, start, end).contains(x) ==> !in_reach(pre, x.dataset)) ==> (post.selection.holes@.contains(hole) <==> holes.contains(
                hole,
            ) && in_reach(pre, hole.dataset))
            &&& ties.contains(t) && in_reach(pre, t.dataset) ==> post.selection.holes@.len() == 0
        }),
        post.selection.handles@.len() == 0,
{
    let mid = App { canvas: crate::release::box_taken(pre.canvas), ..pre };
    let cross = f32_less(start.x, end.x);
    let (ties, holes) = (boxed_ties(hits, start, end), boxed_holes(hits, start, end));
    let keep = |t: TieRef| in_reach(mid, t.dataset);
    let keep_hole = |h: HoleRef| in_reach(mid, h.dataset);
    crate::ids::lemma_filter_members(ties, keep);
    crate::ids::lemma_filter_members(holes, keep_hole);
    assert(crate::canvas::selectable(mid) == crate::canvas::selectable(pre));
    assert(forall|id: crate::ids::DrillHoleId| in_reach(mid, id) == in_reach(pre, id));
    let found = ties.filter(keep);
    assert(found == crate::release::ties_in_reach(mid, hits, cross));
    assert(holes.filter(keep_hole) == crate::release::holes_in_reach(mid, hits, cross));
    if found.len() > 0 {
        assert(found.contains(found[0]));
        assert(ties.contains(found[0]) && in_reach(pre, found[0].dataset));
        assert(post.selection.ties@ == found.to_set());
    } else {
        assert(!found.contains(t));
        assert(post.selection.holes@ == holes.filter(keep_hole).to_set());
        assert(post.selection.ties@ == Set::<TieRef>::empty());
    }
}

/// A box of the eraser takes the points of the active project that it holds
/// and nothing else, and asks before they go.
pub proof fn law_box_takes_points(
    pre: App,
    start: ScreenPoint,
    end: ScreenPoint,
    hits: BoxHits,
    picks: CursorPicks,
    under: Option<SceneEntityId>,
    r: ReleaseAction,
    post: App,
    h: SceneEntityId,
)
    requires
        box_released(pre, start, end, true, hits, picks, under, r, post),
        pre.canvas.active_tool == ActiveTool::DeletePoints,
    ensures
        post.selection.handles@.contains(h) <==> boxed(hits, start, end).contains(h) && (h matches SceneEntityId::Object(id) && active_ids(
            pre.workspace,
        ).contains(id) && (pre.scene.object(id) matches Some(o) && o is Point)),
        post.selection.handles@.contains(h) ==> post.canvas.delete_confirm_open,
        post.steps == pre.steps,
        r == ReleaseAction::Done,
{
    let mid = App { canvas: crate::release::box_taken(pre.canvas), ..pre };
    let all = boxed(hits, start, end);
    let keep = |h: SceneEntityId| crate::release::is_deletable_point(mid, h);
    crate::ids::lemma_filter_members(all, keep);
    let points = all.filter(keep);
    assert(points == crate::release::deletable_points(mid, all));
    if points.contains(h) {
        assert(points.len() > 0);
    }
}

/// A click with the eraser erases at the cursor; other releases are done with.
pub proof fn law_release_erases_at_the_cursor(
    pre: App,
    start: ScreenPoint,
    end: ScreenPoint,
    dragged: bool,
    hits: BoxHits,
    picks: CursorPicks,
    under: Option<SceneEntityId>,
    r: ReleaseAction,
    post: App,
)
    requires
        box_released(pre, start, end, dragged, hits, picks, under, r, post),
    ensures
        r == ReleaseAction::DeleteAtCursor <==> pre.canvas.active_tool == ActiveTool::DeletePoints && !dragged,
        post.steps == pre.steps && post.workspace == pre.workspace && post.items == pre.items,
{
}

/// Clicking the background lets everything go; with shift or control it keeps
/// what is selected.
pub proof fn law_click_on_the_background(
    pre: App,
    start: ScreenPoint,
    end: ScreenPoint,
    hits: BoxHits,
    picks: CursorPicks,
    under: Option<SceneEntityId>,
    r: ReleaseAction,
    post: App,
)
    requires
        box_released(pre, start, end, false, hits, picks, under, r, post),
        pre.canvas.active_tool == ActiveTool::Idle,
        !pre.surfaces.create_open,
        pre.canvas.pending_topology_click is None,
    ensures
        !pre.canvas.shift && !pre.canvas.control ==> post.selection.handles@.len() == 0 && post.selection.holes@.len() == 0 && post.selection.ties@.len() == 0
            && post.canvas.active_triangulation is None,
        pre.canvas.shift || pre.canvas.control ==> post.selection == pre.selection && post.canvas.active_triangulation == pre.canvas.active_triangulation,
{
}

/// Clicking a surface selects it, and makes it the active one as long as it is
/// selected.
pub proof fn law_click_on_a_surface(
    pre: App,
    start: ScreenPoint,
    end: ScreenPoint,
    hits: BoxHits,
    picks: CursorPicks,
    under: Option<SceneEntityId>,
    r: ReleaseAction,
    post: App,
    id: TriangulationId,
    world: Point3,
)
    requires
        box_released(pre, start, end, false, hits, picks, under, r, post),
        pre.canvas.active_tool == ActiveTool::Idle,
        !pre.surfaces.create_open,
        pre.canvas.pending_topology_click == Some((SceneEntityId::Triangulation(id), world)),
    ensures
        ({
            let h = SceneEntityId::Triangulation(id);
            let was = pre.selection.handles@.contains(h);
            &&& post.selection.handles@.contains(h) <==> (!was || (pre.canvas.control && !pre.canvas.shift))
            &&& post.canvas.active_triangulation == if post.selection.handles@.contains(h) {
                Some(id)
            } else {
                None
            }
            &&& !pre.canvas.shift && !pre.canvas.control && !was ==> forall|x: SceneEntityId| #[trigger] post.selection.handles@.contains(x) ==> x == h
            &&& post.selection.last_pick == Some(world)
        }),
{
}

/// Sources for a surface are taken from a box one by one: each line that has
/// vertices enough and is not taken yet comes last.
pub proof fn law_sources_are_lines(scene: Document, ids: Seq<ObjectId>, entities: Seq<SceneEntityId>, id: ObjectId)
    ensures
        sources_added(scene, ids, entities).contains(id) <==> ids.contains(id) || (entities.contains(SceneEntityId::Object(id)) && (scene.object(
            id,
        ) matches Some(o) && o is Polyline && o->Polyline_verts.len() >= (if o->Polyline_closed {
            3int
        } else {
            2
        }))),
        ids.no_duplicates() ==> sources_added(scene, ids, entities).no_duplicates(),
        sources_added(scene, ids, entities).len() >= ids.len() && sources_added(scene, ids, entities).take(ids.len() as int) == ids,
    decreases entities.len(),
{
    if entities.len() > 0 {
        let front = entities.drop_last();
        law_sources_are_lines(scene, ids, front, id);
        let (before, all) = (sources_added(scene, ids, front), sources_added(scene, ids, entities));
        assert(all.take(ids.len() as int) =~= before.take(ids.len() as int));
        assert(entities[entities.len() - 1] == entities.last());
        let h = SceneEntityId::Object(id);
        if front.contains(h) {
            let i = choose|i: int| 0 <= i < front.len() && front[i] == h;
            assert(entities[i] == h);
        }
        if before.contains(id) {
            let i = choose|i: int| 0 <= i < before.len() && before[i] == id;
            assert(all[i] == id);
        }
        if all.len() > before.len() {
            assert(all[all.len() - 1] == entities.last()->Object_0);
        }
        if all.contains(id) && !before.contains(id) {
            let i = choose|i: int| 0 <= i < all.len() && all[i] == id;
            if i < before.len() {
                assert(before[i] == id);
            }
        }
        if entities.contains(h) && !front.contains(h) {
            let i = choose|i: int| 0 <= i < entities.len() && entities[i] == h;
            if i < front.len() {
                assert(front[i] == h);
            }
        }
    } else {
        assert(ids.take(ids.len() as int) =~= ids);
    }
}

/// Letting go of a dragged object leaves a step from how it was to how it is;
/// one that did not move leaves none.
pub proof fn law_drag_leaves_a_step(pre: App, post: App)
    requires
        drag_finished(pre, post),
    ensures
        post.canvas.drag is None,
        post.steps@.len() != pre.steps@.len() ==> (pre.canvas.drag matches Some(drag) && drag.moved && keeps_steps(pre, post) && post.steps@.len() == pre.steps@.len() + 1
            && post.steps@.last().applied && (pre.workspace.active() matches Some(p) && (p.document.object(drag.object_id) matches Some(o) && (
        post.steps@.last().edits@[0] matches Edit::Replace { before, after } && before@ == drag.before@ && after@ == o)))),
        (pre.canvas.drag matches Some(drag) && drag.moved && (pre.workspace.active() matches Some(p) && p.document.object(drag.object_id) is Some))
            ==> keeps_steps(pre, post) && post.steps@.len() == pre.steps@.len() + 1,
        post.workspace == pre.workspace,
{
}

/// Hovering shows the surface under the cursor while one is asked for, and the
/// ring under it while a ring is; what cannot be chosen is not marked.
pub proof fn law_hovering(pre: App, surface: Option<SceneEntityId>, design: Option<SceneEntityId>, post: App)
    requires
        hovered(pre, surface, design, post),
    ensures
        pre.surfaces.pick_target is Some ==> (forall|h: SceneEntityId| #[trigger]
            post.canvas.hover_handles@.contains(h) <==> h is Triangulation && surface == Some(h)),
        pre.surfaces.pick_target is None && pre.surfaces.clip_ring.awaiting_pick && !pre.pattern.awaiting_shape_pick ==> (post.canvas.highlight matches Some(
            id,
        ) ==> design == Some(SceneEntityId::Object(id)) && (pre.scene.object(id) matches Some(o) && o is Polyline && o->Polyline_closed
            && o->Polyline_verts.len() >= 3)),
        pre.surfaces.pick_target is None && (pre.surfaces.clip_ring.awaiting_pick || pre.pattern.awaiting_shape_pick) && design is None
            ==> post.canvas.highlight is None && text_of(post.canvas.hover_label) is None,
        post.selection == pre.selection && post.steps == pre.steps && post.workspace == pre.workspace,
{
}

/// While designs are draped a box takes objects of the active project, and
/// then surfaces, in place of what was selected or, with control, beside it.
pub proof fn law_selecting_for_a_drape(
    pre: App,
    start: ScreenPoint,
    end: ScreenPoint,
    hits: BoxHits,
    picks: CursorPicks,
    under: Option<SceneEntityId>,
    r: ReleaseAction,
    post: App,
    h: SceneEntityId,
)
    requires
        box_released(pre, start, end, true, hits, picks, under, r, post),
        pre.canvas.active_tool == ActiveTool::DrapeToTopology,
        !pre.canvas.shift,
    ensures
        ({
            let takes = boxed(hits, start, end).contains(h) && match (pre.drape.phase, h) {
                (DrapePhase::Designs, SceneEntityId::Object(id)) => pre.workspace.active() is Some && pre.workspace.active()->0.document.object_ids().contains(id),
                (DrapePhase::Topologies, SceneEntityId::Triangulation(_)) => true,
                _ => false,
            };
            &&& !pre.canvas.control ==> (post.selection.handles@.contains(h) <==> takes)
            &&& pre.canvas.control ==> (post.selection.handles@.contains(h) <==> pre.selection.handles@.contains(h) || takes)
        }),
        post.selection.holes == pre.selection.holes && post.drape == pre.drape && post.frame.geometry_stale,
{
    let mid = App { canvas: crate::release::box_taken(pre.canvas), ..pre };
    let all = boxed(hits, start, end);
    let keep = |h: SceneEntityId| crate::release::drape_takes(mid, h);
    crate::ids::lemma_filter_members(all, keep);
    let found = all.filter(keep);
    law_box_selects_what_it_holds(pre.selection.handles@, found, pre.canvas.shift, pre.canvas.control, h);
    if found.len() == 0 {
        assert(!found.contains(h));
    }
}

/// A click on a surface to drape onto selects it alone, or lets it go where it
/// was selected.
pub proof fn law_clicking_a_surface_to_drape_onto(
    pre: App,
    start: ScreenPoint,
    end: ScreenPoint,
    hits: BoxHits,
    picks: CursorPicks,
    under: Option<SceneEntityId>,
    r: ReleaseAction,
    post: App,
    id: TriangulationId,
    world: Point3,
    h: SceneEntityId,
)
    requires
        box_released(pre, start, end, false, hits, picks, under, r, post),
        pre.canvas.active_tool == ActiveTool::DrapeToTopology,
        pre.drape.phase == DrapePhase::Topologies,
        picks.surface == Some((SceneEntityId::Triangulation(id), world)),
        !pre.canvas.shift && !pre.canvas.control,
    ensures
        ({
            let own = SceneEntityId::Triangulation(id);
            &&& pre.selection.handles@.contains(own) ==> (post.selection.handles@.contains(h) <==> pre.selection.handles@.contains(h) && h != own)
            &&& !pre.selection.handles@.contains(own) ==> (post.selection.handles@.contains(h) <==> h == own)
        }),
{
    let mid = App { canvas: crate::release::box_taken(pre.canvas), ..pre };
    let own = SceneEntityId::Triangulation(id);
    let offered = seq![own];
    let keep = |h: SceneEntityId| crate::release::drape_takes(mid, h);
    reveal(Seq::filter);
    assert(offered.drop_last() =~= Seq::<SceneEntityId>::empty());
    assert(offered.filter(keep) =~= offered);
    assert(offered[0] == own);
    assert(offered.contains(own));
    assert forall|x: SceneEntityId| #[trigger] offered.contains(x) implies x == own by {}
}

/// What is under the cursor and cannot be chosen is said to be so; what can be
/// is named by its layer.
pub proof fn law_hover_labels(pre: App, surface: Option<SceneEntityId>, design: Option<SceneEntityId>, post: App)
    requires
        hovered(pre, surface, design, post),
        pre.surfaces.pick_target is None,
        pre.surfaces.clip_ring.awaiting_pick || pre.pattern.awaiting_shape_pick,
    ensures
        design is Some && post.canvas.highlight is None ==> text_of(post.canvas.hover_label) == Some(crate::release::not_selectable()),
        post.canvas.highlight matches Some(id) ==> (pre.scene.object(id) matches Some(o) && text_of(post.canvas.hover_label) == Some(
            crate::release::ring_label(pre, o),
        )),
{
}

/// A surface that was picked for a field is not marked any more, and nothing
/// else is selected by that press.
pub proof fn law_pressed_surface_is_not_marked(pre: App, picks: CursorPicks, post: App, id: TriangulationId, world: Point3)
    requires
        pressed(pre, picks, post),
        pre.surfaces.pick_target is Some,
        picks.surface == Some((SceneEntityId::Triangulation(id), world)),
    ensures
        post.surfaces.pick_target is None,
        post.canvas.hover_label is None && post.canvas.hover_handles@ == Set::<SceneEntityId>::empty(),
        post.selection == pre.selection && post.steps == pre.steps && post.items == pre.items,
        post.frame.geometry_stale,
{
}

} // verus!
