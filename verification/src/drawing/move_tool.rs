//! Moving what is selected: design objects, and the collars of holes.
//!
//! A move previews by writing the document from a capture of what stood there
//! before. Settling it turns the difference into one undo step; abandoning it
//! writes the capture back.

use crate::collars::{
    capture, captured, captured_epochs, captured_from, collars_restored, collars_written, collect_targets, group_by_dataset, group_models, grouped,
    is_captured_from, marks, marks_restored, placements, placements_of, restore_epochs, same_but_epochs, targets_of, write_datasets, CollarGroupModel,
};
use crate::document::{object_models, objects_differ, replaced_all, same_object, Document, Object, ObjectModel};
use crate::drawing::rotate_collar::{copy_group, rotation_applied};
use crate::drawing::translate::{move_objects, shown_objects, ShiftedPoints};
use crate::edit::{Edit, Shift, Step};
use crate::ids::{contains_key, DrillHoleId, HoleRef, ObjectId, SceneEntityId};
use crate::ieee::{Point3, ScreenPoint, F64_NAN};
use crate::items::{HoleOrientation, HolePlacement, Items};
use crate::search::lemma_first_index;
use crate::state::{ActiveTool, App, CapturedHole, CollarMoveSession, DatasetMark, GizmoConstraint, GizmoDrag, MoveSession, Moving, Turning};
use crate::workspace::{index_of_runtime, OpenProject, Workspace};
use vstd::prelude::*;

verus! {

/// The origin.
pub open spec fn origin() -> Point3 {
    Point3 { x: 0, y: 0, z: 0 }
}

/// A point that equals no point.
pub open spec fn nowhere() -> Point3 {
    Point3 { x: F64_NAN, y: F64_NAN, z: F64_NAN }
}

impl Moving {
    /// The panel of the move shows nothing.
    pub open spec fn reset(self) -> Moving {
        Moving { vertex_target: None, panel_delta: origin(), panel_last_preview: nowhere(), ..self }
    }

    /// No handle is held.
    pub open spec fn released(self) -> Moving {
        Moving { drag: None, drag_axis: None, drag_plane: None, ..self }
    }
}

/// The runtime id of the active project.
pub open spec fn active_runtime(w: Workspace) -> Option<u32> {
    match w.active() {
        Some(p) => Some(p.runtime_id),
        None => None,
    }
}

/// The workspace before and after objects were written into one project.
pub open spec fn design_written(pre: Workspace, post: Workspace, runtime_id: u32, objects: Seq<ObjectModel>) -> bool {
    let i = index_of_runtime(pre.projects@, runtime_id);
    if i < pre.projects@.len() {
        let a = pre.projects@[i];
        let b = post.projects@[i];
        &&& post == (Workspace { projects: post.projects, ..pre })
        &&& post.projects@ == pre.projects@.update(i, b)
        &&& b == (OpenProject { document: b.document, ..a })
        &&& b.document == (Document { objects: b.document.objects, ..a.document })
        &&& object_models(b.document.objects@) == replaced_all(object_models(a.document.objects@), objects)
    } else {
        post == pre
    }
}

/// The workspace before and after the capture of a move was written back.
pub open spec fn design_put_back(pre: Workspace, post: Workspace, session: Option<MoveSession>) -> bool {
    match session {
        Some(s) => design_written(pre, post, s.project_runtime_id, object_models(s.originals@)),
        None => post == pre,
    }
}

/// The items before and after the capture of a collar gesture was written back.
pub open spec fn collars_put_back(pre: Items, post: Items, session: Option<CollarMoveSession>) -> bool {
    match session {
        Some(s) => post == (Items { drill_holes: post.drill_holes, ..pre }) && collars_restored(pre.drill_holes@, post.drill_holes@, s),
        None => post == pre,
    }
}

/// The targets are no longer those of the session, or the project is another.
pub open spec fn collar_session_stale(w: Workspace, session: Option<CollarMoveSession>, targets: Seq<HoleRef>) -> bool {
    match session {
        Some(s) => active_runtime(w) != Some(s.project_runtime_id) || s.originals@.map_values(|c: CapturedHole| c.target) != targets,
        None => true,
    }
}

/// What readying a collar gesture does: a design move is put back, and the
/// selected holes are captured unless they are already.
pub open spec fn collar_session_ensured(pre: App, post: App) -> bool {
    let targets = targets_of(pre.items.drill_holes@, pre.selection.holes.order());
    let keep = targets.len() > 0 && !collar_session_stale(pre.workspace, pre.moving.collars, targets);
    &&& design_put_back(pre.workspace, post.workspace, pre.moving.session)
    &&& post == (App {
        workspace: post.workspace,
        items: post.items,
        moving: Moving { session: None, collars: post.moving.collars, ..pre.moving },
        frame: if keep || pre.moving.collars is None {
            pre.frame
        } else {
            pre.frame.bounds()
        },
        ..pre
    })
    &&& if keep {
        post.items == pre.items && post.moving.collars == pre.moving.collars
    } else {
        &&& collars_put_back(pre.items, post.items, pre.moving.collars)
        &&& match post.moving.collars {
            Some(s) => {
                &&& targets.len() > 0
                &&& active_runtime(pre.workspace) == Some(s.project_runtime_id)
                &&& s.originals@ == captured(post.items.drill_holes@, targets)
                &&& s.epochs@ == captured_epochs(post.items.drill_holes@, s.originals@)
            },
            None => targets.len() == 0 || active_runtime(pre.workspace) is None,
        }
    }
}

impl App {
    /// The runtime id of the active project.
    pub fn active_runtime_id(&self) -> (r: Option<u32>)
        ensures
            r == active_runtime(self.workspace),
    {
        match self.workspace.active_project() {
            Some(p) => Some(p.runtime_id),
            None => None,
        }
    }

    /// Clears the panel of the move.
    pub fn reset_move_editor_state(&mut self)
        ensures
            *final(self) == (App { moving: old(self).moving.reset(), ..*old(self) }),
    {
        self.moving.vertex_target = None;
        self.moving.panel_delta = Point3 { x: 0, y: 0, z: 0 };
        self.moving.panel_last_preview = Point3 { x: F64_NAN, y: F64_NAN, z: F64_NAN };
    }

    /// Writes objects into the project with the runtime id.
    fn write_design(&mut self, runtime_id: u32, objects: &Vec<Object>)
        ensures
            *final(self) == (App { workspace: final(self).workspace, ..*old(self) }),
            design_written(old(self).workspace, final(self).workspace, runtime_id, object_models(objects@)),
    {
        match self.workspace.project_index_for_runtime_id(runtime_id) {
            Some(i) => {
                self.workspace.projects[i].document.replace_objects(objects);
                assert(self.workspace.projects@ =~= old(self).workspace.projects@.update(i as int, self.workspace.projects@[i as int]));
            },
            None => {},
        }
    }

    /// Writes the capture of a move back.
    pub fn restore_move_session(&mut self, session: MoveSession)
        ensures
            *final(self) == (App { workspace: final(self).workspace, ..*old(self) }),
            design_put_back(old(self).workspace, final(self).workspace, Some(session)),
    {
        self.write_design(session.project_runtime_id, &session.originals);
    }

    /// Ends a design move and writes its capture back.
    pub fn restore_move_session_original(&mut self)
        ensures
            *final(self) == (App { workspace: final(self).workspace, moving: Moving { session: None, ..old(self).moving }, ..*old(self) }),
            design_put_back(old(self).workspace, final(self).workspace, old(self).moving.session),
    {
        match self.moving.session.take() {
            Some(session) => self.restore_move_session(session),
            None => {},
        }
    }

    /// Writes every captured hole. `written` holds the new placement of each.
    pub fn write_collar_placements(&mut self, originals: &Vec<CapturedHole>, written: &Vec<HolePlacement>)
        requires
            written@.len() == originals@.len(),
        ensures
            *final(self) == (App { items: final(self).items, frame: old(self).frame.topology(), ..*old(self) }),
            final(self).items == (Items { drill_holes: final(self).items.drill_holes, ..old(self).items }),
            collars_written(old(self).items.drill_holes@, final(self).items.drill_holes@, originals@, written@),
    {
        write_datasets(&mut self.items.drill_holes, originals, written);
        self.request_topology_redraw();
    }

    /// Puts the content counters of the datasets back.
    pub fn restore_collar_epochs(&mut self, epochs: &Vec<DatasetMark>)
        ensures
            *final(self) == (App { items: final(self).items, ..*old(self) }),
            final(self).items == (Items { drill_holes: final(self).items.drill_holes, ..old(self).items }),
            same_but_epochs(old(self).items.drill_holes@, final(self).items.drill_holes@),
            marks(final(self).items.drill_holes@) == marks_restored(marks(old(self).items.drill_holes@), epochs@),
    {
        restore_epochs(&mut self.items.drill_holes, epochs);
    }

    /// Writes the capture of a collar gesture back, counters included.
    pub(crate) fn put_back_collars(&mut self, session: &CollarMoveSession)
        ensures
            *final(self) == (App { items: final(self).items, frame: old(self).frame.topology(), ..*old(self) }),
            collars_put_back(old(self).items, final(self).items, Some(*session)),
    {
        let written = placements_of(&session.originals);
        self.write_collar_placements(&session.originals, &written);
        let ghost mid = self.items.drill_holes@;
        self.restore_collar_epochs(&session.epochs);
        assert(collars_written(old(self).items.drill_holes@, mid, session.originals@, placements(session.originals@)));
    }

    /// Ends a collar gesture and writes its capture back.
    pub fn restore_collar_session(&mut self)
        ensures
            *final(self) == (App {
                items: final(self).items,
                moving: Moving { collars: None, ..old(self).moving },
                frame: if old(self).moving.collars is Some {
                    old(self).frame.bounds()
                } else {
                    old(self).frame
                },
                ..*old(self)
            }),
            collars_put_back(old(self).items, final(self).items, old(self).moving.collars),
    {
        match self.moving.collars.take() {
            Some(session) => {
                self.put_back_collars(&session);
                self.invalidate_topology_bounds_and_redraw();
            },
            None => {},
        }
    }

    /// Puts down whichever gesture stands, and writes everything back to where
    /// it was captured.
    pub fn cancel_move_delta(&mut self)
        ensures
            move_cancelled(*old(self), *final(self)),
    {
        self.moving.drag = None;
        self.moving.drag_axis = None;
        self.moving.drag_plane = None;
        self.restore_move_session_original();
        self.restore_collar_session();
        self.reset_rotate_editor_state();
        self.reset_move_editor_state();
        self.invalidate_geometry();
        self.invalidate_overlay();
    }

    /// Whether any gesture stands.
    pub fn has_pending_move_delta(&self) -> (r: bool)
        ensures
            r == move_pending(*self),
    {
        self.moving.session.is_some() || self.moving.collars.is_some() || self.moving.vertex_target.is_some() || self.moving.drag.is_some()
            || self.turning.drag.is_some()
    }

    /// The holes that a collar gesture would hold, in order.
    pub fn collar_targets(&self) -> (r: Vec<HoleRef>)
        ensures
            r@ == targets_of(self.items.drill_holes@, self.selection.holes.order()),
    {
        collect_targets(&self.items, self.selection.holes.as_vec())
    }

    /// Captures the selected holes, unless they are captured already.
    pub fn ensure_collar_session(&mut self)
        ensures
            collar_session_ensured(*old(self), *final(self)),
    {
        self.restore_move_session_original();
        let targets = self.collar_targets();
        if targets.len() == 0 {
            self.restore_collar_session();
            return ;
        }
        let active = self.active_runtime_id();
        proof {
            lemma_design_keeps_runtime(old(self).workspace, self.workspace, old(self).moving.session);
        }
        let stale = match &self.moving.collars {
            Some(session) => {
                let other = match active {
                    Some(id) => id != session.project_runtime_id,
                    None => true,
                };
                other || !same_targets(&session.originals, &targets)
            },
            None => true,
        };
        if !stale {
            return ;
        }
        self.restore_collar_session();
        match active {
            Some(id) => {
                let session = capture(&self.items, &targets, id);
                self.moving.collars = Some(session);
            },
            None => {},
        }
    }
}

/// Nothing that a design write changes is read by the active runtime id.
pub proof fn lemma_design_keeps_runtime(pre: Workspace, post: Workspace, session: Option<MoveSession>)
    requires
        design_put_back(pre, post, session),
    ensures
        active_runtime(post) == active_runtime(pre),
{
    if let Some(s) = session {
        lemma_first_index(pre.projects@, |p: OpenProject| p.runtime_id == s.project_runtime_id);
    }
}

/// Whether any gesture stands.
pub open spec fn move_pending(app: App) -> bool {
    app.moving.session is Some || app.moving.collars is Some || app.moving.vertex_target is Some || app.moving.drag is Some || app.turning.drag is Some
}

/// What putting a gesture down does.
pub open spec fn move_cancelled(pre: App, post: App) -> bool {
    &&& post == (App {
        workspace: post.workspace,
        items: post.items,
        moving: (Moving { session: None, collars: None, ..pre.moving }).released().reset(),
        turning: pre.turning.reset(),
        frame: (if pre.moving.collars is Some {
            pre.frame.bounds()
        } else {
            pre.frame
        }).geometry().overlay(),
        ..pre
    })
    &&& design_put_back(pre.workspace, post.workspace, pre.moving.session)
    &&& collars_put_back(pre.items, post.items, pre.moving.collars)
}

/// Once a gesture was put down none stands.
pub proof fn law_cancel_ends_gesture(pre: App, post: App)
    requires
        move_cancelled(pre, post),
    ensures
        !move_pending(post),
{
}

/// Whether the capture is of exactly these holes.
fn same_targets(originals: &Vec<CapturedHole>, targets: &Vec<HoleRef>) -> (r: bool)
    ensures
        r == (originals@.map_values(|c: CapturedHole| c.target) == targets@),
{
    let ghost held = originals@.map_values(|c: CapturedHole| c.target);
    if originals.len() != targets.len() {
        assert(held.len() != targets@.len());
        return false;
    }
    let mut i: usize = 0;
    while i < originals.len()
        invariant
            i <= originals.len(),
            held == originals@.map_values(|c: CapturedHole| c.target),
            originals.len() == targets.len(),
            forall|j: int| 0 <= j < i ==> held[j] == #[trigger] targets@[j],
        decreases originals.len() - i,
    {
        if originals[i].target != targets[i] {
            assert(held[i as int] != targets@[i as int]);
            return false;
        }
        i += 1;
    }
    assert(held =~= targets@);
    true
}

/// The objects among the handles, in order.
pub open spec fn objects_among(handles: Seq<SceneEntityId>) -> Seq<ObjectId>
    decreases handles.len(),
{
    if handles.len() == 0 {
        Seq::empty()
    } else {
        let before = objects_among(handles.drop_last());
        match handles.last() {
            SceneEntityId::Object(id) => before.push(id),
            _ => before,
        }
    }
}

/// The objects that a move would take: the one with the chosen point, else
/// those selected.
pub open spec fn move_targets(app: App) -> Seq<ObjectId> {
    match app.moving.vertex_target {
        Some(t) => seq![t.0],
        None => objects_among(app.selection.handles.order()),
    }
}

/// The objects of the document with these ids, without those it lacks.
pub open spec fn captured_objects(document: Document, ids: Seq<ObjectId>) -> Seq<ObjectModel>
    decreases ids.len(),
{
    if ids.len() == 0 {
        Seq::empty()
    } else {
        let before = captured_objects(document, ids.drop_last());
        match document.object(ids.last()) {
            Some(o) => before.push(o),
            None => before,
        }
    }
}

/// The capture is no longer of these objects, or of this project.
pub open spec fn move_session_stale(w: Workspace, session: Option<MoveSession>, ids: Seq<ObjectId>) -> bool {
    match session {
        Some(s) => {
            ||| active_runtime(w) != Some(s.project_runtime_id)
            ||| s.originals@.len() != ids.len()
            ||| exists|k: int| 0 <= k < s.originals@.len() && !ids.contains((#[trigger] s.originals@[k])@.id())
        },
        None => true,
    }
}

/// What readying a design move does: a collar gesture is put back, and the
/// targets are captured unless they are already.
pub open spec fn design_session_ensured(pre: App, post: App) -> bool {
    let ids = move_targets(pre);
    let stale = move_session_stale(pre.workspace, pre.moving.session, ids);
    &&& collars_put_back(pre.items, post.items, pre.moving.collars)
    &&& post == (App {
        workspace: post.workspace,
        items: post.items,
        moving: Moving { session: post.moving.session, collars: None, ..pre.moving },
        frame: if pre.moving.collars is Some {
            pre.frame.bounds()
        } else {
            pre.frame
        },
        ..pre
    })
    &&& if ids.len() == 0 {
        post.workspace == pre.workspace && post.moving.session is None
    } else if !stale {
        post.workspace == pre.workspace && post.moving.session == pre.moving.session
    } else {
        &&& design_put_back(pre.workspace, post.workspace, pre.moving.session)
        &&& match (post.workspace.active(), post.moving.session) {
            (Some(p), Some(s)) => s.project_runtime_id == p.runtime_id && object_models(s.originals@) == captured_objects(p.document, ids),
            (None, None) => true,
            _ => false,
        }
    }
}

/// What readying a move does, whichever of the two tools is up.
pub open spec fn move_session_ensured(pre: App, post: App) -> bool {
    if pre.canvas.active_tool == ActiveTool::MoveCollar {
        collar_session_ensured(pre, post)
    } else {
        design_session_ensured(pre, post)
    }
}

/// The captured objects that the document now shows otherwise, with what it shows.
pub open spec fn changes(originals: Seq<ObjectModel>, document: Document) -> Seq<(ObjectModel, ObjectModel)>
    decreases originals.len(),
{
    if originals.len() == 0 {
        Seq::empty()
    } else {
        let before = changes(originals.drop_last(), document);
        let o = originals.last();
        match document.object(o.id()) {
            Some(now) if !same_object(o, now) => before.push((o, now)),
            _ => before,
        }
    }
}

/// The step replaces each first object of a pair by the second.
pub open spec fn replaces_pairs(edits: Seq<Edit>, pairs: Seq<(ObjectModel, ObjectModel)>) -> bool {
    edits.len() == pairs.len() && forall|k: int| 0 <= k < pairs.len() ==> (#[trigger] edits[k]).replaces(pairs[k].0, pairs[k].1)
}

/// What settling a design move does, its session already taken.
pub open spec fn move_session_settled(pre: App, session: MoveSession, post: App) -> bool {
    match pre.workspace.active() {
        Some(p) if p.runtime_id == session.project_runtime_id => {
            let pairs = changes(object_models(session.originals@), p.document);
            &&& post == (App { moving: pre.moving.reset(), frame: pre.frame.geometry().overlay(), steps: post.steps, ..pre })
            &&& if pairs.len() == 0 {
                post.steps == pre.steps
            } else {
                &&& post.steps@.len() == pre.steps@.len() + 1
                &&& post.steps@.drop_last() == pre.steps@
                &&& post.steps@.last().batch && post.steps@.last().applied && post.steps@.last().project is None
                &&& replaces_pairs(post.steps@.last().edits@, pairs)
            }
        },
        _ => post == (App { workspace: post.workspace, moving: pre.moving.reset(), ..pre }) && design_put_back(pre.workspace, post.workspace, Some(session)),
    }
}

/// The step moves each group of holes.
pub open spec fn moves_groups(step: Step, groups: Seq<CollarGroupModel>, by: Shift) -> bool {
    &&& step.edits@.len() == groups.len()
    &&& step.batch == (groups.len() != 1)
    &&& !step.applied && step.project is None
    &&& forall|g: int|
        0 <= g < groups.len() ==> match #[trigger] step.edits@[g] {
            Edit::MoveCollars { dataset, holes, shift } => dataset == groups[g].dataset && holes@ == groups[g].holes && shift == by,
            _ => false,
        }
}

/// What settling a collar move does once its session is there.
pub open spec fn collar_move_settled(mid: App, by: Shift, post: App) -> bool {
    match mid.moving.collars {
        None => post == mid,
        Some(session) => {
            let settled = App {
                items: post.items,
                moving: (Moving { collars: None, ..mid.moving }).reset(),
                frame: mid.frame.bounds(),
                ..mid
            };
            &&& collars_put_back(mid.items, post.items, Some(session))
            &&& if active_runtime(mid.workspace) != Some(session.project_runtime_id) || session.originals@.len() == 0 || by.still() {
                post == settled
            } else {
                &&& post == (App { frame: settled.frame.geometry().overlay(), steps: post.steps, ..settled })
                &&& post.steps@.len() == mid.steps@.len() + 1
                &&& post.steps@.drop_last() == mid.steps@
                &&& moves_groups(post.steps@.last(), grouped(session.originals@), by)
            }
        },
    }
}

/// What settling a collar move does.
pub open spec fn collar_move_applied(pre: App, by: Shift, post: App) -> bool {
    exists|mid: App| #[trigger] collar_session_ensured(pre, mid) && collar_move_settled(mid, by, post)
}

/// How far the preview of a collar move stands from its capture: from where
/// its first hole was to where it is.
pub open spec fn standing_shift(app: App) -> Option<Shift> {
    match app.moving.collars {
        Some(s) if s.originals@.len() > 0 => match crate::collars::placement_at(app.items.drill_holes@, s.originals@[0].target) {
            Some(now) => Some(Shift::Between { from: s.originals@[0].placement.collar, to: now.collar }),
            None => None,
        },
        _ => None,
    }
}

/// The state with every handle let go.
pub open spec fn handles_released(pre: App) -> App {
    App { moving: pre.moving.released(), turning: Turning { drag: None, drag_ring: None, ..pre.turning }, ..pre }
}

/// What settling whichever gesture stands does.
pub open spec fn pending_move_committed(pre: App, after: Seq<Option<HoleOrientation>>, post: App) -> bool {
    let free = handles_released(pre);
    match (pre.turning.rotation, standing_shift(pre), pre.moving.session) {
        (Some(rotation), _, _) => rotation_applied(free, rotation, after, post),
        (None, Some(shift), _) => collar_move_applied(free, shift, post),
        (None, None, Some(session)) => move_session_settled(App { moving: Moving { session: None, ..free.moving }, ..free }, session, post),
        (None, None, None) => post == (App { moving: free.moving.reset(), ..free }),
    }
}

impl App {
    /// The selected objects.
    pub fn selected_object_ids(&self) -> (r: Vec<ObjectId>)
        ensures
            r@ == objects_among(self.selection.handles.order()),
    {
        let handles = self.selection.handles.as_vec();
        let mut r: Vec<ObjectId> = Vec::new();
        let mut i: usize = 0;
        assert(handles@.take(0) =~= Seq::<SceneEntityId>::empty());
        while i < handles.len()
            invariant
                i <= handles.len(),
                r@ == objects_among(handles@.take(i as int)),
            decreases handles.len() - i,
        {
            assert(handles@.take(i + 1).drop_last() =~= handles@.take(i as int));
            match handles[i] {
                SceneEntityId::Object(id) => r.push(id),
                _ => {},
            }
            i += 1;
        }
        assert(handles@.take(handles@.len() as int) =~= handles@);
        r
    }

    /// The objects that a move would take.
    pub fn move_target_object_ids(&self) -> (r: Vec<ObjectId>)
        ensures
            r@ == move_targets(*self),
    {
        match self.moving.vertex_target {
            Some(t) => {
                let mut r: Vec<ObjectId> = Vec::new();
                r.push(t.0);
                assert(r@ =~= seq![t.0]);
                r
            },
            None => self.selected_object_ids(),
        }
    }

    /// Whether the tool has anything to move.
    pub fn has_move_targets(&self) -> (r: bool)
        ensures
            r == (if self.canvas.active_tool == ActiveTool::MoveCollar {
                targets_of(self.items.drill_holes@, self.selection.holes.order()).len() > 0
            } else {
                move_targets(*self).len() > 0
            }),
    {
        if self.canvas.active_tool == ActiveTool::MoveCollar {
            self.collar_targets().len() > 0
        } else {
            self.move_target_object_ids().len() > 0
        }
    }

    /// Whether the capture has to be taken anew.
    fn move_session_is_stale(&self, ids: &Vec<ObjectId>) -> (r: bool)
        ensures
            r == move_session_stale(self.workspace, self.moving.session, ids@),
    {
        match &self.moving.session {
            Some(session) => {
                let same_project = match self.active_runtime_id() {
                    Some(id) => id == session.project_runtime_id,
                    None => false,
                };
                if !same_project || session.originals.len() != ids.len() {
                    return true;
                }
                let mut k: usize = 0;
                while k < session.originals.len()
                    invariant
                        k <= session.originals.len(),
                        self.moving.session == Some(*session),
                        forall|j: int| 0 <= j < k ==> ids@.contains((#[trigger] session.originals@[j])@.id()),
                    decreases session.originals.len() - k,
                {
                    if !contains_key(ids, session.originals[k].id()) {
                        return true;
                    }
                    k += 1;
                }
                false
            },
            None => true,
        }
    }

    /// Captures what the tool would move, unless it is captured already.
    pub fn ensure_move_session_original(&mut self)
        ensures
            move_session_ensured(*old(self), *final(self)),
    {
        if self.canvas.active_tool == ActiveTool::MoveCollar {
            self.ensure_collar_session();
            return ;
        }
        self.restore_collar_session();
        let ids = self.move_target_object_ids();
        if ids.len() == 0 {
            self.moving.session = None;
            return ;
        }
        if !self.move_session_is_stale(&ids) {
            return ;
        }
        self.restore_move_session_original();
        let session = match self.workspace.active_project() {
            Some(project) => {
                let originals = copy_objects(&project.document, &ids);
                Some(MoveSession { project_runtime_id: project.runtime_id, originals })
            },
            None => None,
        };
        self.moving.session = session;
    }

    /// Shows the move: `shifted` tells where it takes the points of each captured
    /// object, `written` holds the captured holes where they would be.
    pub fn preview_move_delta(&mut self, shifted: &Vec<ShiftedPoints>, written: &Vec<HolePlacement>)
        requires
            old(self).moving.collars matches Some(s) ==> written@.len() == s.originals@.len(),
        ensures
            match (old(self).moving.collars, old(self).moving.session) {
                (Some(s), _) => {
                    &&& *final(self) == (App { items: final(self).items, frame: old(self).frame.topology(), ..*old(self) })
                    &&& final(self).items == (Items { drill_holes: final(self).items.drill_holes, ..old(self).items })
                    &&& collars_written(old(self).items.drill_holes@, final(self).items.drill_holes@, s.originals@, written@)
                },
                (None, Some(s)) => {
                    &&& *final(self) == (App { workspace: final(self).workspace, ..*old(self) })
                    &&& design_written(
                        old(self).workspace,
                        final(self).workspace,
                        s.project_runtime_id,
                        shown_objects(object_models(s.originals@), old(self).moving.vertex_target, shifted@),
                    )
                },
                (None, None) => *final(self) == *old(self),
            },
    {
        match self.moving.collars.take() {
            Some(session) => {
                self.write_collar_placements(&session.originals, written);
                self.moving.collars = Some(session);
            },
            None => match &self.moving.session {
                Some(session) => {
                    let id: u32 = session.project_runtime_id;
                    let moved = move_objects(&session.originals, self.moving.vertex_target, shifted);
                    self.write_design(id, &moved);
                },
                None => {},
            },
        }
    }

    /// How far the preview of a collar move stands from its capture.
    pub fn pending_collar_move_delta(&self) -> (r: Option<Shift>)
        ensures
            r == standing_shift(*self),
    {
        match &self.moving.collars {
            Some(session) => {
                if session.originals.len() == 0 {
                    return None;
                }
                match crate::collars::find_placement(&self.items, session.originals[0].target) {
                    Some(now) => Some(Shift::Between { from: session.originals[0].placement.collar, to: now.collar }),
                    None => None,
                }
            },
            None => None,
        }
    }

    /// Settles a collar move as one undo step.
    pub fn apply_collar_move_delta(&mut self, shift: Shift)
        ensures
            collar_move_applied(*old(self), shift, *final(self)),
    {
        self.ensure_collar_session();
        let ghost mid = *self;
        assert(collar_session_ensured(*old(self), mid));
        let session = match self.moving.collars.take() {
            Some(session) => session,
            None => {
                assert(collar_move_settled(mid, shift, *self));
                return ;
            },
        };
        let same_project = match self.active_runtime_id() {
            Some(id) => id == session.project_runtime_id,
            None => false,
        };
        self.put_back_collars(&session);
        if !same_project || session.originals.len() == 0 || shift.is_still() {
            self.reset_move_editor_state();
            self.invalidate_topology_bounds_and_redraw();
            assert(collar_move_settled(mid, shift, *self));
            return ;
        }
        let groups = group_by_dataset(&session.originals);
        let ghost models = group_models(groups@);
        let mut edits: Vec<Edit> = Vec::new();
        let mut g: usize = 0;
        while g < groups.len()
            invariant
                g <= groups.len(),
                models == group_models(groups@),
                edits@.len() == g,
                forall|k: int|
                    0 <= k < g ==> match #[trigger] edits@[k] {
                        Edit::MoveCollars { dataset, holes, shift: by } => dataset == models[k].dataset && holes@ == models[k].holes && by == shift,
                        _ => false,
                    },
            decreases groups.len() - g,
        {
            edits.push(Edit::MoveCollars { dataset: groups[g].dataset, holes: copy_group(&groups[g]), shift });
            g += 1;
        }
        self.hand_over(edits);
        self.reset_move_editor_state();
        self.invalidate_topology_bounds_and_redraw();
        self.invalidate_geometry();
        self.invalidate_overlay();
        assert(collar_move_settled(mid, shift, *self));
    }

    /// Settles a design move as one undo step, or writes it back where another
    /// project has become active.
    fn settle_move_session(&mut self, session: MoveSession)
        ensures
            move_session_settled(*old(self), session, *final(self)),
    {
        let same_project = match self.active_runtime_id() {
            Some(id) => id == session.project_runtime_id,
            None => false,
        };
        if !same_project {
            self.restore_move_session(session);
            self.reset_move_editor_state();
            return ;
        }
        let edits = match self.workspace.active_project() {
            Some(project) => changed_objects(&session.originals, &project.document),
            None => Vec::new(),
        };
        if edits.len() > 0 {
            self.record_applied_batch(edits);
            assert(self.steps@.drop_last() =~= old(self).steps@);
        }
        self.reset_move_editor_state();
        self.invalidate_geometry();
        self.invalidate_overlay();
    }

    /// Settles a move by `delta` as one undo step. `shifted` tells where it takes
    /// the points of each captured object.
    pub fn apply_move_delta(&mut self, delta: Point3, shifted: &Vec<ShiftedPoints>)
        ensures
            move_applied(*old(self), delta, shifted@, *final(self)),
    {
        if self.moving.collars.is_some() || self.canvas.active_tool == ActiveTool::MoveCollar {
            self.apply_collar_move_delta(Shift::By(delta));
            return ;
        }
        self.ensure_move_session_original();
        let ghost mid = *self;
        assert(design_session_ensured(*old(self), mid));
        let none: Vec<HolePlacement> = Vec::new();
        self.preview_move_delta(shifted, &none);
        let ghost shown = *self;
        assert(move_shown(mid, shifted@, shown));
        match self.moving.session.take() {
            Some(session) => {
                self.settle_move_session(session);
            },
            None => {},
        }
    }

    /// Settles whichever gesture stands as it stands. `after` tells of each
    /// captured hole where it would point once turned.
    pub fn commit_pending_move(&mut self, after: &Vec<Option<HoleOrientation>>)
        ensures
            pending_move_committed(*old(self), after@, *final(self)),
    {
        self.moving.drag = None;
        self.turning.drag = None;
        self.moving.drag_axis = None;
        self.moving.drag_plane = None;
        self.turning.drag_ring = None;
        assert(*self == handles_released(*old(self)));
        match self.turning.rotation {
            Some(rotation) => {
                self.apply_collar_rotation(rotation, after);
                return ;
            },
            None => {},
        }
        match self.pending_collar_move_delta() {
            Some(shift) => {
                self.apply_collar_move_delta(shift);
                return ;
            },
            None => {},
        }
        match self.moving.session.take() {
            Some(session) => self.settle_move_session(session),
            None => self.reset_move_editor_state(),
        }
    }

    /// Takes hold of an axis of the gizmo. `constraint` is how the pointer
    /// drives it.
    pub fn begin_gizmo_drag(&mut self, ready: bool, axis: u8, constraint: GizmoConstraint, cursor_px: ScreenPoint)
        ensures
            !ready || !can_move(*old(self)) ==> *final(self) == *old(self),
            ready && can_move(*old(self)) ==> gizmo_held(*old(self), Some(axis), None, constraint, cursor_px, *final(self)),
    {
        if !ready || !self.has_move_targets() {
            return ;
        }
        self.ensure_move_session_original();
        let ghost mid = *self;
        let start_delta = self.moving.panel_delta;
        self.moving.drag_axis = Some(axis);
        self.moving.drag_plane = None;
        self.moving.drag = Some(GizmoDrag { constraint, start_px: cursor_px, start_delta });
        assert(move_session_ensured(*old(self), mid));
    }

    /// Takes hold of a plane of the gizmo. `constraint` is how the pointer
    /// drives it, if the plane can be driven at all.
    pub fn begin_gizmo_plane_drag(&mut self, ready: bool, plane: u8, constraint: Option<GizmoConstraint>, cursor_px: ScreenPoint)
        ensures
            match constraint {
                Some(c) if ready && can_move(*old(self)) => gizmo_held(*old(self), None, Some(plane), c, cursor_px, *final(self)),
                _ => *final(self) == *old(self),
            },
    {
        if !ready || !self.has_move_targets() {
            return ;
        }
        match constraint {
            Some(constraint) => {
                self.ensure_move_session_original();
                let ghost mid = *self;
                let start_delta = self.moving.panel_delta;
                self.moving.drag_axis = None;
                self.moving.drag_plane = Some(plane);
                self.moving.drag = Some(GizmoDrag { constraint, start_px: cursor_px, start_delta });
                assert(move_session_ensured(*old(self), mid));
            },
            None => {},
        }
    }

    /// Follows the pointer: `delta` is where it drives the move to, if it does,
    /// and `shifted` and `written` tell what the capture becomes there.
    pub fn move_gizmo_to_cursor(&mut self, delta: Option<Point3>, shifted: &Vec<ShiftedPoints>, written: &Vec<HolePlacement>)
        requires
            old(self).moving.collars matches Some(s) ==> written@.len() == s.originals@.len(),
        ensures
            match delta {
                Some(d) if old(self).moving.drag is Some && old(self).canvas.cursor_px is Some => gizmo_followed(
                    *old(self),
                    d,
                    shifted@,
                    written@,
                    *final(self),
                ),
                _ => *final(self) == *old(self),
            },
    {
        if self.moving.drag.is_none() || self.canvas.cursor_px.is_none() {
            return ;
        }
        match delta {
            Some(delta) => {
                self.moving.panel_delta = delta;
                self.preview_move_delta(shifted, written);
                self.invalidate_geometry();
            },
            None => {},
        }
    }

    /// Lets go of the gizmo; the move stands as a preview.
    pub fn finish_gizmo_drag(&mut self)
        ensures
            *final(self) == (if old(self).moving.drag is Some {
                App { moving: old(self).moving.released(), frame: old(self).frame.geometry().overlay(), ..*old(self) }
            } else {
                *old(self)
            }),
    {
        if self.moving.drag.is_none() {
            return ;
        }
        self.moving.drag = None;
        self.moving.drag_axis = None;
        self.moving.drag_plane = None;
        self.invalidate_geometry();
        self.invalidate_overlay();
    }

    /// Puts a collar gesture down if it holds a hole of the dataset.
    pub fn cancel_collar_move_touching(&mut self, dataset: DrillHoleId)
        ensures
            if holds_dataset(*old(self), dataset) {
                move_cancelled(*old(self), *final(self))
            } else {
                *final(self) == *old(self)
            },
    {
        let touching = match &self.moving.collars {
            Some(session) => is_captured_from(&session.originals, dataset),
            None => false,
        };
        if touching {
            self.cancel_move_delta();
        }
    }
}

/// A collar gesture holds a hole of the dataset.
pub open spec fn holds_dataset(app: App, dataset: DrillHoleId) -> bool {
    match app.moving.collars {
        Some(s) => captured_from(s.originals@, dataset),
        None => false,
    }
}

/// The tool has anything to move.
pub open spec fn can_move(app: App) -> bool {
    if app.canvas.active_tool == ActiveTool::MoveCollar {
        targets_of(app.items.drill_holes@, app.selection.holes.order()).len() > 0
    } else {
        move_targets(app).len() > 0
    }
}

/// What taking hold of a handle does.
pub open spec fn gizmo_held(pre: App, axis: Option<u8>, plane: Option<u8>, constraint: GizmoConstraint, at: ScreenPoint, post: App) -> bool {
    exists|mid: App| #[trigger]
        move_session_ensured(pre, mid) && post == (App {
            moving: Moving {
                drag: Some(GizmoDrag { constraint, start_px: at, start_delta: mid.moving.panel_delta }),
                drag_axis: axis,
                drag_plane: plane,
                ..mid.moving
            },
            ..mid
        })
}

/// What following the pointer does.
pub open spec fn gizmo_followed(pre: App, delta: Point3, shifted: Seq<ShiftedPoints>, written: Seq<HolePlacement>, post: App) -> bool {
    let moving = Moving { panel_delta: delta, ..pre.moving };
    match (pre.moving.collars, pre.moving.session) {
        (Some(s), _) => {
            &&& post == (App { items: post.items, moving, frame: pre.frame.topology().geometry(), ..pre })
            &&& post.items == (Items { drill_holes: post.items.drill_holes, ..pre.items })
            &&& collars_written(pre.items.drill_holes@, post.items.drill_holes@, s.originals@, written)
        },
        (None, Some(s)) => {
            &&& post == (App { workspace: post.workspace, moving, frame: pre.frame.geometry(), ..pre })
            &&& design_written(
                pre.workspace,
                post.workspace,
                s.project_runtime_id,
                shown_objects(object_models(s.originals@), pre.moving.vertex_target, shifted),
            )
        },
        (None, None) => post == (App { moving, frame: pre.frame.geometry(), ..pre }),
    }
}

/// The capture of a design move is shown where it is moved to.
pub open spec fn move_shown(pre: App, shifted: Seq<ShiftedPoints>, post: App) -> bool {
    match pre.moving.session {
        Some(s) => post == (App { workspace: post.workspace, ..pre }) && design_written(
            pre.workspace,
            post.workspace,
            s.project_runtime_id,
            shown_objects(object_models(s.originals@), pre.moving.vertex_target, shifted),
        ),
        None => post == pre,
    }
}

/// What settling a move by a distance does.
pub open spec fn move_applied(pre: App, delta: Point3, shifted: Seq<ShiftedPoints>, post: App) -> bool {
    if pre.moving.collars is Some || pre.canvas.active_tool == ActiveTool::MoveCollar {
        collar_move_applied(pre, Shift::By(delta), post)
    } else {
        exists|mid: App, shown: App|
            {
                &&& #[trigger] design_session_ensured(pre, mid)
                &&& #[trigger] move_shown(mid, shifted, shown)
                &&& match shown.moving.session {
                    Some(session) => move_session_settled(App { moving: Moving { session: None, ..shown.moving }, ..shown }, session, post),
                    None => post == shown,
                }
            }
    }
}

/// The objects of the document with these ids, without those it lacks.
fn copy_objects(document: &Document, ids: &Vec<ObjectId>) -> (r: Vec<Object>)
    ensures
        object_models(r@) == captured_objects(*document, ids@),
{
    let mut r: Vec<Object> = Vec::new();
    let mut i: usize = 0;
    assert(ids@.take(0) =~= Seq::<ObjectId>::empty());
    assert(object_models(r@) =~= Seq::<ObjectModel>::empty());
    while i < ids.len()
        invariant
            i <= ids.len(),
            object_models(r@) == captured_objects(*document, ids@.take(i as int)),
        decreases ids.len() - i,
    {
        assert(ids@.take(i + 1).drop_last() =~= ids@.take(i as int));
        let ghost before = r@;
        match document.get_object(ids[i]) {
            Some(o) => {
                r.push(o.copy());
                assert(object_models(r@) =~= object_models(before).push(o@));
            },
            None => {},
        }
        i += 1;
    }
    assert(ids@.take(ids@.len() as int) =~= ids@);
    r
}

/// An edit for each captured object that the document now shows otherwise.
fn changed_objects(originals: &Vec<Object>, document: &Document) -> (r: Vec<Edit>)
    ensures
        replaces_pairs(r@, changes(object_models(originals@), *document)),
{
    let ghost models = object_models(originals@);
    let mut r: Vec<Edit> = Vec::new();
    let mut i: usize = 0;
    assert(models.take(0) =~= Seq::<ObjectModel>::empty());
    while i < originals.len()
        invariant
            i <= originals.len(),
            models == object_models(originals@),
            replaces_pairs(r@, changes(models.take(i as int), *document)),
        decreases originals.len() - i,
    {
        assert(models.take(i + 1).drop_last() =~= models.take(i as int));
        match document.get_object(originals[i].id()) {
            Some(now) => {
                if objects_differ(&originals[i], now) {
                    r.push(Edit::Replace { before: originals[i].copy(), after: now.copy() });
                }
            },
            None => {},
        }
        i += 1;
    }
    assert(models.take(originals@.len() as int) =~= models);
    r
}

/// Objects and holes are never moved at once: readying one kind of gesture puts
/// the other down.
pub proof fn law_one_gesture_at_a_time(pre: App, post: App)
    ensures
        design_session_ensured(pre, post) ==> post.moving.collars is None,
        collar_session_ensured(pre, post) ==> post.moving.session is None,
        move_session_ensured(pre, post) ==> post.moving.session is None || post.moving.collars is None,
{
}

/// Once what stands was committed, no captured object and no captured hole is
/// left: a later gesture begins from what the design then shows.
pub proof fn law_commit_ends_gesture(pre: App, after: Seq<Option<HoleOrientation>>, post: App)
    requires
        pending_move_committed(pre, after, post),
        pre.moving.session is None || pre.moving.collars is None,
        pre.moving.collars is Some ==> pre.turning.rotation is Some || standing_shift(pre) is Some,
    ensures
        post.moving.session is None,
        post.moving.collars is None,
{
}

} // verus!
