//! Releases on the viewport: marquees and clicks that were deferred, hovers of
//! the dialogs that wait for a pick, and drags of single objects.

use crate::canvas::{active_ids, handle_picked, in_reach, law_picks_stay_on_the_active_dataset, layer_name_of, marquee, mode_for, CursorPicks, SelectionMode};
use crate::document::{closed_ring, drill_pattern_boundary, is_closed_ring, is_drill_pattern_boundary, is_triangulation_polyline, object_models, replaced, triangulation_polyline, Document, Object, ObjectModel};
use crate::edit::Edit;
use crate::ids::{contains_key, lemma_filter_members, remove_key, without, HoleRef, IdSet, Key, ObjectId, SceneEntityId, TieRef, TriangulationId};
use crate::ieee::{f32_less, less32, Point3, ScreenPoint};
use crate::items::triangulation_index;
use crate::search::filter_copied;
use crate::state::{ActiveTool, App, Canvas, DrapePhase, Moving, ObjectDrag, Selection, WorkspaceKind};
use crate::text::{decimal, decimal_digits, join, same_optional_text, text_of};
use crate::workspace::{OpenProject, Workspace};
use vstd::prelude::*;
use vstd::string::*;

verus! {

/// What lies under a marquee: each list twice, once with everything that the
/// rectangle touches and once with what lies wholly inside it.
pub struct BoxHits {
    pub touching: Vec<SceneEntityId>,
    pub inside: Vec<SceneEntityId>,
    pub ties_touching: Vec<TieRef>,
    pub ties_inside: Vec<TieRef>,
    pub holes_touching: Vec<HoleRef>,
    pub holes_inside: Vec<HoleRef>,
}

/// What is left to do after a release.
#[derive(Clone, Copy, PartialEq, Eq, Structural, Debug)]
pub enum ReleaseAction {
    Done,
    DeleteAtCursor,
}

/// A marquee drawn to the right takes what it touches, one drawn to the left
/// what lies inside it.
pub open spec fn crossing(start: ScreenPoint, end: ScreenPoint) -> bool {
    f32_less(start.x, end.x)
}

/// The entities under the marquee.
pub open spec fn entity_hits(hits: BoxHits, cross: bool) -> Seq<SceneEntityId> {
    if cross {
        hits.touching@
    } else {
        hits.inside@
    }
}

/// The point objects of the active project among the entities.
pub open spec fn deletable_points(app: App, entities: Seq<SceneEntityId>) -> Seq<SceneEntityId> {
    entities.filter(|h: SceneEntityId| is_deletable_point(app, h))
}

/// The entity is a point object of the active project.
pub open spec fn is_deletable_point(app: App, handle: SceneEntityId) -> bool {
    match handle {
        SceneEntityId::Object(id) => active_ids(app.workspace).contains(id) && (app.scene.object(id) matches Some(o) && o is Point),
        _ => false,
    }
}

/// The entity may be taken by a marquee of the production workspace.
pub open spec fn marquee_takes(app: App, handle: SceneEntityId) -> bool {
    match handle {
        SceneEntityId::Object(id) => active_ids(app.workspace).contains(id),
        _ => app.canvas.active_tool != ActiveTool::Move,
    }
}

/// The entity is what the drape tool is being given.
pub open spec fn drape_takes(app: App, handle: SceneEntityId) -> bool {
    match (app.drape.phase, handle) {
        (DrapePhase::Designs, SceneEntityId::Object(id)) => active_ids(app.workspace).contains(id),
        (DrapePhase::Topologies, SceneEntityId::Triangulation(_)) => true,
        _ => false,
    }
}

/// The source lines of a triangulation once those under a marquee were added
/// in turn, with the handles selected.
pub open spec fn sources_added(scene: Document, ids: Seq<ObjectId>, entities: Seq<SceneEntityId>) -> Seq<ObjectId>
    decreases entities.len(),
{
    if entities.len() == 0 {
        ids
    } else {
        let before = sources_added(scene, ids, entities.drop_last());
        match entities.last() {
            SceneEntityId::Object(id) => if !before.contains(id) && (scene.object(id) matches Some(o) && triangulation_polyline(o)) {
                before.push(id)
            } else {
                before
            },
            _ => before,
        }
    }
}

/// The handles selected once the source lines under a marquee were added.
pub open spec fn source_handles(scene: Document, ids: Seq<ObjectId>, handles: Set<SceneEntityId>, entities: Seq<SceneEntityId>) -> Set<SceneEntityId>
    decreases entities.len(),
{
    if entities.len() == 0 {
        handles
    } else {
        let front = entities.drop_last();
        let before = source_handles(scene, ids, handles, front);
        if sources_added(scene, ids, entities).len() > sources_added(scene, ids, front).len() {
            before.insert(entities.last())
        } else {
            before
        }
    }
}

/// The selection with nothing in it.
pub open spec fn nothing_selected(s: Selection) -> bool {
    s.handles@ == Set::<SceneEntityId>::empty() && s.holes@ == Set::<HoleRef>::empty() && s.ties@ == Set::<TieRef>::empty()
}

/// The drill and blast marquee: tie-ins first, and holes where it takes none.
pub open spec fn blast_selected(pre: Selection, ties: Seq<TieRef>, holes: Seq<HoleRef>, shift: bool, control: bool, post: Selection) -> bool {
    let plain = !shift && !control;
    &&& post == (Selection { handles: post.handles, holes: post.holes, ties: post.ties, ..pre })
    &&& post.handles@ == if plain {
        Set::<SceneEntityId>::empty()
    } else {
        pre.handles@
    }
    &&& if ties.len() > 0 {
        &&& post.ties@ == marquee(pre.ties@, ties, shift, control)
        &&& post.holes@ == if plain {
            Set::<HoleRef>::empty()
        } else {
            pre.holes@
        }
    } else {
        &&& post.holes@ == marquee(pre.holes@, holes, shift, control)
        &&& post.ties@ == if plain {
            Set::<TieRef>::empty()
        } else {
            pre.ties@
        }
    }
}

/// The legs of a marquee that may be picked.
pub open spec fn ties_in_reach(app: App, hits: BoxHits, cross: bool) -> Seq<TieRef> {
    (if cross {
        hits.ties_touching@
    } else {
        hits.ties_inside@
    }).filter(|t: TieRef| in_reach(app, t.dataset))
}

/// The holes of a marquee that may be picked.
pub open spec fn holes_in_reach(app: App, hits: BoxHits, cross: bool) -> Seq<HoleRef> {
    (if cross {
        hits.holes_touching@
    } else {
        hits.holes_inside@
    }).filter(|h: HoleRef| in_reach(app, h.dataset))
}

/// A marquee in drill and blast takes legs and holes of the active dataset
/// alone.
pub proof fn law_marquee_stays_on_the_active_dataset(app: App, hits: BoxHits, cross: bool)
    requires
        app.canvas.workspace == WorkspaceKind::DrillAndBlast,
    ensures
        forall|t: TieRef| #[trigger] ties_in_reach(app, hits, cross).contains(t) ==> app.canvas.active_drill_hole == Some(t.dataset),
        forall|h: HoleRef| #[trigger] holes_in_reach(app, hits, cross).contains(h) ==> app.canvas.active_drill_hole == Some(h.dataset),
{
    let ties = if cross {
        hits.ties_touching@
    } else {
        hits.ties_inside@
    };
    let holes = if cross {
        hits.holes_touching@
    } else {
        hits.holes_inside@
    };
    lemma_filter_members(ties, |t: TieRef| in_reach(app, t.dataset));
    lemma_filter_members(holes, |h: HoleRef| in_reach(app, h.dataset));
    assert forall|t: TieRef| #[trigger] ties_in_reach(app, hits, cross).contains(t) implies app.canvas.active_drill_hole == Some(t.dataset) by {
        law_picks_stay_on_the_active_dataset(app, t.dataset);
    }
    assert forall|h: HoleRef| #[trigger] holes_in_reach(app, hits, cross).contains(h) implies app.canvas.active_drill_hole == Some(h.dataset) by {
        law_picks_stay_on_the_active_dataset(app, h.dataset);
    }
}

/// What a release of the drape tool selects.
pub open spec fn drape_selected(app: App, candidates: Seq<SceneEntityId>, dragged: bool) -> Set<SceneEntityId> {
    let selected = app.selection.handles@;
    let c = app.canvas;
    if candidates.len() == 0 {
        if c.shift || c.control {
            selected
        } else {
            Set::empty()
        }
    } else if !c.shift && !c.control && app.drape.phase == DrapePhase::Topologies && !dragged && candidates.len() == 1 && selected.contains(candidates[0]) {
        selected.remove(candidates[0])
    } else {
        marquee(selected, candidates, c.shift, c.control)
    }
}

/// What the drape tool is offered by a release.
pub open spec fn drape_candidates(app: App, hits: BoxHits, picks: CursorPicks, cross: bool, dragged: bool) -> Seq<SceneEntityId> {
    let offered = if dragged {
        entity_hits(hits, cross)
    } else {
        match (if app.drape.phase == DrapePhase::Designs {
            picks.design
        } else {
            picks.surface
        }) {
            Some((handle, _)) => seq![handle],
            None => Seq::empty(),
        }
    };
    offered.filter(|h: SceneEntityId| drape_takes(app, h))
}

/// Puts what a marquee takes into a set of selected keys.
fn apply_marquee<T: Key>(selected: &mut IdSet<T>, hits: &Vec<T>, shift: bool, control: bool)
    ensures
        final(selected)@ == marquee(old(selected)@, hits@, shift, control),
{
    if shift {
        selected.toggle_all(hits);
    } else {
        if !control {
            selected.clear();
        }
        selected.extend(hits);
        assert(!control ==> selected@ =~= hits@.to_set());
    }
}

impl Selection {
    fn clear_all(&mut self)
        ensures
            nothing_selected(*final(self)),
            *final(self) == (Selection { handles: final(self).handles, holes: final(self).holes, ties: final(self).ties, ..*old(self) }),
    {
        self.handles.clear();
        self.holes.clear();
        self.ties.clear();
    }

    /// The drill and blast marquee.
    fn select_blast(&mut self, ties: &Vec<TieRef>, holes: &Vec<HoleRef>, shift: bool, control: bool)
        ensures
            blast_selected(*old(self), ties@, holes@, shift, control, *final(self)),
    {
        if !shift && !control {
            self.clear_all();
        }
        if ties.len() > 0 {
            apply_marquee(&mut self.ties, ties, shift, control);
        } else {
            apply_marquee(&mut self.holes, holes, shift, control);
        }
    }
}

impl App {
    fn keep_ties(&self, ties: &Vec<TieRef>) -> (r: Vec<TieRef>)
        ensures
            r@ == ties@.filter(|t: TieRef| in_reach(*self, t.dataset)),
    {
        filter_copied(ties, Ghost(|t: TieRef| in_reach(*self, t.dataset)), |t: TieRef| -> (b: bool)
            ensures
                b == in_reach(*self, t.dataset),
            { self.is_in_reach(t.dataset) })
    }

    fn keep_holes(&self, holes: &Vec<HoleRef>) -> (r: Vec<HoleRef>)
        ensures
            r@ == holes@.filter(|h: HoleRef| in_reach(*self, h.dataset)),
    {
        filter_copied(holes, Ghost(|h: HoleRef| in_reach(*self, h.dataset)), |h: HoleRef| -> (b: bool)
            ensures
                b == in_reach(*self, h.dataset),
            { self.is_in_reach(h.dataset) })
    }

    /// The drill and blast marquee.
    pub fn finish_blast_box_selection(&mut self, hits: &BoxHits, cross_select: bool)
        ensures
            *final(self) == (App { selection: final(self).selection, frame: old(self).frame.geometry(), ..*old(self) }),
            blast_selected(
                old(self).selection,
                ties_in_reach(*old(self), *hits, cross_select),
                holes_in_reach(*old(self), *hits, cross_select),
                old(self).canvas.shift,
                old(self).canvas.control,
                final(self).selection,
            ),
    {
        let shift = self.canvas.shift;
        let control = self.canvas.control;
        let (ties, holes) = if cross_select {
            (self.keep_ties(&hits.ties_touching), self.keep_holes(&hits.holes_touching))
        } else {
            (self.keep_ties(&hits.ties_inside), self.keep_holes(&hits.holes_inside))
        };
        self.selection.select_blast(&ties, &holes, shift, control);
        self.invalidate_geometry();
    }

    /// A release of the drape tool.
    pub fn finish_drape_selection(&mut self, hits: &BoxHits, picks: CursorPicks, cross_select: bool, dragged: bool)
        ensures
            *final(self) == (App { selection: final(self).selection, frame: old(self).frame.geometry(), ..*old(self) }),
            final(self).selection == (Selection { handles: final(self).selection.handles, ..old(self).selection }),
            final(self).selection.handles@ == drape_selected(
                *old(self),
                drape_candidates(*old(self), *hits, picks, cross_select, dragged),
                dragged,
            ),
    {
        let ids = self.active_project_object_ids();
        let phase = self.drape.phase;
        let ghost takes = |h: SceneEntityId| drape_takes(*old(self), h);
        let test = |h: SceneEntityId| -> (b: bool)
            ensures
                b == takes(h),
            {
                match h {
                    SceneEntityId::Object(id) => phase == DrapePhase::Designs && ids.contains(id),
                    SceneEntityId::Triangulation(_) => phase == DrapePhase::Topologies,
                    _ => false,
                }
            };
        let candidates = if dragged {
            if cross_select {
                filter_copied(&hits.touching, Ghost(takes), test)
            } else {
                filter_copied(&hits.inside, Ghost(takes), test)
            }
        } else {
            let under = if phase == DrapePhase::Designs {
                picks.design
            } else {
                picks.surface
            };
            let mut offered: Vec<SceneEntityId> = Vec::new();
            match under {
                Some((handle, _)) => {
                    offered.push(handle);
                    assert(offered@ =~= seq![handle]);
                },
                None => {},
            }
            filter_copied(&offered, Ghost(takes), test)
        };
        self.select_draped(&candidates, dragged);
        self.invalidate_geometry();
    }

    fn select_draped(&mut self, candidates: &Vec<SceneEntityId>, dragged: bool)
        ensures
            *final(self) == (App { selection: final(self).selection, ..*old(self) }),
            final(self).selection == (Selection { handles: final(self).selection.handles, ..old(self).selection }),
            final(self).selection.handles@ == drape_selected(*old(self), candidates@, dragged),
    {
        let shift = self.canvas.shift;
        let control = self.canvas.control;
        if candidates.len() == 0 {
            if !shift && !control {
                self.selection.handles.clear();
            }
            return ;
        }
        if !shift && !control && self.drape.phase == DrapePhase::Topologies && !dragged && candidates.len() == 1 && self.selection.handles.contains(
            candidates[0],
        ) {
            self.selection.handles.remove(candidates[0]);
        } else {
            apply_marquee(&mut self.selection.handles, candidates, shift, control);
        }
    }

    /// Whether the object may be a source line of a triangulation.
    fn is_source_line(&self, id: ObjectId) -> (r: bool)
        ensures
            r == (self.scene.object(id) matches Some(o) && triangulation_polyline(o)),
    {
        match self.scene.get_object(id) {
            Some(o) => is_triangulation_polyline(o),
            None => false,
        }
    }

    /// Adds the source lines under a marquee.
    fn add_source_lines(&mut self, entities: &Vec<SceneEntityId>)
        ensures
            final(self).selection == (Selection {
                handles: final(self).selection.handles,
                tri_objects: final(self).selection.tri_objects,
                ..old(self).selection
            }),
            final(self).selection.tri_objects@ == sources_added(old(self).scene, old(self).selection.tri_objects@, entities@),
            final(self).selection.handles@ == source_handles(
                old(self).scene,
                old(self).selection.tri_objects@,
                old(self).selection.handles@,
                entities@,
            ),
            *final(self) == (App {
                selection: final(self).selection,
                frame: if final(self).selection.tri_objects@.len() > old(self).selection.tri_objects@.len() {
                    old(self).frame.geometry()
                } else {
                    old(self).frame
                },
                ..*old(self)
            }),
    {
        let ghost ids = self.selection.tri_objects@;
        let ghost scene = self.scene;
        let before: usize = self.selection.tri_objects.len();
        let mut i: usize = 0;
        assert(entities@.take(0) =~= Seq::<SceneEntityId>::empty());
        while i < entities.len()
            invariant
                i <= entities.len(),
                ids == old(self).selection.tri_objects@,
                scene == old(self).scene,
                before == ids.len(),
                self.selection.tri_objects@.len() >= before,
                *self == (App { selection: self.selection, ..*old(self) }),
                self.selection == (Selection {
                    handles: self.selection.handles,
                    tri_objects: self.selection.tri_objects,
                    ..old(self).selection
                }),
                self.selection.tri_objects@ == sources_added(scene, ids, entities@.take(i as int)),
                self.selection.handles@ == source_handles(scene, ids, old(self).selection.handles@, entities@.take(i as int)),
            decreases entities.len() - i,
        {
            assert(entities@.take(i + 1).drop_last() =~= entities@.take(i as int));
            match entities[i] {
                SceneEntityId::Object(id) => {
                    if !contains_key(&self.selection.tri_objects, id) && self.is_source_line(id) {
                        self.selection.tri_objects.push(id);
                        self.selection.handles.insert(SceneEntityId::Object(id));
                    }
                },
                _ => {},
            }
            i += 1;
        }
        assert(entities@.take(entities@.len() as int) =~= entities@);
        if self.selection.tri_objects.len() > before {
            self.invalidate_geometry();
        }
    }

    /// A click that picks or drops a source line of a triangulation.
    #[verifier::rlimit(40)]
    pub fn tri_pick_at_cursor(&mut self, under: Option<SceneEntityId>)
        ensures
            source_toggled(*old(self), under, *final(self)),
    {
        match under {
            Some(SceneEntityId::Object(id)) => {
                if contains_key(&self.selection.tri_objects, id) {
                    let kept = remove_key(&self.selection.tri_objects, id);
                    self.selection.tri_objects = kept;
                    self.selection.handles.remove(SceneEntityId::Object(id));
                } else if self.is_source_line(id) {
                    self.selection.tri_objects.push(id);
                    self.selection.handles.insert(SceneEntityId::Object(id));
                }
                self.invalidate_geometry();
            },
            _ => {},
        }
    }
}

/// What a click on a source line does: one that is listed leaves, one that is
/// not and may be one joins.
pub open spec fn source_toggled(pre: App, under: Option<SceneEntityId>, post: App) -> bool {
    match under {
        Some(SceneEntityId::Object(id)) => {
            &&& post == (App { selection: post.selection, frame: pre.frame.geometry(), ..pre })
            &&& post.selection == (Selection { handles: post.selection.handles, tri_objects: post.selection.tri_objects, ..pre.selection })
            &&& if pre.selection.tri_objects@.contains(id) {
                &&& post.selection.tri_objects@ == without(pre.selection.tri_objects@, id)
                &&& post.selection.handles@ == pre.selection.handles@.remove(SceneEntityId::Object(id))
            } else if pre.scene.object(id) matches Some(o) && triangulation_polyline(o) {
                &&& post.selection.tri_objects@ == pre.selection.tri_objects@.push(id)
                &&& post.selection.handles@ == pre.selection.handles@.insert(SceneEntityId::Object(id))
            } else {
                post.selection == pre.selection
            }
        },
        _ => post == pre,
    }
}

/// The canvas once a release has taken the marquee and the deferred click.
pub open spec fn box_taken(c: Canvas) -> Canvas {
    Canvas { box_start_px: None, box_current_px: None, pending_topology_click: None, ..c }
}

/// A release of the tool that deletes points, after a marquee.
pub open spec fn points_marked(pre: App, entities: Seq<SceneEntityId>, post: App) -> bool {
    let points = deletable_points(pre, entities);
    &&& post == (App {
        selection: post.selection,
        canvas: Canvas { delete_confirm_open: pre.canvas.delete_confirm_open || points.len() > 0, ..pre.canvas },
        frame: pre.frame.geometry(),
        ..pre
    })
    &&& post.selection == (Selection { handles: post.selection.handles, ..pre.selection })
    &&& post.selection.handles@ == points.to_set()
}

/// A short click on a surface that was pressed.
pub open spec fn surface_clicked(pre: App, handle: SceneEntityId, world: Point3, post: App) -> bool {
    let mode = mode_for(pre.canvas.shift, pre.canvas.control, pre.selection.handles@.contains(handle));
    &&& post == (App {
        selection: post.selection,
        canvas: Canvas {
            active_triangulation: match handle {
                SceneEntityId::Triangulation(id) if post.selection.handles@.contains(handle) => Some(id),
                _ => None,
            },
            ..pre.canvas
        },
        frame: pre.frame.geometry(),
        ..pre
    })
    &&& handle_picked(pre.selection, handle, world, mode, post.selection)
}

/// A short click on nothing: the selection goes, unless a modifier holds it.
pub open spec fn background_clicked(pre: App, post: App) -> bool {
    if pre.canvas.shift || pre.canvas.control {
        post == (App { frame: pre.frame.geometry(), ..pre })
    } else {
        &&& post == (App {
            selection: post.selection,
            canvas: Canvas { active_triangulation: None, ..pre.canvas },
            moving: if pre.canvas.active_tool == ActiveTool::Move {
                Moving { vertex_target: None, ..pre.moving }
            } else {
                pre.moving
            },
            frame: pre.frame.geometry(),
            ..pre
        })
        &&& nothing_selected(post.selection)
        &&& post.selection == (Selection { handles: post.selection.handles, holes: post.selection.holes, ties: post.selection.ties, ..pre.selection })
    }
}

/// A marquee of the production workspace.
pub open spec fn production_selected(pre: App, entities: Seq<SceneEntityId>, post: App) -> bool {
    &&& post == (App {
        selection: post.selection,
        moving: if pre.canvas.active_tool == ActiveTool::Move {
            Moving { vertex_target: None, ..pre.moving }
        } else {
            pre.moving
        },
        frame: pre.frame.geometry(),
        ..pre
    })
    &&& post.selection == (Selection { handles: post.selection.handles, ..pre.selection })
    &&& post.selection.handles@ == marquee(
        pre.selection.handles@,
        entities.filter(|h: SceneEntityId| marquee_takes(pre, h)),
        pre.canvas.shift,
        pre.canvas.control,
    )
}

/// What a release does with a marquee from `start` to `end`.
pub open spec fn box_released(
    before: App,
    start: ScreenPoint,
    end: ScreenPoint,
    dragged: bool,
    hits: BoxHits,
    picks: CursorPicks,
    under: Option<SceneEntityId>,
    r: ReleaseAction,
    post: App,
) -> bool {
    let pre = App { canvas: box_taken(before.canvas), ..before };
    let cross = crossing(start, end);
    let entities = entity_hits(hits, cross);
    let tool = pre.canvas.active_tool;
    &&& r == (if tool == ActiveTool::DeletePoints && !dragged {
        ReleaseAction::DeleteAtCursor
    } else {
        ReleaseAction::Done
    })
    &&& if tool == ActiveTool::DrapeToTopology {
        &&& post == (App { selection: post.selection, frame: pre.frame.geometry(), ..pre })
        &&& post.selection == (Selection { handles: post.selection.handles, ..pre.selection })
        &&& post.selection.handles@ == drape_selected(pre, drape_candidates(pre, hits, picks, cross, dragged), dragged)
    } else if tool == ActiveTool::DeletePoints {
        if dragged {
            points_marked(pre, entities, post)
        } else {
            post == pre
        }
    } else if pre.surfaces.create_open {
        if dragged {
            let ids = pre.selection.tri_objects@;
            &&& post.selection == (Selection { handles: post.selection.handles, tri_objects: post.selection.tri_objects, ..pre.selection })
            &&& post.selection.tri_objects@ == sources_added(pre.scene, ids, entities)
            &&& post.selection.handles@ == source_handles(pre.scene, ids, pre.selection.handles@, entities)
            &&& post == (App {
                selection: post.selection,
                frame: if post.selection.tri_objects@.len() > ids.len() {
                    pre.frame.geometry()
                } else {
                    pre.frame
                },
                ..pre
            })
        } else {
            source_toggled(pre, under, post)
        }
    } else if !dragged {
        match before.canvas.pending_topology_click {
            Some((handle, world)) => surface_clicked(pre, handle, world, post),
            None => background_clicked(pre, post),
        }
    } else if pre.canvas.workspace == WorkspaceKind::DrillAndBlast {
        &&& post == (App { selection: post.selection, frame: pre.frame.geometry(), ..pre })
        &&& blast_selected(
            pre.selection,
            ties_in_reach(pre, hits, cross),
            holes_in_reach(pre, hits, cross),
            pre.canvas.shift,
            pre.canvas.control,
            post.selection,
        )
    } else {
        production_selected(pre, entities, post)
    }
}

impl App {
    fn mark_points(&mut self, entities: &Vec<SceneEntityId>)
        ensures
            points_marked(*old(self), entities@, *final(self)),
    {
        let ids = self.active_project_object_ids();
        let ghost takes = |h: SceneEntityId| is_deletable_point(*old(self), h);
        let scene = &self.scene;
        let points = filter_copied(
            entities,
            Ghost(takes),
            |h: SceneEntityId| -> (b: bool)
                ensures
                    b == takes(h),
                {
                    match h {
                        SceneEntityId::Object(id) => ids.contains(id) && (match scene.get_object(id) {
                            Some(Object::Point { .. }) => true,
                            _ => false,
                        }),
                        _ => false,
                    }
                });
        let chosen = IdSet::from_vec(&points);
        self.selection.handles = chosen;
        self.invalidate_geometry();
        if points.len() > 0 {
            self.canvas.delete_confirm_open = true;
        }
    }

    fn click_surface(&mut self, handle: SceneEntityId, world: Point3)
        ensures
            surface_clicked(*old(self), handle, world, *final(self)),
    {
        let already = self.selection.handles.contains(handle);
        let mode = if self.canvas.shift {
            SelectionMode::Toggle
        } else if self.canvas.control {
            SelectionMode::Add
        } else if already {
            SelectionMode::Toggle
        } else {
            SelectionMode::Replace
        };
        self.on_canvas_pick(handle, world, mode);
        self.canvas.active_triangulation = match handle {
            SceneEntityId::Triangulation(id) => {
                if self.selection.handles.contains(handle) {
                    Some(id)
                } else {
                    None
                }
            },
            _ => None,
        };
        self.invalidate_geometry();
    }

    fn click_background(&mut self)
        ensures
            background_clicked(*old(self), *final(self)),
    {
        if !self.canvas.shift && !self.canvas.control {
            self.selection.clear_all();
            self.canvas.active_triangulation = None;
            if self.canvas.active_tool == ActiveTool::Move {
                self.moving.vertex_target = None;
            }
        }
        self.invalidate_geometry();
    }

    fn select_production(&mut self, entities: &Vec<SceneEntityId>)
        ensures
            production_selected(*old(self), entities@, *final(self)),
    {
        let ids = self.active_project_object_ids();
        let objects_only = self.canvas.active_tool == ActiveTool::Move;
        let ghost takes = |h: SceneEntityId| marquee_takes(*old(self), h);
        let enclosed = filter_copied(
            entities,
            Ghost(takes),
            |h: SceneEntityId| -> (b: bool)
                ensures
                    b == takes(h),
                {
                    match h {
                        SceneEntityId::Object(id) => ids.contains(id),
                        _ => !objects_only,
                    }
                });
        let shift = self.canvas.shift;
        let control = self.canvas.control;
        apply_marquee(&mut self.selection.handles, &enclosed, shift, control);
        if self.canvas.active_tool == ActiveTool::Move {
            self.moving.vertex_target = None;
        }
        self.invalidate_geometry();
    }

    /// A release of the primary button. `dragged` tells whether the pointer has
    /// left the press far enough behind for a marquee; `under` is what a click
    /// for a source line lands on.
    pub fn finish_box_selection(&mut self, dragged: bool, hits: &BoxHits, picks: CursorPicks, under: Option<SceneEntityId>) -> (r: ReleaseAction)
        ensures
            match (old(self).canvas.box_start_px, old(self).canvas.box_current_px) {
                (Some(start), Some(end)) => box_released(*old(self), start, end, dragged, *hits, picks, under, r, *final(self)),
                _ => r == ReleaseAction::Done && *final(self) == (App { canvas: box_taken(old(self).canvas), ..*old(self) }),
            },
    {
        let start = self.canvas.box_start_px.take();
        let end = self.canvas.box_current_px.take();
        let pending = self.canvas.pending_topology_click.take();
        assert(*self == (App { canvas: box_taken(old(self).canvas), ..*old(self) }));
        match (start, end) {
            (Some(start), Some(end)) => {
                let cross = less32(start.x, end.x);
                self.release_box(cross, dragged, hits, picks, under, pending)
            },
            _ => ReleaseAction::Done,
        }
    }

    fn release_box(
        &mut self,
        cross: bool,
        dragged: bool,
        hits: &BoxHits,
        picks: CursorPicks,
        under: Option<SceneEntityId>,
        pending: Option<(SceneEntityId, Point3)>,
    ) -> (r: ReleaseAction)
        requires
            old(self).canvas == box_taken(old(self).canvas),
        ensures
            forall|before: App, start: ScreenPoint, end: ScreenPoint|
                #![trigger box_released(before, start, end, dragged, *hits, picks, under, r, *final(self))]
                *old(self) == (App { canvas: box_taken(before.canvas), ..before }) && before.canvas.pending_topology_click == pending && crossing(
                    start,
                    end,
                ) == cross ==> box_released(before, start, end, dragged, *hits, picks, under, r, *final(self)),
    {
        if self.canvas.active_tool == ActiveTool::DrapeToTopology {
            self.finish_drape_selection(hits, picks, cross, dragged);
            return ReleaseAction::Done;
        }
        if self.canvas.active_tool == ActiveTool::DeletePoints {
            if !dragged {
                return ReleaseAction::DeleteAtCursor;
            }
            if cross {
                self.mark_points(&hits.touching);
            } else {
                self.mark_points(&hits.inside);
            }
            return ReleaseAction::Done;
        }
        if self.surfaces.create_open {
            if !dragged {
                self.tri_pick_at_cursor(under);
            } else if cross {
                self.add_source_lines(&hits.touching);
            } else {
                self.add_source_lines(&hits.inside);
            }
            return ReleaseAction::Done;
        }
        if !dragged {
            match pending {
                Some((handle, world)) => self.click_surface(handle, world),
                None => self.click_background(),
            }
            return ReleaseAction::Done;
        }
        if self.canvas.workspace == WorkspaceKind::DrillAndBlast {
            self.finish_blast_box_selection(hits, cross);
        } else if cross {
            self.select_production(&hits.touching);
        } else {
            self.select_production(&hits.inside);
        }
        ReleaseAction::Done
    }
}

/// The text shown over something that cannot be picked.
pub open spec fn not_selectable() -> Seq<char> {
    "Not selectable | Choose a closed polyline"@
}

/// The surface under the pointer.
pub open spec fn surface_under(under: Option<SceneEntityId>) -> Option<TriangulationId> {
    match under {
        Some(SceneEntityId::Triangulation(id)) => Some(id),
        _ => None,
    }
}

/// The handles of the surface, if there is one.
pub open spec fn surface_handles(id: Option<TriangulationId>) -> Set<SceneEntityId> {
    match id {
        Some(t) => Set::<SceneEntityId>::empty().insert(SceneEntityId::Triangulation(t)),
        None => Set::<SceneEntityId>::empty(),
    }
}

/// What is shown over a surface that a dialog waits for.
pub open spec fn surface_hover_label(app: App, under: Option<TriangulationId>) -> Option<Seq<char>> {
    match under {
        Some(id) => {
            let i = triangulation_index(app.items.triangulations@, id);
            if i < app.items.triangulations@.len() {
                Some("Surface | "@ + app.items.triangulations@[i].name@)
            } else {
                None
            }
        },
        None => None,
    }
}

/// The ring under the pointer, if a dialog may take it.
pub open spec fn ring_under(app: App, under: Option<SceneEntityId>) -> Option<(ObjectId, ObjectModel)> {
    match under {
        Some(SceneEntityId::Object(id)) => match app.scene.object(id) {
            Some(o) if o is Polyline && (if app.pattern.awaiting_shape_pick {
                active_ids(app.workspace).contains(id) && drill_pattern_boundary(o)
            } else {
                closed_ring(o)
            }) => Some((id, o)),
            _ => None,
        },
        _ => None,
    }
}

/// What is shown over a ring: its layer and how many vertices it has.
pub open spec fn ring_label(app: App, o: ObjectModel) -> Seq<char> {
    "Polyline | Layer: "@ + layer_name_of(app.scene, o, "?"@) + " | "@ + decimal_digits(o->Polyline_verts.len()) + " vertices"@
}

/// The text that a hover shows.
pub open spec fn ring_hover_label(app: App, under: Option<SceneEntityId>) -> Option<Seq<char>> {
    match ring_under(app, under) {
        Some((_, o)) => Some(ring_label(app, o)),
        None => if under is Some {
            Some(not_selectable())
        } else {
            None
        },
    }
}

/// What a hover does while a dialog waits for a pick. The geometry is rebuilt
/// only where what is shown changes.
pub open spec fn hovered(pre: App, surface: Option<SceneEntityId>, design: Option<SceneEntityId>, post: App) -> bool {
    if pre.surfaces.pick_target is Some {
        let id = surface_under(surface);
        let handles = surface_handles(id);
        let label = surface_hover_label(pre, id);
        if pre.canvas.hover_handles@ == handles && text_of(pre.canvas.hover_label) == label {
            post == pre
        } else {
            &&& post == (App { canvas: post.canvas, frame: pre.frame.geometry(), ..pre })
            &&& post.canvas == (Canvas { hover_handles: post.canvas.hover_handles, hover_label: post.canvas.hover_label, ..pre.canvas })
            &&& post.canvas.hover_handles@ == handles
            &&& text_of(post.canvas.hover_label) == label
        }
    } else if !pre.surfaces.clip_ring.awaiting_pick && !pre.pattern.awaiting_shape_pick {
        post == pre
    } else {
        let highlight = match ring_under(pre, design) {
            Some((id, _)) => Some(id),
            None => None,
        };
        let label = ring_hover_label(pre, design);
        if pre.canvas.highlight == highlight && text_of(pre.canvas.hover_label) == label {
            post == pre
        } else {
            &&& post == (App { canvas: post.canvas, frame: pre.frame.geometry(), ..pre })
            &&& post.canvas == (Canvas { highlight, hover_label: post.canvas.hover_label, ..pre.canvas })
            &&& text_of(post.canvas.hover_label) == label
        }
    }
}

/// Whether both are the same object, or neither is one.
fn same_object_id(a: Option<ObjectId>, b: Option<ObjectId>) -> (r: bool)
    ensures
        r == (a == b),
{
    match (a, b) {
        (Some(x), Some(y)) => x == y,
        (None, None) => true,
        _ => false,
    }
}

impl Canvas {
    /// Shows these handles and this text; tells whether either is new.
    fn show_handles(&mut self, handles: IdSet<SceneEntityId>, label: Option<String>) -> (r: bool)
        ensures
            r == (old(self).hover_handles@ != handles@ || text_of(old(self).hover_label) != text_of(label)),
            *final(self) == (if r {
                Canvas { hover_handles: handles, hover_label: label, ..*old(self) }
            } else {
                *old(self)
            }),
    {
        if !self.hover_handles.same_keys(&handles) || !same_optional_text(&self.hover_label, &label) {
            self.hover_handles = handles;
            self.hover_label = label;
            true
        } else {
            false
        }
    }

    /// Shows this object and this text; tells whether either is new.
    fn show_highlight(&mut self, highlight: Option<ObjectId>, label: Option<String>) -> (r: bool)
        ensures
            r == (old(self).highlight != highlight || text_of(old(self).hover_label) != text_of(label)),
            *final(self) == (if r {
                Canvas { highlight, hover_label: label, ..*old(self) }
            } else {
                *old(self)
            }),
    {
        if !same_object_id(self.highlight, highlight) || !same_optional_text(&self.hover_label, &label) {
            self.highlight = highlight;
            self.hover_label = label;
            true
        } else {
            false
        }
    }

    /// The object being dragged has come to a point.
    fn drag_moved(&mut self, world: Point3)
        ensures
            *final(self) == (Canvas {
                drag: match old(self).drag {
                    Some(drag) => Some(ObjectDrag { last_world: world, moved: true, ..drag }),
                    None => None,
                },
                ..*old(self)
            }),
    {
        match self.drag.take() {
            Some(drag) => {
                self.drag = Some(ObjectDrag { last_world: world, moved: true, ..drag });
            },
            None => {},
        }
    }
}

impl Workspace {
    /// Puts the object in the place of the one with its id in the active project.
    fn replace_in_active(&mut self, object: Object)
        ensures
            active_replaced(*old(self), object@, *final(self)),
    {
        match self.active_index {
            Some(i) => {
                if self.projects.len() > i {
                    self.projects[i].document.replace_object(object);
                    assert(self.projects@ =~= old(self).projects@.update(i as int, self.projects@[i as int]));
                }
            },
            None => {},
        }
    }
}

/// The workspace before and after an object of the active project was replaced.
pub open spec fn active_replaced(pre: Workspace, object: ObjectModel, post: Workspace) -> bool {
    match pre.active() {
        Some(a) => {
            let i = pre.active_index->0 as int;
            let b = post.projects@[i];
            &&& post == (Workspace { projects: post.projects, ..pre })
            &&& post.projects@ == pre.projects@.update(i, b)
            &&& b == (OpenProject { document: b.document, ..a })
            &&& b.document == (Document { objects: b.document.objects, ..a.document })
            &&& object_models(b.document.objects@) == replaced(object_models(a.document.objects@), object)
        },
        None => post == pre,
    }
}

impl App {
    fn ring_below(&self, under: Option<SceneEntityId>) -> (r: (Option<ObjectId>, Option<String>))
        ensures
            r.0 == (match ring_under(*self, under) {
                Some((id, _)) => Some(id),
                None => None,
            }),
            text_of(r.1) == ring_hover_label(*self, under),
    {
        match under {
            Some(SceneEntityId::Object(id)) => {
                match self.scene.get_object(id) {
                    Some(object) => {
                        let fits = match object {
                            Object::Polyline { .. } => {
                                if self.pattern.awaiting_shape_pick {
                                    self.active_project_object_ids().contains(id) && is_drill_pattern_boundary(object)
                                } else {
                                    is_closed_ring(object)
                                }
                            },
                            _ => false,
                        };
                        if fits {
                            let layer = match self.scene.layer(object.layer()) {
                                Some(layer) => layer.name.clone(),
                                None => "?".to_owned(),
                            };
                            let count: usize = match object {
                                Object::Polyline { verts, .. } => verts.len(),
                                _ => 0,
                            };
                            let mut label = join("Polyline | Layer: ", layer.as_str());
                            label.append(" | ");
                            label.append(decimal(count as u128).as_str());
                            label.append(" vertices");
                            return (Some(id), Some(label));
                        }
                    },
                    None => {},
                }
                (None, Some("Not selectable | Choose a closed polyline".to_owned()))
            },
            Some(_) => (None, Some("Not selectable | Choose a closed polyline".to_owned())),
            None => (None, None),
        }
    }

    /// The surface under the pointer, and what is shown over it.
    fn surface_below(&self, under: Option<SceneEntityId>) -> (r: (IdSet<SceneEntityId>, Option<String>))
        ensures
            r.0@ == surface_handles(surface_under(under)),
            text_of(r.1) == surface_hover_label(*self, surface_under(under)),
    {
        let mut handles: IdSet<SceneEntityId> = IdSet::new();
        match under {
            Some(SceneEntityId::Triangulation(id)) => {
                handles.insert(SceneEntityId::Triangulation(id));
                match self.items.find_triangulation(id) {
                    Some(i) => (handles, Some(join("Surface | ", self.items.triangulations[i].name.as_str()))),
                    None => (handles, None),
                }
            },
            _ => (handles, None),
        }
    }

    /// A move of the pointer while a dialog waits for a pick.
    pub fn update_viewport_field_pick_hover(&mut self, surface: Option<SceneEntityId>, design: Option<SceneEntityId>)
        ensures
            hovered(*old(self), surface, design, *final(self)),
    {
        if self.surfaces.pick_target.is_some() {
            let (handles, label) = self.surface_below(surface);
            if self.canvas.show_handles(handles, label) {
                self.invalidate_geometry();
            }
            return ;
        }
        if !self.surfaces.clip_ring.awaiting_pick && !self.pattern.awaiting_shape_pick {
            return ;
        }
        let (highlight, label) = self.ring_below(design);
        if self.canvas.show_highlight(highlight, label) {
            self.invalidate_geometry();
        }
    }

    /// Follows the pointer with the object being dragged. `world` is where the
    /// pointer is on the object's plane; `moved` is the object there, if the
    /// pointer has moved at all.
    pub fn drag_to_cursor(&mut self, world: Option<Point3>, moved: Option<Object>)
        ensures
            match (old(self).canvas.drag, world, moved) {
                (Some(drag), Some(w), Some(o)) => dragged_to(*old(self), drag, w, o@, *final(self)),
                _ => *final(self) == *old(self),
            },
    {
        if self.canvas.drag.is_none() {
            return ;
        }
        match (world, moved) {
            (Some(w), Some(object)) => {
                self.workspace.replace_in_active(object);
                self.canvas.drag_moved(w);
                self.invalidate_geometry();
            },
            _ => {},
        }
    }

    /// Lets go of the object being dragged; where it moved, the history is told.
    pub fn finish_drag(&mut self)
        ensures
            drag_finished(*old(self), *final(self)),
    {
        match self.canvas.drag.take() {
            Some(drag) => {
                if drag.moved {
                    let after = match self.workspace.active_project() {
                        Some(project) => match project.document.get_object(drag.object_id) {
                            Some(o) => Some(o.copy()),
                            None => None,
                        },
                        None => None,
                    };
                    match after {
                        Some(after) => self.record_applied_edit(Edit::Replace { before: drag.before, after }),
                        None => {},
                    }
                }
            },
            None => {},
        }
    }
}

/// What dragging an object to a point does.
pub open spec fn dragged_to(pre: App, drag: ObjectDrag, world: Point3, moved: ObjectModel, post: App) -> bool {
    &&& post == (App {
        workspace: post.workspace,
        canvas: Canvas { drag: Some(ObjectDrag { last_world: world, moved: true, ..drag }), ..pre.canvas },
        frame: pre.frame.geometry(),
        ..pre
    })
    &&& active_replaced(pre.workspace, moved, post.workspace)
}

/// What letting go of an object does.
pub open spec fn drag_finished(pre: App, post: App) -> bool {
    let let_go = App { canvas: Canvas { drag: None, ..pre.canvas }, ..pre };
    let now = match (pre.canvas.drag, pre.workspace.active()) {
        (Some(drag), Some(p)) => if drag.moved {
            p.document.object(drag.object_id)
        } else {
            None
        },
        _ => None,
    };
    match now {
        Some(after) => {
            &&& post == (App { steps: post.steps, ..let_go })
            &&& post.steps@.len() == pre.steps@.len() + 1
            &&& post.steps@.drop_last() == pre.steps@
            &&& post.steps@.last().applied && !post.steps@.last().batch && post.steps@.last().project is None
            &&& post.steps@.last().edits@.len() == 1
            &&& post.steps@.last().edits@[0].replaces(pre.canvas.drag->0.before@, after)
        },
        None => post == let_go,
    }
}

} // verus!
