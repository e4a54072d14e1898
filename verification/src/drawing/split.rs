//! Splitting a polyline in two at its vertices.

use crate::document::{Document, FillStyle, Object, ObjectModel, PolyVertex, Rgba};
use crate::edit::{Edit, Step};
use crate::ids::{LayerId, ObjectId, SceneEntityId};
use crate::state::{activated, ActiveTool, App, Canvas, Selection, Split};
use crate::search::{lemma_first_index, nearest_found, nearest_within};
use crate::workspace::{holds_object, index_of_object, object_ids_left, OpenProject, Workspace};
use vstd::prelude::*;

verus! {

/// The vertices with the edge that leaves the last of them straight.
pub open spec fn straight_end(verts: Seq<PolyVertex>) -> Seq<PolyVertex> {
    if verts.len() == 0 {
        verts
    } else {
        verts.update(verts.len() - 1, verts.last().straightened())
    }
}

/// The vertices of a ring from one to another, both of them included.
pub open spec fn ring_between(verts: Seq<PolyVertex>, start: int, end: int) -> Seq<PolyVertex> {
    if start <= end {
        verts.subrange(start, end + 1)
    } else {
        verts.skip(start) + verts.take(end + 1)
    }
}

/// An open line split at a vertex between its ends.
pub open spec fn open_pieces(verts: Seq<PolyVertex>, at: int) -> Option<(Seq<PolyVertex>, Seq<PolyVertex>)> {
    if verts.len() < 3 || at <= 0 || at + 1 >= verts.len() {
        None
    } else {
        Some((straight_end(verts.take(at + 1)), verts.skip(at)))
    }
}

/// A ring split at two vertices that are not next to each other.
pub open spec fn closed_pieces(verts: Seq<PolyVertex>, first: int, second: int) -> Option<(Seq<PolyVertex>, Seq<PolyVertex>)> {
    if first == second || first >= verts.len() || second >= verts.len() || verts.len() < 4 {
        None
    } else {
        let a = ring_between(verts, first, second);
        let b = ring_between(verts, second, first);
        if a.len() < 3 || b.len() < 3 {
            None
        } else {
            Some((straight_end(a), straight_end(b)))
        }
    }
}

/// The two pieces of an open line share the split vertex and together are the
/// line; only the bend at the end of the first piece is lost.
pub proof fn law_open_pieces(verts: Seq<PolyVertex>, at: int)
    requires
        open_pieces(verts, at) is Some,
    ensures
        ({
            let (a, b) = open_pieces(verts, at)->0;
            &&& a.drop_last() + b == verts
            &&& a.last() == b[0].straightened()
            &&& a.len() >= 2 && b.len() >= 2
        }),
{
    let (a, b) = open_pieces(verts, at)->0;
    assert(a.drop_last() + b =~= verts);
}

/// The two pieces of a ring go once round it: each ends where the other
/// begins, and without their last vertices they are the ring, read from the
/// first vertex on.
pub proof fn law_closed_pieces(verts: Seq<PolyVertex>, first: int, second: int)
    requires
        0 <= first,
        0 <= second,
        closed_pieces(verts, first, second) is Some,
    ensures
        ({
            let (a, b) = closed_pieces(verts, first, second)->0;
            &&& a.drop_last() + b.drop_last() == verts.skip(first) + verts.take(first)
            &&& a.last() == b[0].straightened()
            &&& b.last() == a[0].straightened()
            &&& a.len() + b.len() == verts.len() + 2
            &&& a.len() >= 3 && b.len() >= 3
        }),
{
    let (a, b) = closed_pieces(verts, first, second)->0;
    let whole = verts.skip(first) + verts.take(first);
    assert(a.drop_last() + b.drop_last() =~= whole);
}

/// A ring splits exactly where neither way round from one vertex to the other
/// is a single edge.
pub proof fn law_closed_split_possible(verts: Seq<PolyVertex>, first: int, second: int)
    requires
        0 <= first < verts.len(),
        0 <= second < verts.len(),
        verts.len() >= 4,
    ensures
        closed_pieces(verts, first, second) is Some <==> {
            let d = if first <= second {
                second - first
            } else {
                first - second
            };
            2 <= d <= verts.len() - 2
        },
{
}

/// The vertices from one index to another.
fn copy_range(verts: &Vec<PolyVertex>, from: usize, to: usize) -> (r: Vec<PolyVertex>)
    requires
        from <= to <= verts@.len(),
    ensures
        r@ == verts@.subrange(from as int, to as int),
{
    let mut r: Vec<PolyVertex> = Vec::new();
    let mut i: usize = from;
    while i < to
        invariant
            from <= i <= to <= verts@.len(),
            r@ == verts@.subrange(from as int, i as int),
        decreases to - i,
    {
        r.push(verts[i]);
        assert(r@ =~= verts@.subrange(from as int, i + 1));
        i += 1;
    }
    r
}

/// An open line split at a vertex between its ends.
pub fn split_open_line(verts: &Vec<PolyVertex>, split_index: usize) -> (r: Option<(Vec<PolyVertex>, Vec<PolyVertex>)>)
    ensures
        match r {
            Some((a, b)) => open_pieces(verts@, split_index as int) == Some((a@, b@)),
            None => open_pieces(verts@, split_index as int) is None,
        },
{
    let n: usize = verts.len();
    if n < 3 || split_index == 0 || split_index >= n - 1 {
        return None;
    }
    let first = with_straight_closing_edge(copy_range(verts, 0, split_index + 1));
    let second = copy_range(verts, split_index, n);
    assert(verts@.subrange(0, split_index + 1) =~= verts@.take(split_index + 1));
    assert(verts@.subrange(split_index as int, n as int) =~= verts@.skip(split_index as int));
    Some((first, second))
}

/// The vertices of a ring from one to another, both of them included.
pub fn ring_slice(verts: &Vec<PolyVertex>, start: usize, end: usize) -> (r: Vec<PolyVertex>)
    requires
        start < verts@.len(),
        end < verts@.len(),
    ensures
        r@ == ring_between(verts@, start as int, end as int),
{
    let n: usize = verts.len();
    let mut out: Vec<PolyVertex> = Vec::new();
    let mut index: usize = start;
    let mut wrapped = false;
    loop
        invariant_except_break
            !wrapped ==> start <= index && out@ == verts@.subrange(start as int, index as int),
            !wrapped && start <= end ==> index <= end,
            wrapped ==> end < start && index <= end && out@ == verts@.skip(start as int) + verts@.take(index as int),
        invariant
            n == verts@.len(),
            start < n,
            end < n,
            index < n,
        ensures
            out@ == ring_between(verts@, start as int, end as int),
        decreases (if wrapped {
            end - index
        } else {
            n + n - index
        }),
    {
        out.push(verts[index]);
        proof {
            if wrapped {
                assert(out@ =~= verts@.skip(start as int) + verts@.take(index + 1));
            } else {
                assert(out@ =~= verts@.subrange(start as int, index + 1));
            }
        }
        if index == end {
            break;
        }
        if index == n - 1 {
            assert(out@ =~= verts@.skip(start as int) + verts@.take(0));
            index = 0;
            wrapped = true;
        } else {
            index += 1;
        }
    }
    out
}

/// The vertices with the edge that leaves the last of them straight.
pub fn with_straight_closing_edge(verts: Vec<PolyVertex>) -> (r: Vec<PolyVertex>)
    ensures
        r@ == straight_end(verts@),
{
    let mut r = verts;
    let n: usize = r.len();
    if n > 0 {
        let last = r[n - 1];
        r.set(n - 1, PolyVertex { pos: last.pos, bulge: 0 });
    }
    r
}

/// A ring split at two vertices that are not next to each other.
pub fn split_closed_ring(verts: &Vec<PolyVertex>, first: usize, second: usize) -> (r: Option<(Vec<PolyVertex>, Vec<PolyVertex>)>)
    ensures
        match r {
            Some((a, b)) => closed_pieces(verts@, first as int, second as int) == Some((a@, b@)),
            None => closed_pieces(verts@, first as int, second as int) is None,
        },
{
    if first == second || first >= verts.len() || second >= verts.len() || verts.len() < 4 {
        return None;
    }
    let first_ring = ring_slice(verts, first, second);
    let second_ring = ring_slice(verts, second, first);
    if first_ring.len() < 3 || second_ring.len() < 3 {
        return None;
    }
    Some((with_straight_closing_edge(first_ring), with_straight_closing_edge(second_ring)))
}

/// The object can be split: a ring of four vertices or more, or an open line
/// of three or more.
pub open spec fn splittable(o: ObjectModel) -> bool {
    match o {
        ObjectModel::Polyline { verts, closed, .. } => verts.len() >= if closed { 4int } else { 3 },
        _ => false,
    }
}

/// The scene has the object, and it can be split.
pub open spec fn valid_split(app: App, id: ObjectId) -> bool {
    match app.scene.object(id) {
        Some(o) => splittable(o),
        None => false,
    }
}

impl Split {
    /// Nothing is being split.
    pub open spec fn cleared(self, post: Split) -> bool {
        post.poly is None && post.first is None && post.second is None && post.verts_px@.len() == 0
    }
}

/// The pieces of the polyline at the chosen vertices; none where a ring still
/// wants its second vertex.
pub open spec fn chosen_pieces(verts: Seq<PolyVertex>, closed: bool, first: int, second: Option<usize>) -> Option<Option<(Seq<PolyVertex>, Seq<PolyVertex>)>> {
    if closed {
        match second {
            Some(s) => Some(closed_pieces(verts, first, s as int)),
            None => None,
        }
    } else {
        Some(open_pieces(verts, first))
    }
}

/// The step takes the polyline away and adds its two pieces, open.
pub open spec fn splits(step: Step, source: ObjectModel, next_id: int, a: Seq<PolyVertex>, b: Seq<PolyVertex>) -> bool {
    match source {
        ObjectModel::Polyline { layer, color, fill, line_weight, .. } => {
            &&& step.batch && !step.applied && step.project is None
            &&& step.edits@.len() == 3
            &&& step.edits@[0].deletes(source)
            &&& step.edits@[1].adds(
                ObjectModel::Polyline { id: ObjectId(next_id as u64), layer, verts: a, closed: false, color, fill, line_weight },
            )
            &&& step.edits@[2].adds(
                ObjectModel::Polyline { id: ObjectId((next_id + 1) as u64), layer, verts: b, closed: false, color, fill, line_weight },
            )
        },
        _ => false,
    }
}

/// The workspace with the project at an index active and two of its object ids
/// taken.
pub open spec fn two_ids_taken(pre: Workspace, i: int, post: Workspace) -> bool {
    let a = pre.projects@[i];
    let b = post.projects@[i];
    &&& post == (Workspace { active_index: Some(i as usize), projects: post.projects, ..pre })
    &&& post.projects@ == pre.projects@.update(i, b)
    &&& b == (OpenProject {
        document: Document { next_object_id: (a.document.next_object_id + 2) as u64, ..a.document },
        ..a
    })
}

/// What splitting at the chosen vertices does.
pub open spec fn split_committed(pre: App, post: App) -> bool {
    match (pre.split.poly, pre.split.first) {
        (Some(id), Some(first)) => {
            let projects = pre.workspace.projects@;
            let i = index_of_object(projects, id);
            let act = App { workspace: Workspace { active_index: activated(pre.workspace, i), ..pre.workspace }, ..pre };
            if i >= projects.len() {
                post == pre
            } else {
                match projects[i].document.object(id) {
                    Some(source) => match source {
                        ObjectModel::Polyline { verts, closed, .. } => match chosen_pieces(verts, closed, first as int, pre.split.second) {
                            None => post == act,
                            Some(None) => post == (App {
                                split: Split { first: None, second: None, ..pre.split },
                                frame: pre.frame.overlay(),
                                ..act
                            }),
                            Some(Some((a, b))) => {
                                &&& post == (App {
                                    workspace: post.workspace,
                                    selection: post.selection,
                                    split: post.split,
                                    canvas: Canvas { active_tool: ActiveTool::Idle, ..pre.canvas },
                                    frame: pre.frame.geometry().overlay(),
                                    steps: post.steps,
                                    ..pre
                                })
                                &&& two_ids_taken(pre.workspace, i, post.workspace)
                                &&& post.selection == (Selection { handles: post.selection.handles, ..pre.selection })
                                &&& post.selection.handles@ == Set::<SceneEntityId>::empty()
                                &&& pre.split.cleared(post.split)
                                &&& post.steps@.len() == pre.steps@.len() + 1
                                &&& post.steps@.drop_last() == pre.steps@
                                &&& splits(post.steps@.last(), source, projects[i].document.next_object_id as int, a, b)
                            },
                        },
                        _ => post == act,
                    },
                    None => post == act,
                }
            }
        },
        _ => post == pre,
    }
}

/// What the choice of a vertex does: the one of an open line splits it, the
/// first of a ring is kept, a second one splits the ring.
pub open spec fn split_vertex_picked(pre: App, nearest: Option<usize>, post: App) -> bool {
    match (pre.split.poly, nearest) {
        (Some(id), Some(v)) if pre.canvas.cursor_px is Some => match pre.scene.object(id) {
            Some(ObjectModel::Polyline { verts, closed, .. }) => if v >= verts.len() {
                post == pre
            } else if !closed {
                if v == 0 || v + 1 == verts.len() {
                    post == pre
                } else {
                    split_committed(App { split: Split { first: Some(v), second: None, ..pre.split }, ..pre }, post)
                }
            } else {
                match pre.split.first {
                    None => post == (App { split: Split { first: Some(v), ..pre.split }, frame: pre.frame.overlay(), ..pre }),
                    Some(f) => if f == v {
                        post == pre
                    } else {
                        split_committed(App { split: Split { second: Some(v), ..pre.split }, ..pre }, post)
                    },
                }
            },
            _ => post == pre,
        },
        _ => post == pre,
    }
}

/// What a click near vertices does: the nearest is picked, if one is near.
pub open spec fn split_vertex_clicked(pre: App, distances: Seq<Option<u64>>, limit: u64, post: App) -> bool {
    exists|nearest: Option<usize>| #[trigger] nearest_found(distances, limit, nearest) && split_vertex_picked(pre, nearest, post)
}

/// What picking the polyline to split does.
pub open spec fn split_polyline_picked(pre: App, under: Option<SceneEntityId>, post: App) -> bool {
    match under {
        Some(SceneEntityId::Object(id)) => {
            let i = index_of_object(pre.workspace.projects@, id);
            let act = App { workspace: Workspace { active_index: activated(pre.workspace, i), ..pre.workspace }, ..pre };
            if i >= pre.workspace.projects@.len() || !valid_split(pre, id) {
                post == act
            } else {
                &&& post == (App {
                    split: Split { poly: Some(id), first: None, second: None, ..pre.split },
                    selection: post.selection,
                    frame: pre.frame.geometry().overlay(),
                    ..act
                })
                &&& post.selection == (Selection { handles: post.selection.handles, ..pre.selection })
                &&& post.selection.handles@ == pre.selection.handles@.insert(SceneEntityId::Object(id))
            }
        },
        _ => post == pre,
    }
}

/// The first selected object that can be split.
pub open spec fn first_splittable(app: App, handles: Seq<SceneEntityId>) -> Option<ObjectId>
    decreases handles.len(),
{
    if handles.len() == 0 {
        None
    } else {
        match handles[0] {
            SceneEntityId::Object(id) if valid_split(app, id) => Some(id),
            _ => first_splittable(app, handles.drop_first()),
        }
    }
}

impl App {
    /// Whether the object can be split.
    pub fn is_valid_split_polyline(&self, object_id: ObjectId) -> (r: bool)
        ensures
            r == valid_split(*self, object_id),
    {
        match self.scene.get_object(object_id) {
            Some(Object::Polyline { verts, closed, .. }) => {
                let least: usize = if *closed {
                    4
                } else {
                    3
                };
                verts.len() >= least
            },
            _ => false,
        }
    }

    /// Forgets what was being split.
    pub fn clear_split_at_points_state(&mut self)
        ensures
            *final(self) == (App { split: final(self).split, ..*old(self) }),
            old(self).split.cleared(final(self).split),
    {
        self.split.poly = None;
        self.split.first = None;
        self.split.second = None;
        self.split.verts_px.clear();
    }

    /// Puts the tool down.
    pub fn cancel_split_at_points(&mut self)
        ensures
            *final(self) == (App {
                split: final(self).split,
                canvas: Canvas { active_tool: ActiveTool::Idle, ..old(self).canvas },
                frame: old(self).frame.overlay(),
                ..*old(self)
            }),
            old(self).split.cleared(final(self).split),
    {
        self.clear_split_at_points_state();
        self.canvas.active_tool = ActiveTool::Idle;
        self.invalidate_overlay();
    }

    /// Takes the first selected object that can be split, if there is one.
    pub fn split_init_from_selection(&mut self)
        ensures
            *final(self) == (match first_splittable(*old(self), old(self).selection.handles.order()) {
                Some(id) => App {
                    split: Split { poly: Some(id), first: None, second: None, ..old(self).split },
                    frame: old(self).frame.overlay(),
                    ..*old(self)
                },
                None => *old(self),
            }),
    {
        let found = self.find_splittable();
        match found {
            Some(id) => {
                self.split.poly = Some(id);
                self.split.first = None;
                self.split.second = None;
                self.invalidate_overlay();
            },
            None => {},
        }
    }

    fn find_splittable(&self) -> (r: Option<ObjectId>)
        ensures
            r == first_splittable(*self, self.selection.handles.order()),
    {
        let handles = self.selection.handles.as_vec();
        let mut i: usize = 0;
        assert(handles@.skip(0) =~= handles@);
        while i < handles.len()
            invariant
                i <= handles.len(),
                handles@ == self.selection.handles.order(),
                first_splittable(*self, handles@) == first_splittable(*self, handles@.skip(i as int)),
            decreases handles.len() - i,
        {
            assert(handles@.skip(i as int).drop_first() =~= handles@.skip(i + 1));
            match handles[i] {
                SceneEntityId::Object(id) => {
                    if self.is_valid_split_polyline(id) {
                        return Some(id);
                    }
                },
                _ => {},
            }
            i += 1;
        }
        None
    }

    /// A click that picks the polyline to split.
    pub fn pick_split_polyline(&mut self, under: Option<SceneEntityId>)
        ensures
            split_polyline_picked(*old(self), under, *final(self)),
    {
        match under {
            Some(SceneEntityId::Object(id)) => {
                if !self.activate_project_for_object(id) || !self.is_valid_split_polyline(id) {
                    return ;
                }
                self.split.poly = Some(id);
                self.split.first = None;
                self.split.second = None;
                self.selection.handles.insert(SceneEntityId::Object(id));
                self.invalidate_geometry();
                self.invalidate_overlay();
            },
            _ => {},
        }
    }

    /// A click that picks the vertex nearest to the pointer, if it is near any.
    /// `distances` tells how far away each vertex is that is in sight.
    pub fn pick_split_vertex(&mut self, distances: &Vec<Option<u64>>, limit: u64)
        requires
            object_ids_left(old(self).workspace, 2),
        ensures
            split_vertex_clicked(*old(self), distances@, limit, *final(self)),
    {
        let nearest = nearest_within(distances, limit);
        self.choose_split_vertex(nearest);
        assert(nearest_found(distances@, limit, nearest));
    }

    fn choose_split_vertex(&mut self, nearest: Option<usize>)
        requires
            object_ids_left(old(self).workspace, 2),
        ensures
            split_vertex_picked(*old(self), nearest, *final(self)),
    {
        if self.canvas.cursor_px.is_none() {
            return ;
        }
        let (id, v): (ObjectId, usize) = match (self.split.poly, nearest) {
            (Some(id), Some(v)) => (id, v),
            _ => {
                return ;
            },
        };
        let (count, closed): (usize, bool) = match self.scene.get_object(id) {
            Some(Object::Polyline { verts, closed, .. }) => (verts.len(), *closed),
            _ => {
                return ;
            },
        };
        if v >= count {
            return ;
        }
        if !closed {
            if v == 0 || v + 1 == count {
                return ;
            }
            self.split.first = Some(v);
            self.split.second = None;
            self.commit_split_at_points();
            return ;
        }
        match self.split.first {
            None => {
                self.split.first = Some(v);
                self.invalidate_overlay();
            },
            Some(f) => {
                if f != v {
                    self.split.second = Some(v);
                    self.commit_split_at_points();
                }
            },
        }
    }

    /// A click of the tool: the polyline first, then its vertices.
    pub fn split_at_points_click(&mut self, under: Option<SceneEntityId>, distances: &Vec<Option<u64>>, limit: u64)
        requires
            object_ids_left(old(self).workspace, 2),
        ensures
            if old(self).split.poly is None {
                split_polyline_picked(*old(self), under, *final(self))
            } else if old(self).split.first is None || old(self).split.second is None {
                split_vertex_clicked(*old(self), distances@, limit, *final(self))
            } else {
                *final(self) == *old(self)
            },
    {
        if self.split.poly.is_none() {
            self.pick_split_polyline(under);
        } else if self.split.first.is_none() || self.split.second.is_none() {
            self.pick_split_vertex(distances, limit);
        }
    }

    /// Splits the polyline at the chosen vertices.
    #[verifier::rlimit(40)]
    pub fn commit_split_at_points(&mut self)
        requires
            object_ids_left(old(self).workspace, 2),
        ensures
            split_committed(*old(self), *final(self)),
    {
        let (object_id, first): (ObjectId, usize) = match (self.split.poly, self.split.first) {
            (Some(id), Some(first)) => (id, first),
            _ => {
                return ;
            },
        };
        proof {
            lemma_first_index(self.workspace.projects@, |p: OpenProject| holds_object(p, object_id));
        }
        if !self.activate_project_for_object(object_id) {
            return ;
        }
        let second = self.split.second;
        let index: usize = match self.workspace.active_index {
            Some(i) => i,
            None => {
                return ;
            },
        };
        assert(index == index_of_object(old(self).workspace.projects@, object_id));
        assert(holds_object(self.workspace.projects@[index as int], object_id));
        let found = match self.workspace.projects[index].document.get_object(object_id) {
            Some(o) => o.copy(),
            None => {
                return ;
            },
        };
        let pieces = match &found {
            Object::Polyline { verts, closed, .. } => {
                if *closed {
                    match second {
                        Some(s) => split_closed_ring(verts, first, s),
                        None => {
                            return ;
                        },
                    }
                } else {
                    split_open_line(verts, first)
                }
            },
            _ => {
                return ;
            },
        };
        match pieces {
            Some((a, b)) => self.replace_by_pieces(index, found, a, b),
            None => {
                self.split.first = None;
                self.split.second = None;
                self.invalidate_overlay();
            },
        }
    }

    fn replace_by_pieces(&mut self, index: usize, source: Object, a: Vec<PolyVertex>, b: Vec<PolyVertex>)
        requires
            source@ is Polyline,
            index < old(self).workspace.projects@.len(),
            old(self).workspace.active_index == Some(index),
            old(self).workspace.projects@[index as int].document.next_object_id + 2 <= u64::MAX,
        ensures
            *final(self) == (App {
                workspace: final(self).workspace,
                selection: final(self).selection,
                split: final(self).split,
                canvas: Canvas { active_tool: ActiveTool::Idle, ..old(self).canvas },
                frame: old(self).frame.geometry().overlay(),
                steps: final(self).steps,
                ..*old(self)
            }),
            two_ids_taken(old(self).workspace, index as int, final(self).workspace),
            final(self).selection == (Selection { handles: final(self).selection.handles, ..old(self).selection }),
            final(self).selection.handles@ == Set::<SceneEntityId>::empty(),
            old(self).split.cleared(final(self).split),
            final(self).steps@.len() == old(self).steps@.len() + 1,
            final(self).steps@.drop_last() == old(self).steps@,
            splits(
                final(self).steps@.last(),
                source@,
                old(self).workspace.projects@[index as int].document.next_object_id as int,
                a@,
                b@,
            ),
    {
        let first_id = self.workspace.projects[index].document.allocate_object_id();
        let second_id = self.workspace.projects[index].document.allocate_object_id();
        assert(self.workspace.projects@ =~= old(self).workspace.projects@.update(index as int, self.workspace.projects@[index as int]));
        let edits = split_edits(source, first_id, a, second_id, b);
        self.hand_over(edits);
        self.selection.handles.clear();
        self.clear_split_at_points_state();
        self.canvas.active_tool = ActiveTool::Idle;
        self.invalidate_geometry();
        self.invalidate_overlay();
    }
}

/// The edits that put two open pieces in the place of a polyline.
fn split_edits(source: Object, first_id: ObjectId, a: Vec<PolyVertex>, second_id: ObjectId, b: Vec<PolyVertex>) -> (r: Vec<Edit>)
    requires
        source@ is Polyline,
        second_id.0 == first_id.0 + 1,
    ensures
        splits(Step { edits: r, batch: true, applied: false, project: None }, source@, first_id.0 as int, a@, b@),
        r@.len() == 3,
{
    let mut edits: Vec<Edit> = Vec::new();
    match &source {
        Object::Polyline { layer, color, fill, line_weight, .. } => {
            let (layer, color, fill, line_weight): (LayerId, Rgba, FillStyle, u32) = (*layer, *color, *fill, *line_weight);
            let first = Object::Polyline { id: first_id, layer, verts: a, closed: false, color, fill, line_weight };
            let second = Object::Polyline { id: second_id, layer, verts: b, closed: false, color, fill, line_weight };
            edits.push(Edit::DeleteObject(source));
            edits.push(Edit::AddObject(first));
            edits.push(Edit::AddObject(second));
        },
        _ => {},
    }
    edits
}

} // verus!
