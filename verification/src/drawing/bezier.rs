//! Replacing a stretch of a polyline by a curve.

use crate::document::{objects_differ, same_object, Object, ObjectModel, PolyVertex};
use crate::edit::Edit;
use crate::ids::{ObjectId, SceneEntityId};
use crate::ieee::{at_most, f64_at_most, Point3, ScreenPoint};
use crate::search::lemma_first_index;
use crate::state::{ActiveTool, App, Canvas};
use crate::workspace::{holds_object, index_of_object, OpenProject, Workspace};
use vstd::prelude::*;

verus! {

/// The tool: the polyline, the two vertices that the curve joins, and the two
/// points that bend it.
pub struct Bezier {
    pub poly: Option<ObjectId>,
    pub poly_closed: bool,
    pub first: Option<usize>,
    pub second: Option<usize>,
    pub replace_longer: bool,
    pub cp1: Point3,
    pub cp2: Point3,
    pub segments: u32,
    pub poly_px: Vec<ScreenPoint>,
    pub cp1_px: Option<ScreenPoint>,
    pub cp2_px: Option<ScreenPoint>,
    pub span_px: Vec<ScreenPoint>,
    pub preview_px: Vec<ScreenPoint>,
    pub dragging_cp: Option<u8>,
    pub hover_cp: Option<u8>,
    pub dialog_open: bool,
}

/// The origin.
pub open spec fn origin() -> Point3 {
    Point3 { x: 0, y: 0, z: 0 }
}

impl Bezier {
    /// Nothing is being curved; the number of segments stays.
    pub open spec fn cleared(self, post: Bezier) -> bool {
        &&& post == (Bezier {
            poly: None,
            poly_closed: false,
            first: None,
            second: None,
            replace_longer: false,
            cp1: origin(),
            cp2: origin(),
            segments: self.segments,
            poly_px: post.poly_px,
            cp1_px: None,
            cp2_px: None,
            span_px: post.span_px,
            preview_px: post.preview_px,
            dragging_cp: None,
            hover_cp: None,
            dialog_open: false,
        })
        &&& post.poly_px@.len() == 0
        &&& post.span_px@.len() == 0
        &&& post.preview_px@.len() == 0
    }

    /// How many segments the curve is drawn with.
    pub fn segment_count(&self) -> (r: u32)
        ensures
            r == if self.segments < 2 {
                2
            } else {
                self.segments
            },
    {
        if self.segments < 2 {
            2
        } else {
            self.segments
        }
    }
}

/// The way round a ring that is asked for, the shorter or the longer, from the
/// lengths of both.
pub open spec fn span_chosen(first: usize, second: usize, forward: u64, reverse: u64, longer: bool) -> (usize, usize) {
    if (longer && f64_at_most(reverse, forward)) || (!longer && f64_at_most(forward, reverse)) {
        (first, second)
    } else {
        (second, first)
    }
}

/// The way round a ring that is asked for, the shorter or the longer.
pub fn choose_closed_span(first: usize, second: usize, forward: u64, reverse: u64, longer: bool) -> (r: (usize, usize))
    ensures
        r == span_chosen(first, second, forward, reverse, longer),
{
    if (longer && at_most(reverse, forward)) || (!longer && at_most(forward, reverse)) {
        (first, second)
    } else {
        (second, first)
    }
}

/// The points of edges one after the other, each without its first.
pub open spec fn joined_edges(edges: Seq<Vec<Point3>>, from: int, to: int) -> Seq<Point3>
    decreases to - from,
{
    if from >= to {
        Seq::empty()
    } else {
        joined_edges(edges, from, to - 1) + edges[to - 1]@.skip(1)
    }
}

/// The points along a stretch of a polyline from one vertex on to another,
/// with the points of each edge; none where there is no such way.
pub open spec fn span_points(verts: Seq<PolyVertex>, edges: Seq<Vec<Point3>>, closed: bool, start: int, end: int) -> Seq<Point3> {
    let n = verts.len() as int;
    if start >= n || end >= n || start == end || (!closed && start > end) {
        Seq::empty()
    } else if start < end {
        seq![verts[start].pos] + joined_edges(edges, start, end)
    } else {
        seq![verts[start].pos] + joined_edges(edges, start, n) + joined_edges(edges, 0, end)
    }
}

fn append_edge(points: &mut Vec<Point3>, edge: &Vec<Point3>)
    requires
        edge@.len() > 0,
    ensures
        final(points)@ == old(points)@ + edge@.skip(1),
{
    let ghost before = points@;
    let mut i: usize = 1;
    assert(before + edge@.subrange(1, 1) =~= before);
    while i < edge.len()
        invariant
            1 <= i <= edge.len(),
            points@ == before + edge@.subrange(1, i as int),
        decreases edge.len() - i,
    {
        points.push(edge[i]);
        i += 1;
        assert(points@ =~= before + edge@.subrange(1, i as int));
    }
    assert(edge@.subrange(1, edge@.len() as int) =~= edge@.skip(1));
}

fn append_edges(points: &mut Vec<Point3>, edges: &Vec<Vec<Point3>>, from: usize, to: usize)
    requires
        from <= to <= edges@.len(),
        forall|i: int| 0 <= i < edges@.len() ==> (#[trigger] edges@[i])@.len() > 0,
    ensures
        final(points)@ == old(points)@ + joined_edges(edges@, from as int, to as int),
{
    let ghost before = points@;
    let mut i: usize = from;
    assert(before + joined_edges(edges@, from as int, from as int) =~= before);
    while i < to
        invariant
            from <= i <= to <= edges@.len(),
            forall|i: int| 0 <= i < edges@.len() ==> (#[trigger] edges@[i])@.len() > 0,
            points@ == before + joined_edges(edges@, from as int, i as int),
        decreases to - i,
    {
        let edge = &edges[i];
        assert(edges@[i as int]@.len() > 0);
        append_edge(points, edge);
        i += 1;
        assert(points@ =~= before + joined_edges(edges@, from as int, i as int));
    }
}

/// The points along a stretch of a polyline, both ends among them. `edges`
/// holds for each vertex the points of the edge that leaves it.
pub fn directed_span_points(verts: &Vec<PolyVertex>, edges: &Vec<Vec<Point3>>, closed: bool, start: usize, end: usize) -> (r: Vec<Point3>)
    requires
        edges@.len() == verts@.len(),
        forall|i: int| 0 <= i < edges@.len() ==> (#[trigger] edges@[i])@.len() > 0,
    ensures
        r@ == span_points(verts@, edges@, closed, start as int, end as int),
{
    let n: usize = verts.len();
    let mut points: Vec<Point3> = Vec::new();
    if start >= n || end >= n || start == end || (!closed && start > end) {
        assert(points@ =~= Seq::<Point3>::empty());
        return points;
    }
    points.push(verts[start].pos);
    assert(points@ =~= seq![verts@[start as int].pos]);
    if start < end {
        append_edges(&mut points, edges, start, end);
    } else {
        append_edges(&mut points, edges, start, n);
        append_edges(&mut points, edges, 0, end);
    }
    points
}

/// The vertices of the points of a curve.
pub open spec fn curve_verts(samples: Seq<Point3>) -> Seq<PolyVertex> {
    samples.map_values(|p: Point3| PolyVertex { pos: p, bulge: 0 })
}

/// The vertices up to one, whose edge is straight.
pub open spec fn kept_until(verts: Seq<PolyVertex>, from: int, at: int) -> Seq<PolyVertex> {
    verts.subrange(from, at).push(verts[at].straightened())
}

/// A polyline with the stretch from one vertex to another replaced by the
/// points of a curve. A stretch over the end of a ring makes the ring begin at
/// the vertex where the curve ends.
pub open spec fn span_replaced(verts: Seq<PolyVertex>, closed: bool, start: int, end: int, samples: Seq<Point3>) -> Option<Seq<PolyVertex>> {
    if verts.len() < 2 || start >= verts.len() || end >= verts.len() || start == end || (!closed && start > end) {
        None
    } else if start < end {
        Some(kept_until(verts, 0, start) + curve_verts(samples) + verts.skip(end))
    } else {
        Some(kept_until(verts, end, start) + curve_verts(samples))
    }
}

/// Both ends of a replaced stretch stay where they are, the curve lies between
/// them, and every other vertex that was not in the stretch is kept, with its
/// bend.
pub proof fn law_curve_joins_its_ends(verts: Seq<PolyVertex>, start: int, end: int, samples: Seq<Point3>)
    requires
        0 <= start < end < verts.len(),
    ensures
        ({
            let r = span_replaced(verts, false, start, end, samples)->0;
            &&& r.len() == verts.len() - (end - start) + samples.len() + 1
            &&& r.take(start) == verts.take(start)
            &&& r[start] == verts[start].straightened()
            &&& forall|k: int| 0 <= k < samples.len() ==> #[trigger] r[start + 1 + k].pos == samples[k]
            &&& r.skip(start + 1 + samples.len()) == verts.skip(end)
            &&& span_replaced(verts, true, start, end, samples) == Some(r)
        }),
{
    let r = span_replaced(verts, false, start, end, samples)->0;
    assert(r.take(start) =~= verts.take(start));
    assert(r.skip(start + 1 + samples.len()) =~= verts.skip(end));
}

/// A curve over the end of a ring: what is left of the ring runs from the end
/// of the curve to its start, and the curve closes it.
pub proof fn law_curve_closes_ring(verts: Seq<PolyVertex>, start: int, end: int, samples: Seq<Point3>)
    requires
        0 <= end < start < verts.len(),
    ensures
        span_replaced(verts, false, start, end, samples) is None,
        ({
            let r = span_replaced(verts, true, start, end, samples)->0;
            &&& r.len() == start - end + 1 + samples.len()
            &&& r.take(start - end) == verts.subrange(end, start)
            &&& r[start - end] == verts[start].straightened()
            &&& forall|k: int| 0 <= k < samples.len() ==> #[trigger] r[start - end + 1 + k].pos == samples[k]
        }),
{
    let r = span_replaced(verts, true, start, end, samples)->0;
    assert(r.take(start - end) =~= verts.subrange(end, start));
}

fn keep_until(verts: &Vec<PolyVertex>, from: usize, at: usize) -> (r: Vec<PolyVertex>)
    requires
        from <= at < verts@.len(),
    ensures
        r@ == kept_until(verts@, from as int, at as int),
{
    let mut r: Vec<PolyVertex> = Vec::new();
    let mut i: usize = from;
    while i < at
        invariant
            from <= i <= at < verts@.len(),
            r@ == verts@.subrange(from as int, i as int),
        decreases at - i,
    {
        r.push(verts[i]);
        i += 1;
        assert(r@ =~= verts@.subrange(from as int, i as int));
    }
    r.push(PolyVertex { pos: verts[at].pos, bulge: 0 });
    r
}

/// Adds the points of a curve to vertices.
pub fn append_bezier_interior(result: &mut Vec<PolyVertex>, samples: &Vec<Point3>)
    ensures
        final(result)@ == old(result)@ + curve_verts(samples@),
{
    let ghost before = result@;
    let mut i: usize = 0;
    assert(before + curve_verts(samples@.take(0)) =~= before);
    while i < samples.len()
        invariant
            i <= samples.len(),
            result@ == before + curve_verts(samples@.take(i as int)),
        decreases samples.len() - i,
    {
        result.push(PolyVertex { pos: samples[i], bulge: 0 });
        i += 1;
        assert(result@ =~= before + curve_verts(samples@.take(i as int)));
    }
    assert(samples@.take(samples@.len() as int) =~= samples@);
}

fn append_rest(result: &mut Vec<PolyVertex>, verts: &Vec<PolyVertex>, from: usize)
    requires
        from <= verts@.len(),
    ensures
        final(result)@ == old(result)@ + verts@.skip(from as int),
{
    let ghost before = result@;
    let mut i: usize = from;
    assert(before + verts@.subrange(from as int, from as int) =~= before);
    while i < verts.len()
        invariant
            from <= i <= verts.len(),
            result@ == before + verts@.subrange(from as int, i as int),
        decreases verts.len() - i,
    {
        result.push(verts[i]);
        i += 1;
        assert(result@ =~= before + verts@.subrange(from as int, i as int));
    }
    assert(verts@.subrange(from as int, verts@.len() as int) =~= verts@.skip(from as int));
}

/// Replaces a stretch of a polyline by the points of a curve.
pub fn replace_polyline_span_with_bezier(
    verts: &Vec<PolyVertex>,
    closed: bool,
    start_index: usize,
    end_index: usize,
    samples: &Vec<Point3>,
) -> (r: Option<Vec<PolyVertex>>)
    ensures
        match r {
            Some(v) => span_replaced(verts@, closed, start_index as int, end_index as int, samples@) == Some(v@),
            None => span_replaced(verts@, closed, start_index as int, end_index as int, samples@) is None,
        },
{
    if closed {
        return replace_closed_span_with_bezier(verts, start_index, end_index, samples);
    }
    if verts.len() < 2 || start_index >= verts.len() || end_index >= verts.len() || start_index >= end_index {
        return None;
    }
    let mut result = keep_until(verts, 0, start_index);
    append_bezier_interior(&mut result, samples);
    append_rest(&mut result, verts, end_index);
    Some(result)
}

/// Replaces a stretch of a ring by the points of a curve.
pub fn replace_closed_span_with_bezier(verts: &Vec<PolyVertex>, start_index: usize, end_index: usize, samples: &Vec<Point3>) -> (r: Option<
    Vec<PolyVertex>,
>)
    ensures
        match r {
            Some(v) => span_replaced(verts@, true, start_index as int, end_index as int, samples@) == Some(v@),
            None => span_replaced(verts@, true, start_index as int, end_index as int, samples@) is None,
        },
{
    let n: usize = verts.len();
    if n < 2 || start_index >= n || end_index >= n || start_index == end_index {
        return None;
    }
    if start_index < end_index {
        let mut result = keep_until(verts, 0, start_index);
        append_bezier_interior(&mut result, samples);
        append_rest(&mut result, verts, end_index);
        Some(result)
    } else {
        let mut result = keep_until(verts, end_index, start_index);
        append_bezier_interior(&mut result, samples);
        Some(result)
    }
}

/// The polyline can be curved: a ring of three vertices or more, or an open
/// line of two or more.
pub open spec fn curvable(o: ObjectModel) -> bool {
    match o {
        ObjectModel::Polyline { verts, closed, .. } => verts.len() >= if closed { 3int } else { 2 },
        _ => false,
    }
}

/// What pointing at the polyline does.
pub open spec fn bezier_polyline_picked(pre: App, under: Option<SceneEntityId>, post: App) -> bool {
    match under {
        Some(SceneEntityId::Object(id)) => {
            let i = index_of_object(pre.workspace.projects@, id);
            if i >= pre.workspace.projects@.len() {
                post == pre
            } else {
                let act = App { workspace: Workspace { active_index: Some(i as usize), ..pre.workspace }, ..pre };
                match pre.workspace.projects@[i].document.object(id) {
                    Some(o) => if curvable(o) {
                        post == (App {
                            bezier: Bezier {
                                poly: Some(id),
                                poly_closed: o->Polyline_closed,
                                first: None,
                                second: None,
                                replace_longer: false,
                                dialog_open: true,
                                ..pre.bezier
                            },
                            frame: pre.frame.overlay(),
                            ..act
                        })
                    } else {
                        post == act
                    },
                    None => post == act,
                }
            }
        },
        _ => post == pre,
    }
}

/// What a click on a vertex works with: the nearest vertex, if one is near;
/// the lengths of the ways from the first vertex to it and back; and the
/// points a third and two thirds along the straight line either way.
#[derive(Clone, Copy, Debug)]
pub struct VertexClick {
    pub nearest: Option<usize>,
    pub forward: u64,
    pub reverse: u64,
    pub thirds: (Point3, Point3),
    pub thirds_back: (Point3, Point3),
}

/// The ends of the curve, in its direction: the shorter way round a ring, or
/// the way of an open line.
pub open spec fn curve_ends(closed: bool, first: usize, click: usize, forward: u64, reverse: u64) -> (usize, usize) {
    if closed {
        span_chosen(first, click, forward, reverse, false)
    } else if first <= click {
        (first, click)
    } else {
        (click, first)
    }
}

impl Bezier {
    /// The tool with a vertex chosen.
    pub open spec fn chosen(self, closed: bool, v: usize, click: VertexClick) -> Bezier {
        match self.first {
            None => Bezier { first: Some(v), ..self },
            Some(f) => {
                let (start, end) = curve_ends(closed, f, v, click.forward, click.reverse);
                let (cp1, cp2) = if start == f {
                    click.thirds
                } else {
                    click.thirds_back
                };
                Bezier { first: Some(start), second: Some(end), replace_longer: false, cp1, cp2, ..self }
            },
        }
    }

    fn choose_vertex(&mut self, closed: bool, v: usize, click: VertexClick)
        ensures
            *final(self) == old(self).chosen(closed, v, click),
    {
        match self.first {
            None => {
                self.first = Some(v);
            },
            Some(f) => {
                let (start, end): (usize, usize) = if closed {
                    choose_closed_span(f, v, click.forward, click.reverse, false)
                } else if f <= v {
                    (f, v)
                } else {
                    (v, f)
                };
                let (cp1, cp2) = if start == f {
                    click.thirds
                } else {
                    click.thirds_back
                };
                self.first = Some(start);
                self.second = Some(end);
                self.replace_longer = false;
                self.cp1 = cp1;
                self.cp2 = cp2;
            },
        }
    }

    fn clear(&mut self)
        ensures
            old(self).cleared(*final(self)),
    {
        self.poly = None;
        self.poly_closed = false;
        self.first = None;
        self.second = None;
        self.replace_longer = false;
        self.cp1 = Point3 { x: 0, y: 0, z: 0 };
        self.cp2 = Point3 { x: 0, y: 0, z: 0 };
        self.poly_px.clear();
        self.cp1_px = None;
        self.cp2_px = None;
        self.span_px.clear();
        self.preview_px.clear();
        self.dragging_cp = None;
        self.hover_cp = None;
        self.dialog_open = false;
    }
}

/// What the choice of a vertex does.
pub open spec fn bezier_vertex_picked(pre: App, click: VertexClick, post: App) -> bool {
    if pre.bezier.poly is None || pre.canvas.cursor_px is None || click.nearest is None {
        post == pre
    } else {
        let v = click.nearest->0;
        match pre.scene.object(pre.bezier.poly->0) {
            Some(ObjectModel::Polyline { verts, closed, .. }) => if v >= verts.len() || pre.bezier.first == Some(v) {
                post == pre
            } else {
                post == (App { bezier: pre.bezier.chosen(closed, v, click), frame: pre.frame.overlay(), ..pre })
            },
            _ => post == pre,
        }
    }
}

/// The object with other vertices.
pub open spec fn with_verts(o: ObjectModel, new_verts: Seq<PolyVertex>) -> ObjectModel {
    match o {
        ObjectModel::Polyline { id, layer, closed, color, fill, line_weight, .. } => ObjectModel::Polyline {
            id,
            layer,
            verts: new_verts,
            closed,
            color,
            fill,
            line_weight,
        },
        o => o,
    }
}

/// The object with a stretch replaced by the points of a curve.
pub open spec fn object_curved(o: ObjectModel, start: int, end: int, samples: Seq<Point3>) -> Option<ObjectModel> {
    match o {
        ObjectModel::Polyline { verts, closed, .. } => match span_replaced(verts, closed, start, end, samples) {
            Some(v) => Some(with_verts(o, v)),
            None => None,
        },
        _ => None,
    }
}

fn curve_object(o: &Object, start: usize, end: usize, samples: &Vec<Point3>) -> (r: Option<Object>)
    ensures
        match r {
            Some(c) => object_curved(o@, start as int, end as int, samples@) == Some(c@),
            None => object_curved(o@, start as int, end as int, samples@) is None,
        },
{
    match o {
        Object::Polyline { id, layer, verts, closed, color, fill, line_weight } => match replace_polyline_span_with_bezier(
            verts,
            *closed,
            start,
            end,
            samples,
        ) {
            Some(new_verts) => Some(
                Object::Polyline {
                    id: *id,
                    layer: *layer,
                    verts: new_verts,
                    closed: *closed,
                    color: *color,
                    fill: *fill,
                    line_weight: *line_weight,
                },
            ),
            None => None,
        },
        _ => None,
    }
}

/// The curve is drawn and the tool put down.
pub open spec fn curve_drawn(pre: App, before: ObjectModel, after: ObjectModel, post: App) -> bool {
    &&& post == (App {
        bezier: post.bezier,
        canvas: Canvas { active_tool: ActiveTool::Idle, ..pre.canvas },
        frame: pre.frame.geometry().overlay(),
        steps: post.steps,
        ..pre
    })
    &&& pre.bezier.cleared(post.bezier)
    &&& if same_object(before, after) {
        post.steps == pre.steps
    } else {
        &&& post.steps@.len() == pre.steps@.len() + 1
        &&& post.steps@.drop_last() == pre.steps@
        &&& post.steps@.last().single()
        &&& post.steps@.last().edits@[0].replaces(before, after)
    }
}

/// What drawing the curve does.
pub open spec fn bezier_applied(pre: App, samples: Seq<Point3>, post: App) -> bool {
    if pre.bezier.poly is None || pre.bezier.first is None || pre.bezier.second is None {
        post == pre
    } else {
        let id = pre.bezier.poly->0;
        let i = index_of_object(pre.workspace.projects@, id);
        if i >= pre.workspace.projects@.len() {
            post == pre
        } else {
            let act = App { workspace: Workspace { active_index: Some(i as usize), ..pre.workspace }, ..pre };
            match pre.workspace.projects@[i].document.object(id) {
                Some(before) => match object_curved(before, pre.bezier.first->0 as int, pre.bezier.second->0 as int, samples) {
                    Some(after) => curve_drawn(act, before, after, post),
                    None => post == act,
                },
                None => post == act,
            }
        }
    }
}

impl App {
    /// A click of the tool: the polyline first, then its two vertices.
    pub fn bezier_click(&mut self, under: Option<SceneEntityId>, click: VertexClick)
        ensures
            if old(self).bezier.poly is None {
                bezier_polyline_picked(*old(self), under, *final(self))
            } else if old(self).bezier.first is None || old(self).bezier.second is None {
                bezier_vertex_picked(*old(self), click, *final(self))
            } else {
                *final(self) == *old(self)
            },
    {
        if self.bezier.poly.is_none() {
            self.pick_bezier_polyline(under);
        } else if self.bezier.first.is_none() || self.bezier.second.is_none() {
            self.pick_bezier_vertex(click);
        }
    }

    /// A click that picks the polyline.
    pub fn pick_bezier_polyline(&mut self, under: Option<SceneEntityId>)
        ensures
            bezier_polyline_picked(*old(self), under, *final(self)),
    {
        let id: ObjectId = match under {
            Some(SceneEntityId::Object(id)) => id,
            _ => {
                return ;
            },
        };
        proof {
            lemma_first_index(self.workspace.projects@, |p: OpenProject| holds_object(p, id));
        }
        if !self.activate_project_for_object(id) {
            return ;
        }
        let (closed, count): (bool, usize) = match self.workspace.active_project() {
            Some(p) => match p.document.get_object(id) {
                Some(Object::Polyline { verts, closed, .. }) => (*closed, verts.len()),
                _ => {
                    return ;
                },
            },
            None => {
                return ;
            },
        };
        if (closed && count < 3) || (!closed && count < 2) {
            return ;
        }
        self.bezier.poly = Some(id);
        self.bezier.poly_closed = closed;
        self.bezier.first = None;
        self.bezier.second = None;
        self.bezier.replace_longer = false;
        self.bezier.dialog_open = true;
        self.invalidate_overlay();
    }

    /// A click that picks a vertex: the nearest as `nearest_within` finds it.
    pub fn pick_bezier_vertex(&mut self, click: VertexClick)
        ensures
            bezier_vertex_picked(*old(self), click, *final(self)),
    {
        let (id, v): (ObjectId, usize) = match (self.bezier.poly, click.nearest) {
            (Some(id), Some(v)) => (id, v),
            _ => {
                return ;
            },
        };
        if self.canvas.cursor_px.is_none() {
            return ;
        }
        let (closed, count): (bool, usize) = match self.scene.get_object(id) {
            Some(Object::Polyline { verts, closed, .. }) => (*closed, verts.len()),
            _ => {
                return ;
            },
        };
        if v >= count {
            return ;
        }
        if let Some(f) = self.bezier.first {
            if f == v {
                return ;
            }
        }
        self.bezier.choose_vertex(closed, v, click);
        self.invalidate_overlay();
    }

    /// Draws the curve in place of the stretch. `samples` are the points of the
    /// curve between its ends.
    pub fn apply_bezier(&mut self, samples: &Vec<Point3>)
        ensures
            bezier_applied(*old(self), samples@, *final(self)),
    {
        let (id, vi, vj): (ObjectId, usize, usize) = match (self.bezier.poly, self.bezier.first, self.bezier.second) {
            (Some(id), Some(vi), Some(vj)) => (id, vi, vj),
            _ => {
                return ;
            },
        };
        proof {
            lemma_first_index(self.workspace.projects@, |p: OpenProject| holds_object(p, id));
        }
        if !self.activate_project_for_object(id) {
            return ;
        }
        let before = match self.workspace.active_project() {
            Some(p) => match p.document.get_object(id) {
                Some(o) => o.copy(),
                None => {
                    return ;
                },
            },
            None => {
                return ;
            },
        };
        let after = match curve_object(&before, vi, vj, samples) {
            Some(o) => o,
            None => {
                return ;
            },
        };
        self.draw_curve(before, after);
    }

    fn draw_curve(&mut self, before: Object, after: Object)
        ensures
            curve_drawn(*old(self), before@, after@, *final(self)),
    {
        if objects_differ(&before, &after) {
            self.execute_edit(Edit::Replace { before, after });
        }
        self.clear_bezier_state();
        self.canvas.active_tool = ActiveTool::Idle;
        self.invalidate_geometry();
        self.invalidate_overlay();
    }

    /// Puts the tool down.
    pub fn cancel_bezier(&mut self)
        ensures
            *final(self) == (App {
                bezier: final(self).bezier,
                canvas: Canvas { active_tool: ActiveTool::Idle, ..old(self).canvas },
                frame: old(self).frame.overlay(),
                ..*old(self)
            }),
            old(self).bezier.cleared(final(self).bezier),
    {
        self.clear_bezier_state();
        self.canvas.active_tool = ActiveTool::Idle;
        self.invalidate_overlay();
    }

    /// Forgets what was being curved.
    pub fn clear_bezier_state(&mut self)
        ensures
            *final(self) == (App { bezier: final(self).bezier, ..*old(self) }),
            old(self).bezier.cleared(final(self).bezier),
    {
        self.bezier.clear();
    }
}

} // verus!
