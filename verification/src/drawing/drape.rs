//! Draping design objects over surfaces.

use crate::canvas::active_ids;
use crate::document::{objects_differ, same_object, Document, Object, ObjectModel, PolyVertex};
use crate::edit::Edit;
use crate::ids::{IdSet, ObjectId, SceneEntityId};
use crate::ieee::{equal64, f64_equal, f64_less, less64, Point3, F64_SIGN};
use crate::items::{Bounds, OpenTriangulation};
use crate::state::{ActiveTool, App, Canvas, DrapePhase, Selection};
use vstd::prelude::*;

verus! {

/// The place of a number in an order in which every number has its own: the
/// negative zero comes before the positive one.
pub open spec fn total_key(bits: u64) -> int {
    if bits >= F64_SIGN {
        F64_SIGN - bits - 1
    } else {
        bits as int
    }
}

fn total_less(a: u64, b: u64) -> (r: bool)
    ensures
        r == (total_key(a) < total_key(b)),
{
    if a >= F64_SIGN {
        if b >= F64_SIGN {
            a > b
        } else {
            true
        }
    } else if b >= F64_SIGN {
        false
    } else {
        a < b
    }
}

/// The point lies over the bounds.
pub open spec fn over(point: Point3, b: Bounds) -> bool {
    !f64_less(point.x, b.min.x) && !f64_less(b.max.x, point.x) && !f64_less(point.y, b.min.y) && !f64_less(b.max.y, point.y)
}

/// Where a line straight down through the point meets a surface, if the point
/// lies over its bounds.
pub open spec fn height_on(point: Point3, b: Bounds, hit: Option<u64>) -> Option<u64> {
    if over(point, b) {
        hit
    } else {
        None
    }
}

/// The uppermost height at the point on the first `n` surfaces. `hits` holds
/// for each where a line straight down meets it.
pub open spec fn uppermost(point: Point3, surfaces: Seq<Bounds>, hits: Seq<Option<u64>>, n: int) -> Option<u64>
    decreases n,
{
    if n <= 0 {
        None
    } else {
        let rest = uppermost(point, surfaces, hits, n - 1);
        match height_on(point, surfaces[n - 1], hits[n - 1]) {
            Some(z) => match rest {
                Some(top) if total_key(z) < total_key(top) => rest,
                _ => Some(z),
            },
            None => rest,
        }
    }
}

/// The height that a point is draped to is met on one of the surfaces, and
/// none is met higher; there is one wherever a surface is met.
pub proof fn law_draped_to_the_top(point: Point3, surfaces: Seq<Bounds>, hits: Seq<Option<u64>>, n: int)
    requires
        0 <= n <= surfaces.len(),
        n <= hits.len(),
    ensures
        uppermost(point, surfaces, hits, n) is None <==> forall|s: int| 0 <= s < n ==> height_on(point, #[trigger] surfaces[s], hits[s]) is None,
        uppermost(point, surfaces, hits, n) matches Some(z) ==> {
            &&& exists|s: int| 0 <= s < n && height_on(point, #[trigger] surfaces[s], hits[s]) == Some(z)
            &&& forall|s: int|
                0 <= s < n && height_on(point, #[trigger] surfaces[s], hits[s]) is Some ==> total_key(height_on(point, surfaces[s], hits[s])->0) <= total_key(z)
        },
    decreases n,
{
    if n > 0 {
        law_draped_to_the_top(point, surfaces, hits, n - 1);
        let last = height_on(point, surfaces[n - 1], hits[n - 1]);
        let rest = uppermost(point, surfaces, hits, n - 1);
        if last is None && rest is Some {
            let s = choose|s: int| 0 <= s < n - 1 && height_on(point, #[trigger] surfaces[s], hits[s]) == rest;
            assert(height_on(point, surfaces[s], hits[s]) == rest);
        }
    }
}

/// The uppermost height at the point on surfaces with such bounds and such
/// hits of a line straight down.
pub fn uppermost_topology_z(point: Point3, surfaces: &Vec<Bounds>, hits: &Vec<Option<u64>>) -> (r: Option<u64>)
    requires
        hits@.len() == surfaces@.len(),
    ensures
        r == uppermost(point, surfaces@, hits@, surfaces@.len() as int),
{
    let mut top: Option<u64> = None;
    let mut i: usize = 0;
    while i < surfaces.len()
        invariant
            i <= surfaces.len(),
            hits@.len() == surfaces@.len(),
            top == uppermost(point, surfaces@, hits@, i as int),
        decreases surfaces.len() - i,
    {
        let b = surfaces[i];
        if !less64(point.x, b.min.x) && !less64(b.max.x, point.x) && !less64(point.y, b.min.y) && !less64(b.max.y, point.y) {
            match hits[i] {
                Some(z) => {
                    match top {
                        Some(t) => {
                            if !total_less(z, t) {
                                top = Some(z);
                            }
                        },
                        None => {
                            top = Some(z);
                        },
                    }
                },
                None => {},
            }
        }
        i += 1;
    }
    top
}

/// The point at the height, where there is one and it is another.
pub open spec fn draped_point(p: Point3, z: Option<u64>) -> Point3 {
    match z {
        Some(z) if !f64_equal(p.z, z) => Point3 { z, ..p },
        _ => p,
    }
}

/// The height at one point: of the surfaces the uppermost.
pub open spec fn height_at(p: Point3, surfaces: Seq<Bounds>, hits: Seq<Option<u64>>) -> Option<u64> {
    uppermost(p, surfaces, hits, surfaces.len() as int)
}

/// The hits of all points of an object are there, for every surface.
pub open spec fn hits_fit(o: ObjectModel, surfaces: Seq<Bounds>, hits: Seq<Vec<Option<u64>>>) -> bool {
    &&& hits.len() == point_count(o)
    &&& forall|i: int| 0 <= i < hits.len() ==> (#[trigger] hits[i])@.len() == surfaces.len()
}

/// How many points an object has.
pub open spec fn point_count(o: ObjectModel) -> int {
    match o {
        ObjectModel::Polyline { verts, .. } => verts.len() as int,
        _ => 1,
    }
}

/// The first vertices of a polyline, draped.
pub open spec fn draped_verts(verts: Seq<PolyVertex>, surfaces: Seq<Bounds>, hits: Seq<Vec<Option<u64>>>) -> Seq<PolyVertex> {
    Seq::new(
        verts.len(),
        |i: int| PolyVertex { pos: draped_point(verts[i].pos, height_at(verts[i].pos, surfaces, hits[i]@)), bulge: verts[i].bulge },
    )
}

/// The object with every point that lies over a surface at its height.
pub open spec fn draped(o: ObjectModel, surfaces: Seq<Bounds>, hits: Seq<Vec<Option<u64>>>) -> ObjectModel {
    match o {
        ObjectModel::Point { id, layer, pos, color } => ObjectModel::Point {
            id,
            layer,
            pos: draped_point(pos, height_at(pos, surfaces, hits[0]@)),
            color,
        },
        ObjectModel::Polyline { id, layer, verts, closed, color, fill, line_weight } => ObjectModel::Polyline {
            id,
            layer,
            verts: draped_verts(verts, surfaces, hits),
            closed,
            color,
            fill,
            line_weight,
        },
        ObjectModel::Text { id, layer, pos, content, color } => ObjectModel::Text {
            id,
            layer,
            pos: draped_point(pos, height_at(pos, surfaces, hits[0]@)),
            content,
            color,
        },
    }
}

/// A point of an object.
pub open spec fn point_of(o: ObjectModel, i: int) -> Point3 {
    match o {
        ObjectModel::Point { pos, .. } => pos,
        ObjectModel::Polyline { verts, .. } => verts[i].pos,
        ObjectModel::Text { pos, .. } => pos,
    }
}

/// Draping moves no point sideways, and leaves a point that lies over no
/// surface where it is.
pub proof fn law_draping_is_vertical(o: ObjectModel, surfaces: Seq<Bounds>, hits: Seq<Vec<Option<u64>>>, i: int)
    requires
        hits_fit(o, surfaces, hits),
        0 <= i < point_count(o),
    ensures
        draped(o, surfaces, hits).id() == o.id(),
        draped(o, surfaces, hits).layer() == o.layer(),
        point_count(draped(o, surfaces, hits)) == point_count(o),
        point_of(draped(o, surfaces, hits), i).x == point_of(o, i).x,
        point_of(draped(o, surfaces, hits), i).y == point_of(o, i).y,
        height_at(point_of(o, i), surfaces, hits[i]@) is None ==> point_of(draped(o, surfaces, hits), i) == point_of(o, i),
        height_at(point_of(o, i), surfaces, hits[i]@) matches Some(z) ==> point_of(draped(o, surfaces, hits), i).z == z || f64_equal(
            point_of(draped(o, surfaces, hits), i).z,
            z,
        ),
{
}

/// How many of the first points are met, and how many of those move.
pub open spec fn met_upto(o: ObjectModel, surfaces: Seq<Bounds>, hits: Seq<Vec<Option<u64>>>, n: int) -> (int, int)
    decreases n,
{
    if n <= 0 {
        (0, 0)
    } else {
        let (met, moved) = met_upto(o, surfaces, hits, n - 1);
        let p = point_of(o, n - 1);
        match height_at(p, surfaces, hits[n - 1]@) {
            Some(z) => (met + 1, if f64_equal(p.z, z) {
                moved
            } else {
                moved + 1
            }),
            None => (met, moved),
        }
    }
}

fn drape_point(p: Point3, surfaces: &Vec<Bounds>, hits: &Vec<Option<u64>>) -> (r: (Point3, bool, bool))
    requires
        hits@.len() == surfaces@.len(),
    ensures
        r.0 == draped_point(p, height_at(p, surfaces@, hits@)),
        r.1 == (height_at(p, surfaces@, hits@) is Some),
        r.2 == (height_at(p, surfaces@, hits@) matches Some(z) && !f64_equal(p.z, z)),
{
    match uppermost_topology_z(p, surfaces, hits) {
        Some(z) => if equal64(p.z, z) {
            (p, true, false)
        } else {
            (Point3 { x: p.x, y: p.y, z }, true, true)
        },
        None => (p, false, false),
    }
}

fn one(b: bool) -> (r: usize)
    ensures
        r == if b {
            1int
        } else {
            0
        },
{
    if b {
        1
    } else {
        0
    }
}

/// The object with every point that lies over a surface at its height, how
/// many points do, and how many of those move.
pub fn drape_object(object: &Object, surfaces: &Vec<Bounds>, hits: &Vec<Vec<Option<u64>>>) -> (r: (Object, usize, usize))
    requires
        hits_fit(object@, surfaces@, hits@),
    ensures
        r.0@ == draped(object@, surfaces@, hits@),
        (r.1 as int, r.2 as int) == met_upto(object@, surfaces@, hits@, point_count(object@)),
{
    match object {
        Object::Point { id, layer, pos, color } => {
            assert(hits@[0]@.len() == surfaces@.len());
            let (p, met, moved) = drape_point(*pos, surfaces, &hits[0]);
            assert(met_upto(object@, surfaces@, hits@, 0) == (0int, 0int));
            (Object::Point { id: *id, layer: *layer, pos: p, color: *color }, one(met), one(moved))
        },
        Object::Text { id, layer, pos, content, color } => {
            assert(hits@[0]@.len() == surfaces@.len());
            let (p, met, moved) = drape_point(*pos, surfaces, &hits[0]);
            assert(met_upto(object@, surfaces@, hits@, 0) == (0int, 0int));
            (Object::Text { id: *id, layer: *layer, pos: p, content: content.clone(), color: *color }, one(met), one(moved))
        },
        Object::Polyline { id, layer, verts, closed, color, fill, line_weight } => {
            let mut out: Vec<PolyVertex> = Vec::new();
            let mut met_count: usize = 0;
            let mut moved_count: usize = 0;
            let mut i: usize = 0;
            while i < verts.len()
                invariant
                    i <= verts.len(),
                    hits_fit(object@, surfaces@, hits@),
                    object@ is Polyline && object@->Polyline_verts == verts@,
                    out@ == draped_verts(verts@, surfaces@, hits@).take(i as int),
                    (met_count as int, moved_count as int) == met_upto(object@, surfaces@, hits@, i as int),
                    met_count <= i,
                    moved_count <= i,
                decreases verts.len() - i,
            {
                let v = verts[i];
                assert(hits@[i as int]@.len() == surfaces@.len());
                let (p, met, moved) = drape_point(v.pos, surfaces, &hits[i]);
                out.push(PolyVertex { pos: p, bulge: v.bulge });
                met_count = met_count + one(met);
                moved_count = moved_count + one(moved);
                i += 1;
                assert(out@ =~= draped_verts(verts@, surfaces@, hits@).take(i as int));
            }
            assert(draped_verts(verts@, surfaces@, hits@).take(verts@.len() as int) =~= draped_verts(verts@, surfaces@, hits@));
            (
                Object::Polyline { id: *id, layer: *layer, verts: out, closed: *closed, color: *color, fill: *fill, line_weight: *line_weight },
                met_count,
                moved_count,
            )
        },
    }
}

/// The design objects among these.
pub open spec fn designs_in(app: App, handles: Seq<SceneEntityId>) -> Seq<ObjectId>
    decreases handles.len(),
{
    if handles.len() == 0 {
        Seq::empty()
    } else {
        let rest = designs_in(app, handles.drop_last());
        match handles.last() {
            SceneEntityId::Object(id) if active_ids(app.workspace).contains(id) => rest.push(id),
            _ => rest,
        }
    }
}

/// The bounds of the selected surfaces, in the order of the list.
pub open spec fn selected_bounds(list: Seq<OpenTriangulation>, selected: Set<SceneEntityId>) -> Seq<Bounds>
    decreases list.len(),
{
    if list.len() == 0 {
        Seq::empty()
    } else {
        let rest = selected_bounds(list.drop_last(), selected);
        if selected.contains(SceneEntityId::Triangulation(list.last().id)) {
            rest.push(list.last().bounds)
        } else {
            rest
        }
    }
}

/// What becomes of the objects: those that change, before and after.
pub open spec fn redraped(
    d: Document,
    ids: Seq<ObjectId>,
    surfaces: Seq<Bounds>,
    hits: Seq<Vec<Vec<Option<u64>>>>,
    n: int,
) -> Seq<(ObjectModel, ObjectModel)>
    decreases n,
{
    if n <= 0 {
        Seq::empty()
    } else {
        let rest = redraped(d, ids, surfaces, hits, n - 1);
        match d.object(ids[n - 1]) {
            Some(o) => {
                let a = draped(o, surfaces, hits[n - 1]@);
                if same_object(o, a) {
                    rest
                } else {
                    rest.push((o, a))
                }
            },
            None => rest,
        }
    }
}

/// The edits replace these.
pub open spec fn replaces_all(edits: Seq<Edit>, pairs: Seq<(ObjectModel, ObjectModel)>) -> bool {
    edits.len() == pairs.len() && forall|k: int| 0 <= k < pairs.len() ==> (#[trigger] edits[k]).replaces(pairs[k].0, pairs[k].1)
}

/// The hits of every object of the tool that the document has are there.
pub open spec fn all_hits_fit(d: Document, ids: Seq<ObjectId>, surfaces: Seq<Bounds>, hits: Seq<Vec<Vec<Option<u64>>>>) -> bool {
    &&& hits.len() == ids.len()
    &&& forall|k: int| 0 <= k < ids.len() ==> (d.object(#[trigger] ids[k]) matches Some(o) ==> hits_fit(o, surfaces, hits[k]@))
}

fn find_replacements(d: &Document, ids: &Vec<ObjectId>, surfaces: &Vec<Bounds>, hits: &Vec<Vec<Vec<Option<u64>>>>) -> (r: Vec<Edit>)
    requires
        all_hits_fit(*d, ids@, surfaces@, hits@),
    ensures
        replaces_all(r@, redraped(*d, ids@, surfaces@, hits@, ids@.len() as int)),
{
    let mut edits: Vec<Edit> = Vec::new();
    let mut i: usize = 0;
    while i < ids.len()
        invariant
            i <= ids.len(),
            all_hits_fit(*d, ids@, surfaces@, hits@),
            replaces_all(edits@, redraped(*d, ids@, surfaces@, hits@, i as int)),
        decreases ids.len() - i,
    {
        let id: ObjectId = ids[i];
        assert(ids@[i as int] == id);
        let ghost had = redraped(*d, ids@, surfaces@, hits@, i as int);
        let ghost before = edits@;
        match d.get_object(id) {
            Some(o) => {
                let (after, _met, _moved) = drape_object(o, surfaces, &hits[i]);
                if objects_differ(o, &after) {
                    edits.push(Edit::Replace { before: o.copy(), after });
                }
            },
            None => {},
        }
        i += 1;
        proof {
            let now = redraped(*d, ids@, surfaces@, hits@, i as int);
            assert forall|k: int| 0 <= k < now.len() implies (#[trigger] edits@[k]).replaces(now[k].0, now[k].1) by {
                if k < had.len() {
                    assert(edits@[k] == before[k] && now[k] == had[k]);
                }
            }
        }
    }
    edits
}

/// What draping the objects over the surfaces does.
pub open spec fn drape_applied(pre: App, d: Document, hits: Seq<Vec<Vec<Option<u64>>>>, post: App) -> bool {
    let surfaces = selected_bounds(pre.items.triangulations@, pre.selection.handles@);
    let pairs = redraped(d, pre.drape.objects@, surfaces, hits, pre.drape.objects@.len() as int);
    &&& post == (App {
        selection: post.selection,
        drape: post.drape,
        canvas: Canvas { active_tool: ActiveTool::Idle, ..pre.canvas },
        frame: pre.frame.geometry(),
        steps: post.steps,
        ..pre
    })
    &&& post.selection == (Selection { handles: post.selection.handles, ..pre.selection })
    &&& forall|h: SceneEntityId| #[trigger]
        post.selection.handles@.contains(h) <==> h is Object && pre.drape.objects@.contains(h->Object_0)
    &&& post.drape.phase == DrapePhase::Designs && post.drape.objects@.len() == 0
    &&& if pairs.len() == 0 {
        post.steps == pre.steps
    } else {
        &&& post.steps@.len() == pre.steps@.len() + 1
        &&& post.steps@.drop_last() == pre.steps@
        &&& post.steps@.last().batch && !post.steps@.last().applied && post.steps@.last().project is None
        &&& replaces_all(post.steps@.last().edits@, pairs)
    }
}

/// What going on with the tool does: from the designs to the surfaces, then to
/// the drape itself. Without anything to go on with, nothing.
pub open spec fn drape_confirmed(pre: App, hits: Seq<Vec<Vec<Option<u64>>>>, post: App) -> bool {
    if pre.canvas.active_tool != ActiveTool::DrapeToTopology {
        post == pre
    } else if pre.drape.phase == DrapePhase::Designs {
        let ids = designs_in(pre, pre.selection.handles.order());
        if ids.len() == 0 {
            post == pre
        } else {
            &&& post == (App { selection: post.selection, drape: post.drape, frame: pre.frame.geometry(), ..pre })
            &&& post.selection == (Selection { handles: post.selection.handles, ..pre.selection })
            &&& post.selection.handles@ == Set::<SceneEntityId>::empty()
            &&& post.drape.phase == DrapePhase::Topologies && post.drape.objects@ == ids
        }
    } else if selected_bounds(pre.items.triangulations@, pre.selection.handles@).len() == 0 || pre.workspace.active() is None {
        post == pre
    } else {
        drape_applied(pre, pre.workspace.active()->0.document, hits, post)
    }
}

fn objects_as_handles(ids: &Vec<ObjectId>) -> (r: IdSet<SceneEntityId>)
    ensures
        forall|h: SceneEntityId| #[trigger] r@.contains(h) <==> h is Object && ids@.contains(h->Object_0),
{
    let mut r: IdSet<SceneEntityId> = IdSet::new();
    let mut i: usize = 0;
    while i < ids.len()
        invariant
            i <= ids.len(),
            forall|h: SceneEntityId| #[trigger] r@.contains(h) <==> h is Object && ids@.take(i as int).contains(h->Object_0),
        decreases ids.len() - i,
    {
        let ghost before = r@;
        r.insert(SceneEntityId::Object(ids[i]));
        proof {
            let now = ids@.take(i + 1);
            let had = ids@.take(i as int);
            assert(now =~= had.push(ids@[i as int]));
            assert forall|h: SceneEntityId| #[trigger] r@.contains(h) <==> h is Object && now.contains(h->Object_0) by {
                if h is Object && had.contains(h->Object_0) {
                    let k = choose|k: int| 0 <= k < had.len() && had[k] == h->Object_0;
                    assert(now[k] == h->Object_0);
                }
                assert(now[i as int] == ids@[i as int]);
                if h is Object && now.contains(h->Object_0) {
                    let k = choose|k: int| 0 <= k < now.len() && now[k] == h->Object_0;
                    if k < i {
                        assert(had[k] == h->Object_0);
                    }
                }
            }
        }
        i += 1;
    }
    assert(ids@.take(ids@.len() as int) =~= ids@);
    r
}

impl App {
    fn find_designs(&self) -> (r: Vec<ObjectId>)
        ensures
            r@ == designs_in(*self, self.selection.handles.order()),
    {
        let ids = self.active_project_object_ids();
        let handles = self.selection.handles.as_vec();
        let mut r: Vec<ObjectId> = Vec::new();
        let mut i: usize = 0;
        assert(handles@.take(0) =~= Seq::<SceneEntityId>::empty());
        while i < handles.len()
            invariant
                i <= handles.len(),
                ids@ == active_ids(self.workspace),
                r@ == designs_in(*self, handles@.take(i as int)),
            decreases handles.len() - i,
        {
            assert(handles@.take(i + 1).drop_last() =~= handles@.take(i as int));
            match handles[i] {
                SceneEntityId::Object(id) => {
                    if ids.contains(id) {
                        r.push(id);
                    }
                },
                _ => {},
            }
            i += 1;
        }
        assert(handles@.take(handles@.len() as int) =~= handles@);
        r
    }

    fn find_surfaces(&self) -> (r: Vec<Bounds>)
        ensures
            r@ == selected_bounds(self.items.triangulations@, self.selection.handles@),
    {
        let list = &self.items.triangulations;
        let mut r: Vec<Bounds> = Vec::new();
        let mut i: usize = 0;
        assert(list@.take(0) =~= Seq::<OpenTriangulation>::empty());
        while i < list.len()
            invariant
                i <= list.len(),
                r@ == selected_bounds(list@.take(i as int), self.selection.handles@),
            decreases list.len() - i,
        {
            assert(list@.take(i + 1).drop_last() =~= list@.take(i as int));
            if self.selection.handles.contains(SceneEntityId::Triangulation(list[i].id)) {
                r.push(list[i].bounds);
            }
            i += 1;
        }
        assert(list@.take(list@.len() as int) =~= list@);
        r
    }

    /// Goes on with the tool. `hits` holds for each object of the tool, each of
    /// its points and each selected surface, in the order of the list, where a
    /// line straight down through the point meets the surface.
    pub fn confirm_drape_selection(&mut self, hits: &Vec<Vec<Vec<Option<u64>>>>)
        requires
            old(self).drape.phase == DrapePhase::Topologies && old(self).workspace.active() is Some ==> all_hits_fit(
                old(self).workspace.active()->0.document,
                old(self).drape.objects@,
                selected_bounds(old(self).items.triangulations@, old(self).selection.handles@),
                hits@,
            ),
        ensures
            drape_confirmed(*old(self), hits@, *final(self)),
    {
        if self.canvas.active_tool != ActiveTool::DrapeToTopology {
            return ;
        }
        match self.drape.phase {
            DrapePhase::Designs => {
                let ids = self.find_designs();
                if ids.len() == 0 {
                    return ;
                }
                self.drape.objects = ids;
                self.drape.phase = DrapePhase::Topologies;
                self.selection.handles.clear();
                self.invalidate_geometry();
            },
            DrapePhase::Topologies => {
                let surfaces = self.find_surfaces();
                if surfaces.len() == 0 {
                    return ;
                }
                let edits = match self.workspace.active_project() {
                    Some(p) => find_replacements(&p.document, &self.drape.objects, &surfaces, hits),
                    None => {
                        return ;
                    },
                };
                self.apply_drape_to_topologies(edits);
            },
        }
    }

    fn apply_drape_to_topologies(&mut self, edits: Vec<Edit>)
        ensures
            *final(self) == (App {
                selection: final(self).selection,
                drape: final(self).drape,
                canvas: Canvas { active_tool: ActiveTool::Idle, ..old(self).canvas },
                frame: old(self).frame.geometry(),
                steps: final(self).steps,
                ..*old(self)
            }),
            final(self).selection == (Selection { handles: final(self).selection.handles, ..old(self).selection }),
            forall|h: SceneEntityId| #[trigger]
                final(self).selection.handles@.contains(h) <==> h is Object && old(self).drape.objects@.contains(h->Object_0),
            final(self).drape.phase == DrapePhase::Designs && final(self).drape.objects@.len() == 0,
            edits@.len() == 0 ==> final(self).steps == old(self).steps,
            edits@.len() > 0 ==> final(self).steps@.len() == old(self).steps@.len() + 1 && final(self).steps@.drop_last() == old(self).steps@
                && final(self).steps@.last().batch && !final(self).steps@.last().applied && final(self).steps@.last().project is None
                && final(self).steps@.last().edits == edits,
    {
        if edits.len() > 0 {
            self.execute_batch(edits);
            assert(self.steps@.drop_last() =~= old(self).steps@);
        }
        self.selection.handles = objects_as_handles(&self.drape.objects);
        self.drape.objects.clear();
        self.drape.phase = DrapePhase::Designs;
        self.canvas.active_tool = ActiveTool::Idle;
        self.invalidate_geometry();
    }

    /// Puts the tool down.
    pub fn cancel_drape(&mut self)
        ensures
            *final(self) == (App {
                drape: final(self).drape,
                canvas: Canvas { box_start_px: None, box_current_px: None, active_tool: ActiveTool::Idle, ..old(self).canvas },
                selection: final(self).selection,
                frame: old(self).frame.geometry(),
                ..*old(self)
            }),
            final(self).drape.phase == DrapePhase::Designs && final(self).drape.objects@.len() == 0,
            final(self).selection == (Selection { handles: final(self).selection.handles, ..old(self).selection }),
            final(self).selection.handles@ == Set::<SceneEntityId>::empty(),
    {
        self.drape.phase = DrapePhase::Designs;
        self.drape.objects.clear();
        self.canvas.box_start_px = None;
        self.canvas.box_current_px = None;
        self.selection.handles.clear();
        self.canvas.active_tool = ActiveTool::Idle;
        self.invalidate_geometry();
    }
}

} // verus!
