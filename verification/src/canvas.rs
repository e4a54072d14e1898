//! Presses, releases and hovers on the viewport.

use crate::document::{closed_ring, drill_pattern_boundary, is_closed_ring, is_drill_pattern_boundary, Document, Object, ObjectModel};
use crate::drawing::move_tool::move_cancelled;
use crate::ids::{toggled_each, toggled_one, DrillHoleId, HoleRef, IdSet, ObjectId, SceneEntityId, TieRef, TriangulationId};
use crate::ieee::Point3;
use crate::items::{dataset_index, triangulation_index, OpenDrillHoleDataset};
use crate::search::lemma_first_index;
use crate::state::{
    activated, ActiveTool, App, Canvas, ClipRing, Pattern, Selection, SurfaceField, SurfacePair, Surfaces, TriangulationPickTarget, WorkspaceKind,
};
use crate::text::{file_part, file_stem, join3, known_path, stem_of, text_of, trim, trimmed};
use crate::workspace::{index_of_object, Workspace};
use vstd::prelude::*;
use vstd::string::*;

verus! {

/// The name of what is made from another: the source's stem, then a word for
/// how it was made; the source's own name where the stem is blank.
pub open spec fn derived_name(name: Seq<char>, stem: Option<Seq<char>>, suffix: Seq<char>) -> Seq<char> {
    let t = trimmed(
        match stem {
            Some(s) => s,
            None => name,
        },
    );
    if t.len() == 0 {
        name
    } else {
        t + seq![' '] + suffix
    }
}

/// The name of what is made from another, its stem given.
pub fn derived_name_from_stem(name: &str, stem: Option<String>, suffix: &str) -> (r: String)
    ensures
        r@ == derived_name(name@, text_of(stem), suffix@),
{
    let t = match &stem {
        Some(s) => trim(s.as_str()),
        None => trim(name),
    };
    if t.as_str().unicode_len() == 0 {
        name.to_owned()
    } else {
        proof {
            reveal_strlit(" ");
            assert(" "@ =~= seq![' ']);
        }
        join3(t.as_str(), " ", suffix)
    }
}

/// The name is one that may be given to what is made from `source`.
pub open spec fn may_be_derived(made: Seq<char>, source: Seq<char>, suffix: Seq<char>) -> bool {
    &&& exists|stem: Option<Seq<char>>| made == #[trigger] derived_name(source, stem, suffix)
    &&& known_path(source) ==> made == derived_name(source, Some(stem_of(file_part(source))), suffix)
}

/// The name of what is made from another.
pub fn derived_triangulation_name(name: &str, suffix: &str) -> (r: String)
    ensures
        may_be_derived(r@, name@, suffix@),
{
    let stem = file_stem(name);
    derived_name_from_stem(name, stem, suffix)
}

/// A name that follows its source while nobody has typed another.
pub fn update_auto_derived_name(output: &mut String, is_auto: bool, source: &str, suffix: &str)
    ensures
        is_auto ==> may_be_derived(final(output)@, source@, suffix@),
        !is_auto ==> *final(output) == *old(output),
{
    if is_auto {
        *output = derived_triangulation_name(source, suffix);
    }
}

/// What lies under the pointer, as the renderer tells it.
#[derive(Clone, Copy, Debug)]
pub struct ScenePick {
    pub entity: SceneEntityId,
    pub hole: Option<HoleRef>,
    pub world: Point3,
}

/// What lies under the pointer, by what is looked for: a surface, a design
/// object, anything that can be selected, or the working plane. Datasets that
/// a pick may not land on are in the way of nothing.
#[derive(Clone, Copy, Debug)]
pub struct CursorPicks {
    pub surface: Option<(SceneEntityId, Point3)>,
    pub design: Option<(SceneEntityId, Point3)>,
    pub scene: Option<ScenePick>,
    pub world: Option<Point3>,
}

/// How a pick changes the selection.
#[derive(Clone, Copy, PartialEq, Eq, Structural, Debug)]
pub enum SelectionMode {
    Replace,
    Add,
    Toggle,
}

/// The selection after a pick.
pub open spec fn picked<T>(selected: Set<T>, key: T, mode: SelectionMode) -> Set<T> {
    match mode {
        SelectionMode::Replace => Set::<T>::empty().insert(key),
        SelectionMode::Add => selected.insert(key),
        SelectionMode::Toggle => toggled_one(selected, key),
    }
}

/// The selection after a marquee over `hits`.
pub open spec fn marquee<T>(selected: Set<T>, hits: Seq<T>, shift: bool, control: bool) -> Set<T> {
    if shift {
        toggled_each(selected, hits)
    } else if control {
        selected.union(hits.to_set())
    } else {
        hits.to_set()
    }
}

/// Shift turns round, control adds, and a plain click replaces unless it is on
/// something already selected.
pub open spec fn mode_for(shift: bool, control: bool, already: bool) -> SelectionMode {
    if shift {
        SelectionMode::Toggle
    } else if control {
        SelectionMode::Add
    } else if already {
        SelectionMode::Toggle
    } else {
        SelectionMode::Replace
    }
}

fn selection_mode(shift: bool, control: bool, already: bool) -> (r: SelectionMode)
    ensures
        r == mode_for(shift, control, already),
{
    if shift {
        SelectionMode::Toggle
    } else if control {
        SelectionMode::Add
    } else if already {
        SelectionMode::Toggle
    } else {
        SelectionMode::Replace
    }
}

/// The handle is of an entity that a click takes out of the selection again:
/// a surface, a block model, a dataset or a point cloud.
pub open spec fn whole_entity(handle: SceneEntityId) -> bool {
    handle is Triangulation || handle is BlockModel || handle is DrillHole || handle is PointCloud
}

/// The tool will take what the pointer landed on.
pub open spec fn accepts(tool: ActiveTool, pick: ScenePick) -> bool {
    match tool {
        ActiveTool::Move => pick.entity is Object,
        ActiveTool::MoveCollar => pick.hole is Some,
        ActiveTool::RotateCollar => pick.hole is Some,
        _ => true,
    }
}

/// The object ids of the active project.
pub open spec fn active_ids(w: Workspace) -> Set<ObjectId> {
    match w.active() {
        Some(p) => p.document.object_ids(),
        None => Set::empty(),
    }
}

/// A handle on an object that fits.
pub open spec fn object_handle(handle: Option<(SceneEntityId, Point3)>) -> Option<ObjectId> {
    match handle {
        Some((SceneEntityId::Object(id), _)) => Some(id),
        _ => None,
    }
}

/// The name of the layer that the object is on, or the text given.
pub open spec fn layer_name_of(scene: Document, o: ObjectModel, missing: Seq<char>) -> Seq<char> {
    match scene.layer_model(o.layer()) {
        Some(l) => l.name,
        None => missing,
    }
}

/// The marquee starts where the pointer is.
pub open spec fn marquee_started(c: Canvas) -> Canvas {
    Canvas { box_start_px: c.cursor_px, box_current_px: c.cursor_px, ..c }
}

impl App {
    /// Whether the active tool will take what the pointer landed on.
    pub fn tool_accepts_pick(&self, pick: &ScenePick) -> (r: bool)
        ensures
            r == accepts(self.canvas.active_tool, *pick),
    {
        match self.canvas.active_tool {
            ActiveTool::Move => match pick.entity {
                SceneEntityId::Object(_) => true,
                _ => false,
            },
            ActiveTool::MoveCollar => pick.hole.is_some(),
            ActiveTool::RotateCollar => pick.hole.is_some(),
            _ => true,
        }
    }

    /// The object ids of the active project.
    pub fn active_project_object_ids(&self) -> (r: IdSet<ObjectId>)
        ensures
            r@ == active_ids(self.workspace),
    {
        let mut r: IdSet<ObjectId> = IdSet::new();
        match self.workspace.active_project() {
            Some(project) => {
                let objects = &project.document.objects;
                let ghost ids = objects@.map_values(|o: Object| o@.id());
                let mut i: usize = 0;
                assert(ids.take(0).to_set() =~= Set::<ObjectId>::empty());
                while i < objects.len()
                    invariant
                        i <= objects.len(),
                        ids == objects@.map_values(|o: Object| o@.id()),
                        r@ == ids.take(i as int).to_set(),
                    decreases objects.len() - i,
                {
                    r.insert(objects[i].id());
                    proof {
                        crate::ids::lemma_take_to_set(ids, i as int);
                    }
                    i += 1;
                }
                assert(ids.take(objects@.len() as int) =~= ids);
            },
            None => {},
        }
        r
    }

    /// The datasets that a pick may land on: all of them, but in the drill and
    /// blast workspace only the active one.
    pub fn selectable_drill_holes(&self) -> (r: &[OpenDrillHoleDataset])
        ensures
            r@ == selectable(*self),
    {
        if self.canvas.workspace != WorkspaceKind::DrillAndBlast {
            return self.items.drill_holes.as_slice();
        }
        let n: usize = self.items.drill_holes.len();
        let at: usize = match self.canvas.active_drill_hole {
            Some(id) => match self.items.find_dataset(id) {
                Some(i) => i,
                None => n,
            },
            None => n,
        };
        let end: usize = if n > at {
            at + 1
        } else {
            n
        };
        let r = vstd::slice::slice_subrange(self.items.drill_holes.as_slice(), at, end);
        assert(r@ =~= selectable(*self));
        r
    }

    /// Whether a pick may land on the dataset.
    pub fn is_in_reach(&self, id: DrillHoleId) -> (r: bool)
        ensures
            r == in_reach(*self, id),
    {
        let s = self.selectable_drill_holes();
        let mut i: usize = 0;
        while i < s.len()
            invariant
                i <= s@.len(),
                s@ == selectable(*self),
                forall|j: int| 0 <= j < i ==> (#[trigger] s@[j]).id != id,
            decreases s.len() - i,
        {
            if s[i].id == id {
                return true;
            }
            i += 1;
        }
        false
    }

    fn is_pick_in_reach(&self, pick: &ScenePick) -> (r: bool)
        ensures
            r == pick_in_reach(*self, *pick),
    {
        let entity = match pick.entity {
            SceneEntityId::DrillHole(id) => self.is_in_reach(id),
            _ => true,
        };
        let hole = match pick.hole {
            Some(hole) => self.is_in_reach(hole.dataset),
            None => true,
        };
        entity && hole
    }

    /// Selects, adds or turns round one handle.
    pub fn on_canvas_pick(&mut self, handle: SceneEntityId, world: Point3, mode: SelectionMode)
        ensures
            *final(self) == (App { selection: final(self).selection, ..*old(self) }),
            handle_picked(old(self).selection, handle, world, mode, final(self).selection),
    {
        self.selection.pick_handle(handle, world, mode);
    }

    /// Selects, adds or turns round one hole.
    pub fn on_drill_hole_pick(&mut self, hole: HoleRef, world: Point3, mode: SelectionMode)
        ensures
            *final(self) == (App { selection: final(self).selection, ..*old(self) }),
            hole_picked(old(self).selection, hole, world, mode, final(self).selection),
    {
        self.selection.pick_hole(hole, world, mode);
    }
}

impl Selection {
    fn pick_handle(&mut self, handle: SceneEntityId, world: Point3, mode: SelectionMode)
        ensures
            handle_picked(*old(self), handle, world, mode, *final(self)),
    {
        match mode {
            SelectionMode::Replace => {
                self.handles.clear();
                self.holes.clear();
                self.ties.clear();
                self.handles.insert(handle);
            },
            SelectionMode::Add => {
                self.handles.insert(handle);
            },
            SelectionMode::Toggle => {
                if !self.handles.remove(handle) {
                    assert(self.handles@ =~= old(self).handles@);
                    self.handles.insert(handle);
                }
            },
        }
        self.last_pick = Some(world);
    }

    fn pick_hole(&mut self, hole: HoleRef, world: Point3, mode: SelectionMode)
        ensures
            hole_picked(*old(self), hole, world, mode, *final(self)),
    {
        match mode {
            SelectionMode::Replace => {
                self.handles.clear();
                self.holes.clear();
                self.ties.clear();
                self.holes.insert(hole);
            },
            SelectionMode::Add => {
                self.holes.insert(hole);
            },
            SelectionMode::Toggle => {
                if !self.holes.remove(hole) {
                    assert(self.holes@ =~= old(self).holes@);
                    self.holes.insert(hole);
                }
            },
        }
        self.last_pick = Some(world);
    }

    /// Takes what a press landed on into the selection: a hole where holes are
    /// picked one at a time, else the entity.
    fn take(&mut self, pick: ScenePick, hole: Option<HoleRef>, shift: bool, control: bool)
        ensures
            taken(*old(self), pick, hole, shift, control, *final(self)),
    {
        match hole {
            Some(hole) => {
                let already = self.holes.contains(hole);
                self.pick_hole(hole, pick.world, selection_mode(shift, control, already));
            },
            None => {
                let whole = match pick.entity {
                    SceneEntityId::Triangulation(_) => true,
                    SceneEntityId::BlockModel(_) => true,
                    SceneEntityId::DrillHole(_) => true,
                    SceneEntityId::PointCloud(_) => true,
                    _ => false,
                };
                let already = whole && self.handles.contains(pick.entity);
                self.pick_handle(pick.entity, pick.world, selection_mode(shift, control, already));
            },
        }
    }
}

/// What taking a pick into the selection does.
pub open spec fn taken(pre: Selection, pick: ScenePick, hole: Option<HoleRef>, shift: bool, control: bool, post: Selection) -> bool {
    match hole {
        Some(h) => hole_picked(pre, h, pick.world, mode_for(shift, control, pre.holes@.contains(h)), post),
        None => handle_picked(
            pre,
            pick.entity,
            pick.world,
            mode_for(shift, control, whole_entity(pick.entity) && pre.handles@.contains(pick.entity)),
            post,
        ),
    }
}

/// The datasets that a pick may land on.
pub open spec fn selectable(app: App) -> Seq<OpenDrillHoleDataset> {
    let all = app.items.drill_holes@;
    if app.canvas.workspace != WorkspaceKind::DrillAndBlast {
        all
    } else {
        match app.canvas.active_drill_hole {
            Some(id) if dataset_index(all, id) < all.len() => seq![all[dataset_index(all, id)]],
            _ => Seq::empty(),
        }
    }
}

/// A pick may land on the dataset.
pub open spec fn in_reach(app: App, id: DrillHoleId) -> bool {
    exists|i: int| 0 <= i < selectable(app).len() && (#[trigger] selectable(app)[i]).id == id
}

/// What is told of the pointer may be picked: a dataset or a hole only where a
/// pick may land on it.
pub open spec fn pick_in_reach(app: App, pick: ScenePick) -> bool {
    &&& pick.entity matches SceneEntityId::DrillHole(id) ==> in_reach(app, id)
    &&& pick.hole matches Some(hole) ==> in_reach(app, hole.dataset)
}

/// Drill and blast works on one dataset at a time: there a pick lands on none
/// but the active one, and on none at all until one is chosen. Elsewhere it
/// lands on any that is open.
pub proof fn law_picks_stay_on_the_active_dataset(app: App, id: DrillHoleId)
    ensures
        app.canvas.workspace == WorkspaceKind::DrillAndBlast && in_reach(app, id) ==> app.canvas.active_drill_hole == Some(id),
        app.canvas.workspace == WorkspaceKind::DrillAndBlast && app.canvas.active_drill_hole is None ==> !in_reach(app, id),
        app.canvas.workspace != WorkspaceKind::DrillAndBlast ==> (in_reach(app, id) <==> dataset_index(app.items.drill_holes@, id)
            < app.items.drill_holes@.len()),
        app.canvas.active_drill_hole == Some(id) && dataset_index(app.items.drill_holes@, id) < app.items.drill_holes@.len() ==> in_reach(app, id),
{
    let all = app.items.drill_holes@;
    let s = selectable(app);
    let f = |d: OpenDrillHoleDataset| d.id == id;
    lemma_first_index(all, f);
    if let Some(active) = app.canvas.active_drill_hole {
        lemma_first_index(all, |d: OpenDrillHoleDataset| d.id == active);
    }
    if dataset_index(all, id) < all.len() {
        let i = dataset_index(all, id);
        assert(f(all[i]));
        if app.canvas.workspace != WorkspaceKind::DrillAndBlast {
            assert(s[i].id == id);
        } else if app.canvas.active_drill_hole == Some(id) {
            assert(s[0].id == id);
        }
    }
    if in_reach(app, id) {
        let i = choose|i: int| 0 <= i < s.len() && (#[trigger] s[i]).id == id;
        if app.canvas.workspace != WorkspaceKind::DrillAndBlast {
            assert(f(all[i]));
        }
    }
}

/// What picking a handle does to the selection: a plain pick takes the place
/// of everything selected.
pub open spec fn handle_picked(pre: Selection, handle: SceneEntityId, world: Point3, mode: SelectionMode, post: Selection) -> bool {
    &&& post.handles@ == picked(pre.handles@, handle, mode)
    &&& post.last_pick == Some(world)
    &&& if mode == SelectionMode::Replace {
        &&& post.holes@ == Set::<HoleRef>::empty()
        &&& post.ties@ == Set::<TieRef>::empty()
        &&& post == (Selection { handles: post.handles, holes: post.holes, ties: post.ties, last_pick: post.last_pick, ..pre })
    } else {
        post == (Selection { handles: post.handles, last_pick: post.last_pick, ..pre })
    }
}

/// What picking a hole does to the selection.
pub open spec fn hole_picked(pre: Selection, hole: HoleRef, world: Point3, mode: SelectionMode, post: Selection) -> bool {
    &&& post.holes@ == picked(pre.holes@, hole, mode)
    &&& post.last_pick == Some(world)
    &&& if mode == SelectionMode::Replace {
        &&& post.handles@ == Set::<SceneEntityId>::empty()
        &&& post.ties@ == Set::<TieRef>::empty()
        &&& post == (Selection { handles: post.handles, holes: post.holes, ties: post.ties, last_pick: post.last_pick, ..pre })
    } else {
        post == (Selection { holes: post.holes, last_pick: post.last_pick, ..pre })
    }
}

/// The name follows its source while nobody has typed another.
pub open spec fn name_followed(pre: String, post: String, auto: bool, source: Seq<char>, suffix: Seq<char>) -> bool {
    if auto {
        may_be_derived(post@, source, suffix)
    } else {
        post == pre
    }
}

/// A field of a one-surface dialog before and after a pick.
pub open spec fn field_filled(pre: SurfaceField, id: TriangulationId, source: Seq<char>, suffix: Seq<char>, post: SurfaceField) -> bool {
    &&& post == (SurfaceField { surface: Some(id), name: post.name, ..pre })
    &&& name_followed(pre.name, post.name, pre.name_auto, source, suffix)
}

/// The field with the id taken out of it.
pub open spec fn other_than(field: Option<TriangulationId>, id: TriangulationId) -> Option<TriangulationId> {
    if field == Some(id) {
        None
    } else {
        field
    }
}

/// The surface dialogs before and after a pick for a field. A surface that is
/// picked for one field of a pair leaves the other.
pub open spec fn fields_picked(pre: Surfaces, target: TriangulationPickTarget, id: TriangulationId, name: Seq<char>, post: Surfaces) -> bool {
    let done = Surfaces { pick_target: None, ..pre };
    match target {
        TriangulationPickTarget::ClipSurface => {
            &&& post == (Surfaces { clip: post.clip, ..done })
            &&& field_filled(pre.clip, id, name, "Clipped"@, post.clip)
        },
        TriangulationPickTarget::SliceSurface => {
            &&& post == (Surfaces { slice: post.slice, ..done })
            &&& field_filled(pre.slice, id, name, "Sliced"@, post.slice)
        },
        TriangulationPickTarget::TrimTopology => post == (Surfaces {
            trim: SurfacePair { topology: Some(id), other: other_than(pre.trim.other, id), ..pre.trim },
            ..done
        }),
        TriangulationPickTarget::TrimSurface => {
            &&& post == (Surfaces { trim: post.trim, ..done })
            &&& post.trim == (SurfacePair { other: Some(id), topology: other_than(pre.trim.topology, id), name: post.trim.name, ..pre.trim })
            &&& name_followed(pre.trim.name, post.trim.name, pre.trim.name_auto, name, "Trimmed"@)
        },
        TriangulationPickTarget::CutPitTopology => {
            &&& post == (Surfaces { cut_pit: post.cut_pit, ..done })
            &&& post.cut_pit == (SurfacePair {
                topology: Some(id),
                other: other_than(pre.cut_pit.other, id),
                name: post.cut_pit.name,
                ..pre.cut_pit
            })
            &&& name_followed(pre.cut_pit.name, post.cut_pit.name, pre.cut_pit.name_auto, name, "Cut"@)
        },
        TriangulationPickTarget::CutPitShell => post == (Surfaces {
            cut_pit: SurfacePair { other: Some(id), topology: other_than(pre.cut_pit.topology, id), ..pre.cut_pit },
            ..done
        }),
        TriangulationPickTarget::IncludeTopology => {
            &&& post == (Surfaces { with_shell: post.with_shell, ..done })
            &&& post.with_shell == (SurfacePair {
                topology: Some(id),
                other: other_than(pre.with_shell.other, id),
                name: post.with_shell.name,
                ..pre.with_shell
            })
            &&& name_followed(pre.with_shell.name, post.with_shell.name, pre.with_shell.name_auto, name, "With Shell"@)
        },
        TriangulationPickTarget::IncludeShape => post == (Surfaces {
            with_shell: SurfacePair { other: Some(id), topology: other_than(pre.with_shell.topology, id), ..pre.with_shell },
            ..done
        }),
        TriangulationPickTarget::ContourSurface => {
            &&& post == (Surfaces { contour: post.contour, ..done })
            &&& post.contour == (SurfaceField { surface: Some(id), name: post.contour.name, ..pre.contour })
            &&& if pre.contour.name_auto {
                post.contour.name@ == name
            } else {
                post.contour.name == pre.contour.name
            }
        },
    }
}

/// The two fields of every pair are different surfaces.
pub open spec fn pairs_differ(s: Surfaces) -> bool {
    &&& s.trim.topology is Some ==> s.trim.topology != s.trim.other
    &&& s.cut_pit.topology is Some ==> s.cut_pit.topology != s.cut_pit.other
    &&& s.with_shell.topology is Some ==> s.with_shell.topology != s.with_shell.other
}

/// No pick gives one surface to both fields of a pair.
pub proof fn law_pairs_stay_different(pre: Surfaces, target: TriangulationPickTarget, id: TriangulationId, name: Seq<char>, post: Surfaces)
    requires
        pairs_differ(pre),
        fields_picked(pre, target, id, name, post),
    ensures
        pairs_differ(post),
{
}

/// What a pick for a dialog's field does.
pub open spec fn field_pick_done(pre: App, target: TriangulationPickTarget, id: TriangulationId, name: Seq<char>, post: App) -> bool {
    &&& fields_picked(pre.surfaces, target, id, name, post.surfaces)
    &&& post.canvas == (Canvas { hover_label: None, hover_handles: post.canvas.hover_handles, ..pre.canvas })
    &&& post.canvas.hover_handles@ == Set::<SceneEntityId>::empty()
    &&& post == (App { surfaces: post.surfaces, canvas: post.canvas, frame: pre.frame.geometry(), ..pre })
}

/// The name of the surface, or a word for one that is gone.
pub open spec fn surface_name(app: App, id: TriangulationId) -> Seq<char> {
    let i = triangulation_index(app.items.triangulations@, id);
    if i < app.items.triangulations@.len() {
        app.items.triangulations@[i].name@
    } else {
        "Surface"@
    }
}

/// The text that names a polyline by its layer.
pub open spec fn polyline_on(layer: Seq<char>) -> Seq<char> {
    "Polyline on '"@ + layer + "'"@
}

/// The object that a pattern may be bounded by, if the pointer is on one.
pub open spec fn boundary_pick(app: App, picks: CursorPicks) -> Option<(ObjectId, ObjectModel)> {
    match object_handle(picks.design) {
        Some(id) => match app.scene.object(id) {
            Some(o) if active_ids(app.workspace).contains(id) && drill_pattern_boundary(o) => Some((id, o)),
            _ => None,
        },
        None => None,
    }
}

/// The ring that a surface may be clipped by, if the pointer is on one.
pub open spec fn ring_pick(app: App, picks: CursorPicks) -> Option<(ObjectId, ObjectModel)> {
    match object_handle(picks.design) {
        Some(id) => match app.scene.object(id) {
            Some(o) if closed_ring(o) => Some((id, o)),
            _ => None,
        },
        None => None,
    }
}

/// A gesture that stands over the last target is put down when another is picked.
pub open spec fn gesture_put_down(pre: App, post: App) -> bool {
    if pre.canvas.active_tool.moves() || pre.canvas.active_tool.turns() {
        move_cancelled(pre, post)
    } else {
        post == pre
    }
}

/// A press on nothing begins a marquee.
pub open spec fn press_begins_marquee(tool: ActiveTool) -> bool {
    tool == ActiveTool::Idle || tool.moves() || tool.turns()
}

/// What the pointer is on, as far as it may be picked and the tool will take
/// it.
pub open spec fn taken_pick(app: App, picks: CursorPicks) -> Option<ScenePick> {
    match picks.scene {
        Some(p) if pick_in_reach(app, p) && accepts(app.canvas.active_tool, p) => Some(p),
        _ => None,
    }
}

/// A press in drill and blast takes holes and datasets of the active one alone.
pub proof fn law_press_stays_on_the_active_dataset(app: App, picks: CursorPicks)
    requires
        app.canvas.workspace == WorkspaceKind::DrillAndBlast,
    ensures
        taken_pick(app, picks) matches Some(pick) ==> {
            &&& pick.hole matches Some(hole) ==> app.canvas.active_drill_hole == Some(hole.dataset)
            &&& pick.entity matches SceneEntityId::DrillHole(id) ==> app.canvas.active_drill_hole == Some(id)
        },
{
    if let Some(pick) = taken_pick(app, picks) {
        if let Some(hole) = pick.hole {
            law_picks_stay_on_the_active_dataset(app, hole.dataset);
        }
        if let SceneEntityId::DrillHole(id) = pick.entity {
            law_picks_stay_on_the_active_dataset(app, id);
        }
    }
}

/// The hole that a pick is of, where holes are picked one at a time.
pub open spec fn taken_hole(app: App, pick: ScenePick) -> Option<HoleRef> {
    if app.canvas.workspace == WorkspaceKind::DrillAndBlast {
        pick.hole
    } else {
        None
    }
}

/// What a press on something that the tool takes does.
pub open spec fn press_on(pre: App, pick: ScenePick, post: App) -> bool {
    if pick.entity is Triangulation {
        post == (App {
            canvas: Canvas { pending_topology_click: Some((pick.entity, pick.world)), ..marquee_started(pre.canvas) },
            ..pre
        })
    } else {
        let workspace = match pick.entity {
            SceneEntityId::Object(id) => Workspace {
                active_index: activated(pre.workspace, index_of_object(pre.workspace.projects@, id)),
                ..pre.workspace
            },
            _ => pre.workspace,
        };
        let c = pre.canvas;
        &&& post == (App {
            workspace,
            selection: post.selection,
            canvas: Canvas { active_triangulation: None, ..c },
            frame: pre.frame.geometry(),
            ..pre
        })
        &&& taken(pre.selection, pick, taken_hole(pre, pick), c.shift, c.control, post.selection)
    }
}

/// What a press on nothing that the tool takes does.
pub open spec fn press_on_nothing(pre: App, world: Option<Point3>, post: App) -> bool {
    let c = Canvas { active_triangulation: None, ..pre.canvas };
    if press_begins_marquee(c.active_tool) {
        post == (App { canvas: marquee_started(c), frame: pre.frame.geometry(), ..pre })
    } else {
        match world {
            None => post == (App { canvas: c, ..pre }),
            Some(w) => if pre.workspace.active() is Some {
                post == (App { canvas: Canvas { last_click: Some(w), ..c }, frame: pre.frame.geometry(), ..pre })
            } else {
                &&& post == (App { canvas: c, selection: post.selection, frame: pre.frame.geometry(), ..pre })
                &&& post.selection == (Selection { handles: post.selection.handles, ..pre.selection })
                &&& post.selection.handles@ == Set::<SceneEntityId>::empty()
            },
        }
    }
}

/// What a press in plain selection does.
pub open spec fn press_selects(pre: App, picks: CursorPicks, post: App) -> bool {
    exists|mid: App| #[trigger]
        gesture_put_down(pre, mid) && match taken_pick(mid, picks) {
            Some(pick) => press_on(mid, pick, post),
            None => press_on_nothing(mid, picks.world, post),
        }
}

/// What a press does. Dialogs that wait for a pick come first, then the tools
/// that defer to the release, then plain selection.
pub open spec fn pressed(before: App, picks: CursorPicks, post: App) -> bool {
    let pre = App { canvas: Canvas { pending_topology_click: None, ..before.canvas }, ..before };
    match pre.surfaces.pick_target {
        Some(target) => match picks.surface {
            Some((SceneEntityId::Triangulation(id), _)) => field_pick_done(pre, target, id, surface_name(pre, id), post),
            _ => post == pre,
        },
        None => if pre.pattern.awaiting_shape_pick {
            match boundary_pick(pre, picks) {
                Some((id, o)) => {
                    &&& post == (App {
                        pattern: post.pattern,
                        canvas: Canvas { hover_label: None, highlight: Some(id), ..pre.canvas },
                        frame: pre.frame.geometry(),
                        ..pre
                    })
                    &&& post.pattern == (Pattern { awaiting_shape_pick: false, boundary: Some(id), boundary_name: post.pattern.boundary_name })
                    &&& post.pattern.boundary_name@ == polyline_on(layer_name_of(pre.scene, o, "?"@))
                },
                None => post == pre,
            }
        } else if pre.canvas.active_tool == ActiveTool::DrapeToTopology {
            post == (App { canvas: marquee_started(pre.canvas), ..pre })
        } else if pre.surfaces.clip_ring.awaiting_pick {
            match ring_pick(pre, picks) {
                Some((id, o)) => {
                    &&& post == (App {
                        surfaces: Surfaces { clip_ring: post.surfaces.clip_ring, ..pre.surfaces },
                        canvas: Canvas { hover_label: None, highlight: Some(id), ..pre.canvas },
                        frame: pre.frame.geometry(),
                        ..pre
                    })
                    &&& post.surfaces.clip_ring == (ClipRing { awaiting_pick: false, object: Some(id), name: post.surfaces.clip_ring.name })
                    &&& post.surfaces.clip_ring.name@ == match pre.scene.layer_model(o.layer()) {
                        Some(l) => polyline_on(l.name),
                        None => "Polyline"@,
                    }
                },
                None => post == pre,
            }
        } else if pre.surfaces.create_open {
            post == (App { canvas: marquee_started(pre.canvas), ..pre })
        } else if pre.workspace.active() is None && pre.items.triangulations@.len() == 0 {
            post == pre
        } else {
            press_selects(pre, picks, post)
        },
    }
}

impl Surfaces {
    /// Fills a field of a dialog with a surface.
    pub fn fill(&mut self, target: TriangulationPickTarget, id: TriangulationId, name: &str)
        ensures
            fields_picked(*old(self), target, id, name@, *final(self)),
    {
        match target {
            TriangulationPickTarget::ClipSurface => {
                self.clip.surface = Some(id);
                let auto = self.clip.name_auto;
                update_auto_derived_name(&mut self.clip.name, auto, name, "Clipped");
            },
            TriangulationPickTarget::SliceSurface => {
                self.slice.surface = Some(id);
                let auto = self.slice.name_auto;
                update_auto_derived_name(&mut self.slice.name, auto, name, "Sliced");
            },
            TriangulationPickTarget::TrimTopology => {
                self.trim.topology = Some(id);
                if is_surface(self.trim.other, id) {
                    self.trim.other = None;
                }
            },
            TriangulationPickTarget::TrimSurface => {
                self.trim.other = Some(id);
                if is_surface(self.trim.topology, id) {
                    self.trim.topology = None;
                }
                let auto = self.trim.name_auto;
                update_auto_derived_name(&mut self.trim.name, auto, name, "Trimmed");
            },
            TriangulationPickTarget::CutPitTopology => {
                self.cut_pit.topology = Some(id);
                if is_surface(self.cut_pit.other, id) {
                    self.cut_pit.other = None;
                }
                let auto = self.cut_pit.name_auto;
                update_auto_derived_name(&mut self.cut_pit.name, auto, name, "Cut");
            },
            TriangulationPickTarget::CutPitShell => {
                self.cut_pit.other = Some(id);
                if is_surface(self.cut_pit.topology, id) {
                    self.cut_pit.topology = None;
                }
            },
            TriangulationPickTarget::IncludeTopology => {
                self.with_shell.topology = Some(id);
                if is_surface(self.with_shell.other, id) {
                    self.with_shell.other = None;
                }
                let auto = self.with_shell.name_auto;
                update_auto_derived_name(&mut self.with_shell.name, auto, name, "With Shell");
            },
            TriangulationPickTarget::IncludeShape => {
                self.with_shell.other = Some(id);
                if is_surface(self.with_shell.topology, id) {
                    self.with_shell.topology = None;
                }
            },
            TriangulationPickTarget::ContourSurface => {
                self.contour.surface = Some(id);
                if self.contour.name_auto {
                    self.contour.name = name.to_owned();
                }
            },
        }
        self.pick_target = None;
    }
}

impl App {
    /// Fills a field of a dialog with the surface that was picked.
    pub fn apply_triangulation_field_pick(&mut self, target: TriangulationPickTarget, id: TriangulationId, name: &str)
        ensures
            field_pick_done(*old(self), target, id, name@, *final(self)),
    {
        self.surfaces.fill(target, id, name);
        self.canvas.hover_label = None;
        self.canvas.hover_handles.clear();
        self.invalidate_geometry();
    }

    /// The marquee starts where the pointer is.
    fn start_marquee(&mut self)
        ensures
            *final(self) == (App { canvas: marquee_started(old(self).canvas), ..*old(self) }),
    {
        self.canvas.box_start_px = self.canvas.cursor_px;
        self.canvas.box_current_px = self.canvas.cursor_px;
    }

    /// A press of the primary button.
    pub fn begin_select_or_drag(&mut self, picks: CursorPicks)
        ensures
            pressed(*old(self), picks, *final(self)),
    {
        self.canvas.pending_topology_click = None;
        match self.surfaces.pick_target {
            Some(target) => {
                match picks.surface {
                    Some((SceneEntityId::Triangulation(id), _)) => {
                        let name = match self.items.find_triangulation(id) {
                            Some(i) => self.items.triangulations[i].name.clone(),
                            None => "Surface".to_owned(),
                        };
                        self.apply_triangulation_field_pick(target, id, name.as_str());
                    },
                    _ => {},
                }
                return ;
            },
            None => {},
        }
        if self.pattern.awaiting_shape_pick {
            self.pick_pattern_boundary(picks);
            return ;
        }
        if self.canvas.active_tool == ActiveTool::DrapeToTopology {
            self.start_marquee();
            return ;
        }
        if self.surfaces.clip_ring.awaiting_pick {
            self.pick_clip_ring(picks);
            return ;
        }
        if self.surfaces.create_open {
            self.start_marquee();
            return ;
        }
        if !self.workspace.has_active_project() && self.items.triangulations.len() == 0 {
            return ;
        }
        self.press_in_selection(picks);
    }

    fn pick_pattern_boundary(&mut self, picks: CursorPicks)
        ensures
            match boundary_pick(*old(self), picks) {
                Some((id, o)) => {
                    &&& *final(self) == (App {
                        pattern: final(self).pattern,
                        canvas: Canvas { hover_label: None, highlight: Some(id), ..old(self).canvas },
                        frame: old(self).frame.geometry(),
                        ..*old(self)
                    })
                    &&& final(self).pattern == (Pattern {
                        awaiting_shape_pick: false,
                        boundary: Some(id),
                        boundary_name: final(self).pattern.boundary_name,
                    })
                    &&& final(self).pattern.boundary_name@ == polyline_on(layer_name_of(old(self).scene, o, "?"@))
                },
                None => *final(self) == *old(self),
            },
    {
        match picks.design {
            Some((SceneEntityId::Object(id), _)) => {
                if !self.active_project_object_ids().contains(id) {
                    return ;
                }
                let name = match self.scene.get_object(id) {
                    Some(object) => {
                        if !is_drill_pattern_boundary(object) {
                            return ;
                        }
                        match self.scene.layer(object.layer()) {
                            Some(layer) => join3("Polyline on '", layer.name.as_str(), "'"),
                            None => join3("Polyline on '", "?", "'"),
                        }
                    },
                    None => {
                        return ;
                    },
                };
                self.pattern.boundary = Some(id);
                self.pattern.boundary_name = name;
                self.pattern.awaiting_shape_pick = false;
                self.canvas.hover_label = None;
                self.canvas.highlight = Some(id);
                self.invalidate_geometry();
            },
            _ => {},
        }
    }

    fn pick_clip_ring(&mut self, picks: CursorPicks)
        ensures
            match ring_pick(*old(self), picks) {
                Some((id, o)) => {
                    &&& *final(self) == (App {
                        surfaces: Surfaces { clip_ring: final(self).surfaces.clip_ring, ..old(self).surfaces },
                        canvas: Canvas { hover_label: None, highlight: Some(id), ..old(self).canvas },
                        frame: old(self).frame.geometry(),
                        ..*old(self)
                    })
                    &&& final(self).surfaces.clip_ring == (ClipRing {
                        awaiting_pick: false,
                        object: Some(id),
                        name: final(self).surfaces.clip_ring.name,
                    })
                    &&& final(self).surfaces.clip_ring.name@ == match old(self).scene.layer_model(o.layer()) {
                        Some(l) => polyline_on(l.name),
                        None => "Polyline"@,
                    }
                },
                None => *final(self) == *old(self),
            },
    {
        match picks.design {
            Some((SceneEntityId::Object(id), _)) => {
                let name = match self.scene.get_object(id) {
                    Some(object) => {
                        if !is_closed_ring(object) {
                            return ;
                        }
                        match self.scene.layer(object.layer()) {
                            Some(layer) => join3("Polyline on '", layer.name.as_str(), "'"),
                            None => "Polyline".to_owned(),
                        }
                    },
                    None => {
                        return ;
                    },
                };
                self.surfaces.clip_ring.object = Some(id);
                self.surfaces.clip_ring.name = name;
                self.surfaces.clip_ring.awaiting_pick = false;
                self.canvas.hover_label = None;
                self.canvas.highlight = Some(id);
                self.invalidate_geometry();
            },
            _ => {},
        }
    }

    fn press_in_selection(&mut self, picks: CursorPicks)
        ensures
            press_selects(*old(self), picks, *final(self)),
    {
        if self.canvas.active_tool.translates() || self.canvas.active_tool.rotates() {
            self.cancel_move_delta();
            self.moving.vertex_target = None;
        }
        let ghost mid = *self;
        assert(gesture_put_down(*old(self), mid));
        let taken = match picks.scene {
            Some(pick) => {
                if self.is_pick_in_reach(&pick) && self.tool_accepts_pick(&pick) {
                    Some(pick)
                } else {
                    None
                }
            },
            None => None,
        };
        match taken {
            Some(pick) => self.press_on_pick(pick),
            None => self.press_on_background(picks.world),
        }
    }

    fn press_on_pick(&mut self, pick: ScenePick)
        ensures
            press_on(*old(self), pick, *final(self)),
    {
        match pick.entity {
            SceneEntityId::Triangulation(_) => {
                self.canvas.pending_topology_click = Some((pick.entity, pick.world));
                self.start_marquee();
            },
            SceneEntityId::Object(id) => {
                self.activate_project_for_object(id);
                self.select_pick(pick);
            },
            _ => self.select_pick(pick),
        }
    }

    fn select_pick(&mut self, pick: ScenePick)
        ensures
            *final(self) == (App {
                selection: final(self).selection,
                canvas: Canvas { active_triangulation: None, ..old(self).canvas },
                frame: old(self).frame.geometry(),
                ..*old(self)
            }),
            taken(
                old(self).selection,
                pick,
                taken_hole(*old(self), pick),
                old(self).canvas.shift,
                old(self).canvas.control,
                final(self).selection,
            ),
    {
        let hole = if self.canvas.workspace == WorkspaceKind::DrillAndBlast {
            pick.hole
        } else {
            None
        };
        let shift = self.canvas.shift;
        let control = self.canvas.control;
        self.selection.take(pick, hole, shift, control);
        self.canvas.active_triangulation = None;
        self.invalidate_geometry();
    }

    fn press_on_background(&mut self, world: Option<Point3>)
        ensures
            press_on_nothing(*old(self), world, *final(self)),
    {
        self.canvas.active_triangulation = None;
        if self.canvas.active_tool == ActiveTool::Idle || self.canvas.active_tool.translates() || self.canvas.active_tool.rotates() {
            self.start_marquee();
        } else {
            match world {
                Some(w) => {
                    if self.workspace.has_active_project() {
                        self.canvas.last_click = Some(w);
                    } else {
                        self.selection.handles.clear();
                    }
                },
                None => {
                    return ;
                },
            }
        }
        self.invalidate_geometry();
    }
}

/// Whether the field holds the surface.
fn is_surface(field: Option<TriangulationId>, id: TriangulationId) -> (r: bool)
    ensures
        r == (field == Some(id)),
{
    match field {
        Some(held) => held == id,
        None => false,
    }
}

/// A press may make another project the active one, but never changes the
/// layer that is drawn on, nor what is drawn.
pub proof fn law_press_keeps_the_active_layer(pre: App, picks: CursorPicks, post: App)
    requires
        pressed(pre, picks, post),
    ensures
        post.canvas.active_layer == pre.canvas.active_layer,
        post.canvas.active_tool == pre.canvas.active_tool,
        post.steps == pre.steps,
        post.scene == pre.scene,
{
}

} // verus!
