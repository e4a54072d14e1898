//! The state of the workbench, and what every command may ask of it.

use crate::blast::Blast;
use crate::commands::blocks::BlockPanel;
use crate::commands::plot::Plot;
use crate::commands::view::ViewState;
use crate::survey::Survey;
use crate::document::{Document, Object};
use crate::drawing::batter_berm::BatterBerm;
use crate::drawing::bezier::Bezier;
use crate::edit::{Edit, Step};
use crate::ids::{DrillHoleId, HoleRef, IdSet, LayerId, ObjectId, RasterTextureId, SceneEntityId, TieRef, TriangulationId};
use crate::ieee::{Point3, ScreenPoint};
use crate::files::Files;
use crate::jobs::Jobs;
use crate::loads::Loads;
use crate::items::{HoleOrientation, HolePlacement, Items};
use crate::workspace::{index_of_layer, index_of_object, Workspace};
use vstd::prelude::*;

verus! {

/// Where the program runs.
#[derive(Clone, Copy, PartialEq, Eq, Structural, Debug)]
pub enum Platform {
    Native,
    Browser,
}

/// What has to be redone before the next frame.
#[derive(Clone, Copy, PartialEq, Eq, Structural, Debug)]
pub struct Frame {
    pub geometry_stale: bool,
    pub overlay_stale: bool,
    pub bounds_stale: bool,
    pub topology_stale: bool,
    pub redraw_requested: bool,
    pub session_stale: bool,
    pub fit_view: bool,
    /// What is unloaded can leave memory once the steps were carried out.
    pub evict_due: bool,
    /// Points to snap to have to be looked for again.
    pub snap_stale: bool,
}

impl Frame {
    pub open spec fn geometry(self) -> Frame {
        Frame { geometry_stale: true, redraw_requested: true, ..self }
    }

    pub open spec fn overlay(self) -> Frame {
        Frame { overlay_stale: true, redraw_requested: true, ..self }
    }

    pub open spec fn topology(self) -> Frame {
        Frame { topology_stale: true, redraw_requested: true, ..self }
    }

    pub open spec fn bounds(self) -> Frame {
        Frame { bounds_stale: true, topology_stale: true, redraw_requested: true, ..self }
    }

    pub open spec fn redraw(self) -> Frame {
        Frame { redraw_requested: true, ..self }
    }

    pub open spec fn session(self) -> Frame {
        Frame { session_stale: true, ..self }
    }

    pub open spec fn fit(self) -> Frame {
        Frame { fit_view: true, redraw_requested: true, ..self }
    }

    pub open spec fn evict(self) -> Frame {
        Frame { evict_due: true, ..self }
    }
}

/// The tool that owns the pointer.
#[derive(Clone, Copy, PartialEq, Eq, Structural, Debug)]
pub enum ActiveTool {
    /// No tool: plain picking.
    Idle,
    Move,
    MoveCollar,
    RotateCollar,
    DrapeToTopology,
    DeletePoints,
    SplitAtPoints,
    Bezier,
    BatterBerm,
    TieHoles,
    Draw,
}

impl ActiveTool {
    /// The tool moves what is selected.
    pub open spec fn moves(self) -> bool {
        self == ActiveTool::Move || self == ActiveTool::MoveCollar
    }

    /// The tool turns what is selected.
    pub open spec fn turns(self) -> bool {
        self == ActiveTool::RotateCollar
    }

    pub fn translates(self) -> (r: bool)
        ensures
            r == self.moves(),
    {
        self == ActiveTool::Move || self == ActiveTool::MoveCollar
    }

    pub fn rotates(self) -> (r: bool)
        ensures
            r == self.turns(),
    {
        self == ActiveTool::RotateCollar
    }
}

/// The workspace that is up.
#[derive(Clone, Copy, PartialEq, Eq, Structural, Debug)]
pub enum WorkspaceKind {
    Production,
    DrillAndBlast,
}

/// What is selected.
pub struct Selection {
    pub handles: IdSet<SceneEntityId>,
    pub holes: IdSet<HoleRef>,
    pub ties: IdSet<TieRef>,
    pub tri_objects: Vec<ObjectId>,
    pub tri_layers: Vec<LayerId>,
    pub last_pick: Option<Point3>,
}

/// What is hidden, frozen, see-through or locked.
pub struct Visibility {
    pub hidden: IdSet<SceneEntityId>,
    pub frozen: IdSet<SceneEntityId>,
    pub explicitly_frozen: IdSet<SceneEntityId>,
    pub translucent: IdSet<SceneEntityId>,
    pub locked_layers: IdSet<LayerId>,
    pub locked_rasters: IdSet<RasterTextureId>,
}

/// The pointer, the tool and the marquee.
pub struct Canvas {
    pub active_tool: ActiveTool,
    pub workspace: WorkspaceKind,
    pub cursor_px: Option<ScreenPoint>,
    pub box_start_px: Option<ScreenPoint>,
    pub box_current_px: Option<ScreenPoint>,
    pub pending_topology_click: Option<(SceneEntityId, Point3)>,
    pub shift: bool,
    pub control: bool,
    pub active_layer: Option<LayerId>,
    pub active_triangulation: Option<TriangulationId>,
    pub active_drill_hole: Option<DrillHoleId>,
    pub hover_label: Option<String>,
    pub hover_handles: IdSet<SceneEntityId>,
    pub highlight: Option<ObjectId>,
    pub context_menu_open: bool,
    pub delete_confirm_open: bool,
    pub pending_delete_layer: Option<LayerId>,
    pub drag: Option<ObjectDrag>,
    pub last_click: Option<Point3>,
}

/// An object being dragged: the object as it was, and how far it has come.
pub struct ObjectDrag {
    pub object_id: ObjectId,
    pub plane_z: u64,
    pub last_world: Point3,
    pub moved: bool,
    pub before: Object,
}

/// A point of an object that can be moved on its own.
#[derive(Clone, Copy, PartialEq, Eq, Structural, Debug)]
pub enum ObjectPoint {
    Vertex(usize),
    Center,
}

/// The objects of a move as they were before it began.
pub struct MoveSession {
    pub project_runtime_id: u32,
    pub originals: Vec<Object>,
}

/// A hole, and where it stood when a gesture began.
#[derive(Clone, Copy, PartialEq, Eq, Structural, Debug)]
pub struct CapturedHole {
    pub target: HoleRef,
    pub placement: HolePlacement,
}

/// A dataset, and its content counter when a gesture began.
#[derive(Clone, Copy, PartialEq, Eq, Structural, Debug)]
pub struct DatasetMark {
    pub id: DrillHoleId,
    pub epoch: u64,
}

/// The holes of a collar gesture as they were before it began, and the content
/// counters of the datasets that hold them.
pub struct CollarMoveSession {
    pub project_runtime_id: u32,
    pub originals: Vec<CapturedHole>,
    pub epochs: Vec<DatasetMark>,
}

/// How a gizmo drag turns pointer movement into world movement.
#[derive(Clone, Copy, Debug)]
pub enum GizmoConstraint {
    Axis { axis: Point3, screen_dir: ScreenPoint, px_per_world: u64 },
    Plane { first: Point3, second: Point3, basis: [u64; 4] },
}

/// A gizmo handle being dragged.
#[derive(Clone, Copy, Debug)]
pub struct GizmoDrag {
    pub constraint: GizmoConstraint,
    pub start_px: ScreenPoint,
    pub start_delta: Point3,
}

/// A move in progress.
pub struct Moving {
    pub session: Option<MoveSession>,
    pub collars: Option<CollarMoveSession>,
    pub vertex_target: Option<(ObjectId, ObjectPoint)>,
    pub panel_delta: Point3,
    pub panel_last_preview: Point3,
    pub drag: Option<GizmoDrag>,
    pub drag_axis: Option<u8>,
    pub drag_plane: Option<u8>,
}

/// How a collar gesture turns its holes: by so much, or to such an aim.
#[derive(Clone, Copy, PartialEq, Eq, Structural, Debug)]
pub enum CollarRotation {
    Delta { azimuth: u64, dip: u64 },
    Absolute(HoleOrientation),
}

/// A ring of the turning gizmo being dragged.
#[derive(Clone, Copy, Debug)]
pub struct RingDrag {
    pub ring: u8,
    pub center_px: ScreenPoint,
    pub last_angle: u64,
    pub swept: u64,
    pub start: CollarRotation,
    pub dip_room: (u64, u64),
}

/// A turn in progress, and what its panel shows.
pub struct Turning {
    pub rotation: Option<CollarRotation>,
    pub drag: Option<RingDrag>,
    pub drag_ring: Option<u8>,
    pub hovered_ring: Option<u8>,
    pub preview_active: bool,
    pub panel: HoleOrientation,
    pub panel_last_preview: HoleOrientation,
    pub panel_mixed: bool,
}

/// The field of a surface dialog that the next pick fills.
#[derive(Clone, Copy, PartialEq, Eq, Structural, Debug)]
pub enum TriangulationPickTarget {
    ClipSurface,
    SliceSurface,
    TrimTopology,
    TrimSurface,
    CutPitTopology,
    CutPitShell,
    IncludeTopology,
    IncludeShape,
    ContourSurface,
}

/// A dialog that works on one surface and names what it makes.
pub struct SurfaceField {
    pub open: bool,
    pub surface: Option<TriangulationId>,
    pub name: String,
    pub name_auto: bool,
}

/// A dialog that works on two different surfaces and names what it makes.
pub struct SurfacePair {
    pub open: bool,
    pub topology: Option<TriangulationId>,
    pub other: Option<TriangulationId>,
    pub name: String,
    pub name_auto: bool,
}

/// The ring that a surface is clipped by.
pub struct ClipRing {
    pub awaiting_pick: bool,
    pub object: Option<ObjectId>,
    pub name: String,
}

/// The surface dialogs.
pub struct Surfaces {
    pub create_open: bool,
    pub pick_target: Option<TriangulationPickTarget>,
    pub clip: SurfaceField,
    pub clip_ring: ClipRing,
    pub slice: SurfaceField,
    pub trim: SurfacePair,
    pub cut_pit: SurfacePair,
    pub with_shell: SurfacePair,
    pub contour: SurfaceField,
}

/// The dialog that lays out a drill pattern.
pub struct Pattern {
    pub awaiting_shape_pick: bool,
    pub boundary: Option<ObjectId>,
    pub boundary_name: String,
}

/// What the drape tool is being given.
#[derive(Clone, Copy, PartialEq, Eq, Structural, Debug)]
pub enum DrapePhase {
    Designs,
    Topologies,
}

/// The drape tool.
pub struct Drape {
    pub phase: DrapePhase,
    pub objects: Vec<ObjectId>,
}

/// The tool that splits a polyline: the polyline, and the vertices chosen.
pub struct Split {
    pub poly: Option<ObjectId>,
    pub first: Option<usize>,
    pub second: Option<usize>,
    pub verts_px: Vec<ScreenPoint>,
}

/// The undo histories: whose is in use, those that are no longer wanted, and a
/// counter that moves with every change to what can be moved to storage.
pub struct History {
    pub active: Option<u32>,
    pub dropped: Vec<u32>,
    pub archive_revision: u64,
}

/// The whole state.
pub struct App {
    pub platform: Platform,
    pub workspace: Workspace,
    pub scene: Document,
    pub items: Items,
    pub selection: Selection,
    pub visibility: Visibility,
    pub canvas: Canvas,
    pub moving: Moving,
    pub turning: Turning,
    pub surfaces: Surfaces,
    pub pattern: Pattern,
    pub drape: Drape,
    pub split: Split,
    pub files: Files,
    pub jobs: Jobs,
    pub loads: Loads,
    pub plot: Plot,
    pub blast: Blast,
    pub blocks: BlockPanel,
    pub berm: BatterBerm,
    pub bezier: Bezier,
    pub survey: Survey,
    pub view: ViewState,
    pub history: History,
    pub frame: Frame,
    pub steps: Vec<Step>,
}

impl App {
    /// The design geometry has to be rebuilt.
    pub fn invalidate_geometry(&mut self)
        ensures
            *final(self) == (App { frame: old(self).frame.geometry(), ..*old(self) }),
    {
        self.frame.geometry_stale = true;
        self.frame.redraw_requested = true;
    }

    /// What is drawn over the scene has to be rebuilt.
    pub fn invalidate_overlay(&mut self)
        ensures
            *final(self) == (App { frame: old(self).frame.overlay(), ..*old(self) }),
    {
        self.frame.overlay_stale = true;
        self.frame.redraw_requested = true;
    }

    /// The surfaces have to be drawn again.
    pub fn request_topology_redraw(&mut self)
        ensures
            *final(self) == (App { frame: old(self).frame.topology(), ..*old(self) }),
    {
        self.frame.topology_stale = true;
        self.frame.redraw_requested = true;
    }

    /// The extents of the scene are no longer known, and the surfaces have to
    /// be drawn again.
    pub fn invalidate_topology_bounds_and_redraw(&mut self)
        ensures
            *final(self) == (App { frame: old(self).frame.bounds(), ..*old(self) }),
    {
        self.frame.bounds_stale = true;
        self.frame.topology_stale = true;
        self.frame.redraw_requested = true;
    }

    /// The list of open projects has to be written out.
    pub fn persist_session(&mut self)
        ensures
            *final(self) == (App { frame: old(self).frame.session(), ..*old(self) }),
    {
        self.frame.session_stale = true;
    }

    /// The camera has to frame everything visible.
    pub fn fit_view_to_extents(&mut self)
        ensures
            *final(self) == (App { frame: old(self).frame.fit(), ..*old(self) }),
    {
        self.frame.fit_view = true;
        self.frame.redraw_requested = true;
    }

    /// Hands one edit to the history, to be carried out.
    pub fn execute_edit(&mut self, edit: Edit)
        ensures
            *final(self) == (App { steps: final(self).steps, ..*old(self) }),
            final(self).steps@.len() == old(self).steps@.len() + 1,
            final(self).steps@.drop_last() == old(self).steps@,
            final(self).steps@.last().single(),
            final(self).steps@.last().edits@[0] == edit,
    {
        let mut edits: Vec<Edit> = Vec::new();
        edits.push(edit);
        self.steps.push(Step { edits, batch: false, applied: false, project: None });
        assert(self.steps@.drop_last() =~= old(self).steps@);
    }

    /// Hands several edits to the history, to be carried out and undone together.
    pub fn execute_batch(&mut self, edits: Vec<Edit>)
        ensures
            *final(self) == (App { steps: final(self).steps, ..*old(self) }),
            final(self).steps@ == old(self).steps@.push(Step { edits, batch: true, applied: false, project: None }),
    {
        self.steps.push(Step { edits, batch: true, applied: false, project: None });
    }

    /// Hands edits to the history of one project, to be carried out.
    pub fn execute_edit_for(&mut self, runtime_id: u32, edits: Vec<Edit>, batch: bool)
        ensures
            *final(self) == (App { steps: final(self).steps, ..*old(self) }),
            final(self).steps@ == old(self).steps@.push(Step { edits, batch, applied: false, project: Some(runtime_id) }),
            final(self).steps@.drop_last() == old(self).steps@,
    {
        self.steps.push(Step { edits, batch, applied: false, project: Some(runtime_id) });
        assert(self.steps@.drop_last() =~= old(self).steps@);
    }

    /// Tells the history of one edit that the document already shows.
    pub fn record_applied_edit(&mut self, edit: Edit)
        ensures
            *final(self) == (App { steps: final(self).steps, ..*old(self) }),
            final(self).steps@.len() == old(self).steps@.len() + 1,
            final(self).steps@.drop_last() == old(self).steps@,
            final(self).steps@.last().applied && !final(self).steps@.last().batch && final(self).steps@.last().project is None,
            final(self).steps@.last().edits@ == seq![edit],
    {
        let mut edits: Vec<Edit> = Vec::new();
        edits.push(edit);
        assert(edits@ =~= seq![edit]);
        self.steps.push(Step { edits, batch: false, applied: true, project: None });
        assert(self.steps@.drop_last() =~= old(self).steps@);
    }

    /// Tells the history of several edits that the document already shows.
    pub fn record_applied_batch(&mut self, edits: Vec<Edit>)
        ensures
            *final(self) == (App { steps: final(self).steps, ..*old(self) }),
            final(self).steps@ == old(self).steps@.push(Step { edits, batch: true, applied: true, project: None }),
    {
        self.steps.push(Step { edits, batch: true, applied: true, project: None });
    }

    /// Makes the project that holds the object the active one; tells whether
    /// there is such a project.
    pub fn activate_project_for_object(&mut self, id: ObjectId) -> (r: bool)
        ensures
            r == (index_of_object(old(self).workspace.projects@, id) < old(self).workspace.projects@.len()),
            r ==> (final(self).workspace.active_index matches Some(i) && i == index_of_object(old(self).workspace.projects@, id)),
            *final(self) == (App {
                workspace: Workspace { active_index: activated(old(self).workspace, index_of_object(old(self).workspace.projects@, id)), ..old(self).workspace },
                ..*old(self)
            }),
    {
        match self.workspace.project_index_for_object(id) {
            Some(i) => {
                self.workspace.active_index = Some(i);
                true
            },
            None => false,
        }
    }

    /// Makes the project that holds the layer the active one; tells whether
    /// there is such a project.
    pub fn activate_project_for_layer(&mut self, id: LayerId) -> (r: bool)
        ensures
            r == (index_of_layer(old(self).workspace.projects@, id) < old(self).workspace.projects@.len()),
            r ==> (final(self).workspace.active_index matches Some(i) && i == index_of_layer(old(self).workspace.projects@, id)),
            *final(self) == (App {
                workspace: Workspace { active_index: activated(old(self).workspace, index_of_layer(old(self).workspace.projects@, id)), ..old(self).workspace },
                ..*old(self)
            }),
    {
        match self.workspace.project_index_for_layer(id) {
            Some(i) => {
                self.workspace.active_index = Some(i);
                true
            },
            None => false,
        }
    }
}

/// The active index once the project at `index` was asked for.
pub open spec fn activated(w: Workspace, index: int) -> Option<usize> {
    if index < w.projects@.len() {
        Some(index as usize)
    } else {
        w.active_index
    }
}

} // verus!
