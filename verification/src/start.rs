//! The state that the workbench starts with.

use crate::blast::{Blast, BlastRound};
use crate::commands::blocks::{BlockPanel, KrigingDialog};
use crate::commands::plot::Plot;
use crate::commands::view::{Preferences, ViewState};
use crate::document::Document;
use crate::drawing::batter_berm::{BatterBerm, BatterBermMode};
use crate::drawing::bezier::Bezier;
use crate::files::{Browser, Closing, DataMenu, Exit, Files, Import, LossySave, NewProject, Replacement, TextEdit};
use crate::ids::IdSet;
use crate::ieee::Point3;
use crate::items::{HoleOrientation, Items};
use crate::jobs::Jobs;
use crate::loads::Loads;
use crate::state::{
    ActiveTool, App, Canvas, ClipRing, Drape, DrapePhase, Frame, History, Moving, Pattern, Platform, Selection, Split, SurfaceField, SurfacePair, Surfaces,
    Turning, Visibility, WorkspaceKind,
};
use crate::survey::Survey;
use crate::workspace::Workspace;
use vstd::prelude::*;

verus! {

fn zero() -> (r: Point3)
    ensures
        r == (Point3 { x: 0, y: 0, z: 0 }),
{
    Point3 { x: 0, y: 0, z: 0 }
}

impl Document {
    /// Nothing has been drawn.
    pub open spec fn blank(self) -> bool {
        self.layers@.len() == 0 && self.objects@.len() == 0
    }

    /// A document without layers and objects; ids count from 1.
    pub fn new() -> (r: Document)
        ensures
            r.blank(),
            r.next_layer_id == 1,
            r.next_object_id == 1,
    {
        Document { layers: Vec::new(), objects: Vec::new(), next_layer_id: 1, next_object_id: 1 }
    }
}

impl Workspace {
    /// A workspace without projects.
    pub fn new() -> (r: Workspace)
        ensures
            r.projects@.len() == 0,
            r.active_index is None,
            r.next_runtime_id == 1,
    {
        Workspace { projects: Vec::new(), active_index: None, next_runtime_id: 1 }
    }
}

impl Items {
    /// There is no item of any kind.
    pub open spec fn blank(self) -> bool {
        &&& self.triangulations@.len() == 0 && self.block_models@.len() == 0 && self.drill_holes@.len() == 0
        &&& self.point_clouds@.len() == 0 && self.raster_textures@.len() == 0
    }

    /// No items; ids count from 1.
    pub fn new() -> (r: Items)
        ensures
            r.blank(),
            r.next_triangulation_id == 1,
            r.next_block_model_id == 1,
            r.next_drill_hole_id == 1,
            r.next_point_cloud_id == 1,
            r.next_raster_texture_id == 1,
    {
        Items {
            triangulations: Vec::new(),
            block_models: Vec::new(),
            drill_holes: Vec::new(),
            point_clouds: Vec::new(),
            raster_textures: Vec::new(),
            next_triangulation_id: 1,
            next_block_model_id: 1,
            next_drill_hole_id: 1,
            next_point_cloud_id: 1,
            next_raster_texture_id: 1,
        }
    }
}

impl Selection {
    /// Nothing is selected.
    pub open spec fn blank(self) -> bool {
        &&& self.handles@.is_empty() && self.holes@.is_empty() && self.ties@.is_empty()
        &&& self.tri_objects@.len() == 0 && self.tri_layers@.len() == 0
        &&& self.last_pick is None
    }

    fn new() -> (r: Selection)
        ensures
            r.blank(),
    {
        Selection {
            handles: IdSet::new(),
            holes: IdSet::new(),
            ties: IdSet::new(),
            tri_objects: Vec::new(),
            tri_layers: Vec::new(),
            last_pick: None,
        }
    }
}

impl Visibility {
    /// Everything is shown and nothing is locked.
    pub open spec fn blank(self) -> bool {
        &&& self.hidden@.is_empty() && self.frozen@.is_empty() && self.explicitly_frozen@.is_empty()
        &&& self.translucent@.is_empty() && self.locked_layers@.is_empty() && self.locked_rasters@.is_empty()
    }

    fn new() -> (r: Visibility)
        ensures
            r.blank(),
    {
        Visibility {
            hidden: IdSet::new(),
            frozen: IdSet::new(),
            explicitly_frozen: IdSet::new(),
            translucent: IdSet::new(),
            locked_layers: IdSet::new(),
            locked_rasters: IdSet::new(),
        }
    }
}

impl Canvas {
    /// No tool, no pointer, nothing under way.
    pub open spec fn blank(self) -> bool {
        self == (Canvas {
            active_tool: ActiveTool::Idle,
            workspace: WorkspaceKind::Production,
            cursor_px: None,
            box_start_px: None,
            box_current_px: None,
            pending_topology_click: None,
            shift: false,
            control: false,
            active_layer: None,
            active_triangulation: None,
            active_drill_hole: None,
            hover_label: None,
            hover_handles: self.hover_handles,
            highlight: None,
            context_menu_open: false,
            delete_confirm_open: false,
            pending_delete_layer: None,
            drag: None,
            last_click: None,
        }) && self.hover_handles@.is_empty()
    }

    fn new() -> (r: Canvas)
        ensures
            r.blank(),
    {
        Canvas {
            active_tool: ActiveTool::Idle,
            workspace: WorkspaceKind::Production,
            cursor_px: None,
            box_start_px: None,
            box_current_px: None,
            pending_topology_click: None,
            shift: false,
            control: false,
            active_layer: None,
            active_triangulation: None,
            active_drill_hole: None,
            hover_label: None,
            hover_handles: IdSet::new(),
            highlight: None,
            context_menu_open: false,
            delete_confirm_open: false,
            pending_delete_layer: None,
            drag: None,
            last_click: None,
        }
    }
}

impl Moving {
    fn new() -> (r: Moving)
        ensures
            r.session is None && r.collars is None && r.vertex_target is None && r.drag is None && r.drag_axis is None && r.drag_plane is None,
            r.panel_delta == r.panel_last_preview,
    {
        Moving {
            session: None,
            collars: None,
            vertex_target: None,
            panel_delta: zero(),
            panel_last_preview: zero(),
            drag: None,
            drag_axis: None,
            drag_plane: None,
        }
    }
}

impl Turning {
    fn new() -> (r: Turning)
        ensures
            r.rotation is None && r.drag is None && r.drag_ring is None && r.hovered_ring is None && !r.preview_active && !r.panel_mixed,
    {
        let level = HoleOrientation { azimuth: 0, dip: 0 };
        Turning {
            rotation: None,
            drag: None,
            drag_ring: None,
            hovered_ring: None,
            preview_active: false,
            panel: level,
            panel_last_preview: level,
            panel_mixed: false,
        }
    }
}

fn surface_field() -> (r: SurfaceField)
    ensures
        !r.open && r.surface is None && r.name@.len() == 0 && r.name_auto,
{
    SurfaceField { open: false, surface: None, name: String::new(), name_auto: true }
}

fn surface_pair() -> (r: SurfacePair)
    ensures
        !r.open && r.topology is None && r.other is None && r.name@.len() == 0 && r.name_auto,
{
    SurfacePair { open: false, topology: None, other: None, name: String::new(), name_auto: true }
}

impl Surfaces {
    /// No dialog is open.
    pub open spec fn shut(self) -> bool {
        &&& !self.create_open && self.pick_target is None
        &&& !self.clip.open && !self.clip_ring.awaiting_pick && self.clip_ring.object is None && !self.slice.open
        &&& !self.trim.open && !self.cut_pit.open && !self.with_shell.open && !self.contour.open
    }

    fn new() -> (r: Surfaces)
        ensures
            r.shut(),
    {
        Surfaces {
            create_open: false,
            pick_target: None,
            clip: surface_field(),
            clip_ring: ClipRing { awaiting_pick: false, object: None, name: String::new() },
            slice: surface_field(),
            trim: surface_pair(),
            cut_pit: surface_pair(),
            with_shell: surface_pair(),
            contour: surface_field(),
        }
    }
}

impl Files {
    /// Nothing is being read, written, asked or waited for.
    pub open spec fn quiet(self) -> bool {
        &&& self.dialogs@.len() == 0 && self.saves@.len() == 0 && self.open_paths@.len() == 0 && self.requests@.len() == 0 && self.known_paths@.len() == 0
        &&& self.replacement == (Replacement { pending: None, bypass: false, after_save: false, confirm_open: false })
        &&& self.lossy == (LossySave { pending: None, confirm_open: false })
        &&& self.exit == (Exit { after_saves: false, discard_changes: false, confirm_open: false, close_requested: false, fatal: false })
        &&& self.closing == (Closing { project: None, remove_after: false, discard_project: None, discard_layer: None })
        &&& self.text == (TextEdit { enabled: false, object: None })
        &&& self.import.menu == DataMenu::Closed && self.import.paths@.len() == 0 && self.import.web_files is None
        &&& self.browser.loads@.is_empty() && self.browser.saves@.is_empty() && self.browser.deletes@.is_empty() && self.browser.delete_after_save@.is_empty()
        &&& !self.new_project.open && !self.startup_dismissed
    }

    fn new() -> (r: Files)
        ensures
            r.quiet(),
    {
        Files {
            dialogs: Vec::new(),
            saves: Vec::new(),
            open_paths: Vec::new(),
            replacement: Replacement { pending: None, bypass: false, after_save: false, confirm_open: false },
            lossy: LossySave { pending: None, confirm_open: false },
            exit: Exit { after_saves: false, discard_changes: false, confirm_open: false, close_requested: false, fatal: false },
            closing: Closing { project: None, remove_after: false, discard_project: None, discard_layer: None },
            text: TextEdit { enabled: false, object: None },
            import: Import { menu: DataMenu::Closed, paths: Vec::new(), csv_preview: None, csv_error: None, drill_csv: Vec::new(), web_files: None },
            browser: Browser {
                loop_ready: true,
                loads: IdSet::new(),
                saves: IdSet::new(),
                deletes: IdSet::new(),
                delete_after_save: IdSet::new(),
            },
            new_project: NewProject { name: String::new(), open: false },
            known_paths: Vec::new(),
            startup_dismissed: false,
            requests: Vec::new(),
        }
    }
}

impl Jobs {
    /// No work is waiting or running.
    pub open spec fn idle(self) -> bool {
        &&& self.pending@.len() == 0 && self.ready@.len() == 0 && self.tasks@.len() == 0 && self.ended@.len() == 0 && self.cancelled@.len() == 0
    }

    /// No work; tickets count from 1.
    pub fn new() -> (r: Jobs)
        ensures
            r.idle(),
            r.next_ticket == 1,
            !r.residency_settled,
    {
        Jobs {
            pending: Vec::new(),
            ready: Vec::new(),
            tasks: Vec::new(),
            ended: Vec::new(),
            cancelled: Vec::new(),
            next_ticket: 1,
            residency_settled: false,
        }
    }
}

impl Loads {
    /// No file is being read.
    pub open spec fn idle(self) -> bool {
        &&& self.triangulations@.len() == 0 && self.point_clouds@.len() == 0 && self.rasters@.len() == 0
        &&& self.block_models@.len() == 0 && self.drill_holes@.len() == 0
    }

    fn new(hardware_limit: u32) -> (r: Loads)
        ensures
            r.idle(),
            r.hardware_limit == hardware_limit,
    {
        Loads {
            triangulations: Vec::new(),
            point_clouds: Vec::new(),
            rasters: Vec::new(),
            block_models: Vec::new(),
            drill_holes: Vec::new(),
            hardware_limit,
        }
    }
}

impl Blast {
    /// An empty palette, and nothing under way.
    pub open spec fn blank(self) -> bool {
        &&& self.products@.len() == 0 && self.active_product is None && !self.products_stale
        &&& self.anchor is None && self.preview@.len() == 0 && self.anchor_world is None && self.path_end_world is None
        &&& self.round_key is None && self.initiation_dialog is None && self.color_dialog is None
    }

    /// An empty palette; ids count from 1.
    pub fn new() -> (r: Blast)
        ensures
            r.blank(),
            r.next_product_id == 1,
    {
        Blast {
            products: Vec::new(),
            next_product_id: 1,
            active_product: None,
            products_stale: false,
            anchor: None,
            preview: Vec::new(),
            anchor_world: None,
            path_end_world: None,
            round_key: None,
            round: BlastRound { initiations: Vec::new(), connectors: 0, duration_ms: None, unreached: 0 },
            initiation_dialog: None,
            color_dialog: None,
        }
    }
}

fn block_panel() -> (r: BlockPanel)
    ensures
        r.viewport is None && r.active is None && !r.dialog.open && r.dialog.drill_hole is None && r.dialog.variables@.len() == 0,
        r.table_pages@.len() == 0 && r.variable_ranges@.len() == 0,
{
    BlockPanel {
        viewport: None,
        active: None,
        dialog: KrigingDialog {
            open: false,
            drill_hole: None,
            variables: Vec::new(),
            name: String::new(),
            lower: zero(),
            upper: zero(),
            cell: zero(),
            range: 0,
            sill: 0,
        },
        table_pages: Vec::new(),
        variable_ranges: Vec::new(),
    }
}

impl BatterBerm {
    fn new() -> (r: BatterBerm)
        ensures
            !r.dialog_open && r.target is None && r.key is None && r.rings_world@.len() == 0 && r.source_world@.len() == 0,
    {
        BatterBerm {
            dialog_open: false,
            target: None,
            key: None,
            closed: false,
            width: 0,
            angle: 0,
            bench_height: 0,
            benches: 1,
            max_benches: 0,
            mode: BatterBermMode::Pit,
            direction_up: false,
            source_world: Vec::new(),
            rings_world: Vec::new(),
            source_px: Vec::new(),
            rings_px: Vec::new(),
        }
    }
}

impl Bezier {
    fn new() -> (r: Bezier)
        ensures
            r.poly is None && r.first is None && r.second is None && !r.dialog_open && r.segments == 16,
    {
        Bezier {
            poly: None,
            poly_closed: false,
            first: None,
            second: None,
            replace_longer: false,
            cp1: zero(),
            cp2: zero(),
            segments: 16,
            poly_px: Vec::new(),
            cp1_px: None,
            cp2_px: None,
            span_px: Vec::new(),
            preview_px: Vec::new(),
            dragging_cp: None,
            hover_cp: None,
            dialog_open: false,
        }
    }
}

impl Survey {
    /// No systems are defined or chosen.
    pub fn new() -> (r: Survey)
        ensures
            r.definitions@.len() == 0,
            r.local_system is None && r.source_system is None && r.target_system is None && r.editing_name is None && r.axis_names is None,
    {
        Survey { definitions: Vec::new(), local_system: None, source_system: None, target_system: None, editing_name: None, axis_names: None }
    }
}

impl ViewState {
    fn new(preferences: Preferences) -> (r: ViewState)
        ensures
            r.applied == preferences,
            r.draft is None && r.camera is None && !r.topology_wireframes && !r.show_points && r.vsync_switchable,
    {
        ViewState {
            applied: preferences,
            draft: None,
            measured_fps: None,
            smoothed_frame_interval: None,
            debug_chunk_stats: None,
            topology_wireframes: false,
            show_points: false,
            vsync_switchable: true,
            language_stale: true,
            camera_stale: true,
            camera: None,
        }
    }
}

fn clean_frame() -> (r: Frame)
    ensures
        r == (Frame {
            geometry_stale: false,
            overlay_stale: false,
            bounds_stale: false,
            topology_stale: false,
            redraw_requested: false,
            session_stale: false,
            fit_view: false,
            evict_due: false,
            snap_stale: false,
        }),
{
    Frame {
        geometry_stale: false,
        overlay_stale: false,
        bounds_stale: false,
        topology_stale: false,
        redraw_requested: false,
        session_stale: false,
        fit_view: false,
        evict_due: false,
        snap_stale: false,
    }
}

/// Nothing is open, selected, asked or under way.
pub open spec fn started(app: App) -> bool {
    &&& app.workspace.projects@.len() == 0 && app.workspace.active_index is None
    &&& app.scene.blank() && app.items.blank() && app.selection.blank() && app.visibility.blank() && app.canvas.blank()
    &&& app.moving.session is None && app.moving.collars is None && app.turning.rotation is None
    &&& app.surfaces.shut() && !app.pattern.awaiting_shape_pick && app.pattern.boundary is None
    &&& app.drape.phase == DrapePhase::Designs && app.drape.objects@.len() == 0
    &&& app.split.poly is None && app.bezier.poly is None && app.berm.target is None && !app.berm.dialog_open
    &&& app.files.quiet() && app.jobs.idle() && app.loads.idle() && app.plot.dialog is None && app.blast.blank()
    &&& app.history.active is None && app.history.dropped@.len() == 0
    &&& app.steps@.len() == 0
    &&& !app.frame.redraw_requested
}

impl App {
    /// The state that the workbench starts with, on a machine whose textures
    /// have so many pixels a side at most.
    pub fn new(platform: Platform, preferences: Preferences, hardware_limit: u32) -> (r: App)
        ensures
            started(r),
            r.platform == platform,
            r.view.applied == preferences,
            r.loads.hardware_limit == hardware_limit,
            r.workspace.next_runtime_id == 1,
            r.jobs.next_ticket == 1,
            r.blast.next_product_id == 1,
    {
        App {
            platform,
            workspace: Workspace::new(),
            scene: Document::new(),
            items: Items::new(),
            selection: Selection::new(),
            visibility: Visibility::new(),
            canvas: Canvas::new(),
            moving: Moving::new(),
            turning: Turning::new(),
            surfaces: Surfaces::new(),
            pattern: Pattern { awaiting_shape_pick: false, boundary: None, boundary_name: String::new() },
            drape: Drape { phase: DrapePhase::Designs, objects: Vec::new() },
            split: Split { poly: None, first: None, second: None, verts_px: Vec::new() },
            files: Files::new(),
            jobs: Jobs::new(),
            loads: Loads::new(hardware_limit),
            plot: Plot { dialog: None },
            blast: Blast::new(),
            blocks: block_panel(),
            berm: BatterBerm::new(),
            bezier: Bezier::new(),
            survey: Survey::new(),
            view: ViewState::new(preferences),
            history: History { active: None, dropped: Vec::new(), archive_revision: 0 },
            frame: clean_frame(),
            steps: Vec::new(),
        }
    }
}

} // verus!
