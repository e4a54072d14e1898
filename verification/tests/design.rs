use incline_design::canvas::{CursorPicks, ScenePick, SelectionMode};
use incline_design::commands::layers::{objects_on_layer, unique_layer_name};
use incline_design::commands::section::ExplorerSection;
use incline_design::commands::view::{CameraPreferences, DebugPreferences, FramePreferences, InterfacePreferences, LanguageChoice, Preferences};
use incline_design::document::{is_closed_ring, is_drill_pattern_boundary, is_triangulation_polyline, objects_differ};
use incline_design::document::{Document, FillStyle, Layer, Object, PolyVertex, Rgba};
use incline_design::drawing::batter_berm::{BatterBermGeneration, BatterBermMode, BatterBermStopReason};
use incline_design::drawing::bezier::VertexClick;
use incline_design::drawing::translate::ShiftedPoints;
use incline_design::edit::{Edit, Shift};
use incline_design::ids::{IdSet, LayerId, ObjectId, SceneEntityId, TriangulationId};
use incline_design::ieee::{Point3, ScreenPoint};
use incline_design::items::{Bounds, ItemState, OpenTriangulation};
use incline_design::state::{ActiveTool, App, DrapePhase, ObjectPoint, Platform};
use incline_design::workspace::{OpenProject, ProjectId, ProjectPersistence};

fn p(x: f64, y: f64, z: f64) -> Point3 {
    Point3 { x: x.to_bits(), y: y.to_bits(), z: z.to_bits() }
}

fn white() -> Rgba {
    let one = 1.0f32.to_bits();
    Rgba { r: one, g: one, b: one, a: one }
}

fn preferences() -> Preferences {
    Preferences {
        language: LanguageChoice::System,
        vsync_enabled: true,
        interface: InterfacePreferences {
            dark_mode: true,
            show_console: true,
            panel_chrome: false,
            show_world_axis_gizmo: true,
            show_xy_grid: false,
            show_scale_bar: true,
            renderer_background_color: white(),
        },
        frames: FramePreferences {
            snap_poll_rate: 60,
            frame_rate_cap: 144,
            resize_frame_rate_cap: 60,
            block_model_interaction_resolution_divisor: 2,
            show_block_model_boundary_highlights: false,
            downscale_raster_previews: true,
        },
        debug: DebugPreferences { frame_counter_enabled: false, debug_chunk_coloring: false, debug_clip_planes: false },
        camera: CameraPreferences {
            plan_orbit_sensitivity: 0.005f32.to_bits(),
            plan_zoom_sensitivity: 0.01f32.to_bits(),
            plan_invert_vertical_look: false,
            plan_invert_horizontal_look: false,
            plan_zoom_towards_cursor: true,
            fly_field_of_view_degrees: 60.0f32.to_bits(),
            fly_mouse_look_sensitivity: 0.002f32.to_bits(),
            fly_invert_vertical_look: false,
            fly_invert_horizontal_look: false,
            fly_near_clip_limit: 0.1f32.to_bits(),
            fly_max_clip_span: 10_000.0f32.to_bits(),
        },
    }
}

fn project(runtime_id: u32) -> OpenProject {
    OpenProject {
        runtime_id,
        id: ProjectId(u128::from(runtime_id)),
        name: String::from("Pit"),
        coordinate_reference_system: String::new(),
        units: String::from("m"),
        path: None,
        persistence: ProjectPersistence::File,
        document: Document::new(),
        loaded_layers: IdSet::new(),
        deferred_layers: IdSet::new(),
        revision: 0,
        content_hash: 7,
        saved_hash: None,
        layer_hashes: Vec::new(),
        saved_layer_hashes: Vec::new(),
        asset_revision: 0,
        saved_asset_revision: 0,
        lossy_save_warnings: Vec::new(),
        lossy_save_confirmed: false,
    }
}

fn started(platform: Platform) -> App {
    App::new(platform, preferences(), 8192)
}

fn line(id: u64, xs: &[f64], closed: bool) -> Object {
    Object::Polyline {
        id: ObjectId(id),
        layer: LayerId(1),
        verts: xs.iter().map(|x| PolyVertex { pos: p(*x, 0.0, 0.0), bulge: 0 }).collect(),
        closed,
        color: white(),
        fill: FillStyle::Clear,
        line_weight: 1.0f32.to_bits(),
    }
}

fn drawing() -> Document {
    let mut d = Document::new();
    d.layers.push(Layer {
        id: LayerId(1),
        name: String::from("Toe"),
        color_index: None,
        color: white(),
        visible: true,
        loaded: true,
        elevation: 0,
    });
    d.objects.push(line(10, &[0.0, 1.0, 2.0, 3.0], false));
    d.objects.push(line(11, &[0.0, 1.0, 2.0, 3.0, 4.0], true));
    d.objects.push(Object::Point { id: ObjectId(12), layer: LayerId(1), pos: p(5.0, 5.0, 1.0), color: white() });
    d.next_layer_id = 2;
    d.next_object_id = 20;
    d
}

fn bench_app() -> App {
    let mut app = started(Platform::Native);
    let mut open = project(1);
    open.document = drawing();
    app.workspace.projects.push(open);
    app.workspace.active_index = Some(0);
    app.workspace.next_runtime_id = 2;
    app.scene = drawing();
    app
}

fn object(id: u64) -> Option<SceneEntityId> {
    Some(SceneEntityId::Object(ObjectId(id)))
}

fn xs_of(o: &Object) -> Vec<f64> {
    match o {
        Object::Polyline { verts, .. } => verts.iter().map(|v| f64::from_bits(v.pos.x)).collect(),
        Object::Point { pos, .. } | Object::Text { pos, .. } => vec![f64::from_bits(pos.x)],
    }
}

fn added(step: &[Edit]) -> Vec<(u64, Vec<f64>)> {
    step.iter()
        .filter_map(|e| match e {
            Edit::AddObject(o) => Some((o.id().0, xs_of(o))),
            _ => None,
        })
        .collect()
}

/// The distances of vertices from a pointer next to one of them.
fn near(vertex: usize) -> Vec<Option<u64>> {
    (0..4).map(|i| if i == 3 { None } else { Some(if i == vertex { 2.0f64 } else { 15.0 }.to_bits()) }).collect()
}

#[test]
fn splitting_replaces_a_line_by_its_pieces() {
    let mut app = bench_app();
    app.canvas.active_tool = ActiveTool::SplitAtPoints;
    app.split_at_points_click(object(10), &Vec::new(), 0);
    assert_eq!(app.split.poly, Some(ObjectId(10)));
    app.split_at_points_click(None, &near(1), 20.0f64.to_bits());
    assert!(app.steps.is_empty());
    app.canvas.cursor_px = Some(ScreenPoint { x: 0, y: 0 });
    app.split_at_points_click(None, &near(1), 1.0f64.to_bits());
    app.split_at_points_click(None, &near(0), 20.0f64.to_bits());
    assert!(app.steps.is_empty());
    app.split_at_points_click(None, &near(1), 20.0f64.to_bits());
    assert_eq!(app.steps.len(), 1);
    assert!(app.steps[0].batch);
    assert!(matches!(&app.steps[0].edits[0], Edit::DeleteObject(o) if o.id() == ObjectId(10)));
    assert_eq!(added(&app.steps[0].edits), vec![(20, vec![0.0, 1.0]), (21, vec![1.0, 2.0, 3.0])]);
    assert_eq!(app.workspace.projects[0].document.next_object_id, 22);
    assert_eq!(app.canvas.active_tool, ActiveTool::Idle);
    assert_eq!(app.split.poly, None);
}

#[test]
fn a_ring_wants_two_vertices_that_are_apart() {
    let mut app = bench_app();
    app.canvas.cursor_px = Some(ScreenPoint { x: 0, y: 0 });
    app.split_at_points_click(object(11), &Vec::new(), 0);
    app.split_at_points_click(None, &near(0), 20.0f64.to_bits());
    assert_eq!(app.split.first, Some(0));
    app.split_at_points_click(None, &near(1), 20.0f64.to_bits());
    assert!(app.steps.is_empty());
    assert_eq!(app.split.first, None);
    app.split_at_points_click(None, &near(0), 20.0f64.to_bits());
    app.split_at_points_click(None, &near(2), 20.0f64.to_bits());
    assert_eq!(added(&app.steps[0].edits), vec![(20, vec![0.0, 1.0, 2.0]), (21, vec![2.0, 3.0, 4.0, 0.0])]);
}

#[test]
fn a_split_starts_from_the_selection() {
    let mut app = bench_app();
    app.selection.handles.insert(SceneEntityId::Object(ObjectId(12)));
    app.split_init_from_selection();
    assert_eq!(app.split.poly, None);
    app.selection.handles.insert(SceneEntityId::Object(ObjectId(11)));
    app.split_init_from_selection();
    assert_eq!(app.split.poly, Some(ObjectId(11)));
    app.cancel_split_at_points();
    assert_eq!(app.split.poly, None);
}

fn click(nearest: Option<usize>) -> VertexClick {
    VertexClick {
        nearest,
        forward: 1.0f64.to_bits(),
        reverse: 3.0f64.to_bits(),
        thirds: (p(1.0, 0.0, 0.0), p(2.0, 0.0, 0.0)),
        thirds_back: (p(2.0, 0.0, 0.0), p(1.0, 0.0, 0.0)),
    }
}

#[test]
fn a_curve_takes_the_place_of_a_stretch() {
    let mut app = bench_app();
    app.canvas.cursor_px = Some(ScreenPoint { x: 0, y: 0 });
    app.bezier_click(object(12), click(None));
    assert_eq!(app.bezier.poly, None);
    app.bezier_click(object(10), click(None));
    assert!(app.bezier.dialog_open);
    app.bezier_click(None, click(Some(3)));
    app.bezier_click(None, click(Some(3)));
    assert_eq!((app.bezier.first, app.bezier.second), (Some(3), None));
    app.bezier_click(None, click(Some(1)));
    assert_eq!((app.bezier.first, app.bezier.second), (Some(1), Some(3)));
    assert_eq!(app.bezier.cp1, p(2.0, 0.0, 0.0));
    app.apply_bezier(&vec![p(1.5, 1.0, 0.0)]);
    assert!(matches!(&app.steps[0].edits[0], Edit::Replace { before, after }
        if xs_of(before) == vec![0.0, 1.0, 2.0, 3.0] && xs_of(after) == vec![0.0, 1.0, 1.5, 3.0]));
    assert!(!app.bezier.dialog_open);
    assert_eq!(app.bezier.poly, None);
}

#[test]
fn a_curve_on_a_line_that_shrank_does_nothing() {
    let mut app = bench_app();
    app.bezier.poly = Some(ObjectId(10));
    app.bezier.first = Some(1);
    app.bezier.second = Some(9);
    app.apply_bezier(&vec![p(1.5, 1.0, 0.0)]);
    assert!(app.steps.is_empty());
    assert_eq!(app.bezier.poly, Some(ObjectId(10)));
    app.cancel_bezier();
    assert_eq!(app.bezier.poly, None);
    app.bezier.segments = 1;
    assert_eq!(app.bezier.segment_count(), 2);
}

fn generation(benches: u32) -> BatterBermGeneration {
    let rings = (0..2 * benches).map(|i| vec![p(f64::from(i), 0.0, 0.0); 3]).collect();
    BatterBermGeneration { rings, completed_benches: benches, stop_reason: BatterBermStopReason::NoValidBatter }
}

fn berm_app() -> App {
    let mut app = bench_app();
    app.selection.handles.insert(SceneEntityId::Object(ObjectId(12)));
    app.selection.handles.insert(SceneEntityId::Object(ObjectId(11)));
    app.open_batter_berm_dialog();
    app.berm.width = 5.0f64.to_bits();
    app.berm.angle = 60.0f64.to_bits();
    app.berm.bench_height = 10.0f64.to_bits();
    app.berm.benches = 2;
    app.berm.mode = BatterBermMode::Pit;
    app
}

#[test]
fn rings_are_shown_and_then_added() {
    let mut app = berm_app();
    assert_eq!(app.berm.target, Some(ObjectId(11)));
    assert!(app.berm.closed);
    app.update_batter_berm_preview(1, vec![p(0.0, 0.0, 0.0)], generation(3));
    assert_eq!((app.berm.max_benches, app.berm.benches, app.berm.rings_world.len()), (3, 2, 4));
    app.update_batter_berm_preview(1, Vec::new(), generation(9));
    assert_eq!(app.berm.max_benches, 3);
    app.commit_batter_berm();
    assert_eq!(app.steps.len(), 1);
    let rings = added(&app.steps[0].edits);
    assert_eq!(rings.iter().map(|r| r.0).collect::<Vec<_>>(), vec![20, 21, 22, 23]);
    assert_eq!(rings[3].1, vec![3.0, 3.0, 3.0]);
    assert_eq!(app.workspace.projects[0].document.next_object_id, 24);
    assert!(!app.berm.dialog_open);
    assert!(app.berm.rings_world.is_empty());
}

#[test]
fn more_benches_than_fit_are_not_shown() {
    let mut app = berm_app();
    app.berm.benches = 50;
    app.update_batter_berm_preview(1, Vec::new(), generation(3));
    assert_eq!((app.berm.benches, app.berm.rings_world.len()), (3, 6));
    app.berm.benches = 0;
    app.update_batter_berm_preview(2, Vec::new(), generation(3));
    assert_eq!((app.berm.benches, app.berm.rings_world.len()), (1, 2));
    app.update_batter_berm_preview(3, Vec::new(), generation(0));
    assert_eq!((app.berm.benches, app.berm.rings_world.len()), (0, 0));
    app.commit_batter_berm();
    assert!(app.steps.is_empty());
}

#[test]
fn numbers_without_sense_show_no_rings() {
    for (width, angle, height) in [(0.0, 60.0, 10.0), (5.0, 90.0, 10.0), (5.0, 60.0, f64::NAN), (5.0, -1.0, 10.0)] {
        let mut app = berm_app();
        app.berm.width = f64::to_bits(width);
        app.berm.angle = f64::to_bits(angle);
        app.berm.bench_height = f64::to_bits(height);
        app.update_batter_berm_preview(1, vec![p(0.0, 0.0, 0.0)], generation(3));
        assert_eq!((app.berm.max_benches, app.berm.rings_world.len(), app.berm.source_world.len()), (0, 0, 1));
    }
}

#[test]
fn the_berm_tool_takes_polylines() {
    let mut app = bench_app();
    app.pick_batter_berm_target(object(12));
    assert!(!app.berm.dialog_open);
    app.pick_batter_berm_target(object(10));
    assert!(app.berm.dialog_open);
    assert!(!app.berm.closed);
    assert_eq!(app.canvas.highlight, Some(ObjectId(10)));
    app.cancel_batter_berm();
    assert_eq!((app.berm.target, app.canvas.highlight), (None, None));
}

fn surface(id: u64, x: f64) -> OpenTriangulation {
    OpenTriangulation {
        id: TriangulationId(id),
        state: ItemState { loaded: true, epoch: 0, saved_epoch: None, source: None, format: None, deferred: false },
        name: String::from("topo"),
        mesh: 1,
        visible: true,
        color: white(),
        line_color: white(),
        line_weight: None,
        bounds: Bounds { min: p(x, -10.0, 0.0), max: p(x + 10.0, 10.0, 9.0) },
        raster_texture: None,
        raster_opacity: 1.0f32.to_bits(),
    }
}

#[test]
fn designs_are_draped_over_surfaces() {
    let mut app = bench_app();
    app.items.triangulations.push(surface(1, 0.0));
    app.items.triangulations.push(surface(2, 100.0));
    app.canvas.active_tool = ActiveTool::DrapeToTopology;
    app.confirm_drape_selection(&Vec::new());
    assert_eq!(app.drape.phase, DrapePhase::Designs);
    app.selection.handles.insert(SceneEntityId::Object(ObjectId(12)));
    app.selection.handles.insert(SceneEntityId::Object(ObjectId(10)));
    app.confirm_drape_selection(&Vec::new());
    assert_eq!(app.drape.phase, DrapePhase::Topologies);
    assert_eq!(app.drape.objects, vec![ObjectId(12), ObjectId(10)]);
    assert!(app.selection.handles.is_empty());
    app.selection.handles.insert(SceneEntityId::Triangulation(TriangulationId(1)));
    app.selection.handles.insert(SceneEntityId::Triangulation(TriangulationId(2)));
    let z = |v: f64| Some(v.to_bits());
    let hits = vec![vec![vec![z(4.0), z(8.0)]], vec![vec![None, z(8.0)], vec![z(0.0), None], vec![z(2.5), None], vec![None, None]]];
    app.confirm_drape_selection(&hits);
    assert_eq!(app.steps.len(), 1);
    assert_eq!(app.steps[0].edits.len(), 2);
    assert!(matches!(&app.steps[0].edits[0], Edit::Replace { after: Object::Point { pos, .. }, .. } if *pos == p(5.0, 5.0, 4.0)));
    assert!(matches!(&app.steps[0].edits[1], Edit::Replace { after: Object::Polyline { verts, .. }, .. }
        if verts.iter().map(|v| f64::from_bits(v.pos.z)).collect::<Vec<_>>() == vec![0.0, 0.0, 2.5, 0.0]));
    assert_eq!(app.canvas.active_tool, ActiveTool::Idle);
    assert!(app.selection.handles.contains(SceneEntityId::Object(ObjectId(12))));
    assert!(app.drape.objects.is_empty());
}

#[test]
fn a_drape_can_be_put_down() {
    let mut app = bench_app();
    app.drape.phase = DrapePhase::Topologies;
    app.drape.objects.push(ObjectId(10));
    app.cancel_drape();
    assert_eq!(app.drape.phase, DrapePhase::Designs);
    assert!(app.drape.objects.is_empty());
}

#[test]
fn a_move_that_is_put_down_leaves_no_trace() {
    let mut app = bench_app();
    app.canvas.active_tool = ActiveTool::Move;
    app.selection.handles.insert(SceneEntityId::Object(ObjectId(12)));
    app.ensure_move_session_original();
    assert!(app.moving.session.is_some());
    let moved = vec![ShiftedPoints { circle: false, points: vec![p(9.0, 9.0, 9.0)] }];
    app.preview_move_delta(&moved, &Vec::new());
    assert_eq!(xs_of(&app.workspace.projects[0].document.objects[2]), vec![9.0]);
    app.preview_move_delta(&moved, &Vec::new());
    app.cancel_move_delta();
    assert_eq!(xs_of(&app.workspace.projects[0].document.objects[2]), vec![5.0]);
    assert!(!app.has_pending_move_delta());
    assert!(app.steps.is_empty());
}

#[test]
fn a_move_of_one_vertex_leaves_the_others() {
    let mut app = bench_app();
    app.canvas.active_tool = ActiveTool::Move;
    app.moving.vertex_target = Some((ObjectId(10), ObjectPoint::Vertex(2)));
    app.ensure_move_session_original();
    let to = |n: usize| vec![ShiftedPoints { circle: false, points: (0..n).map(|i| p(i as f64 + 50.0, 0.0, 0.0)).collect() }];
    app.preview_move_delta(&to(3), &Vec::new());
    assert_eq!(xs_of(&app.workspace.projects[0].document.objects[0]), vec![0.0, 1.0, 2.0, 3.0]);
    app.preview_move_delta(&to(4), &Vec::new());
    assert_eq!(xs_of(&app.workspace.projects[0].document.objects[0]), vec![0.0, 1.0, 52.0, 3.0]);
}

#[test]
fn a_move_that_is_applied_is_one_step() {
    let mut app = bench_app();
    app.canvas.active_tool = ActiveTool::Move;
    app.selection.handles.insert(SceneEntityId::Object(ObjectId(12)));
    let moved = vec![ShiftedPoints { circle: false, points: vec![p(6.0, 5.0, 1.0)] }];
    app.ensure_move_session_original();
    app.apply_move_delta(p(1.0, 0.0, 0.0), &moved);
    assert_eq!(app.steps.len(), 1);
    assert!(matches!(&app.steps[0].edits[0], Edit::Replace { before, after } if xs_of(before) == vec![5.0] && xs_of(after) == vec![6.0]));
    assert!(app.steps[0].applied);
    assert!(Shift::By(p(0.0, -0.0, 0.0)).is_still());
    assert!(!Shift::Between { from: p(0.0, 0.0, 0.0), to: p(0.0, 1.0, 0.0) }.is_still());
}

#[test]
fn layers_get_free_names_and_ids() {
    let mut app = bench_app();
    assert_eq!(unique_layer_name(&app.workspace.projects[0].document, "Toe"), "Toe 2");
    assert_eq!(objects_on_layer(&app.workspace.projects[0].document, LayerId(1)).len(), 3);
    app.create_layer(String::from("Crest"));
    assert!(matches!(&app.steps[0].edits[0], Edit::AddLayer { layer, objects } if layer.id == LayerId(2) && layer.name == "Crest" && objects.is_empty()));
    assert_eq!(app.canvas.active_layer, Some(LayerId(2)));
    app.duplicate_layer(LayerId(1));
    assert!(matches!(&app.steps[1].edits[0], Edit::AddLayer { layer, objects }
        if layer.id == LayerId(3) && layer.name == "Toe copy" && objects.iter().map(|o| o.id().0).collect::<Vec<_>>() == vec![20, 21, 22]));
}

#[test]
fn a_deleted_layer_goes_with_its_objects() {
    let mut app = bench_app();
    app.canvas.active_layer = Some(LayerId(1));
    app.delete_layer(LayerId(1));
    assert!(matches!(&app.steps[0].edits[0], Edit::DeleteLayer { layer, layer_index: 0, placed }
        if layer.id == LayerId(1) && placed.iter().map(|(i, o)| (*i, o.id().0)).collect::<Vec<_>>() == vec![(0, 10), (1, 11), (2, 12)]));
    assert_eq!(app.canvas.active_layer, None);
}

#[test]
fn a_locked_layer_is_no_place_to_draw() {
    let mut app = bench_app();
    app.canvas.active_layer = Some(LayerId(1));
    app.toggle_layer_locked(LayerId(1));
    assert!(app.visibility.locked_layers.contains(LayerId(1)));
    assert_eq!(app.canvas.active_layer, None);
    app.toggle_layer_locked(LayerId(1));
    assert!(!app.visibility.locked_layers.contains(LayerId(1)));
}

#[test]
fn a_section_is_locked_as_a_whole() {
    let mut app = bench_app();
    app.items.triangulations.push(surface(1, 0.0));
    app.set_section_locked(ExplorerSection::Triangulations, true);
    assert!(app.visibility.frozen.contains(SceneEntityId::Triangulation(TriangulationId(1))));
    app.set_section_locked(ExplorerSection::Triangulations, false);
    assert!(!app.visibility.frozen.contains(SceneEntityId::Triangulation(TriangulationId(1))));
    app.set_section_locked(ExplorerSection::Designs, true);
    assert!(app.visibility.locked_layers.contains(LayerId(1)));
    assert_eq!(app.section_layer_ids(), vec![LayerId(1)]);
}

#[test]
fn objects_are_told_apart_by_what_they_are() {
    assert!(is_closed_ring(&line(1, &[0.0, 1.0, 2.0], true)));
    assert!(!is_closed_ring(&line(1, &[0.0, 1.0, 2.0], false)));
    assert!(is_triangulation_polyline(&line(1, &[0.0, 1.0], false)));
    assert!(!is_triangulation_polyline(&line(1, &[0.0], false)));
    assert!(is_drill_pattern_boundary(&line(1, &[0.0, 1.0, 2.0], true)));
    assert!(!objects_differ(&line(1, &[0.0, 1.0], true), &line(1, &[-0.0, 1.0], true)));
    assert!(objects_differ(&line(1, &[0.0, 1.0], true), &line(1, &[0.0, 2.0], true)));
}

fn nothing() -> CursorPicks {
    CursorPicks { surface: None, design: None, scene: None, world: None }
}

#[test]
fn picks_replace_add_to_or_toggle_the_selection() {
    let mut app = bench_app();
    let (a, b) = (SceneEntityId::Object(ObjectId(10)), SceneEntityId::Object(ObjectId(11)));
    app.on_canvas_pick(a, p(0.0, 0.0, 0.0), SelectionMode::Replace);
    app.on_canvas_pick(b, p(0.0, 0.0, 0.0), SelectionMode::Add);
    assert!(app.selection.handles.contains(a) && app.selection.handles.contains(b));
    app.on_canvas_pick(a, p(0.0, 0.0, 0.0), SelectionMode::Toggle);
    assert!(!app.selection.handles.contains(a) && app.selection.handles.contains(b));
    app.on_canvas_pick(a, p(0.0, 0.0, 0.0), SelectionMode::Replace);
    assert_eq!(app.selection.handles.len(), 1);
}

#[test]
fn a_press_on_nothing_begins_a_marquee() {
    let mut app = bench_app();
    app.canvas.cursor_px = Some(ScreenPoint { x: 3.0f32.to_bits(), y: 4.0f32.to_bits() });
    app.begin_select_or_drag(nothing());
    assert_eq!(app.canvas.box_start_px, app.canvas.cursor_px);
}

#[test]
fn a_tool_takes_only_what_it_works_on() {
    let mut app = bench_app();
    let pick = ScenePick { entity: SceneEntityId::Triangulation(TriangulationId(1)), hole: None, world: p(0.0, 0.0, 0.0) };
    assert!(app.tool_accepts_pick(&pick));
    app.canvas.active_tool = ActiveTool::MoveCollar;
    assert!(!app.tool_accepts_pick(&pick));
}

#[test]
fn toggling_all_twice_changes_nothing() {
    let mut set: IdSet<LayerId> = IdSet::from_vec(&vec![LayerId(1), LayerId(2)]);
    let keys = vec![LayerId(2), LayerId(3)];
    set.toggle_all(&keys);
    assert!(set.contains(LayerId(1)) && !set.contains(LayerId(2)) && set.contains(LayerId(3)));
    set.toggle_all(&keys);
    assert!(set.same_keys(&IdSet::from_vec(&vec![LayerId(2), LayerId(1)])));
}
