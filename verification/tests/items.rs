use incline_design::arrivals::{LoadedDrillHoles, LoadedTriangulation};
use incline_design::collars::{group_by_dataset, refresh_bounds};
use incline_design::commands::blocks::{check_estimates, collect_kriging_samples, ore_block_indices, preferred_block_model_color_variable};
use incline_design::commands::blocks::{Estimate, KrigingRequest, OreFilterMode, OreRequest, TablePage, VariableRange};
use incline_design::commands::choices::{parse_browser_bundle, DrillHoleSource};
use incline_design::commands::contours::{ContourLine, ContourOutput, ContourRequest, ZRange};
use incline_design::commands::survey::{transform_item, ItemTransform};
use incline_design::commands::tie_in::{HoleHit, TieFacts};
use incline_design::commands::view::{CameraPreferences, DebugPreferences, FramePreferences, InterfacePreferences, LanguageChoice, Preferences};
use incline_design::document::{Document, Layer, Object, Rgba};
use incline_design::edit::Edit;
use incline_design::error::AppError;
use incline_design::files::{DataMenu, InputFile};
use incline_design::ids::{BlockModelId, DrillHoleId, HoleRef, IdSet, ItemRef, LayerId, ObjectId, PointCloudId, RasterTextureId, SceneEntityId, TriangulationId};
use incline_design::ieee::{Point3, ScreenPoint};
use incline_design::intake::allocate_item_id;
use incline_design::items::{BlockModelSlice, BlockVariable, Bounds, DrillColorStop, DrillField, DrillFieldKind, DrillHole, DrillInterval, DrillValue, FieldValue};
use incline_design::items::{HoleOrientation, HolePlacement, Initiation, OpenBlockModel, OpenItem, OpenPointCloud, ItemState};
use incline_design::jobs::Work;
use incline_design::loads::{block_columns_for, raster_preview_dimension_limit, BlockColumns, LoadKind, LoadOutcome, Loaded};
use incline_design::snapshots::LayerSnapshot;
use incline_design::state::{ActiveTool, App, Platform, WorkspaceKind};
use incline_design::styles::ItemStyle;
use incline_design::workspace::{OpenProject, ProjectId, ProjectPersistence};

fn p(x: f64, y: f64, z: f64) -> Point3 {
    Point3 { x: x.to_bits(), y: y.to_bits(), z: z.to_bits() }
}

fn white() -> Rgba {
    let one = 1.0f32.to_bits();
    Rgba { r: one, g: one, b: one, a: one }
}

fn preferences() -> Preferences {
    Preferences {
        language: LanguageChoice::System,
        vsync_enabled: true,
        interface: InterfacePreferences {
            dark_mode: true,
            show_console: true,
            panel_chrome: false,
            show_world_axis_gizmo: true,
            show_xy_grid: false,
            show_scale_bar: true,
            renderer_background_color: white(),
        },
        frames: FramePreferences {
            snap_poll_rate: 60,
            frame_rate_cap: 144,
            resize_frame_rate_cap: 60,
            block_model_interaction_resolution_divisor: 2,
            show_block_model_boundary_highlights: false,
            downscale_raster_previews: true,
        },
        debug: DebugPreferences { frame_counter_enabled: false, debug_chunk_coloring: false, debug_clip_planes: false },
        camera: CameraPreferences {
            plan_orbit_sensitivity: 0.005f32.to_bits(),
            plan_zoom_sensitivity: 0.01f32.to_bits(),
            plan_invert_vertical_look: false,
            plan_invert_horizontal_look: false,
            plan_zoom_towards_cursor: true,
            fly_field_of_view_degrees: 60.0f32.to_bits(),
            fly_mouse_look_sensitivity: 0.002f32.to_bits(),
            fly_invert_vertical_look: false,
            fly_invert_horizontal_look: false,
            fly_near_clip_limit: 0.1f32.to_bits(),
            fly_max_clip_span: 10_000.0f32.to_bits(),
        },
    }
}

fn project(runtime_id: u32) -> OpenProject {
    OpenProject {
        runtime_id,
        id: ProjectId(u128::from(runtime_id)),
        name: String::from("Pit"),
        coordinate_reference_system: String::new(),
        units: String::from("m"),
        path: None,
        persistence: ProjectPersistence::File,
        document: Document::new(),
        loaded_layers: IdSet::new(),
        deferred_layers: IdSet::new(),
        revision: 0,
        content_hash: 7,
        saved_hash: None,
        layer_hashes: Vec::new(),
        saved_layer_hashes: Vec::new(),
        asset_revision: 0,
        saved_asset_revision: 0,
        lossy_save_warnings: Vec::new(),
        lossy_save_confirmed: false,
    }
}

fn started(platform: Platform) -> App {
    App::new(platform, preferences(), 8192)
}

fn bounds() -> Bounds {
    Bounds { min: p(0.0, 0.0, 0.0), max: p(10.0, 10.0, 10.0) }
}

fn with_project() -> App {
    let mut app = started(Platform::Native);
    app.workspace.projects.push(project(1));
    app.workspace.active_index = Some(0);
    app.workspace.next_runtime_id = 2;
    app
}

fn mesh(name: &str) -> Loaded {
    Loaded::Triangulation(LoadedTriangulation { name: String::from(name), mesh: 5, bounds: bounds() })
}

fn placement(x: f64) -> HolePlacement {
    HolePlacement { collar: p(x, 0.0, 0.0), trace: 1, orientation: Some(HoleOrientation { azimuth: 0, dip: 0 }), extent: None }
}

fn hole(x: f64) -> DrillHole {
    DrillHole { name: format!("H{x}"), placement: placement(x), diameter: None, intervals: Vec::new() }
}

fn with_holes() -> App {
    let mut app = with_project();
    let loaded = LoadedDrillHoles {
        name: String::from("pattern"),
        holes: vec![hole(0.0), hole(1.0), hole(2.0)],
        fields: vec![
            DrillField { key: String::from("Au"), kind: DrillFieldKind::Numeric { min: 0, max: 1.0f64.to_bits() } },
            DrillField { key: String::from("rock"), kind: DrillFieldKind::Categorical { categories: vec![String::from("oxide")] } },
        ],
        bounds: Some(bounds()),
        tie_ins: Vec::new(),
        initiations: vec![Initiation { hole: 2, delay_ms: 5 }],
    };
    app.add_loaded("holes.csv", Loaded::DrillHoles(loaded));
    app
}

fn at(hole: usize) -> HoleRef {
    HoleRef { dataset: DrillHoleId(1), hole }
}

#[test]
fn a_file_is_read_once_and_joins_the_project() {
    let mut app = with_project();
    app.open_triangulation_path("topo.obj");
    app.open_triangulation_path("topo.obj");
    assert_eq!(app.loads.triangulations.len(), 1);
    assert!(app.loads.is_reading(LoadKind::Triangulation, "topo.obj", None));
    app.poll_triangulation_loads(vec![LoadOutcome::Running]);
    assert_eq!(app.loads.triangulations.len(), 1);
    app.poll_triangulation_loads(vec![LoadOutcome::Done(mesh("topo"))]);
    assert!(app.loads.triangulations.is_empty());
    assert_eq!(app.items.triangulations[0].id, TriangulationId(1));
    assert_eq!(app.items.triangulations[0].name, "topo");
    assert_eq!(app.items.next_triangulation_id, 2);
    assert!(app.jobs.tasks.is_empty());
    assert!(app.workspace.projects[0].is_dirty());
}

#[test]
fn a_file_that_cannot_be_read_adds_nothing() {
    let mut app = with_project();
    app.open_triangulation_path("topo.obj");
    app.poll_triangulation_loads(vec![LoadOutcome::Failed]);
    assert!(app.loads.triangulations.is_empty());
    assert!(app.items.triangulations.is_empty());
}

#[test]
fn files_are_refused_before_they_are_read() {
    let mut app = with_project();
    assert_eq!(app.import_point_cloud_path("a.txt", false, true).err(), Some(AppError::UnsupportedFile));
    assert_eq!(app.import_point_cloud_path("a.las", true, false).err(), Some(AppError::FileMissing));
    assert_eq!(app.import_block_model_source("a.csv", None, true).err(), Some(AppError::UnsupportedFile));
    assert_eq!(app.import_drill_hole_source("a", None, true, false).err(), Some(AppError::UnsupportedFile));
    assert_eq!(app.import_drill_hole_source("a", None, false, true).err(), Some(AppError::FileMissing));
    assert!(app.import_raster_path("a.tif", true, true).is_ok());
    assert_eq!(app.loads.rasters.len(), 1);
}

#[test]
fn previews_are_no_larger_than_they_may_be() {
    assert_eq!(raster_preview_dimension_limit(true, 16384), 4096);
    assert_eq!(raster_preview_dimension_limit(true, 2048), 2048);
    assert_eq!(raster_preview_dimension_limit(false, 16384), 16384);
}

#[test]
fn ids_are_kept_where_they_are_free() {
    let mut next = 3;
    assert_eq!(allocate_item_id(Some(7), &mut next, &vec![1, 2]), 7);
    assert_eq!(next, 8);
    assert_eq!(allocate_item_id(Some(7), &mut next, &vec![1, 2, 7, 8]), 9);
    assert_eq!(next, 10);
    assert_eq!(allocate_item_id(None, &mut next, &vec![10, 11]), 12);
}

#[test]
fn drillholes_come_from_matching_tables() {
    assert_eq!(parse_browser_bundle(DrillHoleSource::LegacyDhd, 1).err(), Some(AppError::UnsupportedFile));
    assert_eq!(parse_browser_bundle(DrillHoleSource::Csv { mappings: 3 }, 2).err(), Some(AppError::FilesDoNotMatch));
    assert_eq!(parse_browser_bundle(DrillHoleSource::Omf, 1).err(), Some(AppError::ImportedWithProject));
    assert!(parse_browser_bundle(DrillHoleSource::Csv { mappings: 2 }, 2).is_ok());
    let mut app = with_project();
    let csv = DrillHoleSource::Csv { mappings: 1 };
    assert_eq!(app.import_web_drill_hole_source(csv, "a", None).err(), Some(AppError::NoFilesChosen));
    app.files.import.web_files = Some((DataMenu::CsvDrillHole, vec![InputFile { name: String::from("a.csv"), bytes: 1 }]));
    assert_eq!(app.import_web_drill_hole_source(csv, "a", None).err(), Some(AppError::DataUnavailable));
    assert!(app.files.import.web_files.is_none());
}

#[test]
fn a_collar_gesture_that_is_put_down_leaves_no_trace() {
    let mut app = with_holes();
    app.canvas.active_tool = ActiveTool::MoveCollar;
    app.selection.holes.insert(at(2));
    app.selection.holes.insert(at(0));
    let epoch = app.items.drill_holes[0].state.epoch;
    app.ensure_collar_session();
    assert_eq!(app.moving.collars.as_ref().unwrap().originals.iter().map(|c| c.target.hole).collect::<Vec<_>>(), vec![0, 2]);
    app.preview_move_delta(&Vec::new(), &vec![placement(50.0), placement(52.0)]);
    app.preview_move_delta(&Vec::new(), &vec![placement(60.0), placement(62.0)]);
    assert_eq!(app.items.drill_holes[0].holes[0].placement, placement(60.0));
    assert_eq!(app.items.drill_holes[0].holes[1].placement, placement(1.0));
    assert_ne!(app.items.drill_holes[0].state.epoch, epoch);
    app.cancel_move_delta();
    assert_eq!(app.items.drill_holes[0].holes[0].placement, placement(0.0));
    assert_eq!(app.items.drill_holes[0].holes[2].placement, placement(2.0));
    assert_eq!(app.items.drill_holes[0].state.epoch, epoch);
    assert!(app.moving.collars.is_none());
}

#[test]
fn sources_of_drillholes_differ_by_their_mapping() {
    let mut app = with_project();
    let idle = app.jobs.tasks.len();
    app.open_drill_hole_source("north/pattern", Some(1));
    app.open_drill_hole_source("north/pattern", Some(1));
    assert_eq!(app.loads.drill_holes.len(), 1);
    app.open_drill_hole_source("north/pattern", Some(2));
    assert_eq!(app.loads.drill_holes.len(), 2);
    assert_eq!(app.jobs.tasks[idle].label, "Loading north/pattern");
    let outcome = LoadOutcome::Done(Loaded::DrillHoles(LoadedDrillHoles {
        name: String::from("pattern"),
        holes: vec![hole(0.0)],
        fields: Vec::new(),
        bounds: None,
        tie_ins: Vec::new(),
        initiations: Vec::new(),
    }));
    app.poll_drill_hole_loads(vec![outcome]);
    assert_eq!(app.items.drill_holes[0].state.source.as_deref(), Some("north/pattern"));
    assert_eq!(app.loads.drill_holes.len(), 1);
}

#[test]
fn a_dataset_that_is_not_drawn_cannot_be_picked() {
    let mut app = with_holes();
    app.canvas.cursor_px = Some(ScreenPoint { x: 0, y: 0 });
    let hits = vec![HoleHit { hole: at(0), distance: 1.0f32.to_bits() }];
    let limit = 10.0f32.to_bits();
    assert_eq!(app.pick_hole_at_cursor(&hits, limit), Some(at(0)));
    app.items.drill_holes[0].visible = false;
    assert_eq!(app.pick_hole_at_cursor(&hits, limit), None);
}

#[test]
fn equal_numbers_make_no_step() {
    let mut app = with_holes();
    let OpenItem::BlockModel(mut block) = model() else {
        panic!("a block model was made");
    };
    block.slice = Some(BlockModelSlice { min: p(0.0, 0.0, 0.0), max: p(1.0, 1.0, 1.0) });
    block.local_bounds = Bounds { min: p(-1.0, -1.0, -1.0), max: p(2.0, 2.0, 2.0) };
    app.items.block_models.push(block);
    let before = app.steps.len();
    app.set_block_model_slice(BlockModelId(3), Some(BlockModelSlice { min: p(-0.0, 0.0, -0.0), max: p(1.0, 1.0, 1.0) }));
    assert_eq!(app.steps.len(), before);
    app.set_block_model_slice(BlockModelId(3), Some(BlockModelSlice { min: p(0.5, 0.0, 0.0), max: p(1.0, 1.0, 1.0) }));
    assert_eq!(app.steps.len(), before + 1);
}

#[test]
fn closing_a_model_forgets_its_table() {
    let mut app = with_holes();
    let OpenItem::BlockModel(block) = model() else {
        panic!("a block model was made");
    };
    app.items.block_models.push(block);
    let page = |id: u64| TablePage { model: BlockModelId(id), page: 7 };
    let range = |id: u64| VariableRange { model: BlockModelId(id), variable: String::from("au"), min: 0, max: 1 };
    app.blocks.table_pages = vec![page(3), page(4)];
    app.blocks.variable_ranges = vec![range(4), range(3), range(3)];
    app.close_block_model(BlockModelId(3));
    assert_eq!(app.blocks.table_pages, vec![page(4)]);
    assert_eq!(app.blocks.variable_ranges.iter().map(|r| r.model.0).collect::<Vec<_>>(), vec![4]);
}

fn cube(x: f64) -> Option<Bounds> {
    Some(Bounds { min: p(x - 1.0, -1.0, -9.0), max: p(x + 1.0, 1.0, 0.0) })
}

#[test]
fn moved_holes_take_the_box_of_their_dataset_with_them() {
    let mut app = with_holes();
    for i in 0..3 {
        app.items.drill_holes[0].holes[i].placement.extent = cube(i as f64);
    }
    app.canvas.active_tool = ActiveTool::MoveCollar;
    app.selection.holes.insert(at(2));
    app.ensure_collar_session();
    app.preview_move_delta(&Vec::new(), &vec![HolePlacement { extent: cube(50.0), ..placement(50.0) }]);
    assert_eq!(app.items.drill_holes[0].bounds, Some(Bounds { min: p(-1.0, -1.0, -9.0), max: p(51.0, 1.0, 0.0) }));
    app.cancel_move_delta();
    assert_eq!(app.items.drill_holes[0].bounds, Some(Bounds { min: p(-1.0, -1.0, -9.0), max: p(3.0, 1.0, 0.0) }));
}

#[test]
fn a_box_goes_round_all_holes() {
    let with = |x: f64, extent: Option<Bounds>| DrillHole { placement: HolePlacement { extent, ..placement(x) }, ..hole(x) };
    assert_eq!(refresh_bounds(&Vec::new()), None);
    assert_eq!(refresh_bounds(&vec![with(0.0, None)]), None);
    assert_eq!(refresh_bounds(&vec![with(0.0, None), with(4.0, cube(4.0))]), cube(4.0));
    let both = refresh_bounds(&vec![with(-7.0, cube(-7.0)), with(4.0, cube(4.0))]);
    assert_eq!(both, Some(Bounds { min: p(-8.0, -1.0, -9.0), max: p(5.0, 1.0, 0.0) }));
}

#[test]
fn a_deleted_dataset_leaves_the_dialog_for_its_colours() {
    let mut app = with_holes();
    app.blast.color_dialog = Some(DrillHoleId(1));
    app.remove_drill_hole(DrillHoleId(1));
    assert_eq!(app.blast.color_dialog, Some(DrillHoleId(1)));
    app.release_drillhole_runtime(DrillHoleId(1));
    assert_eq!(app.blast.color_dialog, None);
}

#[test]
fn captured_holes_are_grouped_by_dataset() {
    let mut app = with_holes();
    app.canvas.active_tool = ActiveTool::MoveCollar;
    app.selection.holes.insert(at(1));
    app.selection.holes.insert(at(0));
    app.ensure_collar_session();
    let groups = group_by_dataset(&app.moving.collars.as_ref().unwrap().originals);
    assert_eq!(groups.len(), 1);
    assert_eq!(groups[0].holes.iter().map(|h| h.0).collect::<Vec<_>>(), vec![0, 1]);
    assert_eq!(app.collar_targets(), vec![at(0), at(1)]);
}

#[test]
fn a_new_product_stands_at_the_end() {
    let mut app = started(Platform::Native);
    app.blast.add_delay_product(42, String::from("b"), 1);
    app.blast.add_delay_product(17, String::from("a"), 2);
    app.blast.add_delay_product(42, String::from("c"), 3);
    assert_eq!(app.blast.products.iter().map(|x| x.name.as_str()).collect::<Vec<_>>(), vec!["b", "a", "c"]);
    assert_eq!(app.blast.active_product, Some(3));
    assert!(app.blast.products_stale);
    app.blast.delete_delay_product(3);
    assert_eq!(app.blast.active_product, Some(1));
    app.blast.delete_delay_product(99);
    assert_eq!(app.blast.products.len(), 2);
}

#[test]
fn shown_legs_are_laid() {
    let mut app = with_holes();
    app.blast.add_delay_product(42, String::from("42 ms"), 7);
    app.canvas.active_tool = ActiveTool::TieHoles;
    app.canvas.active_drill_hole = Some(DrillHoleId(1));
    app.canvas.cursor_px = Some(ScreenPoint { x: 0, y: 0 });
    let facts = |chain: Vec<usize>| TieFacts { ready: true, chain, path_end: None };
    let near = vec![HoleHit { hole: at(0), distance: 1.0f32.to_bits() }];
    let limit = 12.0f32.to_bits();
    app.tie_holes_click(&near, 0, &facts(vec![]), &facts(vec![]));
    assert_eq!(app.blast.anchor, None);
    app.tie_holes_click(&near, limit, &facts(vec![]), &facts(vec![]));
    assert_eq!(app.blast.anchor, Some(at(0)));
    assert!(app.steps.is_empty());
    app.tie_holes_click(&Vec::new(), limit, &facts(vec![0, 1, 2]), &facts(vec![]));
    assert_eq!(app.steps.len(), 1);
    assert!(matches!(&app.steps[0].edits[0], Edit::SetTieIns { dataset: DrillHoleId(1), before, after }
        if before.is_empty() && after.iter().map(|t| (t.from, t.to, t.delay_ms)).collect::<Vec<_>>() == vec![(0, 1, 42), (1, 2, 42)]));
    assert_eq!(app.blast.anchor, Some(at(2)));
    app.end_tie_chain();
    assert_eq!(app.blast.anchor, None);
}

#[test]
fn the_nearest_hole_is_picked() {
    let mut app = with_holes();
    let hit = |h: usize, d: f32| HoleHit { hole: at(h), distance: d.to_bits() };
    let limit = 12.0f32.to_bits();
    assert_eq!(app.pick_hole_at_cursor(&vec![hit(0, 1.0)], limit), None);
    app.canvas.cursor_px = Some(ScreenPoint { x: 0, y: 0 });
    assert_eq!(app.pick_hole_at_cursor(&vec![hit(0, 9.0), hit(1, 3.0), hit(2, 3.0)], limit), Some(at(1)));
    assert_eq!(app.pick_hole_at_cursor(&vec![hit(77, 1.0)], limit), None);
    app.canvas.workspace = WorkspaceKind::DrillAndBlast;
    assert_eq!(app.pick_hole_at_cursor(&vec![hit(0, 1.0)], limit), None);
    app.canvas.active_drill_hole = Some(DrillHoleId(2));
    assert_eq!(app.pick_hole_at_cursor(&vec![hit(0, 1.0)], limit), None);
    app.canvas.active_drill_hole = Some(DrillHoleId(1));
    assert_eq!(app.pick_hole_at_cursor(&vec![hit(0, 1.0)], limit), Some(at(0)));
    assert_eq!(app.pick_hole_at_cursor(&vec![hit(0, 90.0)], limit), None);
    let mut hidden = with_holes();
    hidden.canvas.cursor_px = Some(ScreenPoint { x: 0, y: 0 });
    hidden.visibility.hidden.insert(SceneEntityId::DrillHole(DrillHoleId(1)));
    assert_eq!(hidden.pick_hole_at_cursor(&vec![hit(0, 1.0)], limit), None);
}

#[test]
fn an_initiation_is_set_changed_and_lifted() {
    let mut app = with_holes();
    app.set_initiation(at(0), Some(9));
    app.set_initiation(at(2), Some(5));
    app.set_initiation(at(2), None);
    assert_eq!(app.steps.len(), 2);
    assert!(matches!(&app.steps[0].edits[0], Edit::SetInitiation { before: None, after: Some(i), .. } if i.hole == 0 && i.delay_ms == 9));
    assert!(matches!(&app.steps[1].edits[0], Edit::SetInitiation { before: Some(i), after: None, .. } if i.hole == 2));
    app.canvas.cursor_px = Some(ScreenPoint { x: 0, y: 0 });
    app.set_initiation_at_cursor(&vec![HoleHit { hole: at(2), distance: 1.0f32.to_bits() }], 12.0f32.to_bits());
    let dialog = app.blast.initiation_dialog.as_ref().unwrap();
    assert!(dialog.existing);
    assert_eq!((dialog.delay_ms, dialog.hole_name.as_str()), (5, "H2"));
}

#[test]
fn a_pattern_becomes_a_dataset() {
    let mut app = with_project();
    let holes = vec![placement(0.0), placement(4.0)];
    let b = f64::to_bits;
    let tried = |app: &mut App, name: &str, holes: &Vec<HolePlacement>, depth: f64, diameter: f64, most: usize| {
        app.create_drill_pattern(name, holes, b(depth), b(diameter), Some(bounds()), most).err()
    };
    assert_eq!(tried(&mut app, " ", &holes, 10.0, 0.2, 100), Some(AppError::PatternNameBlank));
    assert_eq!(tried(&mut app, "P", &holes, 0.0, 0.2, 100), Some(AppError::DepthNotPositive));
    assert_eq!(tried(&mut app, "P", &holes, 10.0, f64::NAN, 100), Some(AppError::DiameterNotPositive));
    assert_eq!(tried(&mut app, "P", &Vec::new(), 10.0, 0.2, 100), Some(AppError::PatternEmpty));
    assert_eq!(tried(&mut app, "P", &holes, 10.0, 0.2, 1), Some(AppError::PatternTooLarge));
    assert!(app.steps.is_empty());
    assert_eq!(tried(&mut app, " P ", &holes, 10.0, 0.2, 100), None);
    assert!(matches!(&app.steps[0].edits[0], Edit::AddItem { index: 0, item: OpenItem::DrillHole(d) }
        if d.name == "P" && d.holes.iter().map(|h| h.name.as_str()).collect::<Vec<_>>() == vec!["H001", "H002"] && d.holes[1].placement == placement(4.0)));
    assert_eq!(app.canvas.active_drill_hole, Some(DrillHoleId(1)));
}

#[test]
fn a_ramp_takes_two_to_twelve_stops_in_order() {
    let mut app = with_holes();
    let stop = |t: f32| DrillColorStop { t: t.to_bits(), color: white() };
    app.set_drill_hole_color_stops(DrillHoleId(1), &vec![stop(0.5)]);
    app.set_drill_hole_color_stops(DrillHoleId(1), &vec![stop(0.5), stop(f32::NAN)]);
    app.set_drill_hole_color_stops(DrillHoleId(1), &vec![stop(0.5); 13]);
    assert!(app.steps.is_empty());
    app.set_drill_hole_color_stops(DrillHoleId(1), &vec![stop(2.0), stop(0.25), stop(-1.0)]);
    assert_eq!(app.steps.len(), 1);
    assert!(matches!(&app.steps[0].edits[0], Edit::SetItemStyle { after: ItemStyle::DrillHole { color, .. }, .. }
        if color.stops.iter().map(|s| f32::from_bits(s.t)).collect::<Vec<_>>() == vec![0.0, 0.25, 1.0]));
}

#[test]
fn ore_is_what_passes_the_filter() {
    let v: Vec<u64> = [1.0, 5.0, f64::NAN, 3.0, 2.0].iter().map(|x: &f64| x.to_bits()).collect();
    let blank = vec![false, false, false, false, true];
    let drawn = vec![0, 1, 2, 3, 4, 9];
    let ore = |mode, min: f64, max: f64| ore_block_indices(&v, &drawn, &blank, mode, min.to_bits(), max.to_bits());
    assert_eq!(ore(OreFilterMode::GreaterOrEqual, 3.0, 0.0), vec![1, 3]);
    assert_eq!(ore(OreFilterMode::LessOrEqual, 3.0, 0.0), vec![0, 3]);
    assert_eq!(ore(OreFilterMode::Between, 4.0, 1.0), vec![0, 3]);
}

#[test]
fn estimates_need_samples_and_results() {
    let e = |samples, estimated| Estimate { samples, estimated };
    assert!(check_estimates(&vec![e(5, 1)], 3).is_ok());
    assert_eq!(check_estimates(&vec![e(5, 1), e(2, 1)], 3).err(), Some(AppError::TooFewSamples));
    assert_eq!(check_estimates(&vec![e(5, 0)], 3).err(), Some(AppError::NothingEstimated));
}

#[test]
fn samples_are_numbers_at_the_middle_of_intervals() {
    let mut h = hole(0.0);
    let value = |x: f64| vec![FieldValue { field: String::from("Au"), value: DrillValue::Numeric(x.to_bits()) }];
    h.intervals.push(DrillInterval { from: 0, to: 2.0f64.to_bits(), values: value(1.5) });
    h.intervals.push(DrillInterval { from: 2.0f64.to_bits(), to: 2.0f64.to_bits(), values: value(1.5) });
    h.intervals.push(DrillInterval { from: 2.0f64.to_bits(), to: 4.0f64.to_bits(), values: Vec::new() });
    let middles = vec![vec![Some(p(0.0, 0.0, -1.0)), Some(p(0.0, 0.0, -2.0)), Some(p(0.0, 0.0, -3.0))]];
    let samples = collect_kriging_samples(&vec![h], "Au", &middles);
    assert_eq!(samples.len(), 1);
    assert_eq!((samples[0].position, f64::from_bits(samples[0].value)), (p(0.0, 0.0, -1.0), 1.5));
}

fn kriging(variables: &[&str]) -> KrigingRequest {
    KrigingRequest {
        drill_hole: DrillHoleId(1),
        variables: variables.iter().map(|v| String::from(*v)).collect(),
        name: String::from("estimate"),
        lower: p(0.0, 0.0, 0.0),
        upper: p(1.0, 1.0, 1.0),
        cell: p(1.0, 1.0, 1.0),
        range: 0,
        sill: 0,
        nugget: 0,
        min_samples: 1,
        max_samples: 4,
    }
}

#[test]
fn kriging_is_asked_for_numbers_of_a_dataset() {
    let mut app = with_holes();
    assert_eq!(app.create_block_model_ordinary_kriging(kriging(&[])).err(), Some(AppError::NoVariables));
    assert_eq!(app.create_block_model_ordinary_kriging(kriging(&["Au", "Au"])).err(), Some(AppError::VariableTwice));
    assert_eq!(app.create_block_model_ordinary_kriging(kriging(&["rock"])).err(), Some(AppError::VariableNotNumeric));
    let elsewhere = KrigingRequest { drill_hole: DrillHoleId(9), ..kriging(&["Au"]) };
    assert_eq!(app.create_block_model_ordinary_kriging(elsewhere).err(), Some(AppError::DatasetNotFound));
    assert!(app.create_block_model_ordinary_kriging(kriging(&["Au"])).is_ok());
    assert!(matches!(app.jobs.pending[0].work, Work::Krige(_)));
    let ore = OreRequest {
        block_model: BlockModelId(1),
        variable: String::from("Au"),
        mode: OreFilterMode::Between,
        min: 0,
        max: 0,
        name: String::from("ore"),
    };
    assert_eq!(app.create_ore_triangulation(ore).err(), Some(AppError::BlockModelNotFound));
}

#[test]
fn a_model_is_coloured_by_what_is_not_special() {
    let v = |name: &str, special| BlockVariable { name: String::from(name), special, physical_type: String::from("float") };
    assert_eq!(preferred_block_model_color_variable(&vec![v("xc", true), v("au", false)]), Some(String::from("au")));
    assert_eq!(preferred_block_model_color_variable(&vec![v("xc", true)]), Some(String::from("xc")));
    assert_eq!(preferred_block_model_color_variable(&Vec::new()), None);
}

#[test]
fn contours_are_refused_for_a_reason() {
    let mut app = with_project();
    app.add_loaded("topo.obj", mesh("topo"));
    let b = f64::to_bits;
    let id = TriangulationId(1);
    let mut ask = |major: f64, minor: f64, id, output, flat, many| {
        app.generate_contour_triangulation(id, b(major), b(minor), white(), white(), None, output, flat, many).err()
    };
    let new = || ContourOutput::New(String::from("Contours"));
    assert_eq!(ask(5.0, 0.0, id, new(), false, false), Some(AppError::IntervalsNotPositive));
    assert_eq!(ask(1.0, 5.0, id, new(), false, false), Some(AppError::MajorBelowMinor));
    assert_eq!(ask(5.0, 1.0, id, new(), true, false), Some(AppError::NoZExtent));
    assert_eq!(ask(5.0, 1.0, id, new(), false, true), Some(AppError::TooManyLevels));
    assert!(ask(5.0, 1.0, TriangulationId(8), new(), false, false).is_some());
    assert_eq!(ask(5.0, 1.0, id, new(), false, false), None);
    assert!(matches!(app.jobs.pending[0].work, Work::Contours(_)));
}

#[test]
fn contours_come_on_a_layer_of_their_own() {
    let mut app = with_project();
    let mut other = project(2);
    other.document.next_object_id = u64::MAX;
    app.workspace.projects.push(other);
    let request = ContourRequest {
        surface: TriangulationId(1),
        range: ZRange { lo: 0, hi: 1.0f64.to_bits() },
        major_interval: 1.0f64.to_bits(),
        minor_interval: 1.0f64.to_bits(),
        major_color: white(),
        minor_color: white(),
        output: ContourOutput::New(String::from("Contours")),
        project_runtime_id: 1,
    };
    app.apply_contours(&request, &vec![ContourLine { points: vec![p(0.0, 0.0, 1.0), p(1.0, 0.0, 1.0)], color: white() }]);
    assert_eq!(app.steps.len(), 1);
    assert!(matches!(&app.steps[0].edits[0], Edit::AddLayer { layer, objects } if layer.name == "Contours" && objects.len() == 1));
    assert_eq!(app.steps[0].project, Some(1));
}

#[test]
fn merging_keeps_what_was_there() {
    let layer = |id: u64| Layer {
        id: LayerId(id),
        name: String::from("Toe"),
        color_index: None,
        color: white(),
        visible: true,
        loaded: true,
        elevation: 0,
    };
    let point = |id: u64, on: u64| Object::Point { id: ObjectId(id), layer: LayerId(on), pos: p(0.0, 0.0, 0.0), color: white() };
    let drawing = || {
        let mut d = Document::new();
        d.layers.push(layer(1));
        d.objects.push(point(1, 1));
        d.next_layer_id = 2;
        d.next_object_id = 2;
        d
    };
    let mut apart = drawing();
    apart.merge_document_unique_layers(&drawing());
    assert_eq!(apart.layers.iter().map(|l| (l.id.0, l.name.as_str())).collect::<Vec<_>>(), vec![(1, "Toe"), (2, "Toe 2")]);
    assert_eq!(apart.objects.iter().map(|o| (o.id().0, o.layer().0)).collect::<Vec<_>>(), vec![(1, 1), (2, 2)]);
    let mut joined = drawing();
    assert_eq!(joined.merge_document(&drawing()), 1);
    assert_eq!(joined.layers.len(), 1);
    assert_eq!(joined.objects.iter().map(|o| (o.id().0, o.layer().0)).collect::<Vec<_>>(), vec![(1, 1), (2, 1)]);
}

#[test]
fn a_snapshot_brings_its_layer_back() {
    let layer = |id: u64, name: &str| Layer {
        id: LayerId(id),
        name: String::from(name),
        color_index: None,
        color: white(),
        visible: true,
        loaded: true,
        elevation: 0,
    };
    let point = |id: u64, on: u64, x: f64| Object::Point { id: ObjectId(id), layer: LayerId(on), pos: p(x, 0.0, 0.0), color: white() };
    let mut d = Document::new();
    d.layers.push(layer(1, "A"));
    d.layers.push(layer(2, "B"));
    d.objects.push(point(1, 1, 0.0));
    d.objects.push(point(2, 2, 9.0));
    let shot = LayerSnapshot { index: 1, layer: layer(2, "B was"), objects: vec![(0, point(2, 2, 1.0)), (1, point(3, 2, 2.0))] };
    d.replace_layer_snapshot(shot);
    assert_eq!(d.layers.iter().map(|l| l.name.as_str()).collect::<Vec<_>>(), vec!["A", "B was"]);
    let mut ids: Vec<u64> = d.objects.iter().filter(|o| o.layer() == LayerId(2)).map(|o| o.id().0).collect();
    ids.sort();
    assert_eq!(ids, vec![2, 3]);
    assert_eq!(d.objects.len(), 3);
}

fn cloud() -> OpenItem {
    OpenItem::PointCloud(OpenPointCloud {
        id: PointCloudId(4),
        state: ItemState { loaded: true, epoch: 3, saved_epoch: None, source: None, format: None, deferred: false },
        name: String::from("scan"),
        points: 1,
        color: white(),
        point_size: 1.0f32.to_bits(),
    })
}

#[test]
fn a_transformed_item_stays_itself() {
    let moved = ItemTransform::Points { points: 2, empty: false, known: true, bounded: true, point_size: 2.0f32.to_bits() };
    let r = transform_item(cloud(), moved, "Mine", false).ok().unwrap();
    assert_eq!(r.item_ref(), ItemRef::PointCloud(PointCloudId(4)));
    assert!(matches!(r, OpenItem::PointCloud(c) if c.points == 2 && c.state.epoch == 3 && c.name == "scan"));
    let far = || ItemTransform::Points { points: 2, empty: false, known: true, bounded: false, point_size: 2.0f32.to_bits() };
    assert_eq!(transform_item(cloud(), far(), "Mine", false).err(), Some(AppError::InvalidTransform));
    assert_eq!(transform_item(cloud(), far(), "Mine", true).err(), Some(AppError::Cancelled));
    let grid = ItemTransform::Surface { known: true, mesh: 1, bounds: bounds() };
    assert_eq!(transform_item(cloud(), grid, "Mine", false).err(), Some(AppError::InvalidTransform));
    let none = ItemTransform::Points { points: 2, empty: true, known: true, bounded: false, point_size: 2.0f32.to_bits() };
    assert_eq!(transform_item(cloud(), none, "Mine", true).err(), Some(AppError::InvalidTransform));
}

fn model() -> OpenItem {
    OpenItem::BlockModel(OpenBlockModel {
        id: BlockModelId(3),
        state: ItemState { loaded: true, epoch: 3, saved_epoch: None, source: None, format: None, deferred: false },
        name: String::from("blocks"),
        blocks: 1,
        visible: true,
        color: white(),
        slice: None,
        local_bounds: bounds(),
        active_color_variable: None,
        color_transfers: Vec::new(),
        hide_empty_color_values: false,
        decoded: None,
    })
}

#[test]
fn a_model_follows_a_shift_of_the_grid_alone() {
    let blocks = |grid: bool, local_bounds: Bounds| ItemTransform::Blocks { grid, known: true, blocks: 2, local_bounds, corners_finite: true, slice: None };
    assert_eq!(transform_item(model(), blocks(false, bounds()), "Mine", true).err(), Some(AppError::NeedsGrid));
    let wide = Bounds { min: p(0.0, 0.0, 0.0), max: p(1.0, f64::INFINITY, 1.0) };
    assert_eq!(transform_item(model(), blocks(true, wide), "Mine", true).err(), Some(AppError::InvalidTransform));
    assert_eq!(transform_item(model(), blocks(true, bounds()), "Mine", true).err(), Some(AppError::Cancelled));
    let far = |known: bool| ItemTransform::Blocks { grid: true, known, blocks: 2, local_bounds: bounds(), corners_finite: false, slice: None };
    assert_eq!(transform_item(model(), far(true), "Mine", false).err(), Some(AppError::InvalidTransform));
    assert_eq!(transform_item(model(), far(true), "Mine", true).err(), Some(AppError::Cancelled));
    assert_eq!(transform_item(model(), far(false), "Mine", true).err(), Some(AppError::InvalidTransform));
    let r = transform_item(model(), blocks(true, bounds()), "Mine", false).ok().unwrap();
    assert!(matches!(r, OpenItem::BlockModel(m) if m.blocks == 2 && m.name == "blocks"));
}

#[test]
fn an_unloaded_item_is_sent_away_once_that_is_recorded() {
    let mut app = with_project();
    app.add_loaded("topo.obj", mesh("topo"));
    let item = ItemRef::Triangulation(TriangulationId(1));
    app.set_item_loaded(item, false);
    assert!(app.frame.evict_due);
    assert!(matches!(&app.steps[0].edits[0], Edit::SetItemStyle { after: ItemStyle::Triangulation { loaded: false, .. }, .. }));
    assert!(app.project_item_state(item).is_some());
    assert!(!app.item_load_pending(item));
}

#[test]
fn a_surface_can_be_hidden_and_coloured() {
    let mut app = with_project();
    app.add_loaded("topo.obj", mesh("topo"));
    app.toggle_triangulation_visible(TriangulationId(1));
    assert!(matches!(&app.steps[0].edits[0], Edit::SetItemStyle { before: ItemStyle::Triangulation { visible: true, .. },
        after: ItemStyle::Triangulation { visible: false, .. }, .. }));
    let before = app.steps.len();
    let color = app.items.triangulations[0].color;
    app.set_triangulation_color(TriangulationId(1), color);
    assert_eq!(app.steps.len(), before);
    assert_eq!(app.drape_raster_over_surfaces(RasterTextureId(1), &Vec::new()).err(), Some(AppError::RasterNotFound));
    assert_eq!(app.clear_active_triangulation_raster().err(), Some(AppError::NoSurfaceChosen));
}

#[test]
fn tables_of_blocks_are_known_by_their_extension() {
    assert_eq!(block_columns_for(Some(3), "blocks.bin"), Ok(BlockColumns::Given(3)));
    assert_eq!(block_columns_for(None, "blocks.CSV"), Ok(BlockColumns::FromTable));
    assert_eq!(block_columns_for(None, "blocks.csv.bak"), Err(AppError::UnsupportedFile));
    assert_eq!(block_columns_for(None, "csv"), Err(AppError::UnsupportedFile));
}
