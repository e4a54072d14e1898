use incline_design::arrivals::{LoadedBlockModel, LoadedDrillHoles, LoadedRaster, LoadedTriangulation};
use incline_design::commands::dialogs::DialogFacts;
use incline_design::commands::outcomes::SaveOutcome;
use incline_design::commands::plot::PlotFacts;
use incline_design::commands::residency::{Continuation, Drawing};
use incline_design::commands::view::{CameraPreferences, DebugPreferences, FramePreferences, InterfacePreferences, LanguageChoice, Preferences};
use incline_design::document::{Document, FillStyle, Layer, Object, PolyVertex, Rgba};
use incline_design::drawing::rotate_collar::TurnedHole;
use incline_design::drawing::translate::ShiftedPoints;
use incline_design::edit::Edit;
use incline_design::error::AppError;
use incline_design::files::{DialogRequest, FileDialogAction, MeshFormat, Request};
use incline_design::ids::{BlockModelId, DrillHoleId, HoleRef, IdSet, ItemRef, LayerId, ObjectId, SceneEntityId, TriangulationId};
use incline_design::ieee::{Point3, ScreenPoint};
use incline_design::items::{Bounds, DrillHole, HoleOrientation, HolePlacement, Initiation, OpenItem, TieIn};
use incline_design::jobs::Work;
use incline_design::loads::Loaded;
use incline_design::state::{ActiveTool, App, CollarRotation, GizmoConstraint, Platform};
use incline_design::workspace::{OpenProject, ProjectId, ProjectPersistence};

fn p(x: f64, y: f64, z: f64) -> Point3 {
    Point3 { x: x.to_bits(), y: y.to_bits(), z: z.to_bits() }
}

fn white() -> Rgba {
    let one = 1.0f32.to_bits();
    Rgba { r: one, g: one, b: one, a: one }
}

fn preferences() -> Preferences {
    Preferences {
        language: LanguageChoice::System,
        vsync_enabled: true,
        interface: InterfacePreferences {
            dark_mode: true,
            show_console: true,
            panel_chrome: false,
            show_world_axis_gizmo: true,
            show_xy_grid: false,
            show_scale_bar: true,
            renderer_background_color: white(),
        },
        frames: FramePreferences {
            snap_poll_rate: 60,
            frame_rate_cap: 144,
            resize_frame_rate_cap: 60,
            block_model_interaction_resolution_divisor: 2,
            show_block_model_boundary_highlights: false,
            downscale_raster_previews: true,
        },
        debug: DebugPreferences { frame_counter_enabled: false, debug_chunk_coloring: false, debug_clip_planes: false },
        camera: CameraPreferences {
            plan_orbit_sensitivity: 0.005f32.to_bits(),
            plan_zoom_sensitivity: 0.01f32.to_bits(),
            plan_invert_vertical_look: false,
            plan_invert_horizontal_look: false,
            plan_zoom_towards_cursor: true,
            fly_field_of_view_degrees: 60.0f32.to_bits(),
            fly_mouse_look_sensitivity: 0.002f32.to_bits(),
            fly_invert_vertical_look: false,
            fly_invert_horizontal_look: false,
            fly_near_clip_limit: 0.1f32.to_bits(),
            fly_max_clip_span: 10_000.0f32.to_bits(),
        },
    }
}

fn project(runtime_id: u32) -> OpenProject {
    OpenProject {
        runtime_id,
        id: ProjectId(u128::from(runtime_id)),
        name: String::from("Pit"),
        coordinate_reference_system: String::new(),
        units: String::from("m"),
        path: None,
        persistence: ProjectPersistence::File,
        document: Document::new(),
        loaded_layers: IdSet::new(),
        deferred_layers: IdSet::new(),
        revision: 0,
        content_hash: 7,
        saved_hash: None,
        layer_hashes: Vec::new(),
        saved_layer_hashes: Vec::new(),
        asset_revision: 0,
        saved_asset_revision: 0,
        lossy_save_warnings: Vec::new(),
        lossy_save_confirmed: false,
    }
}

fn started(platform: Platform) -> App {
    App::new(platform, preferences(), 8192)
}

fn line(id: u64, xs: &[f64], closed: bool) -> Object {
    Object::Polyline {
        id: ObjectId(id),
        layer: LayerId(1),
        verts: xs.iter().map(|x| PolyVertex { pos: p(*x, 0.0, 0.0), bulge: 0 }).collect(),
        closed,
        color: white(),
        fill: FillStyle::Clear,
        line_weight: 1.0f32.to_bits(),
    }
}

fn drawing() -> Document {
    let mut d = Document::new();
    d.layers.push(Layer {
        id: LayerId(1),
        name: String::from("Toe"),
        color_index: None,
        color: white(),
        visible: true,
        loaded: true,
        elevation: 0,
    });
    d.objects.push(line(10, &[0.0, 1.0, 2.0, 3.0], false));
    d.objects.push(line(11, &[0.0, 1.0, 2.0, 3.0, 4.0], true));
    d.objects.push(Object::Point { id: ObjectId(12), layer: LayerId(1), pos: p(5.0, 5.0, 1.0), color: white() });
    d.next_layer_id = 2;
    d.next_object_id = 20;
    d
}

fn bench_app() -> App {
    let mut app = started(Platform::Native);
    let mut open = project(1);
    open.document = drawing();
    app.workspace.projects.push(open);
    app.workspace.active_index = Some(0);
    app.workspace.next_runtime_id = 2;
    app.scene = drawing();
    app
}

fn facts() -> DialogFacts {
    DialogFacts {
        blank: None,
        supported: vec![true],
        present: vec![true],
        previews: Vec::new(),
        mesh_format: Some(MeshFormat::Obj),
        renderer_ready: true,
        plot: PlotFacts { layout: None, data_centre: None, view_centre: None, captured: false },
        renamed_hash: 0,
    }
}

fn bounds() -> Bounds {
    Bounds { min: p(0.0, 0.0, 0.0), max: p(10.0, 10.0, 10.0) }
}

fn with_items() -> App {
    let mut app = bench_app();
    app.workspace.projects[0].loaded_layers.insert(LayerId(1));
    app.add_loaded("topo.obj", Loaded::Triangulation(LoadedTriangulation { name: String::from("topo"), mesh: 5, bounds: bounds() }));
    app.add_loaded(
        "photo.tif",
        Loaded::Raster(LoadedRaster { name: String::from("photo"), pixels: 1, world_to_uv: [0; 6], projection: String::new() }),
    );
    app.add_loaded(
        "blocks.csv",
        Loaded::BlockModel(LoadedBlockModel {
            name: String::from("blocks"),
            blocks: 3,
            local_bounds: bounds(),
            active_color_variable: Some(String::from("au")),
            ramp: Some(1),
        }),
    );
    let hole = |x: f64| DrillHole {
        name: format!("H{x}"),
        placement: HolePlacement { collar: p(x, 0.0, 0.0), trace: 1, orientation: Some(HoleOrientation { azimuth: 0, dip: 0 }), extent: None },
        diameter: None,
        intervals: Vec::new(),
    };
    app.add_loaded(
        "holes.csv",
        Loaded::DrillHoles(LoadedDrillHoles {
            name: String::from("pattern"),
            holes: vec![hole(0.0), hole(1.0), hole(2.0)],
            fields: Vec::new(),
            bounds: Some(bounds()),
            tie_ins: vec![
                TieIn { from: 0, to: 1, delay_ms: 25, product: String::from("a"), color: 1 },
                TieIn { from: 1, to: 2, delay_ms: 42, product: String::from("b"), color: 2 },
            ],
            initiations: vec![Initiation { hole: 0, delay_ms: 7 }],
        }),
    );
    app
}

#[test]
fn a_replacement_goes_on_once_the_work_is_saved() {
    let mut app = bench_app();
    app.workspace.projects[0].path = Some(String::from("pit.omf"));
    let next = FileDialogAction::OpenProject(vec![String::from("next.omf")]);
    assert!(app.execute_file_dialog_action(next, facts(), &Vec::new()).is_ok());
    assert!(app.files.replacement.confirm_open);
    assert!(app.save_and_continue_project_replacement(&Vec::new()).is_ok());
    assert!(app.jobs.pending.is_empty());
    assert_eq!(app.files.saves.len(), 1);
    app.poll_saves(&vec![SaveOutcome::Done], facts(), &Vec::new());
    assert!(matches!(app.jobs.pending.last().map(|j| &j.work), Some(Work::OpenProject { path }) if path == "next.omf"));
    assert!(app.files.replacement.pending.is_none());
    assert!(!app.files.replacement.bypass);
}

#[test]
fn a_replacement_that_cannot_be_saved_stays_a_question() {
    let mut app = bench_app();
    app.workspace.projects[0].path = Some(String::from("pit.omf"));
    let next = FileDialogAction::OpenProject(vec![String::from("next.omf")]);
    assert!(app.execute_file_dialog_action(next, facts(), &Vec::new()).is_ok());
    assert!(app.save_and_continue_project_replacement(&Vec::new()).is_ok());
    app.poll_saves(&vec![SaveOutcome::Failed], facts(), &Vec::new());
    assert!(app.jobs.pending.is_empty());
    assert_eq!(app.workspace.projects.len(), 1);
    assert!(app.workspace.projects[0].is_dirty());
}

#[test]
fn unsaved_work_is_dropped_where_the_user_says_so() {
    let mut app = bench_app();
    let next = FileDialogAction::OpenProject(vec![String::from("next.omf")]);
    assert!(app.execute_file_dialog_action(next, facts(), &Vec::new()).is_ok());
    assert!(app.discard_and_continue_project_replacement(facts(), &Vec::new()).is_ok());
    assert!(matches!(app.jobs.pending.last().map(|j| &j.work), Some(Work::OpenProject { path }) if path == "next.omf"));
}

#[test]
fn a_new_project_starts_where_nothing_is_lost() {
    let mut app = bench_app();
    app.workspace.projects[0].mark_saved();
    let mut with_blank = facts();
    with_blank.blank = Some(project(0));
    app.choose_new_project(with_blank, &Vec::new());
    assert_eq!(app.workspace.projects.len(), 1);
    assert_eq!(app.workspace.projects[0].runtime_id, 2);
    assert!(app.workspace.projects[0].document.objects.is_empty());
}

#[test]
fn a_stored_project_is_switched_to_once() {
    let mut app = bench_app();
    app.platform = Platform::Browser;
    app.workspace.projects[0].mark_saved();
    assert!(app.activate_stored_project(ProjectId(1), facts(), &Vec::new()).is_ok());
    assert!(app.files.requests.is_empty());
    assert!(app.activate_stored_project(ProjectId(50), facts(), &Vec::new()).is_ok());
    assert!(matches!(app.files.requests.last(), Some(Request::LoadStoredProject { project_id: ProjectId(50), .. })));
    assert_eq!(app.activate_stored_project(ProjectId(51), facts(), &Vec::new()).err(), Some(AppError::OpenPending));
}

#[test]
fn a_tracked_project_is_forgotten() {
    let mut app = bench_app();
    app.files.known_paths = vec![String::from("a.omf"), String::from("b.omf")];
    assert!(app.remove_tracked_project("a.omf").is_ok());
    assert_eq!(app.files.known_paths, vec![String::from("b.omf")]);
}

#[test]
fn only_a_stored_project_can_be_shown() {
    let mut app = bench_app();
    assert_eq!(app.show_active_project_in_file_manager().err(), Some(AppError::NeverSaved));
    app.workspace.projects[0].path = Some(String::from("pit.omf"));
    assert!(app.show_active_project_in_file_manager().is_ok());
    assert!(matches!(app.files.requests.last(), Some(Request::ShowInFileManager(path)) if path == "pit.omf"));
}

#[test]
fn exports_are_offered_a_name() {
    let mut app = with_items();
    app.choose_export_layer_dxf(LayerId(1), facts(), &Vec::new());
    app.choose_export_triangulation_as(TriangulationId(1), MeshFormat::Stl, facts(), &Vec::new());
    assert!(matches!(&app.files.dialogs[0], DialogRequest::ExportLayerDxf { layer: LayerId(1), file_name, .. } if file_name.starts_with("Toe")));
    assert!(matches!(&app.files.dialogs[1], DialogRequest::ExportTriangulation { format: MeshFormat::Stl, file_name, .. } if file_name == "topo.stl"));
}

#[test]
fn projects_are_imported_in_the_background() {
    let mut app = bench_app();
    app.import_omf_paths(vec![String::from("a.omf")]);
    assert!(matches!(&app.jobs.pending[0].work, Work::ImportOmf { paths } if paths.len() == 1));
}

#[test]
fn an_unloaded_item_goes_to_storage_and_comes_back() {
    let mut app = with_items();
    let item = ItemRef::Triangulation(TriangulationId(1));
    app.items.triangulations[0].state.loaded = false;
    app.evict_unloaded_items();
    assert!(app.jobs.pending.iter().any(|j| matches!(j.work, Work::EvictItem(ItemRef::Triangulation(TriangulationId(1))))));
    assert_eq!(app.jobs.pending.len(), 1);
    app.evict_unloaded_items();
    assert_eq!(app.jobs.pending.len(), 1);
    let surface = app.items.triangulations.remove(0);
    let back = incline_design::items::OpenTriangulation {
        state: incline_design::items::ItemState { deferred: true, loaded: false, epoch: 0, saved_epoch: None, source: None, format: None },
        ..surface
    };
    app.items.triangulations.push(incline_design::items::OpenTriangulation {
        id: TriangulationId(1),
        state: incline_design::items::ItemState { loaded: false, epoch: 0, saved_epoch: Some(4), source: None, format: None, deferred: false },
        name: String::from("renamed"),
        mesh: 5,
        visible: true,
        color: white(),
        line_color: white(),
        line_weight: None,
        bounds: bounds(),
        raster_texture: None,
        raster_opacity: 0,
    });
    app.apply_item_eviction(item, Some(OpenItem::Triangulation(back)), Vec::new());
    assert!(app.items.triangulations[0].state.deferred);
    assert_eq!(app.items.triangulations[0].state.saved_epoch, Some(4));
    assert!(app.restore_items_for(&vec![item], Continuation::Nothing));
    assert!(app.item_load_pending(item));
    assert!(matches!(&app.jobs.pending.last().unwrap().work, Work::RestoreItems { items, .. } if items == &vec![item]));
}

#[test]
fn items_that_are_there_need_no_loading() {
    let mut app = with_items();
    assert!(!app.restore_items_for(&vec![ItemRef::Triangulation(TriangulationId(1))], Continuation::Nothing));
    assert!(!app.restore_layers_for(&vec![LayerId(1)], Continuation::Nothing));
    assert!(app.jobs.pending.is_empty());
}

#[test]
fn a_layer_in_storage_is_fetched() {
    let mut app = with_items();
    app.workspace.projects[0].deferred_layers.insert(LayerId(1));
    app.workspace.projects[0].layer_hashes.push(incline_design::workspace::LayerHash { layer: LayerId(1), hash: 3 });
    assert!(app.restore_layers_for(&vec![LayerId(1)], Continuation::ShowDesigns));
    assert!(app.layer_load_pending(LayerId(1)));
    assert!(matches!(&app.jobs.pending[0].work, Work::RestoreLayers { layers, after: Continuation::ShowDesigns } if layers == &vec![LayerId(1)]));
}

#[test]
fn a_layer_that_is_back_goes_on_with_what_waited() {
    let mut app = with_items();
    let idle = app.jobs.pending.len();
    app.workspace.projects[0].deferred_layers.insert(LayerId(1));
    app.workspace.projects[0].layer_hashes.push(incline_design::workspace::LayerHash { layer: LayerId(1), hash: 3 });
    app.apply_restored_layers(None, Continuation::Nothing, &Vec::new());
    assert!(app.workspace.projects[0].deferred_layers.contains(LayerId(1)));
    let drawings = vec![Drawing { name: String::from("toe.dxf"), document: drawing() }];
    app.apply_dxf_imports(1, drawings);
    assert_eq!(app.workspace.projects[0].document.objects.len(), 3);
    assert_eq!(app.jobs.pending.len(), idle + 1);
    let Some(Work::RestoreLayers { layers, after }) = app.jobs.pending.pop().map(|job| job.work) else {
        panic!("the layer is fetched");
    };
    app.apply_restored_layers(Some(layers), after, &Vec::new());
    assert!(!app.workspace.projects[0].deferred_layers.contains(LayerId(1)));
    assert_eq!(app.workspace.projects[0].document.objects.len(), 6);
}

#[test]
fn an_unloaded_layer_goes_to_storage() {
    let mut app = with_items();
    app.workspace.projects[0].layer_hashes.push(incline_design::workspace::LayerHash { layer: LayerId(1), hash: 3 });
    app.evict_unloaded_layers();
    assert!(app.jobs.pending.is_empty());
    app.workspace.projects[0].document.layers[0].loaded = false;
    app.evict_unloaded_layers();
    assert_eq!(app.jobs.pending.len(), 1);
    app.apply_layer_eviction(&vec![LayerId(1)], true, Vec::new());
    assert!(app.workspace.projects[0].deferred_layers.contains(LayerId(1)));
    app.apply_restored_layers(Some(vec![LayerId(1), LayerId(2)]), Continuation::Nothing, &Vec::new());
    assert!(!app.workspace.projects[0].deferred_layers.contains(LayerId(1)));
    assert_eq!(app.workspace.projects[0].document.objects.len(), 3);
}

#[test]
fn what_is_unloaded_is_sent_away_when_due() {
    let mut app = with_items();
    app.items.triangulations[0].state.loaded = false;
    app.evict_if_due();
    assert!(app.jobs.pending.is_empty());
    app.set_item_loaded(ItemRef::BlockModel(BlockModelId(1)), false);
    assert!(app.frame.evict_due);
    app.evict_if_due();
    assert!(!app.frame.evict_due);
    assert!(app.jobs.pending.iter().any(|j| matches!(j.work, Work::EvictItem(ItemRef::Triangulation(TriangulationId(1))))));
    let queued = app.jobs.pending.len();
    app.evict_if_due();
    assert_eq!(app.jobs.pending.len(), queued);
}

#[test]
fn deleting_a_layer_puts_its_question_down() {
    let mut app = bench_app();
    app.canvas.pending_delete_layer = Some(LayerId(9));
    app.delete_layer(LayerId(9));
    assert_eq!(app.canvas.pending_delete_layer, None);
    assert!(app.steps.is_empty());
    app.canvas.pending_delete_layer = Some(LayerId(1));
    app.delete_layer(LayerId(1));
    assert_eq!(app.canvas.pending_delete_layer, None);
    assert_eq!(app.steps.len(), 1);
}

#[test]
fn items_that_are_back_take_their_places() {
    let mut app = with_items();
    let item = ItemRef::Triangulation(TriangulationId(1));
    app.items.triangulations[0].state.deferred = true;
    let read = incline_design::items::OpenTriangulation {
        id: TriangulationId(1),
        state: incline_design::items::ItemState { loaded: true, epoch: 0, saved_epoch: None, source: None, format: None, deferred: false },
        name: String::from("topo"),
        mesh: 77,
        visible: true,
        color: white(),
        line_color: white(),
        line_weight: None,
        bounds: bounds(),
        raster_texture: None,
        raster_opacity: 0,
    };
    assert!(app.restore_items_for(&vec![item], Continuation::Nothing));
    app.apply_restored_items(None, Continuation::Nothing, &Vec::new());
    assert!(app.items.triangulations[0].state.deferred);
    app.apply_restored_items(Some(vec![OpenItem::Triangulation(read)]), Continuation::Nothing, &Vec::new());
    assert_eq!(app.items.triangulations[0].mesh, 77);
    assert!(!app.items.triangulations[0].state.deferred);
}

#[test]
fn parts_of_the_history_are_stored_for_the_project_they_came_from() {
    let mut app = with_items();
    app.workspace.projects[0].document.layers[0].loaded = false;
    let idle = app.jobs.pending.len();
    let none = || Vec::<ItemRef>::new();
    assert!(!app.apply_archived_history(9, 0, true, &vec![LayerId(1)], &none(), vec![5]));
    assert!(app.apply_archived_history(1, 0, true, &vec![LayerId(1)], &none(), vec![5]));
    assert_eq!(app.jobs.pending.len(), idle);
    app.history.archive_revision = 4;
    assert!(!app.apply_archived_history(1, 0, true, &vec![LayerId(1)], &none(), vec![5]));
    assert!(matches!(&app.jobs.pending[idle].work, Work::ArchiveHistory { requests, .. } if requests == &vec![5]));
    app.items.drill_holes[0].state.loaded = false;
    let dataset = ItemRef::DrillHole(DrillHoleId(1));
    assert!(!app.apply_archived_history(1, 4, false, &vec![LayerId(1)], &vec![dataset], Vec::new()));
    assert_eq!(app.restore_history_step(true, Vec::new()), false);
    assert_eq!(app.apply_restored_history(true, 1, 4, true), Some(true));
    assert_eq!(app.apply_restored_history(false, 1, 4, true), Some(false));
    assert_eq!(app.apply_restored_history(true, 1, 3, true), None);
    assert_eq!(app.apply_restored_history(true, 2, 4, true), None);
    assert_eq!(app.apply_restored_history(true, 1, 4, false), None);
}

#[test]
fn a_download_closes_what_was_to_be_closed() {
    let mut app = with_items();
    app.apply_triangulation_download(TriangulationId(1), true, false);
    app.apply_triangulation_download(TriangulationId(1), false, true);
    app.apply_block_model_download(BlockModelId(1), true, false);
    app.apply_block_model_download(BlockModelId(1), false, true);
    let shown = |app: &App| (app.items.triangulations[0].state.loaded, app.items.block_models[0].state.loaded);
    assert_eq!(shown(&app), (true, true));
    app.apply_triangulation_download(TriangulationId(1), true, true);
    assert_eq!(shown(&app), (false, true));
    app.apply_block_model_download(BlockModelId(1), true, true);
    assert_eq!(shown(&app), (false, false));
}

#[test]
fn all_changes_of_a_project_are_thrown_away() {
    let mut app = bench_app();
    assert!(app.discard_project_changes(1).is_err());
    app.workspace.projects[0].path = Some(String::from("pit.omf"));
    assert!(app.discard_project_changes(1).is_ok());
    assert!(matches!(&app.jobs.pending[0].work, Work::RevertProject { runtime_id: 1, path, .. } if path == "pit.omf"));
    assert!(app.project_revert_is_pending(1));
    assert_eq!(app.save_project(1, &Vec::new()).err(), Some(AppError::RevertPending));
}

fn turned_app() -> App {
    let mut app = with_items();
    app.canvas.active_tool = ActiveTool::RotateCollar;
    app.canvas.cursor_px = Some(ScreenPoint { x: 0, y: 0 });
    app.selection.holes.insert(HoleRef { dataset: DrillHoleId(1), hole: 1 });
    app
}

#[test]
fn holes_are_turned_by_a_ring() {
    let mut app = turned_app();
    let b = f64::to_bits;
    app.begin_collar_rotate_drag(true, 1, Some(ScreenPoint { x: 0, y: 0 }), b(0.0), (b(-10.0), b(10.0)));
    assert!(app.turning.drag.is_some());
    let aim = HoleOrientation { azimuth: 0, dip: b(10.0) };
    let turned = TurnedHole { placement: HolePlacement { collar: p(1.0, 0.0, 0.0), trace: 9, orientation: Some(aim), extent: None }, aim: Some(aim) };
    app.collar_rotate_drag_to_cursor(b(1.0), b(1.0), b(0.0), b(57.0), b(90.0), &vec![turned]);
    assert_eq!(app.turning.rotation, Some(CollarRotation::Delta { azimuth: 0, dip: b(10.0) }));
    assert_eq!(app.items.drill_holes[0].holes[1].placement.trace, 9);
    assert_eq!(app.turning.panel, aim);
    app.finish_collar_rotate_drag();
    assert!(app.turning.drag.is_none());
    app.apply_pending_collar_rotation(&vec![Some(aim)]);
    assert_eq!(app.steps.len(), 1);
    assert!(matches!(&app.steps[0].edits[0], Edit::RotateCollars { dataset: DrillHoleId(1), holes, .. } if holes.len() == 1 && holes[0].0 == 1));
    assert_eq!(app.items.drill_holes[0].holes[1].placement.trace, 1);
}

#[test]
fn a_turn_that_is_put_down_leaves_no_trace() {
    let mut app = turned_app();
    let aim = HoleOrientation { azimuth: 0, dip: 5.0f64.to_bits() };
    let turned = TurnedHole { placement: HolePlacement { collar: p(1.0, 0.0, 0.0), trace: 9, orientation: Some(aim), extent: None }, aim: Some(aim) };
    app.preview_collar_rotation(CollarRotation::Absolute(aim), &vec![turned]);
    assert_eq!(app.items.drill_holes[0].holes[1].placement.trace, 9);
    app.cancel_move_delta();
    assert_eq!(app.items.drill_holes[0].holes[1].placement.trace, 1);
    assert_eq!(app.turning.rotation, None);
}

#[test]
fn a_gizmo_drag_stands_as_a_preview() {
    let mut app = bench_app();
    app.canvas.active_tool = ActiveTool::Move;
    app.canvas.cursor_px = Some(ScreenPoint { x: 0, y: 0 });
    app.selection.handles.insert(SceneEntityId::Object(ObjectId(12)));
    let along = GizmoConstraint::Axis { axis: p(1.0, 0.0, 0.0), screen_dir: ScreenPoint { x: 0, y: 0 }, px_per_world: 0 };
    app.begin_gizmo_drag(true, 0, along, ScreenPoint { x: 0, y: 0 });
    assert!(app.moving.drag.is_some());
    let moved = vec![ShiftedPoints { circle: false, points: vec![p(7.0, 5.0, 1.0)] }];
    app.move_gizmo_to_cursor(Some(p(2.0, 0.0, 0.0)), &moved, &Vec::new());
    app.finish_gizmo_drag();
    assert!(app.has_pending_move_delta());
    app.commit_pending_move(&Vec::new());
    assert_eq!(app.steps.len(), 1);
    assert!(app.steps[0].applied);
    assert!(!app.has_pending_move_delta());
}

#[test]
fn a_gizmo_drag_that_is_put_down_gives_the_objects_back() {
    let mut app = bench_app();
    app.canvas.active_tool = ActiveTool::Move;
    app.canvas.cursor_px = Some(ScreenPoint { x: 0, y: 0 });
    app.selection.handles.insert(SceneEntityId::Object(ObjectId(12)));
    let along = GizmoConstraint::Axis { axis: p(1.0, 0.0, 0.0), screen_dir: ScreenPoint { x: 0, y: 0 }, px_per_world: 0 };
    app.begin_gizmo_drag(true, 0, along, ScreenPoint { x: 0, y: 0 });
    let moved = vec![ShiftedPoints { circle: false, points: vec![p(7.0, 5.0, 1.0)] }];
    app.move_gizmo_to_cursor(Some(p(2.0, 0.0, 0.0)), &moved, &Vec::new());
    let place = |app: &App| match &app.workspace.projects[0].document.objects[2] {
        Object::Point { pos, .. } => *pos,
        _ => panic!("a point was drawn"),
    };
    assert_eq!(place(&app), p(7.0, 5.0, 1.0));
    app.cancel_move_delta();
    assert_eq!(place(&app), p(5.0, 5.0, 1.0));
    assert_eq!(app.workspace.projects[0].document.objects.len(), 3);
}

#[test]
fn a_browser_project_is_deleted_from_storage() {
    let mut app = bench_app();
    app.platform = Platform::Browser;
    app.workspace.projects[0].persistence = ProjectPersistence::BrowserRecord(ProjectId(9));
    assert!(app.delete_browser_project(1).is_ok());
    assert!(matches!(app.files.requests.last(), Some(Request::DeleteStoredProject { project_id: ProjectId(9), .. })));
    assert!(app.files.browser.deletes.contains(ProjectId(9)));
}
