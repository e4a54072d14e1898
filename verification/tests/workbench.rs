use incline_design::commands::closing::project_needs_first_save;
use incline_design::commands::dialogs::DialogFacts;
use incline_design::commands::outcomes::SaveOutcome;
use incline_design::commands::plot::PlotFacts;
use incline_design::commands::view::{CameraDefaults, CameraMove, CameraPreferences, DebugPreferences, FramePreferences, InterfacePreferences};
use incline_design::commands::view::{config_from, finite_clamped, LanguageChoice, Preferences, ViewToggle};
use incline_design::document::{Document, Layer, Object, Rgba};
use incline_design::error::AppError;
use incline_design::files::{DataMenu, DialogRequest, FileDialogAction, InputFile, PendingSaveKind, Request};
use incline_design::ids::{IdSet, LayerId, ObjectId, TriangulationId};
use incline_design::ieee::Point3;
use incline_design::jobs::{JobEvent, JobFilter, JobKey, Work};
use incline_design::snapshots::with_namespace;
use incline_design::state::{App, Platform};
use incline_design::survey::{resolve_system, Survey, SystemDefinition, SystemKind};
use incline_design::workspace::{LayerHash, OpenProject, ProjectId, ProjectPersistence};

fn p(x: f64, y: f64, z: f64) -> Point3 {
    Point3 { x: x.to_bits(), y: y.to_bits(), z: z.to_bits() }
}

fn white() -> Rgba {
    let one = 1.0f32.to_bits();
    Rgba { r: one, g: one, b: one, a: one }
}

fn preferences() -> Preferences {
    Preferences {
        language: LanguageChoice::System,
        vsync_enabled: true,
        interface: InterfacePreferences {
            dark_mode: true,
            show_console: true,
            panel_chrome: false,
            show_world_axis_gizmo: true,
            show_xy_grid: false,
            show_scale_bar: true,
            renderer_background_color: white(),
        },
        frames: FramePreferences {
            snap_poll_rate: 60,
            frame_rate_cap: 144,
            resize_frame_rate_cap: 60,
            block_model_interaction_resolution_divisor: 2,
            show_block_model_boundary_highlights: false,
            downscale_raster_previews: true,
        },
        debug: DebugPreferences { frame_counter_enabled: false, debug_chunk_coloring: false, debug_clip_planes: false },
        camera: CameraPreferences {
            plan_orbit_sensitivity: 0.005f32.to_bits(),
            plan_zoom_sensitivity: 0.01f32.to_bits(),
            plan_invert_vertical_look: false,
            plan_invert_horizontal_look: false,
            plan_zoom_towards_cursor: true,
            fly_field_of_view_degrees: 60.0f32.to_bits(),
            fly_mouse_look_sensitivity: 0.002f32.to_bits(),
            fly_invert_vertical_look: false,
            fly_invert_horizontal_look: false,
            fly_near_clip_limit: 0.1f32.to_bits(),
            fly_max_clip_span: 10_000.0f32.to_bits(),
        },
    }
}

fn project(runtime_id: u32) -> OpenProject {
    OpenProject {
        runtime_id,
        id: ProjectId(u128::from(runtime_id)),
        name: String::from("Pit"),
        coordinate_reference_system: String::new(),
        units: String::from("m"),
        path: None,
        persistence: ProjectPersistence::File,
        document: Document::new(),
        loaded_layers: IdSet::new(),
        deferred_layers: IdSet::new(),
        revision: 0,
        content_hash: 7,
        saved_hash: None,
        layer_hashes: Vec::new(),
        saved_layer_hashes: Vec::new(),
        asset_revision: 0,
        saved_asset_revision: 0,
        lossy_save_warnings: Vec::new(),
        lossy_save_confirmed: false,
    }
}

fn started(platform: Platform) -> App {
    App::new(platform, preferences(), 8192)
}

fn facts() -> DialogFacts {
    DialogFacts {
        blank: None,
        supported: Vec::new(),
        present: Vec::new(),
        previews: Vec::new(),
        mesh_format: None,
        renderer_ready: false,
        plot: PlotFacts { layout: None, data_centre: None, view_centre: None, captured: false },
        renamed_hash: 0,
    }
}

fn with_project(platform: Platform) -> App {
    let mut app = started(platform);
    app.start_untitled_project(project(0));
    app
}

fn edited(mut app: App) -> App {
    app.workspace.projects[0].content_hash = 99;
    app
}

#[test]
fn the_workbench_starts_empty() {
    let app = started(Platform::Native);
    assert!(app.workspace.projects.is_empty());
    assert!(app.workspace.active_project().is_none());
    assert!(app.steps.is_empty());
    assert!(app.selection.handles.is_empty());
    assert_eq!(app.jobs.next_ticket, 1);
}

#[test]
fn an_untitled_project_holds_no_unsaved_work() {
    let app = with_project(Platform::Native);
    assert_eq!(app.workspace.active_index, Some(0));
    assert_eq!(app.workspace.projects[0].runtime_id, 1);
    assert_eq!(app.workspace.next_runtime_id, 2);
    assert!(!app.workspace.projects[0].is_dirty());
    assert!(app.frame.fit_view);
    assert!(!app.has_unsaved_changes_for_exit());
}

#[test]
fn a_second_project_takes_the_place_of_the_first() {
    let mut app = with_project(Platform::Native);
    app.set_active_project(project(0));
    assert_eq!(app.workspace.projects.len(), 1);
    assert_eq!(app.workspace.projects[0].runtime_id, 2);
    assert_eq!(app.history.active, Some(2));
}

#[test]
fn ids_of_an_opened_project_are_its_own() {
    let mut stored = project(0);
    stored.document.layers.push(Layer {
        id: LayerId(3),
        name: String::from("Toe"),
        color_index: None,
        color: white(),
        visible: true,
        loaded: true,
        elevation: 0,
    });
    stored.document.objects.push(Object::Point { id: ObjectId(5), layer: LayerId(3), pos: p(0.0, 0.0, 0.0), color: white() });
    let mut app = started(Platform::Native);
    app.set_active_project(stored);
    let d = &app.workspace.projects[0].document;
    assert_eq!(d.layers[0].id, LayerId((1 << 32) | 3));
    assert_eq!(d.objects[0].id(), ObjectId((1 << 32) | 5));
    assert_eq!(d.objects[0].layer(), d.layers[0].id);
    assert_eq!(with_namespace(with_namespace(5, 9), 1), (1 << 32) | 5);
}

#[test]
fn marking_as_saved_leaves_nothing_unsaved() {
    let mut open = project(1);
    open.layer_hashes.push(LayerHash { layer: LayerId(1), hash: 4 });
    assert!(open.is_dirty());
    assert!(open.is_layer_dirty(LayerId(1)));
    open.mark_saved();
    assert!(!open.is_dirty());
    assert!(!open.is_layer_dirty(LayerId(1)));
}

#[test]
fn a_clean_workbench_is_left_at_once() {
    let mut app = with_project(Platform::Native);
    app.request_exit();
    assert!(app.files.exit.close_requested);
    assert!(!app.files.exit.confirm_open);
}

#[test]
fn unsaved_work_is_asked_for_before_leaving() {
    let mut app = edited(with_project(Platform::Native));
    app.request_exit();
    assert!(app.files.exit.confirm_open);
    assert!(!app.files.exit.close_requested);
    app.cancel_exit_request();
    assert!(!app.files.exit.confirm_open);
    app.exit_without_saving();
    assert!(app.files.exit.close_requested);
}

#[test]
fn saving_and_leaving_waits_for_the_write() {
    let mut app = edited(with_project(Platform::Native));
    app.workspace.projects[0].path = Some(String::from("pit.omf"));
    assert!(app.save_and_exit(&Vec::new()).is_ok());
    assert!(!app.files.exit.close_requested);
    assert!(app.files.exit.after_saves);
    assert_eq!(app.files.saves.len(), 1);
    assert!(matches!(app.files.requests.last(), Some(Request::WriteProject { path, .. }) if path == "pit.omf"));
    app.poll_saves(&vec![SaveOutcome::Running], facts(), &Vec::new());
    assert_eq!(app.files.saves.len(), 1);
    app.poll_saves(&vec![SaveOutcome::Done], facts(), &Vec::new());
    assert!(app.files.saves.is_empty());
    assert!(!app.workspace.projects[0].is_dirty());
    assert!(app.files.exit.close_requested);
}

#[test]
fn a_write_that_fails_keeps_the_workbench_open() {
    let mut app = edited(with_project(Platform::Native));
    app.workspace.projects[0].path = Some(String::from("pit.omf"));
    assert!(app.save_and_exit(&Vec::new()).is_ok());
    app.poll_saves(&vec![SaveOutcome::Failed], facts(), &Vec::new());
    assert!(app.files.saves.is_empty());
    assert!(!app.files.exit.close_requested);
    assert!(app.workspace.projects[0].is_dirty());
}

#[test]
fn a_project_without_a_path_is_saved_under_a_name() {
    let mut app = edited(with_project(Platform::Native));
    assert!(app.save_project(1, &Vec::new()).is_ok());
    assert!(app.files.saves.is_empty());
    assert!(matches!(app.files.dialogs.last(), Some(DialogRequest::SaveProjectAs { project_runtime_id: 1 })));
    assert!(project_needs_first_save(Platform::Browser, &project(1)));
}

#[test]
fn a_path_is_written_by_one_write_at_a_time() {
    let mut app = edited(with_project(Platform::Native));
    app.workspace.projects[0].path = Some(String::from("pit.omf"));
    assert!(app.save_project(1, &Vec::new()).is_ok());
    assert!(app.project_save_is_pending(1));
    assert!(app.save_path_is_pending("pit.omf"));
    assert_eq!(app.ensure_save_path_not_pending("pit.omf").err(), Some(AppError::PathBusy));
    assert!(app.ensure_save_path_not_pending("dump.omf").is_ok());
    assert!(app.save_project(1, &Vec::new()).is_ok());
    assert_eq!(app.files.saves.len(), 1);
}

#[test]
fn a_text_being_edited_stops_a_save() {
    let mut app = edited(with_project(Platform::Native));
    app.workspace.projects[0].path = Some(String::from("pit.omf"));
    app.files.text.enabled = true;
    assert_eq!(app.save_and_exit(&Vec::new()).err(), Some(AppError::TextEditPending));
    assert_eq!(app.ensure_project_has_no_pending_text_edit(0).err(), Some(AppError::TextEditPending));
}

#[test]
fn unsaved_work_is_asked_for_before_it_is_replaced() {
    let mut app = edited(with_project(Platform::Native));
    let r = app.execute_file_dialog_action(FileDialogAction::OpenProject(vec![String::from("next.omf")]), facts(), &Vec::new());
    assert!(r.is_ok());
    assert!(app.files.replacement.confirm_open);
    assert!(app.files.replacement.pending.is_some());
    assert_eq!(app.workspace.projects[0].runtime_id, 1);
    app.cancel_project_replacement();
    assert!(app.files.replacement.pending.is_none());
    assert!(!app.files.replacement.confirm_open);
}

#[test]
fn a_clean_project_gives_way_at_once() {
    let mut app = with_project(Platform::Native);
    let r = app.execute_file_dialog_action(FileDialogAction::OpenProject(vec![String::from("next.omf")]), facts(), &Vec::new());
    assert!(r.is_ok());
    assert!(!app.files.replacement.confirm_open);
    assert!(matches!(app.jobs.pending.last().map(|j| &j.work), Some(Work::OpenProject { path }) if path == "next.omf"));
    assert_eq!(app.files.open_paths, vec![String::from("next.omf")]);
}

#[test]
fn a_close_of_unsaved_work_waits_for_the_user() {
    let mut app = edited(with_project(Platform::Native));
    app.request_close_project(1);
    assert_eq!(app.files.closing.project, Some(1));
    assert_eq!(app.workspace.projects.len(), 1);
    app.cancel_close_project();
    assert_eq!(app.files.closing.project, None);
    app.close_project(1);
    assert!(app.workspace.projects.is_empty());
}

#[test]
fn files_of_one_kind_are_taken_once() {
    let mut app = started(Platform::Browser);
    assert_eq!(app.take_web_import_files(DataMenu::Obj).err(), Some(AppError::NoFilesChosen));
    app.files.import.web_files = Some((DataMenu::Obj, vec![InputFile { name: String::from("a.obj"), bytes: 1 }]));
    assert_eq!(app.take_web_import_files(DataMenu::Stl).err(), Some(AppError::OtherFilesChosen));
    assert_eq!(app.take_web_import_files(DataMenu::Obj).ok().unwrap().len(), 1);
    assert!(app.files.import.web_files.is_none());
}

#[test]
fn jobs_are_polled_and_taken_in_order() {
    let mut app = started(Platform::Native);
    let key = || vec![JobKey::Anonymous];
    let first = app.spawn_job(String::from("a"), key(), Work::ImportOmf { paths: Vec::new() });
    let second = app.spawn_job(String::from("b"), key(), Work::ImportOmf { paths: Vec::new() });
    let third = app.spawn_job(String::from("c"), key(), Work::ImportOmf { paths: Vec::new() });
    assert_eq!((first, second, third), (1, 2, 3));
    app.poll_jobs(&vec![JobEvent::Ready, JobEvent::Running, JobEvent::Lost]);
    assert_eq!(app.jobs.pending.len(), 1);
    assert_eq!(app.jobs.pending[0].ticket, second);
    assert_eq!(app.next_ready_job().map(|j| j.ticket), Some(first));
    assert!(app.next_ready_job().is_none());
}

#[test]
fn a_result_whose_source_is_gone_is_dropped() {
    let mut app = started(Platform::Native);
    app.spawn_job(String::from("a"), vec![JobKey::Triangulation(TriangulationId(4))], Work::ImportOmf { paths: Vec::new() });
    app.poll_jobs(&vec![JobEvent::Ready]);
    assert!(app.next_ready_job().is_none());
    assert!(!app.job_dependencies_are_current(&vec![JobKey::Triangulation(TriangulationId(4))]));
    assert!(app.job_dependencies_are_current(&vec![JobKey::Anonymous]));
}

#[test]
fn jobs_of_a_project_are_called_off_with_it() {
    let mut app = started(Platform::Native);
    let of = |id| vec![JobKey::Project { runtime_id: id, document_revision: 0 }];
    let gone = app.spawn_job(String::from("a"), of(1), Work::ImportDxf { runtime_id: 1, paths: Vec::new() });
    let kept = app.spawn_job(String::from("b"), of(2), Work::ImportDxf { runtime_id: 2, paths: Vec::new() });
    app.cancel_jobs(JobFilter::Project(1));
    assert_eq!(app.jobs.pending.iter().map(|j| j.ticket).collect::<Vec<_>>(), vec![kept]);
    assert_eq!(app.jobs.cancelled, vec![gone]);
}

fn defaults() -> CameraDefaults {
    CameraDefaults {
        plan_orbit_sensitivity: 0.005f32.to_bits(),
        plan_zoom_sensitivity: 0.002f32.to_bits(),
        fly_field_of_view_degrees: 60.0f32.to_bits(),
        fly_mouse_look_sensitivity: 0.002f32.to_bits(),
        fly_near_clip_limit: 0.1f32.to_bits(),
        fly_max_clip_span: 10_000.0f32.to_bits(),
    }
}

#[test]
fn preferences_are_put_within_their_limits() {
    let mut wild = preferences();
    wild.frames.snap_poll_rate = 0;
    wild.frames.frame_rate_cap = 5000;
    wild.frames.resize_frame_rate_cap = 1;
    wild.frames.block_model_interaction_resolution_divisor = 100;
    wild.camera.plan_orbit_sensitivity = 1.0f32.to_bits();
    wild.camera.fly_field_of_view_degrees = f32::NAN.to_bits();
    wild.camera.fly_max_clip_span = 1.0f32.to_bits();
    let mut app = started(Platform::Native);
    let config = app.preferences_config(wild, defaults());
    assert!(app.apply_preferences(wild, defaults(), true, Some(true)).is_ok());
    let now = app.view.applied;
    assert_eq!(now, config.preferences);
    assert_eq!(app.view.draft, Some(now));
    assert_eq!(
        (
            now.frames.snap_poll_rate,
            now.frames.frame_rate_cap,
            now.frames.resize_frame_rate_cap,
            now.frames.block_model_interaction_resolution_divisor
        ),
        (5, 1000, 20, 64)
    );
    assert_eq!(f32::from_bits(now.camera.plan_orbit_sensitivity), 0.02);
    assert_eq!(f32::from_bits(now.camera.fly_field_of_view_degrees), 60.0);
    assert_eq!(f32::from_bits(now.camera.fly_max_clip_span), 100.0);
    assert!(app.frame.redraw_requested);
}

#[test]
fn numbers_are_clamped_and_what_is_none_replaced() {
    let c = |v: f32| f32::from_bits(finite_clamped(v.to_bits(), 1.0f32.to_bits(), 2.0f32.to_bits(), 1.5f32.to_bits()));
    assert_eq!((c(0.0), c(1.25), c(9.0), c(f32::NAN), c(f32::INFINITY)), (1.0, 1.25, 2.0, 1.5, 1.5));
}

#[test]
fn preferences_that_cannot_be_stored_are_not_applied() {
    let mut app = started(Platform::Native);
    let before = app.view.applied;
    let r = app.toggle_view_option(ViewToggle::XyGrid, defaults(), false, None);
    assert_eq!(r.err(), Some(AppError::ConfigNotWritten));
    assert_eq!(app.view.applied, before);
    assert!(app.toggle_view_option(ViewToggle::XyGrid, defaults(), true, None).is_ok());
    assert!(app.view.applied.interface.show_xy_grid);
    assert!(app.toggle_view_option(ViewToggle::XyGrid, defaults(), true, None).is_ok());
    assert_eq!(app.view.applied, before);
}

#[test]
fn a_renderer_that_keeps_step_does_so_whatever_is_asked() {
    let mut app = started(Platform::Native);
    let mut fast = preferences();
    fast.vsync_enabled = false;
    assert!(app.apply_preferences(fast, defaults(), true, Some(false)).is_ok());
    assert!(app.view.applied.vsync_enabled);
    assert!(!app.view.vsync_switchable);
    assert!(app.apply_preferences(fast, defaults(), true, Some(true)).is_ok());
    assert!(!app.view.applied.vsync_enabled);
}

#[test]
fn another_language_has_to_be_loaded() {
    let mut app = started(Platform::Native);
    app.view.language_stale = false;
    assert!(app.set_language(LanguageChoice::System, defaults(), true, None).is_ok());
    assert!(!app.view.language_stale);
    assert!(app.set_language(LanguageChoice::Listed(3), defaults(), true, None).is_ok());
    assert!(app.view.language_stale);
}

#[test]
fn the_camera_moves_where_there_is_a_renderer() {
    let mut app = started(Platform::Native);
    app.reset_view(false);
    assert_eq!(app.view.camera, None);
    app.reset_view(true);
    assert_eq!(app.view.camera, Some(CameraMove::PlanFit));
    app.zoom_to_extents(true);
    assert_eq!(app.view.camera, Some(CameraMove::KeepAngle));
    app.set_show_points(true);
    app.set_topology_wireframes(true);
    assert!(app.view.show_points && app.view.topology_wireframes);
}

#[test]
fn the_palette_is_stored_with_the_preferences() {
    let mut app = started(Platform::Native);
    app.blast.add_delay_product(42, String::from("42 ms"), 9);
    let config = config_from(preferences(), &app.blast.products, &app.survey.definitions, &app.survey.local_system);
    assert_eq!(config.delay_products.len(), 1);
    assert_eq!((config.delay_products[0].delay_ms, config.delay_products[0].color), (42, 9));
    assert_eq!(config.delay_products[0].name, "42 ms");
}

#[test]
fn every_file_holds_what_the_others_stored() {
    let mut app = started(Platform::Native);
    app.blast.add_delay_product(42, String::from("42 ms"), 9);
    let world = SystemDefinition { name: String::from("UTM"), kind: SystemKind::Projected { key: 3 }, axis_names: None };
    let plan = app.survey.plan_definition(&None, &world).ok().unwrap();
    let systems = app.survey_config(&plan);
    assert_eq!(systems.systems.iter().map(|s| s.name.as_str()).collect::<Vec<_>>(), vec!["UTM"]);
    assert_eq!(systems.local_system.as_deref(), Some("UTM"));
    assert_eq!(systems.delay_products.len(), 1);
    assert!(app.survey.save_survey_definition(&None, &world, true).is_ok());
    for config in [app.preferences_config(preferences(), defaults()), app.products_config()] {
        assert_eq!(config.systems.len(), 1);
        assert_eq!(config.local_system.as_deref(), Some("UTM"));
        assert_eq!(config.delay_products[0].name, "42 ms");
    }
    assert_eq!(app.survey.plan_local_system(&Some(String::from("nowhere"))).err(), Some(AppError::SystemMissing));
    assert!(app.survey.plan_local_system(&None).ok().unwrap().local_system.is_none());
}

#[test]
fn rasters_are_read_as_the_preferences_say_now() {
    let mut app = started(Platform::Native);
    let mut wanted = preferences();
    wanted.frames.downscale_raster_previews = false;
    assert!(app.apply_preferences(wanted, defaults(), true, None).is_ok());
    app.open_raster_path("a.tif");
    assert_eq!(app.loads.rasters[0].limit, 8192);
    wanted.frames.downscale_raster_previews = true;
    assert!(app.apply_preferences(wanted, defaults(), true, None).is_ok());
    app.open_raster_path("b.tif");
    assert_eq!(app.loads.rasters[1].limit, 4096);
}

fn grid(name: &str, parent: &str) -> SystemDefinition {
    SystemDefinition { name: String::from(name), kind: SystemKind::Grid { parent: String::from(parent), placement: 1 }, axis_names: None }
}

fn projected(name: &str) -> SystemDefinition {
    SystemDefinition { name: String::from(name), kind: SystemKind::Projected { key: 1 }, axis_names: Some(2) }
}

#[test]
fn systems_are_kept_in_order_and_hang_together() {
    let mut survey = Survey::new();
    assert!(survey.save_survey_definition(&None, &projected("World"), true).is_ok());
    assert!(survey.save_survey_definition(&None, &grid("Mine", "World"), true).is_ok());
    assert_eq!(survey.definitions.iter().map(|d| d.name.as_str()).collect::<Vec<_>>(), vec!["Mine", "World"]);
    assert!(resolve_system("Mine", &survey.definitions).is_ok());
    assert_eq!(survey.save_survey_definition(&None, &projected(" World "), true).err(), Some(AppError::SystemNameTaken));
    assert_eq!(survey.save_survey_definition(&None, &projected("  "), true).err(), Some(AppError::SystemNameBlank));
    assert_eq!(survey.delete_survey_definition("World", true).err(), Some(AppError::SystemInUse));
    assert_eq!(survey.save_survey_definition(&None, &grid("Loose", "Nowhere"), true).err(), Some(AppError::SystemUnresolved));
}

#[test]
fn a_renamed_system_keeps_its_children() {
    let mut survey = Survey::new();
    assert!(survey.save_survey_definition(&None, &projected("World"), true).is_ok());
    assert!(survey.save_survey_definition(&None, &grid("Mine", "World"), true).is_ok());
    assert!(survey.save_survey_definition(&Some(String::from("World")), &projected("Earth"), true).is_ok());
    assert!(resolve_system("Mine", &survey.definitions).is_ok());
    assert!(resolve_system("World", &survey.definitions).is_err());
    assert!(matches!(
        survey.definitions.iter().find(|d| d.name == "Mine").map(|d| &d.kind),
        Some(SystemKind::Grid { parent, .. }) if parent == "Earth"
    ));
}

#[test]
fn a_system_that_cannot_be_stored_is_not_kept() {
    let mut survey = Survey::new();
    assert_eq!(survey.save_survey_definition(&None, &projected("World"), false).err(), Some(AppError::ConfigNotWritten));
    assert!(survey.definitions.is_empty());
    assert!(survey.save_survey_definition(&None, &projected("World"), true).is_ok());
    assert!(survey.set_survey_local_system(Some(String::from("World")), true).is_ok());
    assert_eq!(survey.axis_names, Some(2));
    assert!(survey.set_survey_local_system(Some(String::from("Nowhere")), true).is_err());
    assert_eq!(
        survey.save_survey_definition(&Some(String::from("Gone")), &projected("New"), true).err(),
        Some(AppError::SystemMissing)
    );
}

#[test]
fn writes_know_their_project() {
    let mut app = edited(with_project(Platform::Native));
    app.workspace.projects[0].path = Some(String::from("pit.omf"));
    assert!(app.save_project(1, &Vec::new()).is_ok());
    assert!(app.files.saves[0].is_of_project(1));
    assert!(!app.files.saves[0].is_of_project(2));
    assert!(matches!(app.files.saves[0].kind, PendingSaveKind::Project { runtime_id: 1, close_after: false, .. }));
    assert!(app.defer_project_close_until_save_finishes(1));
    assert!(matches!(app.files.saves[0].kind, PendingSaveKind::Project { close_after: true, .. }));
}

#[test]
fn a_project_is_named_by_the_file_that_it_is_saved_to() {
    let mut app = edited(with_project(Platform::Native));
    let action = FileDialogAction::SaveProjectAs { project_runtime_id: 1, path: String::from("/site/North Pit.omf") };
    assert!(app.execute_file_dialog_action(action, facts(), &Vec::new()).is_ok());
    assert_eq!(app.files.saves.len(), 1);
    assert_eq!(app.jobs.tasks.last().map(|t| t.label.as_str()), Some("Saving North Pit.omf"));
    app.poll_saves(&vec![SaveOutcome::Done], facts(), &Vec::new());
    assert_eq!(app.workspace.projects[0].name, "North Pit");
    assert_eq!(app.workspace.projects[0].path.as_deref(), Some("/site/North Pit.omf"));
    assert!(!app.workspace.projects[0].is_dirty());
}
