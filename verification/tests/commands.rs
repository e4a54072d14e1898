use incline_design::arrivals::{LoadedBlockModel, LoadedDrillHoles, LoadedRaster, LoadedTriangulation};
use incline_design::canvas::{CursorPicks, ScenePick};
use incline_design::commands::answers::DialogEvent;
use incline_design::commands::dialogs::DialogFacts;
use incline_design::commands::discard::LayerRevert;
use incline_design::commands::omf::{ImportBundle, ViewOnOpen};
use incline_design::commands::plot::{PlotCentre, PlotDialog, PlotFacts, PlotTarget};
use incline_design::commands::residency::Drawing;
use incline_design::commands::surfaces::ExtentOnRaster;
use incline_design::commands::survey::SurveyFacts;
use incline_design::commands::tie_in::TieHit;
use incline_design::commands::section::ExplorerSection;
use incline_design::commands::view::{CameraPreferences, DebugPreferences, FramePreferences, InterfacePreferences, LanguageChoice, Preferences};
use incline_design::document::{Document, FillStyle, Layer, Object, PolyVertex, Rgba};
use incline_design::edit::Edit;
use incline_design::error::AppError;
use incline_design::files::{DataMenu, DialogRequest, FileDialogAction, MeshFormat, Request};
use incline_design::ids::{BlockModelId, DrillHoleId, HoleRef, IdSet, ItemRef, LayerId, ObjectId, RasterTextureId, SceneEntityId, TieRef, TriangulationId};
use incline_design::ieee::{Point3, ScreenPoint};
use incline_design::items::{BlockModelSlice, Bounds, DrillHole, HoleOrientation, HolePlacement, Initiation, TieIn};
use incline_design::jobs::Work;
use incline_design::loads::Loaded;
use incline_design::release::{BoxHits, ReleaseAction};
use incline_design::state::{ActiveTool, App, ObjectDrag, Platform, WorkspaceKind};
use incline_design::styles::ItemStyle;
use incline_design::workspace::{LayerHash, OpenProject, ProjectId, ProjectPersistence};

fn p(x: f64, y: f64, z: f64) -> Point3 {
    Point3 { x: x.to_bits(), y: y.to_bits(), z: z.to_bits() }
}

fn white() -> Rgba {
    let one = 1.0f32.to_bits();
    Rgba { r: one, g: one, b: one, a: one }
}

fn preferences() -> Preferences {
    Preferences {
        language: LanguageChoice::System,
        vsync_enabled: true,
        interface: InterfacePreferences {
            dark_mode: true,
            show_console: true,
            panel_chrome: false,
            show_world_axis_gizmo: true,
            show_xy_grid: false,
            show_scale_bar: true,
            renderer_background_color: white(),
        },
        frames: FramePreferences {
            snap_poll_rate: 60,
            frame_rate_cap: 144,
            resize_frame_rate_cap: 60,
            block_model_interaction_resolution_divisor: 2,
            show_block_model_boundary_highlights: false,
            downscale_raster_previews: true,
        },
        debug: DebugPreferences { frame_counter_enabled: false, debug_chunk_coloring: false, debug_clip_planes: false },
        camera: CameraPreferences {
            plan_orbit_sensitivity: 0.005f32.to_bits(),
            plan_zoom_sensitivity: 0.01f32.to_bits(),
            plan_invert_vertical_look: false,
            plan_invert_horizontal_look: false,
            plan_zoom_towards_cursor: true,
            fly_field_of_view_degrees: 60.0f32.to_bits(),
            fly_mouse_look_sensitivity: 0.002f32.to_bits(),
            fly_invert_vertical_look: false,
            fly_invert_horizontal_look: false,
            fly_near_clip_limit: 0.1f32.to_bits(),
            fly_max_clip_span: 10_000.0f32.to_bits(),
        },
    }
}

fn project(runtime_id: u32) -> OpenProject {
    OpenProject {
        runtime_id,
        id: ProjectId(u128::from(runtime_id)),
        name: String::from("Pit"),
        coordinate_reference_system: String::new(),
        units: String::from("m"),
        path: None,
        persistence: ProjectPersistence::File,
        document: Document::new(),
        loaded_layers: IdSet::new(),
        deferred_layers: IdSet::new(),
        revision: 0,
        content_hash: 7,
        saved_hash: None,
        layer_hashes: Vec::new(),
        saved_layer_hashes: Vec::new(),
        asset_revision: 0,
        saved_asset_revision: 0,
        lossy_save_warnings: Vec::new(),
        lossy_save_confirmed: false,
    }
}

fn started(platform: Platform) -> App {
    App::new(platform, preferences(), 8192)
}

fn line(id: u64, xs: &[f64], closed: bool) -> Object {
    Object::Polyline {
        id: ObjectId(id),
        layer: LayerId(1),
        verts: xs.iter().map(|x| PolyVertex { pos: p(*x, 0.0, 0.0), bulge: 0 }).collect(),
        closed,
        color: white(),
        fill: FillStyle::Clear,
        line_weight: 1.0f32.to_bits(),
    }
}

fn drawing() -> Document {
    let mut d = Document::new();
    d.layers.push(Layer {
        id: LayerId(1),
        name: String::from("Toe"),
        color_index: None,
        color: white(),
        visible: true,
        loaded: true,
        elevation: 0,
    });
    d.objects.push(line(10, &[0.0, 1.0, 2.0, 3.0], false));
    d.objects.push(line(11, &[0.0, 1.0, 2.0, 3.0, 4.0], true));
    d.objects.push(Object::Point { id: ObjectId(12), layer: LayerId(1), pos: p(5.0, 5.0, 1.0), color: white() });
    d.next_layer_id = 2;
    d.next_object_id = 20;
    d
}

fn bench_app() -> App {
    let mut app = started(Platform::Native);
    let mut open = project(1);
    open.document = drawing();
    app.workspace.projects.push(open);
    app.workspace.active_index = Some(0);
    app.workspace.next_runtime_id = 2;
    app.scene = drawing();
    app
}

fn facts() -> DialogFacts {
    DialogFacts {
        blank: None,
        supported: vec![true],
        present: vec![true],
        previews: Vec::new(),
        mesh_format: Some(MeshFormat::Obj),
        renderer_ready: true,
        plot: PlotFacts { layout: None, data_centre: None, view_centre: None, captured: false },
        renamed_hash: 0,
    }
}

fn bounds() -> Bounds {
    Bounds { min: p(0.0, 0.0, 0.0), max: p(10.0, 10.0, 10.0) }
}

fn with_items() -> App {
    let mut app = bench_app();
    app.workspace.projects[0].loaded_layers.insert(LayerId(1));
    app.add_loaded("topo.obj", Loaded::Triangulation(LoadedTriangulation { name: String::from("topo"), mesh: 5, bounds: bounds() }));
    app.add_loaded(
        "photo.tif",
        Loaded::Raster(LoadedRaster { name: String::from("photo"), pixels: 1, world_to_uv: [0; 6], projection: String::new() }),
    );
    app.add_loaded(
        "blocks.csv",
        Loaded::BlockModel(LoadedBlockModel {
            name: String::from("blocks"),
            blocks: 3,
            local_bounds: bounds(),
            active_color_variable: Some(String::from("au")),
            ramp: Some(1),
        }),
    );
    let hole = |x: f64| DrillHole {
        name: format!("H{x}"),
        placement: HolePlacement { collar: p(x, 0.0, 0.0), trace: 1, orientation: Some(HoleOrientation { azimuth: 0, dip: 0 }), extent: None },
        diameter: None,
        intervals: Vec::new(),
    };
    app.add_loaded(
        "holes.csv",
        Loaded::DrillHoles(LoadedDrillHoles {
            name: String::from("pattern"),
            holes: vec![hole(0.0), hole(1.0), hole(2.0)],
            fields: Vec::new(),
            bounds: Some(bounds()),
            tie_ins: vec![
                TieIn { from: 0, to: 1, delay_ms: 25, product: String::from("a"), color: 1 },
                TieIn { from: 1, to: 2, delay_ms: 42, product: String::from("b"), color: 2 },
            ],
            initiations: vec![Initiation { hole: 0, delay_ms: 7 }],
        }),
    );
    app
}

fn dialog() -> PlotDialog {
    PlotDialog {
        title: String::from("Plan"),
        drawing_number: String::new(),
        project_name: String::new(),
        date: String::new(),
        scale: 1000.0f64.to_bits(),
        centre: PlotCentre::AllData,
        centre_east: 0,
        centre_north: 0,
    }
}

#[test]
fn a_plot_dialog_fills_in_what_is_known() {
    let mut app = bench_app();
    app.workspace.projects[0].path = Some(String::from("North Pit.omf"));
    app.open_plot_dialog(dialog(), Some(p(100.0, 200.0, 0.0)));
    let shown = app.plot.dialog.as_ref().unwrap();
    assert_eq!(shown.date.len(), 10);
    assert_eq!(shown.date.chars().filter(|c| *c == '-').count(), 2);
    assert_eq!(shown.project_name, "North Pit");
    assert_eq!((shown.centre_east, shown.centre_north), (100.0f64.to_bits(), 200.0f64.to_bits()));
    assert_eq!(app.fit_plot_scale_to_data(Err(AppError::NothingVisible)).err(), Some(AppError::NothingVisible));
    assert!(app.fit_plot_scale_to_data(Ok(500.0f64.to_bits())).is_ok());
    assert_eq!(f64::from_bits(app.plot.dialog.as_ref().unwrap().scale), 500.0);
}

#[test]
fn a_sheet_is_composed_once_all_is_known() {
    let mut app = with_items();
    let target = || PlotTarget::File(String::from("plan.png"));
    let all = PlotFacts { layout: Some(1), data_centre: Some(p(1.0, 2.0, 3.0)), view_centre: Some(p(0.0, 0.0, 0.0)), captured: true };
    assert_eq!(app.write_plot_sheet(target(), all).err(), Some(AppError::DialogClosed));
    app.open_plot_dialog(dialog(), None);
    assert_eq!(app.write_plot_sheet(target(), PlotFacts { layout: None, ..all }).err(), Some(AppError::LayoutRefused));
    assert_eq!(app.write_plot_sheet(target(), PlotFacts { data_centre: None, ..all }).err(), Some(AppError::NothingVisible));
    assert_eq!(app.write_plot_sheet(target(), PlotFacts { view_centre: None, ..all }).err(), Some(AppError::RendererMissing));
    assert_eq!(app.write_plot_sheet(target(), PlotFacts { captured: false, ..all }).err(), Some(AppError::CaptureFailed));
    assert_eq!(app.plot_legend_entries().iter().map(|e| e.label.as_str()).collect::<Vec<_>>(), vec!["topo", "Toe"]);
    assert!(app.write_plot_sheet(target(), all).is_ok());
    assert!(app.plot.dialog.is_none());
    assert!(matches!(&app.jobs.pending[0].work, Work::ComposeSheet(sheet) if sheet.legend.len() == 2 && sheet.layout == 1));
}

#[test]
fn the_legend_is_no_longer_than_there_is_room() {
    let mut app = bench_app();
    for i in 0..100u64 {
        app.add_loaded("t.obj", Loaded::Triangulation(LoadedTriangulation { name: format!("t{i}"), mesh: 5, bounds: bounds() }));
    }
    assert!(app.plot_legend_entries().len() < 100);
}

#[test]
fn a_dialog_that_is_answered_is_carried_out() {
    let mut app = bench_app();
    app.choose_import_source_files(DataMenu::Obj);
    app.choose_open_project();
    assert_eq!(app.files.dialogs.len(), 2);
    let answer = DialogEvent::Answered { action: FileDialogAction::ImportTriangulation(vec![String::from("topo.obj")]), facts: facts() };
    app.poll_file_dialogs(vec![answer, DialogEvent::Shown], &Vec::new());
    assert_eq!(app.files.dialogs.len(), 1);
    assert!(matches!(app.files.dialogs[0], DialogRequest::OpenProject));
    assert_eq!(app.loads.triangulations.len(), 1);
    app.poll_file_dialogs(vec![DialogEvent::Cancelled], &Vec::new());
    assert!(app.files.dialogs.is_empty());
}

fn bundle(name: &str) -> ImportBundle {
    ImportBundle {
        project_name: String::from(name),
        coordinate_reference_system: String::from("local"),
        units: String::from("m"),
        designs: vec![drawing()],
        triangulations: Vec::new(),
        block_models: Vec::new(),
        drill_holes: Vec::new(),
        point_clouds: Vec::new(),
        rasters: Vec::new(),
        warnings: vec![String::from("texts are lost")],
    }
}

#[test]
fn an_opened_project_holds_no_unsaved_work() {
    let mut app = started(Platform::Native);
    let made = OpenProject { document: drawing(), ..project(0) };
    app.apply_opened_omf_bundle(Some(made), bundle("Deep Pit"), ViewOnOpen::Fit);
    let open = app.workspace.active_project().unwrap();
    assert_eq!(open.document.layers.iter().map(|l| l.name.as_str()).collect::<Vec<_>>(), vec!["Toe"]);
    assert_eq!(open.document.objects.iter().map(|o| o.id().0 & 0xffff_ffff).collect::<Vec<_>>(), vec![10, 11, 12]);
    assert_eq!(open.name, "Deep Pit");
    assert_eq!(open.lossy_save_warnings.len(), 1);
    assert!(!open.is_dirty());
    assert!(app.frame.fit_view && app.frame.session_stale);
    let mut keeps = started(Platform::Native);
    keeps.apply_opened_omf_bundle(None, bundle("x"), ViewOnOpen::Fit);
    assert!(keeps.workspace.projects.is_empty());
}

#[test]
fn a_project_is_read_again_unless_it_changed() {
    let mut app = bench_app();
    let made = || Some(OpenProject { document: drawing(), ..project(0) });
    app.apply_project_revert(1, 8, made(), bundle("Deep Pit"));
    app.apply_project_revert(5, 7, made(), bundle("Deep Pit"));
    assert_eq!(app.workspace.projects[0].name, "Pit");
    app.apply_project_revert(1, 7, None, bundle("Deep Pit"));
    assert_eq!(app.workspace.projects[0].runtime_id, 1);
    app.workspace.projects[0].loaded_layers.insert(LayerId(1));
    app.workspace.projects[0].loaded_layers.insert(LayerId(5));
    app.apply_project_revert(1, 7, made(), bundle("Deep Pit"));
    let layer = app.workspace.projects[0].document.layers[0].id;
    assert_eq!(layer.0 & 0xffff_ffff, 1);
    assert!(app.workspace.projects[0].loaded_layers.contains(layer));
    assert_eq!(app.workspace.projects[0].loaded_layers.as_vec().len(), 1);
    assert_eq!(app.workspace.projects.len(), 1);
    assert_eq!(app.workspace.projects[0].name, "Deep Pit");
    assert_eq!(app.workspace.projects[0].runtime_id, 2);
    assert!(!app.workspace.projects[0].is_dirty());
}

#[test]
fn a_bundle_joins_the_open_project() {
    let mut app = bench_app();
    app.apply_omf_bundles(vec![bundle("more")]);
    let d = &app.workspace.projects[0].document;
    assert_eq!(d.layers.iter().map(|l| l.name.as_str()).collect::<Vec<_>>(), vec!["Toe", "Toe 2"]);
    assert_eq!(d.objects.len(), 6);
}

#[test]
fn changes_to_a_layer_are_thrown_away_from_its_file() {
    let mut app = bench_app();
    app.request_discard_layer_changes(LayerId(1));
    assert!(app.files.closing.discard_layer.is_none());
    app.workspace.projects[0].path = Some(String::from("pit.omf"));
    app.workspace.projects[0].layer_hashes.push(LayerHash { layer: LayerId(1), hash: 9 });
    app.request_discard_layer_changes(LayerId(1));
    assert_eq!(app.files.closing.discard_layer.as_ref().map(|l| l.1.as_str()), Some("Toe"));
    assert_eq!(app.discard_layer_changes(LayerId(77)).err(), Some(AppError::LayerNotFound));
    assert!(app.discard_layer_changes(LayerId(1)).is_ok());
    assert!(matches!(&app.jobs.pending[0].work, Work::RevertLayer(LayerRevert { path, runtime_id: 1, .. }) if path == "pit.omf"));
}

#[test]
fn a_fatal_end_rescues_the_work() {
    let mut app = bench_app();
    app.begin_fatal_shutdown(&Vec::new());
    assert!(app.files.exit.fatal);
    assert!(matches!(app.files.requests.last(), Some(Request::WriteRecoveryCopy { runtime_id: 1, .. })));
}

#[test]
fn saving_and_closing_waits_for_the_write() {
    let mut app = bench_app();
    app.workspace.projects[0].path = Some(String::from("pit.omf"));
    assert!(app.save_and_close_project(1, &Vec::new()).is_ok());
    assert_eq!(app.workspace.projects.len(), 1);
    assert_eq!(app.files.saves.len(), 1);
}

#[test]
fn legs_are_selected_and_deleted() {
    let mut app = with_items();
    app.canvas.workspace = WorkspaceKind::DrillAndBlast;
    app.canvas.cursor_px = Some(ScreenPoint { x: 0, y: 0 });
    let tie = |from, to| TieRef { dataset: DrillHoleId(1), from, to };
    let hit = |t, d: f32| TieHit { tie: t, distance: d.to_bits(), clear: true };
    assert!(!app.select_tie_at_cursor(&vec![hit(tie(0, 1), 4.0)]));
    app.canvas.active_drill_hole = Some(DrillHoleId(9));
    assert!(!app.select_tie_at_cursor(&vec![hit(tie(0, 1), 4.0)]));
    app.canvas.active_drill_hole = Some(DrillHoleId(1));
    assert!(!app.select_tie_at_cursor(&vec![hit(tie(0, 2), 4.0)]));
    assert!(!app.select_tie_at_cursor(&vec![hit(tie(0, 1), 900.0)]));
    assert!(app.select_tie_at_cursor(&vec![hit(tie(0, 1), 4.0), hit(tie(1, 2), 1.0)]));
    assert!(app.selection.ties.contains(tie(1, 2)));
    app.delete_selected_tie_ins();
    assert!(app.selection.ties.is_empty());
    assert!(matches!(&app.steps[0].edits[0], Edit::SetTieIns { before, after, .. }
        if before.iter().map(|t| (t.from, t.to)).collect::<Vec<_>>() == vec![(1, 2)] && after.is_empty()));
}

#[test]
fn a_blast_marquee_takes_the_active_dataset_alone() {
    let mut app = with_items();
    app.canvas.workspace = WorkspaceKind::DrillAndBlast;
    let hole = |dataset, hole| HoleRef { dataset: DrillHoleId(dataset), hole };
    let tie = TieRef { dataset: DrillHoleId(1), from: 0, to: 1 };
    let hits = BoxHits {
        touching: Vec::new(),
        inside: Vec::new(),
        ties_touching: vec![tie],
        ties_inside: Vec::new(),
        holes_touching: Vec::new(),
        holes_inside: vec![hole(1, 0), hole(2, 0)],
    };
    app.finish_blast_box_selection(&hits, true);
    app.finish_blast_box_selection(&hits, false);
    assert!(app.selection.ties.is_empty() && app.selection.holes.is_empty());
    app.canvas.active_drill_hole = Some(DrillHoleId(1));
    app.finish_blast_box_selection(&hits, true);
    assert!(app.selection.ties.contains(tie));
    app.finish_blast_box_selection(&hits, false);
    assert!(app.selection.ties.is_empty());
    assert_eq!(app.selection.holes.as_vec(), &vec![hole(1, 0)]);
}

#[test]
fn a_press_takes_what_may_be_picked() {
    let mut app = with_items();
    let pick = |entity, hole| CursorPicks { surface: None, design: None, scene: Some(ScenePick { entity, hole, world: p(0.0, 0.0, 0.0) }), world: None };
    let dataset = SceneEntityId::DrillHole(DrillHoleId(1));
    let hole = HoleRef { dataset: DrillHoleId(1), hole: 2 };
    app.begin_select_or_drag(pick(dataset, Some(hole)));
    assert!(app.selection.handles.contains(dataset));
    app.begin_select_or_drag(pick(dataset, Some(hole)));
    assert!(app.selection.handles.is_empty());
    app.canvas.workspace = WorkspaceKind::DrillAndBlast;
    app.begin_select_or_drag(pick(dataset, Some(hole)));
    assert!(app.selection.holes.is_empty());
    app.canvas.active_drill_hole = Some(DrillHoleId(1));
    app.begin_select_or_drag(pick(dataset, Some(hole)));
    assert!(app.selection.holes.contains(hole));
}

#[test]
fn a_click_on_a_selected_raster_leaves_it_alone() {
    let mut app = with_items();
    let raster = SceneEntityId::Raster(RasterTextureId(1));
    let pick = CursorPicks { surface: None, design: None, scene: Some(ScenePick { entity: raster, hole: None, world: p(0.0, 0.0, 0.0) }), world: None };
    app.begin_select_or_drag(pick);
    app.begin_select_or_drag(pick);
    assert!(app.selection.handles.contains(raster));
}

#[test]
fn a_round_is_summed_up_once_for_each_state() {
    let mut app = with_items();
    app.canvas.active_drill_hole = Some(DrillHoleId(1));
    app.refresh_blast_round(&vec![Some(7), Some(32), None]);
    assert_eq!((app.blast.round.connectors, app.blast.round.duration_ms, app.blast.round.unreached), (2, Some(32), 1));
    assert_eq!(app.blast.round.initiations, vec![(String::from("H0"), 7)]);
    app.refresh_blast_round(&vec![None, None, None]);
    assert_eq!(app.blast.round.duration_ms, Some(32));
}

#[test]
fn a_dragged_object_is_recorded_where_it_stops() {
    let mut app = bench_app();
    app.canvas.drag = Some(ObjectDrag {
        object_id: ObjectId(12),
        plane_z: 0,
        last_world: p(5.0, 5.0, 1.0),
        moved: false,
        before: Object::Point { id: ObjectId(12), layer: LayerId(1), pos: p(5.0, 5.0, 1.0), color: white() },
    });
    let now = Object::Point { id: ObjectId(12), layer: LayerId(1), pos: p(8.0, 5.0, 1.0), color: white() };
    app.drag_to_cursor(Some(p(8.0, 5.0, 1.0)), Some(now));
    app.finish_drag();
    assert!(app.canvas.drag.is_none());
    assert_eq!(app.steps.len(), 1);
    assert!(app.steps[0].applied);
    assert!(matches!(&app.steps[0].edits[0], Edit::Replace { before: Object::Point { pos: a, .. }, after: Object::Point { pos: b, .. } }
        if *a == p(5.0, 5.0, 1.0) && *b == p(8.0, 5.0, 1.0)));
}

#[test]
fn a_click_that_was_not_dragged_records_nothing() {
    let mut app = bench_app();
    app.canvas.drag = Some(ObjectDrag {
        object_id: ObjectId(12),
        plane_z: 0,
        last_world: p(5.0, 5.0, 1.0),
        moved: false,
        before: Object::Point { id: ObjectId(12), layer: LayerId(1), pos: p(5.0, 5.0, 1.0), color: white() },
    });
    app.drag_to_cursor(None, None);
    app.finish_drag();
    assert!(app.steps.is_empty());
}

#[test]
fn a_marquee_selects_what_it_holds() {
    let mut app = bench_app();
    let at = |x: f32| Some(ScreenPoint { x: x.to_bits(), y: x.to_bits() });
    app.canvas.box_start_px = at(50.0);
    app.canvas.box_current_px = at(0.0);
    let h = |id| SceneEntityId::Object(ObjectId(id));
    let hits = BoxHits {
        touching: vec![h(10), h(11)],
        inside: vec![h(10)],
        ties_touching: Vec::new(),
        ties_inside: Vec::new(),
        holes_touching: Vec::new(),
        holes_inside: Vec::new(),
    };
    let picks = CursorPicks { surface: None, design: None, scene: None, world: None };
    assert_eq!(app.finish_box_selection(true, &hits, picks, None), ReleaseAction::Done);
    let one_way = app.selection.handles.len();
    app.canvas.box_start_px = at(0.0);
    app.canvas.box_current_px = at(50.0);
    assert_eq!(app.finish_box_selection(true, &hits, picks, None), ReleaseAction::Done);
    let mut both = vec![one_way, app.selection.handles.len()];
    both.sort();
    assert_eq!(both, vec![1, 2]);
    assert_eq!(app.canvas.box_start_px, None);
}

#[test]
fn a_survey_transform_wants_a_selection() {
    let mut app = with_items();
    let facts = |refused| SurveyFacts { refused, elevations: Vec::new(), target_system: String::from("Mine") };
    assert_eq!(app.transform_survey_selection(facts(Some(AppError::SystemUnresolved))).err(), Some(AppError::SystemUnresolved));
    assert_eq!(app.transform_survey_selection(facts(None)).err(), Some(AppError::EmptySelection));
    app.selection.handles.insert(SceneEntityId::Triangulation(TriangulationId(1)));
    assert!(app.transform_survey_selection(facts(None)).is_ok());
    assert!(matches!(&app.jobs.pending[0].work, Work::TransformSurvey(job) if job.marks.len() == 1 && job.objects.is_empty()));
}

#[test]
fn layers_are_hidden_selected_and_unloaded() {
    let mut app = with_items();
    app.toggle_layer_visible(LayerId(1));
    assert!(matches!(&app.steps[0].edits[0], Edit::SetLayerVisible { id: LayerId(1), from: true, to: false }));
    app.select_all_objects_in_layer(LayerId(1));
    assert_eq!(app.selection.handles.len(), 3);
    assert_eq!(app.canvas.active_layer, Some(LayerId(1)));
    app.unload_layer(LayerId(1));
    assert!(app.selection.handles.is_empty());
    assert_eq!(app.canvas.active_layer, None);
    assert!(!app.workspace.projects[0].loaded_layers.contains(LayerId(1)));
}

#[test]
fn a_slice_keeps_within_the_model() {
    let mut app = with_items();
    let slice = |a: f64, b: f64| Some(BlockModelSlice { min: p(a, a, a), max: p(b, b, b) });
    app.set_block_model_slice(BlockModelId(1), slice(8.0, 2.0));
    app.set_block_model_slice(BlockModelId(1), slice(f64::NAN, 2.0));
    assert!(app.steps.is_empty());
    app.set_block_model_slice(BlockModelId(1), slice(-5.0, 4.0));
    assert!(matches!(&app.steps[0].edits[0], Edit::SetItemStyle { after: ItemStyle::BlockModel { slice: Some(s), .. }, .. }
        if s.min == p(0.0, 0.0, 0.0) && s.max == p(4.0, 4.0, 4.0)));
    app.toggle_block_model_visible(BlockModelId(1));
    assert!(matches!(&app.steps[1].edits[0], Edit::SetItemStyle { after: ItemStyle::BlockModel { visible: false, .. }, .. }));
    app.select_block_model(BlockModelId(1));
    assert_eq!(app.blocks.viewport, Some(BlockModelId(1)));
}

#[test]
fn a_removed_surface_leaves_no_reference() {
    let mut app = with_items();
    app.activate_triangulation(TriangulationId(1));
    app.selection.handles.insert(SceneEntityId::Triangulation(TriangulationId(1)));
    app.surfaces.contour.surface = Some(TriangulationId(1));
    app.remove_triangulation(TriangulationId(1));
    assert_eq!(app.canvas.active_triangulation, None);
    assert!(app.selection.handles.is_empty());
    assert_eq!(app.surfaces.contour.surface, None);
    assert!(matches!(&app.steps.last().unwrap().edits[0], Edit::DeleteItem(ItemRef::Triangulation(TriangulationId(1)))));
}

#[test]
fn a_raster_is_draped_where_it_overlaps() {
    let mut app = with_items();
    let extent = |u: f64| ExtentOnRaster { across: [u.to_bits(); 4], down: [0.5f64.to_bits(); 4] };
    assert_eq!(app.drape_raster_over_surfaces(RasterTextureId(1), &vec![extent(1.5)]).err(), Some(AppError::NothingOverlaps));
    assert!(app.drape_raster_over_surfaces(RasterTextureId(1), &vec![extent(0.5)]).is_ok());
    let draped = app.steps.last().unwrap().edits.iter().any(|e| matches!(e, Edit::SetItemStyle {
        after: ItemStyle::Triangulation { raster_texture: Some(RasterTextureId(1)), .. }, .. }));
    assert!(draped);
}

#[test]
fn a_section_is_hidden_as_a_whole() {
    let mut app = with_items();
    app.set_section_visible(ExplorerSection::Designs, false, &Vec::new());
    assert!(matches!(&app.steps[0].edits[0], Edit::SetLayerLoaded { id: LayerId(1), from: true, to: false }));
    assert!(app.steps[0].batch);
}

#[test]
fn drawings_are_joined_with_the_design() {
    let mut app = with_items();
    let more = Drawing { name: String::from("more"), document: drawing() };
    app.apply_dxf_imports(1, vec![more]);
    assert_eq!(app.workspace.projects[0].document.layers.len(), 1);
    assert_eq!(app.workspace.projects[0].document.objects.len(), 6);
}

#[test]
fn a_gizmo_follows_the_pointer_and_lets_go() {
    let mut app = bench_app();
    app.canvas.active_tool = ActiveTool::Move;
    app.selection.handles.insert(SceneEntityId::Object(ObjectId(12)));
    app.finish_gizmo_drag();
    assert!(app.moving.drag.is_none());
    assert!(app.has_move_targets());
    assert_eq!(app.move_target_object_ids(), vec![ObjectId(12)]);
}

#[test]
fn a_hole_is_picked_one_at_a_time() {
    let mut app = with_items();
    let hole = HoleRef { dataset: DrillHoleId(1), hole: 1 };
    app.on_drill_hole_pick(hole, p(1.0, 0.0, 0.0), incline_design::canvas::SelectionMode::Replace);
    assert!(app.selection.holes.contains(hole));
    app.close_drill_hole(DrillHoleId(1));
    assert!(app.frame.evict_due);
    app.release_drillhole_runtime(DrillHoleId(1));
    assert!(app.selection.holes.is_empty());
}

#[test]
fn a_locked_layer_holds_no_selection() {
    let mut app = with_items();
    app.selection.handles.insert(SceneEntityId::Object(ObjectId(10)));
    app.selection.handles.insert(SceneEntityId::Triangulation(TriangulationId(1)));
    app.toggle_layer_locked(LayerId(1));
    assert!(!app.selection.handles.contains(SceneEntityId::Object(ObjectId(10))));
    assert!(app.selection.handles.contains(SceneEntityId::Triangulation(TriangulationId(1))));
}

#[test]
fn a_save_that_loses_something_is_asked_about() {
    let mut app = bench_app();
    app.workspace.projects[0].path = Some(String::from("pit.omf"));
    app.workspace.projects[0].lossy_save_warnings.push(String::from("texts are lost"));
    assert!(app.save_project(1, &Vec::new()).is_ok());
    assert!(app.files.lossy.confirm_open);
    assert!(app.files.saves.is_empty());
    let action = FileDialogAction::SaveProjectAs { project_runtime_id: 1, path: String::from("other.omf") };
    app.cancel_lossy_project_save();
    assert!(!app.files.lossy.confirm_open);
    assert!(app.execute_file_dialog_action(action, facts(), &Vec::new()).is_ok());
    assert!(app.files.lossy.confirm_open && app.files.saves.is_empty());
}

#[test]
fn a_project_that_is_being_deleted_is_not_stored_again() {
    let mut app = bench_app();
    app.platform = Platform::Browser;
    app.workspace.projects[0].persistence = ProjectPersistence::BrowserRecord(ProjectId(9));
    app.files.browser.deletes.insert(ProjectId(9));
    assert!(app.save_project(1, &Vec::new()).is_ok());
    assert!(app.files.requests.is_empty());
    assert!(app.files.browser.saves.is_empty());
}
