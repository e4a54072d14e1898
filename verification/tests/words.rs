use incline_design::commands::blocks::generated_source;
use incline_design::commands::choices::{mesh_format_mime_type, mesh_format_name_and_extension};
use incline_design::commands::dialogs::export_label;
use incline_design::commands::plot::{plot_file_name, PlotCentre, PlotDialog};
use incline_design::commands::saves::{save_label, save_label_for};
use incline_design::canvas::{derived_triangulation_name, update_auto_derived_name};
use incline_design::files::{contains_text, MeshFormat, PendingSaveKind};
use incline_design::fresh::new_project_id;
use incline_design::names::{make_unique, recovery_file_name, safe_stem, sanitised_file_stem, sanitize_file_stem, sanitize_project_name};
use incline_design::text::{complete_extension, decimal, same_optional_text, same_text, trim};

#[test]
fn white_space_is_trimmed() {
    assert_eq!(trim("  a b\t\n"), "a b");
    assert_eq!(trim("\u{2003}x\u{a0}"), "x");
    assert_eq!(trim(" \t "), "");
    assert_eq!(trim("plain"), "plain");
    assert_eq!(trim("\u{b}\u{c}\rx\u{1f}"), "x\u{1f}");
}

#[test]
fn numbers_are_written_in_decimal() {
    assert_eq!(decimal(0), "0");
    assert_eq!(decimal(1_024), "1024");
    assert_eq!(decimal(u128::MAX), u128::MAX.to_string());
}

#[test]
fn texts_are_compared() {
    assert!(same_text("Ore", "Ore"));
    assert!(!same_text("Ore", "ore"));
    assert!(same_optional_text(&None, &None));
    assert!(!same_optional_text(&Some(String::from("a")), &None));
    assert!(contains_text(&vec![String::from("a"), String::from("b")], "b"));
}

#[test]
fn an_extension_is_completed() {
    assert_eq!(complete_extension(String::from("pit"), "omf"), "pit.omf");
    assert_eq!(complete_extension(String::from("pit.v2"), "omf"), "pit.v2");
    assert_eq!(complete_extension(String::from("blocks"), "csv"), "blocks.csv");
    assert_eq!(complete_extension(String::from("site.v1/north pit"), "omf"), "site.v1/north pit.omf");
    assert_eq!(complete_extension(String::from("/site/pit.png"), "png"), "/site/pit.png");
    assert_eq!(complete_extension(String::from(".pit"), "png"), ".pit.png");
    assert_eq!(complete_extension(String::from("site.v1/.pit"), "csv"), "site.v1/.pit.csv");
}

#[test]
fn an_export_is_called_by_its_file() {
    assert_eq!(export_label(Some(String::from("pit.omf")), "Untitled.omf"), "Exporting pit.omf…");
    assert_eq!(export_label(None, "Untitled.omf"), "Exporting Untitled.omf…");
}

#[test]
fn file_stems_are_portable() {
    assert_eq!(sanitize_file_stem("  a/b:c  "), "a_b_c");
    assert_eq!(sanitize_file_stem("   "), "layer");
    assert_eq!(sanitize_project_name("..omf"), "..omf");
    assert_eq!(sanitize_file_stem("Ramp 1"), "Ramp 1");
}

#[test]
fn export_stems_are_plain() {
    assert_eq!(safe_stem("North Pit (2)"), "North_Pit__2");
    assert_eq!(safe_stem("___"), "incline_design_project");
    assert_eq!(safe_stem("a-b_c"), "a-b_c");
}

#[test]
fn drawing_stems_are_lower_case() {
    assert_eq!(sanitised_file_stem("Plan A-1"), "plan_a_1");
    assert_eq!(sanitised_file_stem("Ärger"), "Ärger");
    assert_eq!(sanitised_file_stem("--"), "Plot");
}

#[test]
fn project_names_end_in_the_extension_once() {
    assert_eq!(sanitize_project_name("Pit.OMF"), "Pit.omf");
    assert_eq!(sanitize_project_name("Pit.omf .omf"), "Pit.omf");
    assert_eq!(sanitize_project_name(" "), "Project.omf");
    assert_eq!(sanitize_project_name("a?b"), "a_b.omf");
}

#[test]
fn a_taken_name_gets_the_least_free_number() {
    let taken = vec![String::from("Pit"), String::from("Pit 2"), String::from("Pit 4")];
    assert_eq!(make_unique(&taken, "Pit"), "Pit 3");
    assert_eq!(make_unique(&taken, "Dump"), "Dump");
}

#[test]
fn a_new_project_has_a_random_identity() {
    let (a, b) = (new_project_id(), new_project_id());
    assert_ne!(a, b);
    assert_eq!((a.0 >> 76) & 0xf, 4);
    assert_eq!((a.0 >> 62) & 0x3, 2);
}

#[test]
fn generated_models_have_a_source_of_their_own() {
    let (a, b) = (generated_source(), generated_source());
    assert_ne!(a, b);
    let uuid: String = a.chars().filter(|c| c.is_ascii_hexdigit() || *c == '-').collect();
    assert!(uuid.len() >= 36);
    assert!(a.chars().filter(|c| *c == '-').count() >= 4);
}

fn dialog(title: &str, number: &str) -> PlotDialog {
    PlotDialog {
        title: String::from(title),
        drawing_number: String::from(number),
        project_name: String::new(),
        date: String::new(),
        scale: 0,
        centre: PlotCentre::AllData,
        centre_east: 0,
        centre_north: 0,
    }
}

#[test]
fn a_sheet_is_named_by_its_number_or_its_title() {
    assert_eq!(plot_file_name(&dialog("North Pit", " DWG 7 ")), "dwg_7.png");
    assert_eq!(plot_file_name(&dialog("North Pit", " ")), "north_pit.png");
    assert_eq!(plot_file_name(&dialog("", "")), "plot.png");
}

#[test]
fn mesh_formats_are_named() {
    assert_eq!(mesh_format_name_and_extension(MeshFormat::Stl).1, "stl");
    assert_eq!(mesh_format_name_and_extension(MeshFormat::Obj).1, "obj");
    assert_eq!(mesh_format_name_and_extension(MeshFormat::Ply).1, "ply");
    assert_ne!(mesh_format_mime_type(MeshFormat::Stl), mesh_format_mime_type(MeshFormat::Obj));
}

#[test]
fn derived_names_follow_their_source() {
    assert_eq!(derived_triangulation_name("topo.obj", "clipped"), derived_triangulation_name("topo", "clipped"));
    let mut name = String::from("kept");
    update_auto_derived_name(&mut name, false, "topo", "clipped");
    assert_eq!(name, "kept");
    update_auto_derived_name(&mut name, true, "topo.obj", "clipped");
    assert_eq!(name, derived_triangulation_name("topo", "clipped"));
}

#[test]
fn a_write_is_labelled_by_its_file() {
    let kind = PendingSaveKind::DxfExport { description: String::from("Layer") };
    assert_eq!(save_label(&kind, "pit.dxf"), save_label_for(&kind, "pit.dxf"));
    assert!(save_label(&kind, "pit.dxf").contains("pit.dxf"));
}

#[test]
fn a_rescued_project_is_named_by_time_and_number() {
    assert_eq!(recovery_file_name("Pit.omf.omf", 1700, 3), "Pit-1700-3.recovery.omf");
    assert_eq!(recovery_file_name("Pit.OMF", 0, 1), "Pit.OMF-0-1.recovery.omf");
}
