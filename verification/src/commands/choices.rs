//! What the menus ask the user to choose, and what follows from the choice.

use crate::arrivals::{grown, LoadedDrillHoles};
use crate::commands::closing::delete_started;
use crate::commands::dialogs::{action_executed, export_settled, lemma_export_keeps, room_for, DialogFacts};
use crate::commands::exit::{close_requested, exit_called_off};
use crate::commands::leaving::project_saved;
use crate::commands::outcomes::replacement_continued;
use crate::commands::projects::transient_state_cleared;
use crate::commands::saves::{lemma_settling_keeps, settled_if_pending, snapshot_taken};
use crate::drawing::move_tool::active_runtime;
use crate::error::AppError;
use crate::files::{
    contains_text, holds_text, Closing, DataMenu, DialogRequest, FileDialogAction, Files, Import, InputFile, LossySave, MeshFormat, Replacement, Request,
    Snapshot,
};
use crate::ids::{BlockModelId, LayerId, TriangulationId};
use crate::items::{block_model_index, triangulation_index, HoleOrientation};
use crate::jobs::{job_queued, last_work, one_key, JobKey, Work};
use crate::loads::{arrived, id_left, preview_limit, raster_preview_dimension_limit, Loaded, LoadKind};
use crate::names::{export_stem, file_stem_for, safe_stem, sanitize_file_stem};
use crate::state::{App, Platform};
use crate::text::{file_part, file_stem, join, join3, known_path, same_text, stem_of, text_of};
use crate::workspace::{index_of_layer, OpenProject, ProjectId, Workspace};
use vstd::prelude::*;
use vstd::string::*;

verus! {

/// One more dialog was asked for.
pub open spec fn dialog_asked(pre: App, post: App) -> bool {
    &&& post == (App { files: Files { dialogs: post.files.dialogs, ..pre.files }, ..pre })
    &&& grown(pre.files.dialogs@, post.files.dialogs@)
}

/// The dialog that was asked for last.
pub open spec fn last_dialog(app: App) -> DialogRequest {
    app.files.dialogs@.last()
}

/// What a mesh format is called, and the extension of its files.
pub open spec fn format_name(format: MeshFormat) -> (Seq<char>, Seq<char>) {
    match format {
        MeshFormat::Obj => ("Wavefront OBJ"@, "obj"@),
        MeshFormat::Stl => ("STL"@, "stl"@),
        MeshFormat::Ply => ("PLY"@, "ply"@),
    }
}

/// What a mesh format is called, and the extension of its files.
pub fn mesh_format_name_and_extension(format: MeshFormat) -> (r: (&'static str, &'static str))
    ensures
        (r.0@, r.1@) == format_name(format),
{
    match format {
        MeshFormat::Obj => ("Wavefront OBJ", "obj"),
        MeshFormat::Stl => ("STL", "stl"),
        MeshFormat::Ply => ("PLY", "ply"),
    }
}

/// The media type of a mesh format.
pub fn mesh_format_mime_type(format: MeshFormat) -> (r: &'static str)
    ensures
        r@ == (match format {
            MeshFormat::Obj => "text/plain"@,
            MeshFormat::Stl => "model/stl"@,
            MeshFormat::Ply => "application/octet-stream"@,
        }),
{
    match format {
        MeshFormat::Obj => "text/plain",
        MeshFormat::Stl => "model/stl",
        MeshFormat::Ply => "application/octet-stream",
    }
}

/// The name that a table of a block model is offered under.
pub open spec fn table_name(model: Seq<char>, name: Seq<char>) -> bool {
    known_path(model) ==> name == stem_of(file_part(model)) + ".csv"@
}

/// The state once a project that waited for a save is no longer waited for.
pub open spec fn replacement_called_off(pre: App) -> App {
    App {
        files: Files { replacement: Replacement { pending: None, bypass: false, after_save: false, confirm_open: false }, ..pre.files },
        ..pre
    }
}

/// The active project's flag that the user agreed to lose something.
pub open spec fn lossy_flag_set(pre: Workspace, agreed: bool, post: Workspace) -> bool {
    match pre.active_index {
        Some(i) if i < pre.projects@.len() => {
            &&& post == (Workspace { projects: post.projects, ..pre })
            &&& post.projects@ == pre.projects@.update(i as int, OpenProject { lossy_save_confirmed: agreed, ..pre.projects@[i as int] })
        },
        _ => post == pre,
    }
}

impl Workspace {
    fn set_lossy_flag(&mut self, agreed: bool)
        ensures
            lossy_flag_set(*old(self), agreed, *final(self)),
    {
        match self.active_index {
            Some(i) => {
                if i < self.projects.len() {
                    self.projects[i].lossy_save_confirmed = agreed;
                    assert(self.projects@ =~= old(self).projects@.update(i as int, self.projects@[i as int]));
                }
            },
            None => {},
        }
    }
}

/// What saving before a replacement does.
pub open spec fn saved_for_replacement(pre: App, after: Seq<Option<HoleOrientation>>, r: Result<(), AppError>, post: App) -> bool {
    match active_runtime(pre.workspace) {
        None => r == Err::<(), AppError>(AppError::NoActiveProject) && post == pre,
        Some(id) => {
            let waits = App {
                files: Files { replacement: Replacement { after_save: true, confirm_open: false, ..pre.files.replacement }, ..pre.files },
                ..pre
            };
            exists|mid: App| #[trigger]
                project_saved(waits, id, after, r, mid) && post == (if r is Ok {
                    mid
                } else {
                    App {
                        files: Files { replacement: Replacement { after_save: false, confirm_open: true, ..mid.files.replacement }, ..mid.files },
                        ..mid
                    }
                })
        },
    }
}

/// What agreeing to lose something does.
pub open spec fn lossy_save_confirmed(
    pre: App,
    facts: DialogFacts,
    after: Seq<Option<HoleOrientation>>,
    r: Result<(), AppError>,
    post: App,
) -> bool {
    match active_runtime(pre.workspace) {
        None => r == Err::<(), AppError>(AppError::NoActiveProject) && post == pre,
        Some(id) => exists|agreed: App|
            {
                &&& #[trigger] lossy_agreed(pre, agreed)
                &&& match pre.files.lossy.pending {
                    Some(action) => action_executed(agreed, action, facts, after, r, post),
                    None => project_saved(agreed, id, after, r, post),
                }
            },
    }
}

/// The state once the user agreed to lose something.
pub open spec fn lossy_agreed(pre: App, post: App) -> bool {
    &&& post == (App {
        workspace: post.workspace,
        files: Files { lossy: LossySave { pending: None, confirm_open: false }, ..pre.files },
        ..pre
    })
    &&& lossy_flag_set(pre.workspace, true, post.workspace)
}

/// What refusing to lose something does.
pub open spec fn lossy_save_cancelled(pre: App, post: App) -> bool {
    let asked = if pre.files.replacement.after_save {
        Replacement { after_save: false, confirm_open: true, ..pre.files.replacement }
    } else {
        pre.files.replacement
    };
    let shut = App {
        files: Files { lossy: LossySave { pending: None, confirm_open: false }, replacement: asked, ..pre.files },
        ..pre
    };
    &&& post == (App {
        workspace: post.workspace,
        ..(if pre.files.exit.after_saves {
            exit_called_off(shut)
        } else {
            shut
        })
    })
    &&& lossy_flag_set(pre.workspace, false, post.workspace)
}

/// What switching to a known project does.
pub open spec fn tracked_activated(
    pre: App,
    path: String,
    facts: DialogFacts,
    after: Seq<Option<HoleOrientation>>,
    r: Result<(), AppError>,
    post: App,
) -> bool {
    if pre.workspace.active() matches Some(p) && text_of(p.path) == Some(path@) {
        r == Ok::<(), AppError>(()) && post == pre
    } else if pre.files.open_paths@.len() > 0 {
        r == Err::<(), AppError>(AppError::OpenPending) && post == pre
    } else {
        action_executed(pre, FileDialogAction::SwitchProject(path), facts, after, r, post)
    }
}

/// What switching to a known project in the browser does.
pub open spec fn stored_activated(
    pre: App,
    id: ProjectId,
    facts: DialogFacts,
    after: Seq<Option<HoleOrientation>>,
    r: Result<(), AppError>,
    post: App,
) -> bool {
    if pre.workspace.active() matches Some(p) && p.id == id {
        r == Ok::<(), AppError>(()) && post == pre
    } else if pre.files.browser.loads@ != Set::<ProjectId>::empty() {
        r == Err::<(), AppError>(AppError::OpenPending) && post == pre
    } else if pre.files.browser.deletes@.contains(id) {
        r == Err::<(), AppError>(AppError::DeletePending) && post == pre
    } else {
        action_executed(pre, FileDialogAction::WebStoredProject(id), facts, after, r, post)
    }
}

/// The state with a project that leaves the list once it is closed.
pub open spec fn removal_noted(pre: App) -> App {
    App { files: Files { closing: Closing { remove_after: true, ..pre.files.closing }, ..pre.files }, ..pre }
}

/// What taking a known project off the list does.
pub open spec fn tracked_removed(pre: App, path: Seq<char>, r: Result<(), AppError>, post: App) -> bool {
    if holds_text(pre.files.open_paths@, path) {
        r == Err::<(), AppError>(AppError::OpenPending) && post == pre
    } else {
        &&& r == Ok::<(), AppError>(())
        &&& match pre.workspace.active() {
            Some(p) if text_of(p.path) == Some(path) => close_requested(removal_noted(pre), p.runtime_id, post),
            _ => {
                &&& post == (App {
                    files: Files { known_paths: post.files.known_paths, ..pre.files },
                    frame: pre.frame.session(),
                    ..pre
                })
                &&& post.files.known_paths@ == crate::commands::closing::paths_without(pre.files.known_paths@, path)
            },
        }
    }
}

/// What taking a known project in the browser off the list does.
pub open spec fn stored_removed(pre: App, id: ProjectId, r: Result<(), AppError>, post: App) -> bool {
    if pre.files.browser.loads@.contains(id) {
        r == Err::<(), AppError>(AppError::OpenPending) && post == pre
    } else {
        match pre.workspace.active() {
            Some(p) if p.id == id => r == Ok::<(), AppError>(()) && close_requested(removal_noted(pre), p.runtime_id, post),
            _ => post == (App { files: post.files, ..pre }) && delete_started(pre.files, id, None, r, post.files),
        }
    }
}

/// The import menu once its files were taken.
pub open spec fn files_taken(pre: App, post: App) -> bool {
    &&& post == (App {
        files: Files {
            import: Import { web_files: None, menu: DataMenu::Closed, paths: post.files.import.paths, ..pre.files.import },
            ..pre.files
        },
        ..pre
    })
    &&& post.files.import.paths@.len() == 0
}

/// What taking the chosen files of one kind does.
pub open spec fn web_files_taken(pre: App, kind: DataMenu, r: Result<Vec<InputFile>, AppError>, post: App) -> bool {
    match pre.files.import.web_files {
        Some((k, files)) => if k == kind {
            r == Ok::<Vec<InputFile>, AppError>(files) && files_taken(pre, post)
        } else {
            r == Err::<Vec<InputFile>, AppError>(AppError::OtherFilesChosen) && post == pre
        },
        None => r == Err::<Vec<InputFile>, AppError>(AppError::NoFilesChosen) && post == pre,
    }
}

/// What taking the chosen files does.
pub open spec fn current_files_taken(pre: App, r: Result<(DataMenu, Vec<InputFile>), AppError>, post: App) -> bool {
    match pre.files.import.web_files {
        Some(chosen) => r == Ok::<(DataMenu, Vec<InputFile>), AppError>(chosen) && files_taken(pre, post),
        None => r == Err::<(DataMenu, Vec<InputFile>), AppError>(AppError::NoFilesChosen) && post == pre,
    }
}

/// What the task of reading a chosen file is called.
pub open spec fn input_label(kind: LoadKind, name: Seq<char>) -> Seq<char> {
    if kind == LoadKind::Raster || kind == LoadKind::BlockModel {
        "Loading "@ + name + "…"@
    } else {
        "Loading "@ + name
    }
}

/// What beginning to read a chosen file does.
pub open spec fn input_queued(pre: App, kind: LoadKind, file: InputFile, mapping: Option<u64>, limit: u32, post: App) -> bool {
    job_queued(pre, input_label(kind, file.name@), seq![JobKey::Anonymous], Work::LoadInput { kind, file, mapping, limit }, post)
}

/// The first `n` chosen files have begun to be read, one after the other.
pub open spec fn inputs_queued(pre: App, kind: LoadKind, files: Seq<InputFile>, limit: u32, n: int, post: App) -> bool
    decreases n,
{
    if n <= 0 {
        post == pre
    } else {
        exists|mid: App| inputs_queued(pre, kind, files, limit, n - 1, mid) && #[trigger] input_queued(mid, kind, files[n - 1], None, limit, post)
    }
}

/// The menu is for surfaces.
pub open spec fn surface_menu(menu: DataMenu) -> bool {
    menu == DataMenu::Obj || menu == DataMenu::Stl || menu == DataMenu::Ply
}

/// The menu is for point clouds.
pub open spec fn cloud_menu(menu: DataMenu) -> bool {
    menu == DataMenu::Las || menu == DataMenu::Xyz || menu == DataMenu::Pcd
}

/// The menu offers items of the kind: surfaces or clouds.
pub open spec fn menu_offers(menu: DataMenu, kind: LoadKind) -> bool {
    if kind == LoadKind::Triangulation {
        surface_menu(menu)
    } else {
        cloud_menu(menu)
    }
}

/// What importing the chosen files as items of one kind does.
pub open spec fn web_items_imported(pre: App, kind: LoadKind, r: Result<(), AppError>, post: App) -> bool {
    match pre.files.import.web_files {
        None => r == Err::<(), AppError>(AppError::NoFilesChosen) && post == pre,
        Some((menu, files)) => if !menu_offers(menu, kind) {
            r == Err::<(), AppError>(AppError::OtherFilesChosen) && files_taken(pre, post)
        } else {
            &&& r == Ok::<(), AppError>(())
            &&& exists|mid: App| #[trigger] files_taken(pre, mid) && inputs_queued(mid, kind, files@, 0, files@.len() as int, post)
        },
    }
}

/// What importing the chosen files as rasters does.
pub open spec fn web_rasters_imported(pre: App, r: Result<(), AppError>, post: App) -> bool {
    exists|mid: App, taken: Result<Vec<InputFile>, AppError>| #[trigger]
        web_files_taken(pre, DataMenu::Geotiff, taken, mid) && match taken {
            Err(e) => r == Err::<(), AppError>(e) && post == mid,
            Ok(files) => {
                &&& r == Ok::<(), AppError>(())
                &&& inputs_queued(
                    mid,
                    LoadKind::Raster,
                    files@,
                    preview_limit(mid.view.applied.frames.downscale_raster_previews, mid.loads.hardware_limit),
                    files@.len() as int,
                    post,
                )
            },
        }
}

/// What importing the one chosen file as a block model does.
pub open spec fn web_block_model_imported(pre: App, mapping: u64, r: Result<(), AppError>, post: App) -> bool {
    exists|mid: App, taken: Result<Vec<InputFile>, AppError>| #[trigger]
        web_files_taken(pre, DataMenu::CsvBlockModel, taken, mid) && match taken {
            Err(e) => r == Err::<(), AppError>(e) && post == mid,
            Ok(files) => if files@.len() == 0 {
                r == Err::<(), AppError>(AppError::NoFilesChosen) && post == mid
            } else if files@.len() > 1 {
                r == Err::<(), AppError>(AppError::TooManyFiles) && post == mid
            } else {
                let shut = App {
                    files: Files { import: Import { csv_preview: None, csv_error: None, ..mid.files.import }, ..mid.files },
                    ..mid
                };
                r == Ok::<(), AppError>(()) && input_queued(shut, LoadKind::BlockModel, files@[0], Some(mapping), 0, post)
            },
        }
}

/// Where drillholes come from.
#[derive(Clone, Copy, PartialEq, Eq, Structural, Debug)]
pub enum DrillHoleSource {
    /// A file of a kind that is no longer read.
    LegacyDhd,
    /// Tables, with so many mappings of columns.
    Csv { mappings: usize },
    /// A project, which is read as a whole.
    Omf,
}

/// Why so many files cannot be read as drillholes from such a source.
pub open spec fn bundle_refused(source: DrillHoleSource, files: int) -> Option<AppError> {
    match source {
        DrillHoleSource::LegacyDhd => Some(AppError::UnsupportedFile),
        DrillHoleSource::Csv { mappings } => if mappings != files {
            Some(AppError::FilesDoNotMatch)
        } else {
            None
        },
        DrillHoleSource::Omf => Some(AppError::ImportedWithProject),
    }
}

/// What importing the chosen files as drillholes does. `parsed` is what they
/// hold, if they can be read.
pub open spec fn web_drill_holes_imported(
    pre: App,
    source: DrillHoleSource,
    name: Seq<char>,
    parsed: Option<LoadedDrillHoles>,
    r: Result<(), AppError>,
    post: App,
) -> bool {
    match pre.files.import.web_files {
        None => r == Err::<(), AppError>(AppError::NoFilesChosen) && post == pre,
        Some((_, files)) => {
            let taken = App { files: Files { import: Import { web_files: None, ..pre.files.import }, ..pre.files }, ..pre };
            match bundle_refused(source, files@.len() as int) {
                Some(e) => r == Err::<(), AppError>(e) && post == taken,
                None => match parsed {
                    Some(loaded) => r == Ok::<(), AppError>(()) && arrived(taken, name, Loaded::DrillHoles(loaded), post),
                    None => r == Err::<(), AppError>(AppError::DataUnavailable) && post == taken,
                },
            }
        },
    }
}

/// What importing the chosen files as drawings does.
pub open spec fn web_drawings_imported(pre: App, r: Result<(), AppError>, post: App) -> bool {
    exists|mid: App, taken: Result<Vec<InputFile>, AppError>| #[trigger]
        web_files_taken(pre, DataMenu::Dxf, taken, mid) && match taken {
            Err(e) => r == Err::<(), AppError>(e) && post == mid,
            Ok(files) => match mid.workspace.active() {
                None => r == Err::<(), AppError>(AppError::NoActiveProject) && post == mid,
                Some(p) => {
                    &&& r == Ok::<(), AppError>(())
                    &&& job_queued(
                        mid,
                        "Parsing browser DXF import…"@,
                        seq![JobKey::Project { runtime_id: p.runtime_id, document_revision: p.revision }],
                        Work::ImportBrowserDxf { runtime_id: p.runtime_id, files },
                        post,
                    )
                },
            },
        }
}

/// What importing the chosen files as projects does.
pub open spec fn web_projects_imported(pre: App, r: Result<(), AppError>, post: App) -> bool {
    exists|mid: App, taken: Result<Vec<InputFile>, AppError>| #[trigger]
        web_files_taken(pre, DataMenu::Omf, taken, mid) && match taken {
            Err(e) => r == Err::<(), AppError>(e) && post == mid,
            Ok(files) => {
                &&& r == Ok::<(), AppError>(())
                &&& job_queued(mid, "Importing project…"@, seq![JobKey::Anonymous], Work::ImportBrowserOmf { files }, post)
            },
        }
}

/// What asking where a drawing of a project goes does.
pub open spec fn project_drawing_asked(pre: App, id: u32, facts: DialogFacts, after: Seq<Option<HoleOrientation>>, post: App) -> bool {
    exists|mid: App|
        {
            &&& #[trigger] export_settled(pre, id, after, mid)
            &&& if crate::workspace::index_of_runtime(mid.workspace.projects@, id) >= mid.workspace.projects@.len() {
                post == mid
            } else {
                drawing_asked(mid, id, None, "Project.dxf"@, facts, after, post)
            }
        }
}

/// What asking where a drawing goes does: in the browser it is made at once.
pub open spec fn drawing_asked(
    pre: App,
    id: u32,
    layer: Option<LayerId>,
    name: Seq<char>,
    facts: DialogFacts,
    after: Seq<Option<HoleOrientation>>,
    post: App,
) -> bool {
    if pre.platform == Platform::Browser {
        exists|file: String, r: Result<(), AppError>|
            {
                &&& file@ == name
                &&& #[trigger] action_executed(
                    pre,
                    FileDialogAction::WebDownloadDxf { project_runtime_id: id, layer, file_name: file },
                    facts,
                    after,
                    r,
                    post,
                )
            }
    } else {
        &&& dialog_asked(pre, post)
        &&& match (last_dialog(post), layer) {
            (DialogRequest::ExportProjectDxf { project_runtime_id, file_name }, None) => project_runtime_id == id && file_name@ == name,
            (DialogRequest::ExportLayerDxf { project_runtime_id, layer: l, file_name }, Some(wanted)) => project_runtime_id == id && l == wanted
                && file_name@ == name,
            _ => false,
        }
    }
}

/// What asking where a drawing of a layer goes does.
pub open spec fn layer_drawing_asked(pre: App, layer: LayerId, facts: DialogFacts, after: Seq<Option<HoleOrientation>>, post: App) -> bool {
    exists|mid: App|
        {
            &&& #[trigger] settled_if_pending(pre, after, mid)
            &&& {
                let projects = mid.workspace.projects@;
                let i = index_of_layer(projects, layer);
                if i >= projects.len() {
                    post == mid
                } else {
                    drawing_asked(
                        mid,
                        projects[i].runtime_id,
                        Some(layer),
                        file_stem_for(projects[i].document.layer_model(layer)->0.name) + ".dxf"@,
                        facts,
                        after,
                        post,
                    )
                }
            }
        }
}

/// What asking where a copy of a surface goes does.
pub open spec fn surface_copy_asked(
    pre: App,
    id: TriangulationId,
    format: MeshFormat,
    facts: DialogFacts,
    after: Seq<Option<HoleOrientation>>,
    post: App,
) -> bool {
    let surfaces = pre.items.triangulations@;
    let i = triangulation_index(surfaces, id);
    let stem = if i < surfaces.len() {
        file_stem_for(surfaces[i].name@)
    } else {
        "Triangulation"@
    };
    let name = stem + "."@ + format_name(format).1;
    if pre.platform == Platform::Browser {
        exists|file: String, r: Result<(), AppError>|
            {
                &&& file@ == name
                &&& #[trigger] action_executed(
                    pre,
                    FileDialogAction::WebDownloadTriangulation { id, format, file_name: file, close_after: false },
                    facts,
                    after,
                    r,
                    post,
                )
            }
    } else {
        &&& dialog_asked(pre, post)
        &&& last_dialog(post) matches DialogRequest::ExportTriangulation { id: t, format: f, file_name } && t == id && f == format && file_name@ == name
    }
}

/// What asking where a table of a block model goes does.
pub open spec fn table_asked(pre: App, id: BlockModelId, facts: DialogFacts, after: Seq<Option<HoleOrientation>>, post: App) -> bool {
    let models = pre.items.block_models@;
    let i = block_model_index(models, id);
    if i >= models.len() {
        post == pre
    } else if pre.platform == Platform::Browser {
        exists|file: String, r: Result<(), AppError>|
            {
                &&& table_name(models[i].name@, file@)
                &&& #[trigger] action_executed(
                    pre,
                    FileDialogAction::WebDownloadBlockModelCsv { id, file_name: file, close_after: false },
                    facts,
                    after,
                    r,
                    post,
                )
            }
    } else {
        &&& dialog_asked(pre, post)
        &&& last_dialog(post) matches DialogRequest::ExportBlockModelCsv { id: b, file_name } && b == id && table_name(models[i].name@, file_name@)
    }
}

/// What asking where a picture of the view goes does.
pub open spec fn picture_place_asked(pre: App, facts: DialogFacts, after: Seq<Option<HoleOrientation>>, post: App) -> bool {
    if pre.platform == Platform::Browser {
        exists|file: String, r: Result<(), AppError>|
            {
                &&& file@ == "Viewport.png"@
                &&& #[trigger] action_executed(pre, FileDialogAction::WebViewportImage(file), facts, after, r, post)
            }
    } else {
        dialog_asked(pre, post) && last_dialog(post) == DialogRequest::ExportViewportImage
    }
}

/// What asking where the open project goes as a file of its own does.
pub open spec fn project_file_asked(pre: App, after: Seq<Option<HoleOrientation>>, r: Result<(), AppError>, post: App) -> bool {
    exists|mid: App, s: Result<Snapshot, AppError>| #[trigger]
        snapshot_taken(pre, after, s, mid) && match s {
            Err(e) => r == Err::<(), AppError>(e) && post == mid,
            Ok(snapshot) => {
                let name = export_stem(snapshot.name@) + ".omf"@;
                &&& r == Ok::<(), AppError>(())
                &&& if mid.platform == Platform::Browser {
                    &&& job_queued(mid, "Encoding project…"@, seq![JobKey::Anonymous], last_work(post), post)
                    &&& last_work(post) matches Work::DownloadOmf { snapshot: t, file_name } && t == snapshot && file_name@ == name
                } else {
                    &&& dialog_asked(mid, post)
                    &&& last_dialog(post) matches DialogRequest::ExportOmf { snapshot: t, file_name } && t == snapshot && file_name@ == name
                }
            },
        }
}

impl App {
    /// Registers a dialog to be shown.
    pub fn spawn_file_dialog(&mut self, dialog: DialogRequest)
        ensures
            dialog_asked(*old(self), *final(self)),
            last_dialog(*final(self)) == dialog,
    {
        self.files.dialogs.push(dialog);
        assert(self.files.dialogs@.drop_last() =~= old(self).files.dialogs@);
    }

    /// Starts a new project: in the browser its name is asked for first.
    pub fn choose_new_project(&mut self, facts: DialogFacts, after: &Vec<Option<HoleOrientation>>)
        requires
            room_for(*old(self), FileDialogAction::NewProject),
        ensures
            if old(self).platform == Platform::Browser {
                &&& *final(self) == (App { files: Files { new_project: final(self).files.new_project, ..old(self).files }, ..*old(self) })
                &&& final(self).files.new_project.open
                &&& final(self).files.new_project.name@.len() == 0
            } else {
                exists|r: Result<(), AppError>| #[trigger] action_executed(*old(self), FileDialogAction::NewProject, facts, after@, r, *final(self))
            },
    {
        if self.platform == Platform::Browser {
            self.files.new_project.name = String::new();
            self.files.new_project.open = true;
        } else {
            let r = self.execute_file_dialog_action(FileDialogAction::NewProject, facts, after);
            assert(action_executed(*old(self), FileDialogAction::NewProject, facts, after@, r, *self));
        }
    }

    /// Makes a project of this name in the browser.
    pub fn create_browser_project(&mut self, name: String, facts: DialogFacts, after: &Vec<Option<HoleOrientation>>) -> (r: Result<(), AppError>)
        requires
            room_for(*old(self), FileDialogAction::WebNewProject(name)),
        ensures
            action_executed(*old(self), FileDialogAction::WebNewProject(name), facts, after@, r, *final(self)),
    {
        self.execute_file_dialog_action(FileDialogAction::WebNewProject(name), facts, after)
    }

    /// Begins an export in the browser; a refusal is only told to the user.
    pub fn start_browser_export(&mut self, action: FileDialogAction, facts: DialogFacts, after: &Vec<Option<HoleOrientation>>)
        requires
            room_for(*old(self), action),
        ensures
            exists|r: Result<(), AppError>| #[trigger] action_executed(*old(self), action, facts, after@, r, *final(self)),
    {
        let r = self.execute_file_dialog_action(action, facts, after);
        assert(action_executed(*old(self), action, facts, after@, r, *self));
    }

    /// Saves the open project before another takes its place.
    pub fn save_and_continue_project_replacement(&mut self, after: &Vec<Option<HoleOrientation>>) -> (r: Result<(), AppError>)
        requires
            old(self).jobs.next_ticket < u64::MAX,
        ensures
            saved_for_replacement(*old(self), after@, r, *final(self)),
    {
        let id: u32 = match self.active_runtime_id() {
            Some(id) => id,
            None => {
                return Err(AppError::NoActiveProject);
            },
        };
        self.files.replacement.confirm_open = false;
        self.files.replacement.after_save = true;
        let ghost waits = *self;
        let r = self.save_project(id, after);
        let ghost mid = *self;
        assert(project_saved(waits, id, after@, r, mid));
        if r.is_err() {
            self.files.replacement.after_save = false;
            self.files.replacement.confirm_open = true;
        }
        r
    }

    /// Lets unsaved work go, and goes on with a replacement that waited.
    pub fn discard_and_continue_project_replacement(&mut self, facts: DialogFacts, after: &Vec<Option<HoleOrientation>>) -> (r: Result<(), AppError>)
        requires
            old(self).files.replacement.pending matches Some(action) ==> room_for(*old(self), action),
        ensures
            exists|mid: App| #[trigger] transient_state_cleared(*old(self), mid) && replacement_continued(mid, facts, after@, r, *final(self)),
    {
        self.clear_editor_transient_state();
        let ghost mid = *self;
        proof {
            lemma_clearing_keeps(*old(self), mid);
        }
        self.continue_project_replacement(facts, after)
    }

    /// Gives up a replacement that waits.
    pub fn cancel_project_replacement(&mut self)
        ensures
            *final(self) == replacement_called_off(*old(self)),
    {
        self.files.replacement = Replacement { pending: None, bypass: false, after_save: false, confirm_open: false };
    }

    /// Goes on with a save that loses something, which the user agreed to.
    pub fn confirm_lossy_project_save(&mut self, facts: DialogFacts, after: &Vec<Option<HoleOrientation>>) -> (r: Result<(), AppError>)
        requires
            old(self).jobs.next_ticket < u64::MAX,
            old(self).files.lossy.pending matches Some(action) ==> room_for(*old(self), action),
        ensures
            lossy_save_confirmed(*old(self), facts, after@, r, *final(self)),
    {
        let id: u32 = match self.active_runtime_id() {
            Some(id) => id,
            None => {
                return Err(AppError::NoActiveProject);
            },
        };
        let action = self.files.lossy.pending.take();
        self.workspace.set_lossy_flag(true);
        self.files.lossy.confirm_open = false;
        let ghost agreed = *self;
        assert(lossy_agreed(*old(self), agreed));
        match action {
            Some(action) => self.execute_file_dialog_action(action, facts, after),
            None => self.save_project(id, after),
        }
    }

    /// Gives up a save that would lose something.
    pub fn cancel_lossy_project_save(&mut self)
        ensures
            lossy_save_cancelled(*old(self), *final(self)),
    {
        self.files.lossy = LossySave { pending: None, confirm_open: false };
        self.workspace.set_lossy_flag(false);
        if self.files.replacement.after_save {
            self.files.replacement.after_save = false;
            self.files.replacement.confirm_open = true;
        }
        if self.files.exit.after_saves {
            self.cancel_exit_request();
        }
    }

    /// Switches to a known project.
    pub fn activate_tracked_project(&mut self, path: String, facts: DialogFacts, after: &Vec<Option<HoleOrientation>>) -> (r: Result<(), AppError>)
        requires
            room_for(*old(self), FileDialogAction::SwitchProject(path)),
        ensures
            tracked_activated(*old(self), path, facts, after@, r, *final(self)),
    {
        let open = match self.workspace.active_project() {
            Some(p) => match &p.path {
                Some(own) => same_text(own.as_str(), path.as_str()),
                None => false,
            },
            None => false,
        };
        if open {
            return Ok(());
        }
        if self.files.open_paths.len() > 0 {
            return Err(AppError::OpenPending);
        }
        self.execute_file_dialog_action(FileDialogAction::SwitchProject(path), facts, after)
    }

    /// Switches to a known project in the browser.
    pub fn activate_stored_project(&mut self, id: ProjectId, facts: DialogFacts, after: &Vec<Option<HoleOrientation>>) -> (r: Result<(), AppError>)
        requires
            room_for(*old(self), FileDialogAction::WebStoredProject(id)),
        ensures
            stored_activated(*old(self), id, facts, after@, r, *final(self)),
    {
        let open = match self.workspace.active_project() {
            Some(p) => p.id == id,
            None => false,
        };
        if open {
            return Ok(());
        }
        if !self.files.browser.loads.is_empty() {
            return Err(AppError::OpenPending);
        }
        if self.files.browser.deletes.contains(id) {
            return Err(AppError::DeletePending);
        }
        self.execute_file_dialog_action(FileDialogAction::WebStoredProject(id), facts, after)
    }

    /// Asks for the file of the active project to be shown.
    pub fn show_active_project_in_file_manager(&mut self) -> (r: Result<(), AppError>)
        ensures
            match crate::commands::plot::active_path(*old(self)) {
                None => r == Err::<(), AppError>(AppError::NeverSaved) && *final(self) == *old(self),
                Some(path) => {
                    &&& r is Ok
                    &&& *final(self) == (App { files: Files { requests: final(self).files.requests, ..old(self).files }, ..*old(self) })
                    &&& grown(old(self).files.requests@, final(self).files.requests@)
                    &&& final(self).files.requests@.last() matches Request::ShowInFileManager(p) && p@ == path
                },
            },
    {
        let path = match self.workspace.active_project() {
            Some(p) => match &p.path {
                Some(path) => path.clone(),
                None => {
                    return Err(AppError::NeverSaved);
                },
            },
            None => {
                return Err(AppError::NeverSaved);
            },
        };
        self.files.requests.push(Request::ShowInFileManager(path));
        assert(self.files.requests@.drop_last() =~= old(self).files.requests@);
        Ok(())
    }

    /// Takes a known project off the list; it closes first where it is open.
    pub fn remove_tracked_project(&mut self, path: &str) -> (r: Result<(), AppError>)
        ensures
            tracked_removed(*old(self), path@, r, *final(self)),
    {
        if contains_text(&self.files.open_paths, path) {
            return Err(AppError::OpenPending);
        }
        let open: Option<u32> = match self.workspace.active_project() {
            Some(p) => match &p.path {
                Some(own) => {
                    if same_text(own.as_str(), path) {
                        Some(p.runtime_id)
                    } else {
                        None
                    }
                },
                None => None,
            },
            None => None,
        };
        match open {
            Some(id) => {
                self.files.closing.remove_after = true;
                self.request_close_project(id);
            },
            None => {
                crate::commands::closing::drop_path(&mut self.files.known_paths, path);
                self.persist_session();
            },
        }
        Ok(())
    }

    /// Takes a known project in the browser off the list; it closes first
    /// where it is open.
    pub fn remove_stored_project(&mut self, id: ProjectId) -> (r: Result<(), AppError>)
        ensures
            stored_removed(*old(self), id, r, *final(self)),
    {
        if self.files.browser.loads.contains(id) {
            return Err(AppError::OpenPending);
        }
        let open: Option<u32> = match self.workspace.active_project() {
            Some(p) => {
                if p.id == id {
                    Some(p.runtime_id)
                } else {
                    None
                }
            },
            None => None,
        };
        match open {
            Some(runtime_id) => {
                self.files.closing.remove_after = true;
                self.request_close_project(runtime_id);
                Ok(())
            },
            None => self.files.start_delete(id, None),
        }
    }

    /// Asks which project to open.
    pub fn choose_open_project(&mut self)
        ensures
            dialog_asked(*old(self), *final(self)),
            last_dialog(*final(self)) == DialogRequest::OpenProject,
    {
        self.spawn_file_dialog(DialogRequest::OpenProject);
    }

    /// Asks which files to import.
    pub fn choose_import_source_files(&mut self, kind: DataMenu)
        ensures
            dialog_asked(*old(self), *final(self)),
            last_dialog(*final(self)) == DialogRequest::ImportSources(kind),
    {
        self.spawn_file_dialog(DialogRequest::ImportSources(kind));
    }

    /// Takes the files that were chosen in the browser, if they are of a kind.
    pub fn take_web_import_files(&mut self, kind: DataMenu) -> (r: Result<Vec<InputFile>, AppError>)
        ensures
            web_files_taken(*old(self), kind, r, *final(self)),
    {
        match self.files.import.web_files.take() {
            Some((stored, files)) => {
                if stored == kind {
                    self.files.import.paths.clear();
                    self.files.import.menu = DataMenu::Closed;
                    Ok(files)
                } else {
                    self.files.import.web_files = Some((stored, files));
                    Err(AppError::OtherFilesChosen)
                }
            },
            None => Err(AppError::NoFilesChosen),
        }
    }

    /// Takes the files that were chosen in the browser.
    pub fn take_current_web_import_files(&mut self) -> (r: Result<(DataMenu, Vec<InputFile>), AppError>)
        ensures
            current_files_taken(*old(self), r, *final(self)),
    {
        match self.files.import.web_files.take() {
            Some(chosen) => {
                self.files.import.paths.clear();
                self.files.import.menu = DataMenu::Closed;
                Ok(chosen)
            },
            None => Err(AppError::NoFilesChosen),
        }
    }

    /// Lets the chosen files go, if they are of a kind.
    pub fn clear_browser_import_selection(&mut self, kind: DataMenu)
        ensures
            *final(self) == (App {
                files: Files {
                    import: Import {
                        web_files: match old(self).files.import.web_files {
                            Some((k, _)) if k == kind => None,
                            other => other,
                        },
                        ..old(self).files.import
                    },
                    ..old(self).files
                },
                ..*old(self)
            }),
    {
        let chosen = match &self.files.import.web_files {
            Some((k, _)) => *k == kind,
            None => false,
        };
        if chosen {
            self.files.import.web_files = None;
        }
    }

    fn queue_input(&mut self, kind: LoadKind, file: InputFile, mapping: Option<u64>, limit: u32)
        requires
            old(self).jobs.next_ticket < u64::MAX,
        ensures
            input_queued(*old(self), kind, file, mapping, limit, *final(self)),
            final(self).jobs.next_ticket == old(self).jobs.next_ticket + 1,
    {
        let label = if kind == LoadKind::Raster || kind == LoadKind::BlockModel {
            join3("Loading ", file.name.as_str(), "…")
        } else {
            join("Loading ", file.name.as_str())
        };
        self.spawn_job(label, one_key(JobKey::Anonymous), Work::LoadInput { kind, file, mapping, limit });
    }

    /// Begins to read a surface that was chosen in the browser.
    pub fn open_triangulation_input(&mut self, file: InputFile)
        requires
            old(self).jobs.next_ticket < u64::MAX,
        ensures
            input_queued(*old(self), LoadKind::Triangulation, file, None, 0, *final(self)),
    {
        self.queue_input(LoadKind::Triangulation, file, None, 0);
    }

    /// Begins to read a point cloud that was chosen in the browser.
    pub fn open_point_cloud_input(&mut self, file: InputFile)
        requires
            old(self).jobs.next_ticket < u64::MAX,
        ensures
            input_queued(*old(self), LoadKind::PointCloud, file, None, 0, *final(self)),
    {
        self.queue_input(LoadKind::PointCloud, file, None, 0);
    }

    /// Begins to read a raster that was chosen in the browser.
    pub fn open_raster_input(&mut self, file: InputFile)
        requires
            old(self).jobs.next_ticket < u64::MAX,
        ensures
            input_queued(
                *old(self),
                LoadKind::Raster,
                file,
                None,
                preview_limit(old(self).view.applied.frames.downscale_raster_previews, old(self).loads.hardware_limit),
                *final(self),
            ),
    {
        let limit: u32 = raster_preview_dimension_limit(self.view.applied.frames.downscale_raster_previews, self.loads.hardware_limit);
        self.queue_input(LoadKind::Raster, file, None, limit);
    }

    /// Begins to read a block model that was chosen in the browser.
    pub fn open_block_model_input(&mut self, file: InputFile, mapping: u64)
        requires
            old(self).jobs.next_ticket < u64::MAX,
        ensures
            input_queued(*old(self), LoadKind::BlockModel, file, Some(mapping), 0, *final(self)),
    {
        self.queue_input(LoadKind::BlockModel, file, Some(mapping), 0);
    }

    fn queue_inputs(&mut self, kind: LoadKind, files: Vec<InputFile>, limit: u32)
        requires
            old(self).jobs.next_ticket + files@.len() <= u64::MAX,
        ensures
            inputs_queued(*old(self), kind, files@, limit, files@.len() as int, *final(self)),
    {
        let ghost all = files@;
        let mut left = files;
        let mut done: Ghost<int> = Ghost(0);
        assert(all.skip(0) =~= all);
        while left.len() > 0
            invariant
                0 <= done@ <= all.len(),
                left@ == all.skip(done@),
                self.jobs.next_ticket + left@.len() <= u64::MAX,
                inputs_queued(*old(self), kind, all, limit, done@, *self),
            decreases left.len(),
        {
            let file = left.remove(0);
            let ghost mid = *self;
            self.queue_input(kind, file, None, limit);
            proof {
                assert(file == all[done@]);
                assert(left@ =~= all.skip(done@ + 1));
                assert(input_queued(mid, kind, all[done@ + 1 - 1], None, limit, *self));
                done@ = done@ + 1;
            }
        }
    }

    fn import_web_items(&mut self, kind: LoadKind) -> (r: Result<(), AppError>)
        requires
            kind == LoadKind::Triangulation || kind == LoadKind::PointCloud,
            old(self).files.import.web_files matches Some((_, files)) ==> old(self).jobs.next_ticket + files@.len() <= u64::MAX,
        ensures
            web_items_imported(*old(self), kind, r, *final(self)),
    {
        let (menu, files) = match self.take_current_web_import_files() {
            Ok(chosen) => chosen,
            Err(e) => {
                return Err(e);
            },
        };
        let fits = if kind == LoadKind::Triangulation {
            menu == DataMenu::Obj || menu == DataMenu::Stl || menu == DataMenu::Ply
        } else {
            menu == DataMenu::Las || menu == DataMenu::Xyz || menu == DataMenu::Pcd
        };
        if !fits {
            return Err(AppError::OtherFilesChosen);
        }
        let ghost mid = *self;
        assert(files_taken(*old(self), mid));
        self.queue_inputs(kind, files, 0);
        Ok(())
    }

    /// Imports the files that were chosen in the browser as surfaces.
    pub fn import_web_triangulation_sources(&mut self) -> (r: Result<(), AppError>)
        requires
            old(self).files.import.web_files matches Some((_, files)) ==> old(self).jobs.next_ticket + files@.len() <= u64::MAX,
        ensures
            web_items_imported(*old(self), LoadKind::Triangulation, r, *final(self)),
    {
        self.import_web_items(LoadKind::Triangulation)
    }

    /// Imports the files that were chosen in the browser as point clouds.
    pub fn import_web_point_cloud_sources(&mut self) -> (r: Result<(), AppError>)
        requires
            old(self).files.import.web_files matches Some((_, files)) ==> old(self).jobs.next_ticket + files@.len() <= u64::MAX,
        ensures
            web_items_imported(*old(self), LoadKind::PointCloud, r, *final(self)),
    {
        self.import_web_items(LoadKind::PointCloud)
    }

    /// Imports the files that were chosen in the browser as rasters.
    pub fn import_web_raster_sources(&mut self) -> (r: Result<(), AppError>)
        requires
            old(self).files.import.web_files matches Some((_, files)) ==> old(self).jobs.next_ticket + files@.len() <= u64::MAX,
        ensures
            web_rasters_imported(*old(self), r, *final(self)),
    {
        let taken = self.take_web_import_files(DataMenu::Geotiff);
        assert(web_files_taken(*old(self), DataMenu::Geotiff, taken, *self));
        let files = match taken {
            Ok(files) => files,
            Err(e) => {
                return Err(e);
            },
        };
        let limit: u32 = raster_preview_dimension_limit(self.view.applied.frames.downscale_raster_previews, self.loads.hardware_limit);
        self.queue_inputs(LoadKind::Raster, files, limit);
        Ok(())
    }

    /// Imports the one file that was chosen in the browser as a block model.
    pub fn import_web_csv_block_model(&mut self, mapping: u64) -> (r: Result<(), AppError>)
        requires
            old(self).jobs.next_ticket < u64::MAX,
        ensures
            web_block_model_imported(*old(self), mapping, r, *final(self)),
    {
        let taken = self.take_web_import_files(DataMenu::CsvBlockModel);
        assert(web_files_taken(*old(self), DataMenu::CsvBlockModel, taken, *self));
        let mut files = match taken {
            Ok(files) => files,
            Err(e) => {
                return Err(e);
            },
        };
        if files.len() == 0 {
            return Err(AppError::NoFilesChosen);
        }
        if files.len() > 1 {
            return Err(AppError::TooManyFiles);
        }
        let file = files.remove(0);
        self.files.import.csv_preview = None;
        self.files.import.csv_error = None;
        self.open_block_model_input(file, mapping);
        Ok(())
    }

    /// Imports the files that were chosen in the browser as drillholes under
    /// a name. `parsed` is what they hold, if they can be read.
    pub fn import_web_drill_hole_source(&mut self, source: DrillHoleSource, name: &str, parsed: Option<LoadedDrillHoles>) -> (r: Result<(), AppError>)
        requires
            parsed matches Some(loaded) ==> id_left(old(self).items, Loaded::DrillHoles(loaded), 1),
        ensures
            web_drill_holes_imported(*old(self), source, name@, parsed, r, *final(self)),
    {
        let files = match self.files.import.web_files.take() {
            Some((_, files)) => files,
            None => {
                return Err(AppError::NoFilesChosen);
            },
        };
        match parse_browser_bundle(source, files.len()) {
            Ok(_) => {},
            Err(e) => {
                return Err(e);
            },
        }
        match parsed {
            Some(loaded) => {
                self.add_loaded(name, Loaded::DrillHoles(loaded));
                Ok(())
            },
            None => Err(AppError::DataUnavailable),
        }
    }

    /// Imports drawings into the active project: the chosen files in the
    /// browser, the given paths elsewhere.
    pub fn import_dxf_paths_into(&mut self, paths: Vec<String>, facts: DialogFacts, after: &Vec<Option<HoleOrientation>>) -> (r: Result<(), AppError>)
        requires
            room_for(*old(self), FileDialogAction::ImportDxfInto { paths }),
        ensures
            if old(self).platform == Platform::Browser {
                web_drawings_imported(*old(self), r, *final(self))
            } else {
                action_executed(*old(self), FileDialogAction::ImportDxfInto { paths }, facts, after@, r, *final(self))
            },
    {
        if self.platform == Platform::Browser {
            self.import_web_drawings()
        } else {
            self.execute_file_dialog_action(FileDialogAction::ImportDxfInto { paths }, facts, after)
        }
    }

    fn import_web_drawings(&mut self) -> (r: Result<(), AppError>)
        requires
            old(self).jobs.next_ticket < u64::MAX,
        ensures
            web_drawings_imported(*old(self), r, *final(self)),
    {
        let taken = self.take_web_import_files(DataMenu::Dxf);
        assert(web_files_taken(*old(self), DataMenu::Dxf, taken, *self));
        let files = match taken {
            Ok(files) => files,
            Err(e) => {
                return Err(e);
            },
        };
        let (runtime_id, document_revision): (u32, u64) = match self.workspace.active_project() {
            Some(p) => (p.runtime_id, p.revision),
            None => {
                return Err(AppError::NoActiveProject);
            },
        };
        self.spawn_job(
            "Parsing browser DXF import…".to_owned(),
            one_key(JobKey::Project { runtime_id, document_revision }),
            Work::ImportBrowserDxf { runtime_id, files },
        );
        Ok(())
    }

    /// Merges projects from files into the open one.
    pub fn import_omf_paths(&mut self, paths: Vec<String>)
        requires
            old(self).jobs.next_ticket < u64::MAX,
        ensures
            if paths@.len() == 0 {
                *final(self) == *old(self)
            } else {
                job_queued(*old(self), "Importing project…"@, seq![JobKey::Anonymous], Work::ImportOmf { paths }, *final(self))
            },
    {
        if paths.len() > 0 {
            self.spawn_job("Importing project…".to_owned(), one_key(JobKey::Anonymous), Work::ImportOmf { paths });
        }
    }

    /// Merges projects that were chosen in the browser into the open one.
    pub fn import_web_omf_sources(&mut self) -> (r: Result<(), AppError>)
        requires
            old(self).jobs.next_ticket < u64::MAX,
        ensures
            web_projects_imported(*old(self), r, *final(self)),
    {
        let taken = self.take_web_import_files(DataMenu::Omf);
        assert(web_files_taken(*old(self), DataMenu::Omf, taken, *self));
        match taken {
            Ok(files) => {
                self.spawn_job("Importing project…".to_owned(), one_key(JobKey::Anonymous), Work::ImportBrowserOmf { files });
                Ok(())
            },
            Err(e) => Err(e),
        }
    }

    fn ask_drawing(&mut self, id: u32, layer: Option<LayerId>, name: String, facts: DialogFacts, after: &Vec<Option<HoleOrientation>>)
        requires
            old(self).jobs.next_ticket < u64::MAX,
            old(self).workspace.next_runtime_id < u32::MAX,
        ensures
            drawing_asked(*old(self), id, layer, name@, facts, after@, *final(self)),
    {
        if self.platform == Platform::Browser {
            let action = FileDialogAction::WebDownloadDxf { project_runtime_id: id, layer, file_name: name };
            let r = self.execute_file_dialog_action(action, facts, after);
            assert(action_executed(
                *old(self),
                FileDialogAction::WebDownloadDxf { project_runtime_id: id, layer, file_name: name },
                facts,
                after@,
                r,
                *self,
            ));
        } else {
            match layer {
                Some(layer) => self.spawn_file_dialog(DialogRequest::ExportLayerDxf { project_runtime_id: id, layer, file_name: name }),
                None => self.spawn_file_dialog(DialogRequest::ExportProjectDxf { project_runtime_id: id, file_name: name }),
            }
        }
    }

    /// Asks where a drawing of a project goes.
    pub fn choose_export_project_dxf(&mut self, project_runtime_id: u32, facts: DialogFacts, after: &Vec<Option<HoleOrientation>>)
        requires
            old(self).jobs.next_ticket < u64::MAX,
            old(self).workspace.next_runtime_id < u32::MAX,
        ensures
            project_drawing_asked(*old(self), project_runtime_id, facts, after@, *final(self)),
    {
        self.commit_export_move_if_needed(project_runtime_id, after);
        let ghost mid = *self;
        proof {
            assert(export_settled(*old(self), project_runtime_id, after@, mid));
            lemma_export_keeps(*old(self), project_runtime_id, after@, mid);
        }
        if self.workspace.project_index_for_runtime_id(project_runtime_id).is_none() {
            return ;
        }
        self.ask_drawing(project_runtime_id, None, "Project.dxf".to_owned(), facts, after);
    }

    /// Asks where a drawing of a layer goes.
    pub fn choose_export_layer_dxf(&mut self, layer: LayerId, facts: DialogFacts, after: &Vec<Option<HoleOrientation>>)
        requires
            old(self).jobs.next_ticket < u64::MAX,
            old(self).workspace.next_runtime_id < u32::MAX,
        ensures
            layer_drawing_asked(*old(self), layer, facts, after@, *final(self)),
    {
        self.settle_pending_move(after);
        let ghost mid = *self;
        proof {
            assert(settled_if_pending(*old(self), after@, mid));
            lemma_settling_keeps(*old(self), after@, mid);
        }
        let (id, name): (u32, String) = match self.workspace.project_index_for_layer(layer) {
            Some(i) => {
                let project = &self.workspace.projects[i];
                match project.document.find_layer(layer) {
                    Some(l) => (project.runtime_id, sanitize_file_stem(project.document.layers[l].name.as_str())),
                    None => {
                        return ;
                    },
                }
            },
            None => {
                return ;
            },
        };
        let file_name = join(name.as_str(), ".dxf");
        self.ask_drawing(id, Some(layer), file_name, facts, after);
    }

    /// Asks where a copy of a surface goes.
    pub fn choose_export_triangulation_as(&mut self, id: TriangulationId, format: MeshFormat, facts: DialogFacts, after: &Vec<Option<HoleOrientation>>)
        requires
            old(self).jobs.next_ticket < u64::MAX,
            old(self).workspace.next_runtime_id < u32::MAX,
        ensures
            surface_copy_asked(*old(self), id, format, facts, after@, *final(self)),
    {
        let stem = match self.items.find_triangulation(id) {
            Some(i) => sanitize_file_stem(self.items.triangulations[i].name.as_str()),
            None => "Triangulation".to_owned(),
        };
        let (_, extension) = mesh_format_name_and_extension(format);
        let name = join3(stem.as_str(), ".", extension);
        if self.platform == Platform::Browser {
            let action = FileDialogAction::WebDownloadTriangulation { id, format, file_name: name, close_after: false };
            let r = self.execute_file_dialog_action(action, facts, after);
            assert(action_executed(
                *old(self),
                FileDialogAction::WebDownloadTriangulation { id, format, file_name: name, close_after: false },
                facts,
                after@,
                r,
                *self,
            ));
        } else {
            self.spawn_file_dialog(DialogRequest::ExportTriangulation { id, format, file_name: name });
        }
    }

    /// Asks where a table of a block model goes.
    pub fn choose_export_block_model_csv(&mut self, id: BlockModelId, facts: DialogFacts, after: &Vec<Option<HoleOrientation>>)
        requires
            old(self).jobs.next_ticket < u64::MAX,
            old(self).workspace.next_runtime_id < u32::MAX,
        ensures
            table_asked(*old(self), id, facts, after@, *final(self)),
    {
        let name = match self.items.find_block_model(id) {
            Some(i) => block_table_name(self.items.block_models[i].name.as_str()),
            None => {
                return ;
            },
        };
        if self.platform == Platform::Browser {
            let action = FileDialogAction::WebDownloadBlockModelCsv { id, file_name: name, close_after: false };
            let r = self.execute_file_dialog_action(action, facts, after);
            assert(action_executed(
                *old(self),
                FileDialogAction::WebDownloadBlockModelCsv { id, file_name: name, close_after: false },
                facts,
                after@,
                r,
                *self,
            ));
        } else {
            self.spawn_file_dialog(DialogRequest::ExportBlockModelCsv { id, file_name: name });
        }
    }

    /// Asks where a picture of the view goes.
    pub fn spawn_export_viewport_image_dialog(&mut self, facts: DialogFacts, after: &Vec<Option<HoleOrientation>>)
        requires
            old(self).jobs.next_ticket < u64::MAX,
            old(self).workspace.next_runtime_id < u32::MAX,
        ensures
            picture_place_asked(*old(self), facts, after@, *final(self)),
    {
        if self.platform == Platform::Browser {
            let name = "Viewport.png".to_owned();
            let r = self.execute_file_dialog_action(FileDialogAction::WebViewportImage(name), facts, after);
            assert(action_executed(*old(self), FileDialogAction::WebViewportImage(name), facts, after@, r, *self));
        } else {
            self.spawn_file_dialog(DialogRequest::ExportViewportImage);
        }
    }

    /// Asks where the open project goes as a file of its own.
    pub fn choose_export_omf(&mut self, after: &Vec<Option<HoleOrientation>>) -> (r: Result<(), AppError>)
        requires
            old(self).jobs.next_ticket < u64::MAX,
        ensures
            project_file_asked(*old(self), after@, r, *final(self)),
    {
        let taken = self.omf_export_snapshot(after);
        let ghost mid = *self;
        proof {
            assert(snapshot_taken(*old(self), after@, taken, mid));
            lemma_settling_keeps(*old(self), after@, mid);
        }
        let snapshot = match taken {
            Ok(snapshot) => snapshot,
            Err(e) => {
                return Err(e);
            },
        };
        let stem = safe_stem(snapshot.name.as_str());
        let file_name = join(stem.as_str(), ".omf");
        if self.platform == Platform::Browser {
            self.spawn_job("Encoding project…".to_owned(), one_key(JobKey::Anonymous), Work::DownloadOmf { snapshot, file_name });
        } else {
            self.spawn_file_dialog(DialogRequest::ExportOmf { snapshot, file_name });
        }
        Ok(())
    }
}

fn block_table_name(model: &str) -> (r: String)
    ensures
        table_name(model@, r@),
{
    let stem = match file_stem(model) {
        Some(stem) => stem,
        None => String::new(),
    };
    if stem.as_str().unicode_len() == 0 {
        proof {
            if known_path(model@) {
                crate::text::lemma_stem_not_empty(file_part(model@));
            }
        }
        return "block_model.csv".to_owned();
    }
    join(stem.as_str(), ".csv")
}

/// Abandoning what is half done leaves tickets, ids and replacements alone.
proof fn lemma_clearing_keeps(pre: App, post: App)
    requires
        transient_state_cleared(pre, post),
    ensures
        post.jobs == pre.jobs,
        post.workspace.next_runtime_id == pre.workspace.next_runtime_id,
        post.files.replacement == pre.files.replacement,
{
}

/// Whether so many files can be read as drillholes from such a source.
pub fn parse_browser_bundle(source: DrillHoleSource, files: usize) -> (r: Result<(), AppError>)
    ensures
        match bundle_refused(source, files as int) {
            Some(e) => r == Err::<(), AppError>(e),
            None => r is Ok,
        },
{
    match source {
        DrillHoleSource::LegacyDhd => Err(AppError::UnsupportedFile),
        DrillHoleSource::Csv { mappings } => if mappings != files {
            Err(AppError::FilesDoNotMatch)
        } else {
            Ok(())
        },
        DrillHoleSource::Omf => Err(AppError::ImportedWithProject),
    }
}

} // verus!
