//! The state of project files: dialogs, writes under way, what waits for the
//! user, and what the surroundings are asked to do.

use crate::commands::plot::PlotSheet;
use crate::ids::{BlockModelId, IdSet, Key, LayerId, ObjectId, TriangulationId};
use crate::search::find_first;
use crate::text::same_text;
use crate::workspace::{LayerHash, ProjectId};
use vstd::prelude::*;
use vstd::string::*;

verus! {

/// What a menu imports.
#[derive(Clone, Copy, PartialEq, Eq, Structural, Debug)]
pub enum DataMenu {
    /// No menu is open.
    Closed,
    Dxf,
    Omf,
    Obj,
    Stl,
    Ply,
    Las,
    Xyz,
    Pcd,
    CsvBlockModel,
    CsvDrillHole,
    Geotiff,
}

/// A mesh file format.
#[derive(Clone, Copy, PartialEq, Eq, Structural, Debug)]
pub enum MeshFormat {
    Obj,
    Stl,
    Ply,
}

/// A file chosen in the browser: its name, and a key to its bytes.
pub struct InputFile {
    pub name: String,
    pub bytes: u64,
}

/// A project as it stood when a write of it began.
pub struct Snapshot {
    pub name: String,
    pub runtime_id: Option<u32>,
}

/// What a file dialog, or the menu behind it, asks for.
#[allow(inconsistent_fields)]
pub enum FileDialogAction {
    NewProject,
    OpenProject(Vec<String>),
    SwitchProject(String),
    WebOpenProject(Vec<InputFile>),
    WebStoredProject(ProjectId),
    WebNewProject(String),
    ImportDxfInto { paths: Vec<String> },
    ImportTriangulation(Vec<String>),
    ImportPointCloud(Vec<String>),
    ImportRaster(Vec<String>),
    SetImportSourcePaths { kind: DataMenu, paths: Vec<String> },
    WebSetImportSourceFiles { kind: DataMenu, files: Vec<Option<InputFile>> },
    ExportLayerDxf { project_runtime_id: u32, layer: LayerId, path: String },
    ExportProjectDxf { project_runtime_id: u32, path: String },
    ExportOmf { snapshot: Snapshot, path: String },
    ExportTriangulation { id: TriangulationId, path: String },
    ExportBlockModelCsv { id: BlockModelId, path: String },
    SaveProjectAs { project_runtime_id: u32, path: String },
    ExportViewportImage(String),
    ExportPlotSheet(String),
    WebDownloadDxf { project_runtime_id: u32, layer: Option<LayerId>, file_name: String },
    WebDownloadTriangulation { id: TriangulationId, format: MeshFormat, file_name: String, close_after: bool },
    WebDownloadBlockModelCsv { id: BlockModelId, file_name: String, close_after: bool },
    WebViewportImage(String),
}

/// A dialog that the surroundings have to show.
#[allow(inconsistent_fields)]
pub enum DialogRequest {
    OpenProject,
    ImportSources(DataMenu),
    ExportProjectDxf { project_runtime_id: u32, file_name: String },
    ExportLayerDxf { project_runtime_id: u32, layer: LayerId, file_name: String },
    ExportTriangulation { id: TriangulationId, format: MeshFormat, file_name: String },
    ExportBlockModelCsv { id: BlockModelId, file_name: String },
    ExportOmf { snapshot: Snapshot, file_name: String },
    SaveProjectAs { project_runtime_id: u32 },
    ExportViewportImage,
    ExportPlotSheet { file_name: String },
}

/// What a write under way is of.
pub enum PendingSaveKind {
    /// A copy of a surface.
    Export { name: String },
    /// A project, as it stood when the write began.
    Project {
        runtime_id: u32,
        snapshot_hash: u64,
        /// The hash of the same contents under the name that they had.
        content_before: u64,
        snapshot_layer_hashes: Vec<LayerHash>,
        asset_token: u64,
        /// The project closes once the write is over.
        close_after: bool,
        /// The project's name before, where the write gives it a new one.
        save_as_previous_name: Option<String>,
    },
    /// A drawing.
    DxfExport { description: String },
}

/// A write under way.
pub struct PendingSave {
    pub ticket: u64,
    pub kind: PendingSaveKind,
    pub path: String,
}

/// What the surroundings are asked to do.
#[allow(inconsistent_fields)]
pub enum Request {
    WriteProject { ticket: u64, snapshot: Snapshot, path: String },
    WriteDxf { ticket: u64, project_runtime_id: u32, layer: Option<LayerId>, path: String },
    WriteTriangulation { ticket: u64, id: TriangulationId, path: String },
    Screenshot(String),
    BrowserScreenshot(String),
    LoadStoredProject { project_id: ProjectId, ticket: u64 },
    SaveStoredProject { runtime_id: u32, project_id: ProjectId, snapshot: Snapshot },
    DeleteStoredProject { project_id: ProjectId, runtime_id: Option<u32> },
    WriteRecoveryCopy { snapshot: Snapshot, runtime_id: u32 },
    ShowInFileManager(String),
    /// The layers' objects leave the graphics memory.
    ReleaseLayers(Vec<LayerId>),
    /// Draws a plot sheet and hands it to the browser.
    ComposeSheet(PlotSheet),
}

/// A project that waits to take the place of the open one.
pub struct Replacement {
    pub pending: Option<FileDialogAction>,
    pub bypass: bool,
    pub after_save: bool,
    pub confirm_open: bool,
}

/// A save that would lose something of the file, waiting for the user.
pub struct LossySave {
    pub pending: Option<FileDialogAction>,
    pub confirm_open: bool,
}

/// The way out of the program.
#[derive(Clone, Copy, PartialEq, Eq, Structural, Debug)]
pub struct Exit {
    pub after_saves: bool,
    pub discard_changes: bool,
    pub confirm_open: bool,
    pub close_requested: bool,
    pub fatal: bool,
}

/// Projects and layers that wait for the user's word.
pub struct Closing {
    pub project: Option<u32>,
    pub remove_after: bool,
    pub discard_project: Option<u32>,
    pub discard_layer: Option<(LayerId, String)>,
}

/// A text being edited on the canvas.
#[derive(Clone, Copy, PartialEq, Eq, Structural, Debug)]
pub struct TextEdit {
    pub enabled: bool,
    pub object: Option<ObjectId>,
}

/// What is known of a table before it is imported: a key to it.
#[derive(Clone, Copy, PartialEq, Eq, Structural, Debug)]
pub struct CsvPreview(pub u64);

/// The import menu.
pub struct Import {
    pub menu: DataMenu,
    pub paths: Vec<String>,
    pub csv_preview: Option<CsvPreview>,
    pub csv_error: Option<String>,
    pub drill_csv: Vec<CsvPreview>,
    pub web_files: Option<(DataMenu, Vec<InputFile>)>,
}

impl Key for ProjectId {
    fn same(self, other: Self) -> (r: bool) {
        self == other
    }
}

impl Key for u32 {
    fn same(self, other: Self) -> (r: bool) {
        self == other
    }
}

/// Projects in the browser's storage.
pub struct Browser {
    pub loop_ready: bool,
    pub loads: IdSet<ProjectId>,
    pub saves: IdSet<u32>,
    pub deletes: IdSet<ProjectId>,
    pub delete_after_save: IdSet<u32>,
}

/// The dialog that names a new project.
pub struct NewProject {
    pub name: String,
    pub open: bool,
}

/// Everything about project files.
pub struct Files {
    pub dialogs: Vec<DialogRequest>,
    pub saves: Vec<PendingSave>,
    pub open_paths: Vec<String>,
    pub replacement: Replacement,
    pub lossy: LossySave,
    pub exit: Exit,
    pub closing: Closing,
    pub text: TextEdit,
    pub import: Import,
    pub browser: Browser,
    pub new_project: NewProject,
    pub known_paths: Vec<String>,
    pub startup_dismissed: bool,
    pub requests: Vec<Request>,
}

/// One of the texts is this one.
pub open spec fn holds_text(texts: Seq<String>, text: Seq<char>) -> bool {
    exists|i: int| 0 <= i < texts.len() && (#[trigger] texts[i])@ == text
}

/// Whether one of the texts is this one.
pub fn contains_text(texts: &Vec<String>, text: &str) -> (r: bool)
    ensures
        r == holds_text(texts@, text@),
{
    let found = find_first(texts, Ghost(|s: String| s@ == text@), |s: &String| -> (b: bool)
        ensures
            b == (s@ == text@),
        { same_text(s.as_str(), text) });
    found.is_some()
}

/// A write is of this project.
pub open spec fn writes_project(save: PendingSave, id: u32) -> bool {
    match save.kind {
        PendingSaveKind::Project { runtime_id, .. } => runtime_id == id,
        _ => false,
    }
}

/// A write of the project is under way.
pub open spec fn save_pending(saves: Seq<PendingSave>, id: u32) -> bool {
    exists|i: int| 0 <= i < saves.len() && writes_project(#[trigger] saves[i], id)
}

/// A write to the path is under way.
pub open spec fn path_written(saves: Seq<PendingSave>, path: Seq<char>) -> bool {
    exists|i: int| 0 <= i < saves.len() && (#[trigger] saves[i]).path@ == path
}

/// The project that a write is of.
pub open spec fn written_project(save: PendingSave) -> Option<u32> {
    match save.kind {
        PendingSaveKind::Project { runtime_id, .. } => Some(runtime_id),
        _ => None,
    }
}

/// The project that closes once the write is over.
pub open spec fn closed_after(save: PendingSave) -> Option<u32> {
    match save.kind {
        PendingSaveKind::Project { runtime_id, close_after, .. } => if close_after {
            Some(runtime_id)
        } else {
            None
        },
        _ => None,
    }
}

impl PendingSave {
    pub fn is_of_project(&self, id: u32) -> (r: bool)
        ensures
            r == writes_project(*self, id),
    {
        match &self.kind {
            PendingSaveKind::Project { runtime_id, .. } => *runtime_id == id,
            _ => false,
        }
    }
}

impl Files {
    /// Whether a write of the project is under way.
    pub fn project_save_is_pending(&self, runtime_id: u32) -> (r: bool)
        ensures
            r == save_pending(self.saves@, runtime_id),
    {
        let found = find_first(&self.saves, Ghost(|s: PendingSave| writes_project(s, runtime_id)), |s: &PendingSave| -> (b: bool)
            ensures
                b == writes_project(*s, runtime_id),
            { s.is_of_project(runtime_id) });
        found.is_some()
    }

    /// Whether a write to the path is under way.
    pub fn path_is_written(&self, path: &str) -> (r: bool)
        ensures
            r == path_written(self.saves@, path@),
    {
        let found = find_first(&self.saves, Ghost(|s: PendingSave| s.path@ == path@), |s: &PendingSave| -> (b: bool)
            ensures
                b == (s.path@ == path@),
            { same_text(s.path.as_str(), path) });
        found.is_some()
    }

    /// The path is being written, or a project is being opened from it.
    pub open spec fn path_busy(&self, path: Seq<char>) -> bool {
        path_written(self.saves@, path) || holds_text(self.open_paths@, path)
    }

    /// Whether the path is being written, or a project is being opened from it.
    pub fn save_path_is_pending(&self, path: &str) -> (r: bool)
        ensures
            r == self.path_busy(path@),
    {
        self.path_is_written(path) || contains_text(&self.open_paths, path)
    }
}

} // verus!
