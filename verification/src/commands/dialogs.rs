//! What happens once a file dialog was answered.

use crate::commands::exit::unsaved;
use crate::commands::leaving::{lossy_unconfirmed, settled_for};
use crate::commands::plot::{sheet_written, PlotFacts, PlotTarget};
use crate::commands::projects::{open_begun, project_installed, untitled_started};
use crate::commands::saves::{
    asset_token, lemma_settling_keeps, project_write_begun, revert_pending, save_path_error, snapshot_taken, write_begun,
};
use crate::commands::closing::text_edit_index;
use crate::drawing::move_tool::pending_move_committed;
use crate::error::AppError;
use crate::files::{
    path_written, Browser, CsvPreview, DataMenu, FileDialogAction, Files, Import, InputFile, LossySave, MeshFormat, PendingSaveKind, Replacement, Request,
    Snapshot,
};
use crate::ids::{BlockModelId, LayerId, TriangulationId};
use crate::items::{block_model_index, triangulation_index, HoleOrientation};
use crate::jobs::{job_queued, last_work, one_key, task_begun, JobKey, Work};
use crate::loads::{load_begun, preview_limit, LoadKind};
use crate::names::{project_file_name, sanitize_project_name};
use crate::state::{App, Platform};
use crate::text::{complete_extension, completed, decimal, file_name, file_part, file_stem, join3, known_path, stem_of, text_of};
use crate::workspace::{index_of_runtime, OpenProject, ProjectId};
use vstd::prelude::*;
use vstd::string::*;

verus! {

/// What is known of the surroundings when a dialog was answered: an empty
/// project, where one can be made; which of the chosen files are of a known
/// format and which are there; what the chosen tables look like; the mesh
/// format that a path calls for; whether there is a renderer; what a plot
/// sheet rests on; and the hash of the project under the name it would get.
pub struct DialogFacts {
    pub blank: Option<OpenProject>,
    pub supported: Vec<bool>,
    pub present: Vec<bool>,
    pub previews: Vec<Result<CsvPreview, String>>,
    pub mesh_format: Option<MeshFormat>,
    pub renderer_ready: bool,
    pub plot: PlotFacts,
    pub renamed_hash: u64,
}

/// The action puts another project in the place of the open one.
pub open spec fn replaces_project(action: FileDialogAction) -> bool {
    match action {
        FileDialogAction::NewProject => true,
        FileDialogAction::OpenProject(_) => true,
        FileDialogAction::SwitchProject(_) => true,
        FileDialogAction::WebNewProject(_) => true,
        FileDialogAction::WebOpenProject(_) => true,
        FileDialogAction::WebStoredProject(_) => true,
        _ => false,
    }
}

/// The action saves a project in a way that the user has not agreed to.
pub open spec fn would_lose(app: App, action: FileDialogAction) -> bool {
    match action {
        FileDialogAction::SaveProjectAs { project_runtime_id, .. } => {
            let projects = app.workspace.projects@;
            let i = index_of_runtime(projects, project_runtime_id);
            i < projects.len() && lossy_unconfirmed(projects[i])
        },
        _ => false,
    }
}

/// What has to be settled before an action is carried out.
#[derive(Clone, Copy, PartialEq, Eq, Structural, Debug)]
pub enum Gate {
    /// The action goes ahead.
    Open,
    /// Another project is being opened.
    Busy,
    /// The open project holds unsaved work.
    AskReplace,
    /// The save would lose something of the file.
    AskLossy,
}

/// What has to be settled before an action is carried out.
pub open spec fn gate(app: App, action: FileDialogAction) -> Gate {
    if replaces_project(action) && app.platform == Platform::Browser && app.files.browser.loads@ != Set::<ProjectId>::empty() {
        Gate::Busy
    } else if replaces_project(action) && !app.files.replacement.bypass && unsaved(app) {
        Gate::AskReplace
    } else if would_lose(app, action) {
        Gate::AskLossy
    } else {
        Gate::Open
    }
}

/// The answer to the question before is used up.
pub open spec fn bypass_used(pre: App) -> App {
    App { files: Files { replacement: Replacement { bypass: false, ..pre.files.replacement }, ..pre.files }, ..pre }
}

/// A fact that is told of the i-th file.
pub open spec fn told(facts: Seq<bool>, i: int) -> bool {
    0 <= i < facts.len() && facts[i]
}

/// What the i-th table looks like.
pub open spec fn preview_of(previews: Seq<Result<CsvPreview, String>>, i: int) -> Result<CsvPreview, Seq<char>> {
    if 0 <= i < previews.len() {
        match previews[i] {
            Ok(p) => Ok(p),
            Err(text) => Err(text@),
        }
    } else {
        Err(Seq::empty())
    }
}

/// The first `n` files have begun to be read, one after the other.
pub open spec fn loads_begun(pre: App, kind: LoadKind, paths: Seq<String>, limit: u32, n: int, post: App) -> bool
    decreases n,
{
    if n <= 0 {
        post == pre
    } else {
        exists|mid: App|
            loads_begun(pre, kind, paths, limit, n - 1, mid) && #[trigger] load_begun(mid, kind, paths[n - 1]@, None, limit, post)
    }
}

/// How many files from the first on are of a known format and there.
pub open spec fn good_files(facts: DialogFacts, n: int) -> int
    decreases n,
{
    if n <= 0 {
        0
    } else if good_files(facts, n - 1) == n - 1 && told(facts.supported@, n - 1) && told(facts.present@, n - 1) {
        n
    } else {
        good_files(facts, n - 1)
    }
}

/// What importing files of one kind does: each begins to be read, up to the
/// first that cannot be.
pub open spec fn files_imported(pre: App, kind: LoadKind, paths: Seq<String>, limit: u32, facts: DialogFacts, r: Result<(), AppError>, post: App) -> bool {
    let n = good_files(facts, paths.len() as int);
    &&& loads_begun(pre, kind, paths, limit, n, post)
    &&& r == (if n == paths.len() {
        Ok::<(), AppError>(())
    } else if !told(facts.supported@, n) {
        Err(AppError::UnsupportedFile)
    } else {
        Err(AppError::FileMissing)
    })
}

/// What the import menu shows of a block-model table.
pub open spec fn csv_shown(import: Import, none: bool, first: Result<CsvPreview, Seq<char>>) -> bool {
    if none {
        import.csv_preview is None && text_of(import.csv_error) == Some("Choose a CSV block-model file"@)
    } else {
        match first {
            Ok(p) => import.csv_preview == Some(p) && import.csv_error is None,
            Err(text) => import.csv_preview is None && text_of(import.csv_error) == Some(text),
        }
    }
}

/// How many tables from the first on can be read.
pub open spec fn good_tables(previews: Seq<Result<CsvPreview, String>>, n: int) -> int
    decreases n,
{
    if n <= 0 {
        0
    } else if good_tables(previews, n - 1) == n - 1 && preview_of(previews, n - 1) is Ok {
        n
    } else {
        good_tables(previews, n - 1)
    }
}

/// What the import menu shows of drillhole tables: all of them, or why one
/// cannot be read.
pub open spec fn tables_shown(import: Import, n: int, previews: Seq<Result<CsvPreview, String>>) -> bool {
    let good = good_tables(previews, n);
    if good == n {
        &&& import.csv_error is None
        &&& import.drill_csv@.len() == n
        &&& forall|i: int| 0 <= i < n ==> preview_of(previews, i) == Ok::<CsvPreview, Seq<char>>(#[trigger] import.drill_csv@[i])
    } else {
        import.drill_csv@.len() == 0 && Err::<CsvPreview, Seq<char>>(text_of(import.csv_error)->0) == preview_of(previews, good)
            && import.csv_error is Some
    }
}

/// What choosing files to import does to the import menu.
pub open spec fn sources_set(pre: Import, kind: DataMenu, names: Seq<Seq<char>>, previews: Seq<Result<CsvPreview, String>>, post: Import) -> bool {
    let n = names.len() as int;
    &&& post == (Import {
        menu: kind,
        paths: post.paths,
        csv_preview: post.csv_preview,
        csv_error: post.csv_error,
        drill_csv: post.drill_csv,
        ..pre
    })
    &&& crate::names::texts(post.paths@) == names
    &&& if kind == DataMenu::CsvBlockModel {
        csv_shown(post, n == 0, preview_of(previews, 0)) && post.drill_csv == pre.drill_csv
    } else if kind == DataMenu::CsvDrillHole {
        tables_shown(post, n, previews) && post.csv_preview == pre.csv_preview
    } else {
        post.csv_preview == pre.csv_preview && post.csv_error == pre.csv_error && post.drill_csv == pre.drill_csv
    }
}

impl Import {
    fn show_block_model(&mut self, previews: &Vec<Result<CsvPreview, String>>)
        ensures
            csv_shown(*final(self), old(self).paths@.len() == 0, preview_of(previews@, 0)),
            *final(self) == (Import { csv_preview: final(self).csv_preview, csv_error: final(self).csv_error, ..*old(self) }),
    {
        self.csv_preview = None;
        if self.paths.len() == 0 {
            self.csv_error = Some("Choose a CSV block-model file".to_owned());
        } else if previews.len() == 0 {
            let none = String::new();
            assert(none@ =~= Seq::<char>::empty());
            self.csv_error = Some(none);
        } else {
            match &previews[0] {
                Ok(p) => {
                    self.csv_preview = Some(*p);
                    self.csv_error = None;
                },
                Err(text) => {
                    self.csv_error = Some(text.clone());
                },
            }
        }
    }

    fn show_drill_tables(&mut self, previews: &Vec<Result<CsvPreview, String>>)
        ensures
            tables_shown(*final(self), old(self).paths@.len() as int, previews@),
            *final(self) == (Import { drill_csv: final(self).drill_csv, csv_error: final(self).csv_error, ..*old(self) }),
    {
        self.drill_csv = Vec::new();
        self.csv_error = None;
        let n: usize = self.paths.len();
        let mut i: usize = 0;
        while i < n
            invariant
                i <= n,
                n == old(self).paths@.len(),
                *self == (Import { drill_csv: self.drill_csv, csv_error: None, ..*old(self) }),
                self.drill_csv@.len() == i,
                good_tables(previews@, i as int) == i,
                forall|j: int| 0 <= j < i ==> preview_of(previews@, j) == Ok::<CsvPreview, Seq<char>>(#[trigger] self.drill_csv@[j]),
            decreases n - i,
        {
            let seen: Result<CsvPreview, String> = if i < previews.len() {
                match &previews[i] {
                    Ok(p) => Ok(*p),
                    Err(text) => Err(text.clone()),
                }
            } else {
                let none = String::new();
                assert(none@ =~= Seq::<char>::empty());
                Err(none)
            };
            match seen {
                Ok(p) => {
                    self.drill_csv.push(p);
                },
                Err(text) => {
                    self.drill_csv = Vec::new();
                    self.csv_error = Some(text);
                    proof {
                        lemma_good_tables_stop(previews@, i as int, n as int);
                    }
                    return ;
                },
            }
            i += 1;
        }
    }

    /// Shows chosen files in the import menu.
    fn set_sources(&mut self, kind: DataMenu, paths: Vec<String>, previews: &Vec<Result<CsvPreview, String>>)
        ensures
            sources_set(*old(self), kind, crate::names::texts(paths@), previews@, *final(self)),
    {
        self.menu = kind;
        self.paths = paths;
        if kind == DataMenu::CsvBlockModel {
            self.show_block_model(previews);
        }
        if kind == DataMenu::CsvDrillHole {
            self.show_drill_tables(previews);
        }
    }
}

proof fn lemma_good_tables_stop(previews: Seq<Result<CsvPreview, String>>, i: int, n: int)
    requires
        0 <= i < n,
        good_tables(previews, i) == i,
        !(preview_of(previews, i) is Ok),
    ensures
        good_tables(previews, n) == i,
    decreases n - i,
{
    if n > i + 1 {
        lemma_good_tables_stop(previews, i, n - 1);
    }
}

proof fn lemma_good_files_stop(facts: DialogFacts, i: int, n: int)
    requires
        0 <= i < n,
        good_files(facts, i) == i,
        !(told(facts.supported@, i) && told(facts.present@, i)),
    ensures
        good_files(facts, n) == i,
    decreases n - i,
{
    if n > i + 1 {
        lemma_good_files_stop(facts, i, n - 1);
    }
}

/// The files that could be read, in their order.
pub open spec fn readable(files: Seq<Option<InputFile>>) -> Seq<InputFile>
    decreases files.len(),
{
    if files.len() == 0 {
        Seq::empty()
    } else {
        let before = readable(files.drop_last());
        match files.last() {
            Some(file) => before.push(file),
            None => before,
        }
    }
}

/// The names of files.
pub open spec fn file_names(files: Seq<InputFile>) -> Seq<Seq<char>> {
    files.map_values(|f: InputFile| f.name@)
}

/// What choosing files in the browser does.
pub open spec fn web_sources_set(pre: App, kind: DataMenu, files: Seq<Option<InputFile>>, facts: DialogFacts, post: App) -> bool {
    let chosen = readable(files);
    &&& post == (App { files: Files { import: post.files.import, ..pre.files }, ..pre })
    &&& post.files.import.web_files matches Some((k, kept)) && k == kind && kept@ == chosen
    &&& sources_set(
        Import { web_files: post.files.import.web_files, ..pre.files.import },
        kind,
        file_names(chosen),
        facts.previews@,
        post.files.import,
    )
}

/// A gesture over the project is settled before the project is written out.
pub open spec fn export_settled(pre: App, id: u32, after: Seq<Option<HoleOrientation>>, post: App) -> bool {
    match pre.moving.session {
        Some(session) if session.project_runtime_id == id => pending_move_committed(pre, after, post),
        _ => post == pre,
    }
}

/// What a drawing is of.
pub open spec fn drawing_of(layer: Option<LayerId>) -> Seq<char> {
    match layer {
        Some(l) => "layer LayerId("@ + crate::text::decimal_digits(l.0 as nat) + ")"@,
        None => "Project"@,
    }
}

/// What writing a drawing does once no gesture stands.
pub open spec fn drawing_begun(pre: App, id: u32, layer: Option<LayerId>, path: Seq<char>, r: Result<(), AppError>, post: App) -> bool {
    if pre.files.path_busy(path) {
        r == Err::<(), AppError>(AppError::PathBusy) && post == pre
    } else if index_of_runtime(pre.workspace.projects@, id) >= pre.workspace.projects@.len() {
        r == Err::<(), AppError>(AppError::ProjectGone) && post == pre
    } else {
        &&& r == Ok::<(), AppError>(())
        &&& write_begun(pre, post.files.saves@.last().kind, path, post)
        &&& post.files.saves@.last().kind matches PendingSaveKind::DxfExport { description } && description@ == drawing_of(layer)
        &&& post.files.requests@.last() matches Request::WriteDxf { ticket, project_runtime_id, layer: l, path: p } && ticket == pre.jobs.next_ticket
            && project_runtime_id == id && l == layer && p@ == path
    }
}

/// What writing a drawing does.
pub open spec fn drawing_exported(
    pre: App,
    id: u32,
    layer: Option<LayerId>,
    path: Seq<char>,
    after: Seq<Option<HoleOrientation>>,
    r: Result<(), AppError>,
    post: App,
) -> bool {
    exists|mid: App| #[trigger] export_settled(pre, id, after, mid) && drawing_begun(mid, id, layer, path, r, post)
}

/// What handing a drawing to the browser does.
pub open spec fn drawing_downloaded(
    pre: App,
    id: u32,
    layer: Option<LayerId>,
    name: String,
    after: Seq<Option<HoleOrientation>>,
    r: Result<(), AppError>,
    post: App,
) -> bool {
    exists|mid: App|
        {
            &&& #[trigger] export_settled(pre, id, after, mid)
            &&& if index_of_runtime(mid.workspace.projects@, id) >= mid.workspace.projects@.len() {
                r == Err::<(), AppError>(AppError::ProjectGone) && post == mid
            } else {
                &&& r == Ok::<(), AppError>(())
                &&& job_queued(
                    mid,
                    "Encoding DXF download…"@,
                    seq![JobKey::Anonymous],
                    Work::DownloadDxf { project_runtime_id: id, layer, file_name: name },
                    post,
                )
            }
        }
}

/// What writing a copy of a surface does.
pub open spec fn surface_exported(pre: App, id: TriangulationId, path: Seq<char>, facts: DialogFacts, r: Result<(), AppError>, post: App) -> bool {
    let surfaces = pre.items.triangulations@;
    let i = triangulation_index(surfaces, id);
    if facts.mesh_format is None {
        r == Err::<(), AppError>(AppError::UnknownMeshFormat) && post == pre
    } else if pre.loads.reading(LoadKind::Triangulation, path, None) {
        r == Err::<(), AppError>(AppError::ImportPending) && post == pre
    } else if path_written(pre.files.saves@, path) {
        r == Err::<(), AppError>(AppError::PathBusy) && post == pre
    } else if i >= surfaces.len() {
        r == Err::<(), AppError>(AppError::SurfaceNotFound) && post == pre
    } else {
        &&& r == Ok::<(), AppError>(())
        &&& write_begun(pre, post.files.saves@.last().kind, path, post)
        &&& post.files.saves@.last().kind matches PendingSaveKind::Export { name } && name@ == surfaces[i].name@
        &&& post.files.requests@.last() matches Request::WriteTriangulation { ticket, id: t, path: p } && ticket == pre.jobs.next_ticket && t == id
            && p@ == path
    }
}

/// The last component of a path, where it has one that reads as text.
pub open spec fn file_name_read(path: Seq<char>, name: Option<Seq<char>>) -> bool {
    known_path(path) ==> name == Some(file_part(path))
}

/// What a task that writes a file is called, by the file's name or by what
/// stands in for it.
pub open spec fn exporting(name: Option<Seq<char>>, otherwise: Seq<char>) -> Seq<char> {
    "Exporting "@ + (match name {
        Some(n) => n,
        None => otherwise,
    }) + "…"@
}

/// What a task that writes to the path is called.
pub open spec fn exporting_label(path: Seq<char>, otherwise: Seq<char>, label: Seq<char>) -> bool {
    exists|name: Option<Seq<char>>| #[trigger] file_name_read(path, name) && label == exporting(name, otherwise)
}

/// What writing a block model as a table does.
pub open spec fn table_exported(pre: App, id: BlockModelId, path: Seq<char>, r: Result<(), AppError>, post: App) -> bool {
    if block_model_index(pre.items.block_models@, id) >= pre.items.block_models@.len() {
        r == Err::<(), AppError>(AppError::BlockModelNotFound) && post == pre
    } else {
        &&& r == Ok::<(), AppError>(())
        &&& exists|label: Seq<char>| #[trigger]
            job_queued(pre, label, seq![JobKey::BlockModel(id)], last_work(post), post) && (last_work(post) matches Work::ExportBlockModelCsv {
                id: b,
                path: p,
            } && b == id && completed(path, "csv"@, p@) && exporting_label(p@, p@, label))
    }
}

/// What writing a snapshot does.
pub open spec fn snapshot_exported(pre: App, snapshot: Snapshot, path: Seq<char>, post: App) -> bool {
    exists|label: Seq<char>| #[trigger]
        job_queued(pre, label, seq![JobKey::Anonymous], last_work(post), post) && (last_work(post) matches Work::ExportOmf { snapshot: s, path: p } && s
            == snapshot && completed(path, "omf"@, p@) && exporting_label(p@, "Untitled.omf"@, label))
}

/// The name that a project gets from the file that it is saved to.
pub open spec fn name_from(path: Seq<char>, name: Seq<char>) -> bool {
    known_path(path) ==> name == stem_of(file_part(path))
}

/// The write is of a project that gets a new name with it.
pub open spec fn renaming_write(kind: PendingSaveKind, id: u32, project: OpenProject, hash: u64, token: u64) -> bool {
    match kind {
        PendingSaveKind::Project { runtime_id, snapshot_hash, content_before, snapshot_layer_hashes, asset_token, close_after, save_as_previous_name } => {
            &&& runtime_id == id
            &&& snapshot_hash == hash
            &&& content_before == project.content_hash
            &&& snapshot_layer_hashes@ == project.layer_hashes@
            &&& asset_token == token
            &&& !close_after
            &&& text_of(save_as_previous_name) == Some(project.name@)
        },
        _ => false,
    }
}

/// What saving a project to a new place does once the place is free.
pub open spec fn saved_as_begun(
    pre: App,
    i: int,
    id: u32,
    path: Seq<char>,
    hash: u64,
    after: Seq<Option<HoleOrientation>>,
    r: Result<(), AppError>,
    post: App,
) -> bool {
    exists|mid: App, s: Result<Snapshot, AppError>| #[trigger]
        snapshot_taken(pre, after, s, mid) && match s {
            Err(e) => r == Err::<(), AppError>(e) && post == mid,
            Ok(snapshot) => {
                &&& r == Ok::<(), AppError>(())
                &&& exists|kind: PendingSaveKind, named: Snapshot| #[trigger]
                    project_write_begun(mid, kind, named, path, post) && renaming_write(kind, id, pre.workspace.projects@[i], hash, asset_token(mid.workspace))
                        && named == (Snapshot { name: named.name, ..snapshot }) && name_from(path, named.name@)
            },
        }
}

/// What saving a project to a new place does.
pub open spec fn saved_as(
    pre: App,
    id: u32,
    path: Seq<char>,
    facts: DialogFacts,
    after: Seq<Option<HoleOrientation>>,
    r: Result<(), AppError>,
    post: App,
) -> bool {
    let i = index_of_runtime(pre.workspace.projects@, id);
    if revert_pending(pre.jobs, id) {
        r == Err::<(), AppError>(AppError::RevertPending) && post == pre
    } else if i >= pre.workspace.projects@.len() {
        r == Err::<(), AppError>(AppError::ProjectGone) && post == pre
    } else {
        exists|mid: App|
            {
                &&& #[trigger] settled_for(pre, i, after, mid)
                &&& if text_edit_index(mid) == Some(i) {
                    r == Err::<(), AppError>(AppError::TextEditPending) && post == mid
                } else {
                    match save_path_error(mid, i, path) {
                        Some(e) => r == Err::<(), AppError>(e) && post == mid,
                        None => saved_as_begun(mid, i, id, path, facts.renamed_hash, after, r, post),
                    }
                }
            }
    }
}

/// What asking for a picture of the view does.
pub open spec fn picture_asked(pre: App, facts: DialogFacts, wanted: Request, r: Result<(), AppError>, post: App) -> bool {
    if !facts.renderer_ready {
        r == Err::<(), AppError>(AppError::RendererMissing) && post == pre
    } else {
        &&& r == Ok::<(), AppError>(())
        &&& post == (App { files: Files { requests: post.files.requests, ..pre.files }, ..pre })
        &&& post.files.requests@ == pre.files.requests@.push(wanted)
    }
}

/// What switching to a project in the browser's storage does.
pub open spec fn stored_switched(pre: App, id: ProjectId, r: Result<(), AppError>, post: App) -> bool {
    if pre.workspace.active() matches Some(p) && p.id == id {
        r == Ok::<(), AppError>(()) && post == pre
    } else if !pre.files.browser.loop_ready {
        r == Err::<(), AppError>(AppError::LoopUnavailable) && post == pre
    } else if pre.files.browser.loads@.contains(id) {
        r == Ok::<(), AppError>(()) && post == pre
    } else {
        let ticket = pre.jobs.next_ticket;
        &&& r == Ok::<(), AppError>(())
        &&& post == (App { jobs: post.jobs, files: post.files, ..pre })
        &&& task_begun(pre.jobs, "Switching project…"@, ticket, post.jobs)
        &&& post.files == (Files {
            browser: Browser { loads: post.files.browser.loads, ..pre.files.browser },
            requests: post.files.requests,
            ..pre.files
        })
        &&& post.files.browser.loads@ == pre.files.browser.loads@.insert(id)
        &&& post.files.requests@ == pre.files.requests@.push(Request::LoadStoredProject { project_id: id, ticket })
    }
}

/// What a new project in the browser does.
pub open spec fn browser_project_started(pre: App, name: Seq<char>, facts: DialogFacts, r: Result<(), AppError>, post: App) -> bool {
    match facts.blank {
        None => r == Err::<(), AppError>(AppError::ProjectNotMade) && post == pre,
        Some(blank) => {
            &&& r == Ok::<(), AppError>(())
            &&& exists|named: OpenProject, mid: App|
                {
                    &&& #[trigger] project_installed(pre, named, mid)
                    &&& named == (OpenProject { name: named.name, ..blank })
                    &&& named.name@ == project_file_name(name)
                    &&& post == (App { frame: mid.frame.fit(), ..mid })
                }
        },
    }
}

/// What an import of drawings into the active project does.
pub open spec fn drawings_imported(pre: App, paths: Vec<String>, r: Result<(), AppError>, post: App) -> bool {
    match pre.workspace.active() {
        None => r == Err::<(), AppError>(AppError::NoActiveProject) && post == pre,
        Some(p) => {
            &&& r == Ok::<(), AppError>(())
            &&& job_queued(
                pre,
                "Parsing DXF import…"@,
                seq![JobKey::Project { runtime_id: p.runtime_id, document_revision: p.revision }],
                Work::ImportDxf { runtime_id: p.runtime_id, paths },
                post,
            )
        },
    }
}

/// What an action does once nothing stands in its way.
pub open spec fn action_done(
    pre: App,
    action: FileDialogAction,
    facts: DialogFacts,
    after: Seq<Option<HoleOrientation>>,
    r: Result<(), AppError>,
    post: App,
) -> bool {
    let ok = r == Ok::<(), AppError>(());
    match action {
        FileDialogAction::NewProject => match facts.blank {
            None => r == Err::<(), AppError>(AppError::ProjectNotMade) && post == pre,
            Some(blank) => ok && untitled_started(pre, blank, post),
        },
        FileDialogAction::OpenProject(paths) => ok && (if paths@.len() == 0 {
            post == pre
        } else {
            open_begun(pre, paths@[0]@, "Opening project…"@, post)
        }),
        FileDialogAction::SwitchProject(path) => ok && open_begun(pre, path@, "Switching project…"@, post),
        FileDialogAction::WebOpenProject(files) => ok && job_queued(
            pre,
            "Opening browser project…"@,
            seq![JobKey::Anonymous],
            Work::OpenBrowserProject { files },
            post,
        ),
        FileDialogAction::WebStoredProject(id) => stored_switched(pre, id, r, post),
        FileDialogAction::WebNewProject(name) => browser_project_started(pre, name@, facts, r, post),
        FileDialogAction::ImportDxfInto { paths } => drawings_imported(pre, paths, r, post),
        FileDialogAction::ImportTriangulation(paths) => ok && loads_begun(pre, LoadKind::Triangulation, paths@, 0, paths@.len() as int, post),
        FileDialogAction::ImportPointCloud(paths) => files_imported(pre, LoadKind::PointCloud, paths@, 0, facts, r, post),
        FileDialogAction::ImportRaster(paths) => files_imported(
            pre,
            LoadKind::Raster,
            paths@,
            preview_limit(pre.view.applied.frames.downscale_raster_previews, pre.loads.hardware_limit),
            facts,
            r,
            post,
        ),
        FileDialogAction::SetImportSourcePaths { kind, paths } => {
            &&& ok
            &&& post == (App { files: Files { import: post.files.import, ..pre.files }, ..pre })
            &&& sources_set(pre.files.import, kind, crate::names::texts(paths@), facts.previews@, post.files.import)
        },
        FileDialogAction::WebSetImportSourceFiles { kind, files } => ok && web_sources_set(pre, kind, files@, facts, post),
        FileDialogAction::ExportLayerDxf { project_runtime_id, layer, path } => drawing_exported(
            pre,
            project_runtime_id,
            Some(layer),
            path@,
            after,
            r,
            post,
        ),
        FileDialogAction::ExportProjectDxf { project_runtime_id, path } => drawing_exported(pre, project_runtime_id, None, path@, after, r, post),
        FileDialogAction::ExportOmf { snapshot, path } => ok && snapshot_exported(pre, snapshot, path@, post),
        FileDialogAction::ExportTriangulation { id, path } => surface_exported(pre, id, path@, facts, r, post),
        FileDialogAction::ExportBlockModelCsv { id, path } => table_exported(pre, id, path@, r, post),
        FileDialogAction::SaveProjectAs { project_runtime_id, path } => saved_as(pre, project_runtime_id, path@, facts, after, r, post),
        FileDialogAction::ExportViewportImage(path) => exists|p: String| completed(path@, "png"@, p@) && #[trigger]
            picture_asked(pre, facts, Request::Screenshot(p), r, post),
        FileDialogAction::ExportPlotSheet(path) => exists|p: String| completed(path@, "png"@, p@) && #[trigger]
            sheet_written(pre, PlotTarget::File(p), facts.plot, r, post),
        FileDialogAction::WebDownloadDxf { project_runtime_id, layer, file_name } => drawing_downloaded(
            pre,
            project_runtime_id,
            layer,
            file_name,
            after,
            r,
            post,
        ),
        FileDialogAction::WebDownloadTriangulation { id, format, file_name, close_after } => if triangulation_index(pre.items.triangulations@, id)
            >= pre.items.triangulations@.len() {
            r == Err::<(), AppError>(AppError::SurfaceNotFound) && post == pre
        } else {
            ok && job_queued(
                pre,
                "Encoding triangulation download…"@,
                seq![JobKey::Anonymous],
                Work::DownloadTriangulation { id, format, file_name, close_after },
                post,
            )
        },
        FileDialogAction::WebDownloadBlockModelCsv { id, file_name, close_after } => if block_model_index(pre.items.block_models@, id)
            >= pre.items.block_models@.len() {
            r == Err::<(), AppError>(AppError::BlockModelNotFound) && post == pre
        } else {
            ok && job_queued(
                pre,
                "Encoding block-model CSV download…"@,
                seq![JobKey::Anonymous],
                Work::DownloadBlockModelCsv { id, file_name, close_after },
                post,
            )
        },
        FileDialogAction::WebViewportImage(name) => picture_asked(pre, facts, Request::BrowserScreenshot(name), r, post),
    }
}

/// What asking the user first does, where that is needed.
pub open spec fn gate_passed(pre: App, action: FileDialogAction, r: Result<Option<FileDialogAction>, AppError>, post: App) -> bool {
    match gate(pre, action) {
        Gate::Busy => r == Err::<Option<FileDialogAction>, AppError>(AppError::SwitchPending) && post == pre,
        Gate::AskReplace => {
            &&& r == Ok::<Option<FileDialogAction>, AppError>(None)
            &&& post == (App {
                files: Files {
                    replacement: Replacement { pending: Some(action), confirm_open: true, ..pre.files.replacement },
                    ..pre.files
                },
                frame: pre.frame.redraw(),
                ..pre
            })
        },
        Gate::AskLossy => {
            &&& r == Ok::<Option<FileDialogAction>, AppError>(None)
            &&& post == (App {
                files: Files { lossy: LossySave { pending: Some(action), confirm_open: true }, ..pre.files },
                frame: pre.frame.redraw(),
                ..pre
            })
        },
        Gate::Open => r == Ok::<Option<FileDialogAction>, AppError>(Some(action)) && post == bypass_used(pre),
    }
}

/// What carrying out the answer to a dialog does: the user is asked first
/// where that is needed.
pub open spec fn action_executed(
    pre: App,
    action: FileDialogAction,
    facts: DialogFacts,
    after: Seq<Option<HoleOrientation>>,
    r: Result<(), AppError>,
    post: App,
) -> bool {
    match gate(pre, action) {
        Gate::Busy => r == Err::<(), AppError>(AppError::SwitchPending) && gate_passed(pre, action, Err(AppError::SwitchPending), post),
        Gate::Open => action_done(bypass_used(pre), action, facts, after, r, post),
        _ => r == Ok::<(), AppError>(()) && gate_passed(pre, action, Ok(None), post),
    }
}

/// How many tickets an action may take.
pub open spec fn tickets_for(action: FileDialogAction) -> int {
    match action {
        FileDialogAction::ImportTriangulation(paths) => (paths@.len() + 1) as int,
        FileDialogAction::ImportPointCloud(paths) => (paths@.len() + 1) as int,
        FileDialogAction::ImportRaster(paths) => (paths@.len() + 1) as int,
        _ => 1,
    }
}

/// There are tickets and a runtime id left for an action.
pub open spec fn room_for(app: App, action: FileDialogAction) -> bool {
    app.jobs.next_ticket + tickets_for(action) <= u64::MAX && app.workspace.next_runtime_id < u32::MAX
}

impl Files {
    fn ask_replace(&mut self, action: FileDialogAction)
        ensures
            *final(self) == (Files {
                replacement: Replacement { pending: Some(action), confirm_open: true, ..old(self).replacement },
                ..*old(self)
            }),
    {
        self.replacement.pending = Some(action);
        self.replacement.confirm_open = true;
    }

    fn ask_lossy(&mut self, action: FileDialogAction)
        ensures
            *final(self) == (Files { lossy: LossySave { pending: Some(action), confirm_open: true }, ..*old(self) }),
    {
        self.lossy.pending = Some(action);
        self.lossy.confirm_open = true;
    }
}

proof fn lemma_load_keeps(pre: App, kind: LoadKind, path: Seq<char>, limit: u32, post: App)
    requires
        load_begun(pre, kind, path, None, limit, post),
    ensures
        post.jobs.next_ticket <= pre.jobs.next_ticket + 1 || pre.jobs.next_ticket == u64::MAX,
        post.view == pre.view,
        post.loads.hardware_limit == pre.loads.hardware_limit,
{
}

impl App {
    fn gate_of(&self, action: &FileDialogAction) -> (r: Gate)
        ensures
            r == gate(*self, *action),
    {
        let replaces = match action {
            FileDialogAction::NewProject => true,
            FileDialogAction::OpenProject(_) => true,
            FileDialogAction::SwitchProject(_) => true,
            FileDialogAction::WebNewProject(_) => true,
            FileDialogAction::WebOpenProject(_) => true,
            FileDialogAction::WebStoredProject(_) => true,
            _ => false,
        };
        if replaces && self.platform == Platform::Browser && !self.files.browser.loads.is_empty() {
            return Gate::Busy;
        }
        if replaces && !self.files.replacement.bypass && self.has_unsaved_changes_for_exit() {
            return Gate::AskReplace;
        }
        let loses = match action {
            FileDialogAction::SaveProjectAs { project_runtime_id, .. } => match self.workspace.project_index_for_runtime_id(*project_runtime_id) {
                Some(i) => self.workspace.projects[i].lossy_save_warnings.len() > 0 && !self.workspace.projects[i].lossy_save_confirmed,
                None => false,
            },
            _ => false,
        };
        if loses {
            Gate::AskLossy
        } else {
            Gate::Open
        }
    }

    /// Settles a gesture over the project before it is written out.
    pub fn commit_export_move_if_needed(&mut self, project_runtime_id: u32, after: &Vec<Option<HoleOrientation>>)
        ensures
            export_settled(*old(self), project_runtime_id, after@, *final(self)),
    {
        let mine = match &self.moving.session {
            Some(session) => session.project_runtime_id == project_runtime_id,
            None => false,
        };
        if mine {
            self.commit_pending_move(after);
        }
    }

    fn import_files(&mut self, kind: LoadKind, paths: &Vec<String>, facts: &DialogFacts) -> (r: Result<(), AppError>)
        requires
            kind == LoadKind::PointCloud || kind == LoadKind::Raster,
            old(self).jobs.next_ticket + paths@.len() <= u64::MAX,
        ensures
            files_imported(
                *old(self),
                kind,
                paths@,
                if kind == LoadKind::Raster {
                    preview_limit(old(self).view.applied.frames.downscale_raster_previews, old(self).loads.hardware_limit)
                } else {
                    0
                },
                *facts,
                r,
                *final(self),
            ),
    {
        let ghost limit = if kind == LoadKind::Raster {
            preview_limit(self.view.applied.frames.downscale_raster_previews, self.loads.hardware_limit)
        } else {
            0
        };
        let n: usize = paths.len();
        let mut i: usize = 0;
        while i < n
            invariant
                i <= n,
                n == paths@.len(),
                kind == LoadKind::PointCloud || kind == LoadKind::Raster,
                limit == (if kind == LoadKind::Raster {
                    preview_limit(self.view.applied.frames.downscale_raster_previews, self.loads.hardware_limit)
                } else {
                    0
                }),
                limit == (if kind == LoadKind::Raster {
                    preview_limit(old(self).view.applied.frames.downscale_raster_previews, old(self).loads.hardware_limit)
                } else {
                    0
                }),
                self.jobs.next_ticket + (n - i) <= u64::MAX,
                good_files(*facts, i as int) == i,
                loads_begun(*old(self), kind, paths@, limit, i as int, *self),
            decreases n - i,
        {
            let supported = facts.supported.len() > i && facts.supported[i];
            let present = facts.present.len() > i && facts.present[i];
            let ghost mid = *self;
            let r = if kind == LoadKind::Raster {
                self.import_raster_path(paths[i].as_str(), supported, present)
            } else {
                self.import_point_cloud_path(paths[i].as_str(), supported, present)
            };
            match r {
                Err(e) => {
                    proof {
                        lemma_good_files_stop(*facts, i as int, n as int);
                    }
                    return Err(e);
                },
                Ok(_) => {},
            }
            proof {
                lemma_load_keeps(mid, kind, paths@[i as int]@, limit, *self);
                assert(load_begun(mid, kind, paths@[i + 1 - 1]@, None, limit, *self));
            }
            i += 1;
        }
        Ok(())
    }

    fn import_surfaces(&mut self, paths: &Vec<String>)
        requires
            old(self).jobs.next_ticket + paths@.len() <= u64::MAX,
        ensures
            loads_begun(*old(self), LoadKind::Triangulation, paths@, 0, paths@.len() as int, *final(self)),
    {
        let mut i: usize = 0;
        while i < paths.len()
            invariant
                i <= paths.len(),
                self.jobs.next_ticket + (paths@.len() - i) <= u64::MAX,
                loads_begun(*old(self), LoadKind::Triangulation, paths@, 0, i as int, *self),
            decreases paths.len() - i,
        {
            let ghost mid = *self;
            self.open_triangulation_path(paths[i].as_str());
            proof {
                lemma_load_keeps(mid, LoadKind::Triangulation, paths@[i as int]@, 0, *self);
                assert(load_begun(mid, LoadKind::Triangulation, paths@[i + 1 - 1]@, None, 0, *self));
            }
            i += 1;
        }
    }

    fn set_web_sources(&mut self, kind: DataMenu, files: Vec<Option<InputFile>>, facts: &DialogFacts)
        ensures
            web_sources_set(*old(self), kind, files@, *facts, *final(self)),
    {
        let mut left = files;
        let ghost all = files@;
        let mut kept: Vec<InputFile> = Vec::new();
        let mut names: Vec<String> = Vec::new();
        let mut done: Ghost<int> = Ghost(0);
        proof {
            assert(all.skip(0) =~= all);
            assert(all.take(0) =~= Seq::<Option<InputFile>>::empty());
        }
        while left.len() > 0
            invariant
                0 <= done@ <= all.len(),
                left@ == all.skip(done@),
                kept@ == readable(all.take(done@)),
                names@.len() == kept@.len(),
                forall|j: int| 0 <= j < kept@.len() ==> (#[trigger] names@[j])@ == kept@[j].name@,
            decreases left.len(),
        {
            let file = left.remove(0);
            proof {
                assert(file == all[done@]);
                assert(all.take(done@ + 1).drop_last() =~= all.take(done@));
                assert(left@ =~= all.skip(done@ + 1));
                done@ = done@ + 1;
            }
            match file {
                Some(file) => {
                    names.push(file.name.clone());
                    kept.push(file);
                },
                None => {},
            }
        }
        assert(all.take(all.len() as int) =~= all);
        assert(crate::names::texts(names@) =~= file_names(kept@));
        self.files.import.web_files = Some((kind, kept));
        self.files.import.set_sources(kind, names, &facts.previews);
    }

    fn begin_drawing(&mut self, id: u32, layer: Option<LayerId>, path: String) -> (r: Result<(), AppError>)
        requires
            old(self).jobs.next_ticket < u64::MAX,
        ensures
            drawing_begun(*old(self), id, layer, path@, r, *final(self)),
    {
        match self.ensure_save_path_not_pending(path.as_str()) {
            Ok(_) => {},
            Err(e) => {
                return Err(e);
            },
        }
        if self.workspace.project_index_for_runtime_id(id).is_none() {
            return Err(AppError::ProjectGone);
        }
        let description = match layer {
            Some(l) => join3("layer LayerId(", decimal(l.0 as u128).as_str(), ")"),
            None => "Project".to_owned(),
        };
        self.spawn_dxf_write(id, layer, path, description);
        Ok(())
    }

    fn export_drawing(&mut self, id: u32, layer: Option<LayerId>, path: String, after: &Vec<Option<HoleOrientation>>) -> (r: Result<(), AppError>)
        requires
            old(self).jobs.next_ticket < u64::MAX,
        ensures
            drawing_exported(*old(self), id, layer, path@, after@, r, *final(self)),
    {
        self.commit_export_move_if_needed(id, after);
        let ghost mid = *self;
        proof {
            assert(export_settled(*old(self), id, after@, mid));
            lemma_export_keeps(*old(self), id, after@, mid);
        }
        self.begin_drawing(id, layer, path)
    }

    fn download_drawing(&mut self, id: u32, layer: Option<LayerId>, file_name: String, after: &Vec<Option<HoleOrientation>>) -> (r: Result<(), AppError>)
        requires
            old(self).jobs.next_ticket < u64::MAX,
        ensures
            drawing_downloaded(*old(self), id, layer, file_name, after@, r, *final(self)),
    {
        self.commit_export_move_if_needed(id, after);
        let ghost mid = *self;
        proof {
            assert(export_settled(*old(self), id, after@, mid));
            lemma_export_keeps(*old(self), id, after@, mid);
        }
        if self.workspace.project_index_for_runtime_id(id).is_none() {
            return Err(AppError::ProjectGone);
        }
        self.spawn_job(
            "Encoding DXF download…".to_owned(),
            one_key(JobKey::Anonymous),
            Work::DownloadDxf { project_runtime_id: id, layer, file_name },
        );
        Ok(())
    }

    fn export_surface(&mut self, id: TriangulationId, path: String, facts: &DialogFacts) -> (r: Result<(), AppError>)
        requires
            old(self).jobs.next_ticket < u64::MAX,
        ensures
            surface_exported(*old(self), id, path@, *facts, r, *final(self)),
    {
        if facts.mesh_format.is_none() {
            return Err(AppError::UnknownMeshFormat);
        }
        if self.loads.is_reading(LoadKind::Triangulation, path.as_str(), None) {
            return Err(AppError::ImportPending);
        }
        if self.files.path_is_written(path.as_str()) {
            return Err(AppError::PathBusy);
        }
        let name = match self.items.find_triangulation(id) {
            Some(i) => self.items.triangulations[i].name.clone(),
            None => {
                return Err(AppError::SurfaceNotFound);
            },
        };
        self.spawn_triangulation_write(id, name, path);
        Ok(())
    }

    /// Begins to write a block model as a table.
    pub fn export_block_model_csv_to_path(&mut self, id: BlockModelId, path: String) -> (r: Result<(), AppError>)
        requires
            old(self).jobs.next_ticket < u64::MAX,
        ensures
            table_exported(*old(self), id, path@, r, *final(self)),
    {
        proof {
            reveal_strlit("csv");
        }
        let target = complete_extension(path, "csv");
        if self.items.find_block_model(id).is_none() {
            return Err(AppError::BlockModelNotFound);
        }
        let name = file_name(target.as_str());
        let ghost read = text_of(name);
        let label = export_label(name, target.as_str());
        let ghost shown = label@;
        assert(file_name_read(target@, read));
        self.spawn_job(label, one_key(JobKey::BlockModel(id)), Work::ExportBlockModelCsv { id, path: target });
        assert(job_queued(*old(self), shown, seq![JobKey::BlockModel(id)], last_work(*self), *self));
        Ok(())
    }

    /// Begins to write a snapshot.
    pub fn export_omf_snapshot(&mut self, snapshot: Snapshot, path: String)
        requires
            old(self).jobs.next_ticket < u64::MAX,
        ensures
            snapshot_exported(*old(self), snapshot, path@, *final(self)),
    {
        proof {
            reveal_strlit("omf");
        }
        let target = complete_extension(path, "omf");
        let name = file_name(target.as_str());
        let ghost read = text_of(name);
        let label = export_label(name, "Untitled.omf");
        let ghost shown = label@;
        assert(file_name_read(target@, read));
        self.spawn_job(label, one_key(JobKey::Anonymous), Work::ExportOmf { snapshot, path: target });
        assert(job_queued(*old(self), shown, seq![JobKey::Anonymous], last_work(*self), *self));
    }

    fn begin_save_as(&mut self, index: usize, id: u32, path: String, hash: u64, after: &Vec<Option<HoleOrientation>>) -> (r: Result<(), AppError>)
        requires
            index < old(self).workspace.projects@.len(),
            old(self).jobs.next_ticket < u64::MAX,
        ensures
            saved_as_begun(*old(self), index as int, id, path@, hash, after@, r, *final(self)),
    {
        let new_name = match file_stem(path.as_str()) {
            Some(stem) => stem,
            None => "Incline Design project".to_owned(),
        };
        let previous = self.workspace.projects[index].name.clone();
        let content_before: u64 = self.workspace.projects[index].content_hash;
        let snapshot_layer_hashes = crate::commands::saves::copy_hashes(&self.workspace.projects[index].layer_hashes);
        let taken = self.omf_export_snapshot(after);
        let ghost mid = *self;
        assert(snapshot_taken(*old(self), after@, taken, mid));
        proof {
            lemma_settling_keeps(*old(self), after@, mid);
        }
        let mut snapshot = match taken {
            Ok(snapshot) => snapshot,
            Err(e) => {
                return Err(e);
            },
        };
        let token: u64 = match self.workspace.active_project() {
            Some(p) => p.asset_revision,
            None => 0,
        };
        snapshot.name = new_name;
        let kind = PendingSaveKind::Project {
            runtime_id: id,
            snapshot_hash: hash,
            content_before,
            snapshot_layer_hashes,
            asset_token: token,
            close_after: false,
            save_as_previous_name: Some(previous),
        };
        self.spawn_project_write(kind, snapshot, path);
        assert(project_write_begun(mid, kind, snapshot, path@, *self));
        Ok(())
    }

    fn save_as(&mut self, id: u32, path: String, facts: &DialogFacts, after: &Vec<Option<HoleOrientation>>) -> (r: Result<(), AppError>)
        requires
            old(self).jobs.next_ticket < u64::MAX,
        ensures
            saved_as(*old(self), id, path@, *facts, after@, r, *final(self)),
    {
        if self.project_revert_is_pending(id) {
            return Err(AppError::RevertPending);
        }
        let index: usize = match self.workspace.project_index_for_runtime_id(id) {
            Some(i) => i,
            None => {
                return Err(AppError::ProjectGone);
            },
        };
        let active = match self.workspace.active_index {
            Some(a) => a == index,
            None => false,
        };
        if active {
            self.settle_pending_move(after);
        }
        let ghost mid = *self;
        proof {
            if active {
                lemma_settling_keeps(*old(self), after@, mid);
            }
            assert(settled_for(*old(self), index as int, after@, mid));
        }
        match self.ensure_project_has_no_pending_text_edit(index) {
            Ok(_) => {},
            Err(e) => {
                return Err(e);
            },
        }
        match self.ensure_project_save_path_available(index, path.as_str()) {
            Ok(_) => {},
            Err(e) => {
                return Err(e);
            },
        }
        self.begin_save_as(index, id, path, facts.renamed_hash, after)
    }

    fn ask_picture(&mut self, facts: &DialogFacts, wanted: Request) -> (r: Result<(), AppError>)
        ensures
            picture_asked(*old(self), *facts, wanted, r, *final(self)),
    {
        if !facts.renderer_ready {
            return Err(AppError::RendererMissing);
        }
        self.files.requests.push(wanted);
        Ok(())
    }

    fn switch_stored(&mut self, id: ProjectId) -> (r: Result<(), AppError>)
        requires
            old(self).jobs.next_ticket < u64::MAX,
        ensures
            stored_switched(*old(self), id, r, *final(self)),
    {
        let open = match self.workspace.active_project() {
            Some(p) => p.id == id,
            None => false,
        };
        if open {
            return Ok(());
        }
        if !self.files.browser.loop_ready {
            return Err(AppError::LoopUnavailable);
        }
        if self.files.browser.loads.contains(id) {
            return Ok(());
        }
        self.files.browser.loads.insert(id);
        let ticket: u64 = self.jobs.begin_reported_task("Switching project…".to_owned());
        self.files.requests.push(Request::LoadStoredProject { project_id: id, ticket });
        Ok(())
    }

    fn start_browser_project(&mut self, name: &str, blank: Option<OpenProject>, facts: Ghost<DialogFacts>) -> (r: Result<(), AppError>)
        requires
            old(self).workspace.next_runtime_id < u32::MAX,
            facts@.blank == blank,
        ensures
            browser_project_started(*old(self), name@, facts@, r, *final(self)),
    {
        let mut named = match blank {
            Some(blank) => blank,
            None => {
                return Err(AppError::ProjectNotMade);
            },
        };
        named.name = sanitize_project_name(name);
        self.set_active_project(named);
        assert(project_installed(*old(self), named, *self));
        self.fit_view_to_extents();
        Ok(())
    }

    fn import_drawings(&mut self, paths: Vec<String>) -> (r: Result<(), AppError>)
        requires
            old(self).jobs.next_ticket < u64::MAX,
        ensures
            drawings_imported(*old(self), paths, r, *final(self)),
    {
        let (runtime_id, document_revision): (u32, u64) = match self.workspace.active_project() {
            Some(p) => (p.runtime_id, p.revision),
            None => {
                return Err(AppError::NoActiveProject);
            },
        };
        self.spawn_job(
            "Parsing DXF import…".to_owned(),
            one_key(JobKey::Project { runtime_id, document_revision }),
            Work::ImportDxf { runtime_id, paths },
        );
        Ok(())
    }

    /// Carries an action out, nothing standing in its way.
    fn perform(&mut self, action: FileDialogAction, facts: DialogFacts, after: &Vec<Option<HoleOrientation>>) -> (r: Result<(), AppError>)
        requires
            room_for(*old(self), action),
        ensures
            action_done(*old(self), action, facts, after@, r, *final(self)),
    {
        match action {
            FileDialogAction::NewProject => match facts.blank {
                Some(blank) => {
                    self.start_untitled_project(blank);
                    Ok(())
                },
                None => Err(AppError::ProjectNotMade),
            },
            FileDialogAction::OpenProject(paths) => {
                if paths.len() > 0 {
                    self.start_open_project_path(paths[0].as_str(), "Opening project…".to_owned());
                }
                Ok(())
            },
            FileDialogAction::SwitchProject(path) => {
                self.start_open_project_path(path.as_str(), "Switching project…".to_owned());
                Ok(())
            },
            FileDialogAction::WebOpenProject(files) => {
                self.spawn_job("Opening browser project…".to_owned(), one_key(JobKey::Anonymous), Work::OpenBrowserProject { files });
                Ok(())
            },
            FileDialogAction::WebStoredProject(id) => self.switch_stored(id),
            FileDialogAction::WebNewProject(name) => {
                let ghost told = facts;
                self.start_browser_project(name.as_str(), facts.blank, Ghost(told))
            },
            FileDialogAction::ImportDxfInto { paths } => self.import_drawings(paths),
            FileDialogAction::ImportTriangulation(paths) => {
                self.import_surfaces(&paths);
                Ok(())
            },
            FileDialogAction::ImportPointCloud(paths) => self.import_files(LoadKind::PointCloud, &paths, &facts),
            FileDialogAction::ImportRaster(paths) => self.import_files(LoadKind::Raster, &paths, &facts),
            FileDialogAction::SetImportSourcePaths { kind, paths } => {
                self.files.import.set_sources(kind, paths, &facts.previews);
                Ok(())
            },
            FileDialogAction::WebSetImportSourceFiles { kind, files } => {
                self.set_web_sources(kind, files, &facts);
                Ok(())
            },
            FileDialogAction::ExportLayerDxf { project_runtime_id, layer, path } => self.export_drawing(project_runtime_id, Some(layer), path, after),
            FileDialogAction::ExportProjectDxf { project_runtime_id, path } => self.export_drawing(project_runtime_id, None, path, after),
            FileDialogAction::ExportOmf { snapshot, path } => {
                self.export_omf_snapshot(snapshot, path);
                Ok(())
            },
            FileDialogAction::ExportTriangulation { id, path } => self.export_surface(id, path, &facts),
            FileDialogAction::ExportBlockModelCsv { id, path } => self.export_block_model_csv_to_path(id, path),
            FileDialogAction::SaveProjectAs { project_runtime_id, path } => self.save_as(project_runtime_id, path, &facts, after),
            FileDialogAction::ExportViewportImage(path) => {
                proof {
                    reveal_strlit("png");
                }
                let target = complete_extension(path, "png");
                let r = self.ask_picture(&facts, Request::Screenshot(target));
                assert(picture_asked(*old(self), facts, Request::Screenshot(target), r, *self));
                r
            },
            FileDialogAction::ExportPlotSheet(path) => {
                proof {
                    reveal_strlit("png");
                }
                let target = complete_extension(path, "png");
                let r = self.write_plot_sheet(PlotTarget::File(target), facts.plot);
                assert(sheet_written(*old(self), PlotTarget::File(target), facts.plot, r, *self));
                r
            },
            FileDialogAction::WebDownloadDxf { project_runtime_id, layer, file_name } => self.download_drawing(project_runtime_id, layer, file_name, after),
            FileDialogAction::WebDownloadTriangulation { id, format, file_name, close_after } => {
                if self.items.find_triangulation(id).is_none() {
                    return Err(AppError::SurfaceNotFound);
                }
                self.spawn_job(
                    "Encoding triangulation download…".to_owned(),
                    one_key(JobKey::Anonymous),
                    Work::DownloadTriangulation { id, format, file_name, close_after },
                );
                Ok(())
            },
            FileDialogAction::WebDownloadBlockModelCsv { id, file_name, close_after } => {
                if self.items.find_block_model(id).is_none() {
                    return Err(AppError::BlockModelNotFound);
                }
                self.spawn_job(
                    "Encoding block-model CSV download…".to_owned(),
                    one_key(JobKey::Anonymous),
                    Work::DownloadBlockModelCsv { id, file_name, close_after },
                );
                Ok(())
            },
            FileDialogAction::WebViewportImage(name) => self.ask_picture(&facts, Request::BrowserScreenshot(name)),
        }
    }

    /// Asks the user first where that is needed; gives the action back where
    /// it may go ahead.
    fn pass_gate(&mut self, action: FileDialogAction) -> (r: Result<Option<FileDialogAction>, AppError>)
        ensures
            gate_passed(*old(self), action, r, *final(self)),
    {
        match self.gate_of(&action) {
            Gate::Busy => Err(AppError::SwitchPending),
            Gate::AskReplace => {
                self.files.ask_replace(action);
                self.frame.redraw_requested = true;
                Ok(None)
            },
            Gate::AskLossy => {
                self.files.ask_lossy(action);
                self.frame.redraw_requested = true;
                Ok(None)
            },
            Gate::Open => {
                self.files.replacement.bypass = false;
                Ok(Some(action))
            },
        }
    }

    /// Carries out the answer to a dialog, unless the user has to be asked
    /// first.
    pub fn execute_file_dialog_action(
        &mut self,
        action: FileDialogAction,
        facts: DialogFacts,
        after: &Vec<Option<HoleOrientation>>,
    ) -> (r: Result<(), AppError>)
        requires
            room_for(*old(self), action),
        ensures
            action_executed(*old(self), action, facts, after@, r, *final(self)),
    {
        match self.pass_gate(action) {
            Err(e) => Err(e),
            Ok(None) => Ok(()),
            Ok(Some(action)) => self.perform(action, facts, after),
        }
    }
}

/// What a task that writes a file is called, by the file's name or by what
/// stands in for it.
pub fn export_label(name: Option<String>, otherwise: &str) -> (r: String)
    ensures
        r@ == exporting(text_of(name), otherwise@),
{
    match name {
        Some(n) => join3("Exporting ", n.as_str(), "…"),
        None => join3("Exporting ", otherwise, "…"),
    }
}

/// Settling a gesture before a project is written out leaves the list of
/// projects, the jobs and the files alone.
pub proof fn lemma_export_keeps(pre: App, id: u32, after: Seq<Option<HoleOrientation>>, post: App)
    requires
        export_settled(pre, id, after, post),
    ensures
        crate::commands::saves::same_projects(pre.workspace, post.workspace),
        post.jobs == pre.jobs,
        post.files == pre.files,
        post.platform == pre.platform,
{
    match pre.moving.session {
        Some(session) => {
            if session.project_runtime_id == id {
                crate::commands::saves::lemma_committing_keeps(pre, after, post);
            }
        },
        None => {},
    }
}

/// An action that puts another project in the place of the open one never
/// does so while the open one holds unsaved work, unless the user agreed.
pub proof fn law_unsaved_work_is_asked_for(
    pre: App,
    action: FileDialogAction,
    facts: DialogFacts,
    after: Seq<Option<HoleOrientation>>,
    r: Result<(), AppError>,
    post: App,
)
    requires
        action_executed(pre, action, facts, after, r, post),
        replaces_project(action),
        unsaved(pre),
        !pre.files.replacement.bypass,
    ensures
        post.workspace == pre.workspace,
        post.items == pre.items,
        post.jobs == pre.jobs,
        r is Err || post.files.replacement.confirm_open,
{
}

/// Saving under a name never drops what the format cannot hold without the
/// user's leave.
pub proof fn law_losses_are_asked_about_on_save_as(
    pre: App,
    action: FileDialogAction,
    facts: DialogFacts,
    after: Seq<Option<HoleOrientation>>,
    r: Result<(), AppError>,
    post: App,
)
    requires
        action_executed(pre, action, facts, after, r, post),
        would_lose(pre, action),
    ensures
        post.workspace == pre.workspace,
        post.files.saves == pre.files.saves,
        post.files.requests == pre.files.requests,
        r is Ok && post.files.lossy.confirm_open,
{
}

} // verus!
