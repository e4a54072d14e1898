//! Saving projects, and the writes that this takes.

use crate::commands::closing::text_edit_index;
use crate::drawing::move_tool::{active_runtime, collar_move_settled, collar_session_ensured, move_pending, pending_move_committed};
use crate::drawing::rotate_collar::rotation_settled;
use crate::error::AppError;
use crate::files::{save_pending, Files, PendingSave, PendingSaveKind, Request, Snapshot};
use crate::ids::LayerId;
use crate::items::HoleOrientation;
use crate::jobs::{job_meant, task_begun, BackgroundJob, JobFilter, Jobs};
use crate::search::find_first;
use crate::state::App;
use crate::text::{file_name, file_part, join, known_path, same_text, text_of, trim, trimmed};
use crate::workspace::{LayerHash, OpenProject, Workspace};
use vstd::prelude::*;
use vstd::string::*;

verus! {

/// What the status bar calls a write to a file of this name.
pub open spec fn label_for(kind: PendingSaveKind, name: Seq<char>) -> Seq<char> {
    match kind {
        PendingSaveKind::Export { .. } => "Exporting "@ + name,
        PendingSaveKind::Project { .. } => "Saving "@ + name,
        PendingSaveKind::DxfExport { .. } => "Exporting "@ + name,
    }
}

/// The label is one that a write to the path may have.
pub open spec fn labels(label: Seq<char>, kind: PendingSaveKind, path: Seq<char>) -> bool {
    &&& exists|name: Seq<char>| label == #[trigger] label_for(kind, name)
    &&& known_path(path) ==> label == label_for(kind, file_part(path))
}

/// What the status bar calls a write to a file of this name.
pub fn save_label_for(kind: &PendingSaveKind, name: &str) -> (r: String)
    ensures
        r@ == label_for(*kind, name@),
{
    match kind {
        PendingSaveKind::Export { .. } => join("Exporting ", name),
        PendingSaveKind::Project { .. } => join("Saving ", name),
        PendingSaveKind::DxfExport { .. } => join("Exporting ", name),
    }
}

/// What the status bar calls a write: the name of the file only.
pub fn save_label(kind: &PendingSaveKind, path: &str) -> (r: String)
    ensures
        labels(r@, *kind, path@),
{
    match file_name(path) {
        Some(name) => save_label_for(kind, name.as_str()),
        None => save_label_for(kind, path),
    }
}

/// What beginning a write does.
pub open spec fn write_begun(pre: App, kind: PendingSaveKind, path: Seq<char>, post: App) -> bool {
    let ticket = pre.jobs.next_ticket;
    &&& post == (App { jobs: post.jobs, files: post.files, ..pre })
    &&& exists|label: Seq<char>| #[trigger] task_begun(pre.jobs, label, ticket, post.jobs) && labels(label, kind, path)
    &&& post.files == (Files { saves: post.files.saves, requests: post.files.requests, ..pre.files })
    &&& post.files.saves@.len() == pre.files.saves@.len() + 1
    &&& post.files.saves@.drop_last() == pre.files.saves@
    &&& post.files.saves@.last().ticket == ticket
    &&& post.files.saves@.last().kind == kind
    &&& post.files.saves@.last().path@ == path
    &&& post.files.requests@.len() == pre.files.requests@.len() + 1
    &&& post.files.requests@.drop_last() == pre.files.requests@
}

/// What beginning to write a project does.
pub open spec fn project_write_begun(pre: App, kind: PendingSaveKind, snapshot: Snapshot, path: Seq<char>, post: App) -> bool {
    &&& write_begun(pre, kind, path, post)
    &&& match post.files.requests@.last() {
        Request::WriteProject { ticket, snapshot: s, path: p } => ticket == pre.jobs.next_ticket && s == snapshot && p@ == path,
        _ => false,
    }
}

/// A job derives from the project.
pub open spec fn revert_pending(jobs: Jobs, runtime_id: u32) -> bool {
    exists|j: int| 0 <= j < jobs.pending@.len() && job_meant(#[trigger] jobs.pending@[j], JobFilter::Project(runtime_id))
}

/// A gesture that stands is settled.
pub open spec fn settled_if_pending(pre: App, after: Seq<Option<HoleOrientation>>, post: App) -> bool {
    if move_pending(pre) {
        pending_move_committed(pre, after, post)
    } else {
        post == pre
    }
}

/// The projects keep their places and their runtime ids.
pub open spec fn same_projects(pre: Workspace, post: Workspace) -> bool {
    &&& post.active_index == pre.active_index
    &&& post.next_runtime_id == pre.next_runtime_id
    &&& post.projects@.len() == pre.projects@.len()
    &&& forall|j: int| 0 <= j < pre.projects@.len() ==> (#[trigger] post.projects@[j]).runtime_id == pre.projects@[j].runtime_id
}

proof fn lemma_put_back_keeps(pre: App, post: App)
    requires
        collar_session_ensured(pre, post),
    ensures
        same_projects(pre.workspace, post.workspace),
        post.jobs == pre.jobs,
        post.files == pre.files,
        post.platform == pre.platform,
{
    if let Some(s) = pre.moving.session {
        crate::search::lemma_first_index(pre.workspace.projects@, |p: OpenProject| p.runtime_id == s.project_runtime_id);
    }
}

/// Settling whatever stands leaves the list of projects, the jobs and the files alone.
pub proof fn lemma_committing_keeps(pre: App, after: Seq<Option<HoleOrientation>>, post: App)
    requires
        pending_move_committed(pre, after, post),
    ensures
        same_projects(pre.workspace, post.workspace),
        post.jobs == pre.jobs,
        post.files == pre.files,
        post.platform == pre.platform,
{
    let free = crate::drawing::move_tool::handles_released(pre);
    match (pre.turning.rotation, crate::drawing::move_tool::standing_shift(pre), pre.moving.session) {
        (Some(rotation), _, _) => {
            let mid = choose|mid: App| #[trigger] collar_session_ensured(free, mid) && rotation_settled(mid, rotation, after, post);
            lemma_put_back_keeps(free, mid);
        },
        (None, Some(shift), _) => {
            let mid = choose|mid: App| #[trigger] collar_session_ensured(free, mid) && collar_move_settled(mid, shift, post);
            lemma_put_back_keeps(free, mid);
        },
        (None, None, Some(session)) => {
            crate::search::lemma_first_index(pre.workspace.projects@, |p: OpenProject| p.runtime_id == session.project_runtime_id);
        },
        (None, None, None) => {},
    }
}

/// Settling a gesture leaves the list of projects, the jobs and the files alone.
pub proof fn lemma_settling_keeps(pre: App, after: Seq<Option<HoleOrientation>>, post: App)
    requires
        settled_if_pending(pre, after, post),
    ensures
        same_projects(pre.workspace, post.workspace),
        post.jobs == pre.jobs,
        post.files == pre.files,
        post.platform == pre.platform,
{
    if move_pending(pre) {
        lemma_committing_keeps(pre, after, post);
    }
}

/// The text without the extensions of project files at its end, in lower case.
pub open spec fn without_lower_omf(s: Seq<char>) -> Seq<char>
    decreases s.len(),
{
    let n = s.len();
    if n >= 4 && s[n - 4] == '.' && s[n - 3] == 'o' && s[n - 2] == 'm' && s[n - 1] == 'f' {
        without_lower_omf(s.take(n - 4))
    } else {
        s
    }
}

/// The name that a project is written under.
pub open spec fn written_name(w: Workspace) -> Seq<char> {
    match w.active() {
        Some(p) if trimmed(without_lower_omf(p.name@)).len() > 0 => without_lower_omf(p.name@),
        _ => "Incline Design project"@,
    }
}

/// Nothing is open that could be written.
pub open spec fn nothing_to_write(app: App) -> bool {
    &&& app.workspace.active() is None
    &&& app.items.triangulations@.len() == 0
    &&& app.items.block_models@.len() == 0
    &&& app.items.drill_holes@.len() == 0
    &&& app.items.point_clouds@.len() == 0
    &&& app.items.raster_textures@.len() == 0
}

/// A project whose text is being edited is open.
pub open spec fn text_edit_open(app: App) -> bool {
    text_edit_index(app) matches Some(i) && 0 <= i < app.workspace.projects@.len()
}

/// What taking a snapshot of the open project gives.
pub open spec fn snapshot_of(app: App, r: Result<Snapshot, AppError>) -> bool {
    if text_edit_open(app) {
        r == Err::<Snapshot, AppError>(AppError::TextEditPending)
    } else if nothing_to_write(app) {
        r == Err::<Snapshot, AppError>(AppError::NothingToExport)
    } else {
        &&& r is Ok
        &&& r->Ok_0.name@ == written_name(app.workspace)
        &&& r->Ok_0.runtime_id == active_runtime(app.workspace)
    }
}

/// What taking a snapshot of the open project does.
pub open spec fn snapshot_taken(pre: App, after: Seq<Option<HoleOrientation>>, r: Result<Snapshot, AppError>, post: App) -> bool {
    settled_if_pending(pre, after, post) && snapshot_of(post, r)
}

/// The counter of the assets that a snapshot holds.
pub open spec fn asset_token(w: Workspace) -> u64 {
    match w.active() {
        Some(p) => p.asset_revision,
        None => 0,
    }
}

fn strip_lower_omf(name: &str) -> (r: String)
    ensures
        r@ == without_lower_omf(name@),
{
    let mut end: usize = name.unicode_len();
    assert(name@.take(end as int) =~= name@);
    while end >= 4 && name.get_char(end - 4) == '.' && name.get_char(end - 3) == 'o' && name.get_char(end - 2) == 'm' && name.get_char(end - 1) == 'f'
        invariant
            end <= name@.len(),
            without_lower_omf(name@) == without_lower_omf(name@.take(end as int)),
        decreases end,
    {
        assert(name@.take(end as int).take(end - 4) =~= name@.take(end - 4));
        end -= 4;
    }
    assert(name@.subrange(0, end as int) =~= name@.take(end as int));
    name.substring_char(0, end).to_owned()
}

/// A second list of the same hashes.
pub(crate) fn copy_hashes(hashes: &Vec<LayerHash>) -> (r: Vec<LayerHash>)
    ensures
        r@ == hashes@,
{
    let mut r: Vec<LayerHash> = Vec::new();
    let mut i: usize = 0;
    while i < hashes.len()
        invariant
            i <= hashes.len(),
            r@ == hashes@.take(i as int),
        decreases hashes.len() - i,
    {
        r.push(hashes[i]);
        i += 1;
    }
    assert(r@ =~= hashes@);
    r
}

impl App {
    /// Begins a write.
    fn begin_write(&mut self, kind: PendingSaveKind, path: String) -> (r: u64)
        requires
            old(self).jobs.next_ticket < u64::MAX,
        ensures
            r == old(self).jobs.next_ticket,
            *final(self) == (App { jobs: final(self).jobs, files: Files { saves: final(self).files.saves, ..old(self).files }, ..*old(self) }),
            exists|label: Seq<char>| #[trigger] task_begun(old(self).jobs, label, r, final(self).jobs) && labels(label, kind, path@),
            final(self).files.saves@ == old(self).files.saves@.push(PendingSave { ticket: r, kind, path }),
            final(self).files.saves@.drop_last() == old(self).files.saves@,
    {
        let label = save_label(&kind, path.as_str());
        let ghost shown = label@;
        let ticket: u64 = self.jobs.begin_reported_task(label);
        assert(task_begun(old(self).jobs, shown, ticket, self.jobs));
        self.files.saves.push(PendingSave { ticket, kind, path });
        assert(self.files.saves@.drop_last() =~= old(self).files.saves@);
        ticket
    }

    /// Begins to write a project.
    pub fn spawn_project_write(&mut self, kind: PendingSaveKind, snapshot: Snapshot, path: String)
        requires
            old(self).jobs.next_ticket < u64::MAX,
        ensures
            project_write_begun(*old(self), kind, snapshot, path@, *final(self)),
    {
        let target = path.clone();
        let ticket: u64 = self.begin_write(kind, path);
        self.files.requests.push(Request::WriteProject { ticket, snapshot, path: target });
        assert(self.files.requests@.drop_last() =~= old(self).files.requests@);
    }

    /// Begins to write a drawing of a project, or of one layer of it.
    pub fn spawn_dxf_write(&mut self, project_runtime_id: u32, layer: Option<LayerId>, path: String, description: String)
        requires
            old(self).jobs.next_ticket < u64::MAX,
        ensures
            write_begun(*old(self), PendingSaveKind::DxfExport { description }, path@, *final(self)),
            match final(self).files.requests@.last() {
                Request::WriteDxf { ticket, project_runtime_id: p, layer: l, path: t } => ticket == old(self).jobs.next_ticket && p == project_runtime_id
                    && l == layer && t@ == path@,
                _ => false,
            },
    {
        let target = path.clone();
        let ticket: u64 = self.begin_write(PendingSaveKind::DxfExport { description }, path);
        self.files.requests.push(Request::WriteDxf { ticket, project_runtime_id, layer, path: target });
        assert(self.files.requests@.drop_last() =~= old(self).files.requests@);
    }

    /// Begins to write a copy of a surface.
    pub fn spawn_triangulation_write(&mut self, id: crate::ids::TriangulationId, name: String, path: String)
        requires
            old(self).jobs.next_ticket < u64::MAX,
        ensures
            write_begun(*old(self), PendingSaveKind::Export { name }, path@, *final(self)),
            match final(self).files.requests@.last() {
                Request::WriteTriangulation { ticket, id: t, path: p } => ticket == old(self).jobs.next_ticket && t == id && p@ == path@,
                _ => false,
            },
    {
        let target = path.clone();
        let ticket: u64 = self.begin_write(PendingSaveKind::Export { name }, path);
        self.files.requests.push(Request::WriteTriangulation { ticket, id, path: target });
        assert(self.files.requests@.drop_last() =~= old(self).files.requests@);
    }

    /// Whether the path is being written, or a project is being opened from it.
    pub fn save_path_is_pending(&self, path: &str) -> (r: bool)
        ensures
            r == self.files.path_busy(path@),
    {
        self.files.save_path_is_pending(path)
    }

    /// Refuses a path that is being written or opened.
    pub fn ensure_save_path_not_pending(&self, path: &str) -> (r: Result<(), AppError>)
        ensures
            r == (if self.files.path_busy(path@) {
                Err::<(), AppError>(AppError::PathBusy)
            } else {
                Ok(())
            }),
    {
        if self.files.save_path_is_pending(path) {
            Err(AppError::PathBusy)
        } else {
            Ok(())
        }
    }

    /// Whether a write of the project is under way.
    pub fn project_save_is_pending(&self, runtime_id: u32) -> (r: bool)
        ensures
            r == save_pending(self.files.saves@, runtime_id),
    {
        self.files.project_save_is_pending(runtime_id)
    }

    /// Whether a job derives from the project.
    pub fn project_revert_is_pending(&self, runtime_id: u32) -> (r: bool)
        ensures
            r == revert_pending(self.jobs, runtime_id),
    {
        let filter = JobFilter::Project(runtime_id);
        let found = find_first(&self.jobs.pending, Ghost(|j: BackgroundJob| job_meant(j, filter)), |j: &BackgroundJob| -> (b: bool)
            ensures
                b == job_meant(*j, filter),
            { j.is_meant(filter) });
        found.is_some()
    }

    /// Refuses to save a project whose text is being edited.
    pub fn ensure_project_has_no_pending_text_edit(&self, project_index: usize) -> (r: Result<(), AppError>)
        ensures
            r == (if text_edit_index(*self) == Some(project_index as int) {
                Err::<(), AppError>(AppError::TextEditPending)
            } else {
                Ok(())
            }),
    {
        match self.pending_text_edit_project_index() {
            Some(i) => {
                if i == project_index {
                    Err(AppError::TextEditPending)
                } else {
                    Ok(())
                }
            },
            None => Ok(()),
        }
    }

    /// Refuses a path that a project cannot be saved to.
    pub fn ensure_project_save_path_available(&self, project_index: usize, path: &str) -> (r: Result<(), AppError>)
        requires
            project_index < self.workspace.projects@.len(),
        ensures
            r == (match save_path_error(*self, project_index as int, path@) {
                Some(e) => Err::<(), AppError>(e),
                None => Ok(()),
            }),
    {
        let runtime_id: u32 = self.workspace.projects[project_index].runtime_id;
        if self.project_save_is_pending(runtime_id) {
            return Err(AppError::SavePending);
        }
        if self.files.save_path_is_pending(path) {
            return Err(AppError::PathBusy);
        }
        let mut i: usize = 0;
        while i < self.workspace.projects.len()
            invariant
                i <= self.workspace.projects.len(),
                project_index < self.workspace.projects@.len(),
                runtime_id == self.workspace.projects@[project_index as int].runtime_id,
                !save_pending(self.files.saves@, runtime_id),
                !self.files.path_busy(path@),
                forall|j: int| 0 <= j < i ==> !uses_path(self.workspace.projects@, j, project_index as int, path@),
            decreases self.workspace.projects.len() - i,
        {
            if i != project_index {
                match &self.workspace.projects[i].path {
                    Some(p) => {
                        if same_text(p.as_str(), path) {
                            assert(uses_path(self.workspace.projects@, i as int, project_index as int, path@));
                            return Err(AppError::PathInUse);
                        }
                    },
                    None => {},
                }
            }
            i += 1;
        }
        Ok(())
    }

    /// Settles a gesture if one stands.
    pub fn settle_pending_move(&mut self, after: &Vec<Option<HoleOrientation>>)
        ensures
            settled_if_pending(*old(self), after@, *final(self)),
    {
        if self.has_pending_move_delta() {
            self.commit_pending_move(after);
        }
    }

    /// Takes a snapshot of the open project.
    pub fn omf_export_snapshot(&mut self, after: &Vec<Option<HoleOrientation>>) -> (r: Result<Snapshot, AppError>)
        ensures
            snapshot_taken(*old(self), after@, r, *final(self)),
    {
        self.settle_pending_move(after);
        match self.pending_text_edit_project_index() {
            Some(i) => {
                if self.workspace.projects.len() > i {
                    return Err(AppError::TextEditPending);
                }
            },
            None => {},
        }
        let (name, runtime_id): (String, Option<u32>) = match self.workspace.active_project() {
            Some(project) => {
                let name = strip_lower_omf(project.name.as_str());
                if trim(name.as_str()).as_str().unicode_len() > 0 {
                    (name, Some(project.runtime_id))
                } else {
                    ("Incline Design project".to_owned(), Some(project.runtime_id))
                }
            },
            None => ("Incline Design project".to_owned(), None),
        };
        if runtime_id.is_none() && self.items.triangulations.len() == 0 && self.items.block_models.len() == 0 && self.items.drill_holes.len() == 0
            && self.items.point_clouds.len() == 0 && self.items.raster_textures.len() == 0 {
            return Err(AppError::NothingToExport);
        }
        Ok(Snapshot { name, runtime_id })
    }
}

/// Another project is kept at the path.
pub open spec fn uses_path(projects: Seq<OpenProject>, j: int, i: int, path: Seq<char>) -> bool {
    j != i && text_of(projects[j].path) == Some(path)
}

/// Why a project cannot be saved to a path.
pub open spec fn save_path_error(app: App, i: int, path: Seq<char>) -> Option<AppError> {
    let projects = app.workspace.projects@;
    if save_pending(app.files.saves@, projects[i].runtime_id) {
        Some(AppError::SavePending)
    } else if app.files.path_busy(path) {
        Some(AppError::PathBusy)
    } else if exists|j: int| 0 <= j < projects.len() && #[trigger] uses_path(projects, j, i, path) {
        Some(AppError::PathInUse)
    } else {
        None
    }
}

} // verus!
