//! What becomes of writes and of answered dialogs.

use crate::commands::dialogs::{action_executed, DialogFacts};
use crate::commands::exit::{deferred_exit_tried, exit_called_off, pending_actions_finished};
use crate::error::AppError;
use crate::files::{closed_after, holds_text, written_project, contains_text, Closing, Files, LossySave, PendingSave, PendingSaveKind, Replacement};
use crate::items::HoleOrientation;
use crate::loads::task_ended;
use crate::state::App;
use crate::text::{file_part, file_stem, known_path, stem_of, text_of};
use crate::workspace::{index_of_runtime, LayerHash, OpenProject, Workspace};
use crate::drawing::move_tool::active_runtime;
use vstd::prelude::*;
use vstd::string::*;

verus! {

/// What became of a write since it was last asked.
#[derive(Clone, Copy, PartialEq, Eq, Structural, Debug)]
pub enum SaveOutcome {
    Running,
    Done,
    Failed,
    Lost,
}

/// What became of the i-th write: it is running where nothing is told.
pub open spec fn save_outcome(outcomes: Seq<SaveOutcome>, i: int) -> SaveOutcome {
    if 0 <= i < outcomes.len() {
        outcomes[i]
    } else {
        SaveOutcome::Running
    }
}

/// The hash of a project's contents once it was written: under a new name it
/// is that of what was written, unless the contents have changed since.
pub open spec fn hash_after(content: u64, hash: u64, before: u64, moved: bool) -> u64 {
    if moved && content == before {
        hash
    } else {
        content
    }
}

/// The project once it was written: the file is its stored copy, and after a
/// save to a new place also its home.
pub open spec fn project_stored(
    pre: OpenProject,
    path: Seq<char>,
    hash: u64,
    before: u64,
    layer_hashes: Seq<LayerHash>,
    token: u64,
    moved: bool,
    post: OpenProject,
) -> bool {
    &&& post == (OpenProject {
        name: post.name,
        path: post.path,
        content_hash: hash_after(pre.content_hash, hash, before, moved),
        saved_hash: Some(hash),
        saved_layer_hashes: post.saved_layer_hashes,
        saved_asset_revision: token,
        lossy_save_warnings: post.lossy_save_warnings,
        lossy_save_confirmed: false,
        ..pre
    })
    &&& post.saved_layer_hashes@ == layer_hashes
    &&& post.lossy_save_warnings@.len() == 0
    &&& if moved {
        text_of(post.path) == Some(path) && (known_path(path) ==> post.name@ == stem_of(file_part(path)))
    } else {
        post.path == pre.path && post.name == pre.name
    }
}

/// Whatever a write took for the state of a project is stored: the project
/// holds unsaved work only where it has changed since.
pub proof fn law_stored_project_is_clean(
    pre: OpenProject,
    path: Seq<char>,
    hash: u64,
    before: u64,
    layer_hashes: Seq<LayerHash>,
    token: u64,
    moved: bool,
    post: OpenProject,
)
    requires
        project_stored(pre, path, hash, before, layer_hashes, token, moved, post),
    ensures
        post.dirty() <==> hash_after(pre.content_hash, hash, before, moved) != hash || pre.asset_revision != token,
        pre.content_hash == before && (moved || before == hash) && pre.asset_revision == token ==> !post.dirty(),
{
}

/// The projects once one of them was written.
pub open spec fn workspace_stored(pre: Workspace, i: int, save: PendingSave, post: Workspace) -> bool {
    match save.kind {
        PendingSaveKind::Project { snapshot_hash, content_before, snapshot_layer_hashes, asset_token, save_as_previous_name, .. } => {
            &&& post == (Workspace { projects: post.projects, ..pre })
            &&& post.projects@.len() == pre.projects@.len()
            &&& forall|j: int| 0 <= j < pre.projects@.len() && j != i ==> #[trigger] post.projects@[j] == pre.projects@[j]
            &&& project_stored(
                pre.projects@[i],
                save.path@,
                snapshot_hash,
                content_before,
                snapshot_layer_hashes@,
                asset_token,
                save_as_previous_name is Some,
                post.projects@[i],
            )
        },
        _ => post == pre,
    }
}

/// The known paths with one more, unless it is among them.
pub open spec fn path_known(pre: Seq<String>, path: Seq<char>, post: Seq<String>) -> bool {
    if holds_text(pre, path) {
        post == pre
    } else {
        post.len() == pre.len() + 1 && post.drop_last() == pre && post.last()@ == path
    }
}

/// The write gave its project a new place.
pub open spec fn moves_project(save: PendingSave) -> bool {
    save.kind matches PendingSaveKind::Project { save_as_previous_name: Some(_), .. }
}

/// The files once a project was written.
pub open spec fn files_stored(pre: Files, save: PendingSave, post: Files) -> bool {
    &&& post == (Files {
        known_paths: post.known_paths,
        closing: Closing {
            project: match closed_after(save) {
                Some(id) => Some(id),
                None => pre.closing.project,
            },
            ..pre.closing
        },
        ..pre
    })
    &&& if moves_project(save) {
        path_known(pre.known_paths@, save.path@, post.known_paths@)
    } else {
        post.known_paths == pre.known_paths
    }
}

/// Where the project that a write is of stands.
pub open spec fn written_index(w: Workspace, save: PendingSave) -> Option<int> {
    match written_project(save) {
        Some(id) if index_of_runtime(w.projects@, id) < w.projects@.len() => Some(index_of_runtime(w.projects@, id)),
        _ => None,
    }
}

/// What the end of a write that succeeded does.
pub open spec fn write_done(pre: App, save: PendingSave, post: App) -> bool {
    match written_index(pre.workspace, save) {
        Some(i) => {
            &&& post == (App { workspace: post.workspace, files: post.files, frame: pre.frame.session(), ..pre })
            &&& workspace_stored(pre.workspace, i, save, post.workspace)
            &&& files_stored(pre.files, save, post.files)
        },
        None => post == pre,
    }
}

/// The write is of the active project.
pub open spec fn writes_active(w: Workspace, save: PendingSave) -> bool {
    written_project(save) is Some && active_runtime(w) == written_project(save)
}

/// A write that failed would have lost something of the file.
pub open spec fn failed_lossy(w: Workspace, save: PendingSave) -> bool {
    match written_index(w, save) {
        Some(i) => w.projects@[i].lossy_save_warnings@.len() > 0,
        None => false,
    }
}

/// A close that waited for a write that did not succeed waits for the user.
pub open spec fn close_waits(pre: App, save: PendingSave) -> bool {
    match closed_after(save) {
        Some(id) => index_of_runtime(pre.workspace.projects@, id) < pre.workspace.projects@.len(),
        None => false,
    }
}

/// The files once a write ended without a result: a close and an exit that
/// waited for it are put to the user again.
pub open spec fn files_lost(pre: App, save: PendingSave) -> Files {
    let closing = if close_waits(pre, save) {
        Closing { project: closed_after(save), ..pre.files.closing }
    } else {
        pre.files.closing
    };
    let waited = App { files: Files { closing, ..pre.files }, ..pre };
    if pre.files.exit.after_saves {
        exit_called_off(waited).files
    } else {
        waited.files
    }
}

/// The files once a write failed: beside what a lost one does, a replacement
/// that waited and a lossy save are put to the user again.
pub open spec fn files_failed(pre: App, save: PendingSave) -> Files {
    let lost = files_lost(pre, save);
    let asked = if pre.files.replacement.after_save && writes_active(pre.workspace, save) {
        Files { replacement: Replacement { after_save: false, confirm_open: true, ..lost.replacement }, ..lost }
    } else {
        lost
    };
    if failed_lossy(pre.workspace, save) {
        Files { lossy: LossySave { confirm_open: true, ..asked.lossy }, ..asked }
    } else {
        asked
    }
}

/// The projects once a write of one of them failed.
pub open spec fn workspace_failed(pre: Workspace, save: PendingSave, post: Workspace) -> bool {
    if failed_lossy(pre, save) {
        let i = written_index(pre, save)->0;
        &&& post == (Workspace { projects: post.projects, ..pre })
        &&& post.projects@ == pre.projects@.update(i, OpenProject { lossy_save_confirmed: false, ..pre.projects@[i] })
    } else {
        post == pre
    }
}

/// What becomes of one write.
pub open spec fn save_settled(pre: App, save: PendingSave, outcome: SaveOutcome, post: App) -> bool {
    let ended = App { jobs: post.jobs, frame: pre.frame.redraw(), ..pre };
    match outcome {
        SaveOutcome::Running => post == pre,
        SaveOutcome::Done => task_ended(pre.jobs, save.ticket, false, post.jobs) && write_done(ended, save, post),
        SaveOutcome::Lost => {
            &&& task_ended(pre.jobs, save.ticket, false, post.jobs)
            &&& post == (App { files: files_lost(pre, save), ..ended })
        },
        SaveOutcome::Failed => {
            &&& task_ended(pre.jobs, save.ticket, false, post.jobs)
            &&& post == (App { workspace: post.workspace, files: files_failed(pre, save), ..ended })
            &&& workspace_failed(pre.workspace, save, post.workspace)
        },
    }
}

/// A close that waited is looked at again after this write.
pub open spec fn wakes_close(pre: App, save: PendingSave, outcome: SaveOutcome) -> bool {
    match outcome {
        SaveOutcome::Running => false,
        SaveOutcome::Done => written_index(pre.workspace, save) is Some,
        _ => close_waits(pre, save),
    }
}

/// A replacement that waited goes on after this write.
pub open spec fn wakes_replacement(pre: App, save: PendingSave, outcome: SaveOutcome) -> bool {
    outcome == SaveOutcome::Done && written_index(pre.workspace, save) is Some && pre.files.replacement.after_save && writes_active(pre.workspace, save)
}

/// The state while writes are asked: what waits for them and will be looked at.
pub struct Settling {
    pub app: App,
    pub close: bool,
    pub replacement: bool,
}

/// One more write was asked.
pub open spec fn settling_step(pre: Settling, save: PendingSave, outcome: SaveOutcome, post: Settling) -> bool {
    &&& save_settled(pre.app, save, outcome, post.app)
    &&& post.close == (pre.close || wakes_close(pre.app, save, outcome))
    &&& post.replacement == (pre.replacement || wakes_replacement(pre.app, save, outcome))
}

/// The first `n` writes were asked, one after the other.
pub open spec fn saves_settled(pre: App, saves: Seq<PendingSave>, outcomes: Seq<SaveOutcome>, n: int, post: Settling) -> bool
    decreases n,
{
    if n <= 0 {
        post == (Settling { app: pre, close: false, replacement: false })
    } else {
        exists|mid: Settling|
            saves_settled(pre, saves, outcomes, n - 1, mid) && #[trigger] settling_step(mid, saves[n - 1], save_outcome(outcomes, n - 1), post)
    }
}

/// The writes that are still running, in their order.
pub open spec fn still_writing(saves: Seq<PendingSave>, outcomes: Seq<SaveOutcome>) -> Seq<PendingSave>
    decreases saves.len(),
{
    if saves.len() == 0 {
        Seq::empty()
    } else {
        let before = still_writing(saves.drop_last(), outcomes);
        if save_outcome(outcomes, saves.len() - 1) == SaveOutcome::Running {
            before.push(saves.last())
        } else {
            before
        }
    }
}

/// A replacement with nothing pending.
pub open spec fn replacement_shut(pre: Replacement) -> Replacement {
    Replacement { after_save: false, confirm_open: false, ..pre }
}

/// What going on with a replacement does.
pub open spec fn replacement_continued(pre: App, facts: DialogFacts, after: Seq<Option<HoleOrientation>>, r: Result<(), AppError>, post: App) -> bool {
    match pre.files.replacement.pending {
        None => {
            &&& r == Ok::<(), AppError>(())
            &&& post == (App { files: Files { replacement: replacement_shut(pre.files.replacement), ..pre.files }, ..pre })
        },
        Some(action) => action_executed(
            App {
                files: Files {
                    replacement: Replacement { pending: None, bypass: true, after_save: false, confirm_open: false },
                    ..pre.files
                },
                ..pre
            },
            action,
            facts,
            after,
            r,
            post,
        ),
    }
}

/// What follows once every write was asked.
pub open spec fn settling_finished(pre: Settling, facts: DialogFacts, after: Seq<Option<HoleOrientation>>, post: App) -> bool {
    exists|closed: App, replaced: App|
        {
            &&& #[trigger] close_looked_at(pre, closed)
            &&& #[trigger] replacement_looked_at(closed, pre.replacement, facts, after, replaced)
            &&& deferred_exit_tried(replaced, after, post)
        }
}

/// A close that waited was looked at, where that is due.
pub open spec fn close_looked_at(pre: Settling, post: App) -> bool {
    if pre.close {
        pending_actions_finished(pre.app, post)
    } else {
        post == pre.app
    }
}

/// A replacement that waited went on, where that is due.
pub open spec fn replacement_looked_at(pre: App, due: bool, facts: DialogFacts, after: Seq<Option<HoleOrientation>>, post: App) -> bool {
    if due {
        exists|r: Result<(), AppError>| #[trigger] replacement_continued(pre, facts, after, r, post)
    } else {
        post == pre
    }
}

/// What asking every write does.
pub open spec fn saves_polled(
    pre: App,
    outcomes: Seq<SaveOutcome>,
    facts: DialogFacts,
    after: Seq<Option<HoleOrientation>>,
    post: App,
) -> bool {
    let saves = pre.files.saves@;
    exists|asked: Settling, kept: Vec<PendingSave>|
        {
            &&& #[trigger] saves_settled(pre, saves, outcomes, saves.len() as int, asked)
            &&& kept@ == still_writing(saves, outcomes)
            &&& #[trigger] settling_finished(
                Settling { app: App { files: Files { saves: kept, ..asked.app.files }, ..asked.app }, ..asked },
                facts,
                after,
                post,
            )
        }
}


impl OpenProject {
    /// Takes what was written for the stored copy of the project.
    fn mark_stored(&mut self, path: &str, hash: u64, before: u64, layer_hashes: Vec<LayerHash>, token: u64, moved: bool)
        ensures
            project_stored(*old(self), path@, hash, before, layer_hashes@, token, moved, *final(self)),
    {
        if moved && self.content_hash == before {
            self.content_hash = hash;
        }
        self.saved_asset_revision = token;
        self.lossy_save_warnings.clear();
        self.lossy_save_confirmed = false;
        if moved {
            self.path = Some(path.to_string());
            self.name = match file_stem(path) {
                Some(stem) => stem,
                None => "Incline Design project".to_owned(),
            };
        }
        self.saved_hash = Some(hash);
        self.saved_layer_hashes = layer_hashes;
    }
}

impl Files {
    /// Remembers a path, unless it is known.
    pub fn track_project_path(&mut self, path: &str)
        ensures
            *final(self) == (Files { known_paths: final(self).known_paths, ..*old(self) }),
            path_known(old(self).known_paths@, path@, final(self).known_paths@),
    {
        if !contains_text(&self.known_paths, path) {
            self.known_paths.push(path.to_string());
            assert(self.known_paths@.drop_last() =~= old(self).known_paths@);
        }
    }

    fn note_stored(&mut self, save: &PendingSave)
        ensures
            files_stored(*old(self), *save, *final(self)),
    {
        if save.moves() {
            self.track_project_path(save.path.as_str());
        }
        match save.closes() {
            Some(id) => {
                self.closing.project = Some(id);
            },
            None => {},
        }
    }

    fn note_lost(&mut self, close: Option<u32>)
        ensures
            *final(self) == (Files {
                closing: if close is Some {
                    Closing { project: close, ..old(self).closing }
                } else {
                    old(self).closing
                },
                exit: if old(self).exit.after_saves {
                    crate::files::Exit { after_saves: false, discard_changes: false, confirm_open: false, ..old(self).exit }
                } else {
                    old(self).exit
                },
                ..*old(self)
            }),
    {
        if close.is_some() {
            self.closing.project = close;
        }
        if self.exit.after_saves {
            self.exit.after_saves = false;
            self.exit.discard_changes = false;
            self.exit.confirm_open = false;
        }
    }
}

impl Workspace {
    fn mark_stored(&mut self, i: usize, save: PendingSave)
        requires
            i < old(self).projects@.len(),
        ensures
            workspace_stored(*old(self), i as int, save, *final(self)),
    {
        match save.kind {
            PendingSaveKind::Project { snapshot_hash, content_before, snapshot_layer_hashes, asset_token, save_as_previous_name, .. } => {
                let moved = save_as_previous_name.is_some();
                self.projects[i].mark_stored(save.path.as_str(), snapshot_hash, content_before, snapshot_layer_hashes, asset_token, moved);
            },
            _ => {},
        }
    }
}

impl PendingSave {
    fn project_of(&self) -> (r: Option<u32>)
        ensures
            r == written_project(*self),
    {
        match &self.kind {
            PendingSaveKind::Project { runtime_id, .. } => Some(*runtime_id),
            _ => None,
        }
    }

    fn closes(&self) -> (r: Option<u32>)
        ensures
            r == closed_after(*self),
    {
        match &self.kind {
            PendingSaveKind::Project { runtime_id, close_after, .. } => {
                if *close_after {
                    Some(*runtime_id)
                } else {
                    None
                }
            },
            _ => None,
        }
    }

    fn moves(&self) -> (r: bool)
        ensures
            r == moves_project(*self),
    {
        match &self.kind {
            PendingSaveKind::Project { save_as_previous_name, .. } => save_as_previous_name.is_some(),
            _ => false,
        }
    }
}

impl Workspace {
    pub(crate) fn index_written(&self, save: &PendingSave) -> (r: Option<usize>)
        ensures
            match r {
                Some(i) => written_index(*self, *save) == Some(i as int) && i < self.projects@.len(),
                None => written_index(*self, *save) is None,
            },
    {
        match save.project_of() {
            Some(id) => {
                proof {
                    crate::search::lemma_first_index(self.projects@, |p: OpenProject| p.runtime_id == id);
                }
                self.project_index_for_runtime_id(id)
            },
            None => None,
        }
    }
}

impl App {
    fn finish_write(&mut self, save: PendingSave)
        ensures
            write_done(*old(self), save, *final(self)),
    {
        let i: usize = match self.workspace.index_written(&save) {
            Some(i) => i,
            None => {
                return ;
            },
        };
        self.files.note_stored(&save);
        self.workspace.mark_stored(i, save);
        self.persist_session();
    }

    pub(crate) fn writes_active_project(&self, save: &PendingSave) -> (r: bool)
        ensures
            r == writes_active(self.workspace, *save),
    {
        match (save.project_of(), self.active_runtime_id()) {
            (Some(a), Some(b)) => a == b,
            _ => false,
        }
    }

    pub(crate) fn waiting_close(&self, save: &PendingSave) -> (r: Option<u32>)
        ensures
            r == (if close_waits(*self, *save) {
                closed_after(*save)
            } else {
                None
            }),
            r is Some <==> close_waits(*self, *save),
    {
        match save.closes() {
            Some(id) => match self.workspace.project_index_for_runtime_id(id) {
                Some(_) => Some(id),
                None => None,
            },
            None => None,
        }
    }

    fn lose_write(&mut self, save: &PendingSave)
        ensures
            *final(self) == (App { files: files_lost(*old(self), *save), ..*old(self) }),
    {
        let close = self.waiting_close(save);
        self.files.note_lost(close);
    }

    fn fail_write(&mut self, save: &PendingSave)
        ensures
            *final(self) == (App { workspace: final(self).workspace, files: files_failed(*old(self), *save), ..*old(self) }),
            workspace_failed(old(self).workspace, *save, final(self).workspace),
    {
        let active = self.writes_active_project(save);
        self.lose_write(save);
        if self.files.replacement.after_save && active {
            self.files.replacement.after_save = false;
            self.files.replacement.confirm_open = true;
        }
        match self.workspace.index_written(save) {
            Some(i) => {
                if self.workspace.projects[i].lossy_save_warnings.len() > 0 {
                    self.workspace.projects[i].lossy_save_confirmed = false;
                    self.files.lossy.confirm_open = true;
                    assert(self.workspace.projects@ =~= old(self).workspace.projects@.update(
                        i as int,
                        OpenProject { lossy_save_confirmed: false, ..old(self).workspace.projects@[i as int] },
                    ));
                }
            },
            None => {},
        }
    }

    fn end_write(&mut self, ticket: u64)
        ensures
            *final(self) == (App { jobs: final(self).jobs, frame: old(self).frame.redraw(), ..*old(self) }),
            task_ended(old(self).jobs, ticket, false, final(self).jobs),
    {
        self.jobs.finish_background_task(ticket, false);
        self.frame.redraw_requested = true;
    }

    pub(crate) fn settle_done(&mut self, save: PendingSave)
        ensures
            save_settled(*old(self), save, SaveOutcome::Done, *final(self)),
    {
        self.end_write(save.ticket);
        self.finish_write(save);
    }

    pub(crate) fn settle_lost(&mut self, save: PendingSave)
        ensures
            save_settled(*old(self), save, SaveOutcome::Lost, *final(self)),
    {
        self.end_write(save.ticket);
        self.lose_write(&save);
    }

    pub(crate) fn settle_failed(&mut self, save: PendingSave)
        ensures
            save_settled(*old(self), save, SaveOutcome::Failed, *final(self)),
    {
        self.end_write(save.ticket);
        self.fail_write(&save);
    }
}

} // verus!
