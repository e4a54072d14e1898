//! Saving the open project, and leaving the program.

use crate::commands::closing::text_edit_index;
use crate::commands::saves::{asset_token, lemma_settling_keeps, project_write_begun, revert_pending, settled_if_pending, snapshot_taken};
use crate::drawing::move_tool::{active_runtime, pending_move_committed};
use crate::error::AppError;
use crate::files::{path_written, save_pending, Browser, DialogRequest, Files, LossySave, PendingSaveKind, Request, Snapshot};
use crate::fresh::{new_project_id, random_uuid};
use crate::items::HoleOrientation;
use crate::state::{App, Platform};
use crate::workspace::{index_of_runtime, OpenProject, ProjectId, ProjectPersistence};
use vstd::prelude::*;

verus! {

/// The files once the user was asked to choose where a project goes.
pub open spec fn save_as_dialog(pre: Files, runtime_id: u32, post: Files) -> bool {
    &&& post == (Files { dialogs: post.dialogs, ..pre })
    &&& post.dialogs@ == pre.dialogs@.push(DialogRequest::SaveProjectAs { project_runtime_id: runtime_id })
}

/// A gesture that stands is settled if it is over the project at an index.
pub open spec fn settled_for(pre: App, i: int, after: Seq<Option<HoleOrientation>>, post: App) -> bool {
    if pre.workspace.active_index matches Some(a) && a == i {
        settled_if_pending(pre, after, post)
    } else {
        post == pre
    }
}

/// Whatever gesture stands is settled if it is over the project.
pub open spec fn committed_for(pre: App, runtime_id: u32, after: Seq<Option<HoleOrientation>>, post: App) -> bool {
    if active_runtime(pre.workspace) == Some(runtime_id) {
        pending_move_committed(pre, after, post)
    } else {
        post == pre
    }
}

/// What asking where a project goes does.
pub open spec fn save_as_asked(pre: App, runtime_id: u32, after: Seq<Option<HoleOrientation>>, post: App) -> bool {
    if revert_pending(pre.jobs, runtime_id) || save_pending(pre.files.saves@, runtime_id) {
        post == pre
    } else {
        exists|mid: App|
            {
                &&& #[trigger] committed_for(pre, runtime_id, after, mid)
                &&& if index_of_runtime(mid.workspace.projects@, runtime_id) < mid.workspace.projects@.len() {
                    post == (App { files: post.files, ..mid }) && save_as_dialog(mid.files, runtime_id, post.files)
                } else {
                    post == mid
                }
            }
    }
}

/// The write is of a project as it stood.
pub open spec fn plain_project_write(kind: PendingSaveKind, id: u32, project: OpenProject, token: u64, previous: Option<Seq<char>>) -> bool {
    match kind {
        PendingSaveKind::Project { runtime_id, snapshot_hash, content_before, snapshot_layer_hashes, asset_token, close_after, save_as_previous_name } => {
            &&& runtime_id == id
            &&& snapshot_hash == project.content_hash
            &&& content_before == project.content_hash
            &&& snapshot_layer_hashes@ == project.layer_hashes@
            &&& asset_token == token
            &&& !close_after
            &&& crate::text::text_of(save_as_previous_name) == previous
        },
        _ => false,
    }
}

/// What saving a project to its file does.
pub open spec fn native_saved(pre: App, i: int, id: u32, after: Seq<Option<HoleOrientation>>, r: Result<(), AppError>, post: App) -> bool {
    let project = pre.workspace.projects@[i];
    match project.path {
        None => r == Ok::<(), AppError>(()) && save_as_asked(pre, id, after, post),
        Some(path) => if save_pending(pre.files.saves@, id) || path_written(pre.files.saves@, path@) {
            r == Ok::<(), AppError>(()) && post == pre
        } else {
            exists|mid: App, s: Result<Snapshot, AppError>| #[trigger]
                snapshot_taken(pre, after, s, mid) && match s {
                    Err(e) => r == Err::<(), AppError>(e) && post == mid,
                    Ok(snapshot) => {
                        &&& r == Ok::<(), AppError>(())
                        &&& exists|kind: PendingSaveKind| #[trigger]
                            project_write_begun(mid, kind, snapshot, path@, post) && plain_project_write(
                                kind,
                                id,
                                project,
                                asset_token(mid.workspace),
                                None,
                            )
                    },
                }
        },
    }
}

/// The identity under which a browser project is stored: its own, or a fresh one.
pub open spec fn stored_under(project: OpenProject, id: ProjectId) -> bool {
    match project.persistence {
        ProjectPersistence::BrowserRecord(own) => id == own,
        _ => random_uuid(id.0),
    }
}

/// The project is being deleted from storage, or will be.
pub open spec fn deletion_owns(files: Files, project: OpenProject, id: u32) -> bool {
    ||| files.browser.delete_after_save@.contains(id)
    ||| project.persistence matches ProjectPersistence::BrowserRecord(own) && files.browser.deletes@.contains(own)
}

/// What handing a snapshot to the browser's storage does.
pub open spec fn stored(pre: App, id: u32, own: ProjectId, snapshot: Snapshot, r: Result<(), AppError>, post: App) -> bool {
    if !pre.files.browser.loop_ready {
        r == Err::<(), AppError>(AppError::LoopUnavailable) && post == pre
    } else {
        &&& r == Ok::<(), AppError>(())
        &&& post == (App { files: post.files, ..pre })
        &&& post.files == (Files {
            browser: Browser { saves: post.files.browser.saves, ..pre.files.browser },
            requests: post.files.requests,
            ..pre.files
        })
        &&& post.files.browser.saves@ == pre.files.browser.saves@.insert(id)
        &&& post.files.requests@ == pre.files.requests@.push(Request::SaveStoredProject { runtime_id: id, project_id: own, snapshot })
    }
}

/// What saving a project to the browser's storage does.
pub open spec fn browser_saved(pre: App, i: int, id: u32, after: Seq<Option<HoleOrientation>>, r: Result<(), AppError>, post: App) -> bool {
    let project = pre.workspace.projects@[i];
    if deletion_owns(pre.files, project, id) || pre.files.browser.saves@.contains(id) {
        r == Ok::<(), AppError>(()) && post == pre
    } else {
        exists|mid: App, s: Result<Snapshot, AppError>| #[trigger]
            snapshot_taken(pre, after, s, mid) && match s {
                Err(e) => r == Err::<(), AppError>(e) && post == mid,
                Ok(snapshot) => exists|own: ProjectId| #[trigger] stored(mid, id, own, snapshot, r, post) && stored_under(project, own),
            }
    }
}

/// A save of the project would lose something that the user has not agreed to lose.
pub open spec fn lossy_unconfirmed(project: OpenProject) -> bool {
    project.lossy_save_warnings@.len() > 0 && !project.lossy_save_confirmed
}

/// What saving a project does.
pub open spec fn project_saved(pre: App, id: u32, after: Seq<Option<HoleOrientation>>, r: Result<(), AppError>, post: App) -> bool {
    let projects = pre.workspace.projects@;
    let i = index_of_runtime(projects, id);
    if pre.platform == Platform::Native && revert_pending(pre.jobs, id) {
        r == Err::<(), AppError>(AppError::RevertPending) && post == pre
    } else if i >= projects.len() {
        r == Err::<(), AppError>(AppError::ProjectGone) && post == pre
    } else if lossy_unconfirmed(projects[i]) {
        &&& r == Ok::<(), AppError>(())
        &&& post == (App {
            files: Files { lossy: LossySave { pending: None, confirm_open: true }, ..pre.files },
            frame: pre.frame.redraw(),
            ..pre
        })
    } else {
        exists|mid: App|
            {
                &&& #[trigger] settled_for(pre, i, after, mid)
                &&& if text_edit_index(mid) == Some(i) {
                    r == Err::<(), AppError>(AppError::TextEditPending) && post == mid
                } else if pre.platform == Platform::Browser {
                    browser_saved(mid, i, id, after, r, post)
                } else {
                    native_saved(mid, i, id, after, r, post)
                }
            }
    }
}

impl App {
    /// Asks where a project goes.
    pub fn spawn_save_project_as_dialog(&mut self, runtime_id: u32, after: &Vec<Option<HoleOrientation>>)
        ensures
            save_as_asked(*old(self), runtime_id, after@, *final(self)),
    {
        if self.project_revert_is_pending(runtime_id) || self.project_save_is_pending(runtime_id) {
            return ;
        }
        let active = match self.active_runtime_id() {
            Some(id) => id == runtime_id,
            None => false,
        };
        if active {
            self.commit_pending_move(after);
        }
        let ghost mid = *self;
        assert(committed_for(*old(self), runtime_id, after@, mid));
        if self.workspace.project_index_for_runtime_id(runtime_id).is_some() {
            self.files.dialogs.push(DialogRequest::SaveProjectAs { project_runtime_id: runtime_id });
        }
    }

    fn save_native(&mut self, index: usize, runtime_id: u32, after: &Vec<Option<HoleOrientation>>) -> (r: Result<(), AppError>)
        requires
            index < old(self).workspace.projects@.len(),
            old(self).jobs.next_ticket < u64::MAX,
        ensures
            native_saved(*old(self), index as int, runtime_id, after@, r, *final(self)),
    {
        let path = match &self.workspace.projects[index].path {
            Some(path) => path.clone(),
            None => {
                self.spawn_save_project_as_dialog(runtime_id, after);
                return Ok(());
            },
        };
        if self.files.project_save_is_pending(runtime_id) || self.files.path_is_written(path.as_str()) {
            return Ok(());
        }
        let snapshot_hash: u64 = self.workspace.projects[index].content_hash;
        let snapshot_layer_hashes = crate::commands::saves::copy_hashes(&self.workspace.projects[index].layer_hashes);
        let taken = self.omf_export_snapshot(after);
        let ghost mid = *self;
        assert(snapshot_taken(*old(self), after@, taken, mid));
        proof {
            lemma_settling_keeps(*old(self), after@, mid);
        }
        let snapshot = match taken {
            Ok(snapshot) => snapshot,
            Err(e) => {
                return Err(e);
            },
        };
        let token: u64 = match self.workspace.active_project() {
            Some(p) => p.asset_revision,
            None => 0,
        };
        let kind = PendingSaveKind::Project {
            runtime_id,
            snapshot_hash,
            content_before: snapshot_hash,
            snapshot_layer_hashes,
            asset_token: token,
            close_after: false,
            save_as_previous_name: None,
        };
        self.spawn_project_write(kind, snapshot, path);
        assert(project_write_begun(mid, kind, snapshot, path@, *self));
        Ok(())
    }

    fn save_browser_project(&mut self, index: usize, runtime_id: u32, after: &Vec<Option<HoleOrientation>>) -> (r: Result<(), AppError>)
        requires
            index < old(self).workspace.projects@.len(),
        ensures
            browser_saved(*old(self), index as int, runtime_id, after@, r, *final(self)),
    {
        let own = match self.workspace.projects[index].persistence {
            ProjectPersistence::BrowserRecord(id) => Some(id),
            _ => None,
        };
        let deleting = match own {
            Some(id) => self.files.browser.deletes.contains(id),
            None => false,
        };
        if deleting || self.files.browser.delete_after_save.contains(runtime_id) || self.files.browser.saves.contains(runtime_id) {
            return Ok(());
        }
        let project_id = match own {
            Some(id) => id,
            None => new_project_id(),
        };
        let taken = self.omf_export_snapshot(after);
        let ghost mid = *self;
        assert(snapshot_taken(*old(self), after@, taken, mid));
        let snapshot = match taken {
            Ok(snapshot) => snapshot,
            Err(e) => {
                return Err(e);
            },
        };
        let r = self.store(runtime_id, project_id, snapshot);
        assert(stored(mid, runtime_id, project_id, snapshot, r, *self));
        r
    }

    /// Hands a snapshot to the browser's storage.
    fn store(&mut self, runtime_id: u32, project_id: ProjectId, snapshot: Snapshot) -> (r: Result<(), AppError>)
        ensures
            stored(*old(self), runtime_id, project_id, snapshot, r, *final(self)),
    {
        if !self.files.browser.loop_ready {
            return Err(AppError::LoopUnavailable);
        }
        self.files.browser.saves.insert(runtime_id);
        self.files.requests.push(Request::SaveStoredProject { runtime_id, project_id, snapshot });
        Ok(())
    }

    /// Saves a project.
    pub fn save_project(&mut self, runtime_id: u32, after: &Vec<Option<HoleOrientation>>) -> (r: Result<(), AppError>)
        requires
            old(self).jobs.next_ticket < u64::MAX,
        ensures
            project_saved(*old(self), runtime_id, after@, r, *final(self)),
    {
        if self.platform == Platform::Native && self.project_revert_is_pending(runtime_id) {
            return Err(AppError::RevertPending);
        }
        let index: usize = match self.workspace.project_index_for_runtime_id(runtime_id) {
            Some(i) => i,
            None => {
                return Err(AppError::ProjectGone);
            },
        };
        if self.workspace.projects[index].lossy_save_warnings.len() > 0 && !self.workspace.projects[index].lossy_save_confirmed {
            self.files.lossy.pending = None;
            self.files.lossy.confirm_open = true;
            self.frame.redraw_requested = true;
            return Ok(());
        }
        let active = match self.workspace.active_index {
            Some(a) => a == index,
            None => false,
        };
        if active {
            self.settle_pending_move(after);
        }
        let ghost mid = *self;
        proof {
            if active {
                lemma_settling_keeps(*old(self), after@, mid);
            }
            assert(settled_for(*old(self), index as int, after@, mid));
        }
        match self.ensure_project_has_no_pending_text_edit(index) {
            Ok(_) => {},
            Err(e) => {
                return Err(e);
            },
        }
        if self.platform == Platform::Browser {
            self.save_browser_project(index, runtime_id, after)
        } else {
            self.save_native(index, runtime_id, after)
        }
    }
}

/// A project whose deletion was confirmed is not stored again: saving it asks
/// nothing of the browser.
pub proof fn law_deletion_owns_the_record(pre: App, i: int, id: u32, after: Seq<Option<HoleOrientation>>, r: Result<(), AppError>, post: App)
    requires
        browser_saved(pre, i, id, after, r, post),
        deletion_owns(pre.files, pre.workspace.projects@[i], id),
    ensures
        post.files.requests == pre.files.requests,
        post.files.browser.saves == pre.files.browser.saves,
{
}

/// A save that would lose something is asked about first: until the user
/// agrees nothing is written, and the project stays as it is.
pub proof fn law_losses_are_asked_about(pre: App, id: u32, after: Seq<Option<HoleOrientation>>, r: Result<(), AppError>, post: App)
    requires
        project_saved(pre, id, after, r, post),
        index_of_runtime(pre.workspace.projects@, id) < pre.workspace.projects@.len(),
        lossy_unconfirmed(pre.workspace.projects@[index_of_runtime(pre.workspace.projects@, id)]),
    ensures
        post.workspace == pre.workspace,
        post.files.saves == pre.files.saves,
        post.files.requests == pre.files.requests,
        r is Err || post.files.lossy.confirm_open,
{
}

} // verus!
