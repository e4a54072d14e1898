//! Leaving the program: never past unsaved work unless the user says so.

use crate::commands::closing::{close_deferred, content_dirty, needs_first_save, project_closed, project_needs_first_save, text_edit_index};
use crate::commands::leaving::{
    browser_saved, committed_for, deletion_owns, lossy_unconfirmed, native_saved, plain_project_write, project_saved, save_as_dialog, settled_for, stored,
    stored_under,
};
use crate::commands::saves::{
    asset_token, lemma_settling_keeps, lemma_committing_keeps, project_write_begun, revert_pending, settled_if_pending, snapshot_taken,
};
use crate::drawing::move_tool::active_runtime;
use crate::error::AppError;
use crate::files::{path_written, save_pending, Browser, Closing, Exit, Files, PendingSaveKind, Request, Snapshot};
use crate::items::HoleOrientation;
use crate::state::{App, Platform};
use crate::workspace::{index_of_runtime, ProjectId, ProjectPersistence, Workspace};
use vstd::prelude::*;

verus! {

/// The open project holds work that its stored copy does not.
pub open spec fn unsaved(app: App) -> bool {
    app.files.text.enabled || (app.workspace.active() matches Some(p) && content_dirty(app.workspace, p.runtime_id))
}

/// A write that was handed off is still running.
pub open spec fn save_in_flight(app: App) -> bool {
    app.files.saves@.len() > 0 || (app.platform == Platform::Browser && app.files.browser.saves@ != Set::<u32>::empty())
}

/// The project has no path yet.
pub open spec fn pathless(w: Workspace, runtime_id: u32) -> bool {
    let i = index_of_runtime(w.projects@, runtime_id);
    i < w.projects@.len() && w.projects@[i].path is None
}

/// What saving the open project where needed does.
pub open spec fn dirty_saved(pre: App, after: Seq<Option<HoleOrientation>>, r: Result<bool, AppError>, post: App) -> bool {
    exists|mid: App| #[trigger] settled_if_pending(pre, after, mid) && dirty_saved_from(mid, after, r, post)
}

/// What saving the open project where needed does, no gesture standing.
pub open spec fn dirty_saved_from(mid: App, after: Seq<Option<HoleOrientation>>, r: Result<bool, AppError>, post: App) -> bool {
    if mid.files.text.enabled {
        r == Err::<bool, AppError>(AppError::TextEditPending) && post == mid
    } else {
        match mid.workspace.active() {
            Some(p) if content_dirty(mid.workspace, p.runtime_id) || needs_first_save(mid.platform, p) => {
                exists|s: Result<(), AppError>| #[trigger]
                    project_saved(mid, p.runtime_id, after, s, post) && r == match s {
                        Err(e) => Err::<bool, AppError>(e),
                        Ok(_) => Ok(!(mid.platform == Platform::Native && pathless(mid.workspace, p.runtime_id))),
                    }
            },
            _ => r == Ok::<bool, AppError>(true) && post == mid,
        }
    }
}

/// The state of the way out once it was gone.
pub open spec fn gone(pre: App) -> App {
    App {
        files: Files {
            exit: Exit { after_saves: false, discard_changes: false, confirm_open: false, close_requested: true, ..pre.files.exit },
            ..pre.files
        },
        frame: pre.frame.session(),
        ..pre
    }
}

/// The state once an exit was called off.
pub open spec fn exit_called_off(pre: App) -> App {
    App {
        files: Files { exit: Exit { after_saves: false, discard_changes: false, confirm_open: false, ..pre.files.exit }, ..pre.files },
        ..pre
    }
}

/// What asking to leave does.
pub open spec fn exit_requested(pre: App) -> App {
    let calm = Exit { after_saves: false, discard_changes: false, ..pre.files.exit };
    if unsaved(pre) {
        App { files: Files { exit: Exit { confirm_open: true, ..calm }, ..pre.files }, ..pre }
    } else if pre.files.saves@.len() > 0 {
        App {
            files: Files { exit: Exit { after_saves: true, discard_changes: true, ..calm }, ..pre.files },
            frame: pre.frame.redraw(),
            ..pre
        }
    } else {
        App { files: Files { exit: Exit { close_requested: true, ..calm }, ..pre.files }, frame: pre.frame.session(), ..pre }
    }
}

/// What leaving without saving does: running writes come first.
pub open spec fn left_without_saving(pre: App) -> App {
    if pre.files.saves@.len() > 0 {
        App {
            files: Files {
                exit: Exit { after_saves: true, discard_changes: true, confirm_open: false, ..pre.files.exit },
                ..pre.files
            },
            frame: pre.frame.redraw(),
            ..pre
        }
    } else {
        gone(pre)
    }
}

/// What saving and leaving does.
pub open spec fn saved_and_left(pre: App, after: Seq<Option<HoleOrientation>>, r: Result<(), AppError>, post: App) -> bool {
    let asked = App {
        files: Files { exit: Exit { after_saves: true, discard_changes: false, ..pre.files.exit }, ..pre.files },
        ..pre
    };
    exists|mid: App, s: Result<bool, AppError>| #[trigger]
        dirty_saved(asked, after, s, mid) && match s {
            Err(e) => r == Err::<(), AppError>(e) && post == mid,
            Ok(started) => {
                let shut = App { files: Files { exit: Exit { confirm_open: false, ..mid.files.exit }, ..mid.files }, ..mid };
                &&& r == Ok::<(), AppError>(())
                &&& post == (if started && !save_in_flight(shut) && shut.files.dialogs@.len() == 0 && !unsaved(shut) {
                    gone(shut)
                } else {
                    shut
                })
            },
        }
}

/// What trying to finish a deferred exit does.
pub open spec fn deferred_exit_tried(pre: App, after: Seq<Option<HoleOrientation>>, post: App) -> bool {
    if !pre.files.exit.after_saves || pre.files.dialogs@.len() > 0 || save_in_flight(pre) || pre.files.lossy.confirm_open {
        post == pre
    } else if pre.files.exit.discard_changes {
        post == gone(pre)
    } else {
        exists|mid: App, s: Result<bool, AppError>| #[trigger]
            dirty_saved(pre, after, s, mid) && post == match s {
                Ok(done) => if done && !unsaved(mid) {
                    gone(mid)
                } else {
                    mid
                },
                Err(_) => exit_called_off(mid),
            }
    }
}

/// Asking to leave closes the program at once only where there is no unsaved
/// work and no write is running.
pub proof fn law_exit_asks_first(pre: App)
    ensures
        exit_requested(pre).files.exit.close_requested && !pre.files.exit.close_requested ==> !unsaved(pre) && pre.files.saves@.len() == 0,
        unsaved(pre) ==> exit_requested(pre).files.exit.confirm_open,
{
}

proof fn lemma_native_saved_keeps_exit(pre: App, i: int, id: u32, after: Seq<Option<HoleOrientation>>, r: Result<(), AppError>, post: App)
    requires
        native_saved(pre, i, id, after, r, post),
    ensures
        post.files.exit == pre.files.exit,
{
    match pre.workspace.projects@[i].path {
        None => {
            if revert_pending(pre.jobs, id) || save_pending(pre.files.saves@, id) {
            } else {
                let mid = choose|mid: App|
                    {
                        &&& #[trigger] committed_for(pre, id, after, mid)
                        &&& if index_of_runtime(mid.workspace.projects@, id) < mid.workspace.projects@.len() {
                            post == (App { files: post.files, ..mid }) && save_as_dialog(mid.files, id, post.files)
                        } else {
                            post == mid
                        }
                    };
                lemma_committed_keeps_files(pre, id, after, mid);
            }
        },
        Some(path) => {
            if save_pending(pre.files.saves@, id) || path_written(pre.files.saves@, path@) {
            } else {
                let (mid, s) = choose|mid: App, s: Result<Snapshot, AppError>| #[trigger]
                    snapshot_taken(pre, after, s, mid) && match s {
                        Err(e) => r == Err::<(), AppError>(e) && post == mid,
                        Ok(snapshot) => {
                            &&& r == Ok::<(), AppError>(())
                            &&& exists|kind: PendingSaveKind| #[trigger]
                                project_write_begun(mid, kind, snapshot, path@, post) && plain_project_write(
                                    kind,
                                    id,
                                    pre.workspace.projects@[i],
                                    asset_token(mid.workspace),
                                    None,
                                )
                        },
                    };
                lemma_settling_keeps(pre, after, mid);
            }
        },
    }
}

proof fn lemma_committed_keeps_files(pre: App, id: u32, after: Seq<Option<HoleOrientation>>, post: App)
    requires
        committed_for(pre, id, after, post),
    ensures
        post.files == pre.files,
{
    if active_runtime(pre.workspace) == Some(id) {
        lemma_committing_keeps(pre, after, post);
    }
}

proof fn lemma_browser_saved_keeps_exit(pre: App, i: int, id: u32, after: Seq<Option<HoleOrientation>>, r: Result<(), AppError>, post: App)
    requires
        browser_saved(pre, i, id, after, r, post),
    ensures
        post.files.exit == pre.files.exit,
{
    let project = pre.workspace.projects@[i];
    if deletion_owns(pre.files, project, id) || pre.files.browser.saves@.contains(id) {
    } else {
        let (mid, s) = choose|mid: App, s: Result<Snapshot, AppError>| #[trigger]
            snapshot_taken(pre, after, s, mid) && match s {
                Err(e) => r == Err::<(), AppError>(e) && post == mid,
                Ok(snapshot) => exists|own: ProjectId| #[trigger] stored(mid, id, own, snapshot, r, post) && stored_under(project, own),
            };
        lemma_settling_keeps(pre, after, mid);
    }
}

/// Saving a project leaves the way out alone.
pub proof fn lemma_project_saved_keeps_exit(pre: App, id: u32, after: Seq<Option<HoleOrientation>>, r: Result<(), AppError>, post: App)
    requires
        project_saved(pre, id, after, r, post),
    ensures
        post.files.exit == pre.files.exit,
{
    let projects = pre.workspace.projects@;
    let i = index_of_runtime(projects, id);
    if pre.platform == Platform::Native && revert_pending(pre.jobs, id) {
    } else if i >= projects.len() {
    } else if lossy_unconfirmed(projects[i]) {
    } else {
        let mid = choose|mid: App|
            {
                &&& #[trigger] settled_for(pre, i, after, mid)
                &&& if text_edit_index(mid) == Some(i) {
                    r == Err::<(), AppError>(AppError::TextEditPending) && post == mid
                } else if pre.platform == Platform::Browser {
                    browser_saved(mid, i, id, after, r, post)
                } else {
                    native_saved(mid, i, id, after, r, post)
                }
            };
        if pre.workspace.active_index matches Some(a) && a == i {
            lemma_settling_keeps(pre, after, mid);
        }
        if text_edit_index(mid) == Some(i) {
        } else if pre.platform == Platform::Browser {
            lemma_browser_saved_keeps_exit(mid, i, id, after, r, post);
        } else {
            lemma_native_saved_keeps_exit(mid, i, id, after, r, post);
        }
    }
}

proof fn lemma_dirty_saved_keeps_exit(pre: App, after: Seq<Option<HoleOrientation>>, r: Result<bool, AppError>, post: App)
    requires
        dirty_saved(pre, after, r, post),
    ensures
        post.files.exit == pre.files.exit,
{
    let mid = choose|mid: App| #[trigger] settled_if_pending(pre, after, mid) && dirty_saved_from(mid, after, r, post);
    lemma_settling_keeps(pre, after, mid);
    if !mid.files.text.enabled {
        match mid.workspace.active() {
            Some(p) => {
                if content_dirty(mid.workspace, p.runtime_id) || needs_first_save(mid.platform, p) {
                    let s = choose|s: Result<(), AppError>| #[trigger]
                        project_saved(mid, p.runtime_id, after, s, post) && r == match s {
                            Err(e) => Err::<bool, AppError>(e),
                            Ok(_) => Ok(!(mid.platform == Platform::Native && pathless(mid.workspace, p.runtime_id))),
                        };
                    lemma_project_saved_keeps_exit(mid, p.runtime_id, after, s, post);
                }
            },
            None => {},
        }
    }
}

/// A deferred exit never goes past unsaved work unless the user gave it up, nor
/// past a write that is still running.
pub proof fn law_deferred_exit_keeps_work(pre: App, after: Seq<Option<HoleOrientation>>, post: App)
    requires
        deferred_exit_tried(pre, after, post),
        !pre.files.exit.discard_changes,
        post.files.exit.close_requested,
        !pre.files.exit.close_requested,
    ensures
        !unsaved(post),
        !save_in_flight(pre),
{
    if !pre.files.exit.after_saves || pre.files.dialogs@.len() > 0 || save_in_flight(pre) || pre.files.lossy.confirm_open {
    } else {
        let (mid, s) = choose|mid: App, s: Result<bool, AppError>| #[trigger]
            dirty_saved(pre, after, s, mid) && post == match s {
                Ok(done) => if done && !unsaved(mid) {
                    gone(mid)
                } else {
                    mid
                },
                Err(_) => exit_called_off(mid),
            };
        lemma_dirty_saved_keeps_exit(pre, after, s, mid);
        assert(post == gone(mid));
    }
}

impl App {
    /// Whether the open project holds work that its stored copy does not.
    pub fn has_unsaved_changes_for_exit(&self) -> (r: bool)
        ensures
            r == unsaved(*self),
    {
        let dirty = match self.workspace.active_project() {
            Some(p) => self.project_content_is_dirty(p.runtime_id),
            None => false,
        };
        dirty || self.files.text.enabled
    }

    /// Whether a write that was handed off is still running.
    pub fn project_save_is_in_flight(&self) -> (r: bool)
        ensures
            r == save_in_flight(*self),
    {
        self.files.saves.len() > 0 || (self.platform == Platform::Browser && !self.files.browser.saves.is_empty())
    }

    /// Calls an exit off.
    pub fn cancel_exit_request(&mut self)
        ensures
            *final(self) == exit_called_off(*old(self)),
    {
        self.files.exit.after_saves = false;
        self.files.exit.discard_changes = false;
        self.files.exit.confirm_open = false;
    }

    /// Leaves.
    pub fn finish_deferred_exit(&mut self)
        ensures
            *final(self) == gone(*old(self)),
    {
        self.files.exit.after_saves = false;
        self.files.exit.discard_changes = false;
        self.files.exit.confirm_open = false;
        self.persist_session();
        self.files.exit.close_requested = true;
    }

    /// Saves the open project if its stored copy is missing or out of date;
    /// false where a dialog for its path is still to come.
    pub fn save_dirty_project(&mut self, after: &Vec<Option<HoleOrientation>>) -> (r: Result<bool, AppError>)
        requires
            old(self).jobs.next_ticket < u64::MAX,
        ensures
            dirty_saved(*old(self), after@, r, *final(self)),
    {
        self.settle_pending_move(after);
        let ghost mid = *self;
        proof {
            lemma_settling_keeps(*old(self), after@, mid);
            assert(settled_if_pending(*old(self), after@, mid));
        }
        self.save_dirty_now(after)
    }

    fn save_dirty_now(&mut self, after: &Vec<Option<HoleOrientation>>) -> (r: Result<bool, AppError>)
        requires
            old(self).jobs.next_ticket < u64::MAX,
        ensures
            dirty_saved_from(*old(self), after@, r, *final(self)),
    {
        if self.files.text.enabled {
            return Err(AppError::TextEditPending);
        }
        let id: u32 = match self.workspace.active_project() {
            Some(p) => {
                if !self.project_content_is_dirty(p.runtime_id) && !project_needs_first_save(self.platform, p) {
                    return Ok(true);
                }
                p.runtime_id
            },
            None => {
                return Ok(true);
            },
        };
        let no_path = match self.workspace.project_index_for_runtime_id(id) {
            Some(i) => self.workspace.projects[i].path.is_none(),
            None => false,
        };
        let save_as_required = self.platform == Platform::Native && no_path;
        let saved = self.save_project(id, after);
        assert(project_saved(*old(self), id, after@, saved, *self));
        match saved {
            Ok(_) => Ok(!save_as_required),
            Err(e) => Err(e),
        }
    }

    /// Asks to leave.
    pub fn request_exit(&mut self)
        ensures
            *final(self) == exit_requested(*old(self)),
    {
        let lost = self.has_unsaved_changes_for_exit();
        self.files.exit.after_saves = false;
        self.files.exit.discard_changes = false;
        if lost {
            self.files.exit.confirm_open = true;
        } else if self.files.saves.len() > 0 {
            self.files.exit.after_saves = true;
            self.files.exit.discard_changes = true;
            self.frame.redraw_requested = true;
        } else {
            self.persist_session();
            self.files.exit.close_requested = true;
        }
    }

    /// Saves, and leaves once that is done.
    pub fn save_and_exit(&mut self, after: &Vec<Option<HoleOrientation>>) -> (r: Result<(), AppError>)
        requires
            old(self).jobs.next_ticket < u64::MAX,
        ensures
            saved_and_left(*old(self), after@, r, *final(self)),
    {
        self.files.exit.after_saves = true;
        self.files.exit.discard_changes = false;
        let ghost asked = *self;
        let saved = self.save_dirty_project(after);
        let ghost mid = *self;
        assert(dirty_saved(asked, after@, saved, mid));
        let started = match saved {
            Ok(started) => started,
            Err(e) => {
                return Err(e);
            },
        };
        self.files.exit.confirm_open = false;
        if started && !self.project_save_is_in_flight() && self.files.dialogs.len() == 0 && !self.has_unsaved_changes_for_exit() {
            self.finish_deferred_exit();
        }
        Ok(())
    }

    /// Leaves without saving.
    pub fn exit_without_saving(&mut self)
        ensures
            *final(self) == left_without_saving(*old(self)),
    {
        self.files.exit.confirm_open = false;
        if self.files.saves.len() > 0 {
            self.files.exit.after_saves = true;
            self.files.exit.discard_changes = true;
            self.frame.redraw_requested = true;
            return ;
        }
        self.files.exit.after_saves = false;
        self.files.exit.discard_changes = false;
        self.persist_session();
        self.files.exit.close_requested = true;
    }

    /// Finishes an exit that waited, if nothing holds it up any more.
    pub fn try_finish_deferred_exit(&mut self, after: &Vec<Option<HoleOrientation>>)
        requires
            old(self).jobs.next_ticket < u64::MAX,
        ensures
            deferred_exit_tried(*old(self), after@, *final(self)),
    {
        if !self.files.exit.after_saves || self.files.dialogs.len() > 0 || self.project_save_is_in_flight() {
            return ;
        }
        if self.files.lossy.confirm_open {
            return ;
        }
        if self.files.exit.discard_changes {
            self.finish_deferred_exit();
            return ;
        }
        let saved = self.save_dirty_project(after);
        let ghost mid = *self;
        assert(dirty_saved(*old(self), after@, saved, mid));
        match saved {
            Ok(done) => {
                if done && !self.has_unsaved_changes_for_exit() {
                    self.finish_deferred_exit();
                }
            },
            Err(_) => self.cancel_exit_request(),
        }
    }

    /// Keeps what the user last saw before the program has to stop.
    pub fn begin_fatal_shutdown(&mut self, after: &Vec<Option<HoleOrientation>>)
        ensures
            shut_down(*old(self), after@, *final(self)),
    {
        self.settle_pending_move(after);
        let ghost mid = *self;
        assert(settled_if_pending(*old(self), after@, mid));
        self.request_recovery(after);
        self.persist_session();
        self.files.exit.fatal = true;
        self.frame.redraw_requested = true;
    }

    /// Asks for a recovery copy of the open project if it holds unsaved work.
    fn request_recovery(&mut self, after: &Vec<Option<HoleOrientation>>)
        ensures
            recovery_requested(*old(self), after@, *final(self)),
    {
        if self.platform == Platform::Browser {
            return ;
        }
        let id: u32 = match self.workspace.active_project() {
            Some(p) => p.runtime_id,
            None => {
                return ;
            },
        };
        if !self.project_content_is_dirty(id) {
            return ;
        }
        let taken = self.omf_export_snapshot(after);
        let ghost mid = *self;
        assert(snapshot_taken(*old(self), after@, taken, mid));
        match taken {
            Ok(snapshot) => {
                self.files.requests.push(Request::WriteRecoveryCopy { snapshot, runtime_id: id });
            },
            Err(_) => {},
        }
    }
}

/// What asking for a recovery copy does.
pub open spec fn recovery_requested(pre: App, after: Seq<Option<HoleOrientation>>, post: App) -> bool {
    match pre.workspace.active() {
        Some(p) if pre.platform == Platform::Native && content_dirty(pre.workspace, p.runtime_id) => {
            exists|mid: App, s: Result<Snapshot, AppError>| #[trigger]
                snapshot_taken(pre, after, s, mid) && match s {
                    Ok(snapshot) => {
                        &&& post == (App { files: Files { requests: post.files.requests, ..mid.files }, ..mid })
                        &&& post.files.requests@ == mid.files.requests@.push(Request::WriteRecoveryCopy { snapshot, runtime_id: p.runtime_id })
                    },
                    Err(_) => post == mid,
                }
        },
        _ => post == pre,
    }
}

/// What a fatal shutdown does.
pub open spec fn shut_down(pre: App, after: Seq<Option<HoleOrientation>>, post: App) -> bool {
    exists|mid: App, kept: App|
        {
            &&& #[trigger] settled_if_pending(pre, after, mid)
            &&& #[trigger] recovery_requested(mid, after, kept)
            &&& post == (App {
                files: Files { exit: Exit { fatal: true, ..kept.files.exit }, ..kept.files },
                frame: kept.frame.session().redraw(),
                ..kept
            })
        }
}

/// What finishing a close that waited does: the project closes unless it is
/// being written, holds unsaved work or has its text edited.
pub open spec fn pending_actions_finished(pre: App, post: App) -> bool {
    match pre.files.closing.project {
        Some(id) => {
            let i = index_of_runtime(pre.workspace.projects@, id);
            if save_pending(pre.files.saves@, id) || content_dirty(pre.workspace, id) || (i < pre.workspace.projects@.len() && text_edit_index(pre)
                == Some(i)) {
                post == pre
            } else {
                project_closed(pre, id, post)
            }
        },
        None => post == pre,
    }
}

/// What asking to close a project does.
pub open spec fn close_requested(pre: App, id: u32, post: App) -> bool {
    let i = index_of_runtime(pre.workspace.projects@, id);
    let waits = App { files: Files { closing: Closing { project: Some(id), ..pre.files.closing }, ..pre.files }, ..pre };
    if pre.platform == Platform::Browser {
        if pre.files.browser.loads@ != Set::<ProjectId>::empty() || i >= pre.workspace.projects@.len() {
            post == pre
        } else if content_dirty(pre.workspace, id) || needs_first_save(pre.platform, pre.workspace.projects@[i]) || pre.files.text.enabled {
            post == waits
        } else {
            project_closed(pre, id, post)
        }
    } else if i >= pre.workspace.projects@.len() {
        post == pre
    } else if save_pending(pre.files.saves@, id) {
        post == (App { files: post.files, ..pre }) && close_deferred(pre.files, id, post.files)
    } else if content_dirty(pre.workspace, id) || text_edit_index(pre) == Some(i) {
        post == waits
    } else {
        project_closed(pre, id, post)
    }
}

/// What saving and closing a project does.
pub open spec fn saved_and_closed(pre: App, id: u32, after: Seq<Option<HoleOrientation>>, r: Result<(), AppError>, post: App) -> bool {
    if pre.platform == Platform::Native && save_pending(pre.files.saves@, id) {
        &&& r == Ok::<(), AppError>(())
        &&& post == (App { files: post.files, ..pre })
        &&& close_deferred(pre.files, id, post.files)
    } else {
        let waits = App { files: Files { closing: Closing { project: Some(id), ..pre.files.closing }, ..pre.files }, ..pre };
        exists|mid: App, s: Result<(), AppError>| #[trigger]
            project_saved(waits, id, after, s, mid) && match s {
                Err(e) => r == Err::<(), AppError>(e) && post == mid,
                Ok(_) => r == Ok::<(), AppError>(()) && (if pre.platform == Platform::Native {
                    pending_actions_finished(mid, post)
                } else {
                    post == mid
                }),
            }
    }
}

/// What deleting a browser project does.
pub open spec fn browser_project_deleted(pre: App, id: u32, r: Result<(), AppError>, post: App) -> bool {
    let i = index_of_runtime(pre.workspace.projects@, id);
    if i >= pre.workspace.projects@.len() {
        r == Err::<(), AppError>(AppError::ProjectGone) && post == pre
    } else if pre.files.browser.saves@.contains(id) {
        &&& r == Ok::<(), AppError>(())
        &&& post == (App { files: post.files, ..pre })
        &&& post.files == (Files {
            browser: Browser { delete_after_save: post.files.browser.delete_after_save, ..pre.files.browser },
            closing: Closing { project: None, ..pre.files.closing },
            ..pre.files
        })
        &&& post.files.browser.delete_after_save@ == pre.files.browser.delete_after_save@.insert(id)
    } else {
        match pre.workspace.projects@[i].persistence {
            ProjectPersistence::BrowserRecord(own) => {
                &&& post == (App { files: post.files, ..pre })
                &&& crate::commands::closing::delete_started(pre.files, own, Some(id), r, post.files)
            },
            _ => r == Ok::<(), AppError>(()) && project_closed(pre, id, post),
        }
    }
}

impl App {
    /// Finishes a close that waited.
    pub fn finish_pending_project_actions(&mut self)
        ensures
            pending_actions_finished(*old(self), *final(self)),
    {
        let id: u32 = match self.files.closing.project {
            Some(id) => id,
            None => {
                return ;
            },
        };
        if self.project_save_is_pending(id) || self.project_content_is_dirty(id) {
            return ;
        }
        let editing = match (self.workspace.project_index_for_runtime_id(id), self.pending_text_edit_project_index()) {
            (Some(i), Some(e)) => i == e,
            _ => false,
        };
        if editing {
            return ;
        }
        self.close_project(id);
    }

    /// Asks to close a project.
    pub fn request_close_project(&mut self, runtime_id: u32)
        ensures
            close_requested(*old(self), runtime_id, *final(self)),
    {
        if self.platform == Platform::Browser && !self.files.browser.loads.is_empty() {
            return ;
        }
        let index: usize = match self.workspace.project_index_for_runtime_id(runtime_id) {
            Some(i) => i,
            None => {
                return ;
            },
        };
        let held_up = if self.platform == Platform::Browser {
            self.project_content_is_dirty(runtime_id) || project_needs_first_save(self.platform, &self.workspace.projects[index])
                || self.files.text.enabled
        } else {
            if self.defer_project_close_until_save_finishes(runtime_id) {
                return ;
            }
            self.project_content_is_dirty(runtime_id) || (match self.pending_text_edit_project_index() {
                Some(e) => e == index,
                None => false,
            })
        };
        if held_up {
            self.files.closing.project = Some(runtime_id);
        } else {
            self.close_project(runtime_id);
        }
    }

    /// Gives up a close that waits.
    pub fn cancel_close_project(&mut self)
        ensures
            *final(self) == (App {
                files: Files { closing: Closing { project: None, remove_after: false, ..old(self).files.closing }, ..old(self).files },
                ..*old(self)
            }),
    {
        self.files.closing.project = None;
        self.files.closing.remove_after = false;
    }

    /// Saves a project, and closes it once that is done.
    pub fn save_and_close_project(&mut self, runtime_id: u32, after: &Vec<Option<HoleOrientation>>) -> (r: Result<(), AppError>)
        requires
            old(self).jobs.next_ticket < u64::MAX,
        ensures
            saved_and_closed(*old(self), runtime_id, after@, r, *final(self)),
    {
        if self.platform == Platform::Native && self.defer_project_close_until_save_finishes(runtime_id) {
            return Ok(());
        }
        let native = self.platform == Platform::Native;
        self.files.closing.project = Some(runtime_id);
        let ghost waits = *self;
        let saved = self.save_project(runtime_id, after);
        let ghost mid = *self;
        assert(project_saved(waits, runtime_id, after@, saved, mid));
        match saved {
            Ok(_) => {},
            Err(e) => {
                return Err(e);
            },
        }
        if native {
            self.finish_pending_project_actions();
        }
        Ok(())
    }

    /// Deletes a browser project.
    pub fn delete_browser_project(&mut self, runtime_id: u32) -> (r: Result<(), AppError>)
        ensures
            browser_project_deleted(*old(self), runtime_id, r, *final(self)),
    {
        let index: usize = match self.workspace.project_index_for_runtime_id(runtime_id) {
            Some(i) => i,
            None => {
                return Err(AppError::ProjectGone);
            },
        };
        if self.files.browser.saves.contains(runtime_id) {
            self.files.browser.delete_after_save.insert(runtime_id);
            self.files.closing.project = None;
            return Ok(());
        }
        match self.workspace.projects[index].persistence {
            ProjectPersistence::BrowserRecord(own) => self.files.start_delete(own, Some(runtime_id)),
            _ => {
                self.close_project(runtime_id);
                Ok(())
            },
        }
    }
}

} // verus!
