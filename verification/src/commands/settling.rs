//! Asking writes and dialogs what became of them, and what follows.

use crate::commands::closing::{active_closed, browser_removed, close_begun, nothing_open, other_closed, project_closed, project_data_cleared};
use crate::commands::dialogs::{action_done, action_executed, bypass_used, gate, replaces_project, room_for, DialogFacts, Gate};
use crate::commands::outcomes::{
    close_looked_at, replacement_continued, replacement_looked_at, save_outcome, save_settled, saves_polled, saves_settled, settling_finished, settling_step,
    still_writing, wakes_close, wakes_replacement, SaveOutcome, Settling,
};
use crate::commands::projects::project_installed;
use crate::error::AppError;
use crate::files::{FileDialogAction, Files, PendingSave, Replacement};
use crate::items::HoleOrientation;
use crate::state::{App, Platform};
use crate::workspace::{index_of_runtime, OpenProject, Workspace};
use vstd::prelude::*;

verus! {

/// What a replacement waits with puts another project in the place of the open one.
pub open spec fn replacement_fits(files: Files) -> bool {
    files.replacement.pending matches Some(action) ==> replaces_project(action)
}

/// There is room for what waits for a write: tickets and a runtime id.
pub open spec fn room_to_settle(app: App) -> bool {
    &&& app.jobs.next_ticket + 2 <= u64::MAX
    &&& app.workspace.next_runtime_id < u32::MAX
    &&& replacement_fits(app.files)
}

/// What asking a write leaves alone.
pub open spec fn settling_keeps(pre: App, post: App) -> bool {
    &&& post.jobs.next_ticket == pre.jobs.next_ticket
    &&& post.workspace.next_runtime_id == pre.workspace.next_runtime_id
    &&& post.files.replacement.pending == pre.files.replacement.pending
    &&& post.files.saves == pre.files.saves
    &&& post.platform == pre.platform
}

proof fn lemma_save_keeps(pre: App, save: PendingSave, outcome: SaveOutcome, post: App)
    requires
        save_settled(pre, save, outcome, post),
    ensures
        settling_keeps(pre, post),
{
}

proof fn lemma_saves_keep(pre: App, saves: Seq<PendingSave>, outcomes: Seq<SaveOutcome>, n: int, post: Settling)
    requires
        saves_settled(pre, saves, outcomes, n, post),
    ensures
        settling_keeps(pre, post.app),
    decreases n,
{
    if n > 0 {
        let mid = choose|mid: Settling|
            saves_settled(pre, saves, outcomes, n - 1, mid) && #[trigger] settling_step(mid, saves[n - 1], save_outcome(outcomes, n - 1), post);
        lemma_saves_keep(pre, saves, outcomes, n - 1, mid);
        lemma_save_keeps(mid.app, saves[n - 1], save_outcome(outcomes, n - 1), post.app);
    }
}

/// Closing a project takes no ticket and no runtime id, and leaves a
/// replacement that waits.
proof fn lemma_close_keeps(pre: App, runtime_id: u32, post: App)
    requires
        project_closed(pre, runtime_id, post),
    ensures
        post.jobs.next_ticket == pre.jobs.next_ticket,
        post.workspace.next_runtime_id == pre.workspace.next_runtime_id,
        post.files.replacement == pre.files.replacement,
        post.platform == pre.platform,
{
    let i = index_of_runtime(pre.workspace.projects@, runtime_id);
    if pre.platform == Platform::Browser && pre.files.browser.loads@ != Set::<crate::workspace::ProjectId>::empty() {
    } else if pre.platform == Platform::Native && crate::files::save_pending(pre.files.saves@, runtime_id) {
    } else if i >= pre.workspace.projects@.len() {
    } else {
        let mid = choose|mid: App| #[trigger]
            close_begun(pre, runtime_id, mid) && if pre.workspace.active_index == Some(i as usize) {
                if pre.platform == Platform::Browser && pre.files.closing.remove_after {
                    browser_removed(
                        App {
                            files: Files { closing: crate::files::Closing { remove_after: false, ..mid.files.closing }, ..mid.files },
                            ..mid
                        },
                        i,
                        runtime_id,
                        post,
                    )
                } else {
                    active_closed(mid, i, post)
                }
            } else {
                other_closed(mid, i, runtime_id, post)
            };
        assert(close_begun(pre, runtime_id, mid));
        if pre.workspace.active_index == Some(i as usize) {
            if pre.platform == Platform::Browser && pre.files.closing.remove_after {
                let kept = App {
                    files: Files { closing: crate::files::Closing { remove_after: false, ..mid.files.closing }, ..mid.files },
                    ..mid
                };
                lemma_browser_removed_keeps(kept, i, runtime_id, post);
            } else {
                lemma_active_closed_keeps(mid, i, post);
            }
        }
    }
}

proof fn lemma_active_closed_keeps(pre: App, i: int, post: App)
    requires
        active_closed(pre, i, post),
    ensures
        post.jobs == pre.jobs,
        post.workspace.next_runtime_id == pre.workspace.next_runtime_id,
        post.files.replacement == pre.files.replacement,
        post.platform == pre.platform,
{
    let free = App { files: post.files, ..pre };
    assert(nothing_open(free, post));
    let mid = choose|mid: App| #[trigger]
        project_data_cleared(free, mid) && post == (App { frame: free.frame.session().geometry().fit(), ..mid });
    assert(project_data_cleared(free, mid));
}

proof fn lemma_browser_removed_keeps(pre: App, i: int, runtime_id: u32, post: App)
    requires
        browser_removed(pre, i, runtime_id, post),
    ensures
        post.jobs == pre.jobs,
        post.workspace.next_runtime_id == pre.workspace.next_runtime_id,
        post.files.replacement == pre.files.replacement,
        post.platform == pre.platform,
{
    if pre.files.browser.saves@.contains(runtime_id) {
    } else {
        match pre.workspace.projects@[i].persistence {
            crate::workspace::ProjectPersistence::BrowserRecord(_) => {},
            _ => {
                lemma_active_closed_keeps(pre, i, post);
            },
        }
    }
}

/// Putting another project in the place of the open one takes at most one ticket.
proof fn lemma_replacing_tickets(pre: App, action: FileDialogAction, facts: DialogFacts, after: Seq<Option<HoleOrientation>>, r: Result<(), AppError>, post: App)
    requires
        action_executed(pre, action, facts, after, r, post),
        replaces_project(action),
        pre.jobs.next_ticket < u64::MAX,
    ensures
        post.jobs.next_ticket <= pre.jobs.next_ticket + 1,
{
    match gate(pre, action) {
        Gate::Open => {
            let free = bypass_used(pre);
            assert(action_done(free, action, facts, after, r, post));
            match action {
                FileDialogAction::NewProject => {
                    if let Some(blank) = facts.blank {
                        let (clean, mid) = choose|clean: OpenProject, mid: App|
                            crate::commands::projects::marked_saved(blank, clean) && #[trigger] project_installed(free, clean, mid) && post == (App {
                                frame: mid.frame.fit(),
                                ..mid
                            });
                        assert(project_installed(free, clean, mid));
                        lemma_installed_keeps(free, clean, mid);
                    }
                },
                FileDialogAction::WebNewProject(name) => {
                    if let Some(blank) = facts.blank {
                        assert(crate::commands::dialogs::browser_project_started(free, name@, facts, r, post));
                        let (named, mid) = choose|named: OpenProject, mid: App|
                            {
                                &&& #[trigger] project_installed(free, named, mid)
                                &&& named == (OpenProject { name: named.name, ..blank })
                                &&& named.name@ == crate::names::project_file_name(name@)
                                &&& post == (App { frame: mid.frame.fit(), ..mid })
                            };
                        assert(project_installed(free, named, mid));
                        lemma_installed_keeps(free, named, mid);
                    }
                },
                _ => {},
            }
        },
        _ => {},
    }
}

proof fn lemma_installed_keeps(pre: App, project: OpenProject, post: App)
    requires
        project_installed(pre, project, post),
    ensures
        post.jobs == pre.jobs,
{
    let id = pre.workspace.next_runtime_id;
    let mid = choose|mid: App| #[trigger]
        project_data_cleared(pre, mid) && post == (App {
            workspace: Workspace { projects: post.workspace.projects, active_index: Some(0), next_runtime_id: (id + 1) as u32 },
            history: crate::state::History { active: Some(id), ..mid.history },
            ..mid
        }) && post.workspace.projects@.len() == 1 && crate::snapshots::opened_under(project, id, post.workspace.projects@[0]);
    assert(project_data_cleared(pre, mid));
}

impl App {
    fn settle_one(&mut self, save: PendingSave, outcome: SaveOutcome, kept: &mut Vec<PendingSave>) -> (r: (bool, bool))
        ensures
            save_settled(*old(self), save, outcome, *final(self)),
            r.0 == wakes_close(*old(self), save, outcome),
            r.1 == wakes_replacement(*old(self), save, outcome),
            final(kept)@ == (if outcome == SaveOutcome::Running {
                old(kept)@.push(save)
            } else {
                old(kept)@
            }),
    {
        match outcome {
            SaveOutcome::Running => {
                kept.push(save);
                (false, false)
            },
            SaveOutcome::Done => {
                let known = self.workspace.index_written(&save).is_some();
                let replaces = known && self.files.replacement.after_save && self.writes_active_project(&save);
                self.settle_done(save);
                (known, replaces)
            },
            SaveOutcome::Lost => {
                let close = self.waiting_close(&save).is_some();
                self.settle_lost(save);
                (close, false)
            },
            SaveOutcome::Failed => {
                let close = self.waiting_close(&save).is_some();
                self.settle_failed(save);
                (close, false)
            },
        }
    }

    /// Asks every write what became of it; tells whether a close and whether a
    /// replacement that waited are to be looked at.
    fn ask_saves(&mut self, outcomes: &Vec<SaveOutcome>) -> (r: (bool, bool, Ghost<Settling>))
        ensures
            saves_settled(*old(self), old(self).files.saves@, outcomes@, old(self).files.saves@.len() as int, r.2@),
            r.2@.close == r.0,
            r.2@.replacement == r.1,
            *final(self) == (App { files: Files { saves: final(self).files.saves, ..r.2@.app.files }, ..r.2@.app }),
            final(self).files.saves@ == still_writing(old(self).files.saves@, outcomes@),
    {
        let ghost all = self.files.saves@;
        let ghost mut at: Settling = Settling { app: *self, close: false, replacement: false };
        let mut kept: Vec<PendingSave> = Vec::new();
        let mut close = false;
        let mut replacement = false;
        let n: usize = self.files.saves.len();
        let mut i: usize = 0;
        proof {
            assert(all.skip(0) =~= all);
            assert(all.take(0) =~= Seq::<PendingSave>::empty());
        }
        while self.files.saves.len() > 0
            invariant
                all == old(self).files.saves@,
                n == all.len(),
                i <= n,
                self.files.saves@ == all.skip(i as int),
                kept@ == still_writing(all.take(i as int), outcomes@),
                at.close == close,
                at.replacement == replacement,
                saves_settled(*old(self), all, outcomes@, i as int, at),
                at.app.files.saves == old(self).files.saves,
                *self == (App { files: Files { saves: self.files.saves, ..at.app.files }, ..at.app }),
            decreases self.files.saves.len(),
        {
            let save = self.files.saves.remove(0);
            let outcome = if outcomes.len() > i {
                outcomes[i]
            } else {
                SaveOutcome::Running
            };
            let ghost before = *self;
            let ghost left = self.files.saves;
            let ghost was = at;
            let (c, r) = self.settle_one(save, outcome, &mut kept);
            proof {
                assert(save == all[i as int]);
                assert(all.take(i + 1).drop_last() =~= all.take(i as int));
                assert(left@ =~= all.skip(i + 1));
                lemma_step_under(before, was.app, left, save, outcome, *self);
                reveal(settled_under);
                at = Settling {
                    app: App { files: Files { saves: was.app.files.saves, ..self.files }, ..*self },
                    close: close || c,
                    replacement: replacement || r,
                };
                assert(settling_step(was, all[i + 1 - 1], save_outcome(outcomes@, i + 1 - 1), at));
            }
            close = close || c;
            replacement = replacement || r;
            i += 1;
        }
        assert(all.take(all.len() as int) =~= all);
        self.files.saves = kept;
        (close, replacement, Ghost(at))
    }
}

/// What becomes of a write, as it is seen from the list of all of them.
#[verifier::opaque]
spec fn settled_under(whole: App, save: PendingSave, outcome: SaveOutcome, post: App) -> bool {
    save_settled(whole, save, outcome, App { files: Files { saves: whole.files.saves, ..post.files }, ..post })
}

proof fn lemma_done_under(pre: App, whole: App, left: Vec<PendingSave>, save: PendingSave, post: App)
    requires
        pre == (App { files: Files { saves: left, ..whole.files }, ..whole }),
        save_settled(pre, save, SaveOutcome::Done, post),
    ensures
        post.files.saves == left,
        settled_under(whole, save, SaveOutcome::Done, post),
{
    reveal(settled_under);
    let ended = App { jobs: post.jobs, frame: whole.frame.redraw(), ..whole };
    let end = App { files: Files { saves: whole.files.saves, ..post.files }, ..post };
    assert(crate::commands::outcomes::write_done(ended, save, end));
}

proof fn lemma_lost_under(pre: App, whole: App, left: Vec<PendingSave>, save: PendingSave, post: App)
    requires
        pre == (App { files: Files { saves: left, ..whole.files }, ..whole }),
        save_settled(pre, save, SaveOutcome::Lost, post),
    ensures
        post.files.saves == left,
        settled_under(whole, save, SaveOutcome::Lost, post),
{
    reveal(settled_under);
    let end = App { files: Files { saves: whole.files.saves, ..post.files }, ..post };
    assert(end.files == crate::commands::outcomes::files_lost(whole, save));
}

proof fn lemma_failed_under(pre: App, whole: App, left: Vec<PendingSave>, save: PendingSave, post: App)
    requires
        pre == (App { files: Files { saves: left, ..whole.files }, ..whole }),
        save_settled(pre, save, SaveOutcome::Failed, post),
    ensures
        post.files.saves == left,
        settled_under(whole, save, SaveOutcome::Failed, post),
{
    reveal(settled_under);
    let end = App { files: Files { saves: whole.files.saves, ..post.files }, ..post };
    assert(end.files == crate::commands::outcomes::files_failed(whole, save));
}

proof fn lemma_running_under(pre: App, whole: App, left: Vec<PendingSave>, save: PendingSave, post: App)
    requires
        pre == (App { files: Files { saves: left, ..whole.files }, ..whole }),
        save_settled(pre, save, SaveOutcome::Running, post),
    ensures
        post.files.saves == left,
        settled_under(whole, save, SaveOutcome::Running, post),
{
    reveal(settled_under);
    let end = App { files: Files { saves: whole.files.saves, ..post.files }, ..post };
    assert(end.files == whole.files);
    assert(end == whole);
}

/// What becomes of a write does not depend on which others are running.
proof fn lemma_step_under(pre: App, whole: App, left: Vec<PendingSave>, save: PendingSave, outcome: SaveOutcome, post: App)
    requires
        pre == (App { files: Files { saves: left, ..whole.files }, ..whole }),
        save_settled(pre, save, outcome, post),
    ensures
        post.files.saves == left,
        settled_under(whole, save, outcome, post),
{
    match outcome {
        SaveOutcome::Running => {
            lemma_running_under(pre, whole, left, save, post);
        },
        SaveOutcome::Done => {
            lemma_done_under(pre, whole, left, save, post);
        },
        SaveOutcome::Lost => {
            lemma_lost_under(pre, whole, left, save, post);
        },
        SaveOutcome::Failed => {
            lemma_failed_under(pre, whole, left, save, post);
        },
    }
}

impl App {
    /// Goes on with a replacement that waited.
    pub fn continue_project_replacement(&mut self, facts: DialogFacts, after: &Vec<Option<HoleOrientation>>) -> (r: Result<(), AppError>)
        requires
            old(self).files.replacement.pending matches Some(action) ==> room_for(*old(self), action),
        ensures
            replacement_continued(*old(self), facts, after@, r, *final(self)),
    {
        self.files.replacement.confirm_open = false;
        self.files.replacement.after_save = false;
        match self.files.replacement.pending.take() {
            Some(action) => {
                self.files.replacement.bypass = true;
                self.execute_file_dialog_action(action, facts, after)
            },
            None => Ok(()),
        }
    }

    fn look_at_close(&mut self, due: bool, at: Ghost<Settling>)
        requires
            at@.app == *old(self),
            at@.close == due,
        ensures
            close_looked_at(at@, *final(self)),
            final(self).jobs.next_ticket == old(self).jobs.next_ticket,
            final(self).workspace.next_runtime_id == old(self).workspace.next_runtime_id,
            final(self).files.replacement == old(self).files.replacement,
    {
        if due {
            self.finish_pending_project_actions();
            proof {
                match old(self).files.closing.project {
                    Some(id) => {
                        if *self != *old(self) {
                            lemma_close_keeps(*old(self), id, *self);
                        }
                    },
                    None => {},
                }
            }
        }
    }

    fn look_at_replacement(&mut self, due: bool, facts: DialogFacts, after: &Vec<Option<HoleOrientation>>)
        requires
            room_to_settle(*old(self)),
        ensures
            replacement_looked_at(*old(self), due, facts, after@, *final(self)),
            final(self).jobs.next_ticket < u64::MAX,
    {
        if due {
            let r = self.continue_project_replacement(facts, after);
            proof {
                assert(replacement_continued(*old(self), facts, after@, r, *self));
                match old(self).files.replacement.pending {
                    Some(action) => {
                        let asked = App {
                            files: Files {
                                replacement: Replacement { pending: None, bypass: true, after_save: false, confirm_open: false },
                                ..old(self).files
                            },
                            ..*old(self)
                        };
                        lemma_replacing_tickets(asked, action, facts, after@, r, *self);
                    },
                    None => {},
                }
            }
        }
    }

    /// Whether there is room for what waits for a write.
    pub fn has_room_to_settle(&self) -> (r: bool)
        ensures
            r == room_to_settle(*self),
    {
        let fits = match &self.files.replacement.pending {
            Some(FileDialogAction::NewProject) => true,
            Some(FileDialogAction::OpenProject(_)) => true,
            Some(FileDialogAction::SwitchProject(_)) => true,
            Some(FileDialogAction::WebNewProject(_)) => true,
            Some(FileDialogAction::WebOpenProject(_)) => true,
            Some(FileDialogAction::WebStoredProject(_)) => true,
            Some(_) => false,
            None => true,
        };
        self.jobs.next_ticket <= u64::MAX - 2 && self.workspace.next_runtime_id < u32::MAX && fits
    }

    /// Asks every write what became of it, and looks at what waited for it.
    /// `facts` is what a replacement that waited needs to know.
    pub fn poll_saves(&mut self, outcomes: &Vec<SaveOutcome>, facts: DialogFacts, after: &Vec<Option<HoleOrientation>>)
        requires
            room_to_settle(*old(self)),
        ensures
            saves_polled(*old(self), outcomes@, facts, after@, *final(self)),
    {
        let (close, replacement, asked) = self.ask_saves(outcomes);
        let ghost kept = self.files.saves;
        let ghost at = Settling { app: *self, ..asked@ };
        proof {
            lemma_saves_keep(*old(self), old(self).files.saves@, outcomes@, old(self).files.saves@.len() as int, asked@);
        }
        self.look_at_close(close, Ghost(at));
        let ghost closed = *self;
        self.look_at_replacement(replacement, facts, after);
        let ghost replaced = *self;
        self.try_finish_deferred_exit(after);
        proof {
            assert(close_looked_at(at, closed));
            assert(replacement_looked_at(closed, at.replacement, facts, after@, replaced));
            assert(settling_finished(at, facts, after@, *self));
            assert(at == (Settling { app: App { files: Files { saves: kept, ..asked@.app.files }, ..asked@.app }, ..asked@ }));
        }
    }
}

} // verus!
