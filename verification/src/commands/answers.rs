//! Dialogs that were answered.

use crate::commands::dialogs::{
    action_done, action_executed, browser_project_started, bypass_used, drawing_begun, drawing_downloaded, drawing_exported, export_settled, gate,
    good_files, lemma_export_keeps, loads_begun, renaming_write, room_for, saved_as, saved_as_begun, tickets_for, DialogFacts, Gate,
};
use crate::commands::exit::{deferred_exit_tried, exit_called_off};
use crate::commands::leaving::settled_for;
use crate::commands::plot::{sheet_written, PlotTarget};
use crate::commands::projects::{marked_saved, project_installed, untitled_started};
use crate::commands::saves::{lemma_settling_keeps, project_write_begun, snapshot_taken};
use crate::commands::closing::text_edit_index;
use crate::commands::saves::save_path_error;
use crate::error::AppError;
use crate::files::{Closing, DialogRequest, FileDialogAction, Files, PendingSaveKind, Snapshot};
use crate::items::HoleOrientation;
use crate::jobs::job_queued;
use crate::loads::{load_begun, LoadKind};
use crate::state::{App, History};
use crate::text::completed;
use crate::workspace::{index_of_runtime, OpenProject, Workspace};
use vstd::prelude::*;

verus! {

/// What became of a dialog.
pub enum DialogEvent {
    /// It is still being shown.
    Shown,
    /// It was closed without an answer.
    Cancelled,
    Answered { action: FileDialogAction, facts: DialogFacts },
}

/// The dialogs that are still being shown, in their order. `events` tells of
/// each dialog; one that nothing is told of is being shown.
pub open spec fn still_shown(dialogs: Seq<DialogRequest>, events: Seq<DialogEvent>) -> Seq<DialogRequest>
    decreases dialogs.len(),
{
    if dialogs.len() == 0 {
        Seq::empty()
    } else {
        let before = still_shown(dialogs.drop_last(), events);
        let n = dialogs.len() - 1;
        if n >= events.len() || events[n] is Shown {
            before.push(dialogs.last())
        } else {
            before
        }
    }
}

/// The number of dialogs that something is told of.
pub open spec fn told_of(dialogs: Seq<DialogRequest>, events: Seq<DialogEvent>) -> int {
    if events.len() < dialogs.len() {
        events.len() as int
    } else {
        dialogs.len() as int
    }
}

/// One of the dialogs was closed without an answer.
pub open spec fn any_cancelled(dialogs: Seq<DialogRequest>, events: Seq<DialogEvent>) -> bool {
    exists|i: int| 0 <= i < told_of(dialogs, events) && #[trigger] events[i] is Cancelled
}

/// An exit and a close that wait on a dialog are given up with it.
pub open spec fn waiting_given_up(pre: App) -> App {
    let stays = if pre.files.exit.after_saves {
        exit_called_off(pre)
    } else {
        pre
    };
    App { files: Files { closing: Closing { project: None, remove_after: false, ..stays.files.closing }, ..stays.files }, ..stays }
}

/// What an answered dialog does: a refusal also calls off an exit that waits.
pub open spec fn answer_taken(pre: App, event: DialogEvent, after: Seq<Option<HoleOrientation>>, post: App) -> bool {
    let drawn = App { frame: pre.frame.redraw(), ..pre };
    match event {
        DialogEvent::Shown => post == pre,
        DialogEvent::Cancelled => post == drawn,
        DialogEvent::Answered { action, facts } => exists|r: Result<(), AppError>, mid: App| #[trigger]
            action_executed(drawn, action, facts, after, r, mid) && post == (if r is Err && mid.files.exit.after_saves {
                exit_called_off(mid)
            } else {
                mid
            }),
    }
}

/// The first `n` dialogs were looked at, one after the other.
pub open spec fn answers_taken(pre: App, events: Seq<DialogEvent>, after: Seq<Option<HoleOrientation>>, n: int, post: App) -> bool
    decreases n,
{
    if n <= 0 {
        post == pre
    } else {
        exists|mid: App| answers_taken(pre, events, after, n - 1, mid) && #[trigger] answer_taken(mid, events[n - 1], after, post)
    }
}

/// The state once the dialogs that are over were taken off the list.
pub open spec fn dialogs_sorted(pre: App, events: Seq<DialogEvent>, post: App) -> bool {
    let closed = if any_cancelled(pre.files.dialogs@, events) {
        waiting_given_up(pre)
    } else {
        pre
    };
    &&& post == (App { files: Files { dialogs: post.files.dialogs, ..closed.files }, ..closed })
    &&& post.files.dialogs@ == still_shown(pre.files.dialogs@, events)
}

/// What asking every dialog does.
pub open spec fn dialogs_polled(pre: App, events: Seq<DialogEvent>, after: Seq<Option<HoleOrientation>>, post: App) -> bool {
    exists|sorted: App, done: App|
        {
            &&& #[trigger] dialogs_sorted(pre, events, sorted)
            &&& #[trigger] answers_taken(sorted, events, after, told_of(pre.files.dialogs@, events), done)
            &&& deferred_exit_tried(done, after, post)
        }
}

/// How many tickets the answers may take.
pub open spec fn tickets_for_all(events: Seq<DialogEvent>) -> int
    decreases events.len(),
{
    if events.len() == 0 {
        0
    } else {
        tickets_for_all(events.drop_first()) + match events[0] {
            DialogEvent::Answered { action, .. } => tickets_for(action),
            _ => 0,
        }
    }
}

proof fn lemma_tickets_not_negative(events: Seq<DialogEvent>)
    ensures
        tickets_for_all(events) >= 0,
    decreases events.len(),
{
    if events.len() > 0 {
        lemma_tickets_not_negative(events.drop_first());
    }
}

/// An action takes no more than so many tickets, and at most one runtime id.
pub open spec fn frugal(pre: App, n: int, post: App) -> bool {
    &&& post.jobs.next_ticket <= pre.jobs.next_ticket + n
    &&& post.workspace.next_runtime_id <= pre.workspace.next_runtime_id + 1
}

proof fn lemma_loads_frugal(pre: App, kind: LoadKind, paths: Seq<String>, limit: u32, n: int, post: App)
    requires
        loads_begun(pre, kind, paths, limit, n, post),
        0 <= n,
        pre.jobs.next_ticket + n <= u64::MAX,
    ensures
        post.jobs.next_ticket <= pre.jobs.next_ticket + n,
        post.workspace == pre.workspace,
    decreases n,
{
    if n > 0 {
        let mid = choose|mid: App|
            loads_begun(pre, kind, paths, limit, n - 1, mid) && #[trigger] load_begun(mid, kind, paths[n - 1]@, None, limit, post);
        lemma_loads_frugal(pre, kind, paths, limit, n - 1, mid);
        assert(load_begun(mid, kind, paths[n - 1]@, None, limit, post));
    }
}

proof fn lemma_good_files(facts: DialogFacts, n: int)
    requires
        0 <= n,
    ensures
        0 <= good_files(facts, n) <= n,
    decreases n,
{
    if n > 0 {
        lemma_good_files(facts, n - 1);
    }
}

proof fn lemma_installed_frugal(pre: App, project: OpenProject, post: App)
    requires
        project_installed(pre, project, post),
        pre.workspace.next_runtime_id < u32::MAX,
    ensures
        frugal(pre, 0, post),
{
    let id = pre.workspace.next_runtime_id;
    let mid = choose|mid: App| #[trigger]
        crate::commands::closing::project_data_cleared(pre, mid) && post == (App {
            workspace: Workspace { projects: post.workspace.projects, active_index: Some(0), next_runtime_id: (id + 1) as u32 },
            history: History { active: Some(id), ..mid.history },
            ..mid
        }) && post.workspace.projects@.len() == 1 && crate::snapshots::opened_under(project, id, post.workspace.projects@[0]);
    assert(crate::commands::closing::project_data_cleared(pre, mid));
}

proof fn lemma_untitled_frugal(pre: App, blank: OpenProject, post: App)
    requires
        untitled_started(pre, blank, post),
        pre.workspace.next_runtime_id < u32::MAX,
    ensures
        frugal(pre, 0, post),
{
    let (clean, mid) = choose|clean: OpenProject, mid: App|
        marked_saved(blank, clean) && #[trigger] project_installed(pre, clean, mid) && post == (App { frame: mid.frame.fit(), ..mid });
    lemma_installed_frugal(pre, clean, mid);
}

proof fn lemma_browser_project_frugal(pre: App, name: Seq<char>, facts: DialogFacts, r: Result<(), AppError>, post: App)
    requires
        browser_project_started(pre, name, facts, r, post),
        pre.workspace.next_runtime_id < u32::MAX,
    ensures
        frugal(pre, 0, post),
{
    if let Some(blank) = facts.blank {
        let (named, mid) = choose|named: OpenProject, mid: App|
            {
                &&& #[trigger] project_installed(pre, named, mid)
                &&& named == (OpenProject { name: named.name, ..blank })
                &&& named.name@ == crate::names::project_file_name(name)
                &&& post == (App { frame: mid.frame.fit(), ..mid })
            };
        lemma_installed_frugal(pre, named, mid);
    }
}

proof fn lemma_drawing_frugal(
    pre: App,
    id: u32,
    layer: Option<crate::ids::LayerId>,
    path: Seq<char>,
    after: Seq<Option<HoleOrientation>>,
    r: Result<(), AppError>,
    post: App,
)
    requires
        drawing_exported(pre, id, layer, path, after, r, post),
        pre.jobs.next_ticket < u64::MAX,
    ensures
        frugal(pre, 1, post),
{
    let mid = choose|mid: App| #[trigger] export_settled(pre, id, after, mid) && drawing_begun(mid, id, layer, path, r, post);
    lemma_export_keeps(pre, id, after, mid);
}

proof fn lemma_download_frugal(
    pre: App,
    id: u32,
    layer: Option<crate::ids::LayerId>,
    name: String,
    after: Seq<Option<HoleOrientation>>,
    r: Result<(), AppError>,
    post: App,
)
    requires
        drawing_downloaded(pre, id, layer, name, after, r, post),
        pre.jobs.next_ticket < u64::MAX,
    ensures
        frugal(pre, 1, post),
{
    let mid = choose|mid: App|
        {
            &&& #[trigger] export_settled(pre, id, after, mid)
            &&& if index_of_runtime(mid.workspace.projects@, id) >= mid.workspace.projects@.len() {
                r == Err::<(), AppError>(AppError::ProjectGone) && post == mid
            } else {
                &&& r == Ok::<(), AppError>(())
                &&& job_queued(
                    mid,
                    "Encoding DXF download…"@,
                    seq![crate::jobs::JobKey::Anonymous],
                    crate::jobs::Work::DownloadDxf { project_runtime_id: id, layer, file_name: name },
                    post,
                )
            }
        };
    lemma_export_keeps(pre, id, after, mid);
}

proof fn lemma_save_as_begun_frugal(
    pre: App,
    i: int,
    id: u32,
    path: Seq<char>,
    hash: u64,
    after: Seq<Option<HoleOrientation>>,
    r: Result<(), AppError>,
    post: App,
)
    requires
        saved_as_begun(pre, i, id, path, hash, after, r, post),
        pre.jobs.next_ticket < u64::MAX,
    ensures
        frugal(pre, 1, post),
{
    let (mid, s) = choose|mid: App, s: Result<Snapshot, AppError>| #[trigger]
        snapshot_taken(pre, after, s, mid) && match s {
            Err(e) => r == Err::<(), AppError>(e) && post == mid,
            Ok(snapshot) => {
                &&& r == Ok::<(), AppError>(())
                &&& exists|kind: PendingSaveKind, named: Snapshot| #[trigger]
                    project_write_begun(mid, kind, named, path, post) && renaming_write(
                        kind,
                        id,
                        pre.workspace.projects@[i],
                        hash,
                        crate::commands::saves::asset_token(mid.workspace),
                    ) && named == (Snapshot { name: named.name, ..snapshot }) && crate::commands::dialogs::name_from(path, named.name@)
            },
        };
    lemma_settling_keeps(pre, after, mid);
}

proof fn lemma_save_as_frugal(
    pre: App,
    id: u32,
    path: Seq<char>,
    facts: DialogFacts,
    after: Seq<Option<HoleOrientation>>,
    r: Result<(), AppError>,
    post: App,
)
    requires
        saved_as(pre, id, path, facts, after, r, post),
        pre.jobs.next_ticket < u64::MAX,
    ensures
        frugal(pre, 1, post),
{
    let i = index_of_runtime(pre.workspace.projects@, id);
    if !crate::commands::saves::revert_pending(pre.jobs, id) && i < pre.workspace.projects@.len() {
        let mid = choose|mid: App|
            {
                &&& #[trigger] settled_for(pre, i, after, mid)
                &&& if text_edit_index(mid) == Some(i) {
                    r == Err::<(), AppError>(AppError::TextEditPending) && post == mid
                } else {
                    match save_path_error(mid, i, path) {
                        Some(e) => r == Err::<(), AppError>(e) && post == mid,
                        None => saved_as_begun(mid, i, id, path, facts.renamed_hash, after, r, post),
                    }
                }
            };
        if pre.workspace.active_index matches Some(a) && a == i {
            lemma_settling_keeps(pre, after, mid);
        }
        if text_edit_index(mid) != Some(i) && save_path_error(mid, i, path) is None {
            lemma_save_as_begun_frugal(mid, i, id, path, facts.renamed_hash, after, r, post);
        }
    }
}

proof fn lemma_sheet_frugal(pre: App, path: Seq<char>, facts: crate::commands::plot::PlotFacts, r: Result<(), AppError>, post: App)
    requires
        exists|p: String| completed(path, "png"@, p@) && #[trigger] sheet_written(pre, PlotTarget::File(p), facts, r, post),
        pre.jobs.next_ticket < u64::MAX,
    ensures
        frugal(pre, 1, post),
{
    let p = choose|p: String| completed(path, "png"@, p@) && #[trigger] sheet_written(pre, PlotTarget::File(p), facts, r, post);
    assert(sheet_written(pre, PlotTarget::File(p), facts, r, post));
}

/// What an action does takes no more than its tickets.
proof fn lemma_done_frugal(pre: App, action: FileDialogAction, facts: DialogFacts, after: Seq<Option<HoleOrientation>>, r: Result<(), AppError>, post: App)
    requires
        action_done(pre, action, facts, after, r, post),
        room_for(pre, action),
    ensures
        frugal(pre, tickets_for(action), post),
{
    match action {
        FileDialogAction::NewProject => {
            if let Some(blank) = facts.blank {
                lemma_untitled_frugal(pre, blank, post);
            }
        },
        FileDialogAction::WebNewProject(name) => {
            lemma_browser_project_frugal(pre, name@, facts, r, post);
        },
        FileDialogAction::ImportTriangulation(paths) => {
            lemma_loads_frugal(pre, LoadKind::Triangulation, paths@, 0, paths@.len() as int, post);
        },
        FileDialogAction::ImportPointCloud(paths) => {
            lemma_good_files(facts, paths@.len() as int);
            lemma_loads_frugal(pre, LoadKind::PointCloud, paths@, 0, good_files(facts, paths@.len() as int), post);
        },
        FileDialogAction::ImportRaster(paths) => {
            lemma_good_files(facts, paths@.len() as int);
            lemma_loads_frugal(
                pre,
                LoadKind::Raster,
                paths@,
                crate::loads::preview_limit(pre.view.applied.frames.downscale_raster_previews, pre.loads.hardware_limit),
                good_files(facts, paths@.len() as int),
                post,
            );
        },
        FileDialogAction::ExportLayerDxf { project_runtime_id, layer, path } => {
            lemma_drawing_frugal(pre, project_runtime_id, Some(layer), path@, after, r, post);
        },
        FileDialogAction::ExportProjectDxf { project_runtime_id, path } => {
            lemma_drawing_frugal(pre, project_runtime_id, None, path@, after, r, post);
        },
        FileDialogAction::SaveProjectAs { project_runtime_id, path } => {
            lemma_save_as_frugal(pre, project_runtime_id, path@, facts, after, r, post);
        },
        FileDialogAction::ExportPlotSheet(path) => {
            lemma_sheet_frugal(pre, path@, facts.plot, r, post);
        },
        FileDialogAction::WebDownloadDxf { project_runtime_id, layer, file_name } => {
            lemma_download_frugal(pre, project_runtime_id, layer, file_name, after, r, post);
        },
        _ => {},
    }
}

proof fn lemma_executed_frugal(
    pre: App,
    action: FileDialogAction,
    facts: DialogFacts,
    after: Seq<Option<HoleOrientation>>,
    r: Result<(), AppError>,
    post: App,
)
    requires
        action_executed(pre, action, facts, after, r, post),
        room_for(pre, action),
    ensures
        frugal(pre, tickets_for(action), post),
{
    match gate(pre, action) {
        Gate::Open => {
            lemma_done_frugal(bypass_used(pre), action, facts, after, r, post);
        },
        _ => {},
    }
}

impl App {
    fn take_answer(&mut self, event: DialogEvent, after: &Vec<Option<HoleOrientation>>)
        requires
            event matches DialogEvent::Answered { action, .. } ==> room_for(*old(self), action),
        ensures
            answer_taken(*old(self), event, after@, *final(self)),
            frugal(
                *old(self),
                match event {
                    DialogEvent::Answered { action, .. } => tickets_for(action),
                    _ => 0,
                },
                *final(self),
            ),
    {
        match event {
            DialogEvent::Shown => {},
            DialogEvent::Cancelled => {
                self.frame.redraw_requested = true;
            },
            DialogEvent::Answered { action, facts } => {
                self.frame.redraw_requested = true;
                let ghost drawn = *self;
                let r = self.execute_file_dialog_action(action, facts, after);
                let ghost mid = *self;
                proof {
                    assert(action_executed(drawn, action, facts, after@, r, mid));
                    lemma_executed_frugal(drawn, action, facts, after@, r, mid);
                }
                if r.is_err() && self.files.exit.after_saves {
                    self.cancel_exit_request();
                }
            },
        }
    }

    /// Takes the dialogs that are over off the list.
    fn sort_dialogs(&mut self, events: &Vec<DialogEvent>)
        ensures
            dialogs_sorted(*old(self), events@, *final(self)),
    {
        let ghost all = self.files.dialogs@;
        let mut kept: Vec<DialogRequest> = Vec::new();
        let mut cancelled = false;
        let mut i: usize = 0;
        let n: usize = self.files.dialogs.len();
        proof {
            assert(all.skip(0) =~= all);
            assert(all.take(0) =~= Seq::<DialogRequest>::empty());
        }
        while self.files.dialogs.len() > 0
            invariant
                all == old(self).files.dialogs@,
                n == all.len(),
                i <= n,
                self.files.dialogs@ == all.skip(i as int),
                kept@ == still_shown(all.take(i as int), events@),
                cancelled == (exists|j: int| 0 <= j < i && j < events@.len() && #[trigger] events@[j] is Cancelled),
                *self == (App { files: Files { dialogs: self.files.dialogs, ..old(self).files }, ..*old(self) }),
            decreases self.files.dialogs.len(),
        {
            let dialog = self.files.dialogs.remove(0);
            proof {
                assert(dialog == all[i as int]);
                assert(all.take(i + 1).drop_last() =~= all.take(i as int));
                assert(self.files.dialogs@ =~= all.skip(i + 1));
            }
            if i < events.len() {
                match &events[i] {
                    DialogEvent::Shown => {
                        kept.push(dialog);
                    },
                    DialogEvent::Cancelled => {
                        cancelled = true;
                    },
                    DialogEvent::Answered { .. } => {},
                }
            } else {
                kept.push(dialog);
            }
            i += 1;
        }
        assert(all.take(all.len() as int) =~= all);
        self.files.dialogs = kept;
        if cancelled {
            assert(any_cancelled(all, events@));
            if self.files.exit.after_saves {
                self.cancel_exit_request();
            }
            self.cancel_close_project();
        }
    }

    /// Asks every dialog what became of it, and carries the answers out.
    pub fn poll_file_dialogs(&mut self, events: Vec<DialogEvent>, after: &Vec<Option<HoleOrientation>>)
        requires
            old(self).jobs.next_ticket + tickets_for_all(events@) < u64::MAX,
            old(self).workspace.next_runtime_id + events@.len() <= u32::MAX,
        ensures
            dialogs_polled(*old(self), events@, after@, *final(self)),
    {
        let n: usize = self.files.dialogs.len();
        self.sort_dialogs(&events);
        let ghost sorted = *self;
        let ghost all = events@;
        let ghost wanted = told_of(old(self).files.dialogs@, all);
        let mut left = events;
        let mut i: usize = 0;
        proof {
            assert(all.skip(0) =~= all);
            lemma_tickets_not_negative(all);
        }
        while i < n && left.len() > 0
            invariant
                i <= n,
                i <= all.len(),
                n == old(self).files.dialogs@.len(),
                left@ == all.skip(i as int),
                answers_taken(sorted, all, after@, i as int, *self),
                self.jobs.next_ticket + tickets_for_all(left@) < u64::MAX,
                self.workspace.next_runtime_id + left@.len() <= u32::MAX,
            decreases left.len(),
        {
            let ghost mid = *self;
            let ghost before = left@;
            let event = left.remove(0);
            proof {
                assert(event == all[i as int]);
                assert(left@ =~= all.skip(i + 1));
                assert(left@ =~= before.drop_first());
                lemma_tickets_not_negative(left@);
            }
            self.take_answer(event, after);
            proof {
                assert(answer_taken(mid, all[i + 1 - 1], after@, *self));
            }
            i += 1;
        }
        let ghost done = *self;
        assert(i == wanted);
        proof {
            lemma_tickets_not_negative(left@);
        }
        self.try_finish_deferred_exit(after);
        assert(dialogs_sorted(*old(self), all, sorted));
        assert(answers_taken(sorted, all, after@, wanted, done));
    }
}

} // verus!
