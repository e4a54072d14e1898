//! What storing a project writes, and what becomes of it afterwards.

use crate::commands::finished::{archived_history_applied, layers_back, step_due};
use crate::commands::leaving::{native_saved, project_saved, save_as_asked, stored, stored_under};
use crate::commands::outcomes::{
    close_waits, path_known, project_stored, save_settled, still_writing, wakes_close, wakes_replacement, written_index, SaveOutcome,
};
use crate::commands::saves::asset_token;
use crate::error::AppError;
use crate::files::{path_written, save_pending, PendingSave, PendingSaveKind, Request, Snapshot};
use crate::ids::{ItemRef, LayerId};
use crate::items::HoleOrientation;
use crate::jobs::EndedTask;
use crate::state::{App, Platform};
use crate::text::{file_part, known_path, stem_of, text_of};
use crate::workspace::{index_of_runtime, LayerHash, OpenProject, ProjectId, ProjectPersistence, Workspace};
use vstd::prelude::*;

verus! {

/// A project that has a path and is not being written is written there: its
/// contents and layers as they are, noted by their hashes.
pub proof fn law_saving_writes_the_project(pre: App, i: int, id: u32, after: Seq<Option<HoleOrientation>>, r: Result<(), AppError>, post: App)
    requires
        native_saved(pre, i, id, after, r, post),
        pre.workspace.projects@[i].path is Some,
        !save_pending(pre.files.saves@, id),
        !path_written(pre.files.saves@, pre.workspace.projects@[i].path->0@),
        r is Ok,
    ensures
        ({
            let p = pre.workspace.projects@[i];
            &&& post.files.saves@.last().path@ == p.path->0@
            &&& post.files.saves@.last().kind matches PendingSaveKind::Project {
                runtime_id,
                snapshot_hash,
                content_before,
                snapshot_layer_hashes,
                asset_token: token,
                close_after,
                save_as_previous_name,
            } && runtime_id == id && snapshot_hash == p.content_hash && content_before == p.content_hash && snapshot_layer_hashes@ == p.layer_hashes@
                && !close_after && save_as_previous_name is None
            &&& post.files.requests@.last() matches Request::WriteProject { ticket, snapshot, path } && path@ == p.path->0@ && ticket
                == post.files.saves@.last().ticket
        }),
{
}

/// Saving a project on a machine of its own writes it to its path; one that is
/// being read again, that is gone, or whose loss was not agreed to is not
/// written.
pub proof fn law_saving_a_project(pre: App, id: u32, after: Seq<Option<HoleOrientation>>, r: Result<(), AppError>, post: App, i: int, p: OpenProject)
    requires
        project_saved(pre, id, after, r, post),
        i == index_of_runtime(pre.workspace.projects@, id),
        0 <= i < pre.workspace.projects@.len(),
        p == pre.workspace.projects@[i],
        pre.workspace.active_index matches Some(a) ==> a != i,
        pre.platform == Platform::Native,
        !(p.lossy_save_warnings@.len() > 0 && !p.lossy_save_confirmed),
    ensures
        crate::commands::saves::revert_pending(pre.jobs, id) ==> r == Err::<(), AppError>(AppError::RevertPending) && post == pre,
        !crate::commands::saves::revert_pending(pre.jobs, id) && crate::commands::closing::text_edit_index(pre) == Some(i) ==> r == Err::<(), AppError>(
            AppError::TextEditPending,
        ) && post == pre,
        !crate::commands::saves::revert_pending(pre.jobs, id) && crate::commands::closing::text_edit_index(pre) != Some(i) ==> native_saved(
            pre,
            i,
            id,
            after,
            r,
            post,
        ),
{
}

/// A project without a path is not written: a dialog asks for one.
pub proof fn law_saving_asks_for_a_path(pre: App, i: int, id: u32, after: Seq<Option<HoleOrientation>>, r: Result<(), AppError>, post: App)
    requires
        native_saved(pre, i, id, after, r, post),
        pre.workspace.projects@[i].path is None,
    ensures
        r is Ok,
        save_as_asked(pre, id, after, post),
        post.files.saves == pre.files.saves && post.files.requests == pre.files.requests,
{
    if !(crate::commands::saves::revert_pending(pre.jobs, id) || save_pending(pre.files.saves@, id)) {
        let mid = choose|mid: App|
            {
                &&& #[trigger] crate::commands::leaving::committed_for(pre, id, after, mid)
                &&& if index_of_runtime(mid.workspace.projects@, id) < mid.workspace.projects@.len() {
                    post == (App { files: post.files, ..mid }) && crate::commands::leaving::save_as_dialog(mid.files, id, post.files)
                } else {
                    post == mid
                }
            };
        if crate::drawing::move_tool::active_runtime(pre.workspace) == Some(id) {
            crate::commands::saves::lemma_committing_keeps(pre, after, mid);
        }
    }
}

/// In the browser a project is stored under its own record, or under a fresh
/// one where it has none, once at a time.
pub proof fn law_storing_in_the_browser(pre: App, id: u32, own: ProjectId, snapshot: Snapshot, r: Result<(), AppError>, post: App, p: OpenProject)
    requires
        stored(pre, id, own, snapshot, r, post),
        stored_under(p, own),
    ensures
        r is Ok <==> pre.files.browser.loop_ready,
        r is Err ==> post == pre,
        r is Ok ==> post.files.browser.saves@.contains(id) && post.files.requests@.last() == (Request::SaveStoredProject {
            runtime_id: id,
            project_id: own,
            snapshot,
        }),
        p.persistence matches ProjectPersistence::BrowserRecord(x) ==> own == x,
        !(p.persistence is BrowserRecord) ==> crate::fresh::random_uuid(own.0),
{
}

/// A project that was written is stored as it stood when the write began. One
/// that was written elsewhere has the path and the name of where it is now,
/// and the contents that it has under that name.
pub proof fn law_written_project(
    pre: OpenProject,
    path: Seq<char>,
    hash: u64,
    before: u64,
    layer_hashes: Seq<LayerHash>,
    token: u64,
    moved: bool,
    post: OpenProject,
)
    requires
        project_stored(pre, path, hash, before, layer_hashes, token, moved, post),
    ensures
        post.saved_hash == Some(hash) && post.saved_layer_hashes@ == layer_hashes && post.saved_asset_revision == token,
        moved ==> text_of(post.path) == Some(path) && (known_path(path) ==> post.name@ == stem_of(file_part(path))),
        !moved ==> post.path == pre.path && post.name == pre.name && post.content_hash == pre.content_hash,
        moved && pre.content_hash == before ==> post.content_hash == hash,
        pre.content_hash != before ==> post.content_hash == pre.content_hash,
        post.lossy_save_warnings@.len() == 0 && !post.lossy_save_confirmed,
        post.document == pre.document && post.runtime_id == pre.runtime_id && post.asset_revision == pre.asset_revision && post.loaded_layers
            == pre.loaded_layers,
{
}

/// A write that is over is reported as ended; one that is running changes
/// nothing. Only one that was done stores anything.
pub proof fn law_writes_end(pre: App, save: PendingSave, outcome: SaveOutcome, post: App)
    requires
        save_settled(pre, save, outcome, post),
    ensures
        outcome == SaveOutcome::Running ==> post == pre,
        outcome != SaveOutcome::Running ==> post.jobs.ended@.last() == (EndedTask { ticket: save.ticket, topology: false }),
        outcome == SaveOutcome::Lost ==> post.workspace == pre.workspace,
        outcome == SaveOutcome::Lost || outcome == SaveOutcome::Failed ==> !post.files.exit.after_saves,
        post.items == pre.items,
{
    if outcome == SaveOutcome::Done {
        let ended = App { jobs: post.jobs, frame: pre.frame.redraw(), ..pre };
        assert(crate::commands::outcomes::write_done(ended, save, post));
    }
}

/// A write that failed lets a close or a replacement that waited for it be
/// asked about again.
pub proof fn law_failed_writes(pre: App, save: PendingSave, post: App, i: int)
    requires
        save_settled(pre, save, SaveOutcome::Failed, post),
        written_index(pre.workspace, save) == Some(i),
        0 <= i < pre.workspace.projects@.len(),
    ensures
        pre.workspace.projects@[i].lossy_save_warnings@.len() > 0 ==> post.files.lossy.confirm_open && !post.workspace.projects@[i].lossy_save_confirmed,
        pre.workspace.projects@[i].lossy_save_warnings@.len() == 0 ==> post.workspace == pre.workspace,
        post.workspace.projects@[i].saved_hash == pre.workspace.projects@[i].saved_hash && post.workspace.projects@[i].document
            == pre.workspace.projects@[i].document,
        close_waits(pre, save) ==> post.files.closing.project == crate::files::closed_after(save),
        pre.files.replacement.after_save && crate::commands::outcomes::writes_active(pre.workspace, save) ==> post.files.replacement.confirm_open
            && !post.files.replacement.after_save,
{
}

/// The project that a write is of is the one of the id that was noted.
pub proof fn law_written_projects_are_found(w: Workspace, save: PendingSave)
    ensures
        written_index(w, save) matches Some(i) ==> 0 <= i < w.projects@.len() && save.kind is Project && w.projects@[i].runtime_id
            == save.kind->Project_runtime_id,
        !(save.kind is Project) ==> written_index(w, save) is None,
{
    if save.kind is Project {
        let id = save.kind->Project_runtime_id;
        crate::search::lemma_first_index(w.projects@, |p: OpenProject| p.runtime_id == id);
    }
}

/// Closing goes on once a project was written, or where a write that it waits
/// for failed; replacing goes on only once the active project was written.
pub proof fn law_what_goes_on_after_a_write(pre: App, save: PendingSave, outcome: SaveOutcome)
    ensures
        outcome == SaveOutcome::Running ==> !wakes_close(pre, save, outcome) && !wakes_replacement(pre, save, outcome),
        outcome == SaveOutcome::Done && written_index(pre.workspace, save) is Some ==> wakes_close(pre, save, outcome),
        wakes_replacement(pre, save, outcome) ==> outcome == SaveOutcome::Done && pre.files.replacement.after_save && (pre.workspace.active() matches Some(p)
            && save.kind is Project && p.runtime_id == save.kind->Project_runtime_id),
{
}

/// Writes that are running stay noted, in their order, and the others do not.
pub proof fn law_running_writes_stay(saves: Seq<PendingSave>, outcomes: Seq<SaveOutcome>, save: PendingSave)
    requires
        saves.len() < outcomes.len(),
    ensures
        still_writing(Seq::empty(), outcomes).len() == 0,
        still_writing(saves.push(save), outcomes) == if outcomes[saves.len() as int] == SaveOutcome::Running {
            still_writing(saves, outcomes).push(save)
        } else {
            still_writing(saves, outcomes)
        },
{
    assert(saves.push(save).drop_last() =~= saves);
}

/// A path becomes known once.
pub proof fn law_known_paths(pre: Seq<String>, path: Seq<char>, post: Seq<String>)
    requires
        path_known(pre, path, post),
    ensures
        exists|i: int| 0 <= i < post.len() && (#[trigger] post[i])@ == path,
        post.len() == pre.len() || post.len() == pre.len() + 1,
        forall|i: int| 0 <= i < pre.len() ==> #[trigger] post[i] == pre[i],
        (exists|i: int| 0 <= i < pre.len() && (#[trigger] pre[i])@ == path) ==> post == pre,
{
    if crate::files::holds_text(pre, path) {
        let i = choose|i: int| 0 <= i < pre.len() && (#[trigger] pre[i])@ == path;
        assert(post[i]@ == path);
    } else {
        assert(post[post.len() - 1]@ == path);
        assert forall|i: int| 0 <= i < pre.len() implies #[trigger] post[i] == pre[i] by {
            assert(post.drop_last()[i] == post[i]);
        }
    }
}

/// Layers that were brought back are in memory; the others stay as they are.
pub proof fn law_layers_are_back(pre: Workspace, layers: Seq<LayerId>, post: Workspace, p: OpenProject, x: LayerId)
    requires
        layers_back(pre, layers, post),
        pre.active() == Some(p),
    ensures
        post.active() matches Some(q) && (q.deferred_layers@.contains(x) <==> p.deferred_layers@.contains(x) && !layers.contains(x)) && q.document == p.document
            && q.revision == p.revision,
{
}

/// A step of the history is due where its project is the active one, nothing
/// was archived since, and it could be read.
pub proof fn law_due_steps(app: App, undo: bool, runtime_id: u32, revision: u64, read: bool)
    ensures
        step_due(app, undo, runtime_id, revision, read) == (if (app.workspace.active() matches Some(p) && p.runtime_id == runtime_id) && app.history.archive_revision
            == revision && read {
            Some(undo)
        } else {
            None
        }),
{
}

/// An archived history counts where its project is the active one and nothing
/// was archived since; one that could not be written keeps what it was of.
pub proof fn law_archived_history(
    pre: App,
    runtime_id: u32,
    revision: u64,
    written: bool,
    layers: Seq<LayerId>,
    items: Seq<ItemRef>,
    requests: Seq<u64>,
    r: bool,
    post: App,
)
    requires
        archived_history_applied(pre, runtime_id, revision, written, layers, items, requests, r, post),
    ensures
        r <==> (pre.workspace.active() matches Some(p) && p.runtime_id == runtime_id) && pre.history.archive_revision == revision && written,
        r ==> post == pre,
        !(pre.workspace.active() matches Some(p) && p.runtime_id == runtime_id) ==> post == pre,
{
}

/// Storing a project that would lose something asks first, and is no error.
pub proof fn law_losses_are_no_error(pre: App, id: u32, after: Seq<Option<HoleOrientation>>, r: Result<(), AppError>, post: App, i: int)
    requires
        project_saved(pre, id, after, r, post),
        i == index_of_runtime(pre.workspace.projects@, id),
        0 <= i < pre.workspace.projects@.len(),
        pre.workspace.projects@[i].lossy_save_warnings@.len() > 0 && !pre.workspace.projects@[i].lossy_save_confirmed,
        !crate::commands::saves::revert_pending(pre.jobs, id),
    ensures
        r is Ok && post.files.lossy.confirm_open && post.files.lossy.pending is None && post.frame.redraw_requested,
        post.workspace == pre.workspace && post.jobs == pre.jobs && post.files.saves == pre.files.saves,
{
}

} // verus!
