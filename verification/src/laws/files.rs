//! Project files: what is read from them and written to them, and how
//! projects are closed and the program is left.

use crate::commands::closing::{
    close_deferred, closed_at, delete_started, needs_first_save, other_closed, paths_without, project_closed, text_edit_index,
};
use crate::commands::exit::{
    close_requested, deferred_exit_tried, exit_called_off, exit_requested, gone, left_without_saving, save_in_flight, unsaved,
};
use crate::commands::omf::{described, items_stored, loaded_as_before, project_merged, revision_set, target_empty, ImportBundle};
use crate::commands::saves::{project_write_begun, save_path_error, snapshot_of, text_edit_open, without_lower_omf};
use crate::document::Document;
use crate::error::AppError;
use crate::files::{path_written, save_pending, writes_project, Files, PendingSave, PendingSaveKind, Request, Snapshot};
use crate::ids::{LayerId, SceneEntityId};
use crate::items::Items;
use crate::search::{first_index, lemma_first_index};
use crate::state::{App, Platform};
use crate::text::{text_of, trimmed};
use crate::workspace::{index_of_object, index_of_runtime, local_id, OpenProject, ProjectId, Workspace};
use vstd::prelude::*;

verus! {

/// Writing a project notes what is written, where, and under which ticket, and
/// asks for it to be written.
pub proof fn law_writing_a_project(pre: App, kind: PendingSaveKind, snapshot: Snapshot, path: Seq<char>, post: App)
    requires
        project_write_begun(pre, kind, snapshot, path, post),
    ensures
        post.files.saves@.len() == pre.files.saves@.len() + 1,
        post.files.saves@.last().ticket == pre.jobs.next_ticket && post.files.saves@.last().kind == kind && post.files.saves@.last().path@ == path,
        post.files.requests@.len() == pre.files.requests@.len() + 1,
        post.files.requests@.last() matches Request::WriteProject { ticket, snapshot: s, path: p } && ticket == pre.jobs.next_ticket && s == snapshot && p@
            == path,
        post.jobs.tasks@.len() == pre.jobs.tasks@.len() + 1 && post.jobs.tasks@.last().ticket == pre.jobs.next_ticket,
        path_written(post.files.saves@, path),
        post.workspace == pre.workspace && post.items == pre.items,
{
    assert(post.files.saves@[post.files.saves@.len() - 1].path@ == path);
}

/// A project is being written as long as a write of it is noted.
pub proof fn law_when_a_project_is_written(saves: Seq<PendingSave>, id: u32)
    ensures
        save_pending(saves, id) <==> exists|i: int|
            0 <= i < saves.len() && ((#[trigger] saves[i]).kind is Project && saves[i].kind->Project_runtime_id == id),
{
    if save_pending(saves, id) {
        let i = choose|i: int| 0 <= i < saves.len() && writes_project(#[trigger] saves[i], id);
        assert(saves[i].kind is Project);
    }
    if exists|i: int| 0 <= i < saves.len() && ((#[trigger] saves[i]).kind is Project && saves[i].kind->Project_runtime_id == id) {
        let i = choose|i: int| 0 <= i < saves.len() && ((#[trigger] saves[i]).kind is Project && saves[i].kind->Project_runtime_id == id);
        assert(writes_project(saves[i], id));
    }
}

/// A path can be written where the project is not being written, nothing is
/// read from or written to the path, and no other project has it.
pub proof fn law_which_paths_can_be_written(app: App, i: int, path: Seq<char>)
    requires
        0 <= i < app.workspace.projects@.len(),
    ensures
        ({
            let projects = app.workspace.projects@;
            let writing = save_pending(app.files.saves@, projects[i].runtime_id);
            let busy = (exists|k: int| 0 <= k < app.files.saves@.len() && (#[trigger] app.files.saves@[k]).path@ == path) || (exists|k: int|
                0 <= k < app.files.open_paths@.len() && (#[trigger] app.files.open_paths@[k])@ == path);
            let used = exists|j: int| 0 <= j < projects.len() && j != i && text_of((#[trigger] projects[j]).path) == Some(path);
            &&& save_path_error(app, i, path) is None <==> !writing && !busy && !used
            &&& writing ==> save_path_error(app, i, path) == Some(AppError::SavePending)
            &&& !writing && busy ==> save_path_error(app, i, path) == Some(AppError::PathBusy)
            &&& !writing && !busy && used ==> save_path_error(app, i, path) == Some(AppError::PathInUse)
        }),
{
    let projects = app.workspace.projects@;
    if exists|j: int| 0 <= j < projects.len() && #[trigger] crate::commands::saves::uses_path(projects, j, i, path) {
        let j = choose|j: int| 0 <= j < projects.len() && #[trigger] crate::commands::saves::uses_path(projects, j, i, path);
        assert(text_of(projects[j].path) == Some(path));
    }
    if exists|j: int| 0 <= j < projects.len() && j != i && text_of((#[trigger] projects[j]).path) == Some(path) {
        let j = choose|j: int| 0 <= j < projects.len() && j != i && text_of((#[trigger] projects[j]).path) == Some(path);
        assert(crate::commands::saves::uses_path(projects, j, i, path));
    }
}

/// A snapshot is taken of the active project, under its name, unless a text is
/// being edited or there is nothing.
pub proof fn law_snapshots_of_a_project(app: App, r: Result<Snapshot, AppError>, p: OpenProject)
    requires
        snapshot_of(app, r),
        app.workspace.active() == Some(p),
    ensures
        r is Ok <==> !text_edit_open(app),
        r matches Ok(s) ==> s.runtime_id == Some(p.runtime_id) && (trimmed(without_lower_omf(p.name@)).len() > 0 ==> s.name@ == without_lower_omf(p.name@)),
        r is Err ==> r == Err::<Snapshot, AppError>(AppError::TextEditPending),
{
}

/// A name is written without the ending of a project file, however often it
/// has it, and otherwise as it is.
pub proof fn law_names_without_their_ending(s: Seq<char>)
    ensures
        without_lower_omf(s + seq!['.', 'o', 'm', 'f']) == without_lower_omf(s),
        ({
            let r = without_lower_omf(s);
            let n = r.len() as int;
            &&& !(n >= 4 && r[n - 4] == '.' && r[n - 3] == 'o' && r[n - 2] == 'm' && r[n - 1] == 'f')
            &&& n <= s.len() && r == s.take(n)
        }),
        !(s.len() >= 4 && s[s.len() - 4] == '.' && s[s.len() - 3] == 'o' && s[s.len() - 2] == 'm' && s[s.len() - 1] == 'f') ==> without_lower_omf(s) == s,
    decreases s.len(),
{
    let longer = s + seq!['.', 'o', 'm', 'f'];
    assert(longer.take(longer.len() - 4) =~= s);
    let n = s.len();
    if n >= 4 && s[n - 4] == '.' && s[n - 3] == 'o' && s[n - 2] == 'm' && s[n - 1] == 'f' {
        let front = s.take(n - 4);
        law_names_without_their_ending(front);
        let r = without_lower_omf(s);
        assert(r == without_lower_omf(front));
        assert(r =~= s.take(r.len() as int));
    } else {
        assert(s.take(s.len() as int) =~= s);
    }
}

/// Asking to leave leaves where nothing is unsaved and nothing is written, asks
/// where something is unsaved, and waits where something is written.
pub proof fn law_asking_to_leave(pre: App)
    ensures
        ({
            let post = exit_requested(pre);
            &&& unsaved(pre) ==> post.files.exit.confirm_open && post.files.exit.close_requested == pre.files.exit.close_requested
                && !post.files.exit.after_saves
            &&& !unsaved(pre) && pre.files.saves@.len() > 0 ==> post.files.exit.after_saves && post.files.exit.close_requested
                == pre.files.exit.close_requested
            &&& !unsaved(pre) && pre.files.saves@.len() == 0 ==> post.files.exit.close_requested && !post.files.exit.after_saves
            &&& post.workspace == pre.workspace && post.items == pre.items && post.files.saves == pre.files.saves
        }),
{
}

/// Something is unsaved where a text is being edited or the active project has
/// changes.
pub proof fn law_what_is_unsaved(app: App, p: OpenProject)
    requires
        app.workspace.active() == Some(p),
        forall|j: int, k: int| 0 <= j < k < app.workspace.projects@.len() ==> (#[trigger] app.workspace.projects@[j]).runtime_id != (
        #[trigger] app.workspace.projects@[k]).runtime_id,
    ensures
        unsaved(app) <==> app.files.text.enabled || p.saved_hash != Some(p.content_hash) || p.asset_revision != p.saved_asset_revision,
{
    let id = p.runtime_id;
    let i = app.workspace.active_index->0 as int;
    crate::search::lemma_is_first_index(app.workspace.projects@, |p: OpenProject| p.runtime_id == id, i);
}

/// Leaving without saving leaves at once, or once what is being written is.
pub proof fn law_leaving_without_saving(pre: App)
    ensures
        pre.files.saves@.len() == 0 ==> left_without_saving(pre).files.exit.close_requested,
        pre.files.saves@.len() > 0 ==> left_without_saving(pre).files.exit.close_requested == pre.files.exit.close_requested && left_without_saving(
            pre,
        ).files.exit.after_saves && left_without_saving(pre).files.exit.discard_changes,
        !left_without_saving(pre).files.exit.confirm_open,
        left_without_saving(pre).workspace == pre.workspace && left_without_saving(pre).files.saves == pre.files.saves,
        gone(pre).files.exit.close_requested && !gone(pre).files.exit.confirm_open && !gone(pre).files.exit.after_saves,
        !exit_called_off(pre).files.exit.after_saves && !exit_called_off(pre).files.exit.confirm_open && exit_called_off(pre).files.exit.close_requested
            == pre.files.exit.close_requested,
{
}

/// A deferred exit waits for dialogs, writes and questions.
pub proof fn law_deferred_exit_waits(pre: App, after: Seq<Option<crate::items::HoleOrientation>>, post: App)
    requires
        deferred_exit_tried(pre, after, post),
    ensures
        !pre.files.exit.after_saves || pre.files.dialogs@.len() > 0 || pre.files.saves@.len() > 0 || pre.files.lossy.confirm_open ==> post == pre,
        pre.files.exit.after_saves && pre.files.dialogs@.len() == 0 && !save_in_flight(pre) && !pre.files.lossy.confirm_open && pre.files.exit.discard_changes
            ==> post.files.exit.close_requested && post.workspace == pre.workspace,
{
}

/// Closing a project that is being written waits for that; one with changes is
/// asked about; any other is closed.
pub proof fn law_closing_a_project_asks(pre: App, id: u32, post: App, i: int)
    requires
        close_requested(pre, id, post),
        i == index_of_runtime(pre.workspace.projects@, id),
        0 <= i < pre.workspace.projects@.len(),
        pre.platform == Platform::Native,
    ensures
        save_pending(pre.files.saves@, id) ==> post.workspace == pre.workspace && post.files.closing.project is None,
        !save_pending(pre.files.saves@, id) && pre.workspace.projects@[i].dirty() ==> post.files.closing.project == Some(id) && post.workspace == pre.workspace
            && post.items == pre.items,
        !save_pending(pre.files.saves@, id) && !pre.workspace.projects@[i].dirty() && text_edit_index(pre) != Some(i) ==> project_closed(pre, id, post),
{
}

/// Closing a project waits for its write: the write is noted to close it and
/// is otherwise the same.
pub proof fn law_close_waits_for_the_write(pre: Files, id: u32, post: Files, k: int)
    requires
        close_deferred(pre, id, post),
        0 <= k < pre.saves@.len(),
    ensures
        post.saves@.len() == pre.saves@.len(),
        post.saves@[k].ticket == pre.saves@[k].ticket && post.saves@[k].path == pre.saves@[k].path,
        !writes_project(pre.saves@[k], id) ==> post.saves@[k] == pre.saves@[k],
        save_pending(pre.saves@, id) ==> exists|j: int|
            0 <= j < post.saves@.len() && (#[trigger] post.saves@[j]).kind is Project && post.saves@[j].kind->Project_runtime_id == id
                && post.saves@[j].kind->Project_close_after,
        save_pending(pre.saves@, id) ==> post.closing.project is None,
{
    let f = |s: PendingSave| writes_project(s, id);
    lemma_first_index(pre.saves@, f);
    let i = first_index(pre.saves@, f);
    if save_pending(pre.saves@, id) {
        let j = choose|j: int| 0 <= j < pre.saves@.len() && writes_project(#[trigger] pre.saves@[j], id);
        assert(f(pre.saves@[j]));
        assert(f(pre.saves@[i]));
        assert(post.saves@[i].kind is Project);
    }
    if i < pre.saves@.len() {
        assert(f(pre.saves@[i]));
        if k != i {
            assert(post.saves@[k] == pre.saves@[k]);
        }
    }
}

/// Closing the active project leaves nothing open: no project, no item, no
/// selection. What was reading or computing for it is stopped.
pub proof fn law_closing_the_active_project(pre: App, i: int, id: u32, post: App, job: crate::jobs::BackgroundJob)
    requires
        closed_at(pre, i, id, post),
        0 <= i < pre.workspace.projects@.len() <= usize::MAX,
        pre.workspace.active_index == Some(i as usize),
        pre.platform == Platform::Native,
    ensures
        post.workspace.projects@.len() == 0 && post.workspace.active_index is None,
        post.items.triangulations@.len() == 0 && post.items.block_models@.len() == 0 && post.items.drill_holes@.len() == 0 && post.items.point_clouds@.len()
            == 0 && post.items.raster_textures@.len() == 0,
        post.selection.handles@.len() == 0 && post.selection.holes@.len() == 0 && post.selection.ties@.len() == 0,
        post.canvas.active_layer is None && post.canvas.active_triangulation is None && post.canvas.active_drill_hole is None,
        post.files.closing.project is None,
        post.jobs.pending@.contains(job) ==> pre.jobs.pending@.contains(job) && !crate::jobs::job_meant(job, crate::jobs::JobFilter::Project(id)),
        post.workspace.next_runtime_id == pre.workspace.next_runtime_id,
{
    let f = |j: crate::jobs::BackgroundJob| !crate::jobs::job_meant(j, crate::jobs::JobFilter::Project(id));
    crate::ids::lemma_filter_members(pre.jobs.pending@, f);
}

/// Closing another project takes it out and keeps the rest: the active one
/// stays active, items stay, and only its objects are let go.
pub proof fn law_closing_another_project(pre: App, i: int, id: u32, post: App, a: usize, h: SceneEntityId)
    requires
        other_closed(pre, i, id, post),
        0 <= i < pre.workspace.projects@.len(),
        pre.workspace.active_index == Some(a),
        a < pre.workspace.projects@.len(),
        a != i,
    ensures
        post.workspace.projects@.len() == pre.workspace.projects@.len() - 1,
        post.workspace.active() == Some(pre.workspace.projects@[a as int]),
        post.items == pre.items,
        !(h is Object) ==> (post.selection.handles@.contains(h) <==> pre.selection.handles@.contains(h)),
        h is Object && post.selection.handles@.contains(h) ==> pre.selection.handles@.contains(h) && index_of_object(
            post.workspace.projects@,
            h->Object_0,
        ) < post.workspace.projects@.len(),
        post.history.dropped@.last() == id,
{
}

/// A path that is forgotten leaves the list, and no other does.
pub proof fn law_forgotten_paths(paths: Seq<String>, path: Seq<char>, p: String)
    ensures
        paths_without(paths, path).contains(p) <==> paths.contains(p) && p@ != path,
{
    crate::ids::lemma_filter_members(paths, crate::commands::closing::other_path(path));
}

/// A stored project is deleted once: it is asked for where it was not yet.
pub proof fn law_deleting_a_stored_project(pre: Files, project_id: ProjectId, runtime_id: Option<u32>, r: Result<(), AppError>, post: Files)
    requires
        delete_started(pre, project_id, runtime_id, r, post),
    ensures
        r is Ok <==> pre.browser.loop_ready,
        r is Err ==> post == pre,
        r is Ok ==> post.browser.deletes@.contains(project_id) && post.closing.project is None,
        r is Ok && !pre.browser.deletes@.contains(project_id) ==> post.requests@.len() == pre.requests@.len() + 1 && post.requests@.last() == (
        Request::DeleteStoredProject { project_id, runtime_id }),
        r is Ok && pre.browser.deletes@.contains(project_id) ==> post.requests == pre.requests,
{
}

/// A project that was never stored has no place of its own yet.
pub proof fn law_first_save(project: OpenProject)
    ensures
        needs_first_save(Platform::Native, project) <==> project.path is None,
        needs_first_save(Platform::Browser, project) <==> !(project.persistence is BrowserRecord),
{
}

/// An opened project has the name, reference system and units of its file, and
/// warns of what storing it would lose.
pub proof fn law_opened_project_is_described(blank: OpenProject, b: ImportBundle, post: OpenProject)
    requires
        described(blank, b, post),
    ensures
        trimmed(b.project_name@).len() > 0 ==> post.name == b.project_name,
        trimmed(b.project_name@).len() == 0 ==> post.name == blank.name,
        post.coordinate_reference_system == b.coordinate_reference_system && post.units == b.units,
        post.lossy_save_warnings == b.warnings && !post.lossy_save_confirmed,
        post.document == blank.document && post.path == blank.path,
{
}

/// Stored items are stored as they are now, and nothing else of them changes.
pub proof fn law_stored_items(pre: Items, post: Items, k: int)
    requires
        items_stored(pre, post),
    ensures
        post.triangulations@.len() == pre.triangulations@.len() && post.block_models@.len() == pre.block_models@.len() && post.drill_holes@.len()
            == pre.drill_holes@.len() && post.point_clouds@.len() == pre.point_clouds@.len() && post.raster_textures@.len() == pre.raster_textures@.len(),
        0 <= k < pre.triangulations@.len() ==> post.triangulations@[k].state.saved_epoch == Some(pre.triangulations@[k].state.epoch)
            && post.triangulations@[k].mesh == pre.triangulations@[k].mesh && post.triangulations@[k].state.epoch == pre.triangulations@[k].state.epoch
            && post.triangulations@[k].id == pre.triangulations@[k].id && post.triangulations@[k].state.loaded == pre.triangulations@[k].state.loaded,
        0 <= k < pre.block_models@.len() ==> post.block_models@[k].state.saved_epoch == Some(pre.block_models@[k].state.epoch) && post.block_models@[k].blocks
            == pre.block_models@[k].blocks && post.block_models@[k].id == pre.block_models@[k].id,
        0 <= k < pre.drill_holes@.len() ==> post.drill_holes@[k].state.saved_epoch == Some(pre.drill_holes@[k].state.epoch) && post.drill_holes@[k].holes
            == pre.drill_holes@[k].holes && post.drill_holes@[k].id == pre.drill_holes@[k].id && post.drill_holes@[k].tie_ins == pre.drill_holes@[k].tie_ins,
        0 <= k < pre.point_clouds@.len() ==> post.point_clouds@[k].state.saved_epoch == Some(pre.point_clouds@[k].state.epoch) && post.point_clouds@[k].points
            == pre.point_clouds@[k].points && post.point_clouds@[k].id == pre.point_clouds@[k].id,
        0 <= k < pre.raster_textures@.len() ==> post.raster_textures@[k].state.saved_epoch == Some(pre.raster_textures@[k].state.epoch)
            && post.raster_textures@[k].pixels == pre.raster_textures@[k].pixels && post.raster_textures@[k].id == pre.raster_textures@[k].id,
{
}

/// Merging a file keeps the project's own reference system and units, unless
/// the project is empty and has none.
pub proof fn law_merged_project_keeps_its_system(pre: OpenProject, empty: bool, b: ImportBundle, post: OpenProject)
    requires
        project_merged(pre, empty, b, post),
    ensures
        !empty || trimmed(pre.coordinate_reference_system@).len() > 0 ==> post.coordinate_reference_system@ == pre.coordinate_reference_system@,
        empty && trimmed(pre.coordinate_reference_system@).len() == 0 ==> post.coordinate_reference_system@ == b.coordinate_reference_system@,
        !empty || trimmed(pre.units@).len() > 0 ==> post.units@ == pre.units@,
        empty && trimmed(pre.units@).len() == 0 ==> post.units@ == b.units@,
        post.name == pre.name && post.runtime_id == pre.runtime_id && post.path == pre.path,
{
}

/// A project is empty where it has no layer, no object and no item.
pub proof fn law_empty_projects(app: App, p: OpenProject)
    requires
        app.workspace.active() == Some(p),
    ensures
        target_empty(app) <==> p.document.layers@.len() == 0 && p.document.objects@.len() == 0 && app.items.triangulations@.len() == 0
            && app.items.block_models@.len() == 0 && app.items.drill_holes@.len() == 0 && app.items.point_clouds@.len() == 0
            && app.items.raster_textures@.len() == 0,
{
}

/// After a project was read again, the layers that were loaded are: those of
/// its layers that have the number of a loaded one.
pub proof fn law_layers_stay_loaded(s: Seq<LayerId>, document: Document, loaded: Set<LayerId>, k: int)
    requires
        loaded_as_before(s, document, loaded),
        0 <= k < document.layers@.len(),
    ensures
        loaded.contains(document.layers@[k].id) <==> exists|i: int|
            0 <= i < s.len() && (#[trigger] s[i]).0 % 0x1_0000_0000 == document.layers@[k].id.0 % 0x1_0000_0000,
{
    let l = document.layers@[k].id;
    assert(crate::commands::omf::has_layer(document, l));
    assert(crate::commands::omf::known_before(s, l) <==> exists|i: int| 0 <= i < s.len() && (#[trigger] s[i]).0 % 0x1_0000_0000 == l.0 % 0x1_0000_0000) by {
        if crate::commands::omf::known_before(s, l) {
            let i = choose|i: int| 0 <= i < s.len() && local_id(#[trigger] s[i]) == local_id(l);
            assert(s[i].0 % 0x1_0000_0000 == l.0 % 0x1_0000_0000);
        }
        if exists|i: int| 0 <= i < s.len() && (#[trigger] s[i]).0 % 0x1_0000_0000 == l.0 % 0x1_0000_0000 {
            let i = choose|i: int| 0 <= i < s.len() && (#[trigger] s[i]).0 % 0x1_0000_0000 == l.0 % 0x1_0000_0000;
            assert(local_id(s[i]) == local_id(l));
        }
    }
}

/// The counter of a project's items is set for the active project alone.
pub proof fn law_revision_is_set(pre: Workspace, revision: u64, post: Workspace, p: OpenProject, j: int)
    requires
        revision_set(pre, revision, post),
        pre.active() == Some(p),
        0 <= j < pre.projects@.len(),
    ensures
        post.active() matches Some(q) && q.asset_revision == revision && q.document == p.document && q.content_hash == p.content_hash,
        pre.active_index != Some(j as usize) && j <= usize::MAX ==> post.projects@[j] == pre.projects@[j],
{
}

/// Without a project there is something to write as long as there is an item.
pub proof fn law_items_without_a_project(app: App, r: Result<Snapshot, AppError>)
    requires
        snapshot_of(app, r),
        app.workspace.active() is None,
        !text_edit_open(app),
    ensures
        r is Ok <==> app.items.triangulations@.len() > 0 || app.items.block_models@.len() > 0 || app.items.drill_holes@.len() > 0
            || app.items.point_clouds@.len() > 0 || app.items.raster_textures@.len() > 0,
        r is Err ==> r == Err::<Snapshot, AppError>(AppError::NothingToExport),
        r matches Ok(s) ==> s.runtime_id is None,
{
}

} // verus!
