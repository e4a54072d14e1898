//! What file dialogs ask for and what their answers do.

use crate::commands::answers::{any_cancelled, dialogs_sorted, still_shown, DialogEvent};
use crate::commands::choices::{
    bundle_refused, lossy_agreed, lossy_save_cancelled, menu_offers, replacement_called_off, surface_copy_asked, tracked_removed, web_files_taken,
    DrillHoleSource,
};
use crate::commands::dialogs::{
    action_done, drawing_begun, files_imported, gate, gate_passed, good_files, preview_of, readable, replaces_project, sources_set, stored_switched,
    surface_exported, would_lose, DialogFacts,
};
use crate::commands::exit::unsaved;
use crate::error::AppError;
use crate::files::{CsvPreview, DataMenu, DialogRequest, FileDialogAction, Import, InputFile, MeshFormat, PendingSaveKind, Request};
use crate::ids::{LayerId, TriangulationId};
use crate::items::{triangulation_index, HoleOrientation};
use crate::jobs::{JobKey, Work};
use crate::loads::LoadKind;
use crate::names::{file_stem_for, texts};
use crate::state::{App, Platform};
use crate::text::text_of;
use crate::workspace::{index_of_runtime, OpenProject, ProjectId};
use vstd::prelude::*;

verus! {

/// An action that would replace the open project waits where another is being
/// loaded, and asks where something is unsaved; one that would lose something
/// asks; any other goes ahead.
pub proof fn law_what_stands_in_the_way(app: App, action: FileDialogAction)
    ensures
        replaces_project(action) <==> action is NewProject || action is OpenProject || action is SwitchProject || action is WebNewProject
            || action is WebOpenProject || action is WebStoredProject,
        !replaces_project(action) && !would_lose(app, action) ==> gate(app, action) is Open,
        replaces_project(action) && app.platform == Platform::Native && !unsaved(app) ==> gate(app, action) is Open,
        replaces_project(action) && app.platform == Platform::Native && unsaved(app) && !app.files.replacement.bypass ==> gate(app, action) is AskReplace,
        replaces_project(action) && app.files.replacement.bypass && app.platform == Platform::Native ==> gate(app, action) is Open,
        would_lose(app, action) ==> action is SaveProjectAs && gate(app, action) is AskLossy,
{
}

/// An action that has to be asked about waits until it was; one that goes
/// ahead uses up what let it pass.
pub proof fn law_actions_wait(pre: App, action: FileDialogAction, r: Result<Option<FileDialogAction>, AppError>, post: App)
    requires
        gate_passed(pre, action, r, post),
    ensures
        gate(pre, action) is AskReplace ==> post.files.replacement.pending == Some(action) && post.files.replacement.confirm_open && r
            == Ok::<Option<FileDialogAction>, AppError>(None),
        gate(pre, action) is AskLossy ==> post.files.lossy.pending == Some(action) && post.files.lossy.confirm_open && r
            == Ok::<Option<FileDialogAction>, AppError>(None),
        gate(pre, action) is Open ==> r == Ok::<Option<FileDialogAction>, AppError>(Some(action)) && !post.files.replacement.bypass,
        gate(pre, action) is Busy ==> r == Err::<Option<FileDialogAction>, AppError>(AppError::SwitchPending) && post == pre,
        post.workspace == pre.workspace && post.items == pre.items && post.jobs == pre.jobs,
{
}

/// Opening and importing hand on just the files that were chosen.
pub proof fn law_chosen_files_are_handed_on(
    pre: App,
    action: FileDialogAction,
    facts: DialogFacts,
    after: Seq<Option<HoleOrientation>>,
    r: Result<(), AppError>,
    post: App,
)
    requires
        action_done(pre, action, facts, after, r, post),
    ensures
        action matches FileDialogAction::OpenProject(paths) ==> r is Ok && (paths@.len() == 0 ==> post == pre) && (paths@.len() > 0
            && !pre.files.path_busy(paths@[0]@) ==> (post.jobs.pending@.last().work matches Work::OpenProject { path } && path@ == paths@[0]@)),
        action matches FileDialogAction::SwitchProject(path) ==> r is Ok && (!pre.files.path_busy(path@) ==> (post.jobs.pending@.last().work matches Work::OpenProject {
            path: p,
        } && p@ == path@)),
        action matches FileDialogAction::WebOpenProject(files) ==> r is Ok && post.jobs.pending@.last().work == (Work::OpenBrowserProject { files }),
        action matches FileDialogAction::ImportDxfInto { paths } ==> (r is Ok <==> pre.workspace.active() is Some) && (pre.workspace.active() matches Some(p)
            ==> post.jobs.pending@.last().work == (Work::ImportDxf { runtime_id: p.runtime_id, paths }) && post.jobs.pending@.last().keys@ == seq![
            JobKey::Project { runtime_id: p.runtime_id, document_revision: p.revision },
        ]),
        action matches FileDialogAction::SetImportSourcePaths { kind, paths } ==> r is Ok && post.files.import.menu == kind && texts(
            post.files.import.paths@,
        ) == texts(paths@),
        action matches FileDialogAction::ExportOmf { snapshot, path } ==> r is Ok && (post.jobs.pending@.last().work matches Work::ExportOmf {
            snapshot: s,
            path: p,
        } && s == snapshot),
        action matches FileDialogAction::ExportBlockModelCsv { id, path } ==> (r is Ok <==> crate::items::block_model_index(pre.items.block_models@, id)
            < pre.items.block_models@.len()) && (r is Err ==> post == pre) && (r is Ok ==> (post.jobs.pending@.last().work matches Work::ExportBlockModelCsv {
            id: b,
            path: p,
        } && b == id)),
        action matches FileDialogAction::WebDownloadTriangulation { id, format, file_name, close_after } ==> (r is Ok <==> triangulation_index(
            pre.items.triangulations@,
            id,
        ) < pre.items.triangulations@.len()) && (r is Ok ==> post.jobs.pending@.last().work == (
        Work::DownloadTriangulation { id, format, file_name, close_after })),
        action matches FileDialogAction::WebDownloadBlockModelCsv { id, file_name, close_after } ==> (r is Ok <==> crate::items::block_model_index(
            pre.items.block_models@,
            id,
        ) < pre.items.block_models@.len()) && (r is Ok ==> post.jobs.pending@.last().work == (
        Work::DownloadBlockModelCsv { id, file_name, close_after })),
        action matches FileDialogAction::WebViewportImage(name) ==> (r is Ok <==> facts.renderer_ready) && (r is Ok ==> post.files.requests@.last()
            == Request::BrowserScreenshot(name)),
        action matches FileDialogAction::WebDownloadDxf { project_runtime_id, layer, file_name } ==> (r is Ok ==> post.jobs.pending@.last().work == (
        Work::DownloadDxf { project_runtime_id, layer, file_name })),
{
}

/// Files are taken up to the first that is not supported or not there; that
/// one is told of.
pub proof fn law_files_up_to_the_first_bad_one(facts: DialogFacts, n: int, k: int)
    requires
        0 <= n,
        0 <= k <= n,
        forall|i: int| 0 <= i < k ==> #[trigger] crate::commands::dialogs::told(facts.supported@, i) && crate::commands::dialogs::told(facts.present@, i),
        k < n ==> !crate::commands::dialogs::told(facts.supported@, k) || !crate::commands::dialogs::told(facts.present@, k),
    ensures
        good_files(facts, n) == k,
    decreases n,
{
    if n > 0 {
        if k < n {
            if k < n - 1 {
                law_files_up_to_the_first_bad_one(facts, n - 1, k);
            } else {
                law_files_up_to_the_first_bad_one(facts, n - 1, n - 1);
            }
        } else {
            law_files_up_to_the_first_bad_one(facts, n - 1, n - 1);
            assert(crate::commands::dialogs::told(facts.supported@, n - 1));
        }
    }
}

/// What importing files answers: all were taken, or the first that was not is
/// of no known kind or is missing.
pub proof fn law_import_answers(pre: App, kind: LoadKind, paths: Seq<String>, limit: u32, facts: DialogFacts, r: Result<(), AppError>, post: App)
    requires
        files_imported(pre, kind, paths, limit, facts, r, post),
        facts.supported@.len() == paths.len() && facts.present@.len() == paths.len(),
    ensures
        r is Ok <==> good_files(facts, paths.len() as int) == paths.len(),
        good_files(facts, paths.len() as int) == 0 ==> post == pre,
{
}

/// The files that could be read are kept, in their order.
pub proof fn law_readable_files(files: Seq<Option<InputFile>>, f: Option<InputFile>)
    ensures
        readable(Seq::empty()).len() == 0,
        readable(files.push(f)) == match f {
            Some(x) => readable(files).push(x),
            None => readable(files),
        },
{
    assert(files.push(f).drop_last() =~= files);
}

/// Choosing sources keeps the names that were chosen and shows the first table
/// of a block model, or all tables of drillholes, or what is wrong with them.
pub proof fn law_chosen_sources(pre: Import, kind: DataMenu, names: Seq<Seq<char>>, previews: Seq<Result<CsvPreview, String>>, post: Import, i: int)
    requires
        sources_set(pre, kind, names, previews, post),
        previews.len() == names.len(),
        0 <= i < names.len(),
    ensures
        post.menu == kind,
        post.paths@.len() == names.len() && post.paths@[i]@ == names[i],
        kind == DataMenu::CsvBlockModel ==> (previews[0] matches Ok(p) ==> post.csv_preview == Some(p) && post.csv_error is None) && (previews[0] matches Err(e)
            ==> post.csv_preview is None && text_of(post.csv_error) == Some(e@)) && post.drill_csv == pre.drill_csv,
        kind == DataMenu::CsvDrillHole && post.csv_error is None ==> post.drill_csv@.len() == names.len() && (previews[i] matches Ok(p) && post.drill_csv@[i] == p),
        kind == DataMenu::CsvDrillHole && post.csv_error is Some ==> post.drill_csv@.len() == 0,
        kind != DataMenu::CsvBlockModel && kind != DataMenu::CsvDrillHole ==> post.csv_preview == pre.csv_preview && post.csv_error == pre.csv_error
            && post.drill_csv == pre.drill_csv,
{
    assert(texts(post.paths@).len() == post.paths@.len());
    assert(texts(post.paths@)[i] == post.paths@[i]@);
    if kind == DataMenu::CsvDrillHole && post.csv_error is None {
        assert(preview_of(previews, i) == Ok::<CsvPreview, Seq<char>>(post.drill_csv@[i]));
    }
}

/// A drawing is written where its project is there and nothing else uses the
/// path: that project and that layer, there.
pub proof fn law_written_drawings(pre: App, id: u32, layer: Option<LayerId>, path: Seq<char>, r: Result<(), AppError>, post: App)
    requires
        drawing_begun(pre, id, layer, path, r, post),
    ensures
        r is Ok <==> !pre.files.path_busy(path) && index_of_runtime(pre.workspace.projects@, id) < pre.workspace.projects@.len(),
        r is Err ==> post == pre,
        r is Ok ==> (post.files.requests@.last() matches Request::WriteDxf { ticket, project_runtime_id, layer: l, path: p } && ticket == pre.jobs.next_ticket
            && project_runtime_id == id && l == layer && p@ == path) && post.files.saves@.last().path@ == path && post.files.saves@.last().kind is DxfExport,
{
}

/// A copy of a surface is written where its format is known, it is there, and
/// the path is neither read nor written.
pub proof fn law_written_surfaces(pre: App, id: TriangulationId, path: Seq<char>, facts: DialogFacts, r: Result<(), AppError>, post: App, i: int)
    requires
        surface_exported(pre, id, path, facts, r, post),
        i == triangulation_index(pre.items.triangulations@, id),
        i >= 0,
    ensures
        r is Ok ==> facts.mesh_format is Some && i < pre.items.triangulations@.len() && (post.files.requests@.last() matches Request::WriteTriangulation {
            ticket,
            id: t,
            path: p,
        } && t == id && p@ == path && ticket == pre.jobs.next_ticket) && (post.files.saves@.last().kind matches PendingSaveKind::Export { name } && name@
            == pre.items.triangulations@[i].name@) && post.files.saves@.last().path@ == path && post.files.saves@.last().ticket == pre.jobs.next_ticket
            && post.files.saves@.len() == pre.files.saves@.len() + 1,
        r is Err ==> post == pre,
        facts.mesh_format is None ==> r == Err::<(), AppError>(AppError::UnknownMeshFormat),
{
}

/// The name offered for a copy of a surface is its own with the ending of the
/// format.
pub proof fn law_offered_surface_name(
    pre: App,
    id: TriangulationId,
    format: MeshFormat,
    facts: DialogFacts,
    after: Seq<Option<HoleOrientation>>,
    post: App,
    i: int,
)
    requires
        surface_copy_asked(pre, id, format, facts, after, post),
        i == triangulation_index(pre.items.triangulations@, id),
        0 <= i < pre.items.triangulations@.len(),
        pre.platform == Platform::Native,
    ensures
        post.files.dialogs@.len() == pre.files.dialogs@.len() + 1,
        post.files.dialogs@.last() matches DialogRequest::ExportTriangulation { id: t, format: f, file_name } && t == id && f == format && file_name@
            == file_stem_for(pre.items.triangulations@[i].name@) + "."@ + match format {
            MeshFormat::Obj => "obj"@,
            MeshFormat::Stl => "stl"@,
            MeshFormat::Ply => "ply"@,
        },
        post.items == pre.items && post.workspace == pre.workspace,
{
}

/// Switching to a stored project asks for it once.
pub proof fn law_switching_to_a_stored_project(pre: App, id: ProjectId, r: Result<(), AppError>, post: App)
    requires
        stored_switched(pre, id, r, post),
        pre.workspace.active() matches Some(p) ==> p.id != id,
    ensures
        r is Ok <==> pre.files.browser.loop_ready,
        pre.files.browser.loop_ready && !pre.files.browser.loads@.contains(id) ==> post.files.browser.loads@.contains(id) && post.files.requests@.last() == (
        Request::LoadStoredProject { project_id: id, ticket: pre.jobs.next_ticket }) && post.jobs.tasks@.last().ticket == pre.jobs.next_ticket,
        pre.files.browser.loads@.contains(id) ==> post == pre,
        post.workspace == pre.workspace,
{
}

/// Agreeing to a loss is noted on the active project alone, and calling it off
/// takes the note back.
pub proof fn law_agreeing_to_a_loss(pre: App, agreed: App, cancelled: App, p: OpenProject)
    requires
        lossy_agreed(pre, agreed),
        lossy_save_cancelled(pre, cancelled),
        pre.workspace.active() == Some(p),
    ensures
        agreed.workspace.active() matches Some(q) && q.lossy_save_confirmed && q.document == p.document,
        cancelled.workspace.active() matches Some(q) && !q.lossy_save_confirmed && q.document == p.document,
        agreed.files.lossy.pending is None && !agreed.files.lossy.confirm_open,
        cancelled.files.lossy.pending is None && !cancelled.files.lossy.confirm_open,
        pre.files.replacement.after_save ==> cancelled.files.replacement.confirm_open && !cancelled.files.replacement.after_save,
        pre.files.exit.after_saves ==> !cancelled.files.exit.after_saves,
        agreed.items == pre.items && cancelled.items == pre.items,
{
}

/// Calling a replacement off forgets it.
pub proof fn law_replacement_is_called_off(pre: App)
    ensures
        replacement_called_off(pre).files.replacement.pending is None && !replacement_called_off(pre).files.replacement.confirm_open
            && !replacement_called_off(pre).files.replacement.after_save && !replacement_called_off(pre).files.replacement.bypass,
        replacement_called_off(pre).workspace == pre.workspace && replacement_called_off(pre).items == pre.items,
{
}

/// A path that is removed is forgotten, unless it is being opened or is that
/// of the open project, which is closed first.
pub proof fn law_removing_a_path(pre: App, path: Seq<char>, r: Result<(), AppError>, post: App, p: String)
    requires
        tracked_removed(pre, path, r, post),
        pre.workspace.active() matches Some(q) ==> text_of(q.path) != Some(path),
    ensures
        r is Ok <==> !(exists|i: int| 0 <= i < pre.files.open_paths@.len() && (#[trigger] pre.files.open_paths@[i])@ == path),
        r is Err ==> post == pre,
        r is Ok ==> (post.files.known_paths@.contains(p) <==> pre.files.known_paths@.contains(p) && p@ != path),
        post.workspace == pre.workspace,
{
    crate::laws::files::law_forgotten_paths(pre.files.known_paths@, path, p);
}

/// Files chosen for one kind are taken for that kind alone, and only once.
pub proof fn law_chosen_web_files(pre: App, kind: DataMenu, r: Result<Vec<InputFile>, AppError>, post: App)
    requires
        web_files_taken(pre, kind, r, post),
    ensures
        pre.files.import.web_files is None ==> r == Err::<Vec<InputFile>, AppError>(AppError::NoFilesChosen),
        pre.files.import.web_files matches Some((k, files)) ==> (k == kind ==> r == Ok::<Vec<InputFile>, AppError>(files) && post.files.import.web_files is None
            && post.files.import.paths@.len() == 0) && (k != kind ==> r == Err::<Vec<InputFile>, AppError>(AppError::OtherFilesChosen) && post == pre),
        post.workspace == pre.workspace && post.items == pre.items,
{
}

/// Surfaces come from mesh files and point clouds from scans.
pub proof fn law_files_of_a_kind(menu: DataMenu)
    ensures
        menu_offers(menu, LoadKind::Triangulation) <==> menu == DataMenu::Obj || menu == DataMenu::Stl || menu == DataMenu::Ply,
        menu_offers(menu, LoadKind::PointCloud) <==> menu == DataMenu::Las || menu == DataMenu::Xyz || menu == DataMenu::Pcd,
{
}

/// A table is taken for drillholes where there is one mapping for each file.
pub proof fn law_which_bundles_are_taken(mappings: usize, files: int)
    ensures
        bundle_refused(DrillHoleSource::Csv { mappings }, files) is None <==> mappings == files,
        bundle_refused(DrillHoleSource::LegacyDhd, files) == Some(AppError::UnsupportedFile),
        bundle_refused(DrillHoleSource::Omf, files) == Some(AppError::ImportedWithProject),
{
}

/// A dialog that was answered or closed is not shown any more; the others are.
pub proof fn law_shown_dialogs(dialogs: Seq<DialogRequest>, events: Seq<DialogEvent>, k: int)
    requires
        0 <= k < dialogs.len(),
        events.len() == dialogs.len(),
    ensures
        events[k] is Shown ==> still_shown(dialogs, events).contains(dialogs[k]),
        (forall|i: int| 0 <= i < events.len() ==> !((#[trigger] events[i]) is Shown)) ==> still_shown(dialogs, events).len() == 0,
        (forall|i: int| 0 <= i < events.len() ==> (#[trigger] events[i]) is Shown) ==> still_shown(dialogs, events) == dialogs,
{
    lemma_shown(dialogs, events, k);
    lemma_all_shown(dialogs, events);
}

proof fn lemma_shown(dialogs: Seq<DialogRequest>, events: Seq<DialogEvent>, k: int)
    requires
        0 <= k < dialogs.len() <= events.len(),
    ensures
        events[k] is Shown ==> still_shown(dialogs, events).contains(dialogs[k]),
    decreases dialogs.len(),
{
    let front = dialogs.drop_last();
    let (before, all) = (still_shown(front, events), still_shown(dialogs, events));
    if events[k] is Shown {
        if k < front.len() {
            lemma_shown(front, events, k);
            let i = choose|i: int| 0 <= i < before.len() && before[i] == dialogs[k];
            assert(all[i] == dialogs[k]);
        } else {
            assert(all[all.len() - 1] == dialogs[k]);
        }
    }
}

proof fn lemma_all_shown(dialogs: Seq<DialogRequest>, events: Seq<DialogEvent>)
    requires
        dialogs.len() <= events.len(),
    ensures
        (forall|i: int| 0 <= i < dialogs.len() ==> !((#[trigger] events[i]) is Shown)) ==> still_shown(dialogs, events).len() == 0,
        (forall|i: int| 0 <= i < dialogs.len() ==> (#[trigger] events[i]) is Shown) ==> still_shown(dialogs, events) == dialogs,
    decreases dialogs.len(),
{
    if dialogs.len() > 0 {
        lemma_all_shown(dialogs.drop_last(), events);
        assert(dialogs.drop_last().push(dialogs.last()) =~= dialogs);
        if forall|i: int| 0 <= i < dialogs.len() ==> !((#[trigger] events[i]) is Shown) {
            assert(!(events[dialogs.len() - 1] is Shown));
        }
        if forall|i: int| 0 <= i < dialogs.len() ==> (#[trigger] events[i]) is Shown {
            assert(events[dialogs.len() - 1] is Shown);
        }
    }
}

/// A dialog that was closed without an answer gives up what waited for it:
/// leaving and closing.
pub proof fn law_cancelled_dialogs(pre: App, events: Seq<DialogEvent>, post: App, k: int)
    requires
        dialogs_sorted(pre, events, post),
        0 <= k < pre.files.dialogs@.len(),
        events.len() == pre.files.dialogs@.len(),
    ensures
        events[k] is Cancelled ==> post.files.closing.project is None && !post.files.closing.remove_after && !post.files.exit.after_saves,
        (forall|i: int| 0 <= i < events.len() ==> !((#[trigger] events[i]) is Cancelled)) ==> post.files.closing == pre.files.closing && post.files.exit
            == pre.files.exit,
        events[k] is Shown ==> post.files.dialogs@.contains(pre.files.dialogs@[k]),
        (forall|i: int| 0 <= i < events.len() ==> !((#[trigger] events[i]) is Shown)) ==> post.files.dialogs@.len() == 0,
        post.workspace == pre.workspace && post.items == pre.items && post.jobs == pre.jobs,
{
    law_shown_dialogs(pre.files.dialogs@, events, k);
    if events[k] is Cancelled {
        assert(any_cancelled(pre.files.dialogs@, events));
    }
}

} // verus!
