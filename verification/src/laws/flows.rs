//! Work that goes on from one answer to the next: imports, discards, closing
//! and what was asked for before something had to be brought back.

use crate::arrivals::LoadedDrillHoles;
use crate::commands::answers::{answer_taken, DialogEvent};
use crate::commands::boreholes::cloud_released;
use crate::commands::choices::{
    current_files_taken, drawing_asked, inputs_queued, picture_place_asked, stored_activated, stored_removed, table_asked, tracked_activated,
    web_block_model_imported, web_drawings_imported, web_drill_holes_imported, web_items_imported, web_projects_imported, web_rasters_imported,
    DrillHoleSource,
};
use crate::commands::dialogs::DialogFacts;
use crate::commands::discard::{carried_over, layer_discard_asked, layer_revert_applied, project_replaced, LayerRevert};
use crate::commands::exit::{browser_project_deleted, pending_actions_finished};
use crate::commands::finished::{restored_items_applied, restored_layers_applied};
use crate::commands::omf::{any_content, bundles_applied, item_count, workspace_merged, ImportBundle};
use crate::commands::outcomes::replacement_continued;
use crate::commands::plot::{plot_stem, sheet_destination_asked, PlotFacts};
use crate::commands::residency::{Continuation, Drawing};
use crate::commands::restored::{drawings_taken, eviction_applied, layer_eviction_applied, stored_homes};
use crate::commands::section::{section_shown, section_switched, ExplorerSection};
use crate::document::{layer_models, object_models, Layer};
use crate::error::AppError;
use crate::files::{DataMenu, DialogRequest, InputFile};
use crate::ids::{BlockModelId, ItemRef, LayerId, ObjectId, PointCloudId, SceneEntityId};
use crate::items::{block_model_index, HoleOrientation, OpenItem};
use crate::jobs::Work;
use crate::loads::LoadKind;
use crate::snapshots::{all_layers_restored, all_objects_restored, opened_under, SnapshotModel};
use crate::state::{App, Platform};
use crate::text::{file_part, known_path, stem_of, text_of};
use crate::workspace::{index_of_layer, index_of_runtime, OpenProject, ProjectId, Workspace};
use vstd::prelude::*;

verus! {

proof fn lemma_inputs(pre: App, kind: LoadKind, files: Seq<InputFile>, limit: u32, n: int, post: App)
    requires
        inputs_queued(pre, kind, files, limit, n, post),
        0 <= n <= files.len(),
    ensures
        post.jobs.pending@.len() == pre.jobs.pending@.len() + n,
        forall|k: int|
            0 <= k < n ==> (#[trigger] post.jobs.pending@[pre.jobs.pending@.len() + k]).work == (Work::LoadInput { kind, file: files[k], mapping: None, limit }),
        post.items == pre.items && post.workspace == pre.workspace && post.steps == pre.steps && post.files == pre.files,
    decreases n,
{
    if n > 0 {
        let mid = choose|mid: App|
            inputs_queued(pre, kind, files, limit, n - 1, mid) && #[trigger] crate::commands::choices::input_queued(mid, kind, files[n - 1], None, limit, post);
        lemma_inputs(pre, kind, files, limit, n - 1, mid);
        assert forall|k: int| 0 <= k < n implies (#[trigger] post.jobs.pending@[pre.jobs.pending@.len() + k]).work == (Work::LoadInput {
            kind,
            file: files[k],
            mapping: None,
            limit,
        }) by {
            if k < n - 1 {
                assert(post.jobs.pending@.drop_last()[pre.jobs.pending@.len() + k] == mid.jobs.pending@[pre.jobs.pending@.len() + k]);
            }
        }
    }
}

/// Importing chosen files reads each of them, in their order, as what was asked
/// for.
pub proof fn law_chosen_files_are_read(pre: App, kind: LoadKind, r: Result<(), AppError>, post: App, k: int)
    requires
        web_items_imported(pre, kind, r, post),
        r is Ok,
        pre.files.import.web_files matches Some((_, files)) && 0 <= k < files@.len(),
    ensures
        pre.files.import.web_files matches Some((_, files)) && post.jobs.pending@.len() == pre.jobs.pending@.len() + files@.len()
            && post.jobs.pending@[pre.jobs.pending@.len() + k].work == (Work::LoadInput { kind, file: files@[k], mapping: None, limit: 0 }),
        post.files.import.web_files is None,
        post.items == pre.items,
{
    let (_, files) = pre.files.import.web_files->0;
    let mid = choose|mid: App| #[trigger]
        crate::commands::choices::files_taken(pre, mid) && inputs_queued(mid, kind, files@, 0, files@.len() as int, post);
    lemma_inputs(mid, kind, files@, 0, files@.len() as int, post);
}

/// Files are imported as what they were chosen for; without any, or with
/// others, nothing is.
pub proof fn law_which_files_are_imported(pre: App, kind: LoadKind, r: Result<(), AppError>, post: App)
    requires
        web_items_imported(pre, kind, r, post),
    ensures
        pre.files.import.web_files is None ==> r == Err::<(), AppError>(AppError::NoFilesChosen) && post == pre,
        pre.files.import.web_files matches Some((menu, _)) ==> (r is Ok <==> crate::commands::choices::menu_offers(menu, kind)),
        r is Err ==> post.jobs == pre.jobs,
{
}

/// Pictures, tables, drawings and projects are read from the files chosen for
/// them.
pub proof fn law_files_read_in_the_browser(
    pre: App,
    rasters: App,
    a: Result<(), AppError>,
    mapping: u64,
    table: App,
    b: Result<(), AppError>,
    drawings: App,
    c: Result<(), AppError>,
    projects: App,
    d: Result<(), AppError>,
)
    requires
        web_rasters_imported(pre, a, rasters),
        web_block_model_imported(pre, mapping, b, table),
        web_drawings_imported(pre, c, drawings),
        web_projects_imported(pre, d, projects),
    ensures
        a is Ok ==> (pre.files.import.web_files matches Some((k, files)) && k == DataMenu::Geotiff && rasters.jobs.pending@.len() == pre.jobs.pending@.len()
            + files@.len()),
        b is Ok ==> (pre.files.import.web_files matches Some((k, files)) && k == DataMenu::CsvBlockModel && files@.len() == 1 && table.jobs.pending@.last().work
            == (Work::LoadInput { kind: LoadKind::BlockModel, file: files@[0], mapping: Some(mapping), limit: 0 })),
        c is Ok ==> (pre.files.import.web_files matches Some((k, files)) && k == DataMenu::Dxf && (pre.workspace.active() matches Some(p)
            && drawings.jobs.pending@.last().work == (Work::ImportBrowserDxf { runtime_id: p.runtime_id, files }))),
        d is Ok ==> (pre.files.import.web_files matches Some((k, files)) && k == DataMenu::Omf && projects.jobs.pending@.last().work == (
        Work::ImportBrowserOmf { files })),
{
    if a is Ok {
        let (mid, taken) = choose|mid: App, taken: Result<Vec<InputFile>, AppError>| #[trigger]
            crate::commands::choices::web_files_taken(pre, DataMenu::Geotiff, taken, mid) && match taken {
                Err(e) => a == Err::<(), AppError>(e) && rasters == mid,
                Ok(files) => {
                    &&& a == Ok::<(), AppError>(())
                    &&& inputs_queued(
                        mid,
                        LoadKind::Raster,
                        files@,
                        crate::loads::preview_limit(mid.view.applied.frames.downscale_raster_previews, mid.loads.hardware_limit),
                        files@.len() as int,
                        rasters,
                    )
                },
            };
        let files = taken->Ok_0;
        lemma_inputs(
            mid,
            LoadKind::Raster,
            files@,
            crate::loads::preview_limit(mid.view.applied.frames.downscale_raster_previews, mid.loads.hardware_limit),
            files@.len() as int,
            rasters,
        );
    }
}

/// A preview is no larger than the machine can show, nor than a preview is.
pub proof fn law_preview_limits(downscale: bool, hardware: u32)
    ensures
        crate::loads::preview_limit(downscale, hardware) <= hardware,
        !downscale ==> crate::loads::preview_limit(downscale, hardware) == hardware,
        downscale ==> crate::loads::preview_limit(downscale, hardware) <= crate::loads::MAX_RASTER_PREVIEW_DIMENSION,
        downscale && hardware <= crate::loads::MAX_RASTER_PREVIEW_DIMENSION ==> crate::loads::preview_limit(downscale, hardware) == hardware,
{
}

/// Drillholes are taken in where their tables could be read.
pub proof fn law_drillholes_in_the_browser(
    pre: App,
    source: DrillHoleSource,
    name: Seq<char>,
    parsed: Option<LoadedDrillHoles>,
    r: Result<(), AppError>,
    post: App,
)
    requires
        web_drill_holes_imported(pre, source, name, parsed, r, post),
    ensures
        r is Ok ==> parsed is Some && post.items.drill_holes@.len() == pre.items.drill_holes@.len() + 1 && post.items.drill_holes@.last().holes == parsed->0.holes
            && post.items.drill_holes@.last().tie_ins == parsed->0.tie_ins && text_of(post.items.drill_holes@.last().state.source) == Some(name),
        r is Err ==> post.items == pre.items,
        pre.files.import.web_files is Some ==> post.files.import.web_files is None,
{
}

/// The files that are chosen now are taken with their kind, and only once.
pub proof fn law_current_files(pre: App, r: Result<(DataMenu, Vec<InputFile>), AppError>, post: App)
    requires
        current_files_taken(pre, r, post),
    ensures
        pre.files.import.web_files matches Some(chosen) ==> r == Ok::<(DataMenu, Vec<InputFile>), AppError>(chosen) && post.files.import.web_files is None,
        pre.files.import.web_files is None ==> r is Err && post == pre,
{
}

/// Going to a project that is open already does nothing, and going to another
/// while one is being opened is refused.
pub proof fn law_going_to_a_project(
    pre: App,
    path: String,
    id: ProjectId,
    facts: DialogFacts,
    after: Seq<Option<HoleOrientation>>,
    r: Result<(), AppError>,
    by_path: App,
    s: Result<(), AppError>,
    by_id: App,
)
    requires
        tracked_activated(pre, path, facts, after, r, by_path),
        stored_activated(pre, id, facts, after, s, by_id),
    ensures
        (pre.workspace.active() matches Some(p) && text_of(p.path) == Some(path@)) ==> r is Ok && by_path == pre,
        (pre.workspace.active() matches Some(p) && p.id == id) ==> s is Ok && by_id == pre,
        !(pre.workspace.active() matches Some(p) && text_of(p.path) == Some(path@)) && pre.files.open_paths@.len() > 0 ==> r == Err::<(), AppError>(
            AppError::OpenPending,
        ) && by_path == pre,
        !(pre.workspace.active() matches Some(p) && p.id == id) && pre.files.browser.loads@ == Set::<ProjectId>::empty() && pre.files.browser.deletes@.contains(
            id,
        ) ==> s == Err::<(), AppError>(AppError::DeletePending) && by_id == pre,
{
}

/// A stored project is removed unless it is being loaded; the open one is
/// closed first.
pub proof fn law_removing_a_stored_project(pre: App, id: ProjectId, r: Result<(), AppError>, post: App)
    requires
        stored_removed(pre, id, r, post),
        pre.workspace.active() matches Some(p) ==> p.id != id,
    ensures
        pre.files.browser.loads@.contains(id) ==> r == Err::<(), AppError>(AppError::OpenPending) && post == pre,
        !pre.files.browser.loads@.contains(id) && pre.files.browser.loop_ready ==> r is Ok && post.files.browser.deletes@.contains(id),
        post.workspace == pre.workspace && post.items == pre.items,
{
}

/// A drawing of a project or of a layer is asked for by its own name.
pub proof fn law_drawings_are_asked_for(
    pre: App,
    id: u32,
    layer: Option<LayerId>,
    name: Seq<char>,
    facts: DialogFacts,
    after: Seq<Option<HoleOrientation>>,
    post: App,
)
    requires
        drawing_asked(pre, id, layer, name, facts, after, post),
        pre.platform == Platform::Native,
    ensures
        post.files.dialogs@.len() == pre.files.dialogs@.len() + 1,
        layer is None ==> (post.files.dialogs@.last() matches DialogRequest::ExportProjectDxf { project_runtime_id, file_name } && project_runtime_id == id
            && file_name@ == name),
        layer matches Some(l) ==> (post.files.dialogs@.last() matches DialogRequest::ExportLayerDxf { project_runtime_id, layer: x, file_name }
            && project_runtime_id == id && x == l && file_name@ == name),
        post.items == pre.items && post.workspace == pre.workspace,
{
}

/// A table of a block model is asked for by the model's name.
pub proof fn law_tables_are_asked_for(pre: App, id: BlockModelId, facts: DialogFacts, after: Seq<Option<HoleOrientation>>, post: App, i: int)
    requires
        table_asked(pre, id, facts, after, post),
        i == block_model_index(pre.items.block_models@, id),
        0 <= i,
        pre.platform == Platform::Native,
    ensures
        i >= pre.items.block_models@.len() ==> post == pre,
        i < pre.items.block_models@.len() ==> (post.files.dialogs@.last() matches DialogRequest::ExportBlockModelCsv { id: b, file_name } && b == id && (known_path(
            pre.items.block_models@[i].name@,
        ) ==> file_name@ == stem_of(file_part(pre.items.block_models@[i].name@)) + ".csv"@)),
        post.items == pre.items,
{
}

/// A picture of the view, and a sheet, are asked for by name.
pub proof fn law_pictures_are_asked_for(
    pre: App,
    facts: DialogFacts,
    after: Seq<Option<HoleOrientation>>,
    picture: App,
    plot: PlotFacts,
    r: Result<(), AppError>,
    sheet: App,
)
    requires
        picture_place_asked(pre, facts, after, picture),
        sheet_destination_asked(pre, plot, r, sheet),
        pre.platform == Platform::Native,
    ensures
        picture.files.dialogs@.drop_last() == pre.files.dialogs@ && picture.files.dialogs@.len() == pre.files.dialogs@.len() + 1 && picture.files.dialogs@.last() == DialogRequest::ExportViewportImage,
        r is Ok <==> pre.plot.dialog is Some && plot.layout is Some,
        r is Ok ==> (sheet.files.dialogs@.last() matches DialogRequest::ExportPlotSheet { file_name } && file_name@ == plot_stem(pre.plot.dialog->0) + ".png"@),
        r is Ok ==> sheet.files.dialogs@.drop_last() == pre.files.dialogs@,
        r is Err ==> sheet == pre,
{
}

/// Throwing away a layer's changes is asked about where it has any, its
/// project is stored, and nothing is being written or read for it.
pub proof fn law_asking_about_a_layer(pre: App, layer: LayerId, post: App, i: int, p: OpenProject)
    requires
        layer_discard_asked(pre, layer, post),
        i == index_of_layer(pre.workspace.projects@, layer),
        0 <= i < pre.workspace.projects@.len(),
        p == pre.workspace.projects@[i],
    ensures
        p.path is None || !p.layer_dirty(layer) || crate::files::save_pending(pre.files.saves@, p.runtime_id) ==> post == pre,
        p.path is Some && p.layer_dirty(layer) && !crate::commands::discard::project_busy(pre, p.runtime_id) ==> (post.files.closing.discard_layer matches Some((
            l,
            name,
        )) && l == layer && (p.document.layer_model(layer) matches Some(m) ==> name@ == m.name)),
        post.workspace == pre.workspace,
{
}

/// A project that was read again holds what is stored, with the preserved
/// layers and objects put back into it; nothing else of it changes.
pub proof fn law_carrying_over(stored: OpenProject, shots: Seq<SnapshotModel>, deferred: Set<LayerId>, post: OpenProject)
    requires
        carried_over(stored, shots, deferred, post),
    ensures
        layer_models(post.document.layers@) == all_layers_restored(layer_models(stored.document.layers@), shots),
        object_models(post.document.objects@) == all_objects_restored(object_models(stored.document.objects@), shots),
        shots.len() == 0 ==> layer_models(post.document.layers@) == layer_models(stored.document.layers@) && object_models(post.document.objects@)
            == object_models(stored.document.objects@),
        stored.deferred_layers@.subset_of(post.deferred_layers@),
        post.content_hash == stored.content_hash && post.path == stored.path && post.name == stored.name,
        post.document.next_layer_id == stored.document.next_layer_id && post.document.next_object_id == stored.document.next_object_id,
{
}

/// A project takes the place of another under a number of its own; the other
/// projects stay.
pub proof fn law_replaced_project(pre: Workspace, i: int, project: OpenProject, post: Workspace, j: int)
    requires
        project_replaced(pre, i, project, post),
        0 <= i < pre.projects@.len(),
        0 <= j < pre.projects@.len(),
        pre.next_runtime_id < u32::MAX,
    ensures
        post.projects@.len() == pre.projects@.len(),
        post.projects@[i].runtime_id == pre.next_runtime_id,
        opened_under(project, pre.next_runtime_id, post.projects@[i]),
        j != i ==> post.projects@[j] == pre.projects@[j],
        post.next_runtime_id == pre.next_runtime_id + 1 && post.active_index == pre.active_index,
{
}

/// What was read for a discard counts only where the project was not changed
/// since.
pub proof fn law_stale_discards(pre: App, revert: LayerRevert, stored: OpenProject, post: App, i: int)
    requires
        layer_revert_applied(pre, revert, stored, post),
        i == index_of_runtime(pre.workspace.projects@, revert.runtime_id),
        i >= 0,
    ensures
        i >= pre.workspace.projects@.len() ==> post == pre,
        i < pre.workspace.projects@.len() && pre.workspace.projects@[i].revision != revert.document_revision ==> post == pre,
        i < pre.workspace.projects@.len() && pre.workspace.projects@[i].revision == revert.document_revision ==> post.history.dropped@.contains(
            revert.runtime_id,
        ) && post.frame.geometry_stale,
{
    if i < pre.workspace.projects@.len() && pre.workspace.projects@[i].revision == revert.document_revision {
        let n = post.history.dropped@.len() - 1;
        assert(post.history.dropped@[n] == revert.runtime_id);
    }
}

/// A project that waits to be closed is closed once it is neither written nor
/// changed.
pub proof fn law_waiting_close(pre: App, post: App)
    requires
        pending_actions_finished(pre, post),
    ensures
        pre.files.closing.project is None ==> post == pre,
        pre.files.closing.project matches Some(id) ==> (crate::files::save_pending(pre.files.saves@, id) || crate::commands::closing::content_dirty(
            pre.workspace,
            id,
        ) ==> post == pre),
{
}

/// A project of the browser is deleted once it is stored, where it is being
/// stored.
pub proof fn law_deleting_in_the_browser(pre: App, id: u32, r: Result<(), AppError>, post: App, i: int)
    requires
        browser_project_deleted(pre, id, r, post),
        i == index_of_runtime(pre.workspace.projects@, id),
        i >= 0,
    ensures
        i >= pre.workspace.projects@.len() ==> r == Err::<(), AppError>(AppError::ProjectGone) && post == pre,
        i < pre.workspace.projects@.len() && pre.files.browser.saves@.contains(id) ==> r is Ok && post.files.browser.delete_after_save@.contains(id)
            && post.workspace == pre.workspace,
{
}

/// A replacement that was agreed to goes ahead with what was asked for, and is
/// forgotten.
pub proof fn law_continued_replacement(pre: App, facts: DialogFacts, after: Seq<Option<HoleOrientation>>, r: Result<(), AppError>, post: App)
    requires
        replacement_continued(pre, facts, after, r, post),
    ensures
        pre.files.replacement.pending is None ==> r is Ok && !post.files.replacement.after_save && !post.files.replacement.confirm_open && post.workspace
            == pre.workspace,
        pre.files.replacement.pending matches Some(action) ==> exists|agreed: App|
            agreed.files.replacement.bypass && agreed.files.replacement.pending is None && agreed.workspace == pre.workspace && agreed.items == pre.items
                && #[trigger] crate::commands::dialogs::action_executed(agreed, action, facts, after, r, post),
{
    if let Some(action) = pre.files.replacement.pending {
        let agreed = App {
            files: crate::files::Files {
                replacement: crate::files::Replacement { pending: None, bypass: true, after_save: false, confirm_open: false },
                ..pre.files
            },
            ..pre
        };
        assert(crate::commands::dialogs::action_executed(agreed, action, facts, after, r, post));
    }
}

/// An item whose data left memory is out of it; one that could not be stored is
/// loaded again.
pub proof fn law_leaving_memory(pre: App, item: ItemRef, moved: Option<OpenItem>, requests: Seq<u64>, post: App)
    requires
        eviction_applied(pre, item, moved, requests, post),
    ensures
        moved matches Some(open) ==> crate::commands::residency::residency_replaced(pre.items, open, post.items) && post.frame.bounds_stale,
        moved is None ==> post.items == pre.items,
{
}

/// Layers that were stored leave memory with the history of what is unloaded.
pub proof fn law_layers_leaving_memory(pre: App, layers: Seq<LayerId>, requests: Seq<u64>, post: App, p: OpenProject, x: LayerId)
    requires
        layer_eviction_applied(pre, layers, true, requests, post),
        pre.workspace.active() == Some(p),
    ensures
        post.workspace.active() matches Some(q) && (q.deferred_layers@.contains(x) <==> p.deferred_layers@.contains(x) || layers.contains(x)) && q.document
            == p.document,
        post.items == pre.items && post.steps == pre.steps,
        requests.len() == 0 ==> post.jobs == pre.jobs,
        requests.len() > 0 && post.jobs != pre.jobs ==> (post.jobs.pending@.last().work matches Work::ArchiveHistory { requests: q, .. } && q@ == requests),
{
}

/// The layers of a design that a drawing needs are those of its names that are
/// out of memory.
pub proof fn law_layers_needed_for_a_drawing(project: OpenProject, layers: Seq<Layer>, n: int)
    requires
        0 <= n < layers.len(),
    ensures
        stored_homes(project, layers, 0).len() == 0,
        !project.document.has_layer_named(layers[n].name@) ==> stored_homes(project, layers, n + 1) == stored_homes(project, layers, n),
        project.deferred_layers@ == Set::<LayerId>::empty() ==> stored_homes(project, layers, n + 1) == stored_homes(project, layers, n),
{
}

/// Drawings are joined at once where nothing has to be brought back, and the
/// layer drawn on is then a new one, where there is one.
pub proof fn law_joining_drawings(pre: App, i: int, drawings: Seq<Drawing>, post: App)
    requires
        drawings_taken(pre, i, drawings, post),
        0 <= i < pre.workspace.projects@.len(),
    ensures
        ({
            let (p, q) = (pre.workspace.projects@[i], post.workspace.projects@[i]);
            let before = crate::commands::restored::ids_of(p.document.layers@);
            &&& crate::commands::restored::first_new(q.document.layers@, before) matches Some(l) ==> post.canvas.active_layer == Some(l)
            &&& crate::commands::restored::first_new(q.document.layers@, before) is None ==> post.canvas.active_layer == pre.canvas.active_layer
            &&& q.runtime_id == p.runtime_id && q.loaded_layers == p.loaded_layers
            &&& drawings.len() == 1 ==> crate::merging::document_joined(p.document, drawings[0].document, q.document)
            &&& drawings.len() == 0 ==> q.document == p.document
        }),
        forall|j: int| 0 <= j < pre.workspace.projects@.len() && j != i ==> #[trigger] post.workspace.projects@[j] == pre.workspace.projects@[j],
        post.workspace.active_index == pre.workspace.active_index,
        post.items == pre.items && post.frame.fit_view,
{
    let (p, q) = (pre.workspace.projects@[i], post.workspace.projects@[i]);
    if drawings.len() == 1 {
        let mid = choose|mid: crate::document::Document|
            crate::commands::restored::drawings_joined(p.document, drawings, 0, mid) && #[trigger] crate::merging::document_joined(
                mid,
                drawings[0].document,
                q.document,
            );
        assert(mid == p.document);
    }
}

/// What was asked for goes on once items or layers are back; where they could
/// not be brought back it does not.
pub proof fn law_going_on(
    pre: App,
    restored: Option<Vec<OpenItem>>,
    layers: Option<Vec<LayerId>>,
    hidden: Seq<ObjectId>,
    items_back: App,
    layers_back: App,
    p: OpenProject,
    x: LayerId,
)
    requires
        restored_items_applied(pre, restored, Continuation::Nothing, hidden, items_back),
        restored_layers_applied(pre, layers, Continuation::Nothing, hidden, layers_back),
        pre.workspace.active() == Some(p),
    ensures
        restored is None ==> items_back == pre,
        layers is None ==> layers_back == pre,
        layers matches Some(list) ==> (layers_back.workspace.active() matches Some(q) && (q.deferred_layers@.contains(x) <==> p.deferred_layers@.contains(x)
            && !list@.contains(x))),
        items_back.workspace == pre.workspace || restored is Some,
{
}

/// Files are merged into the active project, one after the other; without a
/// project nothing is.
pub proof fn law_merging_files(pre: App, bundles: Seq<ImportBundle>, post: App)
    requires
        bundles_applied(pre, bundles, post),
    ensures
        pre.workspace.active() is None ==> post == pre,
        bundles.len() == 0 ==> post.workspace == pre.workspace && post.items == pre.items,
        pre.workspace.active() is Some && any_content(bundles) ==> post.frame.geometry_stale && post.frame.session_stale,
{
}

/// A file has content where it has an item or a design.
pub proof fn law_content_of_a_file(bundles: Seq<ImportBundle>, k: int)
    requires
        0 <= k < bundles.len(),
        bundles[k].designs@.len() > 0 || bundles[k].rasters@.len() > 0 || bundles[k].triangulations@.len() > 0 || bundles[k].block_models@.len() > 0
            || bundles[k].drill_holes@.len() > 0 || bundles[k].point_clouds@.len() > 0,
    ensures
        any_content(bundles),
{
    assert(item_count(bundles[k]) > 0);
}

/// Merging a file changes the active project alone.
pub proof fn law_merging_into_one_project(pre: Workspace, empty: bool, b: ImportBundle, post: Workspace, j: int)
    requires
        workspace_merged(pre, empty, b, post),
        pre.active() is Some,
        0 <= j < pre.projects@.len(),
        pre.active_index->0 != j,
    ensures
        post.projects@[j] == pre.projects@[j],
        post.active_index == pre.active_index && post.projects@.len() == pre.projects@.len(),
{
}

/// Hiding designs switches them; showing them brings back first what is out of
/// memory.
pub proof fn law_showing_a_section(pre: App, section: ExplorerSection, visible: bool, hidden: Seq<ObjectId>, post: App)
    requires
        section_shown(pre, section, visible, hidden, post),
    ensures
        section != ExplorerSection::Designs || !visible ==> section_switched(pre, section, visible, hidden, post),
        post.items == pre.items && post.workspace == pre.workspace,
{
}

/// A dialog that is shown or was closed does nothing but be drawn; an answer
/// does what it says, and one that fails keeps the program open.
pub proof fn law_taking_an_answer(pre: App, event: DialogEvent, after: Seq<Option<HoleOrientation>>, post: App)
    requires
        answer_taken(pre, event, after, post),
    ensures
        event is Shown ==> post == pre,
        event is Cancelled ==> post.workspace == pre.workspace && post.files == pre.files && post.frame.redraw_requested,
{
}

/// Letting a point cloud go unselects it and nothing else.
pub proof fn law_releasing_a_point_cloud(pre: App, id: PointCloudId, post: App, h: SceneEntityId)
    requires
        cloud_released(pre, id, post),
    ensures
        post.selection.handles@.contains(h) <==> pre.selection.handles@.contains(h) && h != SceneEntityId::PointCloud(id),
        post.visibility.hidden@.contains(h) <==> pre.visibility.hidden@.contains(h) && h != SceneEntityId::PointCloud(id),
        post.visibility.translucent@.contains(h) <==> pre.visibility.translucent@.contains(h) && h != SceneEntityId::PointCloud(id),
        post.visibility.frozen == pre.visibility.frozen,
        post.items == pre.items && post.steps == pre.steps,
{
}

/// Letting go of what was begun leaves no tool in hand, nothing selected and no
/// text open.
pub proof fn law_nothing_in_hand(pre: App, post: App)
    requires
        crate::commands::projects::transient_state_cleared(pre, post),
    ensures
        post.canvas.active_tool == crate::state::ActiveTool::Idle && post.canvas.drag is None,
        post.selection.handles@ == Set::<SceneEntityId>::empty(),
        !post.files.text.enabled && post.files.text.object is None,
        post.moving.session is None && post.moving.collars is None && post.turning.rotation is None,
        post.steps == pre.steps && post.jobs == pre.jobs,
{
}

/// The program starts with nothing open, selected, asked for or under way.
pub proof fn law_a_blank_start(app: App)
    requires
        crate::start::started(app),
    ensures
        app.workspace.active() is None && app.workspace.projects@.len() == 0 && app.steps@.len() == 0,
        app.items.triangulations@.len() == 0 && app.items.block_models@.len() == 0 && app.items.drill_holes@.len() == 0 && app.items.point_clouds@.len() == 0
            && app.items.raster_textures@.len() == 0,
        app.scene.objects@.len() == 0 && app.scene.layers@.len() == 0,
        forall|h: SceneEntityId| #![trigger app.selection.handles@.contains(h)]
            !app.selection.handles@.contains(h) && !app.visibility.hidden@.contains(h) && !app.visibility.frozen@.contains(h) && !app.visibility.translucent@.contains(
                h,
            ) && !app.visibility.explicitly_frozen@.contains(h),
        app.selection.last_pick is None && app.selection.tri_objects@.len() == 0,
        app.canvas.active_tool == crate::state::ActiveTool::Idle && app.canvas.active_layer is None && !app.canvas.delete_confirm_open && app.canvas.drag is None,
        app.files.saves@.len() == 0 && app.files.dialogs@.len() == 0 && app.files.requests@.len() == 0 && app.files.open_paths@.len() == 0,
        !app.files.exit.close_requested && !app.files.exit.confirm_open && app.files.closing.project is None && app.files.replacement.pending is None,
        app.surfaces.pick_target is None && !app.surfaces.create_open,
        app.moving.session is None && app.moving.collars is None && app.turning.rotation is None,
{
}

} // verus!
