//! Closing projects.

use crate::error::AppError;
use crate::files::{save_pending, writes_project, Browser, Closing, Files, PendingSave, PendingSaveKind, Request};
use crate::ids::{HoleRef, IdSet, SceneEntityId, TieRef};
use crate::items::Items;
use crate::jobs::{jobs_cancelled, JobFilter};
use crate::search::{filter_copied, find_first, first_index, lemma_first_index};
use crate::state::{App, Canvas, History, Moving, Platform, Selection};
use crate::text::same_text;
use crate::workspace::{index_of_object, index_of_runtime, OpenProject, ProjectId, ProjectPersistence, Workspace};
use vstd::prelude::*;

verus! {

/// The project with the runtime id holds anything that its stored copy does not.
pub open spec fn content_dirty(w: Workspace, runtime_id: u32) -> bool {
    let i = index_of_runtime(w.projects@, runtime_id);
    i < w.projects@.len() && w.projects@[i].dirty()
}

/// The project has never been stored where this platform stores projects.
pub open spec fn needs_first_save(platform: Platform, project: OpenProject) -> bool {
    match platform {
        Platform::Browser => !(project.persistence is BrowserRecord),
        Platform::Native => project.path is None,
    }
}

/// Whether the project has never been stored where this platform stores projects.
pub fn project_needs_first_save(platform: Platform, project: &OpenProject) -> (r: bool)
    ensures
        r == needs_first_save(platform, *project),
{
    match platform {
        Platform::Browser => match project.persistence {
            ProjectPersistence::BrowserRecord(_) => false,
            _ => true,
        },
        Platform::Native => project.path.is_none(),
    }
}

/// The project whose text is being edited.
pub open spec fn text_edit_index(app: App) -> Option<int> {
    if !app.files.text.enabled {
        None
    } else {
        let held = match app.files.text.object {
            Some(id) => {
                let i = index_of_object(app.workspace.projects@, id);
                if i < app.workspace.projects@.len() {
                    Some(i)
                } else {
                    None
                }
            },
            None => None,
        };
        match held {
            Some(i) => Some(i),
            None => match app.workspace.active_index {
                Some(a) => Some(a as int),
                None => None,
            },
        }
    }
}

/// The first write of the project closes it once it is over.
pub open spec fn close_noted(pre: Seq<PendingSave>, id: u32, post: Seq<PendingSave>) -> bool {
    let i = first_index(pre, |s: PendingSave| writes_project(s, id));
    if i < pre.len() {
        &&& post == pre.update(i, post[i])
        &&& post[i].ticket == pre[i].ticket && post[i].path == pre[i].path
        &&& match (pre[i].kind, post[i].kind) {
            (
                PendingSaveKind::Project {
                    runtime_id: r1,
                    snapshot_hash: h1,
                    content_before: c1,
                    snapshot_layer_hashes: l1,
                    asset_token: a1,
                    save_as_previous_name: n1,
                    ..
                },
                PendingSaveKind::Project {
                    runtime_id: r2,
                    snapshot_hash: h2,
                    content_before: c2,
                    snapshot_layer_hashes: l2,
                    asset_token: a2,
                    close_after,
                    save_as_previous_name: n2,
                },
            ) => r1 == r2 && h1 == h2 && c1 == c2 && l1 == l2 && a1 == a2 && n1 == n2 && close_after,
            _ => false,
        }
    } else {
        post == pre
    }
}

/// What asking a running write to close its project does.
pub open spec fn close_deferred(pre: Files, id: u32, post: Files) -> bool {
    &&& close_noted(pre.saves@, id, post.saves@)
    &&& post == (if save_pending(pre.saves@, id) {
        Files { saves: post.saves, closing: Closing { project: None, ..pre.closing }, ..pre }
    } else {
        pre
    })
}

impl Files {
    /// Remembers on a running write of the project that it closes afterwards;
    /// tells whether there is one.
    pub fn defer_close(&mut self, runtime_id: u32) -> (r: bool)
        ensures
            r == save_pending(old(self).saves@, runtime_id),
            close_deferred(*old(self), runtime_id, *final(self)),
    {
        let ghost fits = |s: PendingSave| writes_project(s, runtime_id);
        proof {
            lemma_first_index(self.saves@, fits);
        }
        match find_first(&self.saves, Ghost(fits), |s: &PendingSave| -> (b: bool)
            ensures
                b == writes_project(*s, runtime_id),
            { s.is_of_project(runtime_id) }) {
            Some(i) => {
                match &mut self.saves[i].kind {
                    PendingSaveKind::Project { close_after, .. } => {
                        *close_after = true;
                    },
                    _ => {},
                }
                assert(self.saves@ =~= old(self).saves@.update(i as int, self.saves@[i as int]));
                self.closing.project = None;
                true
            },
            None => false,
        }
    }

    /// Asks for the deletion of a stored project, unless it is asked for already.
    pub fn start_delete(&mut self, project_id: ProjectId, runtime_id: Option<u32>) -> (r: Result<(), AppError>)
        ensures
            delete_started(*old(self), project_id, runtime_id, r, *final(self)),
    {
        if !self.browser.loop_ready {
            return Err(AppError::LoopUnavailable);
        }
        let fresh = self.browser.deletes.insert(project_id);
        self.closing.project = None;
        if fresh {
            self.requests.push(Request::DeleteStoredProject { project_id, runtime_id });
        }
        Ok(())
    }
}

/// What asking for the deletion of a stored project does.
pub open spec fn delete_started(pre: Files, project_id: ProjectId, runtime_id: Option<u32>, r: Result<(), AppError>, post: Files) -> bool {
    if !pre.browser.loop_ready {
        r == Err::<(), AppError>(AppError::LoopUnavailable) && post == pre
    } else {
        &&& r == Ok::<(), AppError>(())
        &&& post == (Files {
            browser: Browser { deletes: post.browser.deletes, ..pre.browser },
            closing: Closing { project: None, ..pre.closing },
            requests: post.requests,
            ..pre
        })
        &&& post.browser.deletes@ == pre.browser.deletes@.insert(project_id)
        &&& if pre.browser.deletes@.contains(project_id) {
            post.requests == pre.requests
        } else {
            post.requests@ == pre.requests@.push(Request::DeleteStoredProject { project_id, runtime_id })
        }
    }
}

/// A path is another than this one.
pub open spec fn other_path(path: Seq<char>) -> spec_fn(String) -> bool {
    |p: String| p@ != path
}

/// The paths other than this one.
pub open spec fn paths_without(paths: Seq<String>, path: Seq<char>) -> Seq<String> {
    paths.filter(other_path(path))
}

/// Takes a path out of a list.
pub(crate) fn drop_path(paths: &mut Vec<String>, path: &str)
    ensures
        final(paths)@ == paths_without(old(paths)@, path@),
{
    let ghost keep = other_path(path@);
    let ghost all = paths@;
    let mut kept: Vec<String> = Vec::new();
    let mut done: Ghost<int> = Ghost(0);
    proof {
        reveal(Seq::filter);
        assert(all.skip(0) =~= all);
        assert(all.take(0).filter(keep) =~= Seq::<String>::empty());
    }
    while paths.len() > 0
        invariant
            keep == other_path(path@),
            0 <= done@ <= all.len(),
            paths@ == all.skip(done@),
            kept@ == all.take(done@).filter(keep),
        decreases paths.len(),
    {
        let p = paths.remove(0);
        proof {
            reveal(Seq::filter);
            assert(all.take(done@ + 1).drop_last() =~= all.take(done@));
            assert(p == all[done@]);
            assert(paths@ =~= all.skip(done@ + 1));
            done@ = done@ + 1;
        }
        if !same_text(p.as_str(), path) {
            kept.push(p);
        }
    }
    assert(all.take(all.len() as int) =~= all);
    *paths = kept;
}

/// The items once the project that owns them is gone.
pub open spec fn no_items(pre: Items, post: Items) -> bool {
    &&& post == (Items {
        triangulations: post.triangulations,
        block_models: post.block_models,
        drill_holes: post.drill_holes,
        point_clouds: post.point_clouds,
        raster_textures: post.raster_textures,
        ..pre
    })
    &&& post.triangulations@.len() == 0
    &&& post.block_models@.len() == 0
    &&& post.drill_holes@.len() == 0
    &&& post.point_clouds@.len() == 0
    &&& post.raster_textures@.len() == 0
}

impl Items {
    fn clear_all(&mut self)
        ensures
            no_items(*old(self), *final(self)),
    {
        self.triangulations.clear();
        self.block_models.clear();
        self.drill_holes.clear();
        self.point_clouds.clear();
        self.raster_textures.clear();
    }
}

/// The selection once the project that it is of is gone.
pub open spec fn no_selection(pre: Selection, post: Selection) -> bool {
    &&& post.handles@ == Set::<SceneEntityId>::empty()
    &&& post.holes@ == Set::<HoleRef>::empty()
    &&& post.ties@ == Set::<TieRef>::empty()
    &&& post == (Selection { handles: post.handles, holes: post.holes, ties: post.ties, ..pre })
}

impl Selection {
    pub(crate) fn drop_all(&mut self)
        ensures
            no_selection(*old(self), *final(self)),
    {
        self.handles.clear();
        self.holes.clear();
        self.ties.clear();
    }
}

/// What letting the open project go does: nothing that it owns stays.
pub open spec fn project_data_cleared(pre: App, post: App) -> bool {
    &&& post == (App {
        workspace: post.workspace,
        items: post.items,
        selection: post.selection,
        moving: (Moving { session: None, collars: None, ..pre.moving }).released().reset(),
        turning: pre.turning.reset(),
        canvas: Canvas { active_layer: None, active_triangulation: None, active_drill_hole: None, ..pre.canvas },
        history: History { active: None, ..pre.history },
        ..pre
    })
    &&& post.workspace == (Workspace { projects: post.workspace.projects, active_index: None, ..pre.workspace })
    &&& post.workspace.projects@.len() == 0
    &&& no_items(pre.items, post.items)
    &&& no_selection(pre.selection, post.selection)
}

/// What letting the open project go and showing it does.
pub open spec fn nothing_open(pre: App, post: App) -> bool {
    exists|mid: App| #[trigger] project_data_cleared(pre, mid) && post == (App { frame: pre.frame.session().geometry().fit(), ..mid })
}

/// The files once a project was closed: it may leave the list of known ones.
pub open spec fn files_after_close(pre: Files, native: bool, path: Option<String>, post: Files) -> bool {
    &&& post == (Files {
        closing: Closing {
            remove_after: if native {
                false
            } else {
                pre.closing.remove_after
            },
            ..pre.closing
        },
        known_paths: post.known_paths,
        startup_dismissed: false,
        ..pre
    })
    &&& post.known_paths@ == match path {
        Some(p) if native && pre.closing.remove_after => paths_without(pre.known_paths@, p@),
        _ => pre.known_paths@,
    }
}

impl Files {
    fn forget_closed(&mut self, native: bool, path: &Option<String>)
        ensures
            files_after_close(*old(self), native, *path, *final(self)),
    {
        if native && self.closing.remove_after {
            match path {
                Some(path) => drop_path(&mut self.known_paths, path.as_str()),
                None => {},
            }
            self.closing.remove_after = false;
        }
        self.startup_dismissed = false;
    }
}

/// What closing the active project does.
pub open spec fn active_closed(pre: App, i: int, post: App) -> bool {
    &&& files_after_close(pre.files, pre.platform == Platform::Native, pre.workspace.projects@[i].path, post.files)
    &&& nothing_open(App { files: post.files, ..pre }, post)
}

/// The active index once the project at `i` is gone.
pub open spec fn index_after(active: Option<usize>, i: int) -> Option<usize> {
    match active {
        Some(a) if a > i => Some((a - 1) as usize),
        _ => active,
    }
}

/// The handle is not of an object that no project holds.
pub open spec fn still_held(w: Workspace, handle: SceneEntityId) -> bool {
    match handle {
        SceneEntityId::Object(id) => index_of_object(w.projects@, id) < w.projects@.len(),
        _ => true,
    }
}

/// What closing a project beside the active one does.
pub open spec fn other_closed(pre: App, i: int, runtime_id: u32, post: App) -> bool {
    &&& post == (App {
        workspace: post.workspace,
        selection: post.selection,
        history: post.history,
        frame: pre.frame.session().geometry(),
        ..pre
    })
    &&& post.workspace == (Workspace {
        projects: post.workspace.projects,
        active_index: index_after(pre.workspace.active_index, i),
        ..pre.workspace
    })
    &&& post.workspace.projects@ == pre.workspace.projects@.remove(i)
    &&& post.history == (History { dropped: post.history.dropped, ..pre.history })
    &&& post.history.dropped@ == pre.history.dropped@.push(runtime_id)
    &&& post.selection == (Selection { handles: post.selection.handles, ..pre.selection })
    &&& forall|h: SceneEntityId| #[trigger]
        post.selection.handles@.contains(h) <==> pre.selection.handles@.contains(h) && still_held(post.workspace, h)
}

/// What removing a closed browser project does.
pub open spec fn browser_removed(pre: App, i: int, runtime_id: u32, post: App) -> bool {
    if pre.files.browser.saves@.contains(runtime_id) {
        &&& post == (App { files: post.files, ..pre })
        &&& post.files == (Files {
            browser: Browser { delete_after_save: post.files.browser.delete_after_save, ..pre.files.browser },
            closing: Closing { project: None, ..pre.files.closing },
            ..pre.files
        })
        &&& post.files.browser.delete_after_save@ == pre.files.browser.delete_after_save@.insert(runtime_id)
    } else {
        match pre.workspace.projects@[i].persistence {
            ProjectPersistence::BrowserRecord(id) => {
                &&& post == (App { files: post.files, ..pre })
                &&& exists|r: Result<(), AppError>| delete_started(pre.files, id, Some(runtime_id), r, post.files)
            },
            _ => active_closed(pre, i, post),
        }
    }
}

/// What closing a project does once nothing stands in its way.
pub open spec fn closed_at(pre: App, i: int, runtime_id: u32, post: App) -> bool {
    exists|mid: App| #[trigger]
        close_begun(pre, runtime_id, mid) && if pre.workspace.active_index == Some(i as usize) {
            if pre.platform == Platform::Browser && pre.files.closing.remove_after {
                browser_removed(
                    App { files: Files { closing: Closing { remove_after: false, ..mid.files.closing }, ..mid.files }, ..mid },
                    i,
                    runtime_id,
                    post,
                )
            } else {
                active_closed(mid, i, post)
            }
        } else {
            other_closed(mid, i, runtime_id, post)
        }
}

/// The jobs of a project that closes are withdrawn.
pub open spec fn close_begun(pre: App, runtime_id: u32, post: App) -> bool {
    &&& post == (App {
        jobs: post.jobs,
        files: Files { closing: Closing { project: None, ..pre.files.closing }, ..pre.files },
        ..pre
    })
    &&& jobs_cancelled(pre.jobs, JobFilter::Project(runtime_id), post.jobs)
}

/// What asking to close a project does: a project being loaded in the browser,
/// or a write of it, comes first.
pub open spec fn project_closed(pre: App, runtime_id: u32, post: App) -> bool {
    let i = index_of_runtime(pre.workspace.projects@, runtime_id);
    if pre.platform == Platform::Browser && pre.files.browser.loads@ != Set::<ProjectId>::empty() {
        post == pre
    } else if pre.platform == Platform::Native && save_pending(pre.files.saves@, runtime_id) {
        post == (App { files: post.files, ..pre }) && close_deferred(pre.files, runtime_id, post.files)
    } else if i >= pre.workspace.projects@.len() {
        post == pre
    } else {
        closed_at(pre, i, runtime_id, post)
    }
}

impl App {
    /// Whether the project holds anything that its stored copy does not.
    pub fn project_content_is_dirty(&self, runtime_id: u32) -> (r: bool)
        ensures
            r == content_dirty(self.workspace, runtime_id),
    {
        match self.workspace.project_index_for_runtime_id(runtime_id) {
            Some(i) => self.workspace.projects[i].is_dirty(),
            None => false,
        }
    }

    /// The project whose text is being edited.
    pub fn pending_text_edit_project_index(&self) -> (r: Option<usize>)
        ensures
            match r {
                Some(i) => text_edit_index(*self) == Some(i as int),
                None => text_edit_index(*self) is None,
            },
    {
        if !self.files.text.enabled {
            return None;
        }
        match self.files.text.object {
            Some(id) => match self.workspace.project_index_for_object(id) {
                Some(i) => Some(i),
                None => self.workspace.active_index,
            },
            None => self.workspace.active_index,
        }
    }

    /// Remembers on a running write of the project that it closes afterwards;
    /// tells whether there is one.
    pub fn defer_project_close_until_save_finishes(&mut self, runtime_id: u32) -> (r: bool)
        ensures
            r == save_pending(old(self).files.saves@, runtime_id),
            *final(self) == (App { files: final(self).files, ..*old(self) }),
            close_deferred(old(self).files, runtime_id, final(self).files),
    {
        self.files.defer_close(runtime_id)
    }

    /// Lets the open project go with everything that it owns.
    pub fn clear_project_owned_data(&mut self)
        ensures
            project_data_cleared(*old(self), *final(self)),
    {
        self.workspace.projects.clear();
        self.workspace.active_index = None;
        self.items.clear_all();
        self.selection.drop_all();
        self.moving.session = None;
        self.moving.collars = None;
        self.moving.drag = None;
        self.moving.drag_axis = None;
        self.moving.drag_plane = None;
        self.reset_move_editor_state();
        self.reset_rotate_editor_state();
        self.canvas.active_layer = None;
        self.canvas.active_triangulation = None;
        self.canvas.active_drill_hole = None;
        self.history.active = None;
    }

    fn close_active(&mut self, index: usize)
        requires
            index < old(self).workspace.projects@.len(),
        ensures
            active_closed(*old(self), index as int, *final(self)),
    {
        let native = self.platform == Platform::Native;
        self.files.forget_closed(native, &self.workspace.projects[index].path);
        self.show_nothing_open();
    }

    /// Lets the open project go, and shows what is shown with none open.
    fn show_nothing_open(&mut self)
        ensures
            nothing_open(*old(self), *final(self)),
    {
        self.clear_project_owned_data();
        let ghost mid = *self;
        self.persist_session();
        self.invalidate_geometry();
        self.fit_view_to_extents();
        assert(project_data_cleared(*old(self), mid));
    }

    fn close_other(&mut self, index: usize, runtime_id: u32)
        requires
            index < old(self).workspace.projects@.len(),
        ensures
            other_closed(*old(self), index as int, runtime_id, *final(self)),
    {
        self.history.dropped.push(runtime_id);
        self.workspace.projects.remove(index);
        match self.workspace.active_index {
            Some(active) => {
                if active > index {
                    self.workspace.active_index = Some(active - 1);
                }
            },
            None => {},
        }
        self.drop_lost_handles();
        self.persist_session();
        self.invalidate_geometry();
    }

    /// Takes objects that no project holds out of the selection.
    fn drop_lost_handles(&mut self)
        ensures
            *final(self) == (App { selection: final(self).selection, ..*old(self) }),
            final(self).selection == (Selection { handles: final(self).selection.handles, ..old(self).selection }),
            forall|h: SceneEntityId| #[trigger]
                final(self).selection.handles@.contains(h) <==> old(self).selection.handles@.contains(h) && still_held(old(self).workspace, h),
    {
        let ghost keep = |h: SceneEntityId| still_held(self.workspace, h);
        let w = &self.workspace;
        let kept = filter_copied(self.selection.handles.as_vec(), Ghost(keep), |h: SceneEntityId| -> (b: bool)
            ensures
                b == still_held(*w, h),
            {
                match h {
                    SceneEntityId::Object(id) => w.project_index_for_object(id).is_some(),
                    _ => true,
                }
            });
        let handles = IdSet::from_vec(&kept);
        proof {
            crate::ids::lemma_filter_members(self.selection.handles.order(), keep);
            assert forall|h: SceneEntityId| #[trigger] handles@.contains(h) <==> self.selection.handles@.contains(h) && keep(h) by {
                assert(handles@.contains(h) <==> kept@.contains(h));
                assert(self.selection.handles.order().to_set().contains(h) <==> self.selection.handles.order().contains(h));
            }
        }
        self.selection.handles = handles;
    }

    /// Removes a closed browser project: from storage if it is there.
    fn remove_browser_project(&mut self, index: usize, runtime_id: u32)
        requires
            index < old(self).workspace.projects@.len(),
        ensures
            browser_removed(*old(self), index as int, runtime_id, *final(self)),
    {
        if self.files.browser.saves.contains(runtime_id) {
            self.files.browser.delete_after_save.insert(runtime_id);
            self.files.closing.project = None;
            return ;
        }
        match self.workspace.projects[index].persistence {
            ProjectPersistence::BrowserRecord(id) => {
                let r = self.files.start_delete(id, Some(runtime_id));
                assert(delete_started(old(self).files, id, Some(runtime_id), r, self.files));
            },
            _ => self.close_active(index),
        }
    }

    /// Closes a project.
    pub fn close_project(&mut self, runtime_id: u32)
        ensures
            project_closed(*old(self), runtime_id, *final(self)),
    {
        if self.platform == Platform::Browser && !self.files.browser.loads.is_empty() {
            return ;
        }
        if self.platform == Platform::Native && self.defer_project_close_until_save_finishes(runtime_id) {
            return ;
        }
        let index: usize = match self.workspace.project_index_for_runtime_id(runtime_id) {
            Some(i) => i,
            None => {
                return ;
            },
        };
        self.cancel_jobs(JobFilter::Project(runtime_id));
        self.files.closing.project = None;
        let ghost mid = *self;
        assert(close_begun(*old(self), runtime_id, mid));
        let was_active = match self.workspace.active_index {
            Some(a) => a == index,
            None => false,
        };
        if was_active {
            if self.platform == Platform::Browser && self.files.closing.remove_after {
                self.files.closing.remove_after = false;
                self.remove_browser_project(index, runtime_id);
            } else {
                self.close_active(index);
            }
        } else {
            self.close_other(index, runtime_id);
        }
    }
}

} // verus!
