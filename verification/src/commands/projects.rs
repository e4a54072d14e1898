//! Opening projects and making new ones.

use crate::commands::closing::project_data_cleared;
use crate::commands::saves::copy_hashes;
use crate::drawing::move_tool::move_cancelled;
use crate::files::{Files, TextEdit};
use crate::ids::{LayerId, SceneEntityId};
use crate::jobs::{job_queued, last_work, one_key, JobKey, Work};
use crate::snapshots::opened_under;
use crate::state::{ActiveTool, App, Canvas, History, Selection};
use crate::workspace::{OpenProject, Workspace};
use vstd::prelude::*;

verus! {

/// What taking the state of a project for its stored one does.
pub open spec fn marked_saved(pre: OpenProject, post: OpenProject) -> bool {
    &&& post == (OpenProject {
        saved_hash: Some(pre.content_hash),
        saved_asset_revision: pre.asset_revision,
        saved_layer_hashes: post.saved_layer_hashes,
        ..pre
    })
    &&& post.saved_layer_hashes@ == pre.layer_hashes@
}

/// A project whose state was taken for its stored one holds no unsaved work.
pub proof fn law_marked_saved_is_clean(pre: OpenProject, post: OpenProject)
    requires
        marked_saved(pre, post),
    ensures
        !post.dirty(),
        forall|layer: LayerId| !(#[trigger] post.layer_dirty(layer)),
{
}

impl OpenProject {
    /// Takes the state of the project for its stored one.
    pub fn mark_saved(&mut self)
        ensures
            marked_saved(*old(self), *final(self)),
    {
        self.saved_layer_hashes = copy_hashes(&self.layer_hashes);
        self.saved_hash = Some(self.content_hash);
        self.saved_asset_revision = self.asset_revision;
    }
}

/// What a project that takes the place of the open one does.
pub open spec fn project_installed(pre: App, project: OpenProject, post: App) -> bool {
    let id = pre.workspace.next_runtime_id;
    exists|mid: App| #[trigger]
        project_data_cleared(pre, mid) && post == (App {
            workspace: Workspace { projects: post.workspace.projects, active_index: Some(0), next_runtime_id: (id + 1) as u32 },
            history: History { active: Some(id), ..mid.history },
            ..mid
        }) && post.workspace.projects@.len() == 1 && opened_under(project, id, post.workspace.projects@[0])
}

/// What starting on an empty project does.
pub open spec fn untitled_started(pre: App, blank: OpenProject, post: App) -> bool {
    exists|clean: OpenProject, mid: App|
        marked_saved(blank, clean) && #[trigger] project_installed(pre, clean, mid) && post == (App { frame: mid.frame.fit(), ..mid })
}

/// What beginning to open a project does: nothing where its path is busy.
pub open spec fn open_begun(pre: App, path: Seq<char>, label: Seq<char>, post: App) -> bool {
    if pre.files.path_busy(path) {
        post == pre
    } else {
        let reserved = App { files: post.files, ..pre };
        &&& post.files == (Files { open_paths: post.files.open_paths, ..pre.files })
        &&& post.files.open_paths@.len() == pre.files.open_paths@.len() + 1
        &&& post.files.open_paths@.drop_last() == pre.files.open_paths@
        &&& post.files.open_paths@.last()@ == path
        &&& job_queued(reserved, label, seq![JobKey::Anonymous], last_work(post), post)
        &&& last_work(post) matches Work::OpenProject { path: p } && p@ == path
    }
}

/// What abandoning everything half done does.
pub open spec fn transient_state_cleared(pre: App, post: App) -> bool {
    exists|mid: App| #[trigger]
        move_cancelled(pre, mid) && post == (App {
            selection: post.selection,
            canvas: Canvas { active_tool: ActiveTool::Idle, drag: None, ..mid.canvas },
            files: Files { text: TextEdit { enabled: false, object: None }, ..mid.files },
            ..mid
        }) && post.selection == (Selection { handles: post.selection.handles, ..mid.selection }) && post.selection.handles@ == Set::<
            SceneEntityId,
        >::empty()
}

impl App {
    /// Lets a project take the place of the open one.
    pub fn set_active_project(&mut self, project: OpenProject)
        requires
            old(self).workspace.next_runtime_id < u32::MAX,
        ensures
            project_installed(*old(self), project, *final(self)),
    {
        let id: u32 = self.workspace.next_runtime_id;
        self.clear_project_owned_data();
        let ghost mid = *self;
        assert(project_data_cleared(*old(self), mid));
        let mut opened = project;
        opened.open_under(id);
        self.workspace.projects.push(opened);
        self.workspace.active_index = Some(0);
        self.workspace.next_runtime_id = id + 1;
        self.history.active = Some(id);
    }

    /// Lets an empty project take the place of the open one. Nothing has been
    /// drawn in it, so it holds no unsaved work.
    pub fn start_untitled_project(&mut self, blank: OpenProject)
        requires
            old(self).workspace.next_runtime_id < u32::MAX,
        ensures
            untitled_started(*old(self), blank, *final(self)),
    {
        let mut clean = blank;
        clean.mark_saved();
        self.set_active_project(clean);
        assert(project_installed(*old(self), clean, *self));
        self.fit_view_to_extents();
    }

    /// Begins to open a project.
    pub fn start_open_project_path(&mut self, path: &str, label: String)
        requires
            old(self).jobs.next_ticket < u64::MAX,
        ensures
            open_begun(*old(self), path@, label@, *final(self)),
    {
        if self.files.save_path_is_pending(path) {
            return ;
        }
        self.files.open_paths.push(path.to_string());
        assert(self.files.open_paths@.drop_last() =~= old(self).files.open_paths@);
        let ghost reserved = *self;
        self.spawn_job(label, one_key(JobKey::Anonymous), Work::OpenProject { path: path.to_string() });
        assert(App { files: self.files, ..*old(self) } == reserved);
    }

    /// Abandons everything half done.
    pub fn clear_editor_transient_state(&mut self)
        ensures
            transient_state_cleared(*old(self), *final(self)),
    {
        self.cancel_move_delta();
        let ghost mid = *self;
        assert(move_cancelled(*old(self), mid));
        self.selection.handles.clear();
        self.canvas.active_tool = ActiveTool::Idle;
        self.canvas.drag = None;
        self.files.text = TextEdit { enabled: false, object: None };
    }
}

/// A project that was opened is the only one, and the active one.
pub proof fn law_one_project(pre: App, project: OpenProject, post: App)
    requires
        project_installed(pre, project, post),
    ensures
        post.workspace.projects@.len() == 1,
        post.workspace.active() matches Some(p) && opened_under(project, pre.workspace.next_runtime_id, p),
{
}

/// Starting on an empty project leaves nothing unsaved.
pub proof fn law_untitled_is_clean(pre: App, blank: OpenProject, post: App)
    requires
        untitled_started(pre, blank, post),
    ensures
        post.workspace.active() matches Some(p) && !p.dirty(),
{
}

} // verus!
