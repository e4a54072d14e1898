//! Putting stored state back.

use crate::commands::projects::transient_state_cleared;
use crate::commands::saves::{revert_pending, same_projects};
use crate::document::{layer_models, object_models, Layer};
use crate::error::AppError;
use crate::files::{save_pending, Closing, Files};
use crate::ids::{IdSet, LayerId};
use crate::jobs::{job_queued, jobs_cancelled, last_work, one_key, JobFilter, JobKey, Work};
use crate::search::{find_first, first_index, lemma_first_index};
use crate::snapshots::{all_layers_restored, all_objects_restored, opened_under, preserved, snapshot_models, LayerSnapshot, SnapshotModel};
use crate::state::{App, Canvas, History};
use crate::workspace::{index_of_layer, index_of_runtime, local_id, OpenProject, Workspace};
use vstd::prelude::*;

verus! {

/// What it takes to put the stored state of one layer back: the layers with
/// other unsaved changes, which stay as they are. Ids are those within the
/// project.
pub struct LayerRevert {
    pub runtime_id: u32,
    pub path: String,
    pub document_revision: u64,
    pub active_layer: Option<u64>,
    pub preserved: Vec<LayerSnapshot>,
    pub deferred: IdSet<LayerId>,
}

/// The project has unsaved changes that can be put back, on this layer.
pub open spec fn discardable(project: OpenProject, layer: LayerId) -> bool {
    project.path is Some && project.layer_dirty(layer)
}

/// A write of the project, or a job that derives from it, is under way.
pub open spec fn project_busy(app: App, id: u32) -> bool {
    save_pending(app.files.saves@, id) || revert_pending(app.jobs, id)
}

/// What asking to put a layer back does: the user is asked first.
pub open spec fn layer_discard_asked(pre: App, layer: LayerId, post: App) -> bool {
    let projects = pre.workspace.projects@;
    let i = index_of_layer(projects, layer);
    if i >= projects.len() || !discardable(projects[i], layer) || project_busy(pre, projects[i].runtime_id) {
        post == pre
    } else {
        &&& post == (App {
            files: Files { closing: Closing { discard_layer: post.files.closing.discard_layer, ..pre.files.closing }, ..pre.files },
            ..pre
        })
        &&& post.files.closing.discard_layer matches Some((l, name)) && l == layer && Some(name@) == match projects[i].document.layer_model(layer) {
            Some(m) => Some(m.name),
            None => None,
        }
    }
}

/// The question about a layer is answered.
pub open spec fn layer_question_shut(pre: App) -> App {
    App { files: Files { closing: Closing { discard_layer: None, ..pre.files.closing }, ..pre.files }, ..pre }
}

/// The question about a project is answered.
pub open spec fn project_question_shut(pre: App) -> App {
    App { files: Files { closing: Closing { discard_project: None, ..pre.files.closing }, ..pre.files }, ..pre }
}

/// Whatever is half done is abandoned where it is over the project at an index.
pub open spec fn cleared_if_active(pre: App, i: int, post: App) -> bool {
    if pre.workspace.active_index matches Some(a) && a == i {
        transient_state_cleared(pre, post)
    } else {
        post == pre
    }
}

/// The layer that is drawn on, within its project.
pub open spec fn active_local(app: App, i: int) -> Option<u64> {
    if app.workspace.active_index matches Some(a) && a == i {
        match app.canvas.active_layer {
            Some(layer) => Some(local_id(layer)),
            None => None,
        }
    } else {
        None
    }
}

/// What is needed to put a layer of a project back.
pub open spec fn revert_of(project: OpenProject, layer: LayerId, active: Option<u64>, path: Seq<char>, revert: LayerRevert) -> bool {
    &&& revert.runtime_id == project.runtime_id
    &&& revert.path@ == path
    &&& revert.document_revision == project.revision
    &&& revert.active_layer == active
    &&& snapshot_models(revert.preserved@) == preserved(project, local_id(layer), project.document.layers@.len() as int)
    &&& revert.deferred@ == crate::snapshots::ids_under(project.deferred_layers@, 0)
}

/// What putting a layer back does: its stored state is read in the background.
pub open spec fn layer_discarded(pre: App, layer: LayerId, r: Result<(), AppError>, post: App) -> bool {
    let asked = layer_question_shut(pre);
    let projects = pre.workspace.projects@;
    let i = index_of_layer(projects, layer);
    if i >= projects.len() {
        r == Err::<(), AppError>(AppError::LayerNotFound) && post == asked
    } else if project_busy(pre, projects[i].runtime_id) {
        r == Err::<(), AppError>(AppError::SavePending) && post == asked
    } else {
        exists|mid: App| #[trigger]
            cleared_if_active(asked, i, mid) && match mid.workspace.projects@[i].path {
                None => r == Err::<(), AppError>(AppError::NeverSaved) && post == mid,
                Some(path) => {
                    let project = mid.workspace.projects@[i];
                    &&& r == Ok::<(), AppError>(())
                    &&& job_queued(
                        mid,
                        "Reverting layer…"@,
                        seq![JobKey::Project { runtime_id: project.runtime_id, document_revision: project.revision }],
                        last_work(post),
                        post,
                    )
                    &&& last_work(post) matches Work::RevertLayer(revert) && revert_of(project, layer, active_local(pre, i), path@, revert)
                },
            }
    }
}

/// What putting a project back does: its stored state is read in the background.
pub open spec fn project_discarded(pre: App, id: u32, r: Result<(), AppError>, post: App) -> bool {
    let asked = project_question_shut(pre);
    let projects = pre.workspace.projects@;
    let i = index_of_runtime(projects, id);
    if i >= projects.len() {
        r == Err::<(), AppError>(AppError::ProjectGone) && post == asked
    } else if save_pending(pre.files.saves@, id) {
        r == Err::<(), AppError>(AppError::SavePending) && post == asked
    } else {
        exists|mid: App| #[trigger]
            cleared_if_active(asked, i, mid) && match mid.workspace.projects@[i].path {
                None => r == Err::<(), AppError>(AppError::NeverSaved) && post == mid,
                Some(path) => {
                    let project = mid.workspace.projects@[i];
                    &&& r == Ok::<(), AppError>(())
                    &&& job_queued(
                        mid,
                        "Reverting project…"@,
                        seq![JobKey::Project { runtime_id: id, document_revision: project.revision }],
                        last_work(post),
                        post,
                    )
                    &&& last_work(post) matches Work::RevertProject { runtime_id, path: p, expected_hash } && runtime_id == id && p@ == path@
                        && expected_hash == project.content_hash
                },
            }
    }
}

/// The layers that are carried over and whose data lies in storage.
pub open spec fn carried_deferred(shots: Seq<SnapshotModel>, deferred: Set<LayerId>) -> Set<LayerId> {
    Set::new(|l: LayerId| deferred.contains(l) && exists|i: int| 0 <= i < shots.len() && (#[trigger] shots[i]).layer.id == l)
}

/// The stored project with the layers that stay as they are carried over.
pub open spec fn carried_over(stored: OpenProject, shots: Seq<SnapshotModel>, deferred: Set<LayerId>, post: OpenProject) -> bool {
    &&& post == (OpenProject { document: post.document, deferred_layers: post.deferred_layers, ..stored })
    &&& layer_models(post.document.layers@) == all_layers_restored(layer_models(stored.document.layers@), shots)
    &&& object_models(post.document.objects@) == all_objects_restored(object_models(stored.document.objects@), shots)
    &&& post.document.next_layer_id == stored.document.next_layer_id
    &&& post.document.next_object_id == stored.document.next_object_id
    &&& post.deferred_layers@ == stored.deferred_layers@.union(carried_deferred(shots, deferred))
}

impl OpenProject {
    /// Carries layers over into a project.
    fn carry_over(&mut self, shots: Vec<LayerSnapshot>, deferred: &IdSet<LayerId>)
        ensures
            carried_over(*old(self), snapshot_models(shots@), deferred@, *final(self)),
    {
        let ghost models = snapshot_models(shots@);
        let mut i: usize = 0;
        while i < shots.len()
            invariant
                i <= shots.len(),
                models == snapshot_models(shots@),
                *self == (OpenProject { deferred_layers: self.deferred_layers, ..*old(self) }),
                forall|l: LayerId| #[trigger]
                    self.deferred_layers@.contains(l) <==> old(self).deferred_layers@.contains(l) || (deferred@.contains(l) && exists|j: int|
                        0 <= j < i && (#[trigger] models[j]).layer.id == l),
            decreases shots.len() - i,
        {
            let id = shots[i].layer.id;
            let ghost before = self.deferred_layers@;
            if deferred.contains(id) {
                self.deferred_layers.insert(id);
            }
            i += 1;
            proof {
                assert(models[i - 1].layer.id == id);
                assert forall|l: LayerId| #[trigger]
                    self.deferred_layers@.contains(l) <==> old(self).deferred_layers@.contains(l) || (deferred@.contains(l) && exists|j: int|
                        0 <= j < i && (#[trigger] models[j]).layer.id == l) by {
                    assert(before.contains(l) <==> old(self).deferred_layers@.contains(l) || (deferred@.contains(l) && exists|j: int|
                        0 <= j < i - 1 && (#[trigger] models[j]).layer.id == l));
                }
            }
        }
        assert(self.deferred_layers@ =~= old(self).deferred_layers@.union(carried_deferred(models, deferred@)));
        self.document.replace_layer_snapshots(shots);
    }
}

/// The layer of a document with an id within the project.
pub open spec fn layer_by_local(layers: Seq<Layer>, local: Option<u64>) -> Option<LayerId> {
    match local {
        Some(local) => {
            let i = first_index(layers, |l: Layer| local_id(l.id) == local);
            if i < layers.len() {
                Some(layers[i].id)
            } else {
                None
            }
        },
        None => None,
    }
}

fn find_layer_by_local(layers: &Vec<Layer>, local: Option<u64>) -> (r: Option<LayerId>)
    ensures
        r == layer_by_local(layers@, local),
{
    let local: u64 = match local {
        Some(local) => local,
        None => {
            return None;
        },
    };
    let found = find_first(layers, Ghost(|l: Layer| local_id(l.id) == local), |l: &Layer| -> (b: bool)
        ensures
            b == (local_id(l.id) == local),
        { l.id.0 % 0x1_0000_0000 == local });
    match found {
        Some(i) => Some(layers[i].id),
        None => None,
    }
}

/// The projects once one of them was replaced: it is opened under a new number
/// in the same place.
pub open spec fn project_replaced(pre: Workspace, i: int, project: OpenProject, post: Workspace) -> bool {
    &&& post == (Workspace { projects: post.projects, next_runtime_id: (pre.next_runtime_id + 1) as u32, ..pre })
    &&& post.projects@.len() == pre.projects@.len()
    &&& opened_under(project, pre.next_runtime_id, post.projects@[i])
    &&& forall|j: int| 0 <= j < pre.projects@.len() && j != i ==> #[trigger] post.projects@[j] == pre.projects@[j]
}

impl Workspace {
    /// Replaces a project.
    fn replace_project(&mut self, i: usize, project: OpenProject)
        requires
            i < old(self).projects@.len(),
            old(self).next_runtime_id < u32::MAX,
        ensures
            project_replaced(*old(self), i as int, project, *final(self)),
    {
        let ns: u32 = self.next_runtime_id;
        let mut opened = project;
        opened.open_under(ns);
        self.projects.set(i, opened);
        self.next_runtime_id = ns + 1;
    }
}

/// What putting a layer back does once the stored project was read.
pub open spec fn layer_put_back(pre: App, i: int, revert: LayerRevert, stored: OpenProject, post: App) -> bool {
    exists|mid: App, merged: OpenProject|
        {
            &&& #[trigger] cleared_if_active(pre, i, mid)
            &&& #[trigger] carried_over(stored, snapshot_models(revert.preserved@), revert.deferred@, merged)
            &&& project_replaced(mid.workspace, i, merged, post.workspace)
            &&& jobs_cancelled(mid.jobs, JobFilter::Project(revert.runtime_id), post.jobs)
            &&& post.history.dropped@ == mid.history.dropped@.push(revert.runtime_id)
            &&& {
                let active = pre.workspace.active_index matches Some(a) && a == i;
                post == (App {
                    workspace: post.workspace,
                    jobs: post.jobs,
                    history: History {
                        dropped: post.history.dropped,
                        active: if active {
                            Some(pre.workspace.next_runtime_id)
                        } else {
                            mid.history.active
                        },
                        ..mid.history
                    },
                    canvas: Canvas {
                        active_layer: if active {
                            layer_by_local(post.workspace.projects@[i].document.layers@, revert.active_layer)
                        } else {
                            mid.canvas.active_layer
                        },
                        ..mid.canvas
                    },
                    frame: mid.frame.geometry(),
                    ..mid
                })
            }
        }
}

/// What the end of reading a stored layer does: nothing where the project is
/// gone or has changed since.
pub open spec fn layer_revert_applied(pre: App, revert: LayerRevert, stored: OpenProject, post: App) -> bool {
    let projects = pre.workspace.projects@;
    let i = index_of_runtime(projects, revert.runtime_id);
    if i >= projects.len() || projects[i].revision != revert.document_revision {
        post == pre
    } else {
        layer_put_back(pre, i, revert, stored, post)
    }
}

/// Abandoning what is half done leaves the list of projects, the jobs and the
/// files alone, apart from a text being edited.
proof fn lemma_cleared_keeps(pre: App, i: int, post: App)
    requires
        cleared_if_active(pre, i, post),
    ensures
        same_projects(pre.workspace, post.workspace),
        post.jobs == pre.jobs,
        post.files.saves == pre.files.saves,
{
    if pre.workspace.active_index matches Some(a) && a == i {
        assert(transient_state_cleared(pre, post));
        if let Some(s) = pre.moving.session {
            lemma_first_index(pre.workspace.projects@, |p: OpenProject| p.runtime_id == s.project_runtime_id);
        }
    }
}

impl App {
    fn clear_if_active(&mut self, i: usize)
        ensures
            cleared_if_active(*old(self), i as int, *final(self)),
    {
        let active = match self.workspace.active_index {
            Some(a) => a == i,
            None => false,
        };
        if active {
            self.clear_editor_transient_state();
        }
    }

    fn project_is_busy(&self, id: u32) -> (r: bool)
        ensures
            r == project_busy(*self, id),
    {
        self.project_save_is_pending(id) || self.project_revert_is_pending(id)
    }

    /// Asks whether unsaved changes to a layer are to go.
    pub fn request_discard_layer_changes(&mut self, layer: LayerId)
        ensures
            layer_discard_asked(*old(self), layer, *final(self)),
    {
        let i: usize = match self.workspace.project_index_for_layer(layer) {
            Some(i) => i,
            None => {
                return ;
            },
        };
        let id: u32 = self.workspace.projects[i].runtime_id;
        if self.workspace.projects[i].path.is_none() || !self.workspace.projects[i].is_layer_dirty(layer) || self.project_is_busy(id) {
            return ;
        }
        let name = match self.workspace.projects[i].document.layer(layer) {
            Some(l) => l.name.clone(),
            None => {
                return ;
            },
        };
        self.files.closing.discard_layer = Some((layer, name));
    }

    fn queue_layer_revert(&mut self, i: usize, layer: LayerId, active: Option<u64>) -> (r: Result<(), AppError>)
        requires
            i < old(self).workspace.projects@.len(),
            old(self).jobs.next_ticket < u64::MAX,
        ensures
            match old(self).workspace.projects@[i as int].path {
                None => r == Err::<(), AppError>(AppError::NeverSaved) && *final(self) == *old(self),
                Some(path) => {
                    let project = old(self).workspace.projects@[i as int];
                    &&& r == Ok::<(), AppError>(())
                    &&& job_queued(
                        *old(self),
                        "Reverting layer…"@,
                        seq![JobKey::Project { runtime_id: project.runtime_id, document_revision: project.revision }],
                        last_work(*final(self)),
                        *final(self),
                    )
                    &&& last_work(*final(self)) matches Work::RevertLayer(revert) && revert_of(project, layer, active, path@, revert)
                },
            },
    {
        let project = &self.workspace.projects[i];
        let path = match &project.path {
            Some(path) => path.clone(),
            None => {
                return Err(AppError::NeverSaved);
            },
        };
        let runtime_id: u32 = project.runtime_id;
        let document_revision: u64 = project.revision;
        let revert = LayerRevert {
            runtime_id,
            path,
            document_revision,
            active_layer: active,
            preserved: project.preserved_layers(layer.0 % 0x1_0000_0000),
            deferred: crate::snapshots::set_under(&project.deferred_layers, 0),
        };
        self.spawn_job(
            "Reverting layer…".to_owned(),
            one_key(JobKey::Project { runtime_id, document_revision }),
            Work::RevertLayer(revert),
        );
        Ok(())
    }

    /// Puts the stored state of a layer back.
    pub fn discard_layer_changes(&mut self, layer: LayerId) -> (r: Result<(), AppError>)
        requires
            old(self).jobs.next_ticket < u64::MAX,
        ensures
            layer_discarded(*old(self), layer, r, *final(self)),
    {
        self.files.closing.discard_layer = None;
        let i: usize = match self.workspace.project_index_for_layer(layer) {
            Some(i) => i,
            None => {
                return Err(AppError::LayerNotFound);
            },
        };
        let id: u32 = self.workspace.projects[i].runtime_id;
        if self.project_is_busy(id) {
            return Err(AppError::SavePending);
        }
        let active: Option<u64> = match self.workspace.active_index {
            Some(a) => {
                if a == i {
                    match self.canvas.active_layer {
                        Some(l) => Some(l.0 % 0x1_0000_0000),
                        None => None,
                    }
                } else {
                    None
                }
            },
            None => None,
        };
        let ghost asked = *self;
        self.clear_if_active(i);
        let ghost mid = *self;
        proof {
            assert(cleared_if_active(asked, i as int, mid));
            lemma_cleared_keeps(asked, i as int, mid);
        }
        self.queue_layer_revert(i, layer, active)
    }

    /// Puts the stored state of a project back.
    pub fn discard_project_changes(&mut self, runtime_id: u32) -> (r: Result<(), AppError>)
        requires
            old(self).jobs.next_ticket < u64::MAX,
        ensures
            project_discarded(*old(self), runtime_id, r, *final(self)),
    {
        self.files.closing.discard_project = None;
        let i: usize = match self.workspace.project_index_for_runtime_id(runtime_id) {
            Some(i) => i,
            None => {
                return Err(AppError::ProjectGone);
            },
        };
        if self.project_save_is_pending(runtime_id) {
            return Err(AppError::SavePending);
        }
        let ghost asked = *self;
        self.clear_if_active(i);
        let ghost mid = *self;
        proof {
            assert(cleared_if_active(asked, i as int, mid));
            lemma_cleared_keeps(asked, i as int, mid);
        }
        let path = match &self.workspace.projects[i].path {
            Some(path) => path.clone(),
            None => {
                return Err(AppError::NeverSaved);
            },
        };
        let document_revision: u64 = self.workspace.projects[i].revision;
        let expected_hash: u64 = self.workspace.projects[i].content_hash;
        self.spawn_job(
            "Reverting project…".to_owned(),
            one_key(JobKey::Project { runtime_id, document_revision }),
            Work::RevertProject { runtime_id, path, expected_hash },
        );
        Ok(())
    }

    fn put_layer_back(&mut self, i: usize, revert: LayerRevert, stored: OpenProject)
        requires
            i < old(self).workspace.projects@.len(),
            old(self).workspace.next_runtime_id < u32::MAX,
        ensures
            layer_put_back(*old(self), i as int, revert, stored, *final(self)),
    {
        let active = match self.workspace.active_index {
            Some(a) => a == i,
            None => false,
        };
        let mut merged = stored;
        merged.carry_over(revert.preserved, &revert.deferred);
        self.clear_if_active(i);
        let ghost mid = *self;
        proof {
            assert(cleared_if_active(*old(self), i as int, mid));
            lemma_cleared_keeps(*old(self), i as int, mid);
            assert(carried_over(stored, snapshot_models(revert.preserved@), revert.deferred@, merged));
        }
        self.cancel_jobs(JobFilter::Project(revert.runtime_id));
        self.history.dropped.push(revert.runtime_id);
        let id: u32 = self.workspace.next_runtime_id;
        self.workspace.replace_project(i, merged);
        if active {
            self.history.active = Some(id);
            self.canvas.active_layer = find_layer_by_local(&self.workspace.projects[i].document.layers, revert.active_layer);
        }
        self.invalidate_geometry();
    }

    /// Takes over a layer from the stored project, once it was read.
    pub fn apply_layer_revert(&mut self, revert: LayerRevert, stored: OpenProject)
        requires
            old(self).workspace.next_runtime_id < u32::MAX,
        ensures
            layer_revert_applied(*old(self), revert, stored, *final(self)),
    {
        let i: usize = match self.workspace.project_index_for_runtime_id(revert.runtime_id) {
            Some(i) => i,
            None => {
                return ;
            },
        };
        if self.workspace.projects[i].revision != revert.document_revision {
            return ;
        }
        self.put_layer_back(i, revert, stored);
    }
}

} // verus!
