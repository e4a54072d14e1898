//! What is left to do when data was unloaded or brought back, parts of the
//! history were moved, or a file was handed to the browser.

use crate::commands::blocks::model_closed;
use crate::commands::layers::{layer_loaded, project_changed};
use crate::commands::residency::{
    all_items, hashes_known, history_archived, item_evicted, item_loaded_set, items_evicted, items_evicted_upto, layers_evicted, layers_to_evict,
    Continuation,
};
use crate::commands::restored::{drawings_applied, item_moved, items_moved, joinable, layers_loaded};
use crate::commands::section::{section_shown, ExplorerSection};
use crate::commands::surfaces::surface_closed;
use crate::drawing::move_tool::active_runtime;
use crate::ids::{BlockModelId, ItemRef, LayerId, ObjectId, TriangulationId};
use crate::items::OpenItem;
use crate::state::{App, Frame};
use crate::workspace::{hash_in, OpenProject, Workspace};
use vstd::prelude::*;

verus! {

/// What follows once data is back in memory.
pub open spec fn continued(pre: App, after: Continuation, hidden: Seq<ObjectId>, post: App) -> bool {
    match after {
        Continuation::Nothing => post == pre,
        Continuation::ShowDesigns => section_shown(pre, ExplorerSection::Designs, true, hidden, post),
        Continuation::JoinDrawings { runtime_id, drawings } => drawings_applied(pre, runtime_id, drawings, post),
    }
}

/// What follows can be done: the hash of every layer that would have to be
/// brought back is known, and there are ids enough.
pub open spec fn can_continue(app: App, after: Continuation) -> bool {
    match after {
        Continuation::Nothing => true,
        Continuation::ShowDesigns => app.workspace.active() matches Some(p) ==> forall|l: LayerId| #[trigger]
            p.deferred_layers@.contains(l) ==> hash_in(p.layer_hashes@, l) is Some,
        Continuation::JoinDrawings { runtime_id, drawings } => joinable(app, runtime_id, drawings@),
    }
}

/// What the end of bringing items back does: nothing where that failed.
pub open spec fn restored_items_applied(
    pre: App,
    restored: Option<Vec<OpenItem>>,
    after: Continuation,
    hidden: Seq<ObjectId>,
    post: App,
) -> bool {
    match restored {
        Some(items) => exists|mid: App| #[trigger] items_moved(pre, items@, items@.len() as int, mid) && continued(mid, after, hidden, post),
        None => post == pre,
    }
}

/// The layers of the active project no longer lie in storage.
pub open spec fn layers_back(pre: Workspace, layers: Seq<LayerId>, post: Workspace) -> bool {
    match pre.active_index {
        Some(i) if i < pre.projects@.len() => {
            let p = pre.projects@[i as int];
            let q = post.projects@[i as int];
            &&& project_changed(pre, i as int, post)
            &&& q == (OpenProject { deferred_layers: q.deferred_layers, ..p })
            &&& q.deferred_layers@ == p.deferred_layers@.difference(layers.to_set())
        },
        _ => post == pre,
    }
}

/// What the end of bringing layers back does: nothing where that failed.
pub open spec fn restored_layers_applied(
    pre: App,
    restored: Option<Vec<LayerId>>,
    after: Continuation,
    hidden: Seq<ObjectId>,
    post: App,
) -> bool {
    match restored {
        Some(layers) => exists|w: Workspace| #[trigger]
            layers_back(pre.workspace, layers@, w) && continued(App { workspace: w, ..pre }, after, hidden, post),
        None => post == pre,
    }
}

/// The first `n` items were loaded, one after the other.
pub open spec fn items_loaded(pre: App, items: Seq<ItemRef>, n: int, post: App) -> bool
    decreases n,
{
    if n <= 0 {
        post == pre
    } else {
        exists|mid: App| items_loaded(pre, items, n - 1, mid) && #[trigger] item_loaded_set(mid, items[n - 1], true, post)
    }
}

/// What the end of moving parts of the history to storage does. `r` tells
/// whether the stored parts take the place of those in memory. Where the
/// history went on meanwhile the work begins again; where the move failed,
/// everything that the parts speak of is loaded again.
pub open spec fn archived_history_applied(
    pre: App,
    runtime_id: u32,
    revision: u64,
    written: bool,
    layers: Seq<LayerId>,
    items: Seq<ItemRef>,
    requests: Seq<u64>,
    r: bool,
    post: App,
) -> bool {
    if active_runtime(pre.workspace) != Some(runtime_id) {
        !r && post == pre
    } else if pre.history.archive_revision != revision {
        !r && history_archived(pre, requests, post)
    } else if written {
        r && post == pre
    } else {
        &&& !r
        &&& exists|mid: App| #[trigger] layers_loaded(pre, layers, layers.len() as int, mid) && items_loaded(mid, items, items.len() as int, post)
    }
}

/// The step to take when parts of the history are back in memory: none where
/// that failed, or the history is no longer the one that was asked for.
pub open spec fn step_due(app: App, undo: bool, runtime_id: u32, revision: u64, read: bool) -> Option<bool> {
    if active_runtime(app.workspace) == Some(runtime_id) && app.history.archive_revision == revision && read {
        Some(undo)
    } else {
        None
    }
}

/// What sending away does that is due: the data of unloaded items, then that
/// of unloaded layers.
pub open spec fn evicted_if_due(pre: App, post: App) -> bool {
    if !pre.frame.evict_due {
        post == pre
    } else {
        exists|items: App, layers: App|
            {
                &&& #[trigger] items_evicted(pre, items)
                &&& #[trigger] layers_evicted(items, layers)
                &&& post == (App { frame: Frame { evict_due: false, ..layers.frame }, ..layers })
            }
    }
}

proof fn lemma_evicting_keeps(pre: App, list: Seq<ItemRef>, runtime_id: u32, n: int, post: App)
    requires
        items_evicted_upto(pre, list, runtime_id, n, post),
        0 <= n,
        pre.jobs.next_ticket + n < u64::MAX,
    ensures
        post == (App { jobs: post.jobs, ..pre }),
        post.jobs.next_ticket <= pre.jobs.next_ticket + n,
    decreases n,
{
    if n > 0 {
        let mid = choose|mid: App| items_evicted_upto(pre, list, runtime_id, n - 1, mid) && #[trigger] item_evicted(mid, list[n - 1], runtime_id, post);
        lemma_evicting_keeps(pre, list, runtime_id, n - 1, mid);
    }
}

/// Unloading an item makes sending away due, and once that was seen to it no
/// longer is.
pub proof fn law_unloading_sends_away(pre: App, item: ItemRef, mid: App, post: App)
    requires
        item_loaded_set(pre, item, false, mid),
        evicted_if_due(mid, post),
    ensures
        mid.frame.evict_due,
        !post.frame.evict_due,
        exists|items: App| #[trigger] items_evicted(mid, items),
{
}

proof fn lemma_items_moved_keeps(pre: App, list: Seq<OpenItem>, n: int, post: App)
    requires
        items_moved(pre, list, n, post),
    ensures
        post == (App { items: post.items, frame: post.frame, ..pre }),
    decreases n,
{
    if n > 0 {
        let mid = choose|mid: App| items_moved(pre, list, n - 1, mid) && #[trigger] item_moved(mid, list[n - 1], post);
        lemma_items_moved_keeps(pre, list, n - 1, mid);
    }
}

impl Workspace {
    fn bring_back_layers(&mut self, layers: &Vec<LayerId>)
        ensures
            layers_back(*old(self), layers@, *final(self)),
    {
        match self.active_index {
            Some(a) => {
                if a < self.projects.len() {
                    let ghost was = self.projects@[a as int];
                    let mut i: usize = 0;
                    assert(layers@.take(0).to_set() =~= Set::<LayerId>::empty());
                    assert(was.deferred_layers@ =~= was.deferred_layers@.difference(layers@.take(0).to_set()));
                    while i < layers.len()
                        invariant
                            i <= layers.len(),
                            a < old(self).projects@.len(),
                            was == old(self).projects@[a as int],
                            *self == (Workspace { projects: self.projects, ..*old(self) }),
                            self.projects@ =~= old(self).projects@.update(a as int, self.projects@[a as int]),
                            self.projects@[a as int] == (OpenProject { deferred_layers: self.projects@[a as int].deferred_layers, ..was }),
                            self.projects@[a as int].deferred_layers@ == was.deferred_layers@.difference(layers@.take(i as int).to_set()),
                        decreases layers.len() - i,
                    {
                        self.projects[a].deferred_layers.remove(layers[i]);
                        i += 1;
                        proof {
                            let before = layers@.take(i - 1);
                            let now = layers@.take(i as int);
                            assert(now =~= before.push(layers@[i - 1]));
                            assert forall|l: LayerId| #[trigger] now.to_set().contains(l) <==> before.to_set().contains(l) || l == layers@[i - 1] by {
                                if before.contains(l) {
                                    let k = before.index_of(l);
                                    assert(now[k] == l);
                                }
                                assert(now[i - 1] == layers@[i - 1]);
                            }
                            assert(self.projects@[a as int].deferred_layers@ =~= was.deferred_layers@.difference(now.to_set()));
                        }
                    }
                    assert(layers@.take(i as int) =~= layers@);
                }
            },
            None => {},
        }
    }
}

impl App {
    /// Sends the data of unloaded items and layers away where that is due.
    pub fn evict_if_due(&mut self)
        requires
            old(self).jobs.next_ticket + all_items(old(self).items).len() < u64::MAX,
            old(self).workspace.active() matches Some(p) ==> hashes_known(p, layers_to_evict(p, p.document.layers@.len() as int)),
        ensures
            evicted_if_due(*old(self), *final(self)),
    {
        if !self.frame.evict_due {
            return ;
        }
        self.evict_unloaded_items();
        let ghost items = *self;
        proof {
            let list = all_items(old(self).items);
            if let Some(id) = active_runtime(old(self).workspace) {
                if items_evicted_upto(*old(self), list, id, list.len() as int, items) {
                    lemma_evicting_keeps(*old(self), list, id, list.len() as int, items);
                }
            }
        }
        self.evict_unloaded_layers();
        let ghost layers = *self;
        self.frame.evict_due = false;
        assert(items_evicted(*old(self), items));
        assert(layers_evicted(items, layers));
    }

    fn continue_with(&mut self, after: Continuation, hidden: &Vec<ObjectId>)
        requires
            old(self).jobs.next_ticket < u64::MAX,
            can_continue(*old(self), after),
        ensures
            continued(*old(self), after, hidden@, *final(self)),
    {
        match after {
            Continuation::Nothing => {},
            Continuation::ShowDesigns => self.set_section_visible(ExplorerSection::Designs, true, hidden),
            Continuation::JoinDrawings { runtime_id, drawings } => self.apply_dxf_imports(runtime_id, drawings),
        }
    }

    /// Takes over items whose data is back in memory and goes on with what
    /// waited for them. `hidden` are the objects that are hidden on their own.
    pub fn apply_restored_items(&mut self, restored: Option<Vec<OpenItem>>, after: Continuation, hidden: &Vec<ObjectId>)
        requires
            old(self).jobs.next_ticket < u64::MAX,
            can_continue(*old(self), after),
        ensures
            restored_items_applied(*old(self), restored, after, hidden@, *final(self)),
    {
        match restored {
            Some(items) => {
                let ghost list = items@;
                self.take_back_items(items);
                proof {
                    lemma_items_moved_keeps(*old(self), list, list.len() as int, *self);
                }
                self.continue_with(after, hidden);
            },
            None => {},
        }
    }

    /// Takes over layers whose objects are back in memory and goes on with
    /// what waited for them.
    pub fn apply_restored_layers(&mut self, restored: Option<Vec<LayerId>>, after: Continuation, hidden: &Vec<ObjectId>)
        requires
            old(self).jobs.next_ticket < u64::MAX,
            restored matches Some(layers) ==> forall|w: Workspace| #[trigger]
                layers_back(old(self).workspace, layers@, w) ==> can_continue(App { workspace: w, ..*old(self) }, after),
        ensures
            restored_layers_applied(*old(self), restored, after, hidden@, *final(self)),
    {
        match restored {
            Some(layers) => {
                self.workspace.bring_back_layers(&layers);
                let ghost w = self.workspace;
                assert(layers_back(old(self).workspace, layers@, w));
                assert(*self == (App { workspace: w, ..*old(self) }));
                self.continue_with(after, hidden);
            },
            None => {},
        }
    }

    fn load_all(&mut self, layers: &Vec<LayerId>, items: &Vec<ItemRef>)
        ensures
            exists|mid: App| #[trigger]
                layers_loaded(*old(self), layers@, layers@.len() as int, mid) && items_loaded(mid, items@, items@.len() as int, *final(self)),
    {
        let mut i: usize = 0;
        while i < layers.len()
            invariant
                i <= layers.len(),
                layers_loaded(*old(self), layers@, i as int, *self),
            decreases layers.len() - i,
        {
            let ghost mid = *self;
            self.load_layer(layers[i]);
            assert(layer_loaded(mid, layers@[i + 1 - 1], *self));
            i += 1;
        }
        let ghost loaded = *self;
        let mut i: usize = 0;
        while i < items.len()
            invariant
                i <= items.len(),
                items_loaded(loaded, items@, i as int, *self),
            decreases items.len() - i,
        {
            let ghost mid = *self;
            self.set_item_loaded(items[i], true);
            assert(item_loaded_set(mid, items@[i + 1 - 1], true, *self));
            i += 1;
        }
    }

    /// Notes that parts of the history of a project lie in storage; tells
    /// whether the stored parts take the place of those in memory. `requests`
    /// are the parts that are to be moved now.
    pub fn apply_archived_history(
        &mut self,
        runtime_id: u32,
        revision: u64,
        written: bool,
        layers: &Vec<LayerId>,
        items: &Vec<ItemRef>,
        requests: Vec<u64>,
    ) -> (r: bool)
        requires
            old(self).jobs.next_ticket < u64::MAX,
        ensures
            archived_history_applied(*old(self), runtime_id, revision, written, layers@, items@, requests@, r, *final(self)),
    {
        if self.active_runtime_id() != Some(runtime_id) {
            return false;
        }
        if self.history.archive_revision != revision {
            self.archive_unloaded_history(requests);
            return false;
        }
        if !written {
            self.load_all(layers, items);
        }
        written
    }

    /// The step to take when its parts are back in memory.
    pub fn apply_restored_history(&self, undo: bool, runtime_id: u32, revision: u64, read: bool) -> (r: Option<bool>)
        ensures
            r == step_due(*self, undo, runtime_id, revision, read),
    {
        if self.active_runtime_id() != Some(runtime_id) || self.history.archive_revision != revision || !read {
            return None;
        }
        Some(undo)
    }

    /// A triangulation was made ready for the browser, or could not be: where
    /// it was and is to be closed then, it is.
    pub fn apply_triangulation_download(&mut self, id: TriangulationId, close_after: bool, ready: bool)
        ensures
            if ready && close_after {
                surface_closed(*old(self), id, *final(self))
            } else {
                *final(self) == *old(self)
            },
    {
        if ready && close_after {
            self.close_triangulation(id);
        }
    }

    /// A block model was made ready for the browser, or could not be: where it
    /// was and is to be closed then, it is.
    pub fn apply_block_model_download(&mut self, id: BlockModelId, close_after: bool, ready: bool)
        ensures
            if ready && close_after {
                model_closed(*old(self), id, *final(self))
            } else {
                *final(self) == *old(self)
            },
    {
        if ready && close_after {
            self.close_block_model(id);
        }
    }
}

/// Layers that were sent to storage and brought back leave the state of the
/// project as it was, where none of them lay in storage before.
pub proof fn law_storage_and_back(pre: Workspace, layers: Seq<LayerId>, stored: Workspace, back: Workspace)
    requires
        crate::commands::restored::layers_stored(pre, layers, stored),
        layers_back(stored, layers, back),
        pre.active() matches Some(p) ==> p.deferred_layers@.disjoint(layers.to_set()),
    ensures
        back == (Workspace { projects: back.projects, ..pre }),
        back.projects@.len() == pre.projects@.len(),
        forall|j: int| 0 <= j < pre.projects@.len() ==> (#[trigger] back.projects@[j]) == (OpenProject {
            deferred_layers: back.projects@[j].deferred_layers,
            ..pre.projects@[j]
        }) && back.projects@[j].deferred_layers@ == pre.projects@[j].deferred_layers@,
{
    match pre.active_index {
        Some(i) => {
            if i < pre.projects@.len() {
                let p = pre.projects@[i as int];
                let q = back.projects@[i as int];
                assert(q.deferred_layers@ =~= p.deferred_layers@);
            }
        },
        None => {},
    }
}

} // verus!
