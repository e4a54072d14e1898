//! What comes back from moving data between memory and storage, and from
//! reading drawings.

use crate::commands::layers::{layer_loaded, project_changed};
use crate::commands::residency::{
    hashes_known, history_archived, item_loaded_set, layers_restored, layers_to_restore, residency_replaced, Continuation, Drawing,
};
use crate::document::{Document, Layer};
use crate::ids::{contains_key, ItemRef, LayerId};
use crate::items::OpenItem;
use crate::merging::document_joined;
use crate::search::{find_first, first_index};
use crate::state::{App, Canvas};
use crate::workspace::{index_of_runtime, OpenProject, Workspace};
use vstd::prelude::*;

verus! {

/// An item whose data was moved took its place.
pub open spec fn item_moved(pre: App, item: OpenItem, post: App) -> bool {
    &&& post == (App { items: post.items, frame: pre.frame.bounds(), ..pre })
    &&& residency_replaced(pre.items, item, post.items)
}

/// What the end of moving an item to storage does: an item that could not be
/// moved is loaded again, so that it never claims to have left memory.
pub open spec fn eviction_applied(pre: App, item: ItemRef, moved: Option<OpenItem>, requests: Seq<u64>, post: App) -> bool {
    match moved {
        Some(open) => exists|mid: App| #[trigger] item_moved(pre, open, mid) && history_archived(mid, requests, post),
        None => item_loaded_set(pre, item, true, post),
    }
}

/// The first `n` items took their places, one after the other.
pub open spec fn items_moved(pre: App, list: Seq<OpenItem>, n: int, post: App) -> bool
    decreases n,
{
    if n <= 0 {
        post == pre
    } else {
        exists|mid: App| items_moved(pre, list, n - 1, mid) && #[trigger] item_moved(mid, list[n - 1], post)
    }
}

/// The layers of the active project whose objects lie in storage.
pub open spec fn layers_stored(pre: Workspace, layers: Seq<LayerId>, post: Workspace) -> bool {
    match pre.active_index {
        Some(i) if i < pre.projects@.len() => {
            let p = pre.projects@[i as int];
            let q = post.projects@[i as int];
            &&& project_changed(pre, i as int, post)
            &&& q == (OpenProject { deferred_layers: q.deferred_layers, ..p })
            &&& q.deferred_layers@ == p.deferred_layers@.union(layers.to_set())
        },
        _ => post == pre,
    }
}

/// The first `n` layers were loaded, one after the other.
pub open spec fn layers_loaded(pre: App, layers: Seq<LayerId>, n: int, post: App) -> bool
    decreases n,
{
    if n <= 0 {
        post == pre
    } else {
        exists|mid: App| layers_loaded(pre, layers, n - 1, mid) && #[trigger] layer_loaded(mid, layers[n - 1], post)
    }
}

/// What the end of moving layers to storage does: layers that could not be
/// moved are loaded again.
pub open spec fn layer_eviction_applied(pre: App, layers: Seq<LayerId>, stored: bool, requests: Seq<u64>, post: App) -> bool {
    if stored {
        exists|mid: App|
            {
                &&& mid == (App { workspace: mid.workspace, frame: pre.frame.geometry(), ..pre })
                &&& layers_stored(pre.workspace, layers, mid.workspace)
                &&& #[trigger] history_archived(mid, requests, post)
            }
    } else {
        layers_loaded(pre, layers, layers.len() as int, post)
    }
}

/// The layers of a project that drawings are joined with and whose objects lie
/// in storage, layer by layer.
pub open spec fn stored_homes(project: OpenProject, layers: Seq<Layer>, n: int) -> Seq<LayerId>
    decreases n,
{
    if n <= 0 {
        Seq::empty()
    } else {
        let before = stored_homes(project, layers, n - 1);
        let home = project.document.layers@[first_index(project.document.layers@, |l: Layer| l.name@ == layers[n - 1].name@)].id;
        if project.document.has_layer_named(layers[n - 1].name@) && project.deferred_layers@.contains(home) {
            before.push(home)
        } else {
            before
        }
    }
}

/// The same over all drawings.
pub open spec fn all_stored_homes(project: OpenProject, drawings: Seq<Drawing>, n: int) -> Seq<LayerId>
    decreases n,
{
    if n <= 0 {
        Seq::empty()
    } else {
        let layers = drawings[n - 1].document.layers@;
        all_stored_homes(project, drawings, n - 1) + stored_homes(project, layers, layers.len() as int)
    }
}

/// The first `n` drawings were joined with a document, one after the other.
pub open spec fn drawings_joined(pre: Document, drawings: Seq<Drawing>, n: int, post: Document) -> bool
    decreases n,
{
    if n <= 0 {
        post == pre
    } else {
        exists|mid: Document| drawings_joined(pre, drawings, n - 1, mid) && #[trigger] document_joined(mid, drawings[n - 1].document, post)
    }
}

/// The ids of layers.
pub open spec fn ids_of(layers: Seq<Layer>) -> Seq<LayerId> {
    layers.map_values(|l: Layer| l.id)
}

/// The first layer that is loaded and was not there before.
pub open spec fn first_new(layers: Seq<Layer>, before: Seq<LayerId>) -> Option<LayerId> {
    let i = first_index(layers, |l: Layer| l.loaded && !before.contains(l.id));
    if i < layers.len() {
        Some(layers[i].id)
    } else {
        None
    }
}

/// The drawings were joined with the project at an index.
pub open spec fn drawings_taken(pre: App, i: int, drawings: Seq<Drawing>, post: App) -> bool {
    let p = pre.workspace.projects@[i];
    let q = post.workspace.projects@[i];
    &&& post == (App {
        workspace: post.workspace,
        canvas: Canvas {
            active_layer: match first_new(q.document.layers@, ids_of(p.document.layers@)) {
                Some(layer) => Some(layer),
                None => pre.canvas.active_layer,
            },
            ..pre.canvas
        },
        frame: pre.frame.evict().geometry().fit(),
        ..pre
    })
    &&& project_changed(pre.workspace, i, post.workspace)
    &&& q == (OpenProject { document: q.document, ..p })
    &&& drawings_joined(p.document, drawings, drawings.len() as int, q.document)
}

/// What joining drawings with a project does. A layer that they are joined
/// with and that lies in storage is brought back first, so that nothing
/// bypasses what it holds.
pub open spec fn drawings_applied(pre: App, runtime_id: u32, drawings: Vec<Drawing>, post: App) -> bool {
    let projects = pre.workspace.projects@;
    let i = index_of_runtime(projects, runtime_id);
    if i >= projects.len() {
        post == pre
    } else {
        let needed = all_stored_homes(projects[i], drawings@, drawings@.len() as int);
        if needed.len() > 0 {
            exists|r: bool| #[trigger] layers_restored(pre, needed, Continuation::JoinDrawings { runtime_id, drawings }, r, post)
        } else {
            drawings_taken(pre, i, drawings@, post)
        }
    }
}

/// How many layers and objects drawings hold.
pub open spec fn drawings_size(drawings: Seq<Drawing>) -> int
    decreases drawings.len(),
{
    if drawings.len() == 0 {
        0
    } else {
        drawings_size(drawings.drop_last()) + drawings.last().document.layers@.len() + drawings.last().document.objects@.len()
    }
}

proof fn lemma_drawings_size(drawings: Seq<Drawing>, n: int)
    requires
        0 <= n <= drawings.len(),
    ensures
        0 <= drawings_size(drawings.take(n)) <= drawings_size(drawings),
    decreases drawings.len() - n,
{
    if n < drawings.len() {
        lemma_drawings_size(drawings, n + 1);
        assert(drawings.take(n + 1).drop_last() =~= drawings.take(n));
        lemma_size_positive(drawings.take(n));
    } else {
        assert(drawings.take(n) =~= drawings);
        lemma_size_positive(drawings);
    }
}

proof fn lemma_size_positive(drawings: Seq<Drawing>)
    ensures
        0 <= drawings_size(drawings),
    decreases drawings.len(),
{
    if drawings.len() > 0 {
        lemma_size_positive(drawings.drop_last());
    }
}

impl OpenProject {
    fn find_stored_homes(&self, drawings: &Vec<Drawing>) -> (r: Vec<LayerId>)
        ensures
            r@ == all_stored_homes(*self, drawings@, drawings@.len() as int),
    {
        let mut list: Vec<LayerId> = Vec::new();
        let mut d: usize = 0;
        while d < drawings.len()
            invariant
                d <= drawings.len(),
                list@ == all_stored_homes(*self, drawings@, d as int),
            decreases drawings.len() - d,
        {
            let ghost before = list@;
            let layers = &drawings[d].document.layers;
            let mut i: usize = 0;
            assert(before + stored_homes(*self, layers@, 0) =~= before);
            while i < layers.len()
                invariant
                    i <= layers.len(),
                    list@ == before + stored_homes(*self, layers@, i as int),
                decreases layers.len() - i,
            {
                let ghost sofar = list@;
                match self.document.layer_id_by_name(layers[i].name.as_str()) {
                    Some(home) => {
                        if self.deferred_layers.contains(home) {
                            list.push(home);
                        }
                    },
                    None => {},
                }
                i += 1;
                assert(list@ =~= before + stored_homes(*self, layers@, i as int));
            }
            d += 1;
        }
        list
    }
}

impl Document {
    fn join_drawings(&mut self, drawings: &Vec<Drawing>)
        requires
            old(self).next_layer_id + drawings_size(drawings@) <= u64::MAX,
            old(self).next_object_id + drawings_size(drawings@) <= u64::MAX,
        ensures
            drawings_joined(*old(self), drawings@, drawings@.len() as int, *final(self)),
    {
        let mut d: usize = 0;
        assert(drawings@.take(0) =~= Seq::<Drawing>::empty());
        while d < drawings.len()
            invariant
                d <= drawings.len(),
                old(self).next_layer_id + drawings_size(drawings@) <= u64::MAX,
                old(self).next_object_id + drawings_size(drawings@) <= u64::MAX,
                self.next_layer_id <= old(self).next_layer_id + drawings_size(drawings@.take(d as int)),
                self.next_object_id <= old(self).next_object_id + drawings_size(drawings@.take(d as int)),
                drawings_joined(*old(self), drawings@, d as int, *self),
            decreases drawings.len() - d,
        {
            let ghost mid = *self;
            proof {
                lemma_drawings_size(drawings@, d + 1);
                assert(drawings@.take(d + 1).drop_last() =~= drawings@.take(d as int));
                lemma_size_positive(drawings@.take(d as int));
            }
            self.merge_document(&drawings[d].document);
            proof {
                assert(document_joined(mid, drawings@[d + 1 - 1].document, *self));
            }
            d += 1;
        }
    }

    fn list_layers(&self) -> (r: Vec<LayerId>)
        ensures
            r@ == ids_of(self.layers@),
    {
        let mut list: Vec<LayerId> = Vec::new();
        let mut i: usize = 0;
        while i < self.layers.len()
            invariant
                i <= self.layers.len(),
                list@ == ids_of(self.layers@).take(i as int),
            decreases self.layers.len() - i,
        {
            list.push(self.layers[i].id);
            i += 1;
            assert(list@ =~= ids_of(self.layers@).take(i as int));
        }
        assert(list@ =~= ids_of(self.layers@));
        list
    }

    fn find_first_new(&self, before: &Vec<LayerId>) -> (r: Option<LayerId>)
        ensures
            r == first_new(self.layers@, before@),
    {
        let found = find_first(&self.layers, Ghost(|l: Layer| l.loaded && !before@.contains(l.id)), |l: &Layer| -> (b: bool)
            ensures
                b == (l.loaded && !before@.contains(l.id)),
            { l.loaded && !contains_key(before, l.id) });
        match found {
            Some(i) => Some(self.layers[i].id),
            None => None,
        }
    }
}

impl Workspace {
    fn store_layers(&mut self, layers: &Vec<LayerId>)
        ensures
            layers_stored(*old(self), layers@, *final(self)),
    {
        match self.active_index {
            Some(i) => {
                if i < self.projects.len() {
                    self.projects[i].deferred_layers.extend(layers);
                    assert(self.projects@ =~= old(self).projects@.update(i as int, self.projects@[i as int]));
                }
            },
            None => {},
        }
    }

    fn join_drawings(&mut self, i: usize, drawings: &Vec<Drawing>) -> (r: Option<LayerId>)
        requires
            i < old(self).projects@.len(),
            old(self).projects@[i as int].document.next_layer_id + drawings_size(drawings@) <= u64::MAX,
            old(self).projects@[i as int].document.next_object_id + drawings_size(drawings@) <= u64::MAX,
        ensures
            project_changed(*old(self), i as int, *final(self)),
            final(self).projects@[i as int] == (OpenProject {
                document: final(self).projects@[i as int].document,
                ..old(self).projects@[i as int]
            }),
            drawings_joined(
                old(self).projects@[i as int].document,
                drawings@,
                drawings@.len() as int,
                final(self).projects@[i as int].document,
            ),
            r == first_new(final(self).projects@[i as int].document.layers@, ids_of(old(self).projects@[i as int].document.layers@)),
    {
        let known = self.projects[i].document.list_layers();
        self.projects[i].document.join_drawings(drawings);
        assert(self.projects@ =~= old(self).projects@.update(i as int, self.projects@[i as int]));
        self.projects[i].document.find_first_new(&known)
    }
}

impl App {
    pub(crate) fn take_back_items(&mut self, items: Vec<OpenItem>)
        ensures
            items_moved(*old(self), items@, items@.len() as int, *final(self)),
    {
        let ghost all = items@;
        let mut left = items;
        let mut done: Ghost<int> = Ghost(0);
        assert(all.skip(0) =~= all);
        while left.len() > 0
            invariant
                0 <= done@ <= all.len(),
                left@ == all.skip(done@),
                items_moved(*old(self), all, done@, *self),
            decreases left.len(),
        {
            let ghost mid = *self;
            let item = left.remove(0);
            self.replace_residency(item);
            proof {
                assert(item == all[done@]);
                assert(left@ =~= all.skip(done@ + 1));
                assert(item_moved(mid, all[done@ + 1 - 1], *self));
                done@ = done@ + 1;
            }
        }
    }

    /// Takes over an item whose data was moved to storage, or loads it again
    /// where that failed.
    pub fn apply_item_eviction(&mut self, item: ItemRef, moved: Option<OpenItem>, requests: Vec<u64>)
        requires
            old(self).jobs.next_ticket < u64::MAX,
        ensures
            eviction_applied(*old(self), item, moved, requests@, *final(self)),
    {
        match moved {
            Some(open) => {
                self.replace_residency(open);
                let ghost mid = *self;
                assert(item_moved(*old(self), open, mid));
                self.archive_unloaded_history(requests);
            },
            None => self.set_item_loaded(item, true),
        }
    }

    /// Notes that the objects of layers lie in storage, or loads the layers
    /// again where that failed.
    pub fn apply_layer_eviction(&mut self, layers: &Vec<LayerId>, stored: bool, requests: Vec<u64>)
        requires
            old(self).jobs.next_ticket < u64::MAX,
        ensures
            layer_eviction_applied(*old(self), layers@, stored, requests@, *final(self)),
    {
        if stored {
            self.workspace.store_layers(layers);
            self.invalidate_geometry();
            let ghost mid = *self;
            assert(mid == (App { workspace: mid.workspace, frame: old(self).frame.geometry(), ..*old(self) }));
            self.archive_unloaded_history(requests);
            assert(history_archived(mid, requests@, *self));
        } else {
            let mut i: usize = 0;
            while i < layers.len()
                invariant
                    i <= layers.len(),
                    layers_loaded(*old(self), layers@, i as int, *self),
                decreases layers.len() - i,
            {
                let ghost mid = *self;
                self.load_layer(layers[i]);
                assert(layer_loaded(mid, layers@[i + 1 - 1], *self));
                i += 1;
            }
        }
    }

    /// Joins drawings that were read with a project.
    pub fn apply_dxf_imports(&mut self, runtime_id: u32, drawings: Vec<Drawing>)
        requires
            old(self).jobs.next_ticket < u64::MAX,
            joinable(*old(self), runtime_id, drawings@),
        ensures
            drawings_applied(*old(self), runtime_id, drawings, *final(self)),
    {
        let i: usize = match self.workspace.project_index_for_runtime_id(runtime_id) {
            Some(i) => i,
            None => {
                return ;
            },
        };
        let needed = self.workspace.projects[i].find_stored_homes(&drawings);
        if needed.len() > 0 {
            let r = self.restore_layers_for(&needed, Continuation::JoinDrawings { runtime_id, drawings });
            assert(layers_restored(*old(self), needed@, Continuation::JoinDrawings { runtime_id, drawings }, r, *self));
            return ;
        }
        self.take_drawings(i, &drawings);
    }

    fn take_drawings(&mut self, i: usize, drawings: &Vec<Drawing>)
        requires
            i < old(self).workspace.projects@.len(),
            old(self).workspace.projects@[i as int].document.next_layer_id + drawings_size(drawings@) <= u64::MAX,
            old(self).workspace.projects@[i as int].document.next_object_id + drawings_size(drawings@) <= u64::MAX,
        ensures
            drawings_taken(*old(self), i as int, drawings@, *final(self)),
    {
        let new = self.workspace.join_drawings(i, drawings);
        self.show_joined(new);
    }

    fn show_joined(&mut self, new: Option<LayerId>)
        ensures
            *final(self) == (App {
                canvas: Canvas {
                    active_layer: match new {
                        Some(layer) => Some(layer),
                        None => old(self).canvas.active_layer,
                    },
                    ..old(self).canvas
                },
                frame: old(self).frame.evict().geometry().fit(),
                ..*old(self)
            }),
    {
        if new.is_some() {
            self.canvas.active_layer = new;
        }
        self.frame.evict_due = true;
        self.invalidate_geometry();
        self.fit_view_to_extents();
    }
}

/// Drawings can be joined with a project: there are ids enough, and the hash
/// of every layer that has to be brought back is known.
pub open spec fn joinable(app: App, runtime_id: u32, drawings: Seq<Drawing>) -> bool {
    let projects = app.workspace.projects@;
    let i = index_of_runtime(projects, runtime_id);
    i < projects.len() ==> {
        let needed = all_stored_homes(projects[i], drawings, drawings.len() as int);
        &&& projects[i].document.next_layer_id + drawings_size(drawings) <= u64::MAX
        &&& projects[i].document.next_object_id + drawings_size(drawings) <= u64::MAX
        &&& app.workspace.active() matches Some(p) ==> hashes_known(p, layers_to_restore(p.deferred_layers@, needed, needed.len() as int))
    }
}

} // verus!
