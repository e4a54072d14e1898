//! What leaves memory and comes back, what is carried over when changes are
//! thrown away, and how drawings are joined to a design.

use crate::commands::discard::{carried_deferred, layer_by_local, layer_discarded, project_discarded};
use crate::commands::projects::{marked_saved, open_begun};
use crate::commands::residency::{
    all_items, history_archived, history_restored, item_evicted, items_restored, layers_evicted, layers_restored, layers_to_evict, layers_to_restore,
    residency_replaced, to_restore, unloaded_datasets, unloaded_layers, Continuation,
};
use crate::commands::restored::{first_new, layers_stored};
use crate::document::{layer_models, object_models, Document, Layer, LayerModel, ObjectModel};
use crate::error::AppError;
use crate::files::Request;
use crate::ids::{ItemRef, LayerId, ObjectId};
use crate::items::{
    block_model_index, dataset_index, item_state, point_cloud_index, raster_index, triangulation_index, ItemState, Items, OpenBlockModel,
    OpenDrillHoleDataset, OpenItem, OpenPointCloud, OpenRasterTexture, OpenTriangulation,
};
use crate::jobs::{JobFilter, JobKey, Work};
use crate::laws::lookup::alike;
use crate::memory::{WORKING_SET_LIMIT, MemoryError, WorkingSet};
use crate::merging::{document_joined, layer_named, layer_place, layers_joined, objects_joined};
use crate::search::{first_index, lemma_first_index};
use crate::snapshots::{
    layers_restored as layers_put_back, layers_without, object_under, opened_under, placed_on, preserved, snapshot_at, SnapshotModel,
};
use crate::state::{App, Platform};
use crate::workspace::{hash_in, index_of_layer, index_of_runtime, local_id, LayerHash, OpenProject, Workspace};
use vstd::prelude::*;

verus! {

/// A project has changes where what it holds, or what its items hold, is not
/// what was stored last; a layer where what it holds is not.
pub proof fn law_what_counts_as_changed(p: OpenProject, layer: LayerId)
    ensures
        p.dirty() <==> !(p.saved_hash == Some(p.content_hash) && p.asset_revision == p.saved_asset_revision),
        p.layer_dirty(layer) <==> hash_in(p.layer_hashes@, layer) != hash_in(p.saved_layer_hashes@, layer),
        hash_in(p.layer_hashes@, layer) matches Some(h) ==> exists|i: int|
            0 <= i < p.layer_hashes@.len() && (#[trigger] p.layer_hashes@[i]).layer.0 == layer.0 % 0x1_0000_0000 && p.layer_hashes@[i].hash == h,
        hash_in(p.layer_hashes@, layer) is None ==> forall|i: int|
            0 <= i < p.layer_hashes@.len() ==> (#[trigger] p.layer_hashes@[i]).layer.0 != layer.0 % 0x1_0000_0000,
{
    let f = |h: LayerHash| h.layer.0 == local_id(layer);
    lemma_first_index(p.layer_hashes@, f);
    let i = first_index(p.layer_hashes@, f);
    if i < p.layer_hashes@.len() {
        assert(f(p.layer_hashes@[i]));
    } else {
        assert forall|j: int| 0 <= j < p.layer_hashes@.len() implies (#[trigger] p.layer_hashes@[j]).layer.0 != layer.0 % 0x1_0000_0000 by {
            assert(!f(p.layer_hashes@[j]));
        }
    }
}

/// Moving an item into or out of memory replaces its data and whether it is in
/// memory, and keeps all else of its state; no other item is touched.
pub proof fn law_moved_items_keep_their_state(pre: Items, item: OpenItem, post: Items, k: int)
    requires
        residency_replaced(pre, item, post),
    ensures
        item matches OpenItem::Triangulation(t) ==> ({
            let i = triangulation_index(pre.triangulations@, t.id);
            &&& post.triangulations@.len() == pre.triangulations@.len()
            &&& 0 <= k < pre.triangulations@.len() && k != i ==> post.triangulations@[k] == pre.triangulations@[k]
            &&& 0 <= i < pre.triangulations@.len() ==> post.triangulations@[i].mesh == t.mesh && post.triangulations@[i].state.deferred == t.state.deferred
                && post.triangulations@[i].state.epoch == pre.triangulations@[i].state.epoch && post.triangulations@[i].state.loaded
                == pre.triangulations@[i].state.loaded
        }),
        item matches OpenItem::BlockModel(t) ==> ({
            let i = block_model_index(pre.block_models@, t.id);
            &&& post.block_models@.len() == pre.block_models@.len()
            &&& 0 <= k < pre.block_models@.len() && k != i ==> post.block_models@[k] == pre.block_models@[k]
            &&& 0 <= i < pre.block_models@.len() ==> post.block_models@[i].blocks == t.blocks && post.block_models@[i].state.deferred == t.state.deferred
                && post.block_models@[i].state.epoch == pre.block_models@[i].state.epoch && post.block_models@[i].state.loaded
                == pre.block_models@[i].state.loaded
        }),
        item matches OpenItem::DrillHole(t) ==> ({
            let i = dataset_index(pre.drill_holes@, t.id);
            &&& post.drill_holes@.len() == pre.drill_holes@.len()
            &&& 0 <= k < pre.drill_holes@.len() && k != i ==> post.drill_holes@[k] == pre.drill_holes@[k]
            &&& 0 <= i < pre.drill_holes@.len() ==> post.drill_holes@[i].holes == t.holes && post.drill_holes@[i].state.deferred == t.state.deferred
                && post.drill_holes@[i].state.epoch == pre.drill_holes@[i].state.epoch && post.drill_holes@[i].state.loaded
                == pre.drill_holes@[i].state.loaded
        }),
        item matches OpenItem::PointCloud(t) ==> ({
            let i = point_cloud_index(pre.point_clouds@, t.id);
            &&& post.point_clouds@.len() == pre.point_clouds@.len()
            &&& 0 <= k < pre.point_clouds@.len() && k != i ==> post.point_clouds@[k] == pre.point_clouds@[k]
            &&& 0 <= i < pre.point_clouds@.len() ==> post.point_clouds@[i].points == t.points && post.point_clouds@[i].state.deferred == t.state.deferred
                && post.point_clouds@[i].state.epoch == pre.point_clouds@[i].state.epoch && post.point_clouds@[i].state.loaded
                == pre.point_clouds@[i].state.loaded
        }),
        item matches OpenItem::Raster(t) ==> ({
            let i = raster_index(pre.raster_textures@, t.id);
            &&& post.raster_textures@.len() == pre.raster_textures@.len()
            &&& 0 <= k < pre.raster_textures@.len() && k != i ==> post.raster_textures@[k] == pre.raster_textures@[k]
            &&& 0 <= i < pre.raster_textures@.len() ==> post.raster_textures@[i].pixels == t.pixels && post.raster_textures@[i].state.deferred
                == t.state.deferred && post.raster_textures@[i].state.epoch == pre.raster_textures@[i].state.epoch && post.raster_textures@[i].state.loaded
                == pre.raster_textures@[i].state.loaded
        }),
        !(item is Triangulation) ==> post.triangulations == pre.triangulations,
        !(item is BlockModel) ==> post.block_models == pre.block_models,
        !(item is DrillHole) ==> post.drill_holes == pre.drill_holes,
        !(item is PointCloud) ==> post.point_clouds == pre.point_clouds,
        !(item is Raster) ==> post.raster_textures == pre.raster_textures,
{
    match item {
        OpenItem::Triangulation(t) => {
            let id = t.id;
            lemma_first_index(pre.triangulations@, |t: OpenTriangulation| t.id == id);
        },
        OpenItem::BlockModel(t) => {
            let id = t.id;
            lemma_first_index(pre.block_models@, |x: OpenBlockModel| x.id == id);
        },
        OpenItem::DrillHole(t) => {
            let id = t.id;
            lemma_first_index(pre.drill_holes@, |d: OpenDrillHoleDataset| d.id == id);
        },
        OpenItem::PointCloud(t) => {
            let id = t.id;
            lemma_first_index(pre.point_clouds@, |x: OpenPointCloud| x.id == id);
        },
        OpenItem::Raster(t) => {
            let id = t.id;
            lemma_first_index(pre.raster_textures@, |x: OpenRasterTexture| x.id == id);
        },
    }
}

proof fn lemma_to_restore(items: Items, needed: Seq<ItemRef>, n: int, x: ItemRef)
    requires
        0 <= n <= needed.len(),
    ensures
        to_restore(items, needed, n).contains(x) <==> needed.take(n).contains(x) && (item_state(items, x) matches Some(s) && s.deferred),
        to_restore(items, needed, n).no_duplicates(),
    decreases n,
{
    if n > 0 {
        lemma_to_restore(items, needed, n - 1, x);
        let (before, all) = (to_restore(items, needed, n - 1), to_restore(items, needed, n));
        let (shorter, longer) = (needed.take(n - 1), needed.take(n));
        assert(longer =~= shorter.push(needed[n - 1]));
        assert(longer.contains(x) <==> shorter.contains(x) || x == needed[n - 1]) by {
            if shorter.contains(x) {
                let i = choose|i: int| 0 <= i < shorter.len() && shorter[i] == x;
                assert(longer[i] == x);
            }
            assert(longer[n - 1] == needed[n - 1]);
            if longer.contains(x) && x != needed[n - 1] {
                let i = choose|i: int| 0 <= i < longer.len() && longer[i] == x;
                assert(shorter[i] == x);
            }
        }
        if all.len() > before.len() {
            assert(all[all.len() - 1] == needed[n - 1]);
            if before.contains(x) {
                let i = choose|i: int| 0 <= i < before.len() && before[i] == x;
                assert(all[i] == x);
            }
            if all.contains(x) && x != needed[n - 1] {
                let i = choose|i: int| 0 <= i < all.len() && all[i] == x;
                assert(before[i] == x);
            }
        }
    }
}

/// Asking for items brings back those that are out of memory, each once, with
/// the state that they have now; what was asked for goes on once they are back.
pub proof fn law_items_are_brought_back(pre: App, needed: Seq<ItemRef>, after: Continuation, r: bool, post: App, p: OpenProject, x: ItemRef)
    requires
        items_restored(pre, needed, after, r, post),
        pre.workspace.active() == Some(p),
    ensures
        r <==> exists|i: int| 0 <= i < needed.len() && (item_state(pre.items, #[trigger] needed[i]) matches Some(s) && s.deferred),
        !r ==> post == pre,
        r ==> post.jobs.pending@.len() == pre.jobs.pending@.len() + 1 && (post.jobs.pending@.last().work matches Work::RestoreItems { items, after: then }
            && then == after && items@.no_duplicates() && (items@.contains(x) <==> needed.contains(x) && (item_state(pre.items, x) matches Some(s) && s.deferred))
            && post.jobs.pending@.last().keys@.len() == items@.len() && forall|i: int|
            0 <= i < items@.len() ==> (#[trigger] post.jobs.pending@.last().keys@[i]) == (JobKey::Residency {
                item: items@[i],
                runtime_id: p.runtime_id,
                revision: item_state(pre.items, items@[i])->0.epoch,
                restoring: true,
            })),
{
    let n = needed.len() as int;
    lemma_to_restore(pre.items, needed, n, x);
    assert(needed.take(n) =~= needed);
    let list = to_restore(pre.items, needed, n);
    if r {
        lemma_to_restore(pre.items, needed, n, list[0]);
        assert(list.contains(list[0]));
        let i = choose|i: int| 0 <= i < needed.len() && needed[i] == list[0];
        assert(item_state(pre.items, needed[i]) is Some);
    }
    if exists|i: int| 0 <= i < needed.len() && (item_state(pre.items, #[trigger] needed[i]) matches Some(s) && s.deferred) {
        let i = choose|i: int| 0 <= i < needed.len() && (item_state(pre.items, #[trigger] needed[i]) matches Some(s) && s.deferred);
        lemma_to_restore(pre.items, needed, n, needed[i]);
        assert(needed.contains(needed[i]));
        assert(list.contains(needed[i]));
    }
}

proof fn lemma_layers_to_restore(deferred: Set<LayerId>, needed: Seq<LayerId>, n: int, x: LayerId)
    requires
        0 <= n <= needed.len(),
    ensures
        layers_to_restore(deferred, needed, n).contains(x) <==> needed.take(n).contains(x) && deferred.contains(x),
        layers_to_restore(deferred, needed, n).no_duplicates(),
    decreases n,
{
    if n > 0 {
        lemma_layers_to_restore(deferred, needed, n - 1, x);
        let (before, all) = (layers_to_restore(deferred, needed, n - 1), layers_to_restore(deferred, needed, n));
        let (shorter, longer) = (needed.take(n - 1), needed.take(n));
        assert(longer.contains(x) <==> shorter.contains(x) || x == needed[n - 1]) by {
            if shorter.contains(x) {
                let i = choose|i: int| 0 <= i < shorter.len() && shorter[i] == x;
                assert(longer[i] == x);
            }
            assert(longer[n - 1] == needed[n - 1]);
            if longer.contains(x) && x != needed[n - 1] {
                let i = choose|i: int| 0 <= i < longer.len() && longer[i] == x;
                assert(shorter[i] == x);
            }
        }
        if all.len() > before.len() {
            assert(all[all.len() - 1] == needed[n - 1]);
            if before.contains(x) {
                let i = choose|i: int| 0 <= i < before.len() && before[i] == x;
                assert(all[i] == x);
            }
            if all.contains(x) && x != needed[n - 1] {
                let i = choose|i: int| 0 <= i < all.len() && all[i] == x;
                assert(before[i] == x);
            }
        }
    }
}

/// The same of layers: those that are out of memory come back, each once.
pub proof fn law_layers_are_brought_back(pre: App, needed: Seq<LayerId>, after: Continuation, r: bool, post: App, p: OpenProject, x: LayerId)
    requires
        layers_restored(pre, needed, after, r, post),
        pre.workspace.active() == Some(p),
    ensures
        r <==> exists|i: int| 0 <= i < needed.len() && p.deferred_layers@.contains(#[trigger] needed[i]),
        !r ==> post == pre,
        r ==> post.jobs.pending@.len() == pre.jobs.pending@.len() + 1 && (post.jobs.pending@.last().work matches Work::RestoreLayers { layers, after: then }
            && then == after && layers@.no_duplicates() && (layers@.contains(x) <==> needed.contains(x) && p.deferred_layers@.contains(x))
            && post.jobs.pending@.last().keys@.len() == layers@.len() && forall|i: int|
            0 <= i < layers@.len() ==> (#[trigger] post.jobs.pending@.last().keys@[i]) == (JobKey::LayerResidency {
                layer: layers@[i],
                runtime_id: p.runtime_id,
                content_hash: hash_in(p.layer_hashes@, layers@[i])->0,
                restoring: true,
            })),
{
    let n = needed.len() as int;
    lemma_layers_to_restore(p.deferred_layers@, needed, n, x);
    assert(needed.take(n) =~= needed);
    let list = layers_to_restore(p.deferred_layers@, needed, n);
    if r {
        lemma_layers_to_restore(p.deferred_layers@, needed, n, list[0]);
        assert(list.contains(list[0]));
        let i = choose|i: int| 0 <= i < needed.len() && needed[i] == list[0];
        assert(p.deferred_layers@.contains(needed[i]));
    }
    if exists|i: int| 0 <= i < needed.len() && p.deferred_layers@.contains(#[trigger] needed[i]) {
        let i = choose|i: int| 0 <= i < needed.len() && p.deferred_layers@.contains(#[trigger] needed[i]);
        lemma_layers_to_restore(p.deferred_layers@, needed, n, needed[i]);
        assert(needed.contains(needed[i]));
        assert(list.contains(needed[i]));
    }
}

/// An item leaves memory where it is unloaded and still there, and is asked to
/// leave once.
pub proof fn law_items_leave_memory(pre: App, item: ItemRef, runtime_id: u32, post: App, s: ItemState)
    requires
        item_evicted(pre, item, runtime_id, post),
        item_state(pre.items, item) == Some(s),
    ensures
        s.loaded || s.deferred ==> post == pre,
        post != pre ==> post.jobs.pending@.len() == pre.jobs.pending@.len() + 1 && post.jobs.pending@.last().work == Work::EvictItem(item)
            && post.jobs.pending@.last().keys@ == seq![JobKey::Residency { item, runtime_id, revision: s.epoch, restoring: false }],
        !s.loaded && !s.deferred && (forall|j: int|
            0 <= j < pre.jobs.pending@.len() ==> !(#[trigger] pre.jobs.pending@[j]).keys@.contains(
                JobKey::Residency { item, runtime_id, revision: s.epoch, restoring: false },
            )) ==> post.jobs.pending@.len() == pre.jobs.pending@.len() + 1,
{
    let key = JobKey::Residency { item, runtime_id, revision: s.epoch, restoring: false };
    if forall|j: int| 0 <= j < pre.jobs.pending@.len() ==> !(#[trigger] pre.jobs.pending@[j]).keys@.contains(key) {
        if crate::commands::residency::queued_for(pre.jobs, JobFilter::Key(key)) {
            let j = choose|j: int| 0 <= j < pre.jobs.pending@.len() && crate::jobs::job_meant(#[trigger] pre.jobs.pending@[j], JobFilter::Key(key));
            let keys = pre.jobs.pending@[j].keys@;
            let k = choose|k: int| 0 <= k < keys.len() && crate::jobs::meant(JobFilter::Key(key), #[trigger] keys[k]);
            assert(keys[k] == key);
            assert(keys.contains(key));
        }
    }
}

/// All items are those of every kind, each once in its place.
pub proof fn law_all_items(items: Items, k: int)
    ensures
        all_items(items).len() == items.triangulations@.len() + items.block_models@.len() + items.drill_holes@.len() + items.point_clouds@.len()
            + items.raster_textures@.len(),
        0 <= k < items.triangulations@.len() ==> all_items(items).contains(ItemRef::Triangulation(items.triangulations@[k].id)),
        0 <= k < items.block_models@.len() ==> all_items(items).contains(ItemRef::BlockModel(items.block_models@[k].id)),
        0 <= k < items.drill_holes@.len() ==> all_items(items).contains(ItemRef::DrillHole(items.drill_holes@[k].id)),
        0 <= k < items.point_clouds@.len() ==> all_items(items).contains(ItemRef::PointCloud(items.point_clouds@[k].id)),
        0 <= k < items.raster_textures@.len() ==> all_items(items).contains(ItemRef::Raster(items.raster_textures@[k].id)),
{
    let (a, b, c, d) = (
        items.triangulations@.len() as int,
        items.block_models@.len() as int,
        items.drill_holes@.len() as int,
        items.point_clouds@.len() as int,
    );
    let all = all_items(items);
    if 0 <= k < a {
        assert(all[k] == ItemRef::Triangulation(items.triangulations@[k].id));
    }
    if 0 <= k < b {
        assert(all[a + k] == ItemRef::BlockModel(items.block_models@[k].id));
    }
    if 0 <= k < c {
        assert(all[a + b + k] == ItemRef::DrillHole(items.drill_holes@[k].id));
    }
    if 0 <= k < d {
        assert(all[a + b + c + k] == ItemRef::PointCloud(items.point_clouds@[k].id));
    }
    if 0 <= k < items.raster_textures@.len() {
        assert(all[a + b + c + d + k] == ItemRef::Raster(items.raster_textures@[k].id));
    }
}

proof fn lemma_layers_to_evict(p: OpenProject, n: int, k: int)
    requires
        0 <= k < n <= p.document.layers@.len(),
    ensures
        !p.document.layers@[k].loaded && !p.deferred_layers@.contains(p.document.layers@[k].id) ==> layers_to_evict(p, n).contains(p.document.layers@[k].id),
    decreases n,
{
    let (before, all) = (layers_to_evict(p, n - 1), layers_to_evict(p, n));
    let x = p.document.layers@[k];
    if !x.loaded && !p.deferred_layers@.contains(x.id) {
        if k < n - 1 {
            lemma_layers_to_evict(p, n - 1, k);
            let i = choose|i: int| 0 <= i < before.len() && before[i] == x.id;
            assert(all[i] == x.id);
        } else {
            assert(all[all.len() - 1] == x.id);
        }
    }
}

spec fn unloaded_here(p: OpenProject, x: LayerId, n: int) -> bool {
    !p.deferred_layers@.contains(x) && exists|k: int| 0 <= k < n && (#[trigger] p.document.layers@[k]).id == x && !p.document.layers@[k].loaded
}

proof fn lemma_only_unloaded(p: OpenProject, n: int)
    requires
        0 <= n <= p.document.layers@.len(),
    ensures
        forall|i: int| 0 <= i < layers_to_evict(p, n).len() ==> unloaded_here(p, #[trigger] layers_to_evict(p, n)[i], n),
    decreases n,
{
    if n > 0 {
        lemma_only_unloaded(p, n - 1);
        let (before, all) = (layers_to_evict(p, n - 1), layers_to_evict(p, n));
        assert forall|i: int| 0 <= i < all.len() implies unloaded_here(p, #[trigger] all[i], n) by {
            if i < before.len() {
                assert(unloaded_here(p, before[i], n - 1));
                let k = choose|k: int| 0 <= k < n - 1 && (#[trigger] p.document.layers@[k]).id == before[i] && !p.document.layers@[k].loaded;
                assert(p.document.layers@[k].id == all[i]);
            } else {
                assert(p.document.layers@[n - 1].id == all[i]);
            }
        }
    }
}

/// Layers leave memory where they are unloaded and still there: all of them
/// and no other, in one go, while nothing is being brought back.
pub proof fn law_layers_leave_memory(pre: App, post: App, p: OpenProject, k: int, i: int)
    requires
        layers_evicted(pre, post),
        pre.workspace.active() == Some(p),
        post.jobs.pending@.len() > pre.jobs.pending@.len(),
        0 <= k < p.document.layers@.len(),
        post.jobs.pending@.last().work matches Work::EvictLayers(layers) && 0 <= i < layers@.len(),
    ensures
        post.jobs.pending@.last().work matches Work::EvictLayers(layers) && {
            &&& !p.document.layers@[k].loaded && !p.deferred_layers@.contains(p.document.layers@[k].id) ==> layers@.contains(p.document.layers@[k].id)
            &&& !p.deferred_layers@.contains(layers@[i])
            &&& exists|j: int| 0 <= j < p.document.layers@.len() && (#[trigger] p.document.layers@[j]).id == layers@[i] && !p.document.layers@[j].loaded
            &&& post.files.requests@.last() matches Request::ReleaseLayers(asked) && asked@ == layers@
        },
        post.files.requests@.drop_last() == pre.files.requests@ && post.files.requests@.len() == pre.files.requests@.len() + 1,
        post.workspace == pre.workspace && post.items == pre.items,
{
    let n = p.document.layers@.len() as int;
    lemma_layers_to_evict(p, n, k);
    lemma_only_unloaded(p, n);
    assert(unloaded_here(p, layers_to_evict(p, n)[i], n));
}

/// What the history is archived with: the layers and the datasets that are
/// unloaded.
pub proof fn law_archived_with(layers: Seq<Layer>, datasets: Seq<OpenDrillHoleDataset>, l: Layer, d: OpenDrillHoleDataset)
    ensures
        unloaded_layers(layers.push(l)) == if l.loaded {
            unloaded_layers(layers)
        } else {
            unloaded_layers(layers).push(l.id)
        },
        unloaded_datasets(datasets.push(d)) == if d.state.loaded {
            unloaded_datasets(datasets)
        } else {
            unloaded_datasets(datasets).push(ItemRef::DrillHole(d.id))
        },
        unloaded_layers(Seq::empty()).len() == 0 && unloaded_datasets(Seq::empty()).len() == 0,
{
    assert(layers.push(l).drop_last() =~= layers);
    assert(datasets.push(d).drop_last() =~= datasets);
}

/// Archiving and bringing back the history hands on just the steps asked for,
/// once at a time.
pub proof fn law_history_moves(pre: App, requests: Seq<u64>, archived: App, undo: bool, r: bool, restored: App, p: OpenProject)
    requires
        history_archived(pre, requests, archived),
        history_restored(pre, undo, requests, r, restored),
        pre.workspace.active() == Some(p),
    ensures
        requests.len() == 0 ==> archived == pre && restored == pre && !r,
        requests.len() > 0 ==> r,
        archived != pre ==> (archived.jobs.pending@.last().work matches Work::ArchiveHistory { requests: q, layers, items } && q@ == requests && layers@
            == unloaded_layers(p.document.layers@) && items@ == unloaded_datasets(pre.items.drill_holes@)) && archived.jobs.pending@.last().keys@
            == seq![JobKey::HistoryResidency { runtime_id: p.runtime_id, revision: pre.history.archive_revision, restoring: false }],
        restored != pre ==> (restored.jobs.pending@.last().work matches Work::RestoreHistory { undo: u, requests: q } && u == undo && q@ == requests)
            && restored.jobs.pending@.last().keys@ == seq![
            JobKey::HistoryResidency { runtime_id: p.runtime_id, revision: pre.history.archive_revision, restoring: true },
        ],
{
}

/// Layers that were stored are out of memory, with those that were before.
pub proof fn law_stored_layers_are_out(pre: Workspace, layers: Seq<LayerId>, post: Workspace, p: OpenProject, x: LayerId)
    requires
        layers_stored(pre, layers, post),
        pre.active() == Some(p),
    ensures
        post.active() matches Some(q) && (q.deferred_layers@.contains(x) <==> p.deferred_layers@.contains(x) || layers.contains(x)) && q.document == p.document
            && q.runtime_id == p.runtime_id,
{
}

/// Where an object stands among those of a layer.
spec fn holds_place(shot: Seq<(int, ObjectModel)>, models: Seq<ObjectModel>, m: int) -> bool {
    exists|k: int| 0 <= k < shot.len() && (#[trigger] shot[k]).0 == m && shot[k].1 == object_under(models[m], 0)
}

proof fn lemma_placed(models: Seq<ObjectModel>, layer: LayerId, n: int)
    requires
        0 <= n <= models.len(),
    ensures
        forall|k: int|
            0 <= k < placed_on(models, layer, n).len() ==> {
                let (at, o) = #[trigger] placed_on(models, layer, n)[k];
                0 <= at < n && alike(models[at], o) && local_id(models[at].layer()) == local_id(layer)
            },
        forall|m: int|
            0 <= m < n && local_id((#[trigger] models[m]).layer()) == local_id(layer) ==> holds_place(placed_on(models, layer, n), models, m),
    decreases n,
{
    if n > 0 {
        lemma_placed(models, layer, n - 1);
        let (before, all) = (placed_on(models, layer, n - 1), placed_on(models, layer, n));
        assert forall|k: int| 0 <= k < all.len() implies {
            let (at, o) = #[trigger] all[k];
            0 <= at < n && alike(models[at], o) && local_id(models[at].layer()) == local_id(layer)
        } by {
            if k < before.len() {
                assert(all[k] == before[k]);
            }
        }
        assert forall|m: int| 0 <= m < n && local_id((#[trigger] models[m]).layer()) == local_id(layer) implies holds_place(all, models, m) by {
            if m < n - 1 {
                assert(holds_place(before, models, m));
                let k = choose|k: int| 0 <= k < before.len() && (#[trigger] before[k]).0 == m && before[k].1 == object_under(models[m], 0);
                assert(all[k] == before[k]);
            } else {
                assert(all[all.len() - 1].0 == m);
            }
        }
    }
}

/// The snapshot of a layer holds its settings, its place, and every object
/// that stands on it with its own place, looking as it does, and no other.
pub proof fn law_snapshot_holds_its_layer(d: Document, k: int, m: int, q: int)
    requires
        0 <= k < d.layers@.len(),
        0 <= m < d.objects@.len(),
        0 <= q < snapshot_at(d, k).objects.len(),
    ensures
        snapshot_at(d, k).index == k,
        ({
            let (shot, l) = (snapshot_at(d, k).layer, d.layers@[k]);
            shot.name == l.name@ && shot.color == l.color && shot.color_index == l.color_index && shot.visible == l.visible && shot.loaded == l.loaded
                && shot.elevation == l.elevation && shot.id.0 == l.id.0 % 0x1_0000_0000
        }),
        d.objects@[m]@.layer().0 % 0x1_0000_0000 == d.layers@[k].id.0 % 0x1_0000_0000 ==> exists|j: int|
            0 <= j < snapshot_at(d, k).objects.len() && (#[trigger] snapshot_at(d, k).objects[j]).0 == m && alike(
                d.objects@[m]@,
                snapshot_at(d, k).objects[j].1,
            ),
        ({
            let (at, o) = snapshot_at(d, k).objects[q];
            0 <= at < d.objects@.len() && alike(d.objects@[at]@, o) && d.objects@[at]@.layer().0 % 0x1_0000_0000 == d.layers@[k].id.0 % 0x1_0000_0000
        }),
{
    let models = object_models(d.objects@);
    let n = models.len() as int;
    lemma_placed(models, d.layers@[k].id, n);
    assert(models[m] == d.objects@[m]@);
    let shot = snapshot_at(d, k).objects;
    assert(shot == placed_on(models, d.layers@[k].id, n));
    let (at, o) = shot[q];
    assert(models[at] == d.objects@[at]@);
    if local_id(models[m].layer()) == local_id(d.layers@[k].id) {
        assert(holds_place(shot, models, m));
        let j = choose|j: int| 0 <= j < shot.len() && (#[trigger] shot[j]).0 == m && shot[j].1 == object_under(models[m], 0);
        crate::laws::designs::law_objects_under_a_number(models[m], 0);
        assert(snapshot_at(d, k).objects[j].0 == m);
    }
}

proof fn lemma_preserved(p: OpenProject, target: u64, n: int, k: int)
    requires
        0 <= k < n <= p.document.layers@.len(),
    ensures
        p.layer_dirty(p.document.layers@[k].id) && local_id(p.document.layers@[k].id) != target ==> preserved(p, target, n).contains(
            snapshot_at(p.document, k),
        ),
    decreases n,
{
    let (before, all) = (preserved(p, target, n - 1), preserved(p, target, n));
    let x = snapshot_at(p.document, k);
    if p.layer_dirty(p.document.layers@[k].id) && local_id(p.document.layers@[k].id) != target {
        if k < n - 1 {
            lemma_preserved(p, target, n - 1, k);
            let i = choose|i: int| 0 <= i < before.len() && before[i] == x;
            assert(all[i] == x);
        } else {
            assert(all[all.len() - 1] == x);
        }
    }
}

spec fn is_preserved(shot: SnapshotModel, p: OpenProject, target: u64, n: int) -> bool {
    exists|k: int|
        0 <= k < n && p.layer_dirty((#[trigger] p.document.layers@[k]).id) && local_id(p.document.layers@[k].id) != target && shot == snapshot_at(p.document, k)
}

proof fn lemma_only_preserved(p: OpenProject, target: u64, n: int)
    requires
        0 <= n <= p.document.layers@.len(),
    ensures
        forall|i: int| 0 <= i < preserved(p, target, n).len() ==> is_preserved(#[trigger] preserved(p, target, n)[i], p, target, n),
    decreases n,
{
    if n > 0 {
        lemma_only_preserved(p, target, n - 1);
        let (before, all) = (preserved(p, target, n - 1), preserved(p, target, n));
        assert forall|i: int| 0 <= i < all.len() implies is_preserved(#[trigger] all[i], p, target, n) by {
            if i < before.len() {
                assert(is_preserved(before[i], p, target, n - 1));
                let k = choose|k: int|
                    0 <= k < n - 1 && p.layer_dirty((#[trigger] p.document.layers@[k]).id) && local_id(p.document.layers@[k].id) != target && before[i]
                        == snapshot_at(p.document, k);
                assert(all[i] == snapshot_at(p.document, k));
            } else {
                assert(all[i] == snapshot_at(p.document, n - 1));
                assert(p.layer_dirty(p.document.layers@[n - 1].id));
            }
        }
    }
}

/// Throwing away the changes of one layer preserves every other layer that has
/// changes, and no more.
pub proof fn law_other_changes_are_preserved(p: OpenProject, target: u64, k: int, i: int)
    requires
        0 <= k < p.document.layers@.len(),
        0 <= i < preserved(p, target, p.document.layers@.len() as int).len(),
    ensures
        p.layer_dirty(p.document.layers@[k].id) && p.document.layers@[k].id.0 % 0x1_0000_0000 != target ==> preserved(
            p,
            target,
            p.document.layers@.len() as int,
        ).contains(snapshot_at(p.document, k)),
        exists|j: int|
            0 <= j < p.document.layers@.len() && p.layer_dirty((#[trigger] p.document.layers@[j]).id) && p.document.layers@[j].id.0 % 0x1_0000_0000 != target
                && preserved(p, target, p.document.layers@.len() as int)[i] == snapshot_at(p.document, j),
{
    let n = p.document.layers@.len() as int;
    lemma_preserved(p, target, n, k);
    lemma_only_preserved(p, target, n);
    assert(is_preserved(preserved(p, target, n)[i], p, target, n));
}

/// Throwing away a layer's changes reads the project again from where it is
/// stored, and carries over what was preserved.
pub proof fn law_discarding_a_layer(pre: App, layer: LayerId, r: Result<(), AppError>, post: App, i: int, p: OpenProject)
    requires
        layer_discarded(pre, layer, r, post),
        i == index_of_layer(pre.workspace.projects@, layer),
        0 <= i < pre.workspace.projects@.len(),
        p == pre.workspace.projects@[i],
        pre.workspace.active_index matches Some(a) ==> a != i,
        !crate::commands::discard::project_busy(pre, p.runtime_id),
    ensures
        r is Ok <==> p.path is Some,
        r is Err ==> r == Err::<(), AppError>(AppError::NeverSaved) && post.jobs == pre.jobs,
        r is Ok ==> (post.jobs.pending@.last().work matches Work::RevertLayer(revert) && revert.runtime_id == p.runtime_id && revert.path@ == p.path->0@
            && revert.document_revision == p.revision && crate::snapshots::snapshot_models(revert.preserved@) == preserved(
            p,
            local_id(layer),
            p.document.layers@.len() as int,
        )) && post.jobs.pending@.last().keys@ == seq![JobKey::Project { runtime_id: p.runtime_id, document_revision: p.revision }],
        post.files.closing.discard_layer is None,
        post.workspace == pre.workspace,
{
}

/// Throwing away a project's changes reads it again from where it is stored.
pub proof fn law_discarding_a_project(pre: App, id: u32, r: Result<(), AppError>, post: App, i: int, p: OpenProject)
    requires
        project_discarded(pre, id, r, post),
        i == index_of_runtime(pre.workspace.projects@, id),
        0 <= i < pre.workspace.projects@.len(),
        p == pre.workspace.projects@[i],
        pre.workspace.active_index matches Some(a) ==> a != i,
        !crate::files::save_pending(pre.files.saves@, id),
    ensures
        r is Ok <==> p.path is Some,
        r is Ok ==> (post.jobs.pending@.last().work matches Work::RevertProject { runtime_id, path, expected_hash } && runtime_id == id && path@ == p.path->0@
            && expected_hash == p.content_hash),
        post.files.closing.discard_project is None,
        post.workspace == pre.workspace,
{
}

/// What was out of memory and is carried over stays so.
pub proof fn law_carried_layers_stay_out(shots: Seq<SnapshotModel>, deferred: Set<LayerId>, l: LayerId)
    ensures
        carried_deferred(shots, deferred).contains(l) <==> deferred.contains(l) && exists|i: int| 0 <= i < shots.len() && (#[trigger] shots[i]).layer.id == l,
{
}

/// The layer that was drawn on is found again by its own number.
pub proof fn law_layer_by_its_number(layers: Seq<Layer>, local: u64)
    ensures
        layer_by_local(layers, None) is None,
        layer_by_local(layers, Some(local)) matches Some(id) ==> exists|i: int|
            0 <= i < layers.len() && (#[trigger] layers[i]).id == id && id.0 % 0x1_0000_0000 == local,
        layer_by_local(layers, Some(local)) is None ==> forall|i: int| 0 <= i < layers.len() ==> (#[trigger] layers[i]).id.0 % 0x1_0000_0000 != local,
{
    let f = |l: Layer| local_id(l.id) == local;
    lemma_first_index(layers, f);
    let i = first_index(layers, f);
    if i < layers.len() {
        assert(f(layers[i]));
    } else {
        assert forall|j: int| 0 <= j < layers.len() implies (#[trigger] layers[j]).id.0 % 0x1_0000_0000 != local by {
            assert(!f(layers[j]));
        }
    }
}

/// A project that is opened under a number holds the same layers and objects
/// in the same order, each under that number, and looks as it did.
pub proof fn law_opened_under_a_number(pre: OpenProject, ns: u32, post: OpenProject, k: int, m: int, l: LayerId)
    requires
        opened_under(pre, ns, post),
        0 <= k < pre.document.layers@.len(),
        0 <= m < pre.document.objects@.len(),
    ensures
        post.runtime_id == ns,
        post.document.layers@.len() == pre.document.layers@.len() && post.document.objects@.len() == pre.document.objects@.len(),
        ({
            let (a, b) = (pre.document.layers@[k], post.document.layers@[k]);
            b.name@ == a.name@ && b.color == a.color && b.color_index == a.color_index && b.visible == a.visible && b.loaded == a.loaded && b.elevation
                == a.elevation && b.id.0 / 0x1_0000_0000 == ns && b.id.0 % 0x1_0000_0000 == a.id.0 % 0x1_0000_0000
        }),
        ({
            let (a, b) = (pre.document.objects@[m]@, post.document.objects@[m]@);
            alike(a, b) && b.id().0 / 0x1_0000_0000 == ns && b.id().0 % 0x1_0000_0000 == a.id().0 % 0x1_0000_0000 && b.layer().0 / 0x1_0000_0000 == ns
                && b.layer().0 % 0x1_0000_0000 == a.layer().0 % 0x1_0000_0000
        }),
        pre.loaded_layers@.contains(l) ==> post.loaded_layers@.contains(LayerId(crate::snapshots::id_under(l.0, ns))),
        pre.deferred_layers@.contains(l) ==> post.deferred_layers@.contains(LayerId(crate::snapshots::id_under(l.0, ns))),
        post.content_hash == pre.content_hash && post.saved_hash == pre.saved_hash && post.path == pre.path,
{
    let (la, lb) = (layer_models(pre.document.layers@), layer_models(post.document.layers@));
    let (oa, ob) = (object_models(pre.document.objects@), object_models(post.document.objects@));
    assert(la.len() == pre.document.layers@.len() && lb.len() == post.document.layers@.len());
    assert(oa.len() == pre.document.objects@.len() && ob.len() == post.document.objects@.len());
    assert(la[k] == pre.document.layers@[k]@ && lb[k] == post.document.layers@[k]@);
    assert(oa[m] == pre.document.objects@[m]@ && ob[m] == post.document.objects@[m]@);
    crate::laws::designs::law_id_under_a_number(la[k].id.0, ns);
    crate::laws::designs::law_id_under_a_number(oa[m].id().0, ns);
    crate::laws::designs::law_id_under_a_number(oa[m].layer().0, ns);
    crate::laws::designs::law_objects_under_a_number(oa[m], ns);
    let f = |l: LayerId| LayerId(crate::snapshots::id_under(l.0, ns));
    if pre.loaded_layers@.contains(l) {
        assert(pre.loaded_layers@.map(f).contains(f(l)));
    }
    if pre.deferred_layers@.contains(l) {
        assert(pre.deferred_layers@.map(f).contains(f(l)));
    }
}

/// A stored layer that was preserved takes its place again: there is one layer
/// of its id, with its settings, and the others are as they were.
pub proof fn law_preserved_layer_is_put_back(layers: Seq<LayerModel>, shot: SnapshotModel, l: LayerModel)
    requires
        shot.index >= 0,
    ensures
        layers_put_back(layers, shot).contains(shot.layer),
        l.id != shot.layer.id ==> (layers_put_back(layers, shot).contains(l) <==> layers.contains(l)),
        l.id == shot.layer.id && layers_put_back(layers, shot).contains(l) ==> l == shot.layer,
{
    let id = shot.layer.id;
    let f = |l: LayerModel| l.id != id;
    crate::ids::lemma_filter_members(layers, f);
    let rest = layers.filter(f);
    assert(rest == layers_without(layers, id));
    let at = crate::snapshots::capped(shot.index, rest.len() as int);
    let all = rest.insert(at, shot.layer);
    assert(all == layers_put_back(layers, shot));
    assert(all[at] == shot.layer);
    if rest.contains(l) {
        let i = choose|i: int| 0 <= i < rest.len() && rest[i] == l;
        assert(all[if i < at { i } else { i + 1 }] == l);
    }
    if all.contains(l) && l != shot.layer {
        let i = choose|i: int| 0 <= i < all.len() && all[i] == l;
        assert(rest[if i < at { i } else { i - 1 }] == l);
    }
}

/// Of the layers of a drawing, the first new one that is loaded is drawn on.
pub proof fn law_first_new_layer(layers: Seq<Layer>, before: Seq<LayerId>)
    ensures
        first_new(layers, before) matches Some(id) ==> !before.contains(id) && exists|i: int|
            0 <= i < layers.len() && (#[trigger] layers[i]).id == id && layers[i].loaded,
        first_new(layers, before) is None ==> forall|i: int| 0 <= i < layers.len() && (#[trigger] layers[i]).loaded ==> before.contains(layers[i].id),
{
    let f = |l: Layer| l.loaded && !before.contains(l.id);
    lemma_first_index(layers, f);
    let i = first_index(layers, f);
    if i < layers.len() {
        assert(f(layers[i]));
    } else {
        assert forall|j: int| 0 <= j < layers.len() && (#[trigger] layers[j]).loaded implies before.contains(layers[j].id) by {
            assert(!f(layers[j]));
        }
    }
}

proof fn lemma_joined(layers: Seq<LayerModel>, others: Seq<LayerModel>, next: u64, n: int)
    requires
        0 <= n <= others.len(),
    ensures
        layers_joined(layers, others, next, n).len() >= layers.len(),
        layers_joined(layers, others, next, n).take(layers.len() as int) == layers,
        forall|k: int| 0 <= k < n ==> layer_named(layers_joined(layers, others, next, n), (#[trigger] others[k]).name) < layers_joined(layers, others, next, n).len(),
        forall|m: int| layers.len() <= m < layers_joined(layers, others, next, n).len() ==> comes_from(#[trigger] layers_joined(layers, others, next, n)[m], others, n)
            && layers_joined(layers, others, next, n)[m].id == LayerId((next + (m - layers.len())) as u64),
    decreases n,
{
    if n > 0 {
        lemma_joined(layers, others, next, n - 1);
        let (before, all) = (layers_joined(layers, others, next, n - 1), layers_joined(layers, others, next, n));
        assert(all.take(layers.len() as int) =~= layers) by {
            assert forall|i: int| 0 <= i < layers.len() implies all[i] == layers[i] by {
                assert(before.take(layers.len() as int)[i] == layers[i]);
            }
        }
        assert forall|k: int| 0 <= k < n implies layer_named(all, (#[trigger] others[k]).name) < all.len() by {
            let name = others[k].name;
            lemma_first_index(before, |l: LayerModel| l.name == name);
            lemma_first_index(all, |l: LayerModel| l.name == name);
            if k < n - 1 {
                let at = layer_named(before, name);
                assert(all[at].name == name);
            } else if all.len() > before.len() {
                assert(all[all.len() - 1].name == name);
            }
        }
        assert forall|m: int| layers.len() <= m < all.len() implies comes_from(#[trigger] all[m], others, n) && all[m].id == LayerId(
            (next + (m - layers.len())) as u64,
        ) by {
            if m < before.len() {
                assert(all[m] == before[m]);
                assert(comes_from(before[m], others, n - 1));
                let k = choose|k: int| 0 <= k < n - 1 && same_settings(#[trigger] others[k], before[m]);
                assert(same_settings(others[k], all[m]));
            } else {
                assert(same_settings(others[n - 1], all[m]));
            }
        }
    }
}

/// Two layers have the same name and settings.
pub open spec fn same_settings(a: LayerModel, b: LayerModel) -> bool {
    a.name == b.name && a.color == b.color && a.color_index == b.color_index && a.visible == b.visible && a.loaded == b.loaded && a.elevation == b.elevation
}

/// A layer is one of those of a drawing, under an id of its own.
pub open spec fn comes_from(l: LayerModel, others: Seq<LayerModel>, n: int) -> bool {
    exists|k: int| 0 <= k < n && same_settings(#[trigger] others[k], l)
}

/// Joining a drawing adds those of its layers whose names the design does not
/// have, with their settings; afterwards the design has a layer of each name.
pub proof fn law_joined_layers(pre: Document, other: Document, post: Document, k: int, m: int)
    requires
        document_joined(pre, other, post),
        0 <= k < other.layers@.len(),
        pre.layers@.len() <= m < post.layers@.len(),
    ensures
        exists|j: int| 0 <= j < post.layers@.len() && (#[trigger] post.layers@[j]).name@ == other.layers@[k].name@,
        comes_from(post.layers@[m]@, layer_models(other.layers@), other.layers@.len() as int),
        post.layers@[m].id == LayerId((pre.next_layer_id + (m - pre.layers@.len())) as u64),
        post.next_layer_id == pre.next_layer_id + (post.layers@.len() - pre.layers@.len()),
        post.next_object_id == pre.next_object_id + (post.objects@.len() - pre.objects@.len()),
{
    let (layers, others, all) = (layer_models(pre.layers@), layer_models(other.layers@), layer_models(post.layers@));
    lemma_joined(layers, others, pre.next_layer_id, others.len() as int);
    assert(others[k] == other.layers@[k]@);
    let name = others[k].name;
    lemma_first_index(all, |l: LayerModel| l.name == name);
    let j = layer_named(all, name);
    assert(all[j].name == name);
    assert(all[j] == post.layers@[j]@);
    assert(all[m] == post.layers@[m]@);
}

/// An object came over from a drawing: it looks as it did, and stands on the
/// layer of the design that has the name of its own.
spec fn object_came(o: ObjectModel, others: Seq<ObjectModel>, layers: Seq<LayerModel>, joined: Seq<LayerModel>, n: int) -> bool {
    exists|m: int, l: int, h: int|
        0 <= m < n && alike(#[trigger] others[m], o) && 0 <= l < layers.len() && (#[trigger] layers[l]).id == others[m].layer() && 0 <= h < joined.len() && (
        #[trigger] joined[h]).name == layers[l].name && o.layer() == joined[h].id
}

proof fn lemma_objects_joined(
    objects: Seq<ObjectModel>,
    others: Seq<ObjectModel>,
    layers: Seq<LayerModel>,
    joined: Seq<LayerModel>,
    next_object: u64,
    n: int,
)
    requires
        0 <= n <= others.len(),
        forall|k: int| 0 <= k < layers.len() ==> layer_named(joined, (#[trigger] layers[k]).name) < joined.len(),
    ensures
        ({
            let all = objects_joined(objects, others, layers, joined, next_object, n);
            &&& all.len() >= objects.len()
            &&& forall|k: int|
                objects.len() <= k < all.len() ==> object_came(#[trigger] all[k], others, layers, joined, n) && all[k].id() == ObjectId(
                    (next_object + (k - objects.len())) as u64,
                )
            &&& forall|m: int|
                0 <= m < n && (exists|l: int| 0 <= l < layers.len() && (#[trigger] layers[l]).id == (#[trigger] others[m]).layer()) ==> exists|k: int|
                    objects.len() <= k < all.len() && alike(others[m], #[trigger] all[k])
        }),
    decreases n,
{
    if n > 0 {
        lemma_objects_joined(objects, others, layers, joined, next_object, n - 1);
        let before = objects_joined(objects, others, layers, joined, next_object, n - 1);
        let all = objects_joined(objects, others, layers, joined, next_object, n);
        let o = others[n - 1];
        let f = |l: LayerModel| l.id == o.layer();
        lemma_first_index(layers, f);
        let at = layer_place(layers, o.layer());
        if at < layers.len() {
            assert(f(layers[at]));
        }
        assert forall|k: int| objects.len() <= k < all.len() implies object_came(#[trigger] all[k], others, layers, joined, n) && all[k].id() == ObjectId(
            (next_object + (k - objects.len())) as u64,
        ) by {
            if k < before.len() {
                assert(all[k] == before[k]);
                assert(object_came(before[k], others, layers, joined, n - 1));
                let (m, l, h) = choose|m: int, l: int, h: int|
                    0 <= m < n - 1 && alike(#[trigger] others[m], before[k]) && 0 <= l < layers.len() && (#[trigger] layers[l]).id == others[m].layer() && 0 <= h
                        < joined.len() && (#[trigger] joined[h]).name == layers[l].name && before[k].layer() == joined[h].id;
                assert(alike(others[m], all[k]) && layers[l].id == others[m].layer() && joined[h].name == layers[l].name);
            } else {
                let name = layers[at].name;
                lemma_first_index(joined, |l: LayerModel| l.name == name);
                let h = layer_named(joined, name);
                assert(joined[h].name == name);
                assert(alike(others[n - 1], all[k]));
            }
        }
        assert forall|m: int|
            0 <= m < n && (exists|l: int| 0 <= l < layers.len() && (#[trigger] layers[l]).id == (#[trigger] others[m]).layer()) implies exists|k: int|
            objects.len() <= k < all.len() && alike(others[m], #[trigger] all[k]) by {
            if m < n - 1 {
                let k = choose|k: int| objects.len() <= k < before.len() && alike(others[m], #[trigger] before[k]);
                assert(all[k] == before[k]);
            } else {
                let l = choose|l: int| 0 <= l < layers.len() && (#[trigger] layers[l]).id == others[m].layer();
                assert(f(layers[l]));
                assert(alike(others[m], all[all.len() - 1]));
            }
        }
    }
}

/// Joining a drawing adds its objects behind those of the design: each that
/// stands on one of its layers comes over, looking as it did, onto the layer of
/// that name; and none else comes.
pub proof fn law_joined_objects(pre: Document, other: Document, post: Document, k: int, m: int)
    requires
        document_joined(pre, other, post),
        pre.objects@.len() <= k < post.objects@.len(),
        0 <= m < other.objects@.len(),
    ensures
        post.objects@[k]@.id() == ObjectId((pre.next_object_id + (k - pre.objects@.len())) as u64),
        exists|j: int, l: int, h: int|
            0 <= j < other.objects@.len() && alike((#[trigger] other.objects@[j])@, post.objects@[k]@) && 0 <= l < other.layers@.len() && (
            #[trigger] other.layers@[l]).id == other.objects@[j]@.layer() && 0 <= h < post.layers@.len() && (#[trigger] post.layers@[h]).name@
                == other.layers@[l].name@ && post.objects@[k]@.layer() == post.layers@[h].id,
        (exists|l: int| 0 <= l < other.layers@.len() && (#[trigger] other.layers@[l]).id == other.objects@[m]@.layer()) ==> exists|q: int|
            pre.objects@.len() <= q < post.objects@.len() && alike(other.objects@[m]@, (#[trigger] post.objects@[q])@),
{
    let (objects, others, layers) = (object_models(pre.objects@), object_models(other.objects@), layer_models(other.layers@));
    let joined = layer_models(post.layers@);
    lemma_joined(layer_models(pre.layers@), layers, pre.next_layer_id, layers.len() as int);
    lemma_objects_joined(objects, others, layers, joined, pre.next_object_id, others.len() as int);
    let all = object_models(post.objects@);
    assert(all[k] == post.objects@[k]@);
    assert(object_came(all[k], others, layers, joined, others.len() as int));
    let (j, l, h) = choose|j: int, l: int, h: int|
        0 <= j < others.len() && alike(#[trigger] others[j], all[k]) && 0 <= l < layers.len() && (#[trigger] layers[l]).id == others[j].layer() && 0 <= h
            < joined.len() && (#[trigger] joined[h]).name == layers[l].name && all[k].layer() == joined[h].id;
    assert(others[j] == other.objects@[j]@ && layers[l] == other.layers@[l]@ && joined[h] == post.layers@[h]@);
    if exists|l: int| 0 <= l < other.layers@.len() && (#[trigger] other.layers@[l]).id == other.objects@[m]@.layer() {
        let l = choose|l: int| 0 <= l < other.layers@.len() && (#[trigger] other.layers@[l]).id == other.objects@[m]@.layer();
        assert(layers[l].id == others[m].layer());
        let q = choose|q: int| objects.len() <= q < all.len() && alike(others[m], #[trigger] all[q]);
        assert(all[q] == post.objects@[q]@);
    }
}

/// A project that was stored has no changes, and nothing of it changed.
pub proof fn law_stored_project_is_the_same(pre: OpenProject, post: OpenProject)
    requires
        marked_saved(pre, post),
    ensures
        post.document == pre.document && post.content_hash == pre.content_hash && post.runtime_id == pre.runtime_id && post.path == pre.path,
        post.saved_hash == Some(pre.content_hash) && post.saved_asset_revision == pre.asset_revision,
        !post.dirty(),
{
}

/// Opening a project takes its path and reads it, once at a time.
pub proof fn law_opening_a_project(pre: App, path: Seq<char>, label: Seq<char>, post: App)
    requires
        open_begun(pre, path, label, post),
    ensures
        pre.files.path_busy(path) ==> post == pre,
        !pre.files.path_busy(path) ==> post.files.open_paths@.len() == pre.files.open_paths@.len() + 1 && post.files.open_paths@.drop_last()
            == pre.files.open_paths@ && post.files.open_paths@.last()@ == path && (post.jobs.pending@.last().work matches Work::OpenProject { path: p } && p@
            == path) && post.jobs.pending@.len() == pre.jobs.pending@.len() + 1 && post.jobs.pending@.last().label@ == label,
        post.workspace == pre.workspace,
{
}

/// Memory is given out as long as what is out stays within the limit; on a
/// machine of its own there is none to be counted.
pub proof fn law_memory_stays_within(w: WorkingSet, bytes: usize)
    requires
        w.sound(),
    ensures
        w.after(bytes).sound(),
        w.platform == Platform::Native ==> w.answer(bytes) is Ok && w.after(bytes) == w,
        w.platform != Platform::Native && w.reserved + bytes <= WORKING_SET_LIMIT ==> w.answer(bytes) is Ok && w.answer(bytes)->Ok_0.bytes == bytes
            && w.after(bytes).reserved == w.reserved + bytes,
        w.platform != Platform::Native && w.reserved + bytes > WORKING_SET_LIMIT ==> w.answer(bytes) is Err && w.after(bytes) == w,
        w.answer(bytes) matches Err(MemoryError::NotEnough { needed, left }) ==> needed == bytes && w.reserved + left == WORKING_SET_LIMIT,
{
}

} // verus!
