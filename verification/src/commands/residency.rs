//! What is in memory and what lies in storage.

use crate::document::{Document, Layer};
use crate::drawing::move_tool::active_runtime;
use crate::files::{Files, Request};
use crate::ids::{contains_key, ItemRef, Key, LayerId};
use crate::items::{
    block_model_index, dataset_index, item_state, point_cloud_index, raster_index, triangulation_index, ItemState, Items, OpenBlockModel,
    OpenDrillHoleDataset, OpenItem, OpenPointCloud, OpenRasterTexture, OpenTriangulation,
};
use crate::jobs::{job_meant, job_queued, jobs_cancelled, last_work, one_key, BackgroundJob, JobFilter, JobKey, Jobs, Work};
use crate::search::find_first;
use crate::state::{App, Frame};
use crate::styles::{style_of, style_set, with_loaded};
use crate::workspace::{hash_in, OpenProject};
use vstd::prelude::*;

verus! {

/// A drawing that was read: the name of its file and what it holds.
pub struct Drawing {
    pub name: String,
    pub document: Document,
}

/// What goes on once data is back in memory.
pub enum Continuation {
    Nothing,
    /// Every layer of the active project is loaded.
    ShowDesigns,
    /// Drawings are joined with a project.
    JoinDrawings { runtime_id: u32, drawings: Vec<Drawing> },
}

impl Key for ItemRef {
    fn same(self, other: Self) -> (r: bool) {
        self == other
    }
}

impl Key for JobKey {
    fn same(self, other: Self) -> (r: bool) {
        self == other
    }
}

/// A job of these sources is queued.
pub open spec fn queued_for(jobs: Jobs, filter: JobFilter) -> bool {
    exists|j: int| 0 <= j < jobs.pending@.len() && job_meant(#[trigger] jobs.pending@[j], filter)
}

/// A job brings data back.
pub open spec fn job_restores(job: BackgroundJob) -> bool {
    exists|k: int| 0 <= k < job.keys@.len() && (#[trigger] job.keys@[k]).restores()
}

/// Data is being brought back.
pub open spec fn restoring(jobs: Jobs) -> bool {
    exists|j: int| 0 <= j < jobs.pending@.len() && job_restores(#[trigger] jobs.pending@[j])
}

/// The current state with the data where the other has it.
pub open spec fn residency_state(current: ItemState, moved: ItemState) -> ItemState {
    ItemState { deferred: moved.deferred, ..current }
}

/// What an item whose data was moved does: it takes the place of the one with
/// its id, which keeps its state.
pub open spec fn residency_replaced(pre: Items, item: OpenItem, post: Items) -> bool {
    match item {
        OpenItem::Triangulation(t) => {
            let s = pre.triangulations@;
            let i = triangulation_index(s, t.id);
            &&& post == (Items { triangulations: post.triangulations, ..pre })
            &&& post.triangulations@ == (if i < s.len() {
                s.update(i, OpenTriangulation { state: residency_state(s[i].state, t.state), ..t })
            } else {
                s
            })
        },
        OpenItem::BlockModel(t) => {
            let s = pre.block_models@;
            let i = block_model_index(s, t.id);
            &&& post == (Items { block_models: post.block_models, ..pre })
            &&& post.block_models@ == (if i < s.len() {
                s.update(i, OpenBlockModel { state: residency_state(s[i].state, t.state), ..t })
            } else {
                s
            })
        },
        OpenItem::DrillHole(t) => {
            let s = pre.drill_holes@;
            let i = dataset_index(s, t.id);
            &&& post == (Items { drill_holes: post.drill_holes, ..pre })
            &&& post.drill_holes@ == (if i < s.len() {
                s.update(i, OpenDrillHoleDataset { state: residency_state(s[i].state, t.state), ..t })
            } else {
                s
            })
        },
        OpenItem::PointCloud(t) => {
            let s = pre.point_clouds@;
            let i = point_cloud_index(s, t.id);
            &&& post == (Items { point_clouds: post.point_clouds, ..pre })
            &&& post.point_clouds@ == (if i < s.len() {
                s.update(i, OpenPointCloud { state: residency_state(s[i].state, t.state), ..t })
            } else {
                s
            })
        },
        OpenItem::Raster(t) => {
            let s = pre.raster_textures@;
            let i = raster_index(s, t.id);
            &&& post == (Items { raster_textures: post.raster_textures, ..pre })
            &&& post.raster_textures@ == (if i < s.len() {
                s.update(i, OpenRasterTexture { state: residency_state(s[i].state, t.state), ..t })
            } else {
                s
            })
        },
    }
}

impl Items {
    fn replace_residency(&mut self, item: OpenItem)
        ensures
            residency_replaced(*old(self), item, *final(self)),
    {
        match item {
            OpenItem::Triangulation(mut t) => match self.find_triangulation(t.id) {
                Some(i) => {
                    let current = self.triangulations.remove(i);
                    t.state = ItemState { deferred: t.state.deferred, ..current.state };
                    self.triangulations.insert(i, t);
                    assert(self.triangulations@ =~= old(self).triangulations@.update(i as int, t));
                },
                None => {},
            },
            OpenItem::BlockModel(mut t) => match self.find_block_model(t.id) {
                Some(i) => {
                    let current = self.block_models.remove(i);
                    t.state = ItemState { deferred: t.state.deferred, ..current.state };
                    self.block_models.insert(i, t);
                    assert(self.block_models@ =~= old(self).block_models@.update(i as int, t));
                },
                None => {},
            },
            OpenItem::DrillHole(mut t) => match self.find_dataset(t.id) {
                Some(i) => {
                    let current = self.drill_holes.remove(i);
                    t.state = ItemState { deferred: t.state.deferred, ..current.state };
                    self.drill_holes.insert(i, t);
                    assert(self.drill_holes@ =~= old(self).drill_holes@.update(i as int, t));
                },
                None => {},
            },
            OpenItem::PointCloud(mut t) => match self.find_point_cloud(t.id) {
                Some(i) => {
                    let current = self.point_clouds.remove(i);
                    t.state = ItemState { deferred: t.state.deferred, ..current.state };
                    self.point_clouds.insert(i, t);
                    assert(self.point_clouds@ =~= old(self).point_clouds@.update(i as int, t));
                },
                None => {},
            },
            OpenItem::Raster(mut t) => match self.find_raster(t.id) {
                Some(i) => {
                    let current = self.raster_textures.remove(i);
                    t.state = ItemState { deferred: t.state.deferred, ..current.state };
                    self.raster_textures.insert(i, t);
                    assert(self.raster_textures@ =~= old(self).raster_textures@.update(i as int, t));
                },
                None => {},
            },
        }
    }
}


/// The items that are needed and whose data lies in storage, each once, among
/// the first `n`.
pub open spec fn to_restore(items: Items, needed: Seq<ItemRef>, n: int) -> Seq<ItemRef>
    decreases n,
{
    if n <= 0 {
        Seq::empty()
    } else {
        let before = to_restore(items, needed, n - 1);
        let item = needed[n - 1];
        if !before.contains(item) && (item_state(items, item) matches Some(s) && s.deferred) {
            before.push(item)
        } else {
            before
        }
    }
}

/// What a job derives from that moves the data of items.
pub open spec fn item_keys(items: Items, list: Seq<ItemRef>, runtime_id: u32, restoring: bool) -> Seq<JobKey> {
    list.map_values(
        |item: ItemRef| JobKey::Residency { item, runtime_id, revision: item_state(items, item)->0.epoch, restoring },
    )
}

/// What bringing items back does; tells whether there was anything to bring.
pub open spec fn items_restored(pre: App, needed: Seq<ItemRef>, after: Continuation, r: bool, post: App) -> bool {
    let list = to_restore(pre.items, needed, needed.len() as int);
    match active_runtime(pre.workspace) {
        Some(id) if list.len() > 0 => {
            &&& r
            &&& job_queued(pre, "asset-loading"@, item_keys(pre.items, list, id, true), last_work(post), post)
            &&& last_work(post) matches Work::RestoreItems { items, after: then } && items@ == list && then == after
        },
        _ => !r && post == pre,
    }
}

/// Whether each of these items lies in memory although it is not loaded.
pub open spec fn evictable(items: Items, item: ItemRef) -> bool {
    item_state(items, item) matches Some(s) && !s.loaded && !s.deferred
}

/// All items in the order of their kinds.
pub open spec fn all_items(items: Items) -> Seq<ItemRef> {
    items.triangulations@.map_values(|t: OpenTriangulation| ItemRef::Triangulation(t.id)) + items.block_models@.map_values(
        |t: OpenBlockModel| ItemRef::BlockModel(t.id),
    ) + items.drill_holes@.map_values(|t: OpenDrillHoleDataset| ItemRef::DrillHole(t.id)) + items.point_clouds@.map_values(
        |t: OpenPointCloud| ItemRef::PointCloud(t.id),
    ) + items.raster_textures@.map_values(|t: OpenRasterTexture| ItemRef::Raster(t.id))
}

/// What moving one item to storage does: nothing where it need not be moved or
/// is being moved.
pub open spec fn item_evicted(pre: App, item: ItemRef, runtime_id: u32, post: App) -> bool {
    let key = JobKey::Residency { item, runtime_id, revision: item_state(pre.items, item)->0.epoch, restoring: false };
    if !evictable(pre.items, item) || queued_for(pre.jobs, JobFilter::Key(key)) {
        post == pre
    } else {
        job_queued(pre, "asset-unloading"@, seq![key], Work::EvictItem(item), post)
    }
}

/// The first `n` items were moved to storage, as far as they are to be.
pub open spec fn items_evicted_upto(pre: App, list: Seq<ItemRef>, runtime_id: u32, n: int, post: App) -> bool
    decreases n,
{
    if n <= 0 {
        post == pre
    } else {
        exists|mid: App| items_evicted_upto(pre, list, runtime_id, n - 1, mid) && #[trigger] item_evicted(mid, list[n - 1], runtime_id, post)
    }
}

/// What moving unloaded items to storage does.
pub open spec fn items_evicted(pre: App, post: App) -> bool {
    let list = all_items(pre.items);
    match active_runtime(pre.workspace) {
        Some(id) if !restoring(pre.jobs) => items_evicted_upto(pre, list, id, list.len() as int, post),
        _ => post == pre,
    }
}

/// What loading or unloading an item does: a load that is under way is left
/// alone, or withdrawn.
pub open spec fn item_loaded_set(pre: App, item: ItemRef, loaded: bool, post: App) -> bool {
    if loaded {
        if queued_for(pre.jobs, JobFilter::ItemRestore(item)) {
            post == pre
        } else {
            loaded_styled(pre, item, true, post)
        }
    } else {
        exists|mid: App, styled: App|
            {
                &&& #[trigger] restore_withdrawn(pre, item, mid)
                &&& #[trigger] loaded_styled(mid, item, false, styled)
                &&& post == (App { frame: styled.frame.evict(), ..styled })
            }
    }
}

/// A load of an item was withdrawn.
pub open spec fn restore_withdrawn(pre: App, item: ItemRef, post: App) -> bool {
    post == (App { jobs: post.jobs, ..pre }) && jobs_cancelled(pre.jobs, JobFilter::ItemRestore(item), post.jobs)
}

/// An item got the style that it has loaded, or unloaded.
pub open spec fn loaded_styled(pre: App, item: ItemRef, loaded: bool, post: App) -> bool {
    match style_of(pre.items, item) {
        Some(style) => style_set(pre, item, with_loaded(style, loaded), post),
        None => post == pre,
    }
}

/// The layers that are needed and whose objects lie in storage, each once,
/// among the first `n`.
pub open spec fn layers_to_restore(deferred: Set<LayerId>, needed: Seq<LayerId>, n: int) -> Seq<LayerId>
    decreases n,
{
    if n <= 0 {
        Seq::empty()
    } else {
        let before = layers_to_restore(deferred, needed, n - 1);
        if !before.contains(needed[n - 1]) && deferred.contains(needed[n - 1]) {
            before.push(needed[n - 1])
        } else {
            before
        }
    }
}

/// What a job derives from that moves the objects of layers.
pub open spec fn layer_keys(project: OpenProject, list: Seq<LayerId>, restoring: bool) -> Seq<JobKey> {
    list.map_values(
        |layer: LayerId| JobKey::LayerResidency {
            layer,
            runtime_id: project.runtime_id,
            content_hash: hash_in(project.layer_hashes@, layer)->0,
            restoring,
        },
    )
}

/// The hash of every one of these layers is known.
pub open spec fn hashes_known(project: OpenProject, list: Seq<LayerId>) -> bool {
    forall|i: int| 0 <= i < list.len() ==> hash_in(project.layer_hashes@, #[trigger] list[i]) is Some
}

/// What bringing layers back does; tells whether there was anything to bring.
pub open spec fn layers_restored(pre: App, needed: Seq<LayerId>, after: Continuation, r: bool, post: App) -> bool {
    match pre.workspace.active() {
        Some(p) => {
            let list = layers_to_restore(p.deferred_layers@, needed, needed.len() as int);
            if list.len() == 0 {
                !r && post == pre
            } else {
                &&& r
                &&& job_queued(pre, "asset-loading"@, layer_keys(p, list, true), last_work(post), post)
                &&& last_work(post) matches Work::RestoreLayers { layers, after: then } && layers@ == list && then == after
            }
        },
        None => !r && post == pre,
    }
}

/// The layers among the first `n` that are unloaded and in memory.
pub open spec fn layers_to_evict(project: OpenProject, n: int) -> Seq<LayerId>
    decreases n,
{
    if n <= 0 {
        Seq::empty()
    } else {
        let before = layers_to_evict(project, n - 1);
        let layer = project.document.layers@[n - 1];
        if !layer.loaded && !project.deferred_layers@.contains(layer.id) {
            before.push(layer.id)
        } else {
            before
        }
    }
}

/// A job derives from exactly these sources.
pub open spec fn queued_with(jobs: Jobs, keys: Seq<JobKey>) -> bool {
    exists|j: int| 0 <= j < jobs.pending@.len() && (#[trigger] jobs.pending@[j]).keys@ == keys
}

/// What moving the objects of unloaded layers to storage does.
pub open spec fn layers_evicted(pre: App, post: App) -> bool {
    match pre.workspace.active() {
        Some(p) if !restoring(pre.jobs) => {
            let list = layers_to_evict(p, p.document.layers@.len() as int);
            let keys = layer_keys(p, list, false);
            if list.len() == 0 || queued_with(pre.jobs, keys) {
                post == pre
            } else {
                let asked = post.files.requests@;
                let freed = App { files: post.files, frame: Frame { snap_stale: true, ..pre.frame }, ..pre };
                &&& post.files == (Files { requests: post.files.requests, ..pre.files })
                &&& asked.len() == pre.files.requests@.len() + 1
                &&& asked.drop_last() == pre.files.requests@
                &&& asked.last() matches Request::ReleaseLayers(layers) && layers@ == list
                &&& job_queued(freed, "asset-unloading"@, keys, last_work(post), post)
                &&& last_work(post) matches Work::EvictLayers(layers) && layers@ == list
            }
        },
        _ => post == pre,
    }
}

/// What moving parts of the history to storage does.
pub open spec fn history_archived(pre: App, requests: Seq<u64>, post: App) -> bool {
    match pre.workspace.active() {
        Some(p) => {
            let key = JobKey::HistoryResidency { runtime_id: p.runtime_id, revision: pre.history.archive_revision, restoring: false };
            if queued_for(pre.jobs, JobFilter::Key(key)) || requests.len() == 0 {
                post == pre
            } else {
                &&& job_queued(pre, "asset-unloading"@, seq![key], last_work(post), post)
                &&& last_work(post) matches Work::ArchiveHistory { requests: q, layers, items } && q@ == requests && layers@ == unloaded_layers(
                    p.document.layers@,
                ) && items@ == unloaded_datasets(pre.items.drill_holes@)
            }
        },
        None => post == pre,
    }
}

/// The layers that are not loaded.
pub open spec fn unloaded_layers(layers: Seq<Layer>) -> Seq<LayerId>
    decreases layers.len(),
{
    if layers.len() == 0 {
        Seq::empty()
    } else {
        let before = unloaded_layers(layers.drop_last());
        if layers.last().loaded {
            before
        } else {
            before.push(layers.last().id)
        }
    }
}

/// The datasets that are not loaded.
pub open spec fn unloaded_datasets(datasets: Seq<OpenDrillHoleDataset>) -> Seq<ItemRef>
    decreases datasets.len(),
{
    if datasets.len() == 0 {
        Seq::empty()
    } else {
        let before = unloaded_datasets(datasets.drop_last());
        if datasets.last().state.loaded {
            before
        } else {
            before.push(ItemRef::DrillHole(datasets.last().id))
        }
    }
}

/// What bringing a step of the history back does; tells whether the step has
/// to wait for it.
pub open spec fn history_restored(pre: App, undo: bool, requests: Seq<u64>, r: bool, post: App) -> bool {
    match active_runtime(pre.workspace) {
        Some(id) if requests.len() > 0 => {
            let key = JobKey::HistoryResidency { runtime_id: id, revision: pre.history.archive_revision, restoring: true };
            &&& r
            &&& if queued_for(pre.jobs, JobFilter::Key(key)) {
                post == pre
            } else {
                &&& job_queued(pre, "asset-loading"@, seq![key], last_work(post), post)
                &&& last_work(post) matches Work::RestoreHistory { undo: u, requests: q } && u == undo && q@ == requests
            }
        },
        _ => !r && post == pre,
    }
}

impl JobKey {
    fn brings_back(&self) -> (r: bool)
        ensures
            r == self.restores(),
    {
        (*self).is_restoring()
    }
}

impl Jobs {
    fn is_queued_for(&self, filter: JobFilter) -> (r: bool)
        ensures
            r == queued_for(*self, filter),
    {
        let found = find_first(&self.pending, Ghost(|j: BackgroundJob| job_meant(j, filter)), |j: &BackgroundJob| -> (b: bool)
            ensures
                b == job_meant(*j, filter),
            { j.is_meant(filter) });
        found.is_some()
    }

    fn is_restoring(&self) -> (r: bool)
        ensures
            r == restoring(*self),
    {
        let found = find_first(&self.pending, Ghost(|j: BackgroundJob| job_restores(j)), |j: &BackgroundJob| -> (b: bool)
            ensures
                b == job_restores(*j),
            { j.restores_data() });
        found.is_some()
    }

    fn is_queued_with(&self, keys: &Vec<JobKey>) -> (r: bool)
        ensures
            r == queued_with(*self, keys@),
    {
        let found = find_first(&self.pending, Ghost(|j: BackgroundJob| j.keys@ == keys@), |j: &BackgroundJob| -> (b: bool)
            ensures
                b == (j.keys@ == keys@),
            { same_list(&j.keys, keys) });
        found.is_some()
    }
}

impl BackgroundJob {
    fn restores_data(&self) -> (r: bool)
        ensures
            r == job_restores(*self),
    {
        let found = find_first(&self.keys, Ghost(|k: JobKey| k.restores()), |k: &JobKey| -> (b: bool)
            ensures
                b == k.restores(),
            { k.brings_back() });
        found.is_some()
    }
}

fn same_list(a: &Vec<JobKey>, b: &Vec<JobKey>) -> (r: bool)
    ensures
        r == (a@ == b@),
{
    if a.len() != b.len() {
        return false;
    }
    let mut i: usize = 0;
    while i < a.len()
        invariant
            i <= a.len(),
            a.len() == b.len(),
            forall|j: int| 0 <= j < i ==> #[trigger] a@[j] == b@[j],
        decreases a.len() - i,
    {
        if a[i] != b[i] {
            assert(a@[i as int] != b@[i as int]);
            return false;
        }
        i += 1;
    }
    assert(a@ =~= b@);
    true
}

impl Items {
    fn find_to_restore(&self, needed: &Vec<ItemRef>) -> (r: Vec<ItemRef>)
        ensures
            r@ == to_restore(*self, needed@, needed@.len() as int),
            forall|k: int| 0 <= k < r@.len() ==> item_state(*self, #[trigger] r@[k]) is Some,
    {
        let mut list: Vec<ItemRef> = Vec::new();
        let mut i: usize = 0;
        while i < needed.len()
            invariant
                i <= needed.len(),
                list@ == to_restore(*self, needed@, i as int),
                forall|k: int| 0 <= k < list@.len() ==> item_state(*self, #[trigger] list@[k]) is Some,
            decreases needed.len() - i,
        {
            let stored = match self.state_of(needed[i]) {
                Some(s) => s.deferred,
                None => false,
            };
            if stored && !contains_key(&list, needed[i]) {
                list.push(needed[i]);
            }
            i += 1;
        }
        list
    }

    fn keys_for(&self, list: &Vec<ItemRef>, runtime_id: u32, restoring: bool) -> (r: Vec<JobKey>)
        requires
            forall|k: int| 0 <= k < list@.len() ==> item_state(*self, #[trigger] list@[k]) is Some,
        ensures
            r@ == item_keys(*self, list@, runtime_id, restoring),
    {
        let mut keys: Vec<JobKey> = Vec::new();
        let mut i: usize = 0;
        while i < list.len()
            invariant
                i <= list.len(),
                forall|k: int| 0 <= k < list@.len() ==> item_state(*self, #[trigger] list@[k]) is Some,
                keys@ == item_keys(*self, list@, runtime_id, restoring).take(i as int),
            decreases list.len() - i,
        {
            let epoch: u64 = match self.state_of(list[i]) {
                Some(s) => s.epoch,
                None => 0,
            };
            keys.push(JobKey::Residency { item: list[i], runtime_id, revision: epoch, restoring });
            i += 1;
            assert(keys@ =~= item_keys(*self, list@, runtime_id, restoring).take(i as int));
        }
        assert(keys@ =~= item_keys(*self, list@, runtime_id, restoring));
        keys
    }

    fn list_all(&self) -> (r: Vec<ItemRef>)
        ensures
            r@ == all_items(*self),
    {
        let mut list: Vec<ItemRef> = Vec::new();
        let ghost a = self.triangulations@.map_values(|t: OpenTriangulation| ItemRef::Triangulation(t.id));
        let ghost b = self.block_models@.map_values(|t: OpenBlockModel| ItemRef::BlockModel(t.id));
        let ghost c = self.drill_holes@.map_values(|t: OpenDrillHoleDataset| ItemRef::DrillHole(t.id));
        let ghost d = self.point_clouds@.map_values(|t: OpenPointCloud| ItemRef::PointCloud(t.id));
        let ghost e = self.raster_textures@.map_values(|t: OpenRasterTexture| ItemRef::Raster(t.id));
        let mut i: usize = 0;
        while i < self.triangulations.len()
            invariant
                i <= self.triangulations.len(),
                a == self.triangulations@.map_values(|t: OpenTriangulation| ItemRef::Triangulation(t.id)),
                list@ == a.take(i as int),
            decreases self.triangulations.len() - i,
        {
            list.push(ItemRef::Triangulation(self.triangulations[i].id));
            i += 1;
            assert(list@ =~= a.take(i as int));
        }
        assert(list@ =~= a + b.take(0));
        let mut i: usize = 0;
        while i < self.block_models.len()
            invariant
                i <= self.block_models.len(),
                b == self.block_models@.map_values(|t: OpenBlockModel| ItemRef::BlockModel(t.id)),
                list@ == a + b.take(i as int),
            decreases self.block_models.len() - i,
        {
            list.push(ItemRef::BlockModel(self.block_models[i].id));
            i += 1;
            assert(list@ =~= a + b.take(i as int));
        }
        assert(list@ =~= a + b + c.take(0));
        let mut i: usize = 0;
        while i < self.drill_holes.len()
            invariant
                i <= self.drill_holes.len(),
                c == self.drill_holes@.map_values(|t: OpenDrillHoleDataset| ItemRef::DrillHole(t.id)),
                list@ == a + b + c.take(i as int),
            decreases self.drill_holes.len() - i,
        {
            list.push(ItemRef::DrillHole(self.drill_holes[i].id));
            i += 1;
            assert(list@ =~= a + b + c.take(i as int));
        }
        assert(list@ =~= a + b + c + d.take(0));
        let mut i: usize = 0;
        while i < self.point_clouds.len()
            invariant
                i <= self.point_clouds.len(),
                d == self.point_clouds@.map_values(|t: OpenPointCloud| ItemRef::PointCloud(t.id)),
                list@ == a + b + c + d.take(i as int),
            decreases self.point_clouds.len() - i,
        {
            list.push(ItemRef::PointCloud(self.point_clouds[i].id));
            i += 1;
            assert(list@ =~= a + b + c + d.take(i as int));
        }
        assert(list@ =~= a + b + c + d + e.take(0));
        let mut i: usize = 0;
        while i < self.raster_textures.len()
            invariant
                i <= self.raster_textures.len(),
                e == self.raster_textures@.map_values(|t: OpenRasterTexture| ItemRef::Raster(t.id)),
                list@ == a + b + c + d + e.take(i as int),
            decreases self.raster_textures.len() - i,
        {
            list.push(ItemRef::Raster(self.raster_textures[i].id));
            i += 1;
            assert(list@ =~= a + b + c + d + e.take(i as int));
        }
        assert(list@ =~= all_items(*self));
        list
    }

    fn is_evictable(&self, item: ItemRef) -> (r: Option<u64>)
        ensures
            r is Some <==> evictable(*self, item),
            r matches Some(epoch) ==> epoch == item_state(*self, item)->0.epoch,
    {
        match self.state_of(item) {
            Some(s) => {
                if !s.loaded && !s.deferred {
                    Some(s.epoch)
                } else {
                    None
                }
            },
            None => None,
        }
    }
}

impl OpenProject {
    fn find_layers_to_restore(&self, needed: &Vec<LayerId>) -> (r: Vec<LayerId>)
        ensures
            r@ == layers_to_restore(self.deferred_layers@, needed@, needed@.len() as int),
    {
        let mut list: Vec<LayerId> = Vec::new();
        let mut i: usize = 0;
        while i < needed.len()
            invariant
                i <= needed.len(),
                list@ == layers_to_restore(self.deferred_layers@, needed@, i as int),
            decreases needed.len() - i,
        {
            if self.deferred_layers.contains(needed[i]) && !contains_key(&list, needed[i]) {
                list.push(needed[i]);
            }
            i += 1;
        }
        list
    }

    fn find_layers_to_evict(&self) -> (r: Vec<LayerId>)
        ensures
            r@ == layers_to_evict(*self, self.document.layers@.len() as int),
    {
        let mut list: Vec<LayerId> = Vec::new();
        let mut i: usize = 0;
        while i < self.document.layers.len()
            invariant
                i <= self.document.layers.len(),
                list@ == layers_to_evict(*self, i as int),
            decreases self.document.layers.len() - i,
        {
            let layer = &self.document.layers[i];
            if !layer.loaded && !self.deferred_layers.contains(layer.id) {
                list.push(layer.id);
            }
            i += 1;
        }
        list
    }

    fn keys_for_layers(&self, list: &Vec<LayerId>, restoring: bool) -> (r: Vec<JobKey>)
        requires
            hashes_known(*self, list@),
        ensures
            r@ == layer_keys(*self, list@, restoring),
    {
        let mut keys: Vec<JobKey> = Vec::new();
        let mut i: usize = 0;
        while i < list.len()
            invariant
                i <= list.len(),
                hashes_known(*self, list@),
                keys@ == layer_keys(*self, list@, restoring).take(i as int),
            decreases list.len() - i,
        {
            assert(hash_in(self.layer_hashes@, list@[i as int]) is Some);
            let content_hash: u64 = match self.find_layer_hash(list[i]) {
                Some(h) => h,
                None => 0,
            };
            keys.push(JobKey::LayerResidency { layer: list[i], runtime_id: self.runtime_id, content_hash, restoring });
            i += 1;
            assert(keys@ =~= layer_keys(*self, list@, restoring).take(i as int));
        }
        assert(keys@ =~= layer_keys(*self, list@, restoring));
        keys
    }
}

fn copy_layer_ids(s: &Vec<LayerId>) -> (r: Vec<LayerId>)
    ensures
        r@ == s@,
{
    let mut r: Vec<LayerId> = Vec::new();
    let mut i: usize = 0;
    while i < s.len()
        invariant
            i <= s.len(),
            r@ == s@.take(i as int),
        decreases s.len() - i,
    {
        r.push(s[i]);
        i += 1;
    }
    assert(r@ =~= s@);
    r
}

fn find_unloaded_layers(layers: &Vec<Layer>) -> (r: Vec<LayerId>)
    ensures
        r@ == unloaded_layers(layers@),
{
    let mut list: Vec<LayerId> = Vec::new();
    let mut i: usize = 0;
    assert(layers@.take(0) =~= Seq::<Layer>::empty());
    while i < layers.len()
        invariant
            i <= layers.len(),
            list@ == unloaded_layers(layers@.take(i as int)),
        decreases layers.len() - i,
    {
        assert(layers@.take(i + 1).drop_last() =~= layers@.take(i as int));
        if !layers[i].loaded {
            list.push(layers[i].id);
        }
        i += 1;
    }
    assert(layers@.take(layers@.len() as int) =~= layers@);
    list
}

fn find_unloaded_datasets(datasets: &Vec<OpenDrillHoleDataset>) -> (r: Vec<ItemRef>)
    ensures
        r@ == unloaded_datasets(datasets@),
{
    let mut list: Vec<ItemRef> = Vec::new();
    let mut i: usize = 0;
    assert(datasets@.take(0) =~= Seq::<OpenDrillHoleDataset>::empty());
    while i < datasets.len()
        invariant
            i <= datasets.len(),
            list@ == unloaded_datasets(datasets@.take(i as int)),
        decreases datasets.len() - i,
    {
        assert(datasets@.take(i + 1).drop_last() =~= datasets@.take(i as int));
        if !datasets[i].state.loaded {
            list.push(ItemRef::DrillHole(datasets[i].id));
        }
        i += 1;
    }
    assert(datasets@.take(datasets@.len() as int) =~= datasets@);
    list
}

impl App {
    /// What is known of an item apart from its data, if the item is there.
    pub fn project_item_state(&self, item: ItemRef) -> (r: Option<&ItemState>)
        ensures
            match r {
                Some(s) => item_state(self.items, item) == Some(*s),
                None => item_state(self.items, item) is None,
            },
    {
        self.items.state_of(item)
    }

    /// Lets an item whose data was moved take the place of the one with its id.
    pub fn replace_residency(&mut self, item: OpenItem)
        ensures
            *final(self) == (App { items: final(self).items, frame: old(self).frame.bounds(), ..*old(self) }),
            residency_replaced(old(self).items, item, final(self).items),
    {
        self.items.replace_residency(item);
        self.invalidate_topology_bounds_and_redraw();
    }

    /// Whether an item is being brought back.
    pub fn item_load_pending(&self, item: ItemRef) -> (r: bool)
        ensures
            r == queued_for(self.jobs, JobFilter::ItemRestore(item)),
    {
        self.jobs.is_queued_for(JobFilter::ItemRestore(item))
    }

    /// Whether a layer is being brought back.
    pub fn layer_load_pending(&self, layer: LayerId) -> (r: bool)
        ensures
            r == queued_for(self.jobs, JobFilter::LayerRestore(layer)),
    {
        self.jobs.is_queued_for(JobFilter::LayerRestore(layer))
    }

    /// Whether anything is being brought back.
    pub fn restore_pending(&self) -> (r: bool)
        ensures
            r == restoring(self.jobs),
    {
        self.jobs.is_restoring()
    }

    fn style_loaded(&mut self, item: ItemRef, loaded: bool)
        ensures
            loaded_styled(*old(self), item, loaded, *final(self)),
    {
        match self.items.item_style(item) {
            Some(style) => self.set_item_style(item, style.with_loaded(loaded)),
            None => {},
        }
    }

    /// Loads or unloads an item.
    pub fn set_item_loaded(&mut self, item: ItemRef, loaded: bool)
        ensures
            item_loaded_set(*old(self), item, loaded, *final(self)),
    {
        if loaded {
            if self.item_load_pending(item) {
                return ;
            }
            self.style_loaded(item, true);
        } else {
            self.cancel_jobs(JobFilter::ItemRestore(item));
            let ghost mid = *self;
            self.style_loaded(item, false);
            let ghost styled = *self;
            self.frame.evict_due = true;
            assert(restore_withdrawn(*old(self), item, mid));
            assert(loaded_styled(mid, item, false, styled));
        }
    }

    /// Brings items back into memory; tells whether there was anything to bring.
    pub fn restore_items_for(&mut self, needed: &Vec<ItemRef>, after: Continuation) -> (r: bool)
        requires
            old(self).jobs.next_ticket < u64::MAX,
        ensures
            items_restored(*old(self), needed@, after, r, *final(self)),
    {
        let items = self.items.find_to_restore(needed);
        if items.len() == 0 {
            return false;
        }
        let id: u32 = match self.active_runtime_id() {
            Some(id) => id,
            None => {
                return false;
            },
        };
        let keys = self.items.keys_for(&items, id, true);
        self.spawn_job("asset-loading".to_owned(), keys, Work::RestoreItems { items, after });
        true
    }

    fn evict_item(&mut self, item: ItemRef, runtime_id: u32)
        requires
            old(self).jobs.next_ticket < u64::MAX,
        ensures
            item_evicted(*old(self), item, runtime_id, *final(self)),
            final(self).jobs.next_ticket <= old(self).jobs.next_ticket + 1,
    {
        match self.items.is_evictable(item) {
            Some(revision) => {
                let key = JobKey::Residency { item, runtime_id, revision, restoring: false };
                if !self.jobs.is_queued_for(JobFilter::Key(key)) {
                    self.spawn_job("asset-unloading".to_owned(), one_key(key), Work::EvictItem(item));
                }
            },
            None => {},
        }
    }

    /// Moves the data of unloaded items to storage.
    pub fn evict_unloaded_items(&mut self)
        requires
            old(self).jobs.next_ticket + all_items(old(self).items).len() <= u64::MAX,
        ensures
            items_evicted(*old(self), *final(self)),
    {
        if self.restore_pending() {
            return ;
        }
        let id: u32 = match self.active_runtime_id() {
            Some(id) => id,
            None => {
                return ;
            },
        };
        let list = self.items.list_all();
        let mut i: usize = 0;
        while i < list.len()
            invariant
                i <= list.len(),
                self.jobs.next_ticket + (list@.len() - i) <= u64::MAX,
                items_evicted_upto(*old(self), list@, id, i as int, *self),
            decreases list.len() - i,
        {
            let ghost mid = *self;
            self.evict_item(list[i], id);
            assert(item_evicted(mid, list@[i + 1 - 1], id, *self));
            i += 1;
        }
    }

    /// Brings layers back into memory; tells whether there was anything to bring.
    pub fn restore_layers_for(&mut self, needed: &Vec<LayerId>, after: Continuation) -> (r: bool)
        requires
            old(self).jobs.next_ticket < u64::MAX,
            old(self).workspace.active() matches Some(p) ==> hashes_known(p, layers_to_restore(p.deferred_layers@, needed@, needed@.len() as int)),
        ensures
            layers_restored(*old(self), needed@, after, r, *final(self)),
    {
        let (layers, keys) = match self.workspace.active_project() {
            Some(p) => {
                let layers = p.find_layers_to_restore(needed);
                if layers.len() == 0 {
                    return false;
                }
                let keys = p.keys_for_layers(&layers, true);
                (layers, keys)
            },
            None => {
                return false;
            },
        };
        self.spawn_job("asset-loading".to_owned(), keys, Work::RestoreLayers { layers, after });
        true
    }

    /// Moves the objects of unloaded layers to storage.
    pub fn evict_unloaded_layers(&mut self)
        requires
            old(self).jobs.next_ticket < u64::MAX,
            old(self).workspace.active() matches Some(p) ==> hashes_known(p, layers_to_evict(p, p.document.layers@.len() as int)),
        ensures
            layers_evicted(*old(self), *final(self)),
    {
        if self.restore_pending() {
            return ;
        }
        let (layers, keys) = match self.workspace.active_project() {
            Some(p) => {
                let layers = p.find_layers_to_evict();
                if layers.len() == 0 {
                    return ;
                }
                let keys = p.keys_for_layers(&layers, false);
                (layers, keys)
            },
            None => {
                return ;
            },
        };
        if self.jobs.is_queued_with(&keys) {
            return ;
        }
        self.frame.snap_stale = true;
        let released = copy_layer_ids(&layers);
        self.files.requests.push(Request::ReleaseLayers(released));
        assert(self.files.requests@.drop_last() =~= old(self).files.requests@);
        self.spawn_job("asset-unloading".to_owned(), keys, Work::EvictLayers(layers));
    }

    /// Moves parts of the history to storage. `requests` are the parts that
    /// speak of unloaded layers and datasets.
    pub fn archive_unloaded_history(&mut self, requests: Vec<u64>)
        requires
            old(self).jobs.next_ticket < u64::MAX,
        ensures
            history_archived(*old(self), requests@, *final(self)),
    {
        let (runtime_id, layers): (u32, Vec<LayerId>) = match self.workspace.active_project() {
            Some(p) => (p.runtime_id, find_unloaded_layers(&p.document.layers)),
            None => {
                return ;
            },
        };
        let items = find_unloaded_datasets(&self.items.drill_holes);
        let key = JobKey::HistoryResidency { runtime_id, revision: self.history.archive_revision, restoring: false };
        if self.jobs.is_queued_for(JobFilter::Key(key)) || requests.len() == 0 {
            return ;
        }
        self.spawn_job("asset-unloading".to_owned(), one_key(key), Work::ArchiveHistory { requests, layers, items });
    }

    /// Brings a step of the history back into memory; tells whether the step
    /// has to wait for it. `requests` are its parts that lie in storage.
    pub fn restore_history_step(&mut self, undo: bool, requests: Vec<u64>) -> (r: bool)
        requires
            old(self).jobs.next_ticket < u64::MAX,
        ensures
            history_restored(*old(self), undo, requests@, r, *final(self)),
    {
        if requests.len() == 0 {
            return false;
        }
        let runtime_id: u32 = match self.active_runtime_id() {
            Some(id) => id,
            None => {
                return false;
            },
        };
        let key = JobKey::HistoryResidency { runtime_id, revision: self.history.archive_revision, restoring: true };
        if self.jobs.is_queued_for(JobFilter::Key(key)) {
            return true;
        }
        self.spawn_job("asset-loading".to_owned(), one_key(key), Work::RestoreHistory { undo, requests });
        true
    }
}

/// Moving an item's data leaves everything else that is known of it: whether
/// it is loaded, its counters and where it came from.
pub proof fn law_residency_keeps_state(pre: Items, t: OpenTriangulation, post: Items)
    requires
        residency_replaced(pre, OpenItem::Triangulation(t), post),
        triangulation_index(pre.triangulations@, t.id) < pre.triangulations@.len(),
    ensures
        item_state(post, ItemRef::Triangulation(t.id)) matches Some(s) && s == (ItemState {
            deferred: t.state.deferred,
            ..item_state(pre, ItemRef::Triangulation(t.id))->0
        }),
{
    let s = pre.triangulations@;
    let f = |x: OpenTriangulation| x.id == t.id;
    crate::search::lemma_first_index(s, f);
    let i = triangulation_index(s, t.id);
    crate::search::lemma_first_index(post.triangulations@, f);
    let k = triangulation_index(post.triangulations@, t.id);
    assert(f(post.triangulations@[i]));
    if k < i {
        assert(!f(s[k]));
    }
    if i < k {
        assert(!f(post.triangulations@[i]));
    }
}

} // verus!
