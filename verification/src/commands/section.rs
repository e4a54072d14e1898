//! Showing, hiding and locking everything in one section of the explorer.

use crate::commands::layers::drop_handles;
use crate::commands::residency::{hashes_known, layers_restored, layers_to_restore, Continuation};
use crate::document::Layer;
use crate::edit::{Edit, Step};
use crate::ids::{IdSet, ItemRef, LayerId, ObjectId, RasterTextureId, SceneEntityId};
use crate::items::{Items, OpenBlockModel, OpenDrillHoleDataset, OpenPointCloud, OpenRasterTexture, OpenTriangulation};
use crate::search::filter_copied;
use crate::state::{App, Canvas, Visibility};
use crate::styles::{restyles, style_equal, style_of, with_loaded};
use crate::workspace::OpenProject;
use vstd::prelude::*;

verus! {

/// A section of the explorer.
#[derive(Clone, Copy, PartialEq, Eq, Structural, Debug)]
pub enum ExplorerSection {
    Designs,
    Triangulations,
    Rasters,
    PointClouds,
    BlockModels,
    DrillHoles,
}

/// The items of a section; designs are none.
pub open spec fn items_in(items: Items, section: ExplorerSection) -> Seq<ItemRef> {
    match section {
        ExplorerSection::Designs => Seq::empty(),
        ExplorerSection::Triangulations => items.triangulations@.map_values(|t: OpenTriangulation| ItemRef::Triangulation(t.id)),
        ExplorerSection::Rasters => items.raster_textures@.map_values(|t: OpenRasterTexture| ItemRef::Raster(t.id)),
        ExplorerSection::PointClouds => items.point_clouds@.map_values(|t: OpenPointCloud| ItemRef::PointCloud(t.id)),
        ExplorerSection::BlockModels => items.block_models@.map_values(|t: OpenBlockModel| ItemRef::BlockModel(t.id)),
        ExplorerSection::DrillHoles => items.drill_holes@.map_values(|t: OpenDrillHoleDataset| ItemRef::DrillHole(t.id)),
    }
}

/// What can be picked in a section; designs and rasters cannot.
pub open spec fn entities_in(items: Items, section: ExplorerSection) -> Seq<SceneEntityId> {
    match section {
        ExplorerSection::Designs => Seq::empty(),
        ExplorerSection::Rasters => Seq::empty(),
        ExplorerSection::Triangulations => items.triangulations@.map_values(|t: OpenTriangulation| SceneEntityId::Triangulation(t.id)),
        ExplorerSection::PointClouds => items.point_clouds@.map_values(|t: OpenPointCloud| SceneEntityId::PointCloud(t.id)),
        ExplorerSection::BlockModels => items.block_models@.map_values(|t: OpenBlockModel| SceneEntityId::BlockModel(t.id)),
        ExplorerSection::DrillHoles => items.drill_holes@.map_values(|t: OpenDrillHoleDataset| SceneEntityId::DrillHole(t.id)),
    }
}

/// The layers of the active project.
pub open spec fn layers_in(app: App) -> Seq<LayerId> {
    match app.workspace.active() {
        Some(p) => p.document.layers@.map_values(|l: Layer| l.id),
        None => Seq::empty(),
    }
}

impl Items {
    /// The items of a section.
    pub fn section_items(&self, section: ExplorerSection) -> (r: Vec<ItemRef>)
        ensures
            r@ == items_in(*self, section),
    {
        let mut list: Vec<ItemRef> = Vec::new();
        let ghost want = items_in(*self, section);
        let n: usize = match section {
            ExplorerSection::Designs => 0,
            ExplorerSection::Triangulations => self.triangulations.len(),
            ExplorerSection::Rasters => self.raster_textures.len(),
            ExplorerSection::PointClouds => self.point_clouds.len(),
            ExplorerSection::BlockModels => self.block_models.len(),
            ExplorerSection::DrillHoles => self.drill_holes.len(),
        };
        let mut i: usize = 0;
        while i < n
            invariant
                i <= n,
                want == items_in(*self, section),
                n == want.len(),
                list@ == want.take(i as int),
            decreases n - i,
        {
            let item = match section {
                ExplorerSection::Triangulations => ItemRef::Triangulation(self.triangulations[i].id),
                ExplorerSection::Rasters => ItemRef::Raster(self.raster_textures[i].id),
                ExplorerSection::PointClouds => ItemRef::PointCloud(self.point_clouds[i].id),
                ExplorerSection::BlockModels => ItemRef::BlockModel(self.block_models[i].id),
                _ => ItemRef::DrillHole(self.drill_holes[i].id),
            };
            list.push(item);
            i += 1;
            assert(list@ =~= want.take(i as int));
        }
        assert(list@ =~= want);
        list
    }

    /// What can be picked in a section.
    pub fn section_entities(&self, section: ExplorerSection) -> (r: Vec<SceneEntityId>)
        ensures
            r@ == entities_in(*self, section),
    {
        let mut list: Vec<SceneEntityId> = Vec::new();
        let ghost want = entities_in(*self, section);
        let n: usize = match section {
            ExplorerSection::Designs => 0,
            ExplorerSection::Rasters => 0,
            ExplorerSection::Triangulations => self.triangulations.len(),
            ExplorerSection::PointClouds => self.point_clouds.len(),
            ExplorerSection::BlockModels => self.block_models.len(),
            ExplorerSection::DrillHoles => self.drill_holes.len(),
        };
        let mut i: usize = 0;
        while i < n
            invariant
                i <= n,
                want == entities_in(*self, section),
                n == want.len(),
                list@ == want.take(i as int),
            decreases n - i,
        {
            let entity = match section {
                ExplorerSection::Triangulations => SceneEntityId::Triangulation(self.triangulations[i].id),
                ExplorerSection::PointClouds => SceneEntityId::PointCloud(self.point_clouds[i].id),
                ExplorerSection::BlockModels => SceneEntityId::BlockModel(self.block_models[i].id),
                _ => SceneEntityId::DrillHole(self.drill_holes[i].id),
            };
            list.push(entity);
            i += 1;
            assert(list@ =~= want.take(i as int));
        }
        assert(list@ =~= want);
        list
    }
}

/// The layers that change when all are loaded or unloaded.
pub open spec fn layers_to_switch(layers: Seq<Layer>, visible: bool) -> Seq<LayerId>
    decreases layers.len(),
{
    if layers.len() == 0 {
        Seq::empty()
    } else {
        let before = layers_to_switch(layers.drop_last(), visible);
        if layers.last().loaded != visible {
            before.push(layers.last().id)
        } else {
            before
        }
    }
}

/// The edits that load or unload layers and bring hidden objects back.
pub open spec fn design_edits(layers: Seq<LayerId>, hidden: Seq<ObjectId>, visible: bool) -> Seq<Edit> {
    let switched = layers.map_values(|l: LayerId| Edit::SetLayerLoaded { id: l, from: !visible, to: visible });
    if visible {
        switched + hidden.map_values(|o: ObjectId| Edit::SetObjectHidden { object: o, from: true, to: false })
    } else {
        switched
    }
}

/// The items that change when all are loaded or unloaded.
pub open spec fn items_to_switch(items: Items, list: Seq<ItemRef>, visible: bool) -> Seq<ItemRef>
    decreases list.len(),
{
    if list.len() == 0 {
        Seq::empty()
    } else {
        let before = items_to_switch(items, list.drop_last(), visible);
        match style_of(items, list.last()) {
            Some(s) if !style_equal(s, with_loaded(s, visible)) => before.push(list.last()),
            _ => before,
        }
    }
}

/// The edits load or unload these items.
pub open spec fn item_edits(items: Items, list: Seq<ItemRef>, visible: bool, edits: Seq<Edit>) -> bool {
    &&& edits.len() == list.len()
    &&& forall|i: int|
        0 <= i < list.len() ==> restyles(
            #[trigger] edits[i],
            list[i],
            style_of(items, list[i])->0,
            with_loaded(style_of(items, list[i])->0, visible),
        )
}

/// One step with several edits was handed to the history, or none where there
/// is nothing to change.
pub open spec fn batch_handed(pre: Seq<Step>, edits: Seq<Edit>, post: Seq<Step>) -> bool {
    if edits.len() == 0 {
        post == pre
    } else {
        let step = post.last();
        &&& post.len() == pre.len() + 1
        &&& post.drop_last() == pre
        &&& step.batch && !step.applied && step.project is None
        &&& step.edits@ == edits
    }
}

/// What loading or unloading a section does, nothing being in storage.
pub open spec fn section_switched(pre: App, section: ExplorerSection, visible: bool, hidden: Seq<ObjectId>, post: App) -> bool {
    &&& post == (App {
        steps: post.steps,
        visibility: Visibility { hidden: post.visibility.hidden, ..pre.visibility },
        frame: pre.frame.geometry(),
        ..pre
    })
    &&& post.visibility.hidden@ == (if visible {
        pre.visibility.hidden@.difference(entities_in(pre.items, section).to_set())
    } else {
        pre.visibility.hidden@
    })
    &&& exists|edits: Seq<Edit>| #[trigger]
        batch_handed(pre.steps@, edits, post.steps@) && (if section == ExplorerSection::Designs {
            edits == (match pre.workspace.active() {
                Some(p) => design_edits(layers_to_switch(p.document.layers@, visible), hidden, visible),
                None => Seq::empty(),
            })
        } else {
            item_edits(pre.items, items_to_switch(pre.items, items_in(pre.items, section), visible), visible, edits)
        })
}

/// What loading or unloading a section does: layers that lie in storage are
/// brought back first.
pub open spec fn section_shown(pre: App, section: ExplorerSection, visible: bool, hidden: Seq<ObjectId>, post: App) -> bool {
    if section == ExplorerSection::Designs && visible {
        designs_brought_back(pre, true, post) || (designs_brought_back(pre, false, pre) && section_switched(pre, section, visible, hidden, post))
    } else {
        section_switched(pre, section, visible, hidden, post)
    }
}

/// The layers of the active project that lie in storage are being brought
/// back, if there are any.
pub open spec fn designs_brought_back(pre: App, waits: bool, post: App) -> bool {
    exists|needed: Seq<LayerId>| stored_layers(pre, needed) && #[trigger] layers_restored(pre, needed, Continuation::ShowDesigns, waits, post)
}

/// The layers of the active project that lie in storage.
pub open spec fn stored_layers(app: App, layers: Seq<LayerId>) -> bool {
    match app.workspace.active() {
        Some(p) => layers == p.deferred_layers.order(),
        None => layers.len() == 0,
    }
}

/// The layers with a lock, or without one.
pub open spec fn layers_locked(pre: App, locked: bool, post: App) -> bool {
    let ids = layers_in(pre).to_set();
    let was = pre.visibility.locked_layers@;
    &&& post == (App {
        visibility: Visibility {
            locked_layers: post.visibility.locked_layers,
            explicitly_frozen: post.visibility.explicitly_frozen,
            ..pre.visibility
        },
        canvas: Canvas {
            active_layer: match pre.canvas.active_layer {
                Some(l) if locked && ids.contains(l) && !was.contains(l) => None,
                other => other,
            },
            ..pre.canvas
        },
        frame: pre.frame.geometry(),
        ..pre
    })
    &&& post.visibility.locked_layers@ == (if locked {
        was.union(ids)
    } else {
        was.difference(ids)
    })
    &&& forall|h: SceneEntityId| #[trigger]
        post.visibility.explicitly_frozen@.contains(h) <==> pre.visibility.explicitly_frozen@.contains(h) && (locked || !(h is Object))
}

/// The rasters with a lock, or without one.
pub open spec fn rasters_locked(pre: App, locked: bool, post: App) -> bool {
    let ids = pre.items.raster_textures@.map_values(|t: OpenRasterTexture| t.id).to_set();
    &&& post == (App {
        visibility: Visibility { locked_rasters: post.visibility.locked_rasters, ..pre.visibility },
        frame: pre.frame.geometry(),
        ..pre
    })
    &&& post.visibility.locked_rasters@ == (if locked {
        pre.visibility.locked_rasters@.union(ids)
    } else {
        pre.visibility.locked_rasters@.difference(ids)
    })
}

/// What can be picked with a lock, or without one.
pub open spec fn entities_locked(pre: App, entities: Set<SceneEntityId>, locked: bool, post: App) -> bool {
    &&& post == (App {
        visibility: Visibility {
            frozen: post.visibility.frozen,
            explicitly_frozen: post.visibility.explicitly_frozen,
            ..pre.visibility
        },
        frame: pre.frame.geometry(),
        ..pre
    })
    &&& post.visibility.frozen@ == (if locked {
        pre.visibility.frozen@.union(entities)
    } else {
        pre.visibility.frozen@.difference(entities)
    })
    &&& post.visibility.explicitly_frozen@ == (if locked {
        pre.visibility.explicitly_frozen@.union(entities)
    } else {
        pre.visibility.explicitly_frozen@.difference(entities)
    })
}

/// What locking or unlocking a section does.
pub open spec fn section_locked(pre: App, section: ExplorerSection, locked: bool, post: App) -> bool {
    match section {
        ExplorerSection::Designs => layers_locked(pre, locked, post),
        ExplorerSection::Rasters => rasters_locked(pre, locked, post),
        _ => entities_locked(pre, entities_in(pre.items, section).to_set(), locked, post),
    }
}

/// Locking a section that is locked changes nothing about the locks.
pub proof fn law_section_lock_is_idempotent(pre: App, mid: App, post: App, section: ExplorerSection, locked: bool)
    requires
        section_locked(pre, section, locked, mid),
        section_locked(mid, section, locked, post),
    ensures
        post.visibility.locked_layers@ == mid.visibility.locked_layers@,
        post.visibility.locked_rasters@ == mid.visibility.locked_rasters@,
        post.visibility.frozen@ == mid.visibility.frozen@,
        post.canvas == mid.canvas,
{
    assert(post.visibility.locked_layers@ =~= mid.visibility.locked_layers@);
    assert(post.visibility.locked_rasters@ =~= mid.visibility.locked_rasters@);
    assert(post.visibility.frozen@ =~= mid.visibility.frozen@);
}

fn find_layers_to_switch(layers: &Vec<Layer>, visible: bool) -> (r: Vec<LayerId>)
    ensures
        r@ == layers_to_switch(layers@, visible),
{
    let mut list: Vec<LayerId> = Vec::new();
    let mut i: usize = 0;
    assert(layers@.take(0) =~= Seq::<Layer>::empty());
    while i < layers.len()
        invariant
            i <= layers.len(),
            list@ == layers_to_switch(layers@.take(i as int), visible),
        decreases layers.len() - i,
    {
        assert(layers@.take(i + 1).drop_last() =~= layers@.take(i as int));
        if layers[i].loaded != visible {
            list.push(layers[i].id);
        }
        i += 1;
    }
    assert(layers@.take(layers@.len() as int) =~= layers@);
    list
}

fn make_design_edits(layers: &Vec<LayerId>, hidden: &Vec<ObjectId>, visible: bool) -> (r: Vec<Edit>)
    ensures
        r@ == design_edits(layers@, hidden@, visible),
{
    let ghost switched = layers@.map_values(|l: LayerId| Edit::SetLayerLoaded { id: l, from: !visible, to: visible });
    let ghost shown = hidden@.map_values(|o: ObjectId| Edit::SetObjectHidden { object: o, from: true, to: false });
    let mut edits: Vec<Edit> = Vec::new();
    let mut i: usize = 0;
    while i < layers.len()
        invariant
            i <= layers.len(),
            switched == layers@.map_values(|l: LayerId| Edit::SetLayerLoaded { id: l, from: !visible, to: visible }),
            edits@ == switched.take(i as int),
        decreases layers.len() - i,
    {
        edits.push(Edit::SetLayerLoaded { id: layers[i], from: !visible, to: visible });
        i += 1;
        assert(edits@ =~= switched.take(i as int));
    }
    assert(edits@ =~= switched);
    if visible {
        let mut k: usize = 0;
        assert(edits@ =~= switched + shown.take(0));
        while k < hidden.len()
            invariant
                k <= hidden.len(),
                shown == hidden@.map_values(|o: ObjectId| Edit::SetObjectHidden { object: o, from: true, to: false }),
                edits@ == switched + shown.take(k as int),
            decreases hidden.len() - k,
        {
            edits.push(Edit::SetObjectHidden { object: hidden[k], from: true, to: false });
            k += 1;
            assert(edits@ =~= switched + shown.take(k as int));
        }
        assert(edits@ =~= switched + shown);
    }
    edits
}

impl Items {
    fn make_item_edits(&self, list: &Vec<ItemRef>, visible: bool) -> (r: Vec<Edit>)
        ensures
            item_edits(*self, items_to_switch(*self, list@, visible), visible, r@),
    {
        let mut edits: Vec<Edit> = Vec::new();
        let mut i: usize = 0;
        assert(list@.take(0) =~= Seq::<ItemRef>::empty());
        while i < list.len()
            invariant
                i <= list.len(),
                item_edits(*self, items_to_switch(*self, list@.take(i as int), visible), visible, edits@),
            decreases list.len() - i,
        {
            let ghost before = items_to_switch(*self, list@.take(i as int), visible);
            let ghost had = edits@;
            assert(list@.take(i + 1).drop_last() =~= list@.take(i as int));
            match self.item_style(list[i]) {
                Some(from) => match self.item_style(list[i]) {
                    Some(again) => {
                        let to = again.with_loaded(visible);
                        if !from.same(&to) {
                            edits.push(Edit::SetItemStyle { item: list[i], before: from, after: to });
                            proof {
                                let now = items_to_switch(*self, list@.take(i + 1), visible);
                                assert(now == before.push(list@[i as int]));
                                assert forall|j: int| 0 <= j < now.len() implies restyles(
                                    #[trigger] edits@[j],
                                    now[j],
                                    style_of(*self, now[j])->0,
                                    with_loaded(style_of(*self, now[j])->0, visible),
                                ) by {
                                    if j < before.len() {
                                        assert(edits@[j] == had[j]);
                                    }
                                }
                            }
                        }
                    },
                    None => {},
                },
                None => {},
            }
            i += 1;
        }
        assert(list@.take(list@.len() as int) =~= list@);
        edits
    }
}

impl App {
    fn hand_batch(&mut self, edits: Vec<Edit>)
        ensures
            *final(self) == (App { steps: final(self).steps, ..*old(self) }),
            batch_handed(old(self).steps@, edits@, final(self).steps@),
    {
        if edits.len() > 0 {
            self.execute_batch(edits);
            assert(self.steps@.drop_last() =~= old(self).steps@);
        }
    }

    fn switch_section(&mut self, section: ExplorerSection, visible: bool, hidden: &Vec<ObjectId>)
        ensures
            section_switched(*old(self), section, visible, hidden@, *final(self)),
    {
        let edits = if section == ExplorerSection::Designs {
            match self.workspace.active_project() {
                Some(p) => {
                    let layers = find_layers_to_switch(&p.document.layers, visible);
                    make_design_edits(&layers, hidden, visible)
                },
                None => Vec::new(),
            }
        } else {
            let list = self.items.section_items(section);
            self.items.make_item_edits(&list, visible)
        };
        let ghost made = edits@;
        if visible {
            let entities = self.items.section_entities(section);
            drop_handles(&mut self.visibility.hidden, &entities);
        }
        self.hand_batch(edits);
        self.invalidate_geometry();
        assert(batch_handed(old(self).steps@, made, self.steps@));
    }

    /// Loads or unloads everything in a section as one step. `hidden` are the
    /// objects that were hidden one by one.
    pub fn set_section_visible(&mut self, section: ExplorerSection, visible: bool, hidden: &Vec<ObjectId>)
        requires
            old(self).jobs.next_ticket < u64::MAX,
            old(self).workspace.active() matches Some(p) ==> forall|l: LayerId| #[trigger]
                p.deferred_layers@.contains(l) ==> crate::workspace::hash_in(p.layer_hashes@, l) is Some,
        ensures
            section_shown(*old(self), section, visible, hidden@, *final(self)),
    {
        if section == ExplorerSection::Designs && visible {
            let needed: Vec<LayerId> = match self.workspace.active_project() {
                Some(p) => copy_ids(p.deferred_layers.as_vec()),
                None => Vec::new(),
            };
            proof {
                if let Some(p) = self.workspace.active() {
                    lemma_restored_are_stored(p, needed@, needed@.len() as int);
                }
            }
            let waits = self.restore_layers_for(&needed, Continuation::ShowDesigns);
            proof {
                assert(stored_layers(*old(self), needed@));
                assert(layers_restored(*old(self), needed@, Continuation::ShowDesigns, waits, *self));
                assert(designs_brought_back(*old(self), waits, *self));
            }
            if waits {
                return ;
            }
        }
        self.switch_section(section, visible, hidden);
    }

    fn lock_layers(&mut self, locked: bool)
        ensures
            layers_locked(*old(self), locked, *final(self)),
    {
        let ids = self.section_layer_ids();
        if locked {
            self.canvas.stop_drawing_on_any(&ids, &self.visibility.locked_layers);
        }
        self.visibility.lock_layers(&ids, locked);
        self.invalidate_geometry();
    }

    /// The layers of the active project.
    pub fn section_layer_ids(&self) -> (r: Vec<LayerId>)
        ensures
            r@ == layers_in(*self),
    {
        match self.workspace.active_project() {
            Some(p) => {
                let ghost want = p.document.layers@.map_values(|l: Layer| l.id);
                let mut list: Vec<LayerId> = Vec::new();
                let mut i: usize = 0;
                while i < p.document.layers.len()
                    invariant
                        i <= p.document.layers.len(),
                        want == p.document.layers@.map_values(|l: Layer| l.id),
                        list@ == want.take(i as int),
                    decreases p.document.layers.len() - i,
                {
                    list.push(p.document.layers[i].id);
                    i += 1;
                    assert(list@ =~= want.take(i as int));
                }
                assert(list@ =~= want);
                list
            },
            None => Vec::new(),
        }
    }

    fn lock_rasters(&mut self, locked: bool)
        ensures
            rasters_locked(*old(self), locked, *final(self)),
    {
        let ghost want = self.items.raster_textures@.map_values(|t: OpenRasterTexture| t.id);
        let mut ids: Vec<RasterTextureId> = Vec::new();
        let mut i: usize = 0;
        while i < self.items.raster_textures.len()
            invariant
                i <= self.items.raster_textures.len(),
                want == self.items.raster_textures@.map_values(|t: OpenRasterTexture| t.id),
                ids@ == want.take(i as int),
            decreases self.items.raster_textures.len() - i,
        {
            ids.push(self.items.raster_textures[i].id);
            i += 1;
            assert(ids@ =~= want.take(i as int));
        }
        assert(ids@ =~= want);
        if locked {
            self.visibility.locked_rasters.extend(&ids);
        } else {
            drop_all(&mut self.visibility.locked_rasters, &ids);
        }
        self.invalidate_geometry();
    }

    fn lock_entities(&mut self, entities: &Vec<SceneEntityId>, locked: bool)
        ensures
            entities_locked(*old(self), entities@.to_set(), locked, *final(self)),
    {
        if locked {
            self.visibility.frozen.extend(entities);
            self.visibility.explicitly_frozen.extend(entities);
        } else {
            drop_handles(&mut self.visibility.frozen, entities);
            drop_handles(&mut self.visibility.explicitly_frozen, entities);
        }
        self.invalidate_geometry();
    }

    /// Locks or unlocks everything in a section.
    pub fn set_section_locked(&mut self, section: ExplorerSection, locked: bool)
        ensures
            section_locked(*old(self), section, locked, *final(self)),
    {
        match section {
            ExplorerSection::Designs => self.lock_layers(locked),
            ExplorerSection::Rasters => self.lock_rasters(locked),
            _ => {
                let entities = self.items.section_entities(section);
                self.lock_entities(&entities, locked);
            },
        }
    }
}

impl Canvas {
    /// Layers that get a lock are no longer drawn on.
    fn stop_drawing_on_any(&mut self, ids: &Vec<LayerId>, locked: &IdSet<LayerId>)
        ensures
            *final(self) == (Canvas {
                active_layer: match old(self).active_layer {
                    Some(l) if ids@.to_set().contains(l) && !locked@.contains(l) => None,
                    other => other,
                },
                ..*old(self)
            }),
    {
        match self.active_layer {
            Some(l) => {
                assert(ids@.to_set().contains(l) <==> ids@.contains(l));
                if crate::ids::contains_key(ids, l) && !locked.contains(l) {
                    self.active_layer = None;
                }
            },
            None => {},
        }
    }
}

fn copy_ids(s: &Vec<LayerId>) -> (r: Vec<LayerId>)
    ensures
        r@ == s@,
{
    let mut r: Vec<LayerId> = Vec::new();
    let mut i: usize = 0;
    while i < s.len()
        invariant
            i <= s.len(),
            r@ == s@.take(i as int),
        decreases s.len() - i,
    {
        r.push(s[i]);
        i += 1;
    }
    assert(r@ =~= s@);
    r
}

/// Takes keys out of a set.
fn drop_all<T: crate::ids::Key>(set: &mut IdSet<T>, gone: &Vec<T>)
    ensures
        final(set)@ == old(set)@.difference(gone@.to_set()),
{
    let mut i: usize = 0;
    assert(set@ =~= old(set)@.difference(gone@.take(0).to_set()));
    while i < gone.len()
        invariant
            i <= gone.len(),
            set@ == old(set)@.difference(gone@.take(i as int).to_set()),
        decreases gone.len() - i,
    {
        set.remove(gone[i]);
        proof {
            crate::ids::lemma_take_to_set(gone@, i as int);
            assert(set@ =~= old(set)@.difference(gone@.take(i + 1).to_set()));
        }
        i += 1;
    }
    assert(gone@.take(gone@.len() as int) =~= gone@);
}

proof fn lemma_restored_are_stored(p: OpenProject, needed: Seq<LayerId>, n: int)
    requires
        0 <= n <= needed.len(),
        forall|l: LayerId| #[trigger] p.deferred_layers@.contains(l) ==> crate::workspace::hash_in(p.layer_hashes@, l) is Some,
    ensures
        hashes_known(p, layers_to_restore(p.deferred_layers@, needed, n)),
    decreases n,
{
    if n > 0 {
        lemma_restored_are_stored(p, needed, n - 1);
    }
}

impl Visibility {
    fn lock_layers(&mut self, ids: &Vec<LayerId>, locked: bool)
        ensures
            *final(self) == (Visibility {
                locked_layers: final(self).locked_layers,
                explicitly_frozen: final(self).explicitly_frozen,
                ..*old(self)
            }),
            final(self).locked_layers@ == (if locked {
                old(self).locked_layers@.union(ids@.to_set())
            } else {
                old(self).locked_layers@.difference(ids@.to_set())
            }),
            forall|h: SceneEntityId| #[trigger]
                final(self).explicitly_frozen@.contains(h) <==> old(self).explicitly_frozen@.contains(h) && (locked || !(h is Object)),
    {
        if locked {
            self.locked_layers.extend(ids);
        } else {
            drop_all(&mut self.locked_layers, ids);
            let ghost keep = |h: SceneEntityId| !(h is Object);
            let kept = filter_copied(self.explicitly_frozen.as_vec(), Ghost(keep), |h: SceneEntityId| -> (b: bool)
                ensures
                    b == !(h is Object),
                {
                    match h {
                        SceneEntityId::Object(_) => false,
                        _ => true,
                    }
                });
            let set = IdSet::from_vec(&kept);
            proof {
                crate::ids::lemma_filter_members(self.explicitly_frozen.order(), keep);
                assert forall|h: SceneEntityId| #[trigger] set@.contains(h) <==> old(self).explicitly_frozen@.contains(h) && !(h is Object) by {
                    assert(set@.contains(h) <==> kept@.contains(h));
                    assert(self.explicitly_frozen.order().to_set().contains(h) <==> self.explicitly_frozen.order().contains(h));
                }
            }
            self.explicitly_frozen = set;
        }
    }
}

} // verus!
