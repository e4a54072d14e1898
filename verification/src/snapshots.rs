//! Ids that tell projects apart, and layers carried from one state of a
//! document into another.

use crate::document::{layer_models, object_models, Document, Layer, LayerModel, Object, ObjectModel};
use crate::ids::{IdSet, LayerId, ObjectId};
use crate::workspace::{local_id, OpenProject};
use vstd::prelude::*;

verus! {

/// An id within a project, made one of a project that is open under a number.
pub open spec fn id_under(id: u64, ns: u32) -> u64 {
    (ns as int * 0x1_0000_0000 + id as int % 0x1_0000_0000) as u64
}

/// An id within a project, made one of a project that is open under a number.
pub fn with_namespace(id: u64, ns: u32) -> (r: u64)
    ensures
        r == id_under(id, ns),
        r % 0x1_0000_0000 == id % 0x1_0000_0000,
        r / 0x1_0000_0000 == ns,
{
    let local: u64 = id % 0x1_0000_0000;
    let r: u64 = (ns as u64) * 0x1_0000_0000 + local;
    assert(r % 0x1_0000_0000 == local && r / 0x1_0000_0000 == ns) by (nonlinear_arith)
        requires
            r == (ns as u64) * 0x1_0000_0000 + local,
            0 <= local < 0x1_0000_0000,
    ;
    r
}

/// Ids under different numbers never meet, and neither do different ids
/// under one number.
pub proof fn law_namespaces_are_apart(a: u64, b: u64, m: u32, n: u32)
    ensures
        id_under(a, m) == id_under(b, n) <==> m == n && a % 0x1_0000_0000 == b % 0x1_0000_0000,
        id_under(id_under(a, m), n) == id_under(a, n),
{
    let x = m as int * 0x1_0000_0000 + a as int % 0x1_0000_0000;
    let y = n as int * 0x1_0000_0000 + b as int % 0x1_0000_0000;
    assert(0 <= x <= u64::MAX && 0 <= y <= u64::MAX);
    assert((x as u64) as int % 0x1_0000_0000 == a as int % 0x1_0000_0000);
}

/// An object whose ids are under a number.
pub open spec fn object_under(o: ObjectModel, ns: u32) -> ObjectModel {
    o.moved_to(ObjectId(id_under(o.id().0, ns)), LayerId(id_under(o.layer().0, ns)))
}

/// A layer whose id is under a number.
pub open spec fn layer_under(l: LayerModel, ns: u32) -> LayerModel {
    LayerModel { id: LayerId(id_under(l.id.0, ns)), ..l }
}

/// Objects whose ids are under a number.
pub open spec fn objects_under(models: Seq<ObjectModel>, ns: u32) -> Seq<ObjectModel> {
    models.map_values(|o: ObjectModel| object_under(o, ns))
}

/// Layers whose ids are under a number.
pub open spec fn layers_under(models: Seq<LayerModel>, ns: u32) -> Seq<LayerModel> {
    models.map_values(|l: LayerModel| layer_under(l, ns))
}

/// The document with its ids under a number.
pub open spec fn document_under(pre: Document, ns: u32, post: Document) -> bool {
    &&& object_models(post.objects@) == objects_under(object_models(pre.objects@), ns)
    &&& layer_models(post.layers@) == layers_under(layer_models(pre.layers@), ns)
    &&& post.next_layer_id == id_under(pre.next_layer_id, ns)
    &&& post.next_object_id == id_under(pre.next_object_id, ns)
}

/// Layer ids under a number.
pub open spec fn ids_under(ids: Set<LayerId>, ns: u32) -> Set<LayerId> {
    ids.map(|l: LayerId| LayerId(id_under(l.0, ns)))
}

/// A project that was opened under a number.
pub open spec fn opened_under(pre: OpenProject, ns: u32, post: OpenProject) -> bool {
    &&& post == (OpenProject {
        runtime_id: ns,
        document: post.document,
        loaded_layers: post.loaded_layers,
        deferred_layers: post.deferred_layers,
        ..pre
    })
    &&& document_under(pre.document, ns, post.document)
    &&& post.loaded_layers@ == ids_under(pre.loaded_layers@, ns)
    &&& post.deferred_layers@ == ids_under(pre.deferred_layers@, ns)
}

pub fn set_under(ids: &IdSet<LayerId>, ns: u32) -> (r: IdSet<LayerId>)
    ensures
        r@ == ids_under(ids@, ns),
{
    let all = ids.as_vec();
    let mut r: IdSet<LayerId> = IdSet::new();
    let mut i: usize = 0;
    let ghost f = |l: LayerId| LayerId(id_under(l.0, ns));
    while i < all.len()
        invariant
            i <= all.len(),
            f == (|l: LayerId| LayerId(id_under(l.0, ns))),
            forall|x: LayerId| #[trigger] r@.contains(x) <==> exists|j: int| 0 <= j < i && x == f(#[trigger] all@[j]),
        decreases all.len() - i,
    {
        let ghost before = r@;
        let id = LayerId(with_namespace(all[i].0, ns));
        r.insert(id);
        i += 1;
        assert forall|x: LayerId| #[trigger] r@.contains(x) <==> exists|j: int| 0 <= j < i && x == f(#[trigger] all@[j]) by {
            if before.contains(x) {
                let j = choose|j: int| 0 <= j < i - 1 && x == f(#[trigger] all@[j]);
                assert(x == f(all@[j]));
            }
            if x == id {
                assert(x == f(all@[i - 1]));
            }
        }
    }
    proof {
        assert forall|x: LayerId| r@.contains(x) <==> ids_under(ids@, ns).contains(x) by {
            if r@.contains(x) {
                let j = choose|j: int| 0 <= j < all@.len() && x == f(#[trigger] all@[j]);
                assert(ids@.contains(all@[j]));
            }
            if ids_under(ids@, ns).contains(x) {
                let l = choose|l: LayerId| ids@.contains(l) && f(l) == x;
                assert(all@.contains(l));
                let j = choose|j: int| 0 <= j < all@.len() && all@[j] == l;
                assert(x == f(all@[j]));
            }
        }
        assert(r@ =~= ids_under(ids@, ns));
    }
    r
}

impl Document {
    /// Puts the ids of the document under a number.
    pub fn apply_runtime_namespace(&mut self, ns: u32)
        ensures
            document_under(*old(self), ns, *final(self)),
    {
        let mut objects: Vec<Object> = Vec::new();
        let mut i: usize = 0;
        while i < self.objects.len()
            invariant
                i <= self.objects.len(),
                objects@.len() == i,
                forall|j: int| 0 <= j < i ==> (#[trigger] objects@[j])@ == object_under(self.objects@[j]@, ns),
            decreases self.objects.len() - i,
        {
            let object = &self.objects[i];
            let id = ObjectId(with_namespace(object.id().0, ns));
            let layer = LayerId(with_namespace(object.layer().0, ns));
            objects.push(object.with_id_and_layer(id, layer));
            i += 1;
        }
        let mut layers: Vec<Layer> = Vec::new();
        let mut k: usize = 0;
        while k < self.layers.len()
            invariant
                k <= self.layers.len(),
                layers@.len() == k,
                forall|j: int| 0 <= j < k ==> (#[trigger] layers@[j])@ == layer_under(self.layers@[j]@, ns),
            decreases self.layers.len() - k,
        {
            let mut layer = self.layers[k].copy();
            layer.id = LayerId(with_namespace(layer.id.0, ns));
            layers.push(layer);
            k += 1;
        }
        assert(object_models(objects@) =~= objects_under(object_models(self.objects@), ns));
        assert(layer_models(layers@) =~= layers_under(layer_models(self.layers@), ns));
        self.objects = objects;
        self.layers = layers;
        self.next_layer_id = with_namespace(self.next_layer_id, ns);
        self.next_object_id = with_namespace(self.next_object_id, ns);
    }
}

impl OpenProject {
    /// Opens the project under a number.
    pub fn open_under(&mut self, ns: u32)
        ensures
            opened_under(*old(self), ns, *final(self)),
    {
        self.runtime_id = ns;
        self.document.apply_runtime_namespace(ns);
        let loaded = set_under(&self.loaded_layers, ns);
        let deferred = set_under(&self.deferred_layers, ns);
        self.loaded_layers = loaded;
        self.deferred_layers = deferred;
    }
}

/// A layer as it stood, its place among the layers, and its objects with
/// theirs. Ids are those within the project.
pub struct LayerSnapshot {
    pub index: usize,
    pub layer: Layer,
    pub objects: Vec<(usize, Object)>,
}

/// What a snapshot of a layer is.
pub ghost struct SnapshotModel {
    pub index: int,
    pub layer: LayerModel,
    pub objects: Seq<(int, ObjectModel)>,
}

impl View for LayerSnapshot {
    type V = SnapshotModel;

    open spec fn view(&self) -> SnapshotModel {
        SnapshotModel { index: self.index as int, layer: self.layer@, objects: crate::edit::placed_models(self.objects@) }
    }
}

/// What snapshots are.
pub open spec fn snapshot_models(s: Seq<LayerSnapshot>) -> Seq<SnapshotModel> {
    s.map_values(|x: LayerSnapshot| x@)
}

/// The objects on a layer among the first `n`, with their places, under no
/// project's number.
pub open spec fn placed_on(models: Seq<ObjectModel>, layer: LayerId, n: int) -> Seq<(int, ObjectModel)>
    decreases n,
{
    if n <= 0 {
        Seq::empty()
    } else {
        let before = placed_on(models, layer, n - 1);
        if local_id(models[n - 1].layer()) == local_id(layer) {
            before.push((n - 1, object_under(models[n - 1], 0)))
        } else {
            before
        }
    }
}

/// The snapshot of the k-th layer.
pub open spec fn snapshot_at(document: Document, k: int) -> SnapshotModel {
    let models = object_models(document.objects@);
    SnapshotModel {
        index: k,
        layer: layer_under(document.layers@[k]@, 0),
        objects: placed_on(models, document.layers@[k].id, models.len() as int),
    }
}

/// A layer with unsaved changes, other than one.
pub open spec fn other_dirty(project: OpenProject, layer: LayerId, target: u64) -> bool {
    project.layer_dirty(layer) && local_id(layer) != target
}

/// The snapshots of the layers with unsaved changes, other than one, among the
/// first `n`.
pub open spec fn preserved(project: OpenProject, target: u64, n: int) -> Seq<SnapshotModel>
    decreases n,
{
    if n <= 0 {
        Seq::empty()
    } else {
        let before = preserved(project, target, n - 1);
        if other_dirty(project, project.document.layers@[n - 1].id, target) {
            before.push(snapshot_at(project.document, n - 1))
        } else {
            before
        }
    }
}

impl Document {
    fn snapshot(&self, k: usize) -> (r: LayerSnapshot)
        requires
            k < self.layers@.len(),
        ensures
            r@ == snapshot_at(*self, k as int),
    {
        let id = self.layers[k].id;
        let ghost models = object_models(self.objects@);
        let mut objects: Vec<(usize, Object)> = Vec::new();
        let mut i: usize = 0;
        assert(crate::edit::placed_models(objects@) =~= placed_on(models, id, 0));
        while i < self.objects.len()
            invariant
                i <= self.objects.len(),
                models == object_models(self.objects@),
                crate::edit::placed_models(objects@) == placed_on(models, id, i as int),
            decreases self.objects.len() - i,
        {
            let object = &self.objects[i];
            let ghost before = objects@;
            if object.layer().0 % 0x1_0000_0000 == id.0 % 0x1_0000_0000 {
                let copy = object.with_id_and_layer(ObjectId(with_namespace(object.id().0, 0)), LayerId(with_namespace(object.layer().0, 0)));
                objects.push((i, copy));
                assert(crate::edit::placed_models(objects@) =~= crate::edit::placed_models(before).push((i as int, copy@)));
            }
            i += 1;
        }
        let mut layer = self.layers[k].copy();
        layer.id = LayerId(with_namespace(layer.id.0, 0));
        LayerSnapshot { index: k, layer, objects }
    }
}

impl OpenProject {
    /// The layers with unsaved changes, other than one, as they stand.
    pub fn preserved_layers(&self, target: u64) -> (r: Vec<LayerSnapshot>)
        ensures
            snapshot_models(r@) == preserved(*self, target, self.document.layers@.len() as int),
    {
        let mut kept: Vec<LayerSnapshot> = Vec::new();
        let mut k: usize = 0;
        assert(snapshot_models(kept@) =~= preserved(*self, target, 0));
        while k < self.document.layers.len()
            invariant
                k <= self.document.layers.len(),
                snapshot_models(kept@) == preserved(*self, target, k as int),
            decreases self.document.layers.len() - k,
        {
            let id = self.document.layers[k].id;
            let ghost before = kept@;
            if self.is_layer_dirty(id) && id.0 % 0x1_0000_0000 != target {
                let shot = self.document.snapshot(k);
                kept.push(shot);
                assert(snapshot_models(kept@) =~= snapshot_models(before).push(shot@));
            }
            k += 1;
        }
        kept
    }
}

/// The place, as far as there is one.
pub open spec fn capped(i: int, len: int) -> int {
    if i < len {
        i
    } else {
        len
    }
}

/// The layers without one.
pub open spec fn layers_without(layers: Seq<LayerModel>, id: LayerId) -> Seq<LayerModel> {
    layers.filter(|l: LayerModel| l.id != id)
}

/// The objects that are not on a layer.
pub open spec fn objects_off(objects: Seq<ObjectModel>, id: LayerId) -> Seq<ObjectModel> {
    objects.filter(|o: ObjectModel| o.layer() != id)
}

/// The objects on a layer.
pub open spec fn objects_on(objects: Seq<ObjectModel>, id: LayerId) -> Seq<ObjectModel> {
    objects.filter(|o: ObjectModel| o.layer() == id)
}

/// Objects put at their places among others, one after the other.
pub open spec fn placed_in(objects: Seq<ObjectModel>, placed: Seq<(int, ObjectModel)>) -> Seq<ObjectModel>
    decreases placed.len(),
{
    if placed.len() == 0 {
        objects
    } else {
        let before = placed_in(objects, placed.drop_last());
        before.insert(capped(placed.last().0, before.len() as int), placed.last().1)
    }
}

/// The layers once a snapshot took the place of its layer.
pub open spec fn layers_restored(layers: Seq<LayerModel>, shot: SnapshotModel) -> Seq<LayerModel> {
    let rest = layers_without(layers, shot.layer.id);
    rest.insert(capped(shot.index, rest.len() as int), shot.layer)
}

/// The objects once a snapshot took the place of its layer.
pub open spec fn objects_restored(objects: Seq<ObjectModel>, shot: SnapshotModel) -> Seq<ObjectModel> {
    placed_in(objects_off(objects, shot.layer.id), shot.objects)
}

/// The objects once snapshots took the places of their layers.
pub open spec fn all_objects_restored(objects: Seq<ObjectModel>, shots: Seq<SnapshotModel>) -> Seq<ObjectModel>
    decreases shots.len(),
{
    if shots.len() == 0 {
        objects
    } else {
        objects_restored(all_objects_restored(objects, shots.drop_last()), shots.last())
    }
}

/// The layers once snapshots took the places of their layers.
pub open spec fn all_layers_restored(layers: Seq<LayerModel>, shots: Seq<SnapshotModel>) -> Seq<LayerModel>
    decreases shots.len(),
{
    if shots.len() == 0 {
        layers
    } else {
        layers_restored(all_layers_restored(layers, shots.drop_last()), shots.last())
    }
}

fn keep_layers(layers: &Vec<Layer>, id: LayerId) -> (r: Vec<Layer>)
    ensures
        layer_models(r@) == layers_without(layer_models(layers@), id),
{
    let ghost models = layer_models(layers@);
    let ghost keep = |l: LayerModel| l.id != id;
    let mut kept: Vec<Layer> = Vec::new();
    let mut i: usize = 0;
    proof {
        reveal(Seq::filter);
        assert(models.take(0).filter(keep) =~= Seq::<LayerModel>::empty());
        assert(layer_models(kept@) =~= models.take(0).filter(keep));
    }
    while i < layers.len()
        invariant
            i <= layers.len(),
            models == layer_models(layers@),
            keep == (|l: LayerModel| l.id != id),
            layer_models(kept@) == models.take(i as int).filter(keep),
        decreases layers.len() - i,
    {
        let ghost before = kept@;
        proof {
            reveal(Seq::filter);
            assert(models.take(i + 1).drop_last() =~= models.take(i as int));
        }
        if layers[i].id != id {
            kept.push(layers[i].copy());
            assert(layer_models(kept@) =~= layer_models(before).push(models[i as int]));
        }
        i += 1;
    }
    assert(models.take(models.len() as int) =~= models);
    kept
}

fn keep_objects(objects: &Vec<Object>, id: LayerId) -> (r: Vec<Object>)
    ensures
        object_models(r@) == objects_off(object_models(objects@), id),
{
    let ghost models = object_models(objects@);
    let ghost keep = |o: ObjectModel| o.layer() != id;
    let mut kept: Vec<Object> = Vec::new();
    let mut i: usize = 0;
    proof {
        reveal(Seq::filter);
        assert(models.take(0).filter(keep) =~= Seq::<ObjectModel>::empty());
        assert(object_models(kept@) =~= models.take(0).filter(keep));
    }
    while i < objects.len()
        invariant
            i <= objects.len(),
            models == object_models(objects@),
            keep == (|o: ObjectModel| o.layer() != id),
            object_models(kept@) == models.take(i as int).filter(keep),
        decreases objects.len() - i,
    {
        let ghost before = kept@;
        proof {
            reveal(Seq::filter);
            assert(models.take(i + 1).drop_last() =~= models.take(i as int));
        }
        if objects[i].layer() != id {
            kept.push(objects[i].copy());
            assert(object_models(kept@) =~= object_models(before).push(models[i as int]));
        }
        i += 1;
    }
    assert(models.take(models.len() as int) =~= models);
    kept
}

impl Document {
    /// Lets a snapshot take the place of its layer and of everything on it.
    pub fn replace_layer_snapshot(&mut self, shot: LayerSnapshot)
        ensures
            layer_models(final(self).layers@) == layers_restored(layer_models(old(self).layers@), shot@),
            object_models(final(self).objects@) == objects_restored(object_models(old(self).objects@), shot@),
            *final(self) == (Document { layers: final(self).layers, objects: final(self).objects, ..*old(self) }),
    {
        let id = shot.layer.id;
        let mut layers = keep_layers(&self.layers, id);
        let ghost rest = layers@;
        let at: usize = if shot.index < layers.len() {
            shot.index
        } else {
            layers.len()
        };
        let ghost layer = shot.layer@;
        layers.insert(at, shot.layer);
        assert(layer_models(layers@) =~= layer_models(rest).insert(at as int, layer));
        let mut objects = keep_objects(&self.objects, id);
        let ghost off = object_models(objects@);
        let ghost placed = crate::edit::placed_models(shot.objects@);
        let mut i: usize = 0;
        assert(placed.take(0) =~= Seq::<(int, ObjectModel)>::empty());
        while i < shot.objects.len()
            invariant
                i <= shot.objects.len(),
                placed == crate::edit::placed_models(shot.objects@),
                object_models(objects@) == placed_in(off, placed.take(i as int)),
            decreases shot.objects.len() - i,
        {
            let (place, object) = (&shot.objects[i].0, &shot.objects[i].1);
            let ghost before = objects@;
            let at: usize = if *place < objects.len() {
                *place
            } else {
                objects.len()
            };
            objects.insert(at, object.copy());
            proof {
                assert(placed.take(i + 1).drop_last() =~= placed.take(i as int));
                assert(object_models(objects@) =~= object_models(before).insert(at as int, object@));
            }
            i += 1;
        }
        assert(placed.take(placed.len() as int) =~= placed);
        self.layers = layers;
        self.objects = objects;
    }

    /// Lets snapshots take the places of their layers.
    pub fn replace_layer_snapshots(&mut self, shots: Vec<LayerSnapshot>)
        ensures
            layer_models(final(self).layers@) == all_layers_restored(layer_models(old(self).layers@), snapshot_models(shots@)),
            object_models(final(self).objects@) == all_objects_restored(object_models(old(self).objects@), snapshot_models(shots@)),
            *final(self) == (Document { layers: final(self).layers, objects: final(self).objects, ..*old(self) }),
    {
        let ghost all = shots@;
        let ghost models = snapshot_models(all);
        let mut left = shots;
        let mut done: Ghost<int> = Ghost(0);
        assert(all.skip(0) =~= all);
        assert(models.take(0) =~= Seq::<SnapshotModel>::empty());
        while left.len() > 0
            invariant
                0 <= done@ <= all.len(),
                models == snapshot_models(all),
                left@ == all.skip(done@),
                layer_models(self.layers@) == all_layers_restored(layer_models(old(self).layers@), models.take(done@)),
                object_models(self.objects@) == all_objects_restored(object_models(old(self).objects@), models.take(done@)),
                *self == (Document { layers: self.layers, objects: self.objects, ..*old(self) }),
            decreases left.len(),
        {
            let shot = left.remove(0);
            proof {
                assert(shot == all[done@]);
                assert(left@ =~= all.skip(done@ + 1));
                assert(models.take(done@ + 1).drop_last() =~= models.take(done@));
                done@ = done@ + 1;
            }
            self.replace_layer_snapshot(shot);
        }
        assert(models.take(models.len() as int) =~= models);
    }
}

/// The objects of a snapshot.
pub open spec fn shot_objects(shot: SnapshotModel) -> Seq<ObjectModel> {
    shot.objects.map_values(|p: (int, ObjectModel)| p.1)
}

/// The objects of a snapshot are on its layer, and their places ascend.
pub open spec fn shot_fits(shot: SnapshotModel) -> bool {
    &&& forall|i: int| 0 <= i < shot.objects.len() ==> (#[trigger] shot.objects[i]).0 >= 0 && shot.objects[i].1.layer() == shot.layer.id
    &&& forall|i: int, j: int| 0 <= i < j < shot.objects.len() ==> (#[trigger] shot.objects[i]).0 < (#[trigger] shot.objects[j]).0
}

/// Whatever stands behind a place that nothing on the layer lies behind leaves
/// the objects on the layer in order.
proof fn lemma_insert_on(s: Seq<ObjectModel>, id: LayerId, at: int, x: ObjectModel)
    requires
        0 <= at <= s.len(),
        x.layer() == id,
        forall|j: int| at <= j < s.len() ==> (#[trigger] s[j]).layer() != id,
    ensures
        objects_on(s.insert(at, x), id) == objects_on(s, id).push(x),
{
    let f = |o: ObjectModel| o.layer() == id;
    let a = s.take(at);
    let b = s.skip(at);
    assert(s =~= a + b);
    assert(s.insert(at, x) =~= a.push(x) + b);
    Seq::filter_distributes_over_add(a, b, f);
    Seq::filter_distributes_over_add(a.push(x), b, f);
    lemma_none_on(b, f);
    reveal(Seq::filter);
    assert(a.push(x).drop_last() =~= a);
    assert(s.filter(f) =~= a.filter(f));
    assert(s.insert(at, x).filter(f) =~= a.filter(f).push(x));
}

/// An object on another layer leaves the objects on a layer alone.
proof fn lemma_insert_off(s: Seq<ObjectModel>, id: LayerId, at: int, x: ObjectModel)
    requires
        0 <= at <= s.len(),
        x.layer() != id,
    ensures
        objects_on(s.insert(at, x), id) == objects_on(s, id),
{
    let f = |o: ObjectModel| o.layer() == id;
    let a = s.take(at);
    let b = s.skip(at);
    assert(s =~= a + b);
    assert(s.insert(at, x) =~= a.push(x) + b);
    Seq::filter_distributes_over_add(a, b, f);
    Seq::filter_distributes_over_add(a.push(x), b, f);
    reveal(Seq::filter);
    assert(a.push(x).drop_last() =~= a);
}

proof fn lemma_none_on<T>(s: Seq<T>, f: spec_fn(T) -> bool)
    requires
        forall|j: int| 0 <= j < s.len() ==> !f(#[trigger] s[j]),
    ensures
        s.filter(f) == Seq::<T>::empty(),
    decreases s.len(),
{
    reveal(Seq::filter);
    if s.len() > 0 {
        lemma_none_on(s.drop_last(), f);
    }
}

/// Taking a layer's objects out leaves those of the others.
proof fn lemma_off(s: Seq<ObjectModel>, id: LayerId, other: LayerId)
    ensures
        other != id ==> objects_on(objects_off(s, id), other) == objects_on(s, other),
        forall|j: int| 0 <= j < objects_off(s, id).len() ==> (#[trigger] objects_off(s, id)[j]).layer() != id,
    decreases s.len(),
{
    let f = |o: ObjectModel| o.layer() != id;
    let g = |o: ObjectModel| o.layer() == other;
    reveal(Seq::filter);
    if s.len() > 0 {
        lemma_off(s.drop_last(), id, other);
        let before = s.drop_last().filter(f);
        if f(s.last()) {
            assert(s.filter(f).drop_last() =~= before);
            assert forall|j: int| 0 <= j < objects_off(s, id).len() implies (#[trigger] objects_off(s, id)[j]).layer() != id by {
                if j < before.len() {
                    assert(objects_off(s.drop_last(), id)[j].layer() != id);
                }
            }
        }
    }
}

proof fn lemma_placed(base: Seq<ObjectModel>, placed: Seq<(int, ObjectModel)>, id: LayerId)
    requires
        forall|j: int| 0 <= j < base.len() ==> (#[trigger] base[j]).layer() != id,
        forall|i: int| 0 <= i < placed.len() ==> (#[trigger] placed[i]).0 >= 0 && placed[i].1.layer() == id,
        forall|i: int, j: int| 0 <= i < j < placed.len() ==> (#[trigger] placed[i]).0 < (#[trigger] placed[j]).0,
    ensures
        objects_on(placed_in(base, placed), id) == placed.map_values(|p: (int, ObjectModel)| p.1),
        forall|j: int|
            0 <= j < placed_in(base, placed).len() && (placed.len() == 0 || placed.last().0 < j) ==> (#[trigger] placed_in(base, placed)[j]).layer() != id,
    decreases placed.len(),
{
    let f = |o: ObjectModel| o.layer() == id;
    if placed.len() == 0 {
        lemma_none_on(base, f);
        assert(placed.map_values(|p: (int, ObjectModel)| p.1) =~= Seq::<ObjectModel>::empty());
    } else {
        let rest = placed.drop_last();
        let before = placed_in(base, rest);
        assert forall|i: int| 0 <= i < rest.len() implies (#[trigger] rest[i]).0 >= 0 && rest[i].1.layer() == id by {
            assert(rest[i] == placed[i]);
        }
        assert forall|i: int, j: int| 0 <= i < j < rest.len() implies (#[trigger] rest[i]).0 < (#[trigger] rest[j]).0 by {
            assert(rest[i] == placed[i] && rest[j] == placed[j]);
        }
        lemma_placed(base, rest, id);
        let last = placed.last();
        let at = capped(last.0, before.len() as int);
        assert(last == placed[placed.len() - 1]);
        if rest.len() > 0 {
            assert(rest.last() == placed[placed.len() - 2]);
            assert(rest.last().0 < last.0);
        }
        lemma_insert_on(before, id, at, last.1);
        assert(placed.map_values(|p: (int, ObjectModel)| p.1) =~= rest.map_values(|p: (int, ObjectModel)| p.1).push(last.1));
        let all = placed_in(base, placed);
        assert(all == before.insert(at, last.1));
        assert forall|j: int| 0 <= j < all.len() && last.0 < j implies (#[trigger] all[j]).layer() != id by {
            assert(all[j] == before[j - 1]);
        }
    }
}

proof fn lemma_placed_off(base: Seq<ObjectModel>, placed: Seq<(int, ObjectModel)>, id: LayerId, other: LayerId)
    requires
        id != other,
        forall|i: int| 0 <= i < placed.len() ==> (#[trigger] placed[i]).0 >= 0 && placed[i].1.layer() == id,
    ensures
        objects_on(placed_in(base, placed), other) == objects_on(base, other),
    decreases placed.len(),
{
    if placed.len() > 0 {
        let rest = placed.drop_last();
        assert forall|i: int| 0 <= i < rest.len() implies (#[trigger] rest[i]).0 >= 0 && rest[i].1.layer() == id by {
            assert(rest[i] == placed[i]);
        }
        lemma_placed_off(base, rest, id, other);
        let before = placed_in(base, rest);
        assert(placed.last() == placed[placed.len() - 1]);
        lemma_insert_off(before, other, capped(placed.last().0, before.len() as int), placed.last().1);
    }
}

/// A snapshot that took the place of its layer brings exactly its own objects
/// back onto the layer, in order, and leaves every other layer alone.
pub proof fn law_snapshot_restores_its_layer(objects: Seq<ObjectModel>, shot: SnapshotModel, other: LayerId)
    requires
        shot_fits(shot),
    ensures
        objects_on(objects_restored(objects, shot), shot.layer.id) == shot_objects(shot),
        other != shot.layer.id ==> objects_on(objects_restored(objects, shot), other) == objects_on(objects, other),
{
    let id = shot.layer.id;
    lemma_off(objects, id, other);
    lemma_placed(objects_off(objects, id), shot.objects, id);
    if other != id {
        lemma_placed_off(objects_off(objects, id), shot.objects, id, other);
    }
}

/// Snapshots of different layers are all carried over: each layer holds the
/// objects of its snapshot, and a layer without one what it held before.
pub proof fn law_snapshots_are_carried_over(objects: Seq<ObjectModel>, shots: Seq<SnapshotModel>, layer: LayerId)
    requires
        forall|i: int| 0 <= i < shots.len() ==> shot_fits(#[trigger] shots[i]),
        forall|i: int, j: int| 0 <= i < j < shots.len() ==> (#[trigger] shots[i]).layer.id != (#[trigger] shots[j]).layer.id,
    ensures
        forall|i: int| 0 <= i < shots.len() && (#[trigger] shots[i]).layer.id == layer ==> objects_on(all_objects_restored(objects, shots), layer) == shot_objects(shots[i]),
        (forall|i: int| 0 <= i < shots.len() ==> (#[trigger] shots[i]).layer.id != layer) ==> objects_on(all_objects_restored(objects, shots), layer)
            == objects_on(objects, layer),
    decreases shots.len(),
{
    if shots.len() > 0 {
        let rest = shots.drop_last();
        assert forall|i: int| 0 <= i < rest.len() implies shot_fits(#[trigger] rest[i]) by {
            assert(rest[i] == shots[i]);
        }
        assert forall|i: int, j: int| 0 <= i < j < rest.len() implies (#[trigger] rest[i]).layer.id != (#[trigger] rest[j]).layer.id by {
            assert(rest[i] == shots[i] && rest[j] == shots[j]);
        }
        law_snapshots_are_carried_over(objects, rest, layer);
        let last = shots.last();
        assert(last == shots[shots.len() - 1]);
        law_snapshot_restores_its_layer(all_objects_restored(objects, rest), last, layer);
        assert forall|i: int| 0 <= i < shots.len() && (#[trigger] shots[i]).layer.id == layer implies objects_on(all_objects_restored(objects, shots), layer)
            == shot_objects(shots[i]) by {
            if i < shots.len() - 1 {
                assert(rest[i] == shots[i]);
                assert(last.layer.id != layer);
            }
        }
        if forall|i: int| 0 <= i < shots.len() ==> (#[trigger] shots[i]).layer.id != layer {
            assert forall|i: int| 0 <= i < rest.len() implies (#[trigger] rest[i]).layer.id != layer by {
                assert(rest[i] == shots[i]);
            }
            assert(last.layer.id != layer);
        }
    }
}

proof fn lemma_placed_on_fits(models: Seq<ObjectModel>, layer: LayerId, n: int)
    requires
        0 <= n <= models.len(),
    ensures
        forall|i: int| 0 <= i < placed_on(models, layer, n).len() ==> 0 <= (#[trigger] placed_on(models, layer, n)[i]).0 < n && placed_on(models, layer, n)[i].1.layer()
            == LayerId(id_under(layer.0, 0)),
        forall|i: int, j: int|
            0 <= i < j < placed_on(models, layer, n).len() ==> (#[trigger] placed_on(models, layer, n)[i]).0 < (#[trigger] placed_on(models, layer, n)[j]).0,
    decreases n,
{
    if n > 0 {
        lemma_placed_on_fits(models, layer, n - 1);
        let before = placed_on(models, layer, n - 1);
        let all = placed_on(models, layer, n);
        if local_id(models[n - 1].layer()) == local_id(layer) {
            assert(all == before.push((n - 1, object_under(models[n - 1], 0))));
            assert forall|i: int| 0 <= i < all.len() implies 0 <= (#[trigger] all[i]).0 < n && all[i].1.layer() == LayerId(id_under(layer.0, 0)) by {
                if i < before.len() {
                    assert(all[i] == before[i]);
                }
            }
            assert forall|i: int, j: int| 0 <= i < j < all.len() implies (#[trigger] all[i]).0 < (#[trigger] all[j]).0 by {
                assert(all[i] == before[i]);
                if j < before.len() {
                    assert(all[j] == before[j]);
                }
            }
        }
    }
}

/// Every snapshot that is taken holds the objects of its layer, in order.
pub proof fn law_snapshots_fit(project: OpenProject, target: u64, n: int)
    requires
        0 <= n <= project.document.layers@.len(),
    ensures
        forall|i: int| 0 <= i < preserved(project, target, n).len() ==> shot_fits(#[trigger] preserved(project, target, n)[i]),
    decreases n,
{
    if n > 0 {
        law_snapshots_fit(project, target, n - 1);
        let before = preserved(project, target, n - 1);
        let all = preserved(project, target, n);
        if other_dirty(project, project.document.layers@[n - 1].id, target) {
            let shot = snapshot_at(project.document, n - 1);
            let models = object_models(project.document.objects@);
            lemma_placed_on_fits(models, project.document.layers@[n - 1].id, models.len() as int);
            assert(shot_fits(shot)) by {
                assert forall|i: int| 0 <= i < shot.objects.len() implies (#[trigger] shot.objects[i]).0 >= 0 && shot.objects[i].1.layer() == shot.layer.id by {
                }
            }
            assert(all == before.push(shot));
            assert forall|i: int| 0 <= i < all.len() implies shot_fits(#[trigger] all[i]) by {
                if i < before.len() {
                    assert(all[i] == before[i]);
                }
            }
        }
    }
}

} // verus!
