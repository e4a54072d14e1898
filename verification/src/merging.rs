//! Documents that are merged into others.

use crate::document::{layer_index, layer_models, object_models, Document, Layer, LayerModel, ObjectModel};
use crate::ids::{LayerId, ObjectId};
use crate::names::{make_unique, texts, unique_name};
use crate::search::{find_first, first_index, lemma_first_index};
use vstd::prelude::*;

verus! {

/// The names of layers.
pub open spec fn layer_names(layers: Seq<LayerModel>) -> Seq<Seq<char>> {
    layers.map_values(|l: LayerModel| l.name)
}

/// The layers once the first `n` of others were added: each under the next id
/// and a name that is free.
pub open spec fn layers_merged(layers: Seq<LayerModel>, others: Seq<LayerModel>, next: u64, n: int) -> Seq<LayerModel>
    decreases n,
{
    if n <= 0 {
        layers
    } else {
        let before = layers_merged(layers, others, next, n - 1);
        before.push(
            LayerModel {
                id: LayerId((next + n - 1) as u64),
                name: unique_name(layer_names(before), others[n - 1].name),
                ..others[n - 1]
            },
        )
    }
}

/// The index of the first of these layers with the id.
pub open spec fn layer_place(layers: Seq<LayerModel>, id: LayerId) -> int {
    first_index(layers, |l: LayerModel| l.id == id)
}

/// The objects once the first `n` of others were added: each under the next
/// id, on the layer that its own was added as. One on no layer stays out.
pub open spec fn objects_merged(
    objects: Seq<ObjectModel>,
    others: Seq<ObjectModel>,
    layers: Seq<LayerModel>,
    next_layer: u64,
    next_object: u64,
    n: int,
) -> Seq<ObjectModel>
    decreases n,
{
    if n <= 0 {
        objects
    } else {
        let before = objects_merged(objects, others, layers, next_layer, next_object, n - 1);
        let k = layer_place(layers, others[n - 1].layer());
        if k < layers.len() {
            before.push(others[n - 1].moved_to(ObjectId((next_object + (before.len() - objects.len())) as u64), LayerId((next_layer + k) as u64)))
        } else {
            before
        }
    }
}

/// What merging a document into another does.
pub open spec fn document_merged(pre: Document, other: Document, post: Document) -> bool {
    let layers = layer_models(other.layers@);
    let objects = object_models(other.objects@);
    &&& layer_models(post.layers@) == layers_merged(layer_models(pre.layers@), layers, pre.next_layer_id, layers.len() as int)
    &&& object_models(post.objects@) == objects_merged(
        object_models(pre.objects@),
        objects,
        layers,
        pre.next_layer_id,
        pre.next_object_id,
        objects.len() as int,
    )
    &&& post.next_layer_id == pre.next_layer_id + layers.len()
    &&& post.next_object_id == pre.next_object_id + (post.objects@.len() - pre.objects@.len())
}

proof fn lemma_layer_place(layers: Seq<Layer>, id: LayerId)
    ensures
        layer_index(layers, id) == layer_place(layer_models(layers), id),
{
    let models = layer_models(layers);
    lemma_first_index(layers, |l: Layer| l.id == id);
    lemma_first_index(models, |m: LayerModel| m.id == id);
    let i = layer_index(layers, id);
    let k = layer_place(models, id);
    if i < k {
        assert(models[i] == layers[i]@);
    }
    if k < i {
        assert(models[k] == layers[k]@);
    }
}

/// Merging a document into another adds to it and changes nothing in it.
pub proof fn law_merging_keeps_what_was_there(pre: Document, other: Document, post: Document)
    requires
        document_merged(pre, other, post),
    ensures
        pre.layers@.len() + other.layers@.len() == post.layers@.len(),
        layer_models(post.layers@).take(pre.layers@.len() as int) == layer_models(pre.layers@),
        pre.objects@.len() <= post.objects@.len(),
        object_models(post.objects@).take(pre.objects@.len() as int) == object_models(pre.objects@),
{
    let layers = layer_models(other.layers@);
    let objects = object_models(other.objects@);
    lemma_layers_kept(layer_models(pre.layers@), layers, pre.next_layer_id, layers.len() as int);
    lemma_objects_kept(object_models(pre.objects@), objects, layers, pre.next_layer_id, pre.next_object_id, objects.len() as int);
    assert(layer_models(post.layers@).len() == post.layers@.len());
    assert(object_models(post.objects@).len() == post.objects@.len());
}

proof fn lemma_layers_kept(layers: Seq<LayerModel>, others: Seq<LayerModel>, next: u64, n: int)
    requires
        0 <= n,
    ensures
        layers_merged(layers, others, next, n).len() == layers.len() + n,
        layers_merged(layers, others, next, n).take(layers.len() as int) == layers,
    decreases n,
{
    if n > 0 {
        lemma_layers_kept(layers, others, next, n - 1);
        assert(layers_merged(layers, others, next, n).take(layers.len() as int) =~= layers_merged(layers, others, next, n - 1).take(layers.len() as int));
    } else {
        assert(layers.take(layers.len() as int) =~= layers);
    }
}

pub proof fn lemma_objects_kept(
    objects: Seq<ObjectModel>,
    others: Seq<ObjectModel>,
    layers: Seq<LayerModel>,
    next_layer: u64,
    next_object: u64,
    n: int,
)
    requires
        0 <= n,
    ensures
        objects.len() <= objects_merged(objects, others, layers, next_layer, next_object, n).len() <= objects.len() + n,
        objects_merged(objects, others, layers, next_layer, next_object, n).take(objects.len() as int) == objects,
    decreases n,
{
    if n > 0 {
        lemma_objects_kept(objects, others, layers, next_layer, next_object, n - 1);
        assert(objects_merged(objects, others, layers, next_layer, next_object, n).take(objects.len() as int) =~= objects_merged(
            objects,
            others,
            layers,
            next_layer,
            next_object,
            n - 1,
        ).take(objects.len() as int));
    } else {
        assert(objects.take(objects.len() as int) =~= objects);
    }
}

impl Document {
    pub fn names_of_layers(&self) -> (r: Vec<String>)
        ensures
            texts(r@) == layer_names(layer_models(self.layers@)),
    {
        let mut names: Vec<String> = Vec::new();
        let mut i: usize = 0;
        while i < self.layers.len()
            invariant
                i <= self.layers.len(),
                names@.len() == i,
                forall|j: int| 0 <= j < i ==> (#[trigger] names@[j])@ == self.layers@[j].name@,
            decreases self.layers.len() - i,
        {
            names.push(self.layers[i].name.clone());
            i += 1;
        }
        assert(texts(names@) =~= layer_names(layer_models(self.layers@)));
        names
    }

    fn add_layers(&mut self, others: &Vec<Layer>)
        requires
            old(self).next_layer_id + others@.len() <= u64::MAX,
        ensures
            *final(self) == (Document { layers: final(self).layers, next_layer_id: (old(self).next_layer_id + others@.len()) as u64, ..*old(self) }),
            layer_models(final(self).layers@) == layers_merged(
                layer_models(old(self).layers@),
                layer_models(others@),
                old(self).next_layer_id,
                others@.len() as int,
            ),
    {
        let ghost models = layer_models(others@);
        let mut k: usize = 0;
        while k < others.len()
            invariant
                k <= others.len(),
                models == layer_models(others@),
                old(self).next_layer_id + others@.len() <= u64::MAX,
                *self == (Document { layers: self.layers, next_layer_id: (old(self).next_layer_id + k) as u64, ..*old(self) }),
                layer_models(self.layers@) == layers_merged(layer_models(old(self).layers@), models, old(self).next_layer_id, k as int),
            decreases others.len() - k,
        {
            let ghost before = self.layers@;
            let taken = self.names_of_layers();
            let name = make_unique(&taken, others[k].name.as_str());
            let mut layer = others[k].copy();
            layer.id = self.allocate_layer_id();
            layer.name = name;
            self.layers.push(layer);
            assert(layer_models(self.layers@) =~= layer_models(before).push(layer@));
            k += 1;
        }
    }

    /// Merges another document into this one: its layers come under new ids
    /// and names that are free, its objects under new ids on those layers.
    pub fn merge_document_unique_layers(&mut self, other: &Document)
        requires
            old(self).next_layer_id + other.layers@.len() <= u64::MAX,
            old(self).next_object_id + other.objects@.len() <= u64::MAX,
        ensures
            document_merged(*old(self), *other, *final(self)),
    {
        let first: u64 = self.next_layer_id;
        self.add_layers(&other.layers);
        let ghost layers = layer_models(other.layers@);
        let ghost objects = object_models(other.objects@);
        let ghost base = object_models(old(self).objects@);
        let ghost grown = *self;
        let mut j: usize = 0;
        while j < other.objects.len()
            invariant
                j <= other.objects.len(),
                layers == layer_models(other.layers@),
                objects == object_models(other.objects@),
                base == object_models(old(self).objects@),
                first == old(self).next_layer_id,
                old(self).next_layer_id + other.layers@.len() <= u64::MAX,
                old(self).next_object_id + other.objects@.len() <= u64::MAX,
                grown.next_object_id == old(self).next_object_id,
                *self == (Document { objects: self.objects, next_object_id: self.next_object_id, ..grown }),
                object_models(self.objects@) == objects_merged(base, objects, layers, first, old(self).next_object_id, j as int),
                old(self).objects@.len() <= self.objects@.len() <= old(self).objects@.len() + j,
                self.next_object_id == old(self).next_object_id + (self.objects@.len() - old(self).objects@.len()),
            decreases other.objects.len() - j,
        {
            let object = &other.objects[j];
            let ghost before = self.objects@;
            proof {
                lemma_layer_place(other.layers@, object@.layer());
                lemma_first_index(other.layers@, |l: Layer| l.id == object@.layer());
                assert(objects[j as int] == object@);
                assert(object_models(before).len() == before.len());
            }
            match other.find_layer(object.layer()) {
                Some(k) => {
                    let layer = LayerId(first + k as u64);
                    let id = self.allocate_object_id();
                    let copy = object.with_id_and_layer(id, layer);
                    self.objects.push(copy);
                    assert(object_models(self.objects@) =~= object_models(before).push(copy@));
                },
                None => {},
            }
            j += 1;
        }
        assert(object_models(self.objects@).len() == self.objects@.len());
    }
}

/// The place of the first of these layers with the name.
pub open spec fn layer_named(layers: Seq<LayerModel>, name: Seq<char>) -> int {
    first_index(layers, |l: LayerModel| l.name == name)
}

/// The layers once the first `n` of others were joined with them: one of a
/// name that is there is the same layer, any other comes under the next id.
pub open spec fn layers_joined(layers: Seq<LayerModel>, others: Seq<LayerModel>, next: u64, n: int) -> Seq<LayerModel>
    decreases n,
{
    if n <= 0 {
        layers
    } else {
        let before = layers_joined(layers, others, next, n - 1);
        if layer_named(before, others[n - 1].name) < before.len() {
            before
        } else {
            before.push(LayerModel { id: LayerId((next + (before.len() - layers.len())) as u64), ..others[n - 1] })
        }
    }
}

/// The layer that a layer of another document was joined with.
pub open spec fn home_of(joined: Seq<LayerModel>, other: LayerModel) -> LayerId {
    joined[layer_named(joined, other.name)].id
}

/// The objects once the first `n` of others were added: each under the next
/// id, on the layer that its own was joined with.
pub open spec fn objects_joined(
    objects: Seq<ObjectModel>,
    others: Seq<ObjectModel>,
    layers: Seq<LayerModel>,
    joined: Seq<LayerModel>,
    next_object: u64,
    n: int,
) -> Seq<ObjectModel>
    decreases n,
{
    if n <= 0 {
        objects
    } else {
        let before = objects_joined(objects, others, layers, joined, next_object, n - 1);
        let k = layer_place(layers, others[n - 1].layer());
        if k < layers.len() {
            before.push(others[n - 1].moved_to(ObjectId((next_object + (before.len() - objects.len())) as u64), home_of(joined, layers[k])))
        } else {
            before
        }
    }
}

/// What joining a document with another does.
pub open spec fn document_joined(pre: Document, other: Document, post: Document) -> bool {
    let layers = layer_models(other.layers@);
    let objects = object_models(other.objects@);
    let joined = layers_joined(layer_models(pre.layers@), layers, pre.next_layer_id, layers.len() as int);
    &&& layer_models(post.layers@) == joined
    &&& object_models(post.objects@) == objects_joined(object_models(pre.objects@), objects, layers, joined, pre.next_object_id, objects.len() as int)
    &&& post.next_layer_id == pre.next_layer_id + (post.layers@.len() - pre.layers@.len())
    &&& post.next_object_id == pre.next_object_id + (post.objects@.len() - pre.objects@.len())
}

/// Having a name.
pub open spec fn layer_called(name: Seq<char>) -> spec_fn(Layer) -> bool {
    |l: Layer| l.name@ == name
}

proof fn lemma_named(layers: Seq<Layer>, name: Seq<char>)
    ensures
        first_index(layers, layer_called(name)) == layer_named(layer_models(layers), name),
        0 <= layer_named(layer_models(layers), name) <= layers.len(),
{
    let models = layer_models(layers);
    let f = layer_called(name);
    let g = |m: LayerModel| m.name == name;
    lemma_first_index(layers, f);
    lemma_first_index(models, g);
    let i = first_index(layers, f);
    let k = layer_named(models, name);
    if i < k {
        assert(models[i] == layers[i]@);
        assert(g(models[i]));
    }
    if k < i {
        assert(models[k] == layers[k]@);
        assert(f(layers[k]));
    }
}

/// Once all layers were joined, each of them has a home.
proof fn lemma_homes(layers: Seq<LayerModel>, others: Seq<LayerModel>, next: u64, n: int, k: int)
    requires
        0 <= k < n,
    ensures
        layer_named(layers_joined(layers, others, next, n), others[k].name) < layers_joined(layers, others, next, n).len(),
    decreases n,
{
    let before = layers_joined(layers, others, next, n - 1);
    let all = layers_joined(layers, others, next, n);
    let name = others[k].name;
    let g = |m: LayerModel| m.name == name;
    lemma_first_index(all, g);
    if k < n - 1 {
        lemma_homes(layers, others, next, n - 1, k);
        lemma_first_index(before, g);
        let i = layer_named(before, name);
        assert(all[i] == before[i]);
        assert(g(all[i]));
    } else if layer_named(before, name) < before.len() {
    } else {
        assert(all[before.len() as int].name == name);
        assert(g(all[before.len() as int]));
    }
}

proof fn lemma_joined_len(layers: Seq<LayerModel>, others: Seq<LayerModel>, next: u64, n: int)
    requires
        0 <= n,
    ensures
        layers.len() <= layers_joined(layers, others, next, n).len() <= layers.len() + n,
        layers_joined(layers, others, next, n).take(layers.len() as int) == layers,
    decreases n,
{
    if n > 0 {
        lemma_joined_len(layers, others, next, n - 1);
        assert(layers_joined(layers, others, next, n).take(layers.len() as int) =~= layers_joined(layers, others, next, n - 1).take(layers.len() as int));
    } else {
        assert(layers.take(layers.len() as int) =~= layers);
    }
}

impl Document {
    fn find_named(&self, name: &str) -> (r: Option<usize>)
        ensures
            match r {
                Some(i) => i == layer_named(layer_models(self.layers@), name@) && i < self.layers@.len(),
                None => layer_named(layer_models(self.layers@), name@) == self.layers@.len(),
            },
    {
        proof {
            lemma_named(self.layers@, name@);
        }
        find_first(&self.layers, Ghost(layer_called(name@)), |l: &Layer| -> (b: bool)
            ensures
                b == (l.name@ == name@),
            { crate::text::same_text(l.name.as_str(), name) })
    }

    fn join_layers(&mut self, others: &Vec<Layer>)
        requires
            old(self).next_layer_id + others@.len() <= u64::MAX,
        ensures
            *final(self) == (Document { layers: final(self).layers, next_layer_id: final(self).next_layer_id, ..*old(self) }),
            layer_models(final(self).layers@) == layers_joined(
                layer_models(old(self).layers@),
                layer_models(others@),
                old(self).next_layer_id,
                others@.len() as int,
            ),
            final(self).next_layer_id == old(self).next_layer_id + (final(self).layers@.len() - old(self).layers@.len()),
            final(self).next_layer_id <= old(self).next_layer_id + others@.len(),
    {
        let ghost models = layer_models(others@);
        let ghost base = layer_models(old(self).layers@);
        let mut k: usize = 0;
        while k < others.len()
            invariant
                k <= others.len(),
                models == layer_models(others@),
                base == layer_models(old(self).layers@),
                old(self).next_layer_id + others@.len() <= u64::MAX,
                *self == (Document { layers: self.layers, next_layer_id: self.next_layer_id, ..*old(self) }),
                self.next_layer_id == old(self).next_layer_id + (self.layers@.len() - old(self).layers@.len()),
                old(self).layers@.len() <= self.layers@.len() <= old(self).layers@.len() + k,
                layer_models(self.layers@) == layers_joined(base, models, old(self).next_layer_id, k as int),
            decreases others.len() - k,
        {
            let ghost before = self.layers@;
            assert(models[k as int] == others@[k as int]@);
            assert(layer_models(before).len() == before.len());
            if self.find_named(others[k].name.as_str()).is_none() {
                let mut layer = others[k].copy();
                layer.id = self.allocate_layer_id();
                self.layers.push(layer);
                assert(layer_models(self.layers@) =~= layer_models(before).push(layer@));
            }
            k += 1;
        }
    }

    /// Joins another document with this one: layers of one name become one,
    /// and the objects come under new ids. Gives the number of objects.
    pub fn merge_document(&mut self, other: &Document) -> (r: usize)
        requires
            old(self).next_layer_id + other.layers@.len() <= u64::MAX,
            old(self).next_object_id + other.objects@.len() <= u64::MAX,
        ensures
            document_joined(*old(self), *other, *final(self)),
            r == final(self).objects@.len() - old(self).objects@.len(),
            final(self).next_layer_id <= old(self).next_layer_id + other.layers@.len(),
            final(self).next_object_id <= old(self).next_object_id + other.objects@.len(),
    {
        self.join_layers(&other.layers);
        let ghost layers = layer_models(other.layers@);
        let ghost objects = object_models(other.objects@);
        let ghost base = object_models(old(self).objects@);
        let ghost grown = *self;
        let ghost joined = layer_models(self.layers@);
        let mut added: usize = 0;
        let mut j: usize = 0;
        while j < other.objects.len()
            invariant
                j <= other.objects.len(),
                layers == layer_models(other.layers@),
                objects == object_models(other.objects@),
                base == object_models(old(self).objects@),
                joined == layer_models(grown.layers@),
                joined == layers_joined(layer_models(old(self).layers@), layers, old(self).next_layer_id, layers.len() as int),
                old(self).next_object_id + other.objects@.len() <= u64::MAX,
                *self == (Document { objects: self.objects, next_object_id: self.next_object_id, ..grown }),
                object_models(self.objects@) == objects_joined(base, objects, layers, joined, old(self).next_object_id, j as int),
                added <= j,
                self.objects@.len() == old(self).objects@.len() + added,
                self.next_object_id == old(self).next_object_id + added,
            decreases other.objects.len() - j,
        {
            let object = &other.objects[j];
            let ghost before = self.objects@;
            proof {
                lemma_layer_place(other.layers@, object@.layer());
                lemma_first_index(other.layers@, |l: Layer| l.id == object@.layer());
                assert(objects[j as int] == object@);
                assert(object_models(before).len() == before.len());
            }
            match other.find_layer(object.layer()) {
                Some(k) => {
                    proof {
                        lemma_homes(layer_models(old(self).layers@), layers, old(self).next_layer_id, layers.len() as int, k as int);
                        assert(layers[k as int] == other.layers@[k as int]@);
                        assert(joined.len() == self.layers@.len());
                    }
                    match self.find_named(other.layers[k].name.as_str()) {
                        Some(h) => {
                            let home = self.layers[h].id;
                            assert(joined[h as int] == self.layers@[h as int]@);
                            let id = self.allocate_object_id();
                            let copy = object.with_id_and_layer(id, home);
                            self.objects.push(copy);
                            added += 1;
                            assert(object_models(self.objects@) =~= object_models(before).push(copy@));
                        },
                        None => {},
                    }
                },
                None => {},
            }
            j += 1;
        }
        assert(object_models(self.objects@).len() == self.objects@.len());
        added
    }
}

/// Joining a document with another keeps the layers and objects that were there.
pub proof fn law_joining_keeps_what_was_there(pre: Document, other: Document, post: Document)
    requires
        document_joined(pre, other, post),
    ensures
        pre.layers@.len() <= post.layers@.len(),
        layer_models(post.layers@).take(pre.layers@.len() as int) == layer_models(pre.layers@),
        pre.objects@.len() <= post.objects@.len(),
        object_models(post.objects@).take(pre.objects@.len() as int) == object_models(pre.objects@),
{
    let layers = layer_models(other.layers@);
    let objects = object_models(other.objects@);
    let joined = layers_joined(layer_models(pre.layers@), layers, pre.next_layer_id, layers.len() as int);
    lemma_joined_len(layer_models(pre.layers@), layers, pre.next_layer_id, layers.len() as int);
    lemma_objects_joined(object_models(pre.objects@), objects, layers, joined, pre.next_object_id, objects.len() as int);
    assert(layer_models(post.layers@).len() == post.layers@.len());
    assert(object_models(post.objects@).len() == post.objects@.len());
}

proof fn lemma_objects_joined(
    objects: Seq<ObjectModel>,
    others: Seq<ObjectModel>,
    layers: Seq<LayerModel>,
    joined: Seq<LayerModel>,
    next_object: u64,
    n: int,
)
    requires
        0 <= n,
    ensures
        objects.len() <= objects_joined(objects, others, layers, joined, next_object, n).len(),
        objects_joined(objects, others, layers, joined, next_object, n).take(objects.len() as int) == objects,
    decreases n,
{
    if n > 0 {
        lemma_objects_joined(objects, others, layers, joined, next_object, n - 1);
        assert(objects_joined(objects, others, layers, joined, next_object, n).take(objects.len() as int) =~= objects_joined(
            objects,
            others,
            layers,
            joined,
            next_object,
            n - 1,
        ).take(objects.len() as int));
    } else {
        assert(objects.take(objects.len() as int) =~= objects);
    }
}

} // verus!
