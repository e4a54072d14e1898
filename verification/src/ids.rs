//! Identifiers of everything a project holds, and ordered sets of them.

use vstd::prelude::*;

verus! {

/// A design object of a document.
#[derive(Clone, Copy, PartialEq, Eq, Structural, Debug)]
pub struct ObjectId(pub u64);

/// A layer of a document.
#[derive(Clone, Copy, PartialEq, Eq, Structural, Debug)]
pub struct LayerId(pub u64);

/// An open triangulated surface.
#[derive(Clone, Copy, PartialEq, Eq, Structural, Debug)]
pub struct TriangulationId(pub u64);

/// An open block model.
#[derive(Clone, Copy, PartialEq, Eq, Structural, Debug)]
pub struct BlockModelId(pub u64);

/// An open drillhole dataset.
#[derive(Clone, Copy, PartialEq, Eq, Structural, Debug)]
pub struct DrillHoleId(pub u64);

/// An open point cloud.
#[derive(Clone, Copy, PartialEq, Eq, Structural, Debug)]
pub struct PointCloudId(pub u64);

/// An open raster texture.
#[derive(Clone, Copy, PartialEq, Eq, Structural, Debug)]
pub struct RasterTextureId(pub u64);

/// Anything the viewport can pick.
#[derive(Clone, Copy, PartialEq, Eq, Structural, Debug)]
pub enum SceneEntityId {
    Object(ObjectId),
    Triangulation(TriangulationId),
    BlockModel(BlockModelId),
    DrillHole(DrillHoleId),
    PointCloud(PointCloudId),
    Raster(RasterTextureId),
}

/// Anything a project owns beside its design layers.
#[derive(Clone, Copy, PartialEq, Eq, Structural, Debug)]
pub enum ItemRef {
    Triangulation(TriangulationId),
    BlockModel(BlockModelId),
    DrillHole(DrillHoleId),
    PointCloud(PointCloudId),
    Raster(RasterTextureId),
}

/// One hole of a drillhole dataset.
#[derive(Clone, Copy, PartialEq, Eq, Structural, Debug)]
pub struct HoleRef {
    pub dataset: DrillHoleId,
    pub hole: usize,
}

/// One tie-in of a drillhole dataset: the leg between two of its holes.
#[derive(Clone, Copy, PartialEq, Eq, Structural, Debug)]
pub struct TieRef {
    pub dataset: DrillHoleId,
    pub from: usize,
    pub to: usize,
}

/// A small value that can be told from its fellows by comparing it.
pub trait Key: Copy {
    fn same(self, other: Self) -> (r: bool)
        ensures
            r == (self == other),
    ;
}

impl Key for u64 {
    fn same(self, other: Self) -> (r: bool) {
        self == other
    }
}

impl Key for ObjectId {
    fn same(self, other: Self) -> (r: bool) {
        self == other
    }
}

impl Key for LayerId {
    fn same(self, other: Self) -> (r: bool) {
        self == other
    }
}

impl Key for TriangulationId {
    fn same(self, other: Self) -> (r: bool) {
        self == other
    }
}

impl Key for RasterTextureId {
    fn same(self, other: Self) -> (r: bool) {
        self == other
    }
}

impl Key for SceneEntityId {
    fn same(self, other: Self) -> (r: bool) {
        self == other
    }
}

impl Key for HoleRef {
    fn same(self, other: Self) -> (r: bool) {
        self == other
    }
}

impl Key for TieRef {
    fn same(self, other: Self) -> (r: bool) {
        self == other
    }
}

/// Whether `key` is among `items`.
pub fn contains_key<T: Key>(items: &Vec<T>, key: T) -> (r: bool)
    ensures
        r == items@.contains(key),
{
    let mut i: usize = 0;
    while i < items.len()
        invariant
            i <= items.len(),
            forall|j: int| 0 <= j < i ==> items@[j] != key,
        decreases items.len() - i,
    {
        if items[i].same(key) {
            return true;
        }
        i += 1;
    }
    false
}

/// The keys of `items` other than `key`, in their order.
pub open spec fn without<T>(items: Seq<T>, key: T) -> Seq<T> {
    items.filter(|k: T| k != key)
}

/// A copy of `items` without `key`.
pub fn remove_key<T: Key>(items: &Vec<T>, key: T) -> (r: Vec<T>)
    ensures
        r@ == without(items@, key),
        forall|k: T| r@.contains(k) <==> items@.contains(k) && k != key,
        items@.no_duplicates() ==> r@.no_duplicates(),
{
    let ghost keep = |k: T| k != key;
    let mut r: Vec<T> = Vec::new();
    let mut i: usize = 0;
    while i < items.len()
        invariant
            i <= items.len(),
            keep == (|k: T| k != key),
            r@ == items@.take(i as int).filter(keep),
        decreases items.len() - i,
    {
        let k = items[i];
        proof {
            assert(items@.take(i + 1).drop_last() =~= items@.take(i as int));
            reveal(Seq::filter);
        }
        if !k.same(key) {
            r.push(k);
        }
        i += 1;
    }
    proof {
        assert(items@.take(items@.len() as int) =~= items@);
        lemma_filter_members(items@, keep);
    }
    r
}

/// What a filter keeps, and that it repeats nothing that was not repeated.
pub proof fn lemma_filter_members<T>(items: Seq<T>, keep: spec_fn(T) -> bool)
    ensures
        forall|k: T| items.filter(keep).contains(k) <==> items.contains(k) && keep(k),
        items.no_duplicates() ==> items.filter(keep).no_duplicates(),
    decreases items.len(),
{
    reveal(Seq::filter);
    if items.len() > 0 {
        let front = items.drop_last();
        let last = items.last();
        lemma_filter_members(front, keep);
        assert(items =~= front.push(last));
        let kept = front.filter(keep);
        assert forall|k: T| items.filter(keep).contains(k) <==> items.contains(k) && keep(k) by {
            if front.contains(k) {
                let j = choose|j: int| 0 <= j < front.len() && front[j] == k;
                assert(items[j] == k);
            }
            if keep(last) {
                assert(items.filter(keep) == kept.push(last));
                if kept.contains(k) {
                    let j = choose|j: int| 0 <= j < kept.len() && kept[j] == k;
                    assert(kept.push(last)[j] == k);
                }
                assert(kept.push(last)[kept.len() as int] == last);
            }
            assert(items[items.len() - 1] == last);
        }
        if items.no_duplicates() {
            assert(front.no_duplicates());
            if front.contains(last) {
                let j = choose|j: int| 0 <= j < front.len() && front[j] == last;
                assert(items[j] == items[items.len() - 1]);
            }
            assert(!front.contains(last));
            if keep(last) {
                assert(items.filter(keep) == kept.push(last));
                assert(!kept.contains(last));
            }
        }
    } else {
        assert(items.filter(keep) =~= Seq::<T>::empty());
    }
}

/// A copy of `items` with `key` behind it.
pub fn append_key<T: Key>(items: &Vec<T>, key: T) -> (r: Vec<T>)
    ensures
        r@ == items@.push(key),
{
    let mut r: Vec<T> = Vec::new();
    let mut i: usize = 0;
    while i < items.len()
        invariant
            i <= items.len(),
            r@ == items@.take(i as int),
        decreases items.len() - i,
    {
        r.push(items[i]);
        i += 1;
    }
    r.push(key);
    r
}

/// A set of keys that remembers the order in which they came.
pub struct IdSet<T: Key> {
    items: Vec<T>,
}

impl<T: Key> View for IdSet<T> {
    type V = Set<T>;

    closed spec fn view(&self) -> Set<T> {
        self.items@.to_set()
    }
}

impl<T: Key> IdSet<T> {
    #[verifier::type_invariant]
    closed spec fn inv(self) -> bool {
        self.items@.no_duplicates()
    }

    /// The keys in the order in which they came.
    pub closed spec fn order(&self) -> Seq<T> {
        self.items@
    }

    /// The empty set.
    pub fn new() -> (r: Self)
        ensures
            r@ == Set::<T>::empty(),
            r.order() == Seq::<T>::empty(),
    {
        let r = IdSet { items: Vec::new() };
        assert(r@ =~= Set::<T>::empty());
        r
    }

    /// The set of the keys of `items`.
    pub fn from_vec(items: &Vec<T>) -> (r: Self)
        ensures
            r@ == items@.to_set(),
    {
        let mut r = IdSet::new();
        r.extend(items);
        assert(r@ =~= items@.to_set());
        r
    }

    /// Whether the set holds `key`.
    pub fn contains(&self, key: T) -> (r: bool)
        ensures
            r == self@.contains(key),
    {
        contains_key(&self.items, key)
    }

    /// How many keys the set holds.
    pub fn len(&self) -> (r: usize)
        ensures
            r == self@.len(),
            self@.finite(),
    {
        proof {
            use_type_invariant(self);
            self.items@.unique_seq_to_set();
            vstd::seq_lib::seq_to_set_is_finite(self.items@);
        }
        self.items.len()
    }

    /// Whether the set holds no key.
    pub fn is_empty(&self) -> (r: bool)
        ensures
            r == (self@ == Set::<T>::empty()),
    {
        let r = self.items.len() == 0;
        proof {
            if r {
                assert(self@ =~= Set::<T>::empty());
            } else {
                assert(self@.contains(self.items@[0]));
            }
        }
        r
    }

    /// The keys in the order in which they came.
    pub fn as_vec(&self) -> (r: &Vec<T>)
        ensures
            r@ == self.order(),
            r@.no_duplicates(),
            r@.to_set() == self@,
    {
        proof {
            use_type_invariant(self);
        }
        &self.items
    }

    /// A second set with the same keys.
    pub fn copy(&self) -> (r: Self)
        ensures
            r@ == self@,
            r.order() == self.order(),
    {
        proof {
            use_type_invariant(self);
        }
        let mut items: Vec<T> = Vec::new();
        let mut i: usize = 0;
        while i < self.items.len()
            invariant
                i <= self.items.len(),
                items@ == self.items@.take(i as int),
            decreases self.items.len() - i,
        {
            items.push(self.items[i]);
            i += 1;
        }
        assert(items@ =~= self.items@);
        IdSet { items }
    }

    /// Whether both sets hold the same keys.
    pub fn same_keys(&self, other: &Self) -> (r: bool)
        ensures
            r == (self@ == other@),
    {
        self.is_subset(other) && other.is_subset(self)
    }

    /// Whether `other` holds every key of this set.
    pub fn is_subset(&self, other: &Self) -> (r: bool)
        ensures
            r == self@.subset_of(other@),
            r && other@.subset_of(self@) ==> self@ == other@,
    {
        let mut i: usize = 0;
        while i < self.items.len()
            invariant
                i <= self.items.len(),
                forall|j: int| 0 <= j < i ==> other@.contains(self.items@[j]),
            decreases self.items.len() - i,
        {
            if !other.contains(self.items[i]) {
                assert(self@.contains(self.items@[i as int]));
                return false;
            }
            i += 1;
        }
        proof {
            if other@.subset_of(self@) {
                assert(self@ =~= other@);
            }
        }
        true
    }

    /// Removes every key.
    pub fn clear(&mut self)
        ensures
            final(self)@ == Set::<T>::empty(),
            final(self).order() == Seq::<T>::empty(),
    {
        self.items = Vec::new();
        assert(self@ =~= Set::<T>::empty());
    }

    /// Adds `key`; tells whether it was new.
    pub fn insert(&mut self, key: T) -> (r: bool)
        ensures
            final(self)@ == old(self)@.insert(key),
            r == !old(self)@.contains(key),
    {
        proof {
            use_type_invariant(&*self);
        }
        if contains_key(&self.items, key) {
            assert(self@ =~= old(self)@.insert(key));
            false
        } else {
            let items = append_key(&self.items, key);
            assert forall|k: T| items@.contains(k) <==> old(self).items@.contains(k) || k == key by {
                if old(self).items@.contains(k) {
                    let j = choose|j: int| 0 <= j < old(self).items@.len() && old(self).items@[j] == k;
                    assert(items@[j] == k);
                }
                assert(items@[items@.len() - 1] == key);
            }
            self.items = items;
            assert(self@ =~= old(self)@.insert(key));
            true
        }
    }

    /// Takes `key` out; tells whether it was in.
    pub fn remove(&mut self, key: T) -> (r: bool)
        ensures
            final(self)@ == old(self)@.remove(key),
            r == old(self)@.contains(key),
    {
        proof {
            use_type_invariant(&*self);
        }
        let held = contains_key(&self.items, key);
        let items = remove_key(&self.items, key);
        self.items = items;
        assert(self@ =~= old(self)@.remove(key));
        held
    }

    /// Adds every key of `keys`.
    pub fn extend(&mut self, keys: &Vec<T>)
        ensures
            final(self)@ == old(self)@.union(keys@.to_set()),
    {
        let mut i: usize = 0;
        assert(keys@.take(0).to_set() =~= Set::<T>::empty());
        assert(self@ =~= old(self)@.union(keys@.take(0).to_set()));
        while i < keys.len()
            invariant
                i <= keys.len(),
                self@ == old(self)@.union(keys@.take(i as int).to_set()),
            decreases keys.len() - i,
        {
            self.insert(keys[i]);
            proof {
                lemma_take_to_set(keys@, i as int);
                assert(self@ =~= old(self)@.union(keys@.take(i + 1).to_set()));
            }
            i += 1;
        }
        assert(keys@.take(keys@.len() as int) =~= keys@);
    }

    /// For each key of `keys` in turn: takes it out where it is in, adds it where it is not.
    pub fn toggle_all(&mut self, keys: &Vec<T>)
        ensures
            final(self)@ == toggled_each(old(self)@, keys@),
    {
        let mut i: usize = 0;
        assert(keys@.take(0) =~= Seq::<T>::empty());
        while i < keys.len()
            invariant
                i <= keys.len(),
                self@ == toggled_each(old(self)@, keys@.take(i as int)),
            decreases keys.len() - i,
        {
            let key = keys[i];
            assert(keys@.take(i + 1).drop_last() =~= keys@.take(i as int));
            if !self.remove(key) {
                assert(self@ =~= toggled_each(old(self)@, keys@.take(i as int)));
                self.insert(key);
            }
            i += 1;
        }
        assert(keys@.take(keys@.len() as int) =~= keys@);
    }
}

/// The set with one key's membership turned round.
pub open spec fn toggled_one<T>(selected: Set<T>, key: T) -> Set<T> {
    if selected.contains(key) {
        selected.remove(key)
    } else {
        selected.insert(key)
    }
}

/// The set with the membership of each key turned round in turn.
pub open spec fn toggled_each<T>(selected: Set<T>, keys: Seq<T>) -> Set<T>
    decreases keys.len(),
{
    if keys.len() == 0 {
        selected
    } else {
        toggled_one(toggled_each(selected, keys.drop_last()), keys.last())
    }
}

/// The keys of exactly one of the two sets.
pub open spec fn toggled<T>(selected: Set<T>, keys: Set<T>) -> Set<T> {
    selected.difference(keys).union(keys.difference(selected))
}

/// Turning keys that differ from one another leaves the symmetric difference.
pub proof fn law_toggle_is_difference<T>(selected: Set<T>, keys: Seq<T>)
    requires
        keys.no_duplicates(),
    ensures
        toggled_each(selected, keys) == toggled(selected, keys.to_set()),
    decreases keys.len(),
{
    if keys.len() == 0 {
        assert(toggled(selected, keys.to_set()) =~= selected);
    } else {
        let front = keys.drop_last();
        let last = keys.last();
        law_toggle_is_difference(selected, front);
        assert(keys.take(keys.len() - 1) =~= front);
        assert(keys.take(keys.len() as int) =~= keys);
        lemma_take_to_set(keys, keys.len() - 1);
        assert(!front.contains(last)) by {
            if front.contains(last) {
                let j = choose|j: int| 0 <= j < front.len() && front[j] == last;
                assert(keys[j] == keys[keys.len() - 1]);
            }
        }
        assert(toggled_each(selected, keys) =~= toggled(selected, keys.to_set()));
    }
}

/// Turning the same keys twice, each of them once, gives back the first set.
pub proof fn law_toggle_twice<T>(selected: Set<T>, keys: Seq<T>)
    requires
        keys.no_duplicates(),
    ensures
        toggled_each(toggled_each(selected, keys), keys) == selected,
{
    law_toggle_is_difference(selected, keys);
    law_toggle_is_difference(toggled_each(selected, keys), keys);
    assert(toggled(toggled(selected, keys.to_set()), keys.to_set()) =~= selected);
}

/// The keys of a prefix grow by the next key.
pub proof fn lemma_take_to_set<T>(keys: Seq<T>, i: int)
    requires
        0 <= i < keys.len(),
    ensures
        keys.take(i + 1).to_set() == keys.take(i).to_set().insert(keys[i]),
{
    let longer = keys.take(i + 1);
    let shorter = keys.take(i);
    assert forall|k: T| longer.to_set().contains(k) <==> shorter.to_set().insert(keys[i]).contains(k) by {
        if longer.contains(k) {
            let j = choose|j: int| 0 <= j < longer.len() && longer[j] == k;
            if j < i {
                assert(shorter[j] == k);
            }
        }
        if shorter.contains(k) {
            let j = choose|j: int| 0 <= j < shorter.len() && shorter[j] == k;
            assert(longer[j] == k);
        }
        assert(longer[i] == keys[i]);
    }
    assert(longer.to_set() =~= shorter.to_set().insert(keys[i]));
}

} // verus!
