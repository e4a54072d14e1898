//! Searching lists from the front.

use crate::ieee::{f64_equal, f64_less, less64};
use vstd::prelude::*;

verus! {

/// The index of the first element that fits, or the length where none does.
pub open spec fn first_index<T>(s: Seq<T>, fits: spec_fn(T) -> bool) -> int
    decreases s.len(),
{
    if s.len() == 0 {
        0
    } else if fits(s[0]) {
        0
    } else {
        1 + first_index(s.drop_first(), fits)
    }
}

/// The element at that index fits, and none before it does.
pub proof fn lemma_first_index<T>(s: Seq<T>, fits: spec_fn(T) -> bool)
    ensures
        0 <= first_index(s, fits) <= s.len(),
        first_index(s, fits) < s.len() ==> fits(s[first_index(s, fits)]),
        forall|j: int| 0 <= j < first_index(s, fits) ==> !fits(#[trigger] s[j]),
        first_index(s, fits) < s.len() <==> exists|j: int| 0 <= j < s.len() && fits(#[trigger] s[j]),
    decreases s.len(),
{
    if s.len() > 0 && !fits(s[0]) {
        let rest = s.drop_first();
        lemma_first_index(rest, fits);
        assert forall|j: int| 0 <= j < first_index(s, fits) implies !fits(#[trigger] s[j]) by {
            if j > 0 {
                assert(rest[j - 1] == s[j]);
            }
        }
    }
}

/// An index that fits with none before it is the first index.
pub proof fn lemma_is_first_index<T>(s: Seq<T>, fits: spec_fn(T) -> bool, i: int)
    requires
        0 <= i < s.len(),
        fits(s[i]),
        forall|j: int| 0 <= j < i ==> !fits(#[trigger] s[j]),
    ensures
        first_index(s, fits) == i,
{
    lemma_first_index(s, fits);
}

/// Where the first element that fits stands.
pub(crate) fn find_first<T, F: Fn(&T) -> bool>(items: &Vec<T>, Ghost(fits): Ghost<spec_fn(T) -> bool>, test: F) -> (r: Option<usize>)
    requires
        forall|x: &T| test.requires((x,)),
        forall|x: &T, b: bool| test.ensures((x,), b) ==> b == fits(*x),
    ensures
        match r {
            Some(i) => i == first_index(items@, fits) && i < items@.len(),
            None => first_index(items@, fits) == items@.len(),
        },
        match r {
            Some(i) => fits(items@[i as int]),
            None => forall|j: int| 0 <= j < items@.len() ==> !fits(#[trigger] items@[j]),
        },
{
    let mut i: usize = 0;
    while i < items.len()
        invariant
            i <= items.len(),
            forall|x: &T| test.requires((x,)),
            forall|x: &T, b: bool| test.ensures((x,), b) ==> b == fits(*x),
            forall|j: int| 0 <= j < i ==> !fits(#[trigger] items@[j]),
        decreases items.len() - i,
    {
        if test(&items[i]) {
            proof {
                lemma_is_first_index(items@, fits, i as int);
            }
            return Some(i);
        }
        i += 1;
    }
    proof {
        lemma_first_index(items@, fits);
    }
    None
}

/// The elements that fit, in their order.
pub(crate) fn filter_copied<T: Copy, F: Fn(T) -> bool>(items: &Vec<T>, Ghost(fits): Ghost<spec_fn(T) -> bool>, test: F) -> (r: Vec<T>)
    requires
        forall|x: T| test.requires((x,)),
        forall|x: T, b: bool| test.ensures((x,), b) ==> b == fits(x),
    ensures
        r@ == items@.filter(fits),
{
    let mut r: Vec<T> = Vec::new();
    let mut i: usize = 0;
    proof {
        reveal(Seq::filter);
        assert(items@.take(0).filter(fits) =~= Seq::<T>::empty());
    }
    while i < items.len()
        invariant
            i <= items.len(),
            forall|x: T| test.requires((x,)),
            forall|x: T, b: bool| test.ensures((x,), b) ==> b == fits(x),
            r@ == items@.take(i as int).filter(fits),
        decreases items.len() - i,
    {
        let x = items[i];
        proof {
            assert(items@.take(i + 1).drop_last() =~= items@.take(i as int));
            reveal(Seq::filter);
        }
        if test(x) {
            r.push(x);
        }
        i += 1;
    }
    assert(items@.take(items@.len() as int) =~= items@);
    r
}

/// The nearest of what is nearer than the limit, of the equally near the first.
pub open spec fn is_nearest(distances: Seq<Option<u64>>, limit: u64, i: int) -> bool {
    &&& 0 <= i < distances.len()
    &&& distances[i] is Some
    &&& f64_less(distances[i]->0, limit)
    &&& forall|j: int| 0 <= j < distances.len() && (#[trigger] distances[j]) is Some ==> !f64_less(distances[j]->0, distances[i]->0)
    &&& forall|j: int| 0 <= j < i && (#[trigger] distances[j]) is Some ==> !f64_equal(distances[j]->0, distances[i]->0)
}

/// This is where the nearest is of what is nearer than the limit, if there is
/// anything.
pub open spec fn nearest_found(distances: Seq<Option<u64>>, limit: u64, r: Option<usize>) -> bool {
    match r {
        Some(i) => is_nearest(distances, limit, i as int),
        None => forall|j: int| 0 <= j < distances.len() && (#[trigger] distances[j]) is Some ==> !f64_less(distances[j]->0, limit),
    }
}

/// There is one nearest, or none.
pub proof fn law_one_nearest(distances: Seq<Option<u64>>, limit: u64, a: Option<usize>, b: Option<usize>)
    requires
        nearest_found(distances, limit, a),
        nearest_found(distances, limit, b),
    ensures
        a == b,
{
    if a is Some && b is Some {
        let (i, j) = (a->0 as int, b->0 as int);
        assert(distances[i] is Some && distances[j] is Some);
    } else if a is Some {
        assert(distances[a->0 as int] is Some);
    } else if b is Some {
        assert(distances[b->0 as int] is Some);
    }
}

/// Where the nearest is of what is nearer than the limit. What has no distance
/// is out of sight.
pub fn nearest_within(distances: &Vec<Option<u64>>, limit: u64) -> (r: Option<usize>)
    ensures
        nearest_found(distances@, limit, r),
{
    let mut best: u64 = limit;
    let mut at: Option<usize> = None;
    let mut i: usize = 0;
    while i < distances.len()
        invariant
            i <= distances.len(),
            at is None ==> best == limit,
            at matches Some(k) ==> k < i && distances@[k as int] == Some(best) && f64_less(best, limit),
            forall|j: int| 0 <= j < i && (#[trigger] distances@[j]) is Some ==> !f64_less(distances@[j]->0, best),
            at matches Some(k) ==> forall|j: int| 0 <= j < k && (#[trigger] distances@[j]) is Some ==> !f64_equal(distances@[j]->0, best),
        decreases distances.len() - i,
    {
        match distances[i] {
            Some(d) => {
                if less64(d, best) {
                    best = d;
                    at = Some(i);
                }
            },
            None => {},
        }
        i += 1;
    }
    at
}

} // verus!
