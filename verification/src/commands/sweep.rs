//! Following the faces of a surface from one contour level to the next.
//!
//! The faces are taken in the order of where they begin. Those that a level has
//! reached are admitted, those that it has passed are retired, so that at each
//! level exactly the faces across it are at hand.

use crate::ieee::{f64_key, f64_less, f64_magnitude, f64_nan, less64, magnitude64, F64_INFINITY, F64_SIGN};
use crate::search::{first_index, lemma_first_index};
use vstd::prelude::*;

verus! {

/// Where a face begins and ends: the bits of its least and greatest height.
#[derive(Clone, Copy, PartialEq, Eq, Structural, Debug)]
pub struct FaceSpan {
    pub z_min: u64,
    pub z_max: u64,
}

/// `a <= b` on `f64` values.
pub open spec fn f64_at_most(a: u64, b: u64) -> bool {
    !f64_nan(a) && !f64_nan(b) && f64_key(a) <= f64_key(b)
}

/// `a <= b` on `f64` values.
fn at_most(a: u64, b: u64) -> (r: bool)
    ensures
        r == f64_at_most(a, b),
{
    magnitude64(a) <= F64_INFINITY && magnitude64(b) <= F64_INFINITY && !less64(b, a)
}

/// Where a value stands in the total order of all bit patterns: below the
/// numbers the values that are not numbers with the sign set, above them the
/// others, and the negative zero just below the positive.
pub open spec fn f64_total(bits: u64) -> int {
    if bits >= F64_SIGN {
        -1 - f64_magnitude(bits)
    } else {
        bits as int
    }
}

/// The value comes before the other in the total order.
fn total_before(a: u64, b: u64) -> (r: bool)
    ensures
        r == (f64_total(a) < f64_total(b)),
{
    if a >= F64_SIGN {
        b < F64_SIGN || a > b
    } else {
        b < F64_SIGN && a < b
    }
}

/// The list of faces with one put in before the first that begins later.
pub open spec fn with_face(faces: Seq<FaceSpan>, order: Seq<usize>, face: int) -> Seq<usize> {
    order.insert(first_index(order, |j: usize| f64_total(faces[face].z_min) < f64_total(faces[j as int].z_min)), face as usize)
}

/// The first `n` faces in the order of where they begin.
pub open spec fn face_order(faces: Seq<FaceSpan>, n: int) -> Seq<usize>
    decreases n,
{
    if n <= 0 {
        Seq::empty()
    } else {
        with_face(faces, face_order(faces, n - 1), n - 1)
    }
}

/// Each face of the list begins no later than those behind it.
pub open spec fn begins_in_order(faces: Seq<FaceSpan>, order: Seq<usize>) -> bool {
    forall|i: int, j: int|
        0 <= i < j < order.len() ==> f64_total(faces[(#[trigger] order[i]) as int].z_min) <= f64_total(faces[(#[trigger] order[j]) as int].z_min)
}

/// The list holds the first `n` faces in order.
pub proof fn lemma_face_order(faces: Seq<FaceSpan>, n: int)
    requires
        0 <= n <= faces.len(),
        faces.len() <= usize::MAX,
    ensures
        face_order(faces, n).len() == n,
        begins_in_order(faces, face_order(faces, n)),
        forall|i: int| 0 <= i < n ==> (#[trigger] face_order(faces, n)[i]) < n,
        forall|f: usize| f < n ==> face_order(faces, n).contains(f),
    decreases n,
{
    if n > 0 {
        let s = face_order(faces, n - 1);
        lemma_face_order(faces, n - 1);
        let f = n - 1;
        let later = |j: usize| f64_total(faces[f].z_min) < f64_total(faces[j as int].z_min);
        lemma_first_index(s, later);
        let p = first_index(s, later);
        let r = s.insert(p, f as usize);
        assert(r == face_order(faces, n));
        assert forall|i: int, j: int| 0 <= i < j < r.len() implies f64_total(faces[(#[trigger] r[i]) as int].z_min) <= f64_total(
            faces[(#[trigger] r[j]) as int].z_min,
        ) by {
            if i == p && j > p {
                assert(r[j] == s[j - 1]);
                assert(later(s[p]));
                if j - 1 > p {
                    assert(f64_total(faces[s[p] as int].z_min) <= f64_total(faces[s[j - 1] as int].z_min));
                }
            } else if j == p {
                assert(r[i] == s[i]);
                assert(!later(s[i]));
            } else {
                let i2 = if i < p { i } else { i - 1 };
                let j2 = if j < p { j } else { j - 1 };
                assert(r[i] == s[i2] && r[j] == s[j2]);
            }
        }
        assert forall|i: int| 0 <= i < n implies (#[trigger] r[i]) < n by {
            if i < p {
                assert(r[i] == s[i]);
            } else if i > p {
                assert(r[i] == s[i - 1]);
            }
        }
        assert forall|g: usize| g < n implies r.contains(g) by {
            if g == f {
                assert(r[p] == g);
            } else {
                assert(s.contains(g));
                let q = choose|q: int| 0 <= q < s.len() && s[q] == g;
                if q < p {
                    assert(r[q] == g);
                } else {
                    assert(r[q + 1] == g);
                }
            }
        }
    }
}

/// The faces in the order of where they begin.
fn order_faces(faces: &Vec<FaceSpan>) -> (r: Vec<usize>)
    ensures
        r@ == face_order(faces@, faces@.len() as int),
{
    let mut r: Vec<usize> = Vec::new();
    let mut f: usize = 0;
    while f < faces.len()
        invariant
            f <= faces.len(),
            r@ == face_order(faces@, f as int),
        decreases faces.len() - f,
    {
        proof {
            assert(faces.len() == faces@.len());
            lemma_face_order(faces@, f as int);
        }
        let z: u64 = faces[f].z_min;
        let at: usize = first_later(faces, &r, z, f);
        r.insert(at, f);
        assert(r@ == with_face(faces@, face_order(faces@, f as int), f as int));
        f += 1;
    }
    r
}

/// Where the first face of the list stands that begins later.
fn first_later(faces: &Vec<FaceSpan>, order: &Vec<usize>, z: u64, n: usize) -> (r: usize)
    requires
        n <= faces@.len(),
        forall|i: int| 0 <= i < order@.len() ==> (#[trigger] order@[i]) < n,
    ensures
        r == first_index(order@, |j: usize| f64_total(z) < f64_total(faces@[j as int].z_min)),
        r <= order@.len(),
{
    let ghost later = |j: usize| f64_total(z) < f64_total(faces@[j as int].z_min);
    let mut i: usize = 0;
    while i < order.len()
        invariant
            i <= order.len(),
            n <= faces@.len(),
            later == (|j: usize| f64_total(z) < f64_total(faces@[j as int].z_min)),
            forall|k: int| 0 <= k < order@.len() ==> (#[trigger] order@[k]) < n,
            forall|k: int| 0 <= k < i ==> !later(#[trigger] order@[k]),
        decreases order.len() - i,
    {
        if total_before(z, faces[order[i]].z_min) {
            proof {
                crate::search::lemma_is_first_index(order@, later, i as int);
            }
            return i;
        }
        i += 1;
    }
    proof {
        lemma_first_index(order@, later);
    }
    i
}

/// How many faces of the list have been admitted once a level was reached,
/// `from` of them before it.
pub open spec fn admitted(faces: Seq<FaceSpan>, order: Seq<usize>, from: int, level: u64) -> int
    decreases order.len() - from,
{
    if 0 <= from < order.len() && f64_at_most(faces[order[from] as int].z_min, level) {
        admitted(faces, order, from + 1, level)
    } else {
        from
    }
}

/// How many faces have been admitted once the first `l` levels were reached.
pub open spec fn admitted_by(faces: Seq<FaceSpan>, order: Seq<usize>, levels: Seq<u64>, l: int) -> int
    decreases l,
{
    if l <= 0 {
        0
    } else {
        admitted(faces, order, admitted_by(faces, order, levels, l - 1), levels[l - 1])
    }
}

/// The level has not passed the face.
pub open spec fn not_passed(faces: Seq<FaceSpan>, face: usize, level: u64) -> bool {
    f64_less(level, faces[face as int].z_max)
}

/// The test of a face against a level that may have passed it.
pub open spec fn unpassed(faces: Seq<FaceSpan>, level: u64) -> spec_fn(usize) -> bool {
    |f: usize| not_passed(faces, f, level)
}

/// The faces at hand after the first `l` levels.
pub open spec fn at_hand(faces: Seq<FaceSpan>, order: Seq<usize>, levels: Seq<u64>, l: int) -> Seq<usize>
    decreases l,
{
    if l <= 0 {
        Seq::empty()
    } else {
        let from = admitted_by(faces, order, levels, l - 1);
        let to = admitted_by(faces, order, levels, l);
        (at_hand(faces, order, levels, l - 1) + order.subrange(from, to)).filter(unpassed(faces, levels[l - 1]))
    }
}

proof fn lemma_admitted(faces: Seq<FaceSpan>, order: Seq<usize>, from: int, level: u64)
    requires
        0 <= from <= order.len(),
    ensures
        from <= admitted(faces, order, from, level) <= order.len(),
        forall|k: int| from <= k < admitted(faces, order, from, level) ==> f64_at_most(faces[(#[trigger] order[k]) as int].z_min, level),
        admitted(faces, order, from, level) < order.len() ==> !f64_at_most(
            faces[order[admitted(faces, order, from, level)] as int].z_min,
            level,
        ),
    decreases order.len() - from,
{
    if from < order.len() && f64_at_most(faces[order[from] as int].z_min, level) {
        lemma_admitted(faces, order, from + 1, level);
    }
}

proof fn lemma_admitted_by(faces: Seq<FaceSpan>, order: Seq<usize>, levels: Seq<u64>, l: int)
    ensures
        0 <= admitted_by(faces, order, levels, l) <= order.len(),
    decreases l,
{
    if l > 0 {
        lemma_admitted_by(faces, order, levels, l - 1);
        lemma_admitted(faces, order, admitted_by(faces, order, levels, l - 1), levels[l - 1]);
    }
}

/// For each level in turn, the faces that are at hand there.
pub fn sweep_levels(faces: &Vec<FaceSpan>, levels: &Vec<u64>) -> (r: Vec<Vec<usize>>)
    ensures
        r@.len() == levels@.len(),
        forall|l: int|
            0 <= l < levels@.len() ==> (#[trigger] r@[l])@ == at_hand(faces@, face_order(faces@, faces@.len() as int), levels@, l + 1),
{
    let order = order_faces(faces);
    let ghost sorted = face_order(faces@, faces@.len() as int);
    proof {
        assert(faces.len() == faces@.len());
        lemma_face_order(faces@, faces@.len() as int);
    }
    let mut r: Vec<Vec<usize>> = Vec::new();
    let mut active: Vec<usize> = Vec::new();
    let mut next: usize = 0;
    let mut l: usize = 0;
    while l < levels.len()
        invariant
            l <= levels.len(),
            order@ == sorted,
            sorted == face_order(faces@, faces@.len() as int),
            order@.len() == faces@.len(),
            forall|i: int| 0 <= i < order@.len() ==> (#[trigger] order@[i]) < faces@.len(),
            next == admitted_by(faces@, sorted, levels@, l as int),
            next <= order@.len(),
            active@ == at_hand(faces@, sorted, levels@, l as int),
            forall|i: int| 0 <= i < active@.len() ==> (#[trigger] active@[i]) < faces@.len(),
            r@.len() == l,
            forall|k: int| 0 <= k < l ==> (#[trigger] r@[k])@ == at_hand(faces@, sorted, levels@, k + 1),
        decreases levels.len() - l,
    {
        let level: u64 = levels[l];
        let ghost from = next as int;
        let ghost held = active@;
        proof {
            lemma_admitted(faces@, sorted, from, level);
            assert(held =~= held + order@.subrange(from, next as int));
        }
        while next < order.len() && at_most(faces[order[next]].z_min, level)
            invariant
                0 <= from <= next <= order@.len(),
                order@ == sorted,
                order@.len() == faces@.len(),
                forall|i: int| 0 <= i < order@.len() ==> (#[trigger] order@[i]) < faces@.len(),
                admitted(faces@, sorted, from, level) == admitted(faces@, sorted, next as int, level),
                active@ == held + order@.subrange(from, next as int),
                forall|i: int| 0 <= i < active@.len() ==> (#[trigger] active@[i]) < faces@.len(),
            decreases order@.len() - next,
        {
            active.push(order[next]);
            assert(active@ =~= held + order@.subrange(from, next + 1));
            next += 1;
        }
        assert(next == admitted_by(faces@, sorted, levels@, l + 1));
        let ghost before = active@;
        let ghost keep = unpassed(faces@, level);
        let kept = retain_not_passed(faces, &active, level);
        proof {
            crate::ids::lemma_filter_members(before, keep);
            assert forall|i: int| 0 <= i < kept@.len() implies (#[trigger] kept@[i]) < faces@.len() by {
                assert(kept@.contains(kept@[i]));
                assert(before.contains(kept@[i]));
            }
        }
        active = kept;
        let shown = copy_indices(&active);
        r.push(shown);
        l += 1;
    }
    r
}

fn copy_indices(items: &Vec<usize>) -> (r: Vec<usize>)
    ensures
        r@ == items@,
{
    let mut r: Vec<usize> = Vec::new();
    let mut i: usize = 0;
    while i < items.len()
        invariant
            i <= items.len(),
            r@ == items@.take(i as int),
        decreases items.len() - i,
    {
        r.push(items[i]);
        i += 1;
    }
    assert(r@ =~= items@);
    r
}

/// The faces that the level has not passed.
fn retain_not_passed(faces: &Vec<FaceSpan>, active: &Vec<usize>, level: u64) -> (r: Vec<usize>)
    requires
        forall|i: int| 0 <= i < active@.len() ==> (#[trigger] active@[i]) < faces@.len(),
    ensures
        r@ == active@.filter(unpassed(faces@, level)),
{
    let ghost keep = unpassed(faces@, level);
    let mut r: Vec<usize> = Vec::new();
    let mut i: usize = 0;
    proof {
        reveal(Seq::filter);
        assert(active@.take(0).filter(keep) =~= Seq::<usize>::empty());
    }
    while i < active.len()
        invariant
            i <= active.len(),
            keep == unpassed(faces@, level),
            forall|k: int| 0 <= k < active@.len() ==> (#[trigger] active@[k]) < faces@.len(),
            r@ == active@.take(i as int).filter(keep),
        decreases active.len() - i,
    {
        let f: usize = active[i];
        proof {
            reveal(Seq::filter);
            assert(active@.take(i + 1).drop_last() =~= active@.take(i as int));
        }
        if less64(level, faces[f].z_max) {
            r.push(f);
        }
        i += 1;
    }
    assert(active@.take(active@.len() as int) =~= active@);
    r
}

/// The level lies across the face.
pub open spec fn crosses(faces: Seq<FaceSpan>, face: usize, level: u64) -> bool {
    f64_at_most(faces[face as int].z_min, level) && f64_less(level, faces[face as int].z_max)
}

/// Every height is a number, and the levels rise.
pub open spec fn proper(faces: Seq<FaceSpan>, levels: Seq<u64>) -> bool {
    &&& forall|f: int| 0 <= f < faces.len() ==> !f64_nan((#[trigger] faces[f]).z_min) && !f64_nan(faces[f].z_max)
    &&& forall|l: int| 0 <= l < levels.len() ==> !f64_nan(#[trigger] levels[l])
    &&& forall|k: int, l: int| 0 <= k <= l < levels.len() ==> f64_key(#[trigger] levels[k]) <= f64_key(#[trigger] levels[l])
}

proof fn lemma_filter_filter<T>(s: Seq<T>, p: spec_fn(T) -> bool, q: spec_fn(T) -> bool)
    requires
        forall|x: T| s.contains(x) && q(x) ==> p(x),
    ensures
        s.filter(p).filter(q) == s.filter(q),
    decreases s.len(),
{
    reveal(Seq::filter);
    if s.len() > 0 {
        let front = s.drop_last();
        assert forall|x: T| front.contains(x) && q(x) implies p(x) by {
            let i = choose|i: int| 0 <= i < front.len() && front[i] == x;
            assert(s[i] == x);
            assert(s.contains(x));
        }
        lemma_filter_filter(front, p, q);
        assert(s[s.len() - 1] == s.last());
        assert(s.contains(s.last()));
        let kept = front.filter(p);
        if p(s.last()) {
            assert(kept.push(s.last()).drop_last() =~= kept);
        }
    }
}

/// Where every height is a number and the levels rise, the faces at hand at a
/// level are exactly those that it lies across.
pub proof fn law_sweep_finds_crossings(faces: Seq<FaceSpan>, levels: Seq<u64>, l: int)
    requires
        proper(faces, levels),
        faces.len() <= usize::MAX,
        1 <= l <= levels.len(),
    ensures
        ({
            let order = face_order(faces, faces.len() as int);
            at_hand(faces, order, levels, l) == order.filter(|f: usize| crosses(faces, f, levels[l - 1]))
        }),
{
    let order = face_order(faces, faces.len() as int);
    lemma_face_order(faces, faces.len() as int);
    lemma_sweep(faces, order, levels, l);
    let level = levels[l - 1];
    let a = admitted_by(faces, order, levels, l);
    lemma_admitted_by(faces, order, levels, l);
    lemma_admitted_prefix(faces, order, levels, l);
    let p = unpassed(faces, level);
    let c = |f: usize| crosses(faces, f, level);
    assert(order =~= order.take(a) + order.skip(a));
    Seq::filter_distributes_over_add(order.take(a), order.skip(a), c);
    lemma_filter_same(order.take(a), p, c);
    lemma_filter_none(order.skip(a), c);
    assert(order.filter(c) =~= order.take(a).filter(p));
}

proof fn lemma_filter_same<T>(s: Seq<T>, p: spec_fn(T) -> bool, q: spec_fn(T) -> bool)
    requires
        forall|i: int| 0 <= i < s.len() ==> p(#[trigger] s[i]) == q(s[i]),
    ensures
        s.filter(p) == s.filter(q),
    decreases s.len(),
{
    reveal(Seq::filter);
    if s.len() > 0 {
        lemma_filter_same(s.drop_last(), p, q);
        assert(p(s[s.len() - 1]) == q(s[s.len() - 1]));
    }
}

proof fn lemma_filter_none<T>(s: Seq<T>, q: spec_fn(T) -> bool)
    requires
        forall|i: int| 0 <= i < s.len() ==> !q(#[trigger] s[i]),
    ensures
        s.filter(q) == Seq::<T>::empty(),
    decreases s.len(),
{
    reveal(Seq::filter);
    if s.len() > 0 {
        lemma_filter_none(s.drop_last(), q);
        assert(!q(s[s.len() - 1]));
    }
}

/// The admitted faces begin at or below the level, the others above it.
proof fn lemma_admitted_prefix(faces: Seq<FaceSpan>, order: Seq<usize>, levels: Seq<u64>, l: int)
    requires
        proper(faces, levels),
        1 <= l <= levels.len(),
        begins_in_order(faces, order),
        forall|i: int| 0 <= i < order.len() ==> (#[trigger] order[i]) < faces.len(),
    ensures
        ({
            let a = admitted_by(faces, order, levels, l);
            &&& forall|i: int| 0 <= i < a ==> f64_at_most(faces[(#[trigger] order[i]) as int].z_min, levels[l - 1])
            &&& forall|i: int| a <= i < order.len() ==> !f64_at_most(faces[(#[trigger] order[i]) as int].z_min, levels[l - 1])
        }),
    decreases l,
{
    let a = admitted_by(faces, order, levels, l);
    let b = admitted_by(faces, order, levels, l - 1);
    let level = levels[l - 1];
    lemma_admitted_by(faces, order, levels, l - 1);
    lemma_admitted(faces, order, b, level);
    if l > 1 {
        lemma_admitted_prefix(faces, order, levels, l - 1);
    }
    assert forall|i: int| 0 <= i < a implies f64_at_most(faces[(#[trigger] order[i]) as int].z_min, level) by {
        if i < b {
            assert(f64_at_most(faces[order[i] as int].z_min, levels[l - 2]));
            assert(f64_key(levels[l - 2]) <= f64_key(levels[l - 1]));
        }
    }
    assert forall|i: int| a <= i < order.len() implies !f64_at_most(faces[(#[trigger] order[i]) as int].z_min, level) by {
        if i > a {
            let low = faces[order[a] as int].z_min;
            let high = faces[order[i] as int].z_min;
            assert(f64_total(low) <= f64_total(high));
            assert(!f64_nan(low) && !f64_nan(high));
        }
    }
}

/// The faces at hand are the admitted ones that the level has not passed.
proof fn lemma_sweep(faces: Seq<FaceSpan>, order: Seq<usize>, levels: Seq<u64>, l: int)
    requires
        proper(faces, levels),
        1 <= l <= levels.len(),
        forall|i: int| 0 <= i < order.len() ==> (#[trigger] order[i]) < faces.len(),
    ensures
        at_hand(faces, order, levels, l) == order.take(admitted_by(faces, order, levels, l)).filter(unpassed(faces, levels[l - 1])),
    decreases l,
{
    let from = admitted_by(faces, order, levels, l - 1);
    let to = admitted_by(faces, order, levels, l);
    let level = levels[l - 1];
    let q = unpassed(faces, level);
    lemma_admitted_by(faces, order, levels, l - 1);
    lemma_admitted(faces, order, from, level);
    let head = order.take(from);
    let tail = order.subrange(from, to);
    assert(order.take(to) =~= head + tail);
    Seq::filter_distributes_over_add(head, tail, q);
    assert(at_hand(faces, order, levels, l) == (at_hand(faces, order, levels, l - 1) + tail).filter(q));
    if l > 1 {
        lemma_sweep(faces, order, levels, l - 1);
        let p = unpassed(faces, levels[l - 2]);
        assert(f64_key(levels[l - 2]) <= f64_key(levels[l - 1]));
        assert forall|f: usize| head.contains(f) && q(f) implies p(f) by {
            let i = choose|i: int| 0 <= i < head.len() && head[i] == f;
            assert(order[i] == f);
        }
        lemma_filter_filter(head, p, q);
        Seq::filter_distributes_over_add(head.filter(p), tail, q);
    } else {
        assert(at_hand(faces, order, levels, 0) == Seq::<usize>::empty());
        assert(head =~= Seq::<usize>::empty());
        assert(at_hand(faces, order, levels, l - 1) + tail =~= tail);
        reveal(Seq::filter);
        assert(head.filter(q) =~= Seq::<usize>::empty());
        assert(head.filter(q) + tail.filter(q) =~= tail.filter(q));
    }
}

/// The edge between two heights is crossed by the level.
pub open spec fn edge_crossed(a: u64, b: u64, level: u64) -> bool {
    (f64_at_most(a, level) && f64_less(level, b)) || (f64_at_most(b, level) && f64_less(level, a))
}

/// The two edges of a face that the level crosses, by their first corners;
/// none unless it crosses exactly two.
pub open spec fn crossed_edges(z0: u64, z1: u64, z2: u64, level: u64) -> Option<(u8, u8)> {
    match (edge_crossed(z0, z1, level), edge_crossed(z1, z2, level), edge_crossed(z2, z0, level)) {
        (true, true, false) => Some((0u8, 1u8)),
        (true, false, true) => Some((0u8, 2u8)),
        (false, true, true) => Some((1u8, 2u8)),
        _ => None,
    }
}

/// Where every height is a number, a level crosses a face in a segment exactly
/// where it is at or above one corner and below another.
pub proof fn law_crossing_is_a_segment(z0: u64, z1: u64, z2: u64, level: u64)
    requires
        !f64_nan(z0),
        !f64_nan(z1),
        !f64_nan(z2),
        !f64_nan(level),
    ensures
        crossed_edges(z0, z1, z2, level) is Some <==> {
            &&& f64_at_most(z0, level) || f64_at_most(z1, level) || f64_at_most(z2, level)
            &&& f64_less(level, z0) || f64_less(level, z1) || f64_less(level, z2)
        },
{
}

fn is_edge_crossed(a: u64, b: u64, level: u64) -> (r: bool)
    ensures
        r == edge_crossed(a, b, level),
{
    (at_most(a, level) && less64(level, b)) || (at_most(b, level) && less64(level, a))
}

/// The two edges of a face between which the level cuts it.
pub fn triangle_contour_edges(z0: u64, z1: u64, z2: u64, level: u64) -> (r: Option<(u8, u8)>)
    ensures
        r == crossed_edges(z0, z1, z2, level),
{
    let first = is_edge_crossed(z0, z1, level);
    let second = is_edge_crossed(z1, z2, level);
    let third = is_edge_crossed(z2, z0, level);
    if first && second && !third {
        Some((0, 1))
    } else if first && !second && third {
        Some((0, 2))
    } else if !first && second && third {
        Some((1, 2))
    } else {
        None
    }
}

} // verus!
