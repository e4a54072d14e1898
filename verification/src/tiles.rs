//! Rectangles in a plane: taking them away from each other, and cutting them
//! into cells that meet edge to edge.
//!
//! Coordinates are the places of numbers in their order, so that comparing
//! them is comparing the numbers.

use crate::ieee::{f64_key, magnitude64, F64_SIGN};
use vstd::prelude::*;

verus! {

/// A rectangle: from its lower edges up to, and without, its upper ones.
#[derive(Clone, Copy, PartialEq, Eq, Structural, Debug)]
pub struct Rect {
    pub u_min: i64,
    pub u_max: i64,
    pub v_min: i64,
    pub v_max: i64,
}

/// The point lies in the rectangle.
pub open spec fn inside(r: Rect, x: int, y: int) -> bool {
    r.u_min <= x < r.u_max && r.v_min <= y < r.v_max
}

/// The point lies in one of the rectangles.
pub open spec fn in_any(s: Seq<Rect>, x: int, y: int) -> bool {
    exists|i: int| 0 <= i < s.len() && inside(#[trigger] s[i], x, y)
}

/// No point lies in two of the rectangles.
pub open spec fn disjoint(s: Seq<Rect>) -> bool {
    forall|i: int, j: int, x: int, y: int|
        0 <= i < j < s.len() ==> !(#[trigger] inside(s[i], x, y) && #[trigger] inside(s[j], x, y))
}

/// Two rectangles have more than an edge in common.
pub open spec fn overlapping(a: Rect, b: Rect) -> bool {
    a.u_min < b.u_max && b.u_min < a.u_max && a.v_min < b.v_max && b.v_min < a.v_max
}

/// Whether two rectangles have more than an edge in common.
pub fn rects_overlap(a: Rect, b: Rect) -> (r: bool)
    ensures
        r == overlapping(a, b),
{
    a.u_min < b.u_max && b.u_min < a.u_max && a.v_min < b.v_max && b.v_min < a.v_max
}

/// Two rectangles with a common point overlap.
pub proof fn lemma_common_point(a: Rect, b: Rect, x: int, y: int)
    requires
        inside(a, x, y),
        inside(b, x, y),
    ensures
        overlapping(a, b),
{
}

/// What two rectangles have in common.
pub open spec fn common(a: Rect, b: Rect) -> Rect {
    Rect {
        u_min: if a.u_min > b.u_min {
            a.u_min
        } else {
            b.u_min
        },
        u_max: if a.u_max < b.u_max {
            a.u_max
        } else {
            b.u_max
        },
        v_min: if a.v_min > b.v_min {
            a.v_min
        } else {
            b.v_min
        },
        v_max: if a.v_max < b.v_max {
            a.v_max
        } else {
            b.v_max
        },
    }
}

/// What two rectangles have in common.
pub fn intersect(a: Rect, b: Rect) -> (r: Rect)
    ensures
        r == common(a, b),
        forall|x: int, y: int| #[trigger] inside(r, x, y) <==> inside(a, x, y) && inside(b, x, y),
{
    Rect {
        u_min: if a.u_min > b.u_min {
            a.u_min
        } else {
            b.u_min
        },
        u_max: if a.u_max < b.u_max {
            a.u_max
        } else {
            b.u_max
        },
        v_min: if a.v_min > b.v_min {
            a.v_min
        } else {
            b.v_min
        },
        v_max: if a.v_max < b.v_max {
            a.v_max
        } else {
            b.v_max
        },
    }
}

/// The rectangle holds a point.
pub open spec fn nonempty(r: Rect) -> bool {
    r.u_min < r.u_max && r.v_min < r.v_max
}

/// The rectangle, where it holds a point.
pub open spec fn if_nonempty(r: Rect) -> Seq<Rect> {
    if nonempty(r) {
        seq![r]
    } else {
        Seq::empty()
    }
}

/// What is left of a rectangle once another was taken away from it: what lies
/// to the left and to the right of the cut, then what lies below and above it.
pub open spec fn rest_of(tile: Rect, cover: Rect) -> Seq<Rect> {
    let cut = common(tile, cover);
    if !nonempty(cut) {
        seq![tile]
    } else {
        if_nonempty(Rect { u_min: tile.u_min, u_max: cut.u_min, v_min: tile.v_min, v_max: tile.v_max }) + if_nonempty(
            Rect { u_min: cut.u_max, u_max: tile.u_max, v_min: tile.v_min, v_max: tile.v_max },
        ) + if_nonempty(Rect { u_min: cut.u_min, u_max: cut.u_max, v_min: tile.v_min, v_max: cut.v_min }) + if_nonempty(
            Rect { u_min: cut.u_min, u_max: cut.u_max, v_min: cut.v_max, v_max: tile.v_max },
        )
    }
}

/// What is left of a rectangle once another was taken away from it.
pub open spec fn is_rest(tile: Rect, cover: Rect, rest: Seq<Rect>) -> bool {
    &&& forall|x: int, y: int| #[trigger] in_any(rest, x, y) <==> inside(tile, x, y) && !inside(cover, x, y)
    &&& disjoint(rest)
}

/// Takes one rectangle away from another: what is left is up to four.
pub fn subtract_covered_rect(tile: Rect, cover: Rect) -> (r: Vec<Rect>)
    ensures
        r@ == rest_of(tile, cover),
        is_rest(tile, cover, r@),
        r@.len() <= 4,
        nonempty(tile) ==> forall|i: int| 0 <= i < r@.len() ==> nonempty(#[trigger] r@[i]),
        nonempty(tile) && !overlapping(tile, cover) ==> r@ == seq![tile],
{
    let cut = intersect(tile, cover);
    let mut rest: Vec<Rect> = Vec::new();
    if cut.u_min >= cut.u_max || cut.v_min >= cut.v_max {
        rest.push(tile);
        assert(rest@ =~= seq![tile]);
        assert forall|x: int, y: int| #[trigger] in_any(rest@, x, y) <==> inside(tile, x, y) && !inside(cover, x, y) by {
            assert(!inside(cut, x, y));
            if inside(tile, x, y) {
                assert(inside(rest@[0], x, y));
            }
        }
        return rest;
    }
    let left = Rect { u_min: tile.u_min, u_max: cut.u_min, v_min: tile.v_min, v_max: tile.v_max };
    let right = Rect { u_min: cut.u_max, u_max: tile.u_max, v_min: tile.v_min, v_max: tile.v_max };
    let low = Rect { u_min: cut.u_min, u_max: cut.u_max, v_min: tile.v_min, v_max: cut.v_min };
    let high = Rect { u_min: cut.u_min, u_max: cut.u_max, v_min: cut.v_max, v_max: tile.v_max };
    if tile.u_min < cut.u_min {
        rest.push(left);
    }
    if cut.u_max < tile.u_max {
        rest.push(right);
    }
    if tile.v_min < cut.v_min {
        rest.push(low);
    }
    if cut.v_max < tile.v_max {
        rest.push(high);
    }
    proof {
        let a = tile.u_min < cut.u_min;
        let b = cut.u_max < tile.u_max;
        let c = tile.v_min < cut.v_min;
        let n_a = if a {
            1int
        } else {
            0
        };
        let n_b = if b {
            n_a + 1
        } else {
            n_a
        };
        let n_c = if c {
            n_b + 1
        } else {
            n_b
        };
        assert(forall|i: int| 0 <= i < rest@.len() ==> (#[trigger] rest@[i]) == left || rest@[i] == right || rest@[i] == low || rest@[i] == high);
        assert forall|x: int, y: int| #[trigger] in_any(rest@, x, y) <==> inside(tile, x, y) && !inside(cover, x, y) by {
            assert(inside(cut, x, y) <==> inside(tile, x, y) && inside(cover, x, y));
            if in_any(rest@, x, y) {
                let i = choose|i: int| 0 <= i < rest@.len() && inside(#[trigger] rest@[i], x, y);
                assert(inside(rest@[i], x, y));
            }
            if inside(tile, x, y) && !inside(cover, x, y) {
                if x < cut.u_min {
                    assert(inside(rest@[0], x, y));
                } else if x >= cut.u_max {
                    assert(inside(rest@[n_a], x, y));
                } else if y < cut.v_min {
                    assert(inside(rest@[n_b], x, y));
                } else {
                    assert(inside(rest@[n_c], x, y));
                }
            }
        }
        assert(disjoint(rest@));
        assert(rest@ =~= rest_of(tile, cover));
    }
    rest
}

/// What is left of each of these rectangles once another was taken away.
pub open spec fn all_rest(tiles: Seq<Rect>, cover: Rect) -> Seq<Rect>
    decreases tiles.len(),
{
    if tiles.len() == 0 {
        Seq::empty()
    } else {
        all_rest(tiles.drop_last(), cover) + rest_of(tiles.last(), cover)
    }
}

/// What is left of a face once the covers were taken away, one after the other.
pub open spec fn left_over(face: Rect, covered: Seq<Rect>) -> Seq<Rect>
    decreases covered.len(),
{
    if covered.len() == 0 {
        seq![face]
    } else {
        all_rest(left_over(face, covered.drop_last()), covered.last())
    }
}

/// Where nothing is left, nothing is left after more covers.
proof fn lemma_nothing_left(face: Rect, covered: Seq<Rect>, n: int)
    requires
        0 <= n <= covered.len(),
        left_over(face, covered.take(n)).len() == 0,
    ensures
        left_over(face, covered).len() == 0,
    decreases covered.len() - n,
{
    if n < covered.len() {
        assert(covered.take(n + 1).drop_last() =~= covered.take(n));
        assert(left_over(face, covered.take(n)) =~= Seq::<Rect>::empty());
        lemma_nothing_left(face, covered, n + 1);
    } else {
        assert(covered.take(n) =~= covered);
    }
}

/// What is left of a face once all covers were taken away from it.
pub open spec fn is_uncovered(face: Rect, covered: Seq<Rect>, rest: Seq<Rect>) -> bool {
    forall|x: int, y: int| #[trigger] in_any(rest, x, y) <==> inside(face, x, y) && !in_any(covered, x, y)
}

fn subtract_from_all(tiles: &Vec<Rect>, cover: Rect) -> (r: Vec<Rect>)
    ensures
        r@ == all_rest(tiles@, cover),
        forall|x: int, y: int| #[trigger] in_any(r@, x, y) <==> in_any(tiles@, x, y) && !inside(cover, x, y),
{
    let mut out: Vec<Rect> = Vec::new();
    let mut i: usize = 0;
    assert(tiles@.take(0) =~= Seq::<Rect>::empty());
    while i < tiles.len()
        invariant
            i <= tiles.len(),
            out@ == all_rest(tiles@.take(i as int), cover),
            forall|x: int, y: int| #[trigger] in_any(out@, x, y) <==> in_any(tiles@.take(i as int), x, y) && !inside(cover, x, y),
        decreases tiles.len() - i,
    {
        let ghost before = out@;
        let mut rest = subtract_covered_rect(tiles[i], cover);
        let ghost piece = rest@;
        out.append(&mut rest);
        proof {
            assert(out@ =~= before + piece);
            assert(tiles@.take(i + 1).drop_last() =~= tiles@.take(i as int));
            assert forall|x: int, y: int| #[trigger] in_any(out@, x, y) <==> in_any(tiles@.take(i + 1), x, y) && !inside(cover, x, y) by {
                lemma_in_concat(before, piece, x, y);
                assert(tiles@.take(i + 1) =~= tiles@.take(i as int).push(tiles@[i as int]));
                lemma_in_push(tiles@.take(i as int), tiles@[i as int], x, y);
                assert(in_any(before, x, y) <==> in_any(tiles@.take(i as int), x, y) && !inside(cover, x, y));
                assert(in_any(piece, x, y) <==> inside(tiles@[i as int], x, y) && !inside(cover, x, y));
            }
        }
        i += 1;
    }
    assert(tiles@.take(tiles@.len() as int) =~= tiles@);
    out
}

/// A point in two lists put together is in one of them.
pub proof fn lemma_in_concat(a: Seq<Rect>, b: Seq<Rect>, x: int, y: int)
    ensures
        in_any(a + b, x, y) <==> in_any(a, x, y) || in_any(b, x, y),
{
    let s = a + b;
    if in_any(a, x, y) {
        let i = choose|i: int| 0 <= i < a.len() && inside(#[trigger] a[i], x, y);
        assert(s[i] == a[i]);
    }
    if in_any(b, x, y) {
        let i = choose|i: int| 0 <= i < b.len() && inside(#[trigger] b[i], x, y);
        assert(s[a.len() + i] == b[i]);
    }
    if in_any(s, x, y) {
        let i = choose|i: int| 0 <= i < s.len() && inside(#[trigger] s[i], x, y);
        if i < a.len() {
            assert(inside(a[i], x, y));
        } else {
            assert(inside(b[i - a.len()], x, y));
        }
    }
}

/// A point in a list with one more rectangle is in the list or in that one.
pub proof fn lemma_in_push(a: Seq<Rect>, r: Rect, x: int, y: int)
    ensures
        in_any(a.push(r), x, y) <==> in_any(a, x, y) || inside(r, x, y),
{
    let s = a.push(r);
    if in_any(a, x, y) {
        let i = choose|i: int| 0 <= i < a.len() && inside(#[trigger] a[i], x, y);
        assert(s[i] == a[i]);
    }
    if inside(r, x, y) {
        assert(s[a.len() as int] == r);
    }
    if in_any(s, x, y) {
        let i = choose|i: int| 0 <= i < s.len() && inside(#[trigger] s[i], x, y);
        if i < a.len() {
            assert(inside(a[i], x, y));
        }
    }
}

/// What is left of a face once all covers were taken away from it.
pub fn uncovered_face_rects(face: Rect, covered: &Vec<Rect>) -> (r: Vec<Rect>)
    ensures
        r@ == left_over(face, covered@),
        is_uncovered(face, covered@, r@),
{
    let mut left: Vec<Rect> = Vec::new();
    left.push(face);
    assert(covered@.take(0) =~= Seq::<Rect>::empty());
    assert(left@ =~= seq![face]);
    let mut i: usize = 0;
    assert forall|x: int, y: int| #[trigger] in_any(left@, x, y) <==> inside(face, x, y) && !in_any(covered@.take(0), x, y) by {
        if inside(face, x, y) {
            assert(inside(left@[0], x, y));
        }
    }
    while i < covered.len()
        invariant
            i <= covered.len(),
            left@ == left_over(face, covered@.take(i as int)),
            forall|x: int, y: int| #[trigger] in_any(left@, x, y) <==> inside(face, x, y) && !in_any(covered@.take(i as int), x, y),
        decreases covered.len() - i,
    {
        let ghost before = left@;
        left = subtract_from_all(&left, covered[i]);
        assert(covered@.take(i + 1).drop_last() =~= covered@.take(i as int));
        assert forall|x: int, y: int| #[trigger] in_any(left@, x, y) <==> inside(face, x, y) && !in_any(covered@.take(i + 1), x, y) by {
            assert(covered@.take(i + 1) =~= covered@.take(i as int).push(covered@[i as int]));
            lemma_in_push(covered@.take(i as int), covered@[i as int], x, y);
            assert(in_any(before, x, y) <==> inside(face, x, y) && !in_any(covered@.take(i as int), x, y));
        }
        i += 1;
        if left.len() == 0 {
            proof {
                lemma_nothing_left(face, covered@, i as int);
                assert(left@ =~= left_over(face, covered@));
                assert forall|x: int, y: int| #[trigger] in_any(left@, x, y) <==> inside(face, x, y) && !in_any(covered@, x, y) by {
                    if in_any(covered@.take(i as int), x, y) {
                        let k = choose|k: int| 0 <= k < covered@.take(i as int).len() && inside(#[trigger] covered@.take(i as int)[k], x, y);
                        assert(inside(covered@[k], x, y));
                    }
                }
            }
            return left;
        }
    }
    assert(covered@.take(covered@.len() as int) =~= covered@);
    left
}

/// The numbers rise from one to the next.
pub open spec fn rising(s: Seq<i64>) -> bool {
    forall|i: int, j: int| 0 <= i < j < s.len() ==> #[trigger] s[i] < #[trigger] s[j]
}

/// Where a number stands in a rising list, or would stand.
fn place_of(s: &Vec<i64>, x: i64) -> (r: usize)
    requires
        rising(s@),
    ensures
        r <= s@.len(),
        forall|i: int| 0 <= i < r ==> #[trigger] s@[i] < x,
        forall|i: int| r <= i < s@.len() ==> x <= #[trigger] s@[i],
{
    let mut low: usize = 0;
    let mut high: usize = s.len();
    while low < high
        invariant
            low <= high <= s.len(),
            rising(s@),
            forall|i: int| 0 <= i < low ==> #[trigger] s@[i] < x,
            forall|i: int| high <= i < s@.len() ==> x <= #[trigger] s@[i],
        decreases high - low,
    {
        let mid: usize = low + (high - low) / 2;
        if s[mid] < x {
            assert forall|i: int| 0 <= i < mid + 1 implies #[trigger] s@[i] < x by {
                if i < mid {
                    assert(s@[i] < s@[mid as int]);
                }
            }
            low = mid + 1;
        } else {
            assert forall|i: int| mid <= i < s@.len() implies x <= #[trigger] s@[i] by {
                if i > mid {
                    assert(s@[mid as int] < s@[i]);
                }
            }
            high = mid;
        }
    }
    low
}

/// Puts a number into a rising list, unless it is there.
fn put_in(s: &mut Vec<i64>, x: i64)
    requires
        rising(old(s)@),
    ensures
        rising(final(s)@),
        forall|y: i64| #[trigger] final(s)@.contains(y) <==> old(s)@.contains(y) || y == x,
{
    let ghost before = s@;
    let at: usize = place_of(s, x);
    if at < s.len() && s[at] == x {
        assert(before[at as int] == x);
        return ;
    }
    s.insert(at, x);
    proof {
        let r = s@;
        assert(r == before.insert(at as int, x));
        assert forall|i: int, j: int| 0 <= i < j < r.len() implies #[trigger] r[i] < #[trigger] r[j] by {
            if i == at {
                assert(before[j - 1] >= x);
                if j - 1 == at {
                    assert(before[at as int] != x);
                } else {
                    assert(before[at as int] < before[j - 1]);
                }
            } else if j == at {
                assert(before[i] < x);
            } else {
                let a = if i < at {
                    i
                } else {
                    i - 1
                };
                let b = if j < at {
                    j
                } else {
                    j - 1
                };
                assert(r[i] == before[a] && r[j] == before[b]);
            }
        }
        assert forall|y: i64| #[trigger] r.contains(y) <==> before.contains(y) || y == x by {
            if r.contains(y) {
                let i = choose|i: int| 0 <= i < r.len() && r[i] == y;
                if i < at {
                    assert(before[i] == y);
                } else if i > at {
                    assert(before[i - 1] == y);
                }
            }
            if before.contains(y) {
                let i = choose|i: int| 0 <= i < before.len() && before[i] == y;
                if i < at {
                    assert(r[i] == y);
                } else {
                    assert(r[i + 1] == y);
                }
            }
            if y == x {
                assert(r[at as int] == x);
            }
        }
    }
}

/// All edges of the rectangles are among the cuts.
pub open spec fn edges_cut(rects: Seq<Rect>, u: Seq<i64>, v: Seq<i64>) -> bool {
    forall|i: int|
        0 <= i < rects.len() ==> u.contains((#[trigger] rects[i]).u_min) && u.contains(rects[i].u_max) && v.contains(rects[i].v_min) && v.contains(rects[i].v_max)
}

/// A rectangle begins or ends there, across.
pub open spec fn is_u_edge(rects: Seq<Rect>, x: i64) -> bool {
    exists|i: int| 0 <= i < rects.len() && ((#[trigger] rects[i]).u_min == x || rects[i].u_max == x)
}

/// A rectangle begins or ends there, upwards.
pub open spec fn is_v_edge(rects: Seq<Rect>, y: i64) -> bool {
    exists|i: int| 0 <= i < rects.len() && ((#[trigger] rects[i]).v_min == y || rects[i].v_max == y)
}

/// Every cut is at an edge.
#[verifier::opaque]
pub open spec fn cuts_at_edges(rects: Seq<Rect>, u: Seq<i64>, v: Seq<i64>) -> bool {
    &&& forall|x: i64| #[trigger] u.contains(x) ==> is_u_edge(rects, x)
    &&& forall|y: i64| #[trigger] v.contains(y) ==> is_v_edge(rects, y)
}

fn find_cuts(rects: &Vec<Rect>) -> (r: (Vec<i64>, Vec<i64>))
    ensures
        cuts_at_edges(rects@, r.0@, r.1@),
        rising(r.0@),
        rising(r.1@),
        edges_cut(rects@, r.0@, r.1@),
{
    let mut u: Vec<i64> = Vec::new();
    let mut v: Vec<i64> = Vec::new();
    let mut i: usize = 0;
    assert(cuts_at_edges(rects@, u@, v@)) by {
        reveal(cuts_at_edges);
    }
    while i < rects.len()
        invariant
            i <= rects.len(),
            rising(u@),
            rising(v@),
            edges_cut(rects@.take(i as int), u@, v@),
            cuts_at_edges(rects@, u@, v@),
        decreases rects.len() - i,
    {
        let r = rects[i];
        let ghost (u0, v0) = (u@, v@);
        put_in(&mut u, r.u_min);
        put_in(&mut u, r.u_max);
        put_in(&mut v, r.v_min);
        put_in(&mut v, r.v_max);
        assert(cuts_at_edges(rects@, u@, v@)) by {
            reveal(cuts_at_edges);
            assert(rects@[i as int] == r);
            assert(is_u_edge(rects@, r.u_min) && is_u_edge(rects@, r.u_max) && is_v_edge(rects@, r.v_min) && is_v_edge(rects@, r.v_max));
        }
        assert(edges_cut(rects@.take(i + 1), u@, v@)) by {
            assert forall|k: int| 0 <= k < rects@.take(i + 1).len() implies u@.contains((#[trigger] rects@.take(i + 1)[k]).u_min) && u@.contains(
                rects@.take(i + 1)[k].u_max,
            ) && v@.contains(rects@.take(i + 1)[k].v_min) && v@.contains(rects@.take(i + 1)[k].v_max) by {
                if k < i {
                    assert(rects@.take(i as int)[k] == rects@[k]);
                    assert(u0.contains(rects@[k].u_min) && u0.contains(rects@[k].u_max) && v0.contains(rects@[k].v_min) && v0.contains(rects@[k].v_max));
                }
            }
        }
        i += 1;
    }
    assert(rects@.take(rects@.len() as int) =~= rects@);
    (u, v)
}

/// The cell between two neighbouring cuts each way.
pub open spec fn cell(u: Seq<i64>, v: Seq<i64>, a: int, b: int) -> Rect {
    Rect { u_min: u[a], u_max: u[a + 1], v_min: v[b], v_max: v[b + 1] }
}

/// A rectangle whose edges are cuts holds a cell wholly or not at all.
proof fn lemma_cell_whole(r: Rect, u: Seq<i64>, v: Seq<i64>, a: int, b: int, x: int, y: int)
    requires
        rising(u),
        rising(v),
        u.contains(r.u_min),
        u.contains(r.u_max),
        v.contains(r.v_min),
        v.contains(r.v_max),
        0 <= a < u.len() - 1,
        0 <= b < v.len() - 1,
        inside(cell(u, v, a, b), x, y),
    ensures
        inside(r, x, y) <==> r.u_min <= u[a] && u[a + 1] <= r.u_max && r.v_min <= v[b] && v[b + 1] <= r.v_max,
{
    lemma_cut_whole(u, r.u_min, a);
    lemma_cut_whole(u, r.u_max, a);
    lemma_cut_whole(v, r.v_min, b);
    lemma_cut_whole(v, r.v_max, b);
}

/// A cut lies at or before one neighbour, or at or behind the next.
proof fn lemma_cut_whole(s: Seq<i64>, c: i64, a: int)
    requires
        rising(s),
        s.contains(c),
        0 <= a < s.len() - 1,
    ensures
        c <= s[a] || s[a + 1] <= c,
{
    let k = choose|k: int| 0 <= k < s.len() && s[k] == c;
    if k < a {
        assert(s[k] < s[a]);
    } else if k > a + 1 {
        assert(s[a + 1] < s[k]);
    }
}

/// Marks the cells of one strip that lie in a rectangle.
fn mark(marks: &mut Vec<bool>, v: &Vec<i64>, r: Rect)
    requires
        rising(v@),
        old(marks)@.len() + 1 == v@.len(),
        v@.contains(r.v_min),
        v@.contains(r.v_max),
    ensures
        final(marks)@.len() == old(marks)@.len(),
        forall|b: int|
            0 <= b < old(marks)@.len() ==> #[trigger] final(marks)@[b] == (old(marks)@[b] || (r.v_min <= v@[b] && v@[b + 1] <= r.v_max)),
{
    let start: usize = place_of(v, r.v_min);
    let end: usize = place_of(v, r.v_max);
    let ghost before = marks@;
    let mut b: usize = start;
    while b < end
        invariant
            start <= b,
            b <= end || b == start,
            end <= v@.len(),
            end < v@.len() || end == v@.len(),
            v@.contains(r.v_max),
            forall|i: int| 0 <= i < end ==> #[trigger] v@[i] < r.v_max,
            before.len() + 1 == v@.len(),
            marks@.len() == before.len(),
            forall|k: int| 0 <= k < before.len() ==> #[trigger] marks@[k] == (before[k] || (start <= k < b)),
        decreases end - b,
    {
        proof {
            let m = choose|m: int| 0 <= m < v@.len() && v@[m] == r.v_max;
            assert(m >= end);
        }
        marks.set(b, true);
        b += 1;
    }
    proof {
        let m = choose|m: int| 0 <= m < v@.len() && v@[m] == r.v_max;
        assert(m >= end);
        assert forall|k: int| 0 <= k < before.len() implies #[trigger] marks@[k] == (before[k] || (r.v_min <= v@[k] && v@[k + 1] <= r.v_max)) by {
            if start <= k < end {
                if k + 1 < end {
                    assert(v@[k + 1] < r.v_max);
                } else {
                    assert(v@[end as int] >= r.v_max);
                    if m > end {
                        assert(v@[end as int] < v@[m]);
                    }
                }
            } else if k < start {
                assert(v@[k] < r.v_min);
            } else {
                if k >= end {
                    assert(v@[k] >= r.v_max);
                    assert(v@[k] < v@[k + 1]);
                }
            }
        }
    }
}

/// The strip between two cuts lies in a rectangle.
pub open spec fn strip_in(r: Rect, u: Seq<i64>, a: int) -> bool {
    r.u_min <= u[a] && u[a + 1] <= r.u_max
}

/// The cell lies in one of the first `n` rectangles.
pub open spec fn cell_in(rects: Seq<Rect>, n: int, u: Seq<i64>, v: Seq<i64>, a: int, b: int) -> bool {
    exists|i: int| 0 <= i < n && strip_in(#[trigger] rects[i], u, a) && rects[i].v_min <= v[b] && v[b + 1] <= rects[i].v_max
}

/// The marks of one strip.
fn mark_strip(rects: &Vec<Rect>, u: &Vec<i64>, v: &Vec<i64>, a: usize) -> (r: Vec<bool>)
    requires
        rising(u@),
        rising(v@),
        edges_cut(rects@, u@, v@),
        a + 1 < u@.len(),
        v@.len() > 0,
    ensures
        r@.len() + 1 == v@.len(),
        forall|b: int| 0 <= b < r@.len() ==> #[trigger] r@[b] == cell_in(rects@, rects@.len() as int, u@, v@, a as int, b),
{
    let mut marks: Vec<bool> = Vec::new();
    let mut k: usize = 1;
    while k < v.len()
        invariant
            1 <= k <= v@.len(),
            marks@.len() == k - 1,
            forall|b: int| 0 <= b < marks@.len() ==> !(#[trigger] marks@[b]),
        decreases v.len() - k,
    {
        marks.push(false);
        k += 1;
    }
    let mut i: usize = 0;
    let n: usize = u.len();
    while i < rects.len()
        invariant
            i <= rects.len(),
            rising(v@),
            edges_cut(rects@, u@, v@),
            n == u@.len(),
            a + 1 < n,
            marks@.len() + 1 == v@.len(),
            forall|b: int| 0 <= b < marks@.len() ==> #[trigger] marks@[b] == cell_in(rects@, i as int, u@, v@, a as int, b),
        decreases rects.len() - i,
    {
        let r = rects[i];
        let ghost before = marks@;
        assert(u@.contains(rects@[i as int].u_min));
        let covers = r.u_min <= u[a] && u[a + 1] <= r.u_max;
        if covers {
            mark(&mut marks, v, r);
        }
        assert forall|b: int| 0 <= b < marks@.len() implies #[trigger] marks@[b] == cell_in(rects@, i + 1, u@, v@, a as int, b) by {
            assert(before[b] == cell_in(rects@, i as int, u@, v@, a as int, b));
            if cell_in(rects@, i as int, u@, v@, a as int, b) {
                let k = choose|k: int|
                    0 <= k < i && strip_in(#[trigger] rects@[k], u@, a as int) && rects@[k].v_min <= v@[b] && v@[b + 1] <= rects@[k].v_max;
                assert(strip_in(rects@[k], u@, a as int));
            }
            if marks@[b] && !before[b] {
                assert(strip_in(rects@[i as int], u@, a as int));
            }
        }
        i += 1;
    }
    marks
}

/// The rectangles come one strip after the other, and in a strip one cell
/// after the other.
pub open spec fn in_grid_order(s: Seq<Rect>) -> bool {
    forall|i: int, j: int|
        0 <= i < j < s.len() ==> {
            let (p, q) = (#[trigger] s[i], #[trigger] s[j]);
            p.u_max <= q.u_min || (p.u_min == q.u_min && p.u_max == q.u_max && p.v_max <= q.v_min)
        }
}

/// Cells in the order of their grid have no point in common.
pub proof fn lemma_grid_disjoint(s: Seq<Rect>)
    requires
        in_grid_order(s),
    ensures
        disjoint(s),
{
    assert forall|i: int, j: int, x: int, y: int| 0 <= i < j < s.len() implies !(#[trigger] inside(s[i], x, y) && #[trigger] inside(s[j], x, y)) by {
    }
}

/// No edge of the rectangle cuts through the tile.
pub open spec fn not_through(q: Rect, t: Rect) -> bool {
    &&& !(t.u_min < q.u_min < t.u_max) && !(t.u_min < q.u_max < t.u_max)
    &&& !(t.v_min < q.v_min < t.v_max) && !(t.v_min < q.v_max < t.v_max)
}

/// A cell of the grid that the edges of rectangles make: it holds a point, its
/// edges are edges of rectangles, and none lies between them.
pub open spec fn grid_cell(rects: Seq<Rect>, t: Rect) -> bool {
    &&& nonempty(t)
    &&& is_u_edge(rects, t.u_min) && is_u_edge(rects, t.u_max) && is_v_edge(rects, t.v_min) && is_v_edge(rects, t.v_max)
    &&& forall|k: int| 0 <= k < rects.len() ==> not_through(#[trigger] rects[k], t)
}

/// A union of rectangles, cut into cells along all of their edges: the cells
/// that lie in it, each once, in the order of the grid. No corner of one lies
/// within the side of another.
pub open spec fn conforming(rects: Seq<Rect>, tiles: Seq<Rect>) -> bool {
    &&& forall|x: int, y: int| #[trigger] in_any(tiles, x, y) <==> in_any(rects, x, y)
    &&& in_grid_order(tiles)
    &&& forall|i: int| 0 <= i < tiles.len() ==> grid_cell(rects, #[trigger] tiles[i])
}

/// A cell between neighbouring cuts is a cell of the grid.
proof fn lemma_cell_of_grid(rects: Seq<Rect>, u: Seq<i64>, v: Seq<i64>, a: int, b: int)
    requires
        rising(u),
        rising(v),
        edges_cut(rects, u, v),
        cuts_at_edges(rects, u, v),
        0 <= a < u.len() - 1,
        0 <= b < v.len() - 1,
    ensures
        grid_cell(rects, cell(u, v, a, b)),
{
    reveal(cuts_at_edges);
    let t = cell(u, v, a, b);
    assert(u.contains(u[a]) && u.contains(u[a + 1]) && v.contains(v[b]) && v.contains(v[b + 1]));
    assert(u[a] < u[a + 1] && v[b] < v[b + 1]);
    assert forall|k: int| 0 <= k < rects.len() implies not_through(#[trigger] rects[k], t) by {
        lemma_cut_whole(u, rects[k].u_min, a);
        lemma_cut_whole(u, rects[k].u_max, a);
        lemma_cut_whole(v, rects[k].v_min, b);
        lemma_cut_whole(v, rects[k].v_max, b);
    }
}

/// A cell of one cutting is a cell of any other.
proof fn lemma_same_cell(rects: Seq<Rect>, a: Seq<Rect>, b: Seq<Rect>, i: int)
    requires
        conforming(rects, a),
        conforming(rects, b),
        0 <= i < a.len(),
    ensures
        b.contains(a[i]),
{
    let t = a[i];
    assert(grid_cell(rects, t));
    let (x, y) = (t.u_min as int, t.v_min as int);
    assert(inside(a[i], x, y));
    assert(in_any(a, x, y));
    assert(in_any(b, x, y));
    let k = choose|k: int| 0 <= k < b.len() && inside(#[trigger] b[k], x, y);
    let s = b[k];
    assert(grid_cell(rects, s));
    lemma_cells_meet(rects, t, s);
    assert(b[k] == t);
}

/// Two cells with the first corner of one in the other are one.
proof fn lemma_cells_meet(rects: Seq<Rect>, t: Rect, s: Rect)
    requires
        grid_cell(rects, t),
        grid_cell(rects, s),
        inside(s, t.u_min as int, t.v_min as int),
    ensures
        s == t,
{
    let i = choose|i: int| 0 <= i < rects.len() && ((#[trigger] rects[i]).u_min == t.u_min || rects[i].u_max == t.u_min);
    assert(not_through(rects[i], s));
    let j = choose|j: int| 0 <= j < rects.len() && ((#[trigger] rects[j]).v_min == t.v_min || rects[j].v_max == t.v_min);
    assert(not_through(rects[j], s));
    let i1 = choose|i: int| 0 <= i < rects.len() && ((#[trigger] rects[i]).u_min == t.u_max || rects[i].u_max == t.u_max);
    assert(not_through(rects[i1], s));
    let j1 = choose|j: int| 0 <= j < rects.len() && ((#[trigger] rects[j]).v_min == t.v_max || rects[j].v_max == t.v_max);
    assert(not_through(rects[j1], s));
    let i2 = choose|i: int| 0 <= i < rects.len() && ((#[trigger] rects[i]).u_min == s.u_max || rects[i].u_max == s.u_max);
    assert(not_through(rects[i2], t));
    let j2 = choose|j: int| 0 <= j < rects.len() && ((#[trigger] rects[j]).v_min == s.v_max || rects[j].v_max == s.v_max);
    assert(not_through(rects[j2], t));
}

/// One cell comes before another in the order of the grid.
pub open spec fn cell_before(p: Rect, q: Rect) -> bool {
    p.u_min < q.u_min || (p.u_min == q.u_min && p.v_min < q.v_min)
}

proof fn lemma_cells_ordered(rects: Seq<Rect>, s: Seq<Rect>, i: int, j: int)
    requires
        conforming(rects, s),
        0 <= i < j < s.len(),
    ensures
        cell_before(s[i], s[j]),
{
    assert(grid_cell(rects, s[i]) && grid_cell(rects, s[j]));
    let (p, q) = (s[i], s[j]);
    assert(p.u_max <= q.u_min || (p.u_min == q.u_min && p.u_max == q.u_max && p.v_max <= q.v_min));
}

/// Up to a place two cuttings are the same.
proof fn lemma_same_upto(rects: Seq<Rect>, a: Seq<Rect>, b: Seq<Rect>, n: int)
    requires
        conforming(rects, a),
        conforming(rects, b),
        0 <= n <= a.len(),
    ensures
        n <= b.len(),
        forall|i: int| 0 <= i < n ==> #[trigger] a[i] == b[i],
    decreases n,
{
    if n > 0 {
        let k = n - 1;
        lemma_same_upto(rects, a, b, k);
        lemma_same_cell(rects, a, b, k);
        let m = choose|m: int| 0 <= m < b.len() && b[m] == a[k];
        if m < k {
            assert(a[m] == b[m]);
            lemma_cells_ordered(rects, a, m, k);
        }
        assert(k < b.len());
        if m > k {
            lemma_same_cell(rects, b, a, k);
            let h = choose|h: int| 0 <= h < a.len() && a[h] == b[k];
            lemma_cells_ordered(rects, b, k, m);
            if h < k {
                assert(a[h] == b[h]);
                lemma_cells_ordered(rects, b, h, k);
            } else if h > k {
                lemma_cells_ordered(rects, a, k, h);
            }
        }
    }
}

/// There is one way to cut a union of rectangles into cells along all of their
/// edges: how many cells there are, which, and in what order is settled.
pub proof fn law_one_way_to_cut(rects: Seq<Rect>, a: Seq<Rect>, b: Seq<Rect>)
    requires
        conforming(rects, a),
        conforming(rects, b),
    ensures
        a == b,
{
    lemma_same_upto(rects, a, b, a.len() as int);
    lemma_same_upto(rects, b, a, b.len() as int);
    assert(a =~= b);
}

/// The corner lies within a side of the tile, away from its ends.
pub open spec fn within_side(x: i64, y: i64, t: Rect) -> bool {
    ||| (x == t.u_min || x == t.u_max) && t.v_min < y < t.v_max
    ||| (y == t.v_min || y == t.v_max) && t.u_min < x < t.u_max
}

/// Cells meet edge to edge: no corner of one lies within a side of another.
pub proof fn law_no_corner_within_a_side(rects: Seq<Rect>, tiles: Seq<Rect>, i: int, j: int)
    requires
        conforming(rects, tiles),
        0 <= i < tiles.len(),
        0 <= j < tiles.len(),
    ensures
        !within_side(tiles[i].u_min, tiles[i].v_min, tiles[j]),
        !within_side(tiles[i].u_min, tiles[i].v_max, tiles[j]),
        !within_side(tiles[i].u_max, tiles[i].v_min, tiles[j]),
        !within_side(tiles[i].u_max, tiles[i].v_max, tiles[j]),
{
    let (s, t) = (tiles[i], tiles[j]);
    assert(grid_cell(rects, s) && grid_cell(rects, t));
    let a = choose|k: int| 0 <= k < rects.len() && ((#[trigger] rects[k]).u_min == s.u_min || rects[k].u_max == s.u_min);
    let b = choose|k: int| 0 <= k < rects.len() && ((#[trigger] rects[k]).u_min == s.u_max || rects[k].u_max == s.u_max);
    let c = choose|k: int| 0 <= k < rects.len() && ((#[trigger] rects[k]).v_min == s.v_min || rects[k].v_max == s.v_min);
    let d = choose|k: int| 0 <= k < rects.len() && ((#[trigger] rects[k]).v_min == s.v_max || rects[k].v_max == s.v_max);
    assert(not_through(rects[a], t) && not_through(rects[b], t) && not_through(rects[c], t) && not_through(rects[d], t));
}

#[verifier::opaque]
spec fn all_cells(rects: Seq<Rect>, tiles: Seq<Rect>) -> bool {
    forall|i: int| 0 <= i < tiles.len() ==> grid_cell(rects, #[trigger] tiles[i])
}

proof fn lemma_cells_known(rects: Seq<Rect>, tiles: Seq<Rect>)
    requires
        all_cells(rects, tiles),
        in_grid_order(tiles),
        forall|x: int, y: int| #[trigger] in_any(tiles, x, y) <==> in_any(rects, x, y),
    ensures
        conforming(rects, tiles),
{
    reveal(all_cells);
}

proof fn lemma_one_more_cell(rects: Seq<Rect>, tiles: Seq<Rect>, u: Seq<i64>, v: Seq<i64>, a: int, b: int)
    requires
        all_cells(rects, tiles),
        rising(u),
        rising(v),
        edges_cut(rects, u, v),
        cuts_at_edges(rects, u, v),
        0 <= a < u.len() - 1,
        0 <= b < v.len() - 1,
    ensures
        all_cells(rects, tiles.push(cell(u, v, a, b))),
{
    reveal(all_cells);
    lemma_cell_of_grid(rects, u, v, a, b);
}

/// Cuts a union of rectangles into cells along all of their edges, so that the
/// cells meet edge to edge.
pub fn conforming_rect_tiles(rects: &Vec<Rect>) -> (r: Vec<Rect>)
    ensures
        conforming(rects@, r@),
        disjoint(r@),
{
    let (u, v) = find_cuts(rects);
    let mut tiles: Vec<Rect> = Vec::new();
    assert(all_cells(rects@, tiles@)) by {
        reveal(all_cells);
    }
    if u.len() == 0 || v.len() == 0 {
        proof {
            assert forall|x: int, y: int| #[trigger] in_any(tiles@, x, y) <==> in_any(rects@, x, y) by {
                if in_any(rects@, x, y) {
                    let i = choose|i: int| 0 <= i < rects@.len() && inside(#[trigger] rects@[i], x, y);
                    assert(u@.contains(rects@[i].u_min) && v@.contains(rects@[i].v_min));
                }
            }
        }
        return tiles;
    }
    let mut a: usize = 0;
    let n: usize = u.len();
    while a + 1 < n
        invariant
            n == u@.len(),
            a < u@.len(),
            v@.len() > 0,
            rising(u@),
            rising(v@),
            edges_cut(rects@, u@, v@),
            cuts_at_edges(rects@, u@, v@),
            in_grid_order(tiles@),
            all_cells(rects@, tiles@),
            forall|i: int| 0 <= i < tiles@.len() ==> (#[trigger] tiles@[i]).u_max <= u@[a as int],
            forall|x: int, y: int| #[trigger] in_any(tiles@, x, y) <==> in_any(rects@, x, y) && x < u@[a as int],
        decreases u.len() - a,
    {
        let marks = mark_strip(rects, &u, &v, a);
        let ghost before = tiles@;
        let mut b: usize = 0;
        proof {
            assert forall|x: int, y: int| #[trigger]
                in_any(tiles@, x, y) <==> in_any(rects@, x, y) && (x < u@[a as int] || (x < u@[a + 1] && y < v@[0])) by {
                if in_any(rects@, x, y) && y < v@[0] {
                    let i = choose|i: int| 0 <= i < rects@.len() && inside(#[trigger] rects@[i], x, y);
                    lemma_first_cut(v@, rects@[i].v_min);
                    assert(v@.contains(rects@[i].v_min));
                }
            }
        }
        while b < marks.len()
            invariant
                n == u@.len(),
                a + 1 < n,
                b <= marks@.len(),
                marks@.len() + 1 == v@.len(),
                rising(u@),
                rising(v@),
                edges_cut(rects@, u@, v@),
                cuts_at_edges(rects@, u@, v@),
                all_cells(rects@, tiles@),
                forall|k: int| 0 <= k < marks@.len() ==> #[trigger] marks@[k] == cell_in(rects@, rects@.len() as int, u@, v@, a as int, k),
                in_grid_order(tiles@),
                forall|i: int|
                    0 <= i < tiles@.len() ==> (#[trigger] tiles@[i]).u_max <= u@[a as int] || (tiles@[i].u_min == u@[a as int] && tiles@[i].u_max
                        == u@[a + 1] && tiles@[i].v_max <= v@[b as int]),
                forall|x: int, y: int| #[trigger]
                    in_any(tiles@, x, y) <==> in_any(rects@, x, y) && (x < u@[a as int] || (x < u@[a + 1] && y < v@[b as int])),
            decreases marks.len() - b,
        {
            let ghost sofar = tiles@;
            let one = Rect { u_min: u[a], u_max: u[a + 1], v_min: v[b], v_max: v[b + 1] };
            assert(v@[b as int] < v@[b + 1]);
            assert(u@[a as int] < u@[a + 1]);
            proof {
                lemma_one_more_cell(rects@, tiles@, u@, v@, a as int, b as int);
                assert(one == cell(u@, v@, a as int, b as int));
            }
            if marks[b] {
                tiles.push(one);
            }
            proof {
                assert forall|x: int, y: int| #[trigger]
                    in_any(tiles@, x, y) <==> in_any(rects@, x, y) && (x < u@[a as int] || (x < u@[a + 1] && y < v@[b + 1])) by {
                    if marks@[b as int] {
                        lemma_in_push(sofar, one, x, y);
                    }
                    assert(in_any(sofar, x, y) <==> in_any(rects@, x, y) && (x < u@[a as int] || (x < u@[a + 1] && y < v@[b as int])));
                    if inside(one, x, y) {
                        lemma_in_cell(rects@, u@, v@, a as int, b as int, x, y);
                    }
                    if in_any(rects@, x, y) && x < u@[a + 1] && x >= u@[a as int] && y < v@[b + 1] && y >= v@[b as int] {
                        assert(inside(one, x, y));
                    }
                }
                assert forall|i: int, j: int| 0 <= i < j < tiles@.len() implies ({
                    let (p, q) = (#[trigger] tiles@[i], #[trigger] tiles@[j]);
                    p.u_max <= q.u_min || (p.u_min == q.u_min && p.u_max == q.u_max && p.v_max <= q.v_min)
                }) by {
                    if j < sofar.len() {
                        assert(tiles@[i] == sofar[i] && tiles@[j] == sofar[j]);
                    } else {
                        assert(tiles@[i] == sofar[i]);
                    }
                }
                assert forall|i: int| 0 <= i < tiles@.len() implies (#[trigger] tiles@[i]).u_max <= u@[a as int] || (tiles@[i].u_min == u@[a as int]
                    && tiles@[i].u_max == u@[a + 1] && tiles@[i].v_max <= v@[b + 1]) by {
                    if i < sofar.len() {
                        assert(tiles@[i] == sofar[i]);
                    }
                }
            }
            b += 1;
        }
        proof {
            assert forall|x: int, y: int| #[trigger] in_any(tiles@, x, y) <==> in_any(rects@, x, y) && x < u@[a + 1] by {
                if in_any(rects@, x, y) {
                    let i = choose|i: int| 0 <= i < rects@.len() && inside(#[trigger] rects@[i], x, y);
                    assert(v@.contains(rects@[i].v_max));
                    lemma_last_cut(v@, rects@[i].v_max);
                }
            }
        }
        a += 1;
    }
    proof {
        assert forall|x: int, y: int| #[trigger] in_any(tiles@, x, y) <==> in_any(rects@, x, y) by {
            if in_any(rects@, x, y) {
                let i = choose|i: int| 0 <= i < rects@.len() && inside(#[trigger] rects@[i], x, y);
                assert(u@.contains(rects@[i].u_max));
                lemma_last_cut(u@, rects@[i].u_max);
            }
        }
        lemma_grid_disjoint(tiles@);
        lemma_cells_known(rects@, tiles@);
    }
    tiles
}

proof fn lemma_first_cut(s: Seq<i64>, c: i64)
    requires
        rising(s),
        s.contains(c),
    ensures
        s[0] <= c,
{
    let k = choose|k: int| 0 <= k < s.len() && s[k] == c;
    if k > 0 {
        assert(s[0] < s[k]);
    }
}

proof fn lemma_last_cut(s: Seq<i64>, c: i64)
    requires
        rising(s),
        s.contains(c),
    ensures
        c <= s[s.len() - 1],
{
    let k = choose|k: int| 0 <= k < s.len() && s[k] == c;
    if k < s.len() - 1 {
        assert(s[k] < s[s.len() - 1]);
    }
}

proof fn lemma_in_cell(rects: Seq<Rect>, u: Seq<i64>, v: Seq<i64>, a: int, b: int, x: int, y: int)
    requires
        rising(u),
        rising(v),
        edges_cut(rects, u, v),
        0 <= a < u.len() - 1,
        0 <= b < v.len() - 1,
        inside(cell(u, v, a, b), x, y),
    ensures
        in_any(rects, x, y) <==> cell_in(rects, rects.len() as int, u, v, a, b),
{
    if in_any(rects, x, y) {
        let i = choose|i: int| 0 <= i < rects.len() && inside(#[trigger] rects[i], x, y);
        lemma_cell_whole(rects[i], u, v, a, b, x, y);
        assert(strip_in(rects[i], u, a));
    }
    if cell_in(rects, rects.len() as int, u, v, a, b) {
        let i = choose|i: int| 0 <= i < rects.len() && strip_in(#[trigger] rects[i], u, a) && rects[i].v_min <= v[b] && v[b + 1] <= rects[i].v_max;
        lemma_cell_whole(rects[i], u, v, a, b, x, y);
        assert(inside(rects[i], x, y));
    }
}

/// The place of a number in the order of numbers.
pub fn order_key(bits: u64) -> (r: i64)
    ensures
        r == f64_key(bits),
{
    if bits >= F64_SIGN {
        let m: u64 = magnitude64(bits);
        -(m as i64)
    } else {
        bits as i64
    }
}

/// The number at a place in the order of numbers; at the one place without a
/// number, zero.
pub open spec fn bits_at(key: i64) -> u64 {
    if key >= 0 {
        key as u64
    } else if key == i64::MIN {
        0
    } else {
        (F64_SIGN - key) as u64
    }
}

/// The number at a place in the order of numbers.
pub fn number_at(key: i64) -> (r: u64)
    ensures
        r == bits_at(key),
        key > i64::MIN ==> f64_key(r) == key,
{
    if key >= 0 {
        key as u64
    } else if key == i64::MIN {
        0
    } else {
        let m: u64 = (-key) as u64;
        F64_SIGN + m
    }
}

} // verus!
