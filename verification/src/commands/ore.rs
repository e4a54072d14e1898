//! The outer faces of blocks, and the mesh that they make.

use crate::commands::blocks::{ore_block_indices, ore_blocks, OreFilterMode};
use crate::error::AppError;
use crate::ids::contains_key;
use crate::ieee::{f64_finite, f64_key, find_total_place, total_place, f64_less, finite64, less64, Point3};
use crate::tiles::{
    bits_at, common, conforming, conforming_rect_tiles, disjoint, in_any, inside, intersect, law_no_corner_within_a_side, law_one_way_to_cut, left_over, lemma_common_point,
    lemma_in_concat, number_at, order_key, overlapping, rects_overlap, uncovered_face_rects, within_side, Rect,
};
use std::collections::{HashMap, HashSet};
use vstd::prelude::*;

verus! {

broadcast use vstd::std_specs::hash::group_hash_axioms;

/// A block: its corners, its middle, and a key to the plane of each face. The
/// faces come in pairs along the axes, the lower one first; faces in one plane
/// have one key.
#[derive(Clone, Copy, Debug)]
pub struct BlockBox {
    pub lower: Point3,
    pub upper: Point3,
    pub middle: Point3,
    pub planes: [u64; 6],
}

/// The corners of a block are finite, and the upper lies beyond the lower.
pub open spec fn block_valid(b: BlockBox) -> bool {
    &&& f64_finite(b.lower.x) && f64_finite(b.lower.y) && f64_finite(b.lower.z)
    &&& f64_finite(b.upper.x) && f64_finite(b.upper.y) && f64_finite(b.upper.z)
    &&& f64_less(b.lower.x, b.upper.x) && f64_less(b.lower.y, b.upper.y) && f64_less(b.lower.z, b.upper.z)
}

/// The rectangle of a face in its plane.
pub open spec fn face_rect(b: BlockBox, face: int) -> Rect {
    if face < 2 {
        Rect {
            u_min: f64_key(b.lower.y) as i64,
            u_max: f64_key(b.upper.y) as i64,
            v_min: f64_key(b.lower.z) as i64,
            v_max: f64_key(b.upper.z) as i64,
        }
    } else if face < 4 {
        Rect {
            u_min: f64_key(b.lower.x) as i64,
            u_max: f64_key(b.upper.x) as i64,
            v_min: f64_key(b.lower.z) as i64,
            v_max: f64_key(b.upper.z) as i64,
        }
    } else {
        Rect {
            u_min: f64_key(b.lower.x) as i64,
            u_max: f64_key(b.upper.x) as i64,
            v_min: f64_key(b.lower.y) as i64,
            v_max: f64_key(b.upper.y) as i64,
        }
    }
}

/// The middle of a face in its plane, along u and along v.
pub open spec fn face_middle(b: BlockBox, face: int) -> (u64, u64) {
    if face < 2 {
        (b.middle.y, b.middle.z)
    } else if face < 4 {
        (b.middle.x, b.middle.z)
    } else {
        (b.middle.x, b.middle.y)
    }
}

/// A face that covers others.
pub open spec fn candidate(blocks: Seq<BlockBox>, block: usize, face: int) -> FaceCandidate {
    FaceCandidate { block, rect: face_rect(blocks[block as int], face), middle: face_middle(blocks[block as int], face) }
}

/// Where the plane of a face lies.
pub open spec fn face_plane(b: BlockBox, face: int) -> u64 {
    if face == 0 {
        b.lower.x
    } else if face == 1 {
        b.upper.x
    } else if face == 2 {
        b.lower.y
    } else if face == 3 {
        b.upper.y
    } else if face == 4 {
        b.lower.z
    } else {
        b.upper.z
    }
}

/// The face on the other side.
pub open spec fn opposite(face: int) -> int {
    if face % 2 == 0 {
        face + 1
    } else {
        face - 1
    }
}

/// A part of the outer surface: the face and the plane that it is on.
#[derive(Clone, Copy, PartialEq, Eq, Structural, Debug)]
pub struct FaceTile {
    pub face: usize,
    pub key: u64,
    pub plane: u64,
    pub rect: Rect,
}

/// Another selected block touches the face of a block at the point.
pub open spec fn hidden_at(blocks: Seq<BlockBox>, selected: Seq<usize>, face: int, key: u64, block: usize, x: int, y: int) -> bool {
    exists|c: usize| #[trigger]
        selected.contains(c) && c != block && blocks[c as int].planes[opposite(face)] == key && inside(face_rect(blocks[c as int], face), x, y)
}

/// A selected block shows its face at the point.
pub open spec fn shown_at(blocks: Seq<BlockBox>, selected: Seq<usize>, face: int, key: u64, x: int, y: int) -> bool {
    exists|b: usize| #[trigger]
        selected.contains(b) && blocks[b as int].planes[face] == key && inside(face_rect(blocks[b as int], face), x, y) && !hidden_at(
            blocks,
            selected,
            face,
            key,
            b,
            x,
            y,
        )
}

/// A part of the outer surface holds the point.
pub open spec fn tiled_at(tiles: Seq<FaceTile>, face: int, key: u64, x: int, y: int) -> bool {
    exists|i: int| 0 <= i < tiles.len() && (#[trigger] tiles[i]).face == face && tiles[i].key == key && inside(tiles[i].rect, x, y)
}

/// Two parts have no point in common.
pub open spec fn apart(a: FaceTile, b: FaceTile) -> bool {
    a.face == b.face && a.key == b.key ==> forall|x: int, y: int| !(#[trigger] inside(a.rect, x, y) && inside(b.rect, x, y))
}

/// No point is in two parts of one plane.
pub open spec fn tiles_apart(tiles: Seq<FaceTile>) -> bool {
    forall|i: int, j: int| 0 <= i < j < tiles.len() ==> apart(#[trigger] tiles[i], #[trigger] tiles[j])
}

/// The elements of a list, each where it first occurs.
pub open spec fn firsts<T>(s: Seq<T>) -> Seq<T>
    decreases s.len(),
{
    if s.len() == 0 {
        s
    } else {
        let before = firsts(s.drop_last());
        if before.contains(s.last()) {
            before
        } else {
            before.push(s.last())
        }
    }
}

/// The blocks among these whose face lies in the plane.
pub open spec fn members_of(blocks: Seq<BlockBox>, s: Seq<usize>, face: int, key: u64) -> Seq<usize>
    decreases s.len(),
{
    if s.len() == 0 {
        Seq::empty()
    } else {
        let before = members_of(blocks, s.drop_last(), face, key);
        if blocks[s.last() as int].planes[face] == key {
            before.push(s.last())
        } else {
            before
        }
    }
}

/// The faces of blocks, by which they cover others.
pub open spec fn candidate_list(blocks: Seq<BlockBox>, covers: Seq<usize>, face: int) -> Seq<FaceCandidate> {
    Seq::new(covers.len(), |i: int| candidate(blocks, covers[i], face))
}

/// What the candidates cover of a block's face, one after the other.
pub open spec fn gathered(order: Seq<FaceCandidate>, own: Rect, block: usize) -> Seq<Rect>
    decreases order.len(),
{
    if order.len() == 0 {
        Seq::empty()
    } else {
        let before = gathered(order.drop_last(), own, block);
        let c = order.last();
        if overlapping(c.rect, own) && c.block != block {
            before.push(common(own, c.rect))
        } else {
            before
        }
    }
}

/// What is left of the faces of blocks, one after the other.
pub open spec fn pieces_of(blocks: Seq<BlockBox>, own: Seq<usize>, order: Seq<FaceCandidate>, face: int) -> Seq<Rect>
    decreases own.len(),
{
    if own.len() == 0 {
        Seq::empty()
    } else {
        let rect = face_rect(blocks[own.last() as int], face);
        pieces_of(blocks, own.drop_last(), order, face) + left_over(rect, gathered(order, rect, own.last()))
    }
}

/// How a plane is cut: what is left of the faces in it, once those opposite
/// were taken away as they are arranged, along all edges of what is left.
pub open spec fn plane_cut(
    blocks: Seq<BlockBox>,
    own: Seq<usize>,
    covers: Seq<usize>,
    face: int,
    axis: spec_fn(Spread, bool) -> bool,
    rects: Seq<Rect>,
) -> bool {
    if own.len() == 0 {
        rects.len() == 0
    } else {
        exists|tree: FaceRectBvh| #[trigger]
            tree.built(candidate_list(blocks, covers, face), axis) && conforming(pieces_of(blocks, own, tree.faces(), face), rects)
    }
}

/// The parts in one plane.
pub open spec fn rects_on(tiles: Seq<FaceTile>, face: int, key: u64) -> Seq<Rect>
    decreases tiles.len(),
{
    if tiles.len() == 0 {
        Seq::empty()
    } else {
        let before = rects_on(tiles.drop_last(), face, key);
        if tiles.last().face == face && tiles.last().key == key {
            before.push(tiles.last().rect)
        } else {
            before
        }
    }
}

/// The parts in every plane of a face are what is left there, cut along its
/// edges.
pub open spec fn face_cut(
    blocks: Seq<BlockBox>,
    selected: Seq<usize>,
    face: int,
    key: u64,
    axis: spec_fn(Spread, bool) -> bool,
    tiles: Seq<FaceTile>,
) -> bool {
    plane_cut(
        blocks,
        members_of(blocks, selected, face, key),
        members_of(blocks, selected, opposite(face), key),
        face,
        axis,
        rects_on(tiles, face, key),
    )
}

/// A part lies where the first selected block of its plane has its face.
pub open spec fn tile_placed(blocks: Seq<BlockBox>, selected: Seq<usize>, t: FaceTile) -> bool {
    let own = members_of(blocks, selected, t.face as int, t.key);
    own.len() > 0 && t.plane == face_plane(blocks[own[0] as int], t.face as int)
}

/// Every part lies where the first selected block of its plane has its face.
pub open spec fn tiles_placed(blocks: Seq<BlockBox>, selected: Seq<usize>, tiles: Seq<FaceTile>) -> bool {
    forall|i: int| 0 <= i < tiles.len() ==> tile_placed(blocks, selected, #[trigger] tiles[i])
}

/// What a search for faces goes through.
#[derive(Clone, Copy, Debug)]
pub struct FaceCandidate {
    pub block: usize,
    pub rect: Rect,
    pub middle: (u64, u64),
}

/// How far the middles of faces reach: the bits of the least and of the
/// greatest along u and along v.
#[derive(Clone, Copy, PartialEq, Eq, Structural, Debug)]
pub struct Spread {
    pub u_min: u64,
    pub u_max: u64,
    pub v_min: u64,
    pub v_max: u64,
}

/// What a function tells of spreads.
pub open spec fn axes<F: Fn(Spread) -> bool>(wider: F) -> spec_fn(Spread, bool) -> bool {
    |s: Spread, along_v: bool| call_ensures(wider, (s,), along_v)
}

/// Faces in one plane, arranged so that those near a place are found without
/// looking at all of them.
pub enum FaceRectBvh {
    Leaf { bounds: Rect, entries: Vec<FaceCandidate> },
    Branch { bounds: Rect, left: Box<FaceRectBvh>, right: Box<FaceRectBvh> },
}

/// A rectangle lies within bounds.
pub open spec fn bounded(r: Rect, bounds: Rect) -> bool {
    bounds.u_min <= r.u_min && r.u_max <= bounds.u_max && bounds.v_min <= r.v_min && r.v_max <= bounds.v_max
}

/// All faces lie within bounds.
pub open spec fn all_bounded(s: Seq<FaceCandidate>, bounds: Rect) -> bool {
    forall|i: int| 0 <= i < s.len() ==> bounded((#[trigger] s[i]).rect, bounds)
}

/// The bounds are the tightest: each is the bound of a face. Without faces
/// nothing lies within them.
pub open spec fn tightly_bounded(s: Seq<FaceCandidate>, b: Rect) -> bool {
    &&& all_bounded(s, b)
    &&& s.len() == 0 ==> b == (Rect { u_min: i64::MAX, u_max: i64::MIN, v_min: i64::MAX, v_max: i64::MIN })
    &&& s.len() > 0 ==> {
        &&& exists|i: int| 0 <= i < s.len() && (#[trigger] s[i]).rect.u_min == b.u_min
        &&& exists|i: int| 0 <= i < s.len() && (#[trigger] s[i]).rect.u_max == b.u_max
        &&& exists|i: int| 0 <= i < s.len() && (#[trigger] s[i]).rect.v_min == b.v_min
        &&& exists|i: int| 0 <= i < s.len() && (#[trigger] s[i]).rect.v_max == b.v_max
    }
}

/// The middle of a face along one axis.
pub open spec fn middle_of(c: FaceCandidate, along_v: bool) -> u64 {
    if along_v {
        c.middle.1
    } else {
        c.middle.0
    }
}

/// The place of a face along one axis: that of its middle among all numbers,
/// zero with a sign before zero without.
pub open spec fn place_of(c: FaceCandidate, along_v: bool) -> int {
    total_place(middle_of(c, along_v))
}

/// The least of the middles along one axis, and of equal places the first.
pub open spec fn least_middle(s: Seq<FaceCandidate>, along_v: bool) -> u64
    decreases s.len(),
{
    if s.len() == 0 {
        0
    } else if s.len() == 1 {
        middle_of(s[0], along_v)
    } else {
        let m = least_middle(s.drop_last(), along_v);
        if place_of(s.last(), along_v) < total_place(m) {
            middle_of(s.last(), along_v)
        } else {
            m
        }
    }
}

/// The greatest of the middles along one axis, and of equal places the first.
pub open spec fn greatest_middle(s: Seq<FaceCandidate>, along_v: bool) -> u64
    decreases s.len(),
{
    if s.len() == 0 {
        0
    } else if s.len() == 1 {
        middle_of(s[0], along_v)
    } else {
        let m = greatest_middle(s.drop_last(), along_v);
        if place_of(s.last(), along_v) > total_place(m) {
            middle_of(s.last(), along_v)
        } else {
            m
        }
    }
}

/// How far the middles of faces reach.
pub open spec fn spread_of(s: Seq<FaceCandidate>) -> Spread {
    Spread {
        u_min: least_middle(s, false),
        u_max: greatest_middle(s, false),
        v_min: least_middle(s, true),
        v_max: greatest_middle(s, true),
    }
}

/// The faces at one place along an axis.
pub open spec fn at_place(s: Seq<FaceCandidate>, along_v: bool, place: int) -> Seq<FaceCandidate> {
    s.filter(|c: FaceCandidate| place_of(c, along_v) == place)
}

/// The places never fall from one face to the next.
pub open spec fn in_place_order(s: Seq<FaceCandidate>, along_v: bool) -> bool {
    forall|i: int, j: int| 0 <= i < j < s.len() ==> place_of(#[trigger] s[i], along_v) <= place_of(#[trigger] s[j], along_v)
}

/// The faces in the order of their places along an axis; those at one place
/// stay in the order that they had.
pub open spec fn sorted_along(s: Seq<FaceCandidate>, along_v: bool, r: Seq<FaceCandidate>) -> bool {
    &&& in_place_order(r, along_v)
    &&& r.to_multiset() == s.to_multiset()
    &&& forall|place: int| #[trigger] at_place(r, along_v, place) == at_place(s, along_v, place)
}

impl FaceRectBvh {
    /// How faces are arranged. Up to eight stay together; more are put in
    /// order along the axis on which their middles lie further apart and
    /// halved. All bounds are the tightest.
    pub open spec fn built(self, s: Seq<FaceCandidate>, axis: spec_fn(Spread, bool) -> bool) -> bool
        decreases self,
    {
        match self {
            FaceRectBvh::Leaf { bounds, entries } => s.len() <= 8 && entries@ == s && tightly_bounded(s, bounds),
            FaceRectBvh::Branch { bounds, left, right } => {
                &&& s.len() > 8
                &&& tightly_bounded(s, bounds)
                &&& exists|along_v: bool, order: Seq<FaceCandidate>|
                    {
                        &&& axis(spread_of(s), along_v)
                        &&& #[trigger] sorted_along(s, along_v, order)
                        &&& left.built(order.take(s.len() as int / 2), axis)
                        &&& right.built(order.skip(s.len() as int / 2), axis)
                    }
            },
        }
    }

    /// How many branches lie above a leaf at most.
    pub open spec fn depth(self) -> nat
        decreases self,
    {
        match self {
            FaceRectBvh::Leaf { .. } => 0,
            FaceRectBvh::Branch { left, right, .. } => 1 + if left.depth() > right.depth() {
                left.depth()
            } else {
                right.depth()
            },
        }
    }

    /// The faces.
    pub open spec fn faces(self) -> Seq<FaceCandidate>
        decreases self,
    {
        match self {
            FaceRectBvh::Leaf { entries, .. } => entries@,
            FaceRectBvh::Branch { left, right, .. } => left.faces() + right.faces(),
        }
    }

    /// The faces of every part lie within its bounds.
    pub open spec fn sound(self) -> bool
        decreases self,
    {
        match self {
            FaceRectBvh::Leaf { bounds, entries } => all_bounded(entries@, bounds),
            FaceRectBvh::Branch { bounds, left, right } => all_bounded(left.faces() + right.faces(), bounds) && left.sound() && right.sound(),
        }
    }
}

/// The faces that overlap a rectangle.
pub open spec fn faces_at(s: Seq<FaceCandidate>, query: Rect) -> Seq<FaceCandidate> {
    s.filter(|c: FaceCandidate| overlapping(c.rect, query))
}

/// The bounds of faces.
pub fn candidate_bounds(entries: &Vec<FaceCandidate>) -> (r: Rect)
    ensures
        tightly_bounded(entries@, r),
{
    let mut b = Rect { u_min: i64::MAX, u_max: i64::MIN, v_min: i64::MAX, v_max: i64::MIN };
    let mut i: usize = 0;
    while i < entries.len()
        invariant
            i <= entries.len(),
            tightly_bounded(entries@.take(i as int), b),
        decreases entries.len() - i,
    {
        let r = entries[i].rect;
        let ghost had = entries@.take(i as int);
        let ghost now = entries@.take(i + 1);
        let ghost was = b;
        if r.u_min < b.u_min || i == 0 {
            b.u_min = r.u_min;
        }
        if r.u_max > b.u_max || i == 0 {
            b.u_max = r.u_max;
        }
        if r.v_min < b.v_min || i == 0 {
            b.v_min = r.v_min;
        }
        if r.v_max > b.v_max || i == 0 {
            b.v_max = r.v_max;
        }
        proof {
            assert(now[i as int].rect == r);
            assert forall|k: int| 0 <= k < now.len() implies bounded((#[trigger] now[k]).rect, b) by {
                if k < i {
                    assert(had[k] == now[k]);
                }
            }
            if i > 0 {
                let k = choose|k: int| 0 <= k < had.len() && (#[trigger] had[k]).rect.u_min == was.u_min;
                assert(now[k] == had[k]);
                let k = choose|k: int| 0 <= k < had.len() && (#[trigger] had[k]).rect.u_max == was.u_max;
                assert(now[k] == had[k]);
                let k = choose|k: int| 0 <= k < had.len() && (#[trigger] had[k]).rect.v_min == was.v_min;
                assert(now[k] == had[k]);
                let k = choose|k: int| 0 <= k < had.len() && (#[trigger] had[k]).rect.v_max == was.v_max;
                assert(now[k] == had[k]);
            }
        }
        i += 1;
    }
    assert(entries@.take(entries@.len() as int) =~= entries@);
    b
}

proof fn lemma_push_contains<T>(s: Seq<T>, x: T)
    ensures
        forall|y: T| #[trigger] s.push(x).contains(y) <==> s.contains(y) || y == x,
{
    assert forall|y: T| #[trigger] s.push(x).contains(y) <==> s.contains(y) || y == x by {
        if s.contains(y) {
            let i = choose|i: int| 0 <= i < s.len() && s[i] == y;
            assert(s.push(x)[i] == y);
        }
        assert(s.push(x)[s.len() as int] == x);
        if s.push(x).contains(y) {
            let i = choose|i: int| 0 <= i < s.push(x).len() && s.push(x)[i] == y;
            if i < s.len() {
                assert(s[i] == y);
            }
        }
    }
}

proof fn lemma_at_push(s: Seq<FaceCandidate>, x: FaceCandidate, along_v: bool, place: int)
    ensures
        at_place(s.push(x), along_v, place) == if place_of(x, along_v) == place {
            at_place(s, along_v, place).push(x)
        } else {
            at_place(s, along_v, place)
        },
{
    reveal(Seq::filter);
    assert(s.push(x).drop_last() =~= s);
}

proof fn lemma_none_at(s: Seq<FaceCandidate>, along_v: bool, place: int)
    requires
        forall|i: int| 0 <= i < s.len() ==> place_of(#[trigger] s[i], along_v) != place,
    ensures
        at_place(s, along_v, place) == Seq::<FaceCandidate>::empty(),
    decreases s.len(),
{
    reveal(Seq::filter);
    if s.len() > 0 {
        let less = s.drop_last();
        assert forall|i: int| 0 <= i < less.len() implies place_of(#[trigger] less[i], along_v) != place by {
            assert(less[i] == s[i]);
        }
        lemma_none_at(less, along_v, place);
        assert(s[s.len() - 1] == s.last());
    }
}

proof fn lemma_at_joined(a: Seq<FaceCandidate>, b: Seq<FaceCandidate>, along_v: bool, place: int)
    ensures
        at_place(a + b, along_v, place) == at_place(a, along_v, place) + at_place(b, along_v, place),
{
    Seq::filter_distributes_over_add(a, b, |c: FaceCandidate| place_of(c, along_v) == place);
}

fn find_place(c: FaceCandidate, along_v: bool) -> (r: i64)
    ensures
        r == place_of(c, along_v),
{
    if along_v {
        find_total_place(c.middle.1)
    } else {
        find_total_place(c.middle.0)
    }
}

/// So many faces of two lists were merged.
spec fn merged_upto(a: Seq<FaceCandidate>, i: int, b: Seq<FaceCandidate>, j: int, along_v: bool, out: Seq<FaceCandidate>) -> bool {
    &&& in_place_order(out, along_v)
    &&& i < a.len() ==> forall|t: int| 0 <= t < out.len() ==> place_of(#[trigger] out[t], along_v) <= place_of(a[i], along_v)
    &&& j < b.len() ==> forall|t: int| 0 <= t < out.len() ==> place_of(#[trigger] out[t], along_v) <= place_of(b[j], along_v)
    &&& i < a.len() ==> forall|t: int| 0 <= t < j ==> place_of(#[trigger] b[t], along_v) < place_of(a[i], along_v)
    &&& out.to_multiset() == a.take(i).to_multiset().add(b.take(j).to_multiset())
    &&& forall|place: int| #[trigger]
        at_place(out, along_v, place) == at_place(a.take(i), along_v, place) + at_place(b.take(j), along_v, place)
}

proof fn lemma_merged_left(a: Seq<FaceCandidate>, i: int, b: Seq<FaceCandidate>, j: int, along_v: bool, out: Seq<FaceCandidate>)
    requires
        merged_upto(a, i, b, j, along_v, out),
        in_place_order(a, along_v),
        0 <= i < a.len(),
        0 <= j <= b.len(),
        j < b.len() ==> place_of(a[i], along_v) <= place_of(b[j], along_v),
    ensures
        merged_upto(a, i + 1, b, j, along_v, out.push(a[i])),
{
    let now = out.push(a[i]);
    assert(a.take(i + 1) =~= a.take(i).push(a[i]));
    vstd::seq_lib::to_multiset_build(out, a[i]);
    vstd::seq_lib::to_multiset_build(a.take(i), a[i]);
    assert(now.to_multiset() =~= a.take(i + 1).to_multiset().add(b.take(j).to_multiset()));
    assert forall|place: int| #[trigger]
        at_place(now, along_v, place) == at_place(a.take(i + 1), along_v, place) + at_place(b.take(j), along_v, place) by {
        assert(at_place(out, along_v, place) == at_place(a.take(i), along_v, place) + at_place(b.take(j), along_v, place));
        lemma_at_push(out, a[i], along_v, place);
        lemma_at_push(a.take(i), a[i], along_v, place);
        if place_of(a[i], along_v) == place {
            assert forall|t: int| 0 <= t < b.take(j).len() implies place_of(#[trigger] b.take(j)[t], along_v) != place by {
                assert(b.take(j)[t] == b[t]);
            }
            lemma_none_at(b.take(j), along_v, place);
            assert(at_place(now, along_v, place) =~= at_place(a.take(i + 1), along_v, place) + at_place(b.take(j), along_v, place));
        }
    }
    if i + 1 < a.len() {
        assert(place_of(a[i], along_v) <= place_of(a[i + 1], along_v));
    }
}

proof fn lemma_merged_right(a: Seq<FaceCandidate>, i: int, b: Seq<FaceCandidate>, j: int, along_v: bool, out: Seq<FaceCandidate>)
    requires
        merged_upto(a, i, b, j, along_v, out),
        in_place_order(b, along_v),
        0 <= i <= a.len(),
        0 <= j < b.len(),
        i < a.len() ==> place_of(b[j], along_v) < place_of(a[i], along_v),
    ensures
        merged_upto(a, i, b, j + 1, along_v, out.push(b[j])),
{
    let now = out.push(b[j]);
    assert(b.take(j + 1) =~= b.take(j).push(b[j]));
    vstd::seq_lib::to_multiset_build(out, b[j]);
    vstd::seq_lib::to_multiset_build(b.take(j), b[j]);
    assert(now.to_multiset() =~= a.take(i).to_multiset().add(b.take(j + 1).to_multiset()));
    assert forall|place: int| #[trigger]
        at_place(now, along_v, place) == at_place(a.take(i), along_v, place) + at_place(b.take(j + 1), along_v, place) by {
        assert(at_place(out, along_v, place) == at_place(a.take(i), along_v, place) + at_place(b.take(j), along_v, place));
        lemma_at_push(out, b[j], along_v, place);
        lemma_at_push(b.take(j), b[j], along_v, place);
        assert(at_place(now, along_v, place) =~= at_place(a.take(i), along_v, place) + at_place(b.take(j + 1), along_v, place));
    }
    if j + 1 < b.len() {
        assert(place_of(b[j], along_v) <= place_of(b[j + 1], along_v));
    }
}

fn merge_along(a: &Vec<FaceCandidate>, b: &Vec<FaceCandidate>, along_v: bool) -> (r: Vec<FaceCandidate>)
    requires
        in_place_order(a@, along_v),
        in_place_order(b@, along_v),
    ensures
        sorted_along(a@ + b@, along_v, r@),
{
    let mut out: Vec<FaceCandidate> = Vec::new();
    let mut i: usize = 0;
    let mut j: usize = 0;
    proof {
        assert(a@.take(0) + b@.take(0) =~= out@);
        vstd::seq_lib::lemma_multiset_commutative(a@.take(0), b@.take(0));
        assert forall|place: int| #[trigger]
            at_place(out@, along_v, place) == at_place(a@.take(0), along_v, place) + at_place(b@.take(0), along_v, place) by {
            lemma_at_joined(a@.take(0), b@.take(0), along_v, place);
        }
    }
    while i < a.len() || j < b.len()
        invariant
            i <= a.len(),
            j <= b.len(),
            in_place_order(a@, along_v),
            in_place_order(b@, along_v),
            merged_upto(a@, i as int, b@, j as int, along_v, out@),
        decreases a.len() - i + b.len() - j,
    {
        let left = j >= b.len() || (i < a.len() && find_place(a[i], along_v) <= find_place(b[j], along_v));
        if left {
            proof {
                lemma_merged_left(a@, i as int, b@, j as int, along_v, out@);
            }
            out.push(a[i]);
            i += 1;
        } else {
            proof {
                lemma_merged_right(a@, i as int, b@, j as int, along_v, out@);
            }
            out.push(b[j]);
            j += 1;
        }
    }
    proof {
        assert(a@.take(a@.len() as int) =~= a@);
        assert(b@.take(b@.len() as int) =~= b@);
        vstd::seq_lib::lemma_multiset_commutative(a@, b@);
        assert forall|place: int| #[trigger] at_place(out@, along_v, place) == at_place(a@ + b@, along_v, place) by {
            lemma_at_joined(a@, b@, along_v, place);
        }
    }
    out
}

/// Puts faces in the order of their places along an axis.
fn sort_along(entries: Vec<FaceCandidate>, along_v: bool) -> (r: Vec<FaceCandidate>)
    ensures
        sorted_along(entries@, along_v, r@),
    decreases entries.len(),
{
    if entries.len() <= 1 {
        return entries;
    }
    let ghost all = entries@;
    let mut entries = entries;
    let half: usize = entries.len() / 2;
    let tail = entries.split_off(half);
    let ghost (head_was, tail_was) = (entries@, tail@);
    assert(head_was + tail_was =~= all);
    let a = sort_along(entries, along_v);
    let b = sort_along(tail, along_v);
    let r = merge_along(&a, &b, along_v);
    proof {
        vstd::seq_lib::lemma_multiset_commutative(a@, b@);
        vstd::seq_lib::lemma_multiset_commutative(head_was, tail_was);
        assert forall|place: int| #[trigger] at_place(r@, along_v, place) == at_place(all, along_v, place) by {
            assert(at_place(a@, along_v, place) == at_place(head_was, along_v, place));
            assert(at_place(b@, along_v, place) == at_place(tail_was, along_v, place));
            lemma_at_joined(a@, b@, along_v, place);
            lemma_at_joined(head_was, tail_was, along_v, place);
        }
    }
    r
}

fn find_spread(entries: &Vec<FaceCandidate>) -> (r: Spread)
    requires
        entries@.len() > 0,
    ensures
        r == spread_of(entries@),
{
    let mut s = Spread { u_min: entries[0].middle.0, u_max: entries[0].middle.0, v_min: entries[0].middle.1, v_max: entries[0].middle.1 };
    let mut i: usize = 1;
    while i < entries.len()
        invariant
            1 <= i <= entries.len(),
            s == spread_of(entries@.take(i as int)),
        decreases entries.len() - i,
    {
        let (u, v) = entries[i].middle;
        assert(entries@.take(i + 1).drop_last() =~= entries@.take(i as int));
        if find_total_place(u) < find_total_place(s.u_min) {
            s.u_min = u;
        }
        if find_total_place(u) > find_total_place(s.u_max) {
            s.u_max = u;
        }
        if find_total_place(v) < find_total_place(s.v_min) {
            s.v_min = v;
        }
        if find_total_place(v) > find_total_place(s.v_max) {
            s.v_max = v;
        }
        i += 1;
    }
    assert(entries@.take(entries@.len() as int) =~= entries@);
    s
}

/// Lists that hold the same as often hold the same.
proof fn lemma_same_members<T>(a: Seq<T>, b: Seq<T>, x: T)
    requires
        a.to_multiset() == b.to_multiset(),
    ensures
        a.contains(x) <==> b.contains(x),
{
    vstd::seq_lib::to_multiset_contains(a, x);
    vstd::seq_lib::to_multiset_contains(b, x);
}

/// A tree holds the faces that it was built of, each as often, and those of
/// every part lie within its bounds.
proof fn lemma_built(tree: FaceRectBvh, s: Seq<FaceCandidate>, axis: spec_fn(Spread, bool) -> bool)
    requires
        tree.built(s, axis),
    ensures
        tree.sound(),
        tree.faces().to_multiset() == s.to_multiset(),
    decreases tree,
{
    match tree {
        FaceRectBvh::Leaf { .. } => {},
        FaceRectBvh::Branch { bounds, left, right } => {
            let n = s.len() as int / 2;
            let (along_v, order) = choose|along_v: bool, order: Seq<FaceCandidate>|
                {
                    &&& axis(spread_of(s), along_v)
                    &&& #[trigger] sorted_along(s, along_v, order)
                    &&& left.built(order.take(n), axis)
                    &&& right.built(order.skip(n), axis)
                };
            lemma_built(*left, order.take(n), axis);
            lemma_built(*right, order.skip(n), axis);
            let all = left.faces() + right.faces();
            vstd::seq_lib::lemma_multiset_commutative(left.faces(), right.faces());
            vstd::seq_lib::lemma_multiset_commutative(order.take(n), order.skip(n));
            lemma_same_length(s, order);
            assert(order.take(n) + order.skip(n) =~= order);
            assert forall|i: int| 0 <= i < all.len() implies bounded((#[trigger] all[i]).rect, bounds) by {
                assert(all.contains(all[i]));
                lemma_same_members(all, s, all[i]);
                let j = choose|j: int| 0 <= j < s.len() && s[j] == all[i];
                assert(bounded(s[j].rect, bounds));
            }
        },
    }
}

proof fn lemma_same_length<T>(a: Seq<T>, b: Seq<T>)
    requires
        a.to_multiset() == b.to_multiset(),
    ensures
        a.len() == b.len(),
{
    vstd::seq_lib::to_multiset_len(a);
    vstd::seq_lib::to_multiset_len(b);
}

/// How many faces a tree of some depth can hold.
pub open spec fn room_at_depth(d: nat) -> nat
    decreases d,
{
    if d == 0 {
        8
    } else {
        2 * room_at_depth((d - 1) as nat)
    }
}

/// A tree is no deeper than halving makes it: one that has room for the faces
/// at some depth ends there.
pub proof fn law_tree_is_shallow(tree: FaceRectBvh, s: Seq<FaceCandidate>, axis: spec_fn(Spread, bool) -> bool, d: nat)
    requires
        tree.built(s, axis),
        s.len() <= room_at_depth(d),
    ensures
        tree.depth() <= d,
    decreases tree,
{
    match tree {
        FaceRectBvh::Leaf { .. } => {},
        FaceRectBvh::Branch { left, right, .. } => {
            let n = s.len() as int / 2;
            let (along_v, order) = choose|along_v: bool, order: Seq<FaceCandidate>|
                {
                    &&& axis(spread_of(s), along_v)
                    &&& #[trigger] sorted_along(s, along_v, order)
                    &&& left.built(order.take(n), axis)
                    &&& right.built(order.skip(n), axis)
                };
            lemma_same_length(s, order);
            law_tree_is_shallow(*left, order.take(n), axis, (d - 1) as nat);
            law_tree_is_shallow(*right, order.skip(n), axis, (d - 1) as nat);
        },
    }
}

/// There is one way to put faces in order along an axis.
pub proof fn law_one_order(s: Seq<FaceCandidate>, along_v: bool, a: Seq<FaceCandidate>, b: Seq<FaceCandidate>)
    requires
        sorted_along(s, along_v, a),
        sorted_along(s, along_v, b),
    ensures
        a == b,
    decreases a.len(),
{
    lemma_same_length(a, b);
    if a.len() > 0 {
        let (x, y) = (a.last(), b.last());
        let (p, q) = (place_of(x, along_v), place_of(y, along_v));
        assert(a.contains(x) && b.contains(y));
        lemma_same_members(a, b, x);
        lemma_same_members(a, b, y);
        let i = choose|i: int| 0 <= i < b.len() && b[i] == x;
        let j = choose|j: int| 0 <= j < a.len() && a[j] == y;
        assert(p <= q && q <= p);
        let (la, lb) = (a.drop_last(), b.drop_last());
        assert(a =~= la.push(x) && b =~= lb.push(y));
        lemma_at_push(la, x, along_v, p);
        lemma_at_push(lb, y, along_v, p);
        assert(at_place(a, along_v, p) == at_place(s, along_v, p) && at_place(b, along_v, p) == at_place(s, along_v, p));
        assert(at_place(la, along_v, p).push(x).last() == at_place(lb, along_v, p).push(y).last());
        assert(x == y);
        vstd::seq_lib::to_multiset_build(la, x);
        vstd::seq_lib::to_multiset_build(lb, y);
        assert(la.to_multiset() =~= a.to_multiset().remove(x));
        assert(lb.to_multiset() =~= b.to_multiset().remove(x));
        assert forall|place: int| #[trigger] at_place(lb, along_v, place) == at_place(la, along_v, place) by {
            lemma_at_push(la, x, along_v, place);
            lemma_at_push(lb, y, along_v, place);
            assert(at_place(a, along_v, place) == at_place(b, along_v, place));
            if place == p {
                assert(at_place(la, along_v, place).push(x).drop_last() =~= at_place(la, along_v, place));
                assert(at_place(lb, along_v, place).push(x).drop_last() =~= at_place(lb, along_v, place));
            }
        }
        assert(in_place_order(la, along_v)) by {
            assert forall|i: int, j: int| 0 <= i < j < la.len() implies place_of(#[trigger] la[i], along_v) <= place_of(#[trigger] la[j], along_v) by {
                assert(la[i] == a[i] && la[j] == a[j]);
            }
        }
        assert(in_place_order(lb, along_v)) by {
            assert forall|i: int, j: int| 0 <= i < j < lb.len() implies place_of(#[trigger] lb[i], along_v) <= place_of(#[trigger] lb[j], along_v) by {
                assert(lb[i] == b[i] && lb[j] == b[j]);
            }
        }
        law_one_order(la, along_v, la, lb);
    } else {
        assert(a =~= b);
    }
}

/// Of every spread at most one thing is told.
pub open spec fn decided(axis: spec_fn(Spread, bool) -> bool) -> bool {
    forall|s: Spread, a: bool, b: bool| #[trigger] axis(s, a) && #[trigger] axis(s, b) ==> a == b
}

/// There is one way to arrange faces, where it is settled along which axis
/// middles lie further apart.
pub proof fn law_one_arrangement(a: FaceRectBvh, b: FaceRectBvh, s: Seq<FaceCandidate>, axis: spec_fn(Spread, bool) -> bool)
    requires
        decided(axis),
        a.built(s, axis),
        b.built(s, axis),
    ensures
        a.faces() == b.faces(),
    decreases a,
{
    match (a, b) {
        (FaceRectBvh::Branch { left: la, right: ra, .. }, FaceRectBvh::Branch { left: lb, right: rb, .. }) => {
            let n = s.len() as int / 2;
            let (va, oa) = choose|along_v: bool, order: Seq<FaceCandidate>|
                {
                    &&& axis(spread_of(s), along_v)
                    &&& #[trigger] sorted_along(s, along_v, order)
                    &&& la.built(order.take(n), axis)
                    &&& ra.built(order.skip(n), axis)
                };
            let (vb, ob) = choose|along_v: bool, order: Seq<FaceCandidate>|
                {
                    &&& axis(spread_of(s), along_v)
                    &&& #[trigger] sorted_along(s, along_v, order)
                    &&& lb.built(order.take(n), axis)
                    &&& rb.built(order.skip(n), axis)
                };
            assert(va == vb);
            law_one_order(s, va, oa, ob);
            law_one_arrangement(*la, *lb, oa.take(n), axis);
            law_one_arrangement(*ra, *rb, oa.skip(n), axis);
        },
        _ => {},
    }
}

impl FaceRectBvh {
    /// Arranges faces. `wider` tells whether their middles lie further apart
    /// along v.
    pub fn build<F: Fn(Spread) -> bool>(entries: Vec<FaceCandidate>, wider: &F) -> (r: FaceRectBvh)
        requires
            forall|s: Spread| call_requires(*wider, (s,)),
        ensures
            r.built(entries@, axes(*wider)),
            r.sound(),
            r.faces().to_multiset() == entries@.to_multiset(),
        decreases entries.len(),
    {
        let ghost s = entries@;
        let bounds = candidate_bounds(&entries);
        if entries.len() <= 8 {
            return FaceRectBvh::Leaf { bounds, entries };
        }
        let spread = find_spread(&entries);
        let along_v = (*wider)(spread);
        let n: usize = entries.len();
        let mut left_entries = sort_along(entries, along_v);
        let ghost order = left_entries@;
        proof {
            lemma_same_length(order, s);
        }
        let right_entries = left_entries.split_off(n / 2);
        let left = FaceRectBvh::build(left_entries, wider);
        let right = FaceRectBvh::build(right_entries, wider);
        let r = FaceRectBvh::Branch { bounds, left: Box::new(left), right: Box::new(right) };
        proof {
            assert(axes(*wider)(spread_of(s), along_v));
            assert(sorted_along(s, along_v, order));
            assert(left_entries@ =~= order.take(s.len() as int / 2));
            assert(right_entries@ =~= order.skip(s.len() as int / 2));
            assert(r.built(s, axes(*wider)));
            lemma_built(r, s, axes(*wider));
        }
        r
    }

    /// Adds the faces that overlap a rectangle to a list.
    pub fn query(&self, query: Rect, matches: &mut Vec<FaceCandidate>)
        requires
            self.sound(),
        ensures
            final(matches)@ == old(matches)@ + faces_at(self.faces(), query),
        decreases self,
    {
        let ghost f = |c: FaceCandidate| overlapping(c.rect, query);
        match self {
            FaceRectBvh::Leaf { bounds, entries } => {
                if !rects_overlap(*bounds, query) {
                    proof {
                        lemma_none_overlap(entries@, *bounds, query);
                        assert(matches@ + faces_at(self.faces(), query) =~= matches@);
                    }
                    return ;
                }
                let ghost before = matches@;
                let mut i: usize = 0;
                proof {
                    reveal(Seq::filter);
                    assert(before + entries@.take(0).filter(f) =~= before);
                }
                while i < entries.len()
                    invariant
                        i <= entries.len(),
                        f == (|c: FaceCandidate| overlapping(c.rect, query)),
                        matches@ == before + entries@.take(i as int).filter(f),
                    decreases entries.len() - i,
                {
                    proof {
                        reveal(Seq::filter);
                        assert(entries@.take(i + 1).drop_last() =~= entries@.take(i as int));
                    }
                    if rects_overlap(entries[i].rect, query) {
                        matches.push(entries[i]);
                    }
                    i += 1;
                    assert(matches@ =~= before + entries@.take(i as int).filter(f));
                }
                assert(entries@.take(entries@.len() as int) =~= entries@);
            },
            FaceRectBvh::Branch { bounds, left, right } => {
                if !rects_overlap(*bounds, query) {
                    proof {
                        lemma_none_overlap(left.faces() + right.faces(), *bounds, query);
                        assert(matches@ + faces_at(self.faces(), query) =~= matches@);
                    }
                    return ;
                }
                let ghost before = matches@;
                left.query(query, matches);
                right.query(query, matches);
                proof {
                    Seq::filter_distributes_over_add(left.faces(), right.faces(), f);
                    assert(matches@ =~= before + faces_at(self.faces(), query));
                }
            },
        }
    }
}

proof fn lemma_none_overlap(s: Seq<FaceCandidate>, bounds: Rect, query: Rect)
    requires
        all_bounded(s, bounds),
        !overlapping(bounds, query),
    ensures
        faces_at(s, query) == Seq::<FaceCandidate>::empty(),
    decreases s.len(),
{
    reveal(Seq::filter);
    if s.len() > 0 {
        assert(all_bounded(s.drop_last(), bounds)) by {
            assert forall|i: int| 0 <= i < s.drop_last().len() implies bounded((#[trigger] s.drop_last()[i]).rect, bounds) by {
                assert(s.drop_last()[i] == s[i]);
            }
        }
        lemma_none_overlap(s.drop_last(), bounds, query);
        assert(bounded(s[s.len() - 1].rect, bounds));
    }
}

/// The rectangle of a face in its plane.
pub fn block_face_rect(b: &BlockBox, face: usize) -> (r: Rect)
    requires
        face < 6,
    ensures
        r == face_rect(*b, face as int),
{
    if face < 2 {
        Rect { u_min: order_key(b.lower.y), u_max: order_key(b.upper.y), v_min: order_key(b.lower.z), v_max: order_key(b.upper.z) }
    } else if face < 4 {
        Rect { u_min: order_key(b.lower.x), u_max: order_key(b.upper.x), v_min: order_key(b.lower.z), v_max: order_key(b.upper.z) }
    } else {
        Rect { u_min: order_key(b.lower.x), u_max: order_key(b.upper.x), v_min: order_key(b.lower.y), v_max: order_key(b.upper.y) }
    }
}

fn find_face_middle(b: &BlockBox, face: usize) -> (r: (u64, u64))
    requires
        face < 6,
    ensures
        r == face_middle(*b, face as int),
{
    if face < 2 {
        (b.middle.y, b.middle.z)
    } else if face < 4 {
        (b.middle.x, b.middle.z)
    } else {
        (b.middle.x, b.middle.y)
    }
}

fn find_face_plane(b: &BlockBox, face: usize) -> (r: u64)
    requires
        face < 6,
    ensures
        r == face_plane(*b, face as int),
{
    match face {
        0 => b.lower.x,
        1 => b.upper.x,
        2 => b.lower.y,
        3 => b.upper.y,
        4 => b.lower.z,
        _ => b.upper.z,
    }
}

/// All places stand for blocks.
pub open spec fn places_known(blocks: Seq<BlockBox>, s: Seq<usize>) -> bool {
    forall|i: int| 0 <= i < s.len() ==> (#[trigger] s[i]) < blocks.len()
}

fn find_candidates(blocks: &Vec<BlockBox>, s: &Vec<usize>, face: usize) -> (r: Vec<FaceCandidate>)
    requires
        face < 6,
        places_known(blocks@, s@),
    ensures
        r@ == candidate_list(blocks@, s@, face as int),
{
    let mut list: Vec<FaceCandidate> = Vec::new();
    let mut i: usize = 0;
    while i < s.len()
        invariant
            i <= s.len(),
            face < 6,
            places_known(blocks@, s@),
            list@.len() == i,
            forall|j: int|
                0 <= j < i ==> #[trigger] list@[j] == candidate(blocks@, s@[j], face as int),
        decreases s.len() - i,
    {
        let b: usize = s[i];
        assert(s@[i as int] < blocks@.len());
        list.push(FaceCandidate { block: b, rect: block_face_rect(&blocks[b], face), middle: find_face_middle(&blocks[b], face) });
        i += 1;
    }
    assert(list@ =~= candidate_list(blocks@, s@, face as int));
    list
}

/// One of these blocks, other than this one, has the point in its face.
pub open spec fn covered_at(blocks: Seq<BlockBox>, covers: Seq<usize>, face: int, block: usize, x: int, y: int) -> bool {
    exists|c: usize| #[trigger] covers.contains(c) && c != block && inside(face_rect(blocks[c as int], face), x, y)
}

/// Candidates that do not overlap the face cover nothing of it.
proof fn lemma_gathered_at(s: Seq<FaceCandidate>, own: Rect, block: usize)
    ensures
        gathered(faces_at(s, own), own, block) == gathered(s, own, block),
    decreases s.len(),
{
    reveal(Seq::filter);
    if s.len() > 0 {
        lemma_gathered_at(s.drop_last(), own, block);
        if overlapping(s.last().rect, own) {
            assert(faces_at(s, own).drop_last() =~= faces_at(s.drop_last(), own));
        }
    }
}

/// What the candidates cover of a face is where one of them overlaps it.
proof fn lemma_gathered_in(s: Seq<FaceCandidate>, own: Rect, block: usize, x: int, y: int)
    ensures
        in_any(gathered(s, own, block), x, y) <==> inside(own, x, y) && exists|k: int|
            0 <= k < s.len() && (#[trigger] s[k]).block != block && inside(s[k].rect, x, y),
    decreases s.len(),
{
    if s.len() > 0 {
        let less = s.drop_last();
        let c = s.last();
        lemma_gathered_in(less, own, block, x, y);
        if overlapping(c.rect, own) && c.block != block {
            crate::tiles::lemma_in_push(gathered(less, own, block), common(own, c.rect), x, y);
        }
        if inside(own, x, y) && inside(c.rect, x, y) {
            lemma_common_point(c.rect, own, x, y);
        }
        if exists|k: int| 0 <= k < less.len() && (#[trigger] less[k]).block != block && inside(less[k].rect, x, y) {
            let k = choose|k: int| 0 <= k < less.len() && (#[trigger] less[k]).block != block && inside(less[k].rect, x, y);
            assert(s[k] == less[k]);
        }
        if exists|k: int| 0 <= k < s.len() && (#[trigger] s[k]).block != block && inside(s[k].rect, x, y) {
            let k = choose|k: int| 0 <= k < s.len() && (#[trigger] s[k]).block != block && inside(s[k].rect, x, y);
            if k < less.len() {
                assert(less[k] == s[k]);
            }
        }
        if c.block != block && inside(c.rect, x, y) {
            assert(s[s.len() - 1] == c);
        }
    }
}

/// What is left of the face of one block.
fn uncovered_of(blocks: &Vec<BlockBox>, tree: &FaceRectBvh, covers: Ghost<Seq<usize>>, face: usize, block: usize) -> (r: Vec<Rect>)
    requires
        face < 6,
        block < blocks@.len(),
        tree.sound(),
        places_known(blocks@, covers@),
        forall|c: FaceCandidate| #[trigger]
            tree.faces().contains(c) <==> covers@.contains(c.block) && c == candidate(blocks@, c.block, face as int),
    ensures
        r@ == left_over(
            face_rect(blocks@[block as int], face as int),
            gathered(tree.faces(), face_rect(blocks@[block as int], face as int), block),
        ),
        forall|x: int, y: int| #[trigger]
            in_any(r@, x, y) <==> inside(face_rect(blocks@[block as int], face as int), x, y) && !covered_at(blocks@, covers@, face as int, block, x, y),
{
    let own = block_face_rect(&blocks[block], face);
    let mut found: Vec<FaceCandidate> = Vec::new();
    tree.query(own, &mut found);
    proof {
        assert(found@ =~= faces_at(tree.faces(), own));
        lemma_gathered_at(tree.faces(), own, block);
    }
    let mut covered: Vec<Rect> = Vec::new();
    let mut i: usize = 0;
    assert(found@.take(0) =~= Seq::<FaceCandidate>::empty());
    while i < found.len()
        invariant
            i <= found.len(),
            found@ == faces_at(tree.faces(), own),
            covered@ == gathered(found@.take(i as int), own, block),
        decreases found.len() - i,
    {
        let c = found[i];
        proof {
            assert(found@.take(i + 1).drop_last() =~= found@.take(i as int));
            crate::ids::lemma_filter_members(tree.faces(), |c: FaceCandidate| overlapping(c.rect, own));
            assert(faces_at(tree.faces(), own).contains(c));
        }
        if c.block != block {
            covered.push(intersect(own, c.rect));
        }
        i += 1;
    }
    assert(found@.take(found@.len() as int) =~= found@);
    let r = uncovered_face_rects(own, &covered);
    proof {
        assert forall|x: int, y: int| #[trigger]
            in_any(r@, x, y) <==> inside(own, x, y) && !covered_at(blocks@, covers@, face as int, block, x, y) by {
            assert(in_any(r@, x, y) <==> inside(own, x, y) && !in_any(covered@, x, y));
            lemma_gathered_in(tree.faces(), own, block, x, y);
            if inside(own, x, y) && covered_at(blocks@, covers@, face as int, block, x, y) {
                let c = choose|c: usize| #[trigger] covers@.contains(c) && c != block && inside(face_rect(blocks@[c as int], face as int), x, y);
                let cand = candidate(blocks@, c, face as int);
                assert(tree.faces().contains(cand));
                let k = choose|k: int| 0 <= k < tree.faces().len() && tree.faces()[k] == cand;
                assert(tree.faces()[k].block != block);
            }
            if inside(own, x, y) && in_any(covered@, x, y) {
                let k = choose|k: int| 0 <= k < tree.faces().len() && (#[trigger] tree.faces()[k]).block != block && inside(tree.faces()[k].rect, x, y);
                assert(tree.faces().contains(tree.faces()[k]));
                assert(covers@.contains(tree.faces()[k].block));
            }
        }
    }
    r
}

/// One of these blocks shows its face at the point.
pub open spec fn plane_shown(blocks: Seq<BlockBox>, own: Seq<usize>, covers: Seq<usize>, face: int, x: int, y: int) -> bool {
    exists|b: usize| #[trigger] own.contains(b) && inside(face_rect(blocks[b as int], face), x, y) && !covered_at(blocks, covers, face, b, x, y)
}

/// The outer surface in one plane, in cells that meet edge to edge.
fn tiles_of_plane<F: Fn(Spread) -> bool>(blocks: &Vec<BlockBox>, own: &Vec<usize>, covers: &Vec<usize>, face: usize, wider: &F) -> (r: Vec<Rect>)
    requires
        forall|s: Spread| call_requires(*wider, (s,)),
        own@.len() > 0,
        face < 6,
        places_known(blocks@, own@),
        places_known(blocks@, covers@),
    ensures
        plane_cut(blocks@, own@, covers@, face as int, axes(*wider), r@),
        forall|x: int, y: int| #[trigger] in_any(r@, x, y) <==> plane_shown(blocks@, own@, covers@, face as int, x, y),
        disjoint(r@),
{
    let candidates = find_candidates(blocks, covers, face);
    let ghost listed = candidates@;
    let tree = FaceRectBvh::build(candidates, wider);
    proof {
        lemma_built(tree, listed, axes(*wider));
        assert forall|c: FaceCandidate| #[trigger]
            tree.faces().contains(c) <==> covers@.contains(c.block) && c == candidate(blocks@, c.block, face as int) by {
            lemma_same_members(tree.faces(), listed, c);
            if listed.contains(c) {
                let i = choose|i: int| 0 <= i < listed.len() && listed[i] == c;
                assert(covers@[i] == c.block);
            }
            if covers@.contains(c.block) && c == candidate(blocks@, c.block, face as int) {
                let i = choose|i: int| 0 <= i < covers@.len() && covers@[i] == c.block;
                assert(listed[i] == c);
            }
        }
    }
    let mut open: Vec<Rect> = Vec::new();
    let mut i: usize = 0;
    assert(own@.take(0) =~= Seq::<usize>::empty());
    while i < own.len()
        invariant
            i <= own.len(),
            face < 6,
            places_known(blocks@, own@),
            places_known(blocks@, covers@),
            tree.sound(),
            forall|c: FaceCandidate| #[trigger]
                tree.faces().contains(c) <==> covers@.contains(c.block) && c == candidate(blocks@, c.block, face as int),
            open@ == pieces_of(blocks@, own@.take(i as int), tree.faces(), face as int),
            forall|x: int, y: int| #[trigger] in_any(open@, x, y) <==> plane_shown(blocks@, own@.take(i as int), covers@, face as int, x, y),
        decreases own.len() - i,
    {
        let ghost before = open@;
        let b: usize = own[i];
        assert(own@[i as int] < blocks@.len());
        let mut rest = uncovered_of(blocks, &tree, Ghost(covers@), face, b);
        let ghost piece = rest@;
        open.append(&mut rest);
        proof {
            assert(open@ =~= before + piece);
            assert(own@.take(i + 1) =~= own@.take(i as int).push(b));
            assert(own@.take(i + 1).drop_last() =~= own@.take(i as int));
            lemma_push_contains(own@.take(i as int), b);
            assert forall|x: int, y: int| #[trigger]
                in_any(open@, x, y) <==> plane_shown(blocks@, own@.take(i + 1), covers@, face as int, x, y) by {
                lemma_in_concat(before, piece, x, y);
                assert(in_any(before, x, y) <==> plane_shown(blocks@, own@.take(i as int), covers@, face as int, x, y));
                assert(in_any(piece, x, y) <==> inside(face_rect(blocks@[b as int], face as int), x, y) && !covered_at(
                    blocks@,
                    covers@,
                    face as int,
                    b,
                    x,
                    y,
                ));
                if plane_shown(blocks@, own@.take(i as int), covers@, face as int, x, y) {
                    let w = choose|w: usize| #[trigger]
                        own@.take(i as int).contains(w) && inside(face_rect(blocks@[w as int], face as int), x, y) && !covered_at(
                            blocks@,
                            covers@,
                            face as int,
                            w,
                            x,
                            y,
                        );
                    assert(own@.take(i + 1).contains(w));
                }
                if in_any(piece, x, y) {
                    assert(own@.take(i + 1).contains(b));
                }
            }
        }
        i += 1;
    }
    assert(own@.take(own@.len() as int) =~= own@);
    let r = conforming_rect_tiles(&open);
    assert(tree.built(candidate_list(blocks@, covers@, face as int), axes(*wider)));
    r
}

/// Blocks sorted by the plane of one face.
struct Groups {
    keys: Vec<u64>,
    members: Vec<Vec<usize>>,
    index: HashMap<u64, usize>,
}

impl Groups {
    spec fn sound(&self, blocks: Seq<BlockBox>, selected: Seq<usize>, face: int) -> bool {
        &&& self.keys@.len() == self.members@.len()
        &&& self.keys@.no_duplicates()
        &&& forall|k: u64| #[trigger] self.index@.contains_key(k) <==> self.keys@.contains(k)
        &&& forall|k: u64| #[trigger] self.index@.contains_key(k) ==> self.index@[k] < self.keys@.len() && self.keys@[self.index@[k] as int] == k
        &&& forall|g: int| 0 <= g < self.keys@.len() ==> (#[trigger] self.members@[g])@ == members_of(blocks, selected, face, self.keys@[g])
        &&& forall|b: usize| #[trigger] selected.contains(b) ==> self.keys@.contains(blocks[b as int].planes[face])
        &&& forall|g: int| 0 <= g < self.keys@.len() ==> (#[trigger] self.members@[g])@.len() > 0
    }
}

proof fn lemma_members(blocks: Seq<BlockBox>, s: Seq<usize>, face: int, key: u64, b: usize)
    ensures
        members_of(blocks, s, face, key).contains(b) <==> s.contains(b) && blocks[b as int].planes[face] == key,
    decreases s.len(),
{
    if s.len() > 0 {
        let less = s.drop_last();
        lemma_members(blocks, less, face, key, b);
        assert(s =~= less.push(s.last()));
        lemma_push_contains(less, s.last());
        lemma_push_contains(members_of(blocks, less, face, key), s.last());
    }
}

fn group_planes(blocks: &Vec<BlockBox>, selected: &Vec<usize>, face: usize) -> (r: Groups)
    requires
        face < 6,
        places_known(blocks@, selected@),
    ensures
        r.sound(blocks@, selected@, face as int),
{
    let mut g = Groups { keys: Vec::new(), members: Vec::new(), index: HashMap::new() };
    let mut i: usize = 0;
    while i < selected.len()
        invariant
            i <= selected.len(),
            face < 6,
            places_known(blocks@, selected@),
            g.sound(blocks@, selected@.take(i as int), face as int),
        decreases selected.len() - i,
    {
        let b: usize = selected[i];
        assert(selected@[i as int] < blocks@.len());
        let key: u64 = blocks[b].planes[face];
        let ghost before = g;
        let ghost had = selected@.take(i as int);
        proof {
            assert(selected@.take(i + 1) =~= had.push(b));
            assert(selected@.take(i + 1).drop_last() =~= had);
            lemma_push_contains(had, b);
        }
        let known: Option<usize> = match g.index.get(&key) {
            Some(at) => Some(*at),
            None => None,
        };
        match known {
            Some(at) => {
                let ghost list = g.members@[at as int]@;
                assert(g.keys@[at as int] == key);
                g.members[at].push(b);
                proof {
                    assert forall|q: int| 0 <= q < g.keys@.len() implies (#[trigger] g.members@[q])@ == members_of(
                        blocks@,
                        selected@.take(i + 1),
                        face as int,
                        g.keys@[q],
                    ) by {
                        assert(before.members@[q]@ == members_of(blocks@, had, face as int, before.keys@[q]));
                        if q != at {
                            assert(g.members@[q] == before.members@[q]);
                            assert(g.keys@[q] != key);
                        } else {
                            assert(g.members@[q]@ == list.push(b));
                        }
                    }
                    assert forall|q: int| 0 <= q < g.keys@.len() implies (#[trigger] g.members@[q])@.len() > 0 by {
                        if q != at {
                            assert(g.members@[q] == before.members@[q]);
                        }
                    }
                }
            },
            None => {
                let mut list: Vec<usize> = Vec::new();
                list.push(b);
                let at: usize = g.keys.len();
                g.index.insert(key, at);
                g.keys.push(key);
                g.members.push(list);
                proof {
                    lemma_push_contains(before.keys@, key);
                    assert(!before.keys@.contains(key));
                    assert forall|q: int| 0 <= q < g.keys@.len() implies (#[trigger] g.members@[q])@ == members_of(
                        blocks@,
                        selected@.take(i + 1),
                        face as int,
                        g.keys@[q],
                    ) by {
                        if q < at {
                            assert(g.members@[q] == before.members@[q]);
                            assert(before.members@[q]@ == members_of(blocks@, had, face as int, before.keys@[q]));
                            assert(before.keys@.contains(before.keys@[q]));
                        } else {
                            let m = members_of(blocks@, had, face as int, key);
                            if m.len() > 0 {
                                assert(m.contains(m[0]));
                                lemma_members(blocks@, had, face as int, key, m[0]);
                                assert(before.keys@.contains(blocks@[m[0] as int].planes[face as int]));
                            }
                            assert(m =~= Seq::<usize>::empty());
                            assert(list@ =~= m.push(b));
                        }
                    }
                    assert forall|q: int| 0 <= q < g.keys@.len() implies (#[trigger] g.members@[q])@.len() > 0 by {
                        if q < at {
                            assert(g.members@[q] == before.members@[q]);
                        }
                    }
                    assert forall|k: u64| #[trigger] g.index@.contains_key(k) implies g.index@[k] < g.keys@.len() && g.keys@[g.index@[k] as int] == k by {
                        if k != key {
                            assert(before.index@.contains_key(k));
                        }
                    }
                    assert(g.keys@.no_duplicates());
                    assert forall|w: usize| #[trigger] selected@.take(i + 1).contains(w) implies g.keys@.contains(blocks@[w as int].planes[face as int]) by {
                        if had.contains(w) {
                            assert(before.keys@.contains(blocks@[w as int].planes[face as int]));
                        }
                    }
                }
            },
        }
        i += 1;
    }
    assert(selected@.take(selected@.len() as int) =~= selected@);
    g
}

/// The outer surface of one direction.
pub open spec fn face_tiled(blocks: Seq<BlockBox>, selected: Seq<usize>, face: int, axis: spec_fn(Spread, bool) -> bool, tiles: Seq<FaceTile>) -> bool {
    &&& forall|i: int| 0 <= i < tiles.len() ==> (#[trigger] tiles[i]).face == face
    &&& forall|key: u64, x: int, y: int| #[trigger] tiled_at(tiles, face, key, x, y) <==> shown_at(blocks, selected, face, key, x, y)
    &&& tiles_apart(tiles)
    &&& tiles_placed(blocks, selected, tiles)
    &&& forall|key: u64| #[trigger] face_cut(blocks, selected, face, key, axis, tiles)
}

proof fn lemma_rects_on_joined(a: Seq<FaceTile>, b: Seq<FaceTile>, face: int, key: u64)
    ensures
        rects_on(a + b, face, key) == rects_on(a, face, key) + rects_on(b, face, key),
    decreases b.len(),
{
    if b.len() == 0 {
        assert(a + b =~= a);
        assert(rects_on(a, face, key) + rects_on(b, face, key) =~= rects_on(a, face, key));
    } else {
        lemma_rects_on_joined(a, b.drop_last(), face, key);
        assert((a + b).drop_last() =~= a + b.drop_last());
        assert(rects_on(a + b, face, key) =~= rects_on(a, face, key) + rects_on(b, face, key));
    }
}

proof fn lemma_rects_elsewhere(tiles: Seq<FaceTile>, face: int, key: u64)
    requires
        forall|i: int| 0 <= i < tiles.len() ==> (#[trigger] tiles[i]).face != face || tiles[i].key != key,
    ensures
        rects_on(tiles, face, key) == Seq::<Rect>::empty(),
    decreases tiles.len(),
{
    if tiles.len() > 0 {
        assert forall|i: int| 0 <= i < tiles.drop_last().len() implies (#[trigger] tiles.drop_last()[i]).face != face || tiles.drop_last()[i].key != key by {
            assert(tiles.drop_last()[i] == tiles[i]);
        }
        lemma_rects_elsewhere(tiles.drop_last(), face, key);
        assert(tiles[tiles.len() - 1] == tiles.last());
    }
}

proof fn lemma_rects_there(tiles: Seq<FaceTile>, rects: Seq<Rect>, face: int, key: u64)
    requires
        tiles.len() == rects.len(),
        forall|i: int| 0 <= i < tiles.len() ==> (#[trigger] tiles[i]).face == face && tiles[i].key == key && tiles[i].rect == rects[i],
    ensures
        rects_on(tiles, face, key) == rects,
    decreases tiles.len(),
{
    if tiles.len() > 0 {
        assert forall|i: int| 0 <= i < tiles.drop_last().len() implies (#[trigger] tiles.drop_last()[i]).face == face && tiles.drop_last()[i].key == key
            && tiles.drop_last()[i].rect == rects.drop_last()[i] by {
            assert(tiles.drop_last()[i] == tiles[i]);
        }
        lemma_rects_there(tiles.drop_last(), rects.drop_last(), face, key);
        assert(tiles[tiles.len() - 1] == tiles.last());
    }
    assert(rects_on(tiles, face, key) =~= rects);
}

/// The cells of one plane as parts of the outer surface.
fn place_tiles(tiles: &mut Vec<FaceTile>, rects: &Vec<Rect>, face: usize, key: u64, plane: u64)
    ensures
        final(tiles)@.len() == old(tiles)@.len() + rects@.len(),
        forall|i: int| 0 <= i < old(tiles)@.len() ==> #[trigger] final(tiles)@[i] == old(tiles)@[i],
        forall|i: int| 0 <= i < rects@.len() ==> #[trigger] final(tiles)@[old(tiles)@.len() + i] == (FaceTile { face, key, plane, rect: rects@[i] }),
{
    let ghost n = tiles@.len();
    let mut i: usize = 0;
    while i < rects.len()
        invariant
            i <= rects.len(),
            n == old(tiles)@.len(),
            tiles@.len() == n + i,
            forall|j: int| 0 <= j < n ==> #[trigger] tiles@[j] == old(tiles)@[j],
            forall|j: int| 0 <= j < i ==> #[trigger] tiles@[n + j] == (FaceTile { face, key, plane, rect: rects@[j] }),
        decreases rects.len() - i,
    {
        tiles.push(FaceTile { face, key, plane, rect: rects[i] });
        i += 1;
    }
}

/// The planes of the first `g` keys are tiled.
spec fn tiled_upto(
    blocks: Seq<BlockBox>,
    selected: Seq<usize>,
    face: int,
    keys: Seq<u64>,
    g: int,
    axis: spec_fn(Spread, bool) -> bool,
    tiles: Seq<FaceTile>,
) -> bool {
    &&& forall|i: int| 0 <= i < tiles.len() ==> (#[trigger] tiles[i]).face == face
    &&& forall|i: int| 0 <= i < tiles.len() ==> keys.take(g).contains((#[trigger] tiles[i]).key)
    &&& forall|key: u64, x: int, y: int| #[trigger]
        tiled_at(tiles, face, key, x, y) <==> keys.take(g).contains(key) && shown_at(blocks, selected, face, key, x, y)
    &&& tiles_apart(tiles)
    &&& tiles_placed(blocks, selected, tiles)
    &&& forall|k: int| 0 <= k < g ==> face_cut(blocks, selected, face, #[trigger] keys[k], axis, tiles)
}

proof fn lemma_plane_shown(blocks: Seq<BlockBox>, selected: Seq<usize>, own: Seq<usize>, covers: Seq<usize>, face: int, key: u64, x: int, y: int)
    requires
        forall|b: usize| #[trigger] own.contains(b) <==> selected.contains(b) && blocks[b as int].planes[face] == key,
        forall|b: usize| #[trigger] covers.contains(b) <==> selected.contains(b) && blocks[b as int].planes[opposite(face)] == key,
    ensures
        plane_shown(blocks, own, covers, face, x, y) <==> shown_at(blocks, selected, face, key, x, y),
{
    assert forall|b: usize| covered_at(blocks, covers, face, b, x, y) <==> hidden_at(blocks, selected, face, key, b, x, y) by {
        if covered_at(blocks, covers, face, b, x, y) {
            let c = choose|c: usize| #[trigger] covers.contains(c) && c != b && inside(face_rect(blocks[c as int], face), x, y);
            assert(selected.contains(c));
        }
        if hidden_at(blocks, selected, face, key, b, x, y) {
            let c = choose|c: usize| #[trigger]
                selected.contains(c) && c != b && blocks[c as int].planes[opposite(face)] == key && inside(face_rect(blocks[c as int], face), x, y);
            assert(covers.contains(c));
        }
    }
    if plane_shown(blocks, own, covers, face, x, y) {
        let b = choose|b: usize| #[trigger]
            own.contains(b) && inside(face_rect(blocks[b as int], face), x, y) && !covered_at(blocks, covers, face, b, x, y);
        assert(selected.contains(b));
    }
    if shown_at(blocks, selected, face, key, x, y) {
        let b = choose|b: usize| #[trigger]
            selected.contains(b) && blocks[b as int].planes[face] == key && inside(face_rect(blocks[b as int], face), x, y) && !hidden_at(
                blocks,
                selected,
                face,
                key,
                b,
                x,
                y,
            );
        assert(own.contains(b));
    }
}

proof fn lemma_plane_added(
    blocks: Seq<BlockBox>,
    selected: Seq<usize>,
    face: int,
    keys: Seq<u64>,
    g: int,
    before: Seq<FaceTile>,
    rects: Seq<Rect>,
    block: usize,
    axis: spec_fn(Spread, bool) -> bool,
    tiles: Seq<FaceTile>,
)
    requires
        0 <= face < 6,
        0 <= g < keys.len(),
        keys.no_duplicates(),
        tiled_upto(blocks, selected, face, keys, g, axis, before),
        disjoint(rects),
        forall|x: int, y: int| #[trigger] in_any(rects, x, y) <==> shown_at(blocks, selected, face, keys[g], x, y),
        members_of(blocks, selected, face, keys[g]).len() > 0,
        block == members_of(blocks, selected, face, keys[g])[0],
        plane_cut(
            blocks,
            members_of(blocks, selected, face, keys[g]),
            members_of(blocks, selected, opposite(face), keys[g]),
            face,
            axis,
            rects,
        ),
        tiles.len() == before.len() + rects.len(),
        forall|i: int| 0 <= i < before.len() ==> #[trigger] tiles[i] == before[i],
        forall|i: int|
            0 <= i < rects.len() ==> #[trigger] tiles[before.len() + i] == (FaceTile {
                face: face as usize,
                key: keys[g],
                plane: face_plane(blocks[block as int], face),
                rect: rects[i],
            }),
    ensures
        tiled_upto(blocks, selected, face, keys, g + 1, axis, tiles),
{
    let n = before.len() as int;
    let old_keys = keys.take(g);
    let new_keys = keys.take(g + 1);
    assert(new_keys =~= old_keys.push(keys[g]));
    lemma_push_contains(old_keys, keys[g]);
    assert(!old_keys.contains(keys[g])) by {
        if old_keys.contains(keys[g]) {
            let i = choose|i: int| 0 <= i < old_keys.len() && old_keys[i] == keys[g];
            assert(keys[i] == keys[g]);
        }
    }
    assert forall|i: int| 0 <= i < tiles.len() implies (#[trigger] tiles[i]).face == face && new_keys.contains(tiles[i].key) by {
        if i < n {
            assert(tiles[i] == before[i]);
        } else {
            assert(tiles[n + (i - n)] == tiles[i]);
        }
    }
    assert forall|key: u64, x: int, y: int| #[trigger]
        tiled_at(tiles, face, key, x, y) <==> new_keys.contains(key) && shown_at(blocks, selected, face, key, x, y) by {
        assert(tiled_at(before, face, key, x, y) <==> old_keys.contains(key) && shown_at(blocks, selected, face, key, x, y));
        if tiled_at(tiles, face, key, x, y) {
            let i = choose|i: int| 0 <= i < tiles.len() && (#[trigger] tiles[i]).face == face && tiles[i].key == key && inside(tiles[i].rect, x, y);
            if i < n {
                assert(before[i] == tiles[i]);
                assert(tiled_at(before, face, key, x, y));
            } else {
                assert(tiles[n + (i - n)] == tiles[i]);
                assert(inside(rects[i - n], x, y));
                assert(in_any(rects, x, y));
            }
        }
        if tiled_at(before, face, key, x, y) {
            let i = choose|i: int| 0 <= i < before.len() && (#[trigger] before[i]).face == face && before[i].key == key && inside(before[i].rect, x, y);
            assert(tiles[i] == before[i]);
        }
        if key == keys[g] && shown_at(blocks, selected, face, key, x, y) {
            assert(in_any(rects, x, y));
            let i = choose|i: int| 0 <= i < rects.len() && inside(#[trigger] rects[i], x, y);
            assert(tiles[n + i].rect == rects[i]);
        }
    }
    assert forall|i: int, j: int| 0 <= i < j < tiles.len() implies apart(#[trigger] tiles[i], #[trigger] tiles[j]) by {
        if j < n {
            assert(tiles[i] == before[i] && tiles[j] == before[j]);
        } else {
            assert(tiles[n + (j - n)] == tiles[j]);
            if i < n {
                assert(tiles[i] == before[i]);
                assert(old_keys.contains(before[i].key));
            } else {
                assert(tiles[n + (i - n)] == tiles[i]);
                assert forall|x: int, y: int| !(#[trigger] inside(tiles[i].rect, x, y) && inside(tiles[j].rect, x, y)) by {
                    assert(!(inside(rects[i - n], x, y) && inside(rects[j - n], x, y)));
                }
            }
        }
    }
    assert forall|i: int| 0 <= i < tiles.len() implies tile_placed(blocks, selected, #[trigger] tiles[i]) by {
        if i < n {
            assert(tiles[i] == before[i]);
        } else {
            assert(tiles[n + (i - n)] == tiles[i]);
        }
    }
    let fresh = tiles.skip(n);
    assert(tiles =~= before + fresh);
    assert forall|i: int| 0 <= i < fresh.len() implies (#[trigger] fresh[i]).face == face && fresh[i].key == keys[g] && fresh[i].rect == rects[i] by {
        assert(tiles[n + i] == fresh[i]);
    }
    assert forall|k: int| 0 <= k < g + 1 implies face_cut(blocks, selected, face, #[trigger] keys[k], axis, tiles) by {
        lemma_rects_on_joined(before, fresh, face, keys[k]);
        if k < g {
            assert(keys[k] != keys[g]);
            lemma_rects_elsewhere(fresh, face, keys[k]);
            assert(rects_on(tiles, face, keys[k]) =~= rects_on(before, face, keys[k]));
            assert(face_cut(blocks, selected, face, keys[k], axis, before));
        } else {
            assert forall|i: int| 0 <= i < before.len() implies (#[trigger] before[i]).face != face || before[i].key != keys[g] by {
                assert(old_keys.contains(before[i].key));
            }
            lemma_rects_elsewhere(before, face, keys[g]);
            lemma_rects_there(fresh, rects, face, keys[g]);
            assert(rects_on(tiles, face, keys[g]) =~= rects);
        }
    }
}

fn tiles_of_face<F: Fn(Spread) -> bool>(blocks: &Vec<BlockBox>, selected: &Vec<usize>, face: usize, wider: &F) -> (r: Vec<FaceTile>)
    requires
        forall|s: Spread| call_requires(*wider, (s,)),
        face < 6,
        places_known(blocks@, selected@),
    ensures
        face_tiled(blocks@, selected@, face as int, axes(*wider), r@),
{
    let other: usize = if face % 2 == 0 {
        face + 1
    } else {
        face - 1
    };
    let own = group_planes(blocks, selected, face);
    let far = group_planes(blocks, selected, other);
    let none: Vec<usize> = Vec::new();
    let ghost axis = axes(*wider);
    let mut tiles: Vec<FaceTile> = Vec::new();
    let mut g: usize = 0;
    assert(tiled_upto(blocks@, selected@, face as int, own.keys@, 0, axis, tiles@));
    while g < own.keys.len()
        invariant
            g <= own.keys@.len(),
            axis == axes(*wider),
            forall|s: Spread| call_requires(*wider, (s,)),
            face < 6,
            other < 6,
            other == opposite(face as int),
            places_known(blocks@, selected@),
            own.sound(blocks@, selected@, face as int),
            far.sound(blocks@, selected@, other as int),
            none@.len() == 0,
            tiled_upto(blocks@, selected@, face as int, own.keys@, g as int, axis, tiles@),
        decreases own.keys.len() - g,
    {
        let key: u64 = own.keys[g];
        let ghost before = tiles@;
        let covers: &Vec<usize> = match far.index.get(&key) {
            Some(at) => {
                assert(far.index@.contains_key(key));
                &far.members[*at]
            },
            None => &none,
        };
        let members = &own.members[g];
        proof {
            assert(own.members@[g as int]@ == members_of(blocks@, selected@, face as int, key));
            if far.index@.contains_key(key) {
                let at = far.index@[key] as int;
                assert(far.members@[at]@ == members_of(blocks@, selected@, other as int, far.keys@[at]));
            } else {
                let m = members_of(blocks@, selected@, other as int, key);
                if m.len() > 0 {
                    assert(m.contains(m[0]));
                    lemma_members(blocks@, selected@, other as int, key, m[0]);
                    assert(far.keys@.contains(blocks@[m[0] as int].planes[other as int]));
                }
                assert(covers@ =~= m);
            }
            assert(covers@ == members_of(blocks@, selected@, other as int, key));
            assert forall|b: usize| #[trigger] members@.contains(b) <==> selected@.contains(b) && blocks@[b as int].planes[face as int] == key by {
                lemma_members(blocks@, selected@, face as int, key, b);
            }
            assert forall|b: usize| #[trigger] covers@.contains(b) <==> selected@.contains(b) && blocks@[b as int].planes[other as int] == key by {
                lemma_members(blocks@, selected@, other as int, key, b);
            }
            lemma_known(blocks@, selected@, members@);
            lemma_known(blocks@, selected@, covers@);
        }
        let rects = tiles_of_plane(blocks, members, covers, face, wider);
        assert(own.members@[g as int]@.len() > 0);
        let first: usize = members[0];
        assert(members@.contains(first));
        let plane: u64 = find_face_plane(&blocks[first], face);
        place_tiles(&mut tiles, &rects, face, key, plane);
        proof {
            assert forall|x: int, y: int| #[trigger] in_any(rects@, x, y) <==> shown_at(blocks@, selected@, face as int, key, x, y) by {
                lemma_plane_shown(blocks@, selected@, members@, covers@, face as int, key, x, y);
            }
            lemma_plane_added(blocks@, selected@, face as int, own.keys@, g as int, before, rects@, first, axis, tiles@);
        }
        g += 1;
    }
    proof {
        assert(own.keys@.take(own.keys@.len() as int) =~= own.keys@);
        assert forall|key: u64| #[trigger] face_cut(blocks@, selected@, face as int, key, axis, tiles@) by {
            if own.keys@.contains(key) {
                let k = choose|k: int| 0 <= k < own.keys@.len() && own.keys@[k] == key;
                assert(face_cut(blocks@, selected@, face as int, own.keys@[k], axis, tiles@));
            } else {
                let m = members_of(blocks@, selected@, face as int, key);
                if m.len() > 0 {
                    assert(m.contains(m[0]));
                    lemma_members(blocks@, selected@, face as int, key, m[0]);
                    assert(own.keys@.contains(blocks@[m[0] as int].planes[face as int]));
                }
                assert(m =~= Seq::<usize>::empty());
                lemma_rects_elsewhere(tiles@, face as int, key);
            }
        }
        assert forall|key: u64, x: int, y: int| #[trigger]
            tiled_at(tiles@, face as int, key, x, y) <==> shown_at(blocks@, selected@, face as int, key, x, y) by {
            if shown_at(blocks@, selected@, face as int, key, x, y) {
                let b = choose|b: usize| #[trigger]
                    selected@.contains(b) && blocks@[b as int].planes[face as int] == key && inside(face_rect(blocks@[b as int], face as int), x, y)
                        && !hidden_at(blocks@, selected@, face as int, key, b, x, y);
                assert(own.keys@.contains(key));
            }
        }
    }
    tiles
}

proof fn lemma_known(blocks: Seq<BlockBox>, selected: Seq<usize>, part: Seq<usize>)
    requires
        places_known(blocks, selected),
        forall|b: usize| #[trigger] part.contains(b) ==> selected.contains(b),
    ensures
        places_known(blocks, part),
{
    assert forall|i: int| 0 <= i < part.len() implies (#[trigger] part[i]) < blocks.len() by {
        assert(part.contains(part[i]));
        let j = choose|j: int| 0 <= j < selected.len() && selected[j] == part[i];
        assert(selected[j] < blocks.len());
    }
}

/// Why blocks cannot be tiled: the first that is not there or has no proper
/// corners, among the first `n`.
pub open spec fn blocks_refused(blocks: Seq<BlockBox>, selected: Seq<usize>, n: int) -> Option<AppError>
    decreases n,
{
    if n <= 0 {
        None
    } else {
        match blocks_refused(blocks, selected, n - 1) {
            Some(e) => Some(e),
            None => if selected[n - 1] >= blocks.len() {
                Some(AppError::BlockIndexOutside)
            } else if !block_valid(blocks[selected[n - 1] as int]) {
                Some(AppError::BlockBoundsInvalid)
            } else {
                None
            },
        }
    }
}

fn is_block_valid(b: &BlockBox) -> (r: bool)
    ensures
        r == block_valid(*b),
{
    finite64(b.lower.x) && finite64(b.lower.y) && finite64(b.lower.z) && finite64(b.upper.x) && finite64(b.upper.y) && finite64(b.upper.z) && less64(
        b.lower.x,
        b.upper.x,
    ) && less64(b.lower.y, b.upper.y) && less64(b.lower.z, b.upper.z)
}

/// The outer surface of blocks: every point of a face that no other selected
/// block touches from the other side, once, cut in every plane along all edges
/// of what is left there. The faces come in turn.
pub open spec fn surface_tiled(blocks: Seq<BlockBox>, selected: Seq<usize>, axis: spec_fn(Spread, bool) -> bool, tiles: Seq<FaceTile>) -> bool {
    &&& forall|face: int, key: u64, x: int, y: int|
        0 <= face < 6 ==> (#[trigger] tiled_at(tiles, face, key, x, y) <==> shown_at(blocks, selected, face, key, x, y))
    &&& tiles_apart(tiles)
    &&& tiles_placed(blocks, selected, tiles)
    &&& forall|i: int| 0 <= i < tiles.len() ==> (#[trigger] tiles[i]).face < 6
    &&& forall|face: int, key: u64| 0 <= face < 6 ==> #[trigger] face_cut(blocks, selected, face, key, axis, tiles)
    &&& forall|i: int, j: int| 0 <= i < j < tiles.len() ==> (#[trigger] tiles[i]).face <= (#[trigger] tiles[j]).face
}

proof fn lemma_refused_stops(blocks: Seq<BlockBox>, selected: Seq<usize>, i: int, n: int)
    requires
        0 < i <= n,
        blocks_refused(blocks, selected, i) is Some,
    ensures
        blocks_refused(blocks, selected, n) == blocks_refused(blocks, selected, i),
    decreases n - i,
{
    if i < n {
        lemma_refused_stops(blocks, selected, i, n - 1);
    }
}

/// The faces below `f` are tiled.
spec fn faces_tiled(blocks: Seq<BlockBox>, selected: Seq<usize>, f: int, axis: spec_fn(Spread, bool) -> bool, tiles: Seq<FaceTile>) -> bool {
    &&& forall|face: int, key: u64, x: int, y: int|
        0 <= face < f ==> (#[trigger] tiled_at(tiles, face, key, x, y) <==> shown_at(blocks, selected, face, key, x, y))
    &&& tiles_apart(tiles)
    &&& tiles_placed(blocks, selected, tiles)
    &&& forall|i: int| 0 <= i < tiles.len() ==> (#[trigger] tiles[i]).face < f
    &&& forall|face: int, key: u64| 0 <= face < f ==> #[trigger] face_cut(blocks, selected, face, key, axis, tiles)
    &&& forall|i: int, j: int| 0 <= i < j < tiles.len() ==> (#[trigger] tiles[i]).face <= (#[trigger] tiles[j]).face
}

proof fn lemma_face_added(
    blocks: Seq<BlockBox>,
    selected: Seq<usize>,
    f: int,
    axis: spec_fn(Spread, bool) -> bool,
    before: Seq<FaceTile>,
    more: Seq<FaceTile>,
)
    requires
        0 <= f < 6,
        faces_tiled(blocks, selected, f, axis, before),
        face_tiled(blocks, selected, f, axis, more),
    ensures
        faces_tiled(blocks, selected, f + 1, axis, before + more),
{
    let all = before + more;
    let n = before.len() as int;
    assert forall|face: int, key: u64, x: int, y: int| 0 <= face < f + 1 implies (#[trigger] tiled_at(all, face, key, x, y) <==> shown_at(
        blocks,
        selected,
        face,
        key,
        x,
        y,
    )) by {
        if tiled_at(all, face, key, x, y) {
            let i = choose|i: int| 0 <= i < all.len() && (#[trigger] all[i]).face == face && all[i].key == key && inside(all[i].rect, x, y);
            if i < n {
                assert(before[i] == all[i]);
                assert(tiled_at(before, face, key, x, y));
            } else {
                assert(more[i - n] == all[i]);
                assert(tiled_at(more, face, key, x, y));
            }
        }
        if shown_at(blocks, selected, face, key, x, y) {
            if face < f {
                assert(tiled_at(before, face, key, x, y));
                let i = choose|i: int| 0 <= i < before.len() && (#[trigger] before[i]).face == face && before[i].key == key && inside(before[i].rect, x, y);
                assert(all[i] == before[i]);
            } else {
                assert(tiled_at(more, face, key, x, y));
                let i = choose|i: int| 0 <= i < more.len() && (#[trigger] more[i]).face == face && more[i].key == key && inside(more[i].rect, x, y);
                assert(all[n + i] == more[i]);
            }
        }
    }
    assert forall|i: int, j: int| 0 <= i < j < all.len() implies apart(#[trigger] all[i], #[trigger] all[j]) by {
        if j < n {
            assert(all[i] == before[i] && all[j] == before[j]);
        } else if i >= n {
            assert(all[i] == more[i - n] && all[j] == more[j - n]);
        } else {
            assert(all[i] == before[i] && all[j] == more[j - n]);
        }
    }
    assert forall|i: int| 0 <= i < all.len() implies tile_placed(blocks, selected, #[trigger] all[i]) by {
        if i < n {
            assert(before[i] == all[i]);
        } else {
            assert(more[i - n] == all[i]);
        }
    }
    assert forall|face: int, key: u64| 0 <= face < f + 1 implies #[trigger] face_cut(blocks, selected, face, key, axis, all) by {
        lemma_rects_on_joined(before, more, face, key);
        if face < f {
            lemma_rects_elsewhere(more, face, key);
            assert(face_cut(blocks, selected, face, key, axis, before));
            assert(rects_on(all, face, key) =~= rects_on(before, face, key));
        } else {
            lemma_rects_elsewhere(before, face, key);
            assert(face_cut(blocks, selected, face, key, axis, more));
            assert(rects_on(all, face, key) =~= rects_on(more, face, key));
        }
    }
    assert forall|i: int, j: int| 0 <= i < j < all.len() implies (#[trigger] all[i]).face <= (#[trigger] all[j]).face by {
        if j < n {
            assert(all[i] == before[i] && all[j] == before[j]);
        } else {
            assert(all[j] == more[j - n]);
            if i < n {
                assert(all[i] == before[i]);
            } else {
                assert(all[i] == more[i - n]);
            }
        }
    }
    assert forall|i: int| 0 <= i < all.len() implies (#[trigger] all[i]).face < f + 1 by {
        if i < n {
            assert(all[i] == before[i]);
        } else {
            assert(all[i] == more[i - n]);
        }
    }
}

proof fn lemma_firsts<T>(s: Seq<T>)
    ensures
        firsts(s).no_duplicates(),
        forall|x: T| #[trigger] firsts(s).contains(x) <==> s.contains(x),
    decreases s.len(),
{
    if s.len() > 0 {
        let less = s.drop_last();
        lemma_firsts(less);
        assert(s =~= less.push(s.last()));
        lemma_push_contains(less, s.last());
        lemma_push_contains(firsts(less), s.last());
    }
}

/// The blocks, each where it is first named.
fn each_once(selected: &Vec<usize>) -> (r: Vec<usize>)
    ensures
        r@ == firsts(selected@),
{
    let mut seen: HashSet<usize> = HashSet::new();
    let mut r: Vec<usize> = Vec::new();
    let mut i: usize = 0;
    assert(selected@.take(0) =~= Seq::<usize>::empty());
    while i < selected.len()
        invariant
            i <= selected.len(),
            r@ == firsts(selected@.take(i as int)),
            forall|b: usize| #[trigger] seen@.contains(b) <==> r@.contains(b),
        decreases selected.len() - i,
    {
        let b: usize = selected[i];
        assert(selected@.take(i + 1).drop_last() =~= selected@.take(i as int));
        if seen.insert(b) {
            proof {
                lemma_push_contains(r@, b);
            }
            r.push(b);
        }
        i += 1;
    }
    assert(selected@.take(selected@.len() as int) =~= selected@);
    r
}

/// The outer surface of the selected blocks, in cells that meet edge to edge.
/// `wider` tells whether the middles of faces lie further apart along v.
pub fn exterior_block_face_tiles<F: Fn(Spread) -> bool>(blocks: &Vec<BlockBox>, selected: &Vec<usize>, wider: &F) -> (r: Result<
    Vec<FaceTile>,
    AppError,
>)
    requires
        forall|s: Spread| call_requires(*wider, (s,)),
    ensures
        match blocks_refused(blocks@, selected@, selected@.len() as int) {
            Some(e) => r == Err::<Vec<FaceTile>, AppError>(e),
            None => r is Ok && surface_tiled(blocks@, firsts(selected@), axes(*wider), r->Ok_0@),
        },
{
    let mut i: usize = 0;
    while i < selected.len()
        invariant
            i <= selected.len(),
            blocks_refused(blocks@, selected@, i as int) is None,
            forall|j: int| 0 <= j < i ==> (#[trigger] selected@[j]) < blocks@.len(),
        decreases selected.len() - i,
    {
        let b: usize = selected[i];
        if b >= blocks.len() {
            proof {
                lemma_refused_stops(blocks@, selected@, i + 1, selected@.len() as int);
            }
            return Err(AppError::BlockIndexOutside);
        }
        if !is_block_valid(&blocks[b]) {
            proof {
                lemma_refused_stops(blocks@, selected@, i + 1, selected@.len() as int);
            }
            return Err(AppError::BlockBoundsInvalid);
        }
        i += 1;
    }
    let once = each_once(selected);
    proof {
        lemma_firsts(selected@);
        lemma_known(blocks@, selected@, once@);
    }
    let mut tiles: Vec<FaceTile> = Vec::new();
    let ghost axis = axes(*wider);
    let mut f: usize = 0;
    while f < 6
        invariant
            f <= 6,
            axis == axes(*wider),
            forall|s: Spread| call_requires(*wider, (s,)),
            places_known(blocks@, once@),
            faces_tiled(blocks@, once@, f as int, axis, tiles@),
        decreases 6 - f,
    {
        let ghost before = tiles@;
        let mut more = tiles_of_face(blocks, &once, f, wider);
        let ghost added = more@;
        tiles.append(&mut more);
        proof {
            assert(tiles@ =~= before + added);
            lemma_face_added(blocks@, once@, f as int, axis, before, added);
        }
        f += 1;
    }
    Ok(tiles)
}

/// There is one way to cut the outer surface: in every plane two surfaces of
/// the same blocks have the same cells in the same order.
pub proof fn law_one_surface(
    blocks: Seq<BlockBox>,
    selected: Seq<usize>,
    axis: spec_fn(Spread, bool) -> bool,
    a: Seq<FaceTile>,
    b: Seq<FaceTile>,
    face: int,
    key: u64,
)
    requires
        decided(axis),
        surface_tiled(blocks, selected, axis, a),
        surface_tiled(blocks, selected, axis, b),
        0 <= face < 6,
    ensures
        rects_on(a, face, key) == rects_on(b, face, key),
{
    let own = members_of(blocks, selected, face, key);
    let listed = candidate_list(blocks, members_of(blocks, selected, opposite(face), key), face);
    let (ra, rb) = (rects_on(a, face, key), rects_on(b, face, key));
    assert(face_cut(blocks, selected, face, key, axis, a));
    assert(face_cut(blocks, selected, face, key, axis, b));
    if own.len() == 0 {
        assert(ra =~= rb);
    } else {
        let ta = choose|tree: FaceRectBvh| #[trigger] tree.built(listed, axis) && conforming(pieces_of(blocks, own, tree.faces(), face), ra);
        let tb = choose|tree: FaceRectBvh| #[trigger] tree.built(listed, axis) && conforming(pieces_of(blocks, own, tree.faces(), face), rb);
        law_one_arrangement(ta, tb, listed, axis);
        law_one_way_to_cut(pieces_of(blocks, own, ta.faces(), face), ra, rb);
    }
}

/// What the outer surface of ore is: refused where nothing is ore.
pub open spec fn ore_tiled(
    ore: Seq<usize>,
    blocks: Seq<BlockBox>,
    axis: spec_fn(Spread, bool) -> bool,
    r: Result<Vec<FaceTile>, AppError>,
) -> bool {
    if ore.len() == 0 {
        r == Err::<Vec<FaceTile>, AppError>(AppError::NothingMatches)
    } else {
        match blocks_refused(blocks, ore, ore.len() as int) {
            Some(e) => r == Err::<Vec<FaceTile>, AppError>(e),
            None => r is Ok && surface_tiled(blocks, firsts(ore), axis, r->Ok_0@),
        }
    }
}

/// The outer surface of the drawn blocks that are ore. `blank` tells of each
/// block whether its value is the default or stands for nothing.
pub fn ore_tiles<F: Fn(Spread) -> bool>(
    values: &Vec<u64>,
    drawn: &Vec<usize>,
    blank: &Vec<bool>,
    mode: OreFilterMode,
    min: u64,
    max: u64,
    blocks: &Vec<BlockBox>,
    wider: &F,
) -> (r: Result<Vec<FaceTile>, AppError>)
    requires
        forall|s: Spread| call_requires(*wider, (s,)),
    ensures
        ore_tiled(ore_blocks(values@, drawn@, blank@, mode, min, max, drawn@.len() as int), blocks@, axes(*wider), r),
        r == Err::<Vec<FaceTile>, AppError>(AppError::NothingMatches) <==> ore_blocks(
            values@,
            drawn@,
            blank@,
            mode,
            min,
            max,
            drawn@.len() as int,
        ).len() == 0,
{
    let ore = ore_block_indices(values, drawn, blank, mode, min, max);
    if ore.len() == 0 {
        return Err(AppError::NothingMatches);
    }
    proof {
        lemma_refused_how(blocks@, ore@, ore@.len() as int);
    }
    exterior_block_face_tiles(blocks, &ore, wider)
}

proof fn lemma_refused_how(blocks: Seq<BlockBox>, selected: Seq<usize>, n: int)
    ensures
        blocks_refused(blocks, selected, n) != Some(AppError::NothingMatches),
    decreases n,
{
    if n > 0 {
        lemma_refused_how(blocks, selected, n - 1);
    }
}

/// In every plane the parts of the outer surface meet edge to edge: no corner
/// of one lies within a side of another.
pub proof fn law_surface_meets_edge_to_edge(
    blocks: Seq<BlockBox>,
    selected: Seq<usize>,
    axis: spec_fn(Spread, bool) -> bool,
    tiles: Seq<FaceTile>,
    face: int,
    key: u64,
    i: int,
    j: int,
)
    requires
        surface_tiled(blocks, selected, axis, tiles),
        0 <= face < 6,
        0 <= i < rects_on(tiles, face, key).len(),
        0 <= j < rects_on(tiles, face, key).len(),
    ensures
        ({
            let (s, t) = (rects_on(tiles, face, key)[i], rects_on(tiles, face, key)[j]);
            &&& !within_side(s.u_min, s.v_min, t) && !within_side(s.u_min, s.v_max, t)
            &&& !within_side(s.u_max, s.v_min, t) && !within_side(s.u_max, s.v_max, t)
        }),
{
    assert(face_cut(blocks, selected, face, key, axis, tiles));
    let own = members_of(blocks, selected, face, key);
    let covers = members_of(blocks, selected, opposite(face), key);
    let rects = rects_on(tiles, face, key);
    let tree = choose|tree: FaceRectBvh| #[trigger]
        tree.built(candidate_list(blocks, covers, face), axis) && conforming(pieces_of(blocks, own, tree.faces(), face), rects);
    law_no_corner_within_a_side(pieces_of(blocks, own, tree.faces(), face), rects, i, j);
}

/// The corners of a part of the outer surface, turned to face outwards.
pub open spec fn corners_of(t: FaceTile) -> Seq<Point3> {
    let (p, a, b, c, d) = (t.plane, bits_at(t.rect.u_min), bits_at(t.rect.u_max), bits_at(t.rect.v_min), bits_at(t.rect.v_max));
    if t.face == 0 {
        seq![Point3 { x: p, y: a, z: c }, Point3 { x: p, y: b, z: c }, Point3 { x: p, y: b, z: d }, Point3 { x: p, y: a, z: d }]
    } else if t.face == 1 {
        seq![Point3 { x: p, y: a, z: c }, Point3 { x: p, y: a, z: d }, Point3 { x: p, y: b, z: d }, Point3 { x: p, y: b, z: c }]
    } else if t.face == 2 {
        seq![Point3 { x: a, y: p, z: c }, Point3 { x: a, y: p, z: d }, Point3 { x: b, y: p, z: d }, Point3 { x: b, y: p, z: c }]
    } else if t.face == 3 {
        seq![Point3 { x: a, y: p, z: c }, Point3 { x: b, y: p, z: c }, Point3 { x: b, y: p, z: d }, Point3 { x: a, y: p, z: d }]
    } else if t.face == 4 {
        seq![Point3 { x: a, y: c, z: p }, Point3 { x: b, y: c, z: p }, Point3 { x: b, y: d, z: p }, Point3 { x: a, y: d, z: p }]
    } else {
        seq![Point3 { x: a, y: c, z: p }, Point3 { x: a, y: d, z: p }, Point3 { x: b, y: d, z: p }, Point3 { x: b, y: c, z: p }]
    }
}

/// The corners of a part of the outer surface, turned to face outwards.
pub fn face_tile(t: FaceTile) -> (r: [Point3; 4])
    ensures
        r@ == corners_of(t),
{
    let p: u64 = t.plane;
    let a: u64 = number_at(t.rect.u_min);
    let b: u64 = number_at(t.rect.u_max);
    let c: u64 = number_at(t.rect.v_min);
    let d: u64 = number_at(t.rect.v_max);
    let r = match t.face {
        0 => [Point3 { x: p, y: a, z: c }, Point3 { x: p, y: b, z: c }, Point3 { x: p, y: b, z: d }, Point3 { x: p, y: a, z: d }],
        1 => [Point3 { x: p, y: a, z: c }, Point3 { x: p, y: a, z: d }, Point3 { x: p, y: b, z: d }, Point3 { x: p, y: b, z: c }],
        2 => [Point3 { x: a, y: p, z: c }, Point3 { x: a, y: p, z: d }, Point3 { x: b, y: p, z: d }, Point3 { x: b, y: p, z: c }],
        3 => [Point3 { x: a, y: p, z: c }, Point3 { x: b, y: p, z: c }, Point3 { x: b, y: p, z: d }, Point3 { x: a, y: p, z: d }],
        4 => [Point3 { x: a, y: c, z: p }, Point3 { x: b, y: c, z: p }, Point3 { x: b, y: d, z: p }, Point3 { x: a, y: d, z: p }],
        _ => [Point3 { x: a, y: c, z: p }, Point3 { x: a, y: d, z: p }, Point3 { x: b, y: d, z: p }, Point3 { x: b, y: c, z: p }],
    };
    assert(r@ =~= corners_of(t));
    r
}

/// A point by which corners are known for one: its coordinates, rounded.
#[derive(Clone, Copy, PartialEq, Eq, Structural, Debug)]
pub struct PointKey {
    pub x: u64,
    pub y: u64,
    pub z: u64,
}

/// A number under which a point is looked up.
pub open spec fn bucket_of(k: PointKey) -> u64 {
    ((k.x as int + 31 * k.y as int + 961 * k.z as int) % 0x1_0000_0000_0000_0000) as u64
}

fn find_bucket(k: PointKey) -> (r: u64)
    ensures
        r == bucket_of(k),
{
    let sum: u128 = k.x as u128 + 31 * (k.y as u128) + 961 * (k.z as u128);
    (sum % 0x1_0000_0000_0000_0000) as u64
}

/// Corners that are being welded.
struct Weld {
    points: Vec<PointKey>,
    buckets: HashMap<u64, Vec<u32>>,
}

impl Weld {
    spec fn sound(&self) -> bool {
        &&& self.points@.no_duplicates()
        &&& self.points@.len() <= u32::MAX + 1
        &&& forall|b: u64, i: int|
            self.buckets@.contains_key(b) && 0 <= i < self.buckets@[b]@.len() ==> (#[trigger] self.buckets@[b]@[i]) < self.points@.len()
        &&& forall|p: int|
            0 <= p < self.points@.len() ==> self.buckets@.contains_key(bucket_of(#[trigger] self.points@[p])) && self.buckets@[bucket_of(self.points@[p])]@.contains(
                p as u32,
            )
    }

    /// The place of a point, which is added where it is new.
    fn place(&mut self, key: PointKey) -> (r: Option<u32>)
        requires
            old(self).sound(),
        ensures
            final(self).sound(),
            match r {
                Some(p) => {
                    &&& p < final(self).points@.len()
                    &&& final(self).points@[p as int] == key
                    &&& final(self).points@ == (if old(self).points@.contains(key) {
                        old(self).points@
                    } else {
                        old(self).points@.push(key)
                    })
                },
                None => old(self).points@.len() == u32::MAX + 1 && !old(self).points@.contains(key) && final(self).points@ == old(self).points@,
            },
    {
        let b: u64 = find_bucket(key);
        let ghost before = *self;
        let mut list: Vec<u32> = match self.buckets.remove(&b) {
            Some(list) => list,
            None => Vec::new(),
        };
        let ghost had = list@;
        let mut found: Option<u32> = None;
        let mut i: usize = 0;
        while i < list.len()
            invariant
                i <= list.len(),
                list@ == had,
                self.points == before.points,
                forall|j: int| 0 <= j < had.len() ==> (#[trigger] had[j]) < self.points@.len(),
                found matches Some(p) ==> p < self.points@.len() && self.points@[p as int] == key,
                found is None ==> forall|j: int| 0 <= j < i ==> self.points@[(#[trigger] had[j]) as int] != key,
            decreases list.len() - i,
        {
            let p: u32 = list[i];
            let q = self.points[p as usize];
            if q.x == key.x && q.y == key.y && q.z == key.z {
                found = Some(p);
            }
            i += 1;
        }
        proof {
            if found is None && before.points@.contains(key) {
                let p = choose|p: int| 0 <= p < before.points@.len() && before.points@[p] == key;
                assert(before.buckets@.contains_key(bucket_of(before.points@[p])));
                assert(had.contains(p as u32));
                let j = choose|j: int| 0 <= j < had.len() && had[j] == p as u32;
                assert(self.points@[had[j] as int] != key);
            }
        }
        let mut result: Option<u32> = found;
        if found.is_none() {
            let n: usize = self.points.len();
            if n <= 0xffff_ffff {
                self.points.push(key);
                list.push(n as u32);
                result = Some(n as u32);
                proof {
                    lemma_push_contains(had, n as u32);
                    assert(list@[had.len() as int] == n as u32);
                }
            }
        }
        let ghost now = list@;
        self.buckets.insert(b, list);
        proof {
            assert forall|c: u64, i: int| self.buckets@.contains_key(c) && 0 <= i < self.buckets@[c]@.len() implies (#[trigger] self.buckets@[c]@[i])
                < self.points@.len() by {
                if c != b {
                    assert(before.buckets@.contains_key(c) && before.buckets@[c] == self.buckets@[c]);
                    assert(before.buckets@[c]@[i] < before.points@.len());
                } else if i < had.len() {
                    assert(now[i] == had[i]);
                }
            }
            assert forall|p: int| 0 <= p < self.points@.len() implies self.buckets@.contains_key(bucket_of(#[trigger] self.points@[p])) && self.buckets@[bucket_of(
                self.points@[p],
            )]@.contains(p as u32) by {
                let c = bucket_of(self.points@[p]);
                if p < before.points@.len() {
                    assert(self.points@[p] == before.points@[p]);
                    assert(before.buckets@.contains_key(c) && before.buckets@[c]@.contains(p as u32));
                    if c == b {
                        assert(had.contains(p as u32));
                        let j = choose|j: int| 0 <= j < had.len() && had[j] == p as u32;
                        assert(now[j] == p as u32);
                    }
                } else {
                    assert(c == b);
                    assert(now[had.len() as int] == p as u32);
                }
            }
        }
        result
    }
}

/// The corners of four-cornered parts, one after the other.
pub open spec fn all_corners(quads: Seq<[PointKey; 4]>) -> Seq<PointKey>
    decreases quads.len(),
{
    if quads.len() == 0 {
        Seq::empty()
    } else {
        let q = quads.last();
        all_corners(quads.drop_last()).push(q[0]).push(q[1]).push(q[2]).push(q[3])
    }
}

/// The mesh is made of these four-cornered parts, two triangles each, and
/// knows every corner once, in the order in which the parts have them.
pub open spec fn welded(quads: Seq<[PointKey; 4]>, points: Seq<PointKey>, faces: Seq<[u32; 3]>) -> bool {
    &&& points == firsts(all_corners(quads))
    &&& faces.len() == 2 * quads.len()
    &&& forall|q: int| 0 <= q < quads.len() ==> quad_welded(#[trigger] quads[q], points, faces[2 * q], faces[2 * q + 1])
}

/// A triangle has the corner.
pub open spec fn uses(face: [u32; 3], p: int) -> bool {
    face[0] == p || face[1] == p || face[2] == p
}

proof fn lemma_corner_of(quads: Seq<[PointKey; 4]>, x: PointKey)
    requires
        all_corners(quads).contains(x),
    ensures
        exists|q: int| 0 <= q < quads.len() && ((#[trigger] quads[q])[0] == x || quads[q][1] == x || quads[q][2] == x || quads[q][3] == x),
    decreases quads.len(),
{
    if quads.len() > 0 {
        let less = quads.drop_last();
        let q = quads.last();
        let c = all_corners(less);
        lemma_push_contains(c, q[0]);
        lemma_push_contains(c.push(q[0]), q[1]);
        lemma_push_contains(c.push(q[0]).push(q[1]), q[2]);
        lemma_push_contains(c.push(q[0]).push(q[1]).push(q[2]), q[3]);
        if c.contains(x) {
            lemma_corner_of(less, x);
            let k = choose|k: int| 0 <= k < less.len() && ((#[trigger] less[k])[0] == x || less[k][1] == x || less[k][2] == x || less[k][3] == x);
            assert(quads[k] == less[k]);
        } else {
            assert(quads[quads.len() - 1] == q);
        }
    }
}

/// A mesh knows each of its corners once, and has no corner that no triangle
/// uses.
pub proof fn law_every_corner_is_used(quads: Seq<[PointKey; 4]>, points: Seq<PointKey>, faces: Seq<[u32; 3]>, p: int)
    requires
        welded(quads, points, faces),
        0 <= p < points.len(),
    ensures
        points.no_duplicates(),
        exists|f: int| 0 <= f < faces.len() && uses(#[trigger] faces[f], p),
{
    lemma_firsts(all_corners(quads));
    assert(points.contains(points[p]));
    lemma_corner_of(quads, points[p]);
    let x = points[p];
    let q = choose|q: int| 0 <= q < quads.len() && ((#[trigger] quads[q])[0] == x || quads[q][1] == x || quads[q][2] == x || quads[q][3] == x);
    assert(quad_welded(quads[q], points, faces[2 * q], faces[2 * q + 1]));
    let (a, b) = (faces[2 * q], faces[2 * q + 1]);
    if quads[q][0] == x {
        assert(a[0] == p);
        assert(uses(faces[2 * q], p));
    } else if quads[q][1] == x {
        assert(a[1] == p);
        assert(uses(faces[2 * q], p));
    } else if quads[q][2] == x {
        assert(a[2] == p);
        assert(uses(faces[2 * q], p));
    } else {
        assert(b[2] == p);
        assert(uses(faces[2 * q + 1], p));
    }
}

/// Two triangles make up a four-cornered part.
pub open spec fn quad_welded(quad: [PointKey; 4], points: Seq<PointKey>, a: [u32; 3], b: [u32; 3]) -> bool {
    &&& a[0] < points.len() && a[1] < points.len() && a[2] < points.len()
    &&& b[0] < points.len() && b[1] < points.len() && b[2] < points.len()
    &&& points[a[0] as int] == quad[0] && points[a[1] as int] == quad[1] && points[a[2] as int] == quad[2]
    &&& points[b[0] as int] == quad[0] && points[b[1] as int] == quad[2] && points[b[2] as int] == quad[3]
}

proof fn lemma_still_welded(quad: [PointKey; 4], points: Seq<PointKey>, more: Seq<PointKey>, a: [u32; 3], b: [u32; 3])
    requires
        quad_welded(quad, points, a, b),
        points.len() <= more.len(),
        forall|i: int| 0 <= i < points.len() ==> #[trigger] more[i] == points[i],
    ensures
        quad_welded(quad, more, a, b),
{
}

impl Weld {
    /// Adds a four-cornered part; nothing where its corners cannot be counted.
    fn add_block_face_tile(&mut self, quad: [PointKey; 4], sofar: Ghost<Seq<PointKey>>) -> (r: Option<([u32; 3], [u32; 3])>)
        requires
            old(self).sound(),
            old(self).points@ == firsts(sofar@),
        ensures
            final(self).sound(),
            match r {
                Some((a, b)) => {
                    &&& final(self).points@ == firsts(sofar@.push(quad[0]).push(quad[1]).push(quad[2]).push(quad[3]))
                    &&& quad_welded(quad, final(self).points@, a, b)
                    &&& old(self).points@.len() <= final(self).points@.len()
                    &&& forall|i: int| 0 <= i < old(self).points@.len() ==> #[trigger] final(self).points@[i] == old(self).points@[i]
                },
                None => firsts(sofar@.push(quad[0]).push(quad[1]).push(quad[2]).push(quad[3])).len() > u32::MAX + 1,
            },
    {
        let ghost c1 = sofar@.push(quad[0]);
        let ghost c2 = c1.push(quad[1]);
        let ghost c3 = c2.push(quad[2]);
        let ghost c4 = c3.push(quad[3]);
        proof {
            assert(c1.drop_last() =~= sofar@);
            assert(c2.drop_last() =~= c1);
            assert(c3.drop_last() =~= c2);
            assert(c4.drop_last() =~= c3);
            assert(firsts(c1).len() <= firsts(c2).len() <= firsts(c3).len() <= firsts(c4).len());
        }
        let i0: u32 = match self.place(quad[0]) {
            Some(i) => i,
            None => {
                return None;
            },
        };
        let ghost p1 = self.points@;
        let i1: u32 = match self.place(quad[1]) {
            Some(i) => i,
            None => {
                return None;
            },
        };
        let ghost p2 = self.points@;
        let i2: u32 = match self.place(quad[2]) {
            Some(i) => i,
            None => {
                return None;
            },
        };
        let ghost p3 = self.points@;
        let i3: u32 = match self.place(quad[3]) {
            Some(i) => i,
            None => {
                return None;
            },
        };
        proof {
            let p4 = self.points@;
            assert(p2[i0 as int] == p1[i0 as int] && p3[i0 as int] == p2[i0 as int] && p4[i0 as int] == p3[i0 as int]);
            assert(p3[i1 as int] == p2[i1 as int] && p4[i1 as int] == p3[i1 as int]);
            assert(p4[i2 as int] == p3[i2 as int]);
            assert forall|i: int| 0 <= i < old(self).points@.len() implies #[trigger] self.points@[i] == old(self).points@[i] by {
                assert(p1[i] == old(self).points@[i] && p2[i] == p1[i] && p3[i] == p2[i]);
            }
        }
        Some(([i0, i1, i2], [i0, i2, i3]))
    }
}

/// The corners of the first parts are no more than those of all.
proof fn lemma_corners_grow(quads: Seq<[PointKey; 4]>, n: int)
    requires
        0 <= n <= quads.len(),
    ensures
        firsts(all_corners(quads.take(n))).len() <= firsts(all_corners(quads)).len(),
    decreases quads.len() - n,
{
    if n < quads.len() {
        let more = quads.take(n + 1);
        assert(more.drop_last() =~= quads.take(n));
        let q = more.last();
        let c0 = all_corners(quads.take(n));
        let c1 = c0.push(q[0]);
        let c2 = c1.push(q[1]);
        let c3 = c2.push(q[2]);
        let c4 = c3.push(q[3]);
        assert(c1.drop_last() =~= c0);
        assert(c2.drop_last() =~= c1);
        assert(c3.drop_last() =~= c2);
        assert(c4.drop_last() =~= c3);
        assert(firsts(c0).len() <= firsts(c1).len() <= firsts(c2).len() <= firsts(c3).len() <= firsts(c4).len());
        lemma_corners_grow(quads, n + 1);
    } else {
        assert(quads.take(n) =~= quads);
    }
}

/// The mesh of a surface that was generated from four-cornered parts: refused
/// where it has no faces, or more corners than can be counted.
pub fn generated_mesh(quads: &Vec<[PointKey; 4]>) -> (r: Result<(Vec<PointKey>, Vec<[u32; 3]>), AppError>)
    ensures
        match r {
            Ok((points, faces)) => quads@.len() > 0 && welded(quads@, points@, faces@),
            Err(AppError::NoFaces) => quads@.len() == 0,
            Err(e) => e == AppError::MeshTooLarge && firsts(all_corners(quads@)).len() > u32::MAX + 1,
        },
        quads@.len() > 0 && firsts(all_corners(quads@)).len() <= u32::MAX + 1 ==> r is Ok,
{
    match boundary_mesh_from_quads(quads) {
        Some((points, faces)) => {
            if faces.len() == 0 {
                return Err(AppError::NoFaces);
            }
            Ok((points, faces))
        },
        None => Err(AppError::MeshTooLarge),
    }
}

/// The mesh of four-cornered parts: its corners, each once, and two triangles
/// for each part. Nothing where a corner's place cannot be counted.
pub fn boundary_mesh_from_quads(quads: &Vec<[PointKey; 4]>) -> (r: Option<(Vec<PointKey>, Vec<[u32; 3]>)>)
    ensures
        match r {
            Some((points, faces)) => welded(quads@, points@, faces@) && points@.len() <= u32::MAX + 1,
            None => firsts(all_corners(quads@)).len() > u32::MAX + 1,
        },
{
    let mut w = Weld { points: Vec::new(), buckets: HashMap::new() };
    let mut faces: Vec<[u32; 3]> = Vec::new();
    let mut q: usize = 0;
    assert(quads@.take(0) =~= Seq::<[PointKey; 4]>::empty());
    while q < quads.len()
        invariant
            q <= quads.len(),
            w.sound(),
            w.points@ == firsts(all_corners(quads@.take(q as int))),
            faces@.len() == 2 * q,
            forall|k: int| 0 <= k < q ==> quad_welded(#[trigger] quads@[k], w.points@, faces@[2 * k], faces@[2 * k + 1]),
        decreases quads.len() - q,
    {
        let ghost before = w.points@;
        let ghost had = faces@;
        let quad = quads[q];
        assert(quads@.take(q + 1).drop_last() =~= quads@.take(q as int));
        match w.add_block_face_tile(quad, Ghost(all_corners(quads@.take(q as int)))) {
            Some((a, b)) => {
                faces.push(a);
                faces.push(b);
            },
            None => {
                proof {
                    lemma_corners_grow(quads@, q + 1);
                }
                return None;
            },
        }
        proof {
            assert forall|k: int| 0 <= k < q + 1 implies quad_welded(#[trigger] quads@[k], w.points@, faces@[2 * k], faces@[2 * k + 1]) by {
                if k < q {
                    assert(faces@[2 * k] == had[2 * k] && faces@[2 * k + 1] == had[2 * k + 1]);
                    lemma_still_welded(quads@[k], before, w.points@, faces@[2 * k], faces@[2 * k + 1]);
                }
            }
        }
        q += 1;
    }
    assert(quads@.take(quads@.len() as int) =~= quads@);
    Some((w.points, faces))
}

} // verus!
