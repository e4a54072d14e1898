//! The surface of ore blocks, and the lines of contours.

use crate::commands::chains::{chained, far_key_of, joined, key_of, linked, neighbor, ChainPoint, ContourSegment, PointKey};
use crate::commands::ore::{
    all_corners, block_valid, blocks_refused, corners_of, face_plane, face_rect, firsts, hidden_at, opposite, ore_tiled, shown_at, surface_tiled,
    tiled_at, welded, BlockBox, FaceTile, Spread,
};
use crate::commands::sweep::{crossed_edges, crosses, FaceSpan};
use crate::error::AppError;
use crate::ieee::{f64_finite, f64_key, f64_less, f64_nan, F64_SIGN, Point3};
use crate::tiles::{bits_at, common, inside, nonempty, overlapping, Rect};
use vstd::prelude::*;

verus! {

/// A number and its place among numbers say the same: the number at the place
/// of another equals it.
pub proof fn law_numbers_at_their_places(bits: u64, key: i64)
    requires
        f64_finite(bits),
        -0x7fff_ffff_ffff_ffff <= key,
    ensures
        f64_key(bits_at(key)) == key,
        f64_key(bits_at(f64_key(bits) as i64)) == f64_key(bits),
        bits != F64_SIGN ==> bits_at(f64_key(bits) as i64) == bits,
{
}

/// The coordinate of a point along an axis.
pub open spec fn coordinate(p: Point3, axis: int) -> u64 {
    if axis == 0 {
        p.x
    } else if axis == 1 {
        p.y
    } else {
        p.z
    }
}

/// The six faces of a block lie on its sides: two on each axis, the lower one
/// first, and each spans the block along the other two axes.
pub proof fn law_faces_of_a_block(b: BlockBox, face: int)
    requires
        0 <= face < 6,
        block_valid(b),
    ensures
        face_plane(b, face) == coordinate(
            if face % 2 == 0 {
                b.lower
            } else {
                b.upper
            },
            face / 2,
        ),
        ({
            let r = face_rect(b, face);
            let u = if face / 2 == 0 {
                1int
            } else {
                0
            };
            let v = if face / 2 == 2 {
                1int
            } else {
                2
            };
            &&& r.u_min == f64_key(coordinate(b.lower, u)) && r.u_max == f64_key(coordinate(b.upper, u))
            &&& r.v_min == f64_key(coordinate(b.lower, v)) && r.v_max == f64_key(coordinate(b.upper, v))
            &&& nonempty(r)
        }),
        opposite(opposite(face)) == face && opposite(face) != face && opposite(face) / 2 == face / 2,
        face_rect(b, opposite(face)) == face_rect(b, face),
{
}

/// The corners of a tile lie on its plane and at the corners of its rectangle,
/// once round, from the lowest; upper and lower faces of an axis wind opposite
/// ways.
pub proof fn law_corners_of_a_tile(t: FaceTile, i: int)
    requires
        t.face < 6,
        0 <= i < 4,
    ensures
        corners_of(t).len() == 4,
        ({
            let u = if t.face / 2 == 0 {
                1int
            } else {
                0
            };
            let v = if t.face / 2 == 2 {
                1int
            } else {
                2
            };
            let c = corners_of(t);
            &&& coordinate(c[i], t.face as int / 2) == t.plane
            &&& coordinate(c[0], u) == bits_at(t.rect.u_min) && coordinate(c[0], v) == bits_at(t.rect.v_min)
            &&& coordinate(c[2], u) == bits_at(t.rect.u_max) && coordinate(c[2], v) == bits_at(t.rect.v_max)
            &&& t.face == 0 || t.face == 3 || t.face == 4 ==> coordinate(c[1], u) == bits_at(t.rect.u_max) && coordinate(c[1], v) == bits_at(t.rect.v_min)
                && coordinate(c[3], u) == bits_at(t.rect.u_min) && coordinate(c[3], v) == bits_at(t.rect.v_max)
            &&& t.face == 1 || t.face == 2 || t.face == 5 ==> coordinate(c[1], u) == bits_at(t.rect.u_min) && coordinate(c[1], v) == bits_at(t.rect.v_max)
                && coordinate(c[3], u) == bits_at(t.rect.u_max) && coordinate(c[3], v) == bits_at(t.rect.v_min)
        }),
{
}

/// A block that stands alone shows all of its six faces, each on its own plane,
/// and nothing else.
pub proof fn law_lone_block_shows_its_faces(
    blocks: Seq<BlockBox>,
    b: usize,
    axis: spec_fn(Spread, bool) -> bool,
    tiles: Seq<FaceTile>,
    face: int,
    key: u64,
    x: int,
    y: int,
)
    requires
        surface_tiled(blocks, seq![b], axis, tiles),
        b < blocks.len(),
        0 <= face < 6,
    ensures
        tiled_at(tiles, face, key, x, y) <==> blocks[b as int].planes[face] == key && face_rect(blocks[b as int], face).u_min <= x
            < face_rect(blocks[b as int], face).u_max && face_rect(blocks[b as int], face).v_min <= y < face_rect(blocks[b as int], face).v_max,
{
    let selected = seq![b];
    assert(selected[0] == b);
    assert(selected.contains(b));
    assert forall|c: usize| #[trigger] selected.contains(c) implies c == b by {}
    assert(tiled_at(tiles, face, key, x, y) <==> shown_at(blocks, selected, face, key, x, y));
    assert(!hidden_at(blocks, selected, face, key, b, x, y));
    if shown_at(blocks, selected, face, key, x, y) {
        let c = choose|c: usize| #[trigger]
            selected.contains(c) && blocks[c as int].planes[face] == key && inside(face_rect(blocks[c as int], face), x, y) && !hidden_at(
                blocks,
                selected,
                face,
                key,
                c,
                x,
                y,
            );
        assert(c == b);
    }
}

/// Where two blocks meet they hide each other: no tile of the surface lies
/// between them.
pub proof fn law_no_tile_between_blocks(
    blocks: Seq<BlockBox>,
    b: usize,
    c: usize,
    axis: spec_fn(Spread, bool) -> bool,
    tiles: Seq<FaceTile>,
    face: int,
    key: u64,
    x: int,
    y: int,
)
    requires
        surface_tiled(blocks, seq![b, c], axis, tiles),
        b != c,
        0 <= face < 6,
        blocks[b as int].planes[face] == key,
        blocks[c as int].planes[opposite(face)] == key,
        blocks[c as int].planes[face] != key,
        inside(face_rect(blocks[b as int], face), x, y),
        inside(face_rect(blocks[c as int], face), x, y),
    ensures
        !tiled_at(tiles, face, key, x, y),
{
    let selected = seq![b, c];
    assert(selected[1] == c);
    assert(selected.contains(c));
    assert(hidden_at(blocks, selected, face, key, b, x, y));
    assert forall|d: usize| #[trigger] selected.contains(d) implies d == b || d == c by {}
}

/// Ore has a surface where some block is ore and every such block is there and
/// has an inside.
pub proof fn law_which_ore_has_a_surface(ore: Seq<usize>, blocks: Seq<BlockBox>, axis: spec_fn(Spread, bool) -> bool, r: Result<Vec<FaceTile>, AppError>)
    requires
        ore_tiled(ore, blocks, axis, r),
    ensures
        r is Ok <==> ore.len() > 0 && forall|i: int| 0 <= i < ore.len() ==> (#[trigger] ore[i]) < blocks.len() && block_valid(blocks[ore[i] as int]),
        ore.len() == 0 ==> r == Err::<Vec<FaceTile>, AppError>(AppError::NothingMatches),
{
    lemma_refused(blocks, ore, ore.len() as int);
}

proof fn lemma_refused(blocks: Seq<BlockBox>, selected: Seq<usize>, n: int)
    requires
        0 <= n <= selected.len(),
    ensures
        blocks_refused(blocks, selected, n) is None <==> forall|i: int|
            0 <= i < n ==> (#[trigger] selected[i]) < blocks.len() && block_valid(blocks[selected[i] as int]),
    decreases n,
{
    if n > 0 {
        lemma_refused(blocks, selected, n - 1);
    }
}

/// A block has an inside where its sides are finite and each lower one lies
/// below its upper one.
pub proof fn law_blocks_with_an_inside(b: BlockBox)
    ensures
        block_valid(b) <==> forall|axis: int|
            0 <= axis < 3 ==> f64_finite(#[trigger] coordinate(b.lower, axis)) && f64_finite(coordinate(b.upper, axis)) && f64_less(
                coordinate(b.lower, axis),
                coordinate(b.upper, axis),
            ),
{
    if forall|axis: int|
        0 <= axis < 3 ==> f64_finite(#[trigger] coordinate(b.lower, axis)) && f64_finite(coordinate(b.upper, axis)) && f64_less(
            coordinate(b.lower, axis),
            coordinate(b.upper, axis),
        ) {
        assert(f64_finite(coordinate(b.lower, 0)));
        assert(f64_finite(coordinate(b.lower, 1)));
        assert(f64_finite(coordinate(b.lower, 2)));
    }
}

/// Each element is kept once, where it came first.
pub proof fn law_each_once<T>(s: Seq<T>, x: T)
    ensures
        firsts(Seq::<T>::empty()) == Seq::<T>::empty(),
        firsts(s.push(x)) == if s.contains(x) {
            firsts(s)
        } else {
            firsts(s).push(x)
        },
        firsts(s).no_duplicates(),
        firsts(s).contains(x) <==> s.contains(x),
    decreases s.len(),
{
    lemma_each_once(s);
    assert(s.push(x).drop_last() =~= s);
}

proof fn lemma_each_once<T>(s: Seq<T>)
    ensures
        firsts(s).no_duplicates(),
        forall|x: T| #[trigger] firsts(s).contains(x) <==> s.contains(x),
    decreases s.len(),
{
    if s.len() > 0 {
        let front = s.drop_last();
        lemma_each_once(front);
        let (before, all) = (firsts(front), firsts(s));
        assert forall|x: T| #[trigger] all.contains(x) <==> s.contains(x) by {
            assert(before.contains(x) <==> front.contains(x));
            assert(s[s.len() - 1] == s.last());
            if front.contains(x) {
                let i = choose|i: int| 0 <= i < front.len() && front[i] == x;
                assert(s[i] == x);
            }
            if s.contains(x) && x != s.last() {
                let i = choose|i: int| 0 <= i < s.len() && s[i] == x;
                assert(front[i] == x);
            }
            if all.len() > before.len() {
                assert(all[all.len() - 1] == s.last());
                if before.contains(x) {
                    let i = choose|i: int| 0 <= i < before.len() && before[i] == x;
                    assert(all[i] == x);
                }
                if all.contains(x) && x != s.last() {
                    let i = choose|i: int| 0 <= i < all.len() && all[i] == x;
                    assert(before[i] == x);
                }
            }
        }
    }
}

/// A mesh has two triangles for each tile, between its corners, in their order;
/// its points are the corners, each once.
pub proof fn law_mesh_of_tiles(quads: Seq<[crate::commands::ore::PointKey; 4]>, points: Seq<crate::commands::ore::PointKey>, faces: Seq<[u32; 3]>, q: int)
    requires
        welded(quads, points, faces),
        0 <= q < quads.len(),
    ensures
        faces.len() == 2 * quads.len(),
        ({
            let (a, b, quad) = (faces[2 * q], faces[2 * q + 1], quads[q]);
            &&& points[a[0] as int] == quad[0] && points[a[1] as int] == quad[1] && points[a[2] as int] == quad[2]
            &&& points[b[0] as int] == quad[0] && points[b[1] as int] == quad[2] && points[b[2] as int] == quad[3]
        }),
        points.no_duplicates(),
        points.contains(quads[q][0]) && points.contains(quads[q][1]) && points.contains(quads[q][2]) && points.contains(quads[q][3]),
{
    lemma_each_once(all_corners(quads));
    assert(crate::commands::ore::quad_welded(quads[q], points, faces[2 * q], faces[2 * q + 1]));
    assert(points[faces[2 * q][0] as int] == quads[q][0]);
    assert(points[faces[2 * q + 1][2] as int] == quads[q][3]);
}

/// What two rectangles have in common is what lies in both; they overlap where
/// there is any.
pub proof fn law_common_part(a: Rect, b: Rect, x: int, y: int)
    ensures
        inside(common(a, b), x, y) <==> a.u_min <= x < a.u_max && a.v_min <= y < a.v_max && b.u_min <= x < b.u_max && b.v_min <= y < b.v_max,
        nonempty(a) && nonempty(b) ==> (overlapping(a, b) <==> nonempty(common(a, b))),
        inside(a, x, y) && inside(b, x, y) ==> overlapping(a, b),
{
}

/// A triangle crosses a level where it begins no higher and ends higher.
pub proof fn law_levels_crossed(faces: Seq<FaceSpan>, face: usize, level: u64)
    requires
        face < faces.len(),
        !f64_nan(faces[face as int].z_min) && !f64_nan(level) && !f64_nan(faces[face as int].z_max),
    ensures
        crosses(faces, face, level) <==> f64_key(faces[face as int].z_min) <= f64_key(level) && f64_key(level) < f64_key(faces[face as int].z_max),
{
}

/// An edge is crossed where one end lies above the level and the other does
/// not.
pub open spec fn parted(a: u64, b: u64, level: u64) -> bool {
    (f64_key(a) <= f64_key(level)) != (f64_key(b) <= f64_key(level))
}

/// A line through a triangle runs between the two edges that the level parts,
/// the lesser first.
pub proof fn law_edges_crossed(z0: u64, z1: u64, z2: u64, level: u64)
    requires
        !f64_nan(z0) && !f64_nan(z1) && !f64_nan(z2) && !f64_nan(level),
    ensures
        crossed_edges(z0, z1, z2, level) == Some((0u8, 1u8)) <==> parted(z0, z1, level) && parted(z1, z2, level),
        crossed_edges(z0, z1, z2, level) == Some((0u8, 2u8)) <==> parted(z0, z1, level) && parted(z2, z0, level),
        crossed_edges(z0, z1, z2, level) == Some((1u8, 2u8)) <==> parted(z1, z2, level) && parted(z2, z0, level),
        crossed_edges(z0, z1, z2, level) is None <==> !parted(z0, z1, level) && !parted(z1, z2, level),
{
}

/// Where an end of a segment lies, and where its other end does.
pub open spec fn end_at(segments: Seq<ContourSegment>, p: ChainPoint, far: bool) -> PointKey {
    if p.second != far {
        segments[p.segment as int].b
    } else {
        segments[p.segment as int].a
    }
}

/// A chain runs along segments: between each point and the next runs one of
/// them.
pub proof fn law_chains_run_along_segments(segments: Seq<ContourSegment>, c: int, k: int)
    requires
        segments.len() <= usize::MAX,
        0 <= c < chained(segments, segments.len() as int).0.len(),
        0 <= k < chained(segments, segments.len() as int).0[c].len() - 1,
    ensures
        ({
            let (p, q) = (chained(segments, segments.len() as int).0[c][k], chained(segments, segments.len() as int).0[c][k + 1]);
            exists|i: int|
                0 <= i < segments.len() && ({
                    let s = #[trigger] segments[i];
                    let (here, next) = (end_at(segments, p, false), end_at(segments, q, false));
                    (s.a == here && s.b == next) || (s.b == here && s.a == next)
                })
        }),
{
    crate::commands::chains::law_chains_use_every_segment(segments);
    let chain = chained(segments, segments.len() as int).0[c];
    assert(linked(segments, chain));
    let (p, q) = (chain[k], chain[k + 1]);
    assert(p.segment < segments.len() && q.segment < segments.len());
    assert(joined(segments, p, q));
    if far_key_of(segments, q) == key_of(segments, p) {
        assert(segments[q.segment as int].a == segments[q.segment as int].a);
    } else {
        assert(segments[p.segment as int].a == segments[p.segment as int].a);
    }
}

/// A chain goes on with the last unused segment that ends where it does.
pub proof fn law_chains_go_on(segments: Seq<ContourSegment>, used: Seq<bool>, key: PointKey, n: int, i: int)
    requires
        0 <= i < n <= segments.len(),
        used.len() == segments.len(),
        !used[i],
        segments[i].a == key || segments[i].b == key,
        forall|j: int| i < j < n ==> used[j] || ((#[trigger] segments[j]).a != key && segments[j].b != key),
    ensures
        neighbor(segments, used, key, n) == Some(i),
    decreases n,
{
    if i < n - 1 {
        assert(used[n - 1] || (segments[n - 1].a != key && segments[n - 1].b != key));
        law_chains_go_on(segments, used, key, n - 1, i);
    }
}

} // verus!
