use incline_design::commands::chains::{chain_contour_segments, ContourSegment, PointKey as ChainKey};
use incline_design::commands::ore::{block_face_rect, boundary_mesh_from_quads, candidate_bounds, exterior_block_face_tiles, face_tile, generated_mesh, ore_tiles};
use incline_design::commands::ore::{BlockBox, FaceCandidate, FaceRectBvh, PointKey, Spread};
use incline_design::commands::blocks::OreFilterMode;
use incline_design::commands::surfaces::raster_overlaps_extent;
use incline_design::commands::sweep::{sweep_levels, triangle_contour_edges, FaceSpan};
use incline_design::document::{FillStyle, Object, PolyVertex, Rgba};
use incline_design::drawing::batter_berm::{compute_batter_berm_rings, inward_side, mode_to_side_and_dz, valid_offset};
use incline_design::drawing::batter_berm::{BatterBermMode, BatterBermStopReason, Bench, BenchSearch, OffsetFacts};
use incline_design::drawing::bezier::{choose_closed_span, directed_span_points, replace_closed_span_with_bezier, replace_polyline_span_with_bezier};
use incline_design::drawing::drape::uppermost_topology_z;
use incline_design::drawing::rotate_collar::advance;
use incline_design::drawing::translate::translate_move_target;
use incline_design::drawing::split::{ring_slice, split_closed_ring, split_open_line};
use incline_design::error::AppError;
use incline_design::ieee::{at_most, equal64, finite64, less32, less64, Point3};
use incline_design::ids::{LayerId, ObjectId};
use incline_design::items::{Bounds, HoleOrientation};
use incline_design::search::nearest_within;
use incline_design::state::{CollarRotation, ObjectPoint};
use incline_design::tiles::{conforming_rect_tiles, intersect, number_at, order_key, rects_overlap, subtract_covered_rect, uncovered_face_rects, Rect};

fn p(x: f64, y: f64, z: f64) -> Point3 {
    Point3 { x: x.to_bits(), y: y.to_bits(), z: z.to_bits() }
}

fn v(x: f64, bulge: f64) -> PolyVertex {
    PolyVertex { pos: p(x, 0.0, 0.0), bulge: bulge.to_bits() }
}

fn xs(verts: &[PolyVertex]) -> Vec<f64> {
    verts.iter().map(|v| f64::from_bits(v.pos.x)).collect()
}

fn rect(u_min: i64, u_max: i64, v_min: i64, v_max: i64) -> Rect {
    Rect { u_min, u_max, v_min, v_max }
}

fn area(rects: &[Rect]) -> i64 {
    rects.iter().map(|r| (r.u_max - r.u_min) * (r.v_max - r.v_min)).sum()
}

#[test]
fn bits_are_compared_as_numbers() {
    let numbers = [f64::NEG_INFINITY, -2.5, -0.0, 0.0, 1.0e-300, 7.25, f64::INFINITY, f64::NAN];
    for a in numbers {
        for b in numbers {
            assert_eq!(less64(a.to_bits(), b.to_bits()), a < b);
            assert_eq!(equal64(a.to_bits(), b.to_bits()), a == b);
            assert_eq!(at_most(a.to_bits(), b.to_bits()), a <= b);
            assert_eq!(less32((a as f32).to_bits(), (b as f32).to_bits()), (a as f32) < (b as f32));
        }
        assert_eq!(finite64(a.to_bits()), a.is_finite());
    }
}

#[test]
fn order_keys_come_back_as_numbers() {
    for x in [-3.5f64, 0.0, 0.125, 1.0e10] {
        assert_eq!(f64::from_bits(number_at(order_key(x.to_bits()))), x);
    }
    assert!(order_key((-2.0f64).to_bits()) < order_key((-1.0f64).to_bits()));
    assert!(order_key((-1.0f64).to_bits()) < order_key(1.0f64.to_bits()));
}

#[test]
fn nearest_is_the_first_of_the_equally_near() {
    let d = vec![None, Some(4.0f64.to_bits()), Some(2.0f64.to_bits()), Some(2.0f64.to_bits()), Some(f64::NAN.to_bits())];
    assert_eq!(nearest_within(&d, 10.0f64.to_bits()), Some(2));
    assert_eq!(nearest_within(&d, 2.0f64.to_bits()), None);
}

#[test]
fn a_covered_middle_leaves_a_frame() {
    let left = subtract_covered_rect(rect(0, 10, 0, 10), rect(2, 8, 3, 7));
    assert_eq!(left, vec![rect(0, 2, 0, 10), rect(8, 10, 0, 10), rect(2, 8, 0, 3), rect(2, 8, 7, 10)]);
    assert_eq!(area(&left), 100 - 24);
    for (i, a) in left.iter().enumerate() {
        for b in &left[i + 1..] {
            assert!(!rects_overlap(*a, *b));
        }
        assert!(!rects_overlap(*a, rect(2, 8, 3, 7)));
    }
}

#[test]
fn rectangles_overlap_in_more_than_an_edge() {
    assert!(rects_overlap(rect(0, 4, 0, 4), rect(3, 5, 3, 5)));
    assert!(!rects_overlap(rect(0, 4, 0, 4), rect(4, 5, 0, 4)));
    assert_eq!(intersect(rect(0, 4, 0, 4), rect(3, 5, 2, 9)), rect(3, 4, 2, 4));
}

#[test]
fn covers_are_taken_off_one_after_the_other() {
    let left = uncovered_face_rects(rect(0, 4, 0, 4), &vec![rect(0, 2, 0, 4), rect(2, 4, 0, 1)]);
    assert_eq!(area(&left), 6);
    assert!(uncovered_face_rects(rect(0, 4, 0, 4), &vec![rect(-1, 5, -1, 5)]).is_empty());
}

#[test]
fn cells_meet_edge_to_edge() {
    let cells = conforming_rect_tiles(&vec![rect(0, 2, 0, 4), rect(2, 4, 0, 2)]);
    assert_eq!(area(&cells), 12);
    assert_eq!(cells.len(), 3);
    assert!(cells.contains(&rect(0, 2, 0, 2)));
    assert!(cells.contains(&rect(0, 2, 2, 4)));
    assert!(cells.contains(&rect(2, 4, 0, 2)));
}

#[test]
fn no_corner_lies_within_a_side() {
    let cells = conforming_rect_tiles(&vec![rect(0, 4, 0, 4), rect(4, 6, 1, 3), rect(4, 6, 3, 4)]);
    assert_eq!(area(&cells), 16 + 4 + 2);
    let inside = |c: i64, from: i64, to: i64| from < c && c < to;
    for a in &cells {
        for b in &cells {
            for (u, v) in [(a.u_min, a.v_min), (a.u_min, a.v_max), (a.u_max, a.v_min), (a.u_max, a.v_max)] {
                assert!(!((u == b.u_min || u == b.u_max) && inside(v, b.v_min, b.v_max)));
                assert!(!((v == b.v_min || v == b.v_max) && inside(u, b.u_min, b.u_max)));
            }
        }
    }
    let mut again = conforming_rect_tiles(&vec![rect(4, 6, 3, 4), rect(4, 6, 1, 3), rect(0, 4, 0, 4)]);
    assert_eq!(again.len(), cells.len());
    again.retain(|c| !cells.contains(c));
    assert!(again.is_empty());
}

fn wider(s: Spread) -> bool {
    f64::from_bits(s.v_max) - f64::from_bits(s.v_min) > f64::from_bits(s.u_max) - f64::from_bits(s.u_min)
}

fn unit_block(x: f64) -> BlockBox {
    let key = |c: f64| (c * 1000.0) as u64;
    BlockBox {
        lower: p(x, 0.0, 0.0),
        upper: p(x + 1.0, 1.0, 1.0),
        middle: p(x + 0.5, 0.5, 0.5),
        planes: [key(x), key(x + 1.0), 100_000, 101_000, 200_000, 201_000],
    }
}

#[test]
fn one_block_shows_six_faces() {
    let blocks = vec![unit_block(0.0)];
    let tiles = exterior_block_face_tiles(&blocks, &vec![0], &wider).ok().unwrap();
    assert_eq!(tiles.len(), 6);
    let faces: Vec<usize> = tiles.iter().map(|t| t.face).collect();
    assert_eq!(faces, vec![0, 1, 2, 3, 4, 5]);
    assert_eq!(block_face_rect(&blocks[0], 0), tiles[0].rect);
    assert_eq!(f64::from_bits(tiles[1].plane), 1.0);
}

#[test]
fn touching_blocks_hide_the_faces_between_them() {
    let blocks = vec![unit_block(0.0), unit_block(1.0), unit_block(5.0)];
    let tiles = exterior_block_face_tiles(&blocks, &vec![0, 1], &wider).ok().unwrap();
    assert_eq!(tiles.iter().filter(|t| t.face == 0).count(), 1);
    assert_eq!(tiles.iter().filter(|t| t.face == 1).count(), 1);
    let sides: Vec<usize> = (0..6).map(|face| tiles.iter().filter(|t| t.face == face).count()).collect();
    assert_eq!(sides, vec![1, 1, 2, 2, 2, 2]);
    assert_eq!(tiles.len(), 10);
    let apart = exterior_block_face_tiles(&blocks, &vec![0, 2], &wider).ok().unwrap();
    assert_eq!(apart.len(), 12);
}

#[test]
fn a_block_named_twice_counts_once() {
    let blocks = vec![unit_block(0.0)];
    assert_eq!(exterior_block_face_tiles(&blocks, &vec![0, 0], &wider).ok().unwrap().len(), 6);
}

#[test]
fn bad_blocks_are_refused() {
    let mut blocks = vec![unit_block(0.0)];
    assert_eq!(exterior_block_face_tiles(&blocks, &vec![1], &wider).err(), Some(AppError::BlockIndexOutside));
    blocks[0].upper.x = 0.0f64.to_bits();
    assert_eq!(exterior_block_face_tiles(&blocks, &vec![0], &wider).err(), Some(AppError::BlockBoundsInvalid));
    blocks[0].upper.x = f64::NAN.to_bits();
    assert_eq!(exterior_block_face_tiles(&blocks, &vec![0, 9], &wider).err(), Some(AppError::BlockBoundsInvalid));
}

#[test]
fn tiles_are_turned_outwards() {
    let blocks = vec![unit_block(0.0)];
    let tiles = exterior_block_face_tiles(&blocks, &vec![0], &wider).ok().unwrap();
    assert_eq!(face_tile(tiles[0]), [p(0.0, 0.0, 0.0), p(0.0, 1.0, 0.0), p(0.0, 1.0, 1.0), p(0.0, 0.0, 1.0)]);
    assert_eq!(face_tile(tiles[5]), [p(0.0, 0.0, 1.0), p(0.0, 1.0, 1.0), p(1.0, 1.0, 1.0), p(1.0, 0.0, 1.0)]);
}

fn leaves(tree: &FaceRectBvh) -> Vec<usize> {
    match tree {
        FaceRectBvh::Leaf { entries, .. } => vec![entries.len()],
        FaceRectBvh::Branch { left, right, .. } => {
            let mut all = leaves(left);
            all.extend(leaves(right));
            all
        }
    }
}

fn arranged(tree: &FaceRectBvh) -> Vec<usize> {
    match tree {
        FaceRectBvh::Leaf { entries, .. } => entries.iter().map(|c| c.block).collect(),
        FaceRectBvh::Branch { left, right, .. } => {
            let mut all = arranged(left);
            all.extend(arranged(right));
            all
        }
    }
}

#[test]
fn faces_are_halved_along_the_wider_axis() {
    let face = |block: usize, u: f64, v: f64| FaceCandidate {
        block,
        rect: rect(u as i64, u as i64 + 1, v as i64, v as i64 + 1),
        middle: (u.to_bits(), v.to_bits()),
    };
    let along_u: Vec<FaceCandidate> = (0..9).map(|i| face(i, 80.0 - 10.0 * i as f64, i as f64)).collect();
    assert_eq!(arranged(&FaceRectBvh::build(along_u, &wider)), vec![8, 7, 6, 5, 4, 3, 2, 1, 0]);
    let along_v: Vec<FaceCandidate> = (0..9).map(|i| face(i, 8.0 - i as f64, (i % 3) as f64 * 10.0)).collect();
    assert_eq!(arranged(&FaceRectBvh::build(along_v, &wider)), vec![0, 3, 6, 1, 4, 7, 2, 5, 8]);
    let zeroes: Vec<FaceCandidate> = (0..9).map(|i| face(i, if i == 4 { -0.0 } else { 0.0 }, 0.0)).collect();
    assert_eq!(arranged(&FaceRectBvh::build(zeroes, &wider)), vec![4, 0, 1, 2, 3, 5, 6, 7, 8]);
}

#[test]
fn ore_is_shown_by_its_outside() {
    let blocks = vec![unit_block(0.0), unit_block(1.0), unit_block(5.0)];
    let values: Vec<u64> = [3.0f64, 1.0, 5.0].iter().map(|v| v.to_bits()).collect();
    let ore = |least: f64| ore_tiles(&values, &vec![0, 1, 2], &vec![false, false, false], OreFilterMode::GreaterOrEqual, least.to_bits(), 0, &blocks, &wider);
    assert_eq!(ore(9.0).err(), Some(AppError::NothingMatches));
    assert_eq!(ore(4.0).ok().unwrap().len(), 6);
    assert_eq!(ore(2.0).ok().unwrap().len(), 12);
    assert_eq!(ore(0.0).ok().unwrap().len(), 16);
}

#[test]
fn a_mesh_needs_faces() {
    assert_eq!(generated_mesh(&Vec::new()).err(), Some(AppError::NoFaces));
    let k = |x: u64, y: u64| PointKey { x, y, z: 0 };
    let (points, faces) = generated_mesh(&vec![[k(0, 0), k(1, 0), k(1, 1), k(0, 1)]]).ok().unwrap();
    assert_eq!((points.len(), faces.len()), (4, 2));
}

#[test]
fn a_search_finds_the_faces_near_a_place() {
    let face = |i: usize| FaceCandidate {
        block: i,
        rect: rect(i as i64 * 10, i as i64 * 10 + 5, 0, 5),
        middle: ((i as f64 * 10.0 + 2.5).to_bits(), 2.5f64.to_bits()),
    };
    let entries: Vec<FaceCandidate> = (0..40).map(face).collect();
    let bounds = candidate_bounds(&entries);
    assert_eq!(bounds, rect(0, 395, 0, 5));
    assert_eq!(candidate_bounds(&Vec::new()), rect(i64::MAX, i64::MIN, i64::MAX, i64::MIN));
    let tree = FaceRectBvh::build(entries, &wider);
    assert_eq!(leaves(&tree), vec![5; 8]);
    let mut found = Vec::new();
    tree.query(rect(101, 122, 1, 2), &mut found);
    let mut blocks: Vec<usize> = found.iter().map(|c| c.block).collect();
    blocks.sort();
    assert_eq!(blocks, vec![10, 11, 12]);
    found.clear();
    tree.query(rect(6, 9, 0, 5), &mut found);
    assert!(found.is_empty());
}

#[test]
fn corners_are_welded() {
    let k = |x: u64, y: u64| PointKey { x, y, z: 0 };
    let quads = vec![[k(0, 0), k(1, 0), k(1, 1), k(0, 1)], [k(1, 0), k(2, 0), k(2, 1), k(1, 1)]];
    let (points, faces) = boundary_mesh_from_quads(&quads).unwrap();
    assert_eq!(points, vec![k(0, 0), k(1, 0), k(1, 1), k(0, 1), k(2, 0), k(2, 1)]);
    assert_eq!(faces, vec![[0, 1, 2], [0, 2, 3], [1, 4, 5], [1, 5, 2]]);
    for at in 0..points.len() as u32 {
        assert!(faces.iter().any(|f| f.contains(&at)));
    }
}

#[test]
fn an_open_line_is_split_at_a_vertex() {
    let line = vec![v(0.0, 0.1), v(1.0, 0.2), v(2.0, 0.3), v(3.0, 0.0)];
    let (a, b) = split_open_line(&line, 2).unwrap();
    assert_eq!(xs(&a), vec![0.0, 1.0, 2.0]);
    assert_eq!(xs(&b), vec![2.0, 3.0]);
    assert_eq!(a[2].bulge, 0);
    assert_eq!(f64::from_bits(b[0].bulge), 0.3);
    assert!(split_open_line(&line, 0).is_none());
    assert!(split_open_line(&line, 3).is_none());
    assert!(split_open_line(&vec![v(0.0, 0.0), v(1.0, 0.0)], 1).is_none());
}

#[test]
fn a_ring_is_split_at_two_vertices() {
    let ring = vec![v(0.0, 0.0), v(1.0, 0.5), v(2.0, 0.0), v(3.0, 0.0), v(4.0, 0.0)];
    let (a, b) = split_closed_ring(&ring, 1, 3).unwrap();
    assert_eq!(xs(&a), vec![1.0, 2.0, 3.0]);
    assert_eq!(xs(&b), vec![3.0, 4.0, 0.0, 1.0]);
    assert_eq!(f64::from_bits(a[0].bulge), 0.5);
    assert_eq!(b[3].bulge, 0);
    assert!(split_closed_ring(&ring, 1, 2).is_none());
    assert!(split_closed_ring(&ring, 0, 4).is_none());
    assert!(split_closed_ring(&ring, 2, 2).is_none());
    assert!(split_closed_ring(&ring[..3].to_vec(), 0, 2).is_none());
    assert_eq!(xs(&ring_slice(&ring, 3, 0)), vec![3.0, 4.0, 0.0]);
}

#[test]
fn a_curve_replaces_a_stretch_of_a_line() {
    let line = vec![v(0.0, 0.1), v(1.0, 0.2), v(2.0, 0.3), v(3.0, 0.4), v(4.0, 0.0)];
    let curve = vec![p(1.5, 1.0, 0.0), p(2.5, 1.0, 0.0)];
    let r = replace_polyline_span_with_bezier(&line, false, 1, 3, &curve).unwrap();
    assert_eq!(xs(&r), vec![0.0, 1.0, 1.5, 2.5, 3.0, 4.0]);
    assert_eq!(r[1].bulge, 0);
    assert_eq!(f64::from_bits(r[4].bulge), 0.4);
    assert!(replace_polyline_span_with_bezier(&line, false, 3, 1, &curve).is_none());
    assert!(replace_polyline_span_with_bezier(&line, false, 1, 5, &curve).is_none());
}

#[test]
fn a_curve_over_the_end_of_a_ring_turns_it() {
    let ring = vec![v(0.0, 0.0), v(1.0, 0.0), v(2.0, 0.0), v(3.0, 0.7)];
    let curve = vec![p(9.0, 0.0, 0.0)];
    let r = replace_closed_span_with_bezier(&ring, 3, 1, &curve).unwrap();
    assert_eq!(xs(&r), vec![1.0, 2.0, 3.0, 9.0]);
    assert_eq!(r[2].bulge, 0);
    assert!(replace_closed_span_with_bezier(&ring, 2, 2, &curve).is_none());
}

#[test]
fn the_shorter_way_round_is_taken() {
    let (one, two) = (1.0f64.to_bits(), 2.0f64.to_bits());
    assert_eq!(choose_closed_span(0, 3, one, two, false), (0, 3));
    assert_eq!(choose_closed_span(0, 3, two, one, false), (3, 0));
    assert_eq!(choose_closed_span(0, 3, two, one, true), (0, 3));
    assert_eq!(choose_closed_span(0, 3, one, one, false), (0, 3));
    assert_eq!(choose_closed_span(0, 3, f64::NAN.to_bits(), one, false), (3, 0));
}

#[test]
fn points_along_a_stretch_hold_the_arcs() {
    let ring = vec![v(0.0, 0.0), v(1.0, 0.0), v(2.0, 0.0)];
    let edges = vec![
        vec![p(0.0, 0.0, 0.0), p(0.5, 1.0, 0.0), p(1.0, 0.0, 0.0)],
        vec![p(1.0, 0.0, 0.0), p(2.0, 0.0, 0.0)],
        vec![p(2.0, 0.0, 0.0), p(0.0, 0.0, 0.0)],
    ];
    let r = directed_span_points(&ring, &edges, true, 2, 1);
    assert_eq!(r, vec![p(2.0, 0.0, 0.0), p(0.0, 0.0, 0.0), p(0.5, 1.0, 0.0), p(1.0, 0.0, 0.0)]);
    assert!(directed_span_points(&ring, &edges, false, 2, 1).is_empty());
    assert_eq!(directed_span_points(&ring, &edges, false, 0, 1).len(), 3);
}

fn bench(points: usize) -> Bench {
    let ring = vec![p(0.0, 0.0, 0.0); points];
    Bench { cancelled: false, toe: ring.clone(), toe_valid: true, cancelled_at_berm: false, berm: ring, berm_valid: true }
}

#[test]
fn benches_come_in_whole_pairs() {
    let mut search = BenchSearch::begin(Some(2), 4096);
    assert!(compute_batter_berm_rings(&mut search, bench(4)));
    assert!(!compute_batter_berm_rings(&mut search, bench(4)));
    assert_eq!(search.rings.len(), 4);
    let found = search.found();
    assert_eq!(found.completed_benches, 2);
    assert_eq!(found.stop_reason, BatterBermStopReason::RequestedCount);
}

#[test]
fn a_search_for_benches_ends_for_a_reason() {
    let cases = [
        (Bench { cancelled: true, ..bench(3) }, BatterBermStopReason::Cancelled),
        (Bench { toe_valid: false, ..bench(3) }, BatterBermStopReason::NoValidBatter),
        (Bench { cancelled_at_berm: true, ..bench(3) }, BatterBermStopReason::Cancelled),
        (Bench { berm_valid: false, ..bench(3) }, BatterBermStopReason::NoValidBerm),
        (bench(500_001), BatterBermStopReason::SafetyLimit),
    ];
    for (last, reason) in cases {
        let mut search = BenchSearch::begin(None, 10);
        assert!(compute_batter_berm_rings(&mut search, bench(3)));
        assert!(!compute_batter_berm_rings(&mut search, last));
        let found = search.found();
        assert_eq!((found.rings.len(), found.completed_benches, found.stop_reason), (2, 1, reason));
    }
    let mut all = BenchSearch::begin(None, 1);
    assert!(!compute_batter_berm_rings(&mut all, bench(3)));
    assert_eq!(all.found().stop_reason, BatterBermStopReason::SafetyLimit);
    assert_eq!(BenchSearch::begin(Some(0), 5).found().stop_reason, BatterBermStopReason::RequestedCount);
}

#[test]
fn pits_and_stockpiles_step_opposite_ways() {
    let (one, ten) = (1.0f64.to_bits(), 10.0f64.to_bits());
    let steps = |mode, up| {
        let (side, dz, outward) = mode_to_side_and_dz(4, true, one, mode, up, ten);
        (f64::from_bits(side), f64::from_bits(dz), outward)
    };
    assert_eq!(steps(BatterBermMode::Pit, true), (-1.0, 10.0, true));
    assert_eq!(steps(BatterBermMode::Pit, false), (1.0, -10.0, false));
    assert_eq!(steps(BatterBermMode::Stockpile, true), (1.0, 10.0, false));
    assert_eq!(steps(BatterBermMode::Stockpile, false), (-1.0, -10.0, true));
    assert_eq!(f64::from_bits(inward_side(4, true, 5.0f64.to_bits())), 1.0);
    assert_eq!(f64::from_bits(inward_side(4, true, (-5.0f64).to_bits())), -1.0);
    assert_eq!(f64::from_bits(inward_side(4, false, 5.0f64.to_bits())), -1.0);
    assert_eq!(f64::from_bits(inward_side(2, true, 5.0f64.to_bits())), -1.0);
}

#[test]
fn a_ring_fits_the_one_before_it() {
    let f = OffsetFacts { previous_len: 4, next_len: 4, same_winding: true, area_grew: false, area_shrank: true, inner_inside: true };
    assert!(valid_offset(f, true, false));
    assert!(!valid_offset(f, true, true));
    assert!(!valid_offset(OffsetFacts { same_winding: false, ..f }, true, false));
    assert!(!valid_offset(OffsetFacts { inner_inside: false, ..f }, true, false));
    assert!(!valid_offset(OffsetFacts { next_len: 2, ..f }, true, false));
    assert!(valid_offset(OffsetFacts { next_len: 2, ..f }, false, false));
    assert!(!valid_offset(OffsetFacts { next_len: 1, ..f }, false, false));
}

#[test]
fn a_point_is_draped_to_the_uppermost_surface() {
    let wide = Bounds { min: p(0.0, 0.0, 0.0), max: p(10.0, 10.0, 0.0) };
    let far = Bounds { min: p(20.0, 0.0, 0.0), max: p(30.0, 10.0, 0.0) };
    let z = |x: f64| Some(x.to_bits());
    let at = p(5.0, 5.0, 0.0);
    assert_eq!(uppermost_topology_z(at, &vec![wide, far, wide], &vec![z(3.0), z(9.0), z(4.0)]), z(4.0));
    assert_eq!(uppermost_topology_z(at, &vec![wide, wide], &vec![None, z(-2.0)]), z(-2.0));
    assert_eq!(uppermost_topology_z(at, &vec![far], &vec![z(9.0)]), None);
    assert_eq!(uppermost_topology_z(at, &vec![wide, wide], &vec![z(-0.0), z(0.0)]), z(0.0));
}

#[test]
fn a_raster_overlaps_what_comes_onto_it() {
    let n = |a: [f64; 4]| a.map(f64::to_bits);
    assert!(raster_overlaps_extent(&n([-1.0, 0.5, -1.0, 0.5]), &n([0.2, 0.2, 3.0, 3.0])));
    assert!(!raster_overlaps_extent(&n([1.5, 2.0, 1.5, 2.0]), &n([0.2, 0.2, 3.0, 3.0])));
    assert!(!raster_overlaps_extent(&n([0.5, 0.5, 0.5, 0.5]), &n([-2.0, -1.0, -2.0, -1.0])));
    assert!(!raster_overlaps_extent(&n([f64::NAN; 4]), &n([0.2, 0.2, 3.0, 3.0])));
}

#[test]
fn segments_are_chained_end_to_end() {
    let k = |x: i64| ChainKey { x, y: 0, z: 0 };
    let segments = vec![
        ContourSegment { a: k(1), b: k(2) },
        ContourSegment { a: k(3), b: k(2) },
        ContourSegment { a: k(0), b: k(1) },
        ContourSegment { a: k(8), b: k(9) },
    ];
    let chains = chain_contour_segments(&segments);
    assert_eq!(chains.len(), 2);
    assert_eq!(chains[0].len(), 4);
    let at = |c: &incline_design::commands::chains::ChainPoint| {
        let s = segments[c.segment];
        if c.second { s.b.x } else { s.a.x }
    };
    assert_eq!(chains[0].iter().map(at).collect::<Vec<_>>(), vec![0, 1, 2, 3]);
    assert_eq!(chains[1].iter().map(at).collect::<Vec<_>>(), vec![8, 9]);
}

#[test]
fn a_sweep_finds_the_faces_that_a_level_crosses() {
    let f = |lo: f64, hi: f64| FaceSpan { z_min: lo.to_bits(), z_max: hi.to_bits() };
    let faces = vec![f(0.0, 10.0), f(2.0, 4.0), f(5.0, 6.0)];
    let levels = vec![1.0f64.to_bits(), 2.0f64.to_bits(), 4.0f64.to_bits(), 5.5f64.to_bits()];
    assert_eq!(sweep_levels(&faces, &levels), vec![vec![0], vec![0, 1], vec![0], vec![0, 2]]);
}

#[test]
fn a_level_crosses_two_edges_of_a_triangle() {
    let b = f64::to_bits;
    assert_eq!(triangle_contour_edges(b(0.0), b(2.0), b(2.0), b(1.0)), Some((0, 2)));
    assert_eq!(triangle_contour_edges(b(0.0), b(2.0), b(0.0), b(1.0)), Some((0, 1)));
    assert_eq!(triangle_contour_edges(b(0.0), b(2.0), b(0.0), b(3.0)), None);
    assert_eq!(triangle_contour_edges(b(1.0), b(1.0), b(1.0), b(1.0)), None);
}

#[test]
fn a_move_takes_along_what_it_is_aimed_at() {
    let line = Object::Polyline {
        id: ObjectId(1),
        layer: LayerId(1),
        verts: vec![v(0.0, 0.0), v(1.0, 0.5)],
        closed: false,
        color: Rgba { r: 0, g: 0, b: 0, a: 0 },
        fill: FillStyle::Clear,
        line_weight: 0,
    };
    let to = vec![p(10.0, 0.0, 0.0), p(11.0, 0.0, 0.0)];
    let moved = |aim, circle| match translate_move_target(&line, aim, circle, &to) {
        Object::Polyline { verts, .. } => xs(&verts),
        _ => Vec::new(),
    };
    assert_eq!(moved(None, false), vec![10.0, 11.0]);
    assert_eq!(moved(Some((ObjectId(1), ObjectPoint::Vertex(1))), false), vec![0.0, 11.0]);
    assert_eq!(moved(Some((ObjectId(2), ObjectPoint::Vertex(1))), false), vec![0.0, 1.0]);
    assert_eq!(moved(Some((ObjectId(1), ObjectPoint::Center)), false), vec![0.0, 1.0]);
    assert_eq!(moved(Some((ObjectId(1), ObjectPoint::Center)), true), vec![10.0, 11.0]);
    assert_eq!(moved(Some((ObjectId(1), ObjectPoint::Vertex(7))), false), vec![0.0, 1.0]);
}

#[test]
fn a_turn_keeps_within_its_room() {
    let b = f64::to_bits;
    let start = CollarRotation::Absolute(HoleOrientation { azimuth: b(10.0), dip: b(-60.0) });
    let room = (b(-90.0), b(90.0));
    assert_eq!(advance(start, 0, b(350.0), b(0.0), room), CollarRotation::Absolute(HoleOrientation { azimuth: b(350.0), dip: b(-60.0) }));
    assert_eq!(advance(start, 1, b(350.0), b(-95.0), room), CollarRotation::Absolute(HoleOrientation { azimuth: b(10.0), dip: b(-90.0) }));
    let by = CollarRotation::Delta { azimuth: b(0.0), dip: b(0.0) };
    assert_eq!(advance(by, 1, b(5.0), b(7.0), (b(-3.0), b(3.0))), CollarRotation::Delta { azimuth: b(0.0), dip: b(3.0) });
}
