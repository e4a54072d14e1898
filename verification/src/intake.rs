//! Items that come with a project file, and the ids that they are given.

use crate::arrivals::{LoadedBlockModel, LoadedDrillHoles, LoadedPointCloud, LoadedRaster, LoadedTriangulation};
use crate::document::Rgba;
use crate::ids::{contains_key, RasterTextureId, TriangulationId};
use crate::items::{BlockModelSlice, ColorTransfer, DrillColorState, Items};
use crate::loads::LoadKind;
use crate::state::Frame;
use vstd::prelude::*;

verus! {

/// One more, as far as there is one.
pub open spec fn after(n: u64) -> u64 {
    if n < u64::MAX {
        (n + 1) as u64
    } else {
        n
    }
}

fn next_after(n: u64) -> (r: u64)
    ensures
        r == after(n),
{
    if n < u64::MAX {
        n + 1
    } else {
        n
    }
}

/// The first number from `n` on that is not used, or the largest number.
pub open spec fn first_free(n: u64, used: Set<u64>) -> u64
    decreases u64::MAX - n,
{
    if n < u64::MAX && used.contains(n) {
        first_free((n + 1) as u64, used)
    } else {
        n
    }
}

/// The id that an item is given, and the counter afterwards: the id that the
/// item asks for if no other has it, or else the next one that none has.
pub open spec fn allocated(preferred: Option<u64>, next: u64, used: Set<u64>) -> (u64, u64) {
    match preferred {
        Some(p) if !used.contains(p) => (
            p,
            if next < after(p) {
                after(p)
            } else {
                next
            },
        ),
        _ => (first_free(next, used), after(first_free(next, used))),
    }
}

/// There is a number from `n` on that is not used.
pub open spec fn some_free(n: u64, used: Set<u64>) -> bool {
    !used.contains(first_free(n, used))
}

/// Gives an item an id: the one that it asks for if no other has it, or else
/// the next one that none has.
pub fn allocate_item_id(preferred: Option<u64>, next: &mut u64, used: &Vec<u64>) -> (r: u64)
    requires
        some_free(*old(next), used@.to_set()),
    ensures
        (r, *final(next)) == allocated(preferred, *old(next), used@.to_set()),
        !used@.contains(r),
{
    let ghost taken = used@.to_set();
    match preferred {
        Some(p) => {
            if !contains_key(used, p) {
                let behind: u64 = next_after(p);
                if *next < behind {
                    *next = behind;
                }
                return p;
            }
        },
        None => {},
    }
    while contains_key(used, *next)
        invariant
            taken == used@.to_set(),
            !taken.contains(first_free(*next, taken)),
            first_free(*next, taken) == first_free(*old(next), taken),
        decreases u64::MAX - *next,
    {
        assert(taken.contains(*next));
        *next = next_after(*next);
    }
    let id: u64 = *next;
    *next = next_after(id);
    id
}

/// An item never gets an id that another has, and the counter moves past it.
pub proof fn law_allocated_id_is_free(preferred: Option<u64>, next: u64, used: Set<u64>)
    requires
        some_free(next, used),
    ensures
        !used.contains(allocated(preferred, next, used).0),
        allocated(preferred, next, used).1 >= next,
        allocated(preferred, next, used).0 < u64::MAX ==> allocated(preferred, next, used).1 > allocated(preferred, next, used).0,
        preferred is Some && !used.contains(preferred->0) ==> allocated(preferred, next, used).0 == preferred->0,
{
    lemma_first_free(next, used);
}

proof fn lemma_first_free(n: u64, used: Set<u64>)
    ensures
        first_free(n, used) >= n,
    decreases u64::MAX - n,
{
    if n < u64::MAX && used.contains(n) {
        lemma_first_free((n + 1) as u64, used);
    }
}

/// Where every used number lies below the counter, the counter itself is free.
proof fn lemma_below(next: u64, used: Set<u64>)
    requires
        forall|x: u64| #[trigger] used.contains(x) ==> x < next,
    ensures
        first_free(next, used) == next,
        some_free(next, used),
{
}

/// A raster that came with a project file: the id that it had there, where it
/// came from, whether it is loaded, and whether its data lies in storage.
pub struct ImportedRaster {
    pub loaded: LoadedRaster,
    pub preferred_id: Option<u64>,
    pub source_name: Option<String>,
    pub source_format: Option<String>,
    pub is_loaded: bool,
    pub deferred: bool,
}

/// A surface that came with a project file.
pub struct ImportedTriangulation {
    pub loaded: LoadedTriangulation,
    pub preferred_id: Option<u64>,
    pub source_name: Option<String>,
    pub source_format: Option<String>,
    pub is_loaded: bool,
    pub deferred: bool,
    pub color: Rgba,
    pub line_color: Rgba,
    pub line_weight: Option<u32>,
    pub raster_texture_id: Option<u64>,
    pub raster_opacity: u32,
}

/// A block model that came with a project file.
pub struct ImportedBlockModel {
    pub loaded: LoadedBlockModel,
    pub preferred_id: Option<u64>,
    pub source_name: Option<String>,
    pub source_format: Option<String>,
    pub is_loaded: bool,
    pub deferred: bool,
    pub color: Rgba,
    pub slice: Option<BlockModelSlice>,
    pub color_transfers: Vec<ColorTransfer>,
    pub hide_empty_color_values: bool,
}

/// A drillhole dataset that came with a project file.
pub struct ImportedDrillHoles {
    pub loaded: LoadedDrillHoles,
    pub preferred_id: Option<u64>,
    pub source_name: Option<String>,
    pub source_format: Option<String>,
    pub is_loaded: bool,
    pub deferred: bool,
    pub color: DrillColorState,
}

/// A point cloud that came with a project file.
pub struct ImportedPointCloud {
    pub loaded: LoadedPointCloud,
    pub preferred_id: Option<u64>,
    pub source_name: Option<String>,
    pub source_format: Option<String>,
    pub is_loaded: bool,
    pub deferred: bool,
    pub color: Rgba,
    pub point_size: u32,
}

/// The state of an intake: whether items keep the ids that they had, whether
/// the scene holds objects, the counter of the project's items, the surface
/// that is active, what has to be redone, and under which ids the rasters of
/// the file were taken in.
pub struct Intake {
    pub keep_ids: bool,
    pub scene_drawn: bool,
    pub revision: u64,
    pub active: Option<TriangulationId>,
    pub frame: Frame,
    pub rasters: Vec<(u64, RasterTextureId)>,
}

/// The id under which a raster of the file was taken in. Where a file names
/// two rasters alike, the later counts.
pub open spec fn raster_for(rasters: Seq<(u64, RasterTextureId)>, id: u64) -> Option<RasterTextureId>
    decreases rasters.len(),
{
    if rasters.len() == 0 {
        None
    } else if rasters.last().0 == id {
        Some(rasters.last().1)
    } else {
        raster_for(rasters.drop_last(), id)
    }
}

pub fn find_raster_for(rasters: &Vec<(u64, RasterTextureId)>, id: u64) -> (r: Option<RasterTextureId>)
    ensures
        r == raster_for(rasters@, id),
{
    let mut n: usize = rasters.len();
    assert(rasters@.take(n as int) =~= rasters@);
    while n > 0
        invariant
            n <= rasters.len(),
            raster_for(rasters@, id) == raster_for(rasters@.take(n as int), id),
        decreases n,
    {
        if rasters[n - 1].0 == id {
            return Some(rasters[n - 1].1);
        }
        assert(rasters@.take(n as int).drop_last() =~= rasters@.take(n - 1));
        n -= 1;
    }
    None
}

/// The counter, or what comes after the id that is asked for and kept.
pub open spec fn high_mark(keep: bool, preferred: Option<u64>, next: u64) -> int {
    match preferred {
        Some(p) if keep && p >= next => p + 1,
        _ => next as int,
    }
}

/// The id that an item is given on its way in, and the counter afterwards. An
/// item that keeps its id counts once more where it is first added and then
/// given that id.
pub open spec fn taken_id(keep: bool, preferred: Option<u64>, next: u64, used: Set<u64>, twice: bool) -> (u64, u64) {
    if keep {
        let (id, n) = allocated(preferred, next, used);
        (
            id,
            if twice {
                (n + 1) as u64
            } else {
                n
            },
        )
    } else {
        (next, (next + 1) as u64)
    }
}

pub fn take_id(keep: bool, preferred: Option<u64>, next: &mut u64, used: &Vec<u64>, twice: bool) -> (r: u64)
    requires
        *old(next) < u64::MAX - 1,
        keep ==> forall|x: u64| #[trigger] used@.contains(x) ==> x < *old(next),
        keep ==> (preferred matches Some(p) ==> p < u64::MAX - 2),
    ensures
        (r, *final(next)) == taken_id(keep, preferred, *old(next), used@.to_set(), twice),
        *final(next) <= high_mark(keep, preferred, *old(next)) + 2,
        *final(next) > r,
        *final(next) >= *old(next),
        keep ==> !used@.contains(r),
{
    if keep {
        proof {
            assert forall|x: u64| #[trigger] used@.to_set().contains(x) implies x < *next by {
                assert(used@.contains(x));
            }
            lemma_below(*next, used@.to_set());
        }
        let id: u64 = allocate_item_id(preferred, next, used);
        if twice {
            *next = *next + 1;
        }
        id
    } else {
        let id: u64 = *next;
        *next = id + 1;
        id
    }
}

/// Nothing changed but what is of one kind.
pub open spec fn same_but(pre: Items, post: Items, kind: LoadKind) -> bool {
    &&& kind != LoadKind::Triangulation ==> post.triangulations == pre.triangulations && post.next_triangulation_id == pre.next_triangulation_id
    &&& kind != LoadKind::PointCloud ==> post.point_clouds == pre.point_clouds && post.next_point_cloud_id == pre.next_point_cloud_id
    &&& kind != LoadKind::Raster ==> post.raster_textures == pre.raster_textures && post.next_raster_texture_id == pre.next_raster_texture_id
    &&& kind != LoadKind::BlockModel ==> post.block_models == pre.block_models && post.next_block_model_id == pre.next_block_model_id
    &&& kind != LoadKind::DrillHoles ==> post.drill_holes == pre.drill_holes && post.next_drill_hole_id == pre.next_drill_hole_id
}

/// Something that comes with a project file.
pub trait Arrival: Sized {
    /// What taking it in does.
    spec fn taken_in(self, pre: Items, before: Intake, post: Items, then: Intake) -> bool;

    /// The id that it had.
    spec fn wish(self) -> Option<u64>;

    /// What kind of item it is.
    spec fn kind() -> LoadKind;

    /// The counter of its kind.
    spec fn counter(items: Items) -> u64;

    /// The ids of its kind.
    spec fn ids(items: Items) -> Seq<u64>;

    /// Takes it in.
    fn take_in(self, items: &mut Items, intake: &mut Intake)
        requires
            Self::counter(*old(items)) < u64::MAX - 1,
            old(intake).keep_ids ==> (self.wish() matches Some(p) ==> p < u64::MAX - 2),
            old(intake).keep_ids ==> forall|x: u64| #[trigger] Self::ids(*old(items)).contains(x) ==> x < Self::counter(*old(items)),
        ensures
            self.taken_in(*old(items), *old(intake), *final(items), *final(intake)),
            final(intake).keep_ids == old(intake).keep_ids,
            same_but(*old(items), *final(items), Self::kind()),
            Self::counter(*final(items)) <= high_mark(old(intake).keep_ids, self.wish(), Self::counter(*old(items))) + 2,
            Self::counter(*final(items)) >= Self::counter(*old(items)),
            forall|x: u64| #[trigger]
                Self::ids(*final(items)).contains(x) ==> Self::ids(*old(items)).contains(x) || x < Self::counter(*final(items)),
    ;
}

/// All of a list was taken in, one after the other.
pub open spec fn all_taken_in<T: Arrival>(list: Seq<T>, pre: Items, before: Intake, post: Items, then: Intake) -> bool
    decreases list.len(),
{
    if list.len() == 0 {
        post == pre && then == before
    } else {
        exists|mid: Items, at: Intake|
            all_taken_in(list.drop_last(), pre, before, mid, at) && #[trigger] list.last().taken_in(mid, at, post, then)
    }
}

/// There are ids enough: none that is asked for and no counter comes near the
/// largest number.
pub open spec fn ids_enough<T: Arrival>(list: Seq<T>, items: Items, keep: bool) -> bool {
    &&& T::counter(items) + 2 * list.len() < u64::MAX - 2
    &&& keep ==> forall|i: int| 0 <= i < list.len() ==> ((#[trigger] list[i]).wish() matches Some(p) ==> p + 2 * list.len() < u64::MAX - 4)
}

/// Takes in a list, one after the other.
pub fn take_in_all<T: Arrival>(list: Vec<T>, items: &mut Items, intake: &mut Intake)
    requires
        ids_enough(list@, *old(items), old(intake).keep_ids),
        old(intake).keep_ids ==> forall|x: u64| #[trigger] T::ids(*old(items)).contains(x) ==> x < T::counter(*old(items)),
    ensures
        all_taken_in(list@, *old(items), *old(intake), *final(items), *final(intake)),
        final(intake).keep_ids == old(intake).keep_ids,
        same_but(*old(items), *final(items), T::kind()),
        !old(intake).keep_ids ==> T::counter(*final(items)) <= T::counter(*old(items)) + 2 * list@.len(),
{
    let ghost all = list@;
    let ghost n = all.len() as int;
    let mut left = list;
    let mut done: Ghost<int> = Ghost(0);
    proof {
        assert(all.skip(0) =~= all);
        assert(all.take(0) =~= Seq::<T>::empty());
    }
    while left.len() > 0
        invariant
            0 <= done@ <= n,
            n == all.len(),
            left@ == all.skip(done@),
            all_taken_in(all.take(done@), *old(items), *old(intake), *items, *intake),
            intake.keep_ids == old(intake).keep_ids,
            same_but(*old(items), *items, T::kind()),
            !intake.keep_ids ==> T::counter(*items) <= T::counter(*old(items)) + 2 * done@,
            intake.keep_ids ==> forall|i: int| 0 <= i < n ==> ((#[trigger] all[i]).wish() matches Some(p) ==> p + 2 * n < u64::MAX - 4),
            T::counter(*items) + 2 * (n - done@) < u64::MAX - 2,
            intake.keep_ids ==> forall|x: u64| #[trigger] T::ids(*items).contains(x) ==> x < T::counter(*items),
        decreases left.len(),
    {
        let ghost mid = *items;
        let ghost at = *intake;
        let one = left.remove(0);
        proof {
            assert(one == all[done@]);
            assert(left@ =~= all.skip(done@ + 1));
        }
        one.take_in(items, intake);
        proof {
            let upto = all.take(done@ + 1);
            assert(upto.drop_last() =~= all.take(done@));
            assert(upto.last() == one);
            assert(upto.last().taken_in(mid, at, *items, *intake));
            done@ = done@ + 1;
        }
    }
    assert(all.take(n) =~= all);
}

} // verus!
