//! A budget for allocations that can come near what the browser can address.

use crate::state::Platform;
use vstd::prelude::*;

verus! {

/// How many bytes of working memory are handed out in the browser: three GiB.
pub const WORKING_SET_LIMIT: usize = 0xC000_0000;

/// How many bytes an input file has in the browser at most: two GiB.
pub const INPUT_FILE_LIMIT: usize = 0x8000_0000;

/// How many bytes of a file are read at a time in the browser.
pub const FILE_CHUNK_BYTES: usize = 0x0400_0000;

/// How many bytes the cells of one volume take at most.
pub fn volume_cell_limit(platform: Platform) -> (r: u64)
    ensures
        r == if platform == Platform::Browser {
            0x4000_0000u64
        } else {
            0x1_0000_0000u64
        },
{
    if platform == Platform::Browser {
        0x4000_0000
    } else {
        0x1_0000_0000
    }
}

/// How many bytes the tables of one volume take at most.
pub fn volume_metadata_limit(platform: Platform) -> (r: u64)
    ensures
        r == if platform == Platform::Browser {
            0x2000_0000u64
        } else {
            0x8000_0000u64
        },
{
    if platform == Platform::Browser {
        0x2000_0000
    } else {
        0x8000_0000
    }
}

/// Why memory is not handed out.
#[derive(Clone, Copy, PartialEq, Eq, Structural, Debug)]
pub enum MemoryError {
    /// The estimate together with what is out is too large to be counted.
    EstimateOverflows,
    /// So much is needed, and only so much is left.
    NotEnough { needed: usize, left: usize },
}

/// Memory that was handed out, to be given back.
#[derive(Debug)]
pub struct MemoryReservation {
    pub bytes: usize,
}

impl MemoryReservation {
    /// Memory that is not counted.
    pub fn untracked() -> (r: MemoryReservation)
        ensures
            r.bytes == 0,
    {
        MemoryReservation { bytes: 0 }
    }
}

/// How much is out.
#[derive(Debug)]
pub struct WorkingSet {
    pub platform: Platform,
    pub reserved: usize,
}

/// How many bytes reservations stand for together.
pub open spec fn total_bytes(out: Seq<MemoryReservation>) -> int
    decreases out.len(),
{
    if out.len() == 0 {
        0
    } else {
        total_bytes(out.drop_last()) + out.last().bytes
    }
}

impl WorkingSet {
    /// No more is out than the limit.
    pub open spec fn sound(self) -> bool {
        self.reserved <= WORKING_SET_LIMIT
    }

    /// What is out is what these reservations stand for.
    pub open spec fn accounts_for(self, out: Seq<MemoryReservation>) -> bool {
        self.reserved == total_bytes(out)
    }

    /// The answer to a request for memory.
    pub open spec fn answer(self, bytes: usize) -> Result<MemoryReservation, MemoryError> {
        if self.platform == Platform::Native {
            Ok(MemoryReservation { bytes: 0 })
        } else if self.reserved + bytes > usize::MAX {
            Err(MemoryError::EstimateOverflows)
        } else if self.reserved + bytes > WORKING_SET_LIMIT {
            Err(MemoryError::NotEnough { needed: bytes, left: (WORKING_SET_LIMIT - self.reserved) as usize })
        } else {
            Ok(MemoryReservation { bytes })
        }
    }

    /// How much is out after a request.
    pub open spec fn after(self, bytes: usize) -> WorkingSet {
        match self.answer(bytes) {
            Ok(r) => WorkingSet { reserved: (self.reserved + r.bytes) as usize, ..self },
            Err(_) => self,
        }
    }

    /// Nothing is out.
    pub fn new(platform: Platform) -> (r: WorkingSet)
        ensures
            r == (WorkingSet { platform, reserved: 0 }),
            r.sound(),
            r.accounts_for(Seq::empty()),
    {
        WorkingSet { platform, reserved: 0 }
    }

    /// Asks for memory. On the desktop nothing is counted.
    pub fn reserve(&mut self, bytes: usize) -> (r: Result<MemoryReservation, MemoryError>)
        requires
            old(self).sound(),
        ensures
            r == old(self).answer(bytes),
            *final(self) == old(self).after(bytes),
            final(self).sound(),
    {
        if self.platform == Platform::Native {
            return Ok(MemoryReservation::untracked());
        }
        if bytes > usize::MAX - self.reserved {
            return Err(MemoryError::EstimateOverflows);
        }
        let requested: usize = self.reserved + bytes;
        if requested > WORKING_SET_LIMIT {
            return Err(MemoryError::NotEnough { needed: bytes, left: WORKING_SET_LIMIT - self.reserved });
        }
        self.reserved = requested;
        Ok(MemoryReservation { bytes })
    }

    /// Gives memory back.
    pub fn release(&mut self, reservation: MemoryReservation)
        requires
            old(self).sound(),
            reservation.bytes <= old(self).reserved,
        ensures
            *final(self) == (WorkingSet { reserved: (old(self).reserved - reservation.bytes) as usize, ..*old(self) }),
            final(self).sound(),
    {
        self.reserved = self.reserved - reservation.bytes;
    }
}

/// Memory that is given back is there again.
pub proof fn law_memory_comes_back(w: WorkingSet, bytes: usize)
    requires
        w.sound(),
        w.answer(bytes) is Ok,
    ensures
        w.after(bytes).reserved - w.answer(bytes)->Ok_0.bytes == w.reserved,
        w.answer(bytes)->Ok_0.bytes <= w.after(bytes).reserved,
{
}

/// What is out is counted exactly: after a request that is granted, with the
/// new reservation among the others; after one that is refused, as before; and
/// every reservation that is out can be given back.
pub proof fn law_memory_is_counted(w: WorkingSet, out: Seq<MemoryReservation>, bytes: usize)
    requires
        w.sound(),
        w.accounts_for(out),
    ensures
        match w.answer(bytes) {
            Ok(r) => w.after(bytes).accounts_for(out.push(r)),
            Err(_) => w.after(bytes).accounts_for(out),
        },
        forall|i: int| 0 <= i < out.len() ==> (#[trigger] out[i]).bytes <= w.reserved,
        forall|i: int| 0 <= i < out.len() ==> total_bytes(#[trigger] out.remove(i)) == w.reserved - out[i].bytes,
{
    if w.answer(bytes) is Ok {
        let r = w.answer(bytes)->Ok_0;
        assert(out.push(r).drop_last() =~= out);
    }
    assert forall|i: int| 0 <= i < out.len() implies (#[trigger] out[i]).bytes <= w.reserved by {
        lemma_total_without(out, i);
    }
    assert forall|i: int| 0 <= i < out.len() implies total_bytes(#[trigger] out.remove(i)) == w.reserved - out[i].bytes by {
        lemma_total_without(out, i);
    }
}

proof fn lemma_total_without(out: Seq<MemoryReservation>, i: int)
    requires
        0 <= i < out.len(),
    ensures
        total_bytes(out.remove(i)) == total_bytes(out) - out[i].bytes,
        total_bytes(out.remove(i)) >= 0,
    decreases out.len(),
{
    if i == out.len() - 1 {
        assert(out.remove(i) =~= out.drop_last());
        lemma_total_positive(out.drop_last());
    } else {
        assert(out.remove(i).drop_last() =~= out.drop_last().remove(i));
        lemma_total_without(out.drop_last(), i);
    }
}

proof fn lemma_total_positive(out: Seq<MemoryReservation>)
    ensures
        total_bytes(out) >= 0,
    decreases out.len(),
{
    if out.len() > 0 {
        lemma_total_positive(out.drop_last());
    }
}

} // verus!
