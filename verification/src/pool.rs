//! The steady-state frame allocator: a pool of physical frames kept mapped
//! in the dedicated virtual window. Handing out a page is then just
//! advancing a cursor through the already-mapped region; no table walk runs
//! on the hot path.
use vstd::prelude::*;

use crate::addr::{PhyAddr, VirtAddr};
use crate::config::{PHYSICAL_MEMORY_MAPPING_BASE, PHYSICAL_MEMORY_MAPPING_END};
use crate::page_allocator::{AllocationError, Allocator};
use crate::paging::{installed_word, same_slot, translation_unchanged, AddressSpace, MapErr};
use crate::table::{valid_frame_addr, Flags};

verus! {

/// A pool page: a page of the mapped window, owned by the caller.
#[derive(Debug, Copy, Clone, PartialEq, Eq, Structural)]
pub struct Page {
    pub vaddr: VirtAddr,
}

impl Page {
    pub fn vaddr(&self) -> (r: VirtAddr)
        ensures
            r == self.vaddr,
    {
        self.vaddr
    }

    /// The frame backing this page, read back from the live translation.
    pub fn paddr(&self, aspace: &AddressSpace) -> (r: Result<PhyAddr, MapErr>)
        requires
            aspace.wf(),
        ensures
            r is Ok <==> aspace.mapped(self.vaddr.0),
            aspace.mapped(self.vaddr.0) ==> r == Ok::<PhyAddr, MapErr>(
                PhyAddr(aspace.translate(self.vaddr.0)),
            ),
    {
        aspace.get_physical_address(self.vaddr)
    }
}

/// The pool's record: how much of the window is mapped (`range_start` to
/// `range_end`), how much is already handed out (`cursor`), and the frame
/// behind each window page.
pub struct DefaultAllocator {
    pub page_count: usize,
    pub cursor: VirtAddr,
    pub range_start: VirtAddr,
    pub range_end: VirtAddr,
    pub total_size: u64,
    pub frames: Vec<PhyAddr>,
}

impl DefaultAllocator {
    pub open spec fn inv(self) -> bool {
        &&& self.range_start.0 == PHYSICAL_MEMORY_MAPPING_BASE
        &&& self.range_start.0 <= self.cursor.0 <= self.range_end.0
        &&& self.range_end.0 <= PHYSICAL_MEMORY_MAPPING_END
        &&& self.cursor.0 % 4096 == 0
        &&& self.range_end.0 - self.range_start.0 == 4096 * self.frames.len()
        &&& self.page_count == self.frames.len()
        &&& self.total_size == 4096 * self.frames.len()
        &&& forall|k: int| 0 <= k < self.frames.len() ==> valid_frame_addr((#[trigger] self.frames@[k]).0)
        &&& forall|j: int, k: int|
            #![trigger self.frames@[j], self.frames@[k]]
            0 <= j < k < self.frames.len() ==> self.frames@[j] != self.frames@[k]
    }

    /// Distinct pool pages are backed by distinct frames.
    pub proof fn lemma_pool_frames_distinct(self, j: int, k: int)
        requires
            self.inv(),
            0 <= j < k < self.frames.len(),
        ensures
            self.frames@[j] != self.frames@[k],
    {
    }

    /// Pages the pool can still hand out without growing.
    pub open spec fn pages_left(self) -> nat {
        ((self.range_end.0 - self.cursor.0) / 4096) as nat
    }

    /// An empty pool: the window reserved, nothing mapped, nothing handed
    /// out.
    pub fn new() -> (r: DefaultAllocator)
        ensures
            r.inv(),
            r.pages_left() == 0,
            r.range_end.0 == PHYSICAL_MEMORY_MAPPING_BASE,
    {
        proof {
            crate::heap::lemma_pool_window_addr(PHYSICAL_MEMORY_MAPPING_BASE);
            assert(0xffff_8800_0000_0000u64 % 4096 == 0) by (bit_vector);
        }
        DefaultAllocator {
            page_count: 0,
            cursor: VirtAddr(PHYSICAL_MEMORY_MAPPING_BASE),
            range_start: VirtAddr(PHYSICAL_MEMORY_MAPPING_BASE),
            range_end: VirtAddr(PHYSICAL_MEMORY_MAPPING_BASE),
            total_size: 0,
            frames: Vec::new(),
        }
    }

    /// Map the frame at `paddr` to the first window page past the mapped
    /// region and record it as one more pool page. Intermediate tables come
    /// from `tables`.
    pub fn add_to_memory_pool<A: Allocator>(
        &mut self,
        aspace: &mut AddressSpace,
        tables: &mut A,
        paddr: PhyAddr,
    ) -> (r: Result<(), MapErr>)
        requires
            old(self).inv(),
            old(aspace).wf(),
            old(tables).wf(),
            old(self).range_end.0 < PHYSICAL_MEMORY_MAPPING_END,
            forall|k: int| 0 <= k < old(self).frames.len() ==> (#[trigger] old(self).frames@[k]) != paddr,
        ensures
            final(self).inv(),
            final(aspace).wf(),
            final(tables).wf(),
            final(self).cursor == old(self).cursor,
            final(self).range_start == old(self).range_start,
            final(aspace).self_entry() == old(aspace).self_entry(),
            r is Ok <==> (valid_frame_addr(paddr.0) && !old(aspace).large_mapped(
                old(self).range_end.0,
            ) && !old(aspace).mapped(old(self).range_end.0) && old(tables).avail() >= old(
                aspace,
            ).tables_needed(old(self).range_end.0)),
            r is Ok ==> {
                &&& final(self).range_end.0 == old(self).range_end.0 + 4096
                &&& final(self).pages_left() == old(self).pages_left() + 1
                &&& final(aspace).mapped(old(self).range_end.0)
                &&& final(aspace).leaf_entry(old(self).range_end.0) == Some(
                    installed_word(
                        paddr.0,
                        Flags { bits: Flags::NO_EXECUTE | Flags::READ_WRITE },
                    ),
                )
                &&& final(self).frames@ == old(self).frames@.push(paddr)
                &&& final(tables).avail() == old(tables).avail() - old(aspace).tables_needed(
                    old(self).range_end.0,
                )
            },
            r is Err ==> *final(self) == *old(self),
            forall|w: u64|
                !same_slot(w, old(self).range_end.0) ==> translation_unchanged(
                    old(aspace).leaf_entry(w),
                    #[trigger] final(aspace).leaf_entry(w),
                ),
            forall|w: u64| #[trigger] final(aspace).large_mapped(w) == old(aspace).large_mapped(w),
    {
        let vaddr = VirtAddr(self.range_end.0);
        proof {
            crate::heap::lemma_pool_window_addr(vaddr.0);
            crate::heap::lemma_pool_flags();
        }
        let flags = Flags::from_bits(Flags::NO_EXECUTE | Flags::READ_WRITE);
        match aspace.map4k(tables, vaddr, paddr, flags) {
            Ok(()) => {
                self.range_end = VirtAddr(vaddr.0 + 4096);
                self.frames.push(paddr);
                self.page_count = self.frames.len();
                self.total_size = self.total_size + 4096;
                proof {
                    let c = self.cursor.0 as int;
                    let st = old(self).range_start.0 as int;
                    let e0 = old(self).range_end.0 as int;
                    let n = old(self).frames.len() as int;
                    assert(0xffff_8800_0000_0000u64 % 4096 == 0) by (bit_vector);
                    assert((st % 4096 == 0 && c % 4096 == 0 && st <= c <= e0 && e0 - st == 4096 * n)
                        ==> ((e0 - c) % 4096 == 0 && ((e0 + 4096 - c) / 4096) == ((e0 - c) / 4096)
                        + 1)) by (nonlinear_arith);
                }
                Ok(())
            },
            Err(e) => Err(e),
        }
    }
}

impl Allocator for DefaultAllocator {
    open spec fn wf(&self) -> bool {
        self.inv()
    }

    open spec fn avail(&self) -> nat {
        self.pages_left()
    }

    /// Hand out the next page-aligned address of the mapped region and the
    /// frame behind it: O(1), no table walk.
    fn allocate(&mut self) -> (r: Result<PhyAddr, AllocationError>)
        ensures
            final(self).frames == old(self).frames,
            final(self).range_start == old(self).range_start,
            final(self).range_end == old(self).range_end,
            r is Ok <==> old(self).pages_left() > 0,
            r matches Ok(f) ==> f == old(self).frames@[((old(self).cursor.0 - old(
                self,
            ).range_start.0) / 4096) as int] && final(self).cursor.0 == old(self).cursor.0 + 4096,
            r is Err ==> *final(self) == *old(self),
    {
        if self.cursor.0 < self.range_end.0 {
            proof {
                lemma_pool_index(*self);
            }
            let k = ((self.cursor.0 - self.range_start.0) / 4096) as usize;
            let f = self.frames[k];
            self.cursor = VirtAddr(self.cursor.0 + 4096);
            Ok(f)
        } else {
            Err(AllocationError::OutOfMemory)
        }
    }

    /// Identical bookkeeping; clearing the page's content is done through
    /// its window address, outside this model.
    fn allocate_zeroed(&mut self) -> (r: Result<PhyAddr, AllocationError>)
        ensures
            final(self).frames == old(self).frames,
            final(self).range_start == old(self).range_start,
            final(self).range_end == old(self).range_end,
            r is Ok <==> old(self).pages_left() > 0,
            r matches Ok(f) ==> f == old(self).frames@[((old(self).cursor.0 - old(
                self,
            ).range_start.0) / 4096) as int] && final(self).cursor.0 == old(self).cursor.0 + 4096,
            r is Err ==> *final(self) == *old(self),
    {
        if self.cursor.0 < self.range_end.0 {
            proof {
                lemma_pool_index(*self);
            }
            let k = ((self.cursor.0 - self.range_start.0) / 4096) as usize;
            let f = self.frames[k];
            self.cursor = VirtAddr(self.cursor.0 + 4096);
            Ok(f)
        } else {
            Err(AllocationError::OutOfMemory)
        }
    }

    fn total_memory(&self) -> (r: u64)
        ensures
            r == self.total_size,
    {
        self.total_size
    }
}

/// Arithmetic of the pool cursor: the cursor's page index falls inside the
/// frame record, and advancing one page drops `pages_left` by one.
pub proof fn lemma_pool_index(s: DefaultAllocator)
    requires
        s.inv(),
        s.cursor.0 < s.range_end.0,
    ensures
        0 <= (s.cursor.0 - s.range_start.0) / 4096 < s.frames.len(),
        ((s.range_end.0 - (s.cursor.0 + 4096)) / 4096) == ((s.range_end.0 - s.cursor.0) / 4096)
            - 1,
        (s.range_end.0 - s.cursor.0) / 4096 > 0,
        s.cursor.0 + 4096 <= s.range_end.0,
{
    let st = s.range_start.0 as int;
    let c = s.cursor.0 as int;
    let e = s.range_end.0 as int;
    let n = s.frames.len() as int;
    assert(st % 4096 == 0) by {
        assert(0xffff_8800_0000_0000u64 % 4096 == 0) by (bit_vector);
    }
    assert((st <= c < e && c % 4096 == 0 && st % 4096 == 0 && e - st == 4096 * n) ==> (0 <= (c - st)
        / 4096 < n && ((e - (c + 4096)) / 4096) == ((e - c) / 4096) - 1 && (e - c) / 4096 > 0 && c
        + 4096 <= e)) by (nonlinear_arith);
}

} // verus!
