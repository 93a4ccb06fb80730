//! The early, linear frame allocator: the bootstrap scan wrapped behind the
//! common allocation interface, used while the first gigabyte is still
//! identity-mapped and no virtual-memory bookkeeping exists.
use vstd::prelude::*;

use crate::addr::{PhyAddr, VirtAddr};
use crate::page_alloc::{page_alloc, AllocatedPageDirectory, Page};
use crate::page_allocator::{AllocationError, Allocator};
use crate::table::valid_frame_addr;

verus! {

/// A frame handed out by the early allocator. While the early allocator is
/// in charge, physical memory is identity-mapped, so the frame's virtual
/// address equals its physical one.
#[derive(Debug, Copy, Clone, PartialEq, Eq, Structural)]
pub struct EarlyAllocatorPage {
    pub paddr: PhyAddr,
}

impl EarlyAllocatorPage {
    pub fn new(paddr: PhyAddr) -> (r: EarlyAllocatorPage)
        ensures
            r.paddr == paddr,
    {
        EarlyAllocatorPage { paddr }
    }

    pub fn paddr(&self) -> (r: PhyAddr)
        ensures
            r == self.paddr,
    {
        self.paddr
    }

    /// The identity-mapped virtual address of the frame.
    pub fn vaddr(&self) -> (r: VirtAddr)
        ensures
            r.0 == self.paddr.0,
    {
        VirtAddr(self.paddr.0)
    }
}

/// The bootstrap scan behind the common allocation interface.
pub struct EarlyAllocator {
    pub inner: AllocatedPageDirectory,
}

impl EarlyAllocator {
    /// Take charge of a bootstrap record, typically fresh from
    /// `init_page_alloc`.
    pub fn new(inner: AllocatedPageDirectory) -> (r: EarlyAllocator)
        requires
            inner.wf(),
        ensures
            r.inner == inner,
            r.wf(),
    {
        EarlyAllocator { inner }
    }

    /// Hand out the next free frame of the scan.
    pub fn allocate_page(&mut self) -> (r: Result<EarlyAllocatorPage, AllocationError>)
        requires
            old(self).inner.wf(),
        ensures
            final(self).inner.wf(),
            final(self).inner.mem_sections == old(self).inner.mem_sections,
            final(self).inner.kernel == old(self).inner.kernel,
            final(self).inner.boot_info == old(self).inner.boot_info,
            r is Ok <==> old(self).inner.avail_from() > 0,
            r matches Ok(p) ==> {
                &&& old(self).inner.free_from(p.paddr.0)
                &&& valid_frame_addr(p.paddr.0)
                &&& !old(self).inner.blocked(p.paddr.0)
                &&& final(self).inner.next_page.0 == p.paddr.0 + 4096
                &&& final(self).inner.avail_from() == old(self).inner.avail_from() - 1
                &&& (old(self).inner.ordered() ==> p.paddr.0 >= old(self).inner.next_page.0)
                &&& (old(self).inner.ordered() ==> (forall|g: u64|
                    old(self).inner.free_from(g) ==> g >= p.paddr.0))
            },
            r is Err ==> r == Err::<EarlyAllocatorPage, AllocationError>(
                AllocationError::OutOfMemory,
            ) && *final(self) == *old(self) && old(self).inner.avail_from() == 0,
    {
        match page_alloc(&mut self.inner) {
            Ok(p) => Ok(EarlyAllocatorPage { paddr: p.base_addr }),
            Err(e) => Err(e),
        }
    }
}

impl Allocator for EarlyAllocator {
    open spec fn wf(&self) -> bool {
        self.inner.wf()
    }

    open spec fn avail(&self) -> nat {
        self.inner.avail_from()
    }

    fn allocate(&mut self) -> (r: Result<PhyAddr, AllocationError>)
        ensures
            final(self).inner.mem_sections == old(self).inner.mem_sections,
            final(self).inner.kernel == old(self).inner.kernel,
            final(self).inner.boot_info == old(self).inner.boot_info,
            r is Ok <==> old(self).inner.avail_from() > 0,
            r matches Ok(f) ==> {
                &&& old(self).inner.free_from(f.0)
                &&& !old(self).inner.blocked(f.0)
                &&& final(self).inner.next_page.0 == f.0 + 4096
                &&& (old(self).inner.ordered() ==> f.0 >= old(self).inner.next_page.0)
                &&& (old(self).inner.ordered() ==> (forall|g: u64|
                    old(self).inner.free_from(g) ==> g >= f.0))
            },
    {
        match self.allocate_page() {
            Ok(p) => Ok(p.paddr),
            Err(e) => Err(e),
        }
    }

    /// The early allocator's frames come from the identity-mapped window,
    /// where the caller zeroes them in place; the record it keeps is the
    /// same either way.
    fn allocate_zeroed(&mut self) -> (r: Result<PhyAddr, AllocationError>)
        ensures
            final(self).inner.mem_sections == old(self).inner.mem_sections,
            final(self).inner.kernel == old(self).inner.kernel,
            final(self).inner.boot_info == old(self).inner.boot_info,
            r is Ok <==> old(self).inner.avail_from() > 0,
            r matches Ok(f) ==> {
                &&& old(self).inner.free_from(f.0)
                &&& !old(self).inner.blocked(f.0)
                &&& final(self).inner.next_page.0 == f.0 + 4096
                &&& (old(self).inner.ordered() ==> f.0 >= old(self).inner.next_page.0)
                &&& (old(self).inner.ordered() ==> (forall|g: u64|
                    old(self).inner.free_from(g) ==> g >= f.0))
            },
    {
        match self.allocate_page() {
            Ok(p) => Ok(p.paddr),
            Err(e) => Err(e),
        }
    }

    /// Total bytes of the clipped available-RAM sections.
    fn total_memory(&self) -> (r: u64)
        ensures
            r == crate::page_alloc::sections_total(self.inner.mem_sections@),
    {
        let mut total: u64 = 0;
        let mut i: usize = 0;
        let n = self.inner.mem_sections.len();
        while i < n
            invariant
                self.inner.wf(),
                n == self.inner.mem_sections.len(),
                i <= n,
                total <= 0x0010_0000_0000_0000 * i,
                total == crate::page_alloc::sections_total(
                    self.inner.mem_sections@.take(i as int),
                ),
            decreases n - i,
        {
            let sec = self.inner.mem_sections[i];
            total = total + sec.0.distance(sec.1);
            proof {
                lemma_total_step(self.inner.mem_sections@, i as int);
            }
            i = i + 1;
        }
        proof {
            assert(self.inner.mem_sections@.take(n as int) =~= self.inner.mem_sections@);
        }
        total
    }
}

/// One more section's size adds onto the running total.
pub proof fn lemma_total_step(s: Seq<(PhyAddr, PhyAddr)>, i: int)
    requires
        0 <= i < s.len(),
    ensures
        crate::page_alloc::sections_total(s.take(i + 1)) == crate::page_alloc::sections_total(
            s.take(i),
        ) + (if s[i].1.0 > s[i].0.0 {
            s[i].1.0 - s[i].0.0
        } else {
            0
        }),
{
    assert(s.take(i + 1).drop_last() =~= s.take(i));
    assert(s.take(i + 1).last() == s[i]);
}

/// A frame returned by one allocation differs from the frame returned by
/// the next: every success leaves the cursor just past the frame it handed
/// out (`mid` is that in-between state), and on an ordered record later
/// frames never fall behind the cursor.
pub proof fn lemma_consecutive_allocations_distinct(
    mid: AllocatedPageDirectory,
    f1: u64,
    f2: u64,
)
    requires
        mid.next_page.0 == f1 + 4096,
        f2 >= mid.next_page.0,
    ensures
        f1 != f2,
{
}

} // verus!
