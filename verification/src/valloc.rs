//! The virtual address-range allocator: a bump allocator over the reserved
//! vmalloc window. It parks page-aligned spans of virtual addresses that the
//! mapping engine then backs with physical frames; released spans are never
//! reclaimed (a documented policy, matching the frame allocators).
use vstd::prelude::*;

use crate::addr::{wrap_add64, VirtAddr};
use crate::config::{VMALLOC_BASE, VMALLOC_END};
use crate::page_allocator::AllocationError;

verus! {

/// The arena record: fixed bounds and a forward-only cursor.
pub struct VAllocator {
    pub range_start: VirtAddr,
    pub range_end: VirtAddr,
    pub cursor: VirtAddr,
}

impl VAllocator {
    pub open spec fn wf(self) -> bool {
        &&& self.range_start.0 <= self.cursor.0 <= self.range_end.0
        &&& self.cursor.0 % 4096 == 0
        &&& self.range_start.0 % 4096 == 0
    }

    pub fn new(range_start: VirtAddr, range_end: VirtAddr) -> (r: VAllocator)
        requires
            range_start.0 <= range_end.0,
            range_start.0 % 4096 == 0,
        ensures
            r.range_start == range_start,
            r.range_end == range_end,
            r.cursor == range_start,
            r.wf(),
    {
        VAllocator { range_start, range_end, cursor: range_start }
    }

    /// Claim the next `page_count` pages of the arena. `Err` exactly when
    /// the span would not end strictly inside the arena, and then nothing
    /// moves.
    pub fn allocate(&mut self, page_count: u64) -> (r: Result<VirtAddr, AllocationError>)
        requires
            old(self).wf(),
        ensures
            final(self).wf(),
            final(self).range_start == old(self).range_start,
            final(self).range_end == old(self).range_end,
            r is Ok <==> old(self).cursor.0 + 4096 * page_count < old(self).range_end.0,
            r matches Ok(a) ==> {
                &&& a == old(self).cursor
                &&& a.0 % 4096 == 0
                &&& final(self).cursor.0 == a.0 + 4096 * page_count
            },
            r is Err ==> r == Err::<VirtAddr, AllocationError>(AllocationError::OutOfVirtualMemory)
                && *final(self) == *old(self),
    {
        let space = self.range_end.0 - self.cursor.0;
        if page_count <= u64::MAX / 4096 {
            let bytes = page_count * 4096;
            if bytes < space {
                let base = self.cursor;
                self.cursor = VirtAddr(base.0 + bytes);
                proof {
                    assert((base.0 % 4096 == 0 && page_count * 4096 == bytes) ==> (base.0 + bytes)
                        % 4096 == 0) by (nonlinear_arith);
                }
                return Ok(base);
            }
            return Err(AllocationError::OutOfVirtualMemory);
        }
        proof {
            assert(page_count > u64::MAX / 4096 ==> 4096 * page_count > u64::MAX)
                by (nonlinear_arith);
        }
        Err(AllocationError::OutOfVirtualMemory)
    }

    /// Deliberately a no-op: the arena is never reclaimed.
    pub fn dealloc(&mut self, addr: VirtAddr, page_count: u64)
        ensures
            *final(self) == *old(self),
    {
    }
}

/// Build the allocator over the configured vmalloc window.
pub fn init() -> (r: VAllocator)
    ensures
        r.range_start.0 == VMALLOC_BASE,
        r.range_end.0 == VMALLOC_END,
        r.cursor.0 == VMALLOC_BASE,
        r.wf(),
{
    proof {
        assert(0xffff_c880_0000_0000u64 % 4096 == 0) by (bit_vector);
    }
    VAllocator::new(VirtAddr(VMALLOC_BASE), VirtAddr(VMALLOC_END))
}

/// A claimed span of virtual addresses: reserved, with no physical backing
/// promised until the mapping engine is invoked against it.
#[derive(Debug, Copy, Clone, PartialEq, Eq, Structural)]
pub struct VMem {
    pub base_addr: VirtAddr,
    pub page_count: u64,
}

impl VMem {
    /// Claim `page_count` pages from the arena.
    pub fn allocate(valloc: &mut VAllocator, page_count: u64) -> (r: Result<VMem, AllocationError>)
        requires
            old(valloc).wf(),
        ensures
            final(valloc).wf(),
            final(valloc).range_start == old(valloc).range_start,
            final(valloc).range_end == old(valloc).range_end,
            r is Ok <==> old(valloc).cursor.0 + 4096 * page_count < old(valloc).range_end.0,
            r matches Ok(m) ==> {
                &&& m.base_addr == old(valloc).cursor
                &&& m.base_addr.0 % 4096 == 0
                &&& m.page_count == page_count
                &&& final(valloc).cursor.0 == m.base_addr.0 + 4096 * page_count
            },
            r is Err ==> r == Err::<VMem, AllocationError>(AllocationError::OutOfVirtualMemory)
                && *final(valloc) == *old(valloc),
    {
        match valloc.allocate(page_count) {
            Ok(base_addr) => Ok(VMem { base_addr, page_count }),
            Err(e) => Err(e),
        }
    }

    pub fn base_addr(&self) -> (r: VirtAddr)
        ensures
            r == self.base_addr,
    {
        self.base_addr
    }

    pub fn page_count(&self) -> (r: u64)
        ensures
            r == self.page_count,
    {
        self.page_count
    }

    /// The span's bounds, wrapping as pointer arithmetic would.
    pub fn range(&self) -> (r: (VirtAddr, VirtAddr))
        ensures
            r.0 == self.base_addr,
            r.1.0 == wrap_add64(
                self.base_addr.0,
                vstd::wrapping::u64_specs::wrapping_mul(4096, self.page_count),
            ),
    {
        (self.base_addr, self.base_addr.wrapping_add(4096u64.wrapping_mul(self.page_count)))
    }

    /// Give up the automatic bookkeeping: the raw parts, to be rebuilt with
    /// `from_raw_parts`.
    pub fn leak(vmem: VMem) -> (r: (VirtAddr, u64))
        ensures
            r.0 == vmem.base_addr,
            r.1 == vmem.page_count,
    {
        (vmem.base_addr, vmem.page_count)
    }

    /// Rebuild a span from previously leaked raw parts.
    pub fn from_raw_parts(base_addr: VirtAddr, page_count: u64) -> (r: VMem)
        ensures
            r.base_addr == base_addr,
            r.page_count == page_count,
    {
        VMem { base_addr, page_count }
    }
}

/// True when two address spans, each given by base and byte length, share
/// at least one address.
pub open spec fn spans_overlap(a1: int, len1: int, a2: int, len2: int) -> bool {
    len1 > 0 && len2 > 0 && a1 < a2 + len2 && a2 < a1 + len1
}

/// Spans claimed one after the other never overlap: the arena cursor moves
/// past each span before the next is carved out, so the earlier span ends
/// at or before the later one begins.
pub proof fn lemma_sequential_reservations_disjoint(a1: u64, n1: u64, a2: u64, n2: u64)
    requires
        a1 + 4096 * n1 <= a2,
    ensures
        !spans_overlap(a1 as int, 4096 * n1, a2 as int, 4096 * n2),
{
}

} // verus!
