//! The kernel heap: a byte-granular bump allocator over the dedicated
//! physical-memory-mapping window, together with the routines that grow the
//! window by mapping freshly allocated frames at its end.
//!
//! Nothing is ever reclaimed: the cursor only advances, as everywhere else
//! in this subsystem.
use vstd::prelude::*;

use crate::addr::{PhyAddr, VirtAddr};
use crate::config::{PHYSICAL_MEMORY_MAPPING_BASE, PHYSICAL_MEMORY_MAPPING_END};
use crate::linear::EarlyAllocator;
use crate::page_allocator::{AllocationError, Allocator};
use crate::paging::{
    in_self_window,
    installed_word,
    same_slot,
    translation_unchanged,
    AddressSpace,
    MapErr,
};
use crate::table::{entry_present, index_bits, Flags};

verus! {

/// Padding that takes `cursor` up to the next multiple of `align`.
pub open spec fn align_pad(cursor: u64, align: u64) -> int
    recommends
        align > 0,
{
    if cursor % align == 0 {
        0
    } else {
        align - cursor % align
    }
}

/// Two kernel-half addresses that select the same entry at every level lie
/// in the same page; page-aligned, they are the same address.
pub proof fn lemma_same_slot_same_page(a: u64, b: u64)
    requires
        b % 4096 == 0,
        a >> 48 == b >> 48,
        same_slot(a, b),
    ensures
        b <= a < b + 4096,
        a % 4096 == 0 ==> a == b,
{
    assert((b % 4096 == 0 && (a >> 48) == (b >> 48) && ((a >> 39u64) & 0x1ff) == ((b >> 39u64)
        & 0x1ff) && ((a >> 30u64) & 0x1ff) == ((b >> 30u64) & 0x1ff) && ((a >> 21u64) & 0x1ff) == (
    (b >> 21u64) & 0x1ff) && ((a >> 12u64) & 0x1ff) == ((b >> 12u64) & 0x1ff)) ==> (b <= a && a < b
        + 4096 && (a % 4096 == 0 ==> a == b))) by (bit_vector);
}

/// Addresses of the physical-memory-mapping window never fall in the
/// self-map window, and they share the kernel half's sign-extension bits.
pub proof fn lemma_pool_window_addr(v: u64)
    requires
        0xffff_8800_0000_0000 <= v < 0xffff_c800_0000_0000,
    ensures
        !in_self_window(v),
        v >> 48 == 0xffff,
{
    assert((0xffff_8800_0000_0000 <= v && v < 0xffff_c800_0000_0000) ==> (((v >> 39u64) & 0x1ff)
        != ((0xffff_e900_0000_0000u64 >> 39u64) & 0x1ff) && (v >> 48) == 0xffff)) by (bit_vector);
    assert(index_bits(v, 3) == (v >> 39u64) & 0x1ff);
    assert(index_bits(0xffff_e900_0000_0000u64, 3) == (0xffff_e900_0000_0000u64 >> 39u64) & 0x1ff);
}

/// The flags pool pages are mapped with fit a leaf entry.
pub proof fn lemma_pool_flags()
    ensures
        (Flags { bits: Flags::NO_EXECUTE | Flags::READ_WRITE }).valid(),
{
    assert((0x8000_0000_0000_0000u64 | 0x2u64) & 0x8000_0000_0000_01ffu64 == (
    0x8000_0000_0000_0000u64 | 0x2u64)) by (bit_vector);
}

/// Heap blocks handed out one after the other never overlap: each
/// allocation ends at or before the cursor the next one starts from, and
/// every returned address carries its requested alignment (stated in the
/// allocator's own contract).
pub proof fn lemma_sequential_heap_allocations_disjoint(a1: u64, s1: u64, c1: u64, a2: u64, s2: u64)
    requires
        a1 + s1 <= c1,
        c1 <= a2,
    ensures
        !crate::valloc::spans_overlap(a1 as int, s1 as int, a2 as int, s2 as int),
{
}

/// The byte bump allocator: a window of mapped virtual memory and a cursor
/// that only moves forward.
pub struct InnerAllocator {
    pub memory_start: VirtAddr,
    pub memory_end: VirtAddr,
    pub cursor: VirtAddr,
}

impl InnerAllocator {
    pub open spec fn wf(self) -> bool {
        &&& self.memory_start.0 <= self.cursor.0 <= self.memory_end.0
        &&& self.memory_end.0 <= PHYSICAL_MEMORY_MAPPING_END
    }

    /// An empty heap over the not-yet-grown window `[start, end)`.
    pub fn new(memory_start: VirtAddr, memory_end: VirtAddr) -> (r: InnerAllocator)
        requires
            memory_start.0 <= memory_end.0 <= PHYSICAL_MEMORY_MAPPING_END,
        ensures
            r.memory_start == memory_start,
            r.memory_end == memory_end,
            r.cursor == memory_start,
            r.wf(),
    {
        InnerAllocator { memory_start, memory_end, cursor: memory_start }
    }

    /// Bump out `size` bytes at alignment `align`: round the cursor up,
    /// check the end fits, advance. `OutOfMemory` exactly when the aligned
    /// request does not fit, and then nothing moves.
    pub fn allocate(&mut self, size: u64, align: u64) -> (r: Result<VirtAddr, AllocationError>)
        requires
            old(self).wf(),
            align > 0,
        ensures
            final(self).wf(),
            final(self).memory_start == old(self).memory_start,
            final(self).memory_end == old(self).memory_end,
            r is Ok <==> old(self).cursor.0 + align_pad(old(self).cursor.0, align) + size <= old(
                self,
            ).memory_end.0,
            r matches Ok(a) ==> {
                &&& a.0 == old(self).cursor.0 + align_pad(old(self).cursor.0, align)
                &&& a.0 % align == 0
                &&& a.0 >= old(self).cursor.0
                &&& final(self).cursor.0 == a.0 + size
            },
            r is Err ==> r == Err::<VirtAddr, AllocationError>(AllocationError::OutOfMemory)
                && *final(self) == *old(self),
    {
        let rem = self.cursor.0 % align;
        let pad = if rem == 0 {
            0
        } else {
            align - rem
        };
        proof {
            let c = self.cursor.0 as int;
            let al = align as int;
            assert((c % al != 0) ==> ((c + (al - c % al)) % al == 0)) by (nonlinear_arith)
                requires
                    al > 0,
            ;
        }
        if pad <= self.memory_end.0 - self.cursor.0 {
            let aligned = self.cursor.0 + pad;
            if size <= self.memory_end.0 - aligned {
                self.cursor = VirtAddr(aligned + size);
                return Ok(VirtAddr(aligned));
            }
        }
        Err(AllocationError::OutOfMemory)
    }

    /// Deliberately a no-op: freed heap ranges are never reclaimed in this
    /// design (a policy, matching the frame allocators).
    pub fn dealloc(&mut self, addr: VirtAddr, size: u64)
        ensures
            *final(self) == *old(self),
    {
    }
}

/// The kernel's general allocator: the byte heap over the pool window, plus
/// the bookkeeping that keeps the window backed by physical frames.
pub struct LambixAllocator {
    pub inner: InnerAllocator,
}

impl LambixAllocator {
    pub open spec fn wf(self) -> bool {
        &&& self.inner.wf()
        &&& self.inner.memory_start.0 == PHYSICAL_MEMORY_MAPPING_BASE
        &&& self.inner.memory_end.0 % 4096 == 0
    }

    /// Every page of the grown window is backed by a present translation.
    pub open spec fn pool_mapped(self, aspace: AddressSpace) -> bool {
        forall|w: u64|
            self.inner.memory_start.0 <= w < self.inner.memory_end.0 && w % 4096 == 0
                ==> #[trigger] aspace.mapped(w)
    }

    /// Size of the frames the pool is grown by.
    pub fn page_size(&self) -> (r: u64)
        ensures
            r == 4096,
    {
        4096
    }

    /// Bump out `size` bytes at alignment `align` from the heap window.
    pub fn allocate(&mut self, size: u64, align: u64) -> (r: Result<VirtAddr, AllocationError>)
        requires
            old(self).wf(),
            align > 0,
        ensures
            final(self).wf(),
            final(self).inner.memory_start == old(self).inner.memory_start,
            final(self).inner.memory_end == old(self).inner.memory_end,
            r is Ok <==> old(self).inner.cursor.0 + align_pad(old(self).inner.cursor.0, align)
                + size <= old(self).inner.memory_end.0,
            r matches Ok(a) ==> {
                &&& a.0 == old(self).inner.cursor.0 + align_pad(old(self).inner.cursor.0, align)
                &&& a.0 % align == 0
                &&& a.0 >= old(self).inner.cursor.0
                &&& final(self).inner.cursor.0 == a.0 + size
            },
            r is Err ==> r == Err::<VirtAddr, AllocationError>(AllocationError::OutOfMemory)
                && *final(self) == *old(self),
    {
        self.inner.allocate(size, align)
    }

    /// Map the frame at `page_addr` to the first virtual page past the grown
    /// window, then count the window one page larger. Intermediate tables
    /// come from `tables`.
    pub fn add_page_to_memory_pool<A: Allocator>(
        &mut self,
        aspace: &mut AddressSpace,
        tables: &mut A,
        page_addr: PhyAddr,
    ) -> (r: Result<(), MapErr>)
        requires
            old(self).wf(),
            old(aspace).wf(),
            old(tables).wf(),
            old(self).inner.memory_end.0 < PHYSICAL_MEMORY_MAPPING_END,
        ensures
            final(self).wf(),
            final(aspace).wf(),
            final(tables).wf(),
            final(self).inner.memory_start == old(self).inner.memory_start,
            final(self).inner.cursor == old(self).inner.cursor,
            final(aspace).self_entry() == old(aspace).self_entry(),
            r is Ok <==> (crate::table::valid_frame_addr(page_addr.0) && !old(aspace).large_mapped(
                old(self).inner.memory_end.0,
            ) && !old(aspace).mapped(old(self).inner.memory_end.0) && old(tables).avail() >= old(
                aspace,
            ).tables_needed(old(self).inner.memory_end.0)),
            r is Ok ==> final(tables).avail() == old(tables).avail() - old(aspace).tables_needed(
                old(self).inner.memory_end.0,
            ),
            r is Ok ==> {
                &&& final(self).inner.memory_end.0 == old(self).inner.memory_end.0 + 4096
                &&& final(aspace).mapped(old(self).inner.memory_end.0)
                &&& final(aspace).leaf_entry(old(self).inner.memory_end.0) == Some(
                    installed_word(
                        page_addr.0,
                        Flags { bits: Flags::NO_EXECUTE | Flags::READ_WRITE },
                    ),
                )
            },
            r is Err ==> *final(self) == *old(self),
            forall|w: u64|
                !same_slot(w, old(self).inner.memory_end.0) ==> translation_unchanged(
                    old(aspace).leaf_entry(w),
                    #[trigger] final(aspace).leaf_entry(w),
                ),
            forall|w: u64| #[trigger] final(aspace).large_mapped(w) == old(aspace).large_mapped(w),
    {
        let vaddr = VirtAddr(self.inner.memory_end.0);
        proof {
            lemma_pool_window_addr(vaddr.0);
            lemma_pool_flags();
        }
        let flags = Flags::from_bits(Flags::NO_EXECUTE | Flags::READ_WRITE);
        match aspace.map4k(tables, vaddr, page_addr, flags) {
            Ok(()) => {
                self.inner.memory_end = VirtAddr(vaddr.0 + 4096);
                Ok(())
            },
            Err(e) => Err(e),
        }
    }

    /// Seed the pool window with its first page. The frame comes straight
    /// from `tables`, which also supplies the whole intermediate table chain
    /// for the window's first address: exactly four frames when the chain is
    /// entirely missing. The window's data frame is drawn first and the
    /// table frames after it, a consequence of the engine allocating tables
    /// on demand during the walk.
    pub fn add_first_page<A: Allocator>(
        &mut self,
        aspace: &mut AddressSpace,
        tables: &mut A,
    ) -> (r: Result<(), MapErr>)
        requires
            old(self).wf(),
            old(aspace).wf(),
            old(tables).wf(),
            old(self).inner.memory_end.0 < PHYSICAL_MEMORY_MAPPING_END,
        ensures
            final(self).wf(),
            final(aspace).wf(),
            final(tables).wf(),
            final(self).inner.memory_start == old(self).inner.memory_start,
            final(self).inner.cursor == old(self).inner.cursor,
            final(aspace).self_entry() == old(aspace).self_entry(),
            r is Ok ==> final(self).inner.memory_end.0 == old(self).inner.memory_end.0 + 4096
                && final(aspace).mapped(old(self).inner.memory_end.0),
            r is Ok ==> final(tables).avail() == old(tables).avail() - 1 - old(
                aspace,
            ).tables_needed(old(self).inner.memory_end.0),
            r is Ok ==> (final(aspace).leaf_entry(old(self).inner.memory_end.0) matches Some(w)
                && entry_present(w) && w & crate::table::ENTRY_FLAGS_MASK == (Flags::NO_EXECUTE
                | Flags::READ_WRITE | Flags::PRESENT)),
            r is Err ==> final(self).inner.memory_end == old(self).inner.memory_end,
            (old(tables).avail() >= 1 + old(aspace).tables_needed(old(self).inner.memory_end.0)
                && !old(aspace).large_mapped(old(self).inner.memory_end.0) && !old(aspace).mapped(
                old(self).inner.memory_end.0,
            )) ==> r is Ok,
            (r is Err && !old(aspace).large_mapped(old(self).inner.memory_end.0) && !old(
                aspace,
            ).mapped(old(self).inner.memory_end.0)) ==> old(tables).avail() < 1 + old(
                aspace,
            ).tables_needed(old(self).inner.memory_end.0),
            r is Ok ==> old(tables).avail() >= 1 + old(aspace).tables_needed(
                old(self).inner.memory_end.0,
            ),
            forall|w: u64|
                !same_slot(w, old(self).inner.memory_end.0) ==> translation_unchanged(
                    old(aspace).leaf_entry(w),
                    #[trigger] final(aspace).leaf_entry(w),
                ),
            forall|w: u64| #[trigger] final(aspace).large_mapped(w) == old(aspace).large_mapped(w),
    {
        match tables.allocate() {
            Ok(f) => {
                let r = self.add_page_to_memory_pool(aspace, tables, f);
                proof {
                    if r is Ok {
                        assert(((0x8000_0000_0000_0000u64 | 0x2u64) | 1u64)
                            & 0x8000_0000_0000_01ffu64 == ((0x8000_0000_0000_0000u64 | 0x2u64)
                            | 1u64)) by (bit_vector);
                        crate::table::lemma_entry_compose(
                            f.0,
                            (Flags::NO_EXECUTE | Flags::READ_WRITE) | Flags::PRESENT,
                        );
                    }
                }
                r
            },
            Err(_) => Err(MapErr::OutOfMemory),
        }
    }
}

/// Build the kernel heap: reserve the pool window empty, seed its first
/// page, then grow it with every frame the early allocator still has,
/// stopping cleanly when the remaining frames cannot even pay for the
/// next page's table chain. The heap that comes back is backed page for
/// page by present translations. Initialization fails exactly when the
/// early allocator cannot seed the first page and its tables.
pub fn init(aspace: &mut AddressSpace, early: &mut EarlyAllocator) -> (r: Result<
    LambixAllocator,
    MapErr,
>)
    requires
        old(aspace).wf(),
        old(early).inner.wf(),
        forall|w: u64|
            #![trigger old(aspace).mapped(w)]
            #![trigger old(aspace).large_mapped(w)]
            PHYSICAL_MEMORY_MAPPING_BASE <= w < PHYSICAL_MEMORY_MAPPING_END ==> !old(
                aspace,
            ).mapped(w) && !old(aspace).large_mapped(w),
    ensures
        final(aspace).wf(),
        final(early).inner.wf(),
        final(aspace).self_entry() == old(aspace).self_entry(),
        r is Ok <==> old(early).inner.avail_from() >= 1 + old(aspace).tables_needed(
            PHYSICAL_MEMORY_MAPPING_BASE,
        ),
        r matches Ok(la) ==> {
            &&& la.wf()
            &&& la.pool_mapped(*final(aspace))
            &&& la.inner.memory_start.0 == PHYSICAL_MEMORY_MAPPING_BASE
            &&& la.inner.cursor.0 == PHYSICAL_MEMORY_MAPPING_BASE
            &&& la.inner.memory_end.0 > PHYSICAL_MEMORY_MAPPING_BASE
        },
{
    let mut la = LambixAllocator {
        inner: InnerAllocator::new(
            VirtAddr(PHYSICAL_MEMORY_MAPPING_BASE),
            VirtAddr(PHYSICAL_MEMORY_MAPPING_BASE),
        ),
    };
    proof {
        assert(!old(aspace).mapped(PHYSICAL_MEMORY_MAPPING_BASE) && !old(aspace).large_mapped(
            PHYSICAL_MEMORY_MAPPING_BASE,
        ));
    }
    match la.add_first_page(aspace, early) {
        Ok(()) => (),
        Err(e) => {
            return Err(e);
        },
    }
    proof {
        lemma_pool_invariant_step(*old(aspace), *aspace, la, PHYSICAL_MEMORY_MAPPING_BASE);
    }
    loop
        invariant
            aspace.wf(),
            early.inner.wf(),
            la.wf(),
            la.inner.memory_start.0 == PHYSICAL_MEMORY_MAPPING_BASE,
            la.inner.cursor.0 == PHYSICAL_MEMORY_MAPPING_BASE,
            la.inner.memory_end.0 > PHYSICAL_MEMORY_MAPPING_BASE,
            old(early).inner.avail_from() >= 1 + old(aspace).tables_needed(
                PHYSICAL_MEMORY_MAPPING_BASE,
            ),
            la.pool_mapped(*aspace),
            aspace.self_entry() == old(aspace).self_entry(),
            forall|w: u64|
                #![trigger aspace.mapped(w)]
                #![trigger aspace.large_mapped(w)]
                la.inner.memory_end.0 <= w < PHYSICAL_MEMORY_MAPPING_END ==> !aspace.mapped(w)
                    && !aspace.large_mapped(w),
        decreases early.inner.avail_from(),
    {
        if la.inner.memory_end.0 >= PHYSICAL_MEMORY_MAPPING_END {
            return Ok(la);
        }
        let ghost pre_space = *aspace;
        let ghost pre_la = la;
        match early.allocate() {
            Ok(f) => {
                match la.add_page_to_memory_pool(aspace, early, f) {
                    Ok(()) => {
                        proof {
                            lemma_pool_invariant_step(
                                pre_space,
                                *aspace,
                                la,
                                pre_la.inner.memory_end.0,
                            );
                        }
                    },
                    Err(_) => {
                        proof {
                            let ev = pre_la.inner.memory_end.0;
                            assert forall|w: u64|
                                la.inner.memory_start.0 <= w < la.inner.memory_end.0 && w % 4096
                                    == 0 implies #[trigger] aspace.mapped(w) by {
                                if same_slot(w, ev) {
                                    lemma_pool_window_addr(w);
                                    lemma_pool_window_addr(ev);
                                    lemma_same_slot_same_page(w, ev);
                                    assert(false);
                                }
                                assert(translation_unchanged(
                                    pre_space.leaf_entry(w),
                                    aspace.leaf_entry(w),
                                ));
                                assert(pre_space.mapped(w));
                            }
                        }
                        // the remaining frames cannot pay for the next
                        // page's table chain: the pool ends here
                        return Ok(la);
                    },
                }
            },
            Err(_) => {
                return Ok(la);
            },
        }
    }
}

/// One pool-growing step keeps the window invariants: everything below the
/// new end is mapped, everything above it still is not.
pub proof fn lemma_pool_invariant_step(
    pre: AddressSpace,
    post: AddressSpace,
    la: LambixAllocator,
    vaddr: u64,
)
    requires
        la.wf(),
        la.inner.memory_end.0 == vaddr + 4096,
        PHYSICAL_MEMORY_MAPPING_BASE <= vaddr < PHYSICAL_MEMORY_MAPPING_END,
        vaddr % 4096 == 0,
        post.mapped(vaddr),
        forall|w: u64|
            !same_slot(w, vaddr) ==> translation_unchanged(
                pre.leaf_entry(w),
                #[trigger] post.leaf_entry(w),
            ),
        forall|w: u64| #[trigger] post.large_mapped(w) == pre.large_mapped(w),
        forall|w: u64|
            la.inner.memory_start.0 <= w < vaddr && w % 4096 == 0 ==> #[trigger] pre.mapped(w),
        forall|w: u64|
            #![trigger pre.mapped(w)]
            #![trigger pre.large_mapped(w)]
            vaddr <= w < PHYSICAL_MEMORY_MAPPING_END ==> !pre.mapped(w) && !pre.large_mapped(w),
    ensures
        la.pool_mapped(post),
        forall|w: u64|
            #![trigger post.mapped(w)]
            #![trigger post.large_mapped(w)]
            la.inner.memory_end.0 <= w < PHYSICAL_MEMORY_MAPPING_END ==> !post.mapped(w)
                && !post.large_mapped(w),
{
    assert forall|w: u64|
        la.inner.memory_start.0 <= w < la.inner.memory_end.0 && w % 4096 == 0 implies #[trigger] post.mapped(
        w,
    ) by {
        if w != vaddr {
            if same_slot(w, vaddr) {
                lemma_pool_window_addr(w);
                lemma_pool_window_addr(vaddr);
                lemma_same_slot_same_page(w, vaddr);
            }
            assert(translation_unchanged(pre.leaf_entry(w), post.leaf_entry(w)));
            assert(pre.mapped(w));
        }
    }
    assert forall|w: u64|
        #![trigger post.mapped(w)]
        #![trigger post.large_mapped(w)]
        la.inner.memory_end.0 <= w < PHYSICAL_MEMORY_MAPPING_END implies !post.mapped(w)
        && !post.large_mapped(w) by {
        if same_slot(w, vaddr) {
            lemma_pool_window_addr(w);
            lemma_pool_window_addr(vaddr);
            lemma_same_slot_same_page(w, vaddr);
            assert(false);
        } else {
            assert(translation_unchanged(pre.leaf_entry(w), post.leaf_entry(w)));
            assert(!pre.mapped(w));
            assert(post.large_mapped(w) == pre.large_mapped(w));
        }
    }
}

} // verus!
