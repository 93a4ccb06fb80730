//! The buffer-shaped scoped mapping handle: a physical range of arbitrary
//! byte length mapped into a freshly reserved span of the vmalloc arena,
//! page by page. Releasing the handle removes every translation again; the
//! reserved span itself is never reclaimed (the arena's documented policy).
use vstd::prelude::*;

use crate::addr::{PhyAddr, VirtAddr};
use crate::page_allocator::Allocator;
use crate::paging::{
    in_self_window,
    installed_word,
    same_slot,
    translation_unchanged,
    AddressSpace,
    MapErr,
};
use crate::table::{index_bits, valid_frame_addr, Flags, PHYS_ADDR_LIMIT};
use crate::valloc::{VAllocator, VMem};

verus! {

/// Addresses of the vmalloc arena never fall in the self-map window, and
/// they share the kernel half's sign-extension bits.
pub proof fn lemma_vmalloc_window_addr(v: u64)
    requires
        0xffff_c880_0000_0000 <= v < 0xffff_e880_0000_0000,
    ensures
        !in_self_window(v),
        v >> 48 == 0xffff,
{
    assert((0xffff_c880_0000_0000 <= v && v < 0xffff_e880_0000_0000) ==> (((v >> 39u64) & 0x1ff)
        != ((0xffff_e900_0000_0000u64 >> 39u64) & 0x1ff) && (v >> 48) == 0xffff)) by (bit_vector);
    assert(index_bits(v, 3) == (v >> 39u64) & 0x1ff);
    assert(index_bits(0xffff_e900_0000_0000u64, 3) == (0xffff_e900_0000_0000u64 >> 39u64) & 0x1ff);
}

/// Addresses that select the same entry at every level have the same leaf
/// entry in every address space: the walk reads nothing else of them.
pub proof fn lemma_same_slot_same_entry(s: AddressSpace, a: u64, b: u64)
    requires
        same_slot(a, b),
    ensures
        s.leaf_entry(a) == s.leaf_entry(b),
        s.mapped(a) == s.mapped(b),
{
}

/// Rounding a bounded address up to the next page stays within any
/// page-aligned limit above it.
pub proof fn lemma_page_round(x: u64, limit: u64)
    requires
        x < limit,
        limit % 4096 == 0,
        limit <= 0xffff_ffff_ffff_f000,
    ensures
        x <= crate::addr::align_up64(x, 4096) <= limit,
        crate::addr::align_up64(x, 4096) % 4096 == 0,
        crate::addr::align_up64(x, 4096) < x + 4096,
{
    let xi = x as int;
    let li = limit as int;
    assert((xi < li && li % 4096 == 0 && xi % 4096 != 0) ==> (xi + (4096 - xi % 4096) <= li && (xi
        + (4096 - xi % 4096)) % 4096 == 0 && xi + (4096 - xi % 4096) < xi + 4096))
        by (nonlinear_arith);
}

/// Rounding an address down to its page stays at or above any page-aligned
/// bound below it.
pub proof fn lemma_page_floor(a: u64, b: u64)
    requires
        a >= b,
        b % 4096 == 0,
    ensures
        b <= a - a % 4096 <= a,
        (a - a % 4096) % 4096 == 0,
{
    let ai = a as int;
    let bi = b as int;
    assert((ai >= bi && bi % 4096 == 0) ==> (bi <= ai - ai % 4096 && (ai - ai % 4096) % 4096 == 0))
        by (nonlinear_arith);
}

/// The flags a handle maps with when the caller names none: the defaults
/// appropriate for device registers.
pub open spec fn default_handle_flags() -> Flags {
    Flags {
        bits: Flags::READ_WRITE | Flags::NO_EXECUTE | Flags::CACHE_DISABLE | Flags::WRITETHROUGH,
    }
}

/// A mapped view of a physical byte range: the virtual address the range
/// starts at (in-page offset included) and its byte length.
#[derive(Debug, Copy, Clone, PartialEq, Eq, Structural)]
pub struct VBuffer {
    pub addr: VirtAddr,
    pub size: u64,
}

/// The first page of the physical range `[paddr, paddr + size)`.
pub open spec fn first_page(paddr: u64) -> u64 {
    (paddr - paddr % 4096) as u64
}

/// Number of pages the physical range `[paddr, paddr + size)` touches.
pub open spec fn buffer_pages(paddr: u64, size: u64) -> int {
    (crate::addr::align_up64((paddr + size) as u64, 4096) - first_page(paddr)) / 4096
}

impl VBuffer {
    /// Map `size` bytes of physical memory starting at `paddr` with the
    /// given flags: reserve a span of the arena, install one translation
    /// per touched page, and point the handle at the first byte.
    ///
    /// Success is owed when the arena has room, none of the reserved pages
    /// carries a translation, and `tables` holds three frames per page.
    /// On failure translations already installed stay (they are harmless;
    /// the span is lost to the arena, which never reclaims).
    pub fn with_flags<A: Allocator>(
        aspace: &mut AddressSpace,
        valloc: &mut VAllocator,
        tables: &mut A,
        paddr: PhyAddr,
        size: u64,
        flags: Flags,
    ) -> (r: Result<VBuffer, MapErr>)
        requires
            old(aspace).wf(),
            old(valloc).wf(),
            old(tables).wf(),
            old(valloc).range_start.0 >= crate::config::VMALLOC_BASE,
            old(valloc).range_end.0 <= crate::config::VMALLOC_END,
            paddr.0 + size < PHYS_ADDR_LIMIT,
            flags.valid(),
        ensures
            final(aspace).wf(),
            final(valloc).wf(),
            final(tables).wf(),
            final(valloc).range_start == old(valloc).range_start,
            final(valloc).range_end == old(valloc).range_end,
            final(aspace).self_entry() == old(aspace).self_entry(),
            r matches Ok(b) ==> {
                &&& b.size == size
                &&& b.addr.0 == old(valloc).cursor.0 + paddr.0 % 4096
                &&& forall|w: u64|
                    old(valloc).cursor.0 <= w < old(valloc).cursor.0 + 4096 * buffer_pages(
                        paddr.0,
                        size,
                    ) && w % 4096 == 0 ==> #[trigger] final(aspace).leaf_entry(w) == Some(
                        installed_word(
                            (first_page(paddr.0) + (w - old(valloc).cursor.0)) as u64,
                            flags,
                        ),
                    )
            },
            ({
                let count = buffer_pages(paddr.0, size);
                (old(valloc).cursor.0 + 4096 * count < old(valloc).range_end.0 && old(tables).avail() >= 3 * count && (forall|w: u64|
                    #![trigger old(aspace).mapped(w)]
                    #![trigger old(aspace).large_mapped(w)]
                    old(valloc).cursor.0 <= w < old(valloc).cursor.0 + 4096 * count ==> !old(aspace).mapped(w) && !old(aspace).large_mapped(w))) ==> r is Ok
            }),
            forall|w: u64|
                old(aspace).mapped(w) ==> final(aspace).mapped(w) && #[trigger] final(aspace).leaf_entry(w) == old(aspace).leaf_entry(w),
    {
        let base_page = PhyAddr(paddr.0 - paddr.0 % 4096);
        proof {
            vstd::arithmetic::power2::lemma2_to64();
            assert(4096 == vstd::arithmetic::power2::pow2(12));
            assert(0x0010_0000_0000_0000u64 % 4096 == 0) by (bit_vector);
            lemma_page_round((paddr.0 + size) as u64, PHYS_ADDR_LIMIT);
            lemma_page_floor(paddr.0, 0);
        }
        let page_end = PhyAddr(paddr.0 + size).align_to(4096);
        let page_count = (page_end.0 - base_page.0) / 4096;
        proof {
            let bp = base_page.0 as int;
            let pe = page_end.0 as int;
            assert((bp % 4096 == 0 && pe % 4096 == 0 && bp <= pe) ==> (bp + 4096 * ((pe - bp)
                / 4096) == pe)) by (nonlinear_arith);
        }
        let vmem = match VMem::allocate(valloc, page_count) {
            Ok(m) => m,
            Err(_) => {
                // the arena itself is exhausted
                return Err(MapErr::OutOfMemory);
            },
        };
        let mut i: u64 = 0;
        while i < page_count
            invariant
                aspace.wf(),
                tables.wf(),
                valloc.wf(),
                valloc.range_start == old(valloc).range_start,
                valloc.range_end == old(valloc).range_end,
                vmem.base_addr == old(valloc).cursor,
                flags.valid(),
                aspace.self_entry() == old(aspace).self_entry(),
                i <= page_count,
                page_count == buffer_pages(paddr.0, size),
                base_page.0 == first_page(paddr.0),
                base_page.0 % 4096 == 0,
                base_page.0 + 4096 * page_count <= PHYS_ADDR_LIMIT,
                vmem.base_addr.0 % 4096 == 0,
                crate::config::VMALLOC_BASE <= vmem.base_addr.0,
                vmem.base_addr.0 + 4096 * page_count < crate::config::VMALLOC_END,
                vmem.page_count == page_count,
                forall|w: u64|
                    vmem.base_addr.0 <= w < vmem.base_addr.0 + 4096 * i && w % 4096 == 0
                        ==> #[trigger] aspace.leaf_entry(w) == Some(
                        installed_word((base_page.0 + (w - vmem.base_addr.0)) as u64, flags),
                    ),
                forall|w: u64|
                    #![trigger aspace.mapped(w)]
                    #![trigger aspace.large_mapped(w)]
                    vmem.base_addr.0 + 4096 * i <= w < vmem.base_addr.0 + 4096 * page_count && !old(aspace).mapped(w) && !old(aspace).large_mapped(w) ==> !aspace.mapped(w)
                        && !aspace.large_mapped(w),
                old(tables).avail() >= 3 * page_count ==> tables.avail() >= 3 * (page_count - i),
                forall|w: u64|
                    old(aspace).mapped(w) ==> aspace.mapped(w) && #[trigger] aspace.leaf_entry(w)
                        == old(aspace).leaf_entry(w),
            decreases page_count - i,
        {
            let vaddr = VirtAddr(vmem.base_addr.0 + 4096 * i);
            let fpaddr = PhyAddr(base_page.0 + 4096 * i);
            proof {
                lemma_vmalloc_window_addr(vaddr.0);
            }
            let ghost pre = *aspace;
            match aspace.map4k(tables, vaddr, fpaddr, flags) {
                Ok(()) => {},
                Err(e) => {
                    proof {
                        let count = buffer_pages(paddr.0, size);
                        if old(valloc).cursor.0 + 4096 * count < old(valloc).range_end.0 && old(tables).avail() >= 3 * count && (forall|w: u64|
                            #![trigger old(aspace).mapped(w)]
                            #![trigger old(aspace).large_mapped(w)]
                            old(valloc).cursor.0 <= w < old(valloc).cursor.0 + 4096 * count ==> !old(aspace).mapped(w) && !old(aspace).large_mapped(w)) {
                            assert(!old(aspace).mapped(vaddr.0) && !old(aspace).large_mapped(
                                vaddr.0,
                            ));
                            assert(!pre.mapped(vaddr.0) && !pre.large_mapped(vaddr.0));
                            assert(false);
                        }
                    }
                    return Err(e);
                },
            }
            proof {
                assert(!pre.mapped(vaddr.0));
                assert forall|w: u64|
                    vmem.base_addr.0 <= w < vmem.base_addr.0 + 4096 * (i + 1) && w % 4096
                        == 0 implies #[trigger] aspace.leaf_entry(w) == Some(
                    installed_word((base_page.0 + (w - vmem.base_addr.0)) as u64, flags),
                ) by {
                    crate::paging::lemma_installed_word(
                        (base_page.0 + (w - vmem.base_addr.0)) as u64,
                        flags,
                    );
                    if w < vaddr.0 {
                        assert(pre.leaf_entry(w) == Some(
                            installed_word((base_page.0 + (w - vmem.base_addr.0)) as u64, flags),
                        ));
                        assert(pre.mapped(w));
                        if same_slot(w, vaddr.0) {
                            lemma_same_slot_same_entry(pre, w, vaddr.0);
                            assert(false);
                        }
                        assert(translation_unchanged(pre.leaf_entry(w), aspace.leaf_entry(w)));
                    } else {
                        lemma_vmalloc_window_addr(w);
                        lemma_vmalloc_window_addr(vaddr.0);
                        crate::heap::lemma_same_slot_same_page(w, vaddr.0);
                        assert(w == vaddr.0);
                    }
                }
                assert forall|w: u64| old(aspace).mapped(w) implies aspace.mapped(w)
                    && #[trigger] aspace.leaf_entry(w) == old(aspace).leaf_entry(w) by {
                    assert(pre.mapped(w) && pre.leaf_entry(w) == old(aspace).leaf_entry(w));
                    if same_slot(w, vaddr.0) {
                        lemma_same_slot_same_entry(pre, w, vaddr.0);
                        assert(false);
                    }
                    assert(translation_unchanged(pre.leaf_entry(w), aspace.leaf_entry(w)));
                }
                assert forall|w: u64|
                    #![trigger aspace.mapped(w)]
                    #![trigger aspace.large_mapped(w)]
                    vmem.base_addr.0 + 4096 * (i + 1) <= w < vmem.base_addr.0 + 4096 * page_count
                        && !old(aspace).mapped(w) && !old(aspace).large_mapped(w) implies !aspace.mapped(
                    w,
                ) && !aspace.large_mapped(w) by {
                    assert(!pre.mapped(w) && !pre.large_mapped(w));
                    if same_slot(w, vaddr.0) {
                        lemma_vmalloc_window_addr(w);
                        lemma_vmalloc_window_addr(vaddr.0);
                        crate::heap::lemma_same_slot_same_page(w, vaddr.0);
                        assert(false);
                    }
                    assert(translation_unchanged(pre.leaf_entry(w), aspace.leaf_entry(w)));
                    assert(aspace.large_mapped(w) == pre.large_mapped(w));
                }
            }
            i = i + 1;
        }
        Ok(VBuffer { addr: VirtAddr(vmem.base_addr.0 + paddr.0 % 4096), size })
    }

    /// Map with the defaults for device registers: writable, non-executable,
    /// uncached, write-through.
    pub fn new<A: Allocator>(
        aspace: &mut AddressSpace,
        valloc: &mut VAllocator,
        tables: &mut A,
        paddr: PhyAddr,
        size: u64,
    ) -> (r: Result<VBuffer, MapErr>)
        requires
            old(aspace).wf(),
            old(valloc).wf(),
            old(tables).wf(),
            old(valloc).range_start.0 >= crate::config::VMALLOC_BASE,
            old(valloc).range_end.0 <= crate::config::VMALLOC_END,
            paddr.0 + size < PHYS_ADDR_LIMIT,
        ensures
            final(aspace).wf(),
            final(valloc).wf(),
            final(tables).wf(),
            final(aspace).self_entry() == old(aspace).self_entry(),
            r matches Ok(b) ==> {
                &&& b.size == size
                &&& b.addr.0 == old(valloc).cursor.0 + paddr.0 % 4096
                &&& forall|w: u64|
                    old(valloc).cursor.0 <= w < old(valloc).cursor.0 + 4096 * buffer_pages(
                        paddr.0,
                        size,
                    ) && w % 4096 == 0 ==> #[trigger] final(aspace).leaf_entry(w) == Some(
                        installed_word(
                            (first_page(paddr.0) + (w - old(valloc).cursor.0)) as u64,
                            default_handle_flags(),
                        ),
                    )
            },
            ({
                let count = buffer_pages(paddr.0, size);
                (old(valloc).cursor.0 + 4096 * count < old(valloc).range_end.0 && old(tables).avail() >= 3 * count && (forall|w: u64|
                    #![trigger old(aspace).mapped(w)]
                    #![trigger old(aspace).large_mapped(w)]
                    old(valloc).cursor.0 <= w < old(valloc).cursor.0 + 4096 * count ==> !old(aspace).mapped(w) && !old(aspace).large_mapped(w))) ==> r is Ok
            }),
            forall|w: u64|
                old(aspace).mapped(w) ==> final(aspace).mapped(w) && #[trigger] final(aspace).leaf_entry(w) == old(aspace).leaf_entry(w),
    {
        proof {
            assert((0x2u64 | 0x8000_0000_0000_0000u64 | 0x10u64 | 0x8u64) & 0x8000_0000_0000_01ffu64
                == (0x2u64 | 0x8000_0000_0000_0000u64 | 0x10u64 | 0x8u64)) by (bit_vector);
        }
        let flags = Flags::from_bits(
            Flags::READ_WRITE | Flags::NO_EXECUTE | Flags::CACHE_DISABLE | Flags::WRITETHROUGH,
        );
        VBuffer::with_flags(aspace, valloc, tables, paddr, size, flags)
    }

    /// The first mapped byte, as a typed virtual address.
    pub fn as_ptr(&self) -> (r: VirtAddr)
        ensures
            r == self.addr,
    {
        self.addr
    }

    /// The first mapped byte, for writing through.
    pub fn as_mut_ptr(&self) -> (r: VirtAddr)
        ensures
            r == self.addr,
    {
        self.addr
    }

    pub fn size(&self) -> (r: u64)
        ensures
            r == self.size,
    {
        self.size
    }

    /// Give up the automatic release: the raw parts, to be rebuilt with
    /// `from_raw`.
    pub fn leak(vbuf: VBuffer) -> (r: (VirtAddr, u64))
        ensures
            r.0 == vbuf.addr,
            r.1 == vbuf.size,
    {
        (vbuf.addr, vbuf.size)
    }

    /// Rebuild a handle from previously leaked raw parts.
    pub fn from_raw(addr: VirtAddr, size: u64) -> (r: VBuffer)
        ensures
            r.addr == addr,
            r.size == size,
    {
        VBuffer { addr, size }
    }

    /// Remove every translation of the buffer's pages. Pages already clear
    /// are passed over; no other translation is touched, and none appears.
    pub fn release(self, aspace: &mut AddressSpace)
        requires
            old(aspace).wf(),
            self.addr.0 + self.size < crate::config::VMALLOC_END,
            self.addr.0 >= crate::config::VMALLOC_BASE,
        ensures
            final(aspace).wf(),
            final(aspace).self_entry() == old(aspace).self_entry(),
            forall|i: int|
                0 <= i < buffer_pages(self.addr.0, self.size) ==> !(#[trigger] final(aspace).mapped(
                    (first_page(self.addr.0) + 4096 * i) as u64,
                )),
            forall|w: u64|
                #[trigger] final(aspace).mapped(w) ==> old(aspace).mapped(w) && final(aspace).leaf_entry(w) == old(aspace).leaf_entry(w),
    {
        let base = self.addr.0 - self.addr.0 % 4096;
        proof {
            vstd::arithmetic::power2::lemma2_to64();
            assert(4096 == vstd::arithmetic::power2::pow2(12));
            assert(0xffff_c880_0000_0000u64 % 4096 == 0) by (bit_vector);
            assert(0xffff_e880_0000_0000u64 % 4096 == 0) by (bit_vector);
            lemma_page_round((self.addr.0 + self.size) as u64, crate::config::VMALLOC_END);
            lemma_page_floor(self.addr.0, crate::config::VMALLOC_BASE);
        }
        let page_end = VirtAddr(self.addr.0 + self.size).align_to(4096);
        let page_count = (page_end.0 - base) / 4096;
        proof {
            let bp = base as int;
            let pe = page_end.0 as int;
            assert((bp % 4096 == 0 && pe % 4096 == 0 && bp <= pe) ==> (bp + 4096 * ((pe - bp)
                / 4096) == pe)) by (nonlinear_arith);
        }
        let mut i: u64 = 0;
        while i < page_count
            invariant
                aspace.wf(),
                aspace.self_entry() == old(aspace).self_entry(),
                i <= page_count,
                page_count == buffer_pages(self.addr.0, self.size),
                base == first_page(self.addr.0),
                base % 4096 == 0,
                crate::config::VMALLOC_BASE <= base,
                base + 4096 * page_count <= crate::config::VMALLOC_END,
                forall|k: int| 0 <= k < i ==> !(#[trigger] aspace.mapped((base + 4096 * k) as u64)),
                forall|w: u64|
                    #[trigger] aspace.mapped(w) ==> old(aspace).mapped(w) && aspace.leaf_entry(w)
                        == old(aspace).leaf_entry(w),
            decreases page_count - i,
        {
            let vaddr = VirtAddr(base + 4096 * i);
            let ghost pre = *aspace;
            match aspace.unmap4k(vaddr) {
                Ok(_) => {},
                Err(_) => {},
            }
            proof {
                assert(!aspace.mapped(vaddr.0));
                assert forall|k: int| 0 <= k < i + 1 implies !(#[trigger] aspace.mapped(
                    (base + 4096 * k) as u64,
                )) by {
                    let wk = (base + 4096 * k) as u64;
                    if k < i {
                        assert(!pre.mapped(wk));
                        if same_slot(wk, vaddr.0) {
                            lemma_same_slot_same_entry(*aspace, wk, vaddr.0);
                        } else {
                            assert(aspace.leaf_entry(wk) == pre.leaf_entry(wk));
                        }
                    }
                }
                assert forall|w: u64| #[trigger] aspace.mapped(w) implies old(aspace).mapped(w)
                    && aspace.leaf_entry(w) == old(aspace).leaf_entry(w) by {
                    if same_slot(w, vaddr.0) {
                        lemma_same_slot_same_entry(*aspace, w, vaddr.0);
                        assert(false);
                    } else {
                        assert(aspace.leaf_entry(w) == pre.leaf_entry(w));
                        assert(pre.mapped(w) ==> old(aspace).mapped(w) && pre.leaf_entry(w) == old(aspace).leaf_entry(w));
                    }
                }
            }
            i = i + 1;
        }
    }
}

} // verus!
