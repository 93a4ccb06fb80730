//! The value-shaped scoped mapping handle: a physical object of type `T`
//! mapped into the vmalloc arena through a buffer handle sized for `T`.
//! The handle only carries the mapping; reading the `T` through it is the
//! unverified caller's raw access, outside this model.
use vstd::layout::size_of;
use vstd::prelude::*;

use crate::addr::{PhyAddr, VirtAddr};
use crate::page_allocator::Allocator;
use crate::paging::{installed_word, AddressSpace, MapErr};
use crate::table::{Flags, PHYS_ADDR_LIMIT};
use crate::valloc::VAllocator;
use crate::vbuffer::{buffer_pages, default_handle_flags, first_page, VBuffer};

verus! {

/// A mapping handle shaped like a `T`.
pub struct VBox<T> {
    pub buffer: VBuffer,
    pub _marker: core::marker::PhantomData<T>,
}

impl<T> VBox<T> {
    /// Map `size_of::<T>()` bytes at `paddr` with custom flags; the present
    /// bit is always implied.
    pub fn with_flags<A: Allocator>(
        aspace: &mut AddressSpace,
        valloc: &mut VAllocator,
        tables: &mut A,
        paddr: PhyAddr,
        flags: Flags,
    ) -> (r: Result<VBox<T>, MapErr>)
        requires
            old(aspace).wf(),
            old(valloc).wf(),
            old(tables).wf(),
            old(valloc).range_start.0 >= crate::config::VMALLOC_BASE,
            old(valloc).range_end.0 <= crate::config::VMALLOC_END,
            paddr.0 + size_of::<T>() < PHYS_ADDR_LIMIT,
            flags.valid(),
        ensures
            final(aspace).wf(),
            final(valloc).wf(),
            final(tables).wf(),
            final(aspace).self_entry() == old(aspace).self_entry(),
            r matches Ok(b) ==> {
                &&& b.buffer.size == size_of::<T>()
                &&& b.buffer.addr.0 == old(valloc).cursor.0 + paddr.0 % 4096
                &&& forall|w: u64|
                    old(valloc).cursor.0 <= w < old(valloc).cursor.0 + 4096 * buffer_pages(
                        paddr.0,
                        size_of::<T>() as u64,
                    ) && w % 4096 == 0 ==> #[trigger] final(aspace).leaf_entry(w) == Some(
                        installed_word(
                            (first_page(paddr.0) + (w - old(valloc).cursor.0)) as u64,
                            flags,
                        ),
                    )
            },
            ({
                let count = buffer_pages(paddr.0, size_of::<T>() as u64);
                (old(valloc).cursor.0 + 4096 * count < old(valloc).range_end.0 && old(tables).avail() >= 3 * count && (forall|w: u64|
                    #![trigger old(aspace).mapped(w)]
                    #![trigger old(aspace).large_mapped(w)]
                    old(valloc).cursor.0 <= w < old(valloc).cursor.0 + 4096 * count ==> !old(aspace).mapped(w) && !old(aspace).large_mapped(w))) ==> r is Ok
            }),
            forall|w: u64|
                old(aspace).mapped(w) ==> final(aspace).mapped(w) && #[trigger] final(aspace).leaf_entry(w) == old(aspace).leaf_entry(w),
    {
        let size = core::mem::size_of::<T>();
        match VBuffer::with_flags(aspace, valloc, tables, paddr, size as u64, flags) {
            Ok(buffer) => Ok(VBox { buffer, _marker: core::marker::PhantomData }),
            Err(e) => Err(e),
        }
    }

    /// Map with the defaults for device registers: writable, non-executable,
    /// uncached, write-through.
    pub fn new<A: Allocator>(
        aspace: &mut AddressSpace,
        valloc: &mut VAllocator,
        tables: &mut A,
        paddr: PhyAddr,
    ) -> (r: Result<VBox<T>, MapErr>)
        requires
            old(aspace).wf(),
            old(valloc).wf(),
            old(tables).wf(),
            old(valloc).range_start.0 >= crate::config::VMALLOC_BASE,
            old(valloc).range_end.0 <= crate::config::VMALLOC_END,
            paddr.0 + size_of::<T>() < PHYS_ADDR_LIMIT,
        ensures
            final(aspace).wf(),
            final(valloc).wf(),
            final(tables).wf(),
            final(aspace).self_entry() == old(aspace).self_entry(),
            r matches Ok(b) ==> {
                &&& b.buffer.size == size_of::<T>()
                &&& b.buffer.addr.0 == old(valloc).cursor.0 + paddr.0 % 4096
                &&& forall|w: u64|
                    old(valloc).cursor.0 <= w < old(valloc).cursor.0 + 4096 * buffer_pages(
                        paddr.0,
                        size_of::<T>() as u64,
                    ) && w % 4096 == 0 ==> #[trigger] final(aspace).leaf_entry(w) == Some(
                        installed_word(
                            (first_page(paddr.0) + (w - old(valloc).cursor.0)) as u64,
                            default_handle_flags(),
                        ),
                    )
            },
            ({
                let count = buffer_pages(paddr.0, size_of::<T>() as u64);
                (old(valloc).cursor.0 + 4096 * count < old(valloc).range_end.0 && old(tables).avail() >= 3 * count && (forall|w: u64|
                    #![trigger old(aspace).mapped(w)]
                    #![trigger old(aspace).large_mapped(w)]
                    old(valloc).cursor.0 <= w < old(valloc).cursor.0 + 4096 * count ==> !old(aspace).mapped(w) && !old(aspace).large_mapped(w))) ==> r is Ok
            }),
            forall|w: u64|
                old(aspace).mapped(w) ==> final(aspace).mapped(w) && #[trigger] final(aspace).leaf_entry(w) == old(aspace).leaf_entry(w),
    {
        proof {
            assert((0x2u64 | 0x8000_0000_0000_0000u64 | 0x10u64 | 0x8u64) & 0x8000_0000_0000_01ffu64
                == (0x2u64 | 0x8000_0000_0000_0000u64 | 0x10u64 | 0x8u64)) by (bit_vector);
        }
        let flags = Flags::from_bits(
            Flags::READ_WRITE | Flags::NO_EXECUTE | Flags::CACHE_DISABLE | Flags::WRITETHROUGH,
        );
        VBox::<T>::with_flags(aspace, valloc, tables, paddr, flags)
    }

    /// Consume the handle and keep only the mapped address; nothing will be
    /// released automatically any more.
    pub fn into_raw(vb: VBox<T>) -> (r: VirtAddr)
        ensures
            r == vb.buffer.addr,
    {
        vb.buffer.addr
    }

    /// Consume the handle, keep the mapping installed, and hand back the
    /// mapped address for direct use.
    pub fn leak(vb: VBox<T>) -> (r: VirtAddr)
        ensures
            r == vb.buffer.addr,
    {
        VBox::into_raw(vb)
    }

    /// Rebuild a handle from a previously leaked mapped address.
    pub fn from_raw(addr: VirtAddr) -> (r: VBox<T>)
        ensures
            r.buffer.addr == addr,
            r.buffer.size == size_of::<T>(),
    {
        let size = core::mem::size_of::<T>();
        VBox { buffer: VBuffer::from_raw(addr, size as u64), _marker: core::marker::PhantomData }
    }

    /// Remove the handle's translations; the mapped value itself is gone to
    /// the caller (its destructor is the unverified caller's concern).
    pub fn release(self, aspace: &mut AddressSpace)
        requires
            old(aspace).wf(),
            self.buffer.addr.0 + self.buffer.size < crate::config::VMALLOC_END,
            self.buffer.addr.0 >= crate::config::VMALLOC_BASE,
        ensures
            final(aspace).wf(),
            final(aspace).self_entry() == old(aspace).self_entry(),
            forall|i: int|
                0 <= i < buffer_pages(self.buffer.addr.0, self.buffer.size) ==> !(
                #[trigger] final(aspace).mapped(
                    (first_page(self.buffer.addr.0) + 4096 * i) as u64,
                )),
            forall|w: u64|
                #[trigger] final(aspace).mapped(w) ==> old(aspace).mapped(w) && final(aspace).leaf_entry(w) == old(aspace).leaf_entry(w),
    {
        self.buffer.release(aspace)
    }
}

} // verus!
