//! The mapping engine: an owned model of the four-level translation
//! hierarchy, with the walks that install, remove and look up single 4K
//! translations and the one large-page removal path.
//!
//! Each table node carries the physical frame address its parent entry
//! points at, and the well-formedness invariant ties every parent entry word
//! to its child: a present, non-large entry's address field is exactly the
//! child table's frame. The root's self-map slot is the one entry that
//! points at a table the hierarchy does not own: the root itself.
use vstd::prelude::*;

use crate::addr::{PhyAddr, VirtAddr};
use crate::config::PAGE_MAP_BASE;
use crate::page_allocator::Allocator;
use crate::table::{
    entry_addr,
    entry_large,
    entry_present,
    index_bits,
    valid_frame_addr,
    Entry,
    Flags,
    PageTable,
    PageTableType,
    ENTRY_ADDR_MASK,
};

verus! {

/// Failure of a mapping operation.
#[derive(Debug, Copy, Clone, PartialEq, Eq, Structural)]
pub enum MapErr {
    /// A translation (4K or large) already covers the virtual address.
    AlreadyMapped,
    /// No translation covers the virtual address.
    NotMapped,
    /// The frame allocator could not supply an intermediate table.
    OutOfMemory,
    /// A large-page removal found an ordinary table instead.
    Is4KMapped,
    /// The physical address is not frame-aligned or exceeds the entry format.
    InvalidPhyAddr,
}

/// Entry word the self-map installation writes: present, writable, and
/// never executable.
pub const SELF_MAP_FLAGS: u64 = 0x8000_0000_0000_0003;

/// A leaf table: its entries translate pages directly.
pub struct LeafTable {
    pub paddr: u64,
    pub table: PageTable,
}

/// A directory table: each entry either points at an owned leaf table or
/// carries a large-page translation of its own.
pub struct DirTable {
    pub paddr: u64,
    pub table: PageTable,
    pub children: Vec<Option<LeafTable>>,
}

/// A directory-pointer table: each entry points at an owned directory table.
pub struct PtrTable {
    pub paddr: u64,
    pub table: PageTable,
    pub children: Vec<Option<DirTable>>,
}

impl LeafTable {
    pub open spec fn wf(self) -> bool {
        self.table.wf() && valid_frame_addr(self.paddr)
    }
}

impl DirTable {
    /// The leaf entry word at leaf-table slot `i1`, leaf-entry slot `i0`.
    pub open spec fn leaf_word(self, i1: int, i0: int) -> Option<u64> {
        match self.children@[i1] {
            Some(l) => Some(l.table.values()[i0]),
            None => None,
        }
    }

    /// True when the leaf entry at (`i1`, `i0`) holds a present translation.
    pub open spec fn mapped_at(self, i1: int, i0: int) -> bool {
        match self.leaf_word(i1, i0) {
            Some(w) => entry_present(w),
            None => false,
        }
    }

    /// True when directory slot `i1` carries a present large-page entry.
    pub open spec fn large_at(self, i1: int) -> bool {
        entry_present(self.table.values()[i1]) && entry_large(self.table.values()[i1])
    }

    pub open spec fn wf(self) -> bool {
        &&& self.table.wf()
        &&& valid_frame_addr(self.paddr)
        &&& self.children.len() == 512
        &&& forall|i: int|
            0 <= i < 512 ==> match #[trigger] self.children@[i] {
                Some(l) => l.wf() && entry_present(self.table.values()[i]) && !entry_large(
                    self.table.values()[i],
                ) && entry_addr(self.table.values()[i]) == l.paddr,
                None => !entry_present(self.table.values()[i]) || entry_large(
                    self.table.values()[i],
                ),
            }
    }
}

impl PtrTable {
    /// The leaf entry word reached through directory slot `i2`, then
    /// leaf-table slot `i1`, then leaf-entry slot `i0`.
    pub open spec fn leaf_word(self, i2: int, i1: int, i0: int) -> Option<u64> {
        match self.children@[i2] {
            Some(d) => d.leaf_word(i1, i0),
            None => None,
        }
    }

    /// The directory entry word at directory slot `i2`, entry slot `i1`.
    pub open spec fn dir_word(self, i2: int, i1: int) -> Option<u64> {
        match self.children@[i2] {
            Some(d) => Some(d.table.values()[i1]),
            None => None,
        }
    }

    pub open spec fn mapped_at(self, i2: int, i1: int, i0: int) -> bool {
        match self.children@[i2] {
            Some(d) => d.mapped_at(i1, i0),
            None => false,
        }
    }

    pub open spec fn large_at(self, i2: int, i1: int) -> bool {
        match self.children@[i2] {
            Some(d) => d.large_at(i1),
            None => false,
        }
    }

    /// Number of missing tables below this one for the walk (`i2`, `i1`).
    pub open spec fn needed_at(self, i2: int, i1: int) -> nat {
        match self.children@[i2] {
            Some(d) => if d.children@[i1] is None {
                1
            } else {
                0
            },
            None => 2,
        }
    }

    /// Number of missing tables below this one for a large-page entry in
    /// directory slot `i2`.
    pub open spec fn needed_large_at(self, i2: int) -> nat {
        if self.children@[i2] is None {
            1
        } else {
            0
        }
    }

    pub open spec fn wf(self) -> bool {
        &&& self.table.wf()
        &&& valid_frame_addr(self.paddr)
        &&& self.children.len() == 512
        &&& forall|i: int|
            0 <= i < 512 ==> match #[trigger] self.children@[i] {
                Some(d) => d.wf() && entry_present(self.table.values()[i]) && entry_addr(
                    self.table.values()[i],
                ) == d.paddr,
                None => !entry_present(self.table.values()[i]),
            }
    }
}

/// The clear entry word neither translates nor points anywhere.
pub proof fn lemma_clear_entry()
    ensures
        !entry_present(0),
        !entry_large(0),
        entry_addr(0) == 0,
{
    assert(0u64 & 1u64 == 0u64) by (bit_vector);
    assert(0u64 & 0x80u64 == 0u64) by (bit_vector);
    assert(0u64 & 0x000f_ffff_ffff_f000u64 == 0u64) by (bit_vector);
}

/// Entry words `a` and `b` (each possibly absent) agree on any present
/// translation: a present word is carried over unchanged in either
/// direction, while absent or clear words may differ.
pub open spec fn translation_unchanged(a: Option<u64>, b: Option<u64>) -> bool {
    &&& ((a matches Some(w) && entry_present(w)) ==> b == a)
    &&& ((b matches Some(w) && entry_present(w)) ==> a == b)
}

/// Every observable of the directory `b` agrees with `a`: same frame, same
/// entry words, same owned leaf tables slot for slot.
pub open spec fn dir_unchanged(a: DirTable, b: DirTable) -> bool {
    &&& b.paddr == a.paddr
    &&& b.children.len() == a.children.len()
    &&& (forall|j: int| 0 <= j < 512 ==> b.table.values()[j] == a.table.values()[j])
    &&& (forall|j: int|
        0 <= j < 512 ==> ((#[trigger] b.children@[j]) is Some == a.children@[j] is Some))
    &&& (forall|j: int, k: int|
        0 <= j < 512 && 0 <= k < 512 ==> #[trigger] b.leaf_word(j, k) == a.leaf_word(j, k))
}

/// Every observable of the directory-pointer table `b` agrees with `a`.
pub open spec fn ptr_unchanged(a: PtrTable, b: PtrTable) -> bool {
    &&& b.paddr == a.paddr
    &&& b.children.len() == a.children.len()
    &&& (forall|j: int| 0 <= j < 512 ==> b.table.values()[j] == a.table.values()[j])
    &&& (forall|j: int, k: int|
        0 <= j < 512 && 0 <= k < 512 ==> #[trigger] b.dir_word(j, k) == a.dir_word(j, k))
    &&& (forall|j: int, k: int| 0 <= j < 512 && 0 <= k < 512 ==> b.needed_at(j, k) == a.needed_at(j, k))
    &&& (forall|j: int, k1: int, k0: int|
        0 <= j < 512 && 0 <= k1 < 512 && 0 <= k0 < 512 ==> #[trigger] b.leaf_word(j, k1, k0)
            == a.leaf_word(j, k1, k0))
}

/// Every observable of the address space `b` agrees with `a`: same root,
/// same root entries, and the same outcome for every walk.
pub open spec fn space_unchanged(a: AddressSpace, b: AddressSpace) -> bool {
    &&& b.root_paddr == a.root_paddr
    &&& b.children.len() == a.children.len()
    &&& (forall|j: int| 0 <= j < 512 ==> b.root.values()[j] == a.root.values()[j])
    &&& (forall|w: u64| #[trigger] b.leaf_entry(w) == a.leaf_entry(w))
    &&& (forall|w: u64| #[trigger] b.dir_entry(w) == a.dir_entry(w))
    &&& (forall|w: u64| b.tables_needed(w) == a.tables_needed(w))
}

/// The word a fresh 4K translation is installed with: the frame address,
/// the caller's flags, and the present bit.
pub open spec fn installed_word(paddr: u64, flags: Flags) -> u64 {
    paddr | (flags.bits | Flags::PRESENT)
}

/// An installed leaf word carries exactly the frame address it was given.
pub proof fn lemma_installed_word(paddr: u64, flags: Flags)
    requires
        valid_frame_addr(paddr),
        flags.valid(),
    ensures
        entry_present(installed_word(paddr, flags)),
        entry_addr(installed_word(paddr, flags)) == paddr,
{
    let fl = flags.bits;
    assert(fl & 0x8000_0000_0000_01ffu64 == fl ==> ((fl | 1u64) & 0x8000_0000_0000_01ffu64 == (fl
        | 1u64) && (fl | 1u64) & 1u64 == 1u64)) by (bit_vector);
    crate::table::lemma_entry_compose(paddr, fl | 1u64);
}

/// An intermediate-table entry composed with the default flags is present,
/// small, and carries exactly the child's frame address.
pub proof fn lemma_default_entry(paddr: u64)
    requires
        valid_frame_addr(paddr),
    ensures
        entry_present(paddr | SELF_MAP_FLAGS),
        !entry_large(paddr | SELF_MAP_FLAGS),
        entry_addr(paddr | SELF_MAP_FLAGS) == paddr,
        Flags::NO_EXECUTE | Flags::READ_WRITE | Flags::PRESENT == SELF_MAP_FLAGS,
{
    assert(0x8000_0000_0000_0003u64 & 0x8000_0000_0000_01ffu64 == 0x8000_0000_0000_0003u64)
        by (bit_vector);
    assert(0x8000_0000_0000_0003u64 & 1u64 == 1u64) by (bit_vector);
    assert(0x8000_0000_0000_0003u64 & 0x80u64 == 0u64) by (bit_vector);
    assert(0x8000_0000_0000_0000u64 | 0x2u64 | 0x1u64 == 0x8000_0000_0000_0003u64) by (bit_vector);
    crate::table::lemma_entry_compose(paddr, SELF_MAP_FLAGS);
}

/// True when `a` and `b` select the same entry at every level of the walk.
pub open spec fn same_slot(a: u64, b: u64) -> bool {
    &&& index_bits(a, 3) == index_bits(b, 3)
    &&& index_bits(a, 2) == index_bits(b, 2)
    &&& index_bits(a, 1) == index_bits(b, 1)
    &&& index_bits(a, 0) == index_bits(b, 0)
}

/// True when `a` and `b` select the same directory entry.
pub open spec fn same_dir_slot(a: u64, b: u64) -> bool {
    &&& index_bits(a, 3) == index_bits(b, 3)
    &&& index_bits(a, 2) == index_bits(b, 2)
    &&& index_bits(a, 1) == index_bits(b, 1)
}

/// True when `a` and `b` select the same directory-pointer entry.
pub open spec fn same_ptr_slot(a: u64, b: u64) -> bool {
    &&& index_bits(a, 3) == index_bits(b, 3)
    &&& index_bits(a, 2) == index_bits(b, 2)
}

/// True when the root-level index of `vaddr` falls in the reserved self-map
/// window.
pub open spec fn in_self_window(vaddr: u64) -> bool {
    index_bits(vaddr, 3) == index_bits(PAGE_MAP_BASE, 3)
}

/// One kernel address space: the root table, its frame address, and the
/// owned lower tables.
pub struct AddressSpace {
    pub root_paddr: u64,
    pub root: PageTable,
    pub children: Vec<Option<PtrTable>>,
}

impl AddressSpace {
    /// Index of the root slot reserved for the self-map.
    pub open spec fn self_slot() -> int {
        index_bits(PAGE_MAP_BASE, 3) as int
    }

    /// The word in the root's self-map slot.
    pub open spec fn self_entry(self) -> u64 {
        self.root.values()[Self::self_slot()]
    }

    /// True once `init` has pointed the self-map slot back at the root.
    pub open spec fn self_map_installed(self) -> bool {
        self.self_entry() == self.root_paddr | SELF_MAP_FLAGS
    }

    pub open spec fn wf(self) -> bool {
        &&& self.root.wf()
        &&& valid_frame_addr(self.root_paddr)
        &&& self.children.len() == 512
        &&& self.children@[Self::self_slot()] is None
        &&& (self.self_entry() == 0 || self.self_map_installed())
        &&& forall|i: int|
            0 <= i < 512 && i != Self::self_slot() ==> match #[trigger] self.children@[i] {
                Some(p) => p.wf() && entry_present(self.root.values()[i]) && entry_addr(
                    self.root.values()[i],
                ) == p.paddr,
                None => !entry_present(self.root.values()[i]),
            }
    }

    /// The directory-pointer table the walk for `vaddr` passes through.
    pub open spec fn ptr_of(self, vaddr: u64) -> Option<PtrTable> {
        self.children@[index_bits(vaddr, 3) as int]
    }

    /// The directory table the walk for `vaddr` passes through.
    pub open spec fn dir_of(self, vaddr: u64) -> Option<DirTable> {
        match self.ptr_of(vaddr) {
            Some(p) => p.children@[index_bits(vaddr, 2) as int],
            None => None,
        }
    }

    /// The leaf table the walk for `vaddr` ends on.
    pub open spec fn leaf_of(self, vaddr: u64) -> Option<LeafTable> {
        match self.dir_of(vaddr) {
            Some(d) => d.children@[index_bits(vaddr, 1) as int],
            None => None,
        }
    }

    /// The directory-pointer entry word for `vaddr`, when its
    /// directory-pointer table exists.
    pub open spec fn ptr_entry(self, vaddr: u64) -> Option<u64> {
        match self.ptr_of(vaddr) {
            Some(p) => Some(p.table.values()[index_bits(vaddr, 2) as int]),
            None => None,
        }
    }

    /// The directory entry word for `vaddr`, when its directory table exists.
    pub open spec fn dir_entry(self, vaddr: u64) -> Option<u64> {
        match self.dir_of(vaddr) {
            Some(d) => Some(d.table.values()[index_bits(vaddr, 1) as int]),
            None => None,
        }
    }

    /// The leaf entry word for `vaddr`, when its leaf table exists.
    pub open spec fn leaf_entry(self, vaddr: u64) -> Option<u64> {
        match self.leaf_of(vaddr) {
            Some(l) => Some(l.table.values()[index_bits(vaddr, 0) as int]),
            None => None,
        }
    }

    /// True when a present 4K translation covers `vaddr`.
    pub open spec fn mapped(self, vaddr: u64) -> bool {
        match self.leaf_entry(vaddr) {
            Some(w) => entry_present(w),
            None => false,
        }
    }

    /// True when a present large-page directory entry covers `vaddr`.
    pub open spec fn large_mapped(self, vaddr: u64) -> bool {
        match self.dir_entry(vaddr) {
            Some(w) => entry_present(w) && entry_large(w),
            None => false,
        }
    }

    /// The physical address a present 4K translation yields for `vaddr`.
    pub open spec fn translate(self, vaddr: u64) -> u64
        recommends
            self.mapped(vaddr),
    {
        entry_addr(self.leaf_entry(vaddr).unwrap()) | (vaddr & 0xfff)
    }

    /// Number of missing tables `map4k` would have to install for `vaddr`.
    pub open spec fn tables_needed(self, vaddr: u64) -> nat {
        if self.ptr_of(vaddr) is None {
            3
        } else if self.dir_of(vaddr) is None {
            2
        } else if self.leaf_of(vaddr) is None {
            1
        } else {
            0
        }
    }

    /// Number of missing tables `map2m` would have to install for `vaddr`.
    pub open spec fn tables_needed_large(self, vaddr: u64) -> nat {
        if self.ptr_of(vaddr) is None {
            2
        } else if self.dir_of(vaddr) is None {
            1
        } else {
            0
        }
    }

    /// A fresh address space over the root table at `root_paddr`, with no
    /// translation installed and the self-map slot still clear.
    pub fn new(root_paddr: PhyAddr) -> (r: AddressSpace)
        requires
            valid_frame_addr(root_paddr.0),
        ensures
            r.wf(),
            r.root_paddr == root_paddr.0,
            r.self_entry() == 0,
            forall|w: u64| r.leaf_entry(w) is None,
            forall|w: u64| r.dir_entry(w) is None,
    {
        let r = AddressSpace {
            root_paddr: root_paddr.0,
            root: PageTable::new(),
            children: empty_children(),
        };
        proof {
            crate::table::lemma_index_bits_bound(PAGE_MAP_BASE, 3);
            lemma_clear_entry();
            assert forall|w: u64| r.leaf_entry(w) is None by {
                crate::table::lemma_index_bits_bound(w, 3);
            }
            assert forall|w: u64| r.dir_entry(w) is None by {
                crate::table::lemma_index_bits_bound(w, 3);
            }
        }
        r
    }

    /// Install the self-map: point the reserved root slot at the root table
    /// itself, present, writable and non-executable. Done exactly once, at
    /// paging initialization; every translation is untouched.
    pub fn init(&mut self)
        requires
            old(self).wf(),
            old(self).self_entry() == 0,
        ensures
            final(self).wf(),
            final(self).self_map_installed(),
            final(self).root_paddr == old(self).root_paddr,
            final(self).children == old(self).children,
            forall|i: int|
                0 <= i < 512 && i != Self::self_slot() ==> final(self).root.values()[i] == old(self).root.values()[i],
    {
        let slot = crate::table::self_map_index();
        let root_paddr = self.root_paddr;
        let e = &mut self.root.entries[slot];
        e.set_value(root_paddr | SELF_MAP_FLAGS);
    }

    /// The leaf entry covering `vaddr`, or `NotMapped` when some level of
    /// the hierarchy is missing. The entry itself may still be clear.
    pub fn get_pt_entry(&self, vaddr: VirtAddr) -> (r: Result<Entry, MapErr>)
        requires
            self.wf(),
        ensures
            match r {
                Ok(e) => self.leaf_entry(vaddr.0) == Some(e.value),
                Err(e) => self.leaf_entry(vaddr.0) is None && e == MapErr::NotMapped,
            },
    {
        let i3 = PageTable::get_index(PageTableType::PML4T, vaddr);
        let i2 = PageTable::get_index(PageTableType::PDPT, vaddr);
        let i1 = PageTable::get_index(PageTableType::PDT, vaddr);
        let i0 = PageTable::get_index(PageTableType::PT, vaddr);
        match &self.children[i3] {
            Some(p) => match &p.children[i2] {
                Some(d) => match &d.children[i1] {
                    Some(l) => Ok(l.table.entries[i0]),
                    None => Err(MapErr::NotMapped),
                },
                None => Err(MapErr::NotMapped),
            },
            None => Err(MapErr::NotMapped),
        }
    }

    /// The physical address `vaddr` translates to: the frame of its present
    /// leaf entry, with the in-page offset bits of `vaddr` or-ed back in.
    ///
    /// Addresses the hierarchy holds no present 4K translation for are
    /// reported `NotMapped`; the reserved self-map window is never an
    /// installed 4K translation.
    pub fn get_physical_address(&self, vaddr: VirtAddr) -> (r: Result<PhyAddr, MapErr>)
        requires
            self.wf(),
        ensures
            r is Ok <==> self.mapped(vaddr.0),
            self.mapped(vaddr.0) ==> r == Ok::<PhyAddr, MapErr>(PhyAddr(self.translate(vaddr.0))),
            !self.mapped(vaddr.0) ==> r == Err::<PhyAddr, MapErr>(MapErr::NotMapped),
    {
        match self.get_pt_entry(vaddr) {
            Ok(e) => {
                if e.is_present() {
                    Ok(PhyAddr((e.get_value() & ENTRY_ADDR_MASK) | (vaddr.0 & 0xfff)))
                } else {
                    Err(MapErr::NotMapped)
                }
            },
            Err(_) => Err(MapErr::NotMapped),
        }
    }
}

/// Unfolds one walk of `s` for `w` into the terms of the
/// directory-pointer table that the walk descends into.
pub proof fn lemma_space_walk(s: AddressSpace, w: u64)
    requires
        s.children.len() == 512,
    ensures
        index_bits(w, 3) < 512,
        index_bits(w, 2) < 512,
        index_bits(w, 1) < 512,
        index_bits(w, 0) < 512,
        match s.children@[index_bits(w, 3) as int] {
            Some(p) => {
                &&& s.leaf_entry(w) == p.leaf_word(
                    index_bits(w, 2) as int,
                    index_bits(w, 1) as int,
                    index_bits(w, 0) as int,
                )
                &&& s.dir_entry(w) == p.dir_word(
                    index_bits(w, 2) as int,
                    index_bits(w, 1) as int,
                )
                &&& s.ptr_entry(w) == Some(p.table.values()[index_bits(w, 2) as int])
                &&& s.tables_needed(w) == p.needed_at(
                    index_bits(w, 2) as int,
                    index_bits(w, 1) as int,
                )
            },
            None => s.leaf_entry(w) is None && s.dir_entry(w) is None && s.ptr_entry(w) is None
                && s.tables_needed(w) == 3,
        },
{
    crate::table::lemma_index_bits_bound(w, 3);
    crate::table::lemma_index_bits_bound(w, 2);
    crate::table::lemma_index_bits_bound(w, 1);
    crate::table::lemma_index_bits_bound(w, 0);
}

impl DirTable {
    /// Install a 4K translation at leaf-table slot `i1`, leaf-entry slot
    /// `i0`, creating the leaf table when it is missing.
    pub fn map_at<A: Allocator>(
        &mut self,
        alloc: &mut A,
        i1: usize,
        i0: usize,
        paddr: PhyAddr,
        flags: Flags,
    ) -> (r: Result<(), MapErr>)
        requires
            old(self).wf(),
            i1 < 512,
            i0 < 512,
            valid_frame_addr(paddr.0),
            flags.valid(),
            old(alloc).wf(),
        ensures
            final(alloc).wf(),
            final(self).wf(),
            final(self).paddr == old(self).paddr,
            final(self).children.len() == 512,
            forall|j: int|
                0 <= j < 512 && j != i1 ==> final(self).children@[j] == old(self).children@[j],
            forall|j: int|
                0 <= j < 512 && j != i1 ==> final(self).table.values()[j] == old(self).table.values()[j],
            forall|k: int| 0 <= k < 512 ==> final(self).large_at(k) == old(self).large_at(k),
            (old(self).large_at(i1 as int) || old(self).mapped_at(i1 as int, i0 as int)) ==> (r
                == Err::<(), MapErr>(MapErr::AlreadyMapped) && dir_unchanged(*old(self), *final(self))
                && *final(alloc) == *old(alloc)),
            (!old(self).large_at(i1 as int) && !old(self).mapped_at(i1 as int, i0 as int) && (old(self).children@[i1 as int] is Some || old(alloc).avail() > 0)) ==> r is Ok,
            r is Ok ==> {
                &&& final(self).leaf_word(i1 as int, i0 as int) == Some(
                    installed_word(paddr.0, flags),
                )
                &&& final(self).mapped_at(i1 as int, i0 as int)
                &&& final(self).children@[i1 as int] is Some
                &&& !old(self).large_at(i1 as int)
                &&& !old(self).mapped_at(i1 as int, i0 as int)
                &&& forall|k: int|
                    0 <= k < 512 && k != i0 ==> translation_unchanged(
                        old(self).leaf_word(i1 as int, k),
                        final(self).leaf_word(i1 as int, k),
                    )
                &&& (old(self).children@[i1 as int] is Some ==> final(self).table.values()[i1 as int]
                    == old(self).table.values()[i1 as int] && *final(alloc) == *old(alloc) && (
                forall|k: int|
                    0 <= k < 512 && k != i0 ==> final(self).leaf_word(i1 as int, k) == old(self).leaf_word(i1 as int, k)))
                &&& (old(self).children@[i1 as int] is None ==> final(alloc).avail() == old(alloc).avail() - 1)
                &&& (old(self).children@[i1 as int] is None ==> (final(self).children@[i1 as int] matches Some(l) && final(self).table.values()[i1 as int]
                    == l.paddr | SELF_MAP_FLAGS))
                &&& (old(self).children@[i1 as int] is None ==> (forall|k: int|
                    0 <= k < 512 && k != i0 ==> final(self).leaf_word(i1 as int, k) == Some(0u64)))
            },
            r == Err::<(), MapErr>(MapErr::OutOfMemory) ==> (dir_unchanged(
                *old(self),
                *final(self),
            ) && *final(alloc) == *old(alloc) && old(alloc).avail() == 0 && old(self).children@[i1 as int] is None && !old(self).large_at(i1 as int) && !old(self).mapped_at(i1 as int, i0 as int)),
            r is Err ==> (r == Err::<(), MapErr>(MapErr::AlreadyMapped) || r == Err::<
                (),
                MapErr,
            >(MapErr::OutOfMemory)),
            r == Err::<(), MapErr>(MapErr::AlreadyMapped) ==> (old(self).large_at(i1 as int) || old(self).mapped_at(i1 as int, i0 as int)),
    {
        let already = match &self.children[i1] {
            Some(l) => l.table.entries[i0].is_present(),
            None => self.table.entries[i1].is_present(),
        };
        if already {
            return Err(MapErr::AlreadyMapped);
        }
        if self.children[i1].is_none() {
            match alloc.allocate_zeroed() {
                Ok(f) => {
                    proof {
                        lemma_default_entry(f.0);
                        lemma_clear_entry();
                    }
                    let l = LeafTable { paddr: f.0, table: PageTable::new() };
                    let fl = crate::table::default_flags();
                    self.table.set_entry(i1, f.0 | fl.bits());
                    self.children.set(i1, Some(l));
                },
                Err(_) => {
                    return Err(MapErr::OutOfMemory);
                },
            }
        }
        proof {
            lemma_installed_word(paddr.0, flags);
        }
        match (&mut self.children[i1]) {
            Some(l) => {
                let e = &mut l.table.entries[i0];
                e.set(paddr, flags);
                Ok(())
            },
            None => unreached(),
        }
    }
}

impl PtrTable {
    /// Install a 4K translation through this directory-pointer table,
    /// creating the directory and leaf tables below it on demand.
    pub fn map_at<A: Allocator>(
        &mut self,
        alloc: &mut A,
        i2: usize,
        i1: usize,
        i0: usize,
        paddr: PhyAddr,
        flags: Flags,
    ) -> (r: Result<(), MapErr>)
        requires
            old(self).wf(),
            i2 < 512,
            i1 < 512,
            i0 < 512,
            valid_frame_addr(paddr.0),
            flags.valid(),
            old(alloc).wf(),
        ensures
            final(alloc).wf(),
            final(self).wf(),
            final(self).paddr == old(self).paddr,
            final(self).children.len() == 512,
            forall|j: int|
                0 <= j < 512 && j != i2 ==> final(self).children@[j] == old(self).children@[j],
            forall|j: int|
                0 <= j < 512 && j != i2 ==> final(self).table.values()[j] == old(self).table.values()[j],
            forall|k2: int, k1: int|
                0 <= k2 < 512 && 0 <= k1 < 512 ==> #[trigger] final(self).large_at(k2, k1) == old(self).large_at(k2, k1),
            (old(self).large_at(i2 as int, i1 as int) || old(self).mapped_at(
                i2 as int,
                i1 as int,
                i0 as int,
            )) ==> (r == Err::<(), MapErr>(MapErr::AlreadyMapped) && ptr_unchanged(
                *old(self),
                *final(self),
            ) && *final(alloc) == *old(alloc)),
            (!old(self).large_at(i2 as int, i1 as int) && !old(self).mapped_at(
                i2 as int,
                i1 as int,
                i0 as int,
            ) && old(alloc).avail() >= old(self).needed_at(i2 as int, i1 as int)) ==> r is Ok,
            r is Ok ==> {
                &&& final(self).leaf_word(i2 as int, i1 as int, i0 as int) == Some(
                    installed_word(paddr.0, flags),
                )
                &&& final(self).mapped_at(i2 as int, i1 as int, i0 as int)
                &&& final(self).children@[i2 as int] is Some
                &&& !old(self).large_at(i2 as int, i1 as int)
                &&& !old(self).mapped_at(i2 as int, i1 as int, i0 as int)
                &&& forall|k1: int, k0: int|
                    0 <= k1 < 512 && 0 <= k0 < 512 && !(k1 == i1 && k0 == i0)
                        ==> translation_unchanged(
                        old(self).leaf_word(i2 as int, k1, k0),
                        final(self).leaf_word(i2 as int, k1, k0),
                    )
                &&& final(alloc).avail() == old(alloc).avail() - old(self).needed_at(
                    i2 as int,
                    i1 as int,
                )
                &&& (old(self).children@[i2 as int] is None ==> (final(self).children@[i2 as int] matches Some(d) && final(self).table.values()[i2 as int]
                    == d.paddr | SELF_MAP_FLAGS))
                &&& (old(self).children@[i2 as int] is None ==> (forall|k: int|
                    0 <= k < 512 && k != i1 ==> final(self).dir_word(i2 as int, k) == Some(0u64)))
                &&& (old(self).needed_at(i2 as int, i1 as int) >= 1 ==> (final(self).children@[i2 as int] matches Some(d) && d.children@[i1 as int] matches Some(l)
                    && final(self).dir_word(i2 as int, i1 as int) == Some(
                    l.paddr | SELF_MAP_FLAGS,
                )))
                &&& (old(self).needed_at(i2 as int, i1 as int) >= 1 ==> (forall|k: int|
                    0 <= k < 512 && k != i0 ==> final(self).leaf_word(i2 as int, i1 as int, k)
                        == Some(0u64)))
            },
            r == Err::<(), MapErr>(MapErr::OutOfMemory) ==> {
                &&& old(alloc).avail() < old(self).needed_at(i2 as int, i1 as int)
                &&& !old(self).large_at(i2 as int, i1 as int)
                &&& !old(self).mapped_at(i2 as int, i1 as int, i0 as int)
                &&& forall|k1: int, k0: int|
                    0 <= k1 < 512 && 0 <= k0 < 512 ==> translation_unchanged(
                        old(self).leaf_word(i2 as int, k1, k0),
                        final(self).leaf_word(i2 as int, k1, k0),
                    )
                &&& !final(self).mapped_at(i2 as int, i1 as int, i0 as int)
            },
            r is Err ==> (r == Err::<(), MapErr>(MapErr::AlreadyMapped) || r == Err::<
                (),
                MapErr,
            >(MapErr::OutOfMemory)),
            r == Err::<(), MapErr>(MapErr::AlreadyMapped) ==> (old(self).large_at(
                i2 as int,
                i1 as int,
            ) || old(self).mapped_at(i2 as int, i1 as int, i0 as int)),
    {
        if self.children[i2].is_none() {
            match alloc.allocate_zeroed() {
                Ok(f) => {
                    proof {
                        lemma_default_entry(f.0);
                        lemma_clear_entry();
                    }
                    let d = DirTable {
                        paddr: f.0,
                        table: PageTable::new(),
                        children: empty_children(),
                    };
                    let fl = crate::table::default_flags();
                    self.table.set_entry(i2, f.0 | fl.bits());
                    self.children.set(i2, Some(d));
                },
                Err(_) => {
                    return Err(MapErr::OutOfMemory);
                },
            }
        }
        match (&mut self.children[i2]) {
            Some(d) => d.map_at(alloc, i1, i0, paddr, flags),
            None => unreached(),
        }
    }
}

impl AddressSpace {
    /// Install the 4K translation `vaddr -> paddr` with `flags` (the present
    /// bit is implied), allocating and linking any missing intermediate
    /// table from `alloc`.
    ///
    /// Exactly one of four outcomes holds: `InvalidPhyAddr` when `paddr` is
    /// not frame-aligned or exceeds the entry format; `AlreadyMapped` when a
    /// 4K or large translation already covers `vaddr`, leaving everything
    /// untouched; `OutOfMemory` when the allocator cannot supply the missing
    /// tables, leaving every present translation untouched (tables already
    /// installed stay, which is harmless); success otherwise. The caller
    /// must have interrupts and preemption disabled for the duration.
    #[verifier::rlimit(100)]
    pub fn map4k<A: Allocator>(
        &mut self,
        alloc: &mut A,
        vaddr: VirtAddr,
        paddr: PhyAddr,
        flags: Flags,
    ) -> (r: Result<(), MapErr>)
        requires
            old(self).wf(),
            !in_self_window(vaddr.0),
            flags.valid(),
            old(alloc).wf(),
        ensures
            final(alloc).wf(),
            final(self).wf(),
            final(self).root_paddr == old(self).root_paddr,
            final(self).children.len() == 512,
            final(self).self_entry() == old(self).self_entry(),
            (r == Err::<(), MapErr>(MapErr::InvalidPhyAddr)) <==> !valid_frame_addr(paddr.0),
            (r == Err::<(), MapErr>(MapErr::AlreadyMapped)) <==> (valid_frame_addr(paddr.0) && (old(self).large_mapped(vaddr.0) || old(self).mapped(vaddr.0))),
            (r is Ok) <==> (valid_frame_addr(paddr.0) && !old(self).large_mapped(vaddr.0) && !old(self).mapped(vaddr.0) && old(alloc).avail() >= old(self).tables_needed(vaddr.0)),
            (r == Err::<(), MapErr>(MapErr::OutOfMemory)) <==> (valid_frame_addr(paddr.0) && !old(self).large_mapped(vaddr.0) && !old(self).mapped(vaddr.0) && old(alloc).avail() < old(self).tables_needed(vaddr.0)),
            (r == Err::<(), MapErr>(MapErr::InvalidPhyAddr) || r == Err::<(), MapErr>(
                MapErr::AlreadyMapped,
            )) ==> (space_unchanged(*old(self), *final(self)) && *final(alloc) == *old(alloc)),
            r is Ok ==> {
                &&& final(self).leaf_entry(vaddr.0) == Some(installed_word(paddr.0, flags))
                &&& final(self).mapped(vaddr.0)
                &&& entry_addr(installed_word(paddr.0, flags)) == paddr.0
                &&& final(alloc).avail() == old(alloc).avail() - old(self).tables_needed(vaddr.0)
            },
            r is Ok ==> {
                // every entry on the walk is present, and a freshly
                // installed one carries exactly the default table word:
                // its child's frame with present, writable, non-executable
                &&& entry_present(final(self).root.values()[index_bits(vaddr.0, 3) as int])
                &&& (final(self).ptr_entry(vaddr.0) matches Some(w2) && entry_present(w2))
                &&& (final(self).dir_entry(vaddr.0) matches Some(w1) && entry_present(w1))
                &&& (old(self).ptr_of(vaddr.0) is None ==> final(self).root.values()[index_bits(
                    vaddr.0,
                    3,
                ) as int] == final(self).ptr_of(vaddr.0).unwrap().paddr | SELF_MAP_FLAGS)
                &&& (old(self).dir_of(vaddr.0) is None ==> final(self).ptr_entry(vaddr.0) == Some(
                    final(self).dir_of(vaddr.0).unwrap().paddr | SELF_MAP_FLAGS,
                ))
                &&& (old(self).leaf_of(vaddr.0) is None ==> final(self).dir_entry(vaddr.0) == Some(
                    final(self).leaf_of(vaddr.0).unwrap().paddr | SELF_MAP_FLAGS,
                ))
            },
            r is Ok ==> {
                // a freshly created table's other 511 words are clear
                &&& (old(self).leaf_of(vaddr.0) is None ==> (forall|u: u64|
                    same_dir_slot(u, vaddr.0) && index_bits(u, 0) != index_bits(vaddr.0, 0)
                        ==> #[trigger] final(self).leaf_entry(u) == Some(0u64)))
                &&& (old(self).dir_of(vaddr.0) is None ==> (forall|u: u64|
                    same_ptr_slot(u, vaddr.0) && index_bits(u, 1) != index_bits(vaddr.0, 1)
                        ==> #[trigger] final(self).dir_entry(u) == Some(0u64)))
                &&& (old(self).ptr_of(vaddr.0) is None ==> (forall|u: u64|
                    index_bits(u, 3) == index_bits(vaddr.0, 3) && index_bits(u, 2) != index_bits(
                        vaddr.0,
                        2,
                    ) ==> #[trigger] final(self).ptr_entry(u) == Some(0u64)))
            },
            forall|w: u64|
                !same_slot(w, vaddr.0) ==> translation_unchanged(
                    old(self).leaf_entry(w),
                    #[trigger] final(self).leaf_entry(w),
                ),
            forall|w: u64|
                !same_ptr_slot(w, vaddr.0) ==> translation_unchanged(
                    old(self).ptr_entry(w),
                    #[trigger] final(self).ptr_entry(w),
                ),
            forall|w: u64| #[trigger] final(self).large_mapped(w) == old(self).large_mapped(w),
            r == Err::<(), MapErr>(MapErr::OutOfMemory) ==> !final(self).mapped(vaddr.0),
    {
        if !(paddr.0 % 4096 == 0 && paddr.0 < crate::table::PHYS_ADDR_LIMIT) {
            return Err(MapErr::InvalidPhyAddr);
        }
        let i3 = PageTable::get_index(PageTableType::PML4T, vaddr);
        let i2 = PageTable::get_index(PageTableType::PDPT, vaddr);
        let i1 = PageTable::get_index(PageTableType::PDT, vaddr);
        let i0 = PageTable::get_index(PageTableType::PT, vaddr);
        if self.children[i3].is_none() {
            match alloc.allocate_zeroed() {
                Ok(f) => {
                    proof {
                        lemma_default_entry(f.0);
                        lemma_clear_entry();
                    }
                    let p = PtrTable {
                        paddr: f.0,
                        table: PageTable::new(),
                        children: empty_children(),
                    };
                    let fl = crate::table::default_flags();
                    self.root.set_entry(i3, f.0 | fl.bits());
                    self.children.set(i3, Some(p));
                },
                Err(_) => {
                    return Err(MapErr::OutOfMemory);
                },
            }
        }
        let ghost mid = *self;
        let r = match (&mut self.children[i3]) {
            Some(p) => p.map_at(alloc, i2, i1, i0, paddr, flags),
            None => unreached(),
        };
        proof {
            let v = vaddr.0;
            crate::table::lemma_index_bits_bound(PAGE_MAP_BASE, 3);
            let gi3 = index_bits(v, 3) as int;
            let gi2 = index_bits(v, 2) as int;
            let gi1 = index_bits(v, 1) as int;
            let gi0 = index_bits(v, 0) as int;
            let oldp = mid.children@[gi3].unwrap();
            let newp = self.children@[gi3].unwrap();
            assert(self.children@ =~= mid.children@.update(gi3, Some(newp)));
            assert(self.root == mid.root);
            // relate the address-space view to the table the walk descends into
            assert(old(self).children@[gi3] is Some ==> mid == *old(self));
            assert(old(self).children@[gi3] is None ==> {
                &&& !old(self).mapped(v)
                &&& !old(self).large_mapped(v)
                &&& old(self).tables_needed(v) == 3
                &&& oldp.needed_at(gi2, gi1) == 2
                &&& !oldp.mapped_at(gi2, gi1, gi0)
                &&& !oldp.large_at(gi2, gi1)
            });
            assert(old(self).children@[gi3] is Some ==> {
                &&& old(self).mapped(v) == oldp.mapped_at(gi2, gi1, gi0)
                &&& old(self).large_mapped(v) == oldp.large_at(gi2, gi1)
                &&& old(self).tables_needed(v) == oldp.needed_at(gi2, gi1)
            });
            lemma_space_walk(*old(self), v);
            lemma_space_walk(mid, v);
            lemma_space_walk(*self, v);
            if r is Ok {
                lemma_installed_word(paddr.0, flags);
                if old(self).leaf_of(v) is None {
                    assert forall|u: u64|
                        same_dir_slot(u, v) && index_bits(u, 0) != index_bits(v, 0) implies #[trigger] self.leaf_entry(
                        u,
                    ) == Some(0u64) by {
                        lemma_space_walk(*self, u);
                    }
                }
                if old(self).dir_of(v) is None {
                    assert forall|u: u64|
                        same_ptr_slot(u, v) && index_bits(u, 1) != index_bits(v, 1) implies #[trigger] self.dir_entry(
                        u,
                    ) == Some(0u64) by {
                        lemma_space_walk(*self, u);
                    }
                }
                if old(self).ptr_of(v) is None {
                    assert forall|u: u64|
                        index_bits(u, 3) == index_bits(v, 3) && index_bits(u, 2) != index_bits(
                            v,
                            2,
                        ) implies #[trigger] self.ptr_entry(u) == Some(0u64) by {
                        lemma_space_walk(mid, u);
                        lemma_space_walk(*self, u);
                        assert(newp.table.values()[index_bits(u, 2) as int] == oldp.table.values()[
                            index_bits(u, 2) as int]);
                    }
                }
            }
            assert forall|w: u64| !same_ptr_slot(w, v) implies translation_unchanged(
                old(self).ptr_entry(w),
                #[trigger] self.ptr_entry(w),
            ) by {
                lemma_space_walk(*old(self), w);
                lemma_space_walk(mid, w);
                lemma_space_walk(*self, w);
                lemma_clear_entry();
                if index_bits(w, 3) == index_bits(v, 3) {
                    let k2 = index_bits(w, 2) as int;
                    assert(newp.table.values()[k2] == oldp.table.values()[k2]);
                    assert(old(self).children@[gi3] is None ==> old(self).ptr_entry(w) is None
                        && oldp.table.values()[k2] == 0);
                }
            }
            // the hierarchy stays well-formed around the one changed slot
            assert(self.wf()) by {
                assert forall|i: int|
                    0 <= i < 512 && i != Self::self_slot() implies match #[trigger] self.children@[i] {
                        Some(p) => p.wf() && entry_present(self.root.values()[i]) && entry_addr(
                            self.root.values()[i],
                        ) == p.paddr,
                        None => !entry_present(self.root.values()[i]),
                    } by {
                    if i != gi3 {
                        assert(self.children@[i] == old(self).children@[i]);
                        assert(self.root.values()[i] == old(self).root.values()[i]);
                    }
                }
            }
            // every walk outside this root slot is untouched
            assert forall|w: u64| index_bits(w, 3) != index_bits(v, 3) implies self.leaf_entry(w)
                == old(self).leaf_entry(w) && self.dir_entry(w) == old(self).dir_entry(w)
                && self.tables_needed(w) == old(self).tables_needed(w) by {
                lemma_space_walk(*old(self), w);
                lemma_space_walk(mid, w);
                lemma_space_walk(*self, w);
            }
            assert forall|w: u64| #[trigger] self.large_mapped(w) == old(self).large_mapped(w) by {
                lemma_space_walk(*old(self), w);
                lemma_space_walk(mid, w);
                lemma_space_walk(*self, w);
                let k3 = index_bits(w, 3) as int;
                let k2 = index_bits(w, 2) as int;
                let k1 = index_bits(w, 1) as int;
                if k3 == gi3 {
                    assert(newp.large_at(k2, k1) == oldp.large_at(k2, k1));
                    assert(old(self).children@[gi3] is None ==> !oldp.large_at(k2, k1)
                        && !old(self).large_mapped(w));
                }
            }
            if r is Ok || r == Err::<(), MapErr>(MapErr::OutOfMemory) {
                assert forall|w: u64| !same_slot(w, v) implies translation_unchanged(
                    old(self).leaf_entry(w),
                    #[trigger] self.leaf_entry(w),
                ) by {
                    lemma_space_walk(*old(self), w);
                    lemma_space_walk(mid, w);
                    lemma_space_walk(*self, w);
                    if index_bits(w, 3) == index_bits(v, 3) {
                        let k2 = index_bits(w, 2) as int;
                        let k1 = index_bits(w, 1) as int;
                        let k0 = index_bits(w, 0) as int;
                        if k2 != gi2 {
                            assert(newp.children@[k2] == oldp.children@[k2]);
                            assert(newp.leaf_word(k2, k1, k0) == oldp.leaf_word(k2, k1, k0));
                            assert(old(self).children@[gi3] is None ==> old(self).leaf_entry(
                                w,
                            ) is None && oldp.leaf_word(k2, k1, k0) is None);
                        } else {
                            assert(translation_unchanged(
                                oldp.leaf_word(k2, k1, k0),
                                newp.leaf_word(k2, k1, k0),
                            ));
                        }
                    }
                }
            }
            if r == Err::<(), MapErr>(MapErr::AlreadyMapped) {
                assert(ptr_unchanged(oldp, newp));
                assert(mid == *old(self));
                assert forall|w: u64| #[trigger] self.leaf_entry(w) == old(self).leaf_entry(w) by {
                    lemma_space_walk(*old(self), w);
                    lemma_space_walk(*self, w);
                }
                assert forall|w: u64| #[trigger] self.dir_entry(w) == old(self).dir_entry(w) by {
                    lemma_space_walk(*old(self), w);
                    lemma_space_walk(*self, w);
                }
                assert forall|w: u64| self.tables_needed(w) == old(self).tables_needed(w) by {
                    lemma_space_walk(*old(self), w);
                    lemma_space_walk(*self, w);
                }
                assert(space_unchanged(*old(self), *self));
            }
        }
        r
    }

    /// Remove the 4K translation covering `vaddr` and hand its frame back,
    /// or report `NotMapped` and change nothing. Only the one leaf entry is
    /// cleared; emptied intermediate tables stay in place. The caller must
    /// have interrupts and preemption disabled and must afterwards
    /// invalidate the cached translation of `vaddr` on the running CPU.
    #[verifier::rlimit(100)]
    pub fn unmap4k(&mut self, vaddr: VirtAddr) -> (r: Result<PhyAddr, MapErr>)
        requires
            old(self).wf(),
        ensures
            final(self).wf(),
            final(self).root_paddr == old(self).root_paddr,
            final(self).children.len() == 512,
            final(self).self_entry() == old(self).self_entry(),
            r is Ok <==> old(self).mapped(vaddr.0),
            r matches Ok(f) ==> f.0 == entry_addr(old(self).leaf_entry(vaddr.0).unwrap()),
            r is Ok ==> final(self).leaf_entry(vaddr.0) == Some(0u64) && !final(self).mapped(
                vaddr.0,
            ),
            r is Err ==> r == Err::<PhyAddr, MapErr>(MapErr::NotMapped) && space_unchanged(
                *old(self),
                *final(self),
            ),
            forall|w: u64|
                !same_slot(w, vaddr.0) ==> #[trigger] final(self).leaf_entry(w) == old(self).leaf_entry(w),
            forall|w: u64| #[trigger] final(self).dir_entry(w) == old(self).dir_entry(w),
            forall|w: u64| #[trigger] final(self).ptr_entry(w) == old(self).ptr_entry(w),
            forall|w: u64| #[trigger] final(self).tables_needed(w) == old(self).tables_needed(w),
    {
        let present = match self.get_pt_entry(vaddr) {
            Ok(e) => e.is_present(),
            Err(_) => false,
        };
        if !present {
            return Err(MapErr::NotMapped);
        }
        let i3 = PageTable::get_index(PageTableType::PML4T, vaddr);
        let i2 = PageTable::get_index(PageTableType::PDPT, vaddr);
        let i1 = PageTable::get_index(PageTableType::PDT, vaddr);
        let i0 = PageTable::get_index(PageTableType::PT, vaddr);
        let r = match (&mut self.children[i3]) {
            Some(p) => match (&mut p.children[i2]) {
                Some(d) => match (&mut d.children[i1]) {
                    Some(l) => {
                        let w = l.table.entries[i0];
                        l.table.set_entry(i0, 0);
                        Ok(PhyAddr(w.get_value() & ENTRY_ADDR_MASK))
                    },
                    None => unreached(),
                },
                None => unreached(),
            },
            None => unreached(),
        };
        proof {
            let v = vaddr.0;
            let gi3 = index_bits(v, 3) as int;
            let gi2 = index_bits(v, 2) as int;
            let gi1 = index_bits(v, 1) as int;
            let gi0 = index_bits(v, 0) as int;
            lemma_clear_entry();
            crate::table::lemma_index_bits_bound(PAGE_MAP_BASE, 3);
            let oldp = old(self).children@[gi3].unwrap();
            let newp = self.children@[gi3].unwrap();
            let oldd = oldp.children@[gi2].unwrap();
            let newd = newp.children@[gi2].unwrap();
            let oldl = oldd.children@[gi1].unwrap();
            let newl = newd.children@[gi1].unwrap();
            assert(self.children@ =~= old(self).children@.update(gi3, Some(newp)));
            assert(newp.children@ =~= oldp.children@.update(gi2, Some(newd)));
            assert(newd.children@ =~= oldd.children@.update(gi1, Some(newl)));
            assert(newl.paddr == oldl.paddr && newd.paddr == oldd.paddr && newp.paddr
                == oldp.paddr);
            assert(newd.table == oldd.table && newp.table == oldp.table && self.root == old(self).root);
            assert(self.wf()) by {
                assert(newd.wf());
                assert(newp.wf());
            }
            assert forall|w: u64| !same_slot(w, v) implies #[trigger] self.leaf_entry(w) == old(self).leaf_entry(w) by {
                lemma_space_walk(*old(self), w);
                lemma_space_walk(*self, w);
            }
            assert forall|w: u64| #[trigger] self.dir_entry(w) == old(self).dir_entry(w) by {
                lemma_space_walk(*old(self), w);
                lemma_space_walk(*self, w);
            }
            assert forall|w: u64| #[trigger] self.ptr_entry(w) == old(self).ptr_entry(w) by {
                lemma_space_walk(*old(self), w);
                lemma_space_walk(*self, w);
            }
            assert forall|w: u64| #[trigger] self.tables_needed(w) == old(self).tables_needed(
                w,
            ) by {
                lemma_space_walk(*old(self), w);
                lemma_space_walk(*self, w);
            }
        }
        r
    }

    /// Remove the large-page translation whose directory entry covers
    /// `vaddr`. A present ordinary (4K-table) entry there is reported
    /// `Is4KMapped`; a missing or clear one `NotMapped`; in both cases
    /// nothing changes. The caller must have interrupts and preemption
    /// disabled and must afterwards invalidate the cached translation.
    #[verifier::rlimit(100)]
    pub fn unmap2m(&mut self, vaddr: VirtAddr) -> (r: Result<(), MapErr>)
        requires
            old(self).wf(),
        ensures
            final(self).wf(),
            final(self).root_paddr == old(self).root_paddr,
            final(self).children.len() == 512,
            final(self).self_entry() == old(self).self_entry(),
            r is Ok <==> old(self).large_mapped(vaddr.0),
            r is Ok ==> final(self).dir_entry(vaddr.0) == Some(0u64) && !final(self).large_mapped(
                vaddr.0,
            ),
            r == Err::<(), MapErr>(MapErr::Is4KMapped) <==> (old(self).dir_entry(vaddr.0) matches
                Some(w) && entry_present(w) && !entry_large(w)),
            r == Err::<(), MapErr>(MapErr::NotMapped) <==> (old(self).dir_entry(vaddr.0) is None
                || !entry_present(old(self).dir_entry(vaddr.0).unwrap())),
            r is Err ==> space_unchanged(*old(self), *final(self)),
            forall|w: u64| #[trigger] final(self).leaf_entry(w) == old(self).leaf_entry(w),
            forall|w: u64|
                !same_dir_slot(w, vaddr.0) ==> #[trigger] final(self).dir_entry(w) == old(self).dir_entry(w),
            forall|w: u64| #[trigger] final(self).ptr_entry(w) == old(self).ptr_entry(w),
            forall|w: u64| #[trigger] final(self).tables_needed(w) == old(self).tables_needed(w),
    {
        let i3 = PageTable::get_index(PageTableType::PML4T, vaddr);
        let i2 = PageTable::get_index(PageTableType::PDPT, vaddr);
        let i1 = PageTable::get_index(PageTableType::PDT, vaddr);
        let state: u64 = match &self.children[i3] {
            Some(p) => match &p.children[i2] {
                Some(d) => {
                    let w = d.table.entries[i1];
                    if !w.is_present() {
                        0
                    } else if w.get_value() & Flags::PAGE_SIZE == Flags::PAGE_SIZE {
                        2
                    } else {
                        1
                    }
                },
                None => 0,
            },
            None => 0,
        };
        if state == 0 {
            return Err(MapErr::NotMapped);
        }
        if state == 1 {
            return Err(MapErr::Is4KMapped);
        }
        let r = match (&mut self.children[i3]) {
            Some(p) => match (&mut p.children[i2]) {
                Some(d) => {
                    d.table.set_entry(i1, 0);
                    Ok(())
                },
                None => unreached(),
            },
            None => unreached(),
        };
        proof {
            let v = vaddr.0;
            let gi3 = index_bits(v, 3) as int;
            let gi2 = index_bits(v, 2) as int;
            let gi1 = index_bits(v, 1) as int;
            lemma_clear_entry();
            crate::table::lemma_index_bits_bound(PAGE_MAP_BASE, 3);
            let oldp = old(self).children@[gi3].unwrap();
            let newp = self.children@[gi3].unwrap();
            let oldd = oldp.children@[gi2].unwrap();
            let newd = newp.children@[gi2].unwrap();
            assert(self.children@ =~= old(self).children@.update(gi3, Some(newp)));
            assert(newp.children@ =~= oldp.children@.update(gi2, Some(newd)));
            assert(newd.children == oldd.children && newd.paddr == oldd.paddr && newp.paddr
                == oldp.paddr);
            assert(newp.table == oldp.table && self.root == old(self).root);
            assert(oldd.children@[gi1] is None);
            assert(self.wf()) by {
                assert(newd.wf());
                assert(newp.wf());
            }
            assert forall|w: u64| #[trigger] self.leaf_entry(w) == old(self).leaf_entry(w) by {
                lemma_space_walk(*old(self), w);
                lemma_space_walk(*self, w);
            }
            assert forall|w: u64| !same_dir_slot(w, v) implies #[trigger] self.dir_entry(w) == old(self).dir_entry(w) by {
                lemma_space_walk(*old(self), w);
                lemma_space_walk(*self, w);
            }
            assert forall|w: u64| #[trigger] self.ptr_entry(w) == old(self).ptr_entry(w) by {
                lemma_space_walk(*old(self), w);
                lemma_space_walk(*self, w);
            }
            assert forall|w: u64| #[trigger] self.tables_needed(w) == old(self).tables_needed(
                w,
            ) by {
                lemma_space_walk(*old(self), w);
                lemma_space_walk(*self, w);
            }
        }
        r
    }
}

/// True when `paddr` can be the frame of a large-page directory entry.
pub open spec fn valid_large_frame_addr(paddr: u64) -> bool {
    paddr % 0x20_0000 == 0 && paddr < crate::table::PHYS_ADDR_LIMIT
}

/// The word a large-page translation is installed with: the frame address,
/// the caller's flags, and the present and page-size bits.
pub open spec fn installed_large_word(paddr: u64, flags: Flags) -> u64 {
    paddr | (flags.bits | (Flags::PAGE_SIZE | Flags::PRESENT))
}

/// An installed large word is present, large, and carries exactly the
/// frame address it was given.
pub proof fn lemma_installed_large_word(paddr: u64, flags: Flags)
    requires
        valid_large_frame_addr(paddr),
        flags.valid(),
    ensures
        entry_present(installed_large_word(paddr, flags)),
        entry_large(installed_large_word(paddr, flags)),
        entry_addr(installed_large_word(paddr, flags)) == paddr,
{
    let fl = flags.bits;
    assert(paddr % 0x20_0000 == 0 ==> paddr % 4096 == 0) by (bit_vector);
    assert(0x80u64 | 1u64 == 0x81u64) by (bit_vector);
    assert(fl & 0x8000_0000_0000_01ffu64 == fl ==> ((fl | 0x81u64) & 0x8000_0000_0000_01ffu64 == (
    fl | 0x81u64) && (fl | 0x81u64) & 1u64 == 1u64 && (fl | 0x81u64) & 0x80u64 == 0x80u64))
        by (bit_vector);
    crate::table::lemma_entry_compose(paddr, fl | (0x80u64 | 1u64));
}

/// What an installed 4K translation gives back, in both directions: a
/// space whose leaf entry for `vaddr` holds the word `map4k` installs for
/// `paddr` is mapped, translates `vaddr` to `paddr` with the in-page offset
/// bits or-ed in, and hands exactly `paddr` back from `unmap4k`.
pub proof fn lemma_translation_of_installed(s: AddressSpace, vaddr: u64, paddr: u64, flags: Flags)
    requires
        s.leaf_entry(vaddr) == Some(installed_word(paddr, flags)),
        valid_frame_addr(paddr),
        flags.valid(),
    ensures
        s.mapped(vaddr),
        s.translate(vaddr) == paddr | (vaddr & 0xfff),
        entry_addr(s.leaf_entry(vaddr).unwrap()) == paddr,
{
    lemma_installed_word(paddr, flags);
}

/// The self-map round trip: once the root's reserved slot points back at
/// the root, the address composed for the leaf table of `vaddr` walks,
/// step by step, through exactly the entries that `vaddr`'s own indices
/// select — first the window slot (back to the root), then the root entry,
/// the directory-pointer entry and the directory entry of `vaddr` — and
/// the last step's address field is the leaf table's own frame.
pub proof fn lemma_self_map_round_trip(s: AddressSpace, vaddr: u64)
    requires
        s.wf(),
        s.self_map_installed(),
        s.leaf_of(vaddr) is Some,
    ensures
        ({
            let w = crate::table::get_table_addr_spec(PageTableType::PT, vaddr);
            &&& w % 4096 == 0
            &&& index_bits(w, 3) == AddressSpace::self_slot()
            &&& entry_addr(s.root.values()[index_bits(w, 3) as int]) == s.root_paddr
            &&& index_bits(w, 2) == index_bits(vaddr, 3)
            &&& entry_addr(s.root.values()[index_bits(w, 2) as int]) == s.ptr_of(
                vaddr,
            ).unwrap().paddr
            &&& index_bits(w, 1) == index_bits(vaddr, 2)
            &&& entry_addr(s.ptr_of(vaddr).unwrap().table.values()[index_bits(w, 1) as int])
                == s.dir_of(vaddr).unwrap().paddr
            &&& index_bits(w, 0) == index_bits(vaddr, 1)
            &&& entry_addr(s.dir_of(vaddr).unwrap().table.values()[index_bits(w, 0) as int])
                == s.leaf_of(vaddr).unwrap().paddr
        }),
{
    crate::table::lemma_index_bits_bound(vaddr, 3);
    crate::table::lemma_index_bits_bound(vaddr, 2);
    crate::table::lemma_index_bits_bound(vaddr, 1);
    crate::table::lemma_index_bits_bound(PAGE_MAP_BASE, 3);
    crate::table::lemma_table_addr_indices(
        index_bits(vaddr, 3),
        index_bits(vaddr, 2),
        index_bits(vaddr, 1),
    );
    lemma_default_entry(s.root_paddr);
}

impl PtrTable {
    /// Install a large-page translation in directory slot `i2`, entry slot
    /// `i1`, creating the directory table when it is missing.
    pub fn map_large_at<A: Allocator>(
        &mut self,
        alloc: &mut A,
        i2: usize,
        i1: usize,
        paddr: PhyAddr,
        flags: Flags,
    ) -> (r: Result<(), MapErr>)
        requires
            old(self).wf(),
            i2 < 512,
            i1 < 512,
            valid_large_frame_addr(paddr.0),
            flags.valid(),
            old(alloc).wf(),
        ensures
            final(alloc).wf(),
            final(self).wf(),
            final(self).paddr == old(self).paddr,
            final(self).children.len() == 512,
            forall|j: int|
                0 <= j < 512 && j != i2 ==> final(self).children@[j] == old(self).children@[j],
            forall|j: int|
                0 <= j < 512 && j != i2 ==> final(self).table.values()[j] == old(self).table.values()[j],
            forall|j: int, k1: int, k0: int|
                0 <= j < 512 && 0 <= k1 < 512 && 0 <= k0 < 512 ==> #[trigger] final(self).leaf_word(j, k1, k0) == old(self).leaf_word(j, k1, k0),
            (old(self).dir_word(i2 as int, i1 as int) matches Some(w) && entry_present(w)) ==> (r
                == Err::<(), MapErr>(MapErr::AlreadyMapped) && ptr_unchanged(
                *old(self),
                *final(self),
            ) && *final(alloc) == *old(alloc)),
            (!(old(self).dir_word(i2 as int, i1 as int) matches Some(w) && entry_present(w)) && old(alloc).avail() >= old(self).needed_large_at(i2 as int)) ==> r is Ok,
            r is Ok ==> {
                &&& final(self).dir_word(i2 as int, i1 as int) == Some(
                    installed_large_word(paddr.0, flags),
                )
                &&& final(self).large_at(i2 as int, i1 as int)
                &&& final(self).children@[i2 as int] is Some
                &&& !(old(self).dir_word(i2 as int, i1 as int) matches Some(w) && entry_present(w))
                &&& forall|k: int|
                    0 <= k < 512 && k != i1 ==> translation_unchanged(
                        old(self).dir_word(i2 as int, k),
                        final(self).dir_word(i2 as int, k),
                    )
                &&& final(alloc).avail() == old(alloc).avail() - old(self).needed_large_at(
                    i2 as int,
                )
            },
            r == Err::<(), MapErr>(MapErr::OutOfMemory) ==> {
                &&& old(alloc).avail() < old(self).needed_large_at(i2 as int)
                &&& !(old(self).dir_word(i2 as int, i1 as int) matches Some(w) && entry_present(w))
                &&& ptr_unchanged(*old(self), *final(self))
                &&& *final(alloc) == *old(alloc)
            },
            r is Err ==> (r == Err::<(), MapErr>(MapErr::AlreadyMapped) || r == Err::<
                (),
                MapErr,
            >(MapErr::OutOfMemory)),
            r == Err::<(), MapErr>(MapErr::AlreadyMapped) ==> (old(self).dir_word(
                i2 as int,
                i1 as int,
            ) matches Some(w) && entry_present(w)),
            final(alloc).avail() <= old(alloc).avail(),
    {
        let already = match &self.children[i2] {
            Some(d) => d.table.entries[i1].is_present(),
            None => false,
        };
        if already {
            return Err(MapErr::AlreadyMapped);
        }
        if self.children[i2].is_none() {
            match alloc.allocate_zeroed() {
                Ok(f) => {
                    proof {
                        lemma_default_entry(f.0);
                        lemma_clear_entry();
                    }
                    let d = DirTable {
                        paddr: f.0,
                        table: PageTable::new(),
                        children: empty_children(),
                    };
                    let fl = crate::table::default_flags();
                    self.table.set_entry(i2, f.0 | fl.bits());
                    self.children.set(i2, Some(d));
                },
                Err(_) => {
                    return Err(MapErr::OutOfMemory);
                },
            }
        }
        proof {
            lemma_installed_large_word(paddr.0, flags);
        }
        let word = paddr.0 | (flags.bits() | (Flags::PAGE_SIZE | Flags::PRESENT));
        match (&mut self.children[i2]) {
            Some(d) => {
                d.table.set_entry(i1, word);
                Ok(())
            },
            None => unreached(),
        }
    }
}

impl AddressSpace {
    /// Install the large-page translation `vaddr -> paddr` with `flags`
    /// (present and page-size bits implied), allocating any missing
    /// directory-pointer or directory table from `alloc`.
    ///
    /// This is how the boot code's pre-existing large identity mappings are
    /// expressed in the model: the design otherwise installs 4K pages only,
    /// and `unmap2m` exists to take these mappings out again.
    #[verifier::rlimit(100)]
    pub fn map2m<A: Allocator>(
        &mut self,
        alloc: &mut A,
        vaddr: VirtAddr,
        paddr: PhyAddr,
        flags: Flags,
    ) -> (r: Result<(), MapErr>)
        requires
            old(self).wf(),
            !in_self_window(vaddr.0),
            flags.valid(),
            old(alloc).wf(),
        ensures
            final(alloc).wf(),
            final(self).wf(),
            final(self).root_paddr == old(self).root_paddr,
            final(self).children.len() == 512,
            final(self).self_entry() == old(self).self_entry(),
            (r == Err::<(), MapErr>(MapErr::InvalidPhyAddr)) <==> !valid_large_frame_addr(paddr.0),
            (r == Err::<(), MapErr>(MapErr::AlreadyMapped)) <==> (valid_large_frame_addr(paddr.0)
                && (old(self).dir_entry(vaddr.0) matches Some(w) && entry_present(w))),
            (r is Ok) <==> (valid_large_frame_addr(paddr.0) && !(old(self).dir_entry(vaddr.0)
                matches Some(w) && entry_present(w)) && old(alloc).avail() >= old(self).tables_needed_large(vaddr.0)),
            r is Ok ==> {
                &&& final(self).dir_entry(vaddr.0) == Some(installed_large_word(paddr.0, flags))
                &&& final(self).large_mapped(vaddr.0)
                &&& entry_addr(installed_large_word(paddr.0, flags)) == paddr.0
                &&& final(alloc).avail() == old(alloc).avail() - old(self).tables_needed_large(
                    vaddr.0,
                )
            },
            forall|w: u64| #[trigger] final(self).leaf_entry(w) == old(self).leaf_entry(w),
            forall|w: u64|
                !same_dir_slot(w, vaddr.0) ==> translation_unchanged(
                    old(self).dir_entry(w),
                    #[trigger] final(self).dir_entry(w),
                ),
    {
        if !(paddr.0 % 0x20_0000 == 0 && paddr.0 < crate::table::PHYS_ADDR_LIMIT) {
            return Err(MapErr::InvalidPhyAddr);
        }
        let i3 = PageTable::get_index(PageTableType::PML4T, vaddr);
        let i2 = PageTable::get_index(PageTableType::PDPT, vaddr);
        let i1 = PageTable::get_index(PageTableType::PDT, vaddr);
        if self.children[i3].is_none() {
            match alloc.allocate_zeroed() {
                Ok(f) => {
                    proof {
                        lemma_default_entry(f.0);
                        lemma_clear_entry();
                    }
                    let p = PtrTable {
                        paddr: f.0,
                        table: PageTable::new(),
                        children: empty_children(),
                    };
                    let fl = crate::table::default_flags();
                    self.root.set_entry(i3, f.0 | fl.bits());
                    self.children.set(i3, Some(p));
                },
                Err(_) => {
                    return Err(MapErr::OutOfMemory);
                },
            }
        }
        let ghost mid = *self;
        let r = match (&mut self.children[i3]) {
            Some(p) => p.map_large_at(alloc, i2, i1, paddr, flags),
            None => unreached(),
        };
        proof {
            let v = vaddr.0;
            crate::table::lemma_index_bits_bound(PAGE_MAP_BASE, 3);
            let gi3 = index_bits(v, 3) as int;
            let gi2 = index_bits(v, 2) as int;
            let gi1 = index_bits(v, 1) as int;
            let oldp = mid.children@[gi3].unwrap();
            let newp = self.children@[gi3].unwrap();
            assert(self.children@ =~= mid.children@.update(gi3, Some(newp)));
            assert(self.root == mid.root);
            assert(old(self).children@[gi3] is Some ==> mid == *old(self));
            assert(old(self).children@[gi3] is None ==> {
                &&& old(self).dir_entry(v) is None
                &&& old(self).tables_needed_large(v) == 2
                &&& oldp.needed_large_at(gi2) == 1
                &&& oldp.dir_word(gi2, gi1) is None
            });
            assert(old(self).children@[gi3] is Some ==> {
                &&& old(self).dir_entry(v) == oldp.dir_word(gi2, gi1)
                &&& old(self).tables_needed_large(v) == oldp.needed_large_at(gi2)
            });
            lemma_space_walk(*old(self), v);
            lemma_space_walk(mid, v);
            lemma_space_walk(*self, v);
            if r is Ok {
                lemma_installed_large_word(paddr.0, flags);
            }
            assert(self.wf()) by {
                assert forall|i: int|
                    0 <= i < 512 && i != Self::self_slot() implies match #[trigger] self.children@[i] {
                        Some(p) => p.wf() && entry_present(self.root.values()[i]) && entry_addr(
                            self.root.values()[i],
                        ) == p.paddr,
                        None => !entry_present(self.root.values()[i]),
                    } by {
                    if i != gi3 {
                        assert(self.children@[i] == old(self).children@[i]);
                        assert(self.root.values()[i] == old(self).root.values()[i]);
                    }
                }
            }
            assert forall|w: u64| #[trigger] self.leaf_entry(w) == old(self).leaf_entry(w) by {
                lemma_space_walk(*old(self), w);
                lemma_space_walk(mid, w);
                lemma_space_walk(*self, w);
                let k3 = index_bits(w, 3) as int;
                if k3 == gi3 {
                    assert(newp.leaf_word(
                        index_bits(w, 2) as int,
                        index_bits(w, 1) as int,
                        index_bits(w, 0) as int,
                    ) == oldp.leaf_word(
                        index_bits(w, 2) as int,
                        index_bits(w, 1) as int,
                        index_bits(w, 0) as int,
                    ));
                    assert(old(self).children@[gi3] is None ==> old(self).leaf_entry(w) is None
                        && oldp.leaf_word(
                        index_bits(w, 2) as int,
                        index_bits(w, 1) as int,
                        index_bits(w, 0) as int,
                    ) is None);
                }
            }
            assert forall|w: u64| !same_dir_slot(w, v) implies translation_unchanged(
                old(self).dir_entry(w),
                #[trigger] self.dir_entry(w),
            ) by {
                lemma_space_walk(*old(self), w);
                lemma_space_walk(mid, w);
                lemma_space_walk(*self, w);
                let k3 = index_bits(w, 3) as int;
                let k2 = index_bits(w, 2) as int;
                let k1 = index_bits(w, 1) as int;
                if k3 == gi3 {
                    if k2 != gi2 {
                        assert(newp.children@[k2] == oldp.children@[k2]);
                        assert(newp.dir_word(k2, k1) == oldp.dir_word(k2, k1));
                        assert(old(self).children@[gi3] is None ==> old(self).dir_entry(w) is None
                            && oldp.dir_word(k2, k1) is None);
                    } else {
                        assert(translation_unchanged(
                            oldp.dir_word(k2, k1),
                            newp.dir_word(k2, k1),
                        ));
                        assert(old(self).children@[gi3] is None ==> old(self).dir_entry(w) is None
                            && (oldp.dir_word(k2, k1) is None || oldp.dir_word(k2, k1) == Some(
                            0u64,
                        )));
                    }
                    lemma_clear_entry();
                }
            }
        }
        r
    }
}

/// A full row of 512 empty child slots.
fn empty_children<T>() -> (r: Vec<Option<T>>)
    ensures
        r.len() == 512,
        forall|i: int| 0 <= i < 512 ==> r@[i] is None,
{
    let mut v: Vec<Option<T>> = Vec::new();
    let mut i: usize = 0;
    while i < 512
        invariant
            i <= 512,
            v.len() == i,
            forall|j: int| 0 <= j < i ==> v@[j] is None,
        decreases 512 - i,
    {
        v.push(None);
        i = i + 1;
    }
    v
}

} // verus!
