//! The hardware translation-table model: one 64-bit word per entry, 512
//! entries per table, four table levels, and the recursive self-map address
//! composition through which every table is reachable as ordinary memory.
//!
//! The bit layout is dictated by the processor's paging format: bits 12..52
//! of a present entry hold the frame (or next-table) address, the low twelve
//! bits and bit 63 are flags.
use vstd::prelude::*;

use crate::addr::{PhyAddr, VirtAddr};
use crate::config::PAGE_MAP_BASE;

verus! {

/// Mask of the frame-address field of an entry: bits 12..52.
pub const ENTRY_ADDR_MASK: u64 = 0x000f_ffff_ffff_f000;

/// Mask of the flag bits a leaf entry may carry: bits 0..9 and bit 63.
pub const ENTRY_FLAGS_MASK: u64 = 0x8000_0000_0000_01ff;

/// One more than the largest physical address the entry format can hold.
pub const PHYS_ADDR_LIMIT: u64 = 0x0010_0000_0000_0000;

/// Flag bits of a translation entry.
#[derive(Debug, Copy, Clone, PartialEq, Eq, Structural)]
pub struct Flags {
    pub bits: u64,
}

impl Flags {
    /// Entry translates; clear entries are ignored by the walk.
    pub const PRESENT: u64 = 1;

    pub const READ_WRITE: u64 = 0x2;

    pub const ALLOW_USER: u64 = 0x4;

    pub const WRITETHROUGH: u64 = 0x8;

    pub const CACHE_DISABLE: u64 = 0x10;

    pub const ACCESSED: u64 = 0x20;

    pub const DIRTY: u64 = 0x40;

    /// At directory level: the entry maps a large page, not a further table.
    pub const PAGE_SIZE: u64 = 0x80;

    pub const GLOBAL: u64 = 0x100;

    /// Bit 63: no instruction fetch from the translated page.
    pub const NO_EXECUTE: u64 = 0x8000_0000_0000_0000;

    pub fn empty() -> (r: Flags)
        ensures
            r.bits == 0,
    {
        Flags { bits: 0 }
    }

    pub fn from_bits(bits: u64) -> (r: Flags)
        ensures
            r.bits == bits,
    {
        Flags { bits }
    }

    pub fn bits(&self) -> (r: u64)
        ensures
            r == self.bits,
    {
        self.bits
    }

    pub fn union(self, other: Flags) -> (r: Flags)
        ensures
            r.bits == self.bits | other.bits,
    {
        Flags { bits: self.bits | other.bits }
    }

    pub fn contains(self, other: Flags) -> (r: bool)
        ensures
            r == (self.bits & other.bits == other.bits),
    {
        self.bits & other.bits == other.bits
    }

    /// True when the bits fit the flag positions of a leaf entry.
    pub open spec fn valid(self) -> bool {
        self.bits & ENTRY_FLAGS_MASK == self.bits
    }
}

/// Flags every freshly installed intermediate table is given.
pub fn default_flags() -> (r: Flags)
    ensures
        r.bits == Flags::NO_EXECUTE | Flags::READ_WRITE | Flags::PRESENT,
{
    Flags { bits: Flags::NO_EXECUTE | Flags::READ_WRITE | Flags::PRESENT }
}

/// True when the word `v` has its present bit set.
pub open spec fn entry_present(v: u64) -> bool {
    v & Flags::PRESENT == Flags::PRESENT
}

/// The frame-address field of the word `v`.
pub open spec fn entry_addr(v: u64) -> u64 {
    v & ENTRY_ADDR_MASK
}

/// True when the word `v` maps a large page at directory level.
pub open spec fn entry_large(v: u64) -> bool {
    v & Flags::PAGE_SIZE == Flags::PAGE_SIZE
}

/// True when `paddr` can stand in the frame-address field of an entry.
pub open spec fn valid_frame_addr(paddr: u64) -> bool {
    paddr % 4096 == 0 && paddr < PHYS_ADDR_LIMIT
}

/// A word with the present bit or-ed in translates.
pub proof fn lemma_or_present(addr: u64, fl: u64)
    ensures
        entry_present(addr | (fl | Flags::PRESENT)),
{
    assert((addr | (fl | 1u64)) & 1u64 == 1u64) by (bit_vector);
}

/// Composing a frame address with flag bits fills the two fields
/// independently: the flags never leak into the address field nor the
/// address into the flag bits.
pub proof fn lemma_entry_compose(paddr: u64, fl: u64)
    requires
        valid_frame_addr(paddr),
        fl & ENTRY_FLAGS_MASK == fl,
    ensures
        entry_addr(paddr | fl) == paddr,
        (paddr | fl) & ENTRY_FLAGS_MASK == fl,
        entry_present(paddr | fl) == (fl & Flags::PRESENT == Flags::PRESENT),
        entry_large(paddr | fl) == (fl & Flags::PAGE_SIZE == Flags::PAGE_SIZE),
{
    assert((paddr % 4096 == 0 && paddr < 0x0010_0000_0000_0000 && fl & 0x8000_0000_0000_01ff
        == fl) ==> ((paddr | fl) & 0x000f_ffff_ffff_f000 == paddr && (paddr | fl)
        & 0x8000_0000_0000_01ff == fl && (paddr | fl) & 1 == fl & 1 && (paddr | fl) & 0x80 == fl
        & 0x80)) by (bit_vector);
}

/// An entry of a translation table: a single word holding a frame address
/// and flag bits.
#[derive(Debug, Copy, Clone, PartialEq, Eq, Structural)]
pub struct Entry {
    pub value: u64,
}

impl Entry {
    pub fn get_value(&self) -> (r: u64)
        ensures
            r == self.value,
    {
        self.value
    }

    pub fn set_value(&mut self, value: u64)
        ensures
            final(self).value == value,
    {
        self.value = value;
    }

    /// Install `addr` with `flags` or-ed in, as the hardware format lays the
    /// two out. The present bit is implied: every entry written through
    /// `set` translates.
    pub fn set(&mut self, addr: PhyAddr, flags: Flags)
        ensures
            final(self).value == addr.0 | (flags.bits | Flags::PRESENT),
            entry_present(final(self).value),
    {
        proof {
            lemma_or_present(addr.0, flags.bits);
        }
        self.value = addr.0 | (flags.bits | Flags::PRESENT);
    }

    pub fn clear(&mut self)
        ensures
            final(self).value == 0,
    {
        self.value = 0;
    }

    pub fn is_present(&self) -> (r: bool)
        ensures
            r == entry_present(self.value),
    {
        self.value & Flags::PRESENT == Flags::PRESENT
    }

    /// The frame address of the entry, with the flag bits masked out.
    pub fn base_addr(&self) -> (r: PhyAddr)
        ensures
            r.0 == entry_addr(self.value),
    {
        PhyAddr(self.value & ENTRY_ADDR_MASK)
    }
}

/// The four levels of the translation hierarchy.
#[derive(Debug, Copy, Clone, PartialEq, Eq, Structural)]
pub enum PageTableType {
    /// Page-map level-4 table: the root, level 3.
    PML4T,
    /// Page-directory-pointer table, level 2.
    PDPT,
    /// Page-directory table, level 1.
    PDT,
    /// Page table: the leaf, level 0.
    PT,
}

impl PageTableType {
    pub fn get_level(&self) -> (r: u64)
        ensures
            r == self.level(),
    {
        match self {
            PageTableType::PML4T => 3,
            PageTableType::PDPT => 2,
            PageTableType::PDT => 1,
            PageTableType::PT => 0,
        }
    }

    pub open spec fn level(self) -> u64 {
        match self {
            PageTableType::PML4T => 3,
            PageTableType::PDPT => 2,
            PageTableType::PDT => 1,
            PageTableType::PT => 0,
        }
    }
}

/// The nine address bits that index a table of level `level`.
pub open spec fn index_bits(vaddr: u64, level: u64) -> u64
    recommends
        level <= 3,
{
    (vaddr >> ((12 + 9 * level) as u64)) & 0x1ff
}

/// Every nine-bit index is below the entry count.
pub proof fn lemma_index_bits_bound(vaddr: u64, level: u64)
    ensures
        index_bits(vaddr, level) < 512,
{
    let s = (12 + 9 * level) as u64;
    assert((vaddr >> s) & 0x1ff < 512) by (bit_vector);
}

/// One translation table: exactly 512 entries, one page.
pub struct PageTable {
    pub entries: Vec<Entry>,
}

impl PageTable {
    pub open spec fn wf(self) -> bool {
        self.entries.len() == 512
    }

    /// The raw entry words of the table.
    pub open spec fn values(self) -> Seq<u64> {
        self.entries@.map_values(|e: Entry| e.value)
    }

    /// A fresh zeroed table, as the hardware expects a not-yet-filled one.
    pub fn new() -> (r: PageTable)
        ensures
            r.wf(),
            forall|i: int| 0 <= i < 512 ==> r.values()[i] == 0,
            forall|i: int| 0 <= i < 512 ==> r.entries@[i].value == 0,
    {
        let mut entries: Vec<Entry> = Vec::new();
        let mut i: usize = 0;
        while i < 512
            invariant
                i <= 512,
                entries.len() == i,
                forall|j: int| 0 <= j < i ==> entries@[j].value == 0,
            decreases 512 - i,
        {
            entries.push(Entry { value: 0 });
            i = i + 1;
        }
        PageTable { entries }
    }

    /// Store `value` into entry `i`, leaving every other entry alone.
    pub fn set_entry(&mut self, i: usize, value: u64)
        requires
            old(self).wf(),
            i < 512,
        ensures
            final(self).wf(),
            final(self).entries@ == old(self).entries@.update(i as int, Entry { value }),
            final(self).values() =~= old(self).values().update(i as int, value),
            final(self).values()[i as int] == value,
            forall|j: int|
                0 <= j < 512 && j != i ==> final(self).values()[j] == old(self).values()[j],
    {
        let e = &mut self.entries[i];
        e.set_value(value);
        proof {
            assert(self.entries@ =~= old(self).entries@.update(i as int, Entry { value }));
            assert(self.values() =~= old(self).values().update(i as int, value));
        }
    }

    /// The index a virtual address selects in a table of type `table_type`.
    pub fn get_index(table_type: PageTableType, addr: VirtAddr) -> (r: usize)
        ensures
            r == index_bits(addr.0, table_type.level()),
            r < 512,
    {
        let shift: u64 = 12 + 9 * table_type.get_level();
        proof {
            lemma_index_bits_bound(addr.0, table_type.level());
        }
        ((addr.0 >> shift) & 0x1ff) as usize
    }
}

/// The virtual address, inside the self-map window, of the table reached by
/// composing the three nine-bit indices `pdpt`, `pdt`, `pt`.
///
/// The window base contributes the root-level index, so the composed address
/// walks: root, then table `pdpt`, then table `pdt`, ending on the page of
/// table `pt`.
pub fn table_addr(pdpt: u64, pdt: u64, pt: u64) -> (r: VirtAddr)
    requires
        pdpt < 512,
        pdt < 512,
        pt < 512,
    ensures
        r.0 == table_addr_spec(pdpt, pdt, pt),
{
    VirtAddr(PAGE_MAP_BASE | (pdpt << 30) | (pdt << 21) | (pt << 12))
}

pub open spec fn table_addr_spec(pdpt: u64, pdt: u64, pt: u64) -> u64 {
    PAGE_MAP_BASE | (pdpt << 30) | (pdt << 21) | (pt << 12)
}

/// The composed self-map address decomposes back into its three indices, the
/// root-level index of the window base, and a zero page offset.
pub proof fn lemma_table_addr_indices(pdpt: u64, pdt: u64, pt: u64)
    requires
        pdpt < 512,
        pdt < 512,
        pt < 512,
    ensures
        index_bits(table_addr_spec(pdpt, pdt, pt), 3) == index_bits(PAGE_MAP_BASE, 3),
        index_bits(table_addr_spec(pdpt, pdt, pt), 2) == pdpt,
        index_bits(table_addr_spec(pdpt, pdt, pt), 1) == pdt,
        index_bits(table_addr_spec(pdpt, pdt, pt), 0) == pt,
        table_addr_spec(pdpt, pdt, pt) % 4096 == 0,
{
    let r = table_addr_spec(pdpt, pdt, pt);
    assert(index_bits(r, 3) == (r >> 39u64) & 0x1ff);
    assert(index_bits(r, 2) == (r >> 30u64) & 0x1ff);
    assert(index_bits(r, 1) == (r >> 21u64) & 0x1ff);
    assert(index_bits(r, 0) == (r >> 12u64) & 0x1ff);
    assert((pdpt < 512 && pdt < 512 && pt < 512) ==> {
        let a = 0xffff_e900_0000_0000u64 | (pdpt << 30) | (pdt << 21) | (pt << 12);
        ((a >> 39u64) & 0x1ff == (0xffff_e900_0000_0000u64 >> 39u64) & 0x1ff) && ((a >> 30u64)
            & 0x1ff == pdpt) && ((a >> 21u64) & 0x1ff == pdt) && ((a >> 12u64) & 0x1ff == pt) && a
            % 4096 == 0
    }) by (bit_vector);
}

/// The root-level index of the self-map window base: the slot of the root
/// table that points back at the root table itself.
pub fn self_map_index() -> (r: usize)
    ensures
        r == index_bits(PAGE_MAP_BASE, 3),
        r < 512,
{
    proof {
        lemma_index_bits_bound(PAGE_MAP_BASE, 3);
    }
    PageTable::get_index(PageTableType::PML4T, VirtAddr(PAGE_MAP_BASE))
}

/// The virtual address, inside the self-map window, of the table of type
/// `table_type` that translates `addr`: the deeper the target table, the
/// more of `addr`'s own indices take part in the composition.
pub fn get_table_addr(table_type: PageTableType, addr: VirtAddr) -> (r: VirtAddr)
    ensures
        r.0 == get_table_addr_spec(table_type, addr.0),
{
    let root_idx_usize = self_map_index();
    let root_idx = root_idx_usize as u64;
    proof {
        lemma_index_bits_bound(addr.0, 3);
        lemma_index_bits_bound(addr.0, 2);
        lemma_index_bits_bound(addr.0, 1);
    }
    match table_type {
        PageTableType::PML4T => table_addr(root_idx, root_idx, root_idx),
        PageTableType::PDPT => table_addr(
            root_idx,
            root_idx,
            PageTable::get_index(PageTableType::PML4T, addr) as u64,
        ),
        PageTableType::PDT => table_addr(
            root_idx,
            PageTable::get_index(PageTableType::PML4T, addr) as u64,
            PageTable::get_index(PageTableType::PDPT, addr) as u64,
        ),
        PageTableType::PT => table_addr(
            PageTable::get_index(PageTableType::PML4T, addr) as u64,
            PageTable::get_index(PageTableType::PDPT, addr) as u64,
            PageTable::get_index(PageTableType::PDT, addr) as u64,
        ),
    }
}

pub open spec fn get_table_addr_spec(table_type: PageTableType, vaddr: u64) -> u64 {
    let s = index_bits(PAGE_MAP_BASE, 3);
    match table_type {
        PageTableType::PML4T => table_addr_spec(s, s, s),
        PageTableType::PDPT => table_addr_spec(s, s, index_bits(vaddr, 3)),
        PageTableType::PDT => table_addr_spec(s, index_bits(vaddr, 3), index_bits(vaddr, 2)),
        PageTableType::PT => table_addr_spec(
            index_bits(vaddr, 3),
            index_bits(vaddr, 2),
            index_bits(vaddr, 1),
        ),
    }
}

} // verus!
