use lambix_mem::addr::{PhyAddr, VirtAddr};
use lambix_mem::config;
use lambix_mem::table::{self, Entry, Flags, PageTable, PageTableType};

#[test]
fn address_alignment_and_arithmetic() {
    let a = PhyAddr::new(0x1001);
    assert!(!a.is_aligned(4096));
    assert_eq!(a.align_to(4096).0, 0x2000);
    assert_eq!(PhyAddr::new(0x2000).align_to(4096).0, 0x2000);
    assert!(PhyAddr::new(0x2000).is_aligned(4096));
    assert!(PhyAddr::null().is_null());
    assert!(!a.is_null());
    assert_eq!(a.wrapping_add(0xfff).0, 0x2000);
    assert_eq!(PhyAddr::new(u64::MAX).wrapping_add(1).0, 0);
    assert_eq!(PhyAddr::new(4).wrapping_sub(8).0, u64::MAX - 3);
    assert_eq!(PhyAddr::new(0x1000).distance(PhyAddr::new(0x3000)), 0x2000);
    assert_eq!(PhyAddr::new(0x3000).distance(PhyAddr::new(0x1000)), 0);
    let v = VirtAddr::new(0xffff_8000_0000_0042);
    assert!(!v.is_aligned(4));
    assert_eq!(v.align_to(0x100).0, 0xffff_8000_0000_0100);
}

#[test]
fn flags_operations() {
    let rw = Flags::from_bits(Flags::READ_WRITE);
    let nx = Flags::from_bits(Flags::NO_EXECUTE);
    let both = rw.union(nx);
    assert_eq!(both.bits(), Flags::READ_WRITE | Flags::NO_EXECUTE);
    assert!(both.contains(rw));
    assert!(both.contains(nx));
    assert!(!rw.contains(nx));
    assert_eq!(Flags::empty().bits(), 0);
    let def = table::default_flags();
    assert_eq!(
        def.bits(),
        Flags::NO_EXECUTE | Flags::READ_WRITE | Flags::PRESENT
    );
}

#[test]
fn entry_bit_layout() {
    let mut e = Entry { value: 0 };
    assert!(!e.is_present());
    // the present bit is implied by every set
    e.set(
        PhyAddr::new(0x20_3000),
        Flags::from_bits(Flags::READ_WRITE | Flags::NO_EXECUTE),
    );
    assert!(e.is_present());
    assert_eq!(e.base_addr().0, 0x20_3000);
    assert_eq!(
        e.get_value(),
        0x20_3000 | Flags::PRESENT | Flags::READ_WRITE | Flags::NO_EXECUTE
    );
    e.clear();
    assert_eq!(e.get_value(), 0);
    assert!(!e.is_present());
    e.set_value(0x5000 | 1);
    assert!(e.is_present());
    assert_eq!(e.base_addr().0, 0x5000);
}

#[test]
fn index_extraction_per_level() {
    // indices chosen bit by bit: i3=1, i2=2, i1=3, i0=4
    let v = VirtAddr::new((1u64 << 39) | (2u64 << 30) | (3u64 << 21) | (4u64 << 12));
    assert_eq!(PageTable::get_index(PageTableType::PML4T, v), 1);
    assert_eq!(PageTable::get_index(PageTableType::PDPT, v), 2);
    assert_eq!(PageTable::get_index(PageTableType::PDT, v), 3);
    assert_eq!(PageTable::get_index(PageTableType::PT, v), 4);
    assert_eq!(PageTableType::PML4T.get_level(), 3);
    assert_eq!(PageTableType::PT.get_level(), 0);
}

#[test]
fn self_map_window_composition() {
    // the window base selects root slot 466
    assert_eq!(table::self_map_index(), 466);
    // composing three indices lands inside the window with each index in place
    let t = table::table_addr(1, 2, 3);
    assert_eq!(t.0, config::PAGE_MAP_BASE | (1 << 30) | (2 << 21) | (3 << 12));
    // the root table's own page: every step through the window slot
    let root = table::get_table_addr(PageTableType::PML4T, VirtAddr::new(0));
    assert_eq!(
        root.0,
        config::PAGE_MAP_BASE | (466 << 30) | (466 << 21) | (466 << 12)
    );
    // the leaf table covering v is addressed by v's upper three indices
    let v = VirtAddr::new((1u64 << 39) | (2u64 << 30) | (3u64 << 21) | (4u64 << 12));
    let pt = table::get_table_addr(PageTableType::PT, v);
    assert_eq!(pt.0, config::PAGE_MAP_BASE | (1 << 30) | (2 << 21) | (3 << 12));
    let pdt = table::get_table_addr(PageTableType::PDT, v);
    assert_eq!(pdt.0, config::PAGE_MAP_BASE | (466 << 30) | (1 << 21) | (2 << 12));
}

#[test]
fn fresh_table_is_zeroed() {
    let t = PageTable::new();
    assert_eq!(t.entries.len(), 512);
    for e in t.entries.iter() {
        assert_eq!(e.value, 0);
    }
}

#[test]
fn layout_constants_are_consistent() {
    assert_eq!(config::PAGE_SIZE, 4096);
    assert_eq!(config::ENTRY_COUNT, 512);
    assert_eq!(config::KERNELSPACE_BASE, config::TOP - (1 << 47) + 1);
    assert_eq!(
        config::PHYSICAL_MEMORY_MAPPING_BASE,
        config::KERNELSPACE_BASE + (8 << 40)
    );
    assert_eq!(
        config::PHYSICAL_MEMORY_MAPPING_END,
        config::PHYSICAL_MEMORY_MAPPING_BASE + (64 << 40)
    );
    assert_eq!(config::VMALLOC_BASE, config::PHYSICAL_MEMORY_MAPPING_END + (1 << 39));
    assert_eq!(config::VMALLOC_END, config::VMALLOC_BASE + (32 << 40));
    assert_eq!(config::PAGE_MAP_BASE, config::VMALLOC_END + (1 << 39));
    assert_eq!(config::PAGE_MAP_END, config::PAGE_MAP_BASE + (1 << 40));
    assert_eq!(config::KERNEL_START, config::PAGE_MAP_END + (1 << 39));
    assert_eq!(config::KERNEL_END, config::KERNEL_START + (1 << 29));
}
