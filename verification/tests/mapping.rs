use lambix_mem::addr::{PhyAddr, VirtAddr};
use lambix_mem::linear::EarlyAllocator;
use lambix_mem::memmap::{Memory, MemoryType};
use lambix_mem::page_alloc::init_page_alloc;
use lambix_mem::paging::{AddressSpace, MapErr};
use lambix_mem::table::{Flags, PageTable, PageTableType};

fn fresh_space() -> AddressSpace {
    let mut s = AddressSpace::new(PhyAddr::new(0x1000));
    s.init();
    s
}

fn fresh_allocator(pages: u64) -> EarlyAllocator {
    let entries = vec![Memory {
        base_addr: PhyAddr::new(0x10_0000),
        length: pages * 4096,
        mem_type: MemoryType::AvailableRAM,
    }];
    let kernel = (PhyAddr::new(0), PhyAddr::new(0));
    let boot_info = (PhyAddr::new(0), PhyAddr::new(0));
    EarlyAllocator::new(init_page_alloc(&entries, kernel, boot_info))
}

fn rw() -> Flags {
    Flags::from_bits(Flags::READ_WRITE)
}

const VIRT: u64 = 0xffff_ff80_0000_0000;

#[test]
fn map_then_lookup_returns_the_frame() {
    let mut s = fresh_space();
    let mut alloc = fresh_allocator(8);
    s.map4k(&mut alloc, VirtAddr::new(VIRT), PhyAddr::new(0x20_0000), rw())
        .unwrap();
    assert_eq!(
        s.get_physical_address(VirtAddr::new(VIRT)),
        Ok(PhyAddr::new(0x20_0000))
    );
    // the in-page offset bits ride along
    assert_eq!(
        s.get_physical_address(VirtAddr::new(VIRT + 0x123)),
        Ok(PhyAddr::new(0x20_0123))
    );
}

#[test]
fn remapping_a_mapped_page_is_rejected_and_changes_nothing() {
    let mut s = fresh_space();
    let mut alloc = fresh_allocator(8);
    s.map4k(&mut alloc, VirtAddr::new(VIRT), PhyAddr::new(0x20_0000), rw())
        .unwrap();
    let second = s.map4k(
        &mut alloc,
        VirtAddr::new(VIRT),
        PhyAddr::new(0x30_0000),
        rw(),
    );
    assert_eq!(second, Err(MapErr::AlreadyMapped));
    // the first translation is untouched
    assert_eq!(
        s.get_physical_address(VirtAddr::new(VIRT)),
        Ok(PhyAddr::new(0x20_0000))
    );
}

#[test]
fn unmap_returns_the_frame_and_clears_the_translation() {
    // map, unmap: the frame comes back, the entry is cleared, and the same
    // pair maps again
    let mut s = fresh_space();
    let mut alloc = fresh_allocator(8);
    s.map4k(&mut alloc, VirtAddr::new(VIRT), PhyAddr::new(0x20_0000), rw())
        .unwrap();
    assert_eq!(
        s.unmap4k(VirtAddr::new(VIRT)),
        Ok(PhyAddr::new(0x20_0000))
    );
    assert_eq!(
        s.get_physical_address(VirtAddr::new(VIRT)),
        Err(MapErr::NotMapped)
    );
    // the cleared leaf entry really is zero
    let e = s.get_pt_entry(VirtAddr::new(VIRT)).unwrap();
    assert_eq!(e.get_value(), 0);
    assert_eq!(
        s.map4k(&mut alloc, VirtAddr::new(VIRT), PhyAddr::new(0x20_0000), rw()),
        Ok(())
    );
    assert_eq!(
        s.get_physical_address(VirtAddr::new(VIRT)),
        Ok(PhyAddr::new(0x20_0000))
    );
}

#[test]
fn unmapping_a_never_mapped_address_changes_nothing() {
    let mut s = fresh_space();
    let before = s.root.entries.iter().map(|e| e.value).collect::<Vec<_>>();
    assert_eq!(s.unmap4k(VirtAddr::new(VIRT)), Err(MapErr::NotMapped));
    let after = s.root.entries.iter().map(|e| e.value).collect::<Vec<_>>();
    assert_eq!(before, after);
    assert!(s.children.iter().all(|c| c.is_none()));
}

#[test]
fn unaligned_or_oversized_frames_are_rejected() {
    let mut s = fresh_space();
    let mut alloc = fresh_allocator(8);
    assert_eq!(
        s.map4k(&mut alloc, VirtAddr::new(VIRT), PhyAddr::new(0x20_0123), rw()),
        Err(MapErr::InvalidPhyAddr)
    );
    assert_eq!(
        s.map4k(
            &mut alloc,
            VirtAddr::new(VIRT),
            PhyAddr::new(0x0010_0000_0000_0000),
            rw()
        ),
        Err(MapErr::InvalidPhyAddr)
    );
    // nothing was installed along the way
    assert_eq!(
        s.get_physical_address(VirtAddr::new(VIRT)),
        Err(MapErr::NotMapped)
    );
}

#[test]
fn mapping_without_frames_reports_out_of_memory() {
    let mut s = fresh_space();
    let mut empty = fresh_allocator(0);
    assert_eq!(
        s.map4k(&mut empty, VirtAddr::new(VIRT), PhyAddr::new(0x20_0000), rw()),
        Err(MapErr::OutOfMemory)
    );
    assert_eq!(
        s.get_physical_address(VirtAddr::new(VIRT)),
        Err(MapErr::NotMapped)
    );
}

#[test]
fn large_page_removal_distinguishes_its_errors() {
    let mut s = fresh_space();
    let mut alloc = fresh_allocator(8);
    // nothing there at all
    assert_eq!(s.unmap2m(VirtAddr::new(VIRT)), Err(MapErr::NotMapped));
    // a 4K table hierarchy is not a large page
    s.map4k(&mut alloc, VirtAddr::new(VIRT), PhyAddr::new(0x20_0000), rw())
        .unwrap();
    assert_eq!(s.unmap2m(VirtAddr::new(VIRT)), Err(MapErr::Is4KMapped));
    // the 4K translation is untouched by the failed attempt
    assert_eq!(
        s.get_physical_address(VirtAddr::new(VIRT)),
        Ok(PhyAddr::new(0x20_0000))
    );
}

#[test]
fn self_map_slot_points_back_at_the_root() {
    let s = fresh_space();
    let slot = lambix_mem::table::self_map_index();
    let word = s.root.entries[slot].value;
    // present, writable, non-executable, and the root's own frame
    assert_eq!(
        word,
        0x1000 | Flags::PRESENT | Flags::READ_WRITE | Flags::NO_EXECUTE
    );
    assert_eq!(s.root.entries[slot].base_addr().0, s.root_paddr);
}

#[test]
fn self_map_composed_walk_reaches_the_leaf_table() {
    // the round trip of the self-map: walking the composed address of the
    // leaf table through the real entries lands on the leaf table's frame
    let mut s = fresh_space();
    let mut alloc = fresh_allocator(8);
    let v = VirtAddr::new(VIRT);
    s.map4k(&mut alloc, v, PhyAddr::new(0x20_0000), rw()).unwrap();

    let w = lambix_mem::table::get_table_addr(PageTableType::PT, v);
    // step 1: the window slot sends the walk back to the root
    let i3 = PageTable::get_index(PageTableType::PML4T, w);
    assert_eq!(i3, lambix_mem::table::self_map_index());
    assert_eq!(s.root.entries[i3].base_addr().0, s.root_paddr);
    // step 2: the root again, now under v's own root index
    let i2 = PageTable::get_index(PageTableType::PDPT, w);
    assert_eq!(i2, PageTable::get_index(PageTableType::PML4T, v));
    let p = s.children[i2].as_ref().unwrap();
    assert_eq!(s.root.entries[i2].base_addr().0, p.paddr);
    // step 3: v's directory-pointer table
    let i1 = PageTable::get_index(PageTableType::PDT, w);
    assert_eq!(i1, PageTable::get_index(PageTableType::PDPT, v));
    let d = p.children[i1].as_ref().unwrap();
    assert_eq!(p.table.entries[i1].base_addr().0, d.paddr);
    // step 4: v's directory entry holds the leaf table's frame
    let i0 = PageTable::get_index(PageTableType::PT, w);
    assert_eq!(i0, PageTable::get_index(PageTableType::PDT, v));
    let l = d.children[i0].as_ref().unwrap();
    assert_eq!(d.table.entries[i0].base_addr().0, l.paddr);
}

#[test]
fn mappings_in_different_slots_do_not_disturb_each_other() {
    let mut s = fresh_space();
    let mut alloc = fresh_allocator(16);
    let v2 = VIRT + 4096;
    s.map4k(&mut alloc, VirtAddr::new(VIRT), PhyAddr::new(0x20_0000), rw())
        .unwrap();
    s.map4k(&mut alloc, VirtAddr::new(v2), PhyAddr::new(0x30_0000), rw())
        .unwrap();
    assert_eq!(
        s.get_physical_address(VirtAddr::new(VIRT)),
        Ok(PhyAddr::new(0x20_0000))
    );
    assert_eq!(
        s.get_physical_address(VirtAddr::new(v2)),
        Ok(PhyAddr::new(0x30_0000))
    );
    s.unmap4k(VirtAddr::new(VIRT)).unwrap();
    assert_eq!(
        s.get_physical_address(VirtAddr::new(v2)),
        Ok(PhyAddr::new(0x30_0000))
    );
}

#[test]
fn large_page_round_trip() {
    let mut s = fresh_space();
    let mut alloc = fresh_allocator(8);
    // the boot code's 2MB identity mapping of low memory, then its removal
    s.map2m(&mut alloc, VirtAddr::new(0), PhyAddr::new(0), rw())
        .unwrap();
    assert_eq!(
        s.map2m(&mut alloc, VirtAddr::new(0), PhyAddr::new(0x20_0000), rw()),
        Err(MapErr::AlreadyMapped)
    );
    assert_eq!(s.unmap2m(VirtAddr::new(0)), Ok(()));
    assert_eq!(s.unmap2m(VirtAddr::new(0)), Err(MapErr::NotMapped));
    // after removal the slot is free again
    assert_eq!(
        s.map2m(&mut alloc, VirtAddr::new(0), PhyAddr::new(0x40_0000), rw()),
        Ok(())
    );
}

#[test]
fn large_page_frames_must_be_two_megabyte_aligned() {
    let mut s = fresh_space();
    let mut alloc = fresh_allocator(8);
    assert_eq!(
        s.map2m(&mut alloc, VirtAddr::new(0), PhyAddr::new(0x10_0000), rw()),
        Err(MapErr::InvalidPhyAddr)
    );
}

#[test]
fn mapping_a_large_page_without_frames_reports_out_of_memory() {
    let mut s = fresh_space();
    let mut empty = fresh_allocator(0);
    assert_eq!(
        s.map2m(&mut empty, VirtAddr::new(0), PhyAddr::new(0), rw()),
        Err(MapErr::OutOfMemory)
    );
}


#[test]
fn mapping_implies_the_present_bit() {
    // the present bit is ORed in by every set: flags without it still map
    let mut s = fresh_space();
    let mut alloc = fresh_allocator(8);
    s.map4k(
        &mut alloc,
        VirtAddr::new(VIRT),
        PhyAddr::new(0x20_0000),
        Flags::empty(),
    )
    .unwrap();
    assert_eq!(
        s.get_physical_address(VirtAddr::new(VIRT)),
        Ok(PhyAddr::new(0x20_0000))
    );
    let e = s.get_pt_entry(VirtAddr::new(VIRT)).unwrap();
    assert_eq!(e.get_value(), 0x20_0000 | Flags::PRESENT);
}

#[test]
fn fresh_intermediate_tables_carry_the_default_word() {
    let mut s = fresh_space();
    let mut alloc = fresh_allocator(8);
    let v = VirtAddr::new(VIRT);
    s.map4k(&mut alloc, v, PhyAddr::new(0x20_0000), rw()).unwrap();
    let def = Flags::PRESENT | Flags::READ_WRITE | Flags::NO_EXECUTE;
    let i3 = PageTable::get_index(PageTableType::PML4T, v);
    let i2 = PageTable::get_index(PageTableType::PDPT, v);
    let i1 = PageTable::get_index(PageTableType::PDT, v);
    let p = s.children[i3].as_ref().unwrap();
    assert_eq!(s.root.entries[i3].value, p.paddr | def);
    let d = p.children[i2].as_ref().unwrap();
    assert_eq!(p.table.entries[i2].value, d.paddr | def);
    let l = d.children[i1].as_ref().unwrap();
    assert_eq!(d.table.entries[i1].value, l.paddr | def);
    // the fresh leaf table's other words are clear
    let i0 = PageTable::get_index(PageTableType::PT, v);
    for (k, e) in l.table.entries.iter().enumerate() {
        if k != i0 {
            assert_eq!(e.value, 0);
        }
    }
}
