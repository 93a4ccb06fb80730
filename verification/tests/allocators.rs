use lambix_mem::addr::{PhyAddr, VirtAddr};
use lambix_mem::heap::InnerAllocator;
use lambix_mem::linear::EarlyAllocator;
use lambix_mem::memmap::{Memory, MemoryType};
use lambix_mem::page_alloc::{init_page_alloc, page_alloc};
use lambix_mem::page_allocator::{AllocationError, Allocator};
use lambix_mem::valloc::{self, VMem};

fn one_region(base: u64, length: u64) -> Vec<Memory> {
    vec![Memory {
        base_addr: PhyAddr::new(base),
        length,
        mem_type: MemoryType::AvailableRAM,
    }]
}

#[test]
fn first_frame_skips_kernel_image() {
    // memory map [{0x100000, 0x400000, AvailableRAM}], kernel at
    // [0x100000, 0x120000): the first frame must land just past the kernel
    let entries = one_region(0x10_0000, 0x40_0000);
    let kernel = (PhyAddr::new(0x10_0000), PhyAddr::new(0x12_0000));
    let boot_info = (PhyAddr::new(0), PhyAddr::new(0));
    let mut apd = init_page_alloc(&entries, kernel, boot_info);
    let first = page_alloc(&mut apd).unwrap();
    assert_eq!(first.base_addr.0, 0x12_0000);
    assert_eq!(first.base_addr.0 % 4096, 0);
}

#[test]
fn consecutive_frames_are_distinct_and_avoid_exclusions() {
    let entries = one_region(0x10_0000, 0x40_0000);
    let kernel = (PhyAddr::new(0x10_0000), PhyAddr::new(0x12_0000));
    let boot_info = (PhyAddr::new(0x13_0000), PhyAddr::new(0x13_1000));
    let mut apd = init_page_alloc(&entries, kernel, boot_info);
    let mut seen = Vec::new();
    for _ in 0..16 {
        let p = page_alloc(&mut apd).unwrap();
        let f = p.base_addr.0;
        assert!(!seen.contains(&f), "frame handed out twice");
        // never overlapping the kernel image or the boot-info block
        assert!(f + 4096 <= 0x10_0000 || f >= 0x12_0000);
        assert!(f + 4096 <= 0x13_0000 || f >= 0x13_1000);
        seen.push(f);
    }
}

#[test]
fn bootstrap_allocator_exhausts_cleanly() {
    // one region of exactly three pages yields exactly three frames
    let entries = one_region(0x10_0000, 3 * 4096);
    let kernel = (PhyAddr::new(0), PhyAddr::new(0));
    let boot_info = (PhyAddr::new(0), PhyAddr::new(0));
    let mut apd = init_page_alloc(&entries, kernel, boot_info);
    assert_eq!(page_alloc(&mut apd).unwrap().base_addr.0, 0x10_0000);
    assert_eq!(page_alloc(&mut apd).unwrap().base_addr.0, 0x10_1000);
    assert_eq!(page_alloc(&mut apd).unwrap().base_addr.0, 0x10_2000);
    assert_eq!(page_alloc(&mut apd), Err(AllocationError::OutOfMemory));
    // once exhausted, it stays exhausted
    assert_eq!(page_alloc(&mut apd), Err(AllocationError::OutOfMemory));
}

#[test]
fn bootstrap_allocator_keeps_ram_regions_in_firmware_order() {
    let entries = vec![
        Memory {
            base_addr: PhyAddr::new(0x10_0000),
            length: 0x10_0000,
            mem_type: MemoryType::Reserved,
        },
        Memory {
            base_addr: PhyAddr::new(0x20_0000),
            length: 0x2000,
            mem_type: MemoryType::AvailableRAM,
        },
        // listed behind the previous one: recorded all the same, and
        // scanned in the firmware's order
        Memory {
            base_addr: PhyAddr::new(0x18_0000),
            length: 0x2000,
            mem_type: MemoryType::AvailableRAM,
        },
    ];
    let kernel = (PhyAddr::new(0), PhyAddr::new(0));
    let boot_info = (PhyAddr::new(0), PhyAddr::new(0));
    let mut apd = init_page_alloc(&entries, kernel, boot_info);
    // the reserved region is not RAM; both RAM regions are kept
    assert_eq!(apd.mem_sections.len(), 2);
    assert_eq!(page_alloc(&mut apd).unwrap().base_addr.0, 0x20_0000);
    assert_eq!(page_alloc(&mut apd).unwrap().base_addr.0, 0x20_1000);
    assert_eq!(page_alloc(&mut apd).unwrap().base_addr.0, 0x18_0000);
    assert_eq!(page_alloc(&mut apd).unwrap().base_addr.0, 0x18_1000);
    assert_eq!(page_alloc(&mut apd), Err(AllocationError::OutOfMemory));
}

#[test]
fn early_allocator_implements_the_common_interface() {
    let entries = one_region(0x10_0000, 0x5000);
    let kernel = (PhyAddr::new(0), PhyAddr::new(0));
    let boot_info = (PhyAddr::new(0), PhyAddr::new(0));
    let apd = init_page_alloc(&entries, kernel, boot_info);
    let mut early = EarlyAllocator::new(apd);
    let a = early.allocate().unwrap();
    let b = early.allocate_zeroed().unwrap();
    assert_ne!(a.0, b.0);
    assert_eq!(early.total_memory(), 0x5000);
    let page = early.allocate_page().unwrap();
    assert_eq!(page.paddr().0, page.vaddr().0);
}

#[test]
fn heap_bump_respects_size_and_alignment() {
    // a window detached from the mapping machinery, for the arithmetic alone
    let base = lambix_mem::config::PHYSICAL_MEMORY_MAPPING_BASE;
    let mut inner = InnerAllocator::new(VirtAddr::new(base), VirtAddr::new(base + 0x1000));
    let a = inner.allocate(10, 1).unwrap();
    assert_eq!(a.0, base);
    let b = inner.allocate(16, 64).unwrap();
    assert_eq!(b.0 % 64, 0);
    assert!(b.0 >= a.0 + 10);
    let c = inner.allocate(1, 1).unwrap();
    assert!(c.0 >= b.0 + 16);
    // never overlapping: every later block starts past the earlier one
    assert!(a.0 + 10 <= b.0 && b.0 + 16 <= c.0);
    // an over-sized request fails and moves nothing
    assert_eq!(
        inner.allocate(0x10_0000, 1),
        Err(AllocationError::OutOfMemory)
    );
    let d = inner.allocate(1, 1).unwrap();
    assert_eq!(d.0, c.0 + 1);
}

#[test]
fn virtual_range_reservations_never_overlap() {
    let mut arena = valloc::init();
    assert_eq!(arena.range_start.0, lambix_mem::config::VMALLOC_BASE);
    assert_eq!(arena.range_end.0, lambix_mem::config::VMALLOC_END);
    let sizes: [u64; 4] = [1, 3, 2, 5];
    let mut spans: Vec<(u64, u64)> = Vec::new();
    for n in sizes.iter() {
        let m = VMem::allocate(&mut arena, *n).unwrap();
        assert_eq!(m.page_count(), *n);
        assert_eq!(m.base_addr().0 % 4096, 0);
        let start = m.base_addr().0;
        let end = start + 4096 * n;
        for (s, e) in spans.iter() {
            assert!(end <= *s || *e <= start, "overlapping reservations");
        }
        spans.push((start, end));
        let (rs, re) = m.range();
        assert_eq!(rs.0, start);
        assert_eq!(re.0, end);
    }
    // leak and rebuild round trip
    let m = VMem::allocate(&mut arena, 2).unwrap();
    let (b, n) = VMem::leak(m);
    let m2 = VMem::from_raw_parts(b, n);
    assert_eq!(m2.base_addr(), b);
    assert_eq!(m2.page_count(), 2);
    // the no-op dealloc really is one
    let cursor_before = arena.cursor.0;
    arena.dealloc(b, n);
    assert_eq!(arena.cursor.0, cursor_before);
}

#[test]
fn exhausted_arena_reports_out_of_virtual_memory() {
    let base = lambix_mem::config::VMALLOC_BASE;
    let mut arena =
        lambix_mem::valloc::VAllocator::new(VirtAddr::new(base), VirtAddr::new(base + 0x3000));
    assert!(VMem::allocate(&mut arena, 2).is_ok());
    // the span must end strictly inside the arena
    assert_eq!(
        VMem::allocate(&mut arena, 1),
        Err(AllocationError::OutOfVirtualMemory)
    );
}
