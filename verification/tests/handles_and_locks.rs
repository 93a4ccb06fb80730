use lambix_mem::addr::{PhyAddr, VirtAddr};
use lambix_mem::config;
use lambix_mem::heap;
use lambix_mem::linear::EarlyAllocator;
use lambix_mem::memmap::{Memory, MemoryType};
use lambix_mem::page_alloc::init_page_alloc;
use lambix_mem::page_allocator::Allocator;
use lambix_mem::paging::{AddressSpace, MapErr};
use lambix_mem::pool::DefaultAllocator;
use lambix_mem::spinlock::Spinlock;
use lambix_mem::static_spinlock::StaticSpinlock;
use lambix_mem::sync::Mutex;
use lambix_mem::table::Flags;
use lambix_mem::valloc;
use lambix_mem::vbox::VBox;
use lambix_mem::vbuffer::VBuffer;

fn fresh_space() -> AddressSpace {
    let mut s = AddressSpace::new(PhyAddr::new(0x1000));
    s.init();
    s
}

fn fresh_allocator(pages: u64) -> EarlyAllocator {
    let entries = vec![Memory {
        base_addr: PhyAddr::new(0x10_0000),
        length: pages * 4096,
        mem_type: MemoryType::AvailableRAM,
    }];
    let kernel = (PhyAddr::new(0), PhyAddr::new(0));
    let boot_info = (PhyAddr::new(0), PhyAddr::new(0));
    EarlyAllocator::new(init_page_alloc(&entries, kernel, boot_info))
}

#[test]
fn buffer_handle_maps_and_releases_its_pages() {
    let mut s = fresh_space();
    let mut arena = valloc::init();
    let mut alloc = fresh_allocator(32);
    // 0x2800 bytes starting 0x800 into a frame touch three pages
    let b = VBuffer::with_flags(
        &mut s,
        &mut arena,
        &mut alloc,
        PhyAddr::new(0x20_0800),
        0x2800,
        Flags::from_bits(Flags::READ_WRITE),
    )
    .unwrap();
    assert_eq!(b.size(), 0x2800);
    assert_eq!(b.as_ptr().0, config::VMALLOC_BASE + 0x800);
    assert_eq!(b.as_mut_ptr().0, b.as_ptr().0);
    // the handle's first byte reaches the requested physical byte
    assert_eq!(
        s.get_physical_address(b.as_ptr()),
        Ok(PhyAddr::new(0x20_0800))
    );
    // all three pages are backed, in order
    for i in 0..3u64 {
        assert_eq!(
            s.get_physical_address(VirtAddr::new(config::VMALLOC_BASE + 4096 * i)),
            Ok(PhyAddr::new(0x20_0000 + 4096 * i))
        );
    }
    // leak and rebuild, then release: every page is gone again
    let (addr, size) = VBuffer::leak(b);
    let b2 = VBuffer::from_raw(addr, size);
    b2.release(&mut s);
    for i in 0..3u64 {
        assert_eq!(
            s.get_physical_address(VirtAddr::new(config::VMALLOC_BASE + 4096 * i)),
            Err(MapErr::NotMapped)
        );
    }
}

#[test]
fn value_handle_is_sized_by_its_type() {
    let mut s = fresh_space();
    let mut arena = valloc::init();
    let mut alloc = fresh_allocator(32);
    let vb: VBox<[u8; 4096]> = VBox::new(&mut s, &mut arena, &mut alloc, PhyAddr::new(0x40_0000))
        .unwrap();
    assert_eq!(vb.buffer.size(), 4096);
    let addr = VBox::into_raw(vb);
    assert_eq!(addr.0, config::VMALLOC_BASE);
    assert_eq!(s.get_physical_address(addr), Ok(PhyAddr::new(0x40_0000)));
    let vb2: VBox<[u8; 4096]> = VBox::from_raw(addr);
    vb2.release(&mut s);
    assert_eq!(s.get_physical_address(addr), Err(MapErr::NotMapped));
}

#[test]
fn heap_grows_over_the_pool_window_and_serves_bytes() {
    let mut s = fresh_space();
    let mut early = fresh_allocator(16);
    let mut la = heap::init(&mut s, &mut early).unwrap();
    assert_eq!(la.page_size(), 4096);
    assert_eq!(la.inner.memory_start.0, config::PHYSICAL_MEMORY_MAPPING_BASE);
    // seeding took four frames (data page plus three tables); every frame
    // after that backs one more window page
    assert_eq!(
        la.inner.memory_end.0,
        config::PHYSICAL_MEMORY_MAPPING_BASE + (16 - 3) * 4096
    );
    // the window's first page is really mapped
    assert!(s
        .get_physical_address(VirtAddr::new(config::PHYSICAL_MEMORY_MAPPING_BASE))
        .is_ok());
    // and the early allocator is drained
    assert!(matches!(
        early.allocate(),
        Err(lambix_mem::page_allocator::AllocationError::OutOfMemory)
    ));
    // byte allocations come aligned and in order
    let a = la.allocate(24, 8).unwrap();
    let b = la.allocate(100, 64).unwrap();
    assert_eq!(a.0 % 8, 0);
    assert_eq!(b.0 % 64, 0);
    assert!(a.0 + 24 <= b.0);
    // the no-op dealloc keeps the cursor
    let cur = la.inner.cursor.0;
    la.inner.dealloc(a, 24);
    assert_eq!(la.inner.cursor.0, cur);
}

#[test]
fn pool_allocator_hands_back_the_frames_it_was_grown_with() {
    let mut s = fresh_space();
    let mut early = fresh_allocator(16);
    let mut pool = DefaultAllocator::new();
    pool.add_to_memory_pool(&mut s, &mut early, PhyAddr::new(0x60_0000))
        .unwrap();
    pool.add_to_memory_pool(&mut s, &mut early, PhyAddr::new(0x61_0000))
        .unwrap();
    assert_eq!(pool.total_memory(), 2 * 4096);
    assert_eq!(pool.page_count, 2);
    assert_eq!(pool.allocate().unwrap().0, 0x60_0000);
    assert_eq!(pool.allocate_zeroed().unwrap().0, 0x61_0000);
    assert!(pool.allocate().is_err());
    // the window pages translate to the pooled frames
    let page = lambix_mem::pool::Page {
        vaddr: VirtAddr::new(config::PHYSICAL_MEMORY_MAPPING_BASE),
    };
    assert_eq!(page.vaddr().0, config::PHYSICAL_MEMORY_MAPPING_BASE);
    assert_eq!(page.paddr(&s), Ok(PhyAddr::new(0x60_0000)));
}

#[test]
fn mutex_hands_the_value_out_and_back() {
    let mut m = Mutex::new(41u64);
    assert!(!m.locked);
    let mut g = m.lock();
    assert!(m.locked);
    assert!(m.try_lock().is_none());
    assert_eq!(*g.get(), 41);
    g.set(42);
    m.unlock(g);
    assert!(!m.locked);
    let g2 = m.try_lock().unwrap();
    assert_eq!(*g2.get(), 42);
    m.unlock(g2);
}

#[test]
fn spinlocks_refuse_a_second_owner() {
    let mut l = Spinlock::new(vec![1, 2, 3]);
    let g = l.try_lock().unwrap();
    assert!(l.try_lock().is_none());
    l.unlock(g);
    assert!(l.try_lock().is_some());

    let mut sl = StaticSpinlock::new(7u8);
    let g = sl.lock();
    assert!(sl.try_lock().is_none());
    sl.unlock(g);
    let g2 = sl.lock();
    assert_eq!(*g2.get(), 7);
    sl.unlock(g2);
}

#[test]
fn heap_cannot_start_without_frames_for_the_first_chain() {
    let mut s = fresh_space();
    let mut empty = fresh_allocator(0);
    assert!(matches!(
        heap::init(&mut s, &mut empty),
        Err(MapErr::OutOfMemory)
    ));
}
