//! Memory-management core of a small 64-bit x86 kernel: typed physical and
//! virtual addresses, the hardware page-translation-table model, a recursive
//! self-map window, a mapping engine, physical frame allocators, a virtual
//! address-range allocator, and scoped mapping handles.
pub mod addr;
pub mod config;
pub mod heap;
pub mod linear;
pub mod memmap;
pub mod multiboot;
pub mod page_alloc;
pub mod page_allocator;
pub mod paging;
pub mod pool;
pub mod spinlock;
pub mod static_spinlock;
pub mod sync;
pub mod table;
pub mod valloc;
pub mod vbox;
pub mod vbuffer;
