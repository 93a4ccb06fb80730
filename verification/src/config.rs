//! Kernel memory-layout constants: the fixed virtual windows that the
//! allocators and the self-map are built over, and the page geometry.
use vstd::prelude::*;

verus! {

/// Size in bytes of one translation page / physical frame.
pub const PAGE_SIZE: u64 = 4096;

/// Mask selecting the in-page offset bits of an address.
pub const PAGE_MASK: u64 = 4095;

/// Number of entries in one translation table.
pub const ENTRY_COUNT: u64 = 512;

pub const TOP: u64 = 0xffff_ffff_ffff_ffff;

pub const USERSPACE_BASE: u64 = 0;

/// 128 TB of user space.
pub const USERSPACE_END: u64 = 0x8000_0000_0000;

/// Base of the kernel half of the address space: `TOP - 128TB + 1`, with a
/// 16M-TB non-canonical hole below it.
pub const KERNELSPACE_BASE: u64 = 0xffff_8000_0000_0000;

/// Window kept fully mapped by the pool frame allocator:
/// `KERNELSPACE_BASE + 8TB`, an 8TB guard hole before it.
pub const PHYSICAL_MEMORY_MAPPING_BASE: u64 = 0xffff_8800_0000_0000;

/// `PHYSICAL_MEMORY_MAPPING_BASE + 64TB`.
pub const PHYSICAL_MEMORY_MAPPING_END: u64 = 0xffff_c800_0000_0000;

/// Arena of the virtual address-range allocator:
/// `PHYSICAL_MEMORY_MAPPING_END + 512GB`, a 512GB guard hole before it.
pub const VMALLOC_BASE: u64 = 0xffff_c880_0000_0000;

/// `VMALLOC_BASE + 32TB`.
pub const VMALLOC_END: u64 = 0xffff_e880_0000_0000;

/// Window through which every translation table is reachable via the
/// recursive self-map: `VMALLOC_END + 512GB`, a 512GB guard hole before it.
pub const PAGE_MAP_BASE: u64 = 0xffff_e900_0000_0000;

/// `PAGE_MAP_BASE + 1TB`.
pub const PAGE_MAP_END: u64 = 0xffff_ea00_0000_0000;

/// Virtual range the kernel image is linked at: `PAGE_MAP_END + 512GB`, a
/// 512GB guard hole before it.
pub const KERNEL_START: u64 = 0xffff_ea80_0000_0000;

/// `KERNEL_START + 512MB`.
pub const KERNEL_END: u64 = 0xffff_ea80_2000_0000;

} // verus!
