//! The firmware memory-map record: a fixed eight-byte header followed by
//! fixed-size, type-tagged descriptors of physical memory regions. The
//! layout is published by the boot protocol and is decoded here byte for
//! byte.
use vstd::bytes::{spec_u32_from_le_bytes, spec_u64_from_le_bytes, u32_from_le_bytes, u64_from_le_bytes};
use vstd::prelude::*;
use vstd::slice::slice_subrange;

use crate::addr::PhyAddr;

verus! {

/// Size of the map's own header: entry size and entry version words.
pub const MEMMAP_HEADER_SIZE: u64 = 8;

/// Size of one memory descriptor: base, length, type tag, reserved word.
pub const MEMMAP_ENTRY_SIZE: u64 = 24;

/// What a region of physical memory may be used for.
#[derive(Debug, Copy, Clone, PartialEq, Eq, Structural)]
pub enum MemoryType {
    /// Any tag the protocol does not define; never to be touched.
    Reserved,
    /// Ordinary RAM, free for the allocators.
    AvailableRAM,
    /// Holds firmware configuration tables; preserved until copied.
    ACPIInformation,
    /// Must be preserved across hibernation.
    ReservedToPreserve,
    /// Known-bad RAM.
    DefectiveRAM,
}

/// The region type a descriptor's numeric tag denotes.
pub open spec fn mem_type_of(code: u32) -> MemoryType {
    if code == 1 {
        MemoryType::AvailableRAM
    } else if code == 3 {
        MemoryType::ACPIInformation
    } else if code == 4 {
        MemoryType::ReservedToPreserve
    } else if code == 5 {
        MemoryType::DefectiveRAM
    } else {
        MemoryType::Reserved
    }
}

impl MemoryType {
    pub fn from_code(code: u32) -> (r: MemoryType)
        ensures
            r == mem_type_of(code),
    {
        if code == 1 {
            MemoryType::AvailableRAM
        } else if code == 3 {
            MemoryType::ACPIInformation
        } else if code == 4 {
            MemoryType::ReservedToPreserve
        } else if code == 5 {
            MemoryType::DefectiveRAM
        } else {
            MemoryType::Reserved
        }
    }
}

/// One physical memory region as the firmware describes it.
#[derive(Debug, Copy, Clone, PartialEq, Eq, Structural)]
pub struct Memory {
    pub base_addr: PhyAddr,
    pub length: u64,
    pub mem_type: MemoryType,
}

/// The descriptor encoded at index `i` of the raw map `bytes`.
pub open spec fn spec_entry(bytes: Seq<u8>, i: int) -> Memory {
    let off = 8 + 24 * i;
    Memory {
        base_addr: PhyAddr(spec_u64_from_le_bytes(bytes.subrange(off, off + 8))),
        length: spec_u64_from_le_bytes(bytes.subrange(off + 8, off + 16)),
        mem_type: mem_type_of(spec_u32_from_le_bytes(bytes.subrange(off + 16, off + 20))),
    }
}

/// True when `bytes` has the shape of a memory map: a whole header and a
/// whole number of descriptors.
pub open spec fn spec_memmap_shape(bytes: Seq<u8>) -> bool {
    bytes.len() >= 8 && (bytes.len() - 8) % 24 == 0
}

/// A decoded firmware memory map.
pub struct MemoryMap {
    pub entries: Vec<Memory>,
}

impl MemoryMap {
    /// Decode a raw memory-map record. `None` when the byte count does not
    /// fit the published layout.
    pub fn from_bytes(bytes: &[u8]) -> (r: Option<MemoryMap>)
        ensures
            r is Some <==> spec_memmap_shape(bytes@),
            r matches Some(m) ==> {
                &&& m.entries@.len() == (bytes@.len() - 8) / 24
                &&& forall|i: int|
                    0 <= i < m.entries@.len() ==> m.entries@[i] == spec_entry(bytes@, i)
            },
    {
        if bytes.len() < 8 {
            return None;
        }
        let body = bytes.len() - 8;
        if body % 24 != 0 {
            return None;
        }
        let count = body / 24;
        proof {
            vstd::arithmetic::div_mod::lemma_fundamental_div_mod(body as int, 24);
        }
        let n = bytes.len();
        let mut entries: Vec<Memory> = Vec::new();
        let mut i: usize = 0;
        while i < count
            invariant
                i <= count,
                count == (bytes@.len() - 8) / 24,
                n == bytes@.len(),
                24 * (count as int) <= n - 8,
                bytes@.len() >= 8 && (bytes@.len() - 8) % 24 == 0,
                entries.len() == i,
                forall|j: int| 0 <= j < i ==> entries@[j] == spec_entry(bytes@, j),
            decreases count - i,
        {
            proof {
                assert(24 * (i as int) + 24 <= 24 * (count as int)) by (nonlinear_arith)
                    requires
                        i < count,
                ;
            }
            let off = 8 + 24 * i;
            let base = u64_from_le_bytes(slice_subrange(bytes, off, off + 8));
            let length = u64_from_le_bytes(slice_subrange(bytes, off + 8, off + 16));
            let code = u32_from_le_bytes(slice_subrange(bytes, off + 16, off + 20));
            entries.push(
                Memory {
                    base_addr: PhyAddr(base),
                    length,
                    mem_type: MemoryType::from_code(code),
                },
            );
            i = i + 1;
        }
        Some(MemoryMap { entries })
    }

    /// The decoded descriptors, in the order the firmware listed them.
    pub fn entries(&self) -> (r: &Vec<Memory>)
        ensures
            r == &self.entries,
    {
        &self.entries
    }
}

} // verus!
