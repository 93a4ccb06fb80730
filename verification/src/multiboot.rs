//! The boot-information block: a total-size header followed by a list of
//! type-tagged, eight-byte-aligned tags, as the boot protocol publishes it.
//! The memory-map tag's payload is decoded by the memory-map module; this
//! module walks the tag list itself, byte for byte.
use vstd::bytes::{spec_u32_from_le_bytes, u32_from_le_bytes};
use vstd::prelude::*;
use vstd::slice::slice_subrange;

use crate::addr::VirtAddr;
use crate::memmap::MemoryMap;

verus! {

/// The numeric codes of the tag types the protocol defines.
#[derive(Debug, Copy, Clone, PartialEq, Eq, Structural)]
pub enum TagType {
    EndTag,
    CmdLine,
    BootLoaderName,
    Modules,
    BasicMemInfo,
    BIOSBootDevice,
    MemMap,
    VbeInfo,
    FramebufferInfo,
    ELFSymbols,
    ApmTable,
    EFI32TablePointer,
    EFI64TablePointer,
    SmbiosTables,
    ACPIOldRsdp,
    ACPINewRsdp,
    NetInfo,
    EFIMemMap,
    EFIBootServicesNotTerminated,
    EFI32ImagePointer,
    EFI64ImagePointer,
    ImageBasePhyAddr,
    /// Any code the protocol does not define.
    Unknown,
}

/// The tag type a numeric code denotes.
pub open spec fn tag_type_of(code: u32) -> TagType {
    if code == 0 {
        TagType::EndTag
    } else if code == 1 {
        TagType::CmdLine
    } else if code == 2 {
        TagType::BootLoaderName
    } else if code == 3 {
        TagType::Modules
    } else if code == 4 {
        TagType::BasicMemInfo
    } else if code == 5 {
        TagType::BIOSBootDevice
    } else if code == 6 {
        TagType::MemMap
    } else if code == 7 {
        TagType::VbeInfo
    } else if code == 8 {
        TagType::FramebufferInfo
    } else if code == 9 {
        TagType::ELFSymbols
    } else if code == 10 {
        TagType::ApmTable
    } else if code == 11 {
        TagType::EFI32TablePointer
    } else if code == 12 {
        TagType::EFI64TablePointer
    } else if code == 13 {
        TagType::SmbiosTables
    } else if code == 14 {
        TagType::ACPIOldRsdp
    } else if code == 15 {
        TagType::ACPINewRsdp
    } else if code == 16 {
        TagType::NetInfo
    } else if code == 17 {
        TagType::EFIMemMap
    } else if code == 18 {
        TagType::EFIBootServicesNotTerminated
    } else if code == 19 {
        TagType::EFI32ImagePointer
    } else if code == 20 {
        TagType::EFI64ImagePointer
    } else if code == 21 {
        TagType::ImageBasePhyAddr
    } else {
        TagType::Unknown
    }
}

impl TagType {
    pub fn from_code(code: u32) -> (r: TagType)
        ensures
            r == tag_type_of(code),
    {
        if code == 0 {
            TagType::EndTag
        } else if code == 1 {
            TagType::CmdLine
        } else if code == 2 {
            TagType::BootLoaderName
        } else if code == 3 {
            TagType::Modules
        } else if code == 4 {
            TagType::BasicMemInfo
        } else if code == 5 {
            TagType::BIOSBootDevice
        } else if code == 6 {
            TagType::MemMap
        } else if code == 7 {
            TagType::VbeInfo
        } else if code == 8 {
            TagType::FramebufferInfo
        } else if code == 9 {
            TagType::ELFSymbols
        } else if code == 10 {
            TagType::ApmTable
        } else if code == 11 {
            TagType::EFI32TablePointer
        } else if code == 12 {
            TagType::EFI64TablePointer
        } else if code == 13 {
            TagType::SmbiosTables
        } else if code == 14 {
            TagType::ACPIOldRsdp
        } else if code == 15 {
            TagType::ACPINewRsdp
        } else if code == 16 {
            TagType::NetInfo
        } else if code == 17 {
            TagType::EFIMemMap
        } else if code == 18 {
            TagType::EFIBootServicesNotTerminated
        } else if code == 19 {
            TagType::EFI32ImagePointer
        } else if code == 20 {
            TagType::EFI64ImagePointer
        } else if code == 21 {
            TagType::ImageBasePhyAddr
        } else {
            TagType::Unknown
        }
    }
}

/// The block's fixed header: its total byte size (a reserved word follows
/// it in the raw bytes).
#[derive(Debug, Copy, Clone, PartialEq, Eq, Structural)]
pub struct InfoHeader {
    pub total_size: u32,
}

/// One decoded tag: its type and a copy of its payload.
pub struct Tag {
    pub tag_type: TagType,
    pub data: Vec<u8>,
}

impl Tag {
    pub fn tag_type(&self) -> (r: TagType)
        ensures
            r == self.tag_type,
    {
        self.tag_type
    }

    /// The tag's declared size: header plus payload.
    pub fn size(&self) -> (r: usize)
        requires
            self.data@.len() + 8 <= usize::MAX,
        ensures
            r == self.data@.len() + 8,
    {
        self.data.len() + 8
    }

    pub fn data(&self) -> (r: &Vec<u8>)
        ensures
            r == &self.data,
    {
        &self.data
    }

    /// Decode the tag as a memory map, when it is one.
    pub fn as_memmap(&self) -> (r: Option<MemoryMap>)
        ensures
            r is Some <==> (self.tag_type == TagType::MemMap && crate::memmap::spec_memmap_shape(
                self.data@,
            )),
            r matches Some(m) ==> {
                &&& m.entries@.len() == (self.data@.len() - 8) / 24
                &&& forall|i: int|
                    0 <= i < m.entries@.len() ==> m.entries@[i] == crate::memmap::spec_entry(
                        self.data@,
                        i,
                    )
            },
    {
        if self.tag_type() == TagType::MemMap {
            MemoryMap::from_bytes(self.data.as_slice())
        } else {
            None
        }
    }
}

/// The numeric type code of the tag at `off`.
pub open spec fn tag_code(b: Seq<u8>, off: int) -> u32 {
    spec_u32_from_le_bytes(b.subrange(off, off + 4))
}

/// The declared byte size of the tag at `off`, header included.
pub open spec fn tag_size(b: Seq<u8>, off: int) -> u32 {
    spec_u32_from_le_bytes(b.subrange(off + 4, off + 8))
}

/// True when a whole, sane tag lies at `off`.
pub open spec fn tag_ok(b: Seq<u8>, off: int) -> bool {
    &&& off + 8 <= b.len()
    &&& tag_size(b, off) >= 8
    &&& off + tag_size(b, off) <= b.len()
}

/// The next tag's offset: past this tag, rounded up to eight bytes.
pub open spec fn next_tag_off(b: Seq<u8>, off: int) -> int {
    let end = off + tag_size(b, off);
    end + (8 - end % 8) % 8
}

/// True when walking the tag list from `off` reaches a tag of type `t`
/// before the end tag, a torn tag, or the end of the block.
pub open spec fn has_tag_from(b: Seq<u8>, off: int, t: TagType) -> bool
    decreases b.len() - off,
{
    if off < 0 || !tag_ok(b, off) || tag_code(b, off) == 0 {
        false
    } else if tag_type_of(tag_code(b, off)) == t {
        true
    } else {
        let next = if next_tag_off(b, off) <= b.len() {
            next_tag_off(b, off)
        } else {
            b.len() as int
        };
        has_tag_from(b, next, t)
    }
}

/// The offset of the first tag of type `t` that the walk from `off`
/// reaches, or a negative value when there is none.
pub open spec fn first_tag_off(b: Seq<u8>, off: int, t: TagType) -> int
    decreases b.len() - off,
{
    if off < 0 || !tag_ok(b, off) || tag_code(b, off) == 0 {
        -1
    } else if tag_type_of(tag_code(b, off)) == t {
        off
    } else {
        let next = if next_tag_off(b, off) <= b.len() {
            next_tag_off(b, off)
        } else {
            b.len() as int
        };
        first_tag_off(b, next, t)
    }
}

/// The boot-information block, copied out of the firmware's memory, with
/// the virtual address it was found at.
#[derive(Clone)]
pub struct BootInfo {
    pub base: VirtAddr,
    pub bytes: Vec<u8>,
}

impl BootInfo {
    /// A block found at `base` holding the raw `bytes`.
    pub fn at(base: VirtAddr, bytes: Vec<u8>) -> (r: BootInfo)
        ensures
            r.base == base,
            r.bytes == bytes,
    {
        BootInfo { base, bytes }
    }

    /// The block's declared total size, or zero when even the header is
    /// truncated.
    pub fn len(&self) -> (r: usize)
        ensures
            self.bytes@.len() >= 4 ==> r == spec_u32_from_le_bytes(self.bytes@.subrange(0, 4)),
            self.bytes@.len() < 4 ==> r == 0,
    {
        if self.bytes.len() >= 4 {
            let s = u32_from_le_bytes(slice_subrange(self.bytes.as_slice(), 0, 4));
            s as usize
        } else {
            0
        }
    }

    /// The virtual range the block was found at.
    pub fn range(&self) -> (r: (VirtAddr, VirtAddr))
        ensures
            r.0 == self.base,
            self.bytes@.len() >= 4 ==> r.1.0 == crate::addr::wrap_add64(
                self.base.0,
                spec_u32_from_le_bytes(self.bytes@.subrange(0, 4)) as u64,
            ),
    {
        let l = self.len();
        (self.base, self.base.wrapping_add(l as u64))
    }

    /// A cursor over the block's tags, starting right after the header.
    pub fn tags(&self) -> (r: Tags)
        ensures
            r.current == 8,
    {
        Tags { current: 8 }
    }

    /// The first tag of the given type, walking from the start: found if
    /// and only if such a tag stands in the list before its end, and then
    /// its payload is that first tag's, byte for byte.
    pub fn get_tag(&self, tag_type: TagType) -> (r: Option<Tag>)
        ensures
            r is Some <==> has_tag_from(self.bytes@, 8, tag_type),
            r matches Some(t) ==> {
                let off = first_tag_off(self.bytes@, 8, tag_type);
                &&& t.tag_type == tag_type
                &&& t.data@ == self.bytes@.subrange(off + 8, off + tag_size(self.bytes@, off))
            },
    {
        let mut tags = self.tags();
        loop
            invariant
                8 <= tags.current,
                has_tag_from(self.bytes@, 8, tag_type) == has_tag_from(
                    self.bytes@,
                    tags.current as int,
                    tag_type,
                ),
                first_tag_off(self.bytes@, 8, tag_type) == first_tag_off(
                    self.bytes@,
                    tags.current as int,
                    tag_type,
                ),
            decreases self.bytes@.len() + 8 - tags.current,
        {
            match tags.next(self) {
                Some(t) => {
                    if t.tag_type() == tag_type {
                        return Some(t);
                    }
                },
                None => {
                    return None;
                },
            }
        }
    }
}

/// A cursor over the tag list: the byte offset of the tag to read next.
pub struct Tags {
    pub current: usize,
}

impl Tags {
    /// Decode the tag under the cursor and step past it. `None` at the end
    /// tag, or where no whole tag fits the block.
    pub fn next(&mut self, info: &BootInfo) -> (r: Option<Tag>)
        requires
            old(self).current >= 8,
        ensures
            final(self).current >= old(self).current,
            ({
                let b = info.bytes@;
                let off = old(self).current as int;
                if tag_ok(b, off) && tag_code(b, off) != 0 {
                    &&& r matches Some(t) && t.tag_type == tag_type_of(tag_code(b, off))
                        && t.data@ == b.subrange(off + 8, off + tag_size(b, off))
                    &&& final(self).current == if next_tag_off(b, off) <= b.len() {
                        next_tag_off(b, off)
                    } else {
                        b.len() as int
                    }
                    &&& final(self).current > old(self).current
                } else {
                    r is None && *final(self) == *old(self)
                }
            }),
    {
        let b_len = info.bytes.len();
        let off = self.current;
        if b_len < 8 || off > b_len - 8 {
            return None;
        }
        let code = u32_from_le_bytes(slice_subrange(info.bytes.as_slice(), off, off + 4));
        let size = u32_from_le_bytes(slice_subrange(info.bytes.as_slice(), off + 4, off + 8));
        if size < 8 {
            return None;
        }
        if (size as usize) > b_len - off {
            return None;
        }
        if code == 0 {
            return None;
        }
        let data = slice_to_vec_u8(
            slice_subrange(info.bytes.as_slice(), off + 8, off + size as usize),
        );
        let end = off + size as usize;
        let pad = (8 - end % 8) % 8;
        let next_off = if pad <= b_len - end {
            end + pad
        } else {
            b_len
        };
        self.current = next_off;
        Some(Tag { tag_type: TagType::from_code(code), data })
    }
}

/// Copy a byte slice into an owned vector.
fn slice_to_vec_u8(s: &[u8]) -> (r: Vec<u8>)
    ensures
        r@ == s@,
{
    let mut v: Vec<u8> = Vec::new();
    let mut i: usize = 0;
    while i < s.len()
        invariant
            i <= s@.len(),
            v@ == s@.subrange(0, i as int),
        decreases s@.len() - i,
    {
        v.push(*vstd::slice::slice_index_get(s, i));
        proof {
            assert(v@ =~= s@.subrange(0, i + 1));
        }
        i = i + 1;
    }
    proof {
        assert(v@ =~= s@);
    }
    v
}

} // verus!
