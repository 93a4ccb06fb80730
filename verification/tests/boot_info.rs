use lambix_mem::addr::VirtAddr;
use lambix_mem::memmap::{MemoryMap, MemoryType};
use lambix_mem::multiboot::{BootInfo, TagType};

fn le32(v: &mut Vec<u8>, x: u32) {
    v.extend_from_slice(&x.to_le_bytes());
}

fn le64(v: &mut Vec<u8>, x: u64) {
    v.extend_from_slice(&x.to_le_bytes());
}

fn memmap_payload() -> Vec<u8> {
    let mut p = Vec::new();
    le32(&mut p, 24); // entry size
    le32(&mut p, 0); // entry version
    le64(&mut p, 0x10_0000); // base
    le64(&mut p, 0x40_0000); // length
    le32(&mut p, 1); // AvailableRAM
    le32(&mut p, 0); // reserved
    p
}

fn sample_block() -> Vec<u8> {
    let mut b = Vec::new();
    le32(&mut b, 56); // total size: header + memmap tag (40) + end tag (8)
    le32(&mut b, 0); // reserved
    le32(&mut b, 6); // MemMap tag
    le32(&mut b, 40); // tag size: 8 + 32 payload
    b.extend_from_slice(&memmap_payload());
    le32(&mut b, 0); // end tag
    le32(&mut b, 8);
    b
}

#[test]
fn memory_map_decodes_its_published_layout() {
    let m = MemoryMap::from_bytes(&memmap_payload()).unwrap();
    assert_eq!(m.entries().len(), 1);
    let e = &m.entries()[0];
    assert_eq!(e.base_addr.0, 0x10_0000);
    assert_eq!(e.length, 0x40_0000);
    assert_eq!(e.mem_type, MemoryType::AvailableRAM);
}

#[test]
fn memory_map_rejects_torn_records() {
    assert!(MemoryMap::from_bytes(&[0u8; 7]).is_none());
    assert!(MemoryMap::from_bytes(&[0u8; 8 + 23]).is_none());
    let ok = MemoryMap::from_bytes(&[0u8; 8 + 48]).unwrap();
    assert_eq!(ok.entries().len(), 2);
}

#[test]
fn memory_type_codes_follow_the_protocol() {
    assert_eq!(MemoryType::from_code(1), MemoryType::AvailableRAM);
    assert_eq!(MemoryType::from_code(3), MemoryType::ACPIInformation);
    assert_eq!(MemoryType::from_code(4), MemoryType::ReservedToPreserve);
    assert_eq!(MemoryType::from_code(5), MemoryType::DefectiveRAM);
    assert_eq!(MemoryType::from_code(0), MemoryType::Reserved);
    assert_eq!(MemoryType::from_code(2), MemoryType::Reserved);
    assert_eq!(MemoryType::from_code(99), MemoryType::Reserved);
}

#[test]
fn boot_info_walks_its_tags() {
    let info = BootInfo::at(VirtAddr::new(0x8000), sample_block());
    assert_eq!(info.len(), 56);
    let (start, end) = info.range();
    assert_eq!(start.0, 0x8000);
    assert_eq!(end.0, 0x8000 + 56);
    let mut tags = info.tags();
    let t = tags.next(&info).unwrap();
    assert_eq!(t.tag_type(), TagType::MemMap);
    assert_eq!(t.size(), 40);
    assert_eq!(t.data().len(), 32);
    // the end tag stops the walk
    assert!(tags.next(&info).is_none());
    assert!(tags.next(&info).is_none());
}

#[test]
fn boot_info_finds_a_tag_by_type_and_decodes_it() {
    let info = BootInfo::at(VirtAddr::new(0), sample_block());
    let t = info.get_tag(TagType::MemMap).unwrap();
    let m = t.as_memmap().unwrap();
    assert_eq!(m.entries().len(), 1);
    assert_eq!(m.entries()[0].base_addr.0, 0x10_0000);
    assert!(info.get_tag(TagType::CmdLine).is_none());
    // a non-memmap tag refuses to decode as one
    let mut b = Vec::new();
    le32(&mut b, 24);
    le32(&mut b, 0);
    le32(&mut b, 1); // CmdLine
    le32(&mut b, 8);
    le32(&mut b, 0); // end
    le32(&mut b, 8);
    let info2 = BootInfo::at(VirtAddr::new(0), b);
    let t2 = info2.get_tag(TagType::CmdLine).unwrap();
    assert!(t2.as_memmap().is_none());
}

#[test]
fn torn_tag_lists_end_the_walk_without_panicking() {
    // declared tag size runs past the block
    let mut b = Vec::new();
    le32(&mut b, 24);
    le32(&mut b, 0);
    le32(&mut b, 1);
    le32(&mut b, 4096);
    let info = BootInfo::at(VirtAddr::new(0), b);
    let mut tags = info.tags();
    assert!(tags.next(&info).is_none());
    // a block shorter than its own header
    let info2 = BootInfo::at(VirtAddr::new(0), vec![1, 2]);
    assert_eq!(info2.len(), 0);
    let mut tags2 = info2.tags();
    assert!(tags2.next(&info2).is_none());
}

#[test]
fn tag_walk_respects_eight_byte_alignment() {
    // a 12-byte tag is followed by four bytes of padding
    let mut b = Vec::new();
    le32(&mut b, 36); // total size
    le32(&mut b, 0);
    le32(&mut b, 1); // CmdLine
    le32(&mut b, 12); // 4 bytes of payload
    b.extend_from_slice(b"ok?\0");
    le32(&mut b, 0); // padding to the next 8-byte boundary
    le32(&mut b, 0); // end tag
    le32(&mut b, 8);
    let info = BootInfo::at(VirtAddr::new(0), b);
    let mut tags = info.tags();
    let t = tags.next(&info).unwrap();
    assert_eq!(t.tag_type(), TagType::CmdLine);
    assert_eq!(t.data().as_slice(), b"ok?\0");
    assert!(tags.next(&info).is_none());
}

#[test]
fn unknown_tag_codes_are_carried_as_unknown() {
    assert_eq!(TagType::from_code(6), TagType::MemMap);
    assert_eq!(TagType::from_code(21), TagType::ImageBasePhyAddr);
    assert_eq!(TagType::from_code(99), TagType::Unknown);
}
