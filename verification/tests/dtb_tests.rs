use fwimage::dtb;
use fwimage::dtb::{DtbHeader, DtbReserveEntry};

fn sample_header_bytes() -> Vec<u8> {
    let fields: [u32; 10] = [
        0xd00d_feed, // magic
        0x0000_1000, // totalsize
        0x0000_0038, // off_dt_struct
        0x0000_0800, // off_dt_strings
        0x0000_0028, // off_mem_rsvmap
        17,          // version
        16,          // last_comp_version
        0,           // boot_cpuid_phys
        0x0000_0100, // size_dt_strings
        0x0000_0200, // size_dt_struct
    ];
    let mut bytes = Vec::new();
    for f in fields {
        bytes.extend_from_slice(&f.to_be_bytes());
    }
    bytes
}

#[test]
fn dtb_header_parses_big_endian_fields() {
    let bytes = sample_header_bytes();
    let header = DtbHeader::from_bytes(&bytes).unwrap();
    assert_eq!(header.magic, 0xd00d_feed);
    assert_eq!(header.totalsize, 0x1000);
    assert_eq!(header.off_dt_struct, 0x38);
    assert_eq!(header.off_dt_strings, 0x800);
    assert_eq!(header.off_mem_rsvmap, 0x28);
    assert_eq!(header.version, 17);
    assert_eq!(header.last_comp_version, 16);
    assert_eq!(header.boot_cpuid_phys, 0);
    assert_eq!(header.size_dt_strings, 0x100);
    assert_eq!(header.size_dt_struct, 0x200);
}

#[test]
fn dtb_header_rejects_short_input() {
    let bytes = sample_header_bytes();
    assert!(DtbHeader::from_bytes(&bytes[..39]).is_none());
    assert!(DtbHeader::from_bytes(&[]).is_none());
}

#[test]
fn dtb_header_ignores_trailing_bytes() {
    let mut bytes = sample_header_bytes();
    bytes.push(0xAB);
    let header = DtbHeader::from_bytes(&bytes).unwrap();
    assert_eq!(header.magic, 0xd00d_feed);
}

#[test]
fn dtb_reserve_entry_parses_big_endian_fields() {
    let mut bytes = Vec::new();
    bytes.extend_from_slice(&0x0000_0000_8000_0000u64.to_be_bytes());
    bytes.extend_from_slice(&0x0000_0000_0010_0000u64.to_be_bytes());
    let entry = DtbReserveEntry::from_bytes(&bytes).unwrap();
    assert_eq!(entry.addr, 0x8000_0000);
    assert_eq!(entry.size, 0x10_0000);
}

#[test]
fn dtb_reserve_entry_rejects_short_input() {
    assert!(DtbReserveEntry::from_bytes(&[0u8; 15]).is_none());
}

#[test]
fn dtb_magic_bytes_value() {
    let magics = dtb::dtb_magic();
    assert_eq!(magics.len(), 1);
    assert_eq!(magics[0], vec![0xd0, 0x0d, 0xfe, 0xed]);
}

#[test]
fn dtb_aligned_rounds_up_to_four() {
    assert_eq!(dtb::dtb_aligned(0), 0);
    assert_eq!(dtb::dtb_aligned(1), 4);
    assert_eq!(dtb::dtb_aligned(4), 4);
    assert_eq!(dtb::dtb_aligned(5), 8);
    assert_eq!(dtb::dtb_aligned(7), 8);
    assert_eq!(dtb::dtb_aligned(8), 8);
}
