//! Device-tree-blob header structures: the fixed 40-byte big-endian header
//! and the 16-byte memory-reservation entries. Only the flat header fields
//! are read here; walking the structure block is outside this library.

use vstd::prelude::*;

verus! {

/// Big-endian 32-bit value at offset `off`.
pub open spec fn be_u32_at(s: Seq<u8>, off: int) -> u32
    recommends
        0 <= off,
        off + 4 <= s.len(),
{
    (s[off] * 0x100_0000 + s[off + 1] * 0x1_0000 + s[off + 2] * 0x100 + s[off + 3]) as u32
}

/// Big-endian 64-bit value at offset `off`.
pub open spec fn be_u64_at(s: Seq<u8>, off: int) -> u64
    recommends
        0 <= off,
        off + 8 <= s.len(),
{
    ((be_u32_at(s, off) as int) * 0x1_0000_0000 + (be_u32_at(s, off + 4) as int)) as u64
}

/// The device-tree magic bytes.
pub open spec fn dtb_magic_bytes() -> Seq<u8> {
    seq![0xd0u8, 0x0du8, 0xfeu8, 0xedu8]
}

/// The accepted device-tree magic signatures.
pub fn dtb_magic() -> (r: Vec<Vec<u8>>)
    ensures
        r@.len() == 1,
        r@[0]@ == dtb_magic_bytes(),
{
    let mut magic: Vec<u8> = Vec::new();
    magic.push(0xd0);
    magic.push(0x0d);
    magic.push(0xfe);
    magic.push(0xed);
    proof {
        assert(magic@ =~= dtb_magic_bytes());
    }
    let mut r: Vec<Vec<u8>> = Vec::new();
    r.push(magic);
    r
}

/// `size` rounded up to the next multiple of four.
pub open spec fn dtb_aligned_spec(size: int) -> int {
    if size % 4 == 0 {
        size
    } else {
        size + 4 - size % 4
    }
}

/// Rounds a block size up to the blob's four-byte alignment.
pub fn dtb_aligned(size: usize) -> (r: usize)
    requires
        size <= usize::MAX - 3,
    ensures
        r == dtb_aligned_spec(size as int),
{
    let rem = size % 4;
    if rem == 0 {
        size
    } else {
        size + (4 - rem)
    }
}

/// The fixed 40-byte header of a device-tree blob, all fields big-endian.
#[derive(Debug, Clone, PartialEq, Eq, Structural)]
pub struct DtbHeader {
    pub magic: u32,
    pub totalsize: u32,
    pub off_dt_struct: u32,
    pub off_dt_strings: u32,
    pub off_mem_rsvmap: u32,
    pub version: u32,
    pub last_comp_version: u32,
    pub boot_cpuid_phys: u32,
    pub size_dt_strings: u32,
    pub size_dt_struct: u32,
}

/// Reads a big-endian 32-bit field.
fn read_be_u32(bytes: &[u8], off: usize) -> (r: u32)
    requires
        off + 4 <= bytes@.len(),
    ensures
        r == be_u32_at(bytes@, off as int),
{
    (bytes[off] as u32) * 0x100_0000 + (bytes[off + 1] as u32) * 0x1_0000 + (bytes[off + 2] as u32)
        * 0x100 + (bytes[off + 3] as u32)
}

impl DtbHeader {
    /// Parses the header from the first 40 bytes of a blob; rejects shorter
    /// input.
    pub fn from_bytes(bytes: &[u8]) -> (r: Option<DtbHeader>)
        ensures
            bytes@.len() < 40 ==> r is None,
            bytes@.len() >= 40 ==> r == Some(
                DtbHeader {
                    magic: be_u32_at(bytes@, 0),
                    totalsize: be_u32_at(bytes@, 4),
                    off_dt_struct: be_u32_at(bytes@, 8),
                    off_dt_strings: be_u32_at(bytes@, 12),
                    off_mem_rsvmap: be_u32_at(bytes@, 16),
                    version: be_u32_at(bytes@, 20),
                    last_comp_version: be_u32_at(bytes@, 24),
                    boot_cpuid_phys: be_u32_at(bytes@, 28),
                    size_dt_strings: be_u32_at(bytes@, 32),
                    size_dt_struct: be_u32_at(bytes@, 36),
                },
            ),
    {
        if bytes.len() < 40 {
            return None;
        }
        Some(
            DtbHeader {
                magic: read_be_u32(bytes, 0),
                totalsize: read_be_u32(bytes, 4),
                off_dt_struct: read_be_u32(bytes, 8),
                off_dt_strings: read_be_u32(bytes, 12),
                off_mem_rsvmap: read_be_u32(bytes, 16),
                version: read_be_u32(bytes, 20),
                last_comp_version: read_be_u32(bytes, 24),
                boot_cpuid_phys: read_be_u32(bytes, 28),
                size_dt_strings: read_be_u32(bytes, 32),
                size_dt_struct: read_be_u32(bytes, 36),
            },
        )
    }
}

/// One entry of the blob's memory reservation map: a reserved address range.
#[derive(Debug, Clone, PartialEq, Eq, Structural)]
pub struct DtbReserveEntry {
    pub addr: u64,
    pub size: u64,
}

impl DtbReserveEntry {
    /// Parses one 16-byte reservation entry; rejects shorter input.
    pub fn from_bytes(bytes: &[u8]) -> (r: Option<DtbReserveEntry>)
        ensures
            bytes@.len() < 16 ==> r is None,
            bytes@.len() >= 16 ==> r == Some(
                DtbReserveEntry { addr: be_u64_at(bytes@, 0), size: be_u64_at(bytes@, 8) },
            ),
    {
        if bytes.len() < 16 {
            return None;
        }
        let addr = (read_be_u32(bytes, 0) as u64) * 0x1_0000_0000 + (read_be_u32(bytes, 4) as u64);
        let size = (read_be_u32(bytes, 8) as u64) * 0x1_0000_0000 + (read_be_u32(
            bytes,
            12,
        ) as u64);
        Some(DtbReserveEntry { addr, size })
    }
}

} // verus!
