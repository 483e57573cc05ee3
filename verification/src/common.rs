//! Convenience re-implementations of the byte transforms under their shared
//! names: CRC-32 and the XOR stream encoder.

use vstd::prelude::*;

use crate::utils;

verus! {

/// Standard CRC-32 of a byte slice; same transform as `utils::crc32`.
pub fn crc32(data: &[u8]) -> (r: u32)
    ensures
        r == utils::crc32_spec(data@),
{
    utils::crc32(data)
}

/// XORs every byte of `data` in place with `key` and returns the encoded
/// bytes; same transform as `utils::xor_encode_bytes`.
pub fn xor_encode_bytes(data: &mut Vec<u8>, key: u8) -> (r: Vec<u8>)
    ensures
        final(data)@ == utils::xor_seq(old(data)@, key),
        r@ == utils::xor_seq(old(data)@, key),
{
    utils::xor_encode_bytes(data, key)
}

} // verus!
