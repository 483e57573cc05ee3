//! Standalone byte transforms: bit-serial CRC-32, single-byte XOR stream
//! encoding, and the odd-parity bit fold. None of them touches the record
//! pipeline; they work on whole buffers.

use vstd::prelude::*;

verus! {

/// One shift step of the reflected CRC-32 register with polynomial
/// 0xEDB88320.
pub open spec fn crc32_step(crc: u32) -> u32 {
    if crc & 1 != 0 {
        (crc >> 1) ^ 0xedb88320u32
    } else {
        crc >> 1
    }
}

/// `n` successive shift steps.
pub open spec fn crc32_steps(crc: u32, n: nat) -> u32
    decreases n,
{
    if n == 0 {
        crc
    } else {
        crc32_steps(crc32_step(crc), (n - 1) as nat)
    }
}

/// The register after absorbing one input byte: XOR it in, then shift the
/// register eight times.
pub open spec fn crc32_absorb(crc: u32, byte: u8) -> u32 {
    crc32_steps(crc ^ (byte as u32), 8)
}

/// The register after absorbing a whole byte sequence, starting from the
/// all-ones initial value.
pub open spec fn crc32_register(s: Seq<u8>) -> u32
    decreases s.len(),
{
    if s.len() == 0 {
        0xffffffffu32
    } else {
        crc32_absorb(crc32_register(s.drop_last()), s.last())
    }
}

/// Standard CRC-32 of a byte sequence: the final register, complemented.
pub open spec fn crc32_spec(s: Seq<u8>) -> u32 {
    !crc32_register(s)
}

/// Bit-serial CRC-32 (IEEE reflected polynomial 0xEDB88320, initial register
/// 0xFFFFFFFF, final complement).
pub fn crc32(data: &[u8]) -> (r: u32)
    ensures
        r == crc32_spec(data@),
{
    let mut crc: u32 = 0xffffffff;
    let mut i: usize = 0;
    while i < data.len()
        invariant
            i <= data@.len(),
            crc == crc32_register(data@.take(i as int)),
        decreases data@.len() - i,
    {
        proof {
            assert(data@.take(i + 1).drop_last() =~= data@.take(i as int));
        }
        let ghost start = crc ^ (data@[i as int] as u32);
        let mut step: u32 = crc ^ (data[i] as u32);
        let mut j: usize = 0;
        while j < 8
            invariant
                j <= 8,
                step == crc32_steps(start, j as nat),
            decreases 8 - j,
        {
            let ghost before = step;
            if step & 1 != 0 {
                step = (step >> 1u32) ^ 0xedb88320u32;
            } else {
                step = step >> 1u32;
            }
            proof {
                assert(step == crc32_step(before));
                lemma_crc32_steps_last(start, j as nat);
            }
            j = j + 1;
        }
        crc = step;
        i = i + 1;
    }
    proof {
        assert(data@.take(data@.len() as int) =~= data@);
    }
    !crc
}

/// Folding `n + 1` times equals folding `n` times and stepping once more.
proof fn lemma_crc32_steps_last(crc: u32, n: nat)
    ensures
        crc32_steps(crc, n + 1) == crc32_step(crc32_steps(crc, n)),
    decreases n,
{
    if n == 0 {
        assert(crc32_steps(crc, 1) == crc32_steps(crc32_step(crc), 0));
    } else {
        lemma_crc32_steps_last(crc32_step(crc), (n - 1) as nat);
        assert(crc32_steps(crc, n + 1) == crc32_steps(crc32_step(crc), n as nat));
        assert(crc32_steps(crc, n as nat) == crc32_steps(crc32_step(crc), (n - 1) as nat));
    }
}

/// Every byte of `s`, XORed with `key`.
pub open spec fn xor_seq(s: Seq<u8>, key: u8) -> Seq<u8> {
    Seq::new(s.len(), |i: int| s[i] ^ key)
}

/// XORs every byte of `data` in place with the repeating key byte and also
/// returns the encoded bytes. Applying it twice with the same key restores
/// the input.
pub fn xor_encode_bytes(data: &mut Vec<u8>, key: u8) -> (r: Vec<u8>)
    ensures
        final(data)@ == xor_seq(old(data)@, key),
        r@ == xor_seq(old(data)@, key),
{
    let mut encoded_data: Vec<u8> = Vec::new();
    let mut i: usize = 0;
    while i < data.len()
        invariant
            i <= data@.len(),
            data@.len() == old(data)@.len(),
            forall|j: int| i <= j < data@.len() ==> data@[j] == old(data)@[j],
            forall|j: int| 0 <= j < i ==> data@[j] == (old(data)@[j] ^ key),
            encoded_data@.len() == i,
            forall|j: int| 0 <= j < i ==> encoded_data@[j] == (old(data)@[j] ^ key),
        decreases data@.len() - i,
    {
        let b = data[i] ^ key;
        data[i] = b;
        encoded_data.push(b);
        i = i + 1;
    }
    proof {
        assert(data@ =~= xor_seq(old(data)@, key));
        assert(encoded_data@ =~= xor_seq(old(data)@, key));
    }
    encoded_data
}

/// XOR with one key byte undoes itself: transforming twice restores every
/// byte sequence.
pub proof fn lemma_xor_involution(s: Seq<u8>, key: u8)
    ensures
        xor_seq(xor_seq(s, key), key) == s,
{
    assert forall|i: int| 0 <= i < s.len() implies xor_seq(xor_seq(s, key), key)[i] == s[i] by {
        let b = s[i];
        assert((b ^ key) ^ key == b) by (bit_vector);
    }
    assert(xor_seq(xor_seq(s, key), key) =~= s);
}

/// XOR of the seven data bits of a byte: the parity bit that a 7-bit serial
/// frame carries beside them.
pub open spec fn odd_parity_bit(val: u8) -> u8 {
    (val ^ (val >> 1) ^ (val >> 2) ^ (val >> 3) ^ (val >> 4) ^ (val >> 5) ^ (val >> 6)) & 1
}

/// The same parity computed by successive folds of the low seven bits:
/// nibble, pair, then single bit.
pub open spec fn parity_fold(x: u8) -> u8 {
    let a = (x & 0x7f) as u8;
    let b = ((a ^ (a >> 4u8)) & 0x0f) as u8;
    let c = ((b ^ (b >> 2u8)) & 0x03) as u8;
    ((c ^ (c >> 1u8)) & 0x01) as u8
}

proof fn lemma_parity_fold(x: u8)
    ensures
        parity_fold(x) == odd_parity_bit(x),
{
    assert(parity_fold(x) == odd_parity_bit(x)) by (bit_vector);
}

/// Parity of the seven data bits of `val`, folded nibble, pair, and bit at a
/// time.
pub fn oddparity(val: u8) -> (r: u8)
    ensures
        r == odd_parity_bit(val),
{
    let a = val & 0x7f;
    let b = (a ^ (a >> 4u8)) & 0x0f;
    let c = (b ^ (b >> 2u8)) & 0x03;
    let d = (c ^ (c >> 1u8)) & 0x01;
    proof {
        lemma_parity_fold(val);
    }
    d
}

} // verus!
