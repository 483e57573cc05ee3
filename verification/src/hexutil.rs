//! Hexadecimal text helpers shared by the record decoders: digit
//! classification, pairwise hex-to-byte decoding, big-endian field values,
//! and the 8-bit two's-complement checksum arithmetic.

use vstd::prelude::*;

verus! {

/// The byte is the ASCII code of a hexadecimal digit.
pub open spec fn is_hex_digit(c: u8) -> bool {
    (0x30 <= c && c <= 0x39) || (0x41 <= c && c <= 0x46) || (0x61 <= c && c <= 0x66)
}

/// Numeric value of an ASCII hex digit (0 for non-digits); always below 16.
pub open spec fn hex_val(c: u8) -> u8 {
    if 0x30 <= c && c <= 0x39 {
        (c - 0x30) as u8
    } else if 0x41 <= c && c <= 0x46 {
        (c - 0x41 + 10) as u8
    } else if 0x61 <= c && c <= 0x66 {
        (c - 0x61 + 10) as u8
    } else {
        0
    }
}

/// Uppercase ASCII hex digit for a value below 16.
pub open spec fn hex_digit_upper(v: u8) -> u8
    recommends
        v < 16,
{
    if v < 10 {
        (0x30 + v) as u8
    } else {
        (0x41 + (v - 10)) as u8
    }
}

pub broadcast proof fn lemma_hex_val_bound(c: u8)
    ensures
        #[trigger] hex_val(c) < 16,
{
}

pub broadcast proof fn lemma_hex_digit_upper_roundtrip(v: u8)
    requires
        v < 16,
    ensures
        is_hex_digit(#[trigger] hex_digit_upper(v)),
        hex_val(hex_digit_upper(v)) == v,
{
}

/// The byte is an ASCII space, tab, carriage return or line feed.
pub open spec fn is_space(c: u8) -> bool {
    c == 0x20 || c == 0x09 || c == 0x0a || c == 0x0d
}

/// The line holds nothing but whitespace.
pub open spec fn is_blank(s: Seq<u8>) -> bool {
    forall|i: int| 0 <= i < s.len() ==> is_space(#[trigger] s[i])
}

/// Decides whether a line is empty or whitespace-only.
pub fn is_blank_line(line: &[u8]) -> (r: bool)
    ensures
        r == is_blank(line@),
{
    let mut i: usize = 0;
    while i < line.len()
        invariant
            i <= line@.len(),
            forall|j: int| 0 <= j < i ==> is_space(#[trigger] line@[j]),
        decreases line@.len() - i,
    {
        let c = line[i];
        if !(c == 0x20 || c == 0x09 || c == 0x0a || c == 0x0d) {
            return false;
        }
        i = i + 1;
    }
    true
}

/// Value of the two ASCII hex digits `hi`, `lo` read as one byte.
pub open spec fn pair_val(hi: u8, lo: u8) -> u8 {
    (16 * hex_val(hi) + hex_val(lo)) as u8
}

/// Bytes decoded from consecutive hex-digit pairs of `s` starting at `from`;
/// a trailing unpaired digit is dropped.
pub open spec fn bytes_of_pairs_from(s: Seq<u8>, from: int) -> Seq<u8>
    recommends
        0 <= from <= s.len(),
{
    Seq::new(((s.len() - from) / 2) as nat, |i: int| pair_val(s[from + 2 * i], s[from + 2 * i + 1]))
}

/// Index of the first byte at or after `from` that is not a hex digit,
/// or `s.len()` when all of them are.
pub open spec fn first_non_hex_from(s: Seq<u8>, from: int) -> int
    recommends
        0 <= from <= s.len(),
    decreases s.len() - from when 0 <= from <= s.len()
{
    if from >= s.len() {
        s.len() as int
    } else if !is_hex_digit(s[from]) {
        from
    } else {
        first_non_hex_from(s, from + 1)
    }
}

pub proof fn lemma_first_non_hex_from(s: Seq<u8>, from: int)
    requires
        0 <= from <= s.len(),
    ensures
        from <= first_non_hex_from(s, from) <= s.len(),
        forall|j: int| from <= j < first_non_hex_from(s, from) ==> is_hex_digit(#[trigger] s[j]),
        first_non_hex_from(s, from) < s.len() ==> !is_hex_digit(s[first_non_hex_from(s, from)]),
        (forall|j: int| from <= j < s.len() ==> is_hex_digit(#[trigger] s[j])) ==> first_non_hex_from(
            s,
            from,
        ) == s.len(),
    decreases s.len() - from,
{
    if from < s.len() && is_hex_digit(s[from]) {
        lemma_first_non_hex_from(s, from + 1);
    }
}

/// Big-endian value of a byte sequence.
pub open spec fn be_val(s: Seq<u8>) -> int
    decreases s.len(),
{
    if s.len() == 0 {
        0
    } else {
        be_val(s.drop_last()) * 256 + s.last()
    }
}

/// 256 to the power `n`.
pub open spec fn pow256(n: nat) -> int
    decreases n,
{
    if n == 0 {
        1
    } else {
        256 * pow256((n - 1) as nat)
    }
}

pub proof fn lemma_be_val_bound(s: Seq<u8>)
    ensures
        0 <= be_val(s) < pow256(s.len()),
    decreases s.len(),
{
    if s.len() > 0 {
        lemma_be_val_bound(s.drop_last());
    }
}

/// Big-endian byte decomposition of a value into `n` bytes.
pub open spec fn be_bytes(x: int, n: nat) -> Seq<u8>
    decreases n,
{
    if n == 0 {
        Seq::empty()
    } else {
        be_bytes(x / 256, (n - 1) as nat).push((x % 256) as u8)
    }
}

pub proof fn lemma_be_bytes_roundtrip(x: int, n: nat)
    requires
        0 <= x < pow256(n),
    ensures
        be_bytes(x, n).len() == n,
        be_val(be_bytes(x, n)) == x,
    decreases n,
{
    if n > 0 {
        lemma_be_bytes_roundtrip(x / 256, (n - 1) as nat);
        assert(be_bytes(x, n).drop_last() =~= be_bytes(x / 256, (n - 1) as nat));
    }
}

/// Sum of a byte sequence as an unbounded integer.
pub open spec fn sum_seq(s: Seq<u8>) -> int
    decreases s.len(),
{
    if s.len() == 0 {
        0
    } else {
        sum_seq(s.drop_last()) + s.last()
    }
}

pub proof fn lemma_pow256_small()
    ensures
        pow256(0) == 1,
        pow256(1) == 0x100,
        pow256(2) == 0x1_0000,
        pow256(3) == 0x100_0000,
        pow256(4) == 0x1_0000_0000,
{
    assert(pow256(1) == 256 * pow256(0));
    assert(pow256(2) == 256 * pow256(1));
    assert(pow256(3) == 256 * pow256(2));
    assert(pow256(4) == 256 * pow256(3));
}

pub proof fn lemma_sum_seq_bound(s: Seq<u8>)
    ensures
        0 <= sum_seq(s) <= 255 * s.len(),
    decreases s.len(),
{
    if s.len() > 0 {
        lemma_sum_seq_bound(s.drop_last());
    }
}

/// Two's complement of the low byte of `x`: the byte that makes
/// `x + neg_byte(x)` a multiple of 256.
pub open spec fn neg_byte(x: int) -> u8 {
    ((256 - (x % 256)) % 256) as u8
}

/// Classifies one byte as an ASCII hex digit and yields its value.
pub fn hex_digit_value(c: u8) -> (r: Option<u8>)
    ensures
        r == if is_hex_digit(c) {
            Some(hex_val(c))
        } else {
            None::<u8>
        },
{
    if 0x30 <= c && c <= 0x39 {
        Some(c - 0x30)
    } else if 0x41 <= c && c <= 0x46 {
        Some(c - 0x41 + 10)
    } else if 0x61 <= c && c <= 0x66 {
        Some(c - 0x61 + 10)
    } else {
        None
    }
}

/// Uppercase ASCII hex digit of a value below 16.
pub fn hex_digit_to_upper(v: u8) -> (r: u8)
    requires
        v < 16,
    ensures
        r == hex_digit_upper(v),
{
    if v < 10 {
        0x30 + v
    } else {
        0x41 + (v - 10)
    }
}

/// Scans `line` from `start` and reports the first non-hex-digit position.
pub fn scan_non_hex(line: &[u8], start: usize) -> (r: Option<usize>)
    requires
        start <= line@.len(),
    ensures
        ({
            let f = first_non_hex_from(line@, start as int);
            if f == line@.len() {
                r == None::<usize>
            } else {
                r == Some(f as usize)
            }
        }),
{
    let mut i = start;
    while i < line.len()
        invariant
            start <= i <= line@.len(),
            first_non_hex_from(line@, start as int) == first_non_hex_from(line@, i as int),
        decreases line@.len() - i,
    {
        if hex_digit_value(line[i]).is_none() {
            return Some(i);
        }
        i = i + 1;
    }
    None
}

/// Decodes the hex-digit pairs of `line` from `start` on into bytes.
pub fn decode_hex_pairs(line: &[u8], start: usize) -> (r: Vec<u8>)
    requires
        start <= line@.len(),
        forall|j: int| start <= j < line@.len() ==> is_hex_digit(#[trigger] line@[j]),
    ensures
        r@ == bytes_of_pairs_from(line@, start as int),
{
    let ghost target = bytes_of_pairs_from(line@, start as int);
    let mut out: Vec<u8> = Vec::new();
    let n = (line.len() - start) / 2;
    assert(start + 2 * n <= line@.len());
    let mut i: usize = 0;
    while i < n
        invariant
            start <= line@.len(),
            n == (line@.len() - start) / 2,
            start + 2 * n <= line@.len(),
            i <= n,
            target == bytes_of_pairs_from(line@, start as int),
            target.len() == n,
            out@ =~= target.take(i as int),
            forall|j: int| start <= j < line@.len() ==> is_hex_digit(#[trigger] line@[j]),
            line@.len() <= usize::MAX,
        decreases n - i,
    {
        assert(start + 2 * i + 1 < line@.len());
        let hi = line[start + 2 * i];
        let lo = line[start + 2 * i + 1];
        proof {
            lemma_hex_val_bound(hi);
            lemma_hex_val_bound(lo);
        }
        let hv = match hex_digit_value(hi) {
            Some(v) => v,
            None => 0,
        };
        let lv = match hex_digit_value(lo) {
            Some(v) => v,
            None => 0,
        };
        out.push(16 * hv + lv);
        proof {
            assert(out@ =~= target.take(i + 1));
        }
        i = i + 1;
    }
    proof {
        assert(out@ =~= target);
    }
    out
}

/// Big-endian value of `bs[start..end]`, which fits in a `u32` for a field
/// of at most four bytes.
pub fn be_value_u32(bs: &[u8], start: usize, end: usize) -> (r: u32)
    requires
        start <= end <= bs@.len(),
        end - start <= 4,
    ensures
        r == be_val(bs@.subrange(start as int, end as int)),
{
    proof {
        lemma_pow256_small();
        assert(bs@.subrange(start as int, start as int) =~= Seq::<u8>::empty());
    }
    let mut acc: u64 = 0;
    let mut i: usize = start;
    while i < end
        invariant
            start <= i <= end <= bs@.len(),
            end - start <= 4,
            acc == be_val(bs@.subrange(start as int, i as int)),
            0 <= acc < pow256((i - start) as nat),
            pow256((i - start) as nat) <= pow256(4),
            pow256(4) == 0x1_0000_0000,
        decreases end - i,
    {
        proof {
            assert(bs@.subrange(start as int, i + 1).drop_last() =~= bs@.subrange(
                start as int,
                i as int,
            ));
            lemma_pow256_small();
            assert(pow256((i + 1 - start) as nat) == 256 * pow256((i - start) as nat));
        }
        acc = acc * 256 + bs[i] as u64;
        i = i + 1;
    }
    proof {
        lemma_pow256_small();
    }
    acc as u32
}

/// Sum of the bytes `bs[start..end]`.
pub fn sum_range(bs: &[u8], start: usize, end: usize) -> (r: u32)
    requires
        start <= end <= bs@.len(),
        end - start <= 0xffff,
    ensures
        r == sum_seq(bs@.subrange(start as int, end as int)),
{
    proof {
        assert(bs@.subrange(start as int, start as int) =~= Seq::<u8>::empty());
    }
    let mut acc: u32 = 0;
    let mut i: usize = start;
    while i < end
        invariant
            start <= i <= end <= bs@.len(),
            end - start <= 0xffff,
            acc == sum_seq(bs@.subrange(start as int, i as int)),
            acc <= 255 * (i - start),
        decreases end - i,
    {
        proof {
            assert(bs@.subrange(start as int, i + 1).drop_last() =~= bs@.subrange(
                start as int,
                i as int,
            ));
        }
        acc = acc + bs[i] as u32;
        i = i + 1;
    }
    acc
}

/// The sum of a concatenation is the sum of the parts.
pub proof fn lemma_sum_seq_append(a: Seq<u8>, b: Seq<u8>)
    ensures
        sum_seq(a + b) == sum_seq(a) + sum_seq(b),
    decreases b.len(),
{
    if b.len() == 0 {
        assert(a + b =~= a);
    } else {
        lemma_sum_seq_append(a, b.drop_last());
        assert((a + b).drop_last() =~= a + b.drop_last());
    }
}

/// The ASCII rendering of a byte sequence as uppercase hex-digit pairs.
pub open spec fn hex_pairs_seq(bs: Seq<u8>) -> Seq<u8> {
    Seq::new((2 * bs.len()) as nat, |i: int|
        if i % 2 == 0 {
            hex_digit_upper((bs[i / 2] / 16) as u8)
        } else {
            hex_digit_upper((bs[i / 2] % 16) as u8)
        }
    )
}

/// Decoding a hex-pair rendering after any prefix gives the bytes back, and
/// every rendered character is a hex digit.
pub proof fn lemma_decode_encoded_pairs(prefix: Seq<u8>, bs: Seq<u8>)
    ensures
        bytes_of_pairs_from(prefix + hex_pairs_seq(bs), prefix.len() as int) == bs,
        forall|j: int| prefix.len() <= j < prefix.len() + 2 * bs.len() ==> is_hex_digit(
            #[trigger] (prefix + hex_pairs_seq(bs))[j],
        ),
{
    let line = prefix + hex_pairs_seq(bs);
    let p = prefix.len() as int;
    assert forall|j: int| p <= j < p + 2 * bs.len() implies is_hex_digit(#[trigger] line[j]) by {
        let k = j - p;
        assert(line[j] == hex_pairs_seq(bs)[k]);
        if k % 2 == 0 {
            lemma_hex_digit_upper_roundtrip((bs[k / 2] / 16) as u8);
        } else {
            lemma_hex_digit_upper_roundtrip((bs[k / 2] % 16) as u8);
        }
    }
    assert forall|i: int| 0 <= i < bs.len() implies bytes_of_pairs_from(line, p)[i] == bs[i] by {
        assert(line[p + 2 * i] == hex_pairs_seq(bs)[2 * i]);
        assert(line[p + 2 * i + 1] == hex_pairs_seq(bs)[2 * i + 1]);
        assert((2 * i) / 2 == i);
        assert((2 * i + 1) / 2 == i);
        lemma_hex_digit_upper_roundtrip((bs[i] / 16) as u8);
        lemma_hex_digit_upper_roundtrip((bs[i] % 16) as u8);
        assert(pair_val(hex_digit_upper((bs[i] / 16) as u8), hex_digit_upper((bs[i] % 16) as u8))
            == bs[i]);
    }
    assert(bytes_of_pairs_from(line, p) =~= bs);
}

/// Appends the uppercase hex rendering of `bs` to `out`.
pub fn push_hex_pairs(out: &mut Vec<u8>, bs: &[u8])
    requires
        old(out)@.len() + 2 * bs@.len() <= usize::MAX,
    ensures
        final(out)@ == old(out)@ + hex_pairs_seq(bs@),
{
    let ghost target = old(out)@ + hex_pairs_seq(bs@);
    let mut i: usize = 0;
    while i < bs.len()
        invariant
            i <= bs@.len(),
            old(out)@.len() + 2 * bs@.len() <= usize::MAX,
            target == old(out)@ + hex_pairs_seq(bs@),
            out@ =~= target.take(old(out)@.len() + 2 * i),
        decreases bs@.len() - i,
    {
        let b = bs[i];
        proof {
            assert((2 * i) % 2 == 0 && (2 * i) / 2 == i as int);
            assert((2 * i + 1) % 2 == 1 && (2 * i + 1) / 2 == i as int);
        }
        out.push(hex_digit_to_upper(b / 16));
        out.push(hex_digit_to_upper(b % 16));
        proof {
            assert(out@ =~= target.take(old(out)@.len() + 2 * (i + 1)));
        }
        i = i + 1;
    }
    proof {
        assert(out@ =~= target);
    }
}

/// Big-endian byte decomposition of a `u32` into `n` bytes.
pub fn be_bytes_u32(x: u32, n: usize) -> (r: Vec<u8>)
    requires
        n <= 4,
    ensures
        r@ == be_bytes(x as int, n as nat),
        r@.len() == n,
    decreases n,
{
    if n == 0 {
        proof {
            assert(be_bytes(x as int, 0) =~= Seq::<u8>::empty());
        }
        Vec::new()
    } else {
        let mut v = be_bytes_u32(x / 256, n - 1);
        v.push((x % 256) as u8);
        v
    }
}

/// Two's-complement checksum byte of an 8-bit running sum.
pub fn neg_byte_of(sum: u32) -> (r: u8)
    ensures
        r == neg_byte(sum as int),
{
    let low = (sum % 256) as u16;
    ((256 - low) % 256) as u8
}

} // verus!
