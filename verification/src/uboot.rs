//! Vendor hex-dump decoding: each line carries an address label, a colon,
//! and at least 32 hex characters of payload; the first 16 bytes of every
//! valid line are appended to the output in file order. The format carries
//! no checksum; malformed lines are skipped with a diagnostic instead of
//! aborting, and a magic signature found in a line's decoded bytes is
//! reported as a diagnostic too.

use vstd::prelude::*;

use crate::hexutil::{
    bytes_of_pairs_from, decode_hex_pairs, hex_digit_value, is_hex_digit, is_space,
};

verus! {

/// A per-line diagnostic of the vendor hex-dump session; none of them aborts
/// the decode.
#[derive(Debug, Clone, Copy, PartialEq, Eq, Structural)]
pub enum UbootNote {
    /// The line has no `:` separator and is skipped.
    MissingSeparator { line_number: usize },
    /// The payload after the separator has fewer than 32 hex characters and
    /// the line is skipped.
    ShortPayload { line_number: usize },
    /// The payload's 32-character window holds an odd number of hex digits;
    /// the unpaired trailing digit is dropped.
    OddHexTail { line_number: usize },
    /// The line's decoded bytes start with the vendor magic signature.
    MagicFound { line_number: usize },
}

/// What a vendor hex-dump decode session returns: the concatenated bytes and
/// the per-line diagnostics.
pub struct UbootDecode {
    pub bytes: Vec<u8>,
    pub notes: Vec<UbootNote>,
}

/// Index of the first `:` at or after `from`, or `s.len()` when there is
/// none.
pub open spec fn first_colon_from(s: Seq<u8>, from: int) -> int
    recommends
        0 <= from <= s.len(),
    decreases s.len() - from when 0 <= from <= s.len()
{
    if from >= s.len() {
        s.len() as int
    } else if s[from] == 0x3a {
        from
    } else {
        first_colon_from(s, from + 1)
    }
}

/// `s` with every whitespace byte removed, order kept.
pub open spec fn strip_spaces(s: Seq<u8>) -> Seq<u8>
    decreases s.len(),
{
    if s.len() == 0 {
        Seq::empty()
    } else {
        let rest = strip_spaces(s.drop_last());
        if is_space(s.last()) {
            rest
        } else {
            rest.push(s.last())
        }
    }
}

/// The hex digits of `s`, in order, everything else dropped.
pub open spec fn keep_hex(s: Seq<u8>) -> Seq<u8>
    decreases s.len(),
{
    if s.len() == 0 {
        Seq::empty()
    } else {
        let rest = keep_hex(s.drop_last());
        if is_hex_digit(s.last()) {
            rest.push(s.last())
        } else {
            rest
        }
    }
}

proof fn lemma_keep_hex_all_hex(s: Seq<u8>)
    ensures
        forall|i: int| 0 <= i < keep_hex(s).len() ==> is_hex_digit(#[trigger] keep_hex(s)[i]),
    decreases s.len(),
{
    if s.len() > 0 {
        lemma_keep_hex_all_hex(s.drop_last());
        let rest = keep_hex(s.drop_last());
        if is_hex_digit(s.last()) {
            assert(keep_hex(s) == rest.push(s.last()));
            assert forall|i: int| 0 <= i < keep_hex(s).len() implies is_hex_digit(
                #[trigger] keep_hex(s)[i],
            ) by {
                if i < rest.len() {
                    assert(keep_hex(s)[i] == rest[i]);
                } else {
                    assert(keep_hex(s)[i] == s.last());
                }
            }
        }
    }
}

/// `s` begins with `p`.
pub open spec fn seq_starts_with(s: Seq<u8>, p: Seq<u8>) -> bool {
    p.len() <= s.len() && s.subrange(0, p.len() as int) == p
}

/// The vendor magic signature, big-endian.
pub open spec fn uboot_magic_be() -> Seq<u8> {
    seq![0x27u8, 0x05u8, 0x19u8, 0x56u8]
}

/// The vendor magic signature, little-endian.
pub open spec fn uboot_magic_le() -> Seq<u8> {
    seq![0x56u8, 0x19u8, 0x05u8, 0x27u8]
}

/// The bytes start with the magic signature in either byte order.
pub open spec fn has_uboot_magic(bs: Seq<u8>) -> bool {
    seq_starts_with(bs, uboot_magic_be()) || seq_starts_with(bs, uboot_magic_le())
}

/// The two accepted forms of the vendor magic signature.
pub fn uboot_magic() -> (r: Vec<Vec<u8>>)
    ensures
        r@.len() == 2,
        r@[0]@ == uboot_magic_be(),
        r@[1]@ == uboot_magic_le(),
{
    let mut be: Vec<u8> = Vec::new();
    be.push(0x27);
    be.push(0x05);
    be.push(0x19);
    be.push(0x56);
    let mut le: Vec<u8> = Vec::new();
    le.push(0x56);
    le.push(0x19);
    le.push(0x05);
    le.push(0x27);
    proof {
        assert(be@ =~= uboot_magic_be());
        assert(le@ =~= uboot_magic_le());
    }
    let mut r: Vec<Vec<u8>> = Vec::new();
    r.push(be);
    r.push(le);
    r
}

/// Whether decoded bytes begin with the vendor magic signature, in either
/// byte order.
pub fn validate_uboot_magic(data: &[u8]) -> (r: bool)
    ensures
        r == has_uboot_magic(data@),
{
    if data.len() < 4 {
        return false;
    }
    let be = data[0] == 0x27 && data[1] == 0x05 && data[2] == 0x19 && data[3] == 0x56;
    let le = data[0] == 0x56 && data[1] == 0x19 && data[2] == 0x05 && data[3] == 0x27;
    proof {
        if be {
            assert(data@.subrange(0, 4) =~= uboot_magic_be());
        }
        if le {
            assert(data@.subrange(0, 4) =~= uboot_magic_le());
        }
        if seq_starts_with(data@, uboot_magic_be()) {
            assert(data@[0] == uboot_magic_be()[0]);
            assert(data@[1] == uboot_magic_be()[1]);
            assert(data@[2] == uboot_magic_be()[2]);
            assert(data@[3] == uboot_magic_be()[3]);
        }
        if seq_starts_with(data@, uboot_magic_le()) {
            assert(data@[0] == uboot_magic_le()[0]);
            assert(data@[1] == uboot_magic_le()[1]);
            assert(data@[2] == uboot_magic_le()[2]);
            assert(data@[3] == uboot_magic_le()[3]);
        }
    }
    be || le
}

/// Removes every whitespace byte, keeping the rest in order.
pub fn remove_space(s: &[u8]) -> (r: Vec<u8>)
    ensures
        r@ == strip_spaces(s@),
{
    let mut out: Vec<u8> = Vec::new();
    let mut i: usize = 0;
    while i < s.len()
        invariant
            i <= s@.len(),
            out@ =~= strip_spaces(s@.take(i as int)),
        decreases s@.len() - i,
    {
        proof {
            assert(s@.take(i + 1).drop_last() =~= s@.take(i as int));
        }
        let c = s[i];
        if !(c == 0x20 || c == 0x09 || c == 0x0a || c == 0x0d) {
            out.push(c);
        }
        i = i + 1;
    }
    proof {
        assert(s@.take(s@.len() as int) =~= s@);
    }
    out
}

/// Keeps only the hex digits, in order.
fn keep_hex_bytes(s: &[u8]) -> (r: Vec<u8>)
    ensures
        r@ == keep_hex(s@),
{
    let mut out: Vec<u8> = Vec::new();
    let mut i: usize = 0;
    while i < s.len()
        invariant
            i <= s@.len(),
            out@ =~= keep_hex(s@.take(i as int)),
        decreases s@.len() - i,
    {
        proof {
            assert(s@.take(i + 1).drop_last() =~= s@.take(i as int));
        }
        let c = s[i];
        if hex_digit_value(c).is_some() {
            out.push(c);
        }
        i = i + 1;
    }
    proof {
        assert(s@.take(s@.len() as int) =~= s@);
    }
    out
}

/// The bytes one payload line contributes to the output: nothing for a line
/// without a separator or with fewer than 32 payload characters; otherwise
/// the hex digits of the first 32 characters after the separator, decoded in
/// pairs, an unpaired trailing digit dropped.
pub open spec fn uboot_line_bytes(line: Seq<u8>) -> Seq<u8> {
    let colon = first_colon_from(line, 0);
    if colon == line.len() {
        Seq::empty()
    } else {
        let cleaned = strip_spaces(line.skip(colon + 1));
        if cleaned.len() < 32 {
            Seq::empty()
        } else {
            bytes_of_pairs_from(keep_hex(cleaned.take(32)), 0)
        }
    }
}

/// The diagnostics one line raises, under its 1-based line number.
pub open spec fn uboot_line_notes(line: Seq<u8>, line_number: usize) -> Seq<UbootNote> {
    let colon = first_colon_from(line, 0);
    if colon == line.len() {
        seq![UbootNote::MissingSeparator { line_number }]
    } else {
        let cleaned = strip_spaces(line.skip(colon + 1));
        if cleaned.len() < 32 {
            seq![UbootNote::ShortPayload { line_number }]
        } else {
            let hexes = keep_hex(cleaned.take(32));
            let odd: Seq<UbootNote> = if hexes.len() % 2 == 1 {
                seq![UbootNote::OddHexTail { line_number }]
            } else {
                Seq::empty()
            };
            let magic: Seq<UbootNote> = if has_uboot_magic(bytes_of_pairs_from(hexes, 0)) {
                seq![UbootNote::MagicFound { line_number }]
            } else {
                Seq::empty()
            };
            odd + magic
        }
    }
}

/// Decodes one payload line, appending its bytes and diagnostics.
fn decode_uboot_line(line: &[u8], line_number: usize, out: &mut Vec<u8>, notes: &mut Vec<
    UbootNote,
>)
    ensures
        final(out)@ == old(out)@ + uboot_line_bytes(line@),
        final(notes)@ == old(notes)@ + uboot_line_notes(line@, line_number),
{
    let mut colon: usize = 0;
    while colon < line.len() && line[colon] != 0x3a
        invariant
            colon <= line@.len(),
            first_colon_from(line@, 0) == first_colon_from(line@, colon as int),
        decreases line@.len() - colon,
    {
        colon = colon + 1;
    }
    if colon == line.len() {
        notes.push(UbootNote::MissingSeparator { line_number });
        proof {
            assert(notes@ =~= old(notes)@ + uboot_line_notes(line@, line_number));
            assert(out@ =~= old(out)@ + uboot_line_bytes(line@));
        }
        return ;
    }
    let mut tail: Vec<u8> = Vec::new();
    let mut j: usize = colon + 1;
    while j < line.len()
        invariant
            colon + 1 <= j <= line@.len(),
            tail@ =~= line@.subrange(colon + 1, j as int),
        decreases line@.len() - j,
    {
        tail.push(line[j]);
        proof {
            assert(tail@ =~= line@.subrange(colon + 1, j + 1));
        }
        j = j + 1;
    }
    proof {
        assert(tail@ =~= line@.skip(colon + 1));
    }
    let cleaned = remove_space(tail.as_slice());
    if cleaned.len() < 32 {
        notes.push(UbootNote::ShortPayload { line_number });
        proof {
            assert(notes@ =~= old(notes)@ + uboot_line_notes(line@, line_number));
            assert(out@ =~= old(out)@ + uboot_line_bytes(line@));
        }
        return ;
    }
    let mut window: Vec<u8> = Vec::new();
    let mut k: usize = 0;
    while k < 32
        invariant
            k <= 32,
            cleaned@.len() >= 32,
            window@ =~= cleaned@.take(32).take(k as int),
        decreases 32 - k,
    {
        window.push(cleaned[k]);
        proof {
            assert(window@ =~= cleaned@.take(32).take(k + 1));
        }
        k = k + 1;
    }
    proof {
        assert(window@ =~= cleaned@.take(32));
    }
    let hexes = keep_hex_bytes(window.as_slice());
    proof {
        lemma_keep_hex_all_hex(window@);
    }
    let bytes = decode_hex_pairs(hexes.as_slice(), 0);
    if hexes.len() % 2 == 1 {
        notes.push(UbootNote::OddHexTail { line_number });
    }
    if validate_uboot_magic(bytes.as_slice()) {
        notes.push(UbootNote::MagicFound { line_number });
    }
    let mut b: usize = 0;
    while b < bytes.len()
        invariant
            b <= bytes@.len(),
            out@ =~= old(out)@ + bytes@.take(b as int),
        decreases bytes@.len() - b,
    {
        out.push(bytes[b]);
        proof {
            assert(out@ =~= old(out)@ + bytes@.take(b + 1));
        }
        b = b + 1;
    }
    proof {
        assert(bytes@.take(bytes@.len() as int) =~= bytes@);
        assert(out@ =~= old(out)@ + uboot_line_bytes(line@));
        assert(notes@ =~= old(notes)@ + uboot_line_notes(line@, line_number));
    }
}

/// One step of the vendor hex-dump session from line `i` on: every line
/// contributes its bytes and diagnostics, and nothing aborts.
pub open spec fn uboot_run(
    lines: Seq<Seq<u8>>,
    i: int,
    bytes: Seq<u8>,
    notes: Seq<UbootNote>,
) -> (Seq<u8>, Seq<UbootNote>)
    decreases lines.len() - i when 0 <= i <= lines.len()
{
    if i >= lines.len() {
        (bytes, notes)
    } else {
        uboot_run(
            lines,
            i + 1,
            bytes + uboot_line_bytes(lines[i]),
            notes + uboot_line_notes(lines[i], (i + 1) as usize),
        )
    }
}

/// Decodes a whole vendor hex-dump session: the concatenated bytes of every
/// valid line, with per-line diagnostics instead of hard failures.
pub fn decode_uboot_lines(lines: &Vec<Vec<u8>>) -> (r: UbootDecode)
    ensures
        (r.bytes@, r.notes@) == uboot_run(lines.deep_view(), 0, Seq::empty(), Seq::empty()),
{
    let ghost dv = lines.deep_view();
    proof {
        assert forall|k: int| 0 <= k < lines@.len() implies dv[k] == #[trigger] lines@[k]@ by {
            assert(lines@[k].deep_view() =~= lines@[k]@);
        }
    }
    let mut bytes: Vec<u8> = Vec::new();
    let mut notes: Vec<UbootNote> = Vec::new();
    let mut idx: usize = 0;
    while idx < lines.len()
        invariant
            idx <= lines@.len(),
            dv == lines.deep_view(),
            dv.len() == lines@.len(),
            forall|k: int| 0 <= k < dv.len() ==> dv[k] == #[trigger] lines@[k]@,
            uboot_run(dv, 0, Seq::empty(), Seq::empty()) == uboot_run(
                dv,
                idx as int,
                bytes@,
                notes@,
            ),
        decreases lines@.len() - idx,
    {
        let line = &lines[idx];
        decode_uboot_line(line.as_slice(), idx + 1, &mut bytes, &mut notes);
        idx = idx + 1;
    }
    UbootDecode { bytes, notes }
}

} // verus!
