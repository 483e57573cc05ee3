//! Motorola S-record decoding: one line `S<type><count><address><data><checksum>`,
//! all fields hex-encoded, with a two's-complement checksum over the count,
//! address and data bytes; and the decode session that folds data records
//! into a sparse image.

use vstd::prelude::*;

use crate::diag::{DecodeError, SessionError, SessionErrorModel};
use crate::hexutil::{
    be_bytes, be_bytes_u32, be_val, be_value_u32, bytes_of_pairs_from, decode_hex_pairs,
    first_non_hex_from, hex_pairs_seq, hex_val, is_blank, is_blank_line, is_hex_digit,
    lemma_be_bytes_roundtrip, lemma_decode_encoded_pairs, lemma_first_non_hex_from,
    lemma_hex_val_bound, lemma_sum_seq_append, neg_byte, neg_byte_of, pair_val, pow256,
    scan_non_hex, sum_range, sum_seq,
};
use crate::image::{write_at, Image};

verus! {

/// One decoded S-record line.
pub struct SRecord {
    /// The record-type digit, 0 through 9.
    pub record_type: u8,
    /// The address field, two to four bytes wide depending on the type.
    pub address: u32,
    /// The data bytes.
    pub data: Vec<u8>,
    /// The trailing checksum byte as written in the line.
    pub checksum: u8,
}

/// Mathematical model of an `SRecord`.
#[verifier::ext_equal]
pub ghost struct SRecordModel {
    pub record_type: u8,
    pub address: u32,
    pub data: Seq<u8>,
    pub checksum: u8,
}

impl View for SRecord {
    type V = SRecordModel;

    open spec fn view(&self) -> SRecordModel {
        SRecordModel {
            record_type: self.record_type,
            address: self.address,
            data: self.data@,
            checksum: self.checksum,
        }
    }
}

/// Width of the address field in bytes, fixed by the record type: two for
/// types 0, 1, 5 and 9, three for 2 and 8, four for 3 and 7.
pub open spec fn srec_addr_bytes(t: u8) -> int {
    if t == 0 || t == 1 || t == 5 || t == 9 {
        2
    } else if t == 2 || t == 8 {
        3
    } else {
        4
    }
}

/// The record types the format defines (0 through 9, without the reserved
/// 4 and 6).
pub open spec fn srec_kind_known(t: u8) -> bool {
    t <= 9 && t != 4 && t != 6
}

/// Data records: their bytes go into the image.
pub open spec fn srec_is_data(t: u8) -> bool {
    t == 1 || t == 2 || t == 3
}

/// Termination records: they freeze the image and end the session.
pub open spec fn srec_is_terminal(t: u8) -> bool {
    t == 7 || t == 8 || t == 9
}

/// The count field a well-formed record of this shape declares: address
/// bytes, data bytes, and the checksum byte.
pub open spec fn srec_byte_count(m: SRecordModel) -> int {
    srec_addr_bytes(m.record_type) + m.data.len() + 1
}

/// The checksum the format computes for a record: two's complement of the
/// low byte of the sum of the count byte, the address bytes and the data
/// bytes.
pub open spec fn srec_computed_checksum(m: SRecordModel) -> u8 {
    neg_byte(
        srec_byte_count(m) + sum_seq(
            be_bytes(m.address as int, srec_addr_bytes(m.record_type) as nat),
        ) + sum_seq(m.data),
    )
}

/// A record that one valid line can carry: a known type, an address that
/// fits the type's field, a count that fits one byte, and a matching
/// checksum.
pub open spec fn srec_wf(m: SRecordModel) -> bool {
    &&& srec_kind_known(m.record_type)
    &&& srec_byte_count(m) <= 255
    &&& (m.address as int) < pow256(srec_addr_bytes(m.record_type) as nat)
    &&& m.checksum == srec_computed_checksum(m)
}

/// What decoding one S-record line yields: the record, or the first reason
/// the line is rejected. The line must carry the `S` sentinel, a record-type
/// digit naming a defined type, hex digits throughout, a count field that
/// matches the line's length and covers the address and checksum, and a
/// checksum that matches the computed one.
pub open spec fn srec_parse_spec(line: Seq<u8>) -> Result<SRecordModel, DecodeError> {
    if line.len() == 0 || line[0] != 0x53 {
        Err(DecodeError::MissingSentinel)
    } else if line.len() < 10 {
        Err(DecodeError::TooShort)
    } else if !(0x30 <= line[1] && line[1] <= 0x39) {
        Err(DecodeError::BadRecordType)
    } else {
        let t = (line[1] - 0x30) as u8;
        if t == 4 || t == 6 {
            Err(DecodeError::UnsupportedRecordType { kind: t })
        } else if first_non_hex_from(line, 2) < line.len() {
            Err(DecodeError::NonHexDigit { offset: first_non_hex_from(line, 2) as usize })
        } else if (line.len() - 2) % 2 != 0 {
            Err(DecodeError::OddLength)
        } else {
            let wb = srec_addr_bytes(t);
            let bytes = bytes_of_pairs_from(line, 2);
            let count = bytes[0] as int;
            if count < wb + 1 || bytes.len() != count + 1 {
                Err(DecodeError::LengthMismatch)
            } else {
                let declared = bytes[count];
                let computed = neg_byte(sum_seq(bytes.take(count)));
                if declared != computed {
                    Err(DecodeError::ChecksumMismatch { declared, computed })
                } else {
                    Ok(
                        SRecordModel {
                            record_type: t,
                            address: be_val(bytes.subrange(1, 1 + wb)) as u32,
                            data: bytes.subrange(1 + wb, count),
                            checksum: declared,
                        },
                    )
                }
            }
        }
    }
}

impl SRecord {
    /// Decodes one S-record line, validating framing and checksum.
    pub fn parse(line: &[u8]) -> (r: Result<SRecord, DecodeError>)
        ensures
            (r matches Ok(rec) ==> srec_parse_spec(line@) == Ok::<SRecordModel, DecodeError>(
                rec@,
            )),
            (r matches Err(e) ==> srec_parse_spec(line@) == Err::<SRecordModel, DecodeError>(e)),
    {
        if line.len() == 0 || line[0] != 0x53 {
            return Err(DecodeError::MissingSentinel);
        }
        if line.len() < 10 {
            return Err(DecodeError::TooShort);
        }
        let tc = line[1];
        if !(0x30 <= tc && tc <= 0x39) {
            return Err(DecodeError::BadRecordType);
        }
        let t = tc - 0x30;
        if t == 4 || t == 6 {
            return Err(DecodeError::UnsupportedRecordType { kind: t });
        }
        proof {
            lemma_first_non_hex_from(line@, 2);
        }
        if let Some(off) = scan_non_hex(line, 2) {
            return Err(DecodeError::NonHexDigit { offset: off });
        }
        if (line.len() - 2) % 2 != 0 {
            return Err(DecodeError::OddLength);
        }
        let bytes = decode_hex_pairs(line, 2);
        let wb: usize = if t == 0 || t == 1 || t == 5 || t == 9 {
            2
        } else if t == 2 || t == 8 {
            3
        } else {
            4
        };
        let count = bytes[0] as usize;
        if count < wb + 1 || bytes.len() != count + 1 {
            return Err(DecodeError::LengthMismatch);
        }
        let declared = bytes[count];
        let sum = sum_range(bytes.as_slice(), 0, count);
        proof {
            assert(bytes@.subrange(0, count as int) =~= bytes@.take(count as int));
        }
        let computed = neg_byte_of(sum);
        if declared != computed {
            return Err(DecodeError::ChecksumMismatch { declared, computed });
        }
        let address = be_value_u32(bytes.as_slice(), 1, 1 + wb);
        let mut data: Vec<u8> = Vec::new();
        let mut i: usize = 1 + wb;
        while i < count
            invariant
                1 + wb <= i <= count,
                count < bytes@.len(),
                data@ =~= bytes@.subrange(1 + wb, i as int),
            decreases count - i,
        {
            data.push(bytes[i]);
            proof {
                assert(data@ =~= bytes@.subrange(1 + wb, i + 1));
            }
            i = i + 1;
        }
        let rec = SRecord { record_type: t, address, data, checksum: declared };
        proof {
            assert(rec@ =~= srec_parse_spec(line@).unwrap());
        }
        Ok(rec)
    }
}

/// The role a record plays in a session, as a closed set: the reserved types
/// 4 and 6 never leave the parser.
#[derive(Debug, Clone, Copy, PartialEq, Eq, Structural)]
pub enum SRecordKind {
    /// S0: the header record.
    Header,
    /// S1, S2, S3: data for the image.
    Data,
    /// S5: the record-count record.
    Count,
    /// S7, S8, S9: start-address records that terminate the image.
    Terminal,
}

impl SRecord {
    /// Classifies this record's type.
    pub fn kind(&self) -> (r: SRecordKind)
        requires
            srec_kind_known(self@.record_type),
        ensures
            (r == SRecordKind::Data) == srec_is_data(self@.record_type),
            (r == SRecordKind::Terminal) == srec_is_terminal(self@.record_type),
            (r == SRecordKind::Header) == (self@.record_type == 0),
            (r == SRecordKind::Count) == (self@.record_type == 5),
    {
        if self.record_type == 0 {
            SRecordKind::Header
        } else if self.record_type == 1 || self.record_type == 2 || self.record_type == 3 {
            SRecordKind::Data
        } else if self.record_type == 5 {
            SRecordKind::Count
        } else {
            SRecordKind::Terminal
        }
    }
}

/// The canonical text of a record: the sentinel, the type digit, and the
/// count, address, data and checksum bytes as uppercase hex pairs.
pub open spec fn srec_frame_bytes(m: SRecordModel) -> Seq<u8> {
    seq![srec_byte_count(m) as u8] + be_bytes(m.address as int, srec_addr_bytes(m.record_type) as nat)
        + m.data + seq![m.checksum]
}

pub open spec fn srec_encode_spec(m: SRecordModel) -> Seq<u8> {
    seq![0x53u8, (0x30 + m.record_type) as u8] + hex_pairs_seq(srec_frame_bytes(m))
}

/// Decoding an encoded record gives the record back: the checksum and the
/// whole line grammar round-trip.
#[verifier::rlimit(100)]
pub proof fn lemma_srec_round_trip(m: SRecordModel)
    requires
        srec_wf(m),
    ensures
        srec_parse_spec(srec_encode_spec(m)) == Ok::<SRecordModel, DecodeError>(m),
{
    let t = m.record_type;
    let wb = srec_addr_bytes(t);
    let count = srec_byte_count(m);
    let abs = be_bytes(m.address as int, wb as nat);
    lemma_be_bytes_roundtrip(m.address as int, wb as nat);
    let frame = srec_frame_bytes(m);
    let prefix = seq![0x53u8, (0x30 + t) as u8];
    let line = srec_encode_spec(m);
    assert(line =~= prefix + hex_pairs_seq(frame));
    lemma_decode_encoded_pairs(prefix, frame);
    assert(frame.len() == count + 1);
    assert(line.len() == 2 + 2 * (count + 1));
    assert(line[0] == 0x53);
    assert(line[1] == 0x30 + t);
    lemma_first_non_hex_from(line, 2);
    let bytes = bytes_of_pairs_from(line, 2);
    assert(bytes == frame);
    assert(frame[0] == count as u8);
    assert(bytes.subrange(1, 1 + wb) =~= abs);
    assert(bytes.subrange(1 + wb, count) =~= m.data);
    assert(bytes[count] == m.checksum);
    assert(bytes.take(count) =~= seq![count as u8] + (abs + m.data));
    lemma_sum_seq_append(seq![count as u8], abs + m.data);
    lemma_sum_seq_append(abs, m.data);
    let cb = count as u8;
    assert(sum_seq(seq![cb]) == count) by {
        assert(seq![cb].drop_last() =~= Seq::<u8>::empty());
        assert(seq![cb].last() == cb);
        assert(sum_seq(Seq::<u8>::empty()) == 0);
        assert(3 <= count <= 255);
    }
    assert(neg_byte(sum_seq(bytes.take(count))) == srec_computed_checksum(m));
    assert(srec_parse_spec(line).unwrap() =~= m);
}

/// Corrupting either hex digit of a valid line's checksum field — replacing
/// it by any hex digit of a different value — makes decoding fail with a
/// checksum error, never yield a silently wrong record.
#[verifier::rlimit(100)]
pub proof fn lemma_srec_checksum_corruption(line: Seq<u8>, i: int, c: u8)
    requires
        srec_parse_spec(line) matches Ok(_),
        line.len() - 2 <= i < line.len(),
        is_hex_digit(c),
        hex_val(c) != hex_val(line[i]),
    ensures
        ({
            let line2 = line.update(i, c);
            srec_parse_spec(line2) == Err::<SRecordModel, DecodeError>(
                DecodeError::ChecksumMismatch {
                    declared: pair_val(line2[line.len() - 2], line2[line.len() - 1]),
                    computed: srec_parse_spec(line).unwrap().checksum,
                },
            )
        }),
{
    let line2 = line.update(i, c);
    let len = line.len() as int;
    let t = (line[1] - 0x30) as u8;
    let wb = srec_addr_bytes(t);
    lemma_first_non_hex_from(line, 2);
    assert(first_non_hex_from(line, 2) == len);
    assert(forall|j: int| 2 <= j < len ==> is_hex_digit(#[trigger] line[j]));
    assert(forall|j: int| 2 <= j < len ==> is_hex_digit(#[trigger] line2[j]));
    lemma_first_non_hex_from(line2, 2);
    assert(first_non_hex_from(line2, 2) == line2.len());
    let bytes = bytes_of_pairs_from(line, 2);
    let bytes2 = bytes_of_pairs_from(line2, 2);
    let n = bytes.len() as int;
    let count = bytes[0] as int;
    assert(n == count + 1);
    assert forall|j: int| 0 <= j < n - 1 implies bytes2[j] == bytes[j] by {
        assert(2 + 2 * j + 1 < len - 2);
        assert(line2[2 + 2 * j] == line[2 + 2 * j]);
        assert(line2[2 + 2 * j + 1] == line[2 + 2 * j + 1]);
    }
    assert(bytes2[0] == bytes[0]);
    assert(bytes2.take(count) =~= bytes.take(count));
    let declared = bytes[count];
    let declared2 = bytes2[count];
    let computed = neg_byte(sum_seq(bytes.take(count)));
    assert(declared == computed);
    let hi = line[len - 2];
    let lo = line[len - 1];
    let hi2 = line2[len - 2];
    let lo2 = line2[len - 1];
    assert(2 + 2 * (count) == len - 2);
    assert(declared2 == pair_val(hi2, lo2));
    assert(declared == pair_val(hi, lo));
    lemma_hex_val_bound(hi);
    lemma_hex_val_bound(lo);
    lemma_hex_val_bound(c);
    if i == len - 2 {
        assert(hi2 == c && lo2 == lo);
        assert(pair_val(hi2, lo2) != pair_val(hi, lo));
    } else {
        assert(hi2 == hi && lo2 == c);
        assert(pair_val(hi2, lo2) != pair_val(hi, lo));
    }
    assert(declared2 != computed);
    assert(srec_parse_spec(line2) == Err::<SRecordModel, DecodeError>(
        DecodeError::ChecksumMismatch { declared: declared2, computed },
    ));
}

/// Encodes a record as its canonical S-record line; parsing the line gives
/// the record back.
pub fn encode(rec: &SRecord) -> (r: Vec<u8>)
    requires
        srec_wf(rec@),
    ensures
        r@ == srec_encode_spec(rec@),
        srec_parse_spec(r@) == Ok::<SRecordModel, DecodeError>(rec@),
{
    let wb: usize = if rec.record_type == 0 || rec.record_type == 1 || rec.record_type == 5
        || rec.record_type == 9 {
        2
    } else if rec.record_type == 2 || rec.record_type == 8 {
        3
    } else {
        4
    };
    let count: u8 = (wb as u8) + (rec.data.len() as u8) + 1;
    let mut frame: Vec<u8> = Vec::new();
    frame.push(count);
    let mut abs = be_bytes_u32(rec.address, wb);
    let mut i: usize = 0;
    while i < abs.len()
        invariant
            i <= abs@.len(),
            frame@ =~= seq![count] + abs@.take(i as int),
        decreases abs@.len() - i,
    {
        frame.push(abs[i]);
        proof {
            assert(frame@ =~= seq![count] + abs@.take(i + 1));
        }
        i = i + 1;
    }
    proof {
        assert(abs@.take(abs@.len() as int) =~= abs@);
    }
    let mut j: usize = 0;
    while j < rec.data.len()
        invariant
            j <= rec.data@.len(),
            abs@.len() == wb,
            frame@ =~= seq![count] + abs@ + rec.data@.take(j as int),
        decreases rec.data@.len() - j,
    {
        frame.push(rec.data[j]);
        proof {
            assert(frame@ =~= seq![count] + abs@ + rec.data@.take(j + 1));
        }
        j = j + 1;
    }
    proof {
        assert(rec.data@.take(rec.data@.len() as int) =~= rec.data@);
    }
    frame.push(rec.checksum);
    proof {
        assert(frame@ =~= srec_frame_bytes(rec@));
    }
    let mut line: Vec<u8> = Vec::new();
    line.push(0x53);
    line.push(0x30 + rec.record_type);
    push_frame(&mut line, &frame);
    proof {
        assert(line@ =~= srec_encode_spec(rec@));
        lemma_srec_round_trip(rec@);
    }
    line
}

/// Appends the hex rendering of the frame to the line being built.
fn push_frame(line: &mut Vec<u8>, frame: &Vec<u8>)
    requires
        old(line)@.len() + 2 * frame@.len() <= usize::MAX,
    ensures
        final(line)@ == old(line)@ + hex_pairs_seq(frame@),
{
    crate::hexutil::push_hex_pairs(line, frame.as_slice());
}

/// The checksum the format computes for a record with these fields: the
/// count byte, each address byte and each data byte summed with 8-bit
/// wraparound, then two's-complemented.
pub fn compute_checksum(record_type: u8, address: u32, data: &[u8]) -> (r: u8)
    requires
        data@.len() <= 255,
    ensures
        r == srec_computed_checksum(
            SRecordModel { record_type, address, data: data@, checksum: 0 },
        ),
{
    let wb: usize = if record_type == 0 || record_type == 1 || record_type == 5 || record_type
        == 9 {
        2
    } else if record_type == 2 || record_type == 8 {
        3
    } else {
        4
    };
    let count: u32 = (wb as u32) + (data.len() as u32) + 1;
    let abs = be_bytes_u32(address, wb);
    let asum = sum_range(abs.as_slice(), 0, abs.len());
    let dsum = sum_range(data, 0, data.len());
    proof {
        assert(abs@.subrange(0, abs@.len() as int) =~= abs@);
        assert(data@.subrange(0, data@.len() as int) =~= data@);
        crate::hexutil::lemma_sum_seq_bound(abs@);
        crate::hexutil::lemma_sum_seq_bound(data@);
    }
    neg_byte_of(count + asum + dsum)
}

/// One step of the decode session over a list of lines, from line `i` on:
/// blank lines are skipped, data records are written into the image,
/// termination records freeze it (later lines are ignored), other known
/// records contribute nothing, and the first rejected line aborts the whole
/// session with its number and text.
pub open spec fn srec_run(lines: Seq<Seq<u8>>, i: int, img: Seq<u8>) -> Result<
    Seq<u8>,
    SessionErrorModel,
>
    decreases lines.len() - i when 0 <= i <= lines.len()
{
    if i >= lines.len() {
        Ok(img)
    } else if is_blank(lines[i]) {
        srec_run(lines, i + 1, img)
    } else {
        match srec_parse_spec(lines[i]) {
            Err(e) => Err(SessionErrorModel { line_number: i + 1, line: lines[i], error: e }),
            Ok(m) => {
                if srec_is_terminal(m.record_type) {
                    Ok(img)
                } else if srec_is_data(m.record_type) {
                    srec_run(lines, i + 1, write_at(img, m.address as int, m.data))
                } else {
                    srec_run(lines, i + 1, img)
                }
            },
        }
    }
}

/// The image an S-record decode session produces from these lines, or the
/// error that aborts it.
pub open spec fn srec_image_spec(lines: Seq<Seq<u8>>) -> Result<Seq<u8>, SessionErrorModel> {
    srec_run(lines, 0, Seq::empty())
}

/// Decodes a whole S-record session: every line in order, all-or-nothing.
/// On the first malformed line the session aborts with that line's number
/// and raw text; no partial image is returned.
pub fn decode_srec_lines(lines: &Vec<Vec<u8>>) -> (r: Result<Vec<u8>, SessionError>)
    requires
        usize::MAX >= 0x1_0000_00fe,
    ensures
        (r matches Ok(img) ==> srec_image_spec(lines.deep_view()) == Ok::<
            Seq<u8>,
            SessionErrorModel,
        >(img@)),
        (r matches Err(e) ==> srec_image_spec(lines.deep_view()) == Err::<
            Seq<u8>,
            SessionErrorModel,
        >(e@)),
{
    let ghost dv = lines.deep_view();
    let mut image = Image::new();
    let mut idx: usize = 0;
    while idx < lines.len()
        invariant
            idx <= lines@.len(),
            dv == lines.deep_view(),
            dv.len() == lines@.len(),
            usize::MAX >= 0x1_0000_00fe,
            forall|k: int| 0 <= k < dv.len() ==> dv[k] == #[trigger] lines@[k]@,
            srec_run(dv, 0, Seq::empty()) == srec_run(dv, idx as int, image@),
        decreases lines@.len() - idx,
    {
        let line = &lines[idx];
        if !is_blank_line(line.as_slice()) {
            match SRecord::parse(line.as_slice()) {
                Err(e) => {
                    return Err(
                        SessionError { line_number: idx + 1, line: line.clone(), error: e },
                    );
                },
                Ok(rec) => {
                    proof {
                        assert(srec_kind_known(rec@.record_type));
                    }
                    match rec.kind() {
                        SRecordKind::Terminal => {
                            return Ok(image.into_bytes());
                        },
                        SRecordKind::Data => {
                            image.write_record(rec.address as usize, rec.data.as_slice());
                        },
                        SRecordKind::Header => {},
                        SRecordKind::Count => {},
                    }
                },
            }
        }
        idx = idx + 1;
    }
    Ok(image.into_bytes())
}

} // verus!
