//! Intel HEX decoding: one line `:<count><address><type><data><checksum>`,
//! all fields hex-encoded with fixed widths, with a two's-complement checksum
//! over every frame byte; and the decode session that folds data records into
//! a sparse image until the end-of-file record.

use vstd::prelude::*;

use crate::diag::{DecodeError, SessionError, SessionErrorModel};
use crate::hexutil::{
    be_bytes, be_bytes_u32, be_val, be_value_u32, bytes_of_pairs_from, decode_hex_pairs,
    first_non_hex_from, hex_pairs_seq, hex_val, is_blank, is_blank_line, is_hex_digit,
    lemma_be_bytes_roundtrip, lemma_decode_encoded_pairs, lemma_first_non_hex_from,
    lemma_hex_val_bound, lemma_pow256_small, lemma_sum_seq_append, lemma_sum_seq_bound, neg_byte,
    neg_byte_of, pair_val, scan_non_hex, sum_range, sum_seq,
};
use crate::image::{write_at, Image};

verus! {

/// Record type of a data record.
pub const IHEX_DATA: u8 = 0;

/// Record type of the end-of-file record, which terminates decoding.
pub const IHEX_EOF: u8 = 1;

/// One decoded Intel HEX line.
pub struct IHexRecord {
    /// The declared number of data bytes.
    pub length: u8,
    /// The 16-bit load address.
    pub address: u16,
    /// The record type: 0 data, 1 end-of-file, others unsupported.
    pub record_type: u8,
    /// The data bytes, as many as `length` declares.
    pub data: Vec<u8>,
    /// The trailing checksum byte as written in the line.
    pub checksum: u8,
}

/// Mathematical model of an `IHexRecord`.
#[verifier::ext_equal]
pub ghost struct IHexRecordModel {
    pub length: u8,
    pub address: u16,
    pub record_type: u8,
    pub data: Seq<u8>,
    pub checksum: u8,
}

impl View for IHexRecord {
    type V = IHexRecordModel;

    open spec fn view(&self) -> IHexRecordModel {
        IHexRecordModel {
            length: self.length,
            address: self.address,
            record_type: self.record_type,
            data: self.data@,
            checksum: self.checksum,
        }
    }
}

/// What decoding one Intel HEX line yields: the record, or the first reason
/// the line is rejected. The line must carry the `:` sentinel, hex digits
/// throughout, exactly as many data bytes as the count field declares, and a
/// checksum matching the two's complement of the 8-bit sum of count, address
/// bytes, type and data.
pub open spec fn ihex_parse_spec(line: Seq<u8>) -> Result<IHexRecordModel, DecodeError> {
    if line.len() == 0 || line[0] != 0x3a {
        Err(DecodeError::MissingSentinel)
    } else if line.len() < 11 {
        Err(DecodeError::TooShort)
    } else if first_non_hex_from(line, 1) < line.len() {
        Err(DecodeError::NonHexDigit { offset: first_non_hex_from(line, 1) as usize })
    } else if (line.len() - 1) % 2 != 0 {
        Err(DecodeError::OddLength)
    } else {
        let bytes = bytes_of_pairs_from(line, 1);
        let n = bytes.len() as int;
        if n != bytes[0] + 5 {
            Err(DecodeError::LengthMismatch)
        } else {
            let declared = bytes[n - 1];
            let computed = neg_byte(sum_seq(bytes.take(n - 1)));
            if declared != computed {
                Err(DecodeError::ChecksumMismatch { declared, computed })
            } else {
                Ok(
                    IHexRecordModel {
                        length: bytes[0],
                        address: be_val(bytes.subrange(1, 3)) as u16,
                        record_type: bytes[3],
                        data: bytes.subrange(4, n - 1),
                        checksum: declared,
                    },
                )
            }
        }
    }
}

impl IHexRecord {
    /// Builds a record from its fields.
    pub fn new(length: u8, address: u16, record_type: u8, data: Vec<u8>, checksum: u8) -> (r:
        IHexRecord)
        ensures
            r@ == (IHexRecordModel { length, address, record_type, data: data@, checksum }),
    {
        IHexRecord { length, address, record_type, data, checksum }
    }

    /// Decodes one Intel HEX line, validating framing and checksum.
    pub fn from_line(line: &[u8]) -> (r: Result<IHexRecord, DecodeError>)
        ensures
            (r matches Ok(rec) ==> ihex_parse_spec(line@) == Ok::<IHexRecordModel, DecodeError>(
                rec@,
            )),
            (r matches Err(e) ==> ihex_parse_spec(line@) == Err::<IHexRecordModel, DecodeError>(
                e,
            )),
    {
        if line.len() == 0 || line[0] != 0x3a {
            return Err(DecodeError::MissingSentinel);
        }
        if line.len() < 11 {
            return Err(DecodeError::TooShort);
        }
        proof {
            lemma_first_non_hex_from(line@, 1);
        }
        if let Some(off) = scan_non_hex(line, 1) {
            return Err(DecodeError::NonHexDigit { offset: off });
        }
        if (line.len() - 1) % 2 != 0 {
            return Err(DecodeError::OddLength);
        }
        let bytes = decode_hex_pairs(line, 1);
        let n = bytes.len();
        let length = bytes[0];
        if n != length as usize + 5 {
            return Err(DecodeError::LengthMismatch);
        }
        let declared = bytes[n - 1];
        let sum = sum_range(bytes.as_slice(), 0, n - 1);
        proof {
            assert(bytes@.subrange(0, n - 1) =~= bytes@.take(n - 1));
        }
        let computed = neg_byte_of(sum);
        if declared != computed {
            return Err(DecodeError::ChecksumMismatch { declared, computed });
        }
        let address = be_value_u32(bytes.as_slice(), 1, 3);
        proof {
            crate::hexutil::lemma_be_val_bound(bytes@.subrange(1, 3));
            lemma_pow256_small();
        }
        let record_type = bytes[3];
        let mut data: Vec<u8> = Vec::new();
        let mut i: usize = 4;
        while i < n - 1
            invariant
                4 <= i <= n - 1,
                n == bytes@.len(),
                n >= 5,
                data@ =~= bytes@.subrange(4, i as int),
            decreases n - 1 - i,
        {
            data.push(bytes[i]);
            proof {
                assert(data@ =~= bytes@.subrange(4, i + 1));
            }
            i = i + 1;
        }
        let rec = IHexRecord {
            length,
            address: address as u16,
            record_type,
            data,
            checksum: declared,
        };
        proof {
            assert(rec@ =~= ihex_parse_spec(line@).unwrap());
        }
        Ok(rec)
    }
}

/// The role a record plays in a session, as a closed set.
#[derive(Debug, Clone, Copy, PartialEq, Eq, Structural)]
pub enum IHexKind {
    /// Type 0: data for the image.
    Data,
    /// Type 1: end-of-file, terminates decoding.
    Eof,
    /// Any other type: not supported by this decoder.
    Unsupported,
}

impl IHexRecord {
    /// Classifies this record's type.
    pub fn kind(&self) -> (r: IHexKind)
        ensures
            (r == IHexKind::Data) == (self@.record_type == IHEX_DATA),
            (r == IHexKind::Eof) == (self@.record_type == IHEX_EOF),
    {
        if self.record_type == IHEX_DATA {
            IHexKind::Data
        } else if self.record_type == IHEX_EOF {
            IHexKind::Eof
        } else {
            IHexKind::Unsupported
        }
    }
}

/// The frame bytes of a record: count, the two address bytes, the type, the
/// data, and the checksum.
pub open spec fn ihex_frame_bytes(m: IHexRecordModel) -> Seq<u8> {
    seq![m.length] + be_bytes(m.address as int, 2) + seq![m.record_type] + m.data + seq![m.checksum]
}

/// The canonical text of a record: the sentinel and the frame as uppercase
/// hex pairs.
pub open spec fn ihex_encode_spec(m: IHexRecordModel) -> Seq<u8> {
    seq![0x3au8] + hex_pairs_seq(ihex_frame_bytes(m))
}

/// The checksum the format computes: two's complement of the 8-bit sum of
/// count, both address bytes, type, and every data byte.
pub open spec fn ihex_computed_checksum(m: IHexRecordModel) -> u8 {
    neg_byte(m.length + sum_seq(be_bytes(m.address as int, 2)) + m.record_type + sum_seq(m.data))
}

/// A record that one valid line can carry: the count matches the data and
/// the checksum matches the computed one.
pub open spec fn ihex_wf(m: IHexRecordModel) -> bool {
    &&& m.data.len() == m.length
    &&& m.checksum == ihex_computed_checksum(m)
}

/// The sum of a frame without its checksum byte is the sum the checksum rule
/// speaks of: count, address bytes, type, and data.
proof fn lemma_ihex_frame_sum(m: IHexRecordModel)
    ensures
        sum_seq(ihex_frame_bytes(m).take(ihex_frame_bytes(m).len() - 1)) == m.length + sum_seq(
            be_bytes(m.address as int, 2),
        ) + m.record_type + sum_seq(m.data),
{
    let abs = be_bytes(m.address as int, 2);
    let frame = ihex_frame_bytes(m);
    lemma_pow256_small();
    lemma_be_bytes_roundtrip(m.address as int, 2);
    assert(frame.take(frame.len() - 1) =~= seq![m.length] + (abs + (seq![m.record_type]
        + m.data)));
    lemma_sum_seq_append(seq![m.length], abs + (seq![m.record_type] + m.data));
    lemma_sum_seq_append(abs, seq![m.record_type] + m.data);
    lemma_sum_seq_append(seq![m.record_type], m.data);
    assert(sum_seq(seq![m.length]) == m.length) by {
        assert(seq![m.length].drop_last() =~= Seq::<u8>::empty());
        assert(seq![m.length].last() == m.length);
        assert(sum_seq(Seq::<u8>::empty()) == 0);
    }
    assert(sum_seq(seq![m.record_type]) == m.record_type) by {
        assert(seq![m.record_type].drop_last() =~= Seq::<u8>::empty());
        assert(seq![m.record_type].last() == m.record_type);
        assert(sum_seq(Seq::<u8>::empty()) == 0);
    }
}

/// Decoding an encoded record gives the record back: the checksum and the
/// whole line grammar round-trip.
#[verifier::rlimit(100)]
pub proof fn lemma_ihex_round_trip(m: IHexRecordModel)
    requires
        ihex_wf(m),
    ensures
        ihex_parse_spec(ihex_encode_spec(m)) == Ok::<IHexRecordModel, DecodeError>(m),
{
    let abs = be_bytes(m.address as int, 2);
    lemma_pow256_small();
    lemma_be_bytes_roundtrip(m.address as int, 2);
    let frame = ihex_frame_bytes(m);
    let prefix = seq![0x3au8];
    let line = ihex_encode_spec(m);
    assert(line =~= prefix + hex_pairs_seq(frame));
    lemma_decode_encoded_pairs(prefix, frame);
    let n = m.data.len() + 5;
    assert(frame.len() == n);
    assert(line.len() == 1 + 2 * n);
    assert(line[0] == 0x3a);
    lemma_first_non_hex_from(line, 1);
    let bytes = bytes_of_pairs_from(line, 1);
    assert(bytes == frame);
    assert(frame[0] == m.length);
    assert(bytes.subrange(1, 3) =~= abs) by {
        assert(frame[1] == abs[0]);
        assert(frame[2] == abs[1]);
    }
    assert(frame[3] == m.record_type);
    assert(bytes.subrange(4, n - 1) =~= m.data);
    assert(bytes[n - 1] == m.checksum);
    assert(neg_byte(sum_seq(bytes.take(n - 1))) == ihex_computed_checksum(m)) by {
        lemma_ihex_frame_sum(m);
    }
    assert(ihex_parse_spec(line).unwrap() =~= m);
}

/// Corrupting either hex digit of a valid line's checksum field — replacing
/// it by any hex digit of a different value — makes decoding fail with a
/// checksum error, never yield a silently wrong record.
#[verifier::rlimit(100)]
pub proof fn lemma_ihex_checksum_corruption(line: Seq<u8>, i: int, c: u8)
    requires
        ihex_parse_spec(line) matches Ok(_),
        line.len() - 2 <= i < line.len(),
        is_hex_digit(c),
        hex_val(c) != hex_val(line[i]),
    ensures
        ({
            let line2 = line.update(i, c);
            ihex_parse_spec(line2) == Err::<IHexRecordModel, DecodeError>(
                DecodeError::ChecksumMismatch {
                    declared: pair_val(line2[line.len() - 2], line2[line.len() - 1]),
                    computed: ihex_parse_spec(line).unwrap().checksum,
                },
            )
        }),
{
    let line2 = line.update(i, c);
    let len = line.len() as int;
    lemma_first_non_hex_from(line, 1);
    assert(first_non_hex_from(line, 1) == len);
    assert(forall|j: int| 1 <= j < len ==> is_hex_digit(#[trigger] line[j]));
    assert(forall|j: int| 1 <= j < len ==> is_hex_digit(#[trigger] line2[j]));
    lemma_first_non_hex_from(line2, 1);
    assert(first_non_hex_from(line2, 1) == line2.len());
    let bytes = bytes_of_pairs_from(line, 1);
    let bytes2 = bytes_of_pairs_from(line2, 1);
    let n = bytes.len() as int;
    assert(n == bytes[0] + 5);
    assert forall|j: int| 0 <= j < n - 1 implies bytes2[j] == bytes[j] by {
        assert(1 + 2 * j + 1 < len - 2);
        assert(line2[1 + 2 * j] == line[1 + 2 * j]);
        assert(line2[1 + 2 * j + 1] == line[1 + 2 * j + 1]);
    }
    assert(bytes2[0] == bytes[0]);
    assert(bytes2.take(n - 1) =~= bytes.take(n - 1));
    let declared = bytes[n - 1];
    let declared2 = bytes2[n - 1];
    let computed = neg_byte(sum_seq(bytes.take(n - 1)));
    assert(declared == computed);
    let hi = line[len - 2];
    let lo = line[len - 1];
    let hi2 = line2[len - 2];
    let lo2 = line2[len - 1];
    assert(1 + 2 * (n - 1) == len - 2);
    assert(declared2 == pair_val(hi2, lo2));
    assert(declared == pair_val(hi, lo));
    lemma_hex_val_bound(hi);
    lemma_hex_val_bound(lo);
    lemma_hex_val_bound(c);
    if i == len - 2 {
        assert(hi2 == c && lo2 == lo);
        assert(pair_val(hi2, lo2) != pair_val(hi, lo));
    } else {
        assert(hi2 == hi && lo2 == c);
        assert(pair_val(hi2, lo2) != pair_val(hi, lo));
    }
    assert(declared2 != computed);
    assert(ihex_parse_spec(line2) == Err::<IHexRecordModel, DecodeError>(
        DecodeError::ChecksumMismatch { declared: declared2, computed },
    ));
}

/// Encodes a record as its canonical Intel HEX line; parsing the line gives
/// the record back.
pub fn encode(rec: &IHexRecord) -> (r: Vec<u8>)
    requires
        ihex_wf(rec@),
    ensures
        r@ == ihex_encode_spec(rec@),
        ihex_parse_spec(r@) == Ok::<IHexRecordModel, DecodeError>(rec@),
{
    let mut frame: Vec<u8> = Vec::new();
    frame.push(rec.length);
    let abs = be_bytes_u32(rec.address as u32, 2);
    frame.push(abs[0]);
    frame.push(abs[1]);
    frame.push(rec.record_type);
    let mut j: usize = 0;
    while j < rec.data.len()
        invariant
            j <= rec.data@.len(),
            abs@.len() == 2,
            frame@ =~= seq![rec.length, abs@[0], abs@[1], rec.record_type] + rec.data@.take(
                j as int,
            ),
        decreases rec.data@.len() - j,
    {
        frame.push(rec.data[j]);
        proof {
            assert(frame@ =~= seq![rec.length, abs@[0], abs@[1], rec.record_type]
                + rec.data@.take(j + 1));
        }
        j = j + 1;
    }
    proof {
        assert(rec.data@.take(rec.data@.len() as int) =~= rec.data@);
    }
    frame.push(rec.checksum);
    proof {
        assert(abs@ =~= seq![abs@[0], abs@[1]]);
        assert(frame@ =~= ihex_frame_bytes(rec@));
    }
    let mut line: Vec<u8> = Vec::new();
    line.push(0x3a);
    crate::hexutil::push_hex_pairs(&mut line, frame.as_slice());
    proof {
        assert(line@ =~= ihex_encode_spec(rec@));
        lemma_ihex_round_trip(rec@);
    }
    line
}

/// The checksum the format computes for a record with these fields.
pub fn compute_checksum(length: u8, address: u16, record_type: u8, data: &[u8]) -> (r: u8)
    requires
        data@.len() <= 255,
    ensures
        r == ihex_computed_checksum(
            IHexRecordModel { length, address, record_type, data: data@, checksum: 0 },
        ),
{
    let abs = be_bytes_u32(address as u32, 2);
    let asum = sum_range(abs.as_slice(), 0, abs.len());
    let dsum = sum_range(data, 0, data.len());
    proof {
        assert(abs@.subrange(0, abs@.len() as int) =~= abs@);
        assert(data@.subrange(0, data@.len() as int) =~= data@);
        lemma_sum_seq_bound(abs@);
        lemma_sum_seq_bound(data@);
    }
    neg_byte_of(length as u32 + asum + record_type as u32 + dsum)
}

/// One step of the decode session over a list of lines, from line `i` on:
/// blank lines are skipped, data records are written into the image, the
/// end-of-file record freezes it (later lines are ignored), any other record
/// type aborts the session as unsupported, and the first rejected line
/// aborts the whole session with its number and text.
pub open spec fn ihex_run(lines: Seq<Seq<u8>>, i: int, img: Seq<u8>) -> Result<
    Seq<u8>,
    SessionErrorModel,
>
    decreases lines.len() - i when 0 <= i <= lines.len()
{
    if i >= lines.len() {
        Ok(img)
    } else if is_blank(lines[i]) {
        ihex_run(lines, i + 1, img)
    } else {
        match ihex_parse_spec(lines[i]) {
            Err(e) => Err(SessionErrorModel { line_number: i + 1, line: lines[i], error: e }),
            Ok(m) => {
                if m.record_type == IHEX_EOF {
                    Ok(img)
                } else if m.record_type == IHEX_DATA {
                    ihex_run(lines, i + 1, write_at(img, m.address as int, m.data))
                } else {
                    Err(
                        SessionErrorModel {
                            line_number: i + 1,
                            line: lines[i],
                            error: DecodeError::UnsupportedRecordType { kind: m.record_type },
                        },
                    )
                }
            },
        }
    }
}

/// The image an Intel HEX decode session produces from these lines, or the
/// error that aborts it.
pub open spec fn ihex_image_spec(lines: Seq<Seq<u8>>) -> Result<Seq<u8>, SessionErrorModel> {
    ihex_run(lines, 0, Seq::empty())
}

/// Decodes a whole Intel HEX session: every line in order, all-or-nothing,
/// stopping at the end-of-file record. On the first malformed or unsupported
/// line the session aborts with that line's number and raw text; no partial
/// image is returned.
pub fn decode_ihex_lines(lines: &Vec<Vec<u8>>) -> (r: Result<Vec<u8>, SessionError>)
    ensures
        (r matches Ok(img) ==> ihex_image_spec(lines.deep_view()) == Ok::<
            Seq<u8>,
            SessionErrorModel,
        >(img@)),
        (r matches Err(e) ==> ihex_image_spec(lines.deep_view()) == Err::<
            Seq<u8>,
            SessionErrorModel,
        >(e@)),
{
    let ghost dv = lines.deep_view();
    let mut image = Image::new();
    let mut idx: usize = 0;
    while idx < lines.len()
        invariant
            idx <= lines@.len(),
            dv == lines.deep_view(),
            dv.len() == lines@.len(),
            forall|k: int| 0 <= k < dv.len() ==> dv[k] == #[trigger] lines@[k]@,
            ihex_run(dv, 0, Seq::empty()) == ihex_run(dv, idx as int, image@),
        decreases lines@.len() - idx,
    {
        let line = &lines[idx];
        if !is_blank_line(line.as_slice()) {
            match IHexRecord::from_line(line.as_slice()) {
                Err(e) => {
                    return Err(
                        SessionError { line_number: idx + 1, line: line.clone(), error: e },
                    );
                },
                Ok(rec) => {
                    match rec.kind() {
                        IHexKind::Eof => {
                            return Ok(image.into_bytes());
                        },
                        IHexKind::Data => {
                            image.write_record(rec.address as usize, rec.data.as_slice());
                        },
                        IHexKind::Unsupported => {
                            return Err(
                                SessionError {
                                    line_number: idx + 1,
                                    line: line.clone(),
                                    error: DecodeError::UnsupportedRecordType {
                                        kind: rec.record_type,
                                    },
                                },
                            );
                        },
                    }
                },
            }
        }
        idx = idx + 1;
    }
    Ok(image.into_bytes())
}

} // verus!
