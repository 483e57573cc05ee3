use fwimage::diag::DecodeError;
use fwimage::srec;
use fwimage::srec::SRecord;
use fwimage::srec::SRecordKind;

#[test]
fn srec_parse_valid_data_line() {
    let rec = SRecord::parse(b"S10500001122C8").unwrap();
    assert_eq!(rec.record_type, 1);
    assert_eq!(rec.address, 0x0000);
    assert_eq!(rec.data, vec![0x11, 0x22]);
    assert_eq!(rec.checksum, 0xC8);
}

#[test]
fn srec_parse_accepts_lowercase_hex() {
    let rec = SRecord::parse(b"S10500001122c8").unwrap();
    assert_eq!(rec.data, vec![0x11, 0x22]);
}

#[test]
fn srec_parse_wide_address() {
    // S3 carries a four-byte address.
    // count = 4 + 1 + 1 = 6; sum = 6 + DE+AD+BE+EF + 5A = 0x398; checksum = 0x68.
    let rec = SRecord::parse(b"S306DEADBEEF5A68").unwrap();
    assert_eq!(rec.record_type, 3);
    assert_eq!(rec.address, 0xDEAD_BEEF);
    assert_eq!(rec.data, vec![0x5A]);
}

#[test]
fn srec_kind_classifies_types() {
    let mk = |t: u8| SRecord { record_type: t, address: 0, data: vec![], checksum: 0 };
    assert_eq!(mk(0).kind(), SRecordKind::Header);
    assert_eq!(mk(1).kind(), SRecordKind::Data);
    assert_eq!(mk(2).kind(), SRecordKind::Data);
    assert_eq!(mk(3).kind(), SRecordKind::Data);
    assert_eq!(mk(5).kind(), SRecordKind::Count);
    assert_eq!(mk(7).kind(), SRecordKind::Terminal);
    assert_eq!(mk(8).kind(), SRecordKind::Terminal);
    assert_eq!(mk(9).kind(), SRecordKind::Terminal);
}

#[test]
fn srec_compute_checksum_matches_line() {
    assert_eq!(srec::compute_checksum(1, 0x0000, &[0x11, 0x22]), 0xC8);
}

#[test]
fn srec_encode_then_parse_round_trips() {
    let data: Vec<u8> = vec![0xDE, 0xAD, 0xBE, 0xEF];
    let checksum = srec::compute_checksum(2, 0x012345, &data);
    let rec = SRecord { record_type: 2, address: 0x012345, data: data.clone(), checksum };
    let line = srec::encode(&rec);
    let back = SRecord::parse(&line).unwrap();
    assert_eq!(back.record_type, 2);
    assert_eq!(back.address, 0x012345);
    assert_eq!(back.data, data);
    assert_eq!(back.checksum, checksum);
}

#[test]
fn srec_wrong_checksum_rejected() {
    let r = SRecord::parse(b"S10500001122C9");
    assert!(matches!(
        r,
        Err(DecodeError::ChecksumMismatch { declared: 0xC9, computed: 0xC8 })
    ));
}

#[test]
fn srec_corrupted_checksum_digit_rejected() {
    // Every replacement of a checksum digit by one of another value fails.
    let good = b"S10500001122C8";
    for (pos, replacement) in [(12usize, b'D'), (13usize, b'9')] {
        let mut line = good.to_vec();
        line[pos] = replacement;
        assert!(matches!(
            SRecord::parse(&line),
            Err(DecodeError::ChecksumMismatch { .. })
        ));
    }
}

#[test]
fn srec_missing_sentinel_rejected() {
    assert!(matches!(
        SRecord::parse(b"X10500001122C8"),
        Err(DecodeError::MissingSentinel)
    ));
    assert!(matches!(SRecord::parse(b""), Err(DecodeError::MissingSentinel)));
}

#[test]
fn srec_short_line_rejected() {
    assert!(matches!(SRecord::parse(b"S105"), Err(DecodeError::TooShort)));
}

#[test]
fn srec_bad_record_type_rejected() {
    assert!(matches!(
        SRecord::parse(b"SX0500001122C8"),
        Err(DecodeError::BadRecordType)
    ));
}

#[test]
fn srec_reserved_record_type_rejected() {
    assert!(matches!(
        SRecord::parse(b"S40500001122C8"),
        Err(DecodeError::UnsupportedRecordType { kind: 4 })
    ));
    assert!(matches!(
        SRecord::parse(b"S60500001122C8"),
        Err(DecodeError::UnsupportedRecordType { kind: 6 })
    ));
}

#[test]
fn srec_non_hex_digit_rejected_with_offset() {
    assert!(matches!(
        SRecord::parse(b"S105G0001122C8"),
        Err(DecodeError::NonHexDigit { offset: 4 })
    ));
}

#[test]
fn srec_odd_length_rejected() {
    assert!(matches!(
        SRecord::parse(b"S10500001122C80"),
        Err(DecodeError::OddLength)
    ));
}

#[test]
fn srec_count_disagreeing_with_length_rejected() {
    // Count byte 0x06 but seven frame bytes follow the count field.
    assert!(matches!(
        SRecord::parse(b"S10600001122C8"),
        Err(DecodeError::LengthMismatch)
    ));
    // Count byte too small to cover address and checksum.
    assert!(matches!(
        SRecord::parse(b"S1020000FC"),
        Err(DecodeError::LengthMismatch)
    ));
}

#[test]
fn srec_session_fills_gap_with_zeros() {
    let lines: Vec<Vec<u8>> = vec![
        b"S1070000112233444F".to_vec(),
        b"S10700085566778837".to_vec(),
    ];
    let image = srec::decode_srec_lines(&lines).unwrap();
    assert_eq!(image.len(), 12);
    assert_eq!(&image[0..4], &[0x11, 0x22, 0x33, 0x44]);
    assert_eq!(&image[4..8], &[0x00, 0x00, 0x00, 0x00]);
    assert_eq!(&image[8..12], &[0x55, 0x66, 0x77, 0x88]);
}

#[test]
fn srec_session_overwrites_revisited_addresses() {
    let lines: Vec<Vec<u8>> = vec![
        b"S1070000112233444F".to_vec(),
        // Rewrites addresses 0 and 1: count 5, addr 0, data AA BB; sum = 5+AA+BB = 0x16A.
        b"S1050000AABB96".to_vec(),
    ];
    let image = srec::decode_srec_lines(&lines).unwrap();
    assert_eq!(image, vec![0xAA, 0xBB, 0x33, 0x44]);
}

#[test]
fn srec_session_terminal_record_freezes_image() {
    let lines: Vec<Vec<u8>> = vec![
        b"S1070000112233444F".to_vec(),
        b"S9030000FD".to_vec(),
        b"S10700085566778837".to_vec(),
    ];
    let image = srec::decode_srec_lines(&lines).unwrap();
    assert_eq!(image, vec![0x11, 0x22, 0x33, 0x44]);
}

#[test]
fn srec_session_header_contributes_no_bytes() {
    let lines: Vec<Vec<u8>> = vec![b"S0030000FD".to_vec()];
    let image = srec::decode_srec_lines(&lines).unwrap();
    assert!(image.is_empty());
}

#[test]
fn srec_session_skips_blank_lines() {
    let lines: Vec<Vec<u8>> = vec![
        b"".to_vec(),
        b"   \t".to_vec(),
        b"S1070000112233444F".to_vec(),
    ];
    let image = srec::decode_srec_lines(&lines).unwrap();
    assert_eq!(image, vec![0x11, 0x22, 0x33, 0x44]);
}

#[test]
fn srec_session_aborts_on_bad_checksum() {
    let lines: Vec<Vec<u8>> = vec![
        b"S1070000112233444F".to_vec(),
        b"S10700085566778838".to_vec(),
    ];
    let err = match srec::decode_srec_lines(&lines) {
        Ok(_) => panic!("corrupted session must not produce an image"),
        Err(e) => e,
    };
    assert_eq!(err.line_number, 2);
    assert_eq!(err.line, b"S10700085566778838".to_vec());
    assert!(matches!(err.error, DecodeError::ChecksumMismatch { .. }));
}
