use fwimage::diag::DecodeError;
use fwimage::ihex;
use fwimage::ihex::IHexRecord;
use fwimage::ihex::IHexKind;

#[test]
fn ihex_parse_valid_data_line() {
    let rec = IHexRecord::from_line(b":040010001122334442").unwrap();
    assert_eq!(rec.length, 4);
    assert_eq!(rec.address, 0x0010);
    assert_eq!(rec.record_type, 0);
    assert_eq!(rec.data, vec![0x11, 0x22, 0x33, 0x44]);
    assert_eq!(rec.checksum, 0x42);
}

#[test]
fn ihex_parse_eof_record() {
    let rec = IHexRecord::from_line(b":00000001FF").unwrap();
    assert_eq!(rec.length, 0);
    assert_eq!(rec.record_type, 1);
    assert!(rec.data.is_empty());
    assert_eq!(rec.checksum, 0xFF);
}

#[test]
fn ihex_compute_checksum_matches_line() {
    assert_eq!(
        ihex::compute_checksum(4, 0x0010, 0, &[0x11, 0x22, 0x33, 0x44]),
        0x42
    );
    assert_eq!(ihex::compute_checksum(0, 0x0000, 1, &[]), 0xFF);
}

#[test]
fn ihex_new_sets_fields() {
    let rec = IHexRecord::new(2, 0x1234, 0, vec![0xAB, 0xCD], 0x55);
    assert_eq!(rec.length, 2);
    assert_eq!(rec.address, 0x1234);
    assert_eq!(rec.record_type, 0);
    assert_eq!(rec.data, vec![0xAB, 0xCD]);
    assert_eq!(rec.checksum, 0x55);
}

#[test]
fn ihex_kind_classifies_types() {
    let mk = |t: u8| IHexRecord::new(0, 0, t, vec![], 0);
    assert_eq!(mk(0).kind(), IHexKind::Data);
    assert_eq!(mk(1).kind(), IHexKind::Eof);
    assert_eq!(mk(2).kind(), IHexKind::Unsupported);
    assert_eq!(mk(0xFF).kind(), IHexKind::Unsupported);
}

#[test]
fn ihex_encode_then_parse_round_trips() {
    let data: Vec<u8> = vec![0xCA, 0xFE];
    let checksum = ihex::compute_checksum(2, 0xBEEF, 0, &data);
    let rec = IHexRecord::new(2, 0xBEEF, 0, data.clone(), checksum);
    let line = ihex::encode(&rec);
    let back = IHexRecord::from_line(&line).unwrap();
    assert_eq!(back.length, 2);
    assert_eq!(back.address, 0xBEEF);
    assert_eq!(back.record_type, 0);
    assert_eq!(back.data, data);
    assert_eq!(back.checksum, checksum);
}

#[test]
fn ihex_wrong_checksum_rejected() {
    let r = IHexRecord::from_line(b":040010001122334443");
    assert!(matches!(
        r,
        Err(DecodeError::ChecksumMismatch { declared: 0x43, computed: 0x42 })
    ));
}

#[test]
fn ihex_corrupted_checksum_digit_rejected() {
    let good = b":040010001122334442";
    for (pos, replacement) in [(17usize, b'F'), (18usize, b'3')] {
        let mut line = good.to_vec();
        line[pos] = replacement;
        assert!(matches!(
            IHexRecord::from_line(&line),
            Err(DecodeError::ChecksumMismatch { .. })
        ));
    }
}

#[test]
fn ihex_missing_sentinel_rejected() {
    assert!(matches!(
        IHexRecord::from_line(b"040010001122334442"),
        Err(DecodeError::MissingSentinel)
    ));
    assert!(matches!(
        IHexRecord::from_line(b""),
        Err(DecodeError::MissingSentinel)
    ));
}

#[test]
fn ihex_short_line_rejected() {
    assert!(matches!(
        IHexRecord::from_line(b":000001FF"),
        Err(DecodeError::TooShort)
    ));
}

#[test]
fn ihex_non_hex_digit_rejected_with_offset() {
    assert!(matches!(
        IHexRecord::from_line(b":04001Z0011223344E2"),
        Err(DecodeError::NonHexDigit { offset: 6 })
    ));
}

#[test]
fn ihex_odd_length_rejected() {
    assert!(matches!(
        IHexRecord::from_line(b":0400100011223344421"),
        Err(DecodeError::OddLength)
    ));
}

#[test]
fn ihex_count_disagreeing_with_length_rejected() {
    assert!(matches!(
        IHexRecord::from_line(b":0500100011223344E2"),
        Err(DecodeError::LengthMismatch)
    ));
}

#[test]
fn ihex_session_decodes_and_stops_at_eof() {
    let lines: Vec<Vec<u8>> = vec![
        b":10000000112233445566778899AABBCCDDEEFF00F8".to_vec(),
        b":00000001FF".to_vec(),
    ];
    let image = fwimage::ihex::decode_ihex_lines(&lines).unwrap();
    assert_eq!(
        image,
        vec![
            0x11, 0x22, 0x33, 0x44, 0x55, 0x66, 0x77, 0x88, 0x99, 0xAA, 0xBB, 0xCC, 0xDD, 0xEE,
            0xFF, 0x00
        ]
    );
}

#[test]
fn ihex_session_ignores_lines_after_eof() {
    let lines: Vec<Vec<u8>> = vec![
        b":040000001122334452".to_vec(),
        b":00000001FF".to_vec(),
        b"this is trailing garbage".to_vec(),
    ];
    let image = fwimage::ihex::decode_ihex_lines(&lines).unwrap();
    assert_eq!(image, vec![0x11, 0x22, 0x33, 0x44]);
}

#[test]
fn ihex_session_fills_gap_with_zeros() {
    let lines: Vec<Vec<u8>> = vec![
        b":040000001122334452".to_vec(),
        b":04000800556677883A".to_vec(),
        b":00000001FF".to_vec(),
    ];
    let image = fwimage::ihex::decode_ihex_lines(&lines).unwrap();
    assert_eq!(image.len(), 12);
    assert_eq!(&image[0..4], &[0x11, 0x22, 0x33, 0x44]);
    assert_eq!(&image[4..8], &[0x00, 0x00, 0x00, 0x00]);
    assert_eq!(&image[8..12], &[0x55, 0x66, 0x77, 0x88]);
}

#[test]
fn ihex_session_unsupported_type_aborts() {
    let lines: Vec<Vec<u8>> = vec![b":00000002FE".to_vec()];
    let err = match fwimage::ihex::decode_ihex_lines(&lines) {
        Ok(_) => panic!("unsupported record type must abort the session"),
        Err(e) => e,
    };
    assert_eq!(err.line_number, 1);
    assert!(matches!(
        err.error,
        DecodeError::UnsupportedRecordType { kind: 2 }
    ));
}

#[test]
fn ihex_session_aborts_on_malformed_line() {
    let lines: Vec<Vec<u8>> = vec![
        b":040000001122334452".to_vec(),
        b"not a record".to_vec(),
    ];
    let err = match fwimage::ihex::decode_ihex_lines(&lines) {
        Ok(_) => panic!("malformed line must abort the session"),
        Err(e) => e,
    };
    assert_eq!(err.line_number, 2);
    assert_eq!(err.line, b"not a record".to_vec());
    assert!(matches!(err.error, DecodeError::MissingSentinel));
}

#[test]
fn ihex_session_overwrites_revisited_addresses() {
    let lines: Vec<Vec<u8>> = vec![
        b":040000001122334452".to_vec(),
        // Rewrites addresses 1 and 2: length 2, addr 1, data AA BB.
        b":02000100AABB98".to_vec(),
    ];
    let image = fwimage::ihex::decode_ihex_lines(&lines).unwrap();
    assert_eq!(image, vec![0x11, 0xAA, 0xBB, 0x44]);
}
