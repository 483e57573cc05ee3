use fwimage::uboot;
use fwimage::uboot::UbootNote;

#[test]
fn uboot_magic_lists_both_byte_orders() {
    let magics = uboot::uboot_magic();
    assert_eq!(magics.len(), 2);
    assert_eq!(magics[0], vec![0x27, 0x05, 0x19, 0x56]);
    assert_eq!(magics[1], vec![0x56, 0x19, 0x05, 0x27]);
}

#[test]
fn validate_uboot_magic_detects_both_orders() {
    assert!(uboot::validate_uboot_magic(&[0x27, 0x05, 0x19, 0x56, 0xAA]));
    assert!(uboot::validate_uboot_magic(&[0x56, 0x19, 0x05, 0x27]));
    assert!(!uboot::validate_uboot_magic(&[0x27, 0x05, 0x19, 0x57]));
    assert!(!uboot::validate_uboot_magic(&[0x27, 0x05, 0x19]));
    assert!(!uboot::validate_uboot_magic(&[]));
}

#[test]
fn remove_space_strips_whitespace() {
    let cleaned = uboot::remove_space(b" 11 22\t33\r\n44 ");
    assert_eq!(cleaned, b"11223344".to_vec());
}

#[test]
fn uboot_line_with_spaced_payload_decodes() {
    let lines: Vec<Vec<u8>> = vec![
        b"00000000: 1122 3344 5566 7788 99aa bbcc ddee ff00".to_vec(),
    ];
    let out = uboot::decode_uboot_lines(&lines);
    assert_eq!(
        out.bytes,
        vec![
            0x11, 0x22, 0x33, 0x44, 0x55, 0x66, 0x77, 0x88, 0x99, 0xAA, 0xBB, 0xCC, 0xDD, 0xEE,
            0xFF, 0x00
        ]
    );
    assert!(out.notes.is_empty());
}

#[test]
fn uboot_uses_only_first_32_hex_chars() {
    let lines: Vec<Vec<u8>> = vec![
        b"0: 112233445566778899AABBCCDDEEFF00FFFFFFFF".to_vec(),
    ];
    let out = uboot::decode_uboot_lines(&lines);
    assert_eq!(out.bytes.len(), 16);
    assert_eq!(out.bytes[15], 0x00);
}

#[test]
fn uboot_line_without_separator_is_skipped_with_note() {
    let lines: Vec<Vec<u8>> = vec![b"no separator here".to_vec()];
    let out = uboot::decode_uboot_lines(&lines);
    assert!(out.bytes.is_empty());
    assert_eq!(out.notes, vec![UbootNote::MissingSeparator { line_number: 1 }]);
}

#[test]
fn uboot_short_payload_is_skipped_with_note() {
    let lines: Vec<Vec<u8>> = vec![b"0: 11223344".to_vec()];
    let out = uboot::decode_uboot_lines(&lines);
    assert!(out.bytes.is_empty());
    assert_eq!(out.notes, vec![UbootNote::ShortPayload { line_number: 1 }]);
}

#[test]
fn uboot_non_hex_in_window_drops_digit_with_note() {
    // 32 window characters, one of them not hex: 31 digits stay, the odd
    // trailing one is dropped, 15 bytes come out.
    let lines: Vec<Vec<u8>> = vec![
        b"0: 112233445566778899AABBCCDDEEFFG0".to_vec(),
    ];
    let out = uboot::decode_uboot_lines(&lines);
    assert_eq!(out.bytes.len(), 15);
    assert_eq!(out.notes, vec![UbootNote::OddHexTail { line_number: 1 }]);
}

#[test]
fn uboot_magic_in_decoded_bytes_is_reported() {
    let lines: Vec<Vec<u8>> = vec![
        b"80000000: 2705195600112233445566778899AABB".to_vec(),
    ];
    let out = uboot::decode_uboot_lines(&lines);
    assert_eq!(out.bytes.len(), 16);
    assert_eq!(out.notes, vec![UbootNote::MagicFound { line_number: 1 }]);
}

#[test]
fn uboot_concatenates_lines_in_order() {
    let lines: Vec<Vec<u8>> = vec![
        b"0: 112233445566778899AABBCCDDEEFF00".to_vec(),
        b"bad line".to_vec(),
        b"10: FFEEDDCCBBAA99887766554433221100".to_vec(),
    ];
    let out = uboot::decode_uboot_lines(&lines);
    assert_eq!(out.bytes.len(), 32);
    assert_eq!(out.bytes[0], 0x11);
    assert_eq!(out.bytes[16], 0xFF);
    assert_eq!(out.notes, vec![UbootNote::MissingSeparator { line_number: 2 }]);
}
