use bmsrs::encoding::{detect_encoding, BmsEncoding};

#[test]
fn bom_utf8_detected() {
    let input = &[0xEF, 0xBB, 0xBF, b'T', b'e', b's', b't'];
    assert_eq!(detect_encoding(input), BmsEncoding::Utf8);
}

#[test]
fn bom_utf16le_detected() {
    let input = &[0xFF, 0xFE, 0x54, 0x00, 0x65, 0x00];
    assert_eq!(detect_encoding(input), BmsEncoding::Utf16Le);
}

#[test]
fn bom_utf16be_detected() {
    let input = &[0xFE, 0xFF, 0x00, 0x54, 0x00, 0x65];
    assert_eq!(detect_encoding(input), BmsEncoding::Utf16Be);
}

#[test]
fn charset_shift_jis_detected() {
    let input = b"#TITLE\r\n#CHARSET Shift_JIS\r\n#BPM 180";
    assert_eq!(detect_encoding(input), BmsEncoding::ShiftJis);
}

#[test]
fn charset_euc_kr_detected() {
    let input = b"#CHARSET EUC-KR";
    assert_eq!(detect_encoding(input), BmsEncoding::EucKr);
}

#[test]
fn charset_utf8_detected() {
    let input = b"#CHARSET UTF-8\n#TITLE test";
    assert_eq!(detect_encoding(input), BmsEncoding::Utf8);
}

#[test]
fn charset_percent_prefix_detected() {
    let input = b"%CHARSET Shift-JIS\n#TITLE test";
    assert_eq!(detect_encoding(input), BmsEncoding::ShiftJis);
}

#[test]
fn charset_sjis_alias_detected() {
    let input = b"#CHARSET SJIS\n";
    assert_eq!(detect_encoding(input), BmsEncoding::ShiftJis);
}

#[test]
fn charset_utf8_alias_detected() {
    let input = b"#CHARSET UTF8";
    assert_eq!(detect_encoding(input), BmsEncoding::Utf8);
}

#[test]
fn charset_euckr_alias_detected() {
    let input = b"#CHARSET EUCKR";
    assert_eq!(detect_encoding(input), BmsEncoding::EucKr);
}

#[test]
fn plain_ascii_detected_as_utf8() {
    let input = b"#TITLE Hello\n#BPM 180";
    assert_eq!(detect_encoding(input), BmsEncoding::Utf8);
}

#[test]
fn empty_input_detected_as_utf8() {
    assert_eq!(detect_encoding(b""), BmsEncoding::Utf8);
}

#[test]
fn decode_utf8_preserves_content() {
    let input = b"#TITLE \xe3\x83\x86\xe3\x82\xb9\xe3\x83\x88";
    let decoded = BmsEncoding::Utf8.decode(input);
    assert_eq!(decoded, "#TITLE \u{30c6}\u{30b9}\u{30c8}");
}

#[test]
fn encoding_decode_utf8_strips_bom() {
    let input = &[0xEF, 0xBB, 0xBF, b'H', b'i'];
    let decoded = BmsEncoding::Utf8.decode(input);
    assert_eq!(decoded, "Hi");
}

#[test]
fn encoding_decode_utf16le_strips_bom() {
    // U+0048 U+0069 = "Hi" in UTF-16LE
    let input = &[0xFF, 0xFE, 0x48, 0x00, 0x69, 0x00];
    let decoded = BmsEncoding::Utf16Le.decode(input);
    assert_eq!(decoded, "Hi");
}

#[test]
fn decode_shift_jis_correctly() {
    // "あ" in Shift_JIS = 0x82 0xA0
    let input = &[0x82, 0xA0];
    let decoded = BmsEncoding::ShiftJis.decode(input);
    assert_eq!(decoded, "\u{3042}");
}

#[test]
fn decode_euc_kr_correctly() {
    // "가" in EUC-KR = 0xB0 0xA1
    let input = &[0xB0, 0xA1];
    let decoded = BmsEncoding::EucKr.decode(input);
    assert_eq!(decoded, "\u{AC00}");
}
