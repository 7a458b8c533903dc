use bmsrs::encoding::{detect_encoding, BmsEncoding};



#[test]
fn detect_utf8_bom() {
    let bytes = &[0xEF, 0xBB, 0xBF, b'#', b'T', b'I', b'T', b'L', b'E'];
    assert_eq!(detect_encoding(bytes), BmsEncoding::Utf8);
}

#[test]
fn detect_utf16le_bom() {
    let bytes = &[0xFF, 0xFE, 0x23, 0x00, 0x54, 0x00];
    assert_eq!(detect_encoding(bytes), BmsEncoding::Utf16Le);
}

#[test]
fn detect_utf16be_bom() {
    let bytes = &[0xFE, 0xFF, 0x00, 0x23, 0x00, 0x54];
    assert_eq!(detect_encoding(bytes), BmsEncoding::Utf16Be);
}

#[test]
fn detect_charset_shift_jis() {
    let bytes = b"#CHARSET Shift_JIS\n#TITLE test";
    assert_eq!(detect_encoding(bytes), BmsEncoding::ShiftJis);
}

#[test]
fn detect_charset_euc_kr() {
    let bytes = b"#CHARSET EUC-KR\n#TITLE test";
    assert_eq!(detect_encoding(bytes), BmsEncoding::EucKr);
}

#[test]
fn detect_valid_utf8_without_bom() {
    let bytes = b"#TITLE Hello\n#BPM 180";
    assert_eq!(detect_encoding(bytes), BmsEncoding::Utf8);
}

#[test]
fn detect_shift_jis_bytes() {
    let bytes = &[0x82, 0xA0];
    assert_eq!(detect_encoding(bytes), BmsEncoding::ShiftJis);
}

#[test]
fn detect_euc_kr_bytes() {
    let bytes = b"#CHARSET EUC-KR\n\xb0\xa1";
    assert_eq!(detect_encoding(bytes), BmsEncoding::EucKr);
}


#[test]
fn decode_utf8_strips_bom() {
    let bytes = &[0xEF, 0xBB, 0xBF, b'#'];
    assert_eq!(BmsEncoding::Utf8.decode(bytes), "#");
}

#[test]
fn decode_utf16le_strips_bom() {
    let bytes = &[0xFF, 0xFE, 0x23, 0x00];
    assert_eq!(BmsEncoding::Utf16Le.decode(bytes), "#");
}

#[test]
fn decode_utf16be_strips_bom() {
    let bytes = &[0xFE, 0xFF, 0x00, 0x23];
    assert_eq!(BmsEncoding::Utf16Be.decode(bytes), "#");
}


