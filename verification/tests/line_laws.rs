use bmsrs::de::{join_errors, BmsonDeError, BmsonParser};
use bmsrs::json::parse_json;
use bmsrs::{parse_message_line, BmsChannel, BmsToken, BmsTokenizer};

#[test]
fn message_rebuilds_its_line() {
    let line = "#00211:0101";
    let m = parse_message_line(line).unwrap().unwrap();
    assert_eq!(format!("#{}:{}", m.addr, m.body), line);
    assert!(!m.addr.contains(':'));
    assert_eq!(Some(m.channel), BmsChannel::from_raw("11"));
    assert_eq!(m.track, 2);
}

#[test]
fn message_measure_saturates() {
    let m = parse_message_line("#9999901:00").unwrap().unwrap();
    assert_eq!(m.track, 65535);
    assert_eq!(Some(m.channel), BmsChannel::from_raw("01"));
}

#[test]
fn collect_all_gives_one_result_per_reading_segment() {
    let tokens = BmsTokenizer::new().tokenize("#TITLE a\n\n#00111:01\r// c\r\n#BAD 1");
    let numbers: Vec<usize> = tokens.iter().map(|t| t.0).collect();
    assert_eq!(numbers, vec![1, 3, 5]);
    assert!(matches!(tokens[1].1, Ok(BmsToken::Message(_))));
}

#[test]
fn deserialize_error_quotes_reader_errors() {
    let (_, errors) = parse_json("{\"a\": 01}");
    assert!(!errors.is_empty());
    let err = BmsonDeError::Deserialize { version: "v2.0.0".to_string(), message: "bad".to_string() };
    let r = BmsonParser::with_diagnostics(err, &errors);
    let expected = format!("bad\n  (parser diagnostics: {})", join_errors(&errors, "; "));
    assert_eq!(r, BmsonDeError::Deserialize { version: "v2.0.0".to_string(), message: expected });
    let other = BmsonDeError::V0Conversion("x".to_string());
    assert_eq!(BmsonParser::with_diagnostics(other.clone(), &errors), other);
    let kept = BmsonDeError::Deserialize { version: "v1.0.0".to_string(), message: "m".to_string() };
    assert_eq!(BmsonParser::with_diagnostics(kept.clone(), &Vec::new()), kept);
}

#[test]
fn raw_channel_texts_write_back_and_read_as_hex() {
    assert_eq!(BmsChannel::from_raw("zz").unwrap().to_string(), "ZZ");
    assert_eq!(BmsChannel::from_raw("sp").unwrap().to_string(), "SP");
    assert_eq!(BmsChannel::from_raw("a").unwrap().as_u8_hex(), Some(0x0A));
    assert_eq!(BmsChannel::from_raw("sc").unwrap().as_u8_hex(), None);
    assert_eq!(BmsChannel::from_raw("1G").unwrap().as_u8_hex(), None);
}
