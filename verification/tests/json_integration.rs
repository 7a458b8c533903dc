use bmsrs::json::{classify_errors, parse_json, JsonDiagnostic, JsonError, JsonErrorReason, JsonValue};

fn num(text: &str) -> JsonValue {
    JsonValue::Number(text.to_string())
}

fn as_f64(v: &JsonValue) -> Option<f64> {
    match v {
        JsonValue::Number(t) => t.parse::<f64>().ok(),
        _ => None,
    }
}

fn as_u64(v: &JsonValue) -> Option<u64> {
    match v {
        JsonValue::Number(t) => t.parse::<u64>().ok(),
        _ => None,
    }
}

fn as_str(v: &JsonValue) -> Option<&str> {
    match v {
        JsonValue::Str(t) => Some(t.as_str()),
        _ => None,
    }
}

fn as_array(v: &JsonValue) -> Option<&Vec<JsonValue>> {
    match v {
        JsonValue::Array(items) => Some(items),
        _ => None,
    }
}

fn as_object(v: &JsonValue) -> Option<&Vec<(String, JsonValue)>> {
    match v {
        JsonValue::Object(members) => Some(members),
        _ => None,
    }
}

fn get<'a>(members: &'a [(String, JsonValue)], key: &str) -> Option<&'a JsonValue> {
    members.iter().rev().find(|(k, _)| k == key).map(|(_, v)| v)
}

// --- Basic JSON types ---

#[test]
fn null_value_parses_successfully() {
    let (val, errors) = parse_json("null");
    assert!(errors.is_empty());
    assert_eq!(val, Some(JsonValue::Null));
}

#[test]
fn true_value_parses_successfully() {
    let (val, errors) = parse_json("true");
    assert!(errors.is_empty());
    assert_eq!(val, Some(JsonValue::Bool(true)));
}

#[test]
fn false_value_parses_successfully() {
    let (val, errors) = parse_json("false");
    assert!(errors.is_empty());
    assert_eq!(val, Some(JsonValue::Bool(false)));
}

#[test]
fn integer_parses_successfully() {
    let (val, errors) = parse_json("42");
    assert!(errors.is_empty());
    assert_eq!(val, Some(num("42")));
}

#[test]
fn negative_integer_parses_successfully() {
    let (val, errors) = parse_json("-17");
    assert!(errors.is_empty());
    assert_eq!(val, Some(num("-17")));
}

#[test]
fn float_parses_successfully() {
    let (val, errors) = parse_json("2.5");
    assert!(errors.is_empty());
    match val.as_ref().and_then(as_f64) {
        Some(n) => assert!((n - 2.5).abs() < 1e-10),
        None => panic!("expected float value"),
    }
}

#[test]
fn string_parses_successfully() {
    let (val, errors) = parse_json(r#""hello world""#);
    assert!(errors.is_empty());
    assert_eq!(val, Some(JsonValue::Str("hello world".to_string())));
}

#[test]
fn empty_array_parses_successfully() {
    let (val, errors) = parse_json("[]");
    assert!(errors.is_empty());
    assert_eq!(val, Some(JsonValue::Array(vec![])));
}

#[test]
fn array_of_numbers_parses_successfully() {
    let (val, errors) = parse_json("[1, 2, 3]");
    assert!(errors.is_empty());
    assert_eq!(val, Some(JsonValue::Array(vec![num("1"), num("2"), num("3")])));
}

#[test]
fn empty_object_parses_successfully() {
    let (val, errors) = parse_json("{}");
    assert!(errors.is_empty());
    assert_eq!(val, Some(JsonValue::Object(Vec::new())));
}

#[test]
fn simple_object_parses_successfully() {
    let (val, errors) = parse_json(r#"{"key": "value", "num": 1}"#);
    assert!(errors.is_empty());
    let Some(map) = val.as_ref().and_then(as_object) else {
        panic!("expected object");
    };
    assert_eq!(get(map, "key").and_then(as_str), Some("value"));
    assert_eq!(get(map, "num").and_then(as_u64), Some(1));
}

// --- String escape sequences ---

#[test]
fn string_escape_newline() {
    let (val, errors) = parse_json(r#""\n""#);
    assert!(errors.is_empty());
    assert_eq!(val, Some(JsonValue::Str("\n".to_string())));
}

#[test]
fn string_escape_tab() {
    let (val, errors) = parse_json(r#""\t""#);
    assert!(errors.is_empty());
    assert_eq!(val, Some(JsonValue::Str("\t".to_string())));
}

#[test]
fn string_escape_quote() {
    let (val, errors) = parse_json(r#""\"hello\"""#);
    assert!(errors.is_empty());
    assert_eq!(val, Some(JsonValue::Str("\"hello\"".to_string())));
}

#[test]
fn string_escape_backslash() {
    let (val, errors) = parse_json(r#""a\\b""#);
    assert!(errors.is_empty());
    assert_eq!(val, Some(JsonValue::Str("a\\b".to_string())));
}

#[test]
fn string_escape_unicode() {
    let (val, errors) = parse_json(r#""\u0041""#);
    assert!(errors.is_empty());
    assert_eq!(val, Some(JsonValue::Str("A".to_string())));
}

#[test]
fn string_escape_solidus() {
    let (val, errors) = parse_json(r#""\/""#);
    assert!(errors.is_empty());
    assert_eq!(val, Some(JsonValue::Str("/".to_string())));
}

#[test]
fn multiple_escape_sequences_in_one_string() {
    let (val, errors) = parse_json(r#""\n\t\r\\\"""#);
    assert!(errors.is_empty());
    let Some(s) = val.as_ref().and_then(as_str) else {
        panic!("expected string");
    };
    assert_eq!(s, "\n\t\r\\\"");
}

#[test]
fn mixed_escape_and_literal_in_one_string() {
    let (val, errors) = parse_json(r#""hello\nworld\t!""#);
    assert!(errors.is_empty());
    assert_eq!(val, Some(JsonValue::Str("hello\nworld\t!".to_string())));
}

// --- Error recovery ---

#[test]
fn trailing_comma_in_object_parses_without_errors() {
    let (val, errors) = parse_json(r#"{"a": 1, "b": 2,}"#);
    assert!(val.is_some());
    assert!(errors.is_empty(), "trailing commas are part of the grammar");
    let Some(obj) = val.as_ref().and_then(as_object) else {
        panic!("expected object");
    };
    assert_eq!(obj.len(), 2);
}

#[test]
fn trailing_comma_in_array_parses_without_errors() {
    let (val, errors) = parse_json("[1, 2, 3,]");
    assert!(val.is_some());
    assert!(errors.is_empty(), "trailing comma in array is grammar");
    let Some(arr) = val.as_ref().and_then(as_array) else {
        panic!("expected array");
    };
    assert_eq!(arr.len(), 3);
}

#[test]
fn missing_comma_between_members_recovers() {
    let (val, errors) = parse_json(r#"{"a": 1 "b": 2}"#);
    assert!(val.is_some());
    assert!(!errors.is_empty());
    let (warnings, _recovered, fatal) = classify_errors(errors, val.is_some());
    assert!(!warnings.is_empty());
    assert!(fatal.is_empty());
}

#[test]
fn unterminated_array_recovers_partial_value() {
    let (val, errors) = parse_json("[1, 2, 3");
    assert!(val.is_some());
    assert!(!errors.is_empty());
    let Some(arr) = val.as_ref().and_then(as_array) else {
        panic!("expected array");
    };
    assert_eq!(arr.len(), 3);
    assert_eq!(arr.first().and_then(as_u64), Some(1));
}

#[test]
fn array_trailing_comma_and_missing_bracket_recovery() {
    let (val, errors) = parse_json("[1, 2,");
    assert!(val.is_some());
    assert!(!errors.is_empty());
    let Some(arr) = val.as_ref().and_then(as_array) else {
        panic!("expected array");
    };
    assert_eq!(arr.len(), 2);
}

// --- Edge cases ---

#[test]
fn empty_input_errors() {
    let (val, errors) = parse_json("");
    assert!(val.is_none());
    assert!(!errors.is_empty());
}

#[test]
fn whitespace_only_input_errors() {
    let (val, errors) = parse_json("   ");
    assert!(val.is_none());
    assert!(!errors.is_empty());
}

#[test]
fn negative_number_parses() {
    let (val, errors) = parse_json("-0.5");
    assert!(errors.is_empty());
    let Some(n) = val.as_ref().and_then(as_f64) else {
        panic!("expected float");
    };
    assert!((n + 0.5).abs() < 1e-10);
}

#[test]
fn exponential_notation_parses() {
    let (val, errors) = parse_json("1.5e2");
    assert!(errors.is_empty());
    let Some(n) = val.as_ref().and_then(as_f64) else {
        panic!("expected float");
    };
    assert!((n - 150.0).abs() < 1e-10);
}

#[test]
fn nested_arrays_parse_successfully() {
    let (val, errors) = parse_json("[[1, 2], [3, 4]]");
    assert!(errors.is_empty());
    let Some(arr) = val.as_ref().and_then(as_array) else {
        panic!("expected array");
    };
    assert_eq!(arr.len(), 2);
}

#[test]
fn nested_objects_parse_successfully() {
    let json = r#"{"outer": {"inner": 42}}"#;
    let (val, errors) = parse_json(json);
    assert!(errors.is_empty());
    let Some(obj) = val.as_ref().and_then(as_object) else {
        panic!("expected object");
    };
    let inner = get(obj, "outer").and_then(as_object);
    assert!(inner.is_some());
    assert_eq!(inner.and_then(|m| get(m, "inner")).and_then(as_u64), Some(42));
}

#[test]
fn json_types_in_array_parse() {
    let json = r#"[null, true, false, 42, 3.5, "s", [1], {"k": "v"}]"#;
    let (val, errors) = parse_json(json);
    assert!(errors.is_empty());
    let Some(arr) = val.as_ref().and_then(as_array) else {
        panic!("expected array");
    };
    assert_eq!(arr.len(), 8);
    assert_eq!(arr.first(), Some(&JsonValue::Null));
}

// --- Diagnostics ---

#[test]
fn leading_zero_only_number_parses_without_warning() {
    let (val, errors) = parse_json("0");
    assert!(errors.is_empty());
    assert_eq!(val, Some(num("0")));
}

#[test]
fn control_character_string_emits_warning() {
    let (val, errors) = parse_json("\"\x01\"");
    assert!(val.is_some());
    assert!(!errors.is_empty());
    let (warnings, _recovered, _fatal) = classify_errors(errors, val.is_some());
    assert!(!warnings.is_empty(), "expected control-char warning");
}

#[test]
fn leading_comma_in_object_emits_warning() {
    let (val, errors) = parse_json(r#"{, "a": 1}"#);
    assert!(val.is_some());
    assert!(!errors.is_empty());
    let (warnings, _recovered, _fatal) = classify_errors(errors, val.is_some());
    assert!(!warnings.is_empty(), "expected leading-comma warning");
}

#[test]
fn mixed_recovery_and_warnings_classified_correctly() {
    let (val, errors) = parse_json(r#"{"a": 1 "b": 2,}"#);
    assert!(val.is_some());
    assert!(!errors.is_empty());
    let (warnings, _recovered, fatal) = classify_errors(errors, val.is_some());
    assert!(!warnings.is_empty(), "expected missing-comma warning");
    assert!(fatal.is_empty());
}

// --- classify_errors edge cases ---

#[test]
fn classify_errors_empty_input() {
    let (warnings, recovered, fatal) = classify_errors(vec![], true);
    assert!(warnings.is_empty());
    assert!(recovered.is_empty());
    assert!(fatal.is_empty());
}

#[test]
fn classify_errors_custom_is_always_warning() {
    let err = JsonError {
        reason: JsonErrorReason::Custom(JsonDiagnostic::MissingComma),
        start: 0,
        end: 1,
    };
    let (warnings_no_out, _, fatal_no_out) = classify_errors(vec![err], false);
    let (warnings_with_out, _, fatal_with_out) = classify_errors(vec![err], true);
    assert_eq!(warnings_no_out.len(), 1);
    assert!(fatal_no_out.is_empty());
    assert_eq!(warnings_with_out.len(), 1);
    assert!(fatal_with_out.is_empty());
}

// --- Further cases of the reader ---

#[test]
fn json_leading_zero_number_warns() {
    let (val, errors) = parse_json("0.5");
    assert_eq!(val, Some(num("0.5")));
    assert_eq!(errors.len(), 1);
    assert_eq!(errors[0].reason, JsonErrorReason::Custom(JsonDiagnostic::LeadingZero));
}

#[test]
fn json_surrogate_escape_reads_replacement_char() {
    let (val, errors) = parse_json(r#""\ud800""#);
    assert_eq!(val, Some(JsonValue::Str("\u{fffd}".to_string())));
    assert_eq!(errors.len(), 1);
    assert_eq!(errors[0].reason, JsonErrorReason::Custom(JsonDiagnostic::InvalidUnicode));
    assert_eq!((errors[0].start, errors[0].end), (3, 7));
}

#[test]
fn json_trailing_characters_give_no_value() {
    let (val, errors) = parse_json("1 2");
    assert!(val.is_none());
    assert_eq!(errors.len(), 1);
    assert_eq!(errors[0].reason, JsonErrorReason::ExpectedFound(Some('2')));
    assert_eq!(errors[0].start, 2);
}

#[test]
fn json_missing_bracket_error_at_end() {
    let (val, errors) = parse_json("[1, 2, 3");
    assert_eq!(val, Some(JsonValue::Array(vec![num("1"), num("2"), num("3")])));
    assert_eq!(errors, vec![JsonError { reason: JsonErrorReason::ExpectedFound(None), start: 8, end: 8 }]);
}

#[test]
fn json_missing_array_comma_skips_to_bracket() {
    let (val, errors) = parse_json("[1 2]");
    assert_eq!(val, Some(JsonValue::Array(vec![num("1")])));
    assert_eq!(errors.len(), 1);
    assert_eq!(errors[0].reason, JsonErrorReason::ExpectedFound(Some('2')));
}

#[test]
fn json_stray_characters_before_a_value_are_skipped() {
    let (val, errors) = parse_json("[1, xy 3]");
    assert_eq!(val, Some(JsonValue::Array(vec![num("1"), num("3")])));
    assert_eq!(errors.len(), 1);
    assert_eq!(errors[0].reason, JsonErrorReason::ExpectedFound(Some('x')));
}

#[test]
fn json_object_keeps_member_order_and_duplicates() {
    let (val, errors) = parse_json(r#"{"b": 1, "a": 2, "b": 3}"#);
    assert!(errors.is_empty());
    let Some(members) = val.as_ref().and_then(as_object) else {
        panic!("expected object");
    };
    let keys: Vec<&str> = members.iter().map(|(k, _)| k.as_str()).collect();
    assert_eq!(keys, vec!["b", "a", "b"]);
}

#[test]
fn json_unterminated_object_without_brace_fails() {
    let (val, errors) = parse_json("{invalid");
    assert!(val.is_none());
    let (_warnings, _recovered, fatal) = classify_errors(errors, false);
    assert!(!fatal.is_empty());
}
