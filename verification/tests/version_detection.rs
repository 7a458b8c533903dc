use bmsrs::bmson::DetectedVersion;

#[test]
fn detect_v2() {
    let json = r#"{"version":"2.0.0","song_info":{}}"#;
    assert_eq!(
        bmsrs::bmson::detect_version(json).unwrap(),
        DetectedVersion::V2
    );
}

#[test]
fn detect_v1() {
    let json = r#"{"version":"1.0.0","info":{}}"#;
    assert_eq!(
        bmsrs::bmson::detect_version(json).unwrap(),
        DetectedVersion::V1
    );
}

#[test]
fn detect_v0_no_version() {
    let json = r#"{"info":{"title":"T"}}"#;
    assert_eq!(
        bmsrs::bmson::detect_version(json).unwrap(),
        DetectedVersion::V0
    );
}

#[test]
fn detect_v0_version_starts_with_zero() {
    let json = r#"{"version":"0.2.1","info":{}}"#;
    assert_eq!(
        bmsrs::bmson::detect_version(json).unwrap(),
        DetectedVersion::V0
    );
}

#[test]
fn detect_unknown_version_error() {
    let json = r#"{"version":"3.0.0"}"#;
    let err = bmsrs::bmson::detect_version(json).unwrap_err();
    assert!(matches!(err, bmsrs::bmson::BmsonError::UnknownVersion(ref v) if v == "3.0.0"));
}

#[test]
fn detect_non_string_version_error() {
    let json = r#"{"version":123}"#;
    let err = bmsrs::bmson::detect_version(json).unwrap_err();
    assert!(matches!(err, bmsrs::bmson::BmsonError::UnknownVersion(_)));
}

#[test]
fn detect_empty_json_is_v0() {
    assert_eq!(
        bmsrs::bmson::detect_version("{}").unwrap(),
        DetectedVersion::V0
    );
}

#[test]
fn detect_version_string_with_extra_whitespace() {
    // Whitespace between "version" and its value is skipped.
    let json = r#"{  "version"  :  "2.0.0"  ,"song_info":{}}"#;
    assert_eq!(
        bmsrs::bmson::detect_version(json).unwrap(),
        DetectedVersion::V2
    );
}

#[test]
fn detect_version_first_in_object() {
    let json = r#"{"version":"1.0.0"}"#;
    assert_eq!(
        bmsrs::bmson::detect_version(json).unwrap(),
        DetectedVersion::V1
    );
}

#[test]
fn detect_version_not_first_key() {
    // The version field may come after other fields
    let json = r#"{"x":1,"version":"2.0.0","y":2}"#;
    assert_eq!(
        bmsrs::bmson::detect_version(json).unwrap(),
        DetectedVersion::V2
    );
}
