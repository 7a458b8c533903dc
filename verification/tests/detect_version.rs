use bmsrs::bmson::DetectedVersion;

#[test]
fn detect_v2_from_full_json() {
    let json = r#"{"version":"2.0.0","song_info":{},"chart_info":{},"chart_data":{}}"#;
    assert_eq!(DetectedVersion::detect(json).unwrap(), DetectedVersion::V2);
}

#[test]
fn detect_v2_without_patch() {
    let json = r#"{"version":"2","song_info":{}}"#;
    assert_eq!(DetectedVersion::detect(json).unwrap(), DetectedVersion::V2);
}

#[test]
fn detect_v2_rc_version() {
    let json = r#"{"version":"2.0.0-rc1","song_info":{}}"#;
    assert_eq!(DetectedVersion::detect(json).unwrap(), DetectedVersion::V2);
}

#[test]
fn detect_v1_from_full_json() {
    let json = r#"{"version":"1.0.0","info":{},"bga":{}}"#;
    assert_eq!(DetectedVersion::detect(json).unwrap(), DetectedVersion::V1);
}

#[test]
fn detect_v1_without_patch() {
    let json = r#"{"version":"1","info":{}}"#;
    assert_eq!(DetectedVersion::detect(json).unwrap(), DetectedVersion::V1);
}

#[test]
fn detect_v0_when_no_version_field() {
    let json = r#"{"info":{"title":"Test"}}"#;
    assert_eq!(DetectedVersion::detect(json).unwrap(), DetectedVersion::V0);
}

#[test]
fn detect_v0_when_version_starts_with_zero() {
    let json = r#"{"version":"0.2.1","info":{}}"#;
    assert_eq!(DetectedVersion::detect(json).unwrap(), DetectedVersion::V0);
}

#[test]
fn detect_empty_object_is_v0() {
    let json = "{}";
    assert_eq!(DetectedVersion::detect(json).unwrap(), DetectedVersion::V0);
}

#[test]
fn detect_version_unknown_version_returns_error() {
    let json = r#"{"version":"3.0.0","song_info":{}}"#;
    assert!(DetectedVersion::detect(json).is_err());
}

#[test]
fn version_with_letters_returns_error() {
    let json = r#"{"version":"alpha","song_info":{}}"#;
    assert!(DetectedVersion::detect(json).is_err());
}

#[test]
fn version_field_not_a_string_returns_error() {
    let json = r#"{"version":2,"song_info":{}}"#;
    assert!(DetectedVersion::detect(json).is_err());
}

#[test]
fn version_scan_ignores_other_occurrences() {
    // "version" may appear as a value in "title" or "chart_name"; only the key counts.
    let json = r#"{"title":"version 2","song_info":{},"chart_info":{},"chart_data":{}}"#;
    assert_eq!(DetectedVersion::detect(json).unwrap(), DetectedVersion::V0);
}

#[test]
fn detect_multiline_json() {
    let json = "{\n  \"version\": \"2.0.0\",\n  \"song_info\": {}\n}";
    assert_eq!(DetectedVersion::detect(json).unwrap(), DetectedVersion::V2);
}

#[test]
fn detect_first_version_wins() {
    // With several "version" keys, the first one wins.
    let json = r#"{"song_info":{"version":"1.0.0"},"chart_info":{},"chart_data":{}}"#;
    assert_eq!(DetectedVersion::detect(json).unwrap(), DetectedVersion::V1);
}
