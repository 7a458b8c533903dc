use bmsrs::params::{BmsValue, StpParams};

#[test]
fn stp_params_with_position() {
    let p = <StpParams<String> as BmsValue>::parse("001.128 500").unwrap();
    assert_eq!(p.measure, 1);
    assert_eq!(p.position, 128);
    assert!((p.duration_ms.parse::<f64>().unwrap() - 500.0).abs() < f64::EPSILON);
}

#[test]
fn stp_params_without_position() {
    let p = <StpParams<String> as BmsValue>::parse("001 500.5").unwrap();
    assert_eq!(p.measure, 1);
    assert_eq!(p.position, 0);
    assert!((p.duration_ms.parse::<f64>().unwrap() - 500.5).abs() < f64::EPSILON);
}

#[test]
fn stp_params_position_999_accepted() {
    let p = <StpParams<String> as BmsValue>::parse("001.999 500").unwrap();
    assert_eq!(p.measure, 1);
    assert_eq!(p.position, 999);
    assert!((p.duration_ms.parse::<f64>().unwrap() - 500.0).abs() < f64::EPSILON);
}

#[test]
fn stp_params_position_over_999_rejected() {
    assert!(<StpParams<String> as BmsValue>::parse("001.1000 500").is_none());
}

#[test]
fn stp_params_measure_0_accepted() {
    let p = <StpParams<String> as BmsValue>::parse("000 500").unwrap();
    assert_eq!(p.measure, 0);
}

#[test]
fn stp_params_measure_999_accepted() {
    let p = <StpParams<String> as BmsValue>::parse("999 500").unwrap();
    assert_eq!(p.measure, 999);
}

#[test]
fn stp_params_measure_over_999_rejected() {
    assert!(<StpParams<String> as BmsValue>::parse("1000 500").is_none());
}

#[test]
fn stp_params_invalid_format_rejected() {
    assert!(<StpParams<String> as BmsValue>::parse("invalid").is_none());
    assert!(<StpParams<String> as BmsValue>::parse("").is_none());
}

#[test]
fn stp_params_display_with_position() {
    let p = StpParams {
        measure: 1,
        position: 128,
        duration_ms: "500".to_string(),
    };
    assert_eq!(p.to_string(), "001.128 500");
}

#[test]
fn stp_params_display_without_position() {
    let p = StpParams {
        measure: 1,
        position: 0,
        duration_ms: "500.5".to_string(),
    };
    assert_eq!(p.to_string(), "001 500.5");
}
