use bmsrs::PlayerMode;

#[test]
fn literal_parse_exact() {
    assert_eq!("1".parse::<PlayerMode>().unwrap(), PlayerMode::Single);
    assert_eq!("SP".parse::<PlayerMode>().unwrap(), PlayerMode::Single);
    assert_eq!("2".parse::<PlayerMode>().unwrap(), PlayerMode::Couple);
}

#[test]
fn literal_parse_case_sensitive() {
    assert_eq!("DP".parse::<PlayerMode>().unwrap(), PlayerMode::Double);
    assert_eq!("dp".parse::<PlayerMode>().unwrap(), PlayerMode::Double);
    assert!("dP".parse::<PlayerMode>().is_err());
}

#[test]
fn literal_invalid_returns_err() {
    assert!("5".parse::<PlayerMode>().is_err());
    assert!("".parse::<PlayerMode>().is_err());
}

#[test]
fn literal_display_first_token() {
    assert_eq!(PlayerMode::Single.to_string(), "1");
    assert_eq!(PlayerMode::Couple.to_string(), "2");
    assert_eq!(PlayerMode::Battle.to_string(), "4");
}
