use bmsrs::value::{LnMode, LnType, PlayerMode, Rank};

#[test]
fn player_mode_single() {
    assert_eq!("1".parse::<PlayerMode>().unwrap(), PlayerMode::Single);
    assert_eq!("SP".parse::<PlayerMode>().unwrap(), PlayerMode::Single);
    assert_eq!("sp".parse::<PlayerMode>().unwrap(), PlayerMode::Single);
}

#[test]
fn player_mode_couple() {
    assert_eq!("2".parse::<PlayerMode>().unwrap(), PlayerMode::Couple);
    assert_eq!("CP".parse::<PlayerMode>().unwrap(), PlayerMode::Couple);
}

#[test]
fn player_mode_double() {
    assert_eq!("3".parse::<PlayerMode>().unwrap(), PlayerMode::Double);
    assert_eq!("DP".parse::<PlayerMode>().unwrap(), PlayerMode::Double);
}

#[test]
fn player_mode_battle() {
    assert_eq!("4".parse::<PlayerMode>().unwrap(), PlayerMode::Battle);
    assert_eq!("BP".parse::<PlayerMode>().unwrap(), PlayerMode::Battle);
}

#[test]
fn player_mode_invalid() {
    assert!("5".parse::<PlayerMode>().is_err());
    assert!("".parse::<PlayerMode>().is_err());
    assert!("abc".parse::<PlayerMode>().is_err());
    assert!("0".parse::<PlayerMode>().is_err());
}

#[test]
fn ln_type_1() {
    assert_eq!("1".parse::<LnType>().unwrap(), LnType::Type1);
    assert_eq!("01".parse::<LnType>().unwrap(), LnType::Type1);
}

#[test]
fn ln_type_2() {
    assert_eq!("2".parse::<LnType>().unwrap(), LnType::Type2);
    assert_eq!("02".parse::<LnType>().unwrap(), LnType::Type2);
}

#[test]
fn ln_type_invalid() {
    assert!("0".parse::<LnType>().is_err());
    assert!("3".parse::<LnType>().is_err());
    assert!("abc".parse::<LnType>().is_err());
}

#[test]
fn ln_mode_ln() {
    assert_eq!("1".parse::<LnMode>().unwrap(), LnMode::Ln);
    assert_eq!("01".parse::<LnMode>().unwrap(), LnMode::Ln);
}

#[test]
fn ln_mode_cn() {
    assert_eq!("2".parse::<LnMode>().unwrap(), LnMode::Cn);
    assert_eq!("02".parse::<LnMode>().unwrap(), LnMode::Cn);
}

#[test]
fn ln_mode_hcn() {
    assert_eq!("3".parse::<LnMode>().unwrap(), LnMode::Hcn);
    assert_eq!("03".parse::<LnMode>().unwrap(), LnMode::Hcn);
}

#[test]
fn ln_mode_invalid() {
    assert!("0".parse::<LnMode>().is_err());
    assert!("4".parse::<LnMode>().is_err());
    assert!("abc".parse::<LnMode>().is_err());
}

#[test]
fn rank_standard_values() {
    assert_eq!("0".parse::<Rank>().unwrap(), Rank::VeryHard);
    assert_eq!("1".parse::<Rank>().unwrap(), Rank::Hard);
    assert_eq!("2".parse::<Rank>().unwrap(), Rank::Normal);
    assert_eq!("3".parse::<Rank>().unwrap(), Rank::Easy);
    assert_eq!("4".parse::<Rank>().unwrap(), Rank::VeryEasy);
}

#[test]
fn rank_non_standard_preserved() {
    assert_eq!("5".parse::<Rank>().unwrap(), Rank::Other(5));
    assert_eq!("255".parse::<Rank>().unwrap(), Rank::Other(255));
}

#[test]
fn rank_non_numeric_is_error() {
    assert!("abc".parse::<Rank>().is_err());
    assert!("".parse::<Rank>().is_err());
}

#[test]
fn rank_display_roundtrip() {
    assert_eq!("0".parse::<Rank>().unwrap().to_string(), "0");
    assert_eq!("4".parse::<Rank>().unwrap().to_string(), "4");
    assert_eq!("5".parse::<Rank>().unwrap().to_string(), "5");
}
