use bmsrs::value::DifficultyLevel;

#[test]
fn difficulty_valid_range() {
    for i in 1..=5u8 {
        let d: DifficultyLevel = i.to_string().parse().unwrap();
        assert_eq!(d.get(), i);
    }
}

#[test]
fn difficulty_out_of_range() {
    assert!("0".parse::<DifficultyLevel>().is_err());
    assert!("6".parse::<DifficultyLevel>().is_err());
    assert!("100".parse::<DifficultyLevel>().is_err());
}

#[test]
fn difficulty_non_numeric() {
    assert!("abc".parse::<DifficultyLevel>().is_err());
    assert!("".parse::<DifficultyLevel>().is_err());
}
