use bmsrs::id::{BmpTag, BmsChannelId, BmsChannelIdError, BpmTag, WavTag};

#[test]
fn valid_two_char_ids() {
    assert!(BmsChannelId::<WavTag>::try_from("01").is_ok());
    assert!(BmsChannelId::<WavTag>::try_from("ZZ").is_ok());
    assert!(BmsChannelId::<WavTag>::try_from("aa").is_ok());
    assert!(BmsChannelId::<WavTag>::try_from("zZ").is_ok());
    assert!(BmsChannelId::<WavTag>::try_from("FF").is_ok());
}

#[test]
fn valid_one_char_ids() {
    assert!(BmsChannelId::<WavTag>::try_from("A").is_ok());
    assert!(BmsChannelId::<WavTag>::try_from("9").is_ok());
    assert!(BmsChannelId::<WavTag>::try_from("0").is_ok());
}

#[test]
fn empty_id_is_invalid() {
    assert!(BmsChannelId::<WavTag>::try_from("").is_err());
}

#[test]
fn three_char_id_is_invalid() {
    assert!(BmsChannelId::<WavTag>::try_from("AAA").is_err());
}

#[test]
fn non_alphanumeric_is_invalid() {
    assert!(BmsChannelId::<WavTag>::try_from("*!").is_err());
    assert!(BmsChannelId::<WavTag>::try_from(" ").is_err());
    assert!(BmsChannelId::<WavTag>::try_from("ab:").is_err());
    assert!(BmsChannelId::<WavTag>::try_from("-1").is_err());
}

#[test]
fn different_tags_prevent_mixing() {
    let wav_id = BmsChannelId::<WavTag>::try_from("01").unwrap();
    let bmp_id = BmsChannelId::<BmpTag>::try_from("01").unwrap();
    assert_eq!(wav_id.as_str(), bmp_id.as_str());
}

#[test]
fn id_as_str_returns_original() {
    let id = BmsChannelId::<WavTag>::try_from("2A").unwrap();
    assert_eq!(id.as_str(), "2A");
}

#[test]
fn id_as_str_one_char() {
    let id = BmsChannelId::<WavTag>::try_from("A").unwrap();
    assert_eq!(id.as_str(), "A");
}

#[test]
fn id_as_bytes_two_char() {
    let id = BmsChannelId::<WavTag>::try_from("2A").unwrap();
    assert_eq!(id.as_bytes(), &[b'2', b'A']);
}

#[test]
fn id_as_bytes_one_char() {
    let id = BmsChannelId::<WavTag>::try_from("A").unwrap();
    assert_eq!(id.as_bytes(), &[b'A']);
}

#[test]
fn id_display_output() {
    let id = BmsChannelId::<WavTag>::try_from("FF").unwrap();
    assert_eq!(id.to_string(), "FF");
}

#[test]
fn bms_channel_id_error_display() {
    let err = BmsChannelIdError {
        input: "!!!".to_string(),
    };
    assert!(err.to_string().contains("!!!"));
}

#[test]
fn tag_types_are_zero_sized() {
    assert_eq!(std::mem::size_of::<WavTag>(), 0);
    assert_eq!(std::mem::size_of::<BmpTag>(), 0);
    assert_eq!(std::mem::size_of::<BpmTag>(), 0);
}

#[test]
fn size_of_bms_channel_id() {
    // [u8; 2] + PhantomData<T> → 2 bytes, no pointer overhead.
    assert_eq!(std::mem::size_of::<BmsChannelId<WavTag>>(), 2);
}
