use bmsrs::{
    BmsHeader, BmsHeaderMetadata, BmsHeaderResDefAudio, BmsToken, BmsTokenizeError, BmsTokenizer,
};

type TokenVec = Vec<(usize, Result<BmsToken, BmsTokenizeError>)>;

#[test]
fn string_container_same_content() {
    let input = "#TITLE My Song\n#ARTIST Composer\n#WAV01 kick.wav\n#00101:1122";

    let tokens: TokenVec = BmsTokenizer::new().tokenize(input);

    assert_eq!(tokens.len(), 4);

    for token in &tokens {
        assert!(token.1.is_ok());
    }
}

#[test]
fn string_container_owned_values() {
    let input = "#TITLE My Song";
    let tokens: TokenVec = BmsTokenizer::new().tokenize(input);
    if let BmsToken::Header(BmsHeader::Metadata(BmsHeaderMetadata::Title(s))) =
        &tokens[0].1.as_ref().unwrap()
    {
        assert_eq!(s.as_str(), "My Song");
    } else {
        panic!("expected Title header");
    }
}

#[test]
fn string_fields_parsed_correctly() {
    let input = "#WAV01 kick.wav";
    let tokens: TokenVec = BmsTokenizer::new().tokenize(input);
    let token = &tokens[0];
    let unwrapped = token.1.as_ref().unwrap();
    assert!(matches!(
        unwrapped,
        BmsToken::Header(BmsHeader::ResDefAudio(BmsHeaderResDefAudio::Wav { .. }))
    ));
}

#[test]
fn tokenize_never_panics_on_valid_input() {
    for title in ["TITLE a", "TITLE A1 b2 C3", "TITLE 0", "TITLE  z Z 9 ", "TITLE Long title with many words 123"] {
        let input = format!("#{title}");
        let _tokens: Vec<_> = BmsTokenizer::new().tokenize(&input);
    }
}
