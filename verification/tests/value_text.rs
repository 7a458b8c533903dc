use bmsrs::index::{BmsIndex, WavIndex};
use bmsrs::params::{
    ArgbParams, AtBgaParams, BgaParams, BmsValue, ExBmpParams, ExWavParams, StpParams, SwBgaParams, WavCmdKind,
    WavCmdParams,
};
use bmsrs::{IntoTokensError, BmsHeaderGameplay, BmsHeaderResDefAudio, BmsHeaderResDefVisual, BmsHeaderTiming, Rank};

#[test]
fn exwav_text_reads_back() {
    let p = ExWavParams { pan: Some(-5000), volume: None, frequency: Some(44100), filename: "a b.wav".to_string() };
    let text = p.to_string();
    assert_eq!(text, "pf -5000 44100 a b.wav");
    assert_eq!(<ExWavParams<String> as BmsValue>::parse(&text), Some(p));
}

#[test]
fn exwav_text_without_numbers_reads_back() {
    let p = ExWavParams { pan: None, volume: None, frequency: None, filename: "song.wav".to_string() };
    let text = p.to_string();
    assert_eq!(text, "song.wav");
    assert_eq!(<ExWavParams<String> as BmsValue>::parse(&text), Some(p));
}

#[test]
fn exwav_flag_word_name_does_not_read_back() {
    let p = ExWavParams { pan: None, volume: None, frequency: None, filename: "pv x.wav".to_string() };
    let text = p.to_string();
    assert_eq!(<ExWavParams<String> as BmsValue>::parse(&text), None);
}

#[test]
fn wav_cmd_text_reads_back() {
    let p = WavCmdParams { command: WavCmdKind::Volume, wav_index: WavIndex(BmsIndex::try_from("0Z").unwrap()), value: 80 };
    let text = p.to_string();
    assert_eq!(text, "01 0Z 80");
    assert_eq!(<WavCmdParams as BmsValue>::parse(&text), Some(p));
}

#[test]
fn argb_and_ex_bmp_text_read_back() {
    let c = ArgbParams { a: 255, r: 0, g: 12, b: 7 };
    assert_eq!(c.to_string(), "255,0,12,7");
    assert_eq!(<ArgbParams as BmsValue>::parse(&c.to_string()), Some(c));
    let e = ExBmpParams { a: 1, r: 2, g: 3, b: 4, filename: "x.bmp".to_string() };
    assert_eq!(e.to_string(), "1,2,3,4 x.bmp");
    assert_eq!(<ExBmpParams<String> as BmsValue>::parse(&e.to_string()), Some(e));
}

#[test]
fn bga_texts_read_back() {
    let b = BgaParams { bmp_index: 3, x1: -1, y1: 0, x2: 256, y2: 256, dx: 10, dy: -20 };
    assert_eq!(b.to_string(), "3 -1 0 256 256 10 -20");
    assert_eq!(<BgaParams as BmsValue>::parse(&b.to_string()), Some(b));
    let a = AtBgaParams { bmp_index: 65535, sx: 1, sy: 2, w: 3, h: 4, dx: 5, dy: 6 };
    assert_eq!(<AtBgaParams as BmsValue>::parse(&a.to_string()), Some(a));
}

#[test]
fn sw_bga_and_stp_texts_read_back() {
    let s = SwBgaParams {
        fr: 100,
        time: 4000,
        line: 14,
        looping: true,
        a: 255,
        r: 1,
        g: 2,
        b: 3,
        pattern: "01020304".to_string(),
    };
    assert_eq!(s.to_string(), "100:4000:14:1:255,1,2,3 01020304");
    assert_eq!(<SwBgaParams<String> as BmsValue>::parse(&s.to_string()), Some(s));
    let t = StpParams { measure: 7, position: 0, duration_ms: "1500".to_string() };
    assert_eq!(t.to_string(), "007 1500");
    assert_eq!(<StpParams<String> as BmsValue>::parse(&t.to_string()), Some(t));
}

#[test]
fn headers_with_values_read_back() {
    let h = BmsHeaderGameplay::Rank(Rank::Other(9));
    let (cmd, val) = h.format_header();
    assert_eq!(BmsHeaderGameplay::try_match_header(&cmd[1..], &val), Ok(Some(h)));
    let h = BmsHeaderTiming::Bpm("180.5".to_string());
    let (cmd, val) = h.format_header();
    assert_eq!(BmsHeaderTiming::try_match_header(&cmd[1..], &val), Ok(Some(h)));
    let h = BmsHeaderResDefAudio::WavCmd {
        params: WavCmdParams { command: WavCmdKind::Pitch, wav_index: WavIndex(BmsIndex::try_from("01").unwrap()), value: 60 },
    };
    let (cmd, val) = h.format_header();
    assert_eq!(BmsHeaderResDefAudio::try_match_header(&cmd[1..], &val), Ok(Some(h)));
    let h = BmsHeaderResDefVisual::Argb { id: bmsrs::index::BmpIndex(BmsIndex::try_from("0A").unwrap()), params: ArgbParams { a: 1, r: 2, g: 3, b: 4 } };
    let (cmd, val) = h.format_header();
    assert_eq!(BmsHeaderResDefVisual::try_match_header(&cmd[1..], &val), Ok(Some(h)));
}

#[test]
fn float_text_is_canonical_after_writing() {
    let h = BmsHeaderTiming::Bpm("0180.50".to_string());
    let (_, val) = h.format_header();
    assert_eq!(val, "180.5");
}

#[test]
fn value_error_messages() {
    assert_eq!(bmsrs::ParseBmsValueError("1 or 2").to_string(), "expected 1 or 2");
    assert_eq!(bmsrs::ParseBmsValueError("").to_string(), "invalid BMS value");
}

#[test]
fn header_group_unwraps() {
    let h = bmsrs::BmsHeader::Gameplay(BmsHeaderGameplay::Rank(Rank::Easy));
    assert_eq!(h.clone().try_unwrap_gameplay(), Ok(BmsHeaderGameplay::Rank(Rank::Easy)));
    assert_eq!(h.clone().try_unwrap_timing(), Err(h));
}

#[test]
fn difficulty_error_becomes_out_of_range() {
    let e = bmsrs::ParseDifficultyError("9".to_string()).into_error("#DIFFICULTY", "9".to_string());
    assert_eq!(
        e,
        bmsrs::BmsTokenizeError::OutOfRange { context: "#DIFFICULTY", value: "9".to_string(), expected: "1-5" }
    );
}
