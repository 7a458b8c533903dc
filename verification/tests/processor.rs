use std::collections::BTreeSet;

use bmsrs::bmson::{
    BarLine, BGAEvent, BGAHeader, BpmEvent, ChartInfo, KeyChannel, KeyNote, LnJudge, LnLife, LnType, MineChannel,
    MineNote, ModeHint, NoteEvent, ScrollEvent, SongInfo, SoundChannel, StopEvent, BGA,
};
use bmsrs::processor::{
    build_chart_info, build_song_info, ln_judge_to_hint, ln_life_to_hint, ln_type_to_hint, AudioAsset, Beat, BgaLayer,
    BmsonNoteExt, BmsonProcessor, Event, EventKind, GenericLayout, Lane, Layout, LnJudgeHint,
    LnLifeHint, LnTypeHint, NoteKind, NoteSide, Pms,
};

fn key(n: u8) -> Lane {
    Lane::Key(n)
}

fn note(x: u64, y: u64, l: u64) -> NoteEvent {
    NoteEvent {
        x,
        y,
        l,
        c: false,
        t: None,
        up: None,
        ln_type_hint: None,
        ln_judge_hint: None,
        ln_life_hint: None,
        vol: None,
        pan: None,
    }
}

fn channel(name: &str, note_events: Vec<NoteEvent>) -> SoundChannel {
    SoundChannel { name: name.to_string(), note_events }
}

/// The parts of a simple chart: resolution 240, no lines.
struct Parts {
    sound: Vec<SoundChannel>,
    mines: Vec<MineChannel>,
    keys: Vec<KeyChannel>,
    bpms: Vec<BpmEvent>,
    stops: Vec<StopEvent>,
    scrolls: Vec<ScrollEvent>,
    bga: BGA,
    lines: Option<Vec<BarLine>>,
}

fn parts() -> Parts {
    Parts {
        sound: vec![],
        mines: vec![],
        keys: vec![],
        bpms: vec![],
        stops: vec![],
        scrolls: vec![],
        bga: BGA::default(),
        lines: None,
    }
}

fn process(p: &Parts, layout: Layout) -> (Vec<AudioAsset>, Vec<Event>) {
    let times: Vec<Vec<u64>> = p
        .sound
        .iter()
        .map(|c| {
            let pulses: BTreeSet<u64> = c.note_events.iter().map(|n| n.y).collect();
            pulses.iter().map(|y| y * 1000).collect()
        })
        .collect();
    BmsonProcessor::process_events(
        &p.sound,
        &p.mines,
        &p.keys,
        &p.bpms,
        &p.stops,
        &p.scrolls,
        &p.bga,
        p.lines.as_ref(),
        240,
        layout,
        &times,
    )
}

fn notes_of(events: &[Event]) -> Vec<(u64, NoteSide, Lane, NoteKind)> {
    events
        .iter()
        .filter_map(|e| {
            if let EventKind::Note { side, lane, kind, ext: BmsonNoteExt { .. }, .. } = &e.kind {
                Some((e.tick, *side, *lane, *kind))
            } else {
                None
            }
        })
        .collect()
}

#[test]
fn process_basic_note() {
    let mut p = parts();
    p.sound.push(channel("kick.wav", vec![note(1, 0, 0)]));
    let (_, events) = process(&p, Layout::Beat);
    let notes = notes_of(&events);
    assert_eq!(notes.len(), 1);
    assert_eq!(notes[0], (0, NoteSide::P1, key(1), NoteKind::Normal));
}

#[test]
fn process_beat_layout_maps_both_sides() {
    let mut p = parts();
    p.sound.push(channel("p1.wav", vec![note(1, 0, 0), note(8, 240, 0), note(9, 480, 0)]));
    let (_, events) = process(&p, Layout::Beat);
    let positions: Vec<(NoteSide, Lane)> = notes_of(&events).iter().map(|n| (n.1, n.2)).collect();
    assert_eq!(positions.len(), 3);
    assert!(positions.contains(&(NoteSide::P1, key(1))));
    assert!(positions.contains(&(NoteSide::P1, Lane::Scratch(1))));
    assert!(positions.contains(&(NoteSide::P2, key(1))));
}

#[test]
fn process_pms_layout_single_player() {
    let mut p = parts();
    p.sound.push(channel("popn.wav", (1..=9).map(|i| note(i, (i - 1) * 240, 0)).collect()));
    let (_, events) = process(&p, Layout::Pms);
    let sides: Vec<NoteSide> = notes_of(&events).iter().map(|n| n.1).collect();
    assert_eq!(sides.len(), 9);
    assert!(sides.iter().all(|s| *s == NoteSide::P1));
}

#[test]
fn process_generic_layout_n_keys() {
    let mut p = parts();
    p.sound.push(channel("generic.wav", (1..=5).map(|i| note(i, (i - 1) * 240, 0)).collect()));
    let (_, events) = process(&p, Layout::Generic(GenericLayout { keys: 5 }));
    let positions: Vec<(NoteSide, Lane)> = notes_of(&events).iter().map(|n| (n.1, n.2)).collect();
    assert_eq!(positions.len(), 5);
    assert!(positions.contains(&(NoteSide::P1, key(1))));
    assert!(positions.contains(&(NoteSide::P1, key(5))));
}

#[test]
fn process_default_routes_by_mode_hint() {
    let mut p = parts();
    p.sound.push(channel("a.wav", vec![note(1, 0, 0)]));
    let (_, beat) = process(&p, Layout::for_mode(&ModeHint::Beat7k));
    assert!(beat.iter().any(|e| matches!(&e.kind, EventKind::Note { ext: BmsonNoteExt { .. }, .. })));
    let (_, pms) = process(&p, Layout::for_mode(&ModeHint::Popn9k));
    assert!(pms.iter().any(|e| matches!(&e.kind, EventKind::Note { ext: BmsonNoteExt { .. }, .. })));
}

#[test]
fn process_stop_events() {
    let mut p = parts();
    p.stops.push(StopEvent { y: 480, duration: 192 });
    let (_, events) = process(&p, Layout::Beat);
    let stops: Vec<(u64, u64)> = events
        .iter()
        .filter_map(|e| if let EventKind::Stop { duration } = &e.kind { Some((e.tick, *duration)) } else { None })
        .collect();
    assert_eq!(stops.len(), 1);
    assert_eq!(stops[0], (480, 192));
}

#[test]
fn process_bga_events() {
    let mut p = parts();
    p.bga = BGA {
        bga_header: vec![BGAHeader { id: 1, name: "bg.png".to_string() }],
        bga_events: vec![BGAEvent { y: 0, id: 1 }],
        layer_events: vec![BGAEvent { y: 480, id: 1 }],
        poor_events: vec![BGAEvent { y: 960, id: 1 }],
    };
    let (_, events) = process(&p, Layout::Beat);
    let bga: Vec<(u64, BgaLayer)> = events
        .iter()
        .filter_map(|e| if let EventKind::Bga { layer, .. } = &e.kind { Some((e.tick, *layer)) } else { None })
        .collect();
    assert!(bga.contains(&(0, BgaLayer::Base)));
    assert!(bga.contains(&(480, BgaLayer::Layer)));
    assert!(bga.contains(&(960, BgaLayer::Poor)));

    let info = ChartInfo {
        subtitle: String::new(),
        subartists: vec![],
        chart_name: "HYPER".to_string(),
        level: 8,
        back_image: None,
        eyecatch_image: None,
        banner_image: None,
        preview_music: None,
        title_image: None,
        bga: p.bga.clone(),
    };
    let meta = build_chart_info(&info);
    assert_eq!(meta.bga_resources.len(), 1);
    assert_eq!(meta.bga_resources[0].id, 1);
}

#[test]
fn process_long_note() {
    let mut p = parts();
    p.sound.push(channel("ln.wav", vec![note(1, 0, 480)]));
    let (_, events) = process(&p, Layout::Beat);
    let lns: Vec<u64> = notes_of(&events)
        .iter()
        .filter_map(|n| if let NoteKind::Long { duration } = n.3 { Some(duration) } else { None })
        .collect();
    assert_eq!(lns, vec![480]);
}

#[test]
fn process_bgm_note_skips_playable_pulse() {
    let mut p = parts();
    p.sound.push(channel("playable.wav", vec![note(1, 0, 0), note(0, 0, 0)]));
    let (_, events) = process(&p, Layout::Beat);
    let count = events.iter().filter(|e| matches!(&e.kind, EventKind::Note { ext: BmsonNoteExt { .. }, .. })).count();
    assert_eq!(count, 1);
    assert!(!events.iter().any(|e| matches!(&e.kind, EventKind::Bgm { .. })));
}

#[test]
fn metadata_transferred() {
    let info = ChartInfo {
        subtitle: String::new(),
        subartists: vec![],
        chart_name: "HYPER".to_string(),
        level: 8,
        back_image: None,
        eyecatch_image: None,
        banner_image: None,
        preview_music: None,
        title_image: None,
        bga: BGA::default(),
    };
    let song = SongInfo { title: "Test".to_string(), artist: "Test Artist".to_string(), genre: "Test Genre".to_string() };
    let song_meta = build_song_info(&song, &info);
    assert_eq!(song_meta.title, "Test");
    assert_eq!(song_meta.artist, "Test Artist");
    assert_eq!(song_meta.genre, "Test Genre");
    let meta = build_chart_info(&info);
    assert_eq!(meta.chart_name, "HYPER");
    assert_eq!(meta.level, 8);
}

#[test]
fn song_info_keeps_subartists_in_order() {
    let info = ChartInfo {
        subtitle: String::new(),
        subartists: vec!["music:a".to_string(), "chart:b".to_string()],
        chart_name: String::new(),
        level: 1,
        back_image: None,
        eyecatch_image: None,
        banner_image: None,
        preview_music: None,
        title_image: None,
        bga: BGA::default(),
    };
    let song = SongInfo { title: String::new(), artist: String::new(), genre: String::new() };
    let meta = build_song_info(&song, &info);
    assert_eq!(meta.subartists, vec!["music:a".to_string(), "chart:b".to_string()]);
}

#[test]
fn bar_lines_auto_generated() {
    let p = parts();
    let (_, events) = process(&p, Layout::Beat);
    let bars: Vec<u64> = events.iter().filter(|e| matches!(&e.kind, EventKind::Bar)).map(|e| e.tick).collect();
    assert!(!bars.is_empty());
    assert_eq!(bars[0], 0);
    assert_eq!(bars[1], 960);
}

#[test]
fn beat_layout_mapping() {
    assert_eq!(Beat::from_bmson(1), Some((NoteSide::P1, key(1))));
    assert_eq!(Beat::from_bmson(7), Some((NoteSide::P1, key(7))));
    assert_eq!(Beat::from_bmson(8), Some((NoteSide::P1, Lane::Scratch(1))));
    assert_eq!(Beat::from_bmson(9), Some((NoteSide::P2, key(1))));
    assert_eq!(Beat::from_bmson(15), Some((NoteSide::P2, key(7))));
    assert_eq!(Beat::from_bmson(16), Some((NoteSide::P2, Lane::Scratch(1))));
    assert_eq!(Beat::from_bmson(0), None);
    assert_eq!(Beat::from_bmson(17), None);
}

#[test]
fn pms_layout_mapping() {
    assert_eq!(Pms::from_bmson(1), Some((NoteSide::P1, key(1))));
    assert_eq!(Pms::from_bmson(9), Some((NoteSide::P1, key(9))));
    assert_eq!(Pms::from_bmson(0), None);
    assert_eq!(Pms::from_bmson(10), None);
}

#[test]
fn generic_layout_mapping() {
    let layout = GenericLayout { keys: 5 };
    assert_eq!(layout.map_x(1), Some((NoteSide::P1, key(1))));
    assert_eq!(layout.map_x(5), Some((NoteSide::P1, key(5))));
    assert_eq!(layout.map_x(0), None);
    assert_eq!(layout.map_x(6), None);
}

#[test]
fn bar_lines_from_explicit_lines() {
    let mut p = parts();
    p.lines = Some(vec![BarLine { y: 0 }, BarLine { y: 960 }, BarLine { y: 1920 }]);
    let (_, events) = process(&p, Layout::Beat);
    let bars: Vec<u64> = events.iter().filter(|e| matches!(&e.kind, EventKind::Bar)).map(|e| e.tick).collect();
    assert_eq!(bars, vec![0, 960, 1920]);
}

#[test]
fn note_ext_fields() {
    let ext = BmsonNoteExt {
        vol: Some(-50),
        pan: Some(100),
        release_sound: Some(true),
        beatoraja_ln_mode: Some(2),
        ln_type_hint: Some(LnTypeHint::Cn),
        ln_judge_hint: Some(LnJudgeHint::Ticks),
        ln_life_hint: Some(LnLifeHint::Normal),
    };
    assert_eq!(ext.vol, Some(-50));
    assert_eq!(ext.pan, Some(100));
    assert_eq!(ext.release_sound, Some(true));
}

#[test]
fn chart_level_ln_hints_propagate() {
    assert_eq!(ln_type_to_hint(LnType::Cn), LnTypeHint::Cn);
    assert_eq!(ln_judge_to_hint(LnJudge::Ticks), LnJudgeHint::Ticks);
    assert_eq!(ln_life_to_hint(LnLife::Ticks), LnLifeHint::Ticks);
}

#[test]
fn process_key_channel_notes_play_whole_files() {
    let mut p = parts();
    p.sound.push(channel("kick.wav", vec![note(1, 0, 0), note(1, 480, 0)]));
    p.keys.push(KeyChannel { name: "key.wav".to_string(), notes: vec![bmsrs::bmson::KeyNote { x: 2, y: 240 }] });
    let (assets, events) = process(&p, Layout::Beat);
    assert_eq!(assets.len(), 3);
    assert_eq!(assets[2].path, "key.wav");
    assert_eq!(assets[2].start, 0);
    assert!(assets[2].duration.is_none());
    assert!(events.iter().any(|e| e.tick == 240
        && matches!(&e.kind, EventKind::Note { kind: NoteKind::Invisible, audio_index: Some(2), .. })));
}

#[test]
fn process_slices_follow_the_pulses() {
    let mut p = parts();
    let mut cont = note(2, 480, 0);
    cont.c = true;
    p.sound.push(channel("a.wav", vec![note(1, 0, 0), cont]));
    p.sound.push(channel("b.wav", vec![note(0, 240, 0)]));
    let (assets, events) = process(&p, Layout::Beat);
    assert_eq!(assets.len(), 3);
    assert_eq!(assets[0].path, "a.wav");
    assert_eq!(assets[0].start, 0);
    assert_eq!(assets[0].duration, Some(480_000));
    assert_eq!(assets[1].start, 480_000);
    assert_eq!(assets[1].duration, None);
    assert_eq!(assets[2].path, "b.wav");
    assert!(events.iter().any(|e| e.tick == 240 && matches!(&e.kind, EventKind::Bgm { audio_index: 2 })));
}

#[test]
fn process_bpm_events() {
    let mut p = parts();
    p.sound.push(channel("a.wav", vec![note(1, 0, 0)]));
    p.bpms.push(BpmEvent { y: 960, bpm_bits: 180.0f64.to_bits() });
    let (_, events) = process(&p, Layout::Beat);
    let bpm_evts: Vec<(u64, f64)> = events
        .iter()
        .filter_map(|e| if let EventKind::Bpm { bpm_bits } = &e.kind { Some((e.tick, f64::from_bits(*bpm_bits))) } else { None })
        .collect();
    assert_eq!(bpm_evts.len(), 1);
    assert_eq!(bpm_evts[0], (960, 180.0));
}

#[test]
fn process_scroll_events() {
    let mut p = parts();
    p.sound.push(channel("a.wav", vec![note(1, 0, 0)]));
    p.scrolls.push(ScrollEvent { y: 1920, rate_bits: 2.0f64.to_bits() });
    let (_, events) = process(&p, Layout::Beat);
    let scroll_evts: Vec<(u64, f64)> = events
        .iter()
        .filter_map(|e| if let EventKind::Scroll { rate_bits } = &e.kind { Some((e.tick, f64::from_bits(*rate_bits))) } else { None })
        .collect();
    assert_eq!(scroll_evts.len(), 1);
    assert_eq!(scroll_evts[0], (1920, 2.0));
}

#[test]
fn process_mine_channel_slices_come_before_key_channel_slices() {
    let mut p = parts();
    p.sound.push(channel("a.wav", vec![note(1, 0, 0), note(2, 240, 0)]));
    p.mines.push(MineChannel { name: "mine.wav".to_string(), notes: vec![MineNote { x: 3, y: 480, damage_bits: 10.0f64.to_bits() }] });
    p.keys.push(KeyChannel { name: "key.wav".to_string(), notes: vec![KeyNote { x: 4, y: 720 }] });
    let (assets, events) = process(&p, Layout::Beat);
    assert_eq!(assets.len(), 4);
    assert_eq!(assets[2].path, "mine.wav");
    assert_eq!(assets[3].path, "key.wav");
    let mine = events.iter().find(|e| e.tick == 480).unwrap();
    match &mine.kind {
        EventKind::Note { kind: NoteKind::Mine { damage_bits }, audio_index, .. } => {
            assert_eq!(f64::from_bits(*damage_bits), 10.0);
            assert_eq!(*audio_index, Some(2));
        }
        other => panic!("unexpected event {other:?}"),
    }
    let key_note = events.iter().find(|e| e.tick == 720).unwrap();
    match &key_note.kind {
        EventKind::Note { kind: NoteKind::Invisible, audio_index, .. } => assert_eq!(*audio_index, Some(3)),
        other => panic!("unexpected event {other:?}"),
    }
}

#[test]
fn explicit_bar_lines_need_no_resolution() {
    let lines = vec![BarLine { y: 0 }, BarLine { y: 960 }];
    let (_, events) = BmsonProcessor::process_events(
        &vec![],
        &vec![],
        &vec![],
        &vec![],
        &vec![],
        &vec![],
        &BGA::default(),
        Some(&lines),
        0,
        Layout::Beat,
        &vec![],
    );
    let bars: Vec<u64> = events.iter().filter(|e| matches!(e.kind, EventKind::Bar)).map(|e| e.tick).collect();
    assert_eq!(bars, vec![0, 960]);
}

#[test]
fn events_come_in_pulse_order() {
    let mut p = parts();
    p.bpms.push(BpmEvent { y: 480, bpm_bits: 150.0f64.to_bits() });
    p.stops.push(StopEvent { y: 480, duration: 10 });
    let (_, events) = process(&p, Layout::Beat);
    let ticks: Vec<u64> = events.iter().map(|e| e.tick).collect();
    assert_eq!(ticks, vec![0, 480, 480, 960]);
    assert!(matches!(events[0].kind, EventKind::Bar));
    assert!(matches!(events[1].kind, EventKind::Bpm { .. }));
    assert!(matches!(events[2].kind, EventKind::Stop { .. }));
}
