use bmsrs::bmson::{NoteEvent, SoundChannel};
use bmsrs::processor::{slice_channel, unique_pulses, AudioAsset};

const MS: u64 = 1_000_000;

fn note(x: u64, y: u64, c: bool) -> NoteEvent {
    NoteEvent {
        x,
        y,
        l: 0,
        c,
        t: None,
        up: None,
        ln_type_hint: None,
        ln_judge_hint: None,
        ln_life_hint: None,
        vol: None,
        pan: None,
    }
}

/// The slices of a channel at 120 BPM with 240 pulses per beat (a pulse
/// lasts 500/240 ms), and the channel's pulses.
fn slice_120(notes: Vec<NoteEvent>) -> (Vec<AudioAsset>, Vec<u64>) {
    let channel = SoundChannel { name: "demo.wav".to_string(), note_events: notes };
    let pulses = unique_pulses(&channel.note_events);
    let times: Vec<u64> = pulses.iter().map(|p| p * 500 * MS / 240).collect();
    let sliced = slice_channel(&channel, &times);
    assert_eq!(sliced.pulses, pulses);
    for (i, p) in pulses.iter().enumerate() {
        assert_eq!(sliced.pulse_to_index(*p), Some(i));
    }
    (sliced.assets, sliced.pulses)
}

#[test]
fn three_unique_pulses_produce_three_assets() {
    let (assets, pulses) = slice_120(vec![note(1, 0, false), note(2, 240, true), note(1, 480, false)]);
    assert_eq!(assets.len(), 3);
    assert_eq!(pulses.len(), 3);
    assert_eq!(assets[0].start, 0);
    assert_eq!(assets[0].duration, Some(500 * MS));
    assert_eq!(assets[1].start, 500 * MS);
    assert_eq!(assets[1].duration, Some(500 * MS));
    assert_eq!(assets[2].start, 0);
    assert!(assets[2].duration.is_none());
}

#[test]
fn duplicate_pulse_deduplicated() {
    let (assets, pulses) = slice_120(vec![note(1, 240, false), note(2, 240, false)]);
    assert_eq!(assets.len(), 1);
    assert_eq!(pulses.iter().position(|p| *p == 240), Some(0));
    assert_eq!(assets[0].start, 0);
}

#[test]
fn first_slice_starts_at_zero() {
    let (assets, _) = slice_120(vec![note(1, 0, false)]);
    assert_eq!(assets[0].start, 0);
    assert!(assets[0].duration.is_none());
}

#[test]
fn intermediate_slice_duration_is_gap() {
    let (assets, _) = slice_120(vec![note(1, 0, false), note(1, 240, false)]);
    assert_eq!(assets[0].start, 0);
    let d0 = assets[0].duration.expect("first slice has duration");
    assert_eq!(d0, 500 * MS);
    assert_eq!(assets[1].start, 0);
}

#[test]
fn last_slice_duration_is_none() {
    let (assets, _) = slice_120(vec![note(1, 0, false), note(1, 480, false)]);
    assert!(assets.last().is_some_and(|a| a.duration.is_none()));
}

#[test]
fn continuation_pulse_offsets_from_last_restart() {
    let (assets, _) = slice_120(vec![
        note(1, 0, false),
        note(1, 240, true),
        note(1, 480, true),
        note(1, 720, false),
        note(1, 840, true),
    ]);
    assert_eq!(assets.len(), 5);
    assert_eq!(assets[0].start, 0);
    assert_eq!(assets[1].start, 500 * MS);
    assert_eq!(assets[2].start, 1000 * MS);
    assert_eq!(assets[3].start, 0);
    assert_eq!(assets[4].start, 250 * MS);
}

#[test]
fn mixed_c_at_same_pulse_treated_as_restart() {
    let (assets, _) = slice_120(vec![note(1, 240, true), note(2, 240, false)]);
    assert_eq!(assets[0].start, 0);
}

#[test]
fn pulse_to_index_finds_each_slice() {
    let channel = SoundChannel {
        name: "demo.wav".to_string(),
        note_events: vec![note(1, 480, false), note(2, 0, false), note(1, 480, true), note(3, 240, true)],
    };
    let times: Vec<u64> = vec![0, 500 * MS, 1000 * MS];
    let sliced = slice_channel(&channel, &times);
    assert_eq!(sliced.pulses, vec![0, 240, 480]);
    assert_eq!(sliced.pulse_to_index(240), Some(1));
    assert_eq!(sliced.pulse_to_index(480), Some(2));
    assert_eq!(sliced.pulse_to_index(100), None);
    assert_eq!(sliced.assets[1].start, 500 * MS);
    assert_eq!(sliced.assets[2].start, 0);
}
