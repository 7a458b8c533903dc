use bmsrs::bmson::v0;
use bmsrs::bmson::{default_resolution, BarLine, BGA};

#[test]
fn bga_default_is_empty() {
    let bga = BGA::default();
    assert!(bga.bga_header.is_empty());
    assert!(bga.bga_events.is_empty());
    assert!(bga.layer_events.is_empty());
    assert!(bga.poor_events.is_empty());
}

#[test]
fn default_resolution_is_240() {
    assert_eq!(default_resolution(), 240);
}

#[test]
fn v0_bar_line_k_dropped_when_converting_to_root() {
    let v0_bar = v0::BarLine { y: 960, k: Some(0) };
    let root_bar: BarLine = BarLine { y: 960 };
    assert_eq!(root_bar.y, v0_bar.y);
    // the k field exists only in version 0
}
