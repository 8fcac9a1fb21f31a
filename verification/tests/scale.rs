use puget::controls::{
    artic_of, control_label, copy_control_label, play_mode_of, scale_of, size_of,
    CONTROL_COUNT,
};
use puget::preset::{Artic, Size};
use puget::scale::{nearest_field, Scale, ScaleChoice};
use puget::sequencer::PlayMode;

#[test]
fn d_kurd_ding_is_d3() {
    // MIDI 50 is D3 (146.83 Hz).
    assert_eq!(Scale::DKurd9.midi()[0], 50);
    assert_eq!(Scale::DKurd9.midi(), vec![50, 57, 58, 60, 62, 64, 65, 67, 69]);
}

#[test]
fn named_scales_ascend_from_the_ding() {
    for s in Scale::all_named() {
        let m = s.midi();
        assert_eq!(m.len(), 9);
        for w in m.windows(2) {
            assert!(w[0] < w[1], "{} not ascending", s.name());
        }
    }
}

#[test]
fn scale_names_and_menu_order() {
    let names: Vec<&str> = Scale::all_named().iter().map(|s| s.name()).collect();
    assert_eq!(
        names,
        vec![
            "D Kurd 9",
            "D Celtic Minor 9",
            "C# Kurd 9",
            "D Hijaz 9",
            "D Minor Pentatonic 9",
            "D Major 9",
            "D Hijaz Kar 9",
            "D Insen 9"
        ]
    );
    assert_eq!(ScaleChoice::DCelticMinor9.to_scale(), Scale::DCelticMinor9);
    assert_eq!(ScaleChoice::DKurd9.to_scale(), Scale::DKurd9);
}

#[test]
fn nearest_field_picks_closest_first_on_ties() {
    let notes = Scale::DKurd9.midi();
    assert_eq!(nearest_field(&notes, 50), Some(0));
    assert_eq!(nearest_field(&notes, 62), Some(4));
    // 63 is one semitone from both 62 (field 4) and 64 (field 5): the first wins.
    assert_eq!(nearest_field(&notes, 63), Some(4));
    assert_eq!(nearest_field(&notes, 0), Some(0));
    assert_eq!(nearest_field(&notes, 127), Some(8));
    assert_eq!(nearest_field(&[], 60), None);
}

#[test]
fn firmware_codes_map_to_settings() {
    assert_eq!(scale_of(3), Scale::DHijaz9);
    assert_eq!(scale_of(7), Scale::DInsen9);
    assert_eq!(scale_of(99), Scale::DInsen9);
    assert_eq!(size_of(0), Size::Small);
    assert_eq!(size_of(2), Size::Large);
    assert_eq!(size_of(17), Size::Bass);
    assert_eq!(artic_of(1), Artic::Mute);
    assert_eq!(artic_of(2), Artic::Slap);
    assert_eq!(artic_of(0), Artic::Open);
    assert_eq!(artic_of(5), Artic::Open);
    assert_eq!(play_mode_of(0), PlayMode::Manual);
    assert_eq!(play_mode_of(5), PlayMode::Wander);
    assert_eq!(play_mode_of(6), PlayMode::Euclid);
    assert_eq!(play_mode_of(7), PlayMode::Manual);
}

#[test]
fn control_labels_cover_the_panel() {
    let labels: Vec<&str> = (0..CONTROL_COUNT).map(|i| control_label(i).unwrap()).collect();
    assert_eq!(labels, vec!["Scale", "Size", "Air", "Damp", "Interact", "Halo"]);
    assert_eq!(control_label(CONTROL_COUNT), None);
}

#[test]
fn copying_a_label_truncates_to_the_buffer() {
    let mut buf = [0u8; 3];
    assert_eq!(copy_control_label(0, &mut buf), 5);
    assert_eq!(&buf, b"Sca");

    let mut wide = [b'#'; 10];
    assert_eq!(copy_control_label(4, &mut wide), 8);
    assert_eq!(&wide, b"Interact##");

    let mut untouched = [7u8; 4];
    assert_eq!(copy_control_label(CONTROL_COUNT, &mut untouched), 0);
    assert_eq!(untouched, [7u8; 4]);

    let mut empty: [u8; 0] = [];
    assert_eq!(copy_control_label(2, &mut empty), 3);
}
