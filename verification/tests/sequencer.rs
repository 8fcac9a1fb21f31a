use puget::euclid::euclid_hit;
use puget::sequencer::{PlayMode, Sequencer, Step};

fn hit_count(len: u8, fill: u8) -> u8 {
    (0..len).filter(|&s| euclid_hit(s, len, fill, 0)).count() as u8
}

#[test]
fn euclid_has_requested_onsets() {
    assert_eq!(hit_count(8, 5), 5);
    assert_eq!(hit_count(8, 3), 3);
    assert_eq!(hit_count(16, 7), 7);
    assert_eq!(hit_count(4, 0), 0);
}

#[test]
fn wander_stays_in_range() {
    let mut seq = Sequencer::new(9, 0x1234);
    seq.set_mode(PlayMode::Wander);
    for _ in 0..10_000 {
        if let Step::Strike { field, .. } = seq.clock() {
            assert!(field < 9);
        }
    }
}

#[test]
fn euclid_emits_five_of_eight() {
    let mut seq = Sequencer::new(9, 1);
    seq.set_mode(PlayMode::Euclid);
    seq.set_euclid(8, 5, 0);
    seq.set_rest_threshold(0);
    let hits = (0..8).filter(|_| matches!(seq.clock(), Step::Strike { .. })).count();
    assert_eq!(hits, 5);
}

#[test]
fn manual_mode_always_rests_and_stays_put() {
    let mut seq = Sequencer::new(5, 3);
    assert_eq!(seq.mode(), PlayMode::Manual);
    for _ in 0..20 {
        assert_eq!(seq.clock(), Step::Rest);
        assert_eq!(seq.position(), 0);
    }
}

#[test]
fn up_mode_walks_and_wraps_with_velocity_rolls() {
    let mut seq = Sequencer::new(3, 1);
    seq.set_mode(PlayMode::Up);
    assert_eq!(seq.clock(), Step::Strike { field: 1, roll: 270369 });
    assert_eq!(seq.clock(), Step::Strike { field: 2, roll: 67634689 });
    assert_eq!(seq.clock(), Step::Strike { field: 0, roll: 2647435461 });
}

#[test]
fn down_mode_walks_backwards_and_undoes_up() {
    let mut seq = Sequencer::new(4, 9);
    seq.set_mode(PlayMode::Down);
    let fields: Vec<usize> = (0..5)
        .map(|_| match seq.clock() {
            Step::Strike { field, .. } => field,
            Step::Rest => usize::MAX,
        })
        .collect();
    assert_eq!(fields, vec![3, 2, 1, 0, 3]);
    seq.set_mode(PlayMode::Up);
    seq.clock();
    assert_eq!(seq.position(), 0);
}

#[test]
fn up_down_bounces_at_both_ends() {
    let mut seq = Sequencer::new(3, 9);
    seq.set_mode(PlayMode::UpDown);
    let fields: Vec<usize> = (0..6)
        .map(|_| match seq.clock() {
            Step::Strike { field, .. } => field,
            Step::Rest => usize::MAX,
        })
        .collect();
    assert_eq!(fields, vec![1, 2, 1, 0, 1, 2]);
}

#[test]
fn up_down_with_one_field_stays() {
    let mut seq = Sequencer::new(1, 9);
    seq.set_mode(PlayMode::UpDown);
    for _ in 0..4 {
        assert!(matches!(seq.clock(), Step::Strike { field: 0, .. }));
    }
}

#[test]
fn random_mode_draws_position_then_velocity() {
    let mut seq = Sequencer::new(9, 7);
    seq.set_mode(PlayMode::Random);
    assert_eq!(seq.clock(), Step::Strike { field: 0, roll: 470389255 });
    assert_eq!(seq.clock(), Step::Strike { field: 4, roll: 3069989445 });
    assert_eq!(seq.clock(), Step::Strike { field: 4, roll: 2098155156 });
    assert_eq!(seq.clock(), Step::Strike { field: 1, roll: 794540887 });
}

#[test]
fn full_rest_threshold_rests_but_still_moves() {
    let mut seq = Sequencer::new(4, 5);
    seq.set_mode(PlayMode::Up);
    seq.set_rest_threshold(u32::MAX);
    // Every draw but u32::MAX itself rests; the position still advances.
    for k in 1..=8 {
        assert_eq!(seq.clock(), Step::Rest);
        assert_eq!(seq.position(), k % 4);
    }
}

#[test]
fn zero_fields_become_one_and_resize_clamps_position() {
    let mut seq = Sequencer::new(0, 1);
    assert_eq!(seq.fields(), 1);
    seq.set_fields(6);
    seq.set_mode(PlayMode::Down);
    seq.clock();
    assert_eq!(seq.position(), 5);
    seq.set_fields(3);
    assert_eq!(seq.position(), 2);
    seq.set_fields(0);
    assert_eq!(seq.fields(), 1);
    assert_eq!(seq.position(), 0);
}

#[test]
fn euclid_settings_are_clamped_and_rotation_keeps_count() {
    for rot in 0..8u8 {
        let mut seq = Sequencer::new(9, 1);
        seq.set_mode(PlayMode::Euclid);
        seq.set_euclid(8, 3, rot);
        let hits = (0..8).filter(|_| matches!(seq.clock(), Step::Strike { .. })).count();
        assert_eq!(hits, 3, "rotation {rot}");
    }
    // Fill larger than the length fires every step; a zero length acts as one.
    let mut seq = Sequencer::new(4, 1);
    seq.set_mode(PlayMode::Euclid);
    seq.set_euclid(4, 9, 0);
    let hits = (0..4).filter(|_| matches!(seq.clock(), Step::Strike { .. })).count();
    assert_eq!(hits, 4);
    seq.set_euclid(0, 0, 0);
    assert_eq!(seq.clock(), Step::Rest);
}

#[test]
fn euclid_hit_pattern_for_five_of_eight() {
    let pattern: Vec<bool> = (0..8).map(|s| euclid_hit(s, 8, 5, 0)).collect();
    assert_eq!(pattern, vec![true, false, true, false, true, true, false, true]);
    // Rotation by two shifts the pattern left by two steps.
    let rotated: Vec<bool> = (0..8).map(|s| euclid_hit(s, 8, 5, 2)).collect();
    assert_eq!(rotated, vec![true, false, true, true, false, true, true, false]);
    assert!(!euclid_hit(3, 0, 3, 0));
}

#[test]
fn sequencer_clone_continues_identically() {
    let mut a = Sequencer::new(7, 42);
    a.set_mode(PlayMode::Wander);
    a.clock();
    let mut b = a.clone();
    for _ in 0..50 {
        assert_eq!(a.clock(), b.clock());
    }
}
