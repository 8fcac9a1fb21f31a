use puget::ensemble::{active_players, player_hash, Stagger};

#[test]
fn active_players_clamp_to_the_section() {
    assert_eq!(active_players(0, 8), 1);
    assert_eq!(active_players(6, 8), 6);
    assert_eq!(active_players(12, 8), 8);
    assert_eq!(active_players(3, 1), 1);
}

#[test]
fn player_hash_is_stable() {
    assert_eq!(player_hash(0), 3445806512);
    assert_eq!(player_hash(1), 1775393584);
    assert_eq!(player_hash(5), 1622527918);
    assert_ne!(player_hash(1), player_hash(2));
}

#[test]
fn unstaggered_player_fires_at_once() {
    let mut p: Stagger<u8> = Stagger::new(0);
    assert_eq!(p.trigger(7), Some(7));
    assert_eq!(p.tick(), None);
}

#[test]
fn staggered_player_fires_after_its_hold() {
    let mut p: Stagger<(u8, u16)> = Stagger::new(3);
    assert_eq!(p.stagger(), 3);
    assert_eq!(p.trigger((1, 440)), None);
    assert_eq!(p.tick(), None);
    assert_eq!(p.tick(), None);
    assert_eq!(p.tick(), Some((1, 440)));
    assert_eq!(p.tick(), None);
}

#[test]
fn retrigger_restarts_and_release_drops() {
    let mut p: Stagger<u8> = Stagger::new(2);
    p.trigger(1);
    p.tick();
    assert_eq!(p.trigger(2), None);
    assert_eq!(p.tick(), None);
    assert_eq!(p.tick(), Some(2));
    p.trigger(3);
    p.release();
    assert_eq!(p.tick(), None);
    assert_eq!(p.tick(), None);
}
