use puget::cv::{Edge, Gate, GateLevel};

/// The module's Schmitt thresholds: high above 1.0 V, low below 0.4 V.
fn level(volts: f32) -> GateLevel {
    if volts > 1.0 {
        GateLevel::High
    } else if volts < 0.4 {
        GateLevel::Low
    } else {
        GateLevel::Band
    }
}

#[test]
fn gate_detects_edges_with_hysteresis() {
    let mut g = Gate::new();
    assert_eq!(g.process(level(0.0)), Edge::Steady);
    // Rise through the high threshold.
    assert_eq!(g.process(level(5.0)), Edge::Rising);
    assert!(g.is_high());
    // A dip that stays above the low threshold does NOT retrigger.
    assert_eq!(g.process(level(0.6)), Edge::Steady);
    assert!(g.is_high());
    // Fall below the low threshold.
    assert_eq!(g.process(level(0.1)), Edge::Falling);
    assert!(!g.is_high());
    // Re-arm and rise again.
    assert_eq!(g.process(level(10.0)), Edge::Rising);
}

#[test]
fn gate_band_never_retriggers() {
    let mut g = Gate::default();
    assert!(!g.is_high());
    for _ in 0..5 {
        assert_eq!(g.process(GateLevel::Band), Edge::Steady);
    }
    assert!(!g.is_high());
    assert_eq!(g.process(GateLevel::High), Edge::Rising);
    assert_eq!(g.process(GateLevel::High), Edge::Steady);
    assert_eq!(g.process(GateLevel::Band), Edge::Steady);
    assert_eq!(g.process(GateLevel::Low), Edge::Falling);
    assert_eq!(g.process(GateLevel::Low), Edge::Steady);
}
