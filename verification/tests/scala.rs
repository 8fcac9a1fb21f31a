use puget::scala::{parse_scl_text, SclPitch};

fn text(cs: &[char]) -> String {
    cs.iter().collect()
}

/// The cents value of a pitch token, as the tuning layer reads it.
fn cents(p: &SclPitch) -> Option<f32> {
    match p {
        SclPitch::Cents(t) => text(t).parse::<f32>().ok(),
        SclPitch::Ratio(n, d) => {
            let num: f32 = text(n).trim().parse().ok()?;
            let den: f32 = text(d).trim().parse().ok()?;
            Some(1200.0 * (num / den).log2())
        }
        SclPitch::Whole(t) => Some(1200.0 * text(t).parse::<f32>().ok()?.log2()),
    }
}

#[test]
fn parses_scl_ratios_and_cents_and_nonoctave_period() {
    // A tiny mixed scale: a just fifth (ratio) and a cents value; octave period.
    let scl = "! test.scl\nMy scale\n 3\n 386.31\n 3/2\n 2/1\n";
    let s = parse_scl_text(scl).expect("parse");
    assert_eq!(text(&s.description), "My scale");
    assert_eq!(s.pitches.len(), 3);
    let period = cents(&s.pitches[2]).unwrap();
    assert!((period - 1200.0).abs() < 0.01);
    // degrees: 0, 386.31, 701.955
    assert!((cents(&s.pitches[0]).unwrap() - 386.31).abs() < 0.1);
    assert!((cents(&s.pitches[1]).unwrap() - 701.955).abs() < 0.1);

    // Bohlen-Pierce style non-octave period (3/1 = 1901.955 cents).
    let bp = "! bp\nBohlen-Pierce-ish\n 2\n 1/1\n 3/1\n";
    let s = parse_scl_text(bp).expect("parse bp");
    let period = cents(&s.pitches[1]).unwrap();
    assert!((period - 1901.955).abs() < 0.1, "period {}", period);
}

#[test]
fn pitch_tokens_are_classified_by_form() {
    let scl = "desc\r\n4 notes follow\r\n100.0 cents\n5/4\n\n! a comment\n  3 \n2/1\n";
    let s = parse_scl_text(scl).expect("parse");
    assert_eq!(text(&s.description), "desc");
    assert_eq!(s.pitches.len(), 4);
    match &s.pitches[0] {
        SclPitch::Cents(t) => assert_eq!(text(t), "100.0"),
        _ => panic!("expected cents"),
    }
    match &s.pitches[1] {
        SclPitch::Ratio(n, d) => {
            assert_eq!(text(n), "5");
            assert_eq!(text(d), "4");
        }
        _ => panic!("expected a ratio"),
    }
    match &s.pitches[2] {
        SclPitch::Whole(t) => assert_eq!(text(t), "3"),
        _ => panic!("expected a whole number"),
    }
}

#[test]
fn malformed_scl_is_rejected() {
    assert!(parse_scl_text("").is_none());
    assert!(parse_scl_text("! only a comment\n").is_none());
    assert!(parse_scl_text("desc\n").is_none());
    assert!(parse_scl_text("desc\n0\n").is_none());
    assert!(parse_scl_text("desc\n-1\n1/1\n").is_none());
    assert!(parse_scl_text("desc\nthree\n1/1\n").is_none());
    assert!(parse_scl_text("desc\n3\n1/1\n2/1\n").is_none());
    assert!(parse_scl_text("desc\n+1\n2/1").is_some());
}

#[test]
fn unicode_white_space_is_trimmed() {
    let scl = "\u{3000}Name\u{a0}\n\u{2003}1\n\u{2028}2/1\n";
    let s = parse_scl_text(scl).expect("parse");
    assert_eq!(text(&s.description), "Name");
    assert_eq!(s.pitches.len(), 1);
}
