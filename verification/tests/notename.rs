use puget::notename::{note_from_stem, note_name_to_midi, parse_i32};

#[test]
fn note_names_read_as_midi() {
    assert_eq!(note_name_to_midi(b"D4"), Some(62));
    assert_eq!(note_name_to_midi(b"A4"), Some(69));
    assert_eq!(note_name_to_midi(b"Bb3"), Some(58));
    assert_eq!(note_name_to_midi(b"d2"), Some(38));
    assert_eq!(note_name_to_midi(b"C#3"), Some(49));
    assert_eq!(note_name_to_midi(b"Cs3"), Some(49));
    assert_eq!(note_name_to_midi(b"FS4"), Some(66));
    assert_eq!(note_name_to_midi(b"C-1"), Some(0));
    assert_eq!(note_name_to_midi(b"G+2"), Some(43));
}

#[test]
fn malformed_note_names_are_rejected() {
    assert_eq!(note_name_to_midi(b""), None);
    assert_eq!(note_name_to_midi(b"H4"), None);
    assert_eq!(note_name_to_midi(b"D"), None);
    assert_eq!(note_name_to_midi(b"D4x"), None);
    assert_eq!(note_name_to_midi(b"D-"), None);
    assert_eq!(note_name_to_midi(b"D99999999999"), None);
}

#[test]
fn octave_numbers_follow_the_integer_parser() {
    assert_eq!(parse_i32(b"2147483647", 0), Some(i32::MAX));
    assert_eq!(parse_i32(b"-2147483648", 0), Some(i32::MIN));
    assert_eq!(parse_i32(b"2147483648", 0), None);
    assert_eq!(parse_i32(b"+7", 0), Some(7));
    assert_eq!(parse_i32(b"+", 0), None);
    assert_eq!(parse_i32(b"x-12", 1), Some(-12));
    assert_eq!(parse_i32(b"1 2", 0), None);
    // Extreme octaves are computed exactly rather than overflowing.
    assert_eq!(note_name_to_midi(b"C2147483647"), Some(12 * 2147483648));
}

#[test]
fn file_stems_name_their_note() {
    assert_eq!(note_from_stem(b"s8-D4"), Some(62));
    assert_eq!(note_from_stem(b"take-2-Bb3"), Some(58));
    assert_eq!(note_from_stem(b"E2"), Some(40));
    assert_eq!(note_from_stem(b"s8-"), None);
}
