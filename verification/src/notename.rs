//! Note names as recordings spell them in their file names (`D4`, `Bb3`,
//! `c#2`, `s8-D4`): a letter, any run of accidentals, then a signed octave
//! number, read as a MIDI note number (C-1 = 0, A4 = 69).

use vstd::prelude::*;

verus! {

/// Whether a byte is an ASCII decimal digit.
pub open spec fn is_digit(c: u8) -> bool {
    48 <= c <= 57
}

/// Whether every byte of `s` is an ASCII decimal digit.
pub open spec fn all_digits(s: Seq<u8>) -> bool {
    forall|i: int| 0 <= i < s.len() ==> is_digit(#[trigger] s[i])
}

/// The decimal value of a run of digits.
pub open spec fn digits_value(s: Seq<u8>) -> int
    decreases s.len(),
{
    if s.len() == 0 {
        0
    } else {
        digits_value(s.drop_last()) * 10 + (s.last() - 48)
    }
}

/// A decimal `i32` as Rust's integer parser reads it: an optional `+` or `-`
/// sign, then one or more ASCII digits and nothing else, within the range of
/// `i32`.
pub open spec fn parse_i32_spec(s: Seq<u8>) -> Option<int> {
    if s.len() == 0 {
        None
    } else if s[0] == 43 || s[0] == 45 {
        let d = s.drop_first();
        if d.len() == 0 || !all_digits(d) {
            None
        } else {
            let v = if s[0] == 45 {
                -digits_value(d)
            } else {
                digits_value(d)
            };
            if i32::MIN <= v <= i32::MAX {
                Some(v)
            } else {
                None
            }
        }
    } else if all_digits(s) {
        let v = digits_value(s);
        if v <= i32::MAX {
            Some(v)
        } else {
            None
        }
    } else {
        None
    }
}

/// A value large enough that any run of digits reaching it is out of range.
const DIGITS_CAP: u64 = 0x1_0000_0000;

/// The digits of `s[start..]`, capped at `DIGITS_CAP`, and whether they are
/// all digits.
fn scan_digits(s: &[u8], start: usize) -> (r: (u64, bool))
    requires
        start <= s@.len(),
    ensures
        r.1 == all_digits(s@.subrange(start as int, s@.len() as int)),
        r.1 ==> r.0 as int == (if digits_value(s@.subrange(start as int, s@.len() as int))
            < DIGITS_CAP {
            digits_value(s@.subrange(start as int, s@.len() as int))
        } else {
            DIGITS_CAP as int
        }),
{
    let mut acc: u64 = 0;
    let mut ok = true;
    let mut i = start;
    while i < s.len()
        invariant
            start <= i <= s@.len(),
            ok == all_digits(s@.subrange(start as int, i as int)),
            ok ==> acc as int == (if digits_value(s@.subrange(start as int, i as int)) < DIGITS_CAP {
                digits_value(s@.subrange(start as int, i as int))
            } else {
                DIGITS_CAP as int
            }),
            !ok ==> !all_digits(s@.subrange(start as int, s@.len() as int)),
        decreases s@.len() - i,
    {
        let c = s[i];
        let ghost pre = s@.subrange(start as int, i as int);
        let ghost next = s@.subrange(start as int, i + 1);
        assert(next.drop_last() =~= pre);
        assert(next.last() == c);
        if ok {
            if 48 <= c && c <= 57 {
                let d = (c - 48) as u64;
                let v = acc * 10 + d;
                acc = if v < DIGITS_CAP {
                    v
                } else {
                    DIGITS_CAP
                };
                assert(all_digits(next)) by {
                    assert forall|k: int| 0 <= k < next.len() implies is_digit(#[trigger] next[k]) by {
                        if k < pre.len() {
                            assert(next[k] == pre[k]);
                        }
                    }
                }
                proof {
                    lemma_digits_nonneg(pre);
                }
            } else {
                ok = false;
                assert(!is_digit(s@.subrange(start as int, s@.len() as int)[i - start]));
            }
        } else {
            assert(!all_digits(s@.subrange(start as int, s@.len() as int)));
        }
        i = i + 1;
    }
    assert(s@.subrange(start as int, i as int) =~= s@.subrange(start as int, s@.len() as int));
    (acc, ok)
}

proof fn lemma_digits_nonneg(s: Seq<u8>)
    requires
        all_digits(s),
    ensures
        digits_value(s) >= 0,
    decreases s.len(),
{
    if s.len() > 0 {
        assert(all_digits(s.drop_last())) by {
            assert forall|k: int| 0 <= k < s.drop_last().len() implies is_digit(
                #[trigger] s.drop_last()[k],
            ) by {
                assert(s.drop_last()[k] == s[k]);
            }
        }
        lemma_digits_nonneg(s.drop_last());
        assert(is_digit(s[s.len() - 1]));
    }
}

/// Parse `s[start..]` as a decimal `i32` (see [`parse_i32_spec`]).
pub fn parse_i32(s: &[u8], start: usize) -> (r: Option<i32>)
    requires
        start <= s@.len(),
    ensures
        match r {
            Some(v) => parse_i32_spec(s@.subrange(start as int, s@.len() as int)) == Some(v as int),
            None => parse_i32_spec(s@.subrange(start as int, s@.len() as int)) is None,
        },
{
    let ghost t = s@.subrange(start as int, s@.len() as int);
    if start >= s.len() {
        return None;
    }
    let c = s[start];
    if c == 43 || c == 45 {
        assert(t.drop_first() =~= s@.subrange(start + 1, s@.len() as int));
        if start + 1 >= s.len() {
            return None;
        }
        let (v, ok) = scan_digits(s, start + 1);
        if !ok {
            return None;
        }
        if c == 45 {
            if v <= 0x8000_0000 {
                let n: i64 = -(v as i64);
                Some(n as i32)
            } else {
                None
            }
        } else {
            if v <= 0x7fff_ffff {
                Some(v as i32)
            } else {
                None
            }
        }
    } else {
        let (v, ok) = scan_digits(s, start);
        if !ok {
            return None;
        }
        if v <= 0x7fff_ffff {
            Some(v as i32)
        } else {
            None
        }
    }
}

/// Whether a byte is an accidental: `#`, `S` or `s` sharpen, `b` flattens.
pub open spec fn is_accidental(c: u8) -> bool {
    c == 35 || c == 83 || c == 115 || c == 98
}

/// The leading run of accidentals of `s`: its length and its net shift in
/// semitones.
pub open spec fn accidental_run(s: Seq<u8>) -> (nat, int)
    decreases s.len(),
{
    if s.len() > 0 && is_accidental(s[0]) {
        let (n, d) = accidental_run(s.drop_first());
        (n + 1, d + if s[0] == 98 {
            -1int
        } else {
            1int
        })
    } else {
        (0, 0)
    }
}

/// The semitone of a note letter (either case) within its octave.
pub open spec fn letter_semitone(c: u8) -> Option<int> {
    if c == 67 || c == 99 {
        Some(0)
    } else if c == 68 || c == 100 {
        Some(2)
    } else if c == 69 || c == 101 {
        Some(4)
    } else if c == 70 || c == 102 {
        Some(5)
    } else if c == 71 || c == 103 {
        Some(7)
    } else if c == 65 || c == 97 {
        Some(9)
    } else if c == 66 || c == 98 {
        Some(11)
    } else {
        None
    }
}

/// The MIDI note number a note name spells, if it spells one: a letter, its
/// accidentals, then an `i32` octave number; the number is
/// `12 * (octave + 1) + semitone`.
pub open spec fn note_midi_spec(b: Seq<u8>) -> Option<int> {
    if b.len() == 0 {
        None
    } else {
        match letter_semitone(b[0]) {
            None => None,
            Some(base) => {
                let (n, d) = accidental_run(b.drop_first());
                match parse_i32_spec(b.subrange(1 + n as int, b.len() as int)) {
                    None => None,
                    Some(oct) => Some(12 * (oct + 1) + base + d),
                }
            },
        }
    }
}

proof fn lemma_run_bounds(s: Seq<u8>)
    ensures
        accidental_run(s).0 <= s.len(),
        -(accidental_run(s).0 as int) <= accidental_run(s).1 <= accidental_run(s).0,
    decreases s.len(),
{
    if s.len() > 0 && is_accidental(s[0]) {
        lemma_run_bounds(s.drop_first());
    }
}

/// A note letter's case does not matter: a name starting with a lower-case
/// letter spells the same note, or the same nothing, as the name with that
/// letter in upper case (`b3` and `B3` are both 59).
pub proof fn lemma_letter_case_ignored(b: Seq<u8>)
    requires
        b.len() > 0,
        97 <= b[0] <= 122,
    ensures
        note_midi_spec(b) == note_midi_spec(b.update(0, (b[0] - 32) as u8)),
{
    let u = b.update(0, (b[0] - 32) as u8);
    assert(u.drop_first() =~= b.drop_first());
    lemma_run_bounds(b.drop_first());
    let n = accidental_run(b.drop_first()).0;
    assert(u.subrange(1 + n as int, u.len() as int) =~= b.subrange(1 + n as int, b.len() as int));
    assert(letter_semitone(u[0]) == letter_semitone(b[0]));
}

/// Read a note name as a MIDI note number (`D4` is 62, `Bb3` is 58).
pub fn note_name_to_midi(tok: &[u8]) -> (r: Option<i64>)
    requires
        tok@.len() <= i32::MAX,
    ensures
        match r {
            Some(m) => note_midi_spec(tok@) == Some(m as int),
            None => note_midi_spec(tok@) is None,
        },
{
    if tok.len() == 0 {
        return None;
    }
    let base: i64 = match tok[0] {
        67 | 99 => 0,
        68 | 100 => 2,
        69 | 101 => 4,
        70 | 102 => 5,
        71 | 103 => 7,
        65 | 97 => 9,
        66 | 98 => 11,
        _ => {
            return None;
        },
    };
    let ghost rest = tok@.drop_first();
    let mut semis: i64 = 0;
    let mut i: usize = 1;
    while i < tok.len() && (tok[i] == 35 || tok[i] == 98 || tok[i] == 83 || tok[i] == 115)
        invariant
            1 <= i <= tok@.len(),
            accidental_run(rest) == ((accidental_run(tok@.subrange(i as int, tok@.len() as int)).0
                + (i - 1)) as nat, accidental_run(tok@.subrange(i as int, tok@.len() as int)).1
                + semis),
            -(i as int) <= semis <= i,
            tok@.len() <= i32::MAX,
        decreases tok@.len() - i,
    {
        let ghost cur = tok@.subrange(i as int, tok@.len() as int);
        assert(cur.drop_first() =~= tok@.subrange(i + 1, tok@.len() as int));
        if tok[i] == 98 {
            semis = semis - 1;
        } else {
            semis = semis + 1;
        }
        i = i + 1;
    }
    proof {
        let cur = tok@.subrange(i as int, tok@.len() as int);
        assert(rest =~= tok@.subrange(1, tok@.len() as int));
        if i < tok@.len() {
            assert(cur[0] == tok@[i as int]);
        }
        assert(accidental_run(cur) == (0nat, 0int));
    }
    match parse_i32(tok, i) {
        None => None,
        Some(oct) => Some(12 * (oct as i64 + 1) + base + semis),
    }
}

/// The note token of a recording's file stem: the text after its last `-`
/// (the whole stem when there is none), as in `s8-D4`.
pub open spec fn stem_token_start(stem: Seq<u8>) -> int {
    if exists|i: int| 0 <= i < stem.len() && stem[i] == 45 {
        (choose|i: int|
            0 <= i < stem.len() && stem[i] == 45 && forall|j: int|
                i < j < stem.len() ==> stem[j] != 45) + 1
    } else {
        0
    }
}

/// The MIDI note a recording's file stem names (see [`stem_token_start`]).
pub fn note_from_stem(stem: &[u8]) -> (r: Option<i64>)
    requires
        stem@.len() <= i32::MAX,
    ensures
        match r {
            Some(m) => note_midi_spec(stem@.subrange(stem_token_start(stem@), stem@.len() as int))
                == Some(m as int),
            None => note_midi_spec(
                stem@.subrange(stem_token_start(stem@), stem@.len() as int),
            ) is None,
        },
{
    let mut k = stem.len();
    while k > 0 && stem[k - 1] != 45
        invariant
            k <= stem@.len(),
            forall|j: int| k <= j < stem@.len() ==> stem@[j] != 45,
        decreases k,
    {
        k = k - 1;
    }
    proof {
        if k > 0 {
            let i = k - 1;
            assert(stem@[i as int] == 45);
            assert(exists|i: int| 0 <= i < stem@.len() && stem@[i] == 45);
            let c = choose|c: int|
                0 <= c < stem@.len() && stem@[c] == 45 && forall|j: int|
                    c < j < stem@.len() ==> stem@[j] != 45;
            assert(c == i);
        } else {
            assert(!exists|i: int| 0 <= i < stem@.len() && stem@[i] == 45);
        }
    }
    let mut tok: Vec<u8> = Vec::new();
    let mut j = k;
    while j < stem.len()
        invariant
            k <= j <= stem@.len(),
            tok@ == stem@.subrange(k as int, j as int),
        decreases stem@.len() - j,
    {
        tok.push(stem[j]);
        j = j + 1;
    }
    note_name_to_midi(tok.as_slice())
}

} // verus!
