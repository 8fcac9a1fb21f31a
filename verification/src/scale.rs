//! The named handpan tunings as MIDI note numbers (ding first), and the
//! lookup that maps an incoming MIDI note onto the nearest tone field.

use vstd::prelude::*;

use crate::notename::{letter_semitone, note_midi_spec};

verus! {

/// A named handpan tuning. Layouts are ding-first.
#[derive(Clone, Copy, Debug, PartialEq, Eq, Structural)]
pub enum Scale {
    /// D Kurd 9: D3 ding with A3 Bb3 C4 D4 E4 F4 G4 A4.
    DKurd9,
    /// D Celtic Minor 9: D3 ding with A3 C4 D4 E4 F4 G4 A4 C5.
    DCelticMinor9,
    /// C# Kurd 9: C#3 ding with G#3 A3 B3 C#4 D#4 E4 F#4 G#4.
    CshKurd9,
    /// D Hijaz 9: D3 ding with A3 Bb3 C4 D4 Eb4 F#4 G4 A4.
    DHijaz9,
    /// D Minor Pentatonic 9: D3 ding with A3 C4 D4 F4 G4 A4 C5 D5.
    DMinorPentatonic9,
    /// D Major 9: D3 ding with A3 D4 E4 F#4 G4 A4 B4 C#5.
    DMajor9,
    /// D Hijaz Kar 9: D3 ding with A3 Bb3 C#4 D4 Eb4 F#4 G4 A4.
    DHijazKar9,
    /// D Insen 9: D3 ding with A3 C4 D4 Eb4 G4 A4 C5 D5.
    DInsen9,
}

/// MIDI note numbers of a tuning, ding first.
pub open spec fn scale_midi(s: Scale) -> Seq<u8> {
    match s {
        Scale::DKurd9 => seq![50u8, 57, 58, 60, 62, 64, 65, 67, 69],
        Scale::DCelticMinor9 => seq![50u8, 57, 60, 62, 64, 65, 67, 69, 72],
        Scale::CshKurd9 => seq![49u8, 56, 57, 59, 61, 63, 64, 66, 68],
        Scale::DHijaz9 => seq![50u8, 57, 58, 60, 62, 63, 66, 67, 69],
        Scale::DMinorPentatonic9 => seq![50u8, 57, 60, 62, 65, 67, 69, 72, 74],
        Scale::DMajor9 => seq![50u8, 57, 62, 64, 66, 67, 69, 71, 73],
        Scale::DHijazKar9 => seq![50u8, 57, 58, 61, 62, 63, 66, 67, 69],
        Scale::DInsen9 => seq![50u8, 57, 60, 62, 63, 67, 69, 72, 74],
    }
}

/// A tuning's human-readable name.
pub open spec fn scale_name(s: Scale) -> Seq<char> {
    match s {
        Scale::DKurd9 => "D Kurd 9"@,
        Scale::DCelticMinor9 => "D Celtic Minor 9"@,
        Scale::CshKurd9 => "C# Kurd 9"@,
        Scale::DHijaz9 => "D Hijaz 9"@,
        Scale::DMinorPentatonic9 => "D Minor Pentatonic 9"@,
        Scale::DMajor9 => "D Major 9"@,
        Scale::DHijazKar9 => "D Hijaz Kar 9"@,
        Scale::DInsen9 => "D Insen 9"@,
    }
}

/// All named tunings in menu order.
pub open spec fn named_scales() -> Seq<Scale> {
    seq![
        Scale::DKurd9,
        Scale::DCelticMinor9,
        Scale::CshKurd9,
        Scale::DHijaz9,
        Scale::DMinorPentatonic9,
        Scale::DMajor9,
        Scale::DHijazKar9,
        Scale::DInsen9,
    ]
}

fn nine(a: u8, b: u8, c: u8, d: u8, e: u8, f: u8, g: u8, h: u8, i: u8) -> (v: Vec<u8>)
    ensures
        v@ == seq![a, b, c, d, e, f, g, h, i],
{
    let mut v: Vec<u8> = Vec::new();
    v.push(a);
    v.push(b);
    v.push(c);
    v.push(d);
    v.push(e);
    v.push(f);
    v.push(g);
    v.push(h);
    v.push(i);
    assert(v@ =~= seq![a, b, c, d, e, f, g, h, i]);
    v
}

impl Scale {
    /// MIDI note numbers for this tuning, ding first.
    pub fn midi(&self) -> (v: Vec<u8>)
        ensures
            v@ == scale_midi(*self),
    {
        match self {
            Scale::DKurd9 => nine(50, 57, 58, 60, 62, 64, 65, 67, 69),
            Scale::DCelticMinor9 => nine(50, 57, 60, 62, 64, 65, 67, 69, 72),
            Scale::CshKurd9 => nine(49, 56, 57, 59, 61, 63, 64, 66, 68),
            Scale::DHijaz9 => nine(50, 57, 58, 60, 62, 63, 66, 67, 69),
            Scale::DMinorPentatonic9 => nine(50, 57, 60, 62, 65, 67, 69, 72, 74),
            Scale::DMajor9 => nine(50, 57, 62, 64, 66, 67, 69, 71, 73),
            Scale::DHijazKar9 => nine(50, 57, 58, 61, 62, 63, 66, 67, 69),
            Scale::DInsen9 => nine(50, 57, 60, 62, 63, 67, 69, 72, 74),
        }
    }

    /// All named tunings, for enumerating in a UI.
    pub fn all_named() -> (r: [Scale; 8])
        ensures
            r@ == named_scales(),
    {
        let r = [
            Scale::DKurd9,
            Scale::DCelticMinor9,
            Scale::CshKurd9,
            Scale::DHijaz9,
            Scale::DMinorPentatonic9,
            Scale::DMajor9,
            Scale::DHijazKar9,
            Scale::DInsen9,
        ];
        assert(r@ =~= named_scales());
        r
    }

    /// Human-readable name.
    pub fn name(&self) -> (r: &'static str)
        ensures
            r@ == scale_name(*self),
    {
        match self {
            Scale::DKurd9 => "D Kurd 9",
            Scale::DCelticMinor9 => "D Celtic Minor 9",
            Scale::CshKurd9 => "C# Kurd 9",
            Scale::DHijaz9 => "D Hijaz 9",
            Scale::DMinorPentatonic9 => "D Minor Pentatonic 9",
            Scale::DMajor9 => "D Major 9",
            Scale::DHijazKar9 => "D Hijaz Kar 9",
            Scale::DInsen9 => "D Insen 9",
        }
    }
}

/// Every named layout is ding-first and ascends: each note is higher than
/// the one before it, so the ding is the lowest note.
pub proof fn lemma_named_scales_ascend(s: Scale, i: int, j: int)
    requires
        0 <= i < j < scale_midi(s).len(),
    ensures
        scale_midi(s)[i] < scale_midi(s)[j],
        scale_midi(s).len() == 9,
{
}

proof fn lemma_parse_digit(d: u8)
    requires
        48 <= d <= 57,
    ensures
        crate::notename::parse_i32_spec(seq![d]) == Some(d - 48),
        crate::notename::accidental_run(seq![d]) == (0nat, 0int),
{
    let t = seq![d];
    assert(t[0] == d);
    assert(t.drop_last() =~= Seq::<u8>::empty());
    assert(t.last() == d);
    assert(crate::notename::digits_value(Seq::<u8>::empty()) == 0);
    assert(crate::notename::digits_value(t) == d - 48);
    assert(crate::notename::all_digits(t));
}

proof fn lemma_spell_natural(l: u8, d: u8)
    requires
        letter_semitone(l) is Some,
        48 <= d <= 57,
    ensures
        note_midi_spec(seq![l, d]) == Some(12 * ((d - 48) + 1) + letter_semitone(l)->0),
{
    let b = seq![l, d];
    let t = seq![d];
    lemma_parse_digit(d);
    assert(b[0] == l);
    assert(b.drop_first() =~= t);
    assert(b.subrange(1, 2) =~= t);
}

proof fn lemma_spell_altered(l: u8, a: u8, d: u8)
    requires
        letter_semitone(l) is Some,
        a == 98 || a == 35,
        48 <= d <= 57,
    ensures
        note_midi_spec(seq![l, a, d]) == Some(12 * ((d - 48) + 1) + letter_semitone(l)->0 + (if a
            == 98 {
            -1int
        } else {
            1int
        })),
{
    let b = seq![l, a, d];
    let r = seq![a, d];
    let t = seq![d];
    lemma_parse_digit(d);
    assert(b[0] == l);
    assert(b.drop_first() =~= r);
    assert(r[0] == a);
    assert(r.drop_first() =~= t);
    assert(crate::notename::accidental_run(r) == (1nat, if a == 98 {
        -1int
    } else {
        1int
    }));
    assert(b.subrange(2, 3) =~= t);
}

/// The notes of each named tuning, spelled as its documentation names them
/// (`D Hijaz 9: D3 ding with A3 Bb3 C4 D4 Eb4 F#4 G4 A4`).
pub open spec fn layout_names(s: Scale) -> Seq<Seq<u8>> {
    let n = |l: u8, o: u8| seq![l, o];
    let f = |l: u8, o: u8| seq![l, 98u8, o];
    let sh = |l: u8, o: u8| seq![l, 35u8, o];
    let (a, b, c, d, e, ff, g) = (65u8, 66u8, 67u8, 68u8, 69u8, 70u8, 71u8);
    let (o3, o4, o5) = (51u8, 52u8, 53u8);
    match s {
        Scale::DKurd9 => seq![n(d, o3), n(a, o3), f(b, o3), n(c, o4), n(d, o4), n(e, o4), n(ff, o4), n(g, o4), n(a, o4)],
        Scale::DCelticMinor9 => seq![n(d, o3), n(a, o3), n(c, o4), n(d, o4), n(e, o4), n(ff, o4), n(g, o4), n(a, o4), n(c, o5)],
        Scale::CshKurd9 => seq![sh(c, o3), sh(g, o3), n(a, o3), n(b, o3), sh(c, o4), sh(d, o4), n(e, o4), sh(ff, o4), sh(g, o4)],
        Scale::DHijaz9 => seq![n(d, o3), n(a, o3), f(b, o3), n(c, o4), n(d, o4), f(e, o4), sh(ff, o4), n(g, o4), n(a, o4)],
        Scale::DMinorPentatonic9 => seq![n(d, o3), n(a, o3), n(c, o4), n(d, o4), n(ff, o4), n(g, o4), n(a, o4), n(c, o5), n(d, o5)],
        Scale::DMajor9 => seq![n(d, o3), n(a, o3), n(d, o4), n(e, o4), sh(ff, o4), n(g, o4), n(a, o4), n(b, o4), sh(c, o5)],
        Scale::DHijazKar9 => seq![n(d, o3), n(a, o3), f(b, o3), sh(c, o4), n(d, o4), f(e, o4), sh(ff, o4), n(g, o4), n(a, o4)],
        Scale::DInsen9 => seq![n(d, o3), n(a, o3), n(c, o4), n(d, o4), f(e, o4), n(g, o4), n(a, o4), n(c, o5), n(d, o5)],
    }
}

/// A note name of a letter, at most one accidental (`b` or `#`) and an
/// octave digit spells its letter's semitone, shifted by the accidental, in
/// that octave.
proof fn lemma_spell(b: Seq<u8>)
    requires
        2 <= b.len() <= 3,
        letter_semitone(b[0]) is Some,
        48 <= b.last() <= 57,
        b.len() == 3 ==> (b[1] == 98 || b[1] == 35),
    ensures
        note_midi_spec(b) == Some(12 * ((b.last() - 48) + 1) + letter_semitone(b[0])->0 + (if b.len()
            == 2 {
            0int
        } else if b[1] == 98 {
            -1int
        } else {
            1int
        })),
{
    if b.len() == 2 {
        assert(b =~= seq![b[0], b[1]]);
        lemma_spell_natural(b[0], b[1]);
    } else {
        assert(b =~= seq![b[0], b[1], b[2]]);
        lemma_spell_altered(b[0], b[1], b[2]);
    }
}

/// Every named tuning is the layout its documentation spells, note for note:
/// the note-name reader turns the tuning's `i`-th documented name (`D3`,
/// `A3`, `Bb3`, ..., see [`layout_names`]) into its `i`-th MIDI number.
pub proof fn lemma_named_scales_match_their_spelling(s: Scale, i: int)
    requires
        0 <= i < 9,
    ensures
        scale_midi(s).len() == 9,
        layout_names(s).len() == 9,
        note_midi_spec(layout_names(s)[i]) == Some(scale_midi(s)[i] as int),
{
    lemma_spell(layout_names(s)[i]);
}

/// The eight named tunings are eight different layouts.
pub proof fn lemma_named_scales_distinct(s: Scale, t: Scale)
    requires
        s != t,
    ensures
        scale_midi(s) != scale_midi(t),
{
    if scale_midi(s) == scale_midi(t) {
        assert(scale_midi(s)[1] == scale_midi(t)[1]);
        assert(scale_midi(s)[2] == scale_midi(t)[2]);
        assert(scale_midi(s)[3] == scale_midi(t)[3]);
        assert(scale_midi(s)[4] == scale_midi(t)[4]);
        assert(scale_midi(s)[5] == scale_midi(t)[5]);
        assert(scale_midi(s)[6] == scale_midi(t)[6]);
        assert(scale_midi(s)[0] == scale_midi(t)[0]);
        assert(scale_midi(s)[8] == scale_midi(t)[8]);
    }
}

/// The named tunings a host menu offers.
#[derive(Clone, Copy, Debug, PartialEq, Eq, Structural)]
pub enum ScaleChoice {
    DKurd9,
    DCelticMinor9,
}

impl ScaleChoice {
    /// The tuning a menu entry selects.
    pub fn to_scale(self) -> (s: Scale)
        ensures
            s == (match self {
                ScaleChoice::DKurd9 => Scale::DKurd9,
                ScaleChoice::DCelticMinor9 => Scale::DCelticMinor9,
            }),
    {
        match self {
            ScaleChoice::DKurd9 => Scale::DKurd9,
            ScaleChoice::DCelticMinor9 => Scale::DCelticMinor9,
        }
    }
}

/// Distance between two MIDI note numbers.
pub open spec fn note_distance(a: u8, b: u8) -> int {
    if a >= b {
        a - b
    } else {
        b - a
    }
}

/// `i` is the first field whose note is nearest to `note`.
pub open spec fn is_nearest_field(notes: Seq<u8>, note: u8, i: int) -> bool {
    &&& 0 <= i < notes.len()
    &&& forall|j: int|
        0 <= j < notes.len() ==> note_distance(notes[i], note) <= note_distance(
            #[trigger] notes[j],
            note,
        )
    &&& forall|j: int|
        0 <= j < i ==> note_distance(notes[i], note) < note_distance(#[trigger] notes[j], note)
}

/// Index of the tone field nearest a MIDI note number: the first of the
/// nearest when several tie, `None` when there are no fields.
pub fn nearest_field(notes: &[u8], note: u8) -> (r: Option<usize>)
    ensures
        r is None <==> notes@.len() == 0,
        r matches Some(i) ==> is_nearest_field(notes@, note, i as int),
{
    if notes.len() == 0 {
        return None;
    }
    let mut best: usize = 0;
    let mut best_d: u8 = if notes[0] >= note {
        notes[0] - note
    } else {
        note - notes[0]
    };
    let mut i: usize = 1;
    while i < notes.len()
        invariant
            1 <= i <= notes@.len(),
            best < i,
            best_d == note_distance(notes@[best as int], note),
            forall|j: int| 0 <= j < i ==> best_d <= note_distance(#[trigger] notes@[j], note),
            forall|j: int| 0 <= j < best ==> best_d < note_distance(#[trigger] notes@[j], note),
        decreases notes@.len() - i,
    {
        let m = notes[i];
        let d: u8 = if m >= note {
            m - note
        } else {
            note - m
        };
        if d < best_d {
            best_d = d;
            best = i;
        }
        i = i + 1;
    }
    Some(best)
}

} // verus!
