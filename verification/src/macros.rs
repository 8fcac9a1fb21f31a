//! The universal macros every Puget instrument family maps onto its own
//! parameters, and the presence set of an expander bus: which macros a bus is
//! actually driving.

use vstd::prelude::*;

verus! {

/// The seven universal macros. Each family maps every macro onto its own
/// concrete setter(s); a macro that does not apply to an instrument is a
/// no-op there.
#[derive(Clone, Copy, PartialEq, Eq, Debug, Hash, Structural)]
pub enum MacroId {
    /// Spectral colour, dark to bright / metallic.
    Timbre,
    /// Playing intensity: drive for sustained voices, ring-openness for struck ones.
    Dynamics,
    /// Modulation liveliness: vibrato, tremolo, sway.
    Motion,
    /// Contact / attack character.
    Articulation,
    /// Ensemble size: soloist to full section.
    Chairs,
    /// Detune spread across the section.
    Spread,
    /// Stereo image, mono to full field.
    Width,
}

/// Number of universal macros: the fixed width of a macro bus.
pub const MACRO_COUNT: usize = 7;

/// The dense slot of a macro, in id order.
pub open spec fn macro_index(id: MacroId) -> int {
    match id {
        MacroId::Timbre => 0,
        MacroId::Dynamics => 1,
        MacroId::Motion => 2,
        MacroId::Articulation => 3,
        MacroId::Chairs => 4,
        MacroId::Spread => 5,
        MacroId::Width => 6,
    }
}

/// The macro in slot `i`, if there is one.
pub open spec fn macro_at(i: int) -> Option<MacroId> {
    if i == 0 {
        Some(MacroId::Timbre)
    } else if i == 1 {
        Some(MacroId::Dynamics)
    } else if i == 2 {
        Some(MacroId::Motion)
    } else if i == 3 {
        Some(MacroId::Articulation)
    } else if i == 4 {
        Some(MacroId::Chairs)
    } else if i == 5 {
        Some(MacroId::Spread)
    } else if i == 6 {
        Some(MacroId::Width)
    } else {
        None
    }
}

/// Every macro, in slot order.
pub open spec fn all_macros() -> Seq<MacroId> {
    seq![
        MacroId::Timbre,
        MacroId::Dynamics,
        MacroId::Motion,
        MacroId::Articulation,
        MacroId::Chairs,
        MacroId::Spread,
        MacroId::Width,
    ]
}

/// A macro's short panel label.
pub open spec fn macro_name(id: MacroId) -> Seq<char> {
    match id {
        MacroId::Timbre => "Timbre"@,
        MacroId::Dynamics => "Dynamics"@,
        MacroId::Motion => "Motion"@,
        MacroId::Articulation => "Articulation"@,
        MacroId::Chairs => "Chairs"@,
        MacroId::Spread => "Spread"@,
        MacroId::Width => "Width"@,
    }
}

impl MacroId {
    /// Every macro, in slot order: the canonical iteration order for a bus.
    pub fn all() -> (r: [MacroId; MACRO_COUNT])
        ensures
            r@ == all_macros(),
    {
        let r = [
            MacroId::Timbre,
            MacroId::Dynamics,
            MacroId::Motion,
            MacroId::Articulation,
            MacroId::Chairs,
            MacroId::Spread,
            MacroId::Width,
        ];
        assert(r@ =~= all_macros());
        r
    }

    /// Dense index in `0..MACRO_COUNT` (the bus / engine slot).
    pub fn index(self) -> (r: usize)
        ensures
            r == macro_index(self),
            r < MACRO_COUNT,
    {
        match self {
            MacroId::Timbre => 0,
            MacroId::Dynamics => 1,
            MacroId::Motion => 2,
            MacroId::Articulation => 3,
            MacroId::Chairs => 4,
            MacroId::Spread => 5,
            MacroId::Width => 6,
        }
    }

    /// Recover a macro from its dense index (`None` if out of range).
    pub fn from_index(i: usize) -> (r: Option<MacroId>)
        ensures
            r == macro_at(i as int),
            r is Some <==> i < MACRO_COUNT,
    {
        match i {
            0 => Some(MacroId::Timbre),
            1 => Some(MacroId::Dynamics),
            2 => Some(MacroId::Motion),
            3 => Some(MacroId::Articulation),
            4 => Some(MacroId::Chairs),
            5 => Some(MacroId::Spread),
            6 => Some(MacroId::Width),
            _ => None,
        }
    }

    /// Short human / panel label.
    pub fn name(self) -> (r: &'static str)
        ensures
            r@ == macro_name(self),
    {
        match self {
            MacroId::Timbre => "Timbre",
            MacroId::Dynamics => "Dynamics",
            MacroId::Motion => "Motion",
            MacroId::Articulation => "Articulation",
            MacroId::Chairs => "Chairs",
            MacroId::Spread => "Spread",
            MacroId::Width => "Width",
        }
    }
}

/// A macro's slot gives it back: `from_index(index(id)) == Some(id)`.
pub proof fn lemma_index_round_trip(id: MacroId)
    ensures
        macro_at(macro_index(id)) == Some(id),
        0 <= macro_index(id) < MACRO_COUNT,
        all_macros()[macro_index(id)] == id,
{
}

/// Every slot below `MACRO_COUNT` holds the macro listed there in `all`, and
/// that macro's index is the slot; no other slot holds a macro.
pub proof fn lemma_slot_round_trip(i: int)
    ensures
        (0 <= i < MACRO_COUNT) ==> macro_at(i) == Some(all_macros()[i]) && macro_index(
            all_macros()[i],
        ) == i,
        !(0 <= i < MACRO_COUNT) ==> macro_at(i) is None,
{
}

/// Whether bit `k` of `bits` is set.
pub open spec fn bit_set(bits: u8, k: int) -> bool {
    bits & (1u8 << (k as u8)) != 0
}

/// Which macros an expander bus is driving: one bit per macro slot.
#[derive(Clone, Copy, Debug)]
pub struct MacroPresence {
    bits: u8,
}

impl View for MacroPresence {
    type V = Set<MacroId>;

    closed spec fn view(&self) -> Set<MacroId> {
        Set::new(|id: MacroId| bit_set(self.bits, macro_index(id)))
    }
}

proof fn lemma_or_bit(b: u8, k: u8, j: u8)
    requires
        k < 8,
        j < 8,
    ensures
        ((b | (1u8 << k)) & (1u8 << j) != 0) == ((b & (1u8 << j) != 0) || j == k),
{
    assert(k < 8 && j < 8 ==> (((b | (1u8 << k)) & (1u8 << j) != 0) == ((b & (1u8 << j) != 0)
        || j == k))) by (bit_vector);
}

proof fn lemma_clear_bit(b: u8, k: u8, j: u8)
    requires
        k < 8,
        j < 8,
    ensures
        ((b & !(1u8 << k)) & (1u8 << j) != 0) == ((b & (1u8 << j) != 0) && j != k),
{
    assert(k < 8 && j < 8 ==> (((b & !(1u8 << k)) & (1u8 << j) != 0) == ((b & (1u8 << j) != 0)
        && j != k))) by (bit_vector);
}

proof fn lemma_low_bits(j: u8)
    requires
        j < 7,
    ensures
        (0u8 & (1u8 << j)) == 0,
        (127u8 & (1u8 << j)) != 0,
{
    assert(j < 7 ==> (0u8 & (1u8 << j)) == 0 && (127u8 & (1u8 << j)) != 0) by (bit_vector);
}

impl MacroPresence {
    /// Nothing driven.
    pub fn new() -> (p: MacroPresence)
        ensures
            p@ == Set::<MacroId>::empty(),
    {
        let p = MacroPresence { bits: 0 };
        assert forall|id: MacroId| !p@.contains(id) by {
            lemma_low_bits(macro_index(id) as u8);
        }
        assert(p@ =~= Set::<MacroId>::empty());
        p
    }

    /// Mark a macro as driven.
    pub fn set(&mut self, id: MacroId)
        ensures
            final(self)@ == old(self)@.insert(id),
    {
        let k = id.index() as u8;
        let old_bits = self.bits;
        self.bits = self.bits | (1u8 << k);
        assert forall|m: MacroId| #[trigger] final(self)@.contains(m) == old(self)@.insert(id).contains(m) by {
            lemma_or_bit(old_bits, k, macro_index(m) as u8);
        }
        assert(final(self)@ =~= old(self)@.insert(id));
    }

    /// Stop driving a macro.
    pub fn clear(&mut self, id: MacroId)
        ensures
            final(self)@ == old(self)@.remove(id),
    {
        let k = id.index() as u8;
        let old_bits = self.bits;
        self.bits = self.bits & !(1u8 << k);
        assert forall|m: MacroId| #[trigger] final(self)@.contains(m) == old(self)@.remove(id).contains(m) by {
            lemma_clear_bit(old_bits, k, macro_index(m) as u8);
        }
        assert(final(self)@ =~= old(self)@.remove(id));
    }

    /// Whether a macro is being driven.
    pub fn is_present(&self, id: MacroId) -> (r: bool)
        ensures
            r == self@.contains(id),
    {
        let k = id.index() as u8;
        self.bits & (1u8 << k) != 0
    }

    /// Stop driving every macro.
    pub fn clear_all(&mut self)
        ensures
            final(self)@ == Set::<MacroId>::empty(),
    {
        self.bits = 0;
        assert forall|m: MacroId| !final(self)@.contains(m) by {
            lemma_low_bits(macro_index(m) as u8);
        }
        assert(final(self)@ =~= Set::<MacroId>::empty());
    }

    /// Drive every macro.
    pub fn set_all_present(&mut self)
        ensures
            final(self)@ == Set::<MacroId>::full(),
    {
        self.bits = 127;
        assert forall|m: MacroId| final(self)@.contains(m) by {
            lemma_low_bits(macro_index(m) as u8);
        }
        assert(final(self)@ =~= Set::<MacroId>::full());
    }
}

/// The macros among the first `k` slots that are driven and supported, in
/// slot order.
pub open spec fn applied_prefix(present: Set<MacroId>, supported: Set<MacroId>, k: nat) -> Seq<
    MacroId,
>
    decreases k,
{
    if k == 0 {
        Seq::empty()
    } else {
        let m = all_macros()[k - 1];
        applied_prefix(present, supported, (k - 1) as nat) + if present.contains(m)
            && supported.contains(m) {
            seq![m]
        } else {
            Seq::empty()
        }
    }
}

/// The macros a bus routes to an instrument: every macro that is both present
/// on the bus and supported by the instrument, in slot order.
pub fn apply_order(present: &MacroPresence, supported: &MacroPresence) -> (r: Vec<MacroId>)
    ensures
        r@ == applied_prefix(present@, supported@, MACRO_COUNT as nat),
{
    let all = MacroId::all();
    let mut out: Vec<MacroId> = Vec::new();
    let mut i: usize = 0;
    while i < MACRO_COUNT
        invariant
            i <= MACRO_COUNT,
            all@ == all_macros(),
            out@ == applied_prefix(present@, supported@, i as nat),
        decreases MACRO_COUNT - i,
    {
        let m = all[i];
        if present.is_present(m) && supported.is_present(m) {
            out.push(m);
        }
        i = i + 1;
    }
    out
}

/// Exactly the driven, supported macros are routed, each once, in slot order.
pub proof fn lemma_apply_order_selects(present: Set<MacroId>, supported: Set<MacroId>, m: MacroId)
    ensures
        applied_prefix(present, supported, MACRO_COUNT as nat).contains(m) <==> present.contains(
            m,
        ) && supported.contains(m),
{
    lemma_prefix_members(present, supported, MACRO_COUNT as nat, m);
}

proof fn lemma_prefix_members(present: Set<MacroId>, supported: Set<MacroId>, k: nat, m: MacroId)
    requires
        k <= MACRO_COUNT,
    ensures
        applied_prefix(present, supported, k).contains(m) <==> (macro_index(m) < k
            && present.contains(m) && supported.contains(m)),
    decreases k,
{
    if k > 0 {
        lemma_prefix_members(present, supported, (k - 1) as nat, m);
        let prev = applied_prefix(present, supported, (k - 1) as nat);
        let x = all_macros()[k - 1];
        if present.contains(x) && supported.contains(x) {
            assert(applied_prefix(present, supported, k) == prev.push(x));
            if applied_prefix(present, supported, k).contains(m) && !prev.contains(m) {
                let j = choose|j: int|
                    0 <= j < prev.push(x).len() && prev.push(x)[j] == m;
                if j < prev.len() {
                    assert(prev.contains(m));
                }
            }
            if prev.contains(m) {
                let j = choose|j: int| 0 <= j < prev.len() && prev[j] == m;
                assert(prev.push(x)[j] == m);
            }
            if m == x {
                assert(prev.push(x)[prev.len() as int] == m);
            }
        } else {
            assert(applied_prefix(present, supported, k) =~= prev);
        }
    }
}

} // verus!
