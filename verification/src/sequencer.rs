//! Generative sequencer: it walks a scale on a clock and emits note events.
//! Target-neutral and voice-free, so it can drive a built-in voice or a
//! standalone gate + pitch-CV brain module.
//!
//! Randomness comes from the crate's xorshift32 [`Rng`]. Every draw a clock
//! makes is a 32-bit value `x`; decisions that compare a unit variate against
//! a probability compare `x` against the same probability scaled to
//! `u32::MAX`, and a strike hands its velocity draw back as a raw `roll` for
//! the caller to shape into a level.

use vstd::prelude::*;

use crate::euclid::{euclid_hit, euclid_hit_spec, euclid_onsets, lemma_euclid_onset_count_rotated};
use crate::rng::{xorshift32, Rng};

verus! {

/// How the sequencer chooses the next field on each clock.
#[derive(Clone, Copy, Debug, PartialEq, Eq, Structural)]
pub enum PlayMode {
    /// No auto-play; the host strikes fields directly.
    Manual,
    Up,
    Down,
    UpDown,
    /// Uniformly random field each clock.
    Random,
    /// Random walk: small steps around the scale, the ambient wander.
    Wander,
    /// Euclidean rhythm; pitch ascends the scale on each hit.
    Euclid,
}

/// What a clock produced.
#[derive(Clone, Copy, Debug, PartialEq, Eq, Structural)]
pub enum Step {
    /// No note this clock (a rest, or `Manual`).
    Rest,
    /// Strike this field index. `roll` is the clock's velocity draw, a raw
    /// 32-bit value the caller maps to a humanized level.
    Strike { field: usize, roll: u32 },
}

/// A draw below this (0.12 of the 32-bit range) makes the wander leap.
pub const WANDER_LEAP_BELOW: u32 = 515_396_075;

/// A draw below this (0.56 of the 32-bit range), and not a leap, steps the
/// wander up; any higher draw steps it down.
pub const WANDER_UP_BELOW: u32 = 2_405_181_685;

/// The sequencer's state as plain values.
pub struct SeqState {
    pub fields: int,
    pub mode: PlayMode,
    pub pos: int,
    pub dir: int,
    pub rng: u32,
    pub e_len: int,
    pub e_fill: int,
    pub e_rot: int,
    pub e_step: int,
    pub rest_threshold: int,
}

/// The bounds every sequencer state keeps.
pub open spec fn seq_wf(s: SeqState) -> bool {
    &&& 1 <= s.fields < i32::MAX
    &&& 0 <= s.pos < s.fields
    &&& (s.dir == 1 || s.dir == -1)
    &&& 1 <= s.e_len <= 255
    &&& 0 <= s.e_fill <= s.e_len
    &&& 0 <= s.e_rot <= 255
    &&& 0 <= s.e_step < 255
    &&& 0 <= s.rest_threshold <= u32::MAX
}

pub open spec fn clamp_int(x: int, lo: int, hi: int) -> int {
    if x < lo {
        lo
    } else if x > hi {
        hi
    } else {
        x
    }
}

/// The wander's step for a first draw `r` and a possible second draw `y`
/// (read only on a leap): a leap of -2..=2, else up one or down one.
pub open spec fn wander_step(r: u32, y: u32) -> int {
    if r < WANDER_LEAP_BELOW {
        (y % 5) as int - 2
    } else if r < WANDER_UP_BELOW {
        1
    } else {
        -1
    }
}

/// One move of the play position over `n` fields: the new position,
/// direction and generator state.
pub open spec fn advance_spec(mode: PlayMode, n: int, pos: int, dir: int, rng: u32) -> (
    int,
    int,
    u32,
) {
    match mode {
        PlayMode::Manual => (pos, dir, rng),
        PlayMode::Up | PlayMode::Euclid => ((pos + 1) % n, dir, rng),
        PlayMode::Down => ((pos + n - 1) % n, dir, rng),
        PlayMode::UpDown => {
            if n > 1 {
                let p = pos + dir;
                if p >= n {
                    (clamp_int(n - 2, 0, n - 1), -1, rng)
                } else if p < 0 {
                    (clamp_int(1, 0, n - 1), 1, rng)
                } else {
                    (clamp_int(p, 0, n - 1), dir, rng)
                }
            } else {
                (pos, dir, rng)
            }
        },
        PlayMode::Random => {
            let x = xorshift32(rng);
            ((x as int) % n, dir, x)
        },
        PlayMode::Wander => {
            let r = xorshift32(rng);
            if r < WANDER_LEAP_BELOW {
                let y = xorshift32(r);
                (clamp_int(pos + wander_step(r, y), 0, n - 1), dir, y)
            } else {
                (clamp_int(pos + wander_step(r, 0), 0, n - 1), dir, r)
            }
        },
    }
}

/// The state after one move of the play position.
pub open spec fn advance_state(s: SeqState) -> SeqState {
    let (pos, dir, rng) = advance_spec(s.mode, s.fields, s.pos, s.dir, s.rng);
    SeqState { pos, dir, rng, ..s }
}

/// One clock: the next state and the step it produced.
///
/// `Manual` never plays. In `Euclid` mode the rhythm pattern gates the clock
/// (a rest on a non-onset step, without touching the generator). Otherwise,
/// when a rest threshold is set, one draw decides a rest (the position still
/// moves); then the position moves and a final draw is the velocity roll.
pub open spec fn clock_spec(s: SeqState) -> (SeqState, Step) {
    if s.mode == PlayMode::Manual || s.fields == 0 {
        (s, Step::Rest)
    } else {
        let hit = euclid_hit_spec(s.e_step, s.e_len, s.e_fill, s.e_rot);
        let s1 = if s.mode == PlayMode::Euclid {
            SeqState { e_step: (s.e_step + 1) % s.e_len, ..s }
        } else {
            s
        };
        if s.mode == PlayMode::Euclid && !hit {
            (s1, Step::Rest)
        } else if s.rest_threshold > 0 && xorshift32(s1.rng) < s.rest_threshold {
            (advance_state(SeqState { rng: xorshift32(s1.rng), ..s1 }), Step::Rest)
        } else {
            let s2 = if s.rest_threshold > 0 {
                SeqState { rng: xorshift32(s1.rng), ..s1 }
            } else {
                s1
            };
            let s3 = advance_state(s2);
            let v = xorshift32(s3.rng);
            (SeqState { rng: v, ..s3 }, Step::Strike { field: s3.pos as usize, roll: v })
        }
    }
}

/// The state after `k` clocks.
pub open spec fn clock_iter(s: SeqState, k: nat) -> SeqState
    decreases k,
{
    if k == 0 {
        s
    } else {
        clock_spec(clock_iter(s, (k - 1) as nat)).0
    }
}

/// How many of `k` successive clocks strike a field.
pub open spec fn strikes_in(s: SeqState, k: nat) -> nat
    decreases k,
{
    if k == 0 {
        0
    } else {
        strikes_in(s, (k - 1) as nat) + if clock_spec(clock_iter(s, (k - 1) as nat)).1 is Strike {
            1nat
        } else {
            0nat
        }
    }
}

/// Every clock keeps the sequencer's bounds: in particular the position
/// always names one of the fields, whatever the mode and the draws.
pub proof fn lemma_clock_keeps_bounds(s: SeqState)
    requires
        seq_wf(s),
    ensures
        seq_wf(clock_spec(s).0),
        clock_spec(s).1 matches Step::Strike { field, .. } ==> field < s.fields,
{
    lemma_advance_in_range(s.mode, s.fields, s.pos, s.dir, s.rng);
    let hit = euclid_hit_spec(s.e_step, s.e_len, s.e_fill, s.e_rot);
    let s1 = if s.mode == PlayMode::Euclid {
        SeqState { e_step: (s.e_step + 1) % s.e_len, ..s }
    } else {
        s
    };
    let r = xorshift32(s1.rng);
    lemma_advance_in_range(s.mode, s.fields, s.pos, s.dir, r);
}

proof fn lemma_advance_in_range(mode: PlayMode, n: int, pos: int, dir: int, rng: u32)
    requires
        1 <= n,
        0 <= pos < n,
        dir == 1 || dir == -1,
    ensures
        0 <= advance_spec(mode, n, pos, dir, rng).0 < n,
        advance_spec(mode, n, pos, dir, rng).1 == 1 || advance_spec(mode, n, pos, dir, rng).1
            == -1,
{
}

/// `Manual` never plays and never changes the state.
pub proof fn lemma_manual_is_silent(s: SeqState)
    requires
        s.mode == PlayMode::Manual,
    ensures
        clock_spec(s) == (s, Step::Rest),
{
}

/// A step down undoes a step up (and the other way round).
pub proof fn lemma_down_undoes_up(n: int, pos: int, dir: int, rng: u32)
    requires
        1 <= n,
        0 <= pos < n,
    ensures
        advance_spec(
            PlayMode::Down,
            n,
            advance_spec(PlayMode::Up, n, pos, dir, rng).0,
            dir,
            rng,
        ).0 == pos,
        advance_spec(
            PlayMode::Up,
            n,
            advance_spec(PlayMode::Down, n, pos, dir, rng).0,
            dir,
            rng,
        ).0 == pos,
{
    vstd::arithmetic::div_mod::lemma_mod_bound(pos + 1, n);
    vstd::arithmetic::div_mod::lemma_mod_bound(pos + n - 1, n);
    if pos + 1 < n {
        vstd::arithmetic::div_mod::lemma_small_mod((pos + 1) as nat, n as nat);
        vstd::arithmetic::div_mod::lemma_small_mod(pos as nat, n as nat);
        assert(pos + 1 + n - 1 == n + pos);
        vstd::arithmetic::div_mod::lemma_mod_add_multiples_vanish(pos, n);
    } else {
        vstd::arithmetic::div_mod::lemma_mod_self_0(n);
        assert(0 + n - 1 == n - 1);
        vstd::arithmetic::div_mod::lemma_small_mod((n - 1) as nat, n as nat);
    }
    if pos >= 1 {
        assert(pos + n - 1 == n + (pos - 1));
        vstd::arithmetic::div_mod::lemma_mod_add_multiples_vanish(pos - 1, n);
        vstd::arithmetic::div_mod::lemma_small_mod((pos - 1) as nat, n as nat);
        vstd::arithmetic::div_mod::lemma_small_mod(pos as nat, n as nat);
    } else {
        vstd::arithmetic::div_mod::lemma_small_mod((n - 1) as nat, n as nat);
        vstd::arithmetic::div_mod::lemma_mod_self_0(n);
    }
}

/// In `Euclid` mode, `k` clocks (at most one cycle) from the start of the
/// pattern, with no rest draw, strike exactly on the pattern's onsets and
/// leave the pattern at step `k % len`.
proof fn lemma_euclid_prefix(s: SeqState, k: nat)
    requires
        seq_wf(s),
        s.mode == PlayMode::Euclid,
        s.e_step == 0,
        s.rest_threshold == 0,
        k <= s.e_len,
    ensures
        strikes_in(s, k) == euclid_onsets(k, s.e_len, s.e_fill, s.e_rot),
        seq_wf(clock_iter(s, k)),
        clock_iter(s, k).mode == s.mode,
        clock_iter(s, k).fields == s.fields,
        clock_iter(s, k).e_len == s.e_len,
        clock_iter(s, k).e_fill == s.e_fill,
        clock_iter(s, k).e_rot == s.e_rot,
        clock_iter(s, k).rest_threshold == 0,
        clock_iter(s, k).e_step == (k as int) % s.e_len,
    decreases k,
{
    if k == 0 {
        vstd::arithmetic::div_mod::lemma_small_mod(0, s.e_len as nat);
    } else {
        lemma_euclid_prefix(s, (k - 1) as nat);
        let t = clock_iter(s, (k - 1) as nat);
        lemma_clock_keeps_bounds(t);
        vstd::arithmetic::div_mod::lemma_small_mod((k - 1) as nat, s.e_len as nat);
        assert(t.e_step == k - 1);
        if k < s.e_len {
            vstd::arithmetic::div_mod::lemma_small_mod(k, s.e_len as nat);
        } else {
            vstd::arithmetic::div_mod::lemma_mod_self_0(s.e_len);
        }
    }
}

/// Clocked through one whole pattern in `Euclid` mode with no rest draw, the
/// sequencer strikes exactly `fill` times, whatever the rotation.
pub proof fn lemma_euclid_cycle_strikes(s: SeqState)
    requires
        seq_wf(s),
        s.mode == PlayMode::Euclid,
        s.e_step == 0,
        s.rest_threshold == 0,
    ensures
        strikes_in(s, s.e_len as nat) == s.e_fill,
{
    lemma_euclid_prefix(s, s.e_len as nat);
    lemma_euclid_onset_count_rotated(s.e_len, s.e_fill, s.e_rot);
}

/// `UpDown` walks one field at a time: inside the scale it keeps its
/// direction, and at either end it turns round onto the neighbouring field
/// (from the top field going up it plays the field below the top). It never
/// touches the generator.
pub proof fn lemma_updown_moves_one_field(n: int, pos: int, dir: int, rng: u32)
    requires
        2 <= n,
        0 <= pos < n,
        dir == 1 || dir == -1,
    ensures
        ({
            let (p, d, r) = advance_spec(PlayMode::UpDown, n, pos, dir, rng);
            &&& p == pos + d
            &&& 0 <= p < n
            &&& (0 <= pos + dir < n ==> d == dir)
            &&& (!(0 <= pos + dir < n) ==> d == -dir)
            &&& r == rng
        }),
        (pos == n - 1 && dir == 1) ==> advance_spec(PlayMode::UpDown, n, pos, dir, rng).0 == n - 2,
        (pos == 0 && dir == -1) ==> advance_spec(PlayMode::UpDown, n, pos, dir, rng).0 == 1,
{
}

/// `Wander` is a small random walk: each move stays on the scale and lands
/// at most two fields from where it was, and without a leap at most one.
pub proof fn lemma_wander_steps_small(n: int, pos: int, dir: int, rng: u32)
    requires
        1 <= n,
        0 <= pos < n,
    ensures
        ({
            let (p, d, r) = advance_spec(PlayMode::Wander, n, pos, dir, rng);
            &&& 0 <= p < n
            &&& -2 <= p - pos <= 2
            &&& d == dir
            &&& (xorshift32(rng) >= WANDER_LEAP_BELOW ==> (-1 <= p - pos <= 1 && r == xorshift32(rng)))
        }),
{
    let r = xorshift32(rng);
    let y = xorshift32(r);
    assert(0 <= (y % 5) < 5);
}

/// Clocked in `UpDown` mode over two or more fields, every strike is on a
/// field next to the one before it.
pub proof fn lemma_updown_strikes_neighbours(s: SeqState)
    requires
        seq_wf(s),
        s.mode == PlayMode::UpDown,
        s.fields >= 2,
    ensures
        clock_spec(s).0.pos == s.pos + 1 || clock_spec(s).0.pos == s.pos - 1,
        clock_spec(s).1 matches Step::Strike { field, .. } ==> (field == s.pos + 1 || field
            == s.pos - 1),
{
    lemma_updown_moves_one_field(s.fields, s.pos, s.dir, s.rng);
    lemma_updown_moves_one_field(s.fields, s.pos, s.dir, xorshift32(s.rng));
}

/// In `Euclid` mode the pitch climbs one field per hit. A clock on a rest
/// step of the pattern changes nothing but the pattern step; without a rest
/// draw every rest leaves the position where it was; and every strike lands
/// on the field after the current one (wrapping at the top), which becomes
/// the new position.
pub proof fn lemma_euclid_climbs_on_hits(s: SeqState)
    requires
        seq_wf(s),
        s.mode == PlayMode::Euclid,
    ensures
        !euclid_hit_spec(s.e_step, s.e_len, s.e_fill, s.e_rot) ==> clock_spec(s) == (
            SeqState { e_step: (s.e_step + 1) % s.e_len, ..s },
            Step::Rest,
        ),
        (s.rest_threshold == 0 && clock_spec(s).1 == Step::Rest) ==> clock_spec(s).0.pos
            == s.pos,
        clock_spec(s).1 matches Step::Strike { field, .. } ==> field == (s.pos + 1) % s.fields
            && clock_spec(s).0.pos == field,
{
}

/// Without rest draws, the `Euclid` position counts the hits: after `k`
/// clocks it has moved up one field (wrapping) for every strike.
pub proof fn lemma_euclid_position_counts_strikes(s: SeqState, k: nat)
    requires
        seq_wf(s),
        s.mode == PlayMode::Euclid,
        s.rest_threshold == 0,
    ensures
        clock_iter(s, k).pos == (s.pos + strikes_in(s, k)) % s.fields,
        seq_wf(clock_iter(s, k)),
        clock_iter(s, k).mode == PlayMode::Euclid,
        clock_iter(s, k).fields == s.fields,
        clock_iter(s, k).rest_threshold == 0,
    decreases k,
{
    if k == 0 {
        vstd::arithmetic::div_mod::lemma_small_mod(s.pos as nat, s.fields as nat);
    } else {
        lemma_euclid_position_counts_strikes(s, (k - 1) as nat);
        let t = clock_iter(s, (k - 1) as nat);
        lemma_clock_keeps_bounds(t);
        lemma_euclid_climbs_on_hits(t);
        let c = strikes_in(s, (k - 1) as nat);
        if clock_spec(t).1 is Strike {
            assert((t.pos + 1) % s.fields == (s.pos + c + 1) % s.fields) by {
                vstd::arithmetic::div_mod::lemma_add_mod_noop_right(1, s.pos + c, s.fields);
            }
        }
    }
}

/// A voice-independent generative sequencer over `fields` scale positions.
pub struct Sequencer {
    fields: usize,
    mode: PlayMode,
    pos: usize,
    dir: i32,
    rng: Rng,
    e_len: u8,
    e_fill: u8,
    e_rot: u8,
    e_step: u8,
    rest_threshold: u32,
}

impl View for Sequencer {
    type V = SeqState;

    closed spec fn view(&self) -> SeqState {
        SeqState {
            fields: self.fields as int,
            mode: self.mode,
            pos: self.pos as int,
            dir: self.dir as int,
            rng: self.rng@,
            e_len: self.e_len as int,
            e_fill: self.e_fill as int,
            e_rot: self.e_rot as int,
            e_step: self.e_step as int,
            rest_threshold: self.rest_threshold as int,
        }
    }
}

impl Clone for Sequencer {
    fn clone(&self) -> (c: Sequencer)
        ensures
            c@ == self@,
    {
        proof {
            use_type_invariant(self);
        }
        Sequencer {
            fields: self.fields,
            mode: self.mode,
            pos: self.pos,
            dir: self.dir,
            rng: self.rng,
            e_len: self.e_len,
            e_fill: self.e_fill,
            e_rot: self.e_rot,
            e_step: self.e_step,
            rest_threshold: self.rest_threshold,
        }
    }
}

/// One move of the play position (see [`advance_spec`]).
fn advance(mode: PlayMode, n: usize, pos: usize, dir: i32, rng: &mut Rng) -> (r: (usize, i32))
    requires
        1 <= n < i32::MAX,
        pos < n,
        dir == 1 || dir == -1,
    ensures
        advance_spec(mode, n as int, pos as int, dir as int, old(rng)@) == (
            r.0 as int,
            r.1 as int,
            final(rng)@,
        ),
        r.0 < n,
        r.1 == 1 || r.1 == -1,
{
    let ni = n as i32;
    match mode {
        PlayMode::Manual => (pos, dir),
        PlayMode::Up | PlayMode::Euclid => ((pos + 1) % n, dir),
        PlayMode::Down => ((pos + n - 1) % n, dir),
        PlayMode::UpDown => {
            if n > 1 {
                let mut p: i32 = pos as i32 + dir;
                let mut d: i32 = dir;
                if p >= ni {
                    p = ni - 2;
                    d = -1;
                } else if p < 0 {
                    p = 1;
                    d = 1;
                }
                let c: i32 = if p < 0 {
                    0
                } else if p > ni - 1 {
                    ni - 1
                } else {
                    p
                };
                (c as usize, d)
            } else {
                (pos, dir)
            }
        },
        PlayMode::Random => {
            let x = rng.next_u32();
            ((x as usize) % n, dir)
        },
        PlayMode::Wander => {
            let r = rng.next_u32();
            let step: i32 = if r < WANDER_LEAP_BELOW {
                let y = rng.next_u32();
                (y % 5) as i32 - 2
            } else if r < WANDER_UP_BELOW {
                1
            } else {
                -1
            };
            let p: i32 = pos as i32 + step;
            let c: i32 = if p < 0 {
                0
            } else if p > ni - 1 {
                ni - 1
            } else {
                p
            };
            (c as usize, dir)
        },
    }
}

impl Sequencer {
    #[verifier::type_invariant]
    spec fn inv(self) -> bool {
        seq_wf(self@)
    }

    /// A sequencer over `fields` positions (at least one), seeded with `seed`,
    /// idle in `Manual` with a five-in-eight Euclidean pattern ready.
    pub fn new(fields: usize, seed: u32) -> (s: Sequencer)
        requires
            fields < i32::MAX,
        ensures
            s@ == (SeqState {
                fields: if fields == 0 {
                    1
                } else {
                    fields as int
                },
                mode: PlayMode::Manual,
                pos: 0,
                dir: 1,
                rng: seed | 1u32,
                e_len: 8,
                e_fill: 5,
                e_rot: 0,
                e_step: 0,
                rest_threshold: 0,
            }),
    {
        Sequencer {
            fields: if fields == 0 {
                1
            } else {
                fields
            },
            mode: PlayMode::Manual,
            pos: 0,
            dir: 1,
            rng: Rng::new(seed),
            e_len: 8,
            e_fill: 5,
            e_rot: 0,
            e_step: 0,
            rest_threshold: 0,
        }
    }

    /// Resize to `fields` positions (at least one), keeping the position in
    /// range and restarting the rhythm pattern.
    pub fn set_fields(&mut self, fields: usize)
        requires
            fields < i32::MAX,
        ensures
            final(self)@ == (SeqState {
                fields: if fields == 0 {
                    1
                } else {
                    fields as int
                },
                pos: if old(self)@.pos <= (if fields == 0 {
                    1
                } else {
                    fields as int
                }) - 1 {
                    old(self)@.pos
                } else {
                    (if fields == 0 {
                        1
                    } else {
                        fields as int
                    }) - 1
                },
                e_step: 0,
                ..old(self)@
            }),
    {
        proof {
            use_type_invariant(&*self);
        }
        let f = if fields == 0 {
            1
        } else {
            fields
        };
        let pos = if self.pos <= f - 1 {
            self.pos
        } else {
            f - 1
        };
        *self = Sequencer { fields: f, pos, e_step: 0, ..*self };
    }

    pub fn set_mode(&mut self, mode: PlayMode)
        ensures
            final(self)@ == (SeqState { mode, ..old(self)@ }),
    {
        proof {
            use_type_invariant(&*self);
        }
        *self = Sequencer { mode, ..*self };
    }

    pub fn mode(&self) -> (m: PlayMode)
        ensures
            m == self@.mode,
    {
        self.mode
    }

    /// Set the Euclidean pattern: `len` steps (at least one), `fill` onsets
    /// (at most `len`), rotated by `rot`.
    pub fn set_euclid(&mut self, len: u8, fill: u8, rot: u8)
        ensures
            final(self)@ == (SeqState {
                e_len: if len == 0 {
                    1
                } else {
                    len as int
                },
                e_fill: if fill as int <= (if len == 0 {
                    1
                } else {
                    len as int
                }) {
                    fill as int
                } else {
                    if len == 0 {
                        1
                    } else {
                        len as int
                    }
                },
                e_rot: rot as int,
                ..old(self)@
            }),
    {
        proof {
            use_type_invariant(&*self);
        }
        let l = if len == 0 {
            1
        } else {
            len
        };
        let f = if fill <= l {
            fill
        } else {
            l
        };
        *self = Sequencer { e_len: l, e_fill: f, e_rot: rot, ..*self };
    }

    /// Set the rest draw: with a non-zero threshold each playing clock makes
    /// one draw and rests when the draw falls below it.
    pub fn set_rest_threshold(&mut self, threshold: u32)
        ensures
            final(self)@ == (SeqState { rest_threshold: threshold as int, ..old(self)@ }),
    {
        proof {
            use_type_invariant(&*self);
        }
        *self = Sequencer { rest_threshold: threshold, ..*self };
    }

    /// The field the sequencer currently points at.
    pub fn position(&self) -> (p: usize)
        ensures
            p == self@.pos,
            p < self@.fields,
    {
        proof {
            use_type_invariant(self);
        }
        self.pos
    }

    /// The number of positions the sequencer walks.
    pub fn fields(&self) -> (n: usize)
        ensures
            n == self@.fields,
            n >= 1,
    {
        proof {
            use_type_invariant(self);
        }
        self.fields
    }

    /// Advance one clock and return the resulting event (see [`clock_spec`]).
    pub fn clock(&mut self) -> (st: Step)
        ensures
            (final(self)@, st) == clock_spec(old(self)@),
            final(self)@.pos < final(self)@.fields,
            st matches Step::Strike { field, .. } ==> field < final(self)@.fields,
    {
        proof {
            use_type_invariant(&*self);
        }
        if matches!(self.mode, PlayMode::Manual) {
            return Step::Rest;
        }
        let mut e_step = self.e_step;
        if matches!(self.mode, PlayMode::Euclid) {
            let hit = euclid_hit(self.e_step, self.e_len, self.e_fill, self.e_rot);
            e_step = (self.e_step + 1) % self.e_len;
            if !hit {
                *self = Sequencer { e_step, ..*self };
                return Step::Rest;
            }
        }
        let mut rng = self.rng;
        if self.rest_threshold > 0 {
            let r = rng.next_u32();
            if r < self.rest_threshold {
                let (pos, dir) = advance(self.mode, self.fields, self.pos, self.dir, &mut rng);
                *self = Sequencer { e_step, rng, pos, dir, ..*self };
                return Step::Rest;
            }
        }
        let (pos, dir) = advance(self.mode, self.fields, self.pos, self.dir, &mut rng);
        let v = rng.next_u32();
        *self = Sequencer { e_step, rng, pos, dir, ..*self };
        Step::Strike { field: pos, roll: v }
    }
}

} // verus!
