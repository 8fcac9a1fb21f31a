//! The integer side of a humanized section: how many players sound, each
//! player's stable hash, and the onset stagger that holds a player's note
//! back for a few samples so a section does not attack as one.

use vstd::prelude::*;

verus! {

/// The active player count for a requested `n`: clamped to `[1, max]`.
pub fn active_players(n: usize, max: usize) -> (r: usize)
    requires
        max >= 1,
    ensures
        r == (if n < 1 {
            1
        } else if n > max {
            max as int
        } else {
            n as int
        }),
        1 <= r <= max,
{
    if n < 1 {
        1
    } else if n > max {
        max
    } else {
        n
    }
}

/// The stable 32-bit mix behind each player's spread: a multiply-xorshift
/// hash of the player key.
pub open spec fn player_hash_spec(i: u32) -> u32 {
    let a = (i.wrapping_mul(0x9E37_79B9u32)) ^ 0x5F35_6495u32;
    let b = a ^ (a >> 15u32);
    let c = b.wrapping_mul(0x85EB_CA6Bu32);
    c ^ (c >> 13u32)
}

/// Deterministic per-player hash: equal keys give equal mixes on every run
/// and target.
pub fn player_hash(i: u32) -> (r: u32)
    ensures
        r == player_hash_spec(i),
{
    let mut x = i.wrapping_mul(0x9E37_79B9) ^ 0x5F35_6495;
    x ^= x >> 15u32;
    x = x.wrapping_mul(0x85EB_CA6B);
    x ^= x >> 13u32;
    x
}

/// One player's onset stagger: a note triggered on a staggered player is
/// held, and fires on the step its countdown runs out.
pub struct Stagger<E> {
    stagger: u32,
    pend: Option<E>,
    countdown: u32,
}

/// A player's stagger state as plain values.
pub struct StaggerState<E> {
    pub stagger: u32,
    pub pend: Option<E>,
    pub countdown: u32,
}

impl<E> View for Stagger<E> {
    type V = StaggerState<E>;

    closed spec fn view(&self) -> StaggerState<E> {
        StaggerState { stagger: self.stagger, pend: self.pend, countdown: self.countdown }
    }
}

/// One step of a staggered player: the countdown runs down, and the held
/// note fires on the step it reaches zero.
pub open spec fn stagger_tick<E>(s: StaggerState<E>) -> (StaggerState<E>, Option<E>) {
    if s.countdown > 0 {
        if s.countdown == 1 {
            (StaggerState { countdown: 0, pend: None, ..s }, s.pend)
        } else {
            (StaggerState { countdown: (s.countdown - 1) as u32, ..s }, None)
        }
    } else {
        (s, None)
    }
}

/// The state after `k` steps.
pub open spec fn stagger_after<E>(s: StaggerState<E>, k: nat) -> StaggerState<E>
    decreases k,
{
    if k == 0 {
        s
    } else {
        stagger_tick(stagger_after(s, (k - 1) as nat)).0
    }
}

impl<E: Copy> Stagger<E> {
    /// A player that holds each note for `stagger` steps (0: no hold).
    pub fn new(stagger: u32) -> (s: Stagger<E>)
        ensures
            s@ == (StaggerState::<E> { stagger, pend: None, countdown: 0 }),
    {
        Stagger { stagger, pend: None, countdown: 0 }
    }

    /// The player's hold, in steps.
    pub fn stagger(&self) -> (r: u32)
        ensures
            r == self@.stagger,
    {
        self.stagger
    }

    /// A note arrives. An unstaggered player fires it now; a staggered one
    /// holds it (replacing any note it was holding) and restarts its
    /// countdown.
    pub fn trigger(&mut self, ev: E) -> (fire: Option<E>)
        ensures
            old(self)@.stagger == 0 ==> fire == Some(ev) && final(self)@ == (StaggerState {
                pend: None,
                countdown: 0,
                ..old(self)@
            }),
            old(self)@.stagger != 0 ==> fire is None && final(self)@ == (StaggerState {
                pend: Some(ev),
                countdown: old(self)@.stagger,
                ..old(self)@
            }),
    {
        if self.stagger == 0 {
            self.pend = None;
            self.countdown = 0;
            Some(ev)
        } else {
            self.pend = Some(ev);
            self.countdown = self.stagger;
            None
        }
    }

    /// Release: drop any held note.
    pub fn release(&mut self)
        ensures
            final(self)@ == (StaggerState { pend: None, countdown: 0, ..old(self)@ }),
    {
        self.pend = None;
        self.countdown = 0;
    }

    /// Advance one step, returning the held note on the step it fires.
    pub fn tick(&mut self) -> (fire: Option<E>)
        ensures
            (final(self)@, fire) == stagger_tick(old(self)@),
    {
        if self.countdown > 0 {
            self.countdown = self.countdown - 1;
            if self.countdown == 0 {
                let p = self.pend;
                self.pend = None;
                return p;
            }
        }
        None
    }
}

/// A note triggered on a player with hold `d > 0` fires exactly on the
/// `d`-th step after it: every earlier step is silent.
pub proof fn lemma_stagger_fires_after_hold<E>(s: StaggerState<E>, ev: E, k: nat)
    requires
        s.stagger > 0,
        1 <= k <= s.stagger,
    ensures
        ({
            let held = StaggerState { pend: Some(ev), countdown: s.stagger, ..s };
            let before = stagger_after(held, (k - 1) as nat);
            &&& before.countdown == s.stagger - (k - 1)
            &&& before.pend == Some(ev)
            &&& stagger_tick(before).1 == (if k == s.stagger {
                Some(ev)
            } else {
                None
            })
        }),
    decreases k,
{
    if k > 1 {
        lemma_stagger_fires_after_hold(s, ev, (k - 1) as nat);
    }
}

} // verus!
