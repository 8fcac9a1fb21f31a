//! Tiny deterministic noise source for strike excitation: xorshift32.
//! Fast, allocation-free, and identical on every target.

use vstd::prelude::*;

verus! {

/// One xorshift32 step (shifts 13, 17, 5) on a 32-bit state.
pub open spec fn xorshift32(x: u32) -> u32 {
    let a = x ^ (x << 13u32);
    let b = a ^ (a >> 17u32);
    b ^ (b << 5u32)
}

/// Zero is a fixed point of the generator: a zero state never leaves zero.
pub proof fn lemma_zero_is_fixed()
    ensures
        xorshift32(0) == 0,
{
    assert(xorshift32(0) == 0) by (bit_vector);
}

/// A non-zero state never steps to zero, so a generator seeded away from zero
/// keeps producing values forever.
pub proof fn lemma_nonzero_stays_nonzero(x: u32)
    requires
        x != 0,
    ensures
        xorshift32(x) != 0,
{
    let a = x ^ (x << 13u32);
    let b = a ^ (a >> 17u32);
    assert(x != 0 ==> (x ^ (x << 13u32)) != 0) by (bit_vector);
    assert(a != 0 ==> (a ^ (a >> 17u32)) != 0) by (bit_vector);
    assert(b != 0 ==> (b ^ (b << 5u32)) != 0) by (bit_vector);
}

/// The xorshift32 noise source. Its state is never zero.
#[derive(Clone, Copy)]
pub struct Rng(u32);

impl View for Rng {
    type V = u32;

    closed spec fn view(&self) -> u32 {
        self.0
    }
}

impl Rng {
    #[verifier::type_invariant]
    spec fn state_nonzero(self) -> bool {
        self.0 != 0
    }

    /// Seed the generator. The lowest bit is forced on, which keeps the state
    /// away from zero (the one state xorshift cannot leave).
    pub fn new(seed: u32) -> (r: Rng)
        ensures
            r@ == seed | 1u32,
            r@ != 0,
    {
        assert((seed | 1u32) != 0) by (bit_vector);
        Rng(seed | 1)
    }

    /// Step the generator and return the new state.
    pub fn next_u32(&mut self) -> (r: u32)
        ensures
            r == xorshift32(old(self)@),
            final(self)@ == r,
            r != 0,
    {
        proof {
            use_type_invariant(&*self);
            lemma_nonzero_stays_nonzero(self.0);
        }
        let mut x = self.0;
        x ^= x << 13u32;
        x ^= x >> 17u32;
        x ^= x << 5u32;
        self.0 = x;
        x
    }
}

} // verus!
