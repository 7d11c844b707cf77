//! Pseudo-random sampling.
//!
//! Every stochastic step of the renderer draws from a `Prng` that the
//! caller passes in explicitly, so a render seeded with a fixed value is a
//! pure function of its inputs.  Fresh seeds come from the `rand` crate
//! through a single trusted wrapper.

use crate::fixed::Fx;
use crate::fixed::FX_ONE;
use vstd::prelude::*;

verus! {

/// Relies on rand::random: a fresh unpredictable 64-bit value drawn from
/// the thread-local generator.  Nothing can be promised of it.
#[verifier::external_body]
fn entropy_u64() -> u64 {
    rand::random::<u64>()
}

/// The next state of the generator: a 64-bit xorshift step.
pub open spec fn prng_next_s(s: u64) -> u64 {
    let a = s ^ (s << 13);
    let b = a ^ (a >> 7);
    b ^ (b << 17)
}

/// A small deterministic pseudo-random generator with explicit state.
#[derive(Clone, Copy, Debug, PartialEq, Eq, Structural)]
pub struct Prng {
    pub state: u64,
}

impl Prng {
    /// A generator starting from the given seed; a zero seed is replaced,
    /// since the all-zero state would repeat forever.
    pub fn from_seed(seed: u64) -> (r: Prng)
        ensures
            r.state == if seed == 0 { 0x9e3779b97f4a7c15u64 } else { seed },
            r.state != 0,
    {
        proof {
            assert(0x9e3779b97f4a7c15u64 != 0) by (bit_vector);
        }
        if seed == 0 {
            Prng { state: 0x9e3779b97f4a7c15 }
        } else {
            Prng { state: seed }
        }
    }

    /// A generator seeded from the system's entropy.
    pub fn from_entropy() -> (r: Prng)
        ensures
            r.state != 0,
    {
        Prng::from_seed(entropy_u64())
    }

    /// The next raw 64-bit value; the state advances by one xorshift step.
    pub fn next_u64(&mut self) -> (r: u64)
        ensures
            final(self).state == prng_next_s(old(self).state),
            r == final(self).state,
    {
        let mut s = self.state;
        s = s ^ (s << 13);
        s = s ^ (s >> 7);
        s = s ^ (s << 17);
        self.state = s;
        s
    }

    /// A value in `[0, n)`.
    pub fn next_below(&mut self, n: u64) -> (r: u64)
        requires
            n > 0,
        ensures
            r < n,
            final(self).state == prng_next_s(old(self).state),
            r == prng_next_s(old(self).state) % n,
    {
        let x = self.next_u64();
        x % n
    }

    /// A scalar in `[0, 1)`, in fixed-point form.
    pub fn next_unit(&mut self) -> (r: Fx)
        ensures
            0 <= r < FX_ONE,
            final(self).state == prng_next_s(old(self).state),
            r == prng_next_s(old(self).state) % 65536,
    {
        let x = self.next_below(65536);
        x as i128
    }

    /// A scalar in `[lo, hi)`.
    pub fn next_range(&mut self, lo: Fx, hi: Fx) -> (r: Fx)
        requires
            lo < hi,
            hi - lo < 0x8000000000000000,
        ensures
            lo <= r < hi,
            final(self).state == prng_next_s(old(self).state),
            r == lo + prng_next_s(old(self).state) % ((hi - lo) as u64),
    {
        let span: u64 = (hi - lo) as u64;
        let x = self.next_below(span);
        lo + x as i128
    }
}

} // verus!
