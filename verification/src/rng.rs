//! The simulation's pseudo-random number generator.
//!
//! Every random decision in a run (network delays, drops, duplications and
//! the draws a node asks for) comes from this generator, so a run is a pure
//! function of the seed and the injected events.  The generator is a linear
//! congruential step with an output mix; its whole behaviour is stated by
//! the spec functions below, which is what makes the reproducibility
//! contract of the kernel provable.

use vstd::prelude::*;

verus! {

/// Multiplier of the linear step (Knuth's MMIX constant).
pub const RNG_MUL: u64 = 6364136223846793005;

/// Increment of the linear step.
pub const RNG_INC: u64 = 1442695040888963407;

/// Probabilities and random draws are expressed in parts per `RATE_SCALE`:
/// a rate of `RATE_SCALE` means "always", `0` means "never", and a draw is
/// a value in `[0, RATE_SCALE)`.
pub const RATE_SCALE: u64 = 1000000;

/// The generator state that follows `s`.
#[verifier::opaque]
pub open spec fn rng_step(s: u64) -> u64 {
    vstd::wrapping::u64_specs::wrapping_add(
        vstd::wrapping::u64_specs::wrapping_mul(s, RNG_MUL),
        RNG_INC,
    )
}

/// The draw produced from the state `s`: the high bits are folded in
/// before reducing to `[0, RATE_SCALE)`.
#[verifier::opaque]
pub open spec fn rng_out(s: u64) -> u64 {
    (((s >> 33) ^ s) % RATE_SCALE) as u64
}

/// A seeded deterministic generator.  Two generators with equal state
/// produce equal draws forever.
#[derive(Clone, Copy, Debug, PartialEq, Eq, Structural)]
pub struct Rng {
    pub state: u64,
}

impl Rng {
    /// Seed a generator; the initial state is one step from the raw seed so
    /// that small seeds do not produce nearly-equal first draws.
    pub fn with_seed(seed: u64) -> (r: Rng)
        ensures
            r.state == rng_step(seed),
    {
        proof {
            reveal(rng_step);
        }
        Rng { state: seed.wrapping_mul(RNG_MUL).wrapping_add(RNG_INC) }
    }

    /// Advance the state once and produce a draw in `[0, RATE_SCALE)`.
    pub fn draw(&mut self) -> (r: u64)
        ensures
            final(self).state == rng_step(old(self).state),
            r == rng_out(rng_step(old(self).state)),
            r < RATE_SCALE,
    {
        proof {
            reveal(rng_step);
            reveal(rng_out);
        }
        self.state = self.state.wrapping_mul(RNG_MUL).wrapping_add(RNG_INC);
        ((self.state >> 33) ^ self.state) % RATE_SCALE
    }
}

/// Every draw is below `RATE_SCALE`, whatever the state.
pub proof fn lemma_rng_out_bounded(s: u64)
    ensures
        rng_out(s) < RATE_SCALE,
{
    reveal(rng_out);
}

} // verus!
