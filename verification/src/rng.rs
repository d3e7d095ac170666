//! A deterministic, seedable pseudo-random generator for weight
//! initialization: a 64-bit linear congruential generator. Every draw is
//! pinned to a spec-level model, so two generators started from the same
//! seed produce the same stream on every run.

use vstd::prelude::*;

verus! {

/// Multiplier of the linear congruential step.
pub const LCG_MUL: u64 = 6364136223846793005;

/// Increment of the linear congruential step.
pub const LCG_INC: u64 = 1442695040888963407;

/// One step of the generator: `(s * LCG_MUL + LCG_INC) mod 2^64`.
pub open spec fn lcg_next(s: int) -> int {
    (s * (LCG_MUL as int) + LCG_INC as int) % 0x1_0000_0000_0000_0000
}

/// The state after `n` steps from seed `s`.
pub open spec fn lcg_iter(s: int, n: nat) -> int
    decreases n,
{
    if n == 0 {
        s
    } else {
        lcg_next(lcg_iter(s, (n - 1) as nat))
    }
}

/// The seedable generator. The whole state is one 64-bit word.
pub struct SeededRng {
    pub state: u64,
}

impl SeededRng {
    /// A generator starting from the given seed.
    pub fn new(seed: u64) -> (r: SeededRng)
        ensures
            r.state == seed,
    {
        SeededRng { state: seed }
    }

    /// Advance one step and return the new state.
    pub fn next_u64(&mut self) -> (r: u64)
        ensures
            final(self).state as int == lcg_next(old(self).state as int),
            r == final(self).state,
    {
        let s: u64 = self.state;
        proof {
            assert((s as int) * (LCG_MUL as int)
                <= 0xffff_ffff_ffff_ffff * (LCG_MUL as int)) by (nonlinear_arith)
                requires
                    s as int <= 0xffff_ffff_ffff_ffff,
            ;
        }
        let wide: u128 = (s as u128) * (LCG_MUL as u128) + (LCG_INC as u128);
        self.state = (wide % 0x1_0000_0000_0000_0000u128) as u64;
        self.state
    }

    /// Advance one step and return a fixed-point value in `[0, bound)`,
    /// the new state reduced modulo `bound`.
    pub fn next_below(&mut self, bound: i64) -> (r: i64)
        requires
            bound > 0,
        ensures
            final(self).state as int == lcg_next(old(self).state as int),
            r as int == final(self).state as int % bound as int,
            0 <= r < bound,
    {
        let x = self.next_u64();
        (x % (bound as u64)) as i64
    }
}

} // verus!
