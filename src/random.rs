//! A small seedable generator, so that a run of the rain is reproducible.

use vstd::prelude::*;

verus! {

pub const LCG_MUL: u64 = 6364136223846793005;

pub const LCG_INC: u64 = 1442695040888963407;

/// Rolls are the high half of the state.
pub const HALF: u64 = 4294967296;

/// One step of the generator: `state * LCG_MUL + LCG_INC` modulo 2^64.
pub open spec fn lcg_step(s: u64) -> u64 {
    s.wrapping_mul(LCG_MUL).wrapping_add(LCG_INC)
}

/// The state after `k` steps from `s`.
pub open spec fn lcg_iter(s: u64, k: nat) -> u64
    decreases k,
{
    if k == 0 {
        s
    } else {
        lcg_step(lcg_iter(s, (k - 1) as nat))
    }
}

/// The value handed out when the generator steps to state `s`.
pub open spec fn roll_of(s: u64) -> u64 {
    s / HALF
}

/// Mixes three values into one well-spread number.
pub open spec fn mix_of(a: u64, b: u64, c: u64) -> u64 {
    roll_of(lcg_step(lcg_step(lcg_step(a).wrapping_add(b)).wrapping_add(c)))
}

/// Deterministic mixing of three values, used to pick glyphs.
pub fn mix(a: u64, b: u64, c: u64) -> (r: u64)
    ensures
        r == mix_of(a, b, c),
{
    let s1 = a.wrapping_mul(LCG_MUL).wrapping_add(LCG_INC);
    let s2 = s1.wrapping_add(b).wrapping_mul(LCG_MUL).wrapping_add(LCG_INC);
    let s3 = s2.wrapping_add(c).wrapping_mul(LCG_MUL).wrapping_add(LCG_INC);
    s3 / HALF
}

/// A linear congruential generator.
#[derive(Clone, Copy, Debug, PartialEq, Eq)]
pub struct Lcg {
    pub state: u64,
}

impl Lcg {
    pub fn new(seed: u64) -> (r: Lcg)
        ensures
            r.state == seed,
    {
        Lcg { state: seed }
    }

    /// Steps the generator and returns the high half of the new state.
    pub fn next_u64(&mut self) -> (r: u64)
        ensures
            final(self).state == lcg_step(old(self).state),
            r == roll_of(final(self).state),
    {
        self.state = self.state.wrapping_mul(LCG_MUL).wrapping_add(LCG_INC);
        self.state / HALF
    }
}

} // verus!
