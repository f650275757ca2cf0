//! A small seedable linear-congruential generator.
//!
//! Every random draw the library makes goes through this type, so a run is a
//! deterministic function of the seed: the heightmap and the plasma manager
//! can be replayed exactly by reseeding.  Fresh seeds come from the process
//! generator of the `rand` crate.

use vstd::prelude::*;

verus! {

/// The generator state lives in `[0, LCG_MODULUS)`.
pub const LCG_MODULUS: u64 = 2147483648;
pub const LCG_MULTIPLIER: u64 = 1103515245;
pub const LCG_INCREMENT: u64 = 12345;

/// The successor of a generator state.  The state is reduced before it is
/// used, so any `u64` is acceptable as a seed.
pub open spec fn next_state(s: u64) -> u64 {
    ((((s as int) % (LCG_MODULUS as int)) * (LCG_MULTIPLIER as int) + (LCG_INCREMENT as int))
        % (LCG_MODULUS as int)) as u64
}

/// The value drawn from state `s` for the half-open interval `[lo, hi)`.
pub open spec fn range_value(s: u64, lo: int, hi: int) -> int {
    lo + (next_state(s) as int) % (hi - lo)
}

pub struct Rng {
    state: u64,
}

impl View for Rng {
    type V = u64;

    closed spec fn view(&self) -> u64 {
        self.state
    }
}

/// Relies on `rand::random::<u64>`: one word from the process-wide generator.
/// Nothing is promised of its value; it only seeds an `Rng`.
#[verifier::external_body]
fn entropy_word() -> u64 {
    rand::random::<u64>()
}

impl Rng {
    pub fn new(seed: u64) -> (r: Rng)
        ensures
            r@ == seed,
    {
        Rng { state: seed }
    }

    /// An `Rng` with a seed nobody chose.
    pub fn from_entropy() -> (r: Rng) {
        Rng { state: entropy_word() }
    }

    fn step(&mut self)
        ensures
            final(self)@ == next_state(old(self)@),
    {
        let reduced = self.state % LCG_MODULUS;
        assert(reduced * LCG_MULTIPLIER + LCG_INCREMENT < u64::MAX) by (nonlinear_arith)
            requires
                reduced < 2147483648,
        ;
        self.state = (reduced * LCG_MULTIPLIER + LCG_INCREMENT) % LCG_MODULUS;
    }

    /// A draw from the half-open interval `[lo, hi)`, advancing the state.
    pub fn gen_range(&mut self, lo: i64, hi: i64) -> (r: i64)
        requires
            lo < hi,
        ensures
            final(self)@ == next_state(old(self)@),
            r == range_value(old(self)@, lo as int, hi as int),
            lo <= r < hi,
    {
        self.step();
        let span = (hi as i128) - (lo as i128);
        let offset = (self.state as i128) % span;
        assert(0 <= offset < span);
        ((lo as i128) + offset) as i64
    }
}

} // verus!
