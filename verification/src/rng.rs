//! A small linear congruential pseudo-random generator.
//!
//! The generator is fully deterministic after seeding: `next` advances the
//! 64-bit state by `state * 1103515245 + 12345 (mod 2^64)` and returns the
//! new state. `next_fraction` masks the result down to its low 24 bits,
//! giving a uniform numerator over the denominator `FRACTION_ONE`; callers
//! scale it by integer arithmetic where a fraction in `[0, 1)` is wanted.

use vstd::prelude::*;

verus! {

/// Denominator of the 24-bit fractions drawn by `next_fraction`:
/// every fraction numerator is strictly below this.
pub const FRACTION_ONE: u64 = 0x1000000;

/// The successor of an LCG state: `s * 1103515245 + 12345`, reduced mod 2^64.
pub open spec fn lcg_next(s: u64) -> u64 {
    (((s as int) * 1103515245 + 12345) % 0x1_0000_0000_0000_0000) as u64
}

/// The 24-bit fraction numerator drawn out of an LCG state.
pub open spec fn fraction_bits(s: u64) -> u64 {
    s % FRACTION_ONE
}

/// Linear congruential generator with 64-bit state.
pub struct SimpleRng {
    state: u64,
}

impl View for SimpleRng {
    type V = u64;

    closed spec fn view(&self) -> u64 {
        self.state
    }
}

/// Relies on std::time::SystemTime::now (with duration_since and as_nanos):
/// the nanoseconds since the Unix epoch, used only as a seed. Nothing is
/// promised of the value; a clock before the epoch yields zero.
#[verifier::external_body]
fn nanos_since_epoch() -> u64 {
    match std::time::SystemTime::now().duration_since(std::time::UNIX_EPOCH) {
        Ok(d) => d.as_nanos() as u64,
        Err(_) => 0,
    }
}

impl SimpleRng {
    /// Seeds the generator from the current wall-clock time. The seed is
    /// arbitrary; every later draw is a pure function of it.
    pub fn new() -> Self {
        SimpleRng { state: nanos_since_epoch() }
    }

    /// Seeds the generator with a caller-chosen value, so that the whole
    /// sequence of draws is reproducible.
    pub fn from_seed(seed: u64) -> (r: Self)
        ensures
            r@ == seed,
    {
        SimpleRng { state: seed }
    }

    /// Advances the state by the linear recurrence and returns the new state.
    pub fn next(&mut self) -> (r: u64)
        ensures
            final(self)@ == lcg_next(old(self)@),
            r == final(self)@,
    {
        let wide: u128 = (self.state as u128) * 1103515245 + 12345;
        self.state = (wide % 0x1_0000_0000_0000_0000) as u64;
        self.state
    }

    /// Draws the next state and keeps its low 24 bits: a uniform fraction
    /// numerator in `[0, FRACTION_ONE)`.
    pub fn next_fraction(&mut self) -> (r: u64)
        ensures
            final(self)@ == lcg_next(old(self)@),
            r == fraction_bits(lcg_next(old(self)@)),
            r < FRACTION_ONE,
    {
        let drawn = self.next();
        drawn % FRACTION_ONE
    }
}

} // verus!
