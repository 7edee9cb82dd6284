//! The shared random provider: one seedable, deterministic stream,
//! passed explicitly into whatever decision logic draws from it.
//!
//! The draws come from the outside generator; nothing is assumed of an
//! outcome beyond its documented range.

use vstd::prelude::*;

verus! {

#[verifier::external_type_specification]
#[verifier::external_body]
pub struct ExRandomNumberGenerator(rltk::RandomNumberGenerator);

/// The random provider.  All call sites share one stream, so a fixed
/// seed reproduces a run.
pub struct Random {
    rng: rltk::RandomNumberGenerator,
}

impl Random {
    /// Relies on `rltk::RandomNumberGenerator::seeded`: a generator
    /// whose stream is determined by the seed.
    #[verifier::external_body]
    pub fn seeded(seed: u64) -> Random {
        Random { rng: rltk::RandomNumberGenerator::seeded(seed) }
    }

    /// Relies on `rltk::RandomNumberGenerator::new`: a generator seeded
    /// from machine entropy.
    #[verifier::external_body]
    pub fn new() -> Random {
        Random { rng: rltk::RandomNumberGenerator::new() }
    }

    /// Relies on `rltk::RandomNumberGenerator::seeded`: replaces the
    /// stream with one determined by the seed.
    #[verifier::external_body]
    pub fn reseed(&mut self, seed: u64) {
        self.rng = rltk::RandomNumberGenerator::seeded(seed);
    }

    /// Relies on `rltk::RandomNumberGenerator::range`: a draw inclusive
    /// of `min` and exclusive of `max` (the call rejects an empty
    /// range).
    #[verifier::external_body]
    pub fn range(&mut self, min: i32, max: i32) -> (r: i32)
        requires
            min < max,
        ensures
            min <= r < max,
    {
        self.rng.range(min, max)
    }

    /// A draw inclusive of both bounds.
    pub fn inclusive_range(&mut self, min: i32, max: i32) -> (r: i32)
        requires
            min <= max,
            max < i32::MAX,
        ensures
            min <= r <= max,
    {
        self.range(min, max + 1)
    }

    /// One die roll: a draw from 1 to `die_type` inclusive.
    pub fn roll_die(&mut self, die_type: i32) -> (r: i32)
        requires
            1 <= die_type < i32::MAX,
        ensures
            1 <= r <= die_type,
    {
        self.range(1, die_type + 1)
    }

    /// A fair coin.
    pub fn flip_coin(&mut self) -> (r: bool) {
        self.range(0, 2) == 1
    }
}

} // verus!
