//! Random sources for terrain and obstacle generation.
//!
//! Generation is written against the `RandomSource` trait so that a caller can
//! inject a deterministic source (tests seed a `Lcg`) or the process-local
//! system source (`SystemRandom`, backed by the `rand` crate).

use vstd::prelude::*;
use rand::Rng;

verus! {

/// A source of uniformly distributed draws. Nothing is promised of the values
/// beyond their range: two calls with equal arguments may differ.
pub trait RandomSource {
    /// Draw a value uniformly from `0 .. bound`.
    fn below(&mut self, bound: u64) -> (r: u64)
        requires
            bound >= 1,
        ensures
            r < bound,
    ;
}

/// Draw a boolean that is true with probability one in `chance`.
/// A chance of zero or one always succeeds.
pub fn one_in<R: RandomSource>(rng: &mut R, chance: u64) -> (r: bool)
    ensures
        chance <= 1 ==> r,
{
    if chance <= 1 {
        true
    } else {
        rng.below(chance) == 0
    }
}

/// The successor of an `Lcg` state: a 64-bit linear congruential step.
pub open spec fn lcg_next(s: u64) -> u64 {
    ((s as int * 6_364_136_223_846_793_005 + 1_442_695_040_888_963_407) % 0x1_0000_0000_0000_0000) as u64
}

/// A deterministic linear congruential generator: the same seed always yields
/// the same sequence of draws, which makes generation reproducible.
pub struct Lcg {
    pub state: u64,
}

impl Lcg {
    pub fn new(seed: u64) -> (r: Lcg)
        ensures
            r.state == seed,
    {
        Lcg { state: seed }
    }
}

impl RandomSource for Lcg {
    fn below(&mut self, bound: u64) -> (r: u64) {
        let p: u128 = (self.state as u128) * 6_364_136_223_846_793_005u128 + 1_442_695_040_888_963_407u128;
        self.state = (p % 0x1_0000_0000_0000_0000u128) as u64;
        (self.state >> 33) % bound
    }
}

/// The process-local system source.
pub struct SystemRandom;

impl SystemRandom {
    pub fn new() -> SystemRandom {
        SystemRandom
    }
}

impl RandomSource for SystemRandom {
    fn below(&mut self, bound: u64) -> (r: u64) {
        system_below(bound)
    }
}

/// Relies on rand::Rng::gen_range over the range `0..bound`: it returns a
/// value of that half-open range, and panics only when the range is empty,
/// which the precondition rules out.
#[verifier::external_body]
fn system_below(bound: u64) -> (r: u64)
    requires
        bound >= 1,
    ensures
        r < bound,
{
    rand::thread_rng().gen_range(0..bound)
}

} // verus!
