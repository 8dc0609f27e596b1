//! Random draws.
//!
//! The engine owns a single random number generator and consults it for
//! every chance-based decision: whether a damaged vehicle cooks off,
//! how sub-explosions are timed, where debris lands.  The generator is
//! the `rand` crate's thread-local generator; nothing is assumed about
//! a draw beyond its range, so every decision downstream is verified
//! for every value the generator can produce.

use vstd::prelude::*;

use crate::units::MILLI;

verus! {

/// The thread-local generator of the `rand` crate, held as an opaque value.
#[verifier::external_type_specification]
#[verifier::external_body]
pub struct ExThreadRng(rand::rngs::ThreadRng);

/// The engine's source of randomness.
pub struct EngineRng {
    inner: rand::rngs::ThreadRng,
}

impl EngineRng {
    /// Relies on `rand::thread_rng`: a handle to the thread-local generator.
    #[verifier::external_body]
    pub fn new() -> (r: EngineRng) {
        EngineRng { inner: rand::thread_rng() }
    }

    /// Relies on `rand::Rng::gen_range` on `lo..=hi`: the draw lies in the
    /// inclusive range.  The call panics only on an empty range, which the
    /// precondition rules out.
    #[verifier::external_body]
    pub fn draw_u64(&mut self, lo: u64, hi: u64) -> (r: u64)
        requires
            lo <= hi,
        ensures
            lo <= r <= hi,
    {
        rand::Rng::gen_range(&mut self.inner, lo..=hi)
    }

    /// A probability draw: a value in `[0, 1000)` milli units.  A chance
    /// `c` passes when the draw is strictly below `c`, so a chance of
    /// `1000` always passes and a chance of `0` never does.
    pub fn draw_milli(&mut self) -> (r: u64)
        ensures
            r < MILLI,
    {
        self.draw_u64(0, MILLI - 1)
    }
}

} // verus!
