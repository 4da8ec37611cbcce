//! Randomness sources for the shuffled sequence.
//!
//! The shuffle needs one capability only: drawing a uniformly distributed
//! index below a given bound.  [`UniformRandom`] states that capability,
//! [`ThreadRandom`] supplies it from the thread-local generator of the
//! `rand` crate, and [`FixedRandom`] replays a fixed list of draws for
//! deterministic use.

use vstd::prelude::*;
use rand::Rng;

verus! {

/// A source of random indices: each draw yields an integer in `[0, n)`.
///
/// The verified contract pins only the range of the result; that the draws
/// are uniformly distributed is a property of the chosen source and lies
/// outside what the contracts state.
pub trait UniformRandom {
    /// Draw one index below `n`.
    fn next_below(&mut self, n: usize) -> (r: usize)
        requires
            n >= 1,
        ensures
            r < n,
    ;
}

/// A deterministic source that replays a fixed list of draws.
///
/// Each stored draw is reduced modulo the requested bound; once the list is
/// exhausted, every further draw is `0`.
pub struct FixedRandom {
    draws: Vec<usize>,
    pos: usize,
}

impl FixedRandom {
    /// The draws not yet replayed, in the order they will be used.
    pub closed spec fn pending(&self) -> Seq<usize> {
        if self.pos <= self.draws.len() {
            self.draws@.skip(self.pos as int)
        } else {
            Seq::empty()
        }
    }

    /// Build a source that will replay `draws` front to back.
    pub fn new(draws: Vec<usize>) -> (r: FixedRandom)
        ensures
            r.pending() == draws@,
    {
        let r = FixedRandom { draws, pos: 0 };
        proof {
            assert(r.pending() =~= r.draws@);
        }
        r
    }
}

impl UniformRandom for FixedRandom {
    fn next_below(&mut self, n: usize) -> (r: usize)
        ensures
            old(self).pending().len() > 0 ==> r == old(self).pending()[0] % n
                && final(self).pending() == old(self).pending().skip(1),
            old(self).pending().len() == 0 ==> r == 0 && *final(self) == *old(self),
    {
        let d: usize;
        if self.pos < self.draws.len() {
            d = self.draws[self.pos];
            self.pos = self.pos + 1;
            proof {
                assert(self.pending() =~= old(self).pending().skip(1));
            }
        } else {
            d = 0;
            proof {
                assert(old(self).pending().len() == 0);
            }
        }
        d % n
    }
}

/// Declaration of `rand`'s thread-local generator type, so that a value of
/// it can be held in a field; the value is opaque to the contracts.
#[verifier::external_type_specification]
#[verifier::external_body]
pub struct ExThreadRng(rand::rngs::ThreadRng);

/// The thread-local generator of the `rand` crate, behind the
/// [`UniformRandom`] capability.
pub struct ThreadRandom {
    rng: rand::rngs::ThreadRng,
}

impl ThreadRandom {
    /// Relies on `rand::thread_rng`: obtain the thread-local generator.
    /// Nothing is promised of the draws it will yield beyond their range.
    #[verifier::external_body]
    pub fn new() -> ThreadRandom {
        ThreadRandom { rng: rand::thread_rng() }
    }

    /// Relies on `rand::Rng::gen_range`: for the non-empty range `0..n` it
    /// returns a value of the range, uniformly distributed.
    #[verifier::external_body]
    fn draw(&mut self, n: usize) -> (r: usize)
        requires
            n >= 1,
        ensures
            r < n,
    {
        self.rng.gen_range(0..n)
    }
}

impl UniformRandom for ThreadRandom {
    fn next_below(&mut self, n: usize) -> (r: usize) {
        self.draw(n)
    }
}

} // verus!
