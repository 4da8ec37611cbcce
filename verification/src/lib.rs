//! Lazy production of the elements of a slice in uniformly shuffled order.
//!
//! A [`ShuffledIter`] borrows a slice and hands its elements out one at a
//! time, in the order of a uniformly random permutation, consuming one
//! random draw per element produced.  No randomness is spent before an
//! element is demanded.

mod rng;
mod shuffle;

pub use rng::FixedRandom;
pub use rng::ThreadRandom;
pub use rng::UniformRandom;
pub use shuffle::ShuffledIter;
pub use shuffle::Shuffled;
pub use shuffle::emission;
pub use shuffle::step_rest;
pub use shuffle::step_taken;
pub use shuffle::lemma_drain_permutation;
pub use shuffle::lemma_step_multiset;
pub use shuffle::lemma_step_deterministic;
