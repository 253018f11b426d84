//! Where random bits come from.
//!
//! The bits are produced by the `rand` crate. A source is nothing but a seed:
//! every draw runs a fresh standard generator from the current seed, and then
//! moves the seed on by one. A source made from a given seed therefore hands
//! out the same words in every run; a source made from entropy starts at a
//! seed that the thread-local generator picked.

use rand::rngs::StdRng;
use rand::{Rng, SeedableRng};
use vstd::prelude::*;

verus! {

/// The first `count` words that the standard generator yields when it is
/// seeded with `seed`.
pub uninterp spec fn seeded_stream(seed: u64, count: nat) -> Seq<u64>;

/// Runs `rand::rngs::StdRng::seed_from_u64(seed)` and lets `rand::Rng::fill`
/// overwrite `words` from it.
///
/// The standard generator is deterministic, so what the buffer holds
/// afterwards depends on `seed` and on its length alone: it is the stream
/// named above. The length of the buffer stays as it is.
#[verifier::external_body]
fn fill_seeded(seed: u64, words: &mut Vec<u64>)
    ensures
        final(words)@ == seeded_stream(seed, old(words)@.len()),
        final(words)@.len() == old(words)@.len(),
{
    StdRng::seed_from_u64(seed).fill(&mut words[..]);
}

/// Asks `rand::thread_rng()` for one word with `rand::Rng::gen`.
///
/// Nothing is known of the word: the thread-local generator is seeded by the
/// operating system. Where the operating system has no entropy to give when a
/// thread first asks, `rand::thread_rng()` panics; no argument of a caller
/// brings that about or prevents it.
#[verifier::external_body]
fn entropy_word() -> (word: u64) {
    rand::thread_rng().gen::<u64>()
}

/// A seedable source of random words, passed to whatever needs randomness.
#[derive(Clone, Copy, Debug, PartialEq, Eq, Structural)]
pub struct RandomSource {
    /// The seed of the next draw.
    pub seed: u64,
}

impl RandomSource {
    /// The words that the next draw of `count` words returns.
    pub open spec fn upcoming(self, count: nat) -> Seq<u64> {
        seeded_stream(self.seed, count)
    }

    /// The source as it is after one draw.
    pub open spec fn advanced(self) -> RandomSource {
        RandomSource { seed: self.seed.wrapping_add(1) }
    }

    /// The source as it is after `draws` draws.
    pub open spec fn after_draws(self, draws: nat) -> RandomSource
        decreases draws,
    {
        if draws == 0 {
            self
        } else {
            self.after_draws((draws - 1) as nat).advanced()
        }
    }

    /// A source that starts at `seed`: it hands out the same words every time.
    pub fn seeded(seed: u64) -> (r: RandomSource)
        ensures
            r.seed == seed,
    {
        RandomSource { seed }
    }

    /// A source that starts at a seed nobody chose.
    pub fn from_entropy() -> (r: RandomSource) {
        RandomSource { seed: entropy_word() }
    }

    /// Draws `count` words and moves the source on.
    pub fn draw(&mut self, count: usize) -> (words: Vec<u64>)
        ensures
            words@ == old(self).upcoming(count as nat),
            words@.len() == count,
            *final(self) == old(self).advanced(),
    {
        let mut words: Vec<u64> = Vec::new();
        while words.len() < count
            invariant
                words@.len() <= count,
            decreases count - words@.len(),
        {
            words.push(0);
        }
        fill_seeded(self.seed, &mut words);
        self.seed = self.seed.wrapping_add(1);
        words
    }
}

} // verus!
