//! The one source of chance: board layouts, word picks and fresh identifiers
//! are all drawn from a `RandomSource`, which can be seeded for a
//! reproducible run or from the operating system for an unpredictable one.
//!
//! The generator is `StdRng` of the crate `rand`. The five private functions
//! that call into `rand` are not verified: what each of them states is taken
//! on trust from the source of `rand`, and everything else in the library is
//! proved from that.

use rand::Rng;
use rand::rngs::OsRng;
use rand::rngs::StdRng;
use rand::SeedableRng;
use rand::seq::SliceRandom;
use vstd::prelude::*;

verus! {

/// `StdRng` of `rand`, as a type whose values the verifier cannot look into.
#[verifier::external_type_specification]
#[verifier::external_body]
pub struct ExStdRng(rand::rngs::StdRng);

/// Calls `StdRng::seed_from_u64` of `rand`, which makes a generator whose
/// whole output is fixed by `seed`. Trusted; nothing is claimed of the
/// generator that comes back.
#[verifier::external_body]
fn generator_from_seed(seed: u64) -> StdRng {
    StdRng::seed_from_u64(seed)
}

/// Calls `StdRng::from_rng` of `rand` on `OsRng`, which makes a generator
/// seeded by the operating system and reports an error where the system
/// could not supply the seed; the error becomes `None`. Trusted; nothing is
/// claimed of which of the two comes back.
#[verifier::external_body]
fn generator_from_os() -> Option<StdRng> {
    StdRng::from_rng(OsRng).ok()
}

/// Calls `Rng::gen_range` of `rand` on the half-open range from zero to
/// `bound`. Trusted: the number drawn lies in the range, that is, below
/// `bound`. On an empty range the call panics, so `bound` has to be positive.
#[verifier::external_body]
fn generate_below(rng: &mut StdRng, bound: usize) -> (drawn: usize)
    requires
        bound > 0,
    ensures
        drawn < bound,
{
    rng.gen_range(0..bound)
}

/// Calls `Rng::gen` of `rand` at type `u64`. Trusted; any 64-bit number may
/// come back, so nothing is claimed of it.
#[verifier::external_body]
fn generate_u64(rng: &mut StdRng) -> u64 {
    rng.gen()
}

/// Calls `SliceRandom::choose` of `rand` on the items as a slice. Trusted:
/// what comes back is one element of the slice, or nothing when, and only
/// when, the slice is empty.
#[verifier::external_body]
fn choose_from<'a>(rng: &mut StdRng, items: &'a Vec<String>) -> (chosen: Option<&'a String>)
    ensures
        match chosen {
            Some(item) => exists|i: int| 0 <= i < items.len() && items[i] == *item,
            None => items.len() == 0,
        },
{
    items.choose(rng)
}

/// A pseudo-random generator. Its state is opaque: a contract can say what
/// holds of every number it may hand out, never which one comes next.
pub struct RandomSource {
    rng: StdRng,
}

impl RandomSource {
    /// A source whose draws are fixed by `seed`, for reproducible runs.
    pub fn from_seed(seed: u64) -> RandomSource {
        RandomSource { rng: generator_from_seed(seed) }
    }

    /// A source seeded by the operating system, for draws that cannot be
    /// predicted; `None` where the system has no entropy to give.
    pub fn from_entropy() -> Option<RandomSource> {
        match generator_from_os() {
            Some(rng) => Some(RandomSource { rng }),
            None => None,
        }
    }

    /// Draws an index below `bound`.
    pub fn index_below(&mut self, bound: usize) -> (drawn: usize)
        requires
            bound > 0,
        ensures
            drawn < bound,
    {
        generate_below(&mut self.rng, bound)
    }

    /// Draws a 64-bit identifier.
    pub fn identifier(&mut self) -> u64 {
        generate_u64(&mut self.rng)
    }

    /// Picks one of `items`, or nothing when there are none.
    pub fn pick<'a>(&mut self, items: &'a Vec<String>) -> (chosen: Option<&'a String>)
        ensures
            match chosen {
                Some(item) => exists|i: int| 0 <= i < items.len() && items[i] == *item,
                None => items.len() == 0,
            },
    {
        choose_from(&mut self.rng, items)
    }
}

} // verus!
