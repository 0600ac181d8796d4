//! The sources of random vertex identifiers.
//!
//! The generators themselves come from the `rand` crate. What this module
//! states about them is believed, not proved; each such item says so.

use rand::rngs::{StdRng, ThreadRng};
use rand::{Rng, SeedableRng};
use vstd::prelude::*;

verus! {

/// `rand::rngs::ThreadRng`, a handle to the calling thread's generator; opaque.
#[verifier::external_type_specification]
#[verifier::external_body]
pub struct ExThreadRng(ThreadRng);

/// `rand::rngs::StdRng`, a generator that owns its state, which is opaque here.
#[verifier::external_type_specification]
#[verifier::external_body]
pub struct ExStdRng(StdRng);

/// Trusted: `rand::thread_rng()`. Nothing is claimed of the handle it returns.
/// The first call on a thread seeds the generator from the operating system
/// and panics if the system cannot supply the seed. No argument decides that,
/// so no precondition can rule it out.
#[verifier::external_body]
fn thread_generator() -> ThreadRng {
    rand::thread_rng()
}

/// Trusted: `StdRng::seed_from_u64(seed)`. The call reads nothing but the seed,
/// so the generator it returns is the one that [`seeded_from`] names.
#[verifier::external_body]
fn seeded_generator(seed: u64) -> (generator: StdRng)
    ensures
        generator == seeded_from(seed),
{
    StdRng::seed_from_u64(seed)
}

/// Trusted: `Rng::gen_range(0..bound)` on a `ThreadRng`. The call panics on an
/// empty range, so `bound` must be positive; the value it returns lies in the
/// range. Which value is a matter of chance.
///
/// The thread's generator reseeds itself from the operating system now and
/// then, and panics if the system cannot supply the seed. No argument decides
/// that either.
#[verifier::external_body]
fn thread_index_below(rng: &mut ThreadRng, bound: usize) -> (index: usize)
    requires
        bound > 0,
    ensures
        index < bound,
{
    rng.gen_range(0..bound)
}

/// Trusted: `Rng::gen_range(0..bound)` on a `StdRng`. The call panics on an
/// empty range, so `bound` must be positive; the value it returns lies in the
/// range. Nothing is claimed of which value it is.
#[verifier::external_body]
fn seeded_index_below(rng: &mut StdRng, bound: usize) -> (index: usize)
    requires
        bound > 0,
    ensures
        index < bound,
{
    rng.gen_range(0..bound)
}

/// Where vertex identifiers are drawn from.
pub enum RandomSource {
    /// The calling thread's generator, seeded by the operating system.
    Thread(ThreadRng),
    /// A generator started from an explicit seed.
    Seeded(StdRng),
}

impl RandomSource {
    /// The calling thread's generator. It depends on the operating system's
    /// entropy, when it is set up and whenever it reseeds itself; a source made
    /// by [`RandomSource::from_seed`] does not.
    pub fn from_thread() -> (source: RandomSource)
        ensures
            source is Thread,
    {
        RandomSource::Thread(thread_generator())
    }

    /// The generator that `seed` starts: equal seeds give equal sources.
    pub fn from_seed(seed: u64) -> (source: RandomSource)
        ensures
            source == RandomSource::Seeded(seeded_from(seed)),
    {
        RandomSource::Seeded(seeded_generator(seed))
    }

    /// Draws an index from `[0, bound)`.
    pub fn index_below(&mut self, bound: usize) -> (index: usize)
        requires
            bound > 0,
        ensures
            index < bound,
            *final(self) is Thread <==> *old(self) is Thread,
    {
        match self {
            RandomSource::Thread(rng) => thread_index_below(rng, bound),
            RandomSource::Seeded(rng) => seeded_index_below(rng, bound),
        }
    }
}

/// The generator in the state in which `StdRng::seed_from_u64` hands it out
/// for `seed`. That call spreads the seed over the generator's key by fixed
/// arithmetic, byte order included, and reads nothing else: not the clock, not
/// the operating system, not the calling thread. What the state is, and which
/// values the generator goes on to give, is not stated.
pub uninterp spec fn seeded_from(seed: u64) -> StdRng;

} // verus!
