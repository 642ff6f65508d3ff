//! A seeded generator of numbers. What it draws is fixed by its seed and by what was asked of it.
use rand::rngs::SmallRng;
use rand::{RngExt, SeedableRng};
use vstd::prelude::*;

verus! {

/// `rand::rngs::SmallRng`, a generator whose state stays unseen.
#[verifier::external_type_specification]
#[verifier::external_body]
pub struct ExSmallRng(rand::rngs::SmallRng);

/// A generator with the seed that it began with and the bounds of what it has drawn so far. Only
/// `seeded` makes one and only `draw_below` takes it on, so its state is always the one that its
/// seed and its bounds lead to.
pub struct Generator {
    rng: SmallRng,
    seed: Ghost<u64>,
    bounds: Ghost<Seq<u32>>,
}

impl View for Generator {
    type V = (u64, Seq<u32>);

    /// The seed, and the bounds of the numbers drawn so far.
    closed spec fn view(&self) -> (u64, Seq<u32>) {
        (self.seed@, self.bounds@)
    }
}

/// What a generator draws below `upper`, on a machine whose words have `word_bits` bits, after it was
/// seeded with `seed` and has drawn below each of `bounds` in turn.
pub uninterp spec fn draw_of(word_bits: u32, seed: u64, bounds: Seq<u32>, upper: u32) -> u32;

/// `SmallRng::seed_from_u64`: a generator with the given seed that has drawn nothing yet.
#[verifier::external_body]
pub(crate) fn seeded(seed: u64) -> (r: Generator)
    ensures
        r@ == (seed, Seq::<u32>::empty()),
{
    Generator {
        rng: SmallRng::seed_from_u64(seed),
        seed: Ghost(seed),
        bounds: Ghost(Seq::empty()),
    }
}

/// `RngExt::random_range` over `0..upper`: a number below `upper`. The state of a `SmallRng` follows
/// from its seed and its earlier draws, by an algorithm that is picked by the word size of the
/// machine; so the number is a function of these, and which one is left to its name. It panics on an
/// empty range.
#[verifier::external_body]
pub(crate) fn draw_below(generator: &mut Generator, upper: u32) -> (r: u32)
    requires
        upper > 0,
    ensures
        r < upper,
        r == draw_of(usize::BITS, old(generator)@.0, old(generator)@.1, upper),
        final(generator)@ == (old(generator)@.0, old(generator)@.1.push(upper)),
{
    generator.rng.random_range(0u32..upper)
}

} // verus!
