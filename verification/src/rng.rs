//! The seeded pseudorandom numbers that the maps are drawn from.
//!
//! The engine draws from the `rand` crate's standard generator, seeded with a
//! single word, so that a seed always gives the same map. The generator's
//! state is opaque; what is known of it is the seed it was made from and the
//! draws taken from it so far, and each draw is named as a function of these.
use vstd::prelude::*;
use rand::{SeedableRng, StdRng};
use rand::distributions::IndependentSample;
use rand::distributions::range::Range;

verus! {

/// The `rand` crate's standard generator, carried as an opaque value.
#[verifier::external_type_specification]
#[verifier::external_body]
pub struct ExStdRng(StdRng);

/// One draw from a seeded generator: the kind of number drawn, the range
/// `[low, high)` it was drawn from, and the number that came out. The kind is
/// the width in bits of the number's type, negated for a signed type: `32`
/// for `u32`, `-32` for `i32`, `16` for `u16`.
pub type Draw = (int, int, int, int);

/// The number that a standard generator seeded with `[seed]` gives when
/// asked for a number of the given kind in `[low, high)`, after the draws of
/// `history`. The generator is a different algorithm on 32-bit and 64-bit
/// machines, hence the machine's word size in bits as `word_bits`.
pub uninterp spec fn seeded_draw(
    word_bits: u32,
    seed: u16,
    history: Seq<Draw>,
    kind: int,
    low: int,
    high: int,
) -> int;

/// The number that a generator seeded with `seed` gives, on this machine,
/// for the next draw of the given kind in `[low, high)` after the draws of
/// `history`.
pub open spec fn draw_from(seed: u16, history: Seq<Draw>, kind: int, low: int, high: int) -> int {
    seeded_draw(usize::BITS, seed, history, kind, low, high)
}

/// A standard generator together with the seed it was made from and the
/// draws taken from it so far. The seed and the draws are ghost records:
/// the generator is made only by [`SeededRng::new`] and drawn from only by
/// the `sample_*` functions of this module, whose contracts extend the
/// record with each draw.
pub struct SeededRng {
    rng: StdRng,
    seed: Ghost<u16>,
    history: Ghost<Seq<Draw>>,
}

/// `StdRng::from_seed` with the one-word seed `[seed]`. Nothing is stated of
/// the generator it returns but what [`SeededRng`] records beside it.
#[verifier::external_body]
fn std_rng_from_seed(seed: u16) -> StdRng {
    let words: &[usize] = &[seed as usize];
    SeedableRng::from_seed(words)
}

impl SeededRng {
    /// The seed the generator was made from.
    pub closed spec fn seed(&self) -> u16 {
        self.seed@
    }

    /// The draws taken from the generator so far, oldest first.
    pub closed spec fn history(&self) -> Seq<Draw> {
        self.history@
    }

    /// A standard generator seeded with the one word `[seed]`, with no draw
    /// taken yet.
    pub fn new(seed: u16) -> (r: SeededRng)
        ensures
            r.seed() == seed,
            r.history() == Seq::<Draw>::empty(),
    {
        SeededRng { rng: std_rng_from_seed(seed), seed: Ghost(seed), history: Ghost(Seq::empty()) }
    }
}

/// `Range::new(low, high).ind_sample(rng)` on `u32`: the generator's next
/// number in `[low, high)`, as named by [`seeded_draw`]. `Range::new`
/// asserts `low < high`, hence the `requires`.
#[verifier::external_body]
pub(crate) fn sample_u32(rng: &mut SeededRng, low: u32, high: u32) -> (r: u32)
    requires
        low < high,
    ensures
        low <= r < high,
        r == seeded_draw(usize::BITS, old(rng).seed(), old(rng).history(), 32, low as int, high as int),
        final(rng).seed() == old(rng).seed(),
        final(rng).history() == old(rng).history().push((32, low as int, high as int, r as int)),
{
    Range::new(low, high).ind_sample(&mut rng.rng)
}

/// `Range::new(low, high).ind_sample(rng)` on `i32`: the generator's next
/// number in `[low, high)`, as named by [`seeded_draw`]. `Range::new`
/// asserts `low < high`, hence the `requires`.
#[verifier::external_body]
pub(crate) fn sample_i32(rng: &mut SeededRng, low: i32, high: i32) -> (r: i32)
    requires
        low < high,
    ensures
        low <= r < high,
        r == seeded_draw(usize::BITS, old(rng).seed(), old(rng).history(), -32, low as int, high as int),
        final(rng).seed() == old(rng).seed(),
        final(rng).history() == old(rng).history().push((-32, low as int, high as int, r as int)),
{
    Range::new(low, high).ind_sample(&mut rng.rng)
}

/// `Range::new(low, high).ind_sample(rng)` on `u16`: the generator's next
/// number in `[low, high)`, as named by [`seeded_draw`]. `Range::new`
/// asserts `low < high`, hence the `requires`.
#[verifier::external_body]
pub(crate) fn sample_u16(rng: &mut SeededRng, low: u16, high: u16) -> (r: u16)
    requires
        low < high,
    ensures
        low <= r < high,
        r == seeded_draw(usize::BITS, old(rng).seed(), old(rng).history(), 16, low as int, high as int),
        final(rng).seed() == old(rng).seed(),
        final(rng).history() == old(rng).history().push((16, low as int, high as int, r as int)),
{
    Range::new(low, high).ind_sample(&mut rng.rng)
}

/// `rand::random::<u8>()`: a byte from the thread's generator. Nothing is
/// stated of which byte comes up.
#[verifier::external_body]
pub(crate) fn random_u8() -> u8 {
    rand::random::<u8>()
}

} // verus!
