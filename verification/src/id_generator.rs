//! Generates a sequence of unique pseudorandom positive integer IDs for units.
//!
//! The sequence applies a permutation built from quadratic residues modulo a
//! prime to a running index.
use vstd::prelude::*;
use crate::unit::UnitID;

verus! {

/// IDs generated are less than p, which is a prime such that p = 3 mod 4. This
/// is the closest prime number less than 2^16 that satisifes this condition.
pub const PRIME: u16 = 65519;

/// The word that each permuted index is combined with, bit by bit.
pub const XOR_VALUE: u16 = 0xc0d3;

/// IDs less than or equal to the maximum reserved ID are reserved for
/// initial units or testing units.
pub const MAX_RESERVED_ID: UnitID = 10;

/// Generates a sequence of unique pseudorandom positive integer IDS for units.
#[derive(Debug, Clone, Copy, PartialEq, Eq, Structural)]
pub struct IDGenerator {
    /// Map seed.
    seed: u16,
    /// An index into the random number generator. Must not be 0 or 1.
    index: u16,
}

/// The quadratic-residue permutation: values at or above the prime map to
/// themselves; the lower half of the range maps to its square modulo the
/// prime, and the upper half to the prime minus that square.
pub open spec fn qpr(x: u16) -> u16 {
    if x >= PRIME {
        x
    } else {
        let residue = ((x as int * x as int) % (PRIME as int)) as u16;
        if x <= PRIME / 2 {
            residue
        } else {
            (PRIME - residue) as u16
        }
    }
}

/// The ID the generator produces from an index, before reserved IDs are
/// skipped.
pub open spec fn raw_id(seed: u16, index: u16) -> u16 {
    qpr(qpr(index).wrapping_add(seed) ^ XOR_VALUE)
}

fn permute_qpr(x: UnitID) -> (r: UnitID)
    ensures
        r == qpr(x),
{
    if x >= PRIME {
        return x;
    }
    let xx = x as u32;
    assert(xx * xx < 65519 * 65519) by (nonlinear_arith)
        requires
            xx < 65519,
    ;
    let residue = ((xx * xx) % PRIME as u32) as u16;
    if x <= PRIME / 2 {
        residue
    } else {
        PRIME - residue
    }
}

impl IDGenerator {
    /// The seed.
    pub closed spec fn seed_view(&self) -> u16 {
        self.seed
    }

    /// The index the next ID is drawn from.
    pub closed spec fn index_view(&self) -> u16 {
        self.index
    }

    /// Create a new generator.
    pub fn new(seed: u16) -> (r: IDGenerator)
        ensures
            r.seed_view() == seed,
            r.index_view() == 2,
    {
        IDGenerator { seed: seed, index: 2 }
    }

    /// Return a new ID. Each unit ID is unique.
    /// Does not produce IDs in the range [0, MAX_RESERVED_ID]: the IDs drawn
    /// from the indices before the one returned were all reserved.
    pub fn next_id(&mut self) -> (id: UnitID)
        requires
            exists|j: u16|
                old(self).index_view() <= j < u16::MAX && raw_id(old(self).seed_view(), j) > 10,
        ensures
            id > 10,
            final(self).seed_view() == old(self).seed_view(),
            old(self).index_view() < final(self).index_view(),
            id == raw_id(old(self).seed_view(), (final(self).index_view() - 1) as u16),
            forall|j: u16|
                old(self).index_view() <= j < final(self).index_view() - 1 ==> raw_id(
                    old(self).seed_view(),
                    j,
                ) <= 10,
    {
        let ghost w = choose|j: u16|
            old(self).index_view() <= j < u16::MAX && raw_id(old(self).seed_view(), j)
                > MAX_RESERVED_ID;
        let mut id = self.next_id_unchecked();
        while id <= MAX_RESERVED_ID
            invariant
                self.seed == old(self).seed,
                old(self).index < self.index <= w + 1,
                id == raw_id(self.seed, (self.index - 1) as u16),
                old(self).index_view() <= w < u16::MAX,
                raw_id(self.seed, w) > MAX_RESERVED_ID,
                forall|j: u16|
                    old(self).index <= j < self.index - 1 ==> raw_id(self.seed, j)
                        <= MAX_RESERVED_ID,
            decreases w + 1 - self.index,
        {
            id = self.next_id_unchecked();
        }
        id
    }

    /// Return a new ID as `next_id` does, or `None`, leaving the generator
    /// spent, when no index left gives an ID above the reserved range.
    pub fn try_next_id(&mut self) -> (r: Option<UnitID>)
        ensures
            final(self).seed_view() == old(self).seed_view(),
            r is Some <==> exists|j: u16|
                old(self).index_view() <= j < u16::MAX && raw_id(old(self).seed_view(), j) > 10,
            r is Some ==> {
                let id = r->Some_0;
                &&& id > 10
                &&& old(self).index_view() < final(self).index_view()
                &&& id == raw_id(old(self).seed_view(), (final(self).index_view() - 1) as u16)
            },
    {
        while self.index < u16::MAX
            invariant
                self.seed == old(self).seed,
                old(self).index <= self.index,
                forall|j: u16| old(self).index <= j < self.index ==> raw_id(self.seed, j) <= MAX_RESERVED_ID,
            decreases u16::MAX - self.index,
        {
            let id = self.next_id_unchecked();
            if id > MAX_RESERVED_ID {
                return Some(id);
            }
        }
        None
    }

    fn next_id_unchecked(&mut self) -> (id: UnitID)
        requires
            old(self).index < u16::MAX,
        ensures
            final(self).seed == old(self).seed,
            final(self).index == old(self).index + 1,
            id == raw_id(old(self).seed, old(self).index),
    {
        let x = self.index;
        self.index = self.index + 1;
        permute_qpr(permute_qpr(x).wrapping_add(self.seed) ^ XOR_VALUE)
    }
}

} // verus!
