//! What the population of a lattice decides before any energy is drawn: the
//! seed from which each cell's random numbers come.

use vstd::prelude::*;

verus! {

/// The seed of the random number generator of the cell `index`, derived from
/// the base seed of the run: base plus index, wrapping around at `2^64`.
///
/// Every cell draws from a generator of its own, so that what it draws does
/// not depend on the order in which cells are worked on.
pub fn cell_seed(base: u64, index: usize) -> (seed: u64)
    ensures
        seed == (base + index) % 0x1_0000_0000_0000_0000,
{
    base.wrapping_add(index as u64)
}

/// Within one run no two cells share a seed.
pub proof fn law_seeds_distinct(base: u64, a: usize, b: usize)
    requires
        a != b,
    ensures
        (base + a) % 0x1_0000_0000_0000_0000 != (base + b) % 0x1_0000_0000_0000_0000,
{
}

} // verus!
