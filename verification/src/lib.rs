use vstd::prelude::*;

pub mod abmax;
pub mod bitboard;
pub mod bitlemmas;
pub mod board;
pub mod eval;
pub mod heuristic;
pub mod minimax;
pub mod replay;
pub mod simple;
pub mod ttable;

verus! {

/// Adds two numbers; the sum must fit in a `usize`.
pub fn add(left: usize, right: usize) -> (r: usize)
    requires
        left + right <= usize::MAX,
    ensures
        r == left + right,
{
    left + right
}

} // verus!
