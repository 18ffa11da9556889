//! Errors of the board's accessors and constructors.

use vstd::prelude::*;

verus! {

/// Why a board could not be made or a cell could not be reached.
#[derive(Debug, Clone, Copy, PartialEq, Eq, Structural)]
pub enum GridError {
    /// The index names no cell of the board.
    OutOfRange,
    /// The side is zero, the board would not fit in memory, or the cells
    /// handed in do not fill a square of that side.
    InvalidDimension,
}

} // verus!
