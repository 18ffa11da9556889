//! Row-major geometry of an `n`×`n` board.
//!
//! A cell is named either by its index in `0..n*n` or by its row and column;
//! the lemmas here move between the two without leaving linear arithmetic to
//! their callers.

use vstd::prelude::*;

verus! {

/// Whether `(row, col)` names a cell of the `n`×`n` board.
pub open spec fn on_board(n: int, row: int, col: int) -> bool {
    0 <= row < n && 0 <= col < n
}

/// Row-major index of the cell at `(row, col)`.
pub open spec fn cell_index(n: int, row: int, col: int) -> int {
    row * n + col
}

/// Row of the cell with the given index.
pub open spec fn row_of(n: int, index: int) -> int {
    index / n
}

/// Column of the cell with the given index.
pub open spec fn col_of(n: int, index: int) -> int {
    index % n
}

/// Every index of the board names a cell on it, and that cell's row-major
/// index is the index again.
pub proof fn lemma_index_to_position(n: int, index: int)
    requires
        0 < n,
        0 <= index < n * n,
    ensures
        on_board(n, row_of(n, index), col_of(n, index)),
        cell_index(n, row_of(n, index), col_of(n, index)) == index,
{
    let q = index / n;
    let r = index % n;
    assert(index == q * n + r && 0 <= r < n) by (nonlinear_arith)
        requires
            0 < n,
            q == index / n,
            r == index % n,
    ;
    assert(0 <= q < n) by (nonlinear_arith)
        requires
            0 < n,
            0 <= index < n * n,
            index == q * n + r,
            0 <= r < n,
    ;
}

/// Every cell of the board has an index within it, from which its row and
/// column are recovered.
pub proof fn lemma_position_to_index(n: int, row: int, col: int)
    requires
        on_board(n, row, col),
    ensures
        0 <= cell_index(n, row, col) < n * n,
        row_of(n, cell_index(n, row, col)) == row,
        col_of(n, cell_index(n, row, col)) == col,
{
    let index = row * n + col;
    assert(0 <= index < n * n) by (nonlinear_arith)
        requires
            0 <= row < n,
            0 <= col < n,
            index == row * n + col,
    ;
    vstd::arithmetic::div_mod::lemma_fundamental_div_mod_converse(index, n, row, col);
}

/// Moving by `(dr, dc)` on the board moves the index by `dr * n + dc`.
pub proof fn lemma_offset_index(n: int, row: int, col: int, dr: int, dc: int)
    ensures
        cell_index(n, row + dr, col + dc) == cell_index(n, row, col) + dr * n + dc,
{
    assert((row + dr) * n == row * n + dr * n) by (nonlinear_arith);
}

} // verus!
