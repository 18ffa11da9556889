//! Boards drawn from a rule on rows and columns, and two well-known
//! patterns: the block, which never changes, and the blinker, which turns
//! between a row and a column of three.

use vstd::prelude::*;
use crate::geometry::{col_of, lemma_index_to_position, on_board, row_of};
use crate::neighbors::{alive_at, lemma_position_if_on_board, live_neighbors, one_if};
use crate::rules::{generations, next_generation, next_state};

verus! {

/// The board of side `n` on which the cell at `(row, col)` is alive where
/// `alive(row, col)` holds.
pub open spec fn board_of(n: int, alive: spec_fn(int, int) -> bool) -> Seq<bool> {
    Seq::new((n * n) as nat, |i: int| alive(row_of(n, i), col_of(n, i)))
}

/// Whether `(row, col)` is on the board and marked alive by `alive`.
pub open spec fn marked(n: int, alive: spec_fn(int, int) -> bool, row: int, col: int) -> bool {
    on_board(n, row, col) && alive(row, col)
}

/// Live neighbours of `(row, col)` on `board_of(n, alive)`, read off the
/// rule.
pub open spec fn marked_neighbors(
    n: int,
    alive: spec_fn(int, int) -> bool,
    row: int,
    col: int,
) -> int {
    one_if(marked(n, alive, row - 1, col - 1)) + one_if(marked(n, alive, row - 1, col)) + one_if(
        marked(n, alive, row - 1, col + 1),
    ) + one_if(marked(n, alive, row, col - 1)) + one_if(marked(n, alive, row, col + 1)) + one_if(
        marked(n, alive, row + 1, col - 1),
    ) + one_if(marked(n, alive, row + 1, col)) + one_if(marked(n, alive, row + 1, col + 1))
}

/// On `board_of(n, alive)` a cell is alive exactly where `alive` marks it.
pub proof fn lemma_board_of_alive_at(n: int, alive: spec_fn(int, int) -> bool, row: int, col: int)
    ensures
        alive_at(board_of(n, alive), n, row, col) <==> marked(n, alive, row, col),
{
    lemma_position_if_on_board(n, row, col);
}

/// The neighbours of a cell of `board_of(n, alive)` can be counted on the
/// rule.
pub proof fn lemma_board_of_neighbors(n: int, alive: spec_fn(int, int) -> bool, index: int)
    ensures
        live_neighbors(board_of(n, alive), n, index) == marked_neighbors(
            n,
            alive,
            row_of(n, index),
            col_of(n, index),
        ),
{
    let row = row_of(n, index);
    let col = col_of(n, index);
    lemma_board_of_alive_at(n, alive, row - 1, col - 1);
    lemma_board_of_alive_at(n, alive, row - 1, col);
    lemma_board_of_alive_at(n, alive, row - 1, col + 1);
    lemma_board_of_alive_at(n, alive, row, col - 1);
    lemma_board_of_alive_at(n, alive, row, col + 1);
    lemma_board_of_alive_at(n, alive, row + 1, col - 1);
    lemma_board_of_alive_at(n, alive, row + 1, col);
    lemma_board_of_alive_at(n, alive, row + 1, col + 1);
}

/// Where the update rule, applied cell by cell to `alive`, gives `after`,
/// the board of `alive` is followed by the board of `after`.
pub proof fn lemma_board_of_next_generation(
    n: int,
    alive: spec_fn(int, int) -> bool,
    after: spec_fn(int, int) -> bool,
)
    requires
        0 < n,
        forall|row: int, col: int|
            on_board(n, row, col) ==> #[trigger] after(row, col) == next_state(
                alive(row, col),
                marked_neighbors(n, alive, row, col),
            ),
    ensures
        next_generation(board_of(n, alive), n) == board_of(n, after),
{
    let before = board_of(n, alive);
    assert forall|i: int| 0 <= i < n * n implies next_generation(before, n)[i] == board_of(
        n,
        after,
    )[i] by {
        lemma_index_to_position(n, i);
        lemma_board_of_neighbors(n, alive, i);
    }
    assert(next_generation(before, n) =~= board_of(n, after));
}

/// The block: two by two live cells, its upper left cell at `(top, left)`.
pub open spec fn block(top: int, left: int) -> spec_fn(int, int) -> bool {
    |row: int, col: int| top <= row <= top + 1 && left <= col <= left + 1
}

/// The blinker lying down: three live cells in row `row`, the middle one in
/// column `col`.
pub open spec fn blinker_row(row: int, col: int) -> spec_fn(int, int) -> bool {
    |r: int, c: int| r == row && col - 1 <= c <= col + 1
}

/// The blinker standing up: three live cells in column `col`, the middle one
/// in row `row`.
pub open spec fn blinker_column(row: int, col: int) -> spec_fn(int, int) -> bool {
    |r: int, c: int| c == col && row - 1 <= r <= row + 1
}

/// A block alone on the board is a still life: the next generation is the
/// same board, wherever on the board the block stands.
pub proof fn lemma_block_is_still_life(n: int, top: int, left: int)
    requires
        on_board(n, top, left),
        on_board(n, top + 1, left + 1),
    ensures
        next_generation(board_of(n, block(top, left)), n) == board_of(n, block(top, left)),
{
    let alive = block(top, left);
    assert forall|row: int, col: int| on_board(n, row, col) implies #[trigger] alive(row, col)
        == next_state(alive(row, col), marked_neighbors(n, alive, row, col)) by {}
    lemma_board_of_next_generation(n, alive, alive);
}

/// A blinker alone on the board, with room for both of its shapes, turns
/// from a row into a column and back: it has period two.
pub proof fn lemma_blinker_has_period_two(n: int, row: int, col: int)
    requires
        on_board(n, row - 1, col - 1),
        on_board(n, row + 1, col + 1),
    ensures
        next_generation(board_of(n, blinker_row(row, col)), n) == board_of(
            n,
            blinker_column(row, col),
        ),
        next_generation(board_of(n, blinker_column(row, col)), n) == board_of(
            n,
            blinker_row(row, col),
        ),
        generations(board_of(n, blinker_row(row, col)), n, 2) == board_of(
            n,
            blinker_row(row, col),
        ),
{
    let lying = blinker_row(row, col);
    let standing = blinker_column(row, col);
    assert forall|r: int, c: int| on_board(n, r, c) implies #[trigger] standing(r, c)
        == next_state(lying(r, c), marked_neighbors(n, lying, r, c)) by {}
    assert forall|r: int, c: int| on_board(n, r, c) implies #[trigger] lying(r, c) == next_state(
        standing(r, c),
        marked_neighbors(n, standing, r, c),
    ) by {}
    lemma_board_of_next_generation(n, lying, standing);
    lemma_board_of_next_generation(n, standing, lying);
    reveal_with_fuel(generations, 3);
}

} // verus!
