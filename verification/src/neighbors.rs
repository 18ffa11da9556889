//! Live neighbours of a cell on a board that does not wrap around.
//!
//! The count is defined geometrically, over the up to eight cells that share
//! an edge or a corner with the cell. A second formulation walks the eight
//! linear offsets behind boundary guards; it is the one the executable code
//! follows, and it is proved equal to the first.

use vstd::prelude::*;
use crate::geometry::{
    cell_index, col_of, lemma_index_to_position, lemma_offset_index, lemma_position_to_index,
    on_board, row_of,
};

verus! {

/// One for `true`, zero for `false`.
pub open spec fn one_if(b: bool) -> int {
    if b {
        1
    } else {
        0
    }
}

/// Whether `(row, col)` is a cell of the board and alive.
pub open spec fn alive_at(cells: Seq<bool>, n: int, row: int, col: int) -> bool {
    on_board(n, row, col) && cells[cell_index(n, row, col)]
}

/// Number of live cells among the cells adjacent to `index`.
pub open spec fn live_neighbors(cells: Seq<bool>, n: int, index: int) -> int {
    let row = row_of(n, index);
    let col = col_of(n, index);
    one_if(alive_at(cells, n, row - 1, col - 1)) + one_if(alive_at(cells, n, row - 1, col))
        + one_if(alive_at(cells, n, row - 1, col + 1)) + one_if(alive_at(cells, n, row, col - 1))
        + one_if(alive_at(cells, n, row, col + 1)) + one_if(alive_at(cells, n, row + 1, col - 1))
        + one_if(alive_at(cells, n, row + 1, col)) + one_if(alive_at(cells, n, row + 1, col + 1))
}

/// Number of cells adjacent to `index` that exist on the board.
pub open spec fn candidate_neighbors(n: int, index: int) -> int {
    let row = row_of(n, index);
    let col = col_of(n, index);
    one_if(on_board(n, row - 1, col - 1)) + one_if(on_board(n, row - 1, col)) + one_if(
        on_board(n, row - 1, col + 1),
    ) + one_if(on_board(n, row, col - 1)) + one_if(on_board(n, row, col + 1)) + one_if(
        on_board(n, row + 1, col - 1),
    ) + one_if(on_board(n, row + 1, col)) + one_if(on_board(n, row + 1, col + 1))
}

/// The cell lies in the first row.
pub open spec fn at_top(n: int, index: int) -> bool {
    index < n
}

/// The cell lies in the first column.
pub open spec fn at_left(n: int, index: int) -> bool {
    index % n == 0
}

/// The cell lies in the last column.
pub open spec fn at_right(n: int, index: int) -> bool {
    index % n == n - 1
}

/// The cell lies in the last row.
pub open spec fn at_bottom(n: int, index: int) -> bool {
    index > n * n - n - 1
}

/// Whether the walk over the eight offsets reads the cell `index + offset`:
/// `dr` and `dc` say which boundary guards stand before that read.
pub open spec fn reads_offset(n: int, index: int, dr: int, dc: int) -> bool {
    &&& dr == -1 ==> !at_top(n, index)
    &&& dr == 1 ==> !at_bottom(n, index)
    &&& dc == -1 ==> !at_left(n, index)
    &&& dc == 1 ==> !at_right(n, index)
}

/// One step of the guarded walk: one if the guards let the read happen and
/// the cell read is alive.
pub open spec fn guarded_read(cells: Seq<bool>, n: int, index: int, dr: int, dc: int) -> int {
    one_if(reads_offset(n, index, dr, dc) && cells[index + dr * n + dc])
}

/// The count as the guarded walk computes it: up-left, up, up-right, left,
/// right, down-left, down, down-right.
pub open spec fn guarded_neighbors(cells: Seq<bool>, n: int, index: int) -> int {
    guarded_read(cells, n, index, -1, -1) + guarded_read(cells, n, index, -1, 0) + guarded_read(
        cells,
        n,
        index,
        -1,
        1,
    ) + guarded_read(cells, n, index, 0, -1) + guarded_read(cells, n, index, 0, 1) + guarded_read(
        cells,
        n,
        index,
        1,
        -1,
    ) + guarded_read(cells, n, index, 1, 0) + guarded_read(cells, n, index, 1, 1)
}

/// The boundary guards say on which border the cell lies.
pub proof fn lemma_guards_match_borders(n: int, index: int)
    requires
        0 < n,
        0 <= index < n * n,
    ensures
        at_top(n, index) <==> row_of(n, index) == 0,
        at_bottom(n, index) <==> row_of(n, index) == n - 1,
        at_left(n, index) <==> col_of(n, index) == 0,
        at_right(n, index) <==> col_of(n, index) == n - 1,
{
    lemma_index_to_position(n, index);
    let row = row_of(n, index);
    assert(row == 0 ==> row * n == 0) by (nonlinear_arith);
    assert(row >= 1 ==> row * n >= n) by (nonlinear_arith)
        requires
            0 < n,
    ;
    assert(row == n - 1 ==> row * n == n * n - n) by (nonlinear_arith);
    assert(row <= n - 2 ==> row * n <= n * n - 2 * n) by (nonlinear_arith)
        requires
            0 < n,
    ;
}

/// A guarded read happens exactly when the cell it aims at exists, and then
/// it reads that cell: its index lies on the board.
pub proof fn lemma_guarded_read_on_board(n: int, index: int, dr: int, dc: int)
    requires
        0 < n,
        0 <= index < n * n,
        -1 <= dr <= 1,
        -1 <= dc <= 1,
    ensures
        reads_offset(n, index, dr, dc) <==> on_board(
            n,
            row_of(n, index) + dr,
            col_of(n, index) + dc,
        ),
        reads_offset(n, index, dr, dc) ==> 0 <= index + dr * n + dc < n * n,
        index + dr * n + dc == cell_index(n, row_of(n, index) + dr, col_of(n, index) + dc),
{
    let row = row_of(n, index);
    let col = col_of(n, index);
    lemma_index_to_position(n, index);
    lemma_guards_match_borders(n, index);
    lemma_offset_index(n, row, col, dr, dc);
    if on_board(n, row + dr, col + dc) {
        lemma_position_to_index(n, row + dr, col + dc);
    }
}

/// No read of the guarded walk leaves the board, whatever its size.
pub proof fn lemma_guarded_reads_in_range(n: int, index: int)
    requires
        0 < n,
        0 <= index < n * n,
    ensures
        forall|dr: int, dc: int|
            -1 <= dr <= 1 && -1 <= dc <= 1 && #[trigger] reads_offset(n, index, dr, dc) ==> 0
                <= index + dr * n + dc < n * n,
{
    assert forall|dr: int, dc: int|
        -1 <= dr <= 1 && -1 <= dc <= 1 && #[trigger] reads_offset(n, index, dr, dc) implies 0
        <= index + dr * n + dc < n * n by {
        lemma_guarded_read_on_board(n, index, dr, dc);
    }
}

/// The guarded walk counts the live cells adjacent to `index`.
pub proof fn lemma_guarded_walk_counts_neighbors(cells: Seq<bool>, n: int, index: int)
    requires
        0 < n,
        0 <= index < n * n,
    ensures
        guarded_neighbors(cells, n, index) == live_neighbors(cells, n, index),
{
    lemma_guarded_read_on_board(n, index, -1, -1);
    lemma_guarded_read_on_board(n, index, -1, 0);
    lemma_guarded_read_on_board(n, index, -1, 1);
    lemma_guarded_read_on_board(n, index, 0, -1);
    lemma_guarded_read_on_board(n, index, 0, 1);
    lemma_guarded_read_on_board(n, index, 1, -1);
    lemma_guarded_read_on_board(n, index, 1, 0);
    lemma_guarded_read_on_board(n, index, 1, 1);
}

/// Whether `other` shares an edge or a corner with `index`.
pub open spec fn adjacent(n: int, index: int, other: int) -> bool {
    &&& other != index
    &&& -1 <= row_of(n, other) - row_of(n, index) <= 1
    &&& -1 <= col_of(n, other) - col_of(n, index) <= 1
}

/// The live cells of the board that are adjacent to `index`.
pub open spec fn live_adjacent_cells(cells: Seq<bool>, n: int, index: int) -> Set<int> {
    Set::new(|other: int| 0 <= other < n * n && adjacent(n, index, other) && cells[other])
}

/// Two cells of the board in the same row and column are one cell.
pub proof fn lemma_position_names_one_cell(n: int, index: int, other: int)
    requires
        0 < n,
        0 <= index < n * n,
        0 <= other < n * n,
        row_of(n, index) == row_of(n, other),
        col_of(n, index) == col_of(n, other),
    ensures
        index == other,
{
    lemma_index_to_position(n, index);
    lemma_index_to_position(n, other);
}

/// Where `(row, col)` is on the board, its index is too, and gives the
/// position back.
pub proof fn lemma_position_if_on_board(n: int, row: int, col: int)
    ensures
        on_board(n, row, col) ==> {
            &&& 0 <= cell_index(n, row, col) < n * n
            &&& row_of(n, cell_index(n, row, col)) == row
            &&& col_of(n, cell_index(n, row, col)) == col
        },
{
    if on_board(n, row, col) {
        lemma_position_to_index(n, row, col);
    }
}

/// Adds the cell at `(row, col)` to `found` where it is alive, and counts it.
proof fn lemma_collect_neighbor(
    found: Set<int>,
    cells: Seq<bool>,
    n: int,
    row: int,
    col: int,
) -> (grown: Set<int>)
    requires
        found.finite(),
        on_board(n, row, col) ==> !found.contains(cell_index(n, row, col)),
    ensures
        grown.finite(),
        grown == if alive_at(cells, n, row, col) {
            found.insert(cell_index(n, row, col))
        } else {
            found
        },
        grown.len() == found.len() + one_if(alive_at(cells, n, row, col)),
{
    if alive_at(cells, n, row, col) {
        found.insert(cell_index(n, row, col))
    } else {
        found
    }
}

/// The count is the number of live cells that share an edge or a corner with
/// the cell; it is never negative and never above the number of cells that
/// exist around it, which is eight at most.
pub proof fn lemma_live_neighbors_is_cardinality(cells: Seq<bool>, n: int, index: int)
    requires
        0 < n,
        0 <= index < n * n,
    ensures
        live_adjacent_cells(cells, n, index).finite(),
        live_neighbors(cells, n, index) == live_adjacent_cells(cells, n, index).len(),
        0 <= live_neighbors(cells, n, index) <= candidate_neighbors(n, index) <= 8,
{
    let row = row_of(n, index);
    let col = col_of(n, index);
    lemma_index_to_position(n, index);
    lemma_position_if_on_board(n, row - 1, col - 1);
    lemma_position_if_on_board(n, row - 1, col);
    lemma_position_if_on_board(n, row - 1, col + 1);
    lemma_position_if_on_board(n, row, col - 1);
    lemma_position_if_on_board(n, row, col + 1);
    lemma_position_if_on_board(n, row + 1, col - 1);
    lemma_position_if_on_board(n, row + 1, col);
    lemma_position_if_on_board(n, row + 1, col + 1);
    let s0 = Set::<int>::empty();
    let s1 = lemma_collect_neighbor(s0, cells, n, row - 1, col - 1);
    let s2 = lemma_collect_neighbor(s1, cells, n, row - 1, col);
    let s3 = lemma_collect_neighbor(s2, cells, n, row - 1, col + 1);
    let s4 = lemma_collect_neighbor(s3, cells, n, row, col - 1);
    let s5 = lemma_collect_neighbor(s4, cells, n, row, col + 1);
    let s6 = lemma_collect_neighbor(s5, cells, n, row + 1, col - 1);
    let s7 = lemma_collect_neighbor(s6, cells, n, row + 1, col);
    let s8 = lemma_collect_neighbor(s7, cells, n, row + 1, col + 1);
    let adjacent_alive = live_adjacent_cells(cells, n, index);
    assert forall|other: int| adjacent_alive.contains(other) implies s8.contains(other) by {
        lemma_index_to_position(n, other);
        let dr = row_of(n, other) - row;
        let dc = col_of(n, other) - col;
        if dr == 0 && dc == 0 {
            lemma_position_names_one_cell(n, index, other);
        } else {
            lemma_position_to_index(n, row + dr, col + dc);
            lemma_position_names_one_cell(n, other, cell_index(n, row + dr, col + dc));
        }
    }
    assert(s8 =~= adjacent_alive);
}

/// A board without live cells has no live neighbours anywhere.
pub proof fn lemma_dead_board_has_no_neighbors(cells: Seq<bool>, n: int, index: int)
    requires
        cells.len() == n * n,
        forall|i: int| 0 <= i < cells.len() ==> !cells[i],
    ensures
        live_neighbors(cells, n, index) == 0,
{
    let row = row_of(n, index);
    let col = col_of(n, index);
    lemma_position_if_on_board(n, row - 1, col - 1);
    lemma_position_if_on_board(n, row - 1, col);
    lemma_position_if_on_board(n, row - 1, col + 1);
    lemma_position_if_on_board(n, row, col - 1);
    lemma_position_if_on_board(n, row, col + 1);
    lemma_position_if_on_board(n, row + 1, col - 1);
    lemma_position_if_on_board(n, row + 1, col);
    lemma_position_if_on_board(n, row + 1, col + 1);
}

/// The cell lies in one of the four corners of the board.
pub open spec fn is_corner(n: int, index: int) -> bool {
    index == 0 || index == n - 1 || index == n * n - n || index == n * n - 1
}

/// The cell lies on a border of the board.
pub open spec fn is_edge(n: int, index: int) -> bool {
    at_top(n, index) || at_bottom(n, index) || at_left(n, index) || at_right(n, index)
}

/// How many cells exist around a cell: three at most in a corner, five at
/// most elsewhere on a border, eight away from the borders. Where the board
/// has more than one cell a side, a corner has three; where it has more than
/// two, the rest of the border has five.
pub proof fn lemma_candidate_neighbors(n: int, index: int)
    requires
        0 < n,
        0 <= index < n * n,
    ensures
        is_corner(n, index) ==> is_edge(n, index) && candidate_neighbors(n, index) <= 3,
        is_corner(n, index) && n >= 2 ==> candidate_neighbors(n, index) == 3,
        is_edge(n, index) && !is_corner(n, index) ==> candidate_neighbors(n, index) <= 5,
        is_edge(n, index) && !is_corner(n, index) && n >= 3 ==> candidate_neighbors(n, index)
            == 5,
        !is_edge(n, index) ==> candidate_neighbors(n, index) == 8,
{
    lemma_index_to_position(n, index);
    lemma_guards_match_borders(n, index);
    lemma_position_to_index(n, 0, 0);
    lemma_position_to_index(n, 0, n - 1);
    lemma_position_to_index(n, n - 1, 0);
    lemma_position_to_index(n, n - 1, n - 1);
    assert((n - 1) * n == n * n - n) by (nonlinear_arith);
    let row = row_of(n, index);
    let col = col_of(n, index);
    if (row == 0 || row == n - 1) && (col == 0 || col == n - 1) {
        lemma_position_names_one_cell(n, index, cell_index(n, row, col));
    }
}

} // verus!
