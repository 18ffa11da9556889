//! What a renderer is handed: the places of the live cells.

use vstd::prelude::*;
use crate::geometry::{cell_index, col_of, lemma_index_to_position, on_board, row_of};

verus! {

/// Column and row of every live cell of `cells`, in the order of their
/// indices.
pub open spec fn live_positions(cells: Seq<bool>, n: int) -> Seq<(int, int)>
    decreases cells.len(),
{
    if cells.len() == 0 {
        Seq::empty()
    } else {
        let before = live_positions(cells.drop_last(), n);
        let index = cells.len() - 1;
        if cells.last() {
            before.push((col_of(n, index), row_of(n, index)))
        } else {
            before
        }
    }
}

/// Positions held in machine integers, as integers.
pub open spec fn as_positions(held: Seq<(usize, usize)>) -> Seq<(int, int)> {
    Seq::new(held.len(), |k: int| (held[k].0 as int, held[k].1 as int))
}

/// Every position listed is that of a live cell of the board, and every
/// live cell is listed.
pub proof fn lemma_live_positions_are_the_live_cells(cells: Seq<bool>, n: int)
    requires
        0 < n,
        cells.len() <= n * n,
    ensures
        live_positions(cells, n).len() <= cells.len(),
        forall|k: int|
            0 <= k < live_positions(cells, n).len() ==> {
                let (col, row) = #[trigger] live_positions(cells, n)[k];
                &&& on_board(n, row, col)
                &&& cell_index(n, row, col) < cells.len()
                &&& cells[cell_index(n, row, col)]
            },
        forall|i: int|
            0 <= i < cells.len() && #[trigger] cells[i] ==> live_positions(cells, n).contains(
                (col_of(n, i), row_of(n, i)),
            ),
    decreases cells.len(),
{
    if cells.len() > 0 {
        let shorter = cells.drop_last();
        let index = cells.len() - 1;
        let here = (col_of(n, index), row_of(n, index));
        lemma_live_positions_are_the_live_cells(shorter, n);
        lemma_index_to_position(n, index);
        let before = live_positions(shorter, n);
        let listed = live_positions(cells, n);
        assert forall|i: int| 0 <= i < cells.len() && #[trigger] cells[i] implies listed.contains(
            (col_of(n, i), row_of(n, i)),
        ) by {
            if i < index {
                assert(shorter[i]);
                let k = choose|k: int|
                    0 <= k < before.len() && before[k] == (col_of(n, i), row_of(n, i));
                assert(listed[k] == before[k]);
            } else {
                assert(listed[listed.len() - 1] == here);
            }
        }
    }
}

} // verus!
