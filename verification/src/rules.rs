//! The update rule, for one cell and for a whole board.

use vstd::prelude::*;
use crate::neighbors::{lemma_dead_board_has_no_neighbors, live_neighbors};

verus! {

/// Fate of one cell: a live cell stays alive with two or three live
/// neighbours, a dead cell comes alive with exactly three.
pub open spec fn next_state(alive: bool, neighbors: int) -> bool {
    if alive {
        neighbors == 2 || neighbors == 3
    } else {
        neighbors == 3
    }
}

/// The board one generation after `cells`: every cell meets its fate at once,
/// judged by the cells of `cells` alone.
pub open spec fn next_generation(cells: Seq<bool>, n: int) -> Seq<bool> {
    Seq::new(cells.len(), |i: int| next_state(cells[i], live_neighbors(cells, n, i)))
}

/// The board `steps` generations after `cells`.
pub open spec fn generations(cells: Seq<bool>, n: int, steps: nat) -> Seq<bool>
    decreases steps,
{
    if steps == 0 {
        cells
    } else {
        next_generation(generations(cells, n, (steps - 1) as nat), n)
    }
}

/// Decides whether a cell is alive in the next generation.
pub fn cell_fate(is_alive: bool, neighbor_count: usize) -> (next: bool)
    ensures
        next == next_state(is_alive, neighbor_count as int),
{
    if is_alive {
        if neighbor_count < 2 || neighbor_count > 3 {
            false
        } else {
            true
        }
    } else {
        neighbor_count == 3
    }
}

/// No cell of the board is alive.
pub open spec fn all_dead(cells: Seq<bool>) -> bool {
    forall|i: int| 0 <= i < cells.len() ==> !cells[i]
}

/// One generation keeps the size of the board and gives every cell the fate
/// that the rule names for it.
pub proof fn lemma_every_cell_meets_its_fate(cells: Seq<bool>, n: int, index: int)
    requires
        0 <= index < cells.len(),
    ensures
        next_generation(cells, n).len() == cells.len(),
        next_generation(cells, n)[index] == next_state(
            cells[index],
            live_neighbors(cells, n, index),
        ),
{
}

/// A dead cell comes alive with exactly three live neighbours and with no
/// other number.
pub proof fn lemma_birth_takes_three(cells: Seq<bool>, n: int, index: int)
    requires
        0 <= index < cells.len(),
        !cells[index],
    ensures
        next_generation(cells, n)[index] <==> live_neighbors(cells, n, index) == 3,
{
}

/// A live cell stays alive with two or three live neighbours and with no
/// other number.
pub proof fn lemma_survival_takes_two_or_three(cells: Seq<bool>, n: int, index: int)
    requires
        0 <= index < cells.len(),
        cells[index],
    ensures
        next_generation(cells, n)[index] <==> 2 <= live_neighbors(cells, n, index) <= 3,
{
}

/// A live cell without live neighbours is dead one generation later.
pub proof fn lemma_lonely_cell_dies(cells: Seq<bool>, n: int, index: int)
    requires
        0 <= index < cells.len(),
        cells[index],
        live_neighbors(cells, n, index) == 0,
    ensures
        !next_generation(cells, n)[index],
{
}

/// A board without live cells has none after any number of generations.
pub proof fn lemma_dead_board_stays_dead(cells: Seq<bool>, n: int, steps: nat)
    requires
        cells.len() == n * n,
        all_dead(cells),
    ensures
        generations(cells, n, steps) == cells,
    decreases steps,
{
    if steps > 0 {
        lemma_dead_board_stays_dead(cells, n, (steps - 1) as nat);
        assert forall|i: int| 0 <= i < cells.len() implies next_generation(cells, n)[i]
            == cells[i] by {
            lemma_dead_board_has_no_neighbors(cells, n, i);
        }
        assert(next_generation(cells, n) =~= cells);
    }
}

} // verus!
