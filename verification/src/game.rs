//! The game: a square board of cells and the operations that advance it.

use vstd::prelude::*;
use crate::display::{as_positions, live_positions};
use crate::error::GridError;
use crate::neighbors::{
    guarded_neighbors, lemma_guarded_read_on_board, lemma_guarded_walk_counts_neighbors,
    live_neighbors,
};
use crate::random::{draw_many, draws_below, seed_cells, seeded_cells};
use crate::rules::{cell_fate, next_generation, next_state};

verus! {

/// What a game is, seen from outside.
pub struct Board {
    /// Cells per row, and rows.
    pub dimension: nat,
    /// The generation on display, row by row.
    pub current: Seq<bool>,
    /// The generation in the making.
    pub next: Seq<bool>,
}

impl Board {
    /// Both generations fill a square of side `dimension`, which is not zero.
    pub open spec fn wf(self) -> bool {
        &&& self.dimension > 0
        &&& self.current.len() == self.dimension * self.dimension
        &&& self.next.len() == self.current.len()
    }
}

/// Cells per row of the board that `GameOfLife::new` makes.
pub const CELL_COUNT_ROW: usize = 50;

/// Chance that a cell of that board starts alive: `CHANCE_NUMERATOR` in
/// `CHANCE_DENOMINATOR`.
pub const CHANCE_NUMERATOR: u32 = 1;

/// See `CHANCE_NUMERATOR`.
pub const CHANCE_DENOMINATOR: u32 = 5;

/// A game of life on a square board that does not wrap around.
#[derive(Debug)]
pub struct GameOfLife {
    cell_count_row: usize,
    cell_state_current: Vec<bool>,
    cell_state_next: Vec<bool>,
}

impl View for GameOfLife {
    type V = Board;

    closed spec fn view(&self) -> Board {
        Board {
            dimension: self.cell_count_row as nat,
            current: self.cell_state_current@,
            next: self.cell_state_next@,
        }
    }
}

impl GameOfLife {
    #[verifier::type_invariant]
    spec fn well_formed(self) -> bool {
        self@.wf()
    }

    /// Makes the board of `CELL_COUNT_ROW` cells a side and brings each cell
    /// to life by chance, one time in five.
    pub fn new() -> (game: GameOfLife)
        ensures
            game@.wf(),
            game@.dimension == CELL_COUNT_ROW,
            game@.next == game@.current,
            exists|draws: Seq<u32>|
                {
                    &&& draws.len() == CELL_COUNT_ROW * CELL_COUNT_ROW
                    &&& draws_below(draws, CHANCE_DENOMINATOR)
                    &&& game@.current == #[trigger] seeded_cells(draws, CHANCE_NUMERATOR)
                },
    {
        let cell_count = CELL_COUNT_ROW * CELL_COUNT_ROW;
        Self::scattered(CELL_COUNT_ROW, cell_count, CHANCE_NUMERATOR, CHANCE_DENOMINATOR)
    }

    /// Makes a board of `cell_count_row` cells a side and brings each cell to
    /// life by chance, `numerator` times in `denominator`.
    ///
    /// The side must not be zero and the board must fit in memory. Never
    /// and always are certain: with a `numerator` of zero every cell is
    /// dead, with one that reaches `denominator` every cell is alive.
    pub fn random(cell_count_row: usize, numerator: u32, denominator: u32) -> (made: Result<
        GameOfLife,
        GridError,
    >)
        requires
            0 < denominator,
        ensures
            made is Ok <==> 0 < cell_count_row && cell_count_row * cell_count_row <= usize::MAX,
            made matches Ok(game) ==> {
                &&& game@.wf()
                &&& game@.dimension == cell_count_row
                &&& game@.next == game@.current
                &&& exists|draws: Seq<u32>|
                    {
                        &&& draws.len() == cell_count_row * cell_count_row
                        &&& draws_below(draws, denominator)
                        &&& game@.current == #[trigger] seeded_cells(draws, numerator)
                    }
                &&& numerator == 0 ==> forall|i: int|
                    0 <= i < game@.current.len() ==> !game@.current[i]
                &&& numerator >= denominator ==> forall|i: int|
                    0 <= i < game@.current.len() ==> game@.current[i]
            },
            made matches Err(error) ==> error == GridError::InvalidDimension,
    {
        if cell_count_row == 0 {
            return Err(GridError::InvalidDimension);
        }
        match cell_count_row.checked_mul(cell_count_row) {
            Some(cell_count) => Ok(
                Self::scattered(cell_count_row, cell_count, numerator, denominator),
            ),
            None => Err(GridError::InvalidDimension),
        }
    }

    /// Draws one number for each cell and seeds the board from the draws.
    fn scattered(cell_count_row: usize, cell_count: usize, numerator: u32, denominator: u32) -> (game:
        GameOfLife)
        requires
            0 < cell_count_row,
            cell_count == cell_count_row * cell_count_row,
            0 < denominator,
        ensures
            game@.wf(),
            game@.dimension == cell_count_row,
            game@.next == game@.current,
            exists|draws: Seq<u32>|
                {
                    &&& draws.len() == cell_count
                    &&& draws_below(draws, denominator)
                    &&& game@.current == #[trigger] seeded_cells(draws, numerator)
                },
    {
        let draws = draw_many(cell_count, denominator);
        let cell_state_current = seed_cells(draws.as_slice(), numerator);
        let cell_state_next = cell_state_current.clone();
        GameOfLife { cell_count_row, cell_state_current, cell_state_next }
    }

    /// Makes a game whose first generation is `cells`, row by row.
    ///
    /// The cells must fill a square of side `cell_count_row`, and the side
    /// must not be zero.
    pub fn from_cells(cell_count_row: usize, cells: Vec<bool>) -> (made: Result<
        GameOfLife,
        GridError,
    >)
        ensures
            made is Ok <==> cell_count_row > 0 && cells@.len() == cell_count_row * cell_count_row,
            made matches Ok(game) ==> {
                &&& game@.wf()
                &&& game@.dimension == cell_count_row
                &&& game@.current == cells@
                &&& game@.next == cells@
            },
            made matches Err(error) ==> error == GridError::InvalidDimension,
    {
        if cell_count_row == 0 {
            return Err(GridError::InvalidDimension);
        }
        let given = cells.len();
        match cell_count_row.checked_mul(cell_count_row) {
            Some(cell_count) => {
                if given != cell_count {
                    return Err(GridError::InvalidDimension);
                }
            },
            None => {
                return Err(GridError::InvalidDimension);
            },
        }
        let cell_state_next = cells.clone();
        Ok(GameOfLife { cell_count_row, cell_state_next, cell_state_current: cells })
    }

    /// Cells per row.
    pub fn dimension(&self) -> (n: usize)
        ensures
            n == self@.dimension,
            self@.wf(),
    {
        proof {
            use_type_invariant(self);
        }
        self.cell_count_row
    }

    /// The generation on display, row by row.
    pub fn cells(&self) -> (cells: &Vec<bool>)
        ensures
            cells@ == self@.current,
    {
        &self.cell_state_current
    }

    /// Column and row of every live cell on display, in the order of their
    /// indices: what a renderer needs to place one mark per live cell.
    pub fn live_cells(&self) -> (positions: Vec<(usize, usize)>)
        ensures
            as_positions(positions@) == live_positions(self@.current, self@.dimension as int),
    {
        proof {
            use_type_invariant(self);
        }
        let n = self.cell_count_row;
        let mut positions: Vec<(usize, usize)> = Vec::new();
        for index in 0..self.cell_state_current.len()
            invariant
                0 < n == self.cell_count_row,
                as_positions(positions@) == live_positions(
                    self.cell_state_current@.take(index as int),
                    n as int,
                ),
        {
            let ghost seen = self.cell_state_current@.take(index as int);
            let ghost grown = self.cell_state_current@.take(index + 1);
            assert(grown.drop_last() == seen);
            if self.cell_state_current[index] {
                positions.push((index % n, index / n));
            }
        }
        assert(self.cell_state_current@.take(self.cell_state_current@.len() as int)
            == self.cell_state_current@);
        positions
    }

    /// Whether the cell at `index` is alive in the generation on display.
    pub fn get(&self, index: usize) -> (found: Result<bool, GridError>)
        ensures
            found is Ok <==> index < self@.current.len(),
            found matches Ok(alive) ==> alive == self@.current[index as int],
            found matches Err(error) ==> error == GridError::OutOfRange,
    {
        if index < self.cell_state_current.len() {
            Ok(self.cell_state_current[index])
        } else {
            Err(GridError::OutOfRange)
        }
    }

    /// Writes one cell of the generation in the making; the generation on
    /// display does not change.
    pub fn set_next(&mut self, index: usize, value: bool) -> (written: Result<(), GridError>)
        ensures
            final(self)@.wf(),
            written is Ok <==> index < old(self)@.next.len(),
            written is Ok ==> final(self)@ == (Board {
                next: old(self)@.next.update(index as int, value),
                ..old(self)@
            }),
            written matches Err(error) ==> error == GridError::OutOfRange && final(self)@ == old(
                self,
            )@,
    {
        proof {
            use_type_invariant(&*self);
        }
        if index < self.cell_state_next.len() {
            self.cell_state_next[index] = value;
            Ok(())
        } else {
            Err(GridError::OutOfRange)
        }
    }

    /// Puts the generation in the making on display.
    pub fn commit(&mut self)
        ensures
            final(self)@.wf(),
            final(self)@ == (Board { current: old(self)@.next, ..old(self)@ }),
    {
        proof {
            use_type_invariant(&*self);
        }
        self.cell_state_current = self.cell_state_next.clone();
    }

    /// Advances the game by one generation.
    ///
    /// Every cell is judged by the generation on display before the call;
    /// the new generation goes on display whole.
    pub fn update(&mut self)
        ensures
            final(self)@.wf(),
            final(self)@.dimension == old(self)@.dimension,
            final(self)@.current == next_generation(
                old(self)@.current,
                old(self)@.dimension as int,
            ),
            final(self)@.next == final(self)@.current,
    {
        proof {
            use_type_invariant(&*self);
        }
        let cell_count = self.cell_state_current.len();
        let mut index: usize = 0;
        while index < cell_count
            invariant
                self.well_formed(),
                self.cell_count_row == old(self).cell_count_row,
                self.cell_state_current@ == old(self).cell_state_current@,
                cell_count == self.cell_state_current@.len(),
                index <= cell_count,
                forall|i: int|
                    0 <= i < index ==> self.cell_state_next@[i] == next_state(
                        #[trigger] self.cell_state_current@[i],
                        live_neighbors(self.cell_state_current@, self.cell_count_row as int, i),
                    ),
            decreases cell_count - index,
        {
            let is_alive = self.cell_state_current[index];
            let neighbor_count = self.count_neighbors(index);
            let fate = cell_fate(is_alive, neighbor_count);
            self.cell_state_next[index] = fate;
            index += 1;
        }
        self.commit();
    }

    /// Counts the live cells among the up to eight cells adjacent to `index`.
    ///
    /// Cells beyond a border do not exist: the board does not wrap around.
    pub fn count_neighbors(&self, index: usize) -> (neighbors: usize)
        requires
            index < self@.current.len(),
        ensures
            neighbors == live_neighbors(self@.current, self@.dimension as int, index as int),
            neighbors <= 8,
    {
        let n = self.cell_count_row;
        let total = self.cell_state_current.len();
        proof {
            use_type_invariant(self);
            let (m, i) = (n as int, index as int);
            lemma_guarded_read_on_board(m, i, -1, -1);
            lemma_guarded_read_on_board(m, i, -1, 0);
            lemma_guarded_read_on_board(m, i, -1, 1);
            lemma_guarded_read_on_board(m, i, 0, -1);
            lemma_guarded_read_on_board(m, i, 0, 1);
            lemma_guarded_read_on_board(m, i, 1, -1);
            lemma_guarded_read_on_board(m, i, 1, 0);
            lemma_guarded_read_on_board(m, i, 1, 1);
            lemma_guarded_walk_counts_neighbors(self.cell_state_current@, m, i);
        }
        let mut neighbors: usize = 0;
        let is_at_top = index < n;
        let is_at_left = index % n == 0;
        let is_at_right = index % n == n - 1;
        let is_at_bottom = index >= total - n;

        // upper left
        if !is_at_top && !is_at_left && self.cell_state_current[index - n - 1] {
            neighbors += 1;
        }
        // upper
        if !is_at_top && self.cell_state_current[index - n] {
            neighbors += 1;
        }
        // upper right
        if !is_at_top && !is_at_right && self.cell_state_current[index - n + 1] {
            neighbors += 1;
        }
        // left
        if !is_at_left && self.cell_state_current[index - 1] {
            neighbors += 1;
        }
        // right
        if !is_at_right && self.cell_state_current[index + 1] {
            neighbors += 1;
        }
        // lower left
        if !is_at_bottom && !is_at_left && self.cell_state_current[index + n - 1] {
            neighbors += 1;
        }
        // lower
        if !is_at_bottom && self.cell_state_current[index + n] {
            neighbors += 1;
        }
        // lower right
        if !is_at_bottom && !is_at_right && self.cell_state_current[index + n + 1] {
            neighbors += 1;
        }
        assert(neighbors == guarded_neighbors(self.cell_state_current@, n as int, index as int));
        neighbors
    }
}

} // verus!
