//! The executable board.

use vstd::prelude::*;
use crate::grid::{
    alive_at, alive_count, all_dead, has_shape, indicator, keeps_alive, neighbour_count, next_state,
    rectangular, row_alive, same_shape, seed_target, step, width, with_cell,
};
use crate::lemmas::{
    lemma_alive_count_bound, lemma_alive_count_rest, lemma_alive_count_take,
    lemma_alive_count_with_cell, lemma_alive_count_zero, lemma_row_alive_rest,
    lemma_row_alive_take,
};
use crate::random::{gen_range, thread_rng};

verus! {

/// One position of the board.
#[derive(Clone, Copy, Debug)]
pub struct Cell {
    pub alive: bool,
}

impl Default for Cell {
    /// A dead cell.
    fn default() -> (cell: Cell)
        ensures
            !cell.alive,
    {
        Cell { alive: false }
    }
}

/// Why a board could not be made.
#[derive(Clone, Copy, Debug, PartialEq, Eq, Structural)]
pub enum BoardError {
    /// The percentage of cells to seed is above 100.
    InvalidArgument,
    /// The number of cells does not fit the machine's word.
    TooLarge,
}

/// A rectangular board of cells together with the number of its generation.
#[derive(Debug)]
pub struct Board {
    cells: Vec<Vec<Cell>>,
    generation: usize,
}

impl View for Board {
    type V = Seq<Seq<bool>>;

    /// The states of the cells, row by row.
    closed spec fn view(&self) -> Seq<Seq<bool>> {
        grid_of(self.cells@)
    }
}

/// The states of the given cells, row by row.
spec fn grid_of(cells: Seq<Vec<Cell>>) -> Seq<Seq<bool>> {
    Seq::new(cells.len(), |r: int| Seq::new(cells[r]@.len(), |c: int| cells[r]@[c].alive))
}

impl Board {
    #[verifier::type_invariant]
    spec fn well_formed(&self) -> bool {
        &&& rectangular(self@)
        &&& self@.len() * width(self@) <= usize::MAX
        &&& self.generation >= 1
    }

    /// The number of the generation that the board shows.
    pub closed spec fn spec_generation(&self) -> usize {
        self.generation
    }

    /// The number of the generation that the board shows. A new board shows
    /// generation 1, and every advance adds one.
    #[verifier::when_used_as_spec(spec_generation)]
    pub fn generation(&self) -> (generation: usize)
        ensures
            generation == self.spec_generation(),
            generation >= 1,
    {
        proof {
            use_type_invariant(self);
        }
        self.generation
    }

    /// A board of the given shape at generation 1, seeded at random: all
    /// cells dead but those that `randomized_percentage` percent of the
    /// number of cells, rounded down, draws with repetition have brought to
    /// life (see [`Board::randomize_cells`]).
    pub fn new(rows: usize, columns: usize, randomized_percentage: usize) -> (board: Board)
        requires
            randomized_percentage <= 100,
            rows * columns <= usize::MAX,
        ensures
            board.generation() == 1,
            has_shape(board@, rows as nat, columns as nat),
            alive_count(board@) <= seed_target(
                rows as nat,
                columns as nat,
                randomized_percentage as nat,
            ),
            seed_target(rows as nat, columns as nat, randomized_percentage as nat) == 0 ==> board@
                == all_dead(rows as nat, columns as nat),
            seed_target(rows as nat, columns as nat, randomized_percentage as nat) > 0
                ==> alive_count(board@) >= 1,
    {
        let mut board = Board::dead(rows, columns);
        proof {
            let dead = all_dead(rows as nat, columns as nat);
            lemma_alive_count_zero(dead);
            assert(rows > 0 ==> width(dead) == columns);
            assert(rows * width(dead) == rows * columns) by (nonlinear_arith)
                requires
                    rows == 0 || width(dead) == columns,
            ;
        }
        board.randomize_cells(randomized_percentage);
        board
    }

    /// As [`Board::new`], for any arguments: the board where they describe
    /// one, else the reason why they do not. A percentage above 100 is an
    /// invalid argument, whatever the shape; a shape of more cells than
    /// `usize` can count is too large.
    pub fn try_new(
        rows: usize,
        columns: usize,
        randomized_percentage: usize,
    ) -> (result: Result<Board, BoardError>)
        ensures
            result matches Err(BoardError::InvalidArgument) <==> randomized_percentage > 100,
            result matches Err(BoardError::TooLarge) <==> randomized_percentage <= 100 && rows
                * columns > usize::MAX,
            result matches Ok(board) ==> board.generation() == 1,
            result matches Ok(board) ==> has_shape(board@, rows as nat, columns as nat),
            result matches Ok(board) ==> alive_count(board@) <= seed_target(
                rows as nat,
                columns as nat,
                randomized_percentage as nat,
            ),
            result matches Ok(board) ==> (seed_target(
                rows as nat,
                columns as nat,
                randomized_percentage as nat,
            ) == 0 ==> board@ == all_dead(rows as nat, columns as nat)),
            result matches Ok(board) ==> (seed_target(
                rows as nat,
                columns as nat,
                randomized_percentage as nat,
            ) > 0 ==> alive_count(board@) >= 1),
    {
        if randomized_percentage > 100 {
            return Err(BoardError::InvalidArgument);
        }
        match rows.checked_mul(columns) {
            Some(_) => Ok(Board::new(rows, columns, randomized_percentage)),
            None => Err(BoardError::TooLarge),
        }
    }

    /// A board of the given shape on which every cell is dead, at generation 1.
    pub fn dead(rows: usize, columns: usize) -> (board: Board)
        requires
            rows * columns <= usize::MAX,
        ensures
            board@ == all_dead(rows as nat, columns as nat),
            board.generation() == 1,
    {
        let mut cells: Vec<Vec<Cell>> = Vec::new();
        let mut x: usize = 0;
        while x < rows
            invariant
                x <= rows,
                cells.len() == x,
                forall|r: int| 0 <= r < x ==> (#[trigger] cells@[r]).len() == columns,
                forall|r: int, c: int|
                    0 <= r < x && 0 <= c < columns ==> !(#[trigger] cells@[r]@[c]).alive,
            decreases rows - x,
        {
            let mut row: Vec<Cell> = Vec::new();
            let mut y: usize = 0;
            while y < columns
                invariant
                    y <= columns,
                    row.len() == y,
                    forall|c: int| 0 <= c < y ==> !(#[trigger] row@[c]).alive,
                decreases columns - y,
            {
                row.push(Cell::default());
                y += 1;
            }
            cells.push(row);
            x += 1;
        }
        proof {
            let grid = grid_of(cells@);
            assert(grid =~~= all_dead(rows as nat, columns as nat));
            assert(rows > 0 ==> width(grid) == columns);
        }
        Board { cells, generation: 1 }
    }

    /// Brings cells to life at random: draws a row and a column, each
    /// uniformly and independently of what was drawn before, as many times
    /// as `percentage` percent of the cells, rounded down, and sets each
    /// cell drawn alive. A cell may be drawn more than once, so fewer cells
    /// than draws may come to life.
    pub fn randomize_cells(&mut self, percentage: usize)
        requires
            percentage <= 100,
        ensures
            final(self).generation() == old(self).generation(),
            same_shape(old(self)@, final(self)@),
            keeps_alive(old(self)@, final(self)@),
            alive_count(final(self)@) <= alive_count(old(self)@) + seed_target(
                old(self)@.len(),
                width(old(self)@),
                percentage as nat,
            ),
            seed_target(old(self)@.len(), width(old(self)@), percentage as nat) == 0
                ==> final(self)@ == old(self)@,
            seed_target(old(self)@.len(), width(old(self)@), percentage as nat) > 0
                ==> alive_count(final(self)@) >= 1,
    {
        let row_count = self.count_rows();
        let column_count = self.count_columns();
        proof {
            use_type_invariant(&*self);
        }
        let cells = row_count * column_count;
        assert(cells * percentage <= usize::MAX * 100 && cells * percentage / 100 <= cells)
            by (nonlinear_arith)
            requires
                cells <= usize::MAX,
                percentage <= 100,
        ;
        let randomized_cells_count = ((cells as u128 * percentage as u128) / 100) as usize;
        assert(randomized_cells_count > 0 ==> row_count > 0 && column_count > 0)
            by (nonlinear_arith)
            requires
                randomized_cells_count <= row_count * column_count,
        ;
        let mut rng = thread_rng();
        let mut drawn: usize = 0;
        while drawn < randomized_cells_count
            invariant
                drawn <= randomized_cells_count,
                randomized_cells_count > 0 ==> row_count > 0 && column_count > 0,
                row_count == self@.len(),
                column_count == width(self@),
                self.generation() == old(self).generation(),
                same_shape(old(self)@, self@),
                keeps_alive(old(self)@, self@),
                alive_count(self@) <= alive_count(old(self)@) + drawn,
                drawn == 0 ==> self@ == old(self)@,
                drawn > 0 ==> alive_count(self@) >= 1,
            decreases randomized_cells_count - drawn,
        {
            let x = gen_range(&mut rng, 0, row_count);
            let y = gen_range(&mut rng, 0, column_count);
            let ghost before = self@;
            proof {
                use_type_invariant(&*self);
                lemma_alive_count_with_cell(before, x as int, y as int, true);
                lemma_alive_count_zero(before);
                assert(before[x as int][y as int] ==> alive_at(before, x as int, y as int));
            }
            self.set_cell(x, y, true);
            proof {
                assert(same_shape(old(self)@, self@)) by {
                    assert forall|r: int| 0 <= r < old(self)@.len() implies (#[trigger] old(
                        self,
                    )@[r]).len() == self@[r].len() by {
                        assert(before[r].len() == self@[r].len());
                    }
                }
                assert(keeps_alive(old(self)@, self@)) by {
                    assert forall|r: int, c: int| alive_at(old(self)@, r, c) implies #[trigger]
                        alive_at(self@, r, c) by {
                        assert(alive_at(before, r, c));
                    }
                }
                assert(width(self@) == width(before));
            }
            drawn += 1;
        }
    }

    /// Sets the cell at `(row, column)` to `alive`. A position off the board
    /// leaves the board as it is.
    pub fn set_cell(&mut self, row: usize, column: usize, alive: bool)
        ensures
            final(self)@ == with_cell(old(self)@, row as int, column as int, alive),
            final(self).generation() == old(self).generation(),
    {
        proof {
            use_type_invariant(&*self);
        }
        if row < self.cells.len() && column < self.cells[row].len() {
            let mut cells: Vec<Vec<Cell>> = Vec::new();
            assert(grid_of(cells@).len() == 0);
            std::mem::swap(&mut cells, &mut self.cells);
            cells[row][column].alive = alive;
            proof {
                let next = with_cell(old(self)@, row as int, column as int, alive);
                assert(grid_of(cells@) =~~= next);
                assert(width(next) == width(old(self)@));
            }
            self.cells = cells;
        }
    }

    /// The number of rows.
    pub fn count_rows(&self) -> (rows: usize)
        ensures
            rows == self@.len(),
    {
        self.cells.len()
    }

    /// The number of columns: the length of every row, 0 on a board without rows.
    pub fn count_columns(&self) -> (columns: usize)
        ensures
            columns == width(self@),
            forall|r: int| 0 <= r < self@.len() ==> (#[trigger] self@[r]).len() == columns,
    {
        proof {
            use_type_invariant(self);
        }
        if self.cells.is_empty() {
            return 0;
        }
        self.cells[0].len()
    }

    /// Whether `(row, column)` is a position of the board that holds a live
    /// cell. A position off the board holds none.
    pub fn is_alive(&self, row: usize, column: usize) -> (alive: bool)
        ensures
            alive == alive_at(self@, row as int, column as int),
    {
        if row < self.cells.len() {
            let cells = &self.cells[row];
            column < cells.len() && cells[column].alive
        } else {
            false
        }
    }

    /// The live cells of row `x` at the columns beside `y`, and at `y`
    /// itself where `with_centre` is set.
    fn count_alive_beside(&self, x: usize, y: usize, with_centre: bool) -> (alive: usize)
        ensures
            alive == indicator(alive_at(self@, x as int, y - 1)) + indicator(
                alive_at(self@, x as int, y + 1),
            ) + indicator(with_centre && alive_at(self@, x as int, y as int)),
    {
        assert(x < self@.len() ==> self@[x as int].len() == self.cells@[x as int].len());
        let mut alive: usize = 0;
        if y > 0 && self.is_alive(x, y - 1) {
            alive += 1;
        }
        if y < usize::MAX && self.is_alive(x, y + 1) {
            alive += 1;
        }
        if with_centre && self.is_alive(x, y) {
            alive += 1;
        }
        alive
    }

    /// The number of live cells among the up to eight positions around
    /// `(x, y)`. Positions off the board are absent: nothing wraps around.
    /// The cell at `(x, y)` itself is not counted.
    pub fn count_alive_neighbours(&self, x: usize, y: usize) -> (neighbours: usize)
        ensures
            neighbours == neighbour_count(self@, x as int, y as int),
            neighbours <= 8,
    {
        assert(self@.len() == self.cells.len());
        let mut neighbours: usize = 0;
        if x > 0 {
            neighbours += self.count_alive_beside(x - 1, y, true);
        }
        neighbours += self.count_alive_beside(x, y, false);
        if x < usize::MAX {
            neighbours += self.count_alive_beside(x + 1, y, true);
        }
        neighbours
    }

    /// The number of live cells on the whole board.
    pub fn count_alive_cells(&self) -> (alive: usize)
        ensures
            alive == alive_count(self@),
            alive <= self@.len() * width(self@),
    {
        proof {
            use_type_invariant(self);
            lemma_alive_count_bound(self@);
        }
        let rows = self.cells.len();
        let mut alive: usize = 0;
        let mut x: usize = 0;
        while x < rows
            invariant
                rows == self.cells.len(),
                rows == self@.len(),
                x <= rows,
                alive == alive_count(self@.take(x as int)),
                alive_count(self@) <= usize::MAX,
            decreases rows - x,
        {
            let row = &self.cells[x];
            let columns = row.len();
            let mut y: usize = 0;
            let ghost before = alive;
            proof {
                lemma_alive_count_take(self@, x as int);
                lemma_alive_count_rest(self@, x as int + 1);
            }
            while y < columns
                invariant
                    x < rows,
                    rows == self@.len(),
                    columns == row.len(),
                    columns == self@[x as int].len(),
                    forall|c: int|
                        0 <= c < columns ==> row@[c].alive == #[trigger] self@[x as int][c],
                    y <= columns,
                    alive == before + row_alive(self@[x as int].take(y as int)),
                    before + row_alive(self@[x as int]) <= usize::MAX,
                decreases columns - y,
            {
                proof {
                    lemma_row_alive_take(self@[x as int], y as int);
                    lemma_row_alive_rest(self@[x as int], y as int + 1);
                }
                if row[y].alive {
                    alive += 1;
                }
                y += 1;
            }
            assert(self@[x as int].take(columns as int) =~= self@[x as int]);
            x += 1;
        }
        assert(self@.take(rows as int) =~= self@);
        alive
    }

    /// Advances the board by one generation: every cell takes the state that
    /// the rule gives it from its own state and its live neighbours, all of
    /// them read from the board as it was before the call.
    pub fn next_generation(&mut self)
        requires
            old(self).generation() < usize::MAX,
        ensures
            final(self)@ == step(old(self)@),
            final(self).generation() == old(self).generation() + 1,
    {
        proof {
            use_type_invariant(&*self);
        }
        let rows = self.cells.len();
        let mut cells_copy: Vec<Vec<Cell>> = Vec::new();
        let mut x: usize = 0;
        while x < rows
            invariant
                rows == self.cells.len(),
                x <= rows,
                cells_copy.len() == x,
                forall|r: int|
                    0 <= r < x ==> (#[trigger] cells_copy@[r]).len() == self.cells@[r].len(),
                forall|r: int, c: int|
                    0 <= r < x && 0 <= c < self.cells@[r].len() ==> (
                    #[trigger] cells_copy@[r]@[c]).alive == next_state(
                        self@[r][c],
                        neighbour_count(self@, r, c),
                    ),
            decreases rows - x,
        {
            let columns = self.cells[x].len();
            let mut row: Vec<Cell> = Vec::new();
            let mut y: usize = 0;
            while y < columns
                invariant
                    x < self.cells.len(),
                    columns == self.cells@[x as int].len(),
                    y <= columns,
                    row.len() == y,
                    forall|c: int|
                        0 <= c < y ==> (#[trigger] row@[c]).alive == next_state(
                            self@[x as int][c],
                            neighbour_count(self@, x as int, c),
                        ),
                decreases columns - y,
            {
                let neighbours = self.count_alive_neighbours(x, y);
                let mut cell = self.cells[x][y];
                if neighbours < 2 || neighbours > 3 {
                    cell.alive = false;
                } else if neighbours == 3 {
                    cell.alive = true;
                }
                row.push(cell);
                y += 1;
            }
            cells_copy.push(row);
            x += 1;
        }
        proof {
            let next = grid_of(cells_copy@);
            assert(next =~~= step(self@));
            assert(width(next) == width(self@));
        }
        self.generation += 1;
        self.cells = cells_copy;
    }
}

} // verus!
