//! The mathematical model: a grid is a sequence of rows, each a sequence of
//! booleans (`true` for a live cell).

use vstd::prelude::*;

verus! {

/// Every row is as long as the first one.
pub open spec fn rectangular(grid: Seq<Seq<bool>>) -> bool {
    forall|r: int| 0 <= r < grid.len() ==> (#[trigger] grid[r]).len() == grid[0].len()
}

/// The number of columns: the length of the first row, or 0 without rows.
pub open spec fn width(grid: Seq<Seq<bool>>) -> nat {
    if grid.len() == 0 {
        0
    } else {
        grid[0].len()
    }
}

/// A grid of the given shape without any live cell.
pub open spec fn all_dead(rows: nat, columns: nat) -> Seq<Seq<bool>> {
    Seq::new(rows, |r: int| Seq::new(columns, |c: int| false))
}

/// The number of draws that seed a grid of the given shape: the given
/// percentage of its cells, rounded down.
pub open spec fn seed_target(rows: nat, columns: nat, percentage: nat) -> nat {
    rows * columns * percentage / 100
}

/// Whether the grid has the given number of rows, each of the given length.
pub open spec fn has_shape(grid: Seq<Seq<bool>>, rows: nat, columns: nat) -> bool {
    grid.len() == rows && forall|r: int| 0 <= r < rows ==> (#[trigger] grid[r]).len() == columns
}

/// Whether two grids have the same number of rows, and row by row the same
/// length.
pub open spec fn same_shape(a: Seq<Seq<bool>>, b: Seq<Seq<bool>>) -> bool {
    a.len() == b.len() && forall|r: int|
        #![trigger a[r]]
        #![trigger b[r]]
        0 <= r < a.len() ==> a[r].len() == b[r].len()
}

/// Whether every live cell of `a` is a live cell of `b`.
pub open spec fn keeps_alive(a: Seq<Seq<bool>>, b: Seq<Seq<bool>>) -> bool {
    forall|r: int, c: int| alive_at(a, r, c) ==> #[trigger] alive_at(b, r, c)
}

/// Whether `(r, c)` is a position of the grid.
pub open spec fn on_grid(grid: Seq<Seq<bool>>, r: int, c: int) -> bool {
    0 <= r < grid.len() && 0 <= c < grid[r].len()
}

/// The grid with the cell at `(r, c)` set to `alive`; the grid itself where
/// `(r, c)` is no position of it.
pub open spec fn with_cell(grid: Seq<Seq<bool>>, r: int, c: int, alive: bool) -> Seq<Seq<bool>> {
    if on_grid(grid, r, c) {
        grid.update(r, grid[r].update(c, alive))
    } else {
        grid
    }
}

/// Whether position `(r, c)` lies on the grid and holds a live cell.
/// Positions off the grid hold nothing: the edges do not wrap around.
pub open spec fn alive_at(grid: Seq<Seq<bool>>, r: int, c: int) -> bool {
    on_grid(grid, r, c) && grid[r][c]
}

/// 1 for `true`, 0 for `false`.
pub open spec fn indicator(b: bool) -> nat {
    if b {
        1
    } else {
        0
    }
}

/// The number of live cells among the eight positions around `(r, c)`.
/// The position `(r, c)` itself is not among them.
pub open spec fn neighbour_count(grid: Seq<Seq<bool>>, r: int, c: int) -> nat {
    indicator(alive_at(grid, r - 1, c - 1)) + indicator(alive_at(grid, r - 1, c)) + indicator(
        alive_at(grid, r - 1, c + 1),
    ) + indicator(alive_at(grid, r, c - 1)) + indicator(alive_at(grid, r, c + 1)) + indicator(
        alive_at(grid, r + 1, c - 1),
    ) + indicator(alive_at(grid, r + 1, c)) + indicator(alive_at(grid, r + 1, c + 1))
}

/// The rule of the game: the next state of a cell that is `alive` now and
/// has `neighbours` live neighbours.
pub open spec fn next_state(alive: bool, neighbours: nat) -> bool {
    if neighbours < 2 || neighbours > 3 {
        false
    } else if neighbours == 3 {
        true
    } else {
        alive
    }
}

/// The grid one generation later: every cell takes its next state, all of
/// them computed from the grid as it is now.
pub open spec fn step(grid: Seq<Seq<bool>>) -> Seq<Seq<bool>> {
    Seq::new(
        grid.len(),
        |r: int|
            Seq::new(
                grid[r].len(),
                |c: int| next_state(grid[r][c], neighbour_count(grid, r, c)),
            ),
    )
}

/// The grid after `n` generations.
pub open spec fn step_n(grid: Seq<Seq<bool>>, n: nat) -> Seq<Seq<bool>>
    decreases n,
{
    if n == 0 {
        grid
    } else {
        step(step_n(grid, (n - 1) as nat))
    }
}

/// The number of live cells in one row.
pub open spec fn row_alive(row: Seq<bool>) -> nat
    decreases row.len(),
{
    if row.len() == 0 {
        0
    } else {
        row_alive(row.drop_last()) + indicator(row.last())
    }
}

/// The number of live cells on the whole grid.
pub open spec fn alive_count(grid: Seq<Seq<bool>>) -> nat
    decreases grid.len(),
{
    if grid.len() == 0 {
        0
    } else {
        alive_count(grid.drop_last()) + row_alive(grid.last())
    }
}

} // verus!
