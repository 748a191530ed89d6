//! Facts about the counting functions of the model, used by the proofs of
//! the board's operations.

use vstd::prelude::*;
use crate::grid::{alive_at, alive_count, indicator, on_grid, rectangular, row_alive, width, with_cell};

verus! {

/// Counting one cell more adds that cell's indicator.
pub proof fn lemma_row_alive_take(row: Seq<bool>, n: int)
    requires
        0 <= n < row.len(),
    ensures
        row_alive(row.take(n + 1)) == row_alive(row.take(n)) + indicator(row[n]),
{
    assert(row.take(n + 1).drop_last() =~= row.take(n));
}

/// Counting one row more adds that row's live cells.
pub proof fn lemma_alive_count_take(grid: Seq<Seq<bool>>, n: int)
    requires
        0 <= n < grid.len(),
    ensures
        alive_count(grid.take(n + 1)) == alive_count(grid.take(n)) + row_alive(grid[n]),
{
    assert(grid.take(n + 1).drop_last() =~= grid.take(n));
}

/// The first `n` cells of a row hold no more live cells than the row.
pub proof fn lemma_row_alive_rest(row: Seq<bool>, n: int)
    requires
        0 <= n <= row.len(),
    ensures
        row_alive(row.take(n)) <= row_alive(row),
    decreases row.len() - n,
{
    if n < row.len() {
        lemma_row_alive_take(row, n);
        lemma_row_alive_rest(row, n + 1);
    } else {
        assert(row.take(n) =~= row);
    }
}

/// The first `n` rows of a grid hold no more live cells than the grid.
pub proof fn lemma_alive_count_rest(grid: Seq<Seq<bool>>, n: int)
    requires
        0 <= n <= grid.len(),
    ensures
        alive_count(grid.take(n)) <= alive_count(grid),
    decreases grid.len() - n,
{
    if n < grid.len() {
        lemma_alive_count_take(grid, n);
        lemma_alive_count_rest(grid, n + 1);
    } else {
        assert(grid.take(n) =~= grid);
    }
}

/// A row holds at most as many live cells as it has cells.
pub proof fn lemma_row_alive_bound(row: Seq<bool>)
    ensures
        row_alive(row) <= row.len(),
    decreases row.len(),
{
    if row.len() > 0 {
        lemma_row_alive_bound(row.drop_last());
    }
}

/// A rectangular grid holds at most as many live cells as it has cells.
pub proof fn lemma_alive_count_bound(grid: Seq<Seq<bool>>)
    requires
        rectangular(grid),
    ensures
        alive_count(grid) <= grid.len() * width(grid),
    decreases grid.len(),
{
    if grid.len() > 0 {
        let rest = grid.drop_last();
        let columns = width(grid);
        assert(rectangular(rest)) by {
            assert forall|r: int| 0 <= r < rest.len() implies (#[trigger] rest[r]).len()
                == rest[0].len() by {
                assert(rest[r] == grid[r]);
                assert(rest[0] == grid[0]);
            }
        }
        lemma_alive_count_bound(rest);
        lemma_row_alive_bound(grid.last());
        if rest.len() > 0 {
            assert(rest[0] == grid[0]);
            assert(width(rest) == columns);
        }
        assert(rest.len() * columns + columns == grid.len() * columns) by (nonlinear_arith)
            requires
                rest.len() + 1 == grid.len(),
        ;
        assert(rest.len() == 0 ==> rest.len() * width(rest) == 0);
    }
}

/// A row without a live cell counts 0, and only such a row does.
pub proof fn lemma_row_alive_zero(row: Seq<bool>)
    ensures
        row_alive(row) == 0 <==> forall|c: int| 0 <= c < row.len() ==> !#[trigger] row[c],
    decreases row.len(),
{
    if row.len() > 0 {
        let rest = row.drop_last();
        lemma_row_alive_zero(rest);
        if row_alive(row) == 0 {
            assert forall|c: int| 0 <= c < row.len() implies !#[trigger] row[c] by {
                if c < rest.len() {
                    assert(rest[c] == row[c]);
                }
            }
        }
        if forall|c: int| 0 <= c < row.len() ==> !#[trigger] row[c] {
            assert forall|c: int| 0 <= c < rest.len() implies !#[trigger] rest[c] by {
                assert(rest[c] == row[c]);
            }
            assert(!row[row.len() - 1]);
        }
    }
}

/// A grid counts 0 live cells exactly when no position holds one.
pub proof fn lemma_alive_count_zero(grid: Seq<Seq<bool>>)
    ensures
        alive_count(grid) == 0 <==> forall|r: int, c: int| !#[trigger] alive_at(grid, r, c),
    decreases grid.len(),
{
    if grid.len() > 0 {
        let rest = grid.drop_last();
        let last = grid.len() - 1;
        lemma_alive_count_zero(rest);
        lemma_row_alive_zero(grid.last());
        if alive_count(grid) == 0 {
            assert forall|r: int, c: int| !#[trigger] alive_at(grid, r, c) by {
                if 0 <= r < rest.len() {
                    assert(rest[r] == grid[r]);
                    assert(!alive_at(rest, r, c));
                }
            }
        }
        if forall|r: int, c: int| !#[trigger] alive_at(grid, r, c) {
            assert forall|r: int, c: int| !#[trigger] alive_at(rest, r, c) by {
                if 0 <= r < rest.len() {
                    assert(rest[r] == grid[r]);
                    assert(!alive_at(grid, r, c));
                }
            }
            assert forall|c: int| 0 <= c < grid.last().len() implies !#[trigger] grid.last()[c] by {
                assert(!alive_at(grid, last, c));
            }
        }
    }
}

/// Setting one cell of a row changes the row's count by the difference of
/// the cell's indicators.
pub proof fn lemma_row_alive_update(row: Seq<bool>, c: int, alive: bool)
    requires
        0 <= c < row.len(),
    ensures
        row_alive(row.update(c, alive)) + indicator(row[c]) == row_alive(row) + indicator(alive),
    decreases row.len(),
{
    let changed = row.update(c, alive);
    if c == row.len() - 1 {
        assert(changed.drop_last() =~= row.drop_last());
    } else {
        lemma_row_alive_update(row.drop_last(), c, alive);
        assert(changed.drop_last() =~= row.drop_last().update(c, alive));
    }
}

/// Replacing one row of a grid changes the grid's count by the difference
/// of the two rows' counts.
pub proof fn lemma_alive_count_update(grid: Seq<Seq<bool>>, r: int, row: Seq<bool>)
    requires
        0 <= r < grid.len(),
    ensures
        alive_count(grid.update(r, row)) + row_alive(grid[r]) == alive_count(grid) + row_alive(row),
    decreases grid.len(),
{
    let changed = grid.update(r, row);
    if r == grid.len() - 1 {
        assert(changed.drop_last() =~= grid.drop_last());
    } else {
        lemma_alive_count_update(grid.drop_last(), r, row);
        assert(changed.drop_last() =~= grid.drop_last().update(r, row));
    }
}

/// Setting one cell changes the grid's count by the difference of the
/// cell's indicators.
pub proof fn lemma_alive_count_with_cell(grid: Seq<Seq<bool>>, r: int, c: int, alive: bool)
    requires
        on_grid(grid, r, c),
    ensures
        alive_count(with_cell(grid, r, c, alive)) + indicator(grid[r][c]) == alive_count(grid)
            + indicator(alive),
{
    lemma_row_alive_update(grid[r], c, alive);
    lemma_alive_count_update(grid, r, grid[r].update(c, alive));
}

} // verus!
