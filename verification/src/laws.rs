//! Properties of the game that hold for every grid.

use vstd::prelude::*;
use crate::grid::{
    alive_at, alive_count, neighbour_count, on_grid, rectangular, same_shape, step, step_n, width,
    with_cell,
};
use crate::lemmas::lemma_alive_count_zero;

verus! {

/// A cell never has more than eight live neighbours.
pub proof fn law_at_most_eight_neighbours(grid: Seq<Seq<bool>>, r: int, c: int)
    ensures
        neighbour_count(grid, r, c) <= 8,
{
}

/// A cell is not its own neighbour: whatever its state is set to, the number
/// of its live neighbours stays the same.
pub proof fn law_cell_is_not_its_neighbour(grid: Seq<Seq<bool>>, r: int, c: int, alive: bool)
    ensures
        neighbour_count(with_cell(grid, r, c, alive), r, c) == neighbour_count(grid, r, c),
{
    let changed = with_cell(grid, r, c, alive);
    assert forall|i: int, j: int| !(i == r && j == c) implies alive_at(changed, i, j) == alive_at(
        grid,
        i,
        j,
    ) by {}
}

/// Nothing wraps around: a grid whose live cells all lie off the eight
/// positions around `(r, c)` gives that cell no live neighbour, however far
/// the grid reaches.
pub proof fn law_only_adjacent_cells_count(grid: Seq<Seq<bool>>, r: int, c: int)
    requires
        forall|i: int, j: int|
            r - 1 <= i <= r + 1 && c - 1 <= j <= c + 1 && !(i == r && j == c) ==> !alive_at(
                grid,
                i,
                j,
            ),
    ensures
        neighbour_count(grid, r, c) == 0,
{
}

/// A cell with exactly two live neighbours keeps its state in the next
/// generation.
pub proof fn law_two_neighbours_keep_state(grid: Seq<Seq<bool>>, r: int, c: int)
    requires
        on_grid(grid, r, c),
        neighbour_count(grid, r, c) == 2,
    ensures
        step(grid)[r][c] == grid[r][c],
{
}

/// A cell with exactly three live neighbours is alive in the next
/// generation, and one with fewer than two or more than three is dead.
pub proof fn law_birth_and_death(grid: Seq<Seq<bool>>, r: int, c: int)
    requires
        on_grid(grid, r, c),
    ensures
        neighbour_count(grid, r, c) == 3 ==> step(grid)[r][c],
        neighbour_count(grid, r, c) < 2 || neighbour_count(grid, r, c) > 3 ==> !step(grid)[r][c],
{
}

/// A generation keeps the shape of the grid: the number of rows and the
/// length of every row.
pub proof fn law_step_keeps_shape(grid: Seq<Seq<bool>>)
    ensures
        same_shape(grid, step(grid)),
        width(step(grid)) == width(grid),
        rectangular(grid) ==> rectangular(step(grid)),
{
}

/// A grid without a live cell is its own next generation.
pub proof fn law_dead_grid_stays_dead(grid: Seq<Seq<bool>>)
    requires
        alive_count(grid) == 0,
    ensures
        step(grid) == grid,
        alive_count(step(grid)) == 0,
{
    lemma_alive_count_zero(grid);
    assert forall|r: int, c: int| on_grid(grid, r, c) implies #[trigger] step(grid)[r][c]
        == grid[r][c] by {
        assert(!alive_at(grid, r, c));
        assert(!alive_at(grid, r - 1, c - 1));
        assert(!alive_at(grid, r - 1, c));
        assert(!alive_at(grid, r - 1, c + 1));
        assert(!alive_at(grid, r, c - 1));
        assert(!alive_at(grid, r, c + 1));
        assert(!alive_at(grid, r + 1, c - 1));
        assert(!alive_at(grid, r + 1, c));
        assert(!alive_at(grid, r + 1, c + 1));
    }
    assert forall|r: int| 0 <= r < grid.len() implies #[trigger] step(grid)[r] == grid[r] by {
        assert forall|c: int| 0 <= c < grid[r].len() implies #[trigger] step(grid)[r][c]
            == grid[r][c] by {
            assert(on_grid(grid, r, c));
        }
        assert(step(grid)[r] =~= grid[r]);
    }
    assert(step(grid) =~= grid);
}

/// A grid that is its own next generation stays as it is after any number
/// of generations.
pub proof fn law_still_life_stays(grid: Seq<Seq<bool>>, generations: nat)
    requires
        step(grid) == grid,
    ensures
        step_n(grid, generations) == grid,
    decreases generations,
{
    if generations > 0 {
        law_still_life_stays(grid, (generations - 1) as nat);
    }
}

/// A grid without a live cell stays without one for ever.
pub proof fn law_dead_grid_stays_dead_forever(grid: Seq<Seq<bool>>, generations: nat)
    requires
        alive_count(grid) == 0,
    ensures
        step_n(grid, generations) == grid,
        alive_count(step_n(grid, generations)) == 0,
{
    law_dead_grid_stays_dead(grid);
    law_still_life_stays(grid, generations);
}

/// The block is a still life: a grid whose live cells are the four cells of
/// the square at the top left corner, and no others, stays as it is after
/// any number of generations.
pub proof fn law_block_is_still_life(grid: Seq<Seq<bool>>, generations: nat)
    requires
        forall|r: int, c: int| #[trigger] alive_at(grid, r, c) <==> 0 <= r <= 1 && 0 <= c <= 1,
    ensures
        step_n(grid, generations) == grid,
{
    assert forall|r: int| 0 <= r < grid.len() implies #[trigger] step(grid)[r] == grid[r] by {
        assert forall|c: int| 0 <= c < grid[r].len() implies #[trigger] step(grid)[r][c]
            == grid[r][c] by {
            assert(grid[r][c] == alive_at(grid, r, c));
        }
        assert(step(grid)[r] =~= grid[r]);
    }
    assert(step(grid) =~= grid);
    law_still_life_stays(grid, generations);
}

/// A single live cell in the top left corner has no live neighbour, and the
/// next generation has no live cell at all.
pub proof fn law_lone_corner_cell_dies(grid: Seq<Seq<bool>>)
    requires
        forall|r: int, c: int| #[trigger] alive_at(grid, r, c) <==> r == 0 && c == 0,
    ensures
        neighbour_count(grid, 0, 0) == 0,
        alive_count(step(grid)) == 0,
{
    let next = step(grid);
    assert forall|r: int, c: int| !#[trigger] alive_at(next, r, c) by {
        if on_grid(next, r, c) {
            assert(grid[r][c] == alive_at(grid, r, c));
        }
    }
    lemma_alive_count_zero(next);
}

} // verus!
