use vstd::prelude::*;

use crate::cell::{Cell, CellState};
use crate::universe::{dead_grid, is_alive, is_grid, neighbor_count, next_generation};

verus! {

/// The grid on which exactly the 2x2 block with top-left corner `(r0, c0)` is alive.
pub open spec fn block_grid(rows: int, cols: int, r0: int, c0: int) -> Seq<Seq<Cell>> {
    Seq::new(
        rows as nat,
        |r: int|
            Seq::new(
                cols as nat,
                |c: int|
                    Cell {
                        state: if r0 <= r <= r0 + 1 && c0 <= c <= c0 + 1 {
                            CellState::Alive
                        } else {
                            CellState::Dead
                        },
                    },
            ),
    )
}

/// The grid on which exactly the three cells `(r0, c0 - 1)`, `(r0, c0)`,
/// `(r0, c0 + 1)` are alive: a horizontal blinker centered on `(r0, c0)`.
pub open spec fn horizontal_blinker(rows: int, cols: int, r0: int, c0: int) -> Seq<Seq<Cell>> {
    Seq::new(
        rows as nat,
        |r: int|
            Seq::new(
                cols as nat,
                |c: int|
                    Cell {
                        state: if r == r0 && c0 - 1 <= c <= c0 + 1 {
                            CellState::Alive
                        } else {
                            CellState::Dead
                        },
                    },
            ),
    )
}

/// The grid on which exactly the three cells `(r0 - 1, c0)`, `(r0, c0)`,
/// `(r0 + 1, c0)` are alive: a vertical blinker centered on `(r0, c0)`.
pub open spec fn vertical_blinker(rows: int, cols: int, r0: int, c0: int) -> Seq<Seq<Cell>> {
    Seq::new(
        rows as nat,
        |r: int|
            Seq::new(
                cols as nat,
                |c: int|
                    Cell {
                        state: if c == c0 && r0 - 1 <= r <= r0 + 1 {
                            CellState::Alive
                        } else {
                            CellState::Dead
                        },
                    },
            ),
    )
}

/// Nothing comes alive on an empty grid: its next generation is empty too.
pub proof fn lemma_dead_grid_stays_dead(rows: int, cols: int)
    requires
        0 <= rows,
        0 <= cols,
    ensures
        next_generation(dead_grid(rows, cols), rows, cols) == dead_grid(rows, cols),
{
    let g = dead_grid(rows, cols);
    let n = next_generation(g, rows, cols);
    assert forall|r: int, c: int| 0 <= r < rows && 0 <= c < cols implies n[r][c] == g[r][c] by {
        assert(neighbor_count(g, r, c) == 0);
    }
    assert(n =~~= g);
}

/// A cell none of whose neighbors is alive is dead in the next generation.
pub proof fn lemma_isolated_cell_dies(g: Seq<Seq<Cell>>, rows: int, cols: int, r: int, c: int)
    requires
        is_grid(g, rows, cols),
        0 <= r < rows,
        0 <= c < cols,
        forall|rr: int, cc: int|
            r - 1 <= rr <= r + 1 && c - 1 <= cc <= c + 1 && !(rr == r && cc == c)
                ==> !#[trigger] is_alive(g, rr, cc),
    ensures
        next_generation(g, rows, cols)[r][c].state == CellState::Dead,
{
    assert(neighbor_count(g, r, c) == 0);
}

/// A 2x2 block alone on the grid is a still life, also against an edge or a
/// corner: the next generation is the same grid.
pub proof fn lemma_block_is_still_life(rows: int, cols: int, r0: int, c0: int)
    requires
        0 <= r0 && r0 + 1 < rows,
        0 <= c0 && c0 + 1 < cols,
    ensures
        next_generation(block_grid(rows, cols, r0, c0), rows, cols) == block_grid(rows, cols, r0, c0),
{
    let g = block_grid(rows, cols, r0, c0);
    let n = next_generation(g, rows, cols);
    assert forall|r: int, c: int| 0 <= r < rows && 0 <= c < cols implies n[r][c] == g[r][c] by {
        let k = neighbor_count(g, r, c);
        if r0 <= r <= r0 + 1 && c0 <= c <= c0 + 1 {
            assert(k == 3);
        } else {
            assert(k <= 2);
        }
    }
    assert(n =~~= g);
}

/// A blinker away from the edges turns from horizontal to vertical and back:
/// it changes on the first tick and is back as it was after the second.
pub proof fn lemma_blinker_has_period_two(rows: int, cols: int, r0: int, c0: int)
    requires
        1 <= r0 && r0 + 1 < rows,
        1 <= c0 && c0 + 1 < cols,
    ensures
        next_generation(horizontal_blinker(rows, cols, r0, c0), rows, cols) == vertical_blinker(
            rows,
            cols,
            r0,
            c0,
        ),
        next_generation(vertical_blinker(rows, cols, r0, c0), rows, cols) == horizontal_blinker(
            rows,
            cols,
            r0,
            c0,
        ),
        horizontal_blinker(rows, cols, r0, c0) != vertical_blinker(rows, cols, r0, c0),
        next_generation(
            next_generation(horizontal_blinker(rows, cols, r0, c0), rows, cols),
            rows,
            cols,
        ) == horizontal_blinker(rows, cols, r0, c0),
{
    let h = horizontal_blinker(rows, cols, r0, c0);
    let v = vertical_blinker(rows, cols, r0, c0);
    let nh = next_generation(h, rows, cols);
    let nv = next_generation(v, rows, cols);
    assert forall|r: int, c: int| 0 <= r < rows && 0 <= c < cols implies nh[r][c] == v[r][c] by {
        let k = neighbor_count(h, r, c);
        if c == c0 && r0 - 1 <= r <= r0 + 1 {
            if r == r0 {
                assert(k == 2);
            } else {
                assert(k == 3);
            }
        } else {
            assert(k != 3);
            if r == r0 {
                assert(k <= 1);
            }
        }
    }
    assert(nh =~~= v);
    assert forall|r: int, c: int| 0 <= r < rows && 0 <= c < cols implies nv[r][c] == h[r][c] by {
        let k = neighbor_count(v, r, c);
        if r == r0 && c0 - 1 <= c <= c0 + 1 {
            if c == c0 {
                assert(k == 2);
            } else {
                assert(k == 3);
            }
        } else {
            assert(k != 3);
            if c == c0 {
                assert(k <= 1);
            }
        }
    }
    assert(nv =~~= h);
    assert(h[r0][c0 - 1] != v[r0][c0 - 1]);
}

} // verus!
