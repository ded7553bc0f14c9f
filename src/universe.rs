use vstd::prelude::*;

use crate::cell::{glyph_of, next_state, Cell, CellState};

verus! {

/// `g` is a `rows` by `cols` grid: `rows` rows of `cols` cells each.
pub open spec fn is_grid(g: Seq<Seq<Cell>>, rows: int, cols: int) -> bool {
    &&& g.len() == rows
    &&& forall|r: int| 0 <= r < rows ==> (#[trigger] g[r]).len() == cols
}

/// `(r, c)` lies on the grid and the cell there is alive. Positions off the
/// grid count as dead, which is what makes the edges clamped rather than
/// wrapping.
pub open spec fn is_alive(g: Seq<Seq<Cell>>, r: int, c: int) -> bool {
    &&& 0 <= r < g.len()
    &&& 0 <= c < g[r].len()
    &&& g[r][c].state == CellState::Alive
}

/// One if `(r, c)` holds a live cell of the grid, zero otherwise.
pub open spec fn alive_count_at(g: Seq<Seq<Cell>>, r: int, c: int) -> int {
    if is_alive(g, r, c) {
        1
    } else {
        0
    }
}

/// How many of the (up to) eight cells around `(r, c)` are alive.
pub open spec fn neighbor_count(g: Seq<Seq<Cell>>, r: int, c: int) -> int {
    alive_count_at(g, r - 1, c - 1) + alive_count_at(g, r - 1, c) + alive_count_at(g, r - 1, c + 1)
        + alive_count_at(g, r, c - 1) + alive_count_at(g, r, c + 1) + alive_count_at(g, r + 1, c - 1)
        + alive_count_at(g, r + 1, c) + alive_count_at(g, r + 1, c + 1)
}

/// The generation after `g`: every cell follows the B3/S23 rule on its own
/// state and its neighbor count in `g`.
pub open spec fn next_generation(g: Seq<Seq<Cell>>, rows: int, cols: int) -> Seq<Seq<Cell>> {
    Seq::new(
        rows as nat,
        |r: int|
            Seq::new(
                cols as nat,
                |c: int| Cell { state: next_state(g[r][c].state, neighbor_count(g, r, c)) },
            ),
    )
}

/// The grid of the given size on which every cell is dead.
pub open spec fn dead_grid(rows: int, cols: int) -> Seq<Seq<Cell>> {
    Seq::new(rows as nat, |r: int| Seq::new(cols as nat, |c: int| Cell { state: CellState::Dead }))
}

/// The first and last index of the neighborhood of `i` on an axis of length
/// `n`: `[i - 1, i + 1]` clamped into `[0, n - 1]`.
pub open spec fn range_start(i: int) -> int {
    if i == 0 {
        0
    } else {
        i - 1
    }
}

pub open spec fn range_end(i: int, n: int) -> int {
    if i + 1 <= n - 1 {
        i + 1
    } else {
        n - 1
    }
}

/// The inclusive neighborhood `[max(i - 1, 0), min(i + 1, n - 1)]` of `i` on an
/// axis of length `n`. It always holds `i`, so it is never empty.
pub fn neighbor_range(i: usize, n: usize) -> (r: (usize, usize))
    requires
        i < n,
    ensures
        r.0 == range_start(i as int),
        r.1 == range_end(i as int, n as int),
        r.0 <= i <= r.1 < n,
{
    let start = i.saturating_sub(1);
    let end = if i + 1 <= n - 1 {
        i + 1
    } else {
        n - 1
    };
    (start, end)
}

/// The rows around `this_x` on a grid of `ROWS` rows, as an inclusive range.
pub fn get_neighbor_row_range<const ROWS: usize>(this_x: usize) -> (r: std::ops::RangeInclusive<
    usize,
>)
    requires
        this_x < ROWS,
    ensures
        r@.start == range_start(this_x as int),
        r@.end == range_end(this_x as int, ROWS as int),
        !r@.exhausted,
{
    let (start, end) = neighbor_range(this_x, ROWS);
    start..=end
}

/// The columns around `this_y` on a grid of `COLS` columns, as an inclusive
/// range.
pub fn get_neighbor_col_range<const COLS: usize>(this_y: usize) -> (r: std::ops::RangeInclusive<
    usize,
>)
    requires
        this_y < COLS,
    ensures
        r@.start == range_start(this_y as int),
        r@.end == range_end(this_y as int, COLS as int),
        !r@.exhausted,
{
    let (start, end) = neighbor_range(this_y, COLS);
    start..=end
}

/// The cell `(rr, cc)` counted toward the neighbors of `(r, c)`: the center is
/// left out.
spec fn window_term(g: Seq<Seq<Cell>>, r: int, c: int, rr: int, cc: int) -> int {
    if rr == r && cc == c {
        0
    } else {
        alive_count_at(g, rr, cc)
    }
}

/// Live cells among columns `[lo, hi)` of row `rr`, the center left out.
spec fn span_sum(g: Seq<Seq<Cell>>, r: int, c: int, rr: int, lo: int, hi: int) -> int
    decreases hi - lo,
{
    if hi <= lo {
        0
    } else {
        span_sum(g, r, c, rr, lo, hi - 1) + window_term(g, r, c, rr, hi - 1)
    }
}

/// Live cells among rows `[rlo, rhi)` and columns `[clo, chi)`, the center
/// left out.
spec fn block_sum(
    g: Seq<Seq<Cell>>,
    r: int,
    c: int,
    rlo: int,
    rhi: int,
    clo: int,
    chi: int,
) -> int
    decreases rhi - rlo,
{
    if rhi <= rlo {
        0
    } else {
        block_sum(g, r, c, rlo, rhi - 1, clo, chi) + span_sum(g, r, c, rhi - 1, clo, chi)
    }
}

proof fn lemma_span_sum(g: Seq<Seq<Cell>>, rows: int, cols: int, r: int, c: int, rr: int)
    requires
        is_grid(g, rows, cols),
        0 <= c < cols,
    ensures
        span_sum(g, r, c, rr, range_start(c), range_end(c, cols) + 1) == window_term(
            g,
            r,
            c,
            rr,
            c - 1,
        ) + window_term(g, r, c, rr, c) + window_term(g, r, c, rr, c + 1),
{
    reveal_with_fuel(span_sum, 4);
    if 0 <= rr < rows {
        assert(g[rr].len() == cols);
    }
}

proof fn lemma_block_sum(g: Seq<Seq<Cell>>, rows: int, cols: int, r: int, c: int)
    requires
        is_grid(g, rows, cols),
        0 <= r < rows,
        0 <= c < cols,
    ensures
        block_sum(
            g,
            r,
            c,
            range_start(r),
            range_end(r, rows) + 1,
            range_start(c),
            range_end(c, cols) + 1,
        ) == neighbor_count(g, r, c),
{
    let clo = range_start(c);
    let chi = range_end(c, cols) + 1;
    reveal_with_fuel(block_sum, 4);
    lemma_span_sum(g, rows, cols, r, c, r - 1);
    lemma_span_sum(g, rows, cols, r, c, r);
    lemma_span_sum(g, rows, cols, r, c, r + 1);
}

/// A row drawn as text: the glyphs of its cells, left to right.
pub open spec fn render_row(row: Seq<Cell>) -> Seq<char>
    decreases row.len(),
{
    if row.len() == 0 {
        seq![]
    } else {
        render_row(row.drop_last()) + glyph_of(row.last())
    }
}

/// A grid drawn as text: its rows top to bottom, each ended by a line break.
pub open spec fn render_grid(g: Seq<Seq<Cell>>) -> Seq<char>
    decreases g.len(),
{
    if g.len() == 0 {
        seq![]
    } else {
        render_grid(g.drop_last()) + render_row(g.last()) + seq!['\n']
    }
}

/// The cells of a universe, one `Vec` per row.
#[derive(Debug, Clone, PartialEq, Eq)]
pub struct Universe<const ROWS: usize, const COLS: usize> {
    cells: Vec<Vec<Cell>>,
}

impl<const ROWS: usize, const COLS: usize> View for Universe<ROWS, COLS> {
    type V = Seq<Seq<Cell>>;

    closed spec fn view(&self) -> Seq<Seq<Cell>> {
        self.cells@.map_values(|row: Vec<Cell>| row@)
    }
}

impl<const ROWS: usize, const COLS: usize> Universe<ROWS, COLS> {
    /// Every row is there and has every column: the grid is `ROWS` by `COLS`.
    pub open spec fn wf(&self) -> bool {
        is_grid(self@, ROWS as int, COLS as int)
    }

    /// A universe in which every cell is dead.
    pub fn new_empty() -> (u: Self)
        ensures
            u.wf(),
            u@ == dead_grid(ROWS as int, COLS as int),
    {
        let mut cells: Vec<Vec<Cell>> = Vec::new();
        let mut r: usize = 0;
        while r < ROWS
            invariant
                r <= ROWS,
                cells@.len() == r,
                forall|i: int, j: int|
                    0 <= i < r && 0 <= j < COLS ==> (#[trigger] cells@[i]@[j]).state
                        == CellState::Dead,
                forall|i: int| 0 <= i < r ==> (#[trigger] cells@[i])@.len() == COLS,
            decreases ROWS - r,
        {
            let mut row: Vec<Cell> = Vec::new();
            let mut c: usize = 0;
            while c < COLS
                invariant
                    c <= COLS,
                    row@.len() == c,
                    forall|j: int| 0 <= j < c ==> (#[trigger] row@[j]).state == CellState::Dead,
                decreases COLS - c,
            {
                row.push(Cell::new(CellState::Dead));
                c += 1;
            }
            cells.push(row);
            r += 1;
        }
        let u = Universe { cells };
        assert(u@ =~~= dead_grid(ROWS as int, COLS as int));
        u
    }

    /// The cell at `(row, col)`.
    pub fn cell(&self, row: usize, col: usize) -> (r: Cell)
        requires
            self.wf(),
            row < ROWS,
            col < COLS,
        ensures
            r == self@[row as int][col as int],
    {
        self.cells[row][col]
    }

    /// Overwrites the cell at `(row, col)` and nothing else.
    pub fn set_cell(&mut self, row: usize, col: usize, cell: Cell)
        requires
            old(self).wf(),
            row < ROWS,
            col < COLS,
        ensures
            final(self).wf(),
            final(self)@ == old(self)@.update(
                row as int,
                old(self)@[row as int].update(col as int, cell),
            ),
    {
        assert(self@[row as int].len() == COLS);
        self.cells[row][col] = cell;
        assert(self@ =~~= old(self)@.update(row as int, old(self)@[row as int].update(col as int, cell)));
    }

    /// The universe drawn as text, one line per row.
    pub fn render(&self) -> (s: String)
        requires
            self.wf(),
        ensures
            s@ == render_grid(self@),
    {
        let ghost g = self@;
        let mut s = String::new();
        let mut r: usize = 0;
        while r < ROWS
            invariant
                self.wf(),
                g == self@,
                r <= ROWS,
                s@ == render_grid(g.subrange(0, r as int)),
            decreases ROWS - r,
        {
            let ghost row = g[r as int];
            assert(row.len() == COLS);
            let mut c: usize = 0;
            while c < COLS
                invariant
                    self.wf(),
                    g == self@,
                    r < ROWS,
                    row == g[r as int],
                    row.len() == COLS,
                    c <= COLS,
                    s@ == render_grid(g.subrange(0, r as int)) + render_row(row.subrange(0, c as int)),
                decreases COLS - c,
            {
                s.append(self.cells[r][c].glyph());
                assert(row.subrange(0, c + 1).drop_last() =~= row.subrange(0, c as int));
                c += 1;
            }
            proof {
                reveal_strlit("\n");
            }
            s.append("\n");
            assert(row.subrange(0, COLS as int) =~= row);
            assert(g.subrange(0, r + 1).drop_last() =~= g.subrange(0, r as int));
            assert(g.subrange(0, r + 1).last() == row);
            assert(s@ == render_grid(g.subrange(0, r + 1)));
            r += 1;
        }
        assert(g.subrange(0, ROWS as int) =~= g);
        s
    }

    /// Live cells around `(this_x, this_y)`, walking the clamped neighbor ranges.
    fn alive_neighbors_count(&self, this_x: usize, this_y: usize) -> (n: usize)
        requires
            self.wf(),
            this_x < ROWS,
            this_y < COLS,
        ensures
            n == neighbor_count(self@, this_x as int, this_y as int),
    {
        let ghost g = self@;
        let (rlo, rhi) = neighbor_range(this_x, ROWS);
        let (clo, chi) = neighbor_range(this_y, COLS);
        let mut sum: usize = 0;
        let mut row: usize = rlo;
        while row <= rhi
            invariant
                self.wf(),
                g == self@,
                rlo <= row <= rhi + 1,
                rhi < ROWS,
                rhi - rlo <= 2,
                clo <= chi < COLS,
                chi - clo <= 2,
                sum <= 3 * (row - rlo),
                sum == block_sum(g, this_x as int, this_y as int, rlo as int, row as int, clo as int, chi + 1),
            decreases rhi + 1 - row,
        {
            let mut col: usize = clo;
            while col <= chi
                invariant
                    self.wf(),
                    g == self@,
                    rlo <= row <= rhi,
                    rhi < ROWS,
                    rhi - rlo <= 2,
                    clo <= col <= chi + 1,
                    chi < COLS,
                    chi - clo <= 2,
                    sum <= 3 * (row - rlo) + (col - clo),
                    sum == block_sum(g, this_x as int, this_y as int, rlo as int, row as int, clo as int, chi + 1)
                        + span_sum(g, this_x as int, this_y as int, row as int, clo as int, col as int),
                decreases chi + 1 - col,
            {
                assert(g[row as int].len() == COLS);
                if !(row == this_x && col == this_y) && self.cells[row][col].state == CellState::Alive {
                    sum += 1;
                }
                col += 1;
            }
            row += 1;
        }
        proof {
            lemma_block_sum(g, ROWS as int, COLS as int, this_x as int, this_y as int);
        }
        sum
    }

    /// The next generation, as a new universe; `self` is left as it is. Every
    /// cell of the result follows the B3/S23 rule on its state and on how many
    /// of its neighbors (clamped at the edges) are alive in `self`.
    pub fn tick(&self) -> (u: Self)
        requires
            self.wf(),
        ensures
            u.wf(),
            u@ == next_generation(self@, ROWS as int, COLS as int),
    {
        let ghost next = next_generation(self@, ROWS as int, COLS as int);
        let mut new_universe = Self::new_empty();
        let mut row: usize = 0;
        while row < ROWS
            invariant
                self.wf(),
                new_universe.wf(),
                next == next_generation(self@, ROWS as int, COLS as int),
                row <= ROWS,
                forall|i: int, j: int|
                    0 <= i < row && 0 <= j < COLS ==> #[trigger] new_universe@[i][j] == next[i][j],
            decreases ROWS - row,
        {
            let mut col: usize = 0;
            while col < COLS
                invariant
                    self.wf(),
                    new_universe.wf(),
                    next == next_generation(self@, ROWS as int, COLS as int),
                    row < ROWS,
                    col <= COLS,
                    forall|i: int, j: int|
                        0 <= i < row && 0 <= j < COLS ==> #[trigger] new_universe@[i][j] == next[i][j],
                    forall|j: int| 0 <= j < col ==> #[trigger] new_universe@[row as int][j] == next[row as int][j],
                decreases COLS - col,
            {
                assert(self@[row as int].len() == COLS);
                let current_cell = self.cells[row][col];
                let alive_neighbors = self.alive_neighbors_count(row, col);
                let new_state = current_cell.state.transition(alive_neighbors);
                new_universe.set_cell(row, col, Cell::new(new_state));
                col += 1;
            }
            row += 1;
        }
        assert(new_universe@ =~~= next);
        new_universe
    }
}

} // verus!
