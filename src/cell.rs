use vstd::prelude::*;

verus! {

/// The state of a single cell.
#[derive(Debug, Clone, Copy, PartialEq, Eq, Structural)]
pub enum CellState {
    Alive,
    Dead,
}

/// The B3/S23 rule: a live cell survives with two or three live neighbors,
/// a dead cell comes alive with exactly three, every other cell is dead.
pub open spec fn next_state(s: CellState, alive_neighbors: int) -> CellState {
    match s {
        CellState::Alive => if alive_neighbors == 2 || alive_neighbors == 3 {
            CellState::Alive
        } else {
            CellState::Dead
        },
        CellState::Dead => if alive_neighbors == 3 {
            CellState::Alive
        } else {
            CellState::Dead
        },
    }
}

impl CellState {
    /// The state this cell takes in the next generation, given how many of its
    /// neighbors are alive now.
    pub fn transition(&self, alive_neighbors: usize) -> (r: CellState)
        ensures
            r == next_state(*self, alive_neighbors as int),
    {
        match self {
            CellState::Alive => if alive_neighbors == 2 || alive_neighbors == 3 {
                CellState::Alive
            } else {
                CellState::Dead
            },
            CellState::Dead => if alive_neighbors == 3 {
                CellState::Alive
            } else {
                CellState::Dead
            },
        }
    }
}

/// One position of the grid; it carries nothing but its state.
#[derive(Debug, Clone, Copy, PartialEq, Eq, Structural)]
pub struct Cell {
    pub state: CellState,
}

/// The three characters a cell is drawn with: `[x]` alive, `[ ]` dead.
pub open spec fn glyph_of(c: Cell) -> Seq<char> {
    match c.state {
        CellState::Alive => seq!['[', 'x', ']'],
        CellState::Dead => seq!['[', ' ', ']'],
    }
}

impl Cell {
    pub fn new(state: CellState) -> (r: Cell)
        ensures
            r.state == state,
    {
        Cell { state }
    }

    /// The three-character glyph of this cell: `[x]` when alive, `[ ]` when dead.
    pub fn glyph(&self) -> (r: &'static str)
        ensures
            r@ == glyph_of(*self),
    {
        proof {
            reveal_strlit("[x]");
            reveal_strlit("[ ]");
        }
        match self.state {
            CellState::Alive => "[x]",
            CellState::Dead => "[ ]",
        }
    }
}

} // verus!
