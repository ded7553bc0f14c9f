use game_of_life::cell::{Cell, CellState};
use game_of_life::universe::Universe;

fn with_alive<const R: usize, const C: usize>(cells: &[(usize, usize)]) -> Universe<R, C> {
    let mut u = Universe::<R, C>::new_empty();
    for &(r, c) in cells {
        u.set_cell(r, c, Cell::new(CellState::Alive));
    }
    u
}

fn alive_cells<const R: usize, const C: usize>(u: &Universe<R, C>) -> Vec<(usize, usize)> {
    let mut out = Vec::new();
    for r in 0..R {
        for c in 0..C {
            if u.cell(r, c).state == CellState::Alive {
                out.push((r, c));
            }
        }
    }
    out
}

#[test]
fn new_empty_is_all_dead() {
    let u = Universe::<18, 18>::new_empty();
    assert!(alive_cells(&u).is_empty());
}

#[test]
fn set_cell_changes_only_that_cell() {
    let mut u = Universe::<5, 5>::new_empty();
    u.set_cell(1, 3, Cell::new(CellState::Alive));
    assert_eq!(alive_cells(&u), vec![(1, 3)]);
    u.set_cell(1, 3, Cell::new(CellState::Dead));
    assert!(alive_cells(&u).is_empty());
}

#[test]
fn dead_grid_stays_dead() {
    let u = Universe::<18, 18>::new_empty();
    let next = u.tick();
    assert!(alive_cells(&next).is_empty());
    assert_eq!(next, u);
}

#[test]
fn isolated_cell_dies() {
    let u: Universe<18, 18> = with_alive(&[(7, 9)]);
    assert!(alive_cells(&u.tick()).is_empty());
}

#[test]
fn isolated_corner_cell_dies() {
    let u: Universe<5, 5> = with_alive(&[(4, 4)]);
    assert!(alive_cells(&u.tick()).is_empty());
}

#[test]
fn block_is_a_still_life() {
    let u: Universe<18, 18> = with_alive(&[(5, 5), (5, 6), (6, 5), (6, 6)]);
    assert_eq!(u.tick(), u);
}

#[test]
fn block_in_a_corner_is_a_still_life() {
    let u: Universe<18, 18> = with_alive(&[(0, 0), (0, 1), (1, 0), (1, 1)]);
    assert_eq!(u.tick(), u);
    let v: Universe<5, 5> = with_alive(&[(3, 3), (3, 4), (4, 3), (4, 4)]);
    assert_eq!(v.tick(), v);
}

#[test]
fn blinker_turns_vertical() {
    let u: Universe<18, 18> = with_alive(&[(2, 1), (2, 2), (2, 3)]);
    let next = u.tick();
    assert_eq!(alive_cells(&next), vec![(1, 2), (2, 2), (3, 2)]);
}

#[test]
fn blinker_has_period_two() {
    let u: Universe<18, 18> = with_alive(&[(2, 1), (2, 2), (2, 3)]);
    let once = u.tick();
    assert_ne!(once, u);
    assert_eq!(once.tick(), u);
}

#[test]
fn tick_leaves_the_receiver_unchanged() {
    let u: Universe<18, 18> = with_alive(&[(2, 1), (2, 2), (2, 3)]);
    let before = u.clone();
    let _ = u.tick();
    assert_eq!(u, before);
}

#[test]
fn dead_cell_with_three_neighbors_at_the_edge_is_born() {
    // (0, 1) has the live neighbors (0, 0), (0, 2) and (1, 1) inside the grid.
    let u: Universe<5, 5> = with_alive(&[(0, 0), (0, 2), (1, 1)]);
    let next = u.tick();
    assert_eq!(next.cell(0, 1).state, CellState::Alive);
    assert_eq!(next.cell(1, 1).state, CellState::Alive);
    assert_eq!(next.cell(0, 0).state, CellState::Dead);
    assert_eq!(next.cell(0, 2).state, CellState::Dead);
}

#[test]
fn glider_moves() {
    let u: Universe<8, 8> = with_alive(&[(0, 1), (1, 2), (2, 0), (2, 1), (2, 2)]);
    let mut g = u.clone();
    for _ in 0..4 {
        g = g.tick();
    }
    assert_eq!(alive_cells(&g), vec![(1, 2), (2, 3), (3, 1), (3, 2), (3, 3)]);
}

#[test]
fn render_draws_rows_of_glyphs() {
    let u: Universe<2, 3> = with_alive(&[(0, 1), (1, 2)]);
    assert_eq!(u.render(), "[ ][x][ ]\n[ ][ ][x]\n");
}

#[test]
fn render_of_an_empty_universe() {
    let u = Universe::<1, 2>::new_empty();
    assert_eq!(u.render(), "[ ][ ]\n");
}
