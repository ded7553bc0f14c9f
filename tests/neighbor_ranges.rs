use game_of_life::universe::{get_neighbor_col_range, get_neighbor_row_range, neighbor_range};

#[test]
fn get_neighbor_row_range_for_top_row() {
    assert_eq!(get_neighbor_row_range::<5>(0), 0..=1);
}

#[test]
fn get_neighbor_row_range_for_bottom_row() {
    assert_eq!(get_neighbor_row_range::<5>(4), 3..=4);
}

#[test]
fn get_neighbor_row_range_for_middle_row() {
    assert_eq!(get_neighbor_row_range::<5>(2), 1..=3);
}

#[test]
fn get_neighbor_col_range_for_left_col() {
    assert_eq!(get_neighbor_col_range::<5>(0), 0..=1);
}

#[test]
fn get_neighbor_col_range_for_right_col() {
    assert_eq!(get_neighbor_col_range::<5>(4), 3..=4);
}

#[test]
fn get_neighbor_col_range_for_middle_col() {
    assert_eq!(get_neighbor_col_range::<5>(2), 1..=3);
}

#[test]
fn neighbor_range_is_clamped_and_holds_the_index() {
    for n in 1..=20usize {
        for i in 0..n {
            let (start, end) = neighbor_range(i, n);
            assert_eq!(start, if i == 0 { 0 } else { i - 1 });
            assert_eq!(end, if i + 1 < n { i + 1 } else { n - 1 });
            assert!(start <= i && i <= end);
        }
    }
}

#[test]
fn neighbor_range_on_an_axis_of_one() {
    assert_eq!(neighbor_range(0, 1), (0, 0));
}

#[test]
fn neighbor_ranges_on_a_large_grid() {
    assert_eq!(get_neighbor_row_range::<18>(4), 3..=5);
    assert_eq!(get_neighbor_col_range::<18>(17), 16..=17);
}
