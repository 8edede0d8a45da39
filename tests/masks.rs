use connect4::masks::{
    get_board_points, get_cached_win_masks, get_cols_val, get_diagonal_win_points, get_mask,
    get_right_win_points, get_up_win_points, get_win_masks, get_win_points, Cols,
};
use std::collections::BTreeSet;

#[test]
fn can_get_correct_col_num() {
    assert_eq!(get_cols_val(&Cols::Cols(4)), 4);
    assert_eq!(get_cols_val(&Cols::Cols(5)), 5);
    assert_eq!(get_cols_val(&Cols::Cols(6)), 6);
    assert_ne!(get_cols_val(&Cols::Cols(7)), -7);
    assert_ne!(get_cols_val(&Cols::Cols(8)), -8);
}

#[test]
fn theres_42_board_points() {
    assert_eq!(get_board_points().len(), 42);
}

#[test]
fn theres_these_points_on_board() {
    let points = get_board_points();

    assert_eq!(points.contains(&(0, 0)), true);
    assert_eq!(points.contains(&(4, 5)), true);
    assert_eq!(points.contains(&(6, 5)), true);
    assert_eq!(points.contains(&(1, 1)), true);
    assert_eq!(points.contains(&(2, 5)), true);
    assert_eq!(points.contains(&(6, 4)), true);
}

#[test]
fn but_theres_no_these_points() {
    let points = get_board_points();

    assert_eq!(points.contains(&(-1, 0)), false);
    assert_eq!(points.contains(&(6, 6)), false);
    assert_eq!(points.contains(&(7, -6)), false);
    assert_eq!(points.contains(&(50, 20)), false);
}

#[test]
fn these_are_some_win_points() {
    // We calc win points for all board points, here we're just testing two!
    let win_points = get_win_points((0, 0));
    let win_points_2 = get_win_points((2, 2));

    assert_eq!(
        win_points,
        vec![[0, 7, 14, 21], [0, 1, 2, 3], [0, 8, 16, 24]]
    );

    assert_eq!(
        win_points_2,
        vec![[16, 23, 30, 37], [16, 17, 18, 19], [16, 24, 32, 40]]
    );
}

#[test]
fn these_are_some_win_numbers() {
    assert_eq!(get_mask(vec![0, 1, 2, 3]), 15);
    assert_eq!(get_mask(vec![0, 8, 16, 24]), 16843009);
    assert_eq!(get_mask(vec![0, 7, 14, 21]), 2113665);
}

#[test]
fn lines_running_off_the_grid_are_empty() {
    assert!(get_up_win_points(0, 3).is_empty());
    assert!(get_right_win_points(4, 0).is_empty());
    assert!(get_diagonal_win_points(4, 2).is_empty());
    assert_eq!(get_diagonal_win_points(3, 5), vec![38, 32, 26, 20]);
    assert_eq!(get_right_win_points(3, 5), vec![38, 39, 40, 41]);
    assert_eq!(get_up_win_points(6, 2), vec![20, 27, 34, 41]);
}

#[test]
fn table_has_69_lines_of_four_cells() {
    let masks = get_cached_win_masks();
    assert_eq!(masks.len(), 69);
    for m in &masks {
        assert_eq!(m.count_ones(), 4);
        assert!(*m < (1u64 << 42));
    }
    assert_eq!(masks, get_cached_win_masks());
}

#[test]
fn generated_lines_match_the_table() {
    let generated = get_win_masks();
    assert_eq!(generated.len(), 69);
    let a: BTreeSet<u64> = generated.into_iter().collect();
    let b: BTreeSet<u64> = get_cached_win_masks().into_iter().collect();
    assert_eq!(a.len(), 69);
    assert_eq!(a, b);
}
