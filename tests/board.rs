use action_parser::board_analyzer::{get_garbage_height, get_height, get_well, has_cheese, MinoType};

fn empty_board() -> Vec<MinoType> {
    vec![MinoType::Empty; 400]
}

fn set(board: &mut Vec<MinoType>, x: usize, y: usize, m: MinoType) {
    board[x + y * 10] = m;
}

/// Fills row `y` with garbage except for a hole in column `hole`.
fn garbage_row(board: &mut Vec<MinoType>, y: usize, hole: usize) {
    for x in 0..10 {
        if x != hole {
            set(board, x, y, MinoType::Garbage);
        }
    }
}

#[test]
fn empty_board_has_height_zero() {
    assert_eq!(get_height(&empty_board()), 0);
}

#[test]
fn occupied_top_row_has_height_forty() {
    let mut b = empty_board();
    set(&mut b, 7, 0, MinoType::T);
    assert_eq!(get_height(&b), 40);
}

#[test]
fn height_counts_from_first_occupied_row() {
    let mut b = empty_board();
    set(&mut b, 3, 30, MinoType::L);
    set(&mut b, 3, 39, MinoType::L);
    assert_eq!(get_height(&b), 10);
}

#[test]
fn garbage_height_counts_bottom_garbage_rows() {
    let mut b = empty_board();
    garbage_row(&mut b, 39, 4);
    garbage_row(&mut b, 38, 4);
    garbage_row(&mut b, 37, 2);
    set(&mut b, 0, 36, MinoType::S);
    assert_eq!(get_garbage_height(&b), 3);
    assert_eq!(get_height(&b), 4);
}

#[test]
fn garbage_height_zero_without_garbage() {
    let mut b = empty_board();
    set(&mut b, 0, 39, MinoType::I);
    assert_eq!(get_garbage_height(&b), 0);
}

#[test]
fn well_is_lowest_column() {
    let mut b = empty_board();
    for x in 0..10 {
        if x != 6 {
            set(&mut b, x, 35, MinoType::O);
        }
    }
    set(&mut b, 6, 38, MinoType::J);
    assert_eq!(get_well(&b), 2);
    assert_eq!(get_well(&empty_board()), 0);
}

#[test]
fn no_garbage_is_no_cheese() {
    assert!(!has_cheese(&empty_board()));
}

#[test]
fn cheese_run_of_one_to_three() {
    for run in 1..4 {
        let mut b = empty_board();
        // A long run below, then a short one on top.
        for y in 30..40 {
            garbage_row(&mut b, y, 0);
        }
        for k in 0..run {
            garbage_row(&mut b, 29 - k, 5);
        }
        assert!(has_cheese(&b), "run of {}", run);
    }
}

#[test]
fn cheese_run_of_four_is_not_cheese() {
    let mut b = empty_board();
    for y in 36..40 {
        garbage_row(&mut b, y, 3);
    }
    assert!(!has_cheese(&b));
    garbage_row(&mut b, 35, 8);
    assert!(has_cheese(&b));
}
