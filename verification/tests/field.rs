use tetris::field::{
    erase_line, has_border, new_empty, row_is_full, shift_rows_down, Field, Row, FIELD_HEIGHT, FIELD_WIDTH,
};

const OPEN: Row = [1, 0, 0, 0, 0, 0, 0, 0, 0, 0, 0, 0, 1];
const FLOOR: Row = [1; 13];
const FULL: Row = [1, 2, 3, 4, 5, 6, 7, 8, 2, 3, 4, 5, 1];

fn marked(mark: usize) -> Row {
    let mut row = OPEN;
    row[1] = mark;
    row
}

fn border_holds(field: &Field) -> bool {
    (0..FIELD_HEIGHT).all(|y| {
        (0..FIELD_WIDTH).all(|x| {
            let cell = field[y][x];
            if x == 0 || x == FIELD_WIDTH - 1 || y == FIELD_HEIGHT - 1 {
                cell == 1
            } else {
                cell == 0 || (2..=8).contains(&cell)
            }
        })
    })
}

#[test]
fn dimensions() {
    assert_eq!(FIELD_WIDTH, 13);
    assert_eq!(FIELD_HEIGHT, 21);
}

#[test]
fn new_field_has_walls_and_nothing_else() {
    let field = new_empty();
    for y in 0..20 {
        assert_eq!(field[y], OPEN);
    }
    assert_eq!(field[20], FLOOR);
    assert!(border_holds(&field));
}

#[test]
fn empty_row_is_not_full() {
    let field = new_empty();
    for y in 0..20 {
        assert!(!row_is_full(&field, y));
    }
}

#[test]
fn row_without_a_gap_is_full() {
    let mut field = new_empty();
    field[7] = FULL;
    assert!(row_is_full(&field, 7));
    assert!(!row_is_full(&field, 6));
    assert!(!row_is_full(&field, 8));
}

#[test]
fn row_with_one_gap_is_not_full() {
    for gap in 1..12 {
        let mut field = new_empty();
        field[7] = FULL;
        field[7][gap] = 0;
        assert!(!row_is_full(&field, 7));
    }
}

#[test]
fn walls_do_not_make_a_row_full() {
    let mut field = new_empty();
    field[3] = [0, 2, 2, 2, 2, 2, 2, 2, 2, 2, 2, 2, 0];
    assert!(row_is_full(&field, 3));
    field[4] = [1, 0, 1, 1, 1, 1, 1, 1, 1, 1, 1, 1, 1];
    assert!(!row_is_full(&field, 4));
}

#[test]
fn the_floor_counts_as_full() {
    let field = new_empty();
    assert!(row_is_full(&field, 20));
}

#[test]
fn testing_a_row_leaves_the_field() {
    let mut field = new_empty();
    field[7] = FULL;
    field[9] = marked(4);
    let before = field;
    for y in 0..FIELD_HEIGHT {
        let first = row_is_full(&field, y);
        let second = row_is_full(&field, y);
        assert_eq!(first, second);
    }
    assert_eq!(field, before);
}

#[test]
fn shift_moves_the_rows_above_down_by_one() {
    let mut field = new_empty();
    for y in 0..20 {
        field[y] = marked(2 + y % 7);
    }
    let before = field;
    shift_rows_down(&mut field, 5);
    assert_eq!(field[0], before[0]);
    assert_eq!(field[1], before[0]);
    for y in 2..=5 {
        assert_eq!(field[y], before[y - 1]);
    }
    for y in 6..FIELD_HEIGHT {
        assert_eq!(field[y], before[y]);
    }
}

#[test]
fn shift_at_row_zero_changes_nothing() {
    let mut field = new_empty();
    field[1] = marked(3);
    let before = field;
    shift_rows_down(&mut field, 0);
    assert_eq!(field, before);
}

#[test]
fn shift_at_row_one_copies_the_top_row() {
    let mut field = new_empty();
    field[1] = marked(3);
    field[2] = marked(4);
    shift_rows_down(&mut field, 1);
    assert_eq!(field[1], OPEN);
    assert_eq!(field[2], marked(4));
}

#[test]
fn erase_without_full_row_changes_nothing() {
    let mut field = new_empty();
    field[19] = marked(2);
    field[18] = marked(3);
    let before = field;
    erase_line(&mut field);
    assert_eq!(field, before);
}

#[test]
fn erase_removes_the_one_full_row() {
    let mut field = new_empty();
    field[16] = marked(5);
    field[17] = marked(6);
    field[18] = FULL;
    field[19] = marked(7);
    let before = field;
    erase_line(&mut field);
    assert_eq!(field[0], OPEN);
    assert_eq!(field[1], OPEN);
    for y in 2..=18 {
        assert_eq!(field[y], before[y - 1]);
    }
    assert_eq!(field[17], marked(5));
    assert_eq!(field[18], marked(6));
    assert_eq!(field[19], marked(7));
    assert_eq!(field[20], FLOOR);
    assert!(border_holds(&field));
}

#[test]
fn erase_removes_two_full_rows_next_to_each_other() {
    let mut field = new_empty();
    field[17] = marked(6);
    field[18] = FULL;
    field[19] = FULL;
    erase_line(&mut field);
    let mut expected = new_empty();
    expected[19] = marked(6);
    assert_eq!(field, expected);
    assert!(border_holds(&field));
}

#[test]
fn erase_removes_two_full_rows_apart() {
    let mut field = new_empty();
    field[15] = marked(2);
    field[16] = FULL;
    field[17] = marked(3);
    field[18] = FULL;
    field[19] = marked(4);
    erase_line(&mut field);
    let mut expected = new_empty();
    expected[17] = marked(2);
    expected[18] = marked(3);
    expected[19] = marked(4);
    assert_eq!(field, expected);
    assert!(border_holds(&field));
    for y in 1..20 {
        assert!(!row_is_full(&field, y));
    }
}

#[test]
fn erase_removes_every_row_of_a_full_field() {
    let mut field = new_empty();
    for y in 1..20 {
        field[y] = FULL;
    }
    erase_line(&mut field);
    assert_eq!(field, new_empty());
}

#[test]
fn erase_does_not_test_the_top_row() {
    let mut field = new_empty();
    field[0] = FULL;
    field[19] = marked(2);
    let before = field;
    erase_line(&mut field);
    assert_eq!(field, before);
}

#[test]
fn erase_fills_the_top_with_copies_of_the_top_row() {
    let mut field = new_empty();
    field[0] = marked(8);
    field[10] = FULL;
    field[19] = marked(2);
    erase_line(&mut field);
    assert_eq!(field[0], marked(8));
    assert_eq!(field[1], marked(8));
    for y in 2..19 {
        assert_eq!(field[y], OPEN);
    }
    assert_eq!(field[19], marked(2));
}

#[test]
fn border_of_a_field() {
    let mut field = new_empty();
    assert!(has_border(&field));
    field[5][3] = 8;
    field[0][11] = 2;
    field[19][1] = 5;
    assert!(has_border(&field));
    assert_eq!(has_border(&field), border_holds(&field));
}

#[test]
fn a_broken_border_is_seen() {
    for (y, x, cell) in [
        (0, 0, 0),
        (7, 12, 0),
        (20, 5, 0),
        (20, 0, 2),
        (3, 0, 8),
        (4, 4, 1),
        (0, 6, 1),
        (19, 11, 9),
        (10, 10, usize::MAX),
    ] {
        let mut field = new_empty();
        field[y][x] = cell;
        assert!(!has_border(&field));
        assert!(!border_holds(&field));
    }
}
