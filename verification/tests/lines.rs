use tic_tac_toe_core::lines::has_won;
use tic_tac_toe_core::{required_cells, Cell};

#[test]
fn required_cells_are_sorted_and_complete() {
    assert_eq!(required_cells(1, 0), vec![(0, 0), (1, 0), (1, 1), (1, 2), (2, 0)]);
    assert_eq!(
        required_cells(0, 0),
        vec![(0, 0), (0, 1), (0, 2), (1, 0), (1, 1), (2, 0), (2, 2)]
    );
    assert_eq!(
        required_cells(2, 0),
        vec![(0, 0), (0, 2), (1, 0), (1, 1), (2, 0), (2, 1), (2, 2)]
    );
    assert_eq!(
        required_cells(1, 1),
        vec![
            (0, 0),
            (0, 1),
            (0, 2),
            (1, 0),
            (1, 1),
            (1, 2),
            (2, 0),
            (2, 1),
            (2, 2)
        ]
    );
}

#[test]
fn witness_sizes_by_position() {
    for x in 0..3u8 {
        for y in 0..3u8 {
            let expected = match (x, y) {
                (1, 1) => 9,
                (1, _) | (_, 1) => 5,
                _ => 7,
            };
            assert_eq!(required_cells(x, y).len(), expected);
        }
    }
}

#[test]
fn required_cells_off_the_board() {
    assert_eq!(required_cells(5, 7), vec![(0, 7), (1, 7), (2, 7), (5, 0), (5, 1), (5, 2)]);
    assert_eq!(
        required_cells(4, 4),
        vec![
            (0, 0),
            (0, 4),
            (1, 1),
            (1, 4),
            (2, 2),
            (2, 4),
            (4, 0),
            (4, 1),
            (4, 2)
        ]
    );
}

#[test]
fn each_line_wins_through_its_cells() {
    let lines: Vec<Vec<(u8, u8)>> = vec![
        vec![(0, 0), (1, 0), (2, 0)],
        vec![(0, 1), (1, 1), (2, 1)],
        vec![(0, 2), (1, 2), (2, 2)],
        vec![(0, 0), (0, 1), (0, 2)],
        vec![(1, 0), (1, 1), (1, 2)],
        vec![(2, 0), (2, 1), (2, 2)],
        vec![(0, 0), (1, 1), (2, 2)],
        vec![(0, 2), (1, 1), (2, 0)],
    ];
    for line in &lines {
        let get = |x: u8, y: u8| if line.contains(&(x, y)) { Cell::X } else { Cell::Empty };
        for x in 0..3u8 {
            for y in 0..3u8 {
                // Only a cell on the line has it among its win-check lines.
                assert_eq!(has_won(x, y, Cell::X, get), line.contains(&(x, y)));
                assert!(!has_won(x, y, Cell::O, get));
            }
        }
    }
}

#[test]
fn two_in_a_row_do_not_win() {
    let get = |x: u8, y: u8| if y == 0 && x < 2 { Cell::O } else { Cell::Empty };
    assert!(!has_won(0, 0, Cell::O, get));
    assert!(!has_won(1, 0, Cell::O, get));
}
