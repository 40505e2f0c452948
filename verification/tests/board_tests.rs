use minesweeper::engine::{Board, BoardError, RevealResult};

fn mine_indices(b: &Board) -> Vec<usize> {
    let mut out = Vec::new();
    for y in 0..b.height() {
        for x in 0..b.width() {
            if b.cell(x, y).unwrap().is_mine() {
                out.push(y * b.width() + x);
            }
        }
    }
    out
}

fn revealed_count(b: &Board) -> usize {
    let mut n = 0;
    for y in 0..b.height() {
        for x in 0..b.width() {
            if b.cell(x, y).unwrap().revealed() {
                n += 1;
            }
        }
    }
    n
}

#[test]
fn new_board_is_blank() {
    let b = Board::new(9, 7, 10, 5).expect("board");
    assert_eq!(b.width(), 9);
    assert_eq!(b.height(), 7);
    assert_eq!(b.mines(), 10);
    assert_eq!(b.remaining_safe(), 53);
    assert!(b.alive());
    assert!(!b.won());
    for y in 0..7 {
        for x in 0..9 {
            let c = b.cell(x, y).unwrap();
            assert!(!c.is_mine());
            assert_eq!(c.adjacent(), 0);
            assert!(!c.revealed());
            assert!(!c.flagged());
        }
    }
}

#[test]
fn zero_width_is_invalid_dimensions() {
    assert_eq!(Board::new(0, 5, 1, 1).err(), Some(BoardError::InvalidDimensions));
}

#[test]
fn zero_height_is_invalid_dimensions() {
    assert_eq!(Board::new(5, 0, 0, 1).err(), Some(BoardError::InvalidDimensions));
    assert_eq!(Board::new(0, 0, 0, 0).err(), Some(BoardError::InvalidDimensions));
}

#[test]
fn as_many_mines_as_cells_is_too_many() {
    assert_eq!(Board::new(4, 3, 12, 1).err(), Some(BoardError::TooManyMines));
}

#[test]
fn more_mines_than_cells_is_too_many() {
    assert_eq!(Board::new(4, 3, 13, 1).err(), Some(BoardError::TooManyMines));
    assert_eq!(Board::new(1, 1, 1, 0).err(), Some(BoardError::TooManyMines));
}

#[test]
fn one_mine_less_than_cells_is_accepted() {
    let b = Board::new(4, 3, 11, 1).expect("board");
    assert_eq!(b.remaining_safe(), 1);
}

#[test]
fn error_messages() {
    assert_eq!(BoardError::InvalidDimensions.message(), "Board dimensions must be positive");
    assert_eq!(BoardError::TooManyMines.message(), "Mines must be less than cells");
}

#[test]
fn cell_off_the_board_is_absent() {
    let b = Board::new(3, 2, 1, 1).expect("board");
    assert!(b.cell(2, 1).is_some());
    assert!(b.cell(3, 0).is_none());
    assert!(b.cell(0, 2).is_none());
    assert!(b.cell(usize::MAX, usize::MAX).is_none());
}

#[test]
fn flag_then_reveal_is_noop_until_unflagged() {
    let mut b = Board::new(9, 9, 10, 12345).expect("board");
    assert!(b.toggle_flag(0, 0));
    assert!(b.cell(0, 0).unwrap().flagged());
    assert_eq!(b.reveal_cell(0, 0), RevealResult::NoOp);
    assert!(!b.cell(0, 0).unwrap().revealed());
    assert_eq!(b.remaining_safe(), 71);
    assert_eq!(mine_indices(&b), Vec::<usize>::new());
    assert!(b.toggle_flag(0, 0));
    assert!(!b.cell(0, 0).unwrap().flagged());
    assert_eq!(b.reveal_cell(0, 0), RevealResult::RevealedSafe);
    assert!(b.cell(0, 0).unwrap().revealed());
}

#[test]
fn toggle_flag_off_the_board_is_refused() {
    let mut b = Board::new(3, 2, 1, 1).expect("board");
    assert!(!b.toggle_flag(3, 0));
    assert!(!b.toggle_flag(0, 2));
    assert!(!b.toggle_flag(usize::MAX, 0));
}

#[test]
fn toggle_flag_on_revealed_cell_is_refused() {
    let mut b = Board::new(9, 9, 10, 12345).expect("board");
    b.reveal_cell(0, 0);
    assert!(!b.toggle_flag(0, 0));
    assert!(!b.cell(0, 0).unwrap().flagged());
    assert!(b.toggle_flag(8, 8));
    assert!(b.cell(8, 8).unwrap().flagged());
}

#[test]
fn toggle_flag_changes_nothing_else() {
    let mut b = Board::new(8, 8, 10, 999).expect("board");
    b.reveal_cell(0, 0);
    let mines = mine_indices(&b);
    let left = b.remaining_safe();
    let shown = revealed_count(&b);
    assert!(b.toggle_flag(5, 5));
    assert_eq!(mine_indices(&b), mines);
    assert_eq!(b.remaining_safe(), left);
    assert_eq!(revealed_count(&b), shown);
    assert!(b.alive());
    assert!(!b.won());
}

#[test]
fn reveal_off_the_board_is_noop() {
    let mut b = Board::new(3, 2, 1, 1).expect("board");
    assert_eq!(b.reveal_cell(3, 0), RevealResult::NoOp);
    assert_eq!(b.reveal_cell(0, 2), RevealResult::NoOp);
    assert_eq!(b.remaining_safe(), 5);
    assert_eq!(mine_indices(&b), Vec::<usize>::new());
}

#[test]
fn reveal_twice_is_noop() {
    let mut b = Board::new(8, 8, 10, 999).expect("board");
    assert_eq!(b.reveal_cell(0, 0), RevealResult::RevealedSafe);
    let left = b.remaining_safe();
    assert_eq!(b.reveal_cell(0, 0), RevealResult::NoOp);
    assert_eq!(b.reveal_cell(1, 1), RevealResult::NoOp);
    assert_eq!(b.remaining_safe(), left);
}

#[test]
fn scenario_eight_by_eight_seed_999() {
    let mut b = Board::new(8, 8, 10, 999).expect("board");
    assert_eq!(b.reveal_cell(0, 0), RevealResult::RevealedSafe);
    assert!(!b.cell(0, 0).unwrap().is_mine());
    assert_eq!(mine_indices(&b), vec![11, 17, 18, 20, 22, 45, 49, 50, 58, 62]);
    assert_eq!(b.remaining_safe(), 48);
    assert_eq!(revealed_count(&b), 6);
    assert!(b.alive());
    assert!(!b.won());
}

#[test]
fn scenario_nine_by_nine_seed_12345() {
    let mut b = Board::new(9, 9, 10, 12345).expect("board");
    assert_eq!(b.reveal_cell(0, 0), RevealResult::RevealedSafe);
    let c = b.cell(0, 0).unwrap();
    assert!(c.revealed());
    assert!(!c.is_mine());
    assert_eq!(mine_indices(&b), vec![16, 33, 44, 53, 62, 63, 69, 75, 78, 80]);
    assert_eq!(b.remaining_safe(), 15);
}

#[test]
fn hitting_a_mine_ends_the_game() {
    let mut b = Board::new(8, 8, 10, 999).expect("board");
    b.reveal_cell(0, 0);
    assert_eq!(b.reveal_cell(3, 1), RevealResult::HitMine);
    assert!(!b.alive());
    assert!(!b.won());
    assert!(b.cell(3, 1).unwrap().revealed());
    assert_eq!(b.remaining_safe(), 48);
    assert_eq!(revealed_count(&b), 7);
    assert_eq!(b.reveal_cell(5, 5), RevealResult::NoOp);
    assert_eq!(b.reveal_cell(3, 1), RevealResult::NoOp);
    assert_eq!(revealed_count(&b), 7);
    assert!(b.toggle_flag(4, 4));
    assert!(!b.toggle_flag(3, 1));
}

#[test]
fn revealing_every_safe_cell_wins() {
    let mut b = Board::new(4, 3, 2, 7).expect("board");
    assert_eq!(b.reveal_cell(0, 0), RevealResult::RevealedSafe);
    assert_eq!(mine_indices(&b), vec![6, 11]);
    assert_eq!(b.remaining_safe(), 4);
    assert_eq!(b.reveal_cell(2, 0), RevealResult::RevealedSafe);
    assert_eq!(b.remaining_safe(), 3);
    assert_eq!(b.reveal_cell(3, 0), RevealResult::RevealedSafe);
    assert_eq!(b.reveal_cell(3, 1), RevealResult::RevealedSafe);
    assert_eq!(b.remaining_safe(), 1);
    assert!(!b.won());
    assert_eq!(b.reveal_cell(2, 2), RevealResult::RevealedSafe);
    assert_eq!(b.remaining_safe(), 0);
    assert!(b.won());
    assert!(b.alive());
    assert_eq!(b.reveal_cell(2, 1), RevealResult::NoOp);
    assert!(b.alive());
}

#[test]
fn board_without_mines_is_won_at_once() {
    let mut b = Board::new(12, 1, 0, 5).expect("board");
    assert_eq!(b.reveal_cell(3, 0), RevealResult::RevealedSafe);
    assert!(b.won());
    assert_eq!(b.remaining_safe(), 0);
    assert_eq!(revealed_count(&b), 12);
}

#[test]
fn single_cell_board() {
    let mut b = Board::new(1, 1, 0, 9).expect("board");
    assert_eq!(b.reveal_cell(0, 0), RevealResult::RevealedSafe);
    assert!(b.won());
}

#[test]
fn board_full_of_mines_but_one() {
    let mut b = Board::new(5, 5, 24, 3).expect("board");
    assert_eq!(b.reveal_cell(2, 2), RevealResult::RevealedSafe);
    assert!(b.won());
    assert_eq!(b.cell(2, 2).unwrap().adjacent(), 8);
    assert_eq!(mine_indices(&b).len(), 24);
    assert!(!b.cell(2, 2).unwrap().is_mine());
}

#[test]
fn counts_on_a_three_by_three_board() {
    let mut b = Board::new(3, 3, 1, 1).expect("board");
    assert_eq!(b.reveal_cell(1, 1), RevealResult::RevealedSafe);
    assert_eq!(mine_indices(&b), vec![1]);
    assert_eq!(b.remaining_safe(), 7);
    let counts: Vec<u8> = (0..9).map(|i| b.cell(i % 3, i / 3).unwrap().adjacent()).collect();
    assert_eq!(counts, vec![1, 0, 1, 1, 1, 1, 0, 0, 0]);
}

#[test]
fn largest_seed() {
    let mut b = Board::new(3, 3, 1, u64::MAX).expect("board");
    assert_eq!(b.reveal_cell(0, 2), RevealResult::RevealedSafe);
    assert_eq!(mine_indices(&b), vec![4]);
    assert_eq!(b.remaining_safe(), 7);
}

#[test]
fn seed_zero_takes_a_seed_from_the_clock() {
    let mut b = Board::new(8, 8, 10, 0).expect("board");
    assert_eq!(b.remaining_safe(), 54);
    assert_eq!(b.reveal_cell(4, 4), RevealResult::RevealedSafe);
    assert!(!b.cell(4, 4).unwrap().is_mine());
    assert_eq!(mine_indices(&b).len(), 10);
}

#[test]
fn fallback_seed_stands_in_for_seed_zero() {
    let mut a = Board::with_fallback_seed(8, 8, 10, 0, 7).expect("board");
    let mut b = Board::new(8, 8, 10, 7).expect("board");
    a.reveal_cell(0, 0);
    b.reveal_cell(0, 0);
    assert_eq!(mine_indices(&a), vec![4, 16, 28, 30, 38, 47, 49, 55, 58, 59]);
    assert_eq!(mine_indices(&a), mine_indices(&b));
}

#[test]
fn fallback_seed_is_ignored_for_a_given_seed() {
    let mut a = Board::with_fallback_seed(8, 8, 10, 999, 7).expect("board");
    a.reveal_cell(0, 0);
    assert_eq!(mine_indices(&a), vec![11, 17, 18, 20, 22, 45, 49, 50, 58, 62]);
}

#[test]
fn zero_fallback_seed_becomes_one() {
    let mut a = Board::with_fallback_seed(8, 8, 10, 0, 0).expect("board");
    a.reveal_cell(0, 0);
    assert_eq!(mine_indices(&a), vec![13, 22, 24, 28, 29, 30, 34, 50, 56, 63]);
    assert_eq!(a.remaining_safe(), 36);
}

#[test]
fn fallback_construction_reports_the_same_errors() {
    assert_eq!(
        Board::with_fallback_seed(0, 3, 1, 0, 7).err(),
        Some(BoardError::InvalidDimensions)
    );
    assert_eq!(Board::with_fallback_seed(2, 3, 6, 5, 7).err(), Some(BoardError::TooManyMines));
}
