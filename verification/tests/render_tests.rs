use minesweeper::engine::Board;

#[test]
fn render_new_board_zero_based() {
    let b = Board::new(3, 2, 1, 1).expect("board");
    assert_eq!(
        b.render(false, false),
        "     0  1  2 \n   ----------\n 0 | .  .  .  \n 1 | .  .  .  \n"
    );
}

#[test]
fn render_new_board_one_based() {
    let b = Board::new(3, 2, 1, 1).expect("board");
    assert_eq!(
        b.render(true, true),
        "     1  2  3 \n   ----------\n 1 | .  .  .  \n 2 | .  .  .  \n"
    );
}

#[test]
fn render_after_first_reveal() {
    let mut b = Board::new(8, 8, 10, 999).expect("board");
    b.reveal_cell(0, 0);
    let expected = concat_lines(&[
        "     1  2  3  4  5  6  7  8 ",
        "   -------------------------",
        " 1 |       1  .  .  .  .  .  ",
        " 2 | 1  2  3  .  .  .  .  .  ",
        " 3 | .  .  .  .  .  .  .  .  ",
        " 4 | .  .  .  .  .  .  .  .  ",
        " 5 | .  .  .  .  .  .  .  .  ",
        " 6 | .  .  .  .  .  .  .  .  ",
        " 7 | .  .  .  .  .  .  .  .  ",
        " 8 | .  .  .  .  .  .  .  .  ",
    ]);
    assert_eq!(b.render(false, true), expected);
    assert_eq!(b.to_text(), expected);
}

fn concat_lines(lines: &[&str]) -> String {
    let mut s = String::new();
    for l in lines {
        s.push_str(l);
        s.push('\n');
    }
    s
}

#[test]
fn render_with_all_mines_shown() {
    let mut b = Board::new(8, 8, 10, 999).expect("board");
    b.reveal_cell(0, 0);
    let expected = concat_lines(&[
        "     0  1  2  3  4  5  6  7 ",
        "   -------------------------",
        " 0 |       1  .  .  .  .  .  ",
        " 1 | 1  2  3  *  .  .  .  .  ",
        " 2 | .  *  *  .  *  .  *  .  ",
        " 3 | .  .  .  .  .  .  .  .  ",
        " 4 | .  .  .  .  .  .  .  .  ",
        " 5 | .  .  .  .  .  *  .  .  ",
        " 6 | .  *  *  .  .  .  .  .  ",
        " 7 | .  .  *  .  .  .  *  .  ",
    ]);
    assert_eq!(b.render(true, false), expected);
}

#[test]
fn render_flags_and_forced_mines() {
    let mut b = Board::new(4, 3, 2, 7).expect("board");
    b.toggle_flag(3, 2);
    b.reveal_cell(0, 0);
    assert_eq!(
        b.render(false, false),
        "     0  1  2  3 \n   -------------\n 0 |    1  .  .  \n 1 |    1  .  .  \n 2 |    1  .  F  \n"
    );
    assert_eq!(
        b.render(true, true),
        "     1  2  3  4 \n   -------------\n 1 |    1  .  .  \n 2 |    1  *  .  \n 3 |    1  .  *  \n"
    );
}

#[test]
fn render_revealed_mine_without_force() {
    let mut b = Board::new(8, 8, 10, 999).expect("board");
    b.reveal_cell(0, 0);
    b.reveal_cell(3, 1);
    b.toggle_flag(4, 4);
    let expected = concat_lines(&[
        "     1  2  3  4  5  6  7  8 ",
        "   -------------------------",
        " 1 |       1  .  .  .  .  .  ",
        " 2 | 1  2  3  *  .  .  .  .  ",
        " 3 | .  .  .  .  .  .  .  .  ",
        " 4 | .  .  .  .  .  .  .  .  ",
        " 5 | .  .  .  .  F  .  .  .  ",
        " 6 | .  .  .  .  .  .  .  .  ",
        " 7 | .  .  .  .  .  .  .  .  ",
        " 8 | .  .  .  .  .  .  .  .  ",
    ]);
    assert_eq!(b.render(false, true), expected);
}

#[test]
fn render_won_board() {
    let mut b = Board::new(4, 3, 2, 7).expect("board");
    b.reveal_cell(0, 0);
    b.reveal_cell(2, 0);
    b.reveal_cell(3, 0);
    b.reveal_cell(3, 1);
    b.reveal_cell(2, 2);
    assert_eq!(
        b.render(false, true),
        "     1  2  3  4 \n   -------------\n 1 |    1  1  1  \n 2 |    1  .  2  \n 3 |    1  2  .  \n"
    );
}

#[test]
fn render_labels_of_two_digits() {
    let mut b = Board::new(12, 1, 0, 5).expect("board");
    b.reveal_cell(3, 0);
    assert_eq!(
        b.render(false, true),
        "     1  2  3  4  5  6  7  8  9 10 11 12 \n   -------------------------------------\n 1 |                                     \n"
    );
    assert_eq!(
        b.render(false, false),
        "     0  1  2  3  4  5  6  7  8  9 10 11 \n   -------------------------------------\n 0 |                                     \n"
    );
}

#[test]
fn render_labels_of_three_digits() {
    let b = Board::new(1, 101, 0, 5).expect("board");
    let text = b.render(false, true);
    let lines: Vec<&str> = text.lines().collect();
    assert_eq!(lines.len(), 103);
    assert_eq!(lines[0], "     1 ");
    assert_eq!(lines[1], "   ----");
    assert_eq!(lines[2], " 1 | .  ");
    assert_eq!(lines[11], "10 | .  ");
    assert_eq!(lines[101], "100 | .  ");
    assert_eq!(lines[102], "101 | .  ");
}

#[test]
fn render_count_of_eight() {
    let mut b = Board::new(5, 5, 24, 3).expect("board");
    b.reveal_cell(2, 2);
    assert_eq!(
        b.render(false, false),
        "     0  1  2  3  4 \n   ----------------\n 0 | .  .  .  .  .  \n 1 | .  .  .  .  .  \n 2 | .  .  8  .  .  \n 3 | .  .  .  .  .  \n 4 | .  .  .  .  .  \n"
    );
}

#[test]
fn render_single_cell() {
    let mut b = Board::new(1, 1, 0, 9).expect("board");
    b.reveal_cell(0, 0);
    assert_eq!(b.render(true, true), "     1 \n   ----\n 1 |    \n");
}
