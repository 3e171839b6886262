use minesweeper::{Minesweeper, OpenResult};

const MINE: &str = "\u{1F4A3} ";
const UNOPENED: &str = "\u{2B1C} ";

#[test]
fn unopened_board_shows_glyphs_only() {
    let mut board = Minesweeper::new(3, 2, 0);
    board.place_mine((1, 0));
    board.place_mine((2, 1));
    let expected = format!("{UNOPENED}{MINE}{UNOPENED}\n{UNOPENED}{UNOPENED}{MINE}\n");
    assert_eq!(board.render(), expected);
    assert!(!board.render().chars().any(|c| c.is_ascii_digit()));
}

#[test]
fn random_board_shows_no_number_before_opening() {
    let board = Minesweeper::new(10, 10, 5);
    let text = board.render();
    assert!(text.chars().all(|c| c == '\u{1F4A3}' || c == '\u{2B1C}' || c == ' ' || c == '\n'));
    assert_eq!(text.chars().filter(|&c| c == '\u{1F4A3}').count(), 5);
    assert_eq!(text.chars().filter(|&c| c == '\u{2B1C}').count(), 95);
    assert_eq!(text.lines().count(), 10);
    for line in text.lines() {
        assert_eq!(line.chars().count(), 20);
    }
}

#[test]
fn opened_cell_shows_its_count() {
    let mut board = Minesweeper::new(2, 2, 0);
    board.place_mine((0, 0));
    assert_eq!(board.open((1, 1)), OpenResult::NoMine(1));
    assert_eq!(board.render(), format!("{MINE}{UNOPENED}\n{UNOPENED} 1 \n"));
    assert_eq!(board.open((1, 0)), OpenResult::NoMine(1));
    assert_eq!(board.render(), format!("{MINE} 1 \n{UNOPENED} 1 \n"));
}

#[test]
fn opened_mine_shows_a_count_too() {
    let mut board = Minesweeper::new(3, 1, 0);
    board.place_mine((0, 0));
    board.place_mine((1, 0));
    assert_eq!(board.open((0, 0)), OpenResult::Mine);
    assert_eq!(board.render(), format!(" 1 {MINE}{UNOPENED}\n"));
    assert_eq!(board.open((1, 0)), OpenResult::Mine);
    assert_eq!(board.open((2, 0)), OpenResult::NoMine(1));
    assert_eq!(board.render(), " 1  1  1 \n");
}

#[test]
fn every_count_has_its_digit() {
    let around = [(0, 0), (1, 0), (2, 0), (0, 1), (2, 1), (0, 2), (1, 2), (2, 2)];
    for mines in 0..=8usize {
        let mut board = Minesweeper::new(3, 3, 0);
        for &mine in &around[..mines] {
            board.place_mine(mine);
        }
        board.open((1, 1));
        let text = board.render();
        let middle: Vec<char> = text.lines().nth(1).unwrap().chars().skip(2).collect();
        let digit = char::from_digit(mines as u32, 10).unwrap();
        let right = if mines > 4 { '\u{1F4A3}' } else { '\u{2B1C}' };
        assert_eq!(middle, vec![' ', digit, ' ', right, ' ']);
    }
}

#[test]
fn rows_come_from_the_top_and_cells_from_the_left() {
    let mut board = Minesweeper::new(2, 3, 0);
    board.place_mine((1, 0));
    board.place_mine((0, 2));
    board.open((0, 1));
    assert_eq!(
        board.render(),
        format!("{UNOPENED}{MINE}\n 2 {UNOPENED}\n{MINE}{UNOPENED}\n")
    );
}
