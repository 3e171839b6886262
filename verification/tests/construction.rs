use minesweeper::{random_range, Minesweeper, Position};

fn mines_of(board: &Minesweeper) -> Vec<Position> {
    let mut mines = Vec::new();
    for x in 0..board.width() {
        for y in 0..board.height() {
            if board.is_mine((x, y)) {
                mines.push((x, y));
            }
        }
    }
    mines
}

#[test]
fn new_board_has_the_mines_asked_for() {
    for mine_count in [0, 1, 5, 50, 99, 100] {
        let board = Minesweeper::new(10, 10, mine_count);
        assert_eq!(board.width(), 10);
        assert_eq!(board.height(), 10);
        assert_eq!(board.mine_count(), mine_count);
        assert_eq!(mines_of(&board).len(), mine_count);
        assert_eq!(board.opened_count(), 0);
    }
}

#[test]
fn new_board_keeps_its_mines_on_the_grid() {
    let board = Minesweeper::new(4, 7, 9);
    assert_eq!(board.mine_count(), 9);
    assert_eq!(mines_of(&board).len(), 9);
    for x in 0..12 {
        for y in 0..12 {
            if x >= 4 || y >= 7 {
                assert!(!board.is_mine((x, y)));
            }
        }
    }
}

#[test]
fn full_board_has_a_mine_on_every_cell() {
    let board = Minesweeper::new(6, 5, 30);
    assert_eq!(board.mine_count(), 30);
    for x in 0..6 {
        for y in 0..5 {
            assert!(board.is_mine((x, y)));
        }
    }
}

#[test]
fn new_board_has_no_opened_cell() {
    let board = Minesweeper::new(3, 3, 4);
    assert_eq!(board.opened_count(), 0);
    for x in 0..3 {
        for y in 0..3 {
            assert!(!board.is_open((x, y)));
        }
    }
}

#[test]
fn mines_are_not_always_on_the_same_cells() {
    let first = mines_of(&Minesweeper::new(30, 30, 10));
    let mut differs = false;
    for _ in 0..20 {
        if mines_of(&Minesweeper::new(30, 30, 10)) != first {
            differs = true;
        }
    }
    assert!(differs);
}

#[test]
fn random_range_stays_in_its_range() {
    for _ in 0..1000 {
        let drawn = random_range(3, 7);
        assert!(3 <= drawn && drawn < 7);
    }
    for _ in 0..100 {
        assert_eq!(random_range(41, 42), 41);
    }
    assert_eq!(random_range(usize::MAX - 1, usize::MAX), usize::MAX - 1);
}

#[test]
fn random_range_reaches_every_number_of_a_small_range() {
    let mut seen = [false; 4];
    for _ in 0..1000 {
        seen[random_range(10, 14) - 10] = true;
    }
    assert_eq!(seen, [true; 4]);
}

#[test]
fn random_range_does_not_repeat_one_number() {
    let first = random_range(0, 1_000_000);
    let mut differs = false;
    for _ in 0..50 {
        if random_range(0, 1_000_000) != first {
            differs = true;
        }
    }
    assert!(differs);
}
