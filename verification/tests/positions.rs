use minesweeper::PositionSet;

#[test]
fn new_set_is_empty() {
    let set = PositionSet::new();
    assert_eq!(set.len(), 0);
    assert!(!set.contains((0, 0)));
    assert!(!set.contains((usize::MAX, usize::MAX)));
}

#[test]
fn insert_says_whether_the_position_is_new() {
    let mut set = PositionSet::new();
    assert!(set.insert((3, 4)));
    assert!(!set.insert((3, 4)));
    assert!(set.insert((4, 3)));
    assert_eq!(set.len(), 2);
    assert!(set.contains((3, 4)));
    assert!(set.contains((4, 3)));
    assert!(!set.contains((3, 3)));
    assert!(!set.contains((4, 4)));
}

#[test]
fn column_and_row_are_kept_apart() {
    let mut set = PositionSet::new();
    assert!(set.insert((0, 1)));
    assert!(set.insert((1, 0)));
    assert!(set.insert((0, usize::MAX)));
    assert!(set.insert((usize::MAX, 0)));
    assert!(set.insert((usize::MAX, usize::MAX)));
    assert!(set.insert((1, usize::MAX)));
    assert!(set.insert((0, 0)));
    assert_eq!(set.len(), 7);
    assert!(!set.contains((1, 1)));
    assert!(!set.contains((usize::MAX, 1)));
    assert!(!set.contains((usize::MAX - 1, usize::MAX)));
    assert!(set.contains((0, usize::MAX)));
    assert!(set.contains((usize::MAX, 0)));
}

#[test]
fn set_holds_every_position_of_a_grid_once() {
    let mut set = PositionSet::new();
    for x in 0..20 {
        for y in 0..30 {
            assert!(set.insert((x, y)));
        }
    }
    for x in 0..20 {
        for y in 0..30 {
            assert!(!set.insert((x, y)));
            assert!(set.contains((x, y)));
        }
    }
    assert_eq!(set.len(), 600);
    assert!(!set.contains((20, 0)));
    assert!(!set.contains((0, 30)));
}
