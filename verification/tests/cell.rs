use game_of_life::Cell;

#[test]
fn new_cell_holds_what_it_was_given() {
    let cell = Cell::new(3, -4, true);
    assert_eq!((cell.x, cell.y, cell.is_alive), (3, -4, true));
}

#[test]
fn toggle_flips_in_place_and_returns_the_copy() {
    let mut cell = Cell::new(2, 5, false);
    let flipped = cell.toggle();
    assert_eq!(flipped, Cell::new(2, 5, true));
    assert_eq!(cell, Cell::new(2, 5, true));
    let back = cell.toggle();
    assert_eq!(back, Cell::new(2, 5, false));
    assert_eq!(cell, Cell::new(2, 5, false));
}

#[test]
fn live_cell_transitions() {
    let cell = Cell::new(1, 1, true);
    let expected = [false, false, true, true, false, false, false, false, false];
    for (count, alive) in expected.iter().enumerate() {
        assert_eq!(cell.next_state(count), Cell::new(1, 1, *alive));
    }
    assert_eq!(cell.next_state(9).is_alive, false);
    assert_eq!(cell.next_state(usize::MAX).is_alive, false);
}

#[test]
fn dead_cell_transitions() {
    let cell = Cell::new(4, 0, false);
    let expected = [false, false, false, true, false, false, false, false, false];
    for (count, alive) in expected.iter().enumerate() {
        assert_eq!(cell.next_state(count), Cell::new(4, 0, *alive));
    }
    assert_eq!(cell.next_state(usize::MAX).is_alive, false);
}

#[test]
fn next_state_leaves_the_cell_itself_alone() {
    let cell = Cell::new(0, 0, true);
    let _ = cell.next_state(0);
    assert_eq!(cell, Cell::new(0, 0, true));
}
