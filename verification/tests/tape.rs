use brainfuck::Tape;

#[test]
fn new_tape_is_all_zero() {
    let tape = Tape::new();
    assert_eq!(tape.pointer(), 0);
    assert_eq!(tape.get(), 0);
    for index in [0usize, 1, 15000, 29999] {
        assert_eq!(tape.cell_at(index), Some(0));
    }
    assert_eq!(tape.cell_at(30000), None);
    assert_eq!(tape.cell_at(usize::MAX), None);
}

#[test]
fn set_stores_in_the_current_cell_only() {
    let mut tape = Tape::new();
    assert!(tape.move_right());
    tape.set(42);
    assert_eq!(tape.get(), 42);
    assert_eq!(tape.cell_at(0), Some(0));
    assert_eq!(tape.cell_at(1), Some(42));
    assert_eq!(tape.cell_at(2), Some(0));
    assert_eq!(tape.pointer(), 1);
}

#[test]
fn tape_does_not_move_left_of_its_first_cell() {
    let mut tape = Tape::new();
    assert!(!tape.move_left());
    assert_eq!(tape.pointer(), 0);
    assert!(tape.move_right());
    assert!(tape.move_left());
    assert_eq!(tape.pointer(), 0);
}

#[test]
fn tape_does_not_move_right_of_its_last_cell() {
    let mut tape = Tape::new();
    for _ in 0..29999 {
        assert!(tape.move_right());
    }
    assert_eq!(tape.pointer(), 29999);
    tape.set(9);
    assert!(!tape.move_right());
    assert_eq!(tape.pointer(), 29999);
    assert_eq!(tape.get(), 9);
    assert_eq!(tape.cell_at(29999), Some(9));
}
