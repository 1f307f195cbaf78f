use brainfuck::{Machine, Status, STEP_LIMIT, TAPE_LEN};

#[test]
fn tape_has_thirty_thousand_cells() {
    assert_eq!(TAPE_LEN, 30000);
}

#[test]
fn step_limit_is_the_largest_count() {
    assert_eq!(STEP_LIMIT, u64::MAX);
}

#[test]
fn new_machine_starts_from_zero() {
    let machine = Machine::new(b"+", b"in");
    assert_eq!(machine.status(), Status::Running);
    assert!(machine.is_running());
    assert_eq!(machine.pointer(), 0);
    assert_eq!(machine.code_pointer(), 0);
    assert_eq!(machine.input_pointer(), 0);
    assert_eq!(machine.cell(), 0);
    assert!(machine.output().is_empty());
    assert_eq!(machine.cell_at(0), Some(0));
    assert_eq!(machine.cell_at(29999), Some(0));
    assert_eq!(machine.cell_at(30000), None);
}

#[test]
fn machine_for_empty_program_is_halted() {
    let mut machine = Machine::new(b"", b"");
    assert_eq!(machine.status(), Status::Halted);
    assert!(!machine.is_running());
    assert_eq!(machine.run(10), 0);
    assert_eq!(machine.status(), Status::Halted);
}

#[test]
fn step_executes_one_instruction() {
    let mut machine = Machine::new(b"+>-.", b"");
    machine.step();
    assert_eq!((machine.code_pointer(), machine.pointer(), machine.cell()), (1, 0, 1));
    machine.step();
    assert_eq!((machine.code_pointer(), machine.pointer(), machine.cell()), (2, 1, 0));
    machine.step();
    assert_eq!((machine.code_pointer(), machine.pointer(), machine.cell()), (3, 1, 255));
    assert_eq!(machine.status(), Status::Running);
    machine.step();
    assert_eq!(machine.code_pointer(), 4);
    assert_eq!(machine.output(), &vec![255u8]);
    assert_eq!(machine.status(), Status::Halted);
    assert_eq!(machine.cell_at(0), Some(1));
    assert_eq!(machine.cell_at(1), Some(255));
}

#[test]
fn step_on_a_halted_machine_changes_nothing() {
    let mut machine = Machine::new(b"+", b"");
    machine.step();
    assert_eq!(machine.status(), Status::Halted);
    machine.step();
    assert_eq!(machine.status(), Status::Halted);
    assert_eq!(machine.code_pointer(), 1);
    assert_eq!(machine.cell(), 1);
}

#[test]
fn run_counts_executed_instructions() {
    let mut machine = Machine::new(b"+++", b"");
    assert_eq!(machine.run(2), 2);
    assert_eq!(machine.status(), Status::Running);
    assert_eq!(machine.cell(), 2);
    assert_eq!(machine.run(5), 1);
    assert_eq!(machine.status(), Status::Halted);
    assert_eq!(machine.cell(), 3);
    assert_eq!(machine.run(5), 0);
}

#[test]
fn run_without_fuel_does_nothing() {
    let mut machine = Machine::new(b"+", b"");
    assert_eq!(machine.run(0), 0);
    assert_eq!(machine.cell(), 0);
    assert_eq!(machine.status(), Status::Running);
}

#[test]
fn wrapping_increment_and_decrement() {
    let mut machine = Machine::new(b"-+", b"");
    machine.step();
    assert_eq!(machine.cell(), 255);
    machine.step();
    assert_eq!(machine.cell(), 0);
}

#[test]
fn clear_loop_runs_once_for_each_unit() {
    for v in [1u64, 2, 7, 100, 255] {
        let mut program = vec![b'+'; v as usize];
        program.extend_from_slice(b"[-]");
        let mut machine = Machine::new(&program, b"");
        assert_eq!(machine.run(v), v);
        assert_eq!(machine.cell() as u64, v);
        // One step short of leaving the loop.
        assert_eq!(machine.run(2 * v), 2 * v);
        assert_eq!(machine.status(), Status::Running);
        assert_eq!(machine.cell(), 0);
        assert_eq!(machine.code_pointer() as u64, v + 2);
        assert_eq!(machine.run(STEP_LIMIT), 1);
        assert_eq!(machine.status(), Status::Halted);
        assert_eq!(machine.code_pointer() as u64, v + 3);
        assert_eq!(machine.cell(), 0);
    }
}

#[test]
fn clear_loop_takes_one_plus_twice_the_cell_value_steps() {
    let mut machine = Machine::new(b"+++[-]", b"");
    assert_eq!(machine.run(STEP_LIMIT), 3 + 1 + 2 * 3);
    assert_eq!(machine.status(), Status::Halted);
    let mut machine = Machine::new(b"-[-]", b"");
    assert_eq!(machine.run(STEP_LIMIT), 1 + 1 + 2 * 255);
    assert_eq!(machine.cell(), 0);
}

#[test]
fn clear_loop_on_zero_is_skipped_in_one_step() {
    let mut machine = Machine::new(b"[-]+", b"");
    machine.step();
    assert_eq!(machine.code_pointer(), 3);
    assert_eq!(machine.cell(), 0);
    assert_eq!(machine.run(STEP_LIMIT), 1);
    assert_eq!(machine.cell(), 1);
}

#[test]
fn nested_clear_loop_resolves_inner_then_outer() {
    let mut machine = Machine::new(b"++[[-]]", b"");
    machine.run(2);
    machine.step();
    assert_eq!(machine.code_pointer(), 3);
    machine.step();
    assert_eq!(machine.code_pointer(), 4);
    machine.step();
    assert_eq!((machine.code_pointer(), machine.cell()), (5, 1));
    // The inner `]` goes back to just after the inner `[`.
    machine.step();
    assert_eq!(machine.code_pointer(), 4);
    machine.step();
    assert_eq!((machine.code_pointer(), machine.cell()), (5, 0));
    // The inner `]` falls through, and so does the outer one.
    machine.step();
    assert_eq!(machine.code_pointer(), 6);
    machine.step();
    assert_eq!(machine.code_pointer(), 7);
    assert_eq!(machine.status(), Status::Halted);
}

#[test]
fn skipping_an_outer_loop_passes_over_the_inner_one() {
    let mut machine = Machine::new(b"[[-]]+", b"");
    machine.step();
    assert_eq!(machine.code_pointer(), 5);
}

#[test]
fn diverging_program_stops_when_fuel_runs_out() {
    let mut machine = Machine::new(b"+[]", b"");
    assert_eq!(machine.run(1000), 1000);
    assert_eq!(machine.status(), Status::Running);
    assert_eq!(machine.cell(), 1);
    assert_eq!(machine.run(1), 1);
    assert_eq!(machine.status(), Status::Running);
}

#[test]
fn input_cursor_stops_at_end_of_input() {
    let mut machine = Machine::new(b",,,,", b"ab");
    machine.step();
    assert_eq!((machine.cell(), machine.input_pointer()), (b'a', 1));
    machine.step();
    assert_eq!((machine.cell(), machine.input_pointer()), (b'b', 2));
    machine.step();
    assert_eq!((machine.cell(), machine.input_pointer()), (0, 2));
    machine.step();
    assert_eq!((machine.cell(), machine.input_pointer()), (0, 2));
    assert_eq!(machine.status(), Status::Halted);
}

#[test]
fn read_on_empty_input_clears_the_cell() {
    let mut machine = Machine::new(b"+++,", b"");
    machine.run(3);
    assert_eq!(machine.cell(), 3);
    machine.step();
    assert_eq!(machine.cell(), 0);
    assert_eq!(machine.input_pointer(), 0);
}

#[test]
fn fault_is_final() {
    let mut machine = Machine::new(b"+.<+.", b"");
    assert_eq!(machine.run(10), 3);
    assert_eq!(machine.status(), Status::OutOfBounds);
    assert!(!machine.is_running());
    assert_eq!(machine.code_pointer(), 2);
    assert_eq!(machine.pointer(), 0);
    assert_eq!(machine.run(10), 0);
    machine.step();
    assert_eq!(machine.status(), Status::OutOfBounds);
    assert_eq!(machine.code_pointer(), 2);
    assert_eq!(machine.into_output(), vec![1u8]);
}

#[test]
fn unmatched_open_bracket_faults_where_it_stands() {
    let mut machine = Machine::new(b"+.-[+", b"");
    assert_eq!(machine.run(10), 4);
    assert_eq!(machine.status(), Status::MalformedProgram);
    assert_eq!(machine.code_pointer(), 3);
    assert_eq!(machine.output(), &vec![1u8]);
}

#[test]
fn unmatched_close_bracket_faults_where_it_stands() {
    let mut machine = Machine::new(b"+]", b"");
    assert_eq!(machine.run(10), 2);
    assert_eq!(machine.status(), Status::MalformedProgram);
    assert_eq!(machine.code_pointer(), 1);
    assert_eq!(machine.cell(), 1);
}

#[test]
fn data_pointer_moves_by_one() {
    let mut machine = Machine::new(b">>><", b"");
    machine.run(3);
    assert_eq!(machine.pointer(), 3);
    machine.step();
    assert_eq!(machine.pointer(), 2);
    assert_eq!(machine.status(), Status::Halted);
}

#[test]
fn data_pointer_stops_at_the_last_cell() {
    let program = vec![b'>'; 30001];
    let mut machine = Machine::new(&program, b"");
    assert_eq!(machine.run(29999), 29999);
    assert_eq!(machine.pointer(), 29999);
    assert_eq!(machine.status(), Status::Running);
    assert_eq!(machine.run(5), 1);
    assert_eq!(machine.status(), Status::OutOfBounds);
    assert_eq!(machine.pointer(), 29999);
    assert_eq!(machine.code_pointer(), 29999);
}

#[test]
fn data_pointer_stops_at_the_first_cell() {
    let mut machine = Machine::new(b"<", b"");
    machine.step();
    assert_eq!(machine.status(), Status::OutOfBounds);
    assert_eq!(machine.pointer(), 0);
    assert_eq!(machine.code_pointer(), 0);
}

#[test]
fn output_grows_by_one_byte_for_each_dot() {
    let mut machine = Machine::new(b"+.+.+.", b"");
    machine.run(2);
    assert_eq!(machine.output(), &vec![1u8]);
    machine.run(2);
    assert_eq!(machine.output(), &vec![1u8, 2]);
    machine.run(2);
    assert_eq!(machine.into_output(), vec![1u8, 2, 3]);
}
