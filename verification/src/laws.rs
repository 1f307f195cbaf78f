//! What holds of every execution.

use vstd::prelude::*;
use crate::brackets::{
    is_matching_close, is_matching_open, lemma_matching_close_found, lemma_matching_open_found,
    matching_close, matching_open, nesting,
};
use crate::instruction::{Instruction, CLOSE, DECREMENT, LEFT, OPEN};
use crate::interpreter::{end_state, STEP_LIMIT};
use crate::semantics::{
    decremented, incremented, lemma_stopped_after, lemma_stopped_stays, Fault, State, Status,
    TAPE_LEN,
};

verus! {

/// Every execution starts in a well-formed state.
pub proof fn lemma_initial_wf(program: Seq<u8>, input: Seq<u8>)
    ensures
        State::initial(program, input).wf(),
{
}

/// A step keeps the tape at its length and every pointer in its range.
pub proof fn lemma_step_keeps_wf(s: State)
    requires
        s.wf(),
    ensures
        s.step().wf(),
{
}

/// However long an execution goes on, the tape keeps its length, the data
/// pointer stays on the tape, the instruction pointer never goes beyond the
/// end of the program, and the input cursor never goes beyond the end of the
/// input.
pub proof fn lemma_steps_keep_wf(s: State, n: nat)
    requires
        s.wf(),
    ensures
        s.steps(n).wf(),
    decreases n,
{
    if n > 0 {
        lemma_steps_keep_wf(s, (n - 1) as nat);
        lemma_step_keeps_wf(s.steps((n - 1) as nat));
    }
}

/// A step leaves program and input as they are, never moves the input cursor
/// back, and only ever appends to the output.
pub proof fn lemma_step_monotone(s: State)
    ensures
        s.step().program == s.program,
        s.step().input == s.input,
        s.step().input_pointer >= s.input_pointer,
        s.output.is_prefix_of(s.step().output),
{
}

/// However long an execution goes on, program and input stay as they are,
/// the input cursor never moves back, and what was written stays written.
pub proof fn lemma_steps_monotone(s: State, n: nat)
    ensures
        s.steps(n).program == s.program,
        s.steps(n).input == s.input,
        s.steps(n).input_pointer >= s.input_pointer,
        s.output.is_prefix_of(s.steps(n).output),
    decreases n,
{
    if n > 0 {
        lemma_steps_monotone(s, (n - 1) as nat);
        lemma_step_monotone(s.steps((n - 1) as nat));
    }
}

/// A fault is final: the state in which it happened is never left.
pub proof fn lemma_fault_is_final(s: State, n: nat)
    requires
        s.fault is Some,
    ensures
        s.steps(n) == s,
{
    lemma_stopped_stays(s, n);
}

/// An execution that stops within the step limit ends in the state in
/// which it stopped.
pub proof fn lemma_end_state_of_stopping(program: Seq<u8>, input: Seq<u8>, n: nat)
    requires
        n <= STEP_LIMIT,
        !State::initial(program, input).steps(n).running(),
    ensures
        end_state(program, input) == State::initial(program, input).steps(n),
{
    lemma_stopped_after(State::initial(program, input), n, STEP_LIMIT as nat);
}

/// Every byte of `program` is a no-op.
pub open spec fn only_noops(program: Seq<u8>) -> bool {
    forall|i: int|
        0 <= i < program.len() ==> Instruction::of(#[trigger] program[i]) == Instruction::Nop
}

/// A program of no-ops only moves the instruction pointer: after `n` steps
/// it stands at `n`, or at the end of the program if that is nearer, and
/// nothing else has changed.
pub proof fn lemma_noops_only_advance(program: Seq<u8>, input: Seq<u8>, n: nat)
    requires
        only_noops(program),
    ensures
        State::initial(program, input).steps(n) == State::initial(program, input).at(
            if n <= program.len() {
                n as int
            } else {
                program.len() as int
            },
        ),
    decreases n,
{
    if n > 0 {
        lemma_noops_only_advance(program, input, (n - 1) as nat);
    }
}

/// A program of no-ops writes nothing, whatever the input, and runs to its
/// end.
pub proof fn lemma_noops_write_nothing(program: Seq<u8>, input: Seq<u8>)
    requires
        only_noops(program),
        program.len() <= STEP_LIMIT,
    ensures
        end_state(program, input).halted(),
        end_state(program, input).output == Seq::<u8>::empty(),
{
    lemma_noops_only_advance(program, input, STEP_LIMIT as nat);
}

/// `+` adds one to the current cell and turns 255 into 0; nothing else
/// changes but the instruction pointer.
pub proof fn lemma_increment_wraps(s: State)
    requires
        s.wf(),
        s.running(),
        s.instruction() == Instruction::Increment,
    ensures
        s.step().cell() == if s.cell() == 255 {
            0
        } else {
            s.cell() + 1
        },
        s.step() == s.storing(s.step().cell()).at(s.code_pointer + 1),
{
}

/// `-` takes one from the current cell and turns 0 into 255; nothing else
/// changes but the instruction pointer.
pub proof fn lemma_decrement_wraps(s: State)
    requires
        s.wf(),
        s.running(),
        s.instruction() == Instruction::Decrement,
    ensures
        s.step().cell() == if s.cell() == 0 {
            255
        } else {
            s.cell() - 1
        },
        s.step() == s.storing(s.step().cell()).at(s.code_pointer + 1),
{
}

/// `+` and `-` are addition and subtraction of 1 modulo 256, and undo each
/// other on every cell value.
pub proof fn lemma_increment_decrement_inverse(cell: u8)
    ensures
        decremented(incremented(cell)) == cell,
        incremented(decremented(cell)) == cell,
        incremented(cell) == (cell + 1) % 256,
        decremented(cell) == (cell - 1) % 256,
{
}

/// Every instruction but a bracket that jumps moves the instruction pointer
/// on by one, unless it faults.
pub proof fn lemma_plain_instruction_advances(s: State)
    requires
        s.running(),
        s.step().fault is None,
        s.instruction() != Instruction::Open || s.cell() != 0,
        s.instruction() != Instruction::Close || s.cell() == 0,
    ensures
        s.step().code_pointer == s.code_pointer + 1,
{
}

/// `,` with input left stores the next input byte and moves the cursor on by
/// one.
pub proof fn lemma_input_reads_next(s: State)
    requires
        s.wf(),
        s.running(),
        s.instruction() == Instruction::Input,
        s.input_pointer < s.input.len(),
    ensures
        s.step().cell() == s.input[s.input_pointer],
        s.step().input_pointer == s.input_pointer + 1,
{
}

/// `,` with the input used up stores 0 and leaves the cursor where it is.
pub proof fn lemma_input_exhausted_reads_zero(s: State)
    requires
        s.wf(),
        s.running(),
        s.instruction() == Instruction::Input,
        s.input_pointer >= s.input.len(),
    ensures
        s.step().cell() == 0,
        s.step().input_pointer == s.input_pointer,
{
}

/// Once the input is used up the cursor never moves again.
pub proof fn lemma_exhausted_input_stays(s: State, n: nat)
    requires
        s.input_pointer >= s.input.len(),
    ensures
        s.steps(n).input_pointer == s.input_pointer,
    decreases n,
{
    if n > 0 {
        lemma_exhausted_input_stays(s, (n - 1) as nat);
        lemma_steps_monotone(s, (n - 1) as nat);
    }
}

/// `<` on the first cell is an `OutOfBounds` fault, and changes nothing
/// else.
pub proof fn lemma_left_of_first_cell_faults(s: State)
    requires
        s.running(),
        s.instruction() == Instruction::Left,
        s.pointer <= 0,
    ensures
        s.step() == s.failed(Fault::OutOfBounds),
        s.step().status() == Status::OutOfBounds,
{
}

/// `>` on the last cell is an `OutOfBounds` fault, and changes nothing else.
pub proof fn lemma_right_of_last_cell_faults(s: State)
    requires
        s.running(),
        s.instruction() == Instruction::Right,
        s.pointer >= TAPE_LEN - 1,
    ensures
        s.step() == s.failed(Fault::OutOfBounds),
        s.step().status() == Status::OutOfBounds,
{
}

/// `<` and `>` anywhere else move the data pointer by one and fault
/// nowhere.
pub proof fn lemma_moves_inside_tape(s: State)
    requires
        s.wf(),
        s.running(),
    ensures
        s.instruction() == Instruction::Left && s.pointer > 0 ==> s.step() == s.pointing(
            s.pointer - 1,
        ).at(s.code_pointer + 1),
        s.instruction() == Instruction::Right && s.pointer < TAPE_LEN - 1 ==> s.step()
            == s.pointing(s.pointer + 1).at(s.code_pointer + 1),
{
}

/// `[` on a cell that holds 0 continues after its matching `]`, on any
/// other cell with the next instruction; either way nothing else changes.
pub proof fn lemma_open_jumps_on_zero(s: State, close: int)
    requires
        s.running(),
        s.instruction() == Instruction::Open,
        is_matching_close(s.program, s.code_pointer, close),
    ensures
        s.step() == if s.cell() == 0 {
            s.at(close + 1)
        } else {
            s.at(s.code_pointer + 1)
        },
{
    lemma_matching_close_found(s.program, s.code_pointer, close);
}

/// `]` on a cell that does not hold 0 continues after its matching `[`, on
/// a cell that holds 0 with the next instruction; either way nothing else
/// changes.
pub proof fn lemma_close_jumps_on_nonzero(s: State, open: int)
    requires
        s.running(),
        s.instruction() == Instruction::Close,
        is_matching_open(s.program, s.code_pointer, open),
    ensures
        s.step() == if s.cell() != 0 {
            s.at(open + 1)
        } else {
            s.at(s.code_pointer + 1)
        },
{
    lemma_matching_open_found(s.program, s.code_pointer, open);
}

/// `.` appends the current cell to the output; nothing else changes but the
/// instruction pointer.
pub proof fn lemma_output_appends_cell(s: State)
    requires
        s.running(),
        s.instruction() == Instruction::Output,
    ensures
        s.step().output == s.output.push(s.cell()),
        s.step() == (State { output: s.step().output, ..s }).at(s.code_pointer + 1),
{
}

/// A `[` that has to jump and has no matching `]` is a `MalformedProgram`
/// fault.
pub proof fn lemma_unmatched_open_faults(s: State)
    requires
        s.running(),
        s.instruction() == Instruction::Open,
        s.cell() == 0,
        forall|close: int| !is_matching_close(s.program, s.code_pointer, close),
    ensures
        s.step() == s.failed(Fault::MalformedProgram),
        s.step().status() == Status::MalformedProgram,
{
}

/// A `]` that has to jump and has no matching `[` is a `MalformedProgram`
/// fault.
pub proof fn lemma_unmatched_close_faults(s: State)
    requires
        s.running(),
        s.instruction() == Instruction::Close,
        s.cell() != 0,
        forall|open: int| !is_matching_open(s.program, s.code_pointer, open),
    ensures
        s.step() == s.failed(Fault::MalformedProgram),
        s.step().status() == Status::MalformedProgram,
{
}

/// A program that starts with a `[` that nothing closes ends in a
/// `MalformedProgram` fault, whatever the input, and has written nothing.
pub proof fn lemma_unclosed_first_bracket_is_malformed(program: Seq<u8>, input: Seq<u8>)
    requires
        program.len() > 0,
        program[0] == OPEN,
        forall|close: int| !is_matching_close(program, 0, close),
    ensures
        end_state(program, input).status() == Status::MalformedProgram,
        end_state(program, input).output == Seq::<u8>::empty(),
{
    let start = State::initial(program, input);
    assert(start.steps(1) == start.steps(0).step());
    lemma_unmatched_open_faults(start);
    lemma_end_state_of_stopping(program, input, 1);
}

/// A program that starts with `<` ends in an `OutOfBounds` fault, whatever
/// the input, and has written nothing.
pub proof fn lemma_left_first_is_out_of_bounds(program: Seq<u8>, input: Seq<u8>)
    requires
        program.len() > 0,
        program[0] == LEFT,
    ensures
        end_state(program, input).status() == Status::OutOfBounds,
        end_state(program, input).output == Seq::<u8>::empty(),
{
    let start = State::initial(program, input);
    assert(start.steps(1) == start.steps(0).step());
    lemma_left_of_first_cell_faults(start);
    lemma_end_state_of_stopping(program, input, 1);
}

/// A `MalformedProgram` fault comes from a bracket that had to jump and has
/// no partner, and from nothing else.
pub proof fn lemma_malformed_only_from_brackets(s: State)
    requires
        s.fault is None,
        s.step().fault == Some(Fault::MalformedProgram),
    ensures
        s.running(),
        s.instruction() == Instruction::Open || s.instruction() == Instruction::Close,
        s.instruction() == Instruction::Open ==> s.cell() == 0 && matching_close(
            s.program,
            s.code_pointer,
        ) is None,
        s.instruction() == Instruction::Close ==> s.cell() != 0 && matching_open(
            s.program,
            s.code_pointer,
        ) is None,
{
}

/// An `OutOfBounds` fault comes from `<` on the first cell or `>` on the
/// last, and from nothing else.
pub proof fn lemma_out_of_bounds_only_from_moves(s: State)
    requires
        s.fault is None,
        s.step().fault == Some(Fault::OutOfBounds),
    ensures
        s.running(),
        s.instruction() == Instruction::Left || s.instruction() == Instruction::Right,
        s.instruction() == Instruction::Left ==> s.pointer < 1,
        s.instruction() == Instruction::Right ==> s.pointer + 1 >= TAPE_LEN,
{
}

/// The three instructions from `s.code_pointer` on are `[-]`, and `s` has
/// not faulted.
pub open spec fn at_clear_loop(s: State) -> bool {
    &&& s.wf()
    &&& s.fault is None
    &&& s.code_pointer + 3 <= s.program.len()
    &&& s.program[s.code_pointer] == OPEN
    &&& s.program[s.code_pointer + 1] == DECREMENT
    &&& s.program[s.code_pointer + 2] == CLOSE
}

/// In `[-]` each bracket is the other's partner.
pub proof fn lemma_clear_loop_brackets(s: State)
    requires
        at_clear_loop(s),
    ensures
        matching_close(s.program, s.code_pointer) == Some(s.code_pointer + 2),
        matching_open(s.program, s.code_pointer + 2) == Some(s.code_pointer),
{
    reveal_with_fuel(nesting, 3);
    lemma_matching_close_found(s.program, s.code_pointer, s.code_pointer + 2);
    lemma_matching_open_found(s.program, s.code_pointer + 2, s.code_pointer);
}

/// `[-]` entered on a cell that holds 0 is skipped in one step, and changes
/// nothing.
pub proof fn lemma_clear_loop_skipped(s: State)
    requires
        at_clear_loop(s),
        s.cell() == 0,
    ensures
        s.step() == s.at(s.code_pointer + 3),
{
    lemma_clear_loop_brackets(s);
}

/// `[-]` entered on a cell that does not hold 0 continues with `-`.
proof fn lemma_clear_loop_entered(s: State)
    requires
        at_clear_loop(s),
        s.cell() != 0,
    ensures
        s.step() == s.at(s.code_pointer + 1),
{
}

/// Inside `[-]`, `-` on a cell that holds `c > 0` leaves `c - 1` in it and
/// continues with `]`.
proof fn lemma_clear_loop_body(s: State, c: u8)
    requires
        at_clear_loop(s),
        c > 0,
    ensures
        s.storing(c).at(s.code_pointer + 1).step() == s.storing((c - 1) as u8).at(
            s.code_pointer + 2,
        ),
{
    let body = s.storing(c).at(s.code_pointer + 1);
    assert(body.instruction() == Instruction::Decrement);
    assert(body.cell() == c);
    assert(body.tape.update(body.pointer, (c - 1) as u8) =~= s.tape.update(
        s.pointer,
        (c - 1) as u8,
    ));
}

/// Inside `[-]`, `]` on a cell that does not hold 0 continues with `-`, and
/// on a cell that holds 0 with what follows the loop.
proof fn lemma_clear_loop_end(s: State, c: u8)
    requires
        at_clear_loop(s),
    ensures
        s.storing(c).at(s.code_pointer + 2).step() == s.storing(c).at(
            if c != 0 {
                s.code_pointer + 1
            } else {
                s.code_pointer + 3
            },
        ),
{
    let end = s.storing(c).at(s.code_pointer + 2);
    lemma_clear_loop_brackets(s);
    assert(end.instruction() == Instruction::Close);
    assert(end.cell() == c);
}

/// `[-]` entered on a cell that holds `v > 0`: for each `k < v`, after
/// `1 + 2 * k` steps the execution stands before `-` with `v - k` in the
/// cell, and one step later before `]` with `v - k - 1` in it. Nothing else
/// has changed.
pub proof fn lemma_clear_loop_iteration(s: State, k: nat)
    requires
        at_clear_loop(s),
        k < s.cell(),
    ensures
        s.steps(1 + 2 * k) == s.storing((s.cell() - k) as u8).at(s.code_pointer + 1),
        s.steps(2 + 2 * k) == s.storing((s.cell() - k - 1) as u8).at(s.code_pointer + 2),
    decreases k,
{
    let v: int = s.cell() as int;
    if k == 0 {
        assert(s.steps(0) == s);
        assert(s.steps(1) == s.steps(0).step());
        lemma_clear_loop_entered(s);
        assert(s.tape.update(s.pointer, s.cell()) =~= s.tape);
        assert(s.storing(s.cell()) == s);
    } else {
        lemma_clear_loop_iteration(s, (k - 1) as nat);
        assert(2 + 2 * (k - 1) == 2 * k);
        assert(s.steps(1 + 2 * k) == s.steps((2 * k) as nat).step());
        lemma_clear_loop_end(s, (v - k) as u8);
    }
    assert(s.steps(2 + 2 * k) == s.steps(1 + 2 * k).step());
    lemma_clear_loop_body(s, (v - k) as u8);
}

/// `[-]` entered on a cell that holds `v > 0` is left after exactly
/// `1 + 2 * v` steps, with 0 in the cell and nothing else changed: one step
/// to enter, and `v` times `-` and `]`. Until then the execution stays
/// inside the loop, and it stands before `-` after `1 + 2 * k` steps for
/// each `k < v`.
pub proof fn lemma_clear_loop(s: State)
    requires
        at_clear_loop(s),
        s.cell() > 0,
    ensures
        s.steps(1 + 2 * (s.cell() as nat)) == s.storing(0).at(s.code_pointer + 3),
        forall|k: nat|
            k < s.cell() ==> (#[trigger] s.steps(1 + 2 * k)).code_pointer == s.code_pointer + 1,
        forall|n: nat|
            n < 1 + 2 * s.cell() ==> s.code_pointer <= (#[trigger] s.steps(n)).code_pointer
                < s.code_pointer + 3,
{
    let v: nat = s.cell() as nat;
    lemma_clear_loop_iteration(s, (v - 1) as nat);
    assert(2 + 2 * (v - 1) == 2 * v);
    assert(s.steps(1 + 2 * v) == s.steps(2 * v).step());
    lemma_clear_loop_end(s, 0);
    assert forall|k: nat| k < s.cell() implies (#[trigger] s.steps(1 + 2 * k)).code_pointer
        == s.code_pointer + 1 by {
        lemma_clear_loop_iteration(s, k);
    }
    assert forall|n: nat| n < 1 + 2 * s.cell() implies s.code_pointer <= (#[trigger] s.steps(
        n,
    )).code_pointer < s.code_pointer + 3 by {
        if n == 0 {
            assert(s.steps(0) == s);
        } else {
            let k: nat = ((n - 1) / 2) as nat;
            lemma_clear_loop_iteration(s, k);
            assert(n == 1 + 2 * k || n == 2 + 2 * k);
        }
    }
}

} // verus!
