//! Running a program from source text to output text.

use vstd::prelude::*;
use vstd::string::StringSliceAdditionalSpecFns;
use crate::machine::Machine;
use crate::semantics::{State, Status};

verus! {

/// The number of instructions after which [`brainfuck_interpreter`] gives up
/// on a program that is still running.
pub const STEP_LIMIT: u64 = 0xffff_ffff_ffff_ffff;

/// An execution that did not run to the end of its program.
#[derive(Debug, PartialEq, Eq)]
pub struct Failure {
    /// Why the execution counts as failed: `OutOfBounds` or
    /// `MalformedProgram` for a fault, `Running` for a program that had not
    /// stopped when the step limit was reached. Never `Halted`.
    pub status: Status,
    /// What the program had written before it failed.
    pub output: String,
}

/// Output bytes as text: one character for each byte, the character whose
/// code point is the byte's value.
pub open spec fn text_of(bytes: Seq<u8>) -> Seq<char> {
    bytes.map_values(|byte: u8| byte as char)
}

/// The state in which the execution of `program` on `input` ends: the state
/// in which it stops by itself or, if it has not stopped after `STEP_LIMIT`
/// instructions, the state it is in then.
pub open spec fn end_state(program: Seq<u8>, input: Seq<u8>) -> State {
    State::initial(program, input).steps(STEP_LIMIT as nat)
}

/// Appends `ch` to `s`, as [`String::push`] is documented to do.
pub assume_specification[ String::push ](s: &mut String, ch: char)
    ensures
        final(s)@ == old(s)@.push(ch),
;

/// Turns output bytes into text, one character for each byte.
pub fn bytes_to_text(bytes: &[u8]) -> (text: String)
    ensures
        text@ == text_of(bytes@),
{
    let mut text: String = String::new();
    let mut done: usize = 0;
    while done < bytes.len()
        invariant
            done <= bytes@.len(),
            text@ == text_of(bytes@.subrange(0, done as int)),
        decreases bytes@.len() - done,
    {
        text.push(bytes[done] as char);
        proof {
            assert(bytes@.subrange(0, done + 1) =~= bytes@.subrange(0, done as int).push(
                bytes@[done as int],
            ));
        }
        done = done + 1;
    }
    proof {
        assert(bytes@.subrange(0, done as int) =~= bytes@);
    }
    text
}

/// `result` says how the execution that ended in `end` went: `Ok` with all
/// that was written when it ran to the end of the program, and otherwise
/// `Err` with the status it ended in and what was written until then.
pub open spec fn reports(result: Result<String, Failure>, end: State) -> bool {
    match result {
        Ok(output) => end.halted() && output@ == text_of(end.output),
        Err(failure) => {
            &&& !end.halted()
            &&& failure.status == end.status()
            &&& failure.output@ == text_of(end.output)
        },
    }
}

/// Executes at most `limit` instructions of the program `code` on the input
/// `input_data`, both taken as their UTF-8 bytes, and returns what was
/// written.
///
/// The result is `Ok` exactly when the program has run to its end by then.
/// When it has faulted, or is still running after `limit` instructions, the
/// result is an `Err` that says which and holds what was written until then.
pub fn interpret_within(code: &str, input_data: &str, limit: u64) -> (result: Result<
    String,
    Failure,
>)
    ensures
        reports(
            result,
            State::initial(code.spec_bytes(), input_data.spec_bytes()).steps(limit as nat),
        ),
{
    let mut machine = Machine::new(code.as_bytes(), input_data.as_bytes());
    machine.run(limit);
    let status = machine.status();
    let output = bytes_to_text(machine.output().as_slice());
    match status {
        Status::Halted => Ok(output),
        _ => Err(Failure { status, output }),
    }
}

/// Executes the program `code` on the input `input_data`, both taken as
/// their UTF-8 bytes, and returns what it wrote.
///
/// The result is `Ok` exactly when the program runs to its end. When it
/// faults, or is still running after `STEP_LIMIT` instructions, the result
/// is an `Err` that says which and holds what was written until then.
pub fn brainfuck_interpreter(code: &str, input_data: &str) -> (result: Result<String, Failure>)
    ensures
        reports(result, end_state(code.spec_bytes(), input_data.spec_bytes())),
{
    interpret_within(code, input_data, STEP_LIMIT)
}

} // verus!
