//! An execution engine for Brainfuck programs on a fixed tape of 30,000 byte
//! cells.
//!
//! The mathematical model of the engine lives in [`semantics`]: a state, one
//! step of execution, and the iteration of steps. The executable [`Machine`]
//! is proved to follow that model step for step, and
//! [`brainfuck_interpreter`] runs a program from source text to output text.
//! What holds of every execution is stated and proved in [`laws`].

pub mod brackets;
pub mod instruction;
pub mod interpreter;
pub mod laws;
pub mod machine;
pub mod semantics;
pub mod tape;

pub use brackets::{find_matching_close, find_matching_open};
pub use instruction::Instruction;
pub use interpreter::{
    brainfuck_interpreter, bytes_to_text, interpret_within, Failure, STEP_LIMIT,
};
pub use machine::Machine;
pub use semantics::{Fault, State, Status, TAPE_LEN};
pub use tape::Tape;
