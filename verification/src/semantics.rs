//! The mathematical model of the engine: a state, one step of execution, and
//! the iteration of steps.

use vstd::prelude::*;
use crate::brackets::{matching_close, matching_open};
use crate::instruction::Instruction;

verus! {

/// Number of cells on the tape.
pub const TAPE_LEN: usize = 30000;

/// The two ways in which a program can bring the engine to a stop before its
/// end.
#[derive(Clone, Copy, Debug, PartialEq, Eq, Structural)]
pub enum Fault {
    /// The data pointer was asked to leave the tape.
    OutOfBounds,
    /// A bracket had to jump to its partner and has none.
    MalformedProgram,
}

/// Where an execution stands.
#[derive(Clone, Copy, Debug, PartialEq, Eq, Structural)]
pub enum Status {
    /// There is an instruction to execute next.
    Running,
    /// The instruction pointer has moved past the last instruction.
    Halted,
    /// Stopped by [`Fault::OutOfBounds`].
    OutOfBounds,
    /// Stopped by [`Fault::MalformedProgram`].
    MalformedProgram,
}

/// The cell value after `+`.
pub open spec fn incremented(cell: u8) -> u8 {
    ((cell + 1) % 256) as u8
}

/// The cell value after `-`.
pub open spec fn decremented(cell: u8) -> u8 {
    ((cell + 255) % 256) as u8
}

/// Everything that an execution consists of at one moment.
pub struct State {
    /// The program, fixed for the whole execution.
    pub program: Seq<u8>,
    /// The input, fixed for the whole execution.
    pub input: Seq<u8>,
    /// The cells.
    pub tape: Seq<u8>,
    /// Data pointer: index of the current cell.
    pub pointer: int,
    /// Instruction pointer: index of the next instruction.
    pub code_pointer: int,
    /// Input cursor: index of the next input byte.
    pub input_pointer: int,
    /// Everything written so far.
    pub output: Seq<u8>,
    /// The fault that stopped the execution, if one did.
    pub fault: Option<Fault>,
}

impl State {
    /// The state in which every execution starts: a tape of zeros, all
    /// pointers at 0, nothing written.
    pub open spec fn initial(program: Seq<u8>, input: Seq<u8>) -> State {
        State {
            program,
            input,
            tape: Seq::new(TAPE_LEN as nat, |i: int| 0u8),
            pointer: 0,
            code_pointer: 0,
            input_pointer: 0,
            output: Seq::empty(),
            fault: None,
        }
    }

    /// The tape has its fixed length, and every pointer is in its range.
    pub open spec fn wf(self) -> bool {
        &&& self.tape.len() == TAPE_LEN
        &&& 0 <= self.pointer < TAPE_LEN
        &&& 0 <= self.code_pointer <= self.program.len()
        &&& 0 <= self.input_pointer <= self.input.len()
    }

    /// There is an instruction to execute next.
    pub open spec fn running(self) -> bool {
        self.fault is None && 0 <= self.code_pointer < self.program.len()
    }

    /// The program has run to its end.
    pub open spec fn halted(self) -> bool {
        self.fault is None && !(0 <= self.code_pointer < self.program.len())
    }

    /// Where the execution stands.
    pub open spec fn status(self) -> Status {
        match self.fault {
            Some(Fault::OutOfBounds) => Status::OutOfBounds,
            Some(Fault::MalformedProgram) => Status::MalformedProgram,
            None => if 0 <= self.code_pointer < self.program.len() {
                Status::Running
            } else {
                Status::Halted
            },
        }
    }

    /// The current cell.
    pub open spec fn cell(self) -> u8 {
        self.tape[self.pointer]
    }

    /// The instruction to execute next.
    pub open spec fn instruction(self) -> Instruction {
        Instruction::of(self.program[self.code_pointer])
    }

    /// This state, stopped by `fault`.
    pub open spec fn failed(self, fault: Fault) -> State {
        State { fault: Some(fault), ..self }
    }

    /// This state with the instruction pointer at `target`.
    pub open spec fn at(self, target: int) -> State {
        State { code_pointer: target, ..self }
    }

    /// This state with the data pointer at `target`.
    pub open spec fn pointing(self, target: int) -> State {
        State { pointer: target, ..self }
    }

    /// This state with `value` in the current cell.
    pub open spec fn storing(self, value: u8) -> State {
        State { tape: self.tape.update(self.pointer, value), ..self }
    }

    /// What executing the next instruction does to everything but the
    /// instruction pointer; a fault where the instruction cannot be carried
    /// out.
    pub open spec fn execute(self) -> State {
        match self.instruction() {
            Instruction::Right => if self.pointer + 1 < TAPE_LEN {
                self.pointing(self.pointer + 1)
            } else {
                self.failed(Fault::OutOfBounds)
            },
            Instruction::Left => if self.pointer >= 1 {
                self.pointing(self.pointer - 1)
            } else {
                self.failed(Fault::OutOfBounds)
            },
            Instruction::Increment => self.storing(incremented(self.cell())),
            Instruction::Decrement => self.storing(decremented(self.cell())),
            Instruction::Output => State { output: self.output.push(self.cell()), ..self },
            Instruction::Input => if 0 <= self.input_pointer < self.input.len() {
                State {
                    input_pointer: self.input_pointer + 1,
                    ..self.storing(self.input[self.input_pointer])
                }
            } else {
                self.storing(0)
            },
            Instruction::Open => if self.cell() == 0 {
                match matching_close(self.program, self.code_pointer) {
                    Some(close) => self.at(close),
                    None => self.failed(Fault::MalformedProgram),
                }
            } else {
                self
            },
            Instruction::Close => if self.cell() != 0 {
                match matching_open(self.program, self.code_pointer) {
                    Some(open) => self.at(open),
                    None => self.failed(Fault::MalformedProgram),
                }
            } else {
                self
            },
            Instruction::Nop => self,
        }
    }

    /// One step of execution. A state that is not running stays as it is. A
    /// running state executes its next instruction; unless that faults, the
    /// instruction pointer then moves on by one, from where the instruction
    /// left it.
    pub open spec fn step(self) -> State {
        if !self.running() {
            self
        } else {
            let next = self.execute();
            if next.fault is Some {
                next
            } else {
                next.at(next.code_pointer + 1)
            }
        }
    }

    /// The state after `n` steps.
    pub open spec fn steps(self, n: nat) -> State
        decreases n,
    {
        if n == 0 {
            self
        } else {
            self.steps((n - 1) as nat).step()
        }
    }
}

/// Steps compose: `n + m` steps are `n` steps and then `m` more.
pub proof fn lemma_steps_add(s: State, n: nat, m: nat)
    ensures
        s.steps(n + m) == s.steps(n).steps(m),
    decreases m,
{
    if m > 0 {
        lemma_steps_add(s, n, (m - 1) as nat);
        assert(s.steps(n + m) == s.steps((n + m - 1) as nat).step());
    }
}

/// A state that is not running is never left again.
pub proof fn lemma_stopped_stays(s: State, n: nat)
    requires
        !s.running(),
    ensures
        s.steps(n) == s,
    decreases n,
{
    if n > 0 {
        lemma_stopped_stays(s, (n - 1) as nat);
    }
}

/// Once an execution has stopped, more steps change nothing.
pub proof fn lemma_stopped_after(s: State, n: nat, m: nat)
    requires
        !s.steps(n).running(),
        n <= m,
    ensures
        s.steps(m) == s.steps(n),
{
    lemma_steps_add(s, n, (m - n) as nat);
    lemma_stopped_stays(s.steps(n), (m - n) as nat);
}

/// An execution stops in one state only: whenever it is looked at after
/// it has stopped, it is in that state.
pub proof fn lemma_stop_is_unique(s: State, n: nat, m: nat)
    requires
        !s.steps(n).running(),
        !s.steps(m).running(),
    ensures
        s.steps(n) == s.steps(m),
{
    if n <= m {
        lemma_stopped_after(s, n, m);
    } else {
        lemma_stopped_after(s, m, n);
    }
}

} // verus!
