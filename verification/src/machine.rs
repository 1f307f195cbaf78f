//! The executable engine.

use vstd::prelude::*;
use crate::brackets::{find_matching_close, find_matching_open};
use crate::instruction::Instruction;
use crate::semantics::{lemma_stopped_after, Fault, State, Status};
use crate::tape::Tape;

verus! {

/// One execution of a program on an input: the tape, the instruction pointer,
/// the input cursor, the output written so far, and the fault that stopped
/// it, if one did.
pub struct Machine<'a> {
    program: &'a [u8],
    input: &'a [u8],
    tape: Tape,
    code_pointer: usize,
    input_pointer: usize,
    output: Vec<u8>,
    fault: Option<Fault>,
}

impl<'a> View for Machine<'a> {
    type V = State;

    closed spec fn view(&self) -> State {
        State {
            program: self.program@,
            input: self.input@,
            tape: self.tape.cells(),
            pointer: self.tape.position(),
            code_pointer: self.code_pointer as int,
            input_pointer: self.input_pointer as int,
            output: self.output@,
            fault: self.fault,
        }
    }
}

impl<'a> Machine<'a> {
    /// A machine about to execute the first instruction of `program`, with
    /// all of `input` still to read.
    pub fn new(program: &'a [u8], input: &'a [u8]) -> (machine: Self)
        ensures
            machine@ == State::initial(program@, input@),
    {
        Machine {
            program,
            input,
            tape: Tape::new(),
            code_pointer: 0,
            input_pointer: 0,
            output: Vec::new(),
            fault: None,
        }
    }

    /// Executes one instruction, if the machine is running.
    pub fn step(&mut self)
        ensures
            final(self)@ == old(self)@.step(),
    {
        if self.fault.is_some() || self.code_pointer >= self.program.len() {
            return ;
        }
        let here: usize = self.code_pointer;
        match Instruction::decode(self.program[here]) {
            Instruction::Right => {
                if !self.tape.move_right() {
                    self.fault = Some(Fault::OutOfBounds);
                    return ;
                }
            },
            Instruction::Left => {
                if !self.tape.move_left() {
                    self.fault = Some(Fault::OutOfBounds);
                    return ;
                }
            },
            Instruction::Increment => {
                let cell: u8 = self.tape.get();
                self.tape.set(cell.wrapping_add(1));
            },
            Instruction::Decrement => {
                let cell: u8 = self.tape.get();
                self.tape.set(cell.wrapping_sub(1));
            },
            Instruction::Output => {
                let cell: u8 = self.tape.get();
                self.output.push(cell);
            },
            Instruction::Input => {
                if self.input_pointer < self.input.len() {
                    let byte: u8 = self.input[self.input_pointer];
                    self.tape.set(byte);
                    self.input_pointer = self.input_pointer + 1;
                } else {
                    self.tape.set(0);
                }
            },
            Instruction::Open => {
                if self.tape.get() == 0 {
                    match find_matching_close(self.program, here) {
                        Some(close) => {
                            self.code_pointer = close;
                        },
                        None => {
                            self.fault = Some(Fault::MalformedProgram);
                            return ;
                        },
                    }
                }
            },
            Instruction::Close => {
                if self.tape.get() != 0 {
                    match find_matching_open(self.program, here) {
                        Some(open) => {
                            self.code_pointer = open;
                        },
                        None => {
                            self.fault = Some(Fault::MalformedProgram);
                            return ;
                        },
                    }
                }
            },
            Instruction::Nop => {},
        }
        self.code_pointer = self.code_pointer + 1;
    }

    /// Executes instructions until the machine stops or `fuel` of them have
    /// been executed, whichever comes first. Returns the number executed.
    pub fn run(&mut self, fuel: u64) -> (used: u64)
        ensures
            final(self)@ == old(self)@.steps(fuel as nat),
            final(self)@ == old(self)@.steps(used as nat),
            used <= fuel,
            forall|n: nat| n < used ==> #[trigger] old(self)@.steps(n).running(),
            used < fuel ==> !final(self)@.running(),
    {
        let ghost start: State = self@;
        let mut used: u64 = 0;
        while used < fuel && self.is_running()
            invariant
                used <= fuel,
                self@ == start.steps(used as nat),
                forall|n: nat| n < used ==> #[trigger] start.steps(n).running(),
            ensures
                used < fuel ==> !self@.running(),
            decreases fuel - used,
        {
            self.step();
            used = used + 1;
        }
        proof {
            if used < fuel {
                lemma_stopped_after(start, used as nat, fuel as nat);
            }
        }
        used
    }

    /// Whether there is an instruction to execute next.
    pub fn is_running(&self) -> (running: bool)
        ensures
            running == self@.running(),
    {
        self.fault.is_none() && self.code_pointer < self.program.len()
    }

    /// Where the execution stands.
    pub fn status(&self) -> (status: Status)
        ensures
            status == self@.status(),
    {
        match self.fault {
            Some(Fault::OutOfBounds) => Status::OutOfBounds,
            Some(Fault::MalformedProgram) => Status::MalformedProgram,
            None => if self.code_pointer < self.program.len() {
                Status::Running
            } else {
                Status::Halted
            },
        }
    }

    /// Everything written so far.
    pub fn output(&self) -> (output: &Vec<u8>)
        ensures
            output@ == self@.output,
    {
        &self.output
    }

    /// Gives up the machine for what it has written.
    pub fn into_output(self) -> (output: Vec<u8>)
        ensures
            output@ == self@.output,
    {
        self.output
    }

    /// The data pointer.
    pub fn pointer(&self) -> (pointer: usize)
        ensures
            pointer == self@.pointer,
            pointer < self@.tape.len(),
    {
        self.tape.pointer()
    }

    /// The instruction pointer.
    pub fn code_pointer(&self) -> (code_pointer: usize)
        ensures
            code_pointer == self@.code_pointer,
    {
        self.code_pointer
    }

    /// The input cursor.
    pub fn input_pointer(&self) -> (input_pointer: usize)
        ensures
            input_pointer == self@.input_pointer,
    {
        self.input_pointer
    }

    /// The value of the current cell.
    pub fn cell(&self) -> (value: u8)
        ensures
            value == self@.cell(),
    {
        self.tape.get()
    }

    /// The value of the cell at `index`, if the tape has such a cell.
    pub fn cell_at(&self, index: usize) -> (value: Option<u8>)
        ensures
            value == if index < self@.tape.len() {
                Some(self@.tape[index as int])
            } else {
                None
            },
    {
        self.tape.cell_at(index)
    }
}

} // verus!
