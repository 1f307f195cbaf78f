//! The instruction set: eight meaningful bytes, every other byte a no-op.

use vstd::prelude::*;

verus! {

/// `>`
pub const RIGHT: u8 = 62;

/// `<`
pub const LEFT: u8 = 60;

/// `+`
pub const INCREMENT: u8 = 43;

/// `-`
pub const DECREMENT: u8 = 45;

/// `.`
pub const OUTPUT: u8 = 46;

/// `,`
pub const INPUT: u8 = 44;

/// `[`
pub const OPEN: u8 = 91;

/// `]`
pub const CLOSE: u8 = 93;

/// What one byte of a program asks the engine to do.
#[derive(Clone, Copy, Debug, PartialEq, Eq, Structural)]
pub enum Instruction {
    /// `>`: move the data pointer one cell to the right.
    Right,
    /// `<`: move the data pointer one cell to the left.
    Left,
    /// `+`: add one to the current cell, modulo 256.
    Increment,
    /// `-`: subtract one from the current cell, modulo 256.
    Decrement,
    /// `.`: append the current cell to the output.
    Output,
    /// `,`: read the next input byte into the current cell, or 0 when the
    /// input is used up.
    Input,
    /// `[`: skip past the matching `]` when the current cell is 0.
    Open,
    /// `]`: go back to just after the matching `[` when the current cell is
    /// not 0.
    Close,
    /// Any other byte: do nothing.
    Nop,
}

impl Instruction {
    /// The instruction that a program byte stands for.
    pub open spec fn of(byte: u8) -> Instruction {
        if byte == RIGHT {
            Instruction::Right
        } else if byte == LEFT {
            Instruction::Left
        } else if byte == INCREMENT {
            Instruction::Increment
        } else if byte == DECREMENT {
            Instruction::Decrement
        } else if byte == OUTPUT {
            Instruction::Output
        } else if byte == INPUT {
            Instruction::Input
        } else if byte == OPEN {
            Instruction::Open
        } else if byte == CLOSE {
            Instruction::Close
        } else {
            Instruction::Nop
        }
    }

    /// Decodes one program byte.
    pub fn decode(byte: u8) -> (instruction: Instruction)
        ensures
            instruction == Instruction::of(byte),
    {
        if byte == RIGHT {
            Instruction::Right
        } else if byte == LEFT {
            Instruction::Left
        } else if byte == INCREMENT {
            Instruction::Increment
        } else if byte == DECREMENT {
            Instruction::Decrement
        } else if byte == OUTPUT {
            Instruction::Output
        } else if byte == INPUT {
            Instruction::Input
        } else if byte == OPEN {
            Instruction::Open
        } else if byte == CLOSE {
            Instruction::Close
        } else {
            Instruction::Nop
        }
    }
}

} // verus!
