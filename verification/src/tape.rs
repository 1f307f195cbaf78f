//! The tape: a fixed number of byte cells and the data pointer that selects
//! one of them.

use vstd::prelude::*;
use crate::semantics::TAPE_LEN;

verus! {

/// `TAPE_LEN` cells and a data pointer that is always on one of them.
pub struct Tape {
    cells: Vec<u8>,
    pointer: usize,
}

impl Tape {
    #[verifier::type_invariant]
    spec fn inv(&self) -> bool {
        self.cells@.len() == TAPE_LEN && self.pointer < TAPE_LEN
    }

    /// The cells, from the first to the last.
    pub closed spec fn cells(&self) -> Seq<u8> {
        self.cells@
    }

    /// The index of the current cell.
    pub closed spec fn position(&self) -> int {
        self.pointer as int
    }

    /// A tape of zeros with the data pointer on the first cell.
    pub fn new() -> (tape: Tape)
        ensures
            tape.cells() == Seq::new(TAPE_LEN as nat, |i: int| 0u8),
            tape.position() == 0,
    {
        let mut cells: Vec<u8> = Vec::new();
        let mut filled: usize = 0;
        while filled < TAPE_LEN
            invariant
                filled <= TAPE_LEN,
                cells@.len() == filled,
                forall|i: int| 0 <= i < filled ==> cells@[i] == 0,
            decreases TAPE_LEN - filled,
        {
            cells.push(0u8);
            filled = filled + 1;
        }
        assert(cells@ =~= Seq::new(TAPE_LEN as nat, |i: int| 0u8));
        Tape { cells, pointer: 0 }
    }

    /// The index of the current cell.
    pub fn pointer(&self) -> (pointer: usize)
        ensures
            pointer == self.position(),
            pointer < TAPE_LEN,
            self.cells().len() == TAPE_LEN,
    {
        proof {
            use_type_invariant(self);
        }
        self.pointer
    }

    /// The value of the current cell.
    pub fn get(&self) -> (value: u8)
        ensures
            value == self.cells()[self.position()],
    {
        proof {
            use_type_invariant(self);
        }
        self.cells[self.pointer]
    }

    /// The value of the cell at `index`, if the tape has such a cell.
    pub fn cell_at(&self, index: usize) -> (value: Option<u8>)
        ensures
            self.cells().len() == TAPE_LEN,
            value == if index < TAPE_LEN {
                Some(self.cells()[index as int])
            } else {
                None
            },
    {
        proof {
            use_type_invariant(self);
        }
        if index < TAPE_LEN {
            Some(self.cells[index])
        } else {
            None
        }
    }

    /// Stores `value` in the current cell.
    pub fn set(&mut self, value: u8)
        ensures
            final(self).cells() == old(self).cells().update(old(self).position(), value),
            final(self).position() == old(self).position(),
    {
        proof {
            use_type_invariant(&*self);
        }
        self.cells[self.pointer] = value;
    }

    /// Moves the data pointer one cell to the right, unless it is on the last
    /// cell; says whether it moved.
    pub fn move_right(&mut self) -> (moved: bool)
        ensures
            moved == (old(self).position() + 1 < TAPE_LEN),
            final(self).position() == if moved {
                old(self).position() + 1
            } else {
                old(self).position()
            },
            final(self).cells() == old(self).cells(),
    {
        proof {
            use_type_invariant(&*self);
        }
        if self.pointer + 1 < TAPE_LEN {
            self.pointer = self.pointer + 1;
            true
        } else {
            false
        }
    }

    /// Moves the data pointer one cell to the left, unless it is on the first
    /// cell; says whether it moved.
    pub fn move_left(&mut self) -> (moved: bool)
        ensures
            moved == (old(self).position() >= 1),
            final(self).position() == if moved {
                old(self).position() - 1
            } else {
                old(self).position()
            },
            final(self).cells() == old(self).cells(),
    {
        proof {
            use_type_invariant(&*self);
        }
        if self.pointer >= 1 {
            self.pointer = self.pointer - 1;
            true
        } else {
            false
        }
    }
}

} // verus!
