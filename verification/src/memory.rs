//! The tape: a fixed number of byte cells and the data pointer that selects one.

use vstd::prelude::*;

use crate::error::{
    carried_out, Error, NO_CELL, POINTER_OVERFLOW, POINTER_UNDERFLOW, VALUE_OVERFLOW,
    VALUE_UNDERFLOW,
};

verus! {

/// The mathematical tape: the cells from left to right, and the index of the
/// cell under the data pointer.
pub struct Tape {
    pub cells: Seq<u8>,
    pub pointer: nat,
}

impl Tape {
    /// A tape of `size` cells, all zero, with the pointer on the first.
    pub open spec fn blank(size: nat) -> Tape {
        Tape { cells: Seq::new(size, |i: int| 0u8), pointer: 0 }
    }

    /// The pointer names a cell.
    pub open spec fn in_bounds(self) -> bool {
        self.pointer < self.cells.len()
    }

    /// What every tape of a [`Memory`] satisfies: the pointer names a cell,
    /// unless the tape has no cell at all.
    pub open spec fn valid(self) -> bool {
        self.in_bounds() || (self.cells.len() == 0 && self.pointer == 0)
    }

    /// The byte under the pointer.
    pub open spec fn current(self) -> u8
        recommends
            self.in_bounds(),
    {
        self.cells[self.pointer as int]
    }

    /// The same tape with `value` under the pointer.
    pub open spec fn put(self, value: u8) -> Tape
        recommends
            self.in_bounds(),
    {
        Tape { cells: self.cells.update(self.pointer as int, value), pointer: self.pointer }
    }

    /// The same cells with the pointer on `pointer`.
    pub open spec fn at(self, pointer: nat) -> Tape {
        Tape { cells: self.cells, pointer }
    }

    /// Moving the pointer one cell to the right.
    pub open spec fn move_next(self) -> Result<Tape, Error> {
        if self.pointer + 1 < self.cells.len() {
            Ok(self.at(self.pointer + 1))
        } else {
            Err(Error::Memory(POINTER_OVERFLOW))
        }
    }

    /// Moving the pointer one cell to the left.
    pub open spec fn move_prev(self) -> Result<Tape, Error> {
        if self.pointer >= 1 {
            Ok(self.at((self.pointer - 1) as nat))
        } else {
            Err(Error::Memory(POINTER_UNDERFLOW))
        }
    }

    /// Reading the cell under the pointer.
    pub open spec fn get(self) -> Result<u8, Error> {
        if self.in_bounds() {
            Ok(self.current())
        } else {
            Err(Error::Memory(NO_CELL))
        }
    }

    /// Writing `value` to the cell under the pointer.
    pub open spec fn set(self, value: u8) -> Result<Tape, Error> {
        if self.in_bounds() {
            Ok(self.put(value))
        } else {
            Err(Error::Memory(NO_CELL))
        }
    }

    /// Adding one to the cell under the pointer.
    pub open spec fn increment(self) -> Result<Tape, Error> {
        if !self.in_bounds() {
            Err(Error::Memory(NO_CELL))
        } else if self.current() == 255 {
            Err(Error::Memory(VALUE_OVERFLOW))
        } else {
            Ok(self.put((self.current() + 1) as u8))
        }
    }

    /// Taking one from the cell under the pointer.
    pub open spec fn decrement(self) -> Result<Tape, Error> {
        if !self.in_bounds() {
            Err(Error::Memory(NO_CELL))
        } else if self.current() == 0 {
            Err(Error::Memory(VALUE_UNDERFLOW))
        } else {
            Ok(self.put((self.current() - 1) as u8))
        }
    }
}

/// No operation changes the number of cells, and none moves the pointer off
/// the tape.
pub proof fn lemma_tape_keeps_its_shape(tape: Tape, value: u8, next: Tape)
    requires
        tape.valid(),
        tape.move_next() == Ok::<Tape, Error>(next) || tape.move_prev() == Ok::<Tape, Error>(next)
            || tape.increment() == Ok::<Tape, Error>(next) || tape.decrement() == Ok::<Tape, Error>(
            next,
        ) || tape.set(value) == Ok::<Tape, Error>(next),
    ensures
        next.valid(),
        next.in_bounds(),
        next.cells.len() == tape.cells.len(),
{
}

/// A tape in memory.
pub struct Memory {
    bytes: Vec<u8>,
    pointer: usize,
}

impl View for Memory {
    type V = Tape;

    closed spec fn view(&self) -> Tape {
        Tape { cells: self.bytes@, pointer: self.pointer as nat }
    }
}

impl Memory {
    /// The pointer never leaves the tape.
    #[verifier::type_invariant]
    pub open spec fn well_formed(&self) -> bool {
        self@.valid()
    }

    /// A tape of `size` zeroed cells with the pointer on the first.
    pub fn new(size: usize) -> (memory: Memory)
        ensures
            memory@ == Tape::blank(size as nat),
    {
        let memory = Memory { bytes: vec![0; size], pointer: 0 };
        assert(memory@.cells =~= Tape::blank(size as nat).cells);
        memory
    }

    /// The index of the cell under the pointer.
    pub fn pointer(&self) -> (pointer: usize)
        ensures
            pointer == self@.pointer,
    {
        self.pointer
    }

    /// The cells, from left to right.
    pub fn cells(&self) -> (cells: &Vec<u8>)
        ensures
            cells@ == self@.cells,
    {
        &self.bytes
    }

    /// Moves the pointer one cell to the right, or fails on the last cell.
    pub fn move_next(&mut self) -> (result: Result<(), Error>)
        ensures
            carried_out(old(self)@, old(self)@.move_next(), result, final(self)@),
    {
        let size: usize = self.bytes.len();
        proof {
            use_type_invariant(&*self);
        }
        if self.pointer + 1 >= size {
            Err(Error::Memory(POINTER_OVERFLOW))
        } else {
            self.pointer += 1;
            Ok(())
        }
    }

    /// Moves the pointer one cell to the left, or fails on the first cell.
    pub fn move_prev(&mut self) -> (result: Result<(), Error>)
        ensures
            carried_out(old(self)@, old(self)@.move_prev(), result, final(self)@),
    {
        if self.pointer < 1 {
            Err(Error::Memory(POINTER_UNDERFLOW))
        } else {
            proof {
                use_type_invariant(&*self);
            }
            self.pointer -= 1;
            Ok(())
        }
    }

    /// Adds one to the cell under the pointer, or fails if it holds 255.
    pub fn increment(&mut self) -> (result: Result<(), Error>)
        ensures
            carried_out(old(self)@, old(self)@.increment(), result, final(self)@),
    {
        let value: &mut u8 = self.get_mut()?;
        if *value >= 255 {
            assert(self@.cells =~= old(self)@.cells);
            Err(Error::Memory(VALUE_OVERFLOW))
        } else {
            *value += 1;
            Ok(())
        }
    }

    /// Takes one from the cell under the pointer, or fails if it holds 0.
    pub fn decrement(&mut self) -> (result: Result<(), Error>)
        ensures
            carried_out(old(self)@, old(self)@.decrement(), result, final(self)@),
    {
        let value: &mut u8 = self.get_mut()?;
        if *value < 1 {
            assert(self@.cells =~= old(self)@.cells);
            Err(Error::Memory(VALUE_UNDERFLOW))
        } else {
            *value -= 1;
            Ok(())
        }
    }

    /// The byte under the pointer.
    pub fn get(&self) -> (result: Result<u8, Error>)
        ensures
            result == self@.get(),
    {
        if self.pointer < self.bytes.len() {
            Ok(self.bytes[self.pointer])
        } else {
            Err(Error::Memory(NO_CELL))
        }
    }

    /// Writes `value` to the cell under the pointer.
    pub fn set(&mut self, value: u8) -> (result: Result<(), Error>)
        ensures
            carried_out(old(self)@, old(self)@.set(value), result, final(self)@),
    {
        let cell: &mut u8 = self.get_mut()?;
        *cell = value;
        Ok(())
    }

    /// The cell under the pointer, to be written through.
    fn get_mut(&mut self) -> (result: Result<&mut u8, Error>)
        ensures
            match result {
                Ok(cell) => {
                    &&& old(self)@.in_bounds()
                    &&& *cell == old(self)@.current()
                    &&& final(self)@ == old(self)@.put(*final(cell))
                },
                Err(e) => {
                    &&& !old(self)@.in_bounds()
                    &&& e == Error::Memory(NO_CELL)
                    &&& final(self)@ == old(self)@
                },
            },
    {
        if self.pointer < self.bytes.len() {
            Ok(&mut self.bytes[self.pointer])
        } else {
            Err(Error::Memory(NO_CELL))
        }
    }
}

} // verus!
