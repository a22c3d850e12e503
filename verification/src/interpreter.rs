//! The execution engine.

use std::collections::VecDeque;
use vstd::prelude::*;

use crate::bracket::{find_close_bracket_pointer, find_open_bracket_pointer};
use crate::error::{carried_out, Error, NO_BRACKET, NO_INPUT};
use crate::machine::Machine;
use crate::memory::Memory;

verus! {

/// The tokens of a program text: its code points, in order.
pub fn tokenize(src: &str) -> (tokens: Vec<char>)
    ensures
        tokens@ == src@,
{
    let mut tokens: Vec<char> = Vec::new();
    for token in chars: src.chars()
        invariant
            chars.seq() == src@,
            tokens@ == chars.seq().take(chars.index() as int),
    {
        tokens.push(token);
    }
    tokens
}

/// What a read instruction does once every input byte has been read.
#[derive(Debug, Clone, Copy, PartialEq, Eq)]
pub enum EndOfInput {
    /// The instruction fails with an input error.
    Fail,
    /// The instruction leaves the cell as it is.
    Keep,
    /// The instruction stores this byte.
    Store(u8),
}

/// An interpreter: a tape, a token pointer, the input bytes it has been given
/// and the output bytes it has produced.
///
/// The interpreter performs no input or output itself. Its host supplies the
/// input, at construction or later with [`Interpreter::feed`], and collects the
/// output with [`Interpreter::take_output`].
pub struct Interpreter {
    memory: Memory,
    token_pointer: usize,
    input: VecDeque<u8>,
    output: Vec<u8>,
    at_end: EndOfInput,
}

impl View for Interpreter {
    type V = Machine;

    closed spec fn view(&self) -> Machine {
        Machine {
            tape: self.memory@,
            token_pointer: self.token_pointer as nat,
            input: self.input@,
            output: self.output@,
            at_end: self.at_end,
        }
    }
}

impl Interpreter {
    /// An interpreter with a blank tape of `memory_size` cells, with the bytes
    /// of `input` to read, and which appends what it writes to `output`. A read
    /// instruction that finds no byte fails, unless
    /// [`Interpreter::set_end_of_input`] says otherwise.
    pub fn new(memory_size: usize, input: &[u8], output: Vec<u8>) -> (interpreter: Interpreter)
        ensures
            interpreter@ == Machine::start(memory_size as nat, input@, output@),
    {
        let mut queue: VecDeque<u8> = VecDeque::new();
        let mut i: usize = 0;
        while i < input.len()
            invariant
                i <= input.len(),
                queue@ == input@.take(i as int),
            decreases input.len() - i,
        {
            queue.push_back(input[i]);
            i += 1;
        }
        assert(queue@ =~= input@);
        Interpreter {
            memory: Memory::new(memory_size),
            token_pointer: 0,
            input: queue,
            output,
            at_end: EndOfInput::Fail,
        }
    }

    /// The position in the program of the next instruction.
    pub fn token_pointer(&self) -> (pointer: usize)
        ensures
            pointer == self@.token_pointer,
    {
        self.token_pointer
    }

    /// The tape.
    pub fn memory(&self) -> (memory: &Memory)
        ensures
            memory@ == self@.tape,
    {
        &self.memory
    }

    /// The number of bytes that were supplied and have not been read yet.
    pub fn unread(&self) -> (count: usize)
        ensures
            count == self@.input.len(),
    {
        self.input.len()
    }

    /// Whether the next instruction of `tokens` is a read with no byte to read.
    /// A host that has more input feeds a byte now; one that has none runs on,
    /// and the read does what was chosen for the end of the input.
    pub fn wants_input(&self, tokens: &Vec<char>) -> (wanted: bool)
        ensures
            wanted == self@.wants_input(tokens@),
    {
        self.token_pointer < tokens.len() && tokens[self.token_pointer] == ','
            && self.input.len() == 0
    }

    /// Chooses what a read instruction does once every input byte has been
    /// read.
    pub fn set_end_of_input(&mut self, at_end: EndOfInput)
        ensures
            final(self)@ == (Machine { at_end, ..old(self)@ }),
    {
        self.at_end = at_end;
    }

    /// Supplies one more byte of input, to be read after those already there.
    pub fn feed(&mut self, byte: u8)
        ensures
            final(self)@ == (Machine { input: old(self)@.input.push(byte), ..old(self)@ }),
    {
        self.input.push_back(byte);
    }

    /// Hands over the bytes written since the output was last taken, oldest
    /// first, and keeps none of them.
    pub fn take_output(&mut self) -> (bytes: Vec<u8>)
        ensures
            bytes@ == old(self)@.output,
            final(self)@ == (Machine { output: Seq::empty(), ..old(self)@ }),
    {
        let mut bytes: Vec<u8> = Vec::new();
        std::mem::swap(&mut self.output, &mut bytes);
        bytes
    }

    /// Runs the program `src` from the token pointer on, for at most `fuel`
    /// instructions. Returns `Ok(true)` when the end of the program has been
    /// reached, `Ok(false)` when the fuel ran out first, and the error of the
    /// first instruction that failed. The interpreter is left as the run left
    /// it, so that a run which stopped early can be taken up again.
    pub fn run(&mut self, src: &str, fuel: u64) -> (result: Result<bool, Error>)
        ensures
            (final(self)@, result) == old(self)@.run(src@, fuel as nat),
    {
        let tokens = tokenize(src);
        self.run_tokens(&tokens, fuel)
    }

    /// Runs the program `tokens` as [`Interpreter::run`] runs a program text.
    pub fn run_tokens(&mut self, tokens: &Vec<char>, fuel: u64) -> (result: Result<bool, Error>)
        ensures
            (final(self)@, result) == old(self)@.run(tokens@, fuel as nat),
    {
        let mut left: u64 = fuel;
        while self.token_pointer < tokens.len() && left > 0
            invariant
                old(self)@.run(tokens@, fuel as nat) == self@.run(tokens@, left as nat),
            decreases left,
        {
            let token: char = tokens[self.token_pointer];
            match self.step(token, tokens) {
                Ok(()) => {},
                Err(e) => {
                    return Err(e);
                },
            }
            self.token_pointer += 1;
            left -= 1;
        }
        Ok(self.token_pointer >= tokens.len())
    }

    /// Carries out the instruction `token`, met in the program `tokens` at the
    /// token pointer. Leaves the token pointer where it is, or, after a jump,
    /// on the partner bracket.
    pub fn step(&mut self, token: char, tokens: &Vec<char>) -> (result: Result<(), Error>)
        ensures
            carried_out(old(self)@, old(self)@.step(token, tokens@), result, final(self)@),
    {
        match token {
            '>' => self.memory.move_next()?,
            '<' => self.memory.move_prev()?,
            '+' => self.memory.increment()?,
            '-' => self.memory.decrement()?,
            '.' => self.output()?,
            ',' => self.input()?,
            '[' => self.jump_to_end(tokens)?,
            ']' => self.jump_to_start(tokens)?,
            _ => {},
        }
        Ok(())
    }

    /// Appends the byte under the data pointer to the output.
    fn output(&mut self) -> (result: Result<(), Error>)
        ensures
            carried_out(old(self)@, old(self)@.write(), result, final(self)@),
    {
        let value: u8 = self.memory.get()?;
        self.output.push(value);
        Ok(())
    }

    /// Stores the oldest unread input byte under the data pointer.
    fn input(&mut self) -> (result: Result<(), Error>)
        ensures
            carried_out(old(self)@, old(self)@.read(), result, final(self)@),
    {
        if self.input.len() == 0 {
            match self.at_end {
                EndOfInput::Fail => Err(Error::Io(NO_INPUT)),
                EndOfInput::Keep => Ok(()),
                EndOfInput::Store(byte) => self.memory.set(byte),
            }
        } else {
            let byte: u8 = self.input[0];
            self.memory.set(byte)?;
            let _ = self.input.pop_front();
            Ok(())
        }
    }

    /// On a zero cell, moves the token pointer from a `[` to its partner.
    fn jump_to_end(&mut self, tokens: &Vec<char>) -> (result: Result<(), Error>)
        ensures
            carried_out(old(self)@, old(self)@.jump_to_end(tokens@), result, final(self)@),
    {
        if self.memory.get()? == 0 {
            if self.token_pointer >= tokens.len() {
                return Err(Error::Jump(NO_BRACKET));
            }
            let pointer: usize = find_close_bracket_pointer(tokens, self.token_pointer + 1)?;
            self.token_pointer = pointer;
        }
        Ok(())
    }

    /// On a nonzero cell, moves the token pointer from a `]` to its partner.
    fn jump_to_start(&mut self, tokens: &Vec<char>) -> (result: Result<(), Error>)
        ensures
            carried_out(old(self)@, old(self)@.jump_to_start(tokens@), result, final(self)@),
    {
        if self.memory.get()? != 0 {
            if self.token_pointer == 0 {
                return Err(Error::Jump(NO_BRACKET));
            }
            let pointer: usize = find_open_bracket_pointer(tokens, self.token_pointer - 1)?;
            self.token_pointer = pointer;
        }
        Ok(())
    }
}

} // verus!
