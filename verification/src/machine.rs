//! What a program means: the state of a run and how each instruction changes it.
//!
//! Everything here is mathematics. The contracts of the interpreter say that it
//! does to its own state what these functions do to a [`Machine`].

use vstd::prelude::*;

use crate::bracket::{close_of, open_of};
use crate::error::{Error, NO_BRACKET, NO_INPUT};
use crate::interpreter::EndOfInput;
use crate::memory::Tape;

verus! {

/// The state of a run.
pub struct Machine {
    /// The tape and its data pointer.
    pub tape: Tape,
    /// The position in the program of the next instruction.
    pub token_pointer: nat,
    /// The bytes that were supplied and have not been read yet, oldest first.
    pub input: Seq<u8>,
    /// The bytes that were written and have not been taken yet, oldest first.
    pub output: Seq<u8>,
    /// What a read instruction does with no byte to read.
    pub at_end: EndOfInput,
}

impl Machine {
    /// The state before the first instruction: a blank tape of `size` cells,
    /// `input` waiting to be read, and `output` already written. A read
    /// instruction with no byte to read fails.
    pub open spec fn start(size: nat, input: Seq<u8>, output: Seq<u8>) -> Machine {
        Machine {
            tape: Tape::blank(size),
            token_pointer: 0,
            input,
            output,
            at_end: EndOfInput::Fail,
        }
    }

    /// The same state with another tape, if there is one.
    pub open spec fn with_tape(self, tape: Result<Tape, Error>) -> Result<Machine, Error> {
        match tape {
            Ok(tape) => Ok(Machine { tape, ..self }),
            Err(e) => Err(e),
        }
    }

    /// The same state with the token pointer on `token_pointer`.
    pub open spec fn at(self, token_pointer: nat) -> Machine {
        Machine { token_pointer, ..self }
    }

    /// `.`: the byte under the data pointer is appended to the output.
    pub open spec fn write(self) -> Result<Machine, Error> {
        match self.tape.get() {
            Ok(byte) => Ok(Machine { output: self.output.push(byte), ..self }),
            Err(e) => Err(e),
        }
    }

    /// `,`: the oldest unread byte is stored under the data pointer. With no
    /// byte to read, `at_end` decides. On a tape without cells a byte cannot be
    /// stored: the instruction fails and the byte is left unread.
    pub open spec fn read(self) -> Result<Machine, Error> {
        if self.input.len() == 0 {
            match self.at_end {
                EndOfInput::Fail => Err(Error::Io(NO_INPUT)),
                EndOfInput::Keep => Ok(self),
                EndOfInput::Store(byte) => self.with_tape(self.tape.set(byte)),
            }
        } else {
            match self.tape.set(self.input.first()) {
                Ok(tape) => Ok(Machine { tape, input: self.input.drop_first(), ..self }),
                Err(e) => Err(e),
            }
        }
    }

    /// `[`: on a zero cell the token pointer moves to the partner `]`, and
    /// it is an error to have none; on any other cell nothing happens.
    pub open spec fn jump_to_end(self, tokens: Seq<char>) -> Result<Machine, Error> {
        match self.tape.get() {
            Ok(byte) => if byte == 0 {
                match close_of(tokens, self.token_pointer as int + 1) {
                    Some(at) => Ok(self.at(at as nat)),
                    None => Err(Error::Jump(NO_BRACKET)),
                }
            } else {
                Ok(self)
            },
            Err(e) => Err(e),
        }
    }

    /// `]`: on a nonzero cell the token pointer moves to the partner `[`, and
    /// it is an error to have none; on a zero cell nothing happens.
    pub open spec fn jump_to_start(self, tokens: Seq<char>) -> Result<Machine, Error> {
        match self.tape.get() {
            Ok(byte) => if byte != 0 {
                match open_of(tokens, self.token_pointer as int - 1) {
                    Some(at) => Ok(self.at(at as nat)),
                    None => Err(Error::Jump(NO_BRACKET)),
                }
            } else {
                Ok(self)
            },
            Err(e) => Err(e),
        }
    }

    /// The effect of the instruction `token`, met in the program `tokens` at
    /// the token pointer. The token pointer itself moves only in a jump, and
    /// then onto the partner bracket. A token that is no instruction has no
    /// effect.
    pub open spec fn step(self, token: char, tokens: Seq<char>) -> Result<Machine, Error> {
        match token {
            '>' => self.with_tape(self.tape.move_next()),
            '<' => self.with_tape(self.tape.move_prev()),
            '+' => self.with_tape(self.tape.increment()),
            '-' => self.with_tape(self.tape.decrement()),
            '.' => self.write(),
            ',' => self.read(),
            '[' => self.jump_to_end(tokens),
            ']' => self.jump_to_start(tokens),
            _ => Ok(self),
        }
    }

    /// The program has been run to its end.
    pub open spec fn halted(self, tokens: Seq<char>) -> bool {
        self.token_pointer >= tokens.len()
    }

    /// The next instruction is a read and there is no byte for it.
    pub open spec fn wants_input(self, tokens: Seq<char>) -> bool {
        !self.halted(tokens) && tokens[self.token_pointer as int] == ',' && self.input.len() == 0
    }

    /// The state after the instruction under the token pointer: its effect,
    /// and then the token pointer one further.
    pub open spec fn advance(self, tokens: Seq<char>) -> Result<Machine, Error>
        recommends
            !self.halted(tokens),
    {
        match self.step(tokens[self.token_pointer as int], tokens) {
            Ok(next) => Ok(next.at(next.token_pointer + 1)),
            Err(e) => Err(e),
        }
    }

    /// Running `tokens` for at most `fuel` instructions. The result is the
    /// state in which the run stopped, and why it stopped: `Ok(true)` at the
    /// end of the program, `Ok(false)` with the fuel used up before the end,
    /// and the error of the first instruction that failed, with the state as
    /// that instruction found it.
    pub open spec fn run(self, tokens: Seq<char>, fuel: nat) -> (Machine, Result<bool, Error>)
        decreases fuel,
    {
        if self.halted(tokens) {
            (self, Ok(true))
        } else if fuel == 0 {
            (self, Ok(false))
        } else {
            match self.advance(tokens) {
                Ok(next) => next.run(tokens, (fuel - 1) as nat),
                Err(e) => (self, Err(e)),
            }
        }
    }
}

} // verus!
