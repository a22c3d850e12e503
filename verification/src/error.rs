//! The ways in which a run can fail.

use vstd::prelude::*;
use vstd::string::StringExecFns;

verus! {

/// Text of the error raised when the data pointer would move past the last cell.
pub const POINTER_OVERFLOW: &'static str = "memory pointer overflow.";

/// Text of the error raised when the data pointer would move before the first cell.
pub const POINTER_UNDERFLOW: &'static str = "memory pointer underflow.";

/// Text of the error raised when a cell holding 255 is incremented.
pub const VALUE_OVERFLOW: &'static str = "value overflow.";

/// Text of the error raised when a cell holding 0 is decremented.
pub const VALUE_UNDERFLOW: &'static str = "value underflow.";

/// Text of the error raised when the data pointer names no cell.
pub const NO_CELL: &'static str = "failed to get";

/// Text of the error raised when a jump finds no partner for its bracket.
pub const NO_BRACKET: &'static str = "corresponding bracket is not found.";

/// Text of the error raised when a read instruction finds no input byte.
pub const NO_INPUT: &'static str = "unexpected end of input.";

/// Why an instruction could not be carried out.
#[derive(Debug, Clone, Copy, PartialEq, Eq)]
pub enum Error {
    /// Input or output failed: a read instruction found no byte to read.
    Io(&'static str),
    /// The data pointer or a cell would have left its range.
    Memory(&'static str),
    /// A bracket has no partner.
    Jump(&'static str),
}

impl Error {
    /// The text carried by the error.
    pub open spec fn detail(self) -> Seq<char> {
        match self {
            Error::Io(s) => s@,
            Error::Memory(s) => s@,
            Error::Jump(s) => s@,
        }
    }

    /// The words that name the kind of the error in its message.
    pub open spec fn heading(self) -> Seq<char> {
        match self {
            Error::Io(_) => "IO error: "@,
            Error::Memory(_) => "Memory error: "@,
            Error::Jump(_) => "Jump error: "@,
        }
    }

    /// The text carried by the error, without the kind.
    pub fn description(&self) -> (text: &'static str)
        ensures
            text@ == self.detail(),
    {
        match *self {
            Error::Io(s) => s,
            Error::Memory(s) => s,
            Error::Jump(s) => s,
        }
    }

    /// The full message: the kind, a colon, and the text.
    pub fn message(&self) -> (text: String)
        ensures
            text@ == self.heading() + self.detail(),
    {
        match *self {
            Error::Io(s) => String::from_str("IO error: ").concat(s),
            Error::Memory(s) => String::from_str("Memory error: ").concat(s),
            Error::Jump(s) => String::from_str("Jump error: ").concat(s),
        }
    }
}

/// Whether an operation that was to turn the state `before` into `wanted` did
/// so: on success the state is the one wanted; on failure the error is the one
/// wanted and the state is untouched.
pub open spec fn carried_out<S>(
    before: S,
    wanted: Result<S, Error>,
    result: Result<(), Error>,
    after: S,
) -> bool {
    match wanted {
        Ok(state) => result is Ok && after == state,
        Err(e) => result == Err::<(), Error>(e) && after == before,
    }
}

} // verus!
