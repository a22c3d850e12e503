//! An interpreter for an eight-instruction tape language.
//!
//! A program is a sequence of code points. Eight of them are instructions that
//! act on a bounded tape of byte cells, on a stream of input bytes and on a
//! stream of output bytes; every other code point is a comment. Nothing wraps
//! around: a cell that would leave `0..=255`, or a data pointer that would
//! leave the tape, stops the run with an error.
//!
//! | token | effect |
//! |---|---|
//! | `>` | the data pointer moves one cell to the right |
//! | `<` | the data pointer moves one cell to the left |
//! | `+` | the cell under the data pointer grows by one |
//! | `-` | the cell under the data pointer shrinks by one |
//! | `.` | the cell under the data pointer is written to the output |
//! | `,` | the next input byte is stored under the data pointer |
//! | `[` | on a zero cell, the run goes on behind the partner `]` |
//! | `]` | on a nonzero cell, the run goes on behind the partner `[` |
//!
//! The interpreter does no input or output of its own. It reads from a queue
//! that its host fills and writes to a buffer that its host empties, so the
//! host decides where the bytes come from and where they go.
//!
//! - [`memory`] holds the tape.
//! - [`bracket`] finds the partner of a bracket.
//! - [`machine`] says what a program means.
//! - [`interpreter`] runs programs, and is proved to do what [`machine`] says.
//! - [`laws`] and [`comments`] prove what holds of every run.
//! - [`error`] names the ways in which a run can fail.

pub mod bracket;
pub mod comments;
pub mod error;
pub mod interpreter;
pub mod laws;
pub mod machine;
pub mod memory;
