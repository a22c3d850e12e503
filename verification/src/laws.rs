//! What holds of every run.

use vstd::prelude::*;

use crate::bracket::{
    close_of, lemma_matched_close_has_partner, lemma_matched_open_has_partner, matched, open_of,
};
use crate::error::{Error, NO_BRACKET, POINTER_OVERFLOW};
use crate::machine::Machine;

verus! {

/// A run can be taken up again: running for `first` instructions and, if the
/// fuel ran out, for `second` more, is running for `first + second`.
pub proof fn lemma_run_resumes(m: Machine, tokens: Seq<char>, first: nat, second: nat)
    ensures
        m.run(tokens, first + second) == match m.run(tokens, first) {
            (paused, Ok(false)) => paused.run(tokens, second),
            ended => ended,
        },
    decreases first,
{
    if !m.halted(tokens) && first > 0 {
        match m.advance(tokens) {
            Ok(next) => {
                lemma_run_resumes(next, tokens, (first - 1) as nat, second);
            },
            Err(_) => {},
        }
    }
}

/// Fuel beyond what a run needs changes nothing: once a run has come to the
/// end of the program or to an error, it ends in the same state and with the
/// same result however much more fuel it is given.
pub proof fn lemma_run_ignores_spare_fuel(m: Machine, tokens: Seq<char>, fuel: nat, more: nat)
    requires
        m.run(tokens, fuel).1 != Ok::<bool, Error>(false),
        fuel <= more,
    ensures
        m.run(tokens, more) == m.run(tokens, fuel),
{
    lemma_run_resumes(m, tokens, fuel, (more - fuel) as nat);
}

/// A run stops only for one of three reasons: at the end of the program, for
/// want of fuel before the end, or at an instruction that fails in the state
/// the run stopped in.
pub proof fn lemma_run_stops(m: Machine, tokens: Seq<char>, fuel: nat)
    ensures
        ({
            let (end, result) = m.run(tokens, fuel);
            match result {
                Ok(true) => end.halted(tokens),
                Ok(false) => !end.halted(tokens),
                Err(e) => !end.halted(tokens) && end.advance(tokens) == Err::<Machine, Error>(e),
            }
        }),
    decreases fuel,
{
    if !m.halted(tokens) && fuel > 0 {
        match m.advance(tokens) {
            Ok(next) => {
                lemma_run_stops(next, tokens, (fuel - 1) as nat);
            },
            Err(_) => {},
        }
    }
}

/// One instruction keeps the tape at its length and the data pointer on it,
/// takes input bytes only from the front, and adds output bytes only at the
/// back.
pub proof fn lemma_step_keeps(m: Machine, token: char, tokens: Seq<char>)
    requires
        m.step(token, tokens) is Ok,
    ensures
        ({
            let next = m.step(token, tokens)->Ok_0;
            &&& next.tape.cells.len() == m.tape.cells.len()
            &&& m.tape.valid() ==> next.tape.valid()
            &&& m.tape.in_bounds() ==> next.tape.in_bounds()
            &&& next.input.is_suffix_of(m.input)
            &&& m.output.is_prefix_of(next.output)
        }),
{
}

/// A run keeps the tape at its length and the data pointer on it, takes input
/// bytes only from the front, and adds output bytes only at the back: what was
/// written before the run, and before an instruction that fails, stays
/// written.
pub proof fn lemma_run_keeps(m: Machine, tokens: Seq<char>, fuel: nat)
    ensures
        ({
            let end = m.run(tokens, fuel).0;
            &&& end.tape.cells.len() == m.tape.cells.len()
            &&& m.tape.valid() ==> end.tape.valid()
            &&& m.tape.in_bounds() ==> end.tape.in_bounds()
            &&& end.input.is_suffix_of(m.input)
            &&& m.output.is_prefix_of(end.output)
        }),
    decreases fuel,
{
    if !m.halted(tokens) && fuel > 0 {
        match m.advance(tokens) {
            Ok(next) => {
                lemma_step_keeps(m, tokens[m.token_pointer as int], tokens);
                lemma_run_keeps(next, tokens, (fuel - 1) as nat);
            },
            Err(_) => {},
        }
    }
}

/// A byte that is written and then comes back as input is read as it was
/// written: if `.` in the state `writer` appends a byte to the output, and that
/// byte is the next one to be read in the state `reader`, then `,` in `reader`
/// stores under the data pointer the byte that was under the data pointer of
/// `writer`.
pub proof fn lemma_echo_round_trip(writer: Machine, reader: Machine)
    requires
        writer.tape.in_bounds(),
        reader.tape.in_bounds(),
        reader.input.len() > 0,
        reader.input.first() == writer.write()->Ok_0.output.last(),
    ensures
        writer.write() is Ok,
        reader.read() is Ok,
        reader.read()->Ok_0.tape.current() == writer.tape.current(),
        reader.read()->Ok_0.input == reader.input.drop_first(),
{
}

/// A bracket without partner is an error when it is to jump, and only then:
/// a lone `[` fails on a zero cell and is passed on any other, a lone `]`
/// fails on a nonzero cell and is passed on a zero cell.
pub proof fn lemma_lone_bracket(m: Machine, tokens: Seq<char>)
    requires
        !m.halted(tokens),
        m.tape.in_bounds(),
        ({
            let token = tokens[m.token_pointer as int];
            ||| token == '[' && close_of(tokens, m.token_pointer as int + 1) is None
            ||| token == ']' && open_of(tokens, m.token_pointer as int - 1) is None
        }),
    ensures
        m.advance(tokens) == if (tokens[m.token_pointer as int] == '[') == (m.tape.current() == 0) {
            Err::<Machine, Error>(Error::Jump(NO_BRACKET))
        } else {
            Ok::<Machine, Error>(m.at(m.token_pointer + 1))
        },
{
}

/// A run fails in a jump only at a bracket that has no partner.
pub proof fn lemma_jump_error_means_lone_bracket(m: Machine, tokens: Seq<char>, fuel: nat)
    requires
        m.run(tokens, fuel).1 matches Err(Error::Jump(_)),
    ensures
        ({
            let end = m.run(tokens, fuel).0;
            let token = tokens[end.token_pointer as int];
            &&& !end.halted(tokens)
            &&& m.run(tokens, fuel).1 == Err::<bool, Error>(Error::Jump(NO_BRACKET))
            &&& {
                ||| token == '[' && close_of(tokens, end.token_pointer as int + 1) is None
                ||| token == ']' && open_of(tokens, end.token_pointer as int - 1) is None
            }
        }),
{
    lemma_run_stops(m, tokens, fuel);
}

/// A program whose brackets pair up never fails in a jump.
pub proof fn lemma_matched_program_jumps(m: Machine, tokens: Seq<char>, fuel: nat)
    requires
        matched(tokens),
    ensures
        !(m.run(tokens, fuel).1 matches Err(Error::Jump(_))),
    decreases fuel,
{
    if !m.halted(tokens) && fuel > 0 {
        let token = tokens[m.token_pointer as int];
        if token == '[' {
            lemma_matched_open_has_partner(tokens, m.token_pointer as int);
        } else if token == ']' {
            lemma_matched_close_has_partner(tokens, m.token_pointer as int);
        }
        match m.advance(tokens) {
            Ok(next) => {
                lemma_matched_program_jumps(next, tokens, (fuel - 1) as nat);
            },
            Err(_) => {},
        }
    }
}

/// The state `wide` is the state `narrow` on a longer tape: the cells of
/// `narrow` come first and hold the same bytes, and everything else is the
/// same.
pub open spec fn widens(wide: Machine, narrow: Machine) -> bool {
    &&& narrow.tape.cells.is_prefix_of(wide.tape.cells)
    &&& wide.tape.pointer == narrow.tape.pointer
    &&& wide.token_pointer == narrow.token_pointer
    &&& wide.input == narrow.input
    &&& wide.output == narrow.output
    &&& wide.at_end == narrow.at_end
}

/// On a longer tape an instruction does what it does on the shorter one,
/// unless it fails there because the tape is too short.
pub proof fn lemma_step_on_wider_tape(
    narrow: Machine,
    wide: Machine,
    token: char,
    tokens: Seq<char>,
)
    requires
        narrow.tape.in_bounds(),
        widens(wide, narrow),
        narrow.step(token, tokens) != Err::<Machine, Error>(Error::Memory(POINTER_OVERFLOW)),
    ensures
        match narrow.step(token, tokens) {
            Ok(next) => wide.step(token, tokens) is Ok && widens(
                wide.step(token, tokens)->Ok_0,
                next,
            ),
            Err(e) => wide.step(token, tokens) == Err::<Machine, Error>(e),
        },
{
    // The cell under the data pointer is one that both tapes have.
    assert(wide.tape.current() == narrow.tape.current());
}

/// The length of the tape matters only when it is too short: on a longer tape
/// a run takes the same course, to the same result, the same output and the
/// same bytes in the cells that both tapes have, unless it fails on the shorter
/// tape because the data pointer would leave it.
pub proof fn lemma_run_on_wider_tape(narrow: Machine, wide: Machine, tokens: Seq<char>, fuel: nat)
    requires
        narrow.tape.in_bounds(),
        widens(wide, narrow),
        narrow.run(tokens, fuel).1 != Err::<bool, Error>(Error::Memory(POINTER_OVERFLOW)),
    ensures
        wide.run(tokens, fuel).1 == narrow.run(tokens, fuel).1,
        widens(wide.run(tokens, fuel).0, narrow.run(tokens, fuel).0),
    decreases fuel,
{
    if !narrow.halted(tokens) && fuel > 0 {
        let token = tokens[narrow.token_pointer as int];
        lemma_step_on_wider_tape(narrow, wide, token, tokens);
        match narrow.advance(tokens) {
            Ok(next) => {
                let beside = wide.advance(tokens)->Ok_0;
                lemma_step_keeps(narrow, token, tokens);
                lemma_run_on_wider_tape(next, beside, tokens, (fuel - 1) as nat);
            },
            Err(_) => {},
        }
    }
}

/// What a program writes depends on the program and on the input alone. Two
/// runs of the same program on the same input, from a fresh start on tapes of
/// `small` and of `large` cells and with any fuel, end with the same result and
/// the same output, provided that both come to the end of the program or to an
/// error, and that the run on the shorter tape does not fail because the data
/// pointer would leave it.
pub proof fn lemma_output_depends_on_program_and_input(
    tokens: Seq<char>,
    input: Seq<u8>,
    small: nat,
    large: nat,
    fuel_small: nat,
    fuel_large: nat,
)
    requires
        1 <= small <= large,
        Machine::start(small, input, Seq::empty()).run(tokens, fuel_small).1 != Ok::<bool, Error>(
            false,
        ),
        Machine::start(large, input, Seq::empty()).run(tokens, fuel_large).1 != Ok::<bool, Error>(
            false,
        ),
        Machine::start(small, input, Seq::empty()).run(tokens, fuel_small).1 != Err::<bool, Error>(
            Error::Memory(POINTER_OVERFLOW),
        ),
    ensures
        Machine::start(large, input, Seq::empty()).run(tokens, fuel_large).1 == Machine::start(
            small,
            input,
            Seq::empty(),
        ).run(tokens, fuel_small).1,
        Machine::start(large, input, Seq::empty()).run(tokens, fuel_large).0.output
            == Machine::start(small, input, Seq::empty()).run(tokens, fuel_small).0.output,
{
    let narrow = Machine::start(small, input, Seq::empty());
    let wide = Machine::start(large, input, Seq::empty());
    let fuel = if fuel_small <= fuel_large {
        fuel_large
    } else {
        fuel_small
    };
    lemma_run_ignores_spare_fuel(narrow, tokens, fuel_small, fuel);
    lemma_run_ignores_spare_fuel(wide, tokens, fuel_large, fuel);
    lemma_run_on_wider_tape(narrow, wide, tokens, fuel);
}

} // verus!
