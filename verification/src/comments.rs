//! Comments: every token that is no instruction may stand anywhere in a
//! program without changing what the program does.

use vstd::prelude::*;

use crate::bracket::{
    close_of, closes_at, depth, lemma_close_unique, lemma_open_unique, open_of, opens_at, weight,
};
use crate::error::Error;
use crate::laws::lemma_run_ignores_spare_fuel;
use crate::machine::Machine;

verus! {

/// The eight tokens that do something.
pub open spec fn is_instruction(token: char) -> bool {
    ||| token == '>'
    ||| token == '<'
    ||| token == '+'
    ||| token == '-'
    ||| token == '.'
    ||| token == ','
    ||| token == '['
    ||| token == ']'
}

/// Where the token at `index` stands once a token has been inserted at `at`.
pub open spec fn moved(at: int, index: int) -> int {
    if index < at {
        index
    } else {
        index + 1
    }
}

/// How many of the old tokens stand before `index` once a token has been
/// inserted at `at`.
pub open spec fn unmoved(at: int, index: int) -> int {
    if index <= at {
        index
    } else {
        index - 1
    }
}

/// The state `beside` is the state `m` in the program with a token inserted at
/// `at`: all is the same but the token pointer, which stands before the same
/// old token, or before the inserted token where that comes first.
pub open spec fn follows(at: int, m: Machine, beside: Machine) -> bool {
    &&& beside.tape == m.tape
    &&& beside.input == m.input
    &&& beside.output == m.output
    &&& beside.at_end == m.at_end
    &&& unmoved(at, beside.token_pointer as int) == m.token_pointer
}

/// An inserted token that is no bracket leaves the depth over every span as it
/// was.
pub proof fn lemma_depth_with_comment(
    tokens: Seq<char>,
    at: int,
    comment: char,
    from: int,
    to: int,
)
    requires
        0 <= at <= tokens.len(),
        weight(comment) == 0,
        0 <= from <= to <= tokens.len() + 1,
    ensures
        depth(tokens.insert(at, comment), from, to) == depth(
            tokens,
            unmoved(at, from),
            unmoved(at, to),
        ),
    decreases to - from,
{
    if from < to {
        lemma_depth_with_comment(tokens, at, comment, from, to - 1);
    }
}

/// A forward search finds the same `]` with the comment as without it.
pub proof fn lemma_close_with_comment(tokens: Seq<char>, at: int, comment: char, start: int)
    requires
        0 <= at <= tokens.len(),
        !is_instruction(comment),
        0 <= start,
    ensures
        close_of(tokens.insert(at, comment), start) == match close_of(tokens, unmoved(at, start)) {
            Some(found) => Some(moved(at, found)),
            None => None,
        },
{
    let longer = tokens.insert(at, comment);
    let old_start = unmoved(at, start);
    assert forall|found: int| closes_at(tokens, old_start, found) implies closes_at(
        longer,
        start,
        moved(at, found),
    ) by {
        lemma_depth_with_comment(tokens, at, comment, start, moved(at, found));
        assert forall|k: int|
            start <= k < moved(at, found) && longer[k] == ']' implies #[trigger] depth(
            longer,
            start,
            k,
        ) != 0 by {
            lemma_depth_with_comment(tokens, at, comment, start, k);
        }
    }
    assert forall|found: int| closes_at(longer, start, found) implies closes_at(
        tokens,
        old_start,
        unmoved(at, found),
    ) && moved(at, unmoved(at, found)) == found by {
        lemma_depth_with_comment(tokens, at, comment, start, found);
        assert forall|k: int|
            old_start <= k < unmoved(at, found) && tokens[k] == ']' implies #[trigger] depth(
            tokens,
            old_start,
            k,
        ) != 0 by {
            lemma_depth_with_comment(tokens, at, comment, start, moved(at, k));
        }
    }
    if exists|found: int| closes_at(tokens, old_start, found) {
        let found = choose|found: int| closes_at(tokens, old_start, found);
        let beside = choose|beside: int| closes_at(longer, start, beside);
        lemma_close_unique(longer, start, beside, moved(at, found));
    }
}

/// A backward search finds the same `[` with the comment as without it.
pub proof fn lemma_open_with_comment(tokens: Seq<char>, at: int, comment: char, end: int)
    requires
        0 <= at <= tokens.len(),
        !is_instruction(comment),
        -1 <= end,
    ensures
        open_of(tokens.insert(at, comment), end) == match open_of(
            tokens,
            unmoved(at, end + 1) - 1,
        ) {
            Some(found) => Some(moved(at, found)),
            None => None,
        },
{
    let longer = tokens.insert(at, comment);
    let old_end = unmoved(at, end + 1) - 1;
    assert forall|found: int| opens_at(tokens, old_end, found) implies opens_at(
        longer,
        end,
        moved(at, found),
    ) by {
        lemma_depth_with_comment(tokens, at, comment, moved(at, found) + 1, end + 1);
        assert forall|k: int|
            moved(at, found) < k <= end && longer[k] == '[' implies #[trigger] depth(
            longer,
            k + 1,
            end + 1,
        ) != 0 by {
            lemma_depth_with_comment(tokens, at, comment, k + 1, end + 1);
            assert(depth(tokens, unmoved(at, k) + 1, old_end + 1) != 0);
        }
    }
    assert forall|found: int| opens_at(longer, end, found) implies opens_at(
        tokens,
        old_end,
        unmoved(at, found),
    ) && moved(at, unmoved(at, found)) == found by {
        lemma_depth_with_comment(tokens, at, comment, found + 1, end + 1);
        assert forall|k: int|
            unmoved(at, found) < k <= old_end && tokens[k] == '[' implies #[trigger] depth(
            tokens,
            k + 1,
            old_end + 1,
        ) != 0 by {
            lemma_depth_with_comment(tokens, at, comment, moved(at, k) + 1, end + 1);
        }
    }
    if exists|found: int| opens_at(tokens, old_end, found) {
        let found = choose|found: int| opens_at(tokens, old_end, found);
        let beside = choose|beside: int| opens_at(longer, end, beside);
        lemma_open_unique(longer, end, beside, moved(at, found));
    }
}

/// An instruction does the same with the comment in the program as without
/// it; a jump lands on the same bracket.
pub proof fn lemma_step_with_comment(m: Machine, tokens: Seq<char>, at: int, comment: char)
    requires
        0 <= at <= tokens.len(),
        !is_instruction(comment),
        m.token_pointer < tokens.len(),
    ensures
        ({
            let token = tokens[m.token_pointer as int];
            let longer = tokens.insert(at, comment);
            let beside = m.at(moved(at, m.token_pointer as int) as nat);
            &&& longer[beside.token_pointer as int] == token
            &&& match m.step(token, tokens) {
                Ok(next) => beside.step(token, longer) == Ok::<Machine, Error>(
                    next.at(moved(at, next.token_pointer as int) as nat),
                ),
                Err(e) => beside.step(token, longer) == Err::<Machine, Error>(e),
            }
        }),
{
    let token = tokens[m.token_pointer as int];
    let beside = m.at(moved(at, m.token_pointer as int) as nat);
    if token == '[' {
        lemma_close_with_comment(tokens, at, comment, beside.token_pointer as int + 1);
    } else if token == ']' {
        lemma_open_with_comment(tokens, at, comment, beside.token_pointer as int - 1);
    }
}

/// The run with the comment, started before the same old token, ends as the
/// run without it, within twice the fuel.
proof fn lemma_run_with_comment(
    m: Machine,
    tokens: Seq<char>,
    at: int,
    comment: char,
    fuel: nat,
)
    requires
        0 <= at <= tokens.len(),
        !is_instruction(comment),
        m.run(tokens, fuel).1 != Ok::<bool, Error>(false),
    ensures
        ({
            let beside = m.at(moved(at, m.token_pointer as int) as nat);
            let longer = tokens.insert(at, comment);
            &&& beside.run(longer, 2 * fuel).1 == m.run(tokens, fuel).1
            &&& follows(at, m.run(tokens, fuel).0, beside.run(longer, 2 * fuel).0)
        }),
    decreases fuel,
{
    let beside = m.at(moved(at, m.token_pointer as int) as nat);
    let longer = tokens.insert(at, comment);
    if !m.halted(tokens) {
        lemma_step_with_comment(m, tokens, at, comment);
        match m.advance(tokens) {
            Ok(next) => {
                let rest = (fuel - 1) as nat;
                let follower = next.at(moved(at, next.token_pointer as int) as nat);
                lemma_run_with_comment(next, tokens, at, comment, rest);
                let mid = beside.advance(longer)->Ok_0;
                if mid.token_pointer == at {
                    // The next token is the comment, and passing it leads to `follower`.
                    assert(mid.run(longer, (2 * fuel - 1) as nat) == follower.run(longer, 2 * rest));
                } else {
                    // `mid` is `follower`, with one instruction of fuel to spare.
                    lemma_run_ignores_spare_fuel(
                        follower,
                        longer,
                        2 * rest,
                        (2 * fuel - 1) as nat,
                    );
                }
            },
            Err(_) => {},
        }
    }
}

/// A comment changes nothing but the number of steps. Let a token that is no
/// instruction be inserted into a program at `at`, and let a run of the longer
/// program start in the same state, before the same old token or before the
/// inserted one. If the run of the old program comes to its end or to an error
/// within `fuel` instructions, the run of the longer program does so within
/// `2 * fuel + 1`, with the same result, the same tape, the same input left and
/// the same output.
pub proof fn lemma_comment_changes_nothing(
    m: Machine,
    beside: Machine,
    tokens: Seq<char>,
    at: int,
    comment: char,
    fuel: nat,
)
    requires
        0 <= at <= tokens.len(),
        !is_instruction(comment),
        follows(at, m, beside),
        m.run(tokens, fuel).1 != Ok::<bool, Error>(false),
    ensures
        beside.run(tokens.insert(at, comment), 2 * fuel + 1).1 == m.run(tokens, fuel).1,
        follows(
            at,
            m.run(tokens, fuel).0,
            beside.run(tokens.insert(at, comment), 2 * fuel + 1).0,
        ),
{
    let longer = tokens.insert(at, comment);
    let follower = m.at(moved(at, m.token_pointer as int) as nat);
    lemma_run_with_comment(m, tokens, at, comment, fuel);
    if beside.token_pointer == moved(at, m.token_pointer as int) {
        // `beside` is `follower`, with one instruction of fuel to spare.
        lemma_run_ignores_spare_fuel(follower, longer, 2 * fuel, 2 * fuel + 1);
    } else {
        // The next token is the comment, and passing it leads to `follower`.
        assert(beside.run(longer, 2 * fuel + 1) == follower.run(longer, 2 * fuel));
    }
}

/// Taking a comment out changes nothing either. Let a token that is no
/// instruction be inserted into a program at `at`. If the run of the longer
/// program comes to its end or to an error within `fuel` instructions, the run
/// of the old program, started in the same state before the same old token,
/// does so too, with the same result, the same tape, the same input left and
/// the same output.
pub proof fn lemma_comment_can_go(
    m: Machine,
    beside: Machine,
    tokens: Seq<char>,
    at: int,
    comment: char,
    fuel: nat,
)
    requires
        0 <= at <= tokens.len(),
        !is_instruction(comment),
        follows(at, m, beside),
        beside.run(tokens.insert(at, comment), fuel).1 != Ok::<bool, Error>(false),
    ensures
        m.run(tokens, fuel).1 == beside.run(tokens.insert(at, comment), fuel).1,
        follows(at, m.run(tokens, fuel).0, beside.run(tokens.insert(at, comment), fuel).0),
    decreases fuel,
{
    let longer = tokens.insert(at, comment);
    let rest = (fuel - 1) as nat;
    if !beside.halted(longer) {
        if beside.token_pointer == at {
            // The next token is the comment: the old program has nothing to do for it.
            lemma_comment_can_go(m, beside.at((at + 1) as nat), tokens, at, comment, rest);
            lemma_run_ignores_spare_fuel(m, tokens, rest, fuel);
        } else {
            lemma_step_with_comment(m, tokens, at, comment);
            match m.advance(tokens) {
                Ok(next) => {
                    let mid = beside.advance(longer)->Ok_0;
                    lemma_comment_can_go(next, mid, tokens, at, comment, rest);
                },
                Err(_) => {},
            }
        }
    }
}

} // verus!
