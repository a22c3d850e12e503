//! Bracket pairs: which `]` ends the loop that a `[` begins, and the reverse.
//!
//! A program is not checked when it is loaded. A bracket is looked up each time
//! a jump needs its partner, by a scan that counts nesting.

use vstd::prelude::*;

use crate::error::{Error, NO_BRACKET};

verus! {

/// What a token adds to the nesting depth: `[` opens a level, `]` closes one,
/// every other token leaves the depth alone.
pub open spec fn weight(token: char) -> int {
    if token == '[' {
        1
    } else if token == ']' {
        -1
    } else {
        0
    }
}

/// The net change of nesting depth over the tokens at `from`, `from + 1`, ...,
/// `to - 1`: the number of `[` among them minus the number of `]`.
pub open spec fn depth(tokens: Seq<char>, from: int, to: int) -> int
    decreases to - from,
{
    if to <= from {
        0
    } else {
        depth(tokens, from, to - 1) + weight(tokens[to - 1])
    }
}

/// The `]` at `at` is the first one at or after `start` before which every `[`
/// met since `start` has been closed again. When `start` is the position just
/// after a `[`, this `]` is the partner of that `[`.
pub open spec fn closes_at(tokens: Seq<char>, start: int, at: int) -> bool {
    &&& 0 <= start <= at < tokens.len()
    &&& tokens[at] == ']'
    &&& depth(tokens, start, at) == 0
    &&& forall|k: int|
        start <= k < at && tokens[k] == ']' ==> #[trigger] depth(tokens, start, k) != 0
}

/// The `[` at `at` is the last one at or before `end` after which every `]`
/// met up to `end` has been opened before. When `end` is the position just
/// before a `]`, this `[` is the partner of that `]`.
pub open spec fn opens_at(tokens: Seq<char>, end: int, at: int) -> bool {
    &&& 0 <= at <= end < tokens.len()
    &&& tokens[at] == '['
    &&& depth(tokens, at + 1, end + 1) == 0
    &&& forall|k: int|
        at < k <= end && tokens[k] == '[' ==> #[trigger] depth(tokens, k + 1, end + 1) != 0
}

/// The position of the `]` that a forward search from `start` finds, if any.
pub open spec fn close_of(tokens: Seq<char>, start: int) -> Option<int> {
    if exists|at: int| closes_at(tokens, start, at) {
        Some(choose|at: int| closes_at(tokens, start, at))
    } else {
        None
    }
}

/// The position of the `[` that a backward search from `end` finds, if any.
pub open spec fn open_of(tokens: Seq<char>, end: int) -> Option<int> {
    if exists|at: int| opens_at(tokens, end, at) {
        Some(choose|at: int| opens_at(tokens, end, at))
    } else {
        None
    }
}

/// The brackets of the program pair up: reading from the left, no more have
/// been closed than opened at any point, and at the end as many.
pub open spec fn matched(tokens: Seq<char>) -> bool {
    &&& forall|k: int| 0 <= k <= tokens.len() ==> #[trigger] depth(tokens, 0, k) >= 0
    &&& depth(tokens, 0, tokens.len() as int) == 0
}

/// The depth over a span is the sum of the depths over its two parts.
pub proof fn lemma_depth_split(tokens: Seq<char>, from: int, mid: int, to: int)
    requires
        from <= mid <= to,
    ensures
        depth(tokens, from, to) == depth(tokens, from, mid) + depth(tokens, mid, to),
    decreases to - mid,
{
    if mid < to {
        lemma_depth_split(tokens, from, mid, to - 1);
    }
}

/// A forward search has at most one answer.
pub proof fn lemma_close_unique(tokens: Seq<char>, start: int, a: int, b: int)
    requires
        closes_at(tokens, start, a),
        closes_at(tokens, start, b),
    ensures
        a == b,
{
}

/// A backward search has at most one answer.
pub proof fn lemma_open_unique(tokens: Seq<char>, end: int, a: int, b: int)
    requires
        opens_at(tokens, end, a),
        opens_at(tokens, end, b),
    ensures
        a == b,
{
}

/// The depth over a span is the weight of its first token plus the depth over
/// the rest.
pub proof fn lemma_depth_first(tokens: Seq<char>, from: int, to: int)
    requires
        from < to,
    ensures
        depth(tokens, from, to) == weight(tokens[from]) + depth(tokens, from + 1, to),
{
    lemma_depth_split(tokens, from, from + 1, to);
    assert(depth(tokens, from, from + 1) == weight(tokens[from])) by {
        assert(depth(tokens, from, from) == 0);
    }
}

/// On the way from `start` to the `]` that a forward search finds, no more
/// brackets have been closed than opened.
pub proof fn lemma_open_before_close(tokens: Seq<char>, start: int, at: int, upto: int)
    requires
        closes_at(tokens, start, at),
        start <= upto <= at,
    ensures
        depth(tokens, start, upto) >= 0,
    decreases upto - start,
{
    if start < upto {
        lemma_open_before_close(tokens, start, at, upto - 1);
    }
}

/// On the way back from `end` to the `[` that a backward search finds, no more
/// brackets have been opened than closed.
pub proof fn lemma_close_after_open(tokens: Seq<char>, end: int, at: int, from: int)
    requires
        opens_at(tokens, end, at),
        at < from <= end + 1,
    ensures
        depth(tokens, from, end + 1) <= 0,
    decreases end + 1 - from,
{
    if from <= end {
        lemma_close_after_open(tokens, end, at, from + 1);
        lemma_depth_first(tokens, from, end + 1);
    }
}

/// The two searches agree on which brackets are partners: the `]` found
/// forward from behind a `[` finds that `[` when searching backward.
pub proof fn lemma_partner_of_close(tokens: Seq<char>, open: int, close: int)
    requires
        0 <= open < tokens.len(),
        tokens[open] == '[',
        closes_at(tokens, open + 1, close),
    ensures
        opens_at(tokens, close - 1, open),
{
    assert forall|k: int| open < k <= close - 1 && tokens[k] == '[' implies #[trigger] depth(
        tokens,
        k + 1,
        close,
    ) != 0 by {
        lemma_open_before_close(tokens, open + 1, close, k);
        lemma_depth_split(tokens, open + 1, k + 1, close);
    }
}

/// The two searches agree on which brackets are partners: the `[` found
/// backward from before a `]` finds that `]` when searching forward.
pub proof fn lemma_partner_of_open(tokens: Seq<char>, open: int, close: int)
    requires
        0 <= close < tokens.len(),
        tokens[close] == ']',
        opens_at(tokens, close - 1, open),
    ensures
        closes_at(tokens, open + 1, close),
{
    assert forall|k: int| open + 1 <= k < close && tokens[k] == ']' implies #[trigger] depth(
        tokens,
        open + 1,
        k,
    ) != 0 by {
        lemma_close_after_open(tokens, close - 1, open, k + 1);
        lemma_depth_first(tokens, k, close);
        lemma_depth_split(tokens, open + 1, k, close);
    }
}

/// A forward search succeeds if the depth falls below zero somewhere ahead:
/// with nothing found before `from`, and the depth negative at `upto`, the `]`
/// stands between the two.
proof fn lemma_close_ahead(tokens: Seq<char>, start: int, from: int, upto: int)
    requires
        0 <= start <= from <= upto <= tokens.len(),
        forall|k: int|
            start <= k < from && tokens[k] == ']' ==> #[trigger] depth(tokens, start, k) != 0,
        depth(tokens, start, from) >= 0,
        depth(tokens, start, upto) < 0,
    ensures
        exists|at: int| closes_at(tokens, start, at),
    decreases upto - from,
{
    if tokens[from] == ']' && depth(tokens, start, from) == 0 {
        assert(closes_at(tokens, start, from));
    } else {
        lemma_close_ahead(tokens, start, from + 1, upto);
    }
}

/// A backward search succeeds if the depth rises above zero somewhere behind:
/// with nothing found at `from` or after, and the depth from `downto` positive,
/// the `[` stands between the two.
proof fn lemma_open_behind(tokens: Seq<char>, end: int, from: int, downto: int)
    requires
        0 <= downto <= from <= end + 1 <= tokens.len(),
        forall|k: int|
            from <= k <= end && tokens[k] == '[' ==> #[trigger] depth(tokens, k + 1, end + 1) != 0,
        depth(tokens, from, end + 1) <= 0,
        depth(tokens, downto, end + 1) > 0,
    ensures
        exists|at: int| opens_at(tokens, end, at),
    decreases from - downto,
{
    if tokens[from - 1] == '[' && depth(tokens, from, end + 1) == 0 {
        assert(opens_at(tokens, end, from - 1));
    } else {
        lemma_depth_first(tokens, from - 1, end + 1);
        lemma_open_behind(tokens, end, from - 1, downto);
    }
}

/// In a program whose brackets pair up, every `[` has its partner.
pub proof fn lemma_matched_open_has_partner(tokens: Seq<char>, open: int)
    requires
        matched(tokens),
        0 <= open < tokens.len(),
        tokens[open] == '[',
    ensures
        close_of(tokens, open + 1) is Some,
{
    assert(depth(tokens, 0, open + 1) == depth(tokens, 0, open) + 1);
    lemma_depth_split(tokens, 0, open + 1, tokens.len() as int);
    lemma_close_ahead(tokens, open + 1, open + 1, tokens.len() as int);
}

/// In a program whose brackets pair up, every `]` has its partner.
pub proof fn lemma_matched_close_has_partner(tokens: Seq<char>, close: int)
    requires
        matched(tokens),
        0 <= close < tokens.len(),
        tokens[close] == ']',
    ensures
        open_of(tokens, close - 1) is Some,
{
    assert(depth(tokens, 0, close + 1) == depth(tokens, 0, close) - 1);
    lemma_open_behind(tokens, close - 1, close, 0);
}

/// Scans forward from `start_pointer` for the `]` that balances the tokens
/// passed on the way, and returns its position.
pub fn get_close_bracket_pointer(tokens: &Vec<char>, start_pointer: usize) -> (found: Option<usize>)
    ensures
        found matches Some(at) ==> closes_at(tokens@, start_pointer as int, at as int),
        found is None ==> forall|at: int| !closes_at(tokens@, start_pointer as int, at),
        found == match close_of(tokens@, start_pointer as int) {
            Some(at) => Some(at as usize),
            None => None,
        },
{
    let mut count: usize = 0;
    let mut pointer: usize = start_pointer;
    while pointer < tokens.len()
        invariant
            start_pointer <= pointer,
            count == depth(tokens@, start_pointer as int, pointer as int),
            count <= pointer - start_pointer,
            forall|k: int|
                start_pointer <= k < pointer && tokens@[k] == ']' ==> #[trigger] depth(
                    tokens@,
                    start_pointer as int,
                    k,
                ) != 0,
        decreases tokens.len() - pointer,
    {
        let token: char = tokens[pointer];
        if token == ']' {
            if count == 0 {
                proof {
                    lemma_close_unique(
                        tokens@,
                        start_pointer as int,
                        pointer as int,
                        choose|at: int| closes_at(tokens@, start_pointer as int, at),
                    );
                }
                return Some(pointer);
            }
            count -= 1;
        } else if token == '[' {
            count += 1;
        }
        pointer += 1;
    }
    None
}

/// Scans backward from `end_pointer` for the `[` that balances the tokens
/// passed on the way, and returns its position.
pub fn get_open_bracket_pointer(tokens: &Vec<char>, end_pointer: usize) -> (found: Option<usize>)
    ensures
        found matches Some(at) ==> opens_at(tokens@, end_pointer as int, at as int),
        found is None ==> forall|at: int| !opens_at(tokens@, end_pointer as int, at),
        found == match open_of(tokens@, end_pointer as int) {
            Some(at) => Some(at as usize),
            None => None,
        },
{
    if end_pointer >= tokens.len() {
        return None;
    }
    let mut count: usize = 0;
    // The tokens from `pointer` up to `end_pointer` have been passed.
    let mut pointer: usize = end_pointer + 1;
    while pointer > 0
        invariant
            end_pointer < tokens.len(),
            pointer <= end_pointer + 1,
            count == -depth(tokens@, pointer as int, end_pointer + 1),
            count <= end_pointer + 1 - pointer,
            forall|k: int|
                pointer <= k <= end_pointer && tokens@[k] == '[' ==> #[trigger] depth(
                    tokens@,
                    k + 1,
                    end_pointer + 1,
                ) != 0,
        decreases pointer,
    {
        pointer -= 1;
        let token: char = tokens[pointer];
        proof {
            lemma_depth_split(tokens@, pointer as int, pointer + 1, end_pointer + 1);
            assert(depth(tokens@, pointer as int, pointer + 1) == weight(token)) by {
                assert(depth(tokens@, pointer as int, pointer as int) == 0);
            }
        }
        if token == '[' {
            if count == 0 {
                proof {
                    lemma_open_unique(
                        tokens@,
                        end_pointer as int,
                        pointer as int,
                        choose|at: int| opens_at(tokens@, end_pointer as int, at),
                    );
                }
                return Some(pointer);
            }
            count -= 1;
        } else if token == ']' {
            count += 1;
        }
    }
    None
}

/// The partner of the `[` just before `start_pointer`, or a jump error when
/// the program holds none.
pub fn find_close_bracket_pointer(tokens: &Vec<char>, start_pointer: usize) -> (result: Result<
    usize,
    Error,
>)
    ensures
        result == match close_of(tokens@, start_pointer as int) {
            Some(at) => Ok::<usize, Error>(at as usize),
            None => Err(Error::Jump(NO_BRACKET)),
        },
        result matches Ok(at) ==> closes_at(tokens@, start_pointer as int, at as int),
{
    match get_close_bracket_pointer(tokens, start_pointer) {
        Some(pointer) => Ok(pointer),
        None => Err(Error::Jump(NO_BRACKET)),
    }
}

/// The partner of the `]` just after `end_pointer`, or a jump error when the
/// program holds none.
pub fn find_open_bracket_pointer(tokens: &Vec<char>, end_pointer: usize) -> (result: Result<
    usize,
    Error,
>)
    ensures
        result == match open_of(tokens@, end_pointer as int) {
            Some(at) => Ok::<usize, Error>(at as usize),
            None => Err(Error::Jump(NO_BRACKET)),
        },
        result matches Ok(at) ==> opens_at(tokens@, end_pointer as int, at as int),
{
    match get_open_bracket_pointer(tokens, end_pointer) {
        Some(pointer) => Ok(pointer),
        None => Err(Error::Jump(NO_BRACKET)),
    }
}

} // verus!
