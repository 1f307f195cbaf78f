//! Bracket matching: which `]` closes a given `[`, and which `[` opens a
//! given `]`.
//!
//! Matching is defined through nesting depth. A scan that leaves a bracket
//! starts at depth 1; every bracket it passes of the kind it started from
//! adds one, every bracket of the other kind takes one away; the partner is
//! the first position at which the depth is 0.

use vstd::prelude::*;
use crate::instruction::{CLOSE, OPEN};

verus! {

/// What one byte adds to the nesting depth: `[` adds one, `]` takes one away.
pub open spec fn weight(byte: u8) -> int {
    if byte == OPEN {
        1
    } else if byte == CLOSE {
        -1
    } else {
        0
    }
}

/// Net nesting of `program[from..to]`: its number of `[` minus its number of
/// `]`.
pub open spec fn nesting(program: Seq<u8>, from: int, to: int) -> int
    decreases to - from,
{
    if from >= to {
        0
    } else {
        nesting(program, from, to - 1) + weight(program[to - 1])
    }
}

/// Depth of a forward scan that left `start` at depth 1 and has just taken
/// in position `at`.
pub open spec fn depth_forward(program: Seq<u8>, start: int, at: int) -> int {
    1 + nesting(program, start + 1, at + 1)
}

/// Depth of a backward scan that left `start` at depth 1 and has just taken
/// in position `at`.
pub open spec fn depth_backward(program: Seq<u8>, start: int, at: int) -> int {
    1 - nesting(program, at, start)
}

/// `close` is the first position after `start` at which a forward scan from
/// `start` is back at depth 0.
pub open spec fn is_matching_close(program: Seq<u8>, start: int, close: int) -> bool {
    &&& 0 <= start < close < program.len()
    &&& depth_forward(program, start, close) == 0
    &&& forall|at: int| start < at < close ==> #[trigger] depth_forward(program, start, at) != 0
}

/// `open` is the first position before `start` at which a backward scan from
/// `start` is back at depth 0.
pub open spec fn is_matching_open(program: Seq<u8>, start: int, open: int) -> bool {
    &&& 0 <= open < start < program.len()
    &&& depth_backward(program, start, open) == 0
    &&& forall|at: int| open < at < start ==> #[trigger] depth_backward(program, start, at) != 0
}

/// The position that a forward scan from `start` stops at, if it stops
/// inside the program.
pub open spec fn matching_close(program: Seq<u8>, start: int) -> Option<int> {
    if exists|close: int| is_matching_close(program, start, close) {
        Some(choose|close: int| is_matching_close(program, start, close))
    } else {
        None
    }
}

/// The position that a backward scan from `start` stops at, if it stops
/// inside the program.
pub open spec fn matching_open(program: Seq<u8>, start: int) -> Option<int> {
    if exists|open: int| is_matching_open(program, start, open) {
        Some(choose|open: int| is_matching_open(program, start, open))
    } else {
        None
    }
}

/// A forward scan has at most one stopping position.
pub proof fn lemma_matching_close_unique(program: Seq<u8>, start: int, a: int, b: int)
    requires
        is_matching_close(program, start, a),
        is_matching_close(program, start, b),
    ensures
        a == b,
{
    if a < b {
        assert(depth_forward(program, start, a) != 0);
    } else if b < a {
        assert(depth_forward(program, start, b) != 0);
    }
}

/// A backward scan has at most one stopping position.
pub proof fn lemma_matching_open_unique(program: Seq<u8>, start: int, a: int, b: int)
    requires
        is_matching_open(program, start, a),
        is_matching_open(program, start, b),
    ensures
        a == b,
{
    if a < b {
        assert(depth_backward(program, start, b) != 0);
    } else if b < a {
        assert(depth_backward(program, start, a) != 0);
    }
}

/// A position that satisfies `is_matching_close` is the one that
/// `matching_close` names.
pub proof fn lemma_matching_close_found(program: Seq<u8>, start: int, close: int)
    requires
        is_matching_close(program, start, close),
    ensures
        matching_close(program, start) == Some(close),
{
    let chosen = choose|k: int| is_matching_close(program, start, k);
    lemma_matching_close_unique(program, start, close, chosen);
}

/// A position that satisfies `is_matching_open` is the one that
/// `matching_open` names.
pub proof fn lemma_matching_open_found(program: Seq<u8>, start: int, open: int)
    requires
        is_matching_open(program, start, open),
    ensures
        matching_open(program, start) == Some(open),
{
    let chosen = choose|k: int| is_matching_open(program, start, k);
    lemma_matching_open_unique(program, start, open, chosen);
}

/// Nesting of a range is the weight of its first byte plus the nesting of
/// the rest.
pub proof fn lemma_nesting_first(program: Seq<u8>, from: int, to: int)
    requires
        from < to,
    ensures
        nesting(program, from, to) == weight(program[from]) + nesting(program, from + 1, to),
    decreases to - from,
{
    if from + 1 < to {
        lemma_nesting_first(program, from, to - 1);
    } else {
        assert(nesting(program, from, to - 1) == 0);
        assert(nesting(program, from + 1, to) == 0);
    }
}

/// Nesting is additive over adjacent ranges.
pub proof fn lemma_nesting_split(program: Seq<u8>, from: int, mid: int, to: int)
    requires
        from <= mid <= to,
    ensures
        nesting(program, from, to) == nesting(program, from, mid) + nesting(program, mid, to),
    decreases to - mid,
{
    if mid < to {
        lemma_nesting_split(program, from, mid, to - 1);
    }
}

/// Before a forward scan stops, its depth is at least 1.
pub proof fn lemma_forward_depth_positive(program: Seq<u8>, start: int, close: int, at: int)
    requires
        is_matching_close(program, start, close),
        start <= at < close,
    ensures
        depth_forward(program, start, at) >= 1,
    decreases at - start,
{
    if at > start {
        lemma_forward_depth_positive(program, start, close, at - 1);
    } else {
        assert(nesting(program, start + 1, start + 1) == 0);
    }
}

/// Before a backward scan stops, its depth is at least 1.
pub proof fn lemma_backward_depth_positive(program: Seq<u8>, start: int, open: int, at: int)
    requires
        is_matching_open(program, start, open),
        open < at <= start,
    ensures
        depth_backward(program, start, at) >= 1,
    decreases start - at,
{
    if at < start {
        lemma_backward_depth_positive(program, start, open, at + 1);
        lemma_nesting_first(program, at, start);
    }
}

/// A forward scan stops on a `]`.
pub proof fn lemma_matching_close_is_close(program: Seq<u8>, start: int, close: int)
    requires
        is_matching_close(program, start, close),
    ensures
        program[close] == CLOSE,
{
    lemma_forward_depth_positive(program, start, close, close - 1);
}

/// A backward scan stops on a `[`.
pub proof fn lemma_matching_open_is_open(program: Seq<u8>, start: int, open: int)
    requires
        is_matching_open(program, start, open),
    ensures
        program[open] == OPEN,
{
    lemma_backward_depth_positive(program, start, open, open + 1);
    lemma_nesting_first(program, open, start);
}

/// Matching goes both ways: the `]` at which the scan from a `[` stops is
/// the `]` from which the scan back stops at that `[`.
pub proof fn lemma_close_matches_back(program: Seq<u8>, open: int, close: int)
    requires
        is_matching_close(program, open, close),
        program[open] == OPEN,
    ensures
        is_matching_open(program, close, open),
{
    lemma_matching_close_is_close(program, open, close);
    lemma_nesting_first(program, open, close);
    assert(nesting(program, open + 1, close) == 0);
    assert forall|at: int| open < at < close implies #[trigger] depth_backward(
        program,
        close,
        at,
    ) != 0 by {
        lemma_nesting_split(program, open + 1, at, close);
        lemma_forward_depth_positive(program, open, close, at - 1);
    }
}

/// Matching goes both ways: the `[` at which the scan back from a `]` stops
/// is the `[` from which the scan forward stops at that `]`.
pub proof fn lemma_open_matches_forward(program: Seq<u8>, open: int, close: int)
    requires
        is_matching_open(program, close, open),
        program[close] == CLOSE,
    ensures
        is_matching_close(program, open, close),
{
    lemma_matching_open_is_open(program, close, open);
    lemma_nesting_first(program, open, close);
    assert(nesting(program, open + 1, close) == 0);
    assert forall|at: int| open < at < close implies #[trigger] depth_forward(
        program,
        open,
        at,
    ) != 0 by {
        lemma_nesting_split(program, open + 1, at + 1, close);
        lemma_backward_depth_positive(program, close, open, at + 1);
    }
}

/// Searches for the first position after `at` at which the forward scan
/// from `start` is at depth 0, knowing that it is below 1 at `bound`.
proof fn lemma_forward_scan_stops(program: Seq<u8>, start: int, at: int, bound: int) -> (close:
    int)
    requires
        0 <= start <= at < bound < program.len(),
        depth_forward(program, start, bound) <= 0,
        forall|m: int| start <= m <= at ==> #[trigger] depth_forward(program, start, m) >= 1,
    ensures
        at < close <= bound,
        is_matching_close(program, start, close),
    decreases bound - at,
{
    assert(depth_forward(program, start, at + 1) == depth_forward(program, start, at) + weight(
        program[at + 1],
    ));
    if depth_forward(program, start, at + 1) == 0 {
        at + 1
    } else {
        lemma_forward_scan_stops(program, start, at + 1, bound)
    }
}

/// Brackets nest: a `[` between a `[` and its matching `]` has its own
/// matching `]` between them too.
pub proof fn lemma_inner_bracket_closes_inside(
    program: Seq<u8>,
    open: int,
    close: int,
    inner: int,
) -> (inner_close: int)
    requires
        is_matching_close(program, open, close),
        open < inner < close,
        program[inner] == OPEN,
    ensures
        inner < inner_close < close,
        is_matching_close(program, inner, inner_close),
{
    lemma_forward_depth_positive(program, open, close, inner - 1);
    lemma_nesting_split(program, open + 1, inner + 1, close + 1);
    assert(nesting(program, inner + 1, inner + 1) == 0);
    let inner_close = lemma_forward_scan_stops(program, inner, inner, close);
    if inner_close == close {
        assert(false);
    }
    inner_close
}

/// Finds the `]` that closes the bracket at `start`: scans forward from the
/// position after `start`, and returns the first position at which the depth
/// is back at 0, or `None` when the scan runs off the end of the program.
pub fn find_matching_close(program: &[u8], start: usize) -> (found: Option<usize>)
    ensures
        match found {
            Some(close) => matching_close(program@, start as int) == Some(close as int),
            None => matching_close(program@, start as int) is None,
        },
{
    let len: usize = program.len();
    if start >= len {
        return None;
    }
    let mut depth: usize = 1;
    let mut at: usize = start;
    while at + 1 < len
        invariant
            len == program@.len(),
            start <= at < len,
            1 <= depth <= at - start + 1,
            depth == depth_forward(program@, start as int, at as int),
            forall|m: int| start < m <= at ==> #[trigger] depth_forward(program@, start as int, m) != 0,
        decreases len - at,
    {
        at = at + 1;
        let byte: u8 = program[at];
        if byte == OPEN {
            depth = depth + 1;
        } else if byte == CLOSE {
            depth = depth - 1;
        }
        if depth == 0 {
            proof {
                lemma_matching_close_found(program@, start as int, at as int);
            }
            return Some(at);
        }
    }
    None
}

/// Finds the `[` that opens the bracket at `start`: scans backward from the
/// position before `start`, and returns the first position at which the
/// depth is back at 0, or `None` when the scan runs off the start of the
/// program.
pub fn find_matching_open(program: &[u8], start: usize) -> (found: Option<usize>)
    ensures
        match found {
            Some(open) => matching_open(program@, start as int) == Some(open as int),
            None => matching_open(program@, start as int) is None,
        },
{
    let len: usize = program.len();
    if start >= len {
        return None;
    }
    let mut depth: usize = 1;
    let mut at: usize = start;
    while at > 0
        invariant
            len == program@.len(),
            at <= start < len,
            1 <= depth <= start - at + 1,
            at < start ==> depth == depth_backward(program@, start as int, at as int),
            at == start ==> depth == 1,
            forall|m: int| at <= m < start ==> #[trigger] depth_backward(program@, start as int, m) != 0,
        decreases at,
    {
        at = at - 1;
        let byte: u8 = program[at];
        proof {
            lemma_nesting_first(program@, at as int, start as int);
        }
        if byte == OPEN {
            depth = depth - 1;
        } else if byte == CLOSE {
            depth = depth + 1;
        }
        if depth == 0 {
            proof {
                lemma_matching_open_found(program@, start as int, at as int);
            }
            return Some(at);
        }
    }
    None
}

} // verus!
