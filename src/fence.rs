use vstd::prelude::*;

use crate::text::{all_ws, chars_of, is_whitespace, is_ws, run_end, scan_run, scan_ws, trim_start};

verus! {

/// An open code fence: its marker character and how many of them opened it.
#[derive(Clone, Copy, Debug, PartialEq, Eq, Structural)]
pub struct FenceState {
    pub marker: char,
    pub marker_len: usize,
}

/// The fence marker that `line` starts with, after leading white space: a
/// run of at least three backticks or tildes. Gives the marker, the run's
/// length and the rest of the line.
pub open spec fn fence_marker(line: Seq<char>) -> Option<(char, int, Seq<char>)> {
    let t = trim_start(line);
    if t.len() == 0 || (t[0] != '`' && t[0] != '~') {
        None
    } else {
        let n = run_end(t, 0, t[0]);
        if n >= 3 {
            Some((t[0], n, t.skip(n)))
        } else {
            None
        }
    }
}

/// What a line does to the fence state: a marker line opens a fence when none
/// is open; it closes the open one when it has the same marker, at least as
/// many of them, and nothing but white space after. The flag tells whether
/// the line was a fence delimiter.
pub open spec fn consume_spec(line: Seq<char>, state: Option<FenceState>) -> (bool, Option<FenceState>) {
    match fence_marker(line) {
        None => (false, state),
        Some((m, n, rest)) => match state {
            Some(open) => if open.marker == m && n >= open.marker_len && all_ws(rest) {
                (true, None)
            } else {
                (false, state)
            },
            None => (true, Some(FenceState { marker: m, marker_len: n as usize })),
        },
    }
}

/// The fence marker of `line` as (marker, run length, index of the rest).
pub fn parse_fence_marker(line: &Vec<char>) -> (r: Option<(char, usize, usize)>)
    ensures
        match fence_marker(line@) {
            None => r is None,
            Some((m, n, rest)) => r matches Some((rm, rn, ri)) && rm == m && rn == n
                && ri <= line.len() && line@.skip(ri as int) == rest,
        },
{
    let start = scan_ws(line, 0);
    let ghost t = trim_start(line@);
    assert(t =~= line@.skip(start as int));
    if start >= line.len() {
        return None;
    }
    let first = line[start];
    if first != '`' && first != '~' {
        return None;
    }
    let end = scan_run(line, start, first);
    proof {
        lemma_run_end_shift(line@, start as int, first);
    }
    let n = end - start;
    assert(t[0] == first);
    if n >= 3 {
        assert(line@.skip(end as int) =~= t.skip(n as int));
        Some((first, n, end))
    } else {
        None
    }
}

proof fn lemma_run_end_shift(s: Seq<char>, k: int, c: char)
    requires
        0 <= k <= s.len(),
    ensures
        run_end(s.skip(k), 0, c) == run_end(s, k, c) - k,
{
    lemma_run_end_shift_from(s, k, 0, c);
}

proof fn lemma_run_end_shift_from(s: Seq<char>, k: int, i: int, c: char)
    requires
        0 <= k <= s.len(),
        0 <= i <= s.len() - k,
    ensures
        run_end(s.skip(k), i, c) == run_end(s, k + i, c) - k,
    decreases s.len() - k - i,
{
    if i < s.len() - k {
        lemma_run_end_shift_from(s, k, i + 1, c);
    }
}

/// Whether `line[from..]` is all white space.
fn rest_is_blank(line: &Vec<char>, from: usize) -> (r: bool)
    requires
        from <= line.len(),
    ensures
        r == all_ws(line@.skip(from as int)),
{
    let mut i = from;
    while i < line.len()
        invariant
            from <= i <= line.len(),
            all_ws(line@.subrange(from as int, i as int)),
        decreases line.len() - i,
    {
        if !is_whitespace(line[i]) {
            assert(line@.skip(from as int)[i - from] == line@[i as int]);
            return false;
        }
        assert(line@.subrange(from as int, i + 1)[i - from] == line@[i as int]);
        assert forall|j: int| 0 <= j < i + 1 - from implies is_ws(#[trigger] line@.subrange(from as int, i + 1)[j]) by {
            if j < i - from {
                assert(line@.subrange(from as int, i + 1)[j] == line@.subrange(from as int, i as int)[j]);
            }
        }
        i = i + 1;
    }
    assert(line@.skip(from as int) =~= line@.subrange(from as int, i as int));
    true
}

/// Tracks fenced code blocks line by line: returns whether `line` opens or
/// closes a fence, and updates `state` to match.
pub fn consume_fence_delimiter(line: &str, state: &mut Option<FenceState>) -> (r: bool)
    ensures
        (r, *final(state)) == consume_spec(line@, *old(state)),
{
    let chars = chars_of(line);
    let Some((marker, marker_len, rest)) = parse_fence_marker(&chars) else {
        return false;
    };
    match state {
        Some(open) => {
            if open.marker == marker && marker_len >= open.marker_len && rest_is_blank(&chars, rest) {
                *state = None;
                true
            } else {
                false
            }
        },
        None => {
            *state = Some(FenceState { marker, marker_len });
            true
        },
    }
}

} // verus!
