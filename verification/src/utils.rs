//! Helpers on text: line terminators, first lines, and lengths in bytes.

use vstd::prelude::*;
use vstd::string::StrSliceExecFns;

verus! {

/// Number of line terminators in `t`.
pub open spec fn spec_count_newlines(t: Seq<char>) -> nat
    decreases t.len(),
{
    if t.len() == 0 {
        0
    } else {
        spec_count_newlines(t.drop_last()) + if t.last() == '\n' {
            1nat
        } else {
            0nat
        }
    }
}

/// Position of the first line terminator of `t`, or `t.len()` when it has none.
pub open spec fn spec_first_newline(t: Seq<char>) -> int
    decreases t.len(),
{
    if t.len() == 0 {
        0
    } else if t.first() == '\n' {
        0
    } else {
        1 + spec_first_newline(t.drop_first())
    }
}

/// The text before the first line terminator of `t`; all of `t` when it has none.
pub open spec fn spec_first_line(t: Seq<char>) -> Seq<char> {
    t.take(spec_first_newline(t))
}

/// Length of `t` once encoded as UTF-8.
pub open spec fn byte_len(t: Seq<char>) -> nat {
    vstd::utf8::encode_utf8(t).len()
}

/// `spec_first_newline` is a position in `t`, nothing before it is a line
/// terminator, and it holds one unless it is the end of `t`.
pub proof fn lemma_first_newline(t: Seq<char>)
    ensures
        0 <= spec_first_newline(t) <= t.len(),
        forall|i: int| 0 <= i < spec_first_newline(t) ==> t[i] != '\n',
        spec_first_newline(t) < t.len() ==> t[spec_first_newline(t)] == '\n',
    decreases t.len(),
{
    if t.len() != 0 && t.first() != '\n' {
        let rest = t.drop_first();
        lemma_first_newline(rest);
        assert forall|i: int| 0 <= i < spec_first_newline(t) implies t[i] != '\n' by {
            if i > 0 {
                assert(t[i] == rest[i - 1]);
            }
        }
    }
}

/// A text holds a line terminator exactly when its count is not zero.
pub proof fn lemma_count_newlines_zero(t: Seq<char>)
    ensures
        (spec_count_newlines(t) == 0) <==> !t.contains('\n'),
    decreases t.len(),
{
    if t.len() != 0 {
        let front = t.drop_last();
        lemma_count_newlines_zero(front);
        if t.last() == '\n' {
            assert(t[t.len() - 1] == '\n');
        } else if front.contains('\n') {
            let i = choose|i: int| 0 <= i < front.len() && front[i] == '\n';
            assert(t[i] == '\n');
        } else if t.contains('\n') {
            let i = choose|i: int| 0 <= i < t.len() && t[i] == '\n';
            assert(front[i] == '\n');
        }
    }
}

/// The first line of a text holds no line terminator.
pub proof fn lemma_first_line_has_no_newline(t: Seq<char>)
    ensures
        !spec_first_line(t).contains('\n'),
        spec_count_newlines(spec_first_line(t)) == 0,
        spec_first_line(t).is_prefix_of(t),
{
    lemma_first_newline(t);
    lemma_count_newlines_zero(spec_first_line(t));
}

/// Lengths in bytes add up over concatenation.
pub proof fn lemma_byte_len_concat(a: Seq<char>, b: Seq<char>)
    ensures
        byte_len(a + b) == byte_len(a) + byte_len(b),
    decreases a.len(),
{
    if a.len() == 0 {
        assert(a + b =~= b);
    } else {
        lemma_byte_len_concat(a.drop_first(), b);
        assert((a + b).drop_first() =~= a.drop_first() + b);
    }
}

/// Every character takes at least one byte.
pub proof fn lemma_char_len_le_byte_len(t: Seq<char>)
    ensures
        t.len() <= byte_len(t),
    decreases t.len(),
{
    if t.len() != 0 {
        lemma_char_len_le_byte_len(t.drop_first());
    }
}

/// Whether `s` holds a line terminator.
#[inline]
#[must_use]
pub fn has_newlines(s: &str) -> (b: bool)
    ensures
        b == s@.contains('\n'),
        b == (spec_count_newlines(s@) != 0),
{
    let mut found = false;
    for c in it: s.chars()
        invariant
            it.seq() == s@,
            found == s@.take(it.index() as int).contains('\n'),
    {
        proof {
            let k = it.index() as int;
            let before = s@.take(k);
            let after = s@.take(k + 1);
            assert(after.drop_last() =~= before);
            if c == '\n' {
                assert(after[k] == '\n');
            } else if before.contains('\n') {
                let i = choose|i: int| 0 <= i < before.len() && before[i] == '\n';
                assert(after[i] == '\n');
            } else if after.contains('\n') {
                let i = choose|i: int| 0 <= i < after.len() && after[i] == '\n';
                assert(before[i] == '\n');
            }
        }
        if c == '\n' {
            found = true;
        }
    }
    proof {
        assert(s@.take(s@.len() as int) =~= s@);
        lemma_count_newlines_zero(s@);
    }
    found
}

/// Counts the line terminators of `s`.
#[inline]
#[must_use]
pub fn count_newlines(s: &str) -> (n: usize)
    ensures
        n == spec_count_newlines(s@),
{
    let bytes = s.as_bytes();
    let limit = bytes.len();
    proof {
        lemma_char_len_le_byte_len(s@);
    }
    let mut n: usize = 0;
    for c in it: s.chars()
        invariant
            it.seq() == s@,
            s@.len() <= limit,
            n == spec_count_newlines(s@.take(it.index() as int)),
            n <= it.index(),
    {
        proof {
            let k = it.index() as int;
            assert(s@.take(k + 1).drop_last() =~= s@.take(k));
        }
        if c == '\n' {
            n = n + 1;
        }
    }
    proof {
        assert(s@.take(s@.len() as int) =~= s@);
    }
    n
}

/// The part of `s` before its first line terminator.
#[inline]
#[must_use]
pub fn first_line(s: &str) -> (line: &str)
    ensures
        line@ == spec_first_line(s@),
        !line@.contains('\n'),
        spec_count_newlines(line@) == 0,
{
    proof {
        lemma_first_line_has_no_newline(s@);
    }
    first_line_no_debug_assertion(s)
}

/// The part of `s` before its first line terminator, found in one pass.
#[inline]
#[must_use]
pub fn first_line_no_debug_assertion(s: &str) -> (line: &str)
    ensures
        line@ == spec_first_line(s@),
{
    let bytes = s.as_bytes();
    let limit = bytes.len();
    proof {
        lemma_char_len_le_byte_len(s@);
    }
    let mut end: usize = 0;
    let mut open = true;
    for c in it: s.chars()
        invariant
            it.seq() == s@,
            s@.len() <= limit,
            end <= it.index(),
            open ==> end == it.index(),
            open ==> forall|i: int| 0 <= i < end ==> s@[i] != '\n',
            !open ==> end < s@.len() && s@[end as int] == '\n' && forall|i: int|
                0 <= i < end ==> s@[i] != '\n',
    {
        if open {
            if c == '\n' {
                open = false;
            } else {
                end = end + 1;
            }
        }
    }
    proof {
        lemma_first_newline_unique(s@, end as int);
    }
    s.substring_char(0, end)
}

/// The first line terminator is where a line terminator (or the end) stands
/// with none before it.
pub proof fn lemma_first_newline_unique(t: Seq<char>, k: int)
    requires
        0 <= k <= t.len(),
        forall|i: int| 0 <= i < k ==> t[i] != '\n',
        k < t.len() ==> t[k] == '\n',
    ensures
        spec_first_newline(t) == k,
{
    lemma_first_newline(t);
    let f = spec_first_newline(t);
    if f < k {
        assert(t[f] == '\n');
    } else if k < f {
        assert(t[k] != '\n');
    }
}

} // verus!
