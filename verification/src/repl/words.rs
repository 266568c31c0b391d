//! Splitting a line into words.
//!
//! A word is a maximal run of bytes that are not ASCII whitespace. Words
//! are known by their place in the line, so that a caller can go back to
//! the raw bytes that follow a word.

use crate::text::{byte_is_space, is_space};
use vstd::prelude::*;

verus! {

/// The first index at or after `from` that holds no whitespace, or the end
/// of `s` when only whitespace follows.
pub open spec fn skip_spaces(s: Seq<u8>, from: int) -> int
    decreases s.len() - from,
{
    if 0 <= from < s.len() && is_space(s[from]) {
        skip_spaces(s, from + 1)
    } else {
        from
    }
}

/// The first index at or after `from` that holds whitespace, or the end of
/// `s` when none follows.
pub open spec fn skip_word(s: Seq<u8>, from: int) -> int
    decreases s.len() - from,
{
    if 0 <= from < s.len() && !is_space(s[from]) {
        skip_word(s, from + 1)
    } else {
        from
    }
}

/// Where `skip_spaces` stops: everything it passed is whitespace, and it
/// stands on a byte that is none, or at the end.
pub proof fn lemma_skip_spaces(s: Seq<u8>, from: int)
    requires
        0 <= from <= s.len(),
    ensures
        from <= skip_spaces(s, from) <= s.len(),
        forall|i: int| from <= i < skip_spaces(s, from) ==> is_space(#[trigger] s[i]),
        skip_spaces(s, from) < s.len() ==> !is_space(s[skip_spaces(s, from)]),
    decreases s.len() - from,
{
    if from < s.len() && is_space(s[from]) {
        lemma_skip_spaces(s, from + 1);
    }
}

/// Where `skip_word` stops: nothing it passed is whitespace, and it stands
/// on whitespace, or at the end.
pub proof fn lemma_skip_word(s: Seq<u8>, from: int)
    requires
        0 <= from <= s.len(),
    ensures
        from <= skip_word(s, from) <= s.len(),
        forall|i: int| from <= i < skip_word(s, from) ==> !is_space(#[trigger] s[i]),
        skip_word(s, from) < s.len() ==> is_space(s[skip_word(s, from)]),
        from < s.len() && !is_space(s[from]) ==> from < skip_word(s, from),
    decreases s.len() - from,
{
    if from < s.len() && !is_space(s[from]) {
        lemma_skip_word(s, from + 1);
    }
}

/// The words of `s` that begin at or after `from`, each as the pair of its
/// first index and the index just past its last byte, in order.
pub open spec fn spans_from(s: Seq<u8>, from: int) -> Seq<(int, int)>
    decreases s.len() - from,
{
    let start = skip_spaces(s, from);
    let end = skip_word(s, start);
    if 0 <= from && start < s.len() {
        proof {
            lemma_skip_spaces(s, from);
            lemma_skip_word(s, start);
        }
        seq![(start, end)] + spans_from(s, end)
    } else {
        Seq::empty()
    }
}

/// The words of the line `s`, by their places.
pub open spec fn spans(s: Seq<u8>) -> Seq<(int, int)> {
    spans_from(s, 0)
}

/// How many words the line `s` has.
pub open spec fn word_count(s: Seq<u8>) -> nat {
    spans(s).len()
}

/// The bytes of the `k`-th word of `s`, counting from zero.
pub open spec fn word(s: Seq<u8>, k: int) -> Seq<u8> {
    s.subrange(spans(s)[k].0, spans(s)[k].1)
}

/// Where the `k`-th word of `s` begins, or the length of `s` when the line
/// has no such word.
pub open spec fn word_start(s: Seq<u8>, k: int) -> int {
    if 0 <= k < spans(s).len() {
        spans(s)[k].0
    } else {
        s.len() as int
    }
}

/// The words from `from` on are the next word, when there is one, and then
/// the words after it.
pub proof fn lemma_spans_step(s: Seq<u8>, from: int)
    requires
        0 <= from <= s.len(),
    ensures
        ({
            let start = skip_spaces(s, from);
            let end = skip_word(s, start);
            &&& from <= start <= end <= s.len()
            &&& start < s.len() ==> start < end && spans_from(s, from) == seq![(start, end)]
                + spans_from(s, end)
            &&& start == s.len() ==> spans_from(s, from) == Seq::<(int, int)>::empty()
        }),
{
    lemma_skip_spaces(s, from);
    lemma_skip_word(s, skip_spaces(s, from));
}

/// Every word lies inside the line at or after `from`, is not empty, holds
/// no whitespace and cannot be made longer at either end; the words come in
/// order, with nothing but whitespace between them.
pub proof fn lemma_spans_are_words(s: Seq<u8>, from: int)
    requires
        0 <= from <= s.len(),
    ensures
        forall|k: int|
            0 <= k < spans_from(s, from).len() ==> {
                let (a, b) = #[trigger] spans_from(s, from)[k];
                &&& from <= a < b <= s.len()
                &&& forall|i: int| a <= i < b ==> !is_space(#[trigger] s[i])
                &&& b < s.len() ==> is_space(s[b])
                &&& a > from ==> is_space(s[a - 1])
            },
        forall|k: int|
            0 <= k < spans_from(s, from).len() - 1 ==> {
                let b = (#[trigger] spans_from(s, from)[k]).1;
                let a = spans_from(s, from)[k + 1].0;
                b < a && forall|i: int| b <= i < a ==> is_space(#[trigger] s[i])
            },
        spans_from(s, from).len() > 0 ==> spans_from(s, from)[0].0 == skip_spaces(s, from),
    decreases s.len() - from,
{
    let start = skip_spaces(s, from);
    let end = skip_word(s, start);
    lemma_spans_step(s, from);
    lemma_skip_spaces(s, from);
    lemma_skip_word(s, start);
    if start < s.len() {
        let rest = spans_from(s, end);
        let all = spans_from(s, from);
        lemma_spans_are_words(s, end);
        lemma_skip_spaces(s, end);
        assert forall|k: int| 0 <= k < all.len() implies {
            let (a, b) = #[trigger] all[k];
            &&& from <= a < b <= s.len()
            &&& forall|i: int| a <= i < b ==> !is_space(#[trigger] s[i])
            &&& b < s.len() ==> is_space(s[b])
            &&& a > from ==> is_space(s[a - 1])
        } by {
            if k > 0 {
                assert(all[k] == rest[k - 1]);
                let (a, b) = rest[k - 1];
                if a > end {
                    assert(is_space(s[a - 1]));
                } else {
                    assert(is_space(s[end]));
                }
            }
        }
        assert forall|k: int| 0 <= k < all.len() - 1 implies {
            let b = (#[trigger] all[k]).1;
            let a = all[k + 1].0;
            b < a && forall|i: int| b <= i < a ==> is_space(#[trigger] s[i])
        } by {
            assert(all[k + 1] == rest[k]);
            if k > 0 {
                assert(all[k] == rest[k - 1]);
            } else {
                assert(rest[0].0 == skip_spaces(s, end));
            }
        }
    }
}

/// A line has no more words from `from` on than it has bytes there.
pub proof fn lemma_spans_count(s: Seq<u8>, from: int)
    requires
        0 <= from <= s.len(),
    ensures
        spans_from(s, from).len() <= s.len() - from,
    decreases s.len() - from,
{
    lemma_spans_step(s, from);
    let start = skip_spaces(s, from);
    if start < s.len() {
        lemma_spans_count(s, skip_word(s, start));
    }
}

/// Every byte of the line that is no whitespace belongs to one of its
/// words.
pub proof fn lemma_spans_cover(s: Seq<u8>, from: int, i: int)
    requires
        0 <= from <= i < s.len(),
        !is_space(s[i]),
    ensures
        exists|k: int|
            0 <= k < spans_from(s, from).len() && (#[trigger] spans_from(s, from)[k]).0 <= i
                < spans_from(s, from)[k].1,
    decreases s.len() - from,
{
    let start = skip_spaces(s, from);
    let end = skip_word(s, start);
    lemma_spans_step(s, from);
    lemma_skip_spaces(s, from);
    lemma_skip_word(s, start);
    let all = spans_from(s, from);
    assert(start <= i);
    if i < end {
        assert(all[0].0 <= i < all[0].1);
    } else {
        lemma_spans_cover(s, end, i);
        let rest = spans_from(s, end);
        let k = choose|k: int| 0 <= k < rest.len() && (#[trigger] rest[k]).0 <= i < rest[k].1;
        assert(all[k + 1] == rest[k]);
    }
}

/// A run of whitespace that ends at a byte that is none, or at the end of
/// the line, is skipped whole.
pub proof fn lemma_skip_spaces_run(s: Seq<u8>, from: int, to: int)
    requires
        0 <= from <= to <= s.len(),
        forall|i: int| from <= i < to ==> is_space(#[trigger] s[i]),
        to < s.len() ==> !is_space(s[to]),
    ensures
        skip_spaces(s, from) == to,
    decreases to - from,
{
    if from < to {
        lemma_skip_spaces_run(s, from + 1, to);
    }
}

/// A run of bytes that are no whitespace, ending at whitespace or at the
/// end of the line, is one word.
pub proof fn lemma_skip_word_run(s: Seq<u8>, from: int, to: int)
    requires
        0 <= from <= to <= s.len(),
        forall|i: int| from <= i < to ==> !is_space(#[trigger] s[i]),
        to < s.len() ==> is_space(s[to]),
    ensures
        skip_word(s, from) == to,
    decreases to - from,
{
    if from < to {
        lemma_skip_word_run(s, from + 1, to);
    }
}

/// Finds the next word of `line` at or after `from`: where it begins and
/// where it ends. The two are equal when no word is left.
pub fn next_word(line: &[u8], from: usize) -> (span: (usize, usize))
    ensures
        span.0 == skip_spaces(line@, from as int),
        span.1 == skip_word(line@, span.0 as int),
        from <= span.0 <= span.1,
        from <= line@.len() ==> span.1 <= line@.len(),
{
    let n = line.len();
    let mut start = from;
    while start < n && byte_is_space(line[start])
        invariant
            n == line@.len(),
            from <= start,
            from <= n ==> start <= n,
            skip_spaces(line@, from as int) == skip_spaces(line@, start as int),
        decreases n - start,
    {
        start += 1;
    }
    let mut end = start;
    while end < n && !byte_is_space(line[end])
        invariant
            n == line@.len(),
            start <= end,
            start <= n ==> end <= n,
            skip_word(line@, start as int) == skip_word(line@, end as int),
        decreases n - end,
    {
        end += 1;
    }
    (start, end)
}

} // verus!
