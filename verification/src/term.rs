//! Splitting a two-level term at the delimiter, and the law that joining and
//! splitting undo each other.

use crate::character::delimiter;
use crate::two_levels::joined;
use vstd::prelude::*;

verus! {

/// The position of the first delimiter of `text` at or after `from`, or the
/// length of `text` where there is none.
pub open spec fn segment_end(text: Seq<char>, from: int) -> int
    decreases text.len() - from,
{
    if from >= text.len() {
        text.len() as int
    } else if text[from] == delimiter() {
        from
    } else {
        segment_end(text, from + 1)
    }
}

/// The first two segments of `text` between delimiters; nothing where `text`
/// holds no delimiter.
pub open spec fn split_at_delimiter(text: Seq<char>) -> Option<(Seq<char>, Seq<char>)> {
    let first = segment_end(text, 0);
    if first >= text.len() {
        None
    } else {
        Some((text.subrange(0, first), text.subrange(first + 1, segment_end(text, first + 1))))
    }
}

/// The end of a segment lies between its start and the end of the text, no
/// delimiter stands before it, and one stands at it unless the text ends.
pub proof fn lemma_segment_end(text: Seq<char>, from: int)
    requires
        0 <= from <= text.len(),
    ensures
        from <= segment_end(text, from) <= text.len(),
        forall|i: int| from <= i < segment_end(text, from) ==> text[i] != delimiter(),
        segment_end(text, from) < text.len() ==> text[segment_end(text, from)] == delimiter(),
    decreases text.len() - from,
{
    if from < text.len() && text[from] != delimiter() {
        lemma_segment_end(text, from + 1);
    }
}

/// The position of the first delimiter of `text` at or after `from`.
pub fn find_segment_end(text: &str, from: usize) -> (end: usize)
    requires
        from <= text@.len(),
    ensures
        end == segment_end(text@, from as int),
{
    let len = text.unicode_len();
    let mut at = from;
    while at < len && text.get_char(at) != '+'
        invariant
            from <= at <= len,
            len == text@.len(),
            segment_end(text@, at as int) == segment_end(text@, from as int),
        decreases len - at,
    {
        at = at + 1;
    }
    at
}

/// Splits a term at the delimiter into its first two segments.
pub fn split_term(term: &str) -> (parts: Option<(String, String)>)
    ensures
        match (parts, split_at_delimiter(term@)) {
            (Some(found), Some(expected)) => found.0@ == expected.0 && found.1@ == expected.1,
            (None, None) => true,
            _ => false,
        },
{
    let len = term.unicode_len();
    let first = find_segment_end(term, 0);
    proof {
        lemma_segment_end(term@, 0);
    }
    if first >= len {
        None
    } else {
        let second = find_segment_end(term, first + 1);
        proof {
            lemma_segment_end(term@, first + 1);
        }
        let left = term.substring_char(0, first).to_owned();
        let right = term.substring_char(first + 1, second).to_owned();
        Some((left, right))
    }
}

/// A kind and a sub-term that hold no delimiter join to a term with exactly
/// one delimiter, which stands between them, and the term splits back into
/// the two.
pub proof fn lemma_join_then_split(kind: Seq<char>, term: Seq<char>)
    requires
        !kind.contains(delimiter()),
        !term.contains(delimiter()),
    ensures
        joined(kind, term)[kind.len() as int] == delimiter(),
        forall|i: int|
            0 <= i < joined(kind, term).len() && i != kind.len() ==> joined(kind, term)[i]
                != delimiter(),
        split_at_delimiter(joined(kind, term)) == Some((kind, term)),
{
    let whole = joined(kind, term);
    let mid = kind.len() as int;
    assert forall|i: int| 0 <= i < whole.len() && i != mid implies whole[i] != delimiter() by {
        if i < mid {
            assert(whole[i] == kind[i]);
        } else {
            assert(whole[i] == term[i - mid - 1]);
        }
    }
    lemma_segment_end(whole, 0);
    lemma_segment_end(whole, mid + 1);
    assert(whole[mid] == delimiter());
    assert(segment_end(whole, 0) == mid);
    assert(segment_end(whole, mid + 1) == whole.len());
    assert(whole.subrange(0, mid) =~= kind);
    assert(whole.subrange(mid + 1, whole.len() as int) =~= term);
}

/// Whatever the sub-term holds, a kind without a delimiter is what stands
/// before the first delimiter of the joined term.
pub proof fn lemma_join_keeps_kind(kind: Seq<char>, term: Seq<char>)
    requires
        !kind.contains(delimiter()),
    ensures
        split_at_delimiter(joined(kind, term)) matches Some(parts) && parts.0 == kind,
{
    let whole = joined(kind, term);
    let mid = kind.len() as int;
    assert forall|i: int| 0 <= i < mid implies whole[i] != delimiter() by {
        assert(whole[i] == kind[i]);
    }
    lemma_segment_end(whole, 0);
    assert(whole[mid] == delimiter());
    assert(segment_end(whole, 0) == mid);
    assert(whole.subrange(0, mid) =~= kind);
}

/// A joined term always holds a delimiter, so it always splits.
pub proof fn lemma_joined_splits(kind: Seq<char>, term: Seq<char>)
    ensures
        split_at_delimiter(joined(kind, term)) is Some,
{
    let whole = joined(kind, term);
    lemma_segment_end(whole, 0);
    assert(whole[kind.len() as int] == delimiter());
}

} // verus!
