//! The character stream: itertools' `MultiPeek` over the characters of one
//! source text, exposing consumption and a resettable peek cursor.
//!
//! The stream is described by two quantities: `stream_rest`, the characters it
//! has not yet handed out, and `stream_cursor`, the index into those
//! characters at which the next peek reads. Every method the scanner calls is
//! stated over the two.

use vstd::prelude::*;
use itertools::multipeek;
use itertools::structs::MultiPeek;

verus! {

#[verifier::external_type_specification]
#[verifier::external_body]
#[verifier::reject_recursive_types(I)]
pub struct ExMultiPeek<I: Iterator>(MultiPeek<I>);

/// The characters the stream has not yet handed out through `next`.
pub uninterp spec fn stream_rest(s: MultiPeek<std::vec::IntoIter<char>>) -> Seq<char>;

/// The index into the remaining characters at which the next peek reads.
pub uninterp spec fn stream_cursor(s: MultiPeek<std::vec::IntoIter<char>>) -> int;

/// Relies on itertools::multipeek: builds a stream that hands out exactly the
/// characters of `source`, in order. A text's character count fits in usize
/// because the text itself occupies at least one byte per character.
#[verifier::external_body]
pub(crate) fn stream_new(source: &str) -> (s: MultiPeek<std::vec::IntoIter<char>>)
    ensures
        stream_rest(s) == source@,
        stream_rest(s).len() <= usize::MAX,
        stream_cursor(s) == 0,
{
    let chars: Vec<char> = source.chars().collect();
    multipeek(chars)
}

/// Relies on MultiPeek::next (through Iterator): hands out the front
/// remaining character if any remain, and moves the peek cursor back to the
/// front.
#[verifier::external_body]
pub(crate) fn stream_next(s: &mut MultiPeek<std::vec::IntoIter<char>>) -> (r: Option<char>)
    ensures
        stream_cursor(*final(s)) == 0,
        stream_rest(*old(s)).len() == 0 ==> r is None && stream_rest(*final(s)) == stream_rest(
            *old(s),
        ),
        stream_rest(*old(s)).len() > 0 ==> r == Some(stream_rest(*old(s))[0]) && stream_rest(
            *final(s),
        ) == stream_rest(*old(s)).drop_first(),
{
    s.next()
}

/// Relies on MultiPeek::peek: returns the remaining character at the peek
/// cursor without consuming anything, moving the cursor one further on
/// success and leaving it in place past the end.
#[verifier::external_body]
pub(crate) fn stream_peek(s: &mut MultiPeek<std::vec::IntoIter<char>>) -> (r: Option<char>)
    ensures
        stream_rest(*final(s)) == stream_rest(*old(s)),
        stream_cursor(*old(s)) < stream_rest(*old(s)).len() ==> r == Some(
            stream_rest(*old(s))[stream_cursor(*old(s))],
        ) && stream_cursor(*final(s)) == stream_cursor(*old(s)) + 1,
        stream_cursor(*old(s)) >= stream_rest(*old(s)).len() ==> r is None && stream_cursor(
            *final(s),
        ) == stream_cursor(*old(s)),
{
    match s.peek() {
        Some(c) => Some(*c),
        None => None,
    }
}

/// Relies on MultiPeek::reset_peek: moves the peek cursor back to the front.
#[verifier::external_body]
pub(crate) fn stream_reset_peek(s: &mut MultiPeek<std::vec::IntoIter<char>>)
    ensures
        stream_rest(*final(s)) == stream_rest(*old(s)),
        stream_cursor(*final(s)) == 0,
{
    s.reset_peek()
}

} // verus!
