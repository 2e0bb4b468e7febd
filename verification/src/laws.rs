//! Laws of the tokenizer, stated over the specification-level scan and proved
//! once and for all.

use vstd::prelude::*;
use crate::chars::{
    alpha_model,
    alphanumeric_model,
    ascii_digit,
    numeric_char,
    whitespace_char,
};
use crate::scanner::{
    alnum_pred,
    lemma_run_end_is,
    numeric_pred,
    spec_next,
    spec_number_end,
    spec_tokenize,
    spec_tokenize_from,
    lemma_spec_next_bounds,
    ScanStep,
};
use crate::token::{classify_word, LexErrorModel, TokenModel};

verus! {

/// Every character of `s` in `[lo, hi)` is an ASCII decimal digit.
pub open spec fn decimal_digits(s: Seq<char>, lo: int, hi: int) -> bool {
    forall|j: int| lo <= j < hi ==> ascii_digit(#[trigger] s[j])
}

/// The text has the form `digits` or `digits '.' digits`, with at least one
/// digit on each side of the dot.
pub open spec fn number_literal_form(s: Seq<char>) -> bool {
    ||| (s.len() > 0 && decimal_digits(s, 0, s.len() as int))
    ||| (exists|d: int|
        1 <= d <= s.len() - 2 && s[d] == '.' && decimal_digits(s, 0, d) && decimal_digits(
            s,
            d + 1,
            s.len() as int,
        ))
}

/// Tokenizing a whole text of the form `digits` or `digits '.' digits` yields
/// a single numeric token carrying exactly that text.
pub proof fn lemma_number_literal(s: Seq<char>)
    requires
        number_literal_form(s),
    ensures
        spec_tokenize(s) == Ok::<Seq<TokenModel>, LexErrorModel>(seq![TokenModel::Number(s)]),
{
    let len = s.len() as int;
    if s.len() > 0 && decimal_digits(s, 0, len) {
        lemma_run_end_is(s, 1, len, numeric_pred());
        assert(spec_number_end(s, 1) == len);
    } else {
        let d = choose|d: int|
            1 <= d <= s.len() - 2 && s[d] == '.' && decimal_digits(s, 0, d) && decimal_digits(
                s,
                d + 1,
                len,
            );
        lemma_run_end_is(s, 1, d, numeric_pred());
        lemma_run_end_is(s, d + 1, len, numeric_pred());
        assert(spec_number_end(s, 1) == len);
    }
    assert(spec_next(s, 0) matches ScanStep::Lexed { token, next } && token == TokenModel::Number(
        s.subrange(0, len),
    ) && next == len);
    assert(s.subrange(0, len) =~= s);
    assert(spec_tokenize_from(s, len) == Ok::<Seq<TokenModel>, LexErrorModel>(Seq::<TokenModel>::empty()));
    assert(seq![TokenModel::Number(s)] + Seq::<TokenModel>::empty() =~= seq![
        TokenModel::Number(s),
    ]);
}

/// Tokenizing one maximal alphanumeric word yields exactly the token the
/// keyword table assigns to it: the dedicated keyword token for each of the
/// fifteen fixed spellings, and an identifier carrying the word for any other
/// word. The word must not start with a numeric or whitespace character,
/// which the scanner dispatches to other token classes.
pub proof fn lemma_word_classified(w: Seq<char>)
    requires
        w.len() > 0,
        alpha_model(w[0]),
        !numeric_char(w[0]),
        !whitespace_char(w[0]),
        forall|j: int| 0 <= j < w.len() ==> alphanumeric_model(#[trigger] w[j]),
    ensures
        spec_tokenize(w) == Ok::<Seq<TokenModel>, LexErrorModel>(seq![classify_word(w)]),
{
    let len = w.len() as int;
    lemma_run_end_is(w, 1, len, alnum_pred());
    assert(spec_next(w, 0) matches ScanStep::Lexed { token, next } && token == classify_word(
        w.subrange(0, len),
    ) && next == len);
    assert(w.subrange(0, len) =~= w);
    assert(spec_tokenize_from(w, len) == Ok::<Seq<TokenModel>, LexErrorModel>(Seq::<TokenModel>::empty()));
    assert(!(classify_word(w) is WhiteSpace) && !(classify_word(w) is Comment));
    assert(seq![classify_word(w)] + Seq::<TokenModel>::empty() =~= seq![classify_word(w)]);
}

/// The filtered token list never contains the whitespace or comment markers.
pub proof fn lemma_no_markers_from(s: Seq<char>, i: int)
    requires
        0 <= i <= s.len(),
    ensures
        spec_tokenize_from(s, i) matches Ok(ts) ==> forall|k: int|
            0 <= k < ts.len() ==> !(#[trigger] ts[k] is WhiteSpace) && !(ts[k] is Comment),
    decreases s.len() - i,
{
    lemma_spec_next_bounds(s, i);
    match spec_next(s, i) {
        ScanStep::Lexed { token, next } => {
            lemma_no_markers_from(s, next);
        },
        _ => {},
    }
}

/// The filtered token list of a whole text never contains the whitespace or
/// comment markers.
pub proof fn lemma_tokenize_no_markers(s: Seq<char>)
    ensures
        spec_tokenize(s) matches Ok(ts) ==> forall|k: int|
            0 <= k < ts.len() ==> !(#[trigger] ts[k] is WhiteSpace) && !(ts[k] is Comment),
{
    lemma_no_markers_from(s, 0);
}

/// Scanning is a pure function of the source text: equal texts denote equal
/// token lists, so re-tokenizing the same text yields an identical sequence.
pub proof fn lemma_tokenize_deterministic(s1: Seq<char>, s2: Seq<char>)
    requires
        s1 == s2,
    ensures
        spec_tokenize(s1) == spec_tokenize(s2),
{
}

} // verus!
