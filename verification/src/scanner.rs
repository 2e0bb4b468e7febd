//! The scanner: a single-pass, maximal-munch tokenizer with one to two
//! characters of lookahead.
//!
//! `spec_tokenize` defines, over the character sequence of the source text
//! alone, exactly which token list (or which lexical error) a text denotes.
//! `Scanner::scan_next` and `scan` are proved to return exactly that.

use vstd::prelude::*;
use itertools::structs::MultiPeek;
use crate::chars::{
    alpha_model,
    alphanumeric_model,
    char_is_whitespace,
    chars_to_string,
    is_alpha,
    is_alphanumeric,
    is_digit,
    numeric_char,
    whitespace_char,
};
use crate::stream::{stream_new, stream_next, stream_peek, stream_reset_peek, stream_rest};
use crate::token::{classify_lexeme, classify_word, LexError, LexErrorModel, Token, TokenModel};

verus! {

/// The numeric-run class, as one predicate value shared by every contract.
pub open spec fn numeric_pred() -> spec_fn(char) -> bool {
    |c: char| numeric_char(c)
}

/// The identifier-continuation class, as one predicate value.
pub open spec fn alnum_pred() -> spec_fn(char) -> bool {
    |c: char| alphanumeric_model(c)
}

/// The comment-body class: everything up to a line break.
pub open spec fn not_newline_pred() -> spec_fn(char) -> bool {
    |c: char| c != '\n'
}

/// The string-body class: everything up to a closing quote or a line break.
pub open spec fn string_body_pred() -> spec_fn(char) -> bool {
    |c: char| c != '"' && c != '\n'
}

/// The first index at or after `i` whose character fails `p`: the end of the
/// maximal run of `p` starting at `i`.
pub open spec fn run_end(s: Seq<char>, i: int, p: spec_fn(char) -> bool) -> int
    decreases s.len() - i
        when 0 <= i <= s.len()
{
    if i < s.len() && p(s[i]) {
        run_end(s, i + 1, p)
    } else {
        i
    }
}

pub proof fn lemma_run_end_bounds(s: Seq<char>, i: int, p: spec_fn(char) -> bool)
    requires
        0 <= i <= s.len(),
    ensures
        i <= run_end(s, i, p) <= s.len(),
    decreases s.len() - i,
{
    if i < s.len() && p(s[i]) {
        lemma_run_end_bounds(s, i + 1, p);
    }
}

pub proof fn lemma_run_end_is(s: Seq<char>, i: int, k: int, p: spec_fn(char) -> bool)
    requires
        0 <= i <= k <= s.len(),
        forall|j: int| i <= j < k ==> p(#[trigger] s[j]),
        k == s.len() || !p(s[k]),
    ensures
        run_end(s, i, p) == k,
    decreases k - i,
{
    if i < k {
        lemma_run_end_is(s, i + 1, k, p);
    }
}

/// Where a numeric literal ends, for a literal whose first digit stands just
/// before `i`: the maximal digit run, then — only if a dot followed by a
/// digit comes immediately next — the dot and a further maximal digit run.
pub open spec fn spec_number_end(s: Seq<char>, i: int) -> int {
    let j = run_end(s, i, numeric_pred());
    if j + 1 < s.len() && s[j] == '.' && numeric_char(s[j + 1]) {
        run_end(s, j + 1, numeric_pred())
    } else {
        j
    }
}

/// What one dispatch step of the scanner produces at position `i`.
pub enum ScanStep {
    /// No characters remain.
    Finished,
    /// One completed token, and the position just past its lexeme.
    Lexed { token: TokenModel, next: int },
    /// A lexical error.
    Failed { error: LexErrorModel },
}

/// One dispatch step of the scanner at position `i` of `s`: consumes one
/// character and classifies by it, with one character of lookahead for the
/// two-character operators and two for the fractional-number dot.
pub open spec fn spec_next(s: Seq<char>, i: int) -> ScanStep {
    if i >= s.len() {
        ScanStep::Finished
    } else {
        let c = s[i];
        if c == '!' {
            ScanStep::Lexed { token: TokenModel::Bang, next: i + 1 }
        } else if c == '=' {
            if i + 1 < s.len() && s[i + 1] == '=' {
                ScanStep::Lexed { token: TokenModel::EqualEqual, next: i + 2 }
            } else {
                ScanStep::Lexed { token: TokenModel::Equal, next: i + 1 }
            }
        } else if c == '<' {
            if i + 1 < s.len() && s[i + 1] == '=' {
                ScanStep::Lexed { token: TokenModel::LessEqual, next: i + 2 }
            } else {
                ScanStep::Lexed { token: TokenModel::Less, next: i + 1 }
            }
        } else if c == '>' {
            if i + 1 < s.len() && s[i + 1] == '=' {
                ScanStep::Lexed { token: TokenModel::GreaterEqual, next: i + 2 }
            } else {
                ScanStep::Lexed { token: TokenModel::Greater, next: i + 1 }
            }
        } else if c == '+' {
            ScanStep::Lexed { token: TokenModel::Plus, next: i + 1 }
        } else if c == '-' {
            ScanStep::Lexed { token: TokenModel::Minus, next: i + 1 }
        } else if c == '*' {
            ScanStep::Lexed { token: TokenModel::Star, next: i + 1 }
        } else if c == '/' {
            ScanStep::Lexed { token: TokenModel::Slash, next: i + 1 }
        } else if c == '(' {
            ScanStep::Lexed { token: TokenModel::ParenOpen, next: i + 1 }
        } else if c == ')' {
            ScanStep::Lexed { token: TokenModel::ParenClose, next: i + 1 }
        } else if c == '[' {
            ScanStep::Lexed { token: TokenModel::BracketOpen, next: i + 1 }
        } else if c == ']' {
            ScanStep::Lexed { token: TokenModel::BracketClose, next: i + 1 }
        } else if c == '{' {
            ScanStep::Lexed { token: TokenModel::BraceOpen, next: i + 1 }
        } else if c == '}' {
            ScanStep::Lexed { token: TokenModel::BraceClose, next: i + 1 }
        } else if c == '#' {
            ScanStep::Lexed { token: TokenModel::Comment, next: run_end(s, i + 1, not_newline_pred()) }
        } else if c == '.' {
            ScanStep::Lexed { token: TokenModel::Dot, next: i + 1 }
        } else if c == ',' {
            ScanStep::Lexed { token: TokenModel::Comma, next: i + 1 }
        } else if c == ':' {
            ScanStep::Lexed { token: TokenModel::Colon, next: i + 1 }
        } else if c == '"' {
            let j = run_end(s, i + 1, string_body_pred());
            if j < s.len() && s[j] == '"' {
                ScanStep::Lexed { token: TokenModel::Str(s.subrange(i + 1, j)), next: j + 1 }
            } else {
                ScanStep::Failed { error: LexErrorModel::UnterminatedString { position: i } }
            }
        } else if whitespace_char(c) {
            ScanStep::Lexed { token: TokenModel::WhiteSpace, next: i + 1 }
        } else if numeric_char(c) {
            let end = spec_number_end(s, i + 1);
            ScanStep::Lexed { token: TokenModel::Number(s.subrange(i, end)), next: end }
        } else if alpha_model(c) {
            let end = run_end(s, i + 1, alnum_pred());
            ScanStep::Lexed { token: classify_word(s.subrange(i, end)), next: end }
        } else {
            ScanStep::Failed { error: LexErrorModel::UnexpectedCharacter { character: c, position: i } }
        }
    }
}

pub proof fn lemma_spec_next_bounds(s: Seq<char>, i: int)
    requires
        0 <= i <= s.len(),
    ensures
        spec_next(s, i) matches ScanStep::Lexed { token, next } ==> i < next <= s.len(),
{
    if i < s.len() {
        lemma_run_end_bounds(s, i + 1, not_newline_pred());
        lemma_run_end_bounds(s, i + 1, string_body_pred());
        lemma_run_end_bounds(s, i + 1, alnum_pred());
        lemma_run_end_bounds(s, i + 1, numeric_pred());
        let j = run_end(s, i + 1, numeric_pred());
        if j + 1 < s.len() && s[j] == '.' && numeric_char(s[j + 1]) {
            lemma_run_end_bounds(s, j + 1, numeric_pred());
        }
    }
}

/// The token list a text denotes from position `i` on, whitespace and comment
/// markers dropped, or the first lexical error met.
pub open spec fn spec_tokenize_from(s: Seq<char>, i: int) -> Result<
    Seq<TokenModel>,
    LexErrorModel,
>
    decreases s.len() - i
        when 0 <= i <= s.len()
        via spec_tokenize_from_dec
{
    match spec_next(s, i) {
        ScanStep::Finished => Ok(seq![]),
        ScanStep::Failed { error } => Err(error),
        ScanStep::Lexed { token, next } => match spec_tokenize_from(s, next) {
            Err(e) => Err(e),
            Ok(rest) => Ok(
                if token is WhiteSpace || token is Comment {
                    rest
                } else {
                    seq![token] + rest
                },
            ),
        },
    }
}

#[via_fn]
proof fn spec_tokenize_from_dec(s: Seq<char>, i: int) {
    lemma_spec_next_bounds(s, i);
}

/// The token list the whole text denotes, or the first lexical error met.
pub open spec fn spec_tokenize(s: Seq<char>) -> Result<Seq<TokenModel>, LexErrorModel> {
    spec_tokenize_from(s, 0)
}

/// A single-pass scanner over one immutable source text. It advances a
/// monotonically increasing position cursor across the text exactly once and
/// holds no state beyond that cursor, the lexeme being accumulated, and the
/// character stream itself.
pub struct Scanner {
    /// Characters consumed so far.
    pub position: usize,
    /// The characters of the lexeme currently being accumulated.
    pub current_lexeme: Vec<char>,
    /// The unconsumed characters, with bounded lookahead.
    pub source: MultiPeek<std::vec::IntoIter<char>>,
    /// The whole source text, kept for specification only.
    pub text: Ghost<Seq<char>>,
}

impl Scanner {
    /// The scanner's internal invariant: the stream holds exactly the
    /// unconsumed suffix of the text.
    pub open spec fn wf(self) -> bool {
        &&& self.position <= self.text@.len()
        &&& self.text@.len() <= usize::MAX
        &&& stream_rest(self.source) == self.text@.skip(self.position as int)
    }

    /// Builds a scanner at the start of `source`.
    pub fn init(source: &str) -> (s: Scanner)
        ensures
            s.wf(),
            s.text@ == source@,
            s.position == 0,
            s.current_lexeme@ == Seq::<char>::empty(),
    {
        let stream = stream_new(source);
        proof {
            assert(source@.skip(0) =~= source@);
        }
        Scanner { position: 0, current_lexeme: Vec::new(), source: stream, text: Ghost(source@) }
    }

    /// Consumes the next character if any remain, appending it to the current
    /// lexeme; does nothing at the end of input.
    pub fn advance(&mut self) -> (r: Option<char>)
        requires
            old(self).wf(),
        ensures
            final(self).wf(),
            final(self).text == old(self).text,
            old(self).position < old(self).text@.len() ==> {
                &&& r == Some(old(self).text@[old(self).position as int])
                &&& final(self).position == old(self).position + 1
                &&& final(self).current_lexeme@ == old(self).current_lexeme@.push(
                    old(self).text@[old(self).position as int],
                )
            },
            old(self).position >= old(self).text@.len() ==> {
                &&& r is None
                &&& final(self).position == old(self).position
                &&& final(self).current_lexeme@ == old(self).current_lexeme@
            },
    {
        let current = stream_next(&mut self.source);
        match current {
            Some(c) => {
                proof {
                    assert(old(self).text@.skip(old(self).position as int).len() > 0);
                    assert(c == old(self).text@[old(self).position as int]);
                    assert(old(self).text@.skip(old(self).position as int).drop_first() =~= old(
                        self,
                    ).text@.skip(old(self).position as int + 1));
                }
                self.current_lexeme.push(c);
                self.position = self.position + 1;
                Some(c)
            },
            None => None,
        }
    }

    /// Evaluates `check` on the next unconsumed character without consuming
    /// anything; false at the end of input. `p` names the predicate that
    /// `check` computes.
    fn peek_check<F: Fn(char) -> bool + Copy>(
        &mut self,
        check: F,
        Ghost(p): Ghost<spec_fn(char) -> bool>,
    ) -> (r: bool)
        requires
            old(self).wf(),
            forall|c: char| #[trigger] call_requires(check, (c,)),
            forall|c: char, b: bool| call_ensures(check, (c,), b) ==> b == p(c),
        ensures
            final(self).wf(),
            final(self).text == old(self).text,
            final(self).position == old(self).position,
            final(self).current_lexeme@ == old(self).current_lexeme@,
            r == (old(self).position < old(self).text@.len() && p(
                old(self).text@[old(self).position as int],
            )),
    {
        stream_reset_peek(&mut self.source);
        let next = stream_peek(&mut self.source);
        match next {
            Some(c) => {
                proof {
                    assert(c == self.text@[self.position as int]);
                }
                check(c)
            },
            None => false,
        }
    }

    /// Evaluates a two-character lookahead without consuming anything: true
    /// when two characters remain and each satisfies its predicate. `p1` and
    /// `p2` name the predicates that `cond1` and `cond2` compute.
    pub fn peek_two<F1: Fn(char) -> bool + Copy, F2: Fn(char) -> bool + Copy>(
        &mut self,
        cond1: F1,
        cond2: F2,
        Ghost(p1): Ghost<spec_fn(char) -> bool>,
        Ghost(p2): Ghost<spec_fn(char) -> bool>,
    ) -> (r: bool)
        requires
            old(self).wf(),
            forall|c: char| #[trigger] call_requires(cond1, (c,)),
            forall|c: char, b: bool| call_ensures(cond1, (c,), b) ==> b == p1(c),
            forall|c: char| #[trigger] call_requires(cond2, (c,)),
            forall|c: char, b: bool| call_ensures(cond2, (c,), b) ==> b == p2(c),
        ensures
            final(self).wf(),
            final(self).text == old(self).text,
            final(self).position == old(self).position,
            final(self).current_lexeme@ == old(self).current_lexeme@,
            r == (old(self).position + 1 < old(self).text@.len() && p1(
                old(self).text@[old(self).position as int],
            ) && p2(old(self).text@[old(self).position as int + 1])),
    {
        stream_reset_peek(&mut self.source);
        match stream_peek(&mut self.source) {
            Some(c1) => {
                proof {
                    assert(c1 == self.text@[self.position as int]);
                }
                match stream_peek(&mut self.source) {
                    Some(c2) => {
                        proof {
                            assert(c2 == self.text@[self.position as int + 1]);
                        }
                        cond1(c1) && cond2(c2)
                    },
                    None => false,
                }
            },
            None => false,
        }
    }

    /// Consumes characters while `condition` holds on the next one: exactly
    /// the maximal run of `p` from the current position.
    pub fn advance_while<F: Fn(char) -> bool + Copy>(
        &mut self,
        condition: F,
        Ghost(p): Ghost<spec_fn(char) -> bool>,
    )
        requires
            old(self).wf(),
            forall|c: char| #[trigger] call_requires(condition, (c,)),
            forall|c: char, b: bool| call_ensures(condition, (c,), b) ==> b == p(c),
        ensures
            final(self).wf(),
            final(self).text == old(self).text,
            old(self).position <= final(self).position,
            final(self).position as int == run_end(
                old(self).text@,
                old(self).position as int,
                p,
            ),
            final(self).current_lexeme@ == old(self).current_lexeme@ + old(self).text@.subrange(
                old(self).position as int,
                final(self).position as int,
            ),
    {
        proof {
            assert(self.current_lexeme@ =~= self.current_lexeme@ + self.text@.subrange(
                self.position as int,
                self.position as int,
            ));
        }
        loop
            invariant
                self.wf(),
                self.text == old(self).text,
                old(self).position <= self.position,
                forall|c: char| #[trigger] call_requires(condition, (c,)),
                forall|c: char, b: bool| call_ensures(condition, (c,), b) ==> b == p(c),
                run_end(self.text@, self.position as int, p) == run_end(
                    old(self).text@,
                    old(self).position as int,
                    p,
                ),
                self.current_lexeme@ == old(self).current_lexeme@ + self.text@.subrange(
                    old(self).position as int,
                    self.position as int,
                ),
            ensures
                self.wf(),
                self.text == old(self).text,
                old(self).position <= self.position,
                run_end(self.text@, self.position as int, p) == run_end(
                    old(self).text@,
                    old(self).position as int,
                    p,
                ),
                self.current_lexeme@ == old(self).current_lexeme@ + self.text@.subrange(
                    old(self).position as int,
                    self.position as int,
                ),
                !(self.position < self.text@.len() && p(self.text@[self.position as int])),
            decreases self.text@.len() - self.position,
        {
            if !self.peek_check(condition, Ghost(p)) {
                break ;
            }
            let ghost before = self.position as int;
            self.advance();
            proof {
                assert(self.text@.subrange(old(self).position as int, before + 1) =~= self.text@
                    .subrange(old(self).position as int, before).push(self.text@[before]));
            }
        }
        proof {
            assert(run_end(self.text@, self.position as int, p) == self.position as int);
        }
    }

    /// Consumes exactly one character if it equals `expected`; otherwise
    /// consumes nothing. Returns whether the match occurred.
    fn advance_if_match(&mut self, expected: char) -> (r: bool)
        requires
            old(self).wf(),
        ensures
            final(self).wf(),
            final(self).text == old(self).text,
            r == (old(self).position < old(self).text@.len() && old(
                self,
            ).text@[old(self).position as int] == expected),
            r ==> final(self).position == old(self).position + 1 && final(self).current_lexeme@
                == old(self).current_lexeme@.push(expected),
            !r ==> final(self).position == old(self).position && final(self).current_lexeme@ == old(
                self,
            ).current_lexeme@,
    {
        if self.peek_check(
            (|c: char| -> (b: bool)
                ensures
                    b == (c == expected),
                { c == expected }),
            Ghost(|c: char| c == expected),
        ) {
            self.advance();
            true
        } else {
            false
        }
    }

    /// Scans the remainder of a numeric literal whose first digit, at `start`,
    /// has just been consumed: the maximal digit run, then — only if a dot
    /// followed by a digit comes immediately next — the dot and a further
    /// maximal digit run. The token carries the full lexeme.
    fn number(&mut self, Ghost(start): Ghost<int>) -> (r: Option<Token>)
        requires
            old(self).wf(),
            0 <= start < old(self).text@.len(),
            old(self).position as int == start + 1,
            old(self).current_lexeme@ == old(self).text@.subrange(start, start + 1),
        ensures
            final(self).wf(),
            final(self).text == old(self).text,
            final(self).position as int == spec_number_end(old(self).text@, start + 1),
            r matches Some(t) && t@ == TokenModel::Number(
                old(self).text@.subrange(start, spec_number_end(old(self).text@, start + 1)),
            ),
    {
        self.advance_while(
            (|c: char| -> (b: bool)
                ensures
                    b == numeric_char(c),
                { is_digit(c) }),
            Ghost(numeric_pred()),
        );
        if self.peek_two(
            (|c: char| -> (b: bool)
                ensures
                    b == (c == '.'),
                { c == '.' }),
            (|c: char| -> (b: bool)
                ensures
                    b == numeric_char(c),
                { is_digit(c) }),
            Ghost(|c: char| c == '.'),
            Ghost(numeric_pred()),
        ) {
            self.advance();
            self.advance_while(
                (|c: char| -> (b: bool)
                    ensures
                        b == numeric_char(c),
                    { is_digit(c) }),
                Ghost(numeric_pred()),
            );
        }
        proof {
            assert(self.current_lexeme@ =~= self.text@.subrange(start, self.position as int));
        }
        let value = chars_to_string(&self.current_lexeme);
        Some(Token::Number(value))
    }

    /// Scans the remainder of a string literal whose opening quote, at
    /// `start`, has just been consumed: the characters up to a closing quote
    /// on the same line, whose presence is required. The token carries the
    /// characters between the quotes; a missing closing quote is an
    /// `UnterminatedString` error at the opening quote.
    fn string(&mut self, start: usize) -> (r: Result<Token, LexError>)
        requires
            old(self).wf(),
            start < old(self).text@.len(),
            old(self).position as int == start + 1,
            old(self).current_lexeme@ == old(self).text@.subrange(start as int, start + 1),
            old(self).text@[start as int] == '"',
        ensures
            final(self).wf(),
            final(self).text == old(self).text,
            ({
                let s = old(self).text@;
                let j = run_end(s, start + 1, string_body_pred());
                &&& (j < s.len() && s[j] == '"') ==> (r matches Ok(t) && t@ == TokenModel::Str(
                    s.subrange(start + 1, j),
                ) && final(self).position as int == j + 1)
                &&& !(j < s.len() && s[j] == '"') ==> r == Err::<Token, LexError>(
                    LexError::UnterminatedString { position: start },
                )
            }),
    {
        self.advance_while(
            (|c: char| -> (b: bool)
                ensures
                    b == (c != '"' && c != '\n'),
                { c != '"' && c != '\n' }),
            Ghost(string_body_pred()),
        );
        if !self.advance_if_match('"') {
            return Err(LexError::UnterminatedString { position: start });
        }
        proof {
            assert(self.current_lexeme@ =~= self.text@.subrange(start as int, self.position as int));
        }
        let n = self.current_lexeme.len();
        let mut literal: Vec<char> = Vec::new();
        let mut k: usize = 1;
        proof {
            assert(literal@ =~= self.current_lexeme@.subrange(1, 1));
        }
        while k < n - 1
            invariant
                2 <= n == self.current_lexeme.len(),
                1 <= k <= n - 1,
                literal@ == self.current_lexeme@.subrange(1, k as int),
            decreases n - 1 - k,
        {
            let c = self.current_lexeme[k];
            literal.push(c);
            proof {
                assert(self.current_lexeme@.subrange(1, k as int + 1) =~= self.current_lexeme@
                    .subrange(1, k as int).push(self.current_lexeme@[k as int]));
            }
            k = k + 1;
        }
        proof {
            assert(self.current_lexeme@.subrange(1, n - 1) =~= old(self).text@.subrange(
                start + 1,
                run_end(old(self).text@, start + 1, string_body_pred()),
            ));
        }
        Ok(Token::Str(chars_to_string(&literal)))
    }

    /// Scans the remainder of an identifier or keyword whose first character,
    /// at `start`, has just been consumed: the maximal alphanumeric run, then
    /// an exact lookup in the keyword table.
    fn identifier(&mut self, Ghost(start): Ghost<int>) -> (r: Option<Token>)
        requires
            old(self).wf(),
            0 <= start < old(self).text@.len(),
            old(self).position as int == start + 1,
            old(self).current_lexeme@ == old(self).text@.subrange(start, start + 1),
        ensures
            final(self).wf(),
            final(self).text == old(self).text,
            final(self).position as int == run_end(old(self).text@, start + 1, alnum_pred()),
            r matches Some(t) && t@ == classify_word(
                old(self).text@.subrange(
                    start,
                    run_end(old(self).text@, start + 1, alnum_pred()),
                ),
            ),
    {
        self.advance_while(
            (|c: char| -> (b: bool)
                ensures
                    b == alphanumeric_model(c),
                { is_alphanumeric(c) }),
            Ghost(alnum_pred()),
        );
        proof {
            assert(self.current_lexeme@ =~= self.text@.subrange(start, self.position as int));
        }
        Some(classify_lexeme(&self.current_lexeme))
    }

    /// One dispatch step: clears the lexeme accumulator, consumes one
    /// character — `Ok(None)` if none remains — and classifies by it,
    /// returning exactly what `spec_next` gives at the old position.
    pub fn scan_next(&mut self) -> (r: Result<Option<Token>, LexError>)
        requires
            old(self).wf(),
        ensures
            final(self).wf(),
            final(self).text == old(self).text,
            ({
                let step = spec_next(old(self).text@, old(self).position as int);
                &&& step is Finished ==> (r matches Ok(ot) && ot is None && final(self).position
                    == old(self).position)
                &&& step matches ScanStep::Lexed { token, next } ==> (r matches Ok(ot)
                    && ot matches Some(t) && t@ == token && final(self).position as int == next)
                &&& step matches ScanStep::Failed { error } ==> (r matches Err(e) && e@ == error)
            }),
    {
        self.current_lexeme.clear();
        let start = self.position;
        let ghost gstart = start as int;
        let next_char = match self.advance() {
            Some(c) => c,
            None => {
                return Ok(None);
            },
        };
        proof {
            assert(old(self).text@.subrange(gstart, gstart + 1)
                =~= Seq::<char>::empty().push(old(self).text@[gstart]));
        }
        match next_char {
            '!' => Ok(Some(Token::Bang)),
            '=' => {
                if self.advance_if_match('=') {
                    Ok(Some(Token::EqualEqual))
                } else {
                    Ok(Some(Token::Equal))
                }
            },
            '<' => {
                if self.advance_if_match('=') {
                    Ok(Some(Token::LessEqual))
                } else {
                    Ok(Some(Token::Less))
                }
            },
            '>' => {
                if self.advance_if_match('=') {
                    Ok(Some(Token::GreaterEqual))
                } else {
                    Ok(Some(Token::Greater))
                }
            },
            '+' => Ok(Some(Token::Plus)),
            '-' => Ok(Some(Token::Minus)),
            '*' => Ok(Some(Token::Star)),
            '/' => Ok(Some(Token::Slash)),
            '(' => Ok(Some(Token::ParenOpen)),
            ')' => Ok(Some(Token::ParenClose)),
            '[' => Ok(Some(Token::BracketOpen)),
            ']' => Ok(Some(Token::BracketClose)),
            '{' => Ok(Some(Token::BraceOpen)),
            '}' => Ok(Some(Token::BraceClose)),
            '#' => {
                self.advance_while(
                    (|c: char| -> (b: bool)
                        ensures
                            b == (c != '\n'),
                        { c != '\n' }),
                    Ghost(not_newline_pred()),
                );
                Ok(Some(Token::Comment))
            },
            '.' => Ok(Some(Token::Dot)),
            ',' => Ok(Some(Token::Comma)),
            ':' => Ok(Some(Token::Colon)),
            '"' => {
                match self.string(start) {
                    Ok(t) => Ok(Some(t)),
                    Err(e) => Err(e),
                }
            },
            c => {
                if char_is_whitespace(c) {
                    Ok(Some(Token::WhiteSpace))
                } else if is_digit(c) {
                    match self.number(Ghost(gstart)) {
                        Some(t) => Ok(Some(t)),
                        None => Ok(None),
                    }
                } else if is_alpha(c) {
                    match self.identifier(Ghost(gstart)) {
                        Some(t) => Ok(Some(t)),
                        None => Ok(None),
                    }
                } else {
                    Err(LexError::UnexpectedCharacter { character: c, position: start })
                }
            },
        }
    }
}

/// Tokenizes a whole source text: every token of `spec_tokenize`, in source
/// order, with the whitespace and comment markers dropped; or the first
/// lexical error.
pub fn scan(source: &str) -> (r: Result<Vec<Token>, LexError>)
    ensures
        spec_tokenize(source@) matches Ok(models) ==> r matches Ok(v) && v@.map_values(
            |t: Token| t@,
        ) == models,
        spec_tokenize(source@) matches Err(e) ==> r matches Err(err) && err@ == e,
{
    let mut tokens: Vec<Token> = Vec::new();
    let mut scanner = Scanner::init(source);
    proof {
        assert(tokens@.map_values(|t: Token| t@) =~= Seq::<TokenModel>::empty());
    }
    loop
        invariant
            scanner.wf(),
            scanner.text@ == source@,
            ({
                let full = spec_tokenize_from(source@, 0);
                let rest = spec_tokenize_from(source@, scanner.position as int);
                &&& rest matches Ok(ts) ==> full matches Ok(fs) && fs == tokens@.map_values(
                    |t: Token| t@,
                ) + ts
                &&& rest matches Err(e) ==> full matches Err(fe) && fe == e
            }),
        decreases source@.len() - scanner.position,
    {
        let ghost pos0 = scanner.position as int;
        proof {
            lemma_spec_next_bounds(source@, pos0);
        }
        match scanner.scan_next() {
            Ok(Some(t)) => {
                proof {
                    assert(spec_next(source@, pos0) matches ScanStep::Lexed { token, next });
                }
                match t {
                    Token::WhiteSpace | Token::Comment => {},
                    other => {
                        let ghost before = tokens@;
                        tokens.push(other);
                        proof {
                            assert(tokens@.map_values(|t: Token| t@) =~= before.map_values(
                                |t: Token| t@,
                            ).push(tokens@[before.len() as int]@));
                            match spec_tokenize_from(source@, scanner.position as int) {
                                Ok(ts) => {
                                    assert(before.map_values(|t: Token| t@) + (seq![
                                        tokens@[before.len() as int]@,
                                    ] + ts) =~= tokens@.map_values(|t: Token| t@) + ts);
                                },
                                _ => {},
                            }
                        }
                    },
                }
            },
            Ok(None) => {
                proof {
                    match spec_tokenize_from(source@, 0) {
                        Ok(fs) => {
                            assert(fs =~= tokens@.map_values(|t: Token| t@));
                        },
                        _ => {},
                    }
                }
                return Ok(tokens);
            },
            Err(e) => {
                return Err(e);
            },
        }
    }
}

} // verus!
