//! The token vocabulary: the closed set of lexical categories the scanner
//! produces, the lexical errors it reports, and the keyword table that
//! separates identifiers from the fixed keyword spellings.

use vstd::prelude::*;
use crate::chars::chars_to_string;

verus! {

/// One classified unit of source text.
///
/// A numeric literal carries its textual form `digits ('.' digits)?`; reading
/// that text as a double-precision value is left to the caller, so that every
/// token is an exact function of the source text. A string literal carries
/// its characters with the two delimiting quotes stripped and no escape
/// processing. An identifier carries its name. `WhiteSpace` and `Comment` are
/// internal scanning results only and never appear in the filtered output;
/// `Separator` and `EOF` are reserved tags that the scanner never produces.
#[derive(Debug, PartialEq)]
pub enum Token {
    Number(String),
    Boolean(bool),
    Str(String),
    NoneLiteral,
    Identifier(String),
    Bang,
    BraceClose,
    BraceOpen,
    BracketClose,
    BracketOpen,
    Colon,
    Comma,
    Comment,
    Dot,
    Equal,
    EqualEqual,
    Greater,
    GreaterEqual,
    Less,
    LessEqual,
    Minus,
    ParenClose,
    ParenOpen,
    Plus,
    Separator,
    Slash,
    Star,
    Def,
    Class,
    If,
    Else,
    For,
    In,
    While,
    Return,
    True,
    False,
    Not,
    And,
    Or,
    Break,
    Print,
    WhiteSpace,
    EOF,
}

/// The mathematical shape of a token: the same tags, with the text payloads
/// as character sequences.
pub enum TokenModel {
    Number(Seq<char>),
    Boolean(bool),
    Str(Seq<char>),
    NoneLiteral,
    Identifier(Seq<char>),
    Bang,
    BraceClose,
    BraceOpen,
    BracketClose,
    BracketOpen,
    Colon,
    Comma,
    Comment,
    Dot,
    Equal,
    EqualEqual,
    Greater,
    GreaterEqual,
    Less,
    LessEqual,
    Minus,
    ParenClose,
    ParenOpen,
    Plus,
    Separator,
    Slash,
    Star,
    Def,
    Class,
    If,
    Else,
    For,
    In,
    While,
    Return,
    True,
    False,
    Not,
    And,
    Or,
    Break,
    Print,
    WhiteSpace,
    EOF,
}

impl View for Token {
    type V = TokenModel;

    open spec fn view(&self) -> TokenModel {
        match self {
            Token::Number(s) => TokenModel::Number(s@),
            Token::Boolean(b) => TokenModel::Boolean(*b),
            Token::Str(s) => TokenModel::Str(s@),
            Token::NoneLiteral => TokenModel::NoneLiteral,
            Token::Identifier(s) => TokenModel::Identifier(s@),
            Token::Bang => TokenModel::Bang,
            Token::BraceClose => TokenModel::BraceClose,
            Token::BraceOpen => TokenModel::BraceOpen,
            Token::BracketClose => TokenModel::BracketClose,
            Token::BracketOpen => TokenModel::BracketOpen,
            Token::Colon => TokenModel::Colon,
            Token::Comma => TokenModel::Comma,
            Token::Comment => TokenModel::Comment,
            Token::Dot => TokenModel::Dot,
            Token::Equal => TokenModel::Equal,
            Token::EqualEqual => TokenModel::EqualEqual,
            Token::Greater => TokenModel::Greater,
            Token::GreaterEqual => TokenModel::GreaterEqual,
            Token::Less => TokenModel::Less,
            Token::LessEqual => TokenModel::LessEqual,
            Token::Minus => TokenModel::Minus,
            Token::ParenClose => TokenModel::ParenClose,
            Token::ParenOpen => TokenModel::ParenOpen,
            Token::Plus => TokenModel::Plus,
            Token::Separator => TokenModel::Separator,
            Token::Slash => TokenModel::Slash,
            Token::Star => TokenModel::Star,
            Token::Def => TokenModel::Def,
            Token::Class => TokenModel::Class,
            Token::If => TokenModel::If,
            Token::Else => TokenModel::Else,
            Token::For => TokenModel::For,
            Token::In => TokenModel::In,
            Token::While => TokenModel::While,
            Token::Return => TokenModel::Return,
            Token::True => TokenModel::True,
            Token::False => TokenModel::False,
            Token::Not => TokenModel::Not,
            Token::And => TokenModel::And,
            Token::Or => TokenModel::Or,
            Token::Break => TokenModel::Break,
            Token::Print => TokenModel::Print,
            Token::WhiteSpace => TokenModel::WhiteSpace,
            Token::EOF => TokenModel::EOF,
        }
    }
}

/// A lexical error, carrying enough position information to point at the
/// offending source span. Positions count characters from the start of the
/// source text.
#[derive(Debug, PartialEq)]
pub enum LexError {
    /// A string literal reached a newline or the end of input before its
    /// closing quote; the position is that of the opening quote.
    UnterminatedString { position: usize },
    /// A character that starts no token class; the position is its own.
    UnexpectedCharacter { character: char, position: usize },
}

/// The mathematical shape of a lexical error.
pub enum LexErrorModel {
    UnterminatedString { position: int },
    UnexpectedCharacter { character: char, position: int },
}

impl View for LexError {
    type V = LexErrorModel;

    open spec fn view(&self) -> LexErrorModel {
        match self {
            LexError::UnterminatedString { position } => LexErrorModel::UnterminatedString {
                position: *position as int,
            },
            LexError::UnexpectedCharacter { character, position } => LexErrorModel::UnexpectedCharacter {
                character: *character,
                position: *position as int,
            },
        }
    }
}

/// The keyword table: the token for one maximal alphanumeric word. The
/// fifteen fixed spellings map to their dedicated tokens; every other word is
/// an identifier carrying the word itself. Matching is exact-string, not
/// prefix-based.
pub open spec fn classify_word(w: Seq<char>) -> TokenModel {
    if w.len() == 4 && w[0] == 'T' && w[1] == 'r' && w[2] == 'u' && w[3] == 'e' {
        TokenModel::Boolean(true)
    } else if w.len() == 5 && w[0] == 'F' && w[1] == 'a' && w[2] == 'l' && w[3] == 's' && w[4]
        == 'e' {
        TokenModel::Boolean(false)
    } else if w.len() == 3 && w[0] == 'n' && w[1] == 'o' && w[2] == 't' {
        TokenModel::Not
    } else if w.len() == 3 && w[0] == 'a' && w[1] == 'n' && w[2] == 'd' {
        TokenModel::And
    } else if w.len() == 2 && w[0] == 'o' && w[1] == 'r' {
        TokenModel::Or
    } else if w.len() == 3 && w[0] == 'f' && w[1] == 'o' && w[2] == 'r' {
        TokenModel::For
    } else if w.len() == 2 && w[0] == 'i' && w[1] == 'n' {
        TokenModel::In
    } else if w.len() == 2 && w[0] == 'i' && w[1] == 'f' {
        TokenModel::If
    } else if w.len() == 4 && w[0] == 'e' && w[1] == 'l' && w[2] == 's' && w[3] == 'e' {
        TokenModel::Else
    } else if w.len() == 5 && w[0] == 'w' && w[1] == 'h' && w[2] == 'i' && w[3] == 'l' && w[4]
        == 'e' {
        TokenModel::While
    } else if w.len() == 6 && w[0] == 'r' && w[1] == 'e' && w[2] == 't' && w[3] == 'u' && w[4]
        == 'r' && w[5] == 'n' {
        TokenModel::Return
    } else if w.len() == 5 && w[0] == 'b' && w[1] == 'r' && w[2] == 'e' && w[3] == 'a' && w[4]
        == 'k' {
        TokenModel::Break
    } else if w.len() == 3 && w[0] == 'd' && w[1] == 'e' && w[2] == 'f' {
        TokenModel::Def
    } else if w.len() == 5 && w[0] == 'p' && w[1] == 'r' && w[2] == 'i' && w[3] == 'n' && w[4]
        == 't' {
        TokenModel::Print
    } else if w.len() == 5 && w[0] == 'c' && w[1] == 'l' && w[2] == 'a' && w[3] == 's' && w[4]
        == 's' {
        TokenModel::Class
    } else {
        TokenModel::Identifier(w)
    }
}

/// Looks one maximal alphanumeric word up in the keyword table.
pub fn classify_lexeme(w: &Vec<char>) -> (t: Token)
    ensures
        t@ == classify_word(w@),
{
    if w.len() == 4 && w[0] == 'T' && w[1] == 'r' && w[2] == 'u' && w[3] == 'e' {
        Token::Boolean(true)
    } else if w.len() == 5 && w[0] == 'F' && w[1] == 'a' && w[2] == 'l' && w[3] == 's' && w[4]
        == 'e' {
        Token::Boolean(false)
    } else if w.len() == 3 && w[0] == 'n' && w[1] == 'o' && w[2] == 't' {
        Token::Not
    } else if w.len() == 3 && w[0] == 'a' && w[1] == 'n' && w[2] == 'd' {
        Token::And
    } else if w.len() == 2 && w[0] == 'o' && w[1] == 'r' {
        Token::Or
    } else if w.len() == 3 && w[0] == 'f' && w[1] == 'o' && w[2] == 'r' {
        Token::For
    } else if w.len() == 2 && w[0] == 'i' && w[1] == 'n' {
        Token::In
    } else if w.len() == 2 && w[0] == 'i' && w[1] == 'f' {
        Token::If
    } else if w.len() == 4 && w[0] == 'e' && w[1] == 'l' && w[2] == 's' && w[3] == 'e' {
        Token::Else
    } else if w.len() == 5 && w[0] == 'w' && w[1] == 'h' && w[2] == 'i' && w[3] == 'l' && w[4]
        == 'e' {
        Token::While
    } else if w.len() == 6 && w[0] == 'r' && w[1] == 'e' && w[2] == 't' && w[3] == 'u' && w[4]
        == 'r' && w[5] == 'n' {
        Token::Return
    } else if w.len() == 5 && w[0] == 'b' && w[1] == 'r' && w[2] == 'e' && w[3] == 'a' && w[4]
        == 'k' {
        Token::Break
    } else if w.len() == 3 && w[0] == 'd' && w[1] == 'e' && w[2] == 'f' {
        Token::Def
    } else if w.len() == 5 && w[0] == 'p' && w[1] == 'r' && w[2] == 'i' && w[3] == 'n' && w[4]
        == 't' {
        Token::Print
    } else if w.len() == 5 && w[0] == 'c' && w[1] == 'l' && w[2] == 'a' && w[3] == 's' && w[4]
        == 's' {
        Token::Class
    } else {
        Token::Identifier(chars_to_string(w))
    }
}

} // verus!
