//! Abstract-syntax-tree operator categories, consumed by a parser downstream
//! of the scanner. Pure data declarations with no behavior.

use vstd::prelude::*;

verus! {

/// Operators that take a single operand.
#[derive(Debug)]
pub enum UnaryOperator {
    Minus,
    Not,
}

/// Operators that take two operands.
#[derive(Debug)]
pub enum BinaryOperator {
    Equal,
    Greater,
    GreaterEqual,
    Less,
    LessEqual,
    Minus,
    Plus,
    Slash,
    Star,
}

/// Short-circuiting logical connectives.
#[derive(Debug)]
pub enum LogicOperator {
    And,
    Or,
}

} // verus!
