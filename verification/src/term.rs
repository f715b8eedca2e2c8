//! The mathematical model of a program: values, and trees of terms over
//! them. Contracts of the parser and of the evaluator speak of these.

use vstd::prelude::*;
use crate::token::Operator;

verus! {

/// A runtime value, with texts as character sequences.
pub enum SpecValue {
    Int(i32),
    Bool(bool),
    Void,
    Str(Seq<char>),
}

/// The operators that take two operands.
#[derive(Clone, Copy, Debug, PartialEq, Eq, Structural)]
pub enum BinaryOp {
    Add,
    Subtract,
    Multiply,
    Divide,
    Mod,
    Equals,
    NotEquals,
    LT,
    LTE,
    GT,
    GTE,
    And,
    Or,
}

/// A node of the program tree.
pub enum Term {
    /// A constant.
    Literal(SpecValue),
    /// The value that a name holds.
    Variable(Seq<char>),
    /// Logical negation.
    Not(Box<Term>),
    /// An operator between a left and a right operand.
    Binary(BinaryOp, Box<Term>, Box<Term>),
    /// A parenthesised term.
    Paren(Box<Term>),
    /// Store what the term yields under the name.
    Assign(Seq<char>, Box<Term>),
    /// Emit the text of what the term yields, with a line end where the flag
    /// is set.
    Print(Box<Term>, bool),
    /// Terms in order; the last one's result is the block's.
    Block(Seq<Term>),
    /// Condition, block taken where it holds, block taken where it does not.
    If(Box<Term>, Seq<Term>, Seq<Term>),
    /// Condition and body.
    Loop(Box<Term>, Seq<Term>),
}

/// The two-operand operator that an operator sign denotes; `=` and `!`
/// denote none.
pub open spec fn binary_op(op: Operator) -> Option<BinaryOp> {
    match op {
        Operator::ADD => Some(BinaryOp::Add),
        Operator::Subtract => Some(BinaryOp::Subtract),
        Operator::Multiply => Some(BinaryOp::Multiply),
        Operator::Divide => Some(BinaryOp::Divide),
        Operator::Mod => Some(BinaryOp::Mod),
        Operator::Equals => Some(BinaryOp::Equals),
        Operator::NotEquals => Some(BinaryOp::NotEquals),
        Operator::LT => Some(BinaryOp::LT),
        Operator::LTE => Some(BinaryOp::LTE),
        Operator::GT => Some(BinaryOp::GT),
        Operator::GTE => Some(BinaryOp::GTE),
        Operator::And => Some(BinaryOp::And),
        Operator::Or => Some(BinaryOp::Or),
        Operator::Assign => None,
        Operator::NOT => None,
    }
}

impl BinaryOp {
    /// `+` and `-`.
    pub open spec fn is_additive(self) -> bool {
        self is Add || self is Subtract
    }

    /// `*`, `/` and `%`.
    pub open spec fn is_multiplicative(self) -> bool {
        self is Multiply || self is Divide || self is Mod
    }

    /// The sign that denotes this operator.
    pub open spec fn sign(self) -> Operator {
        match self {
            BinaryOp::Add => Operator::ADD,
            BinaryOp::Subtract => Operator::Subtract,
            BinaryOp::Multiply => Operator::Multiply,
            BinaryOp::Divide => Operator::Divide,
            BinaryOp::Mod => Operator::Mod,
            BinaryOp::Equals => Operator::Equals,
            BinaryOp::NotEquals => Operator::NotEquals,
            BinaryOp::LT => Operator::LT,
            BinaryOp::LTE => Operator::LTE,
            BinaryOp::GT => Operator::GT,
            BinaryOp::GTE => Operator::GTE,
            BinaryOp::And => Operator::And,
            BinaryOp::Or => Operator::Or,
        }
    }
}

} // verus!
