//! Failures of parsing and of evaluation.
//!
//! Neither stage recovers from a failure: the first one met ends the call,
//! and the caller learns which it was.

use vstd::prelude::*;

verus! {

/// Why a program could not be turned into a tree.
#[derive(Clone, Copy, Debug, PartialEq, Eq, Structural)]
pub enum ParseError {
    /// An expression was expected and no token was there.
    EmptyExpression,
    /// An assignment sign reached the expression builder.
    UnexpectedAssign,
    /// An operator found fewer operands than it takes.
    MissingOperand,
    /// A token that is neither operand, operator nor parenthesis stands in an
    /// expression.
    UnexpectedToken,
    /// A line holds no token at all.
    EmptyLine,
    /// The line index lies past the last line.
    NoSuchLine,
    /// A declaration does not read `let name = ...` or `const name = ...`.
    MalformedDeclaration,
    /// An assignment does not read `name = ...`.
    MalformedAssignment,
    /// An `if` or `for` line is too short to hold a condition.
    MalformedHeader,
    /// A `print` line is too short to hold its argument.
    MalformedPrint,
    /// A block is still open where the input ends.
    UnclosedBlock,
    /// The line starts with a token that starts no statement.
    UnsupportedStatement,
}

/// Why an evaluation stopped.
#[derive(Clone, Copy, Debug, PartialEq, Eq, Structural)]
pub enum EvalError {
    /// An operator or a condition met a value of the wrong kind.
    TypeMismatch,
    /// A value was needed where a statement produced none.
    MissingValue,
    /// A name was read that was never assigned.
    UndeclaredVariable,
    /// The right operand of `/` or `%` was zero.
    DivisionByZero,
    /// An arithmetic result does not fit a 32-bit signed integer.
    Overflow,
    /// One activation of a loop ran its body as often as the context allows
    /// and its condition still held.
    LoopLimit,
}

impl ParseError {
    /// A one-line description for people.
    pub fn describe(&self) -> (text: &'static str)
        ensures
            text@ == self.description(),
    {
        match self {
            ParseError::EmptyExpression => "expected an expression",
            ParseError::UnexpectedAssign => "assignment inside an expression",
            ParseError::MissingOperand => "operator without operand",
            ParseError::UnexpectedToken => "token cannot stand in an expression",
            ParseError::EmptyLine => "empty line",
            ParseError::NoSuchLine => "no such line",
            ParseError::MalformedDeclaration => "malformed declaration",
            ParseError::MalformedAssignment => "malformed assignment",
            ParseError::MalformedHeader => "malformed if or for line",
            ParseError::MalformedPrint => "malformed print",
            ParseError::UnclosedBlock => "block is not closed",
            ParseError::UnsupportedStatement => "unsupported statement",
        }
    }

    /// The text that [`ParseError::describe`] returns.
    pub open spec fn description(&self) -> Seq<char> {
        match self {
            ParseError::EmptyExpression => "expected an expression"@,
            ParseError::UnexpectedAssign => "assignment inside an expression"@,
            ParseError::MissingOperand => "operator without operand"@,
            ParseError::UnexpectedToken => "token cannot stand in an expression"@,
            ParseError::EmptyLine => "empty line"@,
            ParseError::NoSuchLine => "no such line"@,
            ParseError::MalformedDeclaration => "malformed declaration"@,
            ParseError::MalformedAssignment => "malformed assignment"@,
            ParseError::MalformedHeader => "malformed if or for line"@,
            ParseError::MalformedPrint => "malformed print"@,
            ParseError::UnclosedBlock => "block is not closed"@,
            ParseError::UnsupportedStatement => "unsupported statement"@,
        }
    }
}

impl EvalError {
    /// A one-line description for people.
    pub fn describe(&self) -> (text: &'static str)
        ensures
            text@ == self.description(),
    {
        match self {
            EvalError::TypeMismatch => "operand of the wrong type",
            EvalError::MissingValue => "statement used as a value",
            EvalError::UndeclaredVariable => "use of undeclared variable",
            EvalError::DivisionByZero => "division by zero",
            EvalError::Overflow => "integer overflow",
            EvalError::LoopLimit => "loop limit reached",
        }
    }

    /// The text that [`EvalError::describe`] returns.
    pub open spec fn description(&self) -> Seq<char> {
        match self {
            EvalError::TypeMismatch => "operand of the wrong type"@,
            EvalError::MissingValue => "statement used as a value"@,
            EvalError::UndeclaredVariable => "use of undeclared variable"@,
            EvalError::DivisionByZero => "division by zero"@,
            EvalError::Overflow => "integer overflow"@,
            EvalError::LoopLimit => "loop limit reached"@,
        }
    }
}

} // verus!
