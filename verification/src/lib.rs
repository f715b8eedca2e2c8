//! A tree-walking interpreter for a small imperative language: integers,
//! truth values and strings, variables, arithmetic, comparison and logic,
//! `if` with `else`, one loop, `print` and `println`.
//!
//! The tokens of a program come from a lexer, one sequence a line
//! ([`token`]). The parser ([`parse`]) turns the tokens of an expression into
//! a tree by operator precedence and the lines of a program into a tree of
//! statements, and it returns exactly what the functions of [`grammar`] say.
//! The nodes of the tree ([`expression`]) are evaluated against a
//! [`Context`], and each evaluation does exactly what [`semantics::eval`]
//! says of the node's [`term::Term`]. What follows from these definitions for
//! every program is proved in [`precedence`] and [`laws`].
//!
//! No function of this library panics: a program that cannot be parsed gives
//! a [`ParseError`], and an evaluation that cannot go on gives an
//! [`EvalError`] and leaves the context as it was when it stopped. Loops are
//! bounded: each activation of a loop runs its body at most
//! [`Context::loop_limit`] times.

pub mod context;
pub mod error;
pub mod expression;
pub mod grammar;
pub mod laws;
pub mod parse;
pub mod precedence;
pub mod semantics;
pub mod term;
pub mod text;
pub mod token;

pub use crate::context::Context;
pub use crate::error::{EvalError, ParseError};
pub use crate::expression::{
    Add, And, Command, Divide, Element, Equals, Expression, If, Loop, Mod, Multiply, Node, Not,
    NotEquals, Or, Paren, Print, Println, Subtract, Value, Var, Variable, GT, GTE, LT, LTE,
};
pub use crate::parse::{
    get_priority, parse_assign, parse_block, parse_declare, parse_expression, parse_for, parse_if,
    parse_print,
};
pub use crate::token::{Keyword, Operator, StdFunction, Token};
