//! The vocabulary that a lexer hands to the parser: one [`Token`] per lexical
//! unit, grouped by source line.

use vstd::prelude::*;

verus! {

/// Words that open a statement.
#[derive(Clone, Copy, Debug, PartialEq, Eq, Structural)]
pub enum Keyword {
    LET,
    CONST,
    IF,
    ELSE,
    FOR,
}

/// Operator signs.
#[derive(Clone, Copy, Debug, PartialEq, Eq, Structural)]
pub enum Operator {
    /// `+`
    ADD,
    /// `-`
    Subtract,
    /// `*`
    Multiply,
    /// `/`
    Divide,
    /// `%`
    Mod,
    /// `=`
    Assign,
    /// `&&`
    And,
    /// `==`
    Equals,
    /// `!=`
    NotEquals,
    /// `||`
    Or,
    /// `!`
    NOT,
    /// `>`
    GT,
    /// `<`
    LT,
    /// `>=`
    GTE,
    /// `<=`
    LTE,
}

/// Built-in procedures.
#[derive(Clone, Copy, Debug, PartialEq, Eq, Structural)]
pub enum StdFunction {
    /// `print`, or `println` where the flag is set.
    Print(bool),
}

/// One lexical unit.
#[derive(Debug, PartialEq, Eq)]
pub enum Token {
    Keyword(Keyword),
    Identifier(String),
    Int(i32),
    Bool(bool),
    String(String),
    Operator(Operator),
    /// `(`
    LParen,
    /// `)`
    RParen,
    /// `{`
    LBig,
    /// `}`
    RBig,
    StdFunction(StdFunction),
}

/// What a [`Token`] stands for, with texts as character sequences.
pub enum SpecToken {
    Keyword(Keyword),
    Identifier(Seq<char>),
    Int(i32),
    Bool(bool),
    Str(Seq<char>),
    Operator(Operator),
    LParen,
    RParen,
    LBig,
    RBig,
    StdFunction(StdFunction),
}

impl View for Token {
    type V = SpecToken;

    open spec fn view(&self) -> SpecToken {
        match self {
            Token::Keyword(k) => SpecToken::Keyword(*k),
            Token::Identifier(name) => SpecToken::Identifier(name@),
            Token::Int(i) => SpecToken::Int(*i),
            Token::Bool(b) => SpecToken::Bool(*b),
            Token::String(s) => SpecToken::Str(s@),
            Token::Operator(op) => SpecToken::Operator(*op),
            Token::LParen => SpecToken::LParen,
            Token::RParen => SpecToken::RParen,
            Token::LBig => SpecToken::LBig,
            Token::RBig => SpecToken::RBig,
            Token::StdFunction(f) => SpecToken::StdFunction(*f),
        }
    }
}

impl Clone for Token {
    fn clone(&self) -> (r: Self)
        ensures
            r@ == self@,
    {
        match self {
            Token::Keyword(k) => Token::Keyword(*k),
            Token::Identifier(name) => Token::Identifier(name.clone()),
            Token::Int(i) => Token::Int(*i),
            Token::Bool(b) => Token::Bool(*b),
            Token::String(s) => Token::String(s.clone()),
            Token::Operator(op) => Token::Operator(*op),
            Token::LParen => Token::LParen,
            Token::RParen => Token::RParen,
            Token::LBig => Token::LBig,
            Token::RBig => Token::RBig,
            Token::StdFunction(f) => Token::StdFunction(*f),
        }
    }
}

impl DeepView for Token {
    type V = SpecToken;

    open spec fn deep_view(&self) -> SpecToken {
        self@
    }
}

impl SpecToken {
    /// Tokens that an expression takes as operands.
    pub open spec fn is_operand(self) -> bool {
        self is Identifier || self is Int || self is Bool || self is Str
    }

    /// The two parentheses.
    pub open spec fn is_paren(self) -> bool {
        self is LParen || self is RParen
    }
}

impl Token {
    /// Is this the opening parenthesis?
    pub fn is_lparen(&self) -> (r: bool)
        ensures
            r == (self@ is LParen),
    {
        matches!(self, Token::LParen)
    }

    /// Is this the closing parenthesis?
    pub fn is_rparen(&self) -> (r: bool)
        ensures
            r == (self@ is RParen),
    {
        matches!(self, Token::RParen)
    }

    /// Is this the closing brace?
    pub fn is_rbig(&self) -> (r: bool)
        ensures
            r == (self@ is RBig),
    {
        matches!(self, Token::RBig)
    }

    /// Is this the keyword `else`?
    pub fn is_else(&self) -> (r: bool)
        ensures
            r == (self@ == SpecToken::Keyword(Keyword::ELSE)),
    {
        match self {
            Token::Keyword(Keyword::ELSE) => true,
            _ => false,
        }
    }
}

} // verus!
