//! What the parser computes, as functions on token sequences.
//!
//! An expression is read by operator precedence: the tokens of one line go
//! through a yard of an operator stack and an output queue, which leaves them
//! in postfix order, and the postfix queue is folded into terms over a stack
//! of operands.

use vstd::prelude::*;
use crate::error::ParseError;
use crate::term::{binary_op, SpecValue, Term};
use crate::expression::binary_term;
use crate::token::{Keyword, Operator, SpecToken, StdFunction};

verus! {

/// The priority of tokens that are no operators: they go to the output at
/// once.
pub const OPERAND_PRIORITY: i32 = 100;

/// How strongly a token binds. `&&` and `||` bind weakest, below the
/// parentheses and `!`; then `+`, `-` and `=`; then `*`, `/`, `%` and the
/// comparisons.
pub open spec fn priority(t: SpecToken) -> int {
    match t {
        SpecToken::LParen => 0,
        SpecToken::RParen => 0,
        SpecToken::Operator(op) => match op {
            Operator::ADD => 1,
            Operator::Subtract => 1,
            Operator::Assign => 1,
            Operator::Multiply => 2,
            Operator::Divide => 2,
            Operator::Mod => 2,
            Operator::Equals => 2,
            Operator::NotEquals => 2,
            Operator::GT => 2,
            Operator::LT => 2,
            Operator::GTE => 2,
            Operator::LTE => 2,
            Operator::And => -1,
            Operator::Or => -1,
            Operator::NOT => 0,
        },
        _ => OPERAND_PRIORITY as int,
    }
}

/// The operator stack, top last, and the output queue.
pub struct Yard {
    pub stack: Seq<SpecToken>,
    pub output: Seq<SpecToken>,
}

impl Yard {
    /// Nothing on the stack, nothing in the queue.
    pub open spec fn empty() -> Yard {
        Yard { stack: Seq::empty(), output: Seq::empty() }
    }

    /// The token on top of the stack.
    pub open spec fn push(self, t: SpecToken) -> Yard {
        Yard { stack: self.stack.push(t), output: self.output }
    }

    /// The top of the stack thrown away.
    pub open spec fn discard(self) -> Yard {
        Yard { stack: self.stack.drop_last(), output: self.output }
    }

    /// The top of the stack moved to the end of the queue.
    pub open spec fn unload(self) -> Yard {
        Yard { stack: self.stack.drop_last(), output: self.output.push(self.stack.last()) }
    }

    /// The yard after an operator or parenthesis `t` came in. An opening
    /// parenthesis goes on the stack. A closing one unloads the stack down to
    /// the nearest opening one, which it cancels. An operator unloads every
    /// top that does not bind weaker than itself, so equal operators group
    /// from the left. Whatever finds the stack empty goes on it.
    pub open spec fn place(self, t: SpecToken) -> Yard
        decreases self.stack.len(),
    {
        if self.stack.len() == 0 || t is LParen {
            self.push(t)
        } else if t is RParen {
            if self.stack.last() is LParen {
                self.discard()
            } else {
                self.unload().place(t)
            }
        } else if priority(self.stack.last()) < priority(t) {
            self.push(t)
        } else {
            self.unload().place(t)
        }
    }

    /// The yard after any token came in.
    pub open spec fn feed(self, t: SpecToken) -> Yard {
        if priority(t) == OPERAND_PRIORITY {
            Yard { stack: self.stack, output: self.output.push(t) }
        } else {
            self.place(t)
        }
    }

    /// The queue once the stack is unloaded onto it, top first.
    pub open spec fn drain(self) -> Seq<SpecToken>
        decreases self.stack.len(),
    {
        if self.stack.len() == 0 {
            self.output
        } else {
            self.unload().drain()
        }
    }
}

/// The yard after the first `n` of the tokens came in.
pub open spec fn yard_after(tokens: Seq<SpecToken>, n: nat) -> Yard
    decreases n,
{
    if n == 0 {
        Yard::empty()
    } else {
        yard_after(tokens, (n - 1) as nat).feed(tokens[n - 1])
    }
}

/// The tokens in postfix order, parentheses left out.
pub open spec fn postfix(tokens: Seq<SpecToken>) -> Seq<SpecToken> {
    yard_after(tokens, tokens.len()).drain().filter(|t: SpecToken| !t.is_paren())
}

/// The operand stack after one more token of the postfix queue. An operand
/// goes on it; `!` wraps its top; a binary operator replaces the two on top,
/// the upper one as its right operand.
pub open spec fn reduce(operands: Seq<Term>, t: SpecToken) -> Result<Seq<Term>, ParseError> {
    match t {
        SpecToken::Identifier(name) => Ok(operands.push(Term::Variable(name))),
        SpecToken::Int(i) => Ok(operands.push(Term::Literal(SpecValue::Int(i)))),
        SpecToken::Bool(b) => Ok(operands.push(Term::Literal(SpecValue::Bool(b)))),
        SpecToken::Str(s) => Ok(operands.push(Term::Literal(SpecValue::Str(s)))),
        SpecToken::Operator(Operator::Assign) => Err(ParseError::UnexpectedAssign),
        SpecToken::Operator(Operator::NOT) => if operands.len() < 1 {
            Err(ParseError::MissingOperand)
        } else {
            Ok(operands.drop_last().push(Term::Not(Box::new(operands.last()))))
        },
        SpecToken::Operator(op) => if operands.len() < 2 {
            Err(ParseError::MissingOperand)
        } else {
            Ok(
                operands.subrange(0, operands.len() - 2).push(
                    binary_term(
                        binary_op(op).unwrap(),
                        operands[operands.len() - 2],
                        operands[operands.len() - 1],
                    ),
                ),
            )
        },
        _ => Err(ParseError::UnexpectedToken),
    }
}

/// The operand stack after the first `n` tokens of a postfix queue, or the
/// first failure among them.
pub open spec fn operands_after(queue: Seq<SpecToken>, n: nat) -> Result<Seq<Term>, ParseError>
    decreases n,
{
    if n == 0 {
        Ok(Seq::empty())
    } else {
        match operands_after(queue, (n - 1) as nat) {
            Ok(operands) => reduce(operands, queue[n - 1]),
            Err(e) => Err(e),
        }
    }
}

/// The tree of one expression: the block of what is left on the operand
/// stack, which is one term where the expression is well formed.
pub open spec fn expression(tokens: Seq<SpecToken>) -> Result<Term, ParseError> {
    if tokens.len() == 0 {
        Err(ParseError::EmptyExpression)
    } else {
        let queue = postfix(tokens);
        match operands_after(queue, queue.len()) {
            Ok(operands) => Ok(Term::Block(operands)),
            Err(e) => Err(e),
        }
    }
}


/// The name that a statement assigns to, with the term of its right side.
pub open spec fn assign_term(name: Seq<char>, right: Result<Term, ParseError>) -> Result<
    Term,
    ParseError,
> {
    match right {
        Ok(term) => Ok(Term::Assign(name, Box::new(term))),
        Err(e) => Err(e),
    }
}

/// `let name = expression` or `const name = expression`: an assignment of
/// the expression that starts at the fourth token. The third token is not
/// looked at.
pub open spec fn declaration(line: Seq<SpecToken>) -> Result<Term, ParseError> {
    if line.len() >= 3 && (line[0] == SpecToken::Keyword(Keyword::LET) || line[0]
        == SpecToken::Keyword(Keyword::CONST)) {
        match line[1] {
            SpecToken::Identifier(name) => assign_term(
                name,
                expression(line.subrange(3, line.len() as int)),
            ),
            _ => Err(ParseError::MalformedDeclaration),
        }
    } else {
        Err(ParseError::MalformedDeclaration)
    }
}

/// `name = expression`: an assignment of the expression that starts at the
/// third token. The second token is not looked at.
pub open spec fn assignment(line: Seq<SpecToken>) -> Result<Term, ParseError> {
    if line.len() >= 2 {
        match line[0] {
            SpecToken::Identifier(name) => assign_term(
                name,
                expression(line.subrange(2, line.len() as int)),
            ),
            _ => Err(ParseError::MalformedAssignment),
        }
    } else {
        Err(ParseError::MalformedAssignment)
    }
}

/// `print ( expression )`: the expression between the second token and the
/// last one, printed with a line end where `newline` is set.
pub open spec fn print_statement(line: Seq<SpecToken>, newline: bool) -> Result<Term, ParseError> {
    if line.len() >= 3 {
        match expression(line.subrange(2, line.len() - 1)) {
            Ok(term) => Ok(Term::Print(Box::new(term), newline)),
            Err(e) => Err(e),
        }
    } else {
        Err(ParseError::MalformedPrint)
    }
}

/// The condition of an `if` or `for` line: the expression between the first
/// token and the last one.
pub open spec fn header_condition(line: Seq<SpecToken>) -> Result<Term, ParseError> {
    if line.len() >= 2 {
        expression(line.subrange(1, line.len() - 1))
    } else {
        Err(ParseError::MalformedHeader)
    }
}

/// Does the line end a block? It does where a closing brace is all that it
/// holds.
pub open spec fn closes_block(line: Seq<SpecToken>) -> bool {
    line.len() == 1 && line[0] is RBig
}

/// Is the line the header of a second block, `else {`? It is where it
/// starts with `else`.
pub open spec fn opens_else(line: Seq<SpecToken>) -> bool {
    line.len() > 0 && line[0] == SpecToken::Keyword(Keyword::ELSE)
}

/// How many lines there are from line `start` on.
pub open spec fn lines_left(lines: Seq<Seq<SpecToken>>, start: int) -> nat {
    if 0 <= start < lines.len() {
        (lines.len() - start) as nat
    } else {
        0
    }
}

/// The statements from line `start` up to the line that ends the block, or
/// up to the end of the input: how many lines they take, and their terms.
pub open spec fn block(lines: Seq<Seq<SpecToken>>, start: int) -> Result<
    (nat, Seq<Term>),
    ParseError,
>
    decreases lines_left(lines, start), 2int,
{
    if start < 0 || start >= lines.len() {
        Ok((0, Seq::empty()))
    } else if lines[start].len() == 0 {
        Err(ParseError::EmptyLine)
    } else if closes_block(lines[start]) {
        Ok((0, Seq::empty()))
    } else {
        match statement(lines, start) {
            Ok((extra, term)) => match block(lines, start + 1 + extra) {
                Ok((more, rest)) => Ok((1 + extra + more, seq![term] + rest)),
                Err(e) => Err(e),
            },
            Err(e) => Err(e),
        }
    }
}

/// The statement that starts at line `start`: how many lines it takes after
/// that one, and its term. The first token of the line decides its kind.
pub open spec fn statement(lines: Seq<Seq<SpecToken>>, start: int) -> Result<(nat, Term), ParseError>
    decreases lines_left(lines, start), 1int,
{
    if start < 0 || start >= lines.len() {
        Err(ParseError::NoSuchLine)
    } else if lines[start].len() == 0 {
        Err(ParseError::EmptyLine)
    } else {
        let line = lines[start];
        match line[0] {
            SpecToken::Keyword(Keyword::LET) | SpecToken::Keyword(
                Keyword::CONST,
            ) => single_line(declaration(line)),
            SpecToken::Keyword(Keyword::FOR) => enclosed(loop_at(lines, start)),
            SpecToken::Keyword(Keyword::IF) => enclosed(conditional_at(lines, start)),
            SpecToken::StdFunction(StdFunction::Print(newline)) => single_line(
                print_statement(line, newline),
            ),
            SpecToken::Identifier(_) => single_line(assignment(line)),
            SpecToken::LBig => match block(lines, start + 1) {
                Ok((inner, items)) => if start + 1 + inner >= lines.len() {
                    Err(ParseError::UnclosedBlock)
                } else {
                    Ok((inner + 1, Term::Block(items)))
                },
                Err(e) => Err(e),
            },
            _ => Err(ParseError::UnsupportedStatement),
        }
    }
}

/// A statement that takes its own line and no other.
pub open spec fn single_line(r: Result<Term, ParseError>) -> Result<(nat, Term), ParseError> {
    match r {
        Ok(term) => Ok((0, term)),
        Err(e) => Err(e),
    }
}

/// A statement with blocks: beside the lines between its header and its
/// last closing line it takes that closing line.
pub open spec fn enclosed(r: Result<(nat, Term), ParseError>) -> Result<(nat, Term), ParseError> {
    match r {
        Ok((inner, term)) => Ok((inner + 1, term)),
        Err(e) => Err(e),
    }
}

/// The loop whose header is line `start`: how many lines lie between the
/// header and the closing line, and the loop's term. The body is read before
/// the condition.
pub open spec fn loop_at(lines: Seq<Seq<SpecToken>>, start: int) -> Result<(nat, Term), ParseError>
    decreases lines_left(lines, start), 0int,
{
    if start < 0 || start >= lines.len() {
        Err(ParseError::NoSuchLine)
    } else {
        match block(lines, start + 1) {
            Ok((inner, body)) => if start + 1 + inner >= lines.len() {
                Err(ParseError::UnclosedBlock)
            } else {
                match header_condition(lines[start]) {
                    Ok(condition) => Ok((inner, Term::Loop(Box::new(condition), body))),
                    Err(e) => Err(e),
                }
            },
            Err(e) => Err(e),
        }
    }
}

/// The conditional whose header is line `start`: how many lines lie between
/// the header and the last closing line, and the conditional's term. Where
/// the line after the one that closes the first block is there and starts
/// with `else`, the lines after it are a second block, and the conditional
/// ends at the line that closes that one; else the second block is empty.
/// Both blocks are read before the condition.
pub open spec fn conditional_at(lines: Seq<Seq<SpecToken>>, start: int) -> Result<
    (nat, Term),
    ParseError,
>
    decreases lines_left(lines, start), 0int,
{
    if start < 0 || start >= lines.len() {
        Err(ParseError::NoSuchLine)
    } else {
        match block(lines, start + 1) {
            Ok((inner, first)) => if start + 1 + inner >= lines.len() {
                Err(ParseError::UnclosedBlock)
            } else if start + 2 + inner < lines.len() && opens_else(lines[start + 2 + inner]) {
                match block(lines, start + 3 + inner) {
                    Ok((more, second)) => if start + 3 + inner + more >= lines.len() {
                        Err(ParseError::UnclosedBlock)
                    } else {
                        match header_condition(lines[start]) {
                            Ok(condition) => Ok(
                                (inner + 2 + more, Term::If(Box::new(condition), first, second)),
                            ),
                            Err(e) => Err(e),
                        }
                    },
                    Err(e) => Err(e),
                }
            } else {
                match header_condition(lines[start]) {
                    Ok(condition) => Ok(
                        (inner, Term::If(Box::new(condition), first, Seq::empty())),
                    ),
                    Err(e) => Err(e),
                }
            },
            Err(e) => Err(e),
        }
    }
}

} // verus!
