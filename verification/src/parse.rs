//! The parser: from the tokens of a program, line by line, to its tree.

use std::collections::VecDeque;
use vstd::prelude::*;
use vstd::slice::slice_subrange;
use crate::error::ParseError;
use crate::expression::{
    binary_term, node_terms, Add, And, Command, Divide, Element, Equals, If, Loop, Mod, Multiply, Node, Not,
    NotEquals, Or, Print, Println, Subtract, Value, Var, Variable, GT, GTE, LT, LTE,
};
use crate::grammar::{
    assign_term, assignment, block, closes_block, conditional_at, declaration, expression,
    header_condition, lines_left, loop_at, opens_else, operands_after, postfix, print_statement,
    priority, reduce, statement, yard_after, Yard, OPERAND_PRIORITY,
};
use crate::term::{binary_op, SpecValue, Term};
use crate::token::{Keyword, Operator, SpecToken, StdFunction, Token};

verus! {

/// The model of what a parsing call returns.
pub open spec fn parsed(r: Result<Node, ParseError>) -> Result<Term, ParseError> {
    match r {
        Ok(node) => Ok(node@),
        Err(e) => Err(e),
    }
}

/// The tokens that a sequence of borrowed tokens stands for.
pub open spec fn token_models(tokens: Seq<&Token>) -> Seq<SpecToken> {
    Seq::new(tokens.len(), |i: int| tokens[i]@)
}

/// The yard that a stack and a queue of borrowed tokens stand for.
pub open spec fn yard_model(stack: Seq<&Token>, output: Seq<&Token>) -> Yard {
    Yard { stack: token_models(stack), output: token_models(output) }
}

/// How strongly a token binds.
pub fn get_priority(token: &Token) -> (p: i32)
    ensures
        p == priority(token@),
{
    match token {
        Token::LParen => 0,
        Token::RParen => 0,
        Token::Operator(opt) => match opt {
            Operator::ADD => 1,
            Operator::Subtract => 1,
            Operator::Multiply => 2,
            Operator::Divide => 2,
            Operator::Mod => 2,
            Operator::Assign => 1,
            Operator::And => -1,
            Operator::Equals => 2,
            Operator::NotEquals => 2,
            Operator::Or => -1,
            Operator::NOT => 0,
            Operator::GT => 2,
            Operator::LT => 2,
            Operator::GTE => 2,
            Operator::LTE => 2,
        },
        _ => OPERAND_PRIORITY,
    }
}

/// Lets an operator or a parenthesis into the yard.
fn place_operator<'a>(
    stack: &mut Vec<&'a Token>,
    output: &mut VecDeque<&'a Token>,
    token: &'a Token,
)
    ensures
        yard_model(final(stack)@, final(output)@) == yard_model(old(stack)@, old(output)@).place(
            token@,
        ),
{
    let ghost goal = yard_model(stack@, output@).place(token@);
    loop
        invariant_except_break
            yard_model(stack@, output@).place(token@) == goal,
        ensures
            yard_model(stack@, output@) == goal,
        decreases stack.len(),
    {
        let ghost before = yard_model(stack@, output@);
        if stack.len() == 0 || token.is_lparen() {
            stack.push(token);
            assert(token_models(stack@) =~= before.stack.push(token@));
            break ;
        }
        let top: &'a Token = stack[stack.len() - 1];
        assert(top@ == before.stack.last());
        if token.is_rparen() {
            stack.pop();
            assert(token_models(stack@) =~= before.stack.drop_last());
            if top.is_lparen() {
                break ;
            }
            output.push_back(top);
            assert(token_models(output@) =~= before.output.push(top@));
        } else if get_priority(top) < get_priority(token) {
            stack.push(token);
            assert(token_models(stack@) =~= before.stack.push(token@));
            break ;
        } else {
            stack.pop();
            assert(token_models(stack@) =~= before.stack.drop_last());
            output.push_back(top);
            assert(token_models(output@) =~= before.output.push(top@));
        }
    }
}

/// The tokens of `line` in postfix order, parentheses left out.
fn to_postfix<'a>(line: &'a [Token]) -> (queue: VecDeque<&'a Token>)
    ensures
        token_models(queue@) == postfix(line.deep_view()),
{
    let ghost tokens = line.deep_view();
    let mut output: VecDeque<&'a Token> = VecDeque::new();
    let mut stack: Vec<&'a Token> = Vec::new();
    let mut i: usize = 0;
    assert(token_models(output@) =~= Seq::empty());
    assert(token_models(stack@) =~= Seq::empty());
    while i < line.len()
        invariant
            i <= line.len(),
            tokens == line.deep_view(),
            yard_model(stack@, output@) == yard_after(tokens, i as nat),
        decreases line.len() - i,
    {
        let token = &line[i];
        assert(tokens[i as int] == token@);
        if get_priority(token) == OPERAND_PRIORITY {
            let ghost before = token_models(output@);
            output.push_back(token);
            assert(token_models(output@) =~= before.push(token@));
        } else {
            place_operator(&mut stack, &mut output, token);
        }
        i += 1;
    }
    let ghost drained = yard_after(tokens, tokens.len()).drain();
    while stack.len() > 0
        invariant
            yard_model(stack@, output@).drain() == drained,
        decreases stack.len(),
    {
        let ghost before = yard_model(stack@, output@);
        let top: &'a Token = stack[stack.len() - 1];
        stack.pop();
        output.push_back(top);
        assert(token_models(stack@) =~= before.stack.drop_last());
        assert(token_models(output@) =~= before.output.push(top@));
    }
    assert(token_models(output@) == drained);
    let ghost keep = |t: SpecToken| !t.is_paren();
    let mut queue: VecDeque<&'a Token> = VecDeque::new();
    let mut j: usize = 0;
    assert(token_models(queue@) =~= Seq::empty());
    assert(drained.subrange(0, 0) =~= Seq::empty());
    assert(drained.subrange(0, 0).filter(keep) =~= Seq::empty()) by {
        reveal(Seq::filter);
    }
    while j < output.len()
        invariant
            j <= output.len(),
            token_models(output@) == drained,
            keep == |t: SpecToken| !t.is_paren(),
            token_models(queue@) == drained.subrange(0, j as int).filter(keep),
        decreases output.len() - j,
    {
        let token: &'a Token = output[j];
        let ghost before = token_models(queue@);
        proof {
            assert(drained[j as int] == token@);
            assert(drained.subrange(0, j + 1) =~= drained.subrange(0, j as int).push(token@));
            drained.subrange(0, j as int).lemma_filter_push(token@, keep);
        }
        if !token.is_lparen() && !token.is_rparen() {
            queue.push_back(token);
            assert(token_models(queue@) =~= before.push(token@));
        }
        j += 1;
    }
    assert(drained.subrange(0, j as int) =~= drained);
    queue
}

/// The node of a binary operator over two operands.
fn binary_node(op: Operator, left: Node, right: Node) -> (node: Node)
    requires
        binary_op(op) is Some,
    ensures
        node@ == binary_term(binary_op(op).unwrap(), left@, right@),
{
    let left = Box::new(left);
    let right = Box::new(right);
    match op {
        Operator::ADD => Node::Add(Add { left, right }),
        Operator::Subtract => Node::Subtract(Subtract { left, right }),
        Operator::Multiply => Node::Multiply(Multiply { left, right }),
        Operator::Divide => Node::Divide(Divide { left, right }),
        Operator::Mod => Node::Mod(Mod { left, right }),
        Operator::Equals => Node::Equals(Equals { left, right }),
        Operator::NotEquals => Node::NotEquals(NotEquals { left, right }),
        Operator::GT => Node::GT(GT { left, right }),
        Operator::LT => Node::LT(LT { left, right }),
        Operator::GTE => Node::GTE(GTE { left, right }),
        Operator::LTE => Node::LTE(LTE { left, right }),
        Operator::And => Node::And(And { left, right }),
        _ => Node::Or(Or { left, right }),
    }
}

/// One step of folding a postfix queue: the operand stack after `token`.
fn reduce_operands(operands: &mut VecDeque<Node>, token: &Token) -> (r: Result<(), ParseError>)
    ensures
        match r {
            Ok(()) => reduce(node_terms(*old(operands)), token@) == Ok::<_, ParseError>(
                node_terms(*final(operands)),
            ),
            Err(e) => reduce(node_terms(*old(operands)), token@) == Err::<Seq<Term>, _>(e),
        },
{
    let ghost before = node_terms(*operands);
    match token {
        Token::Identifier(name) => {
            let node = Node::Element(Element::Variable(Variable { name: name.clone() }));
            operands.push_back(node);
            assert(node_terms(*operands) =~= before.push(Term::Variable(name@)));
            Ok(())
        },
        Token::Int(i) => {
            operands.push_back(Node::Element(Element::Value(Value::Int(*i))));
            assert(node_terms(*operands) =~= before.push(
                Term::Literal(SpecValue::Int(*i)),
            ));
            Ok(())
        },
        Token::Bool(b) => {
            operands.push_back(Node::Element(Element::Value(Value::Bool(*b))));
            assert(node_terms(*operands) =~= before.push(
                Term::Literal(SpecValue::Bool(*b)),
            ));
            Ok(())
        },
        Token::String(s) => {
            operands.push_back(Node::Element(Element::Value(Value::String(s.clone()))));
            assert(node_terms(*operands) =~= before.push(
                Term::Literal(SpecValue::Str(s@)),
            ));
            Ok(())
        },
        Token::Operator(Operator::Assign) => Err(ParseError::UnexpectedAssign),
        Token::Operator(Operator::NOT) => {
            match operands.pop_back() {
                None => Err(ParseError::MissingOperand),
                Some(expr) => {
                    operands.push_back(Node::Not(Not { expr: Box::new(expr) }));
                    assert(node_terms(*operands) =~= before.drop_last().push(
                        Term::Not(Box::new(before.last())),
                    ));
                    Ok(())
                },
            }
        },
        Token::Operator(op) => {
            if operands.len() < 2 {
                return Err(ParseError::MissingOperand);
            }
            let right = operands.pop_back().unwrap();
            let left = operands.pop_back().unwrap();
            let node = binary_node(*op, left, right);
            operands.push_back(node);
            assert(node_terms(*operands) =~= before.subrange(0, before.len() - 2).push(
                binary_term(
                    binary_op(*op).unwrap(),
                    before[before.len() - 2],
                    before[before.len() - 1],
                ),
            ));
            Ok(())
        },
        _ => Err(ParseError::UnexpectedToken),
    }
}

/// Parses the tokens of one expression.
///
/// The result is the block of what the operator-precedence reading leaves on
/// the operand stack: [`expression`] of the tokens, or the failure that it
/// names.
pub fn parse_expression(line: &[Token]) -> (r: Result<Node, ParseError>)
    ensures
        parsed(r) == expression(line.deep_view()),
{
    if line.len() == 0 {
        return Err(ParseError::EmptyExpression);
    }
    let queue = to_postfix(line);
    let ghost models = token_models(queue@);
    let mut operands: VecDeque<Node> = VecDeque::new();
    let mut i: usize = 0;
    assert(node_terms(operands) =~= Seq::empty());
    while i < queue.len()
        invariant
            i <= queue.len(),
            line.len() > 0,
            models == token_models(queue@),
            models == postfix(line.deep_view()),
            operands_after(models, i as nat) == Ok::<_, ParseError>(node_terms(operands)),
        decreases queue.len() - i,
    {
        let token: &Token = queue[i];
        assert(models[i as int] == token@);
        match reduce_operands(&mut operands, token) {
            Ok(()) => {},
            Err(e) => {
                proof {
                    assert(operands_after(models, (i + 1) as nat) == Err::<Seq<Term>, _>(e));
                    lemma_failure_stays(models, (i + 1) as nat, models.len());
                }
                return Err(e);
            },
        }
        i += 1;
    }
    Ok(Node::Command(operands))
}

/// A failure among the first `n` tokens is the failure of any longer prefix.
proof fn lemma_failure_stays(queue: Seq<SpecToken>, n: nat, m: nat)
    requires
        n <= m,
        operands_after(queue, n) is Err,
    ensures
        operands_after(queue, m) == operands_after(queue, n),
    decreases m,
{
    if n < m {
        lemma_failure_stays(queue, n, (m - 1) as nat);
    }
}


/// The model of what parsing a statement with blocks returns: the line that
/// closes it, counted from the line after `start`, and its term.
pub open spec fn parsed_at(r: Result<(usize, Node), ParseError>, start: usize) -> Result<
    (nat, Term),
    ParseError,
> {
    match r {
        Ok((close, node)) => Ok(((close - start - 1) as nat, node@)),
        Err(e) => Err(e),
    }
}

/// The model of what parsing a block returns: the number of lines taken, and
/// the terms.
pub open spec fn parsed_block(r: Result<(usize, Command), ParseError>, start: usize) -> Result<
    (nat, Seq<Term>),
    ParseError,
> {
    match r {
        Ok((end, cmd)) => Ok(((end - start) as nat, node_terms(cmd))),
        Err(e) => Err(e),
    }
}

/// The part of `line` from token `from` up to token `to`.
fn tokens_between(line: &[Token], from: usize, to: usize) -> (part: &[Token])
    requires
        from <= to <= line.len(),
    ensures
        part.deep_view() == line.deep_view().subrange(from as int, to as int),
{
    let part = slice_subrange(line, from, to);
    assert(part.deep_view() =~= line.deep_view().subrange(from as int, to as int));
    part
}

/// The assignment of `right` to `name`.
fn assign_node(name: &String, right: Result<Node, ParseError>) -> (r: Result<Node, ParseError>)
    ensures
        parsed(r) == assign_term(name@, parsed(right)),
{
    match right {
        Ok(node) => Ok(Node::Var(Var { left: name.clone(), right: Box::new(node) })),
        Err(e) => Err(e),
    }
}

/// Parses a declaration, `let name = expression` or
/// `const name = expression`.
///
/// Returns the assignment that [`declaration`] gives, or
/// [`ParseError::MalformedDeclaration`] where the line does not start with
/// `let` or `const` and a name or has fewer than three tokens, or the failure
/// of the expression.
pub fn parse_declare(line: &[Token]) -> (r: Result<Node, ParseError>)
    ensures
        parsed(r) == declaration(line.deep_view()),
{
    if line.len() < 3 {
        return Err(ParseError::MalformedDeclaration);
    }
    match &line[0] {
        Token::Keyword(Keyword::LET) | Token::Keyword(Keyword::CONST) => {},
        _ => {
            return Err(ParseError::MalformedDeclaration);
        },
    }
    match &line[1] {
        Token::Identifier(name) => {
            let right = parse_expression(tokens_between(line, 3, line.len()));
            assign_node(name, right)
        },
        _ => Err(ParseError::MalformedDeclaration),
    }
}

/// Parses an assignment, `name = expression`.
///
/// Returns the assignment that [`assignment`] gives, or
/// [`ParseError::MalformedAssignment`] where the line does not start with a
/// name or has fewer than two tokens, or the failure of the expression.
pub fn parse_assign(line: &[Token]) -> (r: Result<Node, ParseError>)
    ensures
        parsed(r) == assignment(line.deep_view()),
{
    if line.len() < 2 {
        return Err(ParseError::MalformedAssignment);
    }
    match &line[0] {
        Token::Identifier(name) => {
            let right = parse_expression(tokens_between(line, 2, line.len()));
            assign_node(name, right)
        },
        _ => Err(ParseError::MalformedAssignment),
    }
}

/// Parses `print ( expression )`; with `is_newline` the node prints a line
/// end after the text.
///
/// Returns the node that [`print_statement`] gives, or
/// [`ParseError::MalformedPrint`] where the line has fewer than three tokens,
/// or the failure of the expression.
pub fn parse_print(line: &[Token], is_newline: bool) -> (r: Result<Node, ParseError>)
    ensures
        parsed(r) == print_statement(line.deep_view(), is_newline),
{
    if line.len() < 3 {
        return Err(ParseError::MalformedPrint);
    }
    match parse_expression(tokens_between(line, 2, line.len() - 1)) {
        Ok(node) => {
            let expression = Box::new(node);
            if is_newline {
                Ok(Node::Println(Println { expression }))
            } else {
                Ok(Node::Print(Print { expression }))
            }
        },
        Err(e) => Err(e),
    }
}

/// Parses the condition of an `if` or `for` line.
fn parse_condition(line: &[Token]) -> (r: Result<Node, ParseError>)
    ensures
        parsed(r) == header_condition(line.deep_view()),
{
    if line.len() < 2 {
        return Err(ParseError::MalformedHeader);
    }
    parse_expression(tokens_between(line, 1, line.len() - 1))
}

/// Does the line end a block?
fn line_closes_block(line: &[Token]) -> (r: bool)
    ensures
        r == closes_block(line.deep_view()),
{
    line.len() == 1 && line[0].is_rbig()
}

/// Is the line the header of a second block?
fn line_opens_else(line: &[Token]) -> (r: bool)
    ensures
        r == opens_else(line.deep_view()),
{
    line.len() > 0 && line[0].is_else()
}

/// Is the line after line `at` the header of a second block?
fn next_opens_else(lines: &[Box<[Token]>], at: usize) -> (r: bool)
    requires
        at + 1 < lines.len(),
    ensures
        r == opens_else(lines.deep_view()[at + 1]),
{
    let line: &[Token] = &lines[at + 1];
    assert(line.deep_view() == lines.deep_view()[at + 1]);
    line_opens_else(line)
}

/// Parses the statements of a block, from line `start_line` up to the line
/// that ends the block or to the end of the input.
///
/// Returns the index of the first line that it did not take, which is a line
/// that holds `}` alone or the number of lines, and the statements in order:
/// what [`block`] gives. Past the last line it returns `start_line` and no
/// statement. The first statement that fails to parse fails the block.
pub fn parse_block(lines: &[Box<[Token]>], start_line: usize) -> (r: Result<
    (usize, Command),
    ParseError,
>)
    ensures
        parsed_block(r, start_line) == block(lines.deep_view(), start_line as int),
        r matches Ok((end, _)) ==> start_line <= end && (end <= lines.len() || end == start_line),
        r matches Ok((end, _)) ==> end >= lines.len() || closes_block(lines.deep_view()[end as int]),
    decreases lines_left(lines.deep_view(), start_line as int), 2int,
{
    let ghost all = lines.deep_view();
    let ghost goal = block(all, start_line as int);
    let mut v: VecDeque<Node> = VecDeque::new();
    let mut current: usize = start_line;
    assert(node_terms(v) =~= Seq::empty());
    assert(prepend(0, node_terms(v), block(all, current as int)) == goal) by {
        lemma_prepend_nothing(block(all, current as int));
    }
    while current < lines.len()
        invariant
            all == lines.deep_view(),
            start_line <= current,
            current <= lines.len() || current == start_line,
            prepend((current - start_line) as nat, node_terms(v), block(all, current as int))
                == goal,
            goal == block(all, start_line as int),
        ensures
            block(all, current as int) == Ok::<_, ParseError>((0nat, Seq::<Term>::empty())),
            current >= lines.len() || closes_block(all[current as int]),
        decreases lines.len() - current,
    {
        let line: &[Token] = &lines[current];
        assert(line.deep_view() == all[current as int]);
        if line.len() == 0 {
            return Err(ParseError::EmptyLine);
        }
        if line_closes_block(line) {
            break ;
        }
        let ghost done = node_terms(v);
        let step = parse_statement(lines, current);
        match step {
            Ok((next, node)) => {
                v.push_back(node);
                proof {
                    let extra = (next - current - 1) as nat;
                    let term = node@;
                    assert(node_terms(v) =~= done.push(term));
                    match block(all, next as int) {
                        Ok((more, rest)) => {
                            assert(done + (seq![term] + rest) =~= done.push(term) + rest);
                        },
                        Err(e) => {},
                    }
                }
                current = next;
            },
            Err(e) => {
                return Err(e);
            },
        }
    }
    assert(node_terms(v) + Seq::<Term>::empty() =~= node_terms(v));
    Ok((current, v))
}

/// The result of a block whose first `done` lines gave `items` and whose
/// other lines gave `rest`.
pub open spec fn prepend(done: nat, items: Seq<Term>, rest: Result<(nat, Seq<Term>), ParseError>)
    -> Result<(nat, Seq<Term>), ParseError> {
    match rest {
        Ok((more, terms)) => Ok((done + more, items + terms)),
        Err(e) => Err(e),
    }
}

proof fn lemma_prepend_nothing(rest: Result<(nat, Seq<Term>), ParseError>)
    ensures
        prepend(0, Seq::empty(), rest) == rest,
{
    match rest {
        Ok((more, terms)) => {
            assert(Seq::<Term>::empty() + terms =~= terms);
        },
        Err(e) => {},
    }
}

/// Parses the statement that starts at line `start_line`, which is there and
/// holds a token. Returns the index of the line after the statement.
fn parse_statement(lines: &[Box<[Token]>], start_line: usize) -> (r: Result<
    (usize, Node),
    ParseError,
>)
    requires
        start_line < lines.len(),
        lines.deep_view()[start_line as int].len() > 0,
    ensures
        match r {
            Ok((next, node)) => start_line < next <= lines.len() && statement(
                lines.deep_view(),
                start_line as int,
            ) == Ok::<_, ParseError>(((next - start_line - 1) as nat, node@)),
            Err(e) => statement(lines.deep_view(), start_line as int) == Err::<(nat, Term), _>(e),
        },
    decreases lines_left(lines.deep_view(), start_line as int), 1int,
{
    let line: &[Token] = &lines[start_line];
    assert(line.deep_view() == lines.deep_view()[start_line as int]);
    assert(line.deep_view()[0] == line[0]@);
    match &line[0] {
        Token::Keyword(Keyword::LET) | Token::Keyword(Keyword::CONST) => {
            match parse_declare(line) {
                Ok(node) => Ok((start_line + 1, node)),
                Err(e) => Err(e),
            }
        },
        Token::Keyword(Keyword::FOR) => {
            match parse_for(lines, start_line) {
                Ok((close, node)) => Ok((close + 1, node)),
                Err(e) => Err(e),
            }
        },
        Token::Keyword(Keyword::IF) => {
            match parse_if(lines, start_line) {
                Ok((close, node)) => Ok((close + 1, node)),
                Err(e) => Err(e),
            }
        },
        Token::StdFunction(StdFunction::Print(is_newline)) => {
            match parse_print(line, *is_newline) {
                Ok(node) => Ok((start_line + 1, node)),
                Err(e) => Err(e),
            }
        },
        Token::Identifier(_) => {
            match parse_assign(line) {
                Ok(node) => Ok((start_line + 1, node)),
                Err(e) => Err(e),
            }
        },
        Token::LBig => {
            match parse_block(lines, start_line + 1) {
                Ok((end, items)) => {
                    if end >= lines.len() {
                        Err(ParseError::UnclosedBlock)
                    } else {
                        Ok((end + 1, Node::Command(items)))
                    }
                },
                Err(e) => Err(e),
            }
        },
        _ => Err(ParseError::UnsupportedStatement),
    }
}

/// Parses the conditional whose header, `if condition {`, is line
/// `start_line`.
///
/// Returns the index of the line that closes the conditional and its node:
/// what [`conditional_at`] gives. Where the line after the one that closes
/// the first block starts with `else`, the lines after it are the second
/// block, and the index is that of the line that closes it. It fails with
/// [`ParseError::NoSuchLine`] past the last line, with
/// [`ParseError::UnclosedBlock`] where the input ends inside a block, and
/// with the first failure inside the blocks or, after them, in the condition.
pub fn parse_if(lines: &[Box<[Token]>], start_line: usize) -> (r: Result<(usize, Node), ParseError>)
    ensures
        parsed_at(r, start_line) == conditional_at(lines.deep_view(), start_line as int),
        r matches Ok((close, _)) ==> start_line < close < lines.len(),
    decreases lines_left(lines.deep_view(), start_line as int), 0int,
{
    if start_line >= lines.len() {
        return Err(ParseError::NoSuchLine);
    }
    let (endline, if_cmd) = match parse_block(lines, start_line + 1) {
        Ok(found) => found,
        Err(e) => {
            return Err(e);
        },
    };
    if endline >= lines.len() {
        return Err(ParseError::UnclosedBlock);
    }
    let header: &[Token] = &lines[start_line];
    assert(header.deep_view() == lines.deep_view()[start_line as int]);
    if endline + 1 < lines.len() && next_opens_else(lines, endline) {
        let (new_endline, else_cmd) = match parse_block(lines, endline + 2) {
            Ok(found) => found,
            Err(e) => {
                return Err(e);
            },
        };
        if new_endline >= lines.len() {
            return Err(ParseError::UnclosedBlock);
        }
        match parse_condition(header) {
            Ok(predict) => Ok(
                (new_endline, Node::If(If { predict: Box::new(predict), cmd: if_cmd, else_cmd })),
            ),
            Err(e) => Err(e),
        }
    } else {
        match parse_condition(header) {
            Ok(predict) => {
                let else_cmd: VecDeque<Node> = VecDeque::new();
                assert(node_terms(else_cmd) =~= Seq::empty());
                Ok((endline, Node::If(If { predict: Box::new(predict), cmd: if_cmd, else_cmd })))
            },
            Err(e) => Err(e),
        }
    }
}

/// Parses the loop whose header, `for condition {`, is line `start_line`.
///
/// Returns the index of the line that closes the loop and its node: what
/// [`loop_at`] gives. It fails with [`ParseError::NoSuchLine`] past the last
/// line, with [`ParseError::UnclosedBlock`] where the input ends inside the
/// body, and with the first failure inside the body or, after it, in the
/// condition.
pub fn parse_for(lines: &[Box<[Token]>], start_line: usize) -> (r: Result<
    (usize, Node),
    ParseError,
>)
    ensures
        parsed_at(r, start_line) == loop_at(lines.deep_view(), start_line as int),
        r matches Ok((close, _)) ==> start_line < close < lines.len(),
    decreases lines_left(lines.deep_view(), start_line as int), 0int,
{
    if start_line >= lines.len() {
        return Err(ParseError::NoSuchLine);
    }
    let (endline, cmd) = match parse_block(lines, start_line + 1) {
        Ok(found) => found,
        Err(e) => {
            return Err(e);
        },
    };
    if endline >= lines.len() {
        return Err(ParseError::UnclosedBlock);
    }
    let header: &[Token] = &lines[start_line];
    assert(header.deep_view() == lines.deep_view()[start_line as int]);
    match parse_condition(header) {
        Ok(predict) => Ok((endline, Node::Loop(Loop { predict: Box::new(predict), cmd }))),
        Err(e) => Err(e),
    }
}

} // verus!
