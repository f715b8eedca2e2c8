//! The program tree as it is held in memory, and its evaluation.
//!
//! Every kind of node is a type of its own; [`Node`] is their closed union.
//! Each of them has a [`Term`] as its model and evaluates as
//! [`crate::semantics::eval`] says of that term.

use std::collections::VecDeque;
use vstd::prelude::*;
use crate::context::{computed, Context};
use crate::error::EvalError;
use crate::semantics::{
    apply, apply_ints, eval, eval_block, eval_loop, fits, negate, quotient, remainder, truth, State,
};
use crate::term::{BinaryOp, SpecValue, Term};
use crate::text::{bool_to_string, int_to_string, printed_text, value_text};
use vstd::string::StringExecFns;

verus! {

/// A runtime value.
#[derive(Debug)]
pub enum Value {
    Int(i32),
    Bool(bool),
    Void,
    String(String),
}

impl View for Value {
    type V = SpecValue;

    open spec fn view(&self) -> SpecValue {
        match self {
            Value::Int(i) => SpecValue::Int(*i),
            Value::Bool(b) => SpecValue::Bool(*b),
            Value::Void => SpecValue::Void,
            Value::String(s) => SpecValue::Str(s@),
        }
    }
}

impl Clone for Value {
    fn clone(&self) -> (r: Self)
        ensures
            r@ == self@,
    {
        match self {
            Value::Int(i) => Value::Int(*i),
            Value::Bool(b) => Value::Bool(*b),
            Value::Void => Value::Void,
            Value::String(s) => Value::String(s.clone()),
        }
    }
}

impl PartialEq for Value {
    fn eq(&self, other: &Self) -> (r: bool) {
        match self {
            Value::Int(a) => match other {
                Value::Int(b) => *a == *b,
                _ => false,
            },
            Value::Bool(a) => match other {
                Value::Bool(b) => *a == *b,
                _ => false,
            },
            Value::Void => match other {
                Value::Void => true,
                _ => false,
            },
            Value::String(a) => match other {
                Value::String(b) => a.eq(b),
                _ => false,
            },
        }
    }
}

impl vstd::std_specs::cmp::PartialEqSpecImpl for Value {
    open spec fn obeys_eq_spec() -> bool {
        true
    }

    open spec fn eq_spec(&self, other: &Self) -> bool {
        self@ == other@
    }
}

impl Eq for Value {}

/// A name whose value is looked up.
#[derive(Debug, PartialEq, Eq)]
pub struct Variable {
    pub name: String,
}

/// A leaf of an expression.
#[derive(Debug, PartialEq, Eq)]
pub enum Element {
    Variable(Variable),
    Value(Value),
}

/// `left - right`
#[derive(Debug, PartialEq, Eq)]
pub struct Subtract {
    pub left: Box<Node>,
    pub right: Box<Node>,
}

/// `left * right`
#[derive(Debug, PartialEq, Eq)]
pub struct Multiply {
    pub left: Box<Node>,
    pub right: Box<Node>,
}

/// `left / right`
#[derive(Debug, PartialEq, Eq)]
pub struct Divide {
    pub left: Box<Node>,
    pub right: Box<Node>,
}

/// `left != right`
#[derive(Debug, PartialEq, Eq)]
pub struct NotEquals {
    pub left: Box<Node>,
    pub right: Box<Node>,
}

/// `!expr`
#[derive(Debug, PartialEq, Eq)]
pub struct Not {
    pub expr: Box<Node>,
}

/// `left < right`
#[derive(Debug, PartialEq, Eq)]
pub struct LT {
    pub left: Box<Node>,
    pub right: Box<Node>,
}

/// `left <= right`
#[derive(Debug, PartialEq, Eq)]
pub struct LTE {
    pub left: Box<Node>,
    pub right: Box<Node>,
}

/// `left >= right`
#[derive(Debug, PartialEq, Eq)]
pub struct GTE {
    pub left: Box<Node>,
    pub right: Box<Node>,
}

/// `left > right`
#[derive(Debug, PartialEq, Eq)]
pub struct GT {
    pub left: Box<Node>,
    pub right: Box<Node>,
}

/// `left && right`
#[derive(Debug, PartialEq, Eq)]
pub struct And {
    pub left: Box<Node>,
    pub right: Box<Node>,
}

/// `left || right`
#[derive(Debug, PartialEq, Eq)]
pub struct Or {
    pub left: Box<Node>,
    pub right: Box<Node>,
}

/// `(inner)`
#[derive(Debug, PartialEq, Eq)]
pub struct Paren {
    pub inner: Box<Node>,
}

/// `left == right`
#[derive(Debug, PartialEq, Eq)]
pub struct Equals {
    pub left: Box<Node>,
    pub right: Box<Node>,
}

/// `left % right`
#[derive(Debug, PartialEq, Eq)]
pub struct Mod {
    pub left: Box<Node>,
    pub right: Box<Node>,
}

/// `left + right`
#[derive(Debug, PartialEq, Eq)]
pub struct Add {
    pub left: Box<Node>,
    pub right: Box<Node>,
}

/// `println(expression)`
#[derive(Debug, PartialEq, Eq)]
pub struct Println {
    pub expression: Box<Node>,
}

/// `print(expression)`
#[derive(Debug, PartialEq, Eq)]
pub struct Print {
    pub expression: Box<Node>,
}

/// `left = right`, for a new name as for one that exists.
#[derive(Debug, PartialEq, Eq)]
pub struct Var {
    pub left: String,
    pub right: Box<Node>,
}

/// Statements in order.
pub type Command = VecDeque<Node>;

/// `for predict { cmd }`
#[derive(Debug, PartialEq, Eq)]
pub struct Loop {
    pub predict: Box<Node>,
    pub cmd: Command,
}

/// `if predict { cmd } else { else_cmd }`; without `else` the second block
/// is empty.
#[derive(Debug, PartialEq, Eq)]
pub struct If {
    pub predict: Box<Node>,
    pub cmd: Command,
    pub else_cmd: Command,
}

/// Any node of the tree.
#[derive(Debug, PartialEq, Eq)]
pub enum Node {
    Element(Element),
    Not(Not),
    Paren(Paren),
    Add(Add),
    Subtract(Subtract),
    Multiply(Multiply),
    Divide(Divide),
    Mod(Mod),
    Equals(Equals),
    NotEquals(NotEquals),
    LT(LT),
    LTE(LTE),
    GT(GT),
    GTE(GTE),
    And(And),
    Or(Or),
    Var(Var),
    Print(Print),
    Println(Println),
    Command(Command),
    If(If),
    Loop(Loop),
}

/// The term that a node stands for.
pub open spec fn node_term(n: Node) -> Term
    decreases n,
{
    match n {
        Node::Element(Element::Value(v)) => Term::Literal(v@),
        Node::Element(Element::Variable(v)) => Term::Variable(v.name@),
        Node::Not(e) => Term::Not(Box::new(node_term(*e.expr))),
        Node::Paren(e) => Term::Paren(Box::new(node_term(*e.inner))),
        Node::Add(e) => binary_term(BinaryOp::Add, node_term(*e.left), node_term(*e.right)),
        Node::Subtract(e) => binary_term(
            BinaryOp::Subtract,
            node_term(*e.left),
            node_term(*e.right),
        ),
        Node::Multiply(e) => binary_term(
            BinaryOp::Multiply,
            node_term(*e.left),
            node_term(*e.right),
        ),
        Node::Divide(e) => binary_term(BinaryOp::Divide, node_term(*e.left), node_term(*e.right)),
        Node::Mod(e) => binary_term(BinaryOp::Mod, node_term(*e.left), node_term(*e.right)),
        Node::Equals(e) => binary_term(BinaryOp::Equals, node_term(*e.left), node_term(*e.right)),
        Node::NotEquals(e) => binary_term(
            BinaryOp::NotEquals,
            node_term(*e.left),
            node_term(*e.right),
        ),
        Node::LT(e) => binary_term(BinaryOp::LT, node_term(*e.left), node_term(*e.right)),
        Node::LTE(e) => binary_term(BinaryOp::LTE, node_term(*e.left), node_term(*e.right)),
        Node::GT(e) => binary_term(BinaryOp::GT, node_term(*e.left), node_term(*e.right)),
        Node::GTE(e) => binary_term(BinaryOp::GTE, node_term(*e.left), node_term(*e.right)),
        Node::And(e) => binary_term(BinaryOp::And, node_term(*e.left), node_term(*e.right)),
        Node::Or(e) => binary_term(BinaryOp::Or, node_term(*e.left), node_term(*e.right)),
        Node::Var(e) => Term::Assign(e.left@, Box::new(node_term(*e.right))),
        Node::Print(e) => Term::Print(Box::new(node_term(*e.expression)), false),
        Node::Println(e) => Term::Print(Box::new(node_term(*e.expression)), true),
        Node::Command(items) => Term::Block(node_terms(items)),
        Node::If(e) => Term::If(
            Box::new(node_term(*e.predict)),
            node_terms(e.cmd),
            node_terms(e.else_cmd),
        ),
        Node::Loop(e) => Term::Loop(Box::new(node_term(*e.predict)), node_terms(e.cmd)),
    }
}

/// The terms that the nodes of a command stand for, one for one.
pub open spec fn node_terms(items: Command) -> Seq<Term>
    decreases items,
{
    Seq::new(
        items@.len(),
        |i: int|
            if 0 <= i < items@.len() {
                node_term(items@[i])
            } else {
                Term::Block(Seq::empty())
            },
    )
}

/// A binary term from its operator and operands.
pub open spec fn binary_term(op: BinaryOp, left: Term, right: Term) -> Term {
    Term::Binary(op, Box::new(left), Box::new(right))
}

impl View for Node {
    type V = Term;

    open spec fn view(&self) -> Term {
        node_term(*self)
    }
}


/// The model of an optional value.
pub open spec fn optional_model(v: Option<Value>) -> Option<SpecValue> {
    match v {
        Some(v) => Some(v@),
        None => None,
    }
}

/// Are two results the same: both missing, or values of the same kind with
/// the same content?
fn same_result(left: &Option<Value>, right: &Option<Value>) -> (r: bool)
    ensures
        r == (optional_model(*left) == optional_model(*right)),
{
    match left {
        Some(a) => match right {
            Some(b) => a.eq(b),
            None => false,
        },
        None => match right {
            Some(_) => false,
            None => true,
        },
    }
}

/// The integer that checked arithmetic gave, or the overflow that it met.
fn checked_int(i: Option<i32>) -> (r: Result<Option<Value>, EvalError>)
    ensures
        computed(r) == match i {
            Some(i) => Ok::<_, EvalError>(Some(SpecValue::Int(i))),
            None => Err(EvalError::Overflow),
        },
{
    match i {
        Some(i) => Ok(Some(Value::Int(i))),
        None => Err(EvalError::Overflow),
    }
}

/// Applies an arithmetic or order operator to two integers.
fn apply_to_ints(op: BinaryOp, a: i32, b: i32) -> (r: Result<Option<Value>, EvalError>)
    ensures
        computed(r) == apply_ints(op, a as int, b as int),
{
    match op {
        BinaryOp::Add => checked_int(a.checked_add(b)),
        BinaryOp::Subtract => checked_int(a.checked_sub(b)),
        BinaryOp::Multiply => checked_int(a.checked_mul(b)),
        BinaryOp::Divide => {
            if b == 0 {
                Err(EvalError::DivisionByZero)
            } else {
                proof {
                    lemma_quotient_of_words(a as int, b as int);
                }
                checked_int(a.checked_div(b))
            }
        },
        BinaryOp::Mod => {
            if b == 0 {
                Err(EvalError::DivisionByZero)
            } else {
                proof {
                    lemma_quotient_of_words(a as int, b as int);
                    lemma_remainder_by_cases(a as int, b as int);
                }
                checked_int(a.checked_rem(b))
            }
        },
        BinaryOp::LT => Ok(Some(Value::Bool(a < b))),
        BinaryOp::LTE => Ok(Some(Value::Bool(a <= b))),
        BinaryOp::GT => Ok(Some(Value::Bool(a > b))),
        BinaryOp::GTE => Ok(Some(Value::Bool(a >= b))),
        _ => Err(EvalError::TypeMismatch),
    }
}

/// The quotient of two 32-bit integers fits unless it is that of the least
/// one by minus one.
proof fn lemma_quotient_of_words(a: int, b: int)
    requires
        fits(a),
        fits(b),
        b != 0,
    ensures
        fits(quotient(a, b)) <==> !(a == i32::MIN && b == -1),
        a == 0 ==> quotient(a, b) == 0,
{
    let x = if a >= 0 {
        a
    } else {
        -a
    };
    let y = if b > 0 {
        b
    } else {
        -b
    };
    vstd::arithmetic::div_mod::lemma_div_pos_is_pos(x, y);
    vstd::arithmetic::div_mod::lemma_div_is_ordered_by_denominator(x, 1, y);
    vstd::arithmetic::div_mod::lemma_div_basics(x);
    if y > 1 && x > 0 {
        vstd::arithmetic::div_mod::lemma_div_decreases(x, y);
    }
}

/// The remainder is the remainder of the magnitudes, with the sign of the
/// dividend.
proof fn lemma_remainder_by_cases(a: int, b: int)
    requires
        b != 0,
    ensures
        remainder(a, b) == if a >= 0 && b > 0 {
            a % b
        } else if a >= 0 {
            a % (-b)
        } else if b > 0 {
            -((-a) % b)
        } else {
            -((-a) % (-b))
        },
{
    let x = if a >= 0 {
        a
    } else {
        -a
    };
    let y = if b > 0 {
        b
    } else {
        -b
    };
    vstd::arithmetic::div_mod::lemma_fundamental_div_mod(x, y);
    assert(b * -(x / y) == -(b * (x / y))) by (nonlinear_arith);
    assert((-b) * (x / y) == -(b * (x / y))) by (nonlinear_arith);
}

/// Applies a binary operator to what its operands gave.
pub fn apply_binary(op: BinaryOp, left: Option<Value>, right: Option<Value>) -> (r: Result<
    Option<Value>,
    EvalError,
>)
    ensures
        computed(r) == apply(op, optional_model(left), optional_model(right)),
{
    match op {
        BinaryOp::Equals => Ok(Some(Value::Bool(same_result(&left, &right)))),
        BinaryOp::NotEquals => Ok(Some(Value::Bool(!same_result(&left, &right)))),
        BinaryOp::And => match (left, right) {
            (Some(Value::Bool(a)), Some(Value::Bool(b))) => Ok(Some(Value::Bool(a && b))),
            _ => Err(EvalError::TypeMismatch),
        },
        BinaryOp::Or => match (left, right) {
            (Some(Value::Bool(a)), Some(Value::Bool(b))) => Ok(Some(Value::Bool(a || b))),
            _ => Err(EvalError::TypeMismatch),
        },
        _ => match (left, right) {
            (Some(Value::Int(a)), Some(Value::Int(b))) => apply_to_ints(op, a, b),
            _ => Err(EvalError::TypeMismatch),
        },
    }
}

/// Applies `!` to what its operand gave.
pub fn apply_not(operand: Option<Value>) -> (r: Result<Option<Value>, EvalError>)
    ensures
        computed(r) == negate(optional_model(operand)),
{
    match operand {
        Some(Value::Bool(b)) => Ok(Some(Value::Bool(!b))),
        Some(_) => Err(EvalError::TypeMismatch),
        None => Err(EvalError::MissingValue),
    }
}

impl Value {
    /// The text of the value, as `print` writes it.
    pub fn to_string(&self) -> (s: String)
        ensures
            s@ == value_text(self@),
    {
        match self {
            Value::Int(i) => int_to_string(*i),
            Value::Bool(b) => bool_to_string(*b),
            Value::Void => String::new(),
            Value::String(s) => s.clone(),
        }
    }
}


/// Does an evaluation that led from state `before` to state `after` and
/// returned `r` do what [`eval`] says of term `t`?
pub open spec fn evaluated(
    t: Term,
    before: State,
    after: State,
    r: Result<Option<Value>, EvalError>,
) -> bool {
    let o = eval(t, before);
    after == o.state && computed(r) == o.result
}

/// What every node of the tree can do: be evaluated against a context.
pub trait Expression {
    /// The term that this node stands for.
    spec fn term(&self) -> Term;

    /// Evaluates the node. It returns the value that the node gives, nothing
    /// for a statement, or the failure that ended the evaluation, and leaves
    /// the context as the evaluation left it, all as [`eval`] says of
    /// [`Expression::term`].
    fn evaluate(&self, ctx: &mut Context) -> (r: Result<Option<Value>, EvalError>)
        ensures
            evaluated(self.term(), old(ctx)@, final(ctx)@, r),
    ;
}

impl Expression for Value {
    open spec fn term(&self) -> Term {
        Term::Literal(self@)
    }

    fn evaluate(&self, _ctx: &mut Context) -> (r: Result<Option<Value>, EvalError>) {
        Ok(Some(self.clone()))
    }
}

impl Expression for Variable {
    open spec fn term(&self) -> Term {
        Term::Variable(self.name@)
    }

    fn evaluate(&self, context: &mut Context) -> (r: Result<Option<Value>, EvalError>) {
        match context.get(self.name.as_str()) {
            Some(val) => Ok(Some(val.clone())),
            None => Err(EvalError::UndeclaredVariable),
        }
    }
}

impl Expression for Element {
    open spec fn term(&self) -> Term {
        match self {
            Element::Value(v) => v.term(),
            Element::Variable(v) => v.term(),
        }
    }

    fn evaluate(&self, ctx: &mut Context) -> (r: Result<Option<Value>, EvalError>) {
        match &self {
            Element::Value(v) => v.evaluate(ctx),
            Element::Variable(v) => v.evaluate(ctx),
        }
    }
}

impl Expression for Not {
    open spec fn term(&self) -> Term {
        Term::Not(Box::new(self.expr@))
    }

    fn evaluate(&self, ctx: &mut Context) -> (r: Result<Option<Value>, EvalError>)
        decreases self, 0int,
    {
        match self.expr.evaluate(ctx) {
            Ok(res) => apply_not(res),
            Err(e) => Err(e),
        }
    }
}

impl Expression for Paren {
    open spec fn term(&self) -> Term {
        Term::Paren(Box::new(self.inner@))
    }

    fn evaluate(&self, ctx: &mut Context) -> (r: Result<Option<Value>, EvalError>)
        decreases self, 0int,
    {
        self.inner.evaluate(ctx)
    }
}

impl Expression for Add {
    open spec fn term(&self) -> Term {
        binary_term(BinaryOp::Add, self.left@, self.right@)
    }

    fn evaluate(&self, ctx: &mut Context) -> (r: Result<Option<Value>, EvalError>)
        decreases self, 0int,
    {
        let l = self.left.evaluate(ctx)?;
        let r = self.right.evaluate(ctx)?;
        apply_binary(BinaryOp::Add, l, r)
    }
}

impl Expression for Subtract {
    open spec fn term(&self) -> Term {
        binary_term(BinaryOp::Subtract, self.left@, self.right@)
    }

    fn evaluate(&self, ctx: &mut Context) -> (r: Result<Option<Value>, EvalError>)
        decreases self, 0int,
    {
        let l = self.left.evaluate(ctx)?;
        let r = self.right.evaluate(ctx)?;
        apply_binary(BinaryOp::Subtract, l, r)
    }
}

impl Expression for Multiply {
    open spec fn term(&self) -> Term {
        binary_term(BinaryOp::Multiply, self.left@, self.right@)
    }

    fn evaluate(&self, ctx: &mut Context) -> (r: Result<Option<Value>, EvalError>)
        decreases self, 0int,
    {
        let l = self.left.evaluate(ctx)?;
        let r = self.right.evaluate(ctx)?;
        apply_binary(BinaryOp::Multiply, l, r)
    }
}

impl Expression for Divide {
    open spec fn term(&self) -> Term {
        binary_term(BinaryOp::Divide, self.left@, self.right@)
    }

    fn evaluate(&self, ctx: &mut Context) -> (r: Result<Option<Value>, EvalError>)
        decreases self, 0int,
    {
        let l = self.left.evaluate(ctx)?;
        let r = self.right.evaluate(ctx)?;
        apply_binary(BinaryOp::Divide, l, r)
    }
}

impl Expression for Mod {
    open spec fn term(&self) -> Term {
        binary_term(BinaryOp::Mod, self.left@, self.right@)
    }

    fn evaluate(&self, ctx: &mut Context) -> (r: Result<Option<Value>, EvalError>)
        decreases self, 0int,
    {
        let l = self.left.evaluate(ctx)?;
        let r = self.right.evaluate(ctx)?;
        apply_binary(BinaryOp::Mod, l, r)
    }
}

impl Expression for Equals {
    open spec fn term(&self) -> Term {
        binary_term(BinaryOp::Equals, self.left@, self.right@)
    }

    fn evaluate(&self, ctx: &mut Context) -> (r: Result<Option<Value>, EvalError>)
        decreases self, 0int,
    {
        let l = self.left.evaluate(ctx)?;
        let r = self.right.evaluate(ctx)?;
        apply_binary(BinaryOp::Equals, l, r)
    }
}

impl Expression for NotEquals {
    open spec fn term(&self) -> Term {
        binary_term(BinaryOp::NotEquals, self.left@, self.right@)
    }

    fn evaluate(&self, ctx: &mut Context) -> (r: Result<Option<Value>, EvalError>)
        decreases self, 0int,
    {
        let l = self.left.evaluate(ctx)?;
        let r = self.right.evaluate(ctx)?;
        apply_binary(BinaryOp::NotEquals, l, r)
    }
}

impl Expression for LT {
    open spec fn term(&self) -> Term {
        binary_term(BinaryOp::LT, self.left@, self.right@)
    }

    fn evaluate(&self, ctx: &mut Context) -> (r: Result<Option<Value>, EvalError>)
        decreases self, 0int,
    {
        let l = self.left.evaluate(ctx)?;
        let r = self.right.evaluate(ctx)?;
        apply_binary(BinaryOp::LT, l, r)
    }
}

impl Expression for LTE {
    open spec fn term(&self) -> Term {
        binary_term(BinaryOp::LTE, self.left@, self.right@)
    }

    fn evaluate(&self, ctx: &mut Context) -> (r: Result<Option<Value>, EvalError>)
        decreases self, 0int,
    {
        let l = self.left.evaluate(ctx)?;
        let r = self.right.evaluate(ctx)?;
        apply_binary(BinaryOp::LTE, l, r)
    }
}

impl Expression for GT {
    open spec fn term(&self) -> Term {
        binary_term(BinaryOp::GT, self.left@, self.right@)
    }

    fn evaluate(&self, ctx: &mut Context) -> (r: Result<Option<Value>, EvalError>)
        decreases self, 0int,
    {
        let l = self.left.evaluate(ctx)?;
        let r = self.right.evaluate(ctx)?;
        apply_binary(BinaryOp::GT, l, r)
    }
}

impl Expression for GTE {
    open spec fn term(&self) -> Term {
        binary_term(BinaryOp::GTE, self.left@, self.right@)
    }

    fn evaluate(&self, ctx: &mut Context) -> (r: Result<Option<Value>, EvalError>)
        decreases self, 0int,
    {
        let l = self.left.evaluate(ctx)?;
        let r = self.right.evaluate(ctx)?;
        apply_binary(BinaryOp::GTE, l, r)
    }
}

impl Expression for And {
    open spec fn term(&self) -> Term {
        binary_term(BinaryOp::And, self.left@, self.right@)
    }

    fn evaluate(&self, ctx: &mut Context) -> (r: Result<Option<Value>, EvalError>)
        decreases self, 0int,
    {
        let l = self.left.evaluate(ctx)?;
        let r = self.right.evaluate(ctx)?;
        apply_binary(BinaryOp::And, l, r)
    }
}

impl Expression for Or {
    open spec fn term(&self) -> Term {
        binary_term(BinaryOp::Or, self.left@, self.right@)
    }

    fn evaluate(&self, ctx: &mut Context) -> (r: Result<Option<Value>, EvalError>)
        decreases self, 0int,
    {
        let l = self.left.evaluate(ctx)?;
        let r = self.right.evaluate(ctx)?;
        apply_binary(BinaryOp::Or, l, r)
    }
}

impl Expression for Var {
    open spec fn term(&self) -> Term {
        Term::Assign(self.left@, Box::new(self.right@))
    }

    fn evaluate(&self, ctx: &mut Context) -> (r: Result<Option<Value>, EvalError>)
        decreases self, 0int,
    {
        match self.right.evaluate(ctx)? {
            Some(res) => {
                ctx.assign(self.left.clone(), res);
                Ok(None)
            },
            None => Err(EvalError::MissingValue),
        }
    }
}

/// Prints what `expression` gives, with a line end where `newline` is set.
fn evaluate_print(expression: &Node, newline: bool, ctx: &mut Context) -> (r: Result<
    Option<Value>,
    EvalError,
>)
    ensures
        evaluated(Term::Print(Box::new(expression@), newline), old(ctx)@, final(ctx)@, r),
    decreases expression, 1int,
{
    match expression.evaluate(ctx)? {
        Some(res) => {
            let mut text = res.to_string();
            if newline {
                proof {
                    reveal_strlit("\n");
                }
                text.append("\n");
                assert(text@ =~= printed_text(res@, newline));
            }
            ctx.emit(text);
            Ok(None)
        },
        None => Err(EvalError::MissingValue),
    }
}

impl Expression for Println {
    open spec fn term(&self) -> Term {
        Term::Print(Box::new(self.expression@), true)
    }

    fn evaluate(&self, ctx: &mut Context) -> (r: Result<Option<Value>, EvalError>)
        decreases self, 0int,
    {
        evaluate_print(&self.expression, true, ctx)
    }
}

impl Expression for Print {
    open spec fn term(&self) -> Term {
        Term::Print(Box::new(self.expression@), false)
    }

    fn evaluate(&self, ctx: &mut Context) -> (r: Result<Option<Value>, EvalError>)
        decreases self, 0int,
    {
        evaluate_print(&self.expression, false, ctx)
    }
}

impl Expression for Command {
    open spec fn term(&self) -> Term {
        Term::Block(node_terms(*self))
    }

    fn evaluate(&self, ctx: &mut Context) -> (r: Result<Option<Value>, EvalError>)
        decreases self, 0int,
    {
        let ghost items = node_terms(*self);
        let ghost goal = eval_block(items, 0, ctx@, None);
        let mut res: Option<Value> = None;
        let mut i: usize = 0;
        while i < self.len()
            invariant
                i <= self.len(),
                items == node_terms(*self),
                goal == eval_block(items, 0, old(ctx)@, None),
                eval_block(items, i as int, ctx@, optional_model(res)) == goal,
            decreases self.len() - i,
        {
            let expr = &self[i];
            assert(items[i as int] == expr@);
            match expr.evaluate(ctx) {
                Ok(value) => {
                    res = value;
                },
                Err(e) => {
                    return Err(e);
                },
            }
            i += 1;
        }
        match res {
            Some(v) => Ok(Some(v)),
            None => Ok(None),
        }
    }
}

/// The truth value that a condition gave.
fn condition_truth(r: Result<Option<Value>, EvalError>) -> (b: Result<bool, EvalError>)
    ensures
        b == truth(computed(r)),
{
    match r {
        Ok(Some(Value::Bool(b))) => Ok(b),
        Ok(_) => Err(EvalError::TypeMismatch),
        Err(e) => Err(e),
    }
}

impl Expression for If {
    open spec fn term(&self) -> Term {
        Term::If(Box::new(self.predict@), node_terms(self.cmd), node_terms(self.else_cmd))
    }

    fn evaluate(&self, ctx: &mut Context) -> (r: Result<Option<Value>, EvalError>)
        decreases self, 0int,
    {
        match condition_truth(self.predict.evaluate(ctx)) {
            Ok(true) => {
                self.cmd.evaluate(ctx)?;
            },
            Ok(false) => {
                self.else_cmd.evaluate(ctx)?;
            },
            Err(e) => {
                return Err(e);
            },
        }
        Ok(None)
    }
}

impl Expression for Loop {
    open spec fn term(&self) -> Term {
        Term::Loop(Box::new(self.predict@), node_terms(self.cmd))
    }

    fn evaluate(&self, ctx: &mut Context) -> (r: Result<Option<Value>, EvalError>)
        decreases self, 0int,
    {
        let ghost goal = eval(self.term(), ctx@);
        let mut rounds: u64 = ctx.loop_limit;
        loop
            invariant
                goal == eval(self.term(), old(ctx)@),
                eval_loop(self.term(), ctx@, rounds as nat) == goal,
            decreases rounds,
        {
            match condition_truth(self.predict.evaluate(ctx)) {
                Ok(false) => {
                    return Ok(None);
                },
                Ok(true) => {
                    if rounds == 0 {
                        return Err(EvalError::LoopLimit);
                    }
                    rounds = rounds - 1;
                    self.cmd.evaluate(ctx)?;
                },
                Err(e) => {
                    return Err(e);
                },
            }
        }
    }
}

impl Expression for Node {
    open spec fn term(&self) -> Term {
        self@
    }

    fn evaluate(&self, ctx: &mut Context) -> (r: Result<Option<Value>, EvalError>)
        decreases self, 0int,
    {
        match self {
            Node::Element(e) => e.evaluate(ctx),
            Node::Not(e) => e.evaluate(ctx),
            Node::Paren(e) => e.evaluate(ctx),
            Node::Add(e) => e.evaluate(ctx),
            Node::Subtract(e) => e.evaluate(ctx),
            Node::Multiply(e) => e.evaluate(ctx),
            Node::Divide(e) => e.evaluate(ctx),
            Node::Mod(e) => e.evaluate(ctx),
            Node::Equals(e) => e.evaluate(ctx),
            Node::NotEquals(e) => e.evaluate(ctx),
            Node::LT(e) => e.evaluate(ctx),
            Node::LTE(e) => e.evaluate(ctx),
            Node::GT(e) => e.evaluate(ctx),
            Node::GTE(e) => e.evaluate(ctx),
            Node::And(e) => e.evaluate(ctx),
            Node::Or(e) => e.evaluate(ctx),
            Node::Var(e) => e.evaluate(ctx),
            Node::Print(e) => e.evaluate(ctx),
            Node::Println(e) => e.evaluate(ctx),
            Node::Command(e) => e.evaluate(ctx),
            Node::If(e) => e.evaluate(ctx),
            Node::Loop(e) => e.evaluate(ctx),
        }
    }
}

} // verus!
