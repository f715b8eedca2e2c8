//! What evaluation means: a function from a term and a state to the state
//! that it leaves and the value or failure that it gives.

use vstd::prelude::*;
use crate::error::EvalError;
use crate::term::{BinaryOp, SpecValue, Term};
use crate::text::printed_text;

verus! {

/// What a run works on. There is one mapping of names for the whole program:
/// blocks open no scope.
pub struct State {
    /// The value of every name assigned so far.
    pub variables: Map<Seq<char>, SpecValue>,
    /// The fragments printed so far, oldest first.
    pub output: Seq<Seq<char>>,
    /// How often one activation of a loop may run its body.
    pub loop_limit: nat,
}

/// What evaluating a term gives: a value, nothing, or a failure.
pub type Computed = Result<Option<SpecValue>, EvalError>;

/// The state after an evaluation, and what it gave. After a failure the state
/// is the one in which the failure happened.
pub struct Outcome {
    pub state: State,
    pub result: Computed,
}

impl State {
    /// The state before a run: no variable, no output.
    pub open spec fn initial(loop_limit: nat) -> State {
        State { variables: Map::empty(), output: Seq::empty(), loop_limit }
    }

    /// The state with `value` under `name`, new or overwritten.
    pub open spec fn assign(self, name: Seq<char>, value: SpecValue) -> State {
        State { variables: self.variables.insert(name, value), ..self }
    }

    /// The state with one more fragment printed.
    pub open spec fn emit(self, fragment: Seq<char>) -> State {
        State { output: self.output.push(fragment), ..self }
    }

    /// What reading `name` gives.
    pub open spec fn lookup(self, name: Seq<char>) -> Computed {
        if self.variables.contains_key(name) {
            Ok(Some(self.variables[name]))
        } else {
            Err(EvalError::UndeclaredVariable)
        }
    }
}

impl Outcome {
    /// This result in state `state`.
    pub open spec fn of(state: State, result: Computed) -> Outcome {
        Outcome { state, result }
    }

    /// The same outcome, its value dropped.
    pub open spec fn discard(self) -> Outcome {
        match self.result {
            Ok(_) => Outcome::of(self.state, Ok(None)),
            Err(_) => self,
        }
    }
}

/// The result that is value `v`.
pub open spec fn gives(v: SpecValue) -> Computed {
    Ok(Some(v))
}

/// The result of a statement: no value, no failure.
pub open spec fn nothing() -> Computed {
    Ok(None)
}

/// Does the integer fit 32 bits with sign?
pub open spec fn fits(i: int) -> bool {
    i32::MIN <= i <= i32::MAX
}

/// The quotient rounded towards zero, for a divisor other than zero.
pub open spec fn quotient(a: int, b: int) -> int {
    if a >= 0 && b > 0 {
        a / b
    } else if a >= 0 {
        -(a / (-b))
    } else if b > 0 {
        -((-a) / b)
    } else {
        (-a) / (-b)
    }
}

/// The remainder that goes with [`quotient`]; it has the sign of `a`.
pub open spec fn remainder(a: int, b: int) -> int {
    a - b * quotient(a, b)
}

/// The integer as a value, where it fits.
pub open spec fn int_result(i: int) -> Computed {
    if fits(i) {
        Ok(Some(SpecValue::Int(i as i32)))
    } else {
        Err(EvalError::Overflow)
    }
}

/// A truth value as a result.
pub open spec fn bool_result(b: bool) -> Computed {
    gives(SpecValue::Bool(b))
}

/// An operator applied to two integers.
pub open spec fn apply_ints(op: BinaryOp, a: int, b: int) -> Computed {
    match op {
        BinaryOp::Add => int_result(a + b),
        BinaryOp::Subtract => int_result(a - b),
        BinaryOp::Multiply => int_result(a * b),
        BinaryOp::Divide => if b == 0 {
            Err(EvalError::DivisionByZero)
        } else {
            int_result(quotient(a, b))
        },
        BinaryOp::Mod => if b == 0 {
            Err(EvalError::DivisionByZero)
        } else if fits(quotient(a, b)) {
            int_result(remainder(a, b))
        } else {
            Err(EvalError::Overflow)
        },
        BinaryOp::LT => bool_result(a < b),
        BinaryOp::LTE => bool_result(a <= b),
        BinaryOp::GT => bool_result(a > b),
        BinaryOp::GTE => bool_result(a >= b),
        _ => Err(EvalError::TypeMismatch),
    }
}

/// An operator applied to what its operands gave. `==` and `!=` compare
/// anything with anything, a missing value too: two results are equal where
/// both are missing or both hold the same kind of value with the same
/// content. Arithmetic and the order comparisons take two integers, `&&` and
/// `||` two truth values.
pub open spec fn apply(op: BinaryOp, left: Option<SpecValue>, right: Option<SpecValue>) -> Computed {
    match op {
        BinaryOp::Equals => bool_result(left == right),
        BinaryOp::NotEquals => bool_result(left != right),
        BinaryOp::And => match (left, right) {
            (Some(SpecValue::Bool(a)), Some(SpecValue::Bool(b))) => bool_result(a && b),
            _ => Err(EvalError::TypeMismatch),
        },
        BinaryOp::Or => match (left, right) {
            (Some(SpecValue::Bool(a)), Some(SpecValue::Bool(b))) => bool_result(a || b),
            _ => Err(EvalError::TypeMismatch),
        },
        _ => match (left, right) {
            (Some(SpecValue::Int(a)), Some(SpecValue::Int(b))) => apply_ints(
                op,
                a as int,
                b as int,
            ),
            _ => Err(EvalError::TypeMismatch),
        },
    }
}

/// `!` applied to what its operand gave.
pub open spec fn negate(operand: Option<SpecValue>) -> Computed {
    match operand {
        Some(SpecValue::Bool(b)) => bool_result(!b),
        Some(_) => Err(EvalError::TypeMismatch),
        None => Err(EvalError::MissingValue),
    }
}

/// The outcome of storing what the right side gave.
pub open spec fn store(name: Seq<char>, right: Outcome) -> Outcome {
    match right.result {
        Ok(Some(value)) => Outcome::of(right.state.assign(name, value), Ok(None)),
        Ok(None) => Outcome::of(right.state, Err(EvalError::MissingValue)),
        Err(_) => right,
    }
}

/// The outcome of printing what the argument gave.
pub open spec fn print(argument: Outcome, newline: bool) -> Outcome {
    match argument.result {
        Ok(Some(value)) => Outcome::of(
            argument.state.emit(printed_text(value, newline)),
            Ok(None),
        ),
        Ok(None) => Outcome::of(argument.state, Err(EvalError::MissingValue)),
        Err(_) => argument,
    }
}

/// The truth value that a condition gave, or the failure to give one.
pub open spec fn truth(condition: Computed) -> Result<bool, EvalError> {
    match condition {
        Ok(Some(SpecValue::Bool(b))) => Ok(b),
        Ok(_) => Err(EvalError::TypeMismatch),
        Err(e) => Err(e),
    }
}

/// The outcome of evaluating term `t` in state `s`.
///
/// Operands are evaluated from the left, each in the state that the one
/// before left, and the first failure ends the evaluation.
pub open spec fn eval(t: Term, s: State) -> Outcome
    decreases t, s.loop_limit + 1,
{
    match t {
        Term::Literal(value) => Outcome::of(s, Ok(Some(value))),
        Term::Variable(name) => Outcome::of(s, s.lookup(name)),
        Term::Not(operand) => {
            let o = eval(*operand, s);
            match o.result {
                Ok(value) => Outcome::of(o.state, negate(value)),
                Err(_) => o,
            }
        },
        Term::Binary(op, left, right) => {
            let l = eval(*left, s);
            match l.result {
                Ok(a) => {
                    let r = eval(*right, l.state);
                    match r.result {
                        Ok(b) => Outcome::of(r.state, apply(op, a, b)),
                        Err(_) => r,
                    }
                },
                Err(_) => l,
            }
        },
        Term::Paren(inner) => eval(*inner, s),
        Term::Assign(name, right) => store(name, eval(*right, s)),
        Term::Print(argument, newline) => print(eval(*argument, s), newline),
        Term::Block(items) => eval_block(items, 0, s, None),
        Term::If(condition, first, second) => {
            let c = eval(*condition, s);
            match truth(c.result) {
                Ok(true) => eval_block(first, 0, c.state, None).discard(),
                Ok(false) => eval_block(second, 0, c.state, None).discard(),
                Err(e) => Outcome::of(c.state, Err(e)),
            }
        },
        Term::Loop(_, _) => eval_loop(t, s, s.loop_limit),
    }
}

/// The outcome of evaluating the terms of a block from the one at `from` on,
/// where the one before gave `last`: the result of the last term, or `last`
/// where none is left.
pub open spec fn eval_block(items: Seq<Term>, from: int, s: State, last: Option<SpecValue>)
    -> Outcome
    decreases items, items.len() - from,
{
    if 0 <= from < items.len() {
        let o = eval(items[from], s);
        match o.result {
            Ok(value) => eval_block(items, from + 1, o.state, value),
            Err(_) => o,
        }
    } else {
        Outcome::of(s, Ok(last))
    }
}

/// The outcome of a loop that may run its body `rounds` more times: the
/// condition is evaluated; where it is false the loop ends and gives
/// nothing; where it is true and no round is left the loop fails; else the
/// body runs, in the state that the condition left, and the loop goes on in
/// the state that the body left.
pub open spec fn eval_loop(t: Term, s: State, rounds: nat) -> Outcome
    decreases t, rounds,
{
    match t {
        Term::Loop(condition, body) => {
            let c = eval(*condition, s);
            match truth(c.result) {
                Ok(false) => Outcome::of(c.state, Ok(None)),
                Ok(true) => if rounds == 0 {
                    Outcome::of(c.state, Err(EvalError::LoopLimit))
                } else {
                    let b = eval_block(body, 0, c.state, None);
                    match b.result {
                        Ok(_) => eval_loop(t, b.state, (rounds - 1) as nat),
                        Err(_) => b,
                    }
                },
                Err(e) => Outcome::of(c.state, Err(e)),
            }
        },
        _ => Outcome::of(s, Err(EvalError::TypeMismatch)),
    }
}

} // verus!
