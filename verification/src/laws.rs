//! What holds of every evaluation: how `==` compares, that blocks open no
//! scope, and that a failing expression leaves no trace.

use vstd::prelude::*;
use crate::error::EvalError;
use crate::expression::binary_term;
use crate::semantics::{
    apply, eval, eval_block, eval_loop, gives, nothing, store, truth, Outcome, State,
};
use crate::term::{BinaryOp, SpecValue, Term};
use crate::text::printed_text;

verus! {

/// Are two values of the same kind: both integers, both truth values, both
/// strings or both void?
pub open spec fn same_kind(a: SpecValue, b: SpecValue) -> bool {
    ||| a is Int && b is Int
    ||| a is Bool && b is Bool
    ||| a is Str && b is Str
    ||| a is Void && b is Void
}

/// Values of different kinds are unequal: `==` gives false for them and `!=`
/// gives true, and neither fails.
pub proof fn law_kinds_differ(a: SpecValue, b: SpecValue)
    requires
        !same_kind(a, b),
    ensures
        apply(BinaryOp::Equals, Some(a), Some(b)) == gives(SpecValue::Bool(false)),
        apply(BinaryOp::NotEquals, Some(a), Some(b)) == gives(SpecValue::Bool(true)),
{
}

/// A value equals itself: `==` gives true for two values of one kind with
/// the same content, and `!=` gives false.
pub proof fn law_same_values_are_equal(a: SpecValue, b: SpecValue)
    requires
        a == b,
    ensures
        same_kind(a, b),
        apply(BinaryOp::Equals, Some(a), Some(b)) == gives(SpecValue::Bool(true)),
        apply(BinaryOp::NotEquals, Some(a), Some(b)) == gives(SpecValue::Bool(false)),
{
}

/// `==` between two terms compares what they give, whatever its kind: where
/// the left term gives `a` and the right one, evaluated after it, gives `b`,
/// the comparison gives whether `a` is `b`, and `!=` gives the opposite.
pub proof fn law_equals_compares_values(
    left: Term,
    right: Term,
    s: State,
    a: SpecValue,
    b: SpecValue,
)
    requires
        eval(left, s).result == gives(a),
        eval(right, eval(left, s).state).result == gives(b),
    ensures
        eval(binary_term(BinaryOp::Equals, left, right), s).result == gives(SpecValue::Bool(a == b)),
        eval(binary_term(BinaryOp::NotEquals, left, right), s).result == gives(SpecValue::Bool(a != b)),
        !same_kind(a, b) ==> a != b,
{
}

/// A conditional opens no scope: the state after it is the state that the
/// block it took has left, whether that block failed or not.
pub proof fn law_conditional_keeps_state(
    condition: Term,
    first: Seq<Term>,
    second: Seq<Term>,
    s: State,
)
    ensures
        truth(eval(condition, s).result) == Ok::<_, EvalError>(true) ==> eval(
            Term::If(Box::new(condition), first, second),
            s,
        ).state == eval_block(first, 0, eval(condition, s).state, None).state,
        truth(eval(condition, s).result) == Ok::<_, EvalError>(false) ==> eval(
            Term::If(Box::new(condition), first, second),
            s,
        ).state == eval_block(second, 0, eval(condition, s).state, None).state,
{
}

/// What a conditional's block assigns is there after the conditional: where
/// the condition holds and the block is the assignment of `v` to `name`,
/// reading `name` right after the conditional gives `v`.
pub proof fn law_assignment_in_conditional_is_visible(
    condition: Term,
    name: Seq<char>,
    right: Term,
    second: Seq<Term>,
    s: State,
    v: SpecValue,
)
    requires
        truth(eval(condition, s).result) == Ok::<_, EvalError>(true),
        eval(right, eval(condition, s).state).result == gives(v),
    ensures
        ({
            let conditional = Term::If(
                Box::new(condition),
                seq![Term::Assign(name, Box::new(right))],
                second,
            );
            &&& eval(conditional, s).result == nothing()
            &&& eval(conditional, s).state.lookup(name) == gives(v)
            &&& eval(Term::Block(seq![conditional, Term::Variable(name)]), s).result == gives(v)
        }),
{
    let assignment = Term::Assign(name, Box::new(right));
    let body = seq![assignment];
    let conditional = Term::If(Box::new(condition), body, second);
    let c = eval(condition, s);
    let stored = store(name, eval(right, c.state));
    assert(body[0] == assignment);
    assert(eval(assignment, c.state) == stored);
    assert(eval_block(body, 1, stored.state, None) == Outcome::of(stored.state, nothing()));
    assert(eval_block(body, 0, c.state, None) == Outcome::of(stored.state, nothing()));
    assert(eval(conditional, s) == Outcome::of(stored.state, nothing()));
    let both = seq![conditional, Term::Variable(name)];
    assert(both[0] == conditional);
    assert(both[1] == Term::Variable(name));
    assert(eval(both[1], stored.state) == Outcome::of(stored.state, gives(v)));
    assert(eval_block(both, 2, stored.state, Some(v)) == Outcome::of(stored.state, gives(v)));
    assert(eval_block(both, 1, stored.state, None) == Outcome::of(stored.state, gives(v)));
    assert(eval_block(both, 0, s, None) == Outcome::of(stored.state, gives(v)));
}

/// What a bare block assigns is there after the block: reading `name` right
/// after `{ name = right }` gives what `right` gave.
pub proof fn law_assignment_in_block_is_visible(
    name: Seq<char>,
    right: Term,
    s: State,
    v: SpecValue,
)
    requires
        eval(right, s).result == gives(v),
    ensures
        ({
            let inner = Term::Block(seq![Term::Assign(name, Box::new(right))]);
            &&& eval(inner, s) == Outcome::of(eval(right, s).state.assign(name, v), nothing())
            &&& eval(Term::Block(seq![inner, Term::Variable(name)]), s).result == gives(v)
        }),
{
    let assignment = Term::Assign(name, Box::new(right));
    let body = seq![assignment];
    let inner = Term::Block(body);
    let stored = store(name, eval(right, s));
    assert(body[0] == assignment);
    assert(eval(assignment, s) == stored);
    assert(eval_block(body, 1, stored.state, None) == Outcome::of(stored.state, nothing()));
    assert(eval_block(body, 0, s, None) == Outcome::of(stored.state, nothing()));
    assert(eval(inner, s) == Outcome::of(stored.state, nothing()));
    let both = seq![inner, Term::Variable(name)];
    assert(both[0] == inner);
    assert(both[1] == Term::Variable(name));
    assert(eval(both[1], stored.state) == Outcome::of(stored.state, gives(v)));
    assert(eval_block(both, 2, stored.state, Some(v)) == Outcome::of(stored.state, gives(v)));
    assert(eval_block(both, 1, stored.state, None) == Outcome::of(stored.state, gives(v)));
    assert(eval_block(both, 0, s, None) == Outcome::of(stored.state, gives(v)));
}

/// A loop opens no scope: where the condition holds and a round is left, the
/// loop goes on in the very state that the body left, and where the
/// condition does not hold, the loop ends in the state that the condition
/// left.
pub proof fn law_loop_keeps_state(condition: Term, body: Seq<Term>, s: State, rounds: nat)
    ensures
        ({
            let repeated = Term::Loop(Box::new(condition), body);
            let c = eval(condition, s);
            let b = eval_block(body, 0, c.state, None);
            &&& truth(c.result) == Ok::<_, EvalError>(false) ==> eval_loop(repeated, s, rounds)
                == Outcome::of(c.state, nothing())
            &&& truth(c.result) == Ok::<_, EvalError>(true) && rounds > 0 && b.result is Ok
                ==> eval_loop(repeated, s, rounds) == eval_loop(
                repeated,
                b.state,
                (rounds - 1) as nat,
            )
        }),
{
}

/// Is the term an expression: built of constants, names, operators,
/// parentheses and blocks of such, with no statement inside?
pub open spec fn is_expression(t: Term) -> bool
    decreases t,
{
    match t {
        Term::Literal(_) => true,
        Term::Variable(_) => true,
        Term::Not(operand) => is_expression(*operand),
        Term::Binary(_, left, right) => is_expression(*left) && is_expression(*right),
        Term::Paren(inner) => is_expression(*inner),
        Term::Block(items) => forall|i: int|
            0 <= i < items.len() ==> is_expression(#[trigger] items[i]),
        _ => false,
    }
}

/// Does the expression read the name?
pub open spec fn reads(t: Term, name: Seq<char>) -> bool
    decreases t,
{
    match t {
        Term::Variable(n) => n == name,
        Term::Not(operand) => reads(*operand, name),
        Term::Binary(_, left, right) => reads(*left, name) || reads(*right, name),
        Term::Paren(inner) => reads(*inner, name),
        Term::Block(items) => exists|i: int|
            0 <= i < items.len() && reads(#[trigger] items[i], name),
        _ => false,
    }
}

/// Evaluating an expression changes nothing: no variable, no output.
pub proof fn law_expressions_keep_state(t: Term, s: State)
    requires
        is_expression(t),
    ensures
        eval(t, s).state == s,
    decreases t, 1int,
{
    match t {
        Term::Not(operand) => {
            law_expressions_keep_state(*operand, s);
        },
        Term::Binary(_, left, right) => {
            law_expressions_keep_state(*left, s);
            law_expressions_keep_state(*right, s);
        },
        Term::Paren(inner) => {
            law_expressions_keep_state(*inner, s);
        },
        Term::Block(items) => {
            lemma_expression_blocks_keep_state(items, 0, s, None);
        },
        _ => {},
    }
}

proof fn lemma_expression_blocks_keep_state(
    items: Seq<Term>,
    from: int,
    s: State,
    last: Option<SpecValue>,
)
    requires
        0 <= from,
        forall|i: int| 0 <= i < items.len() ==> is_expression(#[trigger] items[i]),
    ensures
        eval_block(items, from, s, last).state == s,
    decreases items, items.len() - from,
{
    if from < items.len() {
        law_expressions_keep_state(items[from], s);
        match eval(items[from], s).result {
            Ok(value) => {
                lemma_expression_blocks_keep_state(items, from + 1, s, value);
            },
            Err(_) => {},
        }
    }
}

/// An expression that reads a name without a value fails, and changes
/// nothing.
pub proof fn law_undeclared_name_fails(t: Term, name: Seq<char>, s: State)
    requires
        is_expression(t),
        reads(t, name),
        !s.variables.contains_key(name),
    ensures
        eval(t, s).result is Err,
        eval(t, s).state == s,
    decreases t, 1int,
{
    law_expressions_keep_state(t, s);
    match t {
        Term::Not(operand) => {
            law_undeclared_name_fails(*operand, name, s);
        },
        Term::Binary(_, left, right) => {
            law_expressions_keep_state(*left, s);
            if reads(*left, name) {
                law_undeclared_name_fails(*left, name, s);
            } else {
                law_undeclared_name_fails(*right, name, s);
            }
        },
        Term::Paren(inner) => {
            law_undeclared_name_fails(*inner, name, s);
        },
        Term::Block(items) => {
            let at = choose|i: int| 0 <= i < items.len() && reads(#[trigger] items[i], name);
            lemma_undeclared_name_fails_block(items, 0, at, name, s, None);
        },
        _ => {},
    }
}

proof fn lemma_undeclared_name_fails_block(
    items: Seq<Term>,
    from: int,
    at: int,
    name: Seq<char>,
    s: State,
    last: Option<SpecValue>,
)
    requires
        0 <= from <= at < items.len(),
        forall|i: int| 0 <= i < items.len() ==> is_expression(#[trigger] items[i]),
        reads(items[at], name),
        !s.variables.contains_key(name),
    ensures
        eval_block(items, from, s, last).result is Err,
    decreases items, items.len() - from,
{
    law_expressions_keep_state(items[from], s);
    if from == at {
        law_undeclared_name_fails(items[from], name, s);
    } else {
        match eval(items[from], s).result {
            Ok(value) => {
                lemma_undeclared_name_fails_block(items, from + 1, at, name, s, value);
            },
            Err(_) => {},
        }
    }
}

/// A statement whose expression reads a name without a value prints
/// nothing and assigns nothing: `print` and assignment fail with the failure
/// of the expression, in the state in which they started.
pub proof fn law_failing_statement_leaves_no_trace(
    t: Term,
    name: Seq<char>,
    target: Seq<char>,
    newline: bool,
    s: State,
)
    requires
        is_expression(t),
        reads(t, name),
        !s.variables.contains_key(name),
    ensures
        eval(Term::Print(Box::new(t), newline), s) == eval(t, s),
        eval(Term::Assign(target, Box::new(t)), s) == eval(t, s),
        eval(t, s).result is Err,
        eval(t, s).state == s,
{
    law_undeclared_name_fails(t, name, s);
}

/// A statement whose expression fails has no effect of its own: `print`
/// emits no fragment and assignment stores nothing; the outcome is that of
/// the expression. So after `print(1 / 0)` the output is as it was.
pub proof fn law_failure_passes_through(t: Term, target: Seq<char>, newline: bool, s: State)
    requires
        eval(t, s).result is Err,
    ensures
        eval(Term::Print(Box::new(t), newline), s) == eval(t, s),
        eval(Term::Assign(target, Box::new(t)), s) == eval(t, s),
{
}


/// What a loop's body assigns is there after the loop: where the condition,
/// an expression, holds at first and no longer once `v` is under `name`, the
/// loop whose body assigns `v` to `name` runs one round and ends in the
/// state that the assignment left.
pub proof fn law_assignment_in_loop_is_visible(
    condition: Term,
    name: Seq<char>,
    right: Term,
    s: State,
    v: SpecValue,
)
    requires
        is_expression(condition),
        s.loop_limit > 0,
        truth(eval(condition, s).result) == Ok::<_, EvalError>(true),
        eval(right, s).result == gives(v),
        truth(eval(condition, eval(right, s).state.assign(name, v)).result) == Ok::<_, EvalError>(
            false,
        ),
    ensures
        ({
            let after = eval(right, s).state.assign(name, v);
            let repeated = Term::Loop(
                Box::new(condition),
                seq![Term::Assign(name, Box::new(right))],
            );
            &&& eval(repeated, s) == Outcome::of(after, nothing())
            &&& after.lookup(name) == gives(v)
        }),
{
    let after = eval(right, s).state.assign(name, v);
    let assignment = Term::Assign(name, Box::new(right));
    let body = seq![assignment];
    let repeated = Term::Loop(Box::new(condition), body);
    law_expressions_keep_state(condition, s);
    law_expressions_keep_state(condition, after);
    assert(body[0] == assignment);
    assert(eval(assignment, s) == Outcome::of(after, nothing()));
    assert(eval_block(body, 1, after, None) == Outcome::of(after, nothing()));
    assert(eval_block(body, 0, s, None) == Outcome::of(after, nothing()));
    assert(eval_loop(repeated, after, (s.loop_limit - 1) as nat) == Outcome::of(after, nothing()));
    assert(eval_loop(repeated, s, s.loop_limit) == Outcome::of(after, nothing()));
}

/// The loop `for 0 != name { println(name) name = name - 1 }`.
pub open spec fn countdown(name: Seq<char>) -> Term {
    Term::Loop(
        Box::new(
            binary_term(
                BinaryOp::NotEquals,
                Term::Literal(SpecValue::Int(0)),
                Term::Variable(name),
            ),
        ),
        seq![
            Term::Print(Box::new(Term::Variable(name)), true),
            Term::Assign(
                name,
                Box::new(
                    binary_term(
                        BinaryOp::Subtract,
                        Term::Variable(name),
                        Term::Literal(SpecValue::Int(1)),
                    ),
                ),
            ),
        ],
    )
}

/// The lines `n`, `n - 1`, down to `1`.
pub open spec fn countdown_lines(n: nat) -> Seq<Seq<char>>
    decreases n,
{
    if n == 0 {
        Seq::empty()
    } else {
        seq![printed_text(SpecValue::Int(n as i32), true)] + countdown_lines((n - 1) as nat)
    }
}

/// A countdown from `n` runs its body `n` times: it prints the lines `n`
/// down to `1`, one a round, and leaves zero under the name. It needs `n`
/// rounds and no more.
pub proof fn law_countdown(name: Seq<char>, n: i32, s: State, rounds: nat)
    requires
        s.lookup(name) == gives(SpecValue::Int(n)),
        0 <= n <= rounds,
    ensures
        eval_loop(countdown(name), s, rounds) == Outcome::of(
            State {
                variables: s.variables.insert(name, SpecValue::Int(0)),
                output: s.output + countdown_lines(n as nat),
                loop_limit: s.loop_limit,
            },
            nothing(),
        ),
    decreases n,
{
    let zero = Term::Literal(SpecValue::Int(0));
    let one = Term::Literal(SpecValue::Int(1));
    let read = Term::Variable(name);
    let condition = binary_term(BinaryOp::NotEquals, zero, read);
    let show = Term::Print(Box::new(read), true);
    let less = binary_term(BinaryOp::Subtract, read, one);
    let step = Term::Assign(name, Box::new(less));
    let body = seq![show, step];
    assert(countdown(name) == Term::Loop(Box::new(condition), body));
    assert(eval(zero, s) == Outcome::of(s, gives(SpecValue::Int(0))));
    assert(eval(read, s) == Outcome::of(s, gives(SpecValue::Int(n))));
    assert(eval(condition, s) == Outcome::of(s, gives(SpecValue::Bool(n != 0))));
    if n == 0 {
        assert(s.variables.insert(name, SpecValue::Int(0)) =~= s.variables);
        assert(s.output + countdown_lines(0) =~= s.output);
    } else {
        let line = printed_text(SpecValue::Int(n), true);
        let shown = s.emit(line);
        let next = shown.assign(name, SpecValue::Int((n - 1) as i32));
        assert(body[0] == show);
        assert(body[1] == step);
        assert(eval(show, s) == Outcome::of(shown, nothing()));
        assert(eval(read, shown) == Outcome::of(shown, gives(SpecValue::Int(n))));
        assert(eval(one, shown) == Outcome::of(shown, gives(SpecValue::Int(1))));
        assert(eval(less, shown) == Outcome::of(shown, gives(SpecValue::Int((n - 1) as i32))));
        assert(eval(step, shown) == Outcome::of(next, nothing()));
        assert(eval_block(body, 2, next, None) == Outcome::of(next, nothing()));
        assert(eval_block(body, 1, shown, None) == Outcome::of(next, nothing()));
        assert(eval_block(body, 0, s, None) == Outcome::of(next, nothing()));
        law_countdown(name, (n - 1) as i32, next, (rounds - 1) as nat);
        assert(next.variables.insert(name, SpecValue::Int(0)) =~= s.variables.insert(
            name,
            SpecValue::Int(0),
        ));
        assert(next.output + countdown_lines((n - 1) as nat) =~= s.output + countdown_lines(
            n as nat,
        ));
    }
}

/// Does state `after` hold all that state `before` held: the output of
/// `before` at the start of its own, every name of `before` with some value,
/// and the same loop limit?
pub open spec fn extends(before: State, after: State) -> bool {
    &&& before.output.len() <= after.output.len()
    &&& after.output.subrange(0, before.output.len() as int) == before.output
    &&& before.variables.dom().subset_of(after.variables.dom())
    &&& before.loop_limit == after.loop_limit
}

proof fn lemma_extends_twice(a: State, b: State, c: State)
    requires
        extends(a, b),
        extends(b, c),
    ensures
        extends(a, c),
{
    assert(c.output.subrange(0, a.output.len() as int) =~= b.output.subrange(
        0,
        a.output.len() as int,
    ));
}

proof fn lemma_extends_itself(s: State)
    ensures
        extends(s, s),
{
    assert(s.output.subrange(0, s.output.len() as int) =~= s.output);
}

/// Evaluation only adds: whatever the term and whether it fails or not, the
/// output is appended to and never rewritten, no name loses its value
/// without getting another, and the loop limit stays.
pub proof fn law_evaluation_only_adds(t: Term, s: State)
    ensures
        extends(s, eval(t, s).state),
    decreases t, s.loop_limit + 1,
{
    lemma_extends_itself(s);
    match t {
        Term::Literal(_) => {},
        Term::Variable(_) => {},
        Term::Not(operand) => {
            law_evaluation_only_adds(*operand, s);
        },
        Term::Binary(_, left, right) => {
            let l = eval(*left, s);
            law_evaluation_only_adds(*left, s);
            if l.result is Ok {
                law_evaluation_only_adds(*right, l.state);
                lemma_extends_twice(s, l.state, eval(*right, l.state).state);
            }
        },
        Term::Paren(inner) => {
            law_evaluation_only_adds(*inner, s);
        },
        Term::Assign(name, right) => {
            let r = eval(*right, s);
            law_evaluation_only_adds(*right, s);
            lemma_extends_itself(r.state);
            lemma_extends_twice(s, r.state, store(name, r).state);
        },
        Term::Print(argument, newline) => {
            let a = eval(*argument, s);
            law_evaluation_only_adds(*argument, s);
            let after = crate::semantics::print(a, newline).state;
            assert(after.output.subrange(0, a.state.output.len() as int) =~= a.state.output);
            lemma_extends_twice(s, a.state, after);
        },
        Term::Block(items) => {
            lemma_blocks_only_add(items, 0, s, None);
        },
        Term::If(condition, first, second) => {
            let c = eval(*condition, s);
            law_evaluation_only_adds(*condition, s);
            lemma_blocks_only_add(first, 0, c.state, None);
            lemma_blocks_only_add(second, 0, c.state, None);
            lemma_extends_itself(c.state);
            let taken = match truth(c.result) {
                Ok(true) => eval_block(first, 0, c.state, None),
                Ok(false) => eval_block(second, 0, c.state, None),
                Err(_) => c,
            };
            assert(eval(t, s).state == taken.state);
            lemma_extends_twice(s, c.state, taken.state);
        },
        Term::Loop(_, _) => {
            lemma_loops_only_add(t, s, s.loop_limit);
        },
    }
}

proof fn lemma_blocks_only_add(items: Seq<Term>, from: int, s: State, last: Option<SpecValue>)
    ensures
        extends(s, eval_block(items, from, s, last).state),
    decreases items, items.len() - from,
{
    lemma_extends_itself(s);
    if 0 <= from < items.len() {
        let o = eval(items[from], s);
        law_evaluation_only_adds(items[from], s);
        match o.result {
            Ok(value) => {
                lemma_blocks_only_add(items, from + 1, o.state, value);
                lemma_extends_twice(
                    s,
                    o.state,
                    eval_block(items, from + 1, o.state, value).state,
                );
            },
            Err(_) => {},
        }
    }
}

proof fn lemma_loops_only_add(t: Term, s: State, rounds: nat)
    ensures
        extends(s, eval_loop(t, s, rounds).state),
    decreases t, rounds,
{
    lemma_extends_itself(s);
    match t {
        Term::Loop(condition, body) => {
            let c = eval(*condition, s);
            law_evaluation_only_adds(*condition, s);
            if truth(c.result) == Ok::<_, EvalError>(true) && rounds > 0 {
                let b = eval_block(body, 0, c.state, None);
                lemma_blocks_only_add(body, 0, c.state, None);
                lemma_extends_twice(s, c.state, b.state);
                if b.result is Ok {
                    lemma_loops_only_add(t, b.state, (rounds - 1) as nat);
                    lemma_extends_twice(
                        s,
                        b.state,
                        eval_loop(t, b.state, (rounds - 1) as nat).state,
                    );
                }
            }
        },
        _ => {},
    }
}

} // verus!
