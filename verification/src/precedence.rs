//! How arithmetic expressions group: operators of one tier from the left,
//! `*`, `/` and `%` before `+` and `-`, and what stands in parentheses first.

use vstd::prelude::*;
use crate::error::ParseError;
use crate::expression::binary_term;
use crate::grammar::{expression, operands_after, postfix, priority, reduce, yard_after, Yard};
use crate::term::{binary_op, BinaryOp, SpecValue, Term};
use crate::token::SpecToken;

verus! {

/// The token of a binary operator.
pub open spec fn sign_token(op: BinaryOp) -> SpecToken {
    SpecToken::Operator(op.sign())
}

/// The term of an operand token.
pub open spec fn leaf(t: SpecToken) -> Term {
    match t {
        SpecToken::Identifier(name) => Term::Variable(name),
        SpecToken::Int(i) => Term::Literal(SpecValue::Int(i)),
        SpecToken::Bool(b) => Term::Literal(SpecValue::Bool(b)),
        SpecToken::Str(s) => Term::Literal(SpecValue::Str(s)),
        _ => Term::Block(Seq::empty()),
    }
}

/// The terms from `lo` to `hi` with the operators between them, grouped
/// from the left: `((t_lo op t_lo+1) op ...) op t_hi`.
pub open spec fn chain(terms: Seq<Term>, ops: Seq<BinaryOp>, lo: nat, hi: nat) -> Term
    decreases hi,
{
    if hi <= lo {
        terms[lo as int]
    } else {
        binary_term(ops[hi - 1], chain(terms, ops, lo, (hi - 1) as nat), terms[hi as int])
    }
}

/// Where the last product among the first `k + 1` operands starts: the
/// index of the operand after the last additive operator among the first `k`
/// operators, or zero where none of them is additive.
pub open spec fn last_product(ops: Seq<BinaryOp>, k: nat) -> nat
    decreases k,
{
    if k == 0 {
        0
    } else if ops[k - 1].is_additive() {
        k
    } else {
        last_product(ops, (k - 1) as nat)
    }
}

/// The first `k + 1` terms as a sum of products: the last product, grouped
/// from the left, is the right operand of the additive operator before it,
/// whose left operand is the sum of what stands before.
pub open spec fn sum_of_products(terms: Seq<Term>, ops: Seq<BinaryOp>, k: nat) -> Term
    decreases k,
{
    let j = last_product(ops, k);
    if 0 < j <= k {
        binary_term(ops[j - 1], sum_of_products(terms, ops, (j - 1) as nat), chain(terms, ops, j, k))
    } else {
        chain(terms, ops, 0, k)
    }
}

/// Are the operators those of arithmetic: `+`, `-`, `*`, `/`, `%`?
pub open spec fn arithmetic_ops(ops: Seq<BinaryOp>) -> bool {
    forall|i: int|
        0 <= i < ops.len() ==> (#[trigger] ops[i]).is_additive() || ops[i].is_multiplicative()
}

/// An arithmetic expression as it is written.
pub enum Written {
    /// One operand token.
    Operand(SpecToken),
    /// `( x0 op0 x1 ... xn )`: parts and the operators between them, in
    /// parentheses.
    Group(Seq<Written>, Seq<BinaryOp>),
}

/// Is the expression well formed: every operand an operand token, and every
/// group a well-formed sum?
pub open spec fn well_written(w: Written) -> bool
    decreases w,
{
    match w {
        Written::Operand(t) => t.is_operand(),
        Written::Group(parts, ops) => well_written_sum(parts, ops),
    }
}

/// Do the parts and operators make `x0 op0 x1 ... xn`, with one part more
/// than operators, every part well formed and every operator arithmetic?
pub open spec fn well_written_sum(parts: Seq<Written>, ops: Seq<BinaryOp>) -> bool
    decreases parts,
{
    &&& parts.len() == ops.len() + 1
    &&& arithmetic_ops(ops)
    &&& forall|i: int| 0 <= i < parts.len() ==> well_written(#[trigger] parts[i])
}

/// The tokens of a written expression.
pub open spec fn written_tokens(w: Written) -> Seq<SpecToken>
    decreases w, 0nat,
{
    match w {
        Written::Operand(t) => seq![t],
        Written::Group(parts, ops) => seq![SpecToken::LParen] + sum_tokens(parts, ops, ops.len())
            + seq![SpecToken::RParen],
    }
}

/// The tokens of `x0 op0 x1 ... xk`.
pub open spec fn sum_tokens(parts: Seq<Written>, ops: Seq<BinaryOp>, k: nat) -> Seq<SpecToken>
    decreases parts, k,
{
    if k >= parts.len() {
        Seq::empty()
    } else if k == 0 {
        written_tokens(parts[0])
    } else {
        sum_tokens(parts, ops, (k - 1) as nat).push(sign_token(ops[k - 1])) + written_tokens(
            parts[k as int],
        )
    }
}

/// The term that a written expression means: an operand's leaf, and for a
/// group the sum of products of what its parts mean. Parentheses leave no
/// node of their own.
pub open spec fn written_term(w: Written) -> Term
    decreases w,
{
    match w {
        Written::Operand(t) => leaf(t),
        Written::Group(parts, ops) => sum_of_products(part_terms(parts), ops, ops.len()),
    }
}

/// The terms that the parts mean, one for one.
pub open spec fn part_terms(parts: Seq<Written>) -> Seq<Term>
    decreases parts,
{
    Seq::new(
        parts.len(),
        |i: int|
            if 0 <= i < parts.len() {
                written_term(parts[i])
            } else {
                Term::Block(Seq::empty())
            },
    )
}

/// What a postfix queue folds to.
pub open spec fn folded(queue: Seq<SpecToken>) -> Result<Seq<Term>, ParseError> {
    operands_after(queue, queue.len())
}

/// The yard after all of the tokens came in.
pub open spec fn fed(yard: Yard, tokens: Seq<SpecToken>) -> Yard
    decreases tokens.len(),
{
    if tokens.len() == 0 {
        yard
    } else {
        fed(yard, tokens.drop_last()).feed(tokens.last())
    }
}

/// The operators that wait on the stack after `k` operators and `k + 1`
/// operands: the additive one before the last product, where there is one
/// and the product has an operator, and the last operator.
spec fn waiting(ops: Seq<BinaryOp>, k: nat) -> Seq<SpecToken> {
    let j = last_product(ops, k);
    if k == 0 {
        Seq::empty()
    } else if 0 < j < k {
        seq![sign_token(ops[j - 1]), sign_token(ops[k - 1])]
    } else {
        seq![sign_token(ops[k - 1])]
    }
}

/// The terms that the output has gained once the `k`-th operator, for
/// `k > 0`, is let in: the sum of what stands before the last product, and
/// that product up to the operand before the operator.
spec fn reduced(terms: Seq<Term>, ops: Seq<BinaryOp>, k: nat) -> Seq<Term> {
    let j = last_product(ops, k);
    if 0 < j < k {
        seq![sum_of_products(terms, ops, (j - 1) as nat), chain(terms, ops, j, (k - 1) as nat)]
    } else {
        seq![sum_of_products(terms, ops, (k - 1) as nat)]
    }
}

/// The terms that the output has gained after `k` operators and `k + 1`
/// operands.
spec fn settled(terms: Seq<Term>, ops: Seq<BinaryOp>, k: nat) -> Seq<Term> {
    if k == 0 {
        seq![terms[0]]
    } else {
        reduced(terms, ops, k).push(terms[k as int])
    }
}

/// No parenthesis is in the queue.
spec fn plain(queue: Seq<SpecToken>) -> bool {
    forall|i: int| 0 <= i < queue.len() ==> !(#[trigger] queue[i]).is_paren()
}

/// Nothing that an operator could unload lies on top of the stack: the stack
/// is empty or an opening parenthesis is its top.
spec fn floor(stack: Seq<SpecToken>) -> bool {
    stack.len() == 0 || stack.last() is LParen
}

/// A yard whose output folds to `done` and holds no parenthesis.
spec fn holds(yard: Yard, done: Seq<Term>) -> bool {
    folded(yard.output) == Ok::<_, ParseError>(done) && plain(yard.output)
}

/// The yard after `k` operators and `k + 1` operands of a sum that started
/// in yard `base` holds what [`waiting`] and [`settled`] say, above what the
/// base held.
spec fn in_shape(
    base: Seq<SpecToken>,
    done: Seq<Term>,
    terms: Seq<Term>,
    ops: Seq<BinaryOp>,
    k: nat,
    yard: Yard,
) -> bool {
    yard.stack == base + waiting(ops, k) && holds(yard, done + settled(terms, ops, k))
}


proof fn lemma_last_product(ops: Seq<BinaryOp>, k: nat)
    requires
        k <= ops.len(),
    ensures
        last_product(ops, k) <= k,
        last_product(ops, k) > 0 ==> ops[last_product(ops, k) - 1].is_additive(),
        forall|i: int| last_product(ops, k) <= i < k ==> !(#[trigger] ops[i]).is_additive(),
    decreases k,
{
    if k > 0 && !ops[k - 1].is_additive() {
        lemma_last_product(ops, (k - 1) as nat);
    }
}

/// The fold of a queue depends on the tokens that it has read only.
proof fn lemma_operands_prefix(a: Seq<SpecToken>, b: Seq<SpecToken>, n: nat)
    requires
        n <= a.len(),
        n <= b.len(),
        forall|i: int| 0 <= i < n ==> a[i] == b[i],
    ensures
        operands_after(a, n) == operands_after(b, n),
    decreases n,
{
    if n > 0 {
        lemma_operands_prefix(a, b, (n - 1) as nat);
    }
}

/// One more token in the queue is one more step of the fold.
proof fn lemma_folded_push(queue: Seq<SpecToken>, t: SpecToken)
    ensures
        folded(queue.push(t)) == match folded(queue) {
            Ok(operands) => reduce(operands, t),
            Err(e) => Err(e),
        },
{
    lemma_operands_prefix(queue.push(t), queue, queue.len());
}

/// Folding a binary operator's token joins the two terms on top.
proof fn lemma_fold_operator(queue: Seq<SpecToken>, terms: Seq<Term>, op: BinaryOp)
    requires
        holds(Yard { stack: Seq::empty(), output: queue }, terms),
        terms.len() >= 2,
    ensures
        holds(
            Yard { stack: Seq::empty(), output: queue.push(sign_token(op)) },
            terms.subrange(0, terms.len() - 2).push(
                binary_term(op, terms[terms.len() - 2], terms[terms.len() - 1]),
            ),
        ),
{
    lemma_folded_push(queue, sign_token(op));
    assert(binary_op(op.sign()) == Some(op));
}

/// Folding an operand's token puts its term on top.
proof fn lemma_fold_operand(queue: Seq<SpecToken>, terms: Seq<Term>, t: SpecToken)
    requires
        holds(Yard { stack: Seq::empty(), output: queue }, terms),
        t.is_operand(),
    ensures
        holds(Yard { stack: Seq::empty(), output: queue.push(t) }, terms.push(leaf(t))),
{
    lemma_folded_push(queue, t);
}

/// A queue without parentheses passes the filter unchanged.
proof fn lemma_plain_stays(queue: Seq<SpecToken>)
    requires
        plain(queue),
    ensures
        queue.filter(|t: SpecToken| !t.is_paren()) == queue,
    decreases queue.len(),
{
    let keep = |t: SpecToken| !t.is_paren();
    if queue.len() == 0 {
        reveal(Seq::filter);
    } else {
        let front = queue.drop_last();
        lemma_plain_stays(front);
        front.lemma_filter_push(queue.last(), keep);
        assert(front.push(queue.last()) =~= queue);
    }
}

/// Feeding two runs of tokens one after the other is feeding their
/// concatenation.
proof fn lemma_fed_concat(yard: Yard, a: Seq<SpecToken>, b: Seq<SpecToken>)
    ensures
        fed(yard, a + b) == fed(fed(yard, a), b),
    decreases b.len(),
{
    if b.len() == 0 {
        assert(a + b =~= a);
    } else {
        lemma_fed_concat(yard, a, b.drop_last());
        assert((a + b).drop_last() =~= a + b.drop_last());
        assert((a + b).last() == b.last());
    }
}

/// Feeding one token more.
proof fn lemma_fed_push(yard: Yard, a: Seq<SpecToken>, t: SpecToken)
    ensures
        fed(yard, a.push(t)) == fed(yard, a).feed(t),
{
    assert(a.push(t).drop_last() =~= a);
}

/// The yard after the first `n` tokens is the empty yard fed with them.
proof fn lemma_yard_after_is_fed(tokens: Seq<SpecToken>, n: nat)
    requires
        n <= tokens.len(),
    ensures
        yard_after(tokens, n) == fed(Yard::empty(), tokens.subrange(0, n as int)),
    decreases n,
{
    if n > 0 {
        lemma_yard_after_is_fed(tokens, (n - 1) as nat);
        let front = tokens.subrange(0, n as int);
        assert(front.drop_last() =~= tokens.subrange(0, n - 1));
        assert(front.last() == tokens[n - 1]);
    }
}

/// Is the token an arithmetic operator's?
spec fn arithmetic_sign(t: SpecToken) -> bool {
    priority(t) == 1 || priority(t) == 2
}

/// What letting an arithmetic operator's token into the yard does where at
/// most two such operators lie above the floor.
proof fn lemma_place_operator(yard: Yard, below: Seq<SpecToken>, above: Seq<SpecToken>, t: SpecToken)
    requires
        yard.stack == below + above,
        floor(below),
        above.len() <= 2,
        forall|i: int| 0 <= i < above.len() ==> arithmetic_sign(#[trigger] above[i]),
        arithmetic_sign(t),
    ensures
        above.len() == 0 ==> yard.place(t) == yard.push(t),
        above.len() == 1 ==> yard.place(t) == if priority(above[0]) < priority(t) {
            yard.push(t)
        } else {
            yard.unload().push(t)
        },
        above.len() == 2 ==> yard.place(t) == if priority(above[1]) < priority(t) {
            yard.push(t)
        } else if priority(above[0]) < priority(t) {
            yard.unload().push(t)
        } else {
            yard.unload().unload().push(t)
        },
{
    reveal_with_fuel(Yard::place, 4);
    if above.len() == 0 {
        assert(below + above =~= below);
    } else if above.len() == 1 {
        assert(yard.stack.last() == above[0]);
        assert(yard.unload().stack =~= below);
    } else {
        assert(yard.stack.last() == above[1]);
        let once = yard.unload();
        assert(once.stack =~= below.push(above[0]));
        assert(once.stack.last() == above[0]);
        assert(once.unload().stack =~= below);
    }
}

/// What a closing parenthesis does where at most two arithmetic operators
/// lie above the opening one: they are unloaded, and the opening one goes.
proof fn lemma_place_closing(yard: Yard, below: Seq<SpecToken>, above: Seq<SpecToken>)
    requires
        yard.stack == below.push(SpecToken::LParen) + above,
        above.len() <= 2,
        forall|i: int| 0 <= i < above.len() ==> arithmetic_sign(#[trigger] above[i]),
    ensures
        above.len() == 0 ==> yard.place(SpecToken::RParen) == yard.discard(),
        above.len() == 1 ==> yard.place(SpecToken::RParen) == yard.unload().discard(),
        above.len() == 2 ==> yard.place(SpecToken::RParen) == yard.unload().unload().discard(),
        yard.place(SpecToken::RParen).stack == below,
{
    reveal_with_fuel(Yard::place, 4);
    let opened = below.push(SpecToken::LParen);
    if above.len() == 0 {
        assert(opened + above =~= opened);
        assert(yard.discard().stack =~= below);
    } else if above.len() == 1 {
        assert(yard.stack.last() == above[0]);
        let once = yard.unload();
        assert(once.stack =~= opened);
        assert(once.discard().stack =~= below);
    } else {
        assert(yard.stack.last() == above[1]);
        let once = yard.unload();
        assert(once.stack =~= opened.push(above[0]));
        assert(once.stack.last() == above[0]);
        let twice = once.unload();
        assert(twice.stack =~= opened);
        assert(twice.discard().stack =~= below);
    }
}

/// A sum of products whose last product has no operator yet.
proof fn lemma_sum_ends(terms: Seq<Term>, ops: Seq<BinaryOp>, k: nat)
    requires
        0 < k <= ops.len(),
        !(0 < last_product(ops, k) < k),
    ensures
        sum_of_products(terms, ops, k) == binary_term(
            ops[k - 1],
            sum_of_products(terms, ops, (k - 1) as nat),
            terms[k as int],
        ),
{
    lemma_last_product(ops, k);
    lemma_last_product(ops, (k - 1) as nat);
    let j = last_product(ops, k);
    if j == k {
        assert(chain(terms, ops, k, k) == terms[k as int]);
    } else {
        assert(j == 0);
        assert(last_product(ops, (k - 1) as nat) == 0);
        assert(sum_of_products(terms, ops, (k - 1) as nat) == chain(terms, ops, 0, (k - 1) as nat));
    }
}


/// The yard with the `n` operators on top of its stack unloaded.
spec fn unloaded(yard: Yard, n: nat) -> Yard
    decreases n,
{
    if n == 0 {
        yard
    } else {
        unloaded(yard.unload(), (n - 1) as nat)
    }
}

/// Unloading the operators that wait folds the sum: the output then holds
/// the sum of products of the first `k + 1` operands above what was done.
proof fn lemma_unload_waiting(
    below: Seq<SpecToken>,
    done: Seq<Term>,
    terms: Seq<Term>,
    ops: Seq<BinaryOp>,
    k: nat,
    yard: Yard,
)
    requires
        k <= ops.len(),
        arithmetic_ops(ops),
        in_shape(below, done, terms, ops, k, yard),
    ensures
        unloaded(yard, waiting(ops, k).len()).stack == below,
        holds(
            unloaded(yard, waiting(ops, k).len()),
            done.push(sum_of_products(terms, ops, k)),
        ),
{
    let j = last_product(ops, k);
    let before = done + settled(terms, ops, k);
    let whole = done.push(sum_of_products(terms, ops, k));
    let n = done.len() as int;
    lemma_last_product(ops, k);
    reveal_with_fuel(unloaded, 3);
    if k == 0 {
        assert(below + waiting(ops, k) =~= below);
        assert(before =~= whole);
    } else if 0 < j < k {
        let a = ops[j - 1];
        let m = ops[k - 1];
        let once = yard.unload();
        let twice = once.unload();
        assert(yard.stack.last() == sign_token(m));
        assert(once.stack =~= below.push(sign_token(a)));
        assert(once.stack.last() == sign_token(a));
        assert(twice.stack =~= below);
        assert(unloaded(yard, 2) == twice);
        lemma_fold_operator(yard.output, before, m);
        let joined = done + seq![
            sum_of_products(terms, ops, (j - 1) as nat),
            chain(terms, ops, j, k),
        ];
        assert(before[n] == sum_of_products(terms, ops, (j - 1) as nat));
        assert(before[n + 1] == chain(terms, ops, j, (k - 1) as nat));
        assert(before[n + 2] == terms[k as int]);
        assert(before.subrange(0, before.len() - 2).push(
            binary_term(m, before[before.len() - 2], before[before.len() - 1]),
        ) =~= joined);
        lemma_fold_operator(once.output, joined, a);
        assert(joined.subrange(0, joined.len() - 2).push(
            binary_term(a, joined[joined.len() - 2], joined[joined.len() - 1]),
        ) =~= whole);
    } else {
        let p = ops[k - 1];
        let once = yard.unload();
        assert(yard.stack.last() == sign_token(p));
        assert(once.stack =~= below);
        assert(unloaded(yard, 1) == once);
        lemma_fold_operator(yard.output, before, p);
        lemma_sum_ends(terms, ops, k);
        assert(before[n] == sum_of_products(terms, ops, (k - 1) as nat));
        assert(before[n + 1] == terms[k as int]);
        assert(before.subrange(0, before.len() - 2).push(
            binary_term(p, before[before.len() - 2], before[before.len() - 1]),
        ) =~= whole);
    }
}

/// The operators that wait are arithmetic operators, two at most.
proof fn lemma_waiting(ops: Seq<BinaryOp>, k: nat)
    requires
        k <= ops.len(),
        arithmetic_ops(ops),
    ensures
        waiting(ops, k).len() <= 2,
        forall|i: int|
            0 <= i < waiting(ops, k).len() ==> arithmetic_sign(#[trigger] waiting(ops, k)[i]),
{
    lemma_last_product(ops, k);
    assert forall|i: int| 0 <= i < ops.len() implies arithmetic_sign(
        sign_token(#[trigger] ops[i]),
    ) by {
        assert(ops[i].is_additive() || ops[i].is_multiplicative());
    }
}

/// The shape of the yard once one more operator is let in.
proof fn lemma_after_operator(
    below: Seq<SpecToken>,
    done: Seq<Term>,
    terms: Seq<Term>,
    ops: Seq<BinaryOp>,
    k: nat,
    yard: Yard,
)
    requires
        k < ops.len(),
        arithmetic_ops(ops),
        floor(below),
        in_shape(below, done, terms, ops, k, yard),
    ensures
        yard.feed(sign_token(ops[k as int])).stack == below + waiting(ops, k + 1),
        holds(yard.feed(sign_token(ops[k as int])), done + reduced(terms, ops, k + 1)),
{
    let o = ops[k as int];
    let t = sign_token(o);
    let j = last_product(ops, k);
    let next = last_product(ops, k + 1);
    let above = waiting(ops, k);
    let before = done + settled(terms, ops, k);
    let n = done.len() as int;
    lemma_last_product(ops, k);
    lemma_last_product(ops, k + 1);
    lemma_waiting(ops, k);
    assert(o.is_additive() || o.is_multiplicative());
    assert(next == if o.is_additive() {
        k + 1
    } else {
        j
    });
    assert(priority(t) == if o.is_additive() {
        1int
    } else {
        2int
    });
    lemma_place_operator(yard, below, above, t);
    let placed = yard.feed(t);
    assert(placed == yard.place(t));
    reveal_with_fuel(unloaded, 3);
    if o.is_additive() {
        lemma_unload_waiting(below, done, terms, ops, k, yard);
        let rest = unloaded(yard, above.len());
        if k > 0 {
            assert(ops[k - 1].is_additive() || ops[k - 1].is_multiplicative());
            if 0 < j < k {
                assert(above[0] == sign_token(ops[j - 1]));
                assert(above[1] == sign_token(ops[k - 1]));
            } else {
                assert(above[0] == sign_token(ops[k - 1]));
            }
        }
        assert(placed == rest.push(t));
        assert(placed.stack =~= below + waiting(ops, k + 1));
        assert(done.push(sum_of_products(terms, ops, k)) =~= done + reduced(terms, ops, k + 1));
    } else if k == 0 {
        assert(placed == yard.push(t));
        assert(placed.stack =~= below + waiting(ops, 1));
        assert(sum_of_products(terms, ops, 0) == terms[0]);
        assert(before =~= done + reduced(terms, ops, 1));
    } else if 0 < j < k {
        let a = ops[j - 1];
        let m = ops[k - 1];
        assert(a.is_additive());
        assert(m.is_multiplicative());
        assert(above[0] == sign_token(a));
        assert(above[1] == sign_token(m));
        let once = yard.unload();
        assert(yard.stack.last() == sign_token(m));
        assert(placed == once.push(t));
        assert(once.stack =~= below.push(sign_token(a)));
        assert(placed.stack =~= below + waiting(ops, k + 1));
        lemma_fold_operator(yard.output, before, m);
        assert(before[n] == sum_of_products(terms, ops, (j - 1) as nat));
        assert(before[n + 1] == chain(terms, ops, j, (k - 1) as nat));
        assert(before[n + 2] == terms[k as int]);
        assert(before.subrange(0, before.len() - 2).push(
            binary_term(m, before[before.len() - 2], before[before.len() - 1]),
        ) =~= done + reduced(terms, ops, k + 1));
    } else {
        let p = ops[k - 1];
        assert(p.is_additive() || p.is_multiplicative());
        assert(above[0] == sign_token(p));
        assert(p.is_additive() <==> j == k);
        assert(yard.stack.last() == sign_token(p));
        if p.is_additive() {
            assert(placed == yard.push(t));
            assert(placed.stack =~= below + waiting(ops, k + 1));
            assert(chain(terms, ops, k, k) == terms[k as int]);
            assert(before =~= done + reduced(terms, ops, k + 1));
        } else {
            let once = yard.unload();
            assert(placed == once.push(t));
            assert(once.stack =~= below);
            assert(placed.stack =~= below + waiting(ops, k + 1));
            lemma_fold_operator(yard.output, before, p);
            lemma_sum_ends(terms, ops, k);
            assert(before[n] == sum_of_products(terms, ops, (k - 1) as nat));
            assert(before[n + 1] == terms[k as int]);
            assert(before.subrange(0, before.len() - 2).push(
                binary_term(p, before[before.len() - 2], before[before.len() - 1]),
            ) =~= done + reduced(terms, ops, k + 1));
        }
    }
}


/// Feeding a written expression leaves the stack as it was and adds the
/// expression's term to what the output folds to.
proof fn lemma_written(w: Written, yard: Yard, done: Seq<Term>)
    requires
        well_written(w),
        holds(yard, done),
    ensures
        fed(yard, written_tokens(w)).stack == yard.stack,
        holds(fed(yard, written_tokens(w)), done.push(written_term(w))),
    decreases w, 0nat,
{
    match w {
        Written::Operand(t) => {
            lemma_fed_push(yard, Seq::empty(), t);
            assert(Seq::<SpecToken>::empty().push(t) =~= seq![t]);
            lemma_fold_operand(yard.output, done, t);
        },
        Written::Group(parts, ops) => {
            let k = ops.len();
            let inner = sum_tokens(parts, ops, k);
            let terms = part_terms(parts);
            let opened = yard.push(SpecToken::LParen);
            lemma_fed_push(yard, Seq::empty(), SpecToken::LParen);
            assert(Seq::<SpecToken>::empty().push(SpecToken::LParen) =~= seq![SpecToken::LParen]);
            assert(fed(yard, seq![SpecToken::LParen]) == opened);
            lemma_fed_concat(yard, seq![SpecToken::LParen], inner);
            lemma_sum(parts, ops, k, opened, done);
            let filled = fed(opened, inner);
            lemma_fed_push(yard, seq![SpecToken::LParen] + inner, SpecToken::RParen);
            assert((seq![SpecToken::LParen] + inner).push(SpecToken::RParen) =~= written_tokens(w));
            let closed = filled.feed(SpecToken::RParen);
            assert(closed == filled.place(SpecToken::RParen));
            lemma_waiting(ops, k);
            lemma_place_closing(filled, yard.stack, waiting(ops, k));
            lemma_unload_waiting(opened.stack, done, terms, ops, k, filled);
            reveal_with_fuel(unloaded, 3);
            assert(closed.output == unloaded(filled, waiting(ops, k).len()).output);
        },
    }
}

/// Feeding `x0 op0 x1 ... xk` to a yard whose stack has a floor brings the
/// yard into shape.
proof fn lemma_sum(
    parts: Seq<Written>,
    ops: Seq<BinaryOp>,
    k: nat,
    base: Yard,
    done: Seq<Term>,
)
    requires
        well_written_sum(parts, ops),
        k <= ops.len(),
        floor(base.stack),
        holds(base, done),
    ensures
        in_shape(
            base.stack,
            done,
            part_terms(parts),
            ops,
            k,
            fed(base, sum_tokens(parts, ops, k)),
        ),
    decreases parts, k,
{
    let terms = part_terms(parts);
    if k == 0 {
        lemma_written(parts[0], base, done);
        assert(base.stack + waiting(ops, 0) =~= base.stack);
        assert(done.push(written_term(parts[0])) =~= done + settled(terms, ops, 0));
    } else {
        let h = (k - 1) as nat;
        let front = sum_tokens(parts, ops, h);
        let t = sign_token(ops[h as int]);
        let last = written_tokens(parts[k as int]);
        lemma_sum(parts, ops, h, base, done);
        let yard = fed(base, front);
        lemma_fed_concat(base, front.push(t), last);
        lemma_fed_push(base, front, t);
        let placed = yard.feed(t);
        lemma_after_operator(base.stack, done, terms, ops, h, yard);
        lemma_written(parts[k as int], placed, done + reduced(terms, ops, k));
        assert((done + reduced(terms, ops, k)).push(written_term(parts[k as int])) =~= done
            + settled(terms, ops, k));
    }
}

/// A written expression has a token.
proof fn lemma_tokens_exist(parts: Seq<Written>, ops: Seq<BinaryOp>, k: nat)
    requires
        k < parts.len(),
    ensures
        sum_tokens(parts, ops, k).len() > 0,
{
    let last = written_tokens(parts[k as int]);
    match parts[k as int] {
        Written::Operand(t) => {
            assert(last == seq![t]);
            assert(last.len() == 1);
        },
        Written::Group(inner, signs) => {
            assert(last == seq![SpecToken::LParen] + sum_tokens(inner, signs, signs.len())
                + seq![SpecToken::RParen]);
            assert(last.len() >= 2);
        },
    }
    if k > 0 {
        assert(sum_tokens(parts, ops, k) == sum_tokens(parts, ops, (k - 1) as nat).push(
            sign_token(ops[k - 1]),
        ) + last);
    }
}

/// Arithmetic parses as it is read: the tokens of a well-formed expression
/// of operands, `+`, `-`, `*`, `/`, `%` and parentheses give the one term in
/// which what stands in parentheses is an operand, `*`, `/` and `%` bind
/// their neighbours before `+` and `-` do, and operators of one tier group
/// from the left.
pub proof fn law_arithmetic_parses_as_read(parts: Seq<Written>, ops: Seq<BinaryOp>)
    requires
        well_written_sum(parts, ops),
    ensures
        expression(sum_tokens(parts, ops, ops.len())) == Ok::<_, ParseError>(
            Term::Block(seq![sum_of_products(part_terms(parts), ops, ops.len())]),
        ),
{
    let k = ops.len();
    let tokens = sum_tokens(parts, ops, k);
    let terms = part_terms(parts);
    let base = Yard::empty();
    let done = Seq::<Term>::empty();
    lemma_tokens_exist(parts, ops, k);
    lemma_yard_after_is_fed(tokens, tokens.len());
    assert(tokens.subrange(0, tokens.len() as int) =~= tokens);
    lemma_sum(parts, ops, k, base, done);
    let yard = yard_after(tokens, tokens.len());
    lemma_unload_waiting(base.stack, done, terms, ops, k, yard);
    lemma_waiting(ops, k);
    let rest = unloaded(yard, waiting(ops, k).len());
    assert(yard.drain() == rest.output) by {
        reveal_with_fuel(unloaded, 3);
        reveal_with_fuel(Yard::drain, 3);
        assert(yard.stack =~= waiting(ops, k));
        if waiting(ops, k).len() >= 1 {
            assert(yard.unload().stack =~= yard.stack.drop_last());
        }
    }
    lemma_plain_stays(rest.output);
    assert(done.push(sum_of_products(terms, ops, k)) =~= seq![sum_of_products(terms, ops, k)]);
}


/// Where every operator is additive, the sum of products is the chain.
proof fn lemma_sum_is_chain(terms: Seq<Term>, ops: Seq<BinaryOp>, k: nat)
    requires
        k <= ops.len(),
        forall|i: int| 0 <= i < ops.len() ==> (#[trigger] ops[i]).is_additive(),
    ensures
        sum_of_products(terms, ops, k) == chain(terms, ops, 0, k),
    decreases k,
{
    if k > 0 {
        lemma_sum_is_chain(terms, ops, (k - 1) as nat);
        assert(ops[k - 1].is_additive());
        assert(last_product(ops, k) == k);
        assert(chain(terms, ops, k, k) == terms[k as int]);
    }
}

/// Sums group from the left: a well-formed expression whose operators, those
/// inside parentheses aside, are `+` and `-` parses to
/// `((x0 op0 x1) op1 x2) ... xn`, so `a - b + c` is `(a - b) + c` and never
/// `a - (b + c)`.
pub proof fn law_sums_group_left(parts: Seq<Written>, ops: Seq<BinaryOp>)
    requires
        well_written_sum(parts, ops),
        forall|i: int| 0 <= i < ops.len() ==> (#[trigger] ops[i]).is_additive(),
    ensures
        expression(sum_tokens(parts, ops, ops.len())) == Ok::<_, ParseError>(
            Term::Block(seq![chain(part_terms(parts), ops, 0, ops.len())]),
        ),
{
    law_arithmetic_parses_as_read(parts, ops);
    lemma_sum_is_chain(part_terms(parts), ops, ops.len());
}

/// A product before a sum and a sum before a product: `a * b + c` parses to
/// `(a * b) + c` and `a + b * c` to `a + (b * c)`, for every additive
/// operator in the place of `+`, every multiplicative one in the place of
/// `*`, and all operands, be they tokens or in parentheses.
pub proof fn law_products_bind_tighter(
    a: Written,
    b: Written,
    c: Written,
    plus: BinaryOp,
    times: BinaryOp,
)
    requires
        well_written(a),
        well_written(b),
        well_written(c),
        plus.is_additive(),
        times.is_multiplicative(),
    ensures
        expression(sum_tokens(seq![a, b, c], seq![times, plus], 2)) == Ok::<_, ParseError>(
            Term::Block(
                seq![
                    binary_term(
                        plus,
                        binary_term(times, written_term(a), written_term(b)),
                        written_term(c),
                    ),
                ],
            ),
        ),
        expression(sum_tokens(seq![a, b, c], seq![plus, times], 2)) == Ok::<_, ParseError>(
            Term::Block(
                seq![
                    binary_term(
                        plus,
                        written_term(a),
                        binary_term(times, written_term(b), written_term(c)),
                    ),
                ],
            ),
        ),
{
    let parts = seq![a, b, c];
    let terms = part_terms(parts);
    assert(terms[0] == written_term(a));
    assert(terms[1] == written_term(b));
    assert(terms[2] == written_term(c));
    reveal_with_fuel(last_product, 3);
    reveal_with_fuel(chain, 3);
    reveal_with_fuel(sum_of_products, 3);
    let first = seq![times, plus];
    assert(well_written_sum(parts, first));
    law_arithmetic_parses_as_read(parts, first);
    assert(last_product(first, 2) == 2);
    assert(last_product(first, 1) == 0);
    assert(sum_of_products(terms, first, 2) == binary_term(
        plus,
        binary_term(times, written_term(a), written_term(b)),
        written_term(c),
    ));
    let second = seq![plus, times];
    assert(well_written_sum(parts, second));
    law_arithmetic_parses_as_read(parts, second);
    assert(last_product(second, 2) == 1);
    assert(sum_of_products(terms, second, 2) == binary_term(
        plus,
        written_term(a),
        binary_term(times, written_term(b), written_term(c)),
    ));
}

} // verus!
