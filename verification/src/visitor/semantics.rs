//! What it means to evaluate a tree.
//!
//! The outcome of an evaluation is a value or a failure. What values the
//! arithmetic and the bound functions return is theirs to say, and they need
//! not say the same twice; so evaluation is a relation between a tree and its
//! possible outcomes, built from what each call may return.

use crate::ast::{Atom, BinaryArithmetic, BinaryOp, Expr, FunctionCall, UnaryArithmetic, UnaryOp};
use crate::symbols::{looked_up, SymbolError};
use crate::visitor::arithmetic::Arithmetic;
use vstd::prelude::*;

verus! {

/// The product of the numbers from 1 to `n`; 1 where there are none.
pub open spec fn factorial_of(n: nat) -> nat
    decreases n,
{
    if n == 0 {
        1
    } else {
        n * factorial_of((n - 1) as nat)
    }
}

/// The largest number whose factorial fits in 64 bits.
pub const FACTORIAL_LIMIT: u64 = 20;

/// Why an evaluation failed.
#[derive(Debug, PartialEq, Eq, Clone, Copy, Structural)]
pub enum EvalError {
    /// A lookup failed: the expression uses a name that is not bound.
    Symbol(SymbolError),
    /// The operand of a factorial is above [`FACTORIAL_LIMIT`].
    FactorialOverflow,
}

/// What an evaluation depends on beside the tree: the arithmetic and the two
/// namespaces.
pub struct Env<V, F, A> {
    /// What computes with the numbers.
    pub arithmetic: A,
    /// The values of the variables, by name.
    pub variables: Map<Seq<char>, V>,
    /// The functions, by name.
    pub functions: Map<Seq<char>, F>,
}

/// What a lookup in a namespace gives to an evaluation.
pub open spec fn found<T>(table: Map<Seq<char>, T>, name: Seq<char>) -> Result<T, EvalError> {
    match looked_up(table, name) {
        Ok(value) => Ok(value),
        Err(error) => Err(EvalError::Symbol(error)),
    }
}

/// Whether `out` is a possible outcome of evaluating `e`.
pub open spec fn evaluates<V, F: Fn(Vec<V>) -> V, A: Arithmetic<V>>(
    env: Env<V, F, A>,
    e: Expr,
    out: Result<V, EvalError>,
) -> bool
    decreases e, 0nat,
{
    match e {
        Expr::UnaryArithmetic(u) => evaluates_unary(env, *u, out),
        Expr::BinaryArithmetic(b) => evaluates_binary(env, *b, out),
        Expr::FunctionCall(f) => evaluates_function(env, f, out),
        Expr::Atom(a) => evaluates_atom(env, a, out),
    }
}

/// Whether `out` is a possible outcome of evaluating a leaf: a literal has
/// the value that the arithmetic gives it, a name the value it is bound to.
pub open spec fn evaluates_atom<V, F: Fn(Vec<V>) -> V, A: Arithmetic<V>>(
    env: Env<V, F, A>,
    a: Atom,
    out: Result<V, EvalError>,
) -> bool {
    match a {
        Atom::Ident(name) => out == found(env.variables, name@),
        Atom::Number(number) => out is Ok && call_ensures(
            A::literal,
            (&env.arithmetic, &number),
            out->Ok_0,
        ),
    }
}

/// Whether `out` is a possible outcome of a factorial on the integer `n`:
/// the product of 1 to `n` where it fits, a failure where it does not.
pub open spec fn factorial_outcome<V, F: Fn(Vec<V>) -> V, A: Arithmetic<V>>(
    env: Env<V, F, A>,
    n: u64,
    out: Result<V, EvalError>,
) -> bool {
    if n > FACTORIAL_LIMIT {
        out == Err::<V, EvalError>(EvalError::FactorialOverflow)
    } else {
        out is Ok && call_ensures(
            A::integer,
            (&env.arithmetic, factorial_of(n as nat) as u64),
            out->Ok_0,
        )
    }
}

/// Whether `out` is a possible outcome of `op` on an operand that came out
/// as `operand`. A failed operand fails the whole; plus leaves the value as
/// it is; minus negates it; the factorial cuts it to an integer first.
pub open spec fn applies_unary<V, F: Fn(Vec<V>) -> V, A: Arithmetic<V>>(
    env: Env<V, F, A>,
    op: UnaryOp,
    operand: Result<V, EvalError>,
    out: Result<V, EvalError>,
) -> bool {
    match operand {
        Err(error) => out == Err::<V, EvalError>(error),
        Ok(value) => match op {
            UnaryOp::Pos => out == Ok::<V, EvalError>(value),
            UnaryOp::Neg => out is Ok && call_ensures(
                A::negate,
                (&env.arithmetic, value),
                out->Ok_0,
            ),
            UnaryOp::Fac => exists|n: u64|
                #![trigger call_ensures(A::truncate, (&env.arithmetic, value), n)]
                call_ensures(A::truncate, (&env.arithmetic, value), n) && factorial_outcome(
                    env,
                    n,
                    out,
                ),
        },
    }
}

/// Whether `out` is a possible outcome of evaluating a unary node.
pub open spec fn evaluates_unary<V, F: Fn(Vec<V>) -> V, A: Arithmetic<V>>(
    env: Env<V, F, A>,
    u: UnaryArithmetic,
    out: Result<V, EvalError>,
) -> bool
    decreases u, 0nat,
{
    exists|operand: Result<V, EvalError>|
        #![trigger applies_unary(env, u.op, operand, out)]
        evaluates(env, u.value, operand) && applies_unary(env, u.op, operand, out)
}

/// Whether `out` is a possible outcome of `op` between operands that came
/// out as `lhs` and `rhs`. The first failure is the outcome; after a failed
/// left operand the right one does not count.
pub open spec fn applies_binary<V, F: Fn(Vec<V>) -> V, A: Arithmetic<V>>(
    env: Env<V, F, A>,
    op: BinaryOp,
    lhs: Result<V, EvalError>,
    rhs: Result<V, EvalError>,
    out: Result<V, EvalError>,
) -> bool {
    match lhs {
        Err(error) => out == Err::<V, EvalError>(error),
        Ok(left) => match rhs {
            Err(error) => out == Err::<V, EvalError>(error),
            Ok(right) => out is Ok && call_ensures(
                A::binary,
                (&env.arithmetic, op, left, right),
                out->Ok_0,
            ),
        },
    }
}

/// Whether `out` is a possible outcome of evaluating a binary node: the left
/// operand first, then, unless that failed, the right, then the operator on
/// both in that order.
pub open spec fn evaluates_binary<V, F: Fn(Vec<V>) -> V, A: Arithmetic<V>>(
    env: Env<V, F, A>,
    b: BinaryArithmetic,
    out: Result<V, EvalError>,
) -> bool
    decreases b, 0nat,
{
    exists|lhs: Result<V, EvalError>, rhs: Result<V, EvalError>|
        #![trigger applies_binary(env, b.op, lhs, rhs, out)]
        evaluates(env, b.lhs, lhs) && (lhs is Ok ==> evaluates(env, b.rhs, rhs))
            && applies_binary(env, b.op, lhs, rhs, out)
}

/// Whether `out` is what values that came out as `before` make with one more
/// that came out as `next`: the values with the new one after them, or the
/// first failure.
pub open spec fn appends<V>(
    before: Result<Seq<V>, EvalError>,
    next: Result<V, EvalError>,
    out: Result<Seq<V>, EvalError>,
) -> bool {
    match before {
        Err(error) => out == Err::<Seq<V>, EvalError>(error),
        Ok(values) => match next {
            Err(error) => out == Err::<Seq<V>, EvalError>(error),
            Ok(value) => out == Ok::<Seq<V>, EvalError>(values.push(value)),
        },
    }
}

/// Whether `out` is a possible outcome of evaluating the first `count` of
/// `list` from left to right: their values in the same order, or the first
/// failure.
pub open spec fn evaluates_all<V, F: Fn(Vec<V>) -> V, A: Arithmetic<V>>(
    env: Env<V, F, A>,
    list: Seq<Expr>,
    count: nat,
    out: Result<Seq<V>, EvalError>,
) -> bool
    decreases list, count,
{
    if count == 0 {
        out == Ok::<Seq<V>, EvalError>(Seq::empty())
    } else if count > list.len() {
        false
    } else {
        exists|before: Result<Seq<V>, EvalError>, next: Result<V, EvalError>|
            #![trigger appends(before, next, out)]
            evaluates_all(env, list, (count - 1) as nat, before) && (before is Ok ==> evaluates(
                env,
                list[count - 1],
                next,
            )) && appends(before, next, out)
    }
}

/// Whether `value` is a possible result of `function` on a list that holds
/// `values`, in that order.
pub open spec fn invokes<V, F: Fn(Vec<V>) -> V>(function: F, values: Seq<V>, value: V) -> bool {
    exists|argv: Vec<V>| #[trigger] argv@ == values && call_ensures(function, (argv,), value)
}

/// Whether `out` is a possible outcome of calling the function bound to
/// `name` on arguments that came out as `args`.
pub open spec fn applies_function<V, F: Fn(Vec<V>) -> V, A: Arithmetic<V>>(
    env: Env<V, F, A>,
    name: Seq<char>,
    args: Result<Seq<V>, EvalError>,
    out: Result<V, EvalError>,
) -> bool {
    match args {
        Err(error) => out == Err::<V, EvalError>(error),
        Ok(values) => match found(env.functions, name) {
            Err(error) => out == Err::<V, EvalError>(error),
            Ok(function) => out is Ok && invokes(function, values, out->Ok_0),
        },
    }
}

/// Whether `out` is a possible outcome of evaluating a call: the arguments
/// from left to right, then the lookup of the function, then the function on
/// the values in the order of the arguments.
pub open spec fn evaluates_function<V, F: Fn(Vec<V>) -> V, A: Arithmetic<V>>(
    env: Env<V, F, A>,
    f: FunctionCall,
    out: Result<V, EvalError>,
) -> bool
    decreases f, 0nat,
{
    exists|args: Result<Seq<V>, EvalError>|
        #![trigger applies_function(env, f.name@, args, out)]
        evaluates_all(env, f.args@, f.args@.len(), args) && applies_function(
            env,
            f.name@,
            args,
            out,
        )
}

/// A failure among the first arguments is the outcome of all of them.
pub proof fn lemma_failure_stays<V, F: Fn(Vec<V>) -> V, A: Arithmetic<V>>(
    env: Env<V, F, A>,
    list: Seq<Expr>,
    from: nat,
    count: nat,
    error: EvalError,
)
    requires
        from <= count <= list.len(),
        evaluates_all(env, list, from, Err(error)),
    ensures
        evaluates_all(env, list, count, Err(error)),
    decreases count - from,
{
    if from < count {
        lemma_failure_stays(env, list, from, (count - 1) as nat, error);
        let before = Err::<Seq<V>, EvalError>(error);
        let next = arbitrary::<Result<V, EvalError>>();
        assert(appends(before, next, before));
    }
}

/// Whether every function of `functions` can be called on any list of
/// values.
pub open spec fn callable<V, F: Fn(Vec<V>) -> V>(functions: Map<Seq<char>, F>) -> bool {
    forall|name: Seq<char>, argv: Vec<V>|
        functions.contains_key(name) ==> #[trigger] call_requires(functions[name], (argv,))
}

} // verus!
