//! What holds of every evaluation.

use crate::ast::{Atom, BinaryOp, Decimal, Expr, FunctionCall, UnaryOp};
use crate::ast::atom::is_decimal;
use crate::ast::Tree;
use crate::parser::expected::Frontier;
use crate::parser::grammar::Rule;
use crate::parser::laws::law_decimal_parses;
use crate::symbols::{defined, defined_all, SymbolError};
use crate::visitor::arithmetic::Arithmetic;
use crate::visitor::semantics::{
    appends, applies_binary, applies_function, applies_unary, callable, evaluates, evaluates_all,
    evaluates_function, invokes, Env, EvalError,
};
use vstd::prelude::*;

verus! {

/// No function can be called where none is bound.
pub proof fn law_callable_empty<V, F: Fn(Vec<V>) -> V>()
    ensures
        callable::<V, F>(Map::<Seq<char>, F>::empty()),
{
}

/// Defining a function that can be called on any list of values keeps every
/// bound function callable.
pub proof fn law_callable_defined<V, F: Fn(Vec<V>) -> V>(
    functions: Map<Seq<char>, F>,
    name: Seq<char>,
    value: F,
)
    requires
        callable::<V, F>(functions),
        forall|argv: Vec<V>| call_requires(value, (argv,)),
    ensures
        callable::<V, F>(defined(functions, name, value).0),
{
}

/// Defining functions that can each be called on any list of values keeps
/// every bound function callable.
pub proof fn law_callable_defined_all<V, F: Fn(Vec<V>) -> V>(
    functions: Map<Seq<char>, F>,
    bindings: Seq<(Seq<char>, F)>,
    count: nat,
)
    requires
        callable::<V, F>(functions),
        count <= bindings.len(),
        forall|i: int, argv: Vec<V>|
            0 <= i < bindings.len() ==> #[trigger] call_requires(bindings[i].1, (argv,)),
    ensures
        callable::<V, F>(defined_all(functions, bindings, count).0),
    decreases count,
{
    if count > 0 {
        law_callable_defined_all::<V, F>(functions, bindings, (count - 1) as nat);
        let before = defined_all(functions, bindings, (count - 1) as nat);
        if before.1 is Ok {
            law_callable_defined::<V, F>(before.0, bindings[count - 1].0, bindings[count - 1].1);
        }
    }
}

/// A literal evaluates to what the arithmetic makes of it, and to nothing
/// else: it cannot fail.
pub proof fn law_literal<V, F: Fn(Vec<V>) -> V, A: Arithmetic<V>>(
    env: Env<V, F, A>,
    number: Decimal,
    out: Result<V, EvalError>,
)
    ensures
        evaluates(env, Expr::Atom(Atom::Number(number)), out) <==> out is Ok && call_ensures(
            A::literal,
            (&env.arithmetic, &number),
            out->Ok_0,
        ),
{
}

/// A literal keeps its value from the text to the stack: the text of a
/// decimal literal parses as a number, and whatever that number evaluates to
/// is what the arithmetic makes of a literal with exactly that text.
pub proof fn law_literal_round_trip<V, F: Fn(Vec<V>) -> V, A: Arithmetic<V>>(
    env: Env<V, F, A>,
    text: Seq<char>,
    e: Expr,
    out: Result<V, EvalError>,
)
    requires
        is_decimal(text),
        Rule::Number.parse(text) == Ok::<Tree, Frontier>(e@),
        evaluates(env, e, out),
    ensures
        out is Ok,
        exists|number: Decimal|
            number@ == text && #[trigger] call_ensures(
                A::literal,
                (&env.arithmetic, &number),
                out->Ok_0,
            ),
{
    law_decimal_parses(text);
    match e {
        Expr::Atom(Atom::Number(number)) => {
            assert(number@ == text);
            assert(call_ensures(A::literal, (&env.arithmetic, &number), out->Ok_0));
        },
        _ => {},
    }
}

/// A bound variable evaluates to the value it is bound to; an unbound one
/// fails with the lookup error, whatever else is bound.
pub proof fn law_variable<V, F: Fn(Vec<V>) -> V, A: Arithmetic<V>>(
    env: Env<V, F, A>,
    name: String,
    out: Result<V, EvalError>,
)
    requires
        evaluates(env, Expr::Atom(Atom::Ident(name)), out),
    ensures
        env.variables.contains_key(name@) ==> out == Ok::<V, EvalError>(env.variables[name@]),
        !env.variables.contains_key(name@) ==> out == Err::<V, EvalError>(
            EvalError::Symbol(SymbolError::UnDefinition),
        ),
{
}

/// The values of arguments stand in the order of the arguments: where the
/// first `count` of `list` come out as `values`, there are `count` values,
/// and each is a value of the argument at its place.
pub proof fn law_argument_order<V, F: Fn(Vec<V>) -> V, A: Arithmetic<V>>(
    env: Env<V, F, A>,
    list: Seq<Expr>,
    count: nat,
    values: Seq<V>,
)
    requires
        evaluates_all(env, list, count, Ok(values)),
    ensures
        count <= list.len(),
        values.len() == count,
        forall|i: int|
            0 <= i < count ==> evaluates(env, #[trigger] list[i], Ok::<V, EvalError>(values[i])),
    decreases count,
{
    if count > 0 {
        let (before, next): (Result<Seq<V>, EvalError>, Result<V, EvalError>) = choose|
            before: Result<Seq<V>, EvalError>,
            next: Result<V, EvalError>,
        |
            #![trigger appends(before, next, Ok::<Seq<V>, EvalError>(values))]
            evaluates_all(env, list, (count - 1) as nat, before) && (before is Ok ==> evaluates(
                env,
                list[count - 1],
                next,
            )) && appends(before, next, Ok::<Seq<V>, EvalError>(values));
        let earlier = before->Ok_0;
        law_argument_order(env, list, (count - 1) as nat, earlier);
        assert(values == earlier.push(next->Ok_0));
    }
}

/// A call hands the function the values of its arguments in source order:
/// where a call comes out as a value, its arguments came out as values, one
/// for each and in their order, and the value is a result of the bound
/// function on exactly that list.
pub proof fn law_call<V, F: Fn(Vec<V>) -> V, A: Arithmetic<V>>(
    env: Env<V, F, A>,
    f: FunctionCall,
    value: V,
)
    requires
        evaluates_function(env, f, Ok(value)),
    ensures
        env.functions.contains_key(f.name@),
        exists|values: Seq<V>|
            {
                &&& #[trigger] invokes(env.functions[f.name@], values, value)
                &&& values.len() == f.args@.len()
                &&& forall|i: int|
                    0 <= i < f.args@.len() ==> evaluates(
                        env,
                        #[trigger] f.args@[i],
                        Ok::<V, EvalError>(values[i]),
                    )
            },
{
    let args: Result<Seq<V>, EvalError> = choose|args: Result<Seq<V>, EvalError>|
        #![trigger applies_function(env, f.name@, args, Ok::<V, EvalError>(value))]
        evaluates_all(env, f.args@, f.args@.len(), args) && applies_function(
            env,
            f.name@,
            args,
            Ok::<V, EvalError>(value),
        );
    let values = args->Ok_0;
    law_argument_order(env, f.args@, f.args@.len(), values);
    assert(invokes(env.functions[f.name@], values, value));
}

/// A call of a function that is not bound fails: with the failure of the
/// first argument that fails, else with the lookup error.
pub proof fn law_unbound_function<V, F: Fn(Vec<V>) -> V, A: Arithmetic<V>>(
    env: Env<V, F, A>,
    f: FunctionCall,
    out: Result<V, EvalError>,
)
    requires
        !env.functions.contains_key(f.name@),
        evaluates_function(env, f, out),
    ensures
        out is Err,
        out == Err::<V, EvalError>(EvalError::Symbol(SymbolError::UnDefinition)) || evaluates_all(
            env,
            f.args@,
            f.args@.len(),
            Err::<Seq<V>, EvalError>(out->Err_0),
        ),
{
    let args: Result<Seq<V>, EvalError> = choose|args: Result<Seq<V>, EvalError>|
        #![trigger applies_function(env, f.name@, args, out)]
        evaluates_all(env, f.args@, f.args@.len(), args) && applies_function(
            env,
            f.name@,
            args,
            out,
        );
    assert(applies_function(env, f.name@, args, out));
}

/// Whether `e` can be evaluated without fail: every name it uses is bound,
/// and it holds no factorial.
pub open spec fn closed<V, F: Fn(Vec<V>) -> V, A: Arithmetic<V>>(env: Env<V, F, A>, e: Expr) -> bool
    decreases e,
{
    match e {
        Expr::Atom(Atom::Ident(name)) => env.variables.contains_key(name@),
        Expr::Atom(Atom::Number(_)) => true,
        Expr::UnaryArithmetic(u) => u.op != UnaryOp::Fac && closed(env, u.value),
        Expr::BinaryArithmetic(b) => closed(env, b.lhs) && closed(env, b.rhs),
        Expr::FunctionCall(f) => env.functions.contains_key(f.name@) && forall|i: int|
            0 <= i < f.args@.len() ==> closed(env, #[trigger] f.args@[i]),
    }
}

/// Arguments that can each be evaluated without fail come out as values.
pub proof fn lemma_closed_arguments<V, F: Fn(Vec<V>) -> V, A: Arithmetic<V>>(
    env: Env<V, F, A>,
    list: Seq<Expr>,
    count: nat,
    out: Result<Seq<V>, EvalError>,
)
    requires
        forall|i: int| 0 <= i < list.len() ==> closed(env, #[trigger] list[i]),
        evaluates_all(env, list, count, out),
    ensures
        out is Ok,
    decreases list, count,
{
    if count > 0 {
        let (before, next): (Result<Seq<V>, EvalError>, Result<V, EvalError>) = choose|
            before: Result<Seq<V>, EvalError>,
            next: Result<V, EvalError>,
        |
            #![trigger appends(before, next, out)]
            evaluates_all(env, list, (count - 1) as nat, before) && (before is Ok ==> evaluates(
                env,
                list[count - 1],
                next,
            )) && appends(before, next, out);
        lemma_closed_arguments(env, list, (count - 1) as nat, before);
        law_closed_succeeds(env, list[count - 1], next);
    }
}

/// An expression all of whose names are bound, and which holds no factorial,
/// does not fail: whatever it evaluates to is a value.
pub proof fn law_closed_succeeds<V, F: Fn(Vec<V>) -> V, A: Arithmetic<V>>(
    env: Env<V, F, A>,
    e: Expr,
    out: Result<V, EvalError>,
)
    requires
        closed(env, e),
        evaluates(env, e, out),
    ensures
        out is Ok,
    decreases e,
{
    match e {
        Expr::Atom(_) => {},
        Expr::UnaryArithmetic(u) => {
            let operand: Result<V, EvalError> = choose|operand: Result<V, EvalError>|
                #![trigger applies_unary(env, u.op, operand, out)]
                evaluates(env, u.value, operand) && applies_unary(env, u.op, operand, out);
            law_closed_succeeds(env, u.value, operand);
        },
        Expr::BinaryArithmetic(b) => {
            let (lhs, rhs): (Result<V, EvalError>, Result<V, EvalError>) = choose|
                lhs: Result<V, EvalError>,
                rhs: Result<V, EvalError>,
            |
                #![trigger applies_binary(env, b.op, lhs, rhs, out)]
                evaluates(env, b.lhs, lhs) && (lhs is Ok ==> evaluates(env, b.rhs, rhs))
                    && applies_binary(env, b.op, lhs, rhs, out);
            law_closed_succeeds(env, b.lhs, lhs);
            law_closed_succeeds(env, b.rhs, rhs);
        },
        Expr::FunctionCall(f) => {
            let args: Result<Seq<V>, EvalError> = choose|args: Result<Seq<V>, EvalError>|
                #![trigger applies_function(env, f.name@, args, out)]
                evaluates_all(env, f.args@, f.args@.len(), args) && applies_function(
                    env,
                    f.name@,
                    args,
                    out,
                );
            lemma_closed_arguments(env, f.args@, f.args@.len(), args);
        },
    }
}

/// Whether the arithmetic and the bound functions each return one result
/// only on one input.
pub open spec fn deterministic<V, F: Fn(Vec<V>) -> V, A: Arithmetic<V>>(env: Env<V, F, A>) -> bool {
    &&& forall|number: Decimal, a: V, b: V|
        #![trigger call_ensures(A::literal, (&env.arithmetic, &number), a), call_ensures(A::literal, (&env.arithmetic, &number), b)]
        call_ensures(A::literal, (&env.arithmetic, &number), a) && call_ensures(
            A::literal,
            (&env.arithmetic, &number),
            b,
        ) ==> a == b
    &&& forall|value: V, a: V, b: V|
        #![trigger call_ensures(A::negate, (&env.arithmetic, value), a), call_ensures(A::negate, (&env.arithmetic, value), b)]
        call_ensures(A::negate, (&env.arithmetic, value), a) && call_ensures(
            A::negate,
            (&env.arithmetic, value),
            b,
        ) ==> a == b
    &&& forall|value: V, a: u64, b: u64|
        #![trigger call_ensures(A::truncate, (&env.arithmetic, value), a), call_ensures(A::truncate, (&env.arithmetic, value), b)]
        call_ensures(A::truncate, (&env.arithmetic, value), a) && call_ensures(
            A::truncate,
            (&env.arithmetic, value),
            b,
        ) ==> a == b
    &&& forall|n: u64, a: V, b: V|
        #![trigger call_ensures(A::integer, (&env.arithmetic, n), a), call_ensures(A::integer, (&env.arithmetic, n), b)]
        call_ensures(A::integer, (&env.arithmetic, n), a) && call_ensures(
            A::integer,
            (&env.arithmetic, n),
            b,
        ) ==> a == b
    &&& forall|op: BinaryOp, lhs: V, rhs: V, a: V, b: V|
        #![trigger call_ensures(A::binary, (&env.arithmetic, op, lhs, rhs), a), call_ensures(A::binary, (&env.arithmetic, op, lhs, rhs), b)]
        call_ensures(A::binary, (&env.arithmetic, op, lhs, rhs), a) && call_ensures(
            A::binary,
            (&env.arithmetic, op, lhs, rhs),
            b,
        ) ==> a == b
    &&& forall|name: Seq<char>, values: Seq<V>, a: V, b: V|
        #![trigger invokes(env.functions[name], values, a), invokes(env.functions[name], values, b)]
        env.functions.contains_key(name) && invokes(env.functions[name], values, a) && invokes(
            env.functions[name],
            values,
            b,
        ) ==> a == b
}

/// With a deterministic arithmetic and deterministic functions, the first
/// arguments of a list have one outcome only.
pub proof fn lemma_one_outcome_of_all<V, F: Fn(Vec<V>) -> V, A: Arithmetic<V>>(
    env: Env<V, F, A>,
    list: Seq<Expr>,
    count: nat,
    a: Result<Seq<V>, EvalError>,
    b: Result<Seq<V>, EvalError>,
)
    requires
        deterministic(env),
        evaluates_all(env, list, count, a),
        evaluates_all(env, list, count, b),
    ensures
        a == b,
    decreases list, count,
{
    if count > 0 {
        let (before_a, next_a): (Result<Seq<V>, EvalError>, Result<V, EvalError>) = choose|
            before: Result<Seq<V>, EvalError>,
            next: Result<V, EvalError>,
        |
            #![trigger appends(before, next, a)]
            evaluates_all(env, list, (count - 1) as nat, before) && (before is Ok ==> evaluates(
                env,
                list[count - 1],
                next,
            )) && appends(before, next, a);
        let (before_b, next_b): (Result<Seq<V>, EvalError>, Result<V, EvalError>) = choose|
            before: Result<Seq<V>, EvalError>,
            next: Result<V, EvalError>,
        |
            #![trigger appends(before, next, b)]
            evaluates_all(env, list, (count - 1) as nat, before) && (before is Ok ==> evaluates(
                env,
                list[count - 1],
                next,
            )) && appends(before, next, b);
        lemma_one_outcome_of_all(env, list, (count - 1) as nat, before_a, before_b);
        if before_a is Ok {
            law_one_outcome(env, list[count - 1], next_a, next_b);
        }
    }
}

/// With a deterministic arithmetic and deterministic functions, evaluation
/// is a function of the tree: an expression has one outcome only.
pub proof fn law_one_outcome<V, F: Fn(Vec<V>) -> V, A: Arithmetic<V>>(
    env: Env<V, F, A>,
    e: Expr,
    a: Result<V, EvalError>,
    b: Result<V, EvalError>,
)
    requires
        deterministic(env),
        evaluates(env, e, a),
        evaluates(env, e, b),
    ensures
        a == b,
    decreases e,
{
    match e {
        Expr::Atom(_) => {},
        Expr::UnaryArithmetic(u) => {
            let operand_a: Result<V, EvalError> = choose|operand: Result<V, EvalError>|
                #![trigger applies_unary(env, u.op, operand, a)]
                evaluates(env, u.value, operand) && applies_unary(env, u.op, operand, a);
            let operand_b: Result<V, EvalError> = choose|operand: Result<V, EvalError>|
                #![trigger applies_unary(env, u.op, operand, b)]
                evaluates(env, u.value, operand) && applies_unary(env, u.op, operand, b);
            law_one_outcome(env, u.value, operand_a, operand_b);
        },
        Expr::BinaryArithmetic(node) => {
            let (lhs_a, rhs_a): (Result<V, EvalError>, Result<V, EvalError>) = choose|
                lhs: Result<V, EvalError>,
                rhs: Result<V, EvalError>,
            |
                #![trigger applies_binary(env, node.op, lhs, rhs, a)]
                evaluates(env, node.lhs, lhs) && (lhs is Ok ==> evaluates(env, node.rhs, rhs))
                    && applies_binary(env, node.op, lhs, rhs, a);
            let (lhs_b, rhs_b): (Result<V, EvalError>, Result<V, EvalError>) = choose|
                lhs: Result<V, EvalError>,
                rhs: Result<V, EvalError>,
            |
                #![trigger applies_binary(env, node.op, lhs, rhs, b)]
                evaluates(env, node.lhs, lhs) && (lhs is Ok ==> evaluates(env, node.rhs, rhs))
                    && applies_binary(env, node.op, lhs, rhs, b);
            law_one_outcome(env, node.lhs, lhs_a, lhs_b);
            if lhs_a is Ok {
                law_one_outcome(env, node.rhs, rhs_a, rhs_b);
            }
        },
        Expr::FunctionCall(f) => {
            let args_a: Result<Seq<V>, EvalError> = choose|args: Result<Seq<V>, EvalError>|
                #![trigger applies_function(env, f.name@, args, a)]
                evaluates_all(env, f.args@, f.args@.len(), args) && applies_function(
                    env,
                    f.name@,
                    args,
                    a,
                );
            let args_b: Result<Seq<V>, EvalError> = choose|args: Result<Seq<V>, EvalError>|
                #![trigger applies_function(env, f.name@, args, b)]
                evaluates_all(env, f.args@, f.args@.len(), args) && applies_function(
                    env,
                    f.name@,
                    args,
                    b,
                );
            lemma_one_outcome_of_all(env, f.args@, f.args@.len(), args_a, args_b);
        },
    }
}

} // verus!
