//! The interpreter: a stack machine over a tree.

use crate::ast::{Atom, BinaryArithmetic, Expr, FunctionCall, Tree, UnaryArithmetic, UnaryOp};
use crate::symbols::{defined, defined_all, named, SymbolError, SymbolTable};
use crate::visitor::arithmetic::Arithmetic;
use crate::visitor::base::Visitor;
use crate::visitor::semantics::{
    appends, applies_binary, applies_function, applies_unary, callable, evaluates, evaluates_all,
    evaluates_atom, evaluates_binary, evaluates_function, evaluates_unary, factorial_of,
    factorial_outcome, invokes, lemma_failure_stays, Env, EvalError, FACTORIAL_LIMIT,
};
use vstd::prelude::*;

verus! {

/// The factorial grows with its argument.
pub proof fn lemma_factorial_grows(a: nat, b: nat)
    requires
        a <= b,
    ensures
        1 <= factorial_of(a) <= factorial_of(b),
    decreases b,
{
    if a < b {
        lemma_factorial_grows(a, (b - 1) as nat);
        assert(factorial_of((b - 1) as nat) <= b * factorial_of((b - 1) as nat))
            by (nonlinear_arith)
            requires
                b >= 1,
                factorial_of((b - 1) as nat) >= 1,
        ;
    } else if a > 0 {
        lemma_factorial_grows((a - 1) as nat, (a - 1) as nat);
        assert(1 <= a * factorial_of((a - 1) as nat)) by (nonlinear_arith)
            requires
                a >= 1,
                factorial_of((a - 1) as nat) >= 1,
        ;
    }
}

/// The factorial of 20 fits in 64 bits, and that of 21 does not.
pub proof fn lemma_factorial_limit()
    ensures
        factorial_of(20) == 2432902008176640000,
        factorial_of(20) <= u64::MAX,
        factorial_of(21) > u64::MAX,
{
    reveal_with_fuel(factorial_of, 22);
}

/// The product of the numbers from 1 to `num`.
pub fn factorial(num: u64) -> (product: u64)
    requires
        num <= FACTORIAL_LIMIT,
    ensures
        product == factorial_of(num as nat),
{
    let mut product: u64 = 1;
    let mut item: u64 = 0;
    while item < num
        invariant
            item <= num <= FACTORIAL_LIMIT,
            product == factorial_of(item as nat),
        decreases num - item,
    {
        item += 1;
        proof {
            lemma_factorial_grows(item as nat, 20);
            lemma_factorial_limit();
            assert(factorial_of(item as nat) == item * factorial_of((item - 1) as nat));
            assert(product * item == item * product) by (nonlinear_arith);
        }
        product = product * item;
    }
    product
}

/// Why no result could be read.
#[derive(Debug, PartialEq, Eq, Clone, Copy, Structural)]
pub enum CalculatorError {
    /// The operand stack holds nothing.
    StackEmpty,
    /// The operand stack holds more than the result.
    StackNotEmpty,
}

/// What a visit did to the operand stack: on success it pushed one value, on
/// failure it left the stack as it was.
pub open spec fn pushes<V>(before: Seq<V>, after: Seq<V>, result: Result<(), EvalError>) -> bool {
    match result {
        Ok(()) => after.len() == before.len() + 1 && after.drop_last() =~= before,
        Err(_) => after =~= before,
    }
}

/// The outcome that a visit stands for: the value on top of the stack, or the
/// failure.
pub open spec fn outcome<V>(after: Seq<V>, result: Result<(), EvalError>) -> Result<V, EvalError> {
    match result {
        Ok(()) => Ok(after.last()),
        Err(error) => Err(error),
    }
}

/// Takes the `argc` values on top of `stack` off it, one by one from the
/// top, and gives them in the order in which they were pushed.
pub fn pop_arguments<V>(stack: &mut Vec<V>, argc: usize) -> (argv: Vec<V>)
    requires
        argc <= old(stack)@.len(),
    ensures
        final(stack)@ == old(stack)@.subrange(0, old(stack)@.len() - argc),
        argv@ == old(stack)@.subrange(old(stack)@.len() - argc, old(stack)@.len() as int),
{
    let ghost whole = stack@;
    let mut popped: Vec<V> = Vec::new();
    while popped.len() < argc
        invariant
            popped@.len() <= argc <= whole.len(),
            stack@ == whole.subrange(0, whole.len() - popped@.len()),
            forall|i: int| 0 <= i < popped@.len() ==> popped@[i] == whole[whole.len() - 1 - i],
        decreases argc - popped@.len(),
    {
        match stack.pop() {
            Some(value) => popped.push(value),
            None => {},
        }
    }
    let mut argv: Vec<V> = Vec::new();
    while popped.len() > 0
        invariant
            popped@.len() + argv@.len() == argc <= whole.len(),
            forall|i: int| 0 <= i < popped@.len() ==> popped@[i] == whole[whole.len() - 1 - i],
            forall|i: int| 0 <= i < argv@.len() ==> argv@[i] == whole[whole.len() - argc + i],
        decreases popped@.len(),
    {
        match popped.pop() {
            Some(value) => argv.push(value),
            None => {},
        }
    }
    assert(argv@ =~= whole.subrange(whole.len() - argc, whole.len() as int));
    argv
}

/// The built-in constants and functions, each under the field of its name.
/// What they compute is the arithmetic's business; the interpreter binds
/// them.
pub struct Presets<V, F> {
    /// The constant `PI`.
    pub pi: V,
    /// The constant `TAU`.
    pub tau: V,
    /// The constant `E`.
    pub e: V,
    /// `log(base, x)`: the logarithm of `x` to `base`.
    pub log: F,
    /// `ln(x)`: the natural logarithm.
    pub ln: F,
    /// `log_2(x)`: the logarithm to base 2.
    pub log_2: F,
    /// `log_10(x)`: the logarithm to base 10.
    pub log_10: F,
    /// `add(a, b)`: the sum of two.
    pub add: F,
    /// `sum(..)`: the sum of any number of arguments.
    pub sum: F,
    /// `pow(x, y)`: `x` to the power of `y`.
    pub pow: F,
    /// `sqrt(x)`: the square root.
    pub sqrt: F,
    /// `max(..)`: the largest of any number of arguments.
    pub max: F,
    /// `min(..)`: the smallest of any number of arguments.
    pub min: F,
    /// `sin(x)`: the sine.
    pub sin: F,
    /// `cos(x)`: the cosine.
    pub cos: F,
    /// `tan(x)`: the tangent.
    pub tan: F,
    /// `floor(x)`: the largest integer not above `x`.
    pub floor: F,
    /// `ceil(x)`: the smallest integer not below `x`.
    pub ceil: F,
    /// `abs(x)`: the absolute value.
    pub abs: F,
}

impl<V, F> Presets<V, F> {
    /// The constants with their names, in the order in which they are
    /// defined.
    pub open spec fn constants(self) -> Seq<(Seq<char>, V)> {
        seq![("PI"@, self.pi), ("TAU"@, self.tau), ("E"@, self.e)]
    }

    /// The functions with their names, in the order in which they are
    /// defined.
    pub open spec fn functions(self) -> Seq<(Seq<char>, F)> {
        seq![
            ("log"@, self.log),
            ("ln"@, self.ln),
            ("log_2"@, self.log_2),
            ("log_10"@, self.log_10),
            ("add"@, self.add),
            ("sum"@, self.sum),
            ("pow"@, self.pow),
            ("sqrt"@, self.sqrt),
            ("max"@, self.max),
            ("min"@, self.min),
            ("sin"@, self.sin),
            ("cos"@, self.cos),
            ("tan"@, self.tan),
            ("floor"@, self.floor),
            ("ceil"@, self.ceil),
            ("abs"@, self.abs),
        ]
    }
}

/// An interpreter: two namespaces, an operand stack, and the arithmetic it
/// computes with.
///
/// Visiting a tree pushes its value. The namespaces can only grow, and only
/// between visits.
#[verifier::reject_recursive_types(V)]
#[verifier::reject_recursive_types(F)]
pub struct Calculator<V: Copy, F: Fn(Vec<V>) -> V + Copy, A: Arithmetic<V>> {
    variables: SymbolTable<V>,
    functions: SymbolTable<F>,
    operand_stack: Vec<V>,
    arithmetic: A,
}

impl<V: Copy, F: Fn(Vec<V>) -> V + Copy, A: Arithmetic<V>> Calculator<V, F, A> {
    /// What evaluations depend on.
    pub closed spec fn env(&self) -> Env<V, F, A> {
        Env {
            arithmetic: self.arithmetic,
            variables: self.variables@,
            functions: self.functions@,
        }
    }

    /// The operand stack, from the bottom up.
    pub closed spec fn stack(&self) -> Seq<V> {
        self.operand_stack@
    }

    /// An interpreter with nothing bound and nothing on its stack.
    pub fn new(arithmetic: A) -> (calculator: Self)
        ensures
            calculator.env() == (Env {
                arithmetic,
                variables: Map::<Seq<char>, V>::empty(),
                functions: Map::<Seq<char>, F>::empty(),
            }),
            calculator.stack() == Seq::<V>::empty(),
    {
        Calculator {
            variables: SymbolTable::new(),
            functions: SymbolTable::new(),
            operand_stack: Vec::new(),
            arithmetic,
        }
    }

    /// Binds the variable `name` to `value`, unless it is bound already.
    pub fn define_variable(&mut self, name: &String, value: V) -> (result: Result<
        (),
        SymbolError,
    >)
        ensures
            (final(self).env().variables, result) == defined(
                old(self).env().variables,
                name@,
                value,
            ),
            final(self).env().functions == old(self).env().functions,
            final(self).env().arithmetic == old(self).env().arithmetic,
            final(self).stack() == old(self).stack(),
    {
        self.variables.define(name.as_str(), value)
    }

    /// Binds the function `name` to `value`, unless it is bound already.
    pub fn define_function(&mut self, name: &String, value: F) -> (result: Result<
        (),
        SymbolError,
    >)
        ensures
            (final(self).env().functions, result) == defined(
                old(self).env().functions,
                name@,
                value,
            ),
            final(self).env().variables == old(self).env().variables,
            final(self).env().arithmetic == old(self).env().arithmetic,
            final(self).stack() == old(self).stack(),
    {
        self.functions.define(name.as_str(), value)
    }

    /// Defines the built-in constants, then the built-in functions, each
    /// under its name, up to the first name that is bound already.
    pub fn preset(&mut self, presets: Presets<V, F>) -> (result: Result<(), SymbolError>)
        ensures
            ({
                let constants = defined_all(
                    old(self).env().variables,
                    presets.constants(),
                    presets.constants().len(),
                );
                let functions = defined_all(
                    old(self).env().functions,
                    presets.functions(),
                    presets.functions().len(),
                );
                &&& final(self).env().variables == constants.0
                &&& constants.1 is Err ==> result == constants.1 && final(self).env().functions
                    == old(self).env().functions
                &&& constants.1 is Ok ==> result == functions.1 && final(self).env().functions
                    == functions.0
            }),
            final(self).env().arithmetic == old(self).env().arithmetic,
            final(self).stack() == old(self).stack(),
    {
        let constants = vec![("PI", presets.pi), ("TAU", presets.tau), ("E", presets.e)];
        assert(named(constants@) =~= presets.constants());
        match self.variables.define_all(constants) {
            Ok(()) => {},
            Err(error) => {
                return Err(error);
            },
        }
        let functions = vec![
            ("log", presets.log),
            ("ln", presets.ln),
            ("log_2", presets.log_2),
            ("log_10", presets.log_10),
            ("add", presets.add),
            ("sum", presets.sum),
            ("pow", presets.pow),
            ("sqrt", presets.sqrt),
            ("max", presets.max),
            ("min", presets.min),
            ("sin", presets.sin),
            ("cos", presets.cos),
            ("tan", presets.tan),
            ("floor", presets.floor),
            ("ceil", presets.ceil),
            ("abs", presets.abs),
        ];
        assert(named(functions@) =~= presets.functions());
        self.functions.define_all(functions)
    }

    /// Reads the result off the stack: the one value that it holds.
    ///
    /// Takes the top of the stack off in any case. Fails on an empty stack,
    /// and on one that held more than one value.
    pub fn result(&mut self) -> (result: Result<V, CalculatorError>)
        ensures
            final(self).env() == old(self).env(),
            old(self).stack().len() == 0 ==> result == Err::<V, CalculatorError>(
                CalculatorError::StackEmpty,
            ) && final(self).stack() == old(self).stack(),
            old(self).stack().len() == 1 ==> result == Ok::<V, CalculatorError>(
                old(self).stack()[0],
            ),
            old(self).stack().len() > 1 ==> result == Err::<V, CalculatorError>(
                CalculatorError::StackNotEmpty,
            ),
            old(self).stack().len() >= 1 ==> final(self).stack() == old(self).stack().drop_last(),
    {
        let value = match self.operand_stack.pop() {
            Some(value) => Ok(value),
            None => Err(CalculatorError::StackEmpty),
        };
        if !self.operand_stack.is_empty() {
            return Err(CalculatorError::StackNotEmpty);
        }
        value
    }
}

impl<V: Copy, F: Fn(Vec<V>) -> V + Copy, A: Arithmetic<V>> Visitor<
    Result<(), EvalError>,
> for Calculator<V, F, A> {
    /// The interpreter walks any tree, as long as the functions it may have
    /// to call can be called.
    open spec fn admits(&self, tree: Tree) -> bool {
        callable::<V, F>(self.env().functions)
    }

    /// Evaluates `e` and pushes its value.
    fn visit_expr(&mut self, e: &Expr) -> (result: Result<(), EvalError>)
        ensures
            final(self).env() == old(self).env(),
            pushes(old(self).stack(), final(self).stack(), result),
            evaluates(old(self).env(), *e, outcome(final(self).stack(), result)),
        decreases e,
    {
        match e {
            Expr::UnaryArithmetic(u) => self.visit_unary(u),
            Expr::BinaryArithmetic(b) => self.visit_binary(b),
            Expr::FunctionCall(f) => self.visit_function(f),
            Expr::Atom(a) => self.visit_atom(a),
        }
    }

    /// Evaluates the operand, takes its value off the stack and pushes what
    /// the operator makes of it. Plus leaves the value where it is.
    fn visit_unary(&mut self, u: &UnaryArithmetic) -> (result: Result<(), EvalError>)
        ensures
            final(self).env() == old(self).env(),
            pushes(old(self).stack(), final(self).stack(), result),
            evaluates_unary(old(self).env(), *u, outcome(final(self).stack(), result)),
        decreases u,
    {
        let ghost env = self.env();
        match self.visit_expr(&u.value) {
            Ok(()) => {},
            Err(error) => {
                assert(applies_unary(
                    env,
                    u.op,
                    Err::<V, EvalError>(error),
                    Err::<V, EvalError>(error),
                ));
                return Err(error);
            },
        }
        let ghost operand = Ok::<V, EvalError>(self.stack().last());
        match u.op {
            UnaryOp::Pos => {
                assert(applies_unary(env, u.op, operand, operand));
                Ok(())
            },
            UnaryOp::Neg => {
                match self.operand_stack.pop() {
                    Some(value) => {
                        let negated = self.arithmetic.negate(value);
                        self.operand_stack.push(negated);
                        assert(applies_unary(env, u.op, operand, Ok::<V, EvalError>(negated)));
                    },
                    None => {},
                }
                Ok(())
            },
            UnaryOp::Fac => {
                match self.operand_stack.pop() {
                    Some(value) => {
                        let n = self.arithmetic.truncate(value);
                        assert(call_ensures(A::truncate, (&env.arithmetic, value), n));
                        if n > FACTORIAL_LIMIT {
                            assert(factorial_outcome(
                                env,
                                n,
                                Err::<V, EvalError>(EvalError::FactorialOverflow),
                            ));
                            assert(applies_unary(
                                env,
                                u.op,
                                operand,
                                Err::<V, EvalError>(EvalError::FactorialOverflow),
                            ));
                            return Err(EvalError::FactorialOverflow);
                        }
                        let product = self.arithmetic.integer(factorial(n));
                        self.operand_stack.push(product);
                        assert(factorial_outcome(env, n, Ok::<V, EvalError>(product)));
                        assert(applies_unary(env, u.op, operand, Ok::<V, EvalError>(product)));
                    },
                    None => {},
                }
                Ok(())
            },
        }
    }

    /// Evaluates the left operand, then the right, takes both values off the
    /// stack and pushes what the operator makes of them.
    fn visit_binary(&mut self, b: &BinaryArithmetic) -> (result: Result<(), EvalError>)
        ensures
            final(self).env() == old(self).env(),
            pushes(old(self).stack(), final(self).stack(), result),
            evaluates_binary(old(self).env(), *b, outcome(final(self).stack(), result)),
        decreases b,
    {
        let ghost env = self.env();
        match self.visit_expr(&b.lhs) {
            Ok(()) => {},
            Err(error) => {
                assert(applies_binary(
                    env,
                    b.op,
                    Err::<V, EvalError>(error),
                    Err::<V, EvalError>(error),
                    Err::<V, EvalError>(error),
                ));
                return Err(error);
            },
        }
        let ghost left = Ok::<V, EvalError>(self.stack().last());
        match self.visit_expr(&b.rhs) {
            Ok(()) => {},
            Err(error) => {
                assert(applies_binary(
                    env,
                    b.op,
                    left,
                    Err::<V, EvalError>(error),
                    Err::<V, EvalError>(error),
                ));
                self.operand_stack.pop();
                return Err(error);
            },
        }
        let ghost right = Ok::<V, EvalError>(self.stack().last());
        let rhs = self.operand_stack.pop();
        let lhs = self.operand_stack.pop();
        match (lhs, rhs) {
            (Some(lhs), Some(rhs)) => {
                let value = self.arithmetic.binary(b.op, lhs, rhs);
                self.operand_stack.push(value);
                assert(applies_binary(env, b.op, left, right, Ok::<V, EvalError>(value)));
            },
            _ => {},
        }
        Ok(())
    }

    /// Evaluates the arguments from left to right, looks the function up,
    /// takes the values off the stack, and pushes what the function makes of
    /// them in the order of the arguments.
    fn visit_function(&mut self, f: &FunctionCall) -> (result: Result<(), EvalError>)
        ensures
            final(self).env() == old(self).env(),
            pushes(old(self).stack(), final(self).stack(), result),
            evaluates_function(old(self).env(), *f, outcome(final(self).stack(), result)),
        decreases f,
    {
        let ghost env = self.env();
        let ghost base = self.stack();
        let depth = self.operand_stack.len();
        let argc = f.args.len();
        let mut done: usize = 0;
        assert(self.stack().subrange(base.len() as int, self.stack().len() as int)
            =~= Seq::<V>::empty());
        while done < argc
            invariant
                done <= argc == f.args@.len(),
                self.env() == env,
                env == old(self).env(),
                base == old(self).stack(),
                depth == base.len(),
                callable::<V, F>(env.functions),
                base.is_prefix_of(self.stack()),
                self.stack().len() == base.len() + done,
                evaluates_all(
                    env,
                    f.args@,
                    done as nat,
                    Ok::<Seq<V>, EvalError>(
                        self.stack().subrange(base.len() as int, self.stack().len() as int),
                    ),
                ),
            decreases argc - done,
        {
            let ghost values = self.stack().subrange(base.len() as int, self.stack().len() as int);
            proof {
                assert(decreases_to!(f.args => f.args@));
                assert(decreases_to!(f.args@ => f.args@[done as int]));
            }
            match self.visit_expr(&f.args[done]) {
                Ok(()) => {
                    proof {
                        let value = self.stack().last();
                        let grown = self.stack().subrange(
                            base.len() as int,
                            self.stack().len() as int,
                        );
                        assert(grown =~= values.push(value));
                        assert(appends(
                            Ok::<Seq<V>, EvalError>(values),
                            Ok::<V, EvalError>(value),
                            Ok::<Seq<V>, EvalError>(grown),
                        ));
                    }
                },
                Err(error) => {
                    proof {
                        assert(appends(
                            Ok::<Seq<V>, EvalError>(values),
                            Err::<V, EvalError>(error),
                            Err::<Seq<V>, EvalError>(error),
                        ));
                        lemma_failure_stays(env, f.args@, (done + 1) as nat, argc as nat, error);
                        assert(applies_function(
                            env,
                            f.name@,
                            Err::<Seq<V>, EvalError>(error),
                            Err::<V, EvalError>(error),
                        ));
                    }
                    self.operand_stack.truncate(depth);
                    assert(self.stack() =~= base);
                    return Err(error);
                },
            }
            done += 1;
        }
        let ghost values = self.stack().subrange(base.len() as int, self.stack().len() as int);
        let function = match self.functions.get(f.name.as_str()) {
            Ok(function) => function,
            Err(error) => {
                assert(applies_function(
                    env,
                    f.name@,
                    Ok::<Seq<V>, EvalError>(values),
                    Err::<V, EvalError>(EvalError::Symbol(error)),
                ));
                self.operand_stack.truncate(depth);
                assert(self.stack() =~= base);
                return Err(EvalError::Symbol(error));
            },
        };
        let argv = pop_arguments(&mut self.operand_stack, argc);
        assert(argv@ =~= values);
        assert(self.stack() =~= base);
        let ghost args = argv;
        let value = function(argv);
        self.operand_stack.push(value);
        assert(args@ == values && call_ensures(function, (args,), value));
        assert(invokes(function, values, value));
        assert(applies_function(
            env,
            f.name@,
            Ok::<Seq<V>, EvalError>(values),
            Ok::<V, EvalError>(value),
        ));
        Ok(())
    }

    /// Pushes the value of a literal, or the value that a name is bound to.
    fn visit_atom(&mut self, a: &Atom) -> (result: Result<(), EvalError>)
        ensures
            final(self).env() == old(self).env(),
            pushes(old(self).stack(), final(self).stack(), result),
            evaluates_atom(old(self).env(), *a, outcome(final(self).stack(), result)),
    {
        match a {
            Atom::Ident(name) => match self.variables.get(name.as_str()) {
                Ok(value) => {
                    self.operand_stack.push(value);
                    Ok(())
                },
                Err(error) => Err(EvalError::Symbol(error)),
            },
            Atom::Number(number) => {
                let value = self.arithmetic.literal(number);
                self.operand_stack.push(value);
                Ok(())
            },
        }
    }
}

} // verus!
