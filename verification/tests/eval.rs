use rcalc::ast::{
    Atom, BinaryArithmetic, BinaryOp, Decimal, Expr, FunctionCall, UnaryArithmetic, UnaryOp,
};
use rcalc::parser::calc_parser;
use rcalc::symbols::SymbolError;
use rcalc::visitor::eval::{factorial, pop_arguments};
use rcalc::visitor::semantics::FACTORIAL_LIMIT;
use rcalc::visitor::{Arithmetic, Calculator, CalculatorError, EvalError, Presets, Visitor};
use std::f64::consts;

type Func = fn(Vec<f64>) -> f64;

struct Ieee;

impl Arithmetic<f64> for Ieee {
    fn literal(&self, number: &Decimal) -> f64 {
        number.as_str().parse::<f64>().unwrap()
    }

    fn negate(&self, value: f64) -> f64 {
        -value
    }

    fn truncate(&self, value: f64) -> u64 {
        value as u64
    }

    fn integer(&self, n: u64) -> f64 {
        n as f64
    }

    fn binary(&self, op: BinaryOp, lhs: f64, rhs: f64) -> f64 {
        match op {
            BinaryOp::Add => lhs + rhs,
            BinaryOp::Sub => lhs - rhs,
            BinaryOp::Mul => lhs * rhs,
            BinaryOp::Div => lhs / rhs,
        }
    }
}

fn presets() -> Presets<f64, Func> {
    Presets {
        pi: consts::PI,
        tau: consts::TAU,
        e: consts::E,
        log: |argv| f64::log(argv[1], argv[0]),
        ln: |argv| f64::ln(argv[0]),
        log_2: |argv| f64::log2(argv[0]),
        log_10: |argv| f64::log10(argv[0]),
        add: |argv| argv[0] + argv[1],
        sum: |argv| argv.iter().sum(),
        pow: |argv| f64::powf(argv[0], argv[1]),
        sqrt: |argv| f64::sqrt(argv[0]),
        max: |argv| argv.iter().copied().fold(f64::NAN, f64::max),
        min: |argv| argv.iter().copied().fold(f64::NAN, f64::min),
        sin: |argv| f64::sin(argv[0]),
        cos: |argv| f64::cos(argv[0]),
        tan: |argv| f64::tan(argv[0]),
        floor: |argv| f64::floor(argv[0]),
        ceil: |argv| f64::ceil(argv[0]),
        abs: |argv| f64::abs(argv[0]),
    }
}

fn calculator() -> Calculator<f64, Func, Ieee> {
    Calculator::new(Ieee)
}

fn with_presets() -> Calculator<f64, Func, Ieee> {
    let mut calculator = calculator();
    assert_eq!(calculator.preset(presets()), Ok(()));
    calculator
}

fn eval(calculator: &mut Calculator<f64, Func, Ieee>, input: &str) -> Result<f64, EvalError> {
    let parsed = calc_parser::expr(input).unwrap();
    calculator.visit_expr(&parsed)?;
    Ok(calculator.result().unwrap())
}

fn assert_close(a: f64, b: f64) {
    assert!(f64::abs(a - b) < 1e-6);
}

#[test]
fn eval_calc_number() {
    let input = "2.333333333";
    let parsed_input = calc_parser::expr(&input).unwrap();
    let mut calculator = calculator();
    assert_eq!(calculator.visit_expr(&parsed_input), Ok(()));
    assert_close(calculator.result().unwrap(), 2.333333333);
}

#[test]
fn eval_custom_variable() {
    let input = "var";
    let value = 3.141592653589;
    let parsed_input = calc_parser::expr(&input).unwrap();
    let mut calculator = calculator();
    assert_eq!(calculator.define_variable(&input.into(), value), Ok(()));
    assert_eq!(calculator.visit_expr(&parsed_input), Ok(()));
    assert_close(calculator.result().unwrap(), value);
}

#[test]
fn eval_custom_function() {
    let a = 2.3333;
    let b = 3.2222;
    let input = format!("mul({a}, {b})");
    let parsed_input = calc_parser::expr(&input).unwrap();
    let mut calculator = calculator();
    assert_eq!(
        calculator.define_function(&"mul".into(), |args| args[0] * args[1]),
        Ok(())
    );
    assert_eq!(calculator.visit_expr(&parsed_input), Ok(()));
    assert_close(calculator.result().unwrap(), a * b);
}

#[test]
fn eval_calc_preset() {
    let input = "sqrt(PI * E) - log(2, 3)";
    let value = f64::sqrt(consts::PI * consts::E) - f64::log(3.0, 2.0);
    let parsed_input = calc_parser::expr(&input).unwrap();
    let mut calculator = calculator();
    assert_eq!(calculator.preset(presets()), Ok(()));
    assert_eq!(calculator.visit_expr(&parsed_input), Ok(()));
    assert_close(calculator.result().unwrap(), value);
}

#[test]
fn literals_evaluate_to_their_value() {
    for text in ["0", "-0", "7", "42", "0.1", "2.333", "10.050", "123456789.000001"] {
        let parsed = calc_parser::number(text).unwrap();
        let mut calculator = calculator();
        assert_eq!(calculator.visit_expr(&parsed), Ok(()));
        assert_close(calculator.result().unwrap(), text.parse::<f64>().unwrap());
    }
    let parsed = calc_parser::number("-2.5").unwrap();
    let mut calculator = calculator();
    assert_eq!(calculator.visit_expr(&parsed), Ok(()));
    assert_eq!(calculator.result(), Ok(-2.5));
}

#[test]
fn arithmetic_follows_the_tree() {
    let mut calculator = calculator();
    assert_eq!(eval(&mut calculator, "1 + 9 / 10"), Ok(1.9));
    assert_eq!(eval(&mut calculator, "(1 + 9) / 10"), Ok(1.0));
    assert_eq!(eval(&mut calculator, "1 * 9 / 10"), Ok(0.9));
    assert_eq!(eval(&mut calculator, "7 - 2 - 1"), Ok(4.0));
    assert_eq!(eval(&mut calculator, "8 / 4 / 2"), Ok(1.0));
    assert_eq!(eval(&mut calculator, "-3 + +2"), Ok(-1.0));
    assert_eq!(eval(&mut calculator, "- - 3"), Ok(3.0));
    assert_eq!(eval(&mut calculator, "1 / 0"), Ok(f64::INFINITY));
    assert!(eval(&mut calculator, "0 / 0").unwrap().is_nan());
}

#[test]
fn operands_are_taken_in_order() {
    let mut calculator = calculator();
    assert_eq!(eval(&mut calculator, "10 - 4"), Ok(6.0));
    assert_eq!(eval(&mut calculator, "2 / 8"), Ok(0.25));
}

#[test]
fn arguments_reach_the_function_in_source_order() {
    let mut calculator = with_presets();
    assert_eq!(eval(&mut calculator, "log(2, 4)"), Ok(2.0));
    assert_close(eval(&mut calculator, "log(4, 2)").unwrap(), 0.5);
    assert_eq!(eval(&mut calculator, "pow(2, 10)"), Ok(1024.0));
    assert_eq!(
        calculator.define_function(&"digits".into(), |argv| argv
            .iter()
            .fold(0.0, |all, digit| all * 10.0 + digit)),
        Ok(())
    );
    assert_eq!(eval(&mut calculator, "digits(1, 2, 3, 4)"), Ok(1234.0));
    assert_eq!(eval(&mut calculator, "digits(1, digits(2, 3), 4)"), Ok(334.0));
    assert_eq!(eval(&mut calculator, "digits()"), Ok(0.0));
    assert_eq!(eval(&mut calculator, "9 - digits(1, 2) - 3"), Ok(-6.0));
}

#[test]
fn factorial_truncates_before_it_multiplies() {
    let mut calculator = calculator();
    assert_eq!(eval(&mut calculator, "4.0!"), Ok(24.0));
    assert_eq!(eval(&mut calculator, "0.0!"), Ok(1.0));
    assert_eq!(eval(&mut calculator, "1.0!"), Ok(1.0));
    assert_eq!(eval(&mut calculator, "4.9!"), Ok(24.0));
    assert_eq!(eval(&mut calculator, "0.5!"), Ok(1.0));
    assert_eq!(eval(&mut calculator, "3!!"), Ok(720.0));
    assert_eq!(eval(&mut calculator, "20!"), Ok(2432902008176640000.0));
    assert_eq!(eval(&mut calculator, "(0 - 3)!"), Ok(1.0));
}

#[test]
fn factorial_of_small_numbers() {
    assert_eq!(factorial(0), 1);
    assert_eq!(factorial(1), 1);
    assert_eq!(factorial(2), 2);
    assert_eq!(factorial(4), 24);
    assert_eq!(factorial(10), 3628800);
    assert_eq!(factorial(FACTORIAL_LIMIT), 2432902008176640000);
    assert_eq!(FACTORIAL_LIMIT, 20);
}

#[test]
fn factorial_above_the_limit_fails() {
    let mut calculator = calculator();
    assert_eq!(eval(&mut calculator, "21!"), Err(EvalError::FactorialOverflow));
    assert_eq!(eval(&mut calculator, "1 + 100!"), Err(EvalError::FactorialOverflow));
    assert_eq!(eval(&mut calculator, "4!!"), Err(EvalError::FactorialOverflow));
}

#[test]
fn second_definition_fails_and_the_first_stays() {
    let mut calculator = calculator();
    assert_eq!(calculator.define_variable(&"a".into(), 1.0), Ok(()));
    assert_eq!(
        calculator.define_variable(&"a".into(), 2.0),
        Err(SymbolError::ReDefinition)
    );
    assert_eq!(eval(&mut calculator, "a"), Ok(1.0));
    assert_eq!(calculator.define_function(&"f".into(), |_| 1.0), Ok(()));
    assert_eq!(
        calculator.define_function(&"f".into(), |_| 2.0),
        Err(SymbolError::ReDefinition)
    );
    assert_eq!(eval(&mut calculator, "f()"), Ok(1.0));
}

#[test]
fn variables_and_functions_are_separate_namespaces() {
    let mut calculator = calculator();
    assert_eq!(calculator.define_variable(&"f".into(), 3.0), Ok(()));
    assert_eq!(calculator.define_function(&"f".into(), |argv| argv[0] * 2.0), Ok(()));
    assert_eq!(eval(&mut calculator, "f(f)"), Ok(6.0));
}

#[test]
fn preset_names_cannot_be_defined_again() {
    let mut calculator = with_presets();
    for name in ["PI", "TAU", "E"] {
        assert_eq!(
            calculator.define_variable(&name.into(), 0.0),
            Err(SymbolError::ReDefinition)
        );
    }
    for name in [
        "log", "ln", "log_2", "log_10", "add", "sum", "pow", "sqrt", "max", "min", "sin", "cos",
        "tan", "floor", "ceil", "abs",
    ] {
        assert_eq!(
            calculator.define_function(&name.into(), |_| 0.0),
            Err(SymbolError::ReDefinition)
        );
    }
    assert_eq!(calculator.preset(presets()), Err(SymbolError::ReDefinition));
    assert_eq!(eval(&mut calculator, "PI"), Ok(consts::PI));
}

#[test]
fn preset_stops_at_the_first_name_that_is_bound() {
    let mut calculator = calculator();
    assert_eq!(calculator.define_variable(&"TAU".into(), 6.0), Ok(()));
    assert_eq!(calculator.preset(presets()), Err(SymbolError::ReDefinition));
    assert_eq!(eval(&mut calculator, "PI"), Ok(consts::PI));
    assert_eq!(eval(&mut calculator, "TAU"), Ok(6.0));
    assert_eq!(
        eval(&mut calculator, "E"),
        Err(EvalError::Symbol(SymbolError::UnDefinition))
    );
    assert_eq!(
        eval(&mut calculator, "ln(1)"),
        Err(EvalError::Symbol(SymbolError::UnDefinition))
    );

    let mut calculator = Calculator::<f64, Func, Ieee>::new(Ieee);
    assert_eq!(calculator.define_function(&"add".into(), |_| 0.0), Ok(()));
    assert_eq!(calculator.preset(presets()), Err(SymbolError::ReDefinition));
    assert_eq!(eval(&mut calculator, "E"), Ok(consts::E));
    assert_eq!(eval(&mut calculator, "log_10(100)"), Ok(2.0));
    assert_eq!(eval(&mut calculator, "add(1, 2)"), Ok(0.0));
    assert_eq!(
        eval(&mut calculator, "sum(1, 2)"),
        Err(EvalError::Symbol(SymbolError::UnDefinition))
    );
}

#[test]
fn preset_functions() {
    let mut calculator = with_presets();
    assert_close(eval(&mut calculator, "TAU / PI").unwrap(), 2.0);
    assert_close(eval(&mut calculator, "ln(E)").unwrap(), 1.0);
    assert_close(eval(&mut calculator, "log_2(8)").unwrap(), 3.0);
    assert_close(eval(&mut calculator, "log_10(1000)").unwrap(), 3.0);
    assert_eq!(eval(&mut calculator, "add(1, 2)"), Ok(3.0));
    assert_eq!(eval(&mut calculator, "sum()"), Ok(0.0));
    assert_eq!(eval(&mut calculator, "sum(1, 2, 3, 4)"), Ok(10.0));
    assert_eq!(eval(&mut calculator, "sqrt(16)"), Ok(4.0));
    assert_eq!(eval(&mut calculator, "max(1, 5, 3)"), Ok(5.0));
    assert_eq!(eval(&mut calculator, "min(4, 2, 3)"), Ok(2.0));
    assert_close(eval(&mut calculator, "sin(PI / 2)").unwrap(), 1.0);
    assert_close(eval(&mut calculator, "cos(PI)").unwrap(), -1.0);
    assert_close(eval(&mut calculator, "tan(PI / 4)").unwrap(), 1.0);
    assert_eq!(eval(&mut calculator, "floor(2.7)"), Ok(2.0));
    assert_eq!(eval(&mut calculator, "ceil(2.1)"), Ok(3.0));
    assert_eq!(eval(&mut calculator, "abs(0 - 2)"), Ok(2.0));
}

#[test]
fn unbound_names_fail_the_lookup() {
    let mut calculator = calculator();
    let undefined = Err(EvalError::Symbol(SymbolError::UnDefinition));
    assert_eq!(eval(&mut calculator, "x"), undefined);
    assert_eq!(eval(&mut calculator, "1 + x"), undefined);
    assert_eq!(eval(&mut calculator, "-x"), undefined);
    assert_eq!(eval(&mut calculator, "f(1)"), undefined);
    assert_eq!(eval(&mut calculator, "f()"), undefined);
    assert_eq!(calculator.define_variable(&"f".into(), 1.0), Ok(()));
    assert_eq!(eval(&mut calculator, "f(1)"), undefined);
    assert_eq!(calculator.define_function(&"x".into(), |_| 1.0), Ok(()));
    assert_eq!(eval(&mut calculator, "x"), undefined);
}

#[test]
fn the_first_failure_in_evaluation_order_is_reported() {
    let mut calculator = calculator();
    assert_eq!(
        eval(&mut calculator, "x + 30!"),
        Err(EvalError::Symbol(SymbolError::UnDefinition))
    );
    assert_eq!(eval(&mut calculator, "30! + x"), Err(EvalError::FactorialOverflow));
    assert_eq!(eval(&mut calculator, "f(30!)"), Err(EvalError::FactorialOverflow));
    assert_eq!(
        eval(&mut calculator, "f(x, 30!)"),
        Err(EvalError::Symbol(SymbolError::UnDefinition))
    );
}

#[test]
fn a_failed_visit_leaves_the_stack_as_it_was() {
    let mut calculator = calculator();
    assert_eq!(calculator.visit_expr(&calc_parser::expr("5").unwrap()), Ok(()));
    assert_eq!(
        calculator.visit_expr(&calc_parser::expr("1 + (2 + x)").unwrap()),
        Err(EvalError::Symbol(SymbolError::UnDefinition))
    );
    assert_eq!(
        calculator.visit_expr(&calc_parser::expr("f(1, 2, 30!)").unwrap()),
        Err(EvalError::FactorialOverflow)
    );
    assert_eq!(
        calculator.visit_expr(&calc_parser::expr("f(1, 2, 3)").unwrap()),
        Err(EvalError::Symbol(SymbolError::UnDefinition))
    );
    assert_eq!(calculator.result(), Ok(5.0));
    assert_eq!(calculator.result(), Err(CalculatorError::StackEmpty));
}

#[test]
fn result_wants_exactly_one_value() {
    let mut calculator = calculator();
    assert_eq!(calculator.result(), Err(CalculatorError::StackEmpty));
    assert_eq!(calculator.visit_expr(&calc_parser::expr("1").unwrap()), Ok(()));
    assert_eq!(calculator.visit_expr(&calc_parser::expr("2").unwrap()), Ok(()));
    assert_eq!(calculator.result(), Err(CalculatorError::StackNotEmpty));
    assert_eq!(calculator.result(), Ok(1.0));
    assert_eq!(calculator.result(), Err(CalculatorError::StackEmpty));
}

#[test]
fn each_visit_pushes_one_value() {
    let mut calculator = with_presets();
    let atom = Atom::Number(Decimal::new("2").unwrap());
    assert_eq!(calculator.visit_atom(&atom), Ok(()));
    assert_eq!(calculator.result(), Ok(2.0));
    let unary = UnaryArithmetic::new(UnaryOp::Neg, Atom::Number(Decimal::new("2").unwrap()).into());
    assert_eq!(calculator.visit_unary(&unary), Ok(()));
    assert_eq!(calculator.result(), Ok(-2.0));
    let binary = BinaryArithmetic::new(
        BinaryOp::Sub,
        Atom::Number(Decimal::new("2").unwrap()).into(),
        Atom::Ident("PI".into()).into(),
    );
    assert_eq!(calculator.visit_binary(&binary), Ok(()));
    assert_eq!(calculator.result(), Ok(2.0 - consts::PI));
    let call = FunctionCall::new(
        "pow".into(),
        vec![
            Atom::Number(Decimal::new("3").unwrap()).into(),
            Atom::Number(Decimal::new("2").unwrap()).into(),
        ],
    );
    assert_eq!(calculator.visit_function(&call), Ok(()));
    assert_eq!(calculator.result(), Ok(9.0));
    let whole: Expr = call.into();
    assert_eq!(calculator.visit_expr(&whole), Ok(()));
    assert_eq!(calculator.result(), Ok(9.0));
}

#[test]
fn arguments_come_off_the_stack_in_the_order_of_pushing() {
    let mut stack = vec![1, 2, 3, 4, 5];
    assert_eq!(pop_arguments(&mut stack, 3), vec![3, 4, 5]);
    assert_eq!(stack, vec![1, 2]);
    assert_eq!(pop_arguments(&mut stack, 0), vec![]);
    assert_eq!(stack, vec![1, 2]);
    assert_eq!(pop_arguments(&mut stack, 2), vec![1, 2]);
    assert_eq!(stack, vec![]);
}

#[test]
fn calc_end_to_end() {
    let mut calculator = with_presets();
    assert_close(
        eval(&mut calculator, "sqrt(PI * E) - log(2, 3)").unwrap(),
        f64::sqrt(consts::PI * consts::E) - f64::log2(3.0),
    );
    assert_eq!(
        calculator.define_function(&"mul".into(), |argv| argv[0] * argv[1]),
        Ok(())
    );
    assert_close(
        eval(&mut calculator, "mul(2.3333, 3.2222)").unwrap(),
        2.3333 * 3.2222,
    );
}
