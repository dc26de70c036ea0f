use rcalc::ast::{Atom, BinaryArithmetic, BinaryOp, Decimal, FunctionCall, UnaryArithmetic, UnaryOp};
use rcalc::parser::calc_parser;
use rcalc::visitor::{PrettyPrinter, Visitor};

fn printed(input: &str, indent: u32) -> Vec<String> {
    let parsed = calc_parser::expr(input).unwrap();
    let mut printer = PrettyPrinter::new(indent);
    assert!(printer.fits(&parsed));
    printer.visit_expr(&parsed);
    printer.lines().clone()
}

#[test]
fn prints_a_leaf() {
    assert_eq!(printed("x", 2), vec!["Expr", "  Identifier x"]);
    assert_eq!(printed("1.50", 2), vec!["Expr", "  Number 1.50"]);
}

#[test]
fn prints_operators_with_their_operands_further_in() {
    assert_eq!(
        printed("1 + a * 2", 2),
        vec![
            "Expr",
            "  Add",
            "    Expr",
            "      Number 1",
            "    Expr",
            "      Mul",
            "        Expr",
            "          Identifier a",
            "        Expr",
            "          Number 2",
        ]
    );
    assert_eq!(
        printed("9 - 3 / 1", 1),
        vec![
            "Expr",
            " Sub",
            "  Expr",
            "   Number 9",
            "  Expr",
            "   Div",
            "    Expr",
            "     Number 3",
            "    Expr",
            "     Number 1",
        ]
    );
}

#[test]
fn prints_unary_operators_on_two_lines() {
    assert_eq!(
        printed("-x!", 3),
        vec![
            "Expr",
            "   Neg",
            "   Unary",
            "      Expr",
            "         Fac",
            "         Unary",
            "            Expr",
            "               Identifier x",
        ]
    );
    assert_eq!(
        printed("+1", 2),
        vec!["Expr", "  Pos", "  Unary", "    Expr", "      Number 1"]
    );
}

#[test]
fn prints_calls_with_their_arguments_in_order() {
    assert_eq!(
        printed("log(2, y)", 2),
        vec![
            "Expr",
            "  Function log",
            "    Expr",
            "      Number 2",
            "    Expr",
            "      Identifier y",
        ]
    );
    assert_eq!(printed("f()", 4), vec!["Expr", "    Function f"]);
}

#[test]
fn prints_without_indentation() {
    assert_eq!(
        printed("a / b", 0),
        vec!["Expr", "Div", "Expr", "Identifier a", "Expr", "Identifier b"]
    );
}

#[test]
fn visits_of_nodes_start_at_the_margin() {
    let mut printer = PrettyPrinter::new(2);
    assert_eq!(printer.get_indent(), 0);
    printer.visit_atom(&Atom::Ident("k".into()));
    printer.visit_unary(&UnaryArithmetic::new(
        UnaryOp::Fac,
        Atom::Number(Decimal::new("3").unwrap()).into(),
    ));
    printer.visit_binary(&BinaryArithmetic::new(
        BinaryOp::Mul,
        Atom::Ident("a".into()).into(),
        Atom::Ident("b".into()).into(),
    ));
    printer.visit_function(&FunctionCall::new(
        "g".into(),
        vec![Atom::Ident("c".into()).into()],
    ));
    assert_eq!(
        printer.lines(),
        &vec![
            "Identifier k",
            "Fac",
            "Unary",
            "  Expr",
            "    Number 3",
            "Mul",
            "  Expr",
            "    Identifier a",
            "  Expr",
            "    Identifier b",
            "Function g",
            "  Expr",
            "    Identifier c",
        ]
    );
    assert_eq!(printer.get_indent(), 0);
}

#[test]
fn lines_add_up_over_visits() {
    let mut printer = PrettyPrinter::new(2);
    assert!(printer.lines().is_empty());
    printer.visit_expr(&calc_parser::expr("1").unwrap());
    printer.visit_expr(&calc_parser::expr("2").unwrap());
    assert_eq!(
        printer.lines(),
        &vec!["Expr", "  Number 1", "Expr", "  Number 2"]
    );
}

#[test]
fn fits_any_tree_that_can_be_written_down() {
    let mut input = String::new();
    for _ in 0..200 {
        input.push('(');
        input.push('-');
    }
    input.push('x');
    for _ in 0..200 {
        input.push(')');
    }
    let parsed = calc_parser::expr(&input).unwrap();
    assert!(PrettyPrinter::new(u32::MAX).fits(&parsed));
    assert!(PrettyPrinter::new(0).fits(&parsed));
}
