use rcalc::ast::{
    Atom, BinaryArithmetic, BinaryOp, Decimal, Expr, FunctionCall, UnaryArithmetic, UnaryOp,
};
use rcalc::parser::calc_parser;

fn num(text: &str) -> Expr {
    Atom::Number(Decimal::new(text).unwrap()).into()
}

fn ident(name: &str) -> Expr {
    Atom::Ident(name.into()).into()
}

#[test]
fn expr() {
    assert_eq!(
        calc_parser::expr("1 + 9 / 10"),
        Ok(BinaryArithmetic::new(
            BinaryOp::Add,
            num("1"),
            BinaryArithmetic::new(BinaryOp::Div, num("9"), num("10")).into()
        )
        .into())
    );
    assert_eq!(
        calc_parser::expr("(1 + 9) / 10"),
        Ok(BinaryArithmetic::new(
            BinaryOp::Div,
            BinaryArithmetic::new(BinaryOp::Add, num("1"), num("9")).into(),
            num("10"),
        )
        .into())
    );
}

#[test]
fn term() {
    assert_eq!(
        calc_parser::term("1 * 9 / 10"),
        Ok(BinaryArithmetic::new(
            BinaryOp::Div,
            BinaryArithmetic::new(BinaryOp::Mul, num("1"), num("9")).into(),
            num("10"),
        )
        .into())
    );
    assert_eq!(
        calc_parser::term("a * 9"),
        Ok(BinaryArithmetic::new(BinaryOp::Mul, ident("a"), num("9")).into())
    );
    assert_eq!(
        calc_parser::term("9 * a"),
        Ok(BinaryArithmetic::new(BinaryOp::Mul, num("9"), ident("a")).into())
    );
}

#[test]
fn factor_with_unary_op() {
    assert_eq!(
        calc_parser::factor_with_unary_op("-f(-x)"),
        Ok(UnaryArithmetic::new(
            UnaryOp::Neg,
            FunctionCall::new(
                "f".into(),
                vec![UnaryArithmetic::new(UnaryOp::Neg, ident("x")).into()]
            )
            .into()
        )
        .into())
    );
    assert_eq!(
        calc_parser::factor_with_unary_op("f(x!)!"),
        Ok(UnaryArithmetic::new(
            UnaryOp::Fac,
            FunctionCall::new(
                "f".into(),
                vec![UnaryArithmetic::new(UnaryOp::Fac, ident("x")).into()]
            )
            .into()
        )
        .into())
    );
}

#[test]
fn factor() {
    assert_eq!(
        calc_parser::factor("f(x)"),
        Ok(FunctionCall::new("f".into(), vec![ident("x")]).into())
    );
    assert_eq!(calc_parser::factor("0"), Ok(num("0")));
    assert_eq!(calc_parser::factor("o"), Ok(ident("o")));
    assert_eq!(
        calc_parser::factor("(1+2)"),
        Ok(BinaryArithmetic::new(BinaryOp::Add, num("1"), num("2")).into())
    );
}

#[test]
fn function_call() {
    assert_eq!(
        calc_parser::function_call("f(x)"),
        Ok(FunctionCall::new("f".into(), vec![ident("x")]).into())
    );
    assert_eq!(
        calc_parser::function_call("f ( x )"),
        Ok(FunctionCall::new("f".into(), vec![ident("x")]).into())
    );
    assert_eq!(
        calc_parser::function_call("log(2, 4)"),
        Ok(FunctionCall::new("log".into(), vec![num("2"), num("4")]).into())
    );
    assert!(calc_parser::function_call("f").is_err());
    assert!(calc_parser::function_call("f(").is_err());
}

#[test]
fn number() {
    assert_eq!(calc_parser::number("0"), Ok(num("0")));
    assert_eq!(calc_parser::number("0.1"), Ok(num("0.1")));
    assert_eq!(calc_parser::number("2.333"), Ok(num("2.333")));
    assert_eq!(calc_parser::number("42"), Ok(num("42")));
    assert!(calc_parser::number("00").is_err());
    assert!(calc_parser::number("o").is_err());
}

#[test]
fn identifier() {
    assert_eq!(calc_parser::identifier("o"), Ok(ident("o")));
    assert_eq!(calc_parser::identifier("_parser"), Ok(ident("_parser")));
    assert_eq!(calc_parser::identifier("par_123"), Ok(ident("par_123")));
    assert_eq!(calc_parser::identifier("_123"), Ok(ident("_123")));
    assert!(calc_parser::identifier("123").is_err());
}

use rcalc::parser::{ExpectedSet, LineCol, ParseError, Rule, Token};

fn expected_of(result: Result<Expr, ParseError>) -> Vec<Token> {
    result.unwrap_err().expected.tokens()
}

#[test]
fn program_allows_blanks_around() {
    assert_eq!(
        calc_parser::program(" \n\r 1+2 \r\n "),
        Ok(BinaryArithmetic::new(BinaryOp::Add, num("1"), num("2")).into())
    );
    assert_eq!(calc_parser::program("x"), Ok(ident("x")));
    assert!(calc_parser::program("").is_err());
}

#[test]
fn expr_rejects_line_ends() {
    let err = calc_parser::expr("1\n").unwrap_err();
    assert_eq!(err.location, LineCol { line: 1, column: 2 });
    assert!(err.expected.contains(Token::EndOfInput));
    assert!(calc_parser::expr(" 1").is_err());
    assert!(calc_parser::expr("1 ").is_err());
}

#[test]
fn spaces_between_tokens() {
    assert_eq!(
        calc_parser::expr("1   +   2"),
        Ok(BinaryArithmetic::new(BinaryOp::Add, num("1"), num("2")).into())
    );
    assert_eq!(
        calc_parser::expr("-  x"),
        Ok(UnaryArithmetic::new(UnaryOp::Neg, ident("x")).into())
    );
    assert_eq!(
        calc_parser::expr("( ( y ) )"),
        Ok(ident("y"))
    );
    assert!(calc_parser::expr("x !").is_err());
}

#[test]
fn sums_and_products_associate_to_the_left() {
    assert_eq!(
        calc_parser::expr("1 - 2 - 3"),
        Ok(BinaryArithmetic::new(
            BinaryOp::Sub,
            BinaryArithmetic::new(BinaryOp::Sub, num("1"), num("2")).into(),
            num("3"),
        )
        .into())
    );
    assert_eq!(
        calc_parser::expr("1 - 2 * 3 + 4"),
        Ok(BinaryArithmetic::new(
            BinaryOp::Add,
            BinaryArithmetic::new(
                BinaryOp::Sub,
                num("1"),
                BinaryArithmetic::new(BinaryOp::Mul, num("2"), num("3")).into(),
            )
            .into(),
            num("4"),
        )
        .into())
    );
}

#[test]
fn signs_nest_to_the_right_and_bind_tighter_than_products() {
    assert_eq!(
        calc_parser::expr("- + x"),
        Ok(UnaryArithmetic::new(
            UnaryOp::Neg,
            UnaryArithmetic::new(UnaryOp::Pos, ident("x")).into()
        )
        .into())
    );
    assert_eq!(
        calc_parser::expr("-a * b"),
        Ok(BinaryArithmetic::new(
            BinaryOp::Mul,
            UnaryArithmetic::new(UnaryOp::Neg, ident("a")).into(),
            ident("b"),
        )
        .into())
    );
    assert_eq!(
        calc_parser::expr("2 - -3"),
        Ok(BinaryArithmetic::new(
            BinaryOp::Sub,
            num("2"),
            UnaryArithmetic::new(UnaryOp::Neg, num("3")).into(),
        )
        .into())
    );
}

#[test]
fn factorials_stack_and_stay_under_a_sign() {
    assert_eq!(
        calc_parser::expr("3!!"),
        Ok(UnaryArithmetic::new(
            UnaryOp::Fac,
            UnaryArithmetic::new(UnaryOp::Fac, num("3")).into()
        )
        .into())
    );
    assert_eq!(
        calc_parser::expr("-3!"),
        Ok(UnaryArithmetic::new(
            UnaryOp::Neg,
            UnaryArithmetic::new(UnaryOp::Fac, num("3")).into()
        )
        .into())
    );
    assert_eq!(
        calc_parser::expr("(-3)!"),
        Ok(UnaryArithmetic::new(
            UnaryOp::Fac,
            UnaryArithmetic::new(UnaryOp::Neg, num("3")).into()
        )
        .into())
    );
}

#[test]
fn a_minus_belongs_to_the_literal_only_where_a_number_is_asked_for() {
    assert_eq!(calc_parser::number("-5"), Ok(num("-5")));
    assert_eq!(calc_parser::number("-0.25"), Ok(num("-0.25")));
    assert_eq!(calc_parser::factor("-5"), Ok(num("-5")));
    assert_eq!(
        calc_parser::expr("-5"),
        Ok(UnaryArithmetic::new(UnaryOp::Neg, num("5")).into())
    );
    assert!(calc_parser::number("+5").is_err());
    assert!(calc_parser::number("- 5").is_err());
}

#[test]
fn number_shapes() {
    assert!(calc_parser::number("1.").is_err());
    assert!(calc_parser::number(".5").is_err());
    assert!(calc_parser::number("01").is_err());
    assert!(calc_parser::number("1e5").is_err());
    assert!(calc_parser::number("1.2.3").is_err());
    assert!(calc_parser::number("-").is_err());
    assert!(calc_parser::number("").is_err());
    assert_eq!(calc_parser::number("10.050"), Ok(num("10.050")));
    assert_eq!(calc_parser::number("-0"), Ok(num("-0")));
}

#[test]
fn decimal_accepts_exactly_the_literals() {
    assert!(Decimal::new("0").is_some());
    assert!(Decimal::new("-12.5").is_some());
    assert_eq!(Decimal::new("2.333").unwrap().as_str(), "2.333");
    assert!(Decimal::new("00").is_none());
    assert!(Decimal::new("1.").is_none());
    assert!(Decimal::new("+1").is_none());
    assert!(Decimal::new("1 ").is_none());
    assert!(Decimal::new("一").is_none());
    assert!(Decimal::new("").is_none());
    assert_eq!(Decimal::new("7").unwrap().clone(), Decimal::new("7").unwrap());
}

#[test]
fn calls_take_any_number_of_arguments() {
    assert_eq!(
        calc_parser::expr("f()"),
        Ok(FunctionCall::new("f".into(), vec![]).into())
    );
    assert_eq!(
        calc_parser::expr("f( )"),
        Ok(FunctionCall::new("f".into(), vec![]).into())
    );
    assert_eq!(
        calc_parser::expr("max(1, b, c + 2)"),
        Ok(FunctionCall::new(
            "max".into(),
            vec![
                num("1"),
                ident("b"),
                BinaryArithmetic::new(BinaryOp::Add, ident("c"), num("2")).into()
            ]
        )
        .into())
    );
    assert_eq!(
        calc_parser::expr("f(g(x), h())"),
        Ok(FunctionCall::new(
            "f".into(),
            vec![
                FunctionCall::new("g".into(), vec![ident("x")]).into(),
                FunctionCall::new("h".into(), vec![]).into()
            ]
        )
        .into())
    );
}

#[test]
fn one_trailing_comma_right_after_the_last_argument() {
    assert_eq!(
        calc_parser::expr("f(x,)"),
        Ok(FunctionCall::new("f".into(), vec![ident("x")]).into())
    );
    assert_eq!(
        calc_parser::expr("f(x, )"),
        Ok(FunctionCall::new("f".into(), vec![ident("x")]).into())
    );
    assert_eq!(
        calc_parser::expr("f(,)"),
        Ok(FunctionCall::new("f".into(), vec![]).into())
    );
    assert!(calc_parser::expr("f(x ,)").is_err());
    assert!(calc_parser::expr("f(x,,)").is_err());
    assert!(calc_parser::expr("f(,x)").is_err());
}

#[test]
fn an_identifier_before_an_unclosed_list_is_no_call() {
    let err = calc_parser::expr("f(x").unwrap_err();
    assert_eq!(err.location, LineCol { line: 1, column: 4 });
    assert!(err.expected.contains(Token::RightParen));
    assert!(err.expected.contains(Token::Comma));
    assert!(err.expected.contains(Token::IdentContinue));
    assert!(!err.expected.contains(Token::EndOfInput));
}

#[test]
fn malformed_call_expects_an_expression_or_the_closing_parenthesis() {
    let err = calc_parser::expr("f(").unwrap_err();
    assert_eq!(err.location, LineCol { line: 1, column: 3 });
    assert_eq!(
        err.expected.tokens(),
        vec![
            Token::Plus,
            Token::Minus,
            Token::LeftParen,
            Token::RightParen,
            Token::Comma,
            Token::Space,
            Token::Zero,
            Token::NonZeroDigit,
            Token::IdentStart,
        ]
    );
}

#[test]
fn error_after_an_operator_expects_an_operand() {
    assert_eq!(
        expected_of(calc_parser::expr("1 +")),
        vec![
            Token::Plus,
            Token::Minus,
            Token::LeftParen,
            Token::Space,
            Token::Zero,
            Token::NonZeroDigit,
            Token::IdentStart,
        ]
    );
    let err = calc_parser::expr("1 + ").unwrap_err();
    assert_eq!(err.location, LineCol { line: 1, column: 5 });
}

#[test]
fn error_after_a_whole_expression_expects_what_could_go_on() {
    let err = calc_parser::expr("12 x").unwrap_err();
    assert_eq!(err.location, LineCol { line: 1, column: 4 });
    assert_eq!(
        err.expected.tokens(),
        vec![Token::Plus, Token::Minus, Token::Star, Token::Slash, Token::Space]
    );
    let err = calc_parser::expr("12)").unwrap_err();
    assert_eq!(err.location, LineCol { line: 1, column: 3 });
    assert_eq!(
        err.expected.tokens(),
        vec![
            Token::Plus,
            Token::Minus,
            Token::Star,
            Token::Slash,
            Token::Bang,
            Token::Dot,
            Token::Space,
            Token::Digit,
            Token::EndOfInput,
        ]
    );
}

#[test]
fn error_at_the_start() {
    let err = calc_parser::expr("").unwrap_err();
    assert_eq!(err.location, LineCol { line: 1, column: 1 });
    assert_eq!(
        err.expected.tokens(),
        vec![
            Token::Plus,
            Token::Minus,
            Token::LeftParen,
            Token::Zero,
            Token::NonZeroDigit,
            Token::IdentStart,
        ]
    );
    let err = calc_parser::identifier("123").unwrap_err();
    assert_eq!(err.location, LineCol { line: 1, column: 1 });
    assert_eq!(err.expected.tokens(), vec![Token::IdentStart]);
    let err = calc_parser::number("00").unwrap_err();
    assert_eq!(err.location, LineCol { line: 1, column: 2 });
    assert_eq!(err.expected.tokens(), vec![Token::Dot, Token::EndOfInput]);
}

#[test]
fn error_location_counts_lines() {
    let err = calc_parser::program("\n\n 1 +\n").unwrap_err();
    assert_eq!(err.location, LineCol { line: 3, column: 5 });
    let err = calc_parser::program("1\n2").unwrap_err();
    assert_eq!(err.location, LineCol { line: 2, column: 1 });
    assert_eq!(
        err.expected.tokens(),
        vec![Token::Space, Token::LineFeed, Token::CarriageReturn, Token::EndOfInput]
    );
}

#[test]
fn characters_outside_the_grammar() {
    let err = calc_parser::expr("1 + é").unwrap_err();
    assert_eq!(err.location, LineCol { line: 1, column: 5 });
    let err = calc_parser::expr("π").unwrap_err();
    assert_eq!(err.location, LineCol { line: 1, column: 1 });
    let err = calc_parser::expr("ab°").unwrap_err();
    assert_eq!(err.location, LineCol { line: 1, column: 3 });
}

#[test]
fn parse_by_rule() {
    assert_eq!(calc_parser::parse(Rule::Expr, "x"), calc_parser::expr("x"));
    assert_eq!(calc_parser::parse(Rule::Number, "x"), calc_parser::number("x"));
    assert_eq!(calc_parser::parse(Rule::Identifier, "x"), Ok(ident("x")));
    assert_eq!(calc_parser::parse(Rule::Program, " x "), Ok(ident("x")));
    assert!(calc_parser::parse(Rule::FunctionCall, "x").is_err());
    assert!(calc_parser::parse(Rule::Term, "1+1").is_err());
    assert!(calc_parser::parse(Rule::FactorWithUnaryOp, "1*1").is_err());
    assert!(calc_parser::parse(Rule::Factor, "-x").is_err());
}

#[test]
fn token_sets() {
    let none = ExpectedSet::empty();
    assert!(none.is_empty());
    assert_eq!(none.tokens(), vec![]);
    let one = ExpectedSet::single(Token::Comma);
    assert!(!one.is_empty());
    assert!(one.contains(Token::Comma));
    assert!(!one.contains(Token::Dot));
    let two = one.union(ExpectedSet::single(Token::Plus));
    assert_eq!(two.tokens(), vec![Token::Plus, Token::Comma]);
    assert_eq!(two.union(one), two);
    for i in 0..18 {
        let token = Token::from_ordinal(i).unwrap();
        assert_eq!(token.ordinal(), i);
        assert!(ExpectedSet::single(token).contains(token));
        assert_eq!(ExpectedSet::single(token).tokens(), vec![token]);
    }
    assert_eq!(Token::from_ordinal(18), None);
    assert_eq!(Token::Plus.describe(), "\"+\"");
    assert_eq!(Token::LineFeed.describe(), "\"\\n\"");
    assert_eq!(Token::Digit.describe(), "['0'..='9']");
    assert_eq!(Token::EndOfInput.describe(), "EOF");
}

#[test]
fn long_chains_do_not_nest_the_parser() {
    let mut input = String::from("1");
    for _ in 0..20000 {
        input.push_str(" + 1");
    }
    assert!(calc_parser::expr(&input).is_ok());
}

#[test]
fn trees_can_be_copied() {
    let parsed = calc_parser::expr("f(a, -1.5!) * (b + g())").unwrap();
    let copy = parsed.clone();
    assert_eq!(copy, parsed);
    let node = BinaryArithmetic::new(BinaryOp::Div, num("1"), ident("x"));
    assert_eq!(node.clone(), node);
    let node = UnaryArithmetic::new(UnaryOp::Pos, ident("x"));
    assert_eq!(node.clone(), node);
    let node = FunctionCall::new("h".into(), vec![num("1"), ident("x")]);
    assert_eq!(node.clone(), node);
    let leaf = Atom::Ident("x".into());
    assert_eq!(leaf.clone(), leaf);
}

#[test]
fn nodes_keep_what_they_are_given() {
    let node = BinaryArithmetic::new(BinaryOp::Sub, num("1"), ident("x"));
    assert_eq!(node.op, BinaryOp::Sub);
    assert_eq!(node.lhs, num("1"));
    assert_eq!(node.rhs, ident("x"));
    let node = UnaryArithmetic::new(UnaryOp::Fac, num("3"));
    assert_eq!(node.op, UnaryOp::Fac);
    assert_eq!(node.value, num("3"));
    let node = FunctionCall::new("h".into(), vec![num("1"), ident("x")]);
    assert_eq!(node.name, "h");
    assert_eq!(node.args, vec![num("1"), ident("x")]);
    assert_eq!(Expr::from(Atom::Ident("x".into())), Expr::Atom(Atom::Ident("x".into())));
}
