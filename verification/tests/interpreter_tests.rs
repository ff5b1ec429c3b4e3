use rlox::error_handler::{ErrorHandler, RuntimeError};
use rlox::expr::{Binary, Comma, Expr, Grouping, Literal, Ternary, Unary};
use rlox::interpreter::Interpreter;
use rlox::number::ArithOp;
use rlox::token::{LiteralType, Token};
use rlox::token_type::TokenType;

fn arith(op: ArithOp, a: u64, b: u64) -> u64 {
    let (x, y) = (f64::from_bits(a), f64::from_bits(b));
    let r = match op {
        ArithOp::Add => x + y,
        ArithOp::Sub => x - y,
        ArithOp::Mul => x * y,
        ArithOp::Div => x / y,
    };
    r.to_bits()
}

fn number(x: f64) -> LiteralType {
    LiteralType::Number(x.to_bits())
}

fn text(s: &str) -> LiteralType {
    LiteralType::String(s.to_string())
}

fn lit(value: LiteralType) -> Box<Expr> {
    Box::new(Expr::Literal(Literal { value }))
}

fn op(token_type: TokenType, lexeme: &str) -> Token {
    Token::new(token_type, lexeme.to_string(), LiteralType::Absent, 7)
}

fn binary(left: LiteralType, token_type: TokenType, lexeme: &str, right: LiteralType) -> Expr {
    Expr::Binary(Binary { left: lit(left), operator: op(token_type, lexeme), right: lit(right) })
}

fn evaluate(expr: Expr) -> Result<LiteralType, RuntimeError> {
    Interpreter::new(&arith).evaluate(expr)
}

#[test]
fn test_literal() {
    let expr = Expr::Literal(Literal {
        value: LiteralType::String(String::from("Teste")),
    });

    let result = Interpreter::new(&arith).visit(expr);

    assert_eq!(result.unwrap(), LiteralType::String(String::from("Teste")));
}

#[test]
fn test_grouping() {
    let expr = Expr::Grouping(Grouping {
        expression: Box::new(Expr::Literal(Literal {
            value: LiteralType::Number(f64::from(123).to_bits()),
        })),
    });

    let result = Interpreter::new(&arith).visit(expr);

    assert_eq!(result.unwrap(), LiteralType::Number(f64::from(123).to_bits()));
}

#[test]
fn arithmetic_on_two_numbers() {
    assert_eq!(evaluate(binary(number(7.0), TokenType::Minus, "-", number(2.5))).unwrap(), number(4.5));
    assert_eq!(evaluate(binary(number(7.0), TokenType::Plus, "+", number(2.5))).unwrap(), number(9.5));
    assert_eq!(evaluate(binary(number(7.0), TokenType::Star, "*", number(2.5))).unwrap(), number(17.5));
    assert_eq!(evaluate(binary(number(7.0), TokenType::Slash, "/", number(2.0))).unwrap(), number(3.5));
    assert_eq!(evaluate(binary(number(0.1), TokenType::Plus, "+", number(0.2))).unwrap(), number(0.1 + 0.2));
}

#[test]
fn division_by_zero_is_no_error() {
    assert_eq!(
        evaluate(binary(number(1.0), TokenType::Slash, "/", number(0.0))).unwrap(),
        number(f64::INFINITY)
    );
    assert_eq!(
        evaluate(binary(number(-1.0), TokenType::Slash, "/", number(0.0))).unwrap(),
        number(f64::NEG_INFINITY)
    );
    match evaluate(binary(number(0.0), TokenType::Slash, "/", number(0.0))).unwrap() {
        LiteralType::Number(bits) => assert!(f64::from_bits(bits).is_nan()),
        other => panic!("{:?}", other),
    }
}

#[test]
fn arithmetic_on_anything_else_is_an_error() {
    for (kind, lexeme) in [
        (TokenType::Minus, "-"),
        (TokenType::Slash, "/"),
        (TokenType::Star, "*"),
        (TokenType::Greater, ">"),
        (TokenType::GreaterEqual, ">="),
        (TokenType::Less, "<"),
        (TokenType::LessEqual, "<="),
    ] {
        let error = evaluate(binary(number(1.0), kind, lexeme, text("1"))).unwrap_err();
        assert_eq!(error.message, "Operand must be a number");
        assert_eq!(error.token, op(kind, lexeme));
        let error = evaluate(binary(LiteralType::Bool(true), kind, lexeme, number(1.0))).unwrap_err();
        assert_eq!(error.message, "Operand must be a number");
        let error = evaluate(binary(LiteralType::Nil, kind, lexeme, LiteralType::Nil)).unwrap_err();
        assert_eq!(error.message, "Operand must be a number");
    }
}

#[test]
fn plus_joins_two_strings() {
    assert_eq!(evaluate(binary(text("ab"), TokenType::Plus, "+", text("cd"))).unwrap(), text("abcd"));
    assert_eq!(evaluate(binary(text(""), TokenType::Plus, "+", text(""))).unwrap(), text(""));
}

#[test]
fn plus_on_a_string_and_a_number_is_an_error() {
    let error = evaluate(binary(text("1"), TokenType::Plus, "+", number(1.0))).unwrap_err();
    assert_eq!(error.message, "Operands must be two numbers or two strings.");
    assert_eq!(error.token, op(TokenType::Plus, "+"));
    assert_eq!(error.render(), "Operands must be two numbers or two strings.\n[line 7]");
    let error = evaluate(binary(number(1.0), TokenType::Plus, "+", text("1"))).unwrap_err();
    assert_eq!(error.message, "Operands must be two numbers or two strings.");
    let error = evaluate(binary(LiteralType::Nil, TokenType::Plus, "+", LiteralType::Bool(true))).unwrap_err();
    assert_eq!(error.message, "Operands must be two numbers or two strings.");
}

#[test]
fn ordering_of_numbers() {
    let t = LiteralType::Bool(true);
    let f = LiteralType::Bool(false);
    assert_eq!(evaluate(binary(number(1.0), TokenType::Less, "<", number(2.0))).unwrap(), t);
    assert_eq!(evaluate(binary(number(2.0), TokenType::Less, "<", number(2.0))).unwrap(), f);
    assert_eq!(evaluate(binary(number(2.0), TokenType::LessEqual, "<=", number(2.0))).unwrap(), t);
    assert_eq!(evaluate(binary(number(3.0), TokenType::LessEqual, "<=", number(2.0))).unwrap(), f);
    assert_eq!(evaluate(binary(number(3.0), TokenType::Greater, ">", number(2.0))).unwrap(), t);
    assert_eq!(evaluate(binary(number(-3.0), TokenType::Greater, ">", number(2.0))).unwrap(), f);
    assert_eq!(evaluate(binary(number(2.0), TokenType::GreaterEqual, ">=", number(2.0))).unwrap(), t);
    assert_eq!(evaluate(binary(number(-2.0), TokenType::GreaterEqual, ">=", number(2.0))).unwrap(), f);
    assert_eq!(evaluate(binary(number(f64::NAN), TokenType::LessEqual, "<=", number(f64::NAN))).unwrap(), f);
}

#[test]
fn equality_tells_variants_apart() {
    let t = LiteralType::Bool(true);
    let f = LiteralType::Bool(false);
    assert_eq!(evaluate(binary(number(1.0), TokenType::EqualEqual, "==", text("1"))).unwrap(), f);
    assert_eq!(evaluate(binary(number(1.0), TokenType::BangEqual, "!=", text("1"))).unwrap(), t);
    assert_eq!(evaluate(binary(number(1.0), TokenType::EqualEqual, "==", number(1.0))).unwrap(), t);
    assert_eq!(evaluate(binary(text("a"), TokenType::EqualEqual, "==", text("a"))).unwrap(), t);
    assert_eq!(evaluate(binary(text("a"), TokenType::EqualEqual, "==", text("b"))).unwrap(), f);
    assert_eq!(evaluate(binary(LiteralType::Nil, TokenType::EqualEqual, "==", LiteralType::Nil)).unwrap(), t);
    assert_eq!(evaluate(binary(LiteralType::Nil, TokenType::EqualEqual, "==", LiteralType::Bool(false))).unwrap(), f);
    assert_eq!(evaluate(binary(LiteralType::Bool(true), TokenType::BangEqual, "!=", LiteralType::Bool(true))).unwrap(), f);
    assert_eq!(evaluate(binary(number(0.0), TokenType::EqualEqual, "==", number(-0.0))).unwrap(), t);
    assert_eq!(evaluate(binary(number(f64::NAN), TokenType::EqualEqual, "==", number(f64::NAN))).unwrap(), f);
    assert_eq!(evaluate(binary(number(f64::NAN), TokenType::BangEqual, "!=", number(f64::NAN))).unwrap(), t);
}

#[test]
fn absent_equals_only_absent() {
    assert_eq!(LiteralType::Absent, LiteralType::Absent);
    assert_ne!(LiteralType::Absent, LiteralType::Nil);
    assert_ne!(LiteralType::Absent, LiteralType::Bool(false));
    assert_ne!(LiteralType::Absent, number(0.0));
    assert_ne!(LiteralType::Absent, text(""));
}

#[test]
fn minus_negates_a_number() {
    let expr = Expr::Unary(Unary { operator: op(TokenType::Minus, "-"), right: lit(number(2.0)) });
    assert_eq!(evaluate(expr).unwrap(), number(-2.0));
    let expr = Expr::Unary(Unary { operator: op(TokenType::Minus, "-"), right: lit(number(0.0)) });
    assert_eq!(evaluate(expr).unwrap(), LiteralType::Number((-0.0f64).to_bits()));
}

#[test]
fn minus_on_anything_else_is_an_error() {
    let expr = Expr::Unary(Unary { operator: op(TokenType::Minus, "-"), right: lit(text("2")) });
    let error = evaluate(expr).unwrap_err();
    assert_eq!(error.message, "Operand must be a number");
    assert_eq!(error.token, op(TokenType::Minus, "-"));
    assert_eq!(error.token.line, 7);
}

#[test]
fn bang_negates_truthiness() {
    let cases = [
        (LiteralType::Nil, true),
        (LiteralType::Bool(false), true),
        (LiteralType::Bool(true), false),
        (number(0.0), false),
        (number(1.0), false),
        (text(""), false),
        (text("a"), false),
    ];
    for (value, expected) in cases {
        let expr = Expr::Unary(Unary { operator: op(TokenType::Bang, "!"), right: lit(value) });
        assert_eq!(evaluate(expr).unwrap(), LiteralType::Bool(expected));
    }
}

#[test]
fn truthiness() {
    assert!(!Interpreter::<fn(ArithOp, u64, u64) -> u64>::is_truthy(&LiteralType::Nil));
    assert!(!Interpreter::<fn(ArithOp, u64, u64) -> u64>::is_truthy(&LiteralType::Bool(false)));
    assert!(Interpreter::<fn(ArithOp, u64, u64) -> u64>::is_truthy(&LiteralType::Bool(true)));
    assert!(Interpreter::<fn(ArithOp, u64, u64) -> u64>::is_truthy(&number(0.0)));
    assert!(Interpreter::<fn(ArithOp, u64, u64) -> u64>::is_truthy(&text("")));
}

#[test]
fn comma_gives_the_right_value() {
    let expr = Expr::Comma(Comma { left: lit(number(1.0)), right: lit(number(2.0)) });
    assert_eq!(evaluate(expr).unwrap(), number(2.0));
}

#[test]
fn comma_fails_where_its_left_side_fails() {
    let failing = Box::new(binary(text("1"), TokenType::Plus, "+", number(1.0)));
    let expr = Expr::Comma(Comma { left: failing, right: lit(number(2.0)) });
    assert_eq!(evaluate(expr).unwrap_err().message, "Operands must be two numbers or two strings.");
}

#[test]
fn ternary_evaluates_the_taken_branch_only() {
    let failing = || Box::new(binary(text("1"), TokenType::Minus, "-", number(1.0)));
    let expr = Expr::Ternary(Ternary {
        condition: lit(LiteralType::Bool(true)),
        then_branch: lit(number(1.0)),
        else_branch: failing(),
    });
    assert_eq!(evaluate(expr).unwrap(), number(1.0));
    let expr = Expr::Ternary(Ternary {
        condition: lit(LiteralType::Nil),
        then_branch: failing(),
        else_branch: lit(number(2.0)),
    });
    assert_eq!(evaluate(expr).unwrap(), number(2.0));
    let expr = Expr::Ternary(Ternary {
        condition: lit(number(0.0)),
        then_branch: failing(),
        else_branch: lit(number(2.0)),
    });
    assert_eq!(evaluate(expr).unwrap_err().message, "Operand must be a number");
}

#[test]
fn the_arithmetic_is_called_for_the_taken_branch_only() {
    let calls = std::cell::Cell::new(0u32);
    let counting = |op: ArithOp, a: u64, b: u64| {
        calls.set(calls.get() + 1);
        arith(op, a, b)
    };
    let expr = Expr::Ternary(Ternary {
        condition: lit(LiteralType::Bool(true)),
        then_branch: lit(number(1.0)),
        else_branch: Box::new(binary(number(1.0), TokenType::Slash, "/", number(0.0))),
    });
    assert_eq!(Interpreter::new(&counting).evaluate(expr).unwrap(), number(1.0));
    assert_eq!(calls.get(), 0);
}

#[test]
fn the_left_operand_fails_first() {
    let left = Box::new(binary(text("a"), TokenType::Minus, "-", number(1.0)));
    let right = Box::new(binary(text("a"), TokenType::Plus, "+", number(1.0)));
    let expr = Expr::Binary(Binary { left, operator: op(TokenType::Star, "*"), right });
    assert_eq!(evaluate(expr).unwrap_err().message, "Operand must be a number");
}

#[test]
fn interpret_reports_the_error() {
    let mut errors = ErrorHandler::new();
    let interpreter = Interpreter::new(&arith);
    let value = interpreter.interpret(binary(number(1.0), TokenType::Plus, "+", number(2.0)), &mut errors);
    assert_eq!(value, Some(number(3.0)));
    assert!(!errors.had_runtime_error);
    assert!(errors.runtime_errors.is_empty());
    let value = interpreter.interpret(binary(text("1"), TokenType::Plus, "+", number(2.0)), &mut errors);
    assert_eq!(value, None);
    assert!(errors.had_runtime_error);
    assert!(!errors.had_error);
    assert_eq!(errors.runtime_errors.len(), 1);
    assert_eq!(errors.runtime_errors[0].message, "Operands must be two numbers or two strings.");
}

#[test]
fn as_number_gives_the_number_or_the_error() {
    assert_eq!(number(3.0).as_number(op(TokenType::Minus, "-")).unwrap(), 3.0f64.to_bits());
    let error = text("3").as_number(op(TokenType::Minus, "-")).unwrap_err();
    assert_eq!(error.message, "Operand must be a number");
    assert_eq!(error.token, op(TokenType::Minus, "-"));
    assert!(LiteralType::Nil.as_number(op(TokenType::Star, "*")).is_err());
    assert!(LiteralType::Absent.as_number(op(TokenType::Star, "*")).is_err());
}
