use rlox::ast_printer::AstPrinter;
use rlox::error_handler::ErrorHandler;
use rlox::expr::Expr;
use rlox::parser::Parser;
use rlox::scanner::Scanner;
use rlox::token::{LiteralType, Token};
use rlox::token_type::TokenType;

fn to_number(text: String) -> u64 {
    text.parse::<f64>().unwrap().to_bits()
}

fn show(bits: u64) -> String {
    format!("{}", f64::from_bits(bits))
}

fn tokens_of(source: &str) -> Vec<Token> {
    let mut errors = ErrorHandler::new();
    let mut scanner = Scanner::new(source.to_string(), &to_number);
    let tokens = scanner.scan_tokens(&mut errors).clone();
    assert!(!errors.had_error);
    tokens
}

fn parse(source: &str) -> (Option<Expr>, ErrorHandler) {
    let mut errors = ErrorHandler::new();
    let mut parser = Parser::new(tokens_of(source));
    let expr = parser.parse(&mut errors);
    (expr, errors)
}

fn tree(source: &str) -> String {
    let (expr, errors) = parse(source);
    assert!(!errors.had_error, "{}", source);
    assert!(errors.diagnostics.is_empty());
    AstPrinter::print(expr.unwrap(), &show)
}

fn failure(source: &str) -> String {
    let (expr, errors) = parse(source);
    assert!(expr.is_none(), "{}", source);
    assert!(errors.had_error);
    assert_eq!(errors.diagnostics.len(), 1);
    errors.diagnostics[0].render()
}

#[test]
fn primaries() {
    assert_eq!(tree("1"), "1");
    assert_eq!(tree("12.5"), "12.5");
    assert_eq!(tree("\"hi\""), "hi");
    assert_eq!(tree("true"), "true");
    assert_eq!(tree("false"), "false");
    assert_eq!(tree("nil"), "Nil");
    assert_eq!(tree("(1)"), "(group 1)");
    assert_eq!(tree("((1))"), "(group (group 1))");
}

#[test]
fn factor_binds_tighter_than_term() {
    assert_eq!(tree("2 + 3 * 4"), "(+ 2 (* 3 4))");
    assert_eq!(tree("2 * 3 + 4"), "(+ (* 2 3) 4)");
    assert_eq!(tree("2 - 6 / 3"), "(- 2 (/ 6 3))");
}

#[test]
fn grouping_overrides_precedence() {
    assert_eq!(tree("(2 + 3) * 4"), "(* (group (+ 2 3)) 4)");
}

#[test]
fn binary_operators_group_to_the_left() {
    assert_eq!(tree("1 - 2 - 3"), "(- (- 1 2) 3)");
    assert_eq!(tree("8 / 4 / 2"), "(/ (/ 8 4) 2)");
    assert_eq!(tree("1 < 2 < 3"), "(< (< 1 2) 3)");
    assert_eq!(tree("1 == 2 != 3"), "(!= (== 1 2) 3)");
    assert_eq!(tree("1 + 2 - 3 + 4"), "(+ (- (+ 1 2) 3) 4)");
}

#[test]
fn the_levels_in_their_order() {
    assert_eq!(tree("1 == 2 < 3"), "(== 1 (< 2 3))");
    assert_eq!(tree("1 < 2 + 3"), "(< 1 (+ 2 3))");
    assert_eq!(tree("1 >= 2 * 3 == 4 <= 5 - 6"), "(== (>= 1 (* 2 3)) (<= 4 (- 5 6)))");
    assert_eq!(tree("1 > 2"), "(> 1 2)");
}

#[test]
fn unary_binds_tighter_than_factor() {
    assert_eq!(tree("-2 * 3"), "(* (- 2) 3)");
    assert_eq!(tree("2 * -3"), "(* 2 (- 3))");
    assert_eq!(tree("1 - -1"), "(- 1 (- 1))");
}

#[test]
fn unary_operators_nest_to_the_right() {
    assert_eq!(tree("!!true"), "(! (! true))");
    assert_eq!(tree("-!-1"), "(- (! (- 1)))");
}

#[test]
fn ternary_groups_to_the_right() {
    assert_eq!(tree("1 ? 2 : 3"), "(?: 1 2 3)");
    assert_eq!(tree("1 ? 2 : 3 ? 4 : 5"), "(?: 1 2 (?: 3 4 5))");
    assert_eq!(tree("1 == 2 ? 3 + 4 : 5 * 6"), "(?: (== 1 2) (+ 3 4) (* 5 6))");
}

#[test]
fn then_branch_is_an_equality() {
    assert_eq!(failure("1 ? 2 ? 3 : 4 : 5"), "[line: 1] Error  at'?': Expect ':' after then branch.");
    assert_eq!(tree("1 ? (2 ? 3 : 4) : 5"), "(?: 1 (group (?: 2 3 4)) 5)");
}

#[test]
fn comma_at_the_top_and_in_parentheses() {
    assert_eq!(tree("1, 2"), "(, 1 2)");
    assert_eq!(tree("1, 2, 3"), "(, (, 1 2) 3)");
    assert_eq!(tree("(1, 2) + 3"), "(+ (group (, 1 2)) 3)");
    assert_eq!(tree("1 ? 2 : 3, 4"), "(, (?: 1 2 3) 4)");
}

#[test]
fn comma_is_not_read_inside_a_branch() {
    assert_eq!(failure("1 ? 2, 3 : 4"), "[line: 1] Error  at',': Expect ':' after then branch.");
}

#[test]
fn tokens_after_the_expression_are_left() {
    assert_eq!(tree("1 2"), "1");
    assert_eq!(tree("1 )"), "1");
}

#[test]
fn operators_carry_their_tokens() {
    let (expr, _) = parse("1\n+ 2");
    match expr.unwrap() {
        Expr::Binary(b) => {
            assert_eq!(b.operator, Token::new(TokenType::Plus, "+".to_string(), LiteralType::Absent, 2));
        }
        other => panic!("{:?}", other),
    }
}

#[test]
fn missing_expression() {
    assert_eq!(failure(""), "[line: 1] Error at end: Expect expression.");
    assert_eq!(failure("1 +"), "[line: 1] Error at end: Expect expression.");
    assert_eq!(failure("\n\n*"), "[line: 3] Error  at'*': Expect expression.");
    assert_eq!(failure("1 + )"), "[line: 1] Error  at')': Expect expression.");
    assert_eq!(failure("foo"), "[line: 1] Error  at'foo': Expect expression.");
    assert_eq!(failure("1, "), "[line: 1] Error at end: Expect expression.");
}

#[test]
fn missing_parenthesis() {
    assert_eq!(failure("(1 + 2"), "[line: 1] Error at end: Expect ')' after expression.");
    assert_eq!(failure("(1 2)"), "[line: 1] Error  at'2': Expect ')' after expression.");
}

#[test]
fn missing_colon() {
    assert_eq!(failure("1 ? 2"), "[line: 1] Error at end: Expect ':' after then branch.");
    assert_eq!(failure("1 ? 2 3"), "[line: 1] Error  at'3': Expect ':' after then branch.");
}

#[test]
fn only_the_first_error_is_reported() {
    let (expr, errors) = parse("(1 + ) * ( / 2");
    assert!(expr.is_none());
    assert_eq!(errors.diagnostics.len(), 1);
    assert_eq!(errors.diagnostics[0].location, " at')'");
}

#[test]
fn synchronize_resumes_after_a_semicolon() {
    let mut errors = ErrorHandler::new();
    let mut parser = Parser::new(tokens_of("1 + * 7 ; 2 + 3"));
    assert!(parser.parse(&mut errors).is_none());
    parser.synchronize();
    let expr = parser.parse(&mut errors).unwrap();
    assert_eq!(AstPrinter::print(expr, &show), "(+ 2 3)");
    assert_eq!(errors.diagnostics.len(), 1);
}

#[test]
fn synchronize_resumes_at_a_keyword() {
    let mut errors = ErrorHandler::new();
    let mut parser = Parser::new(tokens_of("+ 1 2 print 3"));
    assert!(parser.parse(&mut errors).is_none());
    parser.synchronize();
    assert!(parser.parse(&mut errors).is_none());
    assert_eq!(errors.diagnostics.len(), 2);
    assert_eq!(errors.diagnostics[1].location, " at'print'");
}

#[test]
fn synchronize_stops_at_the_end() {
    let mut errors = ErrorHandler::new();
    let mut parser = Parser::new(tokens_of("+ 1 2"));
    assert!(parser.parse(&mut errors).is_none());
    parser.synchronize();
    parser.synchronize();
    assert!(parser.parse(&mut errors).is_none());
    assert_eq!(errors.diagnostics[1].location, "at end");
    let mut parser = Parser::new(tokens_of(""));
    parser.synchronize();
    assert!(parser.parse(&mut errors).is_none());
}

#[test]
fn parsed_literals_carry_the_token_values() {
    let (expr, _) = parse("\"a b\"");
    match expr.unwrap() {
        Expr::Literal(l) => assert_eq!(l.value, LiteralType::String("a b".to_string())),
        other => panic!("{:?}", other),
    }
    let (expr, _) = parse("0.25");
    match expr.unwrap() {
        Expr::Literal(l) => assert_eq!(l.value, LiteralType::Number(0.25f64.to_bits())),
        other => panic!("{:?}", other),
    }
}

fn reparse(expr: Expr) -> (Option<Expr>, ErrorHandler) {
    let text = AstPrinter::print(expr, &show);
    let mut errors = ErrorHandler::new();
    let mut scanner = Scanner::new(text, &to_number);
    let tokens = scanner.scan_tokens(&mut errors).clone();
    let mut parser = Parser::new(tokens);
    let expr = parser.parse(&mut errors);
    (expr, errors)
}

fn literal(value: LiteralType) -> Expr {
    Expr::Literal(rlox::expr::Literal { value })
}

#[test]
fn printed_booleans_and_numbers_read_back() {
    for value in [
        LiteralType::Bool(true),
        LiteralType::Bool(false),
        LiteralType::Number(0.0f64.to_bits()),
        LiteralType::Number(123.0f64.to_bits()),
        LiteralType::Number(45.67f64.to_bits()),
        LiteralType::Number(0.1f64.to_bits()),
        LiteralType::Number(1e21f64.to_bits()),
    ] {
        let (expr, errors) = reparse(literal(value.clone()));
        assert!(!errors.had_error);
        match expr.unwrap() {
            Expr::Literal(l) => assert_eq!(l.value, value),
            other => panic!("{:?}", other),
        }
    }
}

#[test]
fn prefix_form_does_not_read_back() {
    let (expr, _) = parse("1 + 2");
    let (again, errors) = reparse(expr.unwrap());
    assert!(again.is_none());
    assert_eq!(errors.diagnostics[0].render(), "[line: 1] Error  at'+': Expect expression.");
    let (again, _) = reparse(literal(LiteralType::Nil));
    assert!(again.is_none());
    let (again, _) = reparse(literal(LiteralType::Number((-5.0f64).to_bits())));
    assert!(matches!(again.unwrap(), Expr::Unary(_)));
    let (again, _) = reparse(literal(LiteralType::String("abc".to_string())));
    assert!(again.is_none());
}

fn kinds_of(expr: &Expr, out: &mut Vec<TokenType>) {
    match expr {
        Expr::Literal(l) => out.push(match &l.value {
            LiteralType::String(_) => TokenType::String,
            LiteralType::Number(_) => TokenType::Number,
            LiteralType::Bool(true) => TokenType::True,
            LiteralType::Bool(false) => TokenType::False,
            LiteralType::Nil => TokenType::Nil,
            LiteralType::Absent => panic!("a literal without a value"),
        }),
        Expr::Grouping(g) => {
            out.push(TokenType::LeftParen);
            kinds_of(&g.expression, out);
            out.push(TokenType::RightParen);
        }
        Expr::Unary(u) => {
            out.push(u.operator.token_type);
            kinds_of(&u.right, out);
        }
        Expr::Binary(b) => {
            kinds_of(&b.left, out);
            out.push(b.operator.token_type);
            kinds_of(&b.right, out);
        }
        Expr::Comma(c) => {
            kinds_of(&c.left, out);
            out.push(TokenType::Comma);
            kinds_of(&c.right, out);
        }
        Expr::Ternary(t) => {
            kinds_of(&t.condition, out);
            out.push(TokenType::Question);
            kinds_of(&t.then_branch, out);
            out.push(TokenType::Colon);
            kinds_of(&t.else_branch, out);
        }
    }
}

#[test]
fn a_tree_is_written_as_the_tokens_read() {
    for source in [
        "1",
        "-1 * (2 + 3) / 4 - 5",
        "!(1 < 2) == false ? \"a\" + \"b\" : nil, true",
        "1 ? 2 : 3 ? 4 : 5",
        "((1, 2), 3) >= -!-4 != (5 <= 6)",
    ] {
        let tokens = tokens_of(source);
        let mut expected: Vec<TokenType> = tokens.iter().map(|t| t.token_type).collect();
        assert_eq!(expected.pop(), Some(TokenType::EOF));
        let (expr, _) = parse(source);
        let mut kinds = Vec::new();
        kinds_of(&expr.unwrap(), &mut kinds);
        assert_eq!(kinds, expected, "{}", source);
    }
}

fn sign(token_type: TokenType, lexeme: &str) -> Token {
    Token::new(token_type, lexeme.to_string(), LiteralType::Absent, 1)
}

fn tokens_written(expr: &Expr, out: &mut Vec<Token>) {
    match expr {
        Expr::Literal(l) => out.push(match &l.value {
            LiteralType::Bool(true) => sign(TokenType::True, "true"),
            LiteralType::Bool(false) => sign(TokenType::False, "false"),
            LiteralType::Nil => sign(TokenType::Nil, "nil"),
            LiteralType::Number(_) => Token::new(TokenType::Number, String::new(), l.value.clone(), 1),
            _ => Token::new(TokenType::String, String::new(), l.value.clone(), 1),
        }),
        Expr::Grouping(g) => {
            out.push(sign(TokenType::LeftParen, "("));
            tokens_written(&g.expression, out);
            out.push(sign(TokenType::RightParen, ")"));
        }
        Expr::Unary(u) => {
            out.push(u.operator.clone());
            tokens_written(&u.right, out);
        }
        Expr::Binary(b) => {
            tokens_written(&b.left, out);
            out.push(b.operator.clone());
            tokens_written(&b.right, out);
        }
        Expr::Comma(c) => {
            tokens_written(&c.left, out);
            out.push(sign(TokenType::Comma, ","));
            tokens_written(&c.right, out);
        }
        Expr::Ternary(t) => {
            tokens_written(&t.condition, out);
            out.push(sign(TokenType::Question, "?"));
            tokens_written(&t.then_branch, out);
            out.push(sign(TokenType::Colon, ":"));
            tokens_written(&t.else_branch, out);
        }
    }
}

#[test]
fn a_parsed_tree_written_as_tokens_reads_back() {
    for source in [
        "1",
        "\"a\"",
        "nil",
        "-1 * (2 + 3) / 4 - 5",
        "!(1 < 2) == false ? \"a\" + \"b\" : nil, true",
        "1 ? 2 : 3 ? 4 : 5",
        "((1, 2), 3) >= -!-4 != (5 <= 6)",
        "1 - 2 - 3 - (4 - (5 - 6))",
        "1 == 2 == 3 < 4 < 5 + 6 + 7 * 8 * 9",
    ] {
        let (expr, _) = parse(source);
        let expr = expr.unwrap();
        let mut tokens = Vec::new();
        tokens_written(&expr, &mut tokens);
        tokens.push(sign(TokenType::EOF, ""));
        let mut errors = ErrorHandler::new();
        let again = Parser::new(tokens).parse(&mut errors).unwrap();
        assert!(!errors.had_error);
        assert_eq!(format!("{:?}", again), format!("{:?}", expr), "{}", source);
    }
}
