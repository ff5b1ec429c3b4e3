use rlox::ast_printer::AstPrinter;
use rlox::expr::{Binary, Comma, Expr, Grouping, Literal, Ternary, Unary};
use rlox::token::{LiteralType, Token};
use rlox::token_type::TokenType;

fn show(bits: u64) -> String {
    format!("{}", f64::from_bits(bits))
}

fn lit(value: LiteralType) -> Box<Expr> {
    Box::new(Expr::Literal(Literal { value }))
}

#[test]
fn test_ast_printer() {
    let expr = Expr::Binary(Binary {
        left: Box::new(Expr::Unary(Unary {
            operator: Token::new(TokenType::Minus, "-".to_string(), LiteralType::Absent, 1),
            right: Box::new(Expr::Literal(Literal {
                value: LiteralType::Number(123.0f64.to_bits()),
            })),
        })),
        operator: Token::new(TokenType::Star, "*".to_string(), LiteralType::Absent, 1),
        right: Box::new(Expr::Grouping(Grouping {
            expression: Box::new(Expr::Literal(Literal {
                value: LiteralType::Number(45.67f64.to_bits()),
            })),
        })),
    });

    let result = AstPrinter::print(expr, &show);

    assert_eq!(result, "(* (- 123) (group 45.67))");
}

#[test]
fn literals_are_shown_as_values() {
    assert_eq!(AstPrinter::print(*lit(LiteralType::String("a b".to_string())), &show), "a b");
    assert_eq!(AstPrinter::print(*lit(LiteralType::Bool(true)), &show), "true");
    assert_eq!(AstPrinter::print(*lit(LiteralType::Bool(false)), &show), "false");
    assert_eq!(AstPrinter::print(*lit(LiteralType::Nil), &show), "Nil");
    assert_eq!(AstPrinter::print(*lit(LiteralType::Absent), &show), "None");
    assert_eq!(AstPrinter::print(*lit(LiteralType::Number(0.5f64.to_bits())), &show), "0.5");
}

#[test]
fn value_text() {
    assert_eq!(LiteralType::String("x".to_string()).to_text(&show), "x");
    assert_eq!(LiteralType::Number(14.0f64.to_bits()).to_text(&show), "14");
    assert_eq!(LiteralType::Number(f64::INFINITY.to_bits()).to_text(&show), "inf");
    assert_eq!(LiteralType::Bool(true).to_text(&show), "true");
    assert_eq!(LiteralType::Nil.to_text(&show), "Nil");
}

#[test]
fn comma_and_ternary_in_prefix_form() {
    let expr = Expr::Comma(Comma {
        left: lit(LiteralType::Number(1.0f64.to_bits())),
        right: lit(LiteralType::Number(2.0f64.to_bits())),
    });
    assert_eq!(AstPrinter::print(expr, &show), "(, 1 2)");
    let expr = Expr::Ternary(Ternary {
        condition: lit(LiteralType::Bool(true)),
        then_branch: lit(LiteralType::Number(1.0f64.to_bits())),
        else_branch: lit(LiteralType::Nil),
    });
    assert_eq!(AstPrinter::print(expr, &show), "(?: true 1 Nil)");
}

#[test]
fn the_number_writer_is_used_for_numbers_only() {
    fn hex(bits: u64) -> String {
        format!("{:x}", bits)
    }
    let expr = Expr::Binary(Binary {
        left: lit(LiteralType::Number(255)),
        operator: Token::new(TokenType::Plus, "+".to_string(), LiteralType::Absent, 1),
        right: lit(LiteralType::String("255".to_string())),
    });
    assert_eq!(AstPrinter::print(expr, &hex), "(+ ff 255)");
}
