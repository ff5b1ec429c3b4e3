use rlox::tool::generate_ast::{
    cut, define_ast, define_type, find, find_break, generate_ast, space, trim, two_parts, BASE_NAME,
};

fn chars(s: &str) -> Vec<char> {
    s.chars().collect()
}

fn text(v: Vec<char>) -> String {
    v.into_iter().collect()
}

#[test]
fn generated_declarations() {
    let expected = "use crate::token::{LiteralType, Token};\n\
\n\
#[derive(Debug)]\n\
pub struct Binary {\n    pub left: Box<Expr>,\n    pub operator: Token,\n    pub right: Box<Expr>,\n}\n\
\n\
#[derive(Debug)]\n\
pub struct Grouping {\n    pub expression: Box<Expr>,\n}\n\
\n\
#[derive(Debug)]\n\
pub struct Literal {\n    pub value: LiteralType,\n}\n\
\n\
#[derive(Debug)]\n\
pub struct Unary {\n    pub operator: Token,\n    pub right: Box<Expr>,\n}\n\
\n\
#[derive(Debug)]\n\
pub enum Expr {\n    Binary(Binary),\n    Grouping(Grouping),\n    Literal(Literal),\n    Unary(Unary),\n}\n\
\n\
pub trait Visitor<T> {\n    fn visit(expr: Expr) -> T;\n}\n";
    assert_eq!(generate_ast().unwrap(), expected);
    assert_eq!(BASE_NAME, "Expr");
}

#[test]
fn declarations_of_described_types() {
    let types = vec!["A = x: u8", "  B=y :  Vec<A> , z:A "];
    let expected = "use crate::token::{LiteralType, Token};\n\n\
#[derive(Debug)]\npub struct A {\n    pub x: u8,\n}\n\n\
#[derive(Debug)]\npub struct B {\n    pub y: Vec<A>,\n    pub z: A,\n}\n\n\
#[derive(Debug)]\npub enum Node {\n    A(A),\n    B(B),\n}\n\n\
pub trait Visitor<T> {\n    fn visit(expr: Node) -> T;\n}\n";
    assert_eq!(define_ast("Node", &types).unwrap(), expected);
}

#[test]
fn no_types_give_an_empty_enum() {
    let expected = "use crate::token::{LiteralType, Token};\n\n\
#[derive(Debug)]\npub enum E {\n}\n\n\
pub trait Visitor<T> {\n    fn visit(expr: E) -> T;\n}\n";
    assert_eq!(define_ast("E", &vec![]).unwrap(), expected);
}

#[test]
fn description_without_equals_sign_or_colon_gives_nothing() {
    assert_eq!(define_ast("E", &vec!["A x: u8"]), None);
    assert_eq!(define_ast("E", &vec!["A = x: u8", "B = y"]), None);
    assert_eq!(define_ast("E", &vec!["A = x: u8, , y: u9"]), None);
    assert_eq!(define_ast("E", &vec!["A = "]), None);
    assert_eq!(define_type(&chars("A"), &chars("x u8")), None);
    assert_eq!(define_type(&chars("A"), &chars("")), None);
}

#[test]
fn only_the_text_before_a_second_equals_sign_is_read() {
    let expected = "#[derive(Debug)]\npub struct A {\n    pub x: u8,\n}\n\n";
    assert_eq!(define_type(&chars("A"), &chars("x: u8")).unwrap(), expected);
    let whole = define_ast("E", &vec!["A = x: u8 = y: u9"]).unwrap();
    assert!(whole.contains(expected));
    assert!(!whole.contains("u9"));
}

#[test]
fn fields_are_parted_at_comma_and_space() {
    let expected = "#[derive(Debug)]\npub struct P {\n    pub a: (u8,u8),\n    pub b: c,\n}\n\n";
    assert_eq!(define_type(&chars("P"), &chars("a: (u8,u8), b: c: d")).unwrap(), expected);
}

#[test]
fn trim_removes_white_space_as_the_standard_library_does() {
    for s in [
        "",
        " ",
        "a",
        "  a b  ",
        "\t\n a \r\n",
        "\u{a0}x\u{3000}",
        "\u{2000}\u{200a} y z\u{2028}\u{2029}\u{202f}\u{205f}\u{1680}\u{85}",
        "\u{200b}a\u{200b}",
        " \u{b}\u{c} ",
    ] {
        assert_eq!(text(trim(&chars(s))), s.trim(), "{:?}", s);
    }
}

#[test]
fn space_is_the_white_space_of_the_standard_library() {
    for code in 0u32..0x3100 {
        if let Some(c) = char::from_u32(code) {
            assert_eq!(space(c), c.is_whitespace(), "{:x}", code);
        }
    }
    assert!(!space('\u{10ffff}'));
}

#[test]
fn parts_around_a_separator() {
    let (a, b) = two_parts(&chars(" left = right = more"), '=').unwrap();
    assert_eq!(text(a), "left");
    assert_eq!(text(b), "right");
    let (a, b) = two_parts(&chars("="), '=').unwrap();
    assert_eq!(text(a), "");
    assert_eq!(text(b), "");
    assert_eq!(two_parts(&chars("no separator"), '='), None);
    assert_eq!(two_parts(&chars(""), ':'), None);
}

#[test]
fn finding_and_cutting() {
    let v = chars("a, b,c, d");
    assert_eq!(find(&v, 0, ','), 1);
    assert_eq!(find(&v, 2, ','), 4);
    assert_eq!(find(&v, 7, ','), 9);
    assert_eq!(find(&v, 9, ','), 9);
    assert_eq!(find_break(&v, 0), 1);
    assert_eq!(find_break(&v, 2), 6);
    assert_eq!(find_break(&v, 7), 9);
    assert_eq!(find_break(&chars("a,"), 0), 2);
    assert_eq!(text(cut(&v, 3, 6)), "b,c");
    assert_eq!(text(cut(&v, 4, 4)), "");
}
