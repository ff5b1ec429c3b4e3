//! The grammar of expressions: what the parser makes of a sequence of tokens,
//! as functions on that sequence.
//!
//! From the loosest binding to the tightest:
//!
//! ```text
//! comma      -> expression ( "," expression )*
//! expression -> ternary
//! ternary    -> equality ( "?" equality ":" ternary )?
//! equality   -> comparison ( ( "!=" | "==" ) comparison )*
//! comparison -> term ( ( ">" | ">=" | "<" | "<=" ) term )*
//! term       -> factor ( ( "-" | "+" ) factor )*
//! factor     -> unary ( ( "/" | "*" ) unary )*
//! unary      -> ( "!" | "-" ) unary | primary
//! primary    -> NUMBER | STRING | "true" | "false" | "nil" | "(" comma ")"
//! ```
//!
//! Each function reads the tokens from an index on and says how many it used.
//! A sequence of operators of one level groups to the left; the else branch
//! of a ternary is itself a ternary, so that a chain of them groups to the
//! right.

use vstd::prelude::*;
use crate::expr::ExprView;
use crate::token::{LiteralView, TokenView};
use crate::token_type::TokenType;

verus! {

/// What a rule of the grammar makes of the tokens from some index on.
pub enum Parsed {
    /// An expression that takes up `used` tokens.
    Tree { expr: ExprView, used: nat },
    /// A syntax error at the token with index `at`.
    Failure { at: int, message: Seq<char> },
}

impl Parsed {
    /// The same outcome, seen from `shift` tokens further to the left.
    pub open spec fn after(self, shift: nat) -> Parsed {
        match self {
            Parsed::Tree { expr, used } => Parsed::Tree { expr, used: shift + used },
            Parsed::Failure { at, message } => self,
        }
    }
}

/// The four levels of binary operator, each with the operators it reads.
#[derive(Clone, Copy, PartialEq, Eq, Structural, Debug)]
pub enum Level {
    Equality,
    Comparison,
    Term,
    Factor,
}

/// Whether a token of kind `kind` is an operator of `level`.
pub open spec fn is_operator(level: Level, kind: TokenType) -> bool {
    match level {
        Level::Equality => kind == TokenType::BangEqual || kind == TokenType::EqualEqual,
        Level::Comparison => kind == TokenType::Greater || kind == TokenType::GreaterEqual || kind
            == TokenType::Less || kind == TokenType::LessEqual,
        Level::Term => kind == TokenType::Minus || kind == TokenType::Plus,
        Level::Factor => kind == TokenType::Slash || kind == TokenType::Star,
    }
}

/// The kind of the token at index `pos`; past the last token, the end marker.
pub open spec fn kind_at(ts: Seq<TokenView>, pos: int) -> TokenType {
    if 0 <= pos < ts.len() {
        ts[pos].token_type
    } else {
        TokenType::EOF
    }
}

/// Whether a sequence of tokens is closed by the end marker, as every scan
/// is.
pub open spec fn ends_with_eof(ts: Seq<TokenView>) -> bool {
    ts.len() > 0 && ts.last().token_type == TokenType::EOF
}

/// How many tokens lie at or after index `pos`.
pub open spec fn remaining(ts: Seq<TokenView>, pos: int) -> nat {
    if pos < ts.len() {
        (ts.len() - pos) as nat
    } else {
        0
    }
}

/// The place of a level among the rules, for the order in which they call
/// one another.
pub open spec fn rank(level: Level) -> nat {
    match level {
        Level::Factor => 0,
        Level::Term => 1,
        Level::Comparison => 2,
        Level::Equality => 3,
    }
}

/// The tree of a literal.
pub open spec fn literal(value: LiteralView) -> ExprView {
    ExprView::Literal { value }
}

/// The tree of a binary operator between two operands.
pub open spec fn binary_node(left: ExprView, operator: TokenView, right: ExprView) -> ExprView {
    ExprView::Binary { left: Box::new(left), operator, right: Box::new(right) }
}

/// `primary -> NUMBER | STRING | "true" | "false" | "nil" | "(" comma ")"`
pub open spec fn primary(ts: Seq<TokenView>, pos: int) -> Parsed
    decreases remaining(ts, pos), 0nat,
{
    let kind = kind_at(ts, pos);
    if kind == TokenType::False {
        Parsed::Tree { expr: literal(LiteralView::Bool(false)), used: 1 }
    } else if kind == TokenType::True {
        Parsed::Tree { expr: literal(LiteralView::Bool(true)), used: 1 }
    } else if kind == TokenType::Nil {
        Parsed::Tree { expr: literal(LiteralView::Nil), used: 1 }
    } else if kind == TokenType::Number || kind == TokenType::String {
        Parsed::Tree { expr: literal(ts[pos].literal), used: 1 }
    } else if kind == TokenType::LeftParen {
        match comma(ts, pos + 1) {
            Parsed::Tree { expr, used } => if kind_at(ts, pos + 1 + used) == TokenType::RightParen {
                Parsed::Tree { expr: ExprView::Grouping { expression: Box::new(expr) }, used: used + 2 }
            } else {
                Parsed::Failure { at: pos + 1 + used, message: "Expect ')' after expression."@ }
            },
            Parsed::Failure { at, message } => Parsed::Failure { at, message },
        }
    } else {
        Parsed::Failure { at: pos, message: "Expect expression."@ }
    }
}

/// `unary -> ( "!" | "-" ) unary | primary`
pub open spec fn unary(ts: Seq<TokenView>, pos: int) -> Parsed
    decreases remaining(ts, pos), 1nat,
{
    let kind = kind_at(ts, pos);
    if kind == TokenType::Bang || kind == TokenType::Minus {
        match unary(ts, pos + 1) {
            Parsed::Tree { expr, used } => Parsed::Tree {
                expr: ExprView::Unary { operator: ts[pos], right: Box::new(expr) },
                used: used + 1,
            },
            Parsed::Failure { at, message } => Parsed::Failure { at, message },
        }
    } else {
        primary(ts, pos)
    }
}

/// An operand of a binary operator of `level`: an expression of the next
/// tighter level.
pub open spec fn operand(ts: Seq<TokenView>, pos: int, level: Level) -> Parsed
    decreases remaining(ts, pos), 3 + 3 * rank(level),
{
    match level {
        Level::Equality => binary(ts, pos, Level::Comparison),
        Level::Comparison => binary(ts, pos, Level::Term),
        Level::Term => binary(ts, pos, Level::Factor),
        Level::Factor => unary(ts, pos),
    }
}

/// What follows the operand `left` of `level`, which ended before index
/// `pos`: as long as an operator of the level comes next, it and the operand
/// after it, joined to what was read before.
pub open spec fn binary_rest(ts: Seq<TokenView>, left: ExprView, pos: int, level: Level) -> Parsed
    decreases remaining(ts, pos), 2 + 3 * rank(level),
{
    if is_operator(level, kind_at(ts, pos)) {
        match operand(ts, pos + 1, level) {
            Parsed::Tree { expr, used } => binary_rest(
                ts,
                binary_node(left, ts[pos], expr),
                pos + 1 + used,
                level,
            ).after(1 + used),
            Parsed::Failure { at, message } => Parsed::Failure { at, message },
        }
    } else {
        Parsed::Tree { expr: left, used: 0 }
    }
}

/// One level of binary operators: an operand, then operators and operands
/// for as long as there are any.
pub open spec fn binary(ts: Seq<TokenView>, pos: int, level: Level) -> Parsed
    decreases remaining(ts, pos), 4 + 3 * rank(level),
{
    match operand(ts, pos, level) {
        Parsed::Tree { expr, used } => binary_rest(ts, expr, pos + used, level).after(used),
        Parsed::Failure { at, message } => Parsed::Failure { at, message },
    }
}

/// `ternary -> equality ( "?" equality ":" ternary )?`
pub open spec fn ternary(ts: Seq<TokenView>, pos: int) -> Parsed
    decreases remaining(ts, pos), 14nat,
{
    match binary(ts, pos, Level::Equality) {
        Parsed::Tree { expr: condition, used } => if kind_at(ts, pos + used) == TokenType::Question {
            ternary_branches(ts, condition, pos + used + 1).after(used + 1)
        } else {
            Parsed::Tree { expr: condition, used }
        },
        Parsed::Failure { at, message } => Parsed::Failure { at, message },
    }
}

/// The two branches of a ternary whose `?` ended before index `pos`.
pub open spec fn ternary_branches(ts: Seq<TokenView>, condition: ExprView, pos: int) -> Parsed
    decreases remaining(ts, pos), 15nat,
{
    match binary(ts, pos, Level::Equality) {
        Parsed::Tree { expr: then_branch, used } => if kind_at(ts, pos + used) == TokenType::Colon {
            match ternary(ts, pos + used + 1) {
                Parsed::Tree { expr: else_branch, used: more } => Parsed::Tree {
                    expr: ExprView::Ternary {
                        condition: Box::new(condition),
                        then_branch: Box::new(then_branch),
                        else_branch: Box::new(else_branch),
                    },
                    used: used + 1 + more,
                },
                Parsed::Failure { at, message } => Parsed::Failure { at, message },
            }
        } else {
            Parsed::Failure { at: pos + used, message: "Expect ':' after then branch."@ }
        },
        Parsed::Failure { at, message } => Parsed::Failure { at, message },
    }
}

/// `expression -> ternary`
pub open spec fn expression(ts: Seq<TokenView>, pos: int) -> Parsed
    decreases remaining(ts, pos), 16nat,
{
    ternary(ts, pos)
}

/// What follows the expression `left`, which ended before index `pos`: as
/// long as a comma comes next, it and the expression after it.
pub open spec fn comma_rest(ts: Seq<TokenView>, left: ExprView, pos: int) -> Parsed
    decreases remaining(ts, pos), 17nat,
{
    if kind_at(ts, pos) == TokenType::Comma {
        match expression(ts, pos + 1) {
            Parsed::Tree { expr, used } => comma_rest(
                ts,
                ExprView::Comma { left: Box::new(left), right: Box::new(expr) },
                pos + 1 + used,
            ).after(1 + used),
            Parsed::Failure { at, message } => Parsed::Failure { at, message },
        }
    } else {
        Parsed::Tree { expr: left, used: 0 }
    }
}

/// `comma -> expression ( "," expression )*`
pub open spec fn comma(ts: Seq<TokenView>, pos: int) -> Parsed
    decreases remaining(ts, pos), 18nat,
{
    match expression(ts, pos) {
        Parsed::Tree { expr, used } => comma_rest(ts, expr, pos + used).after(used),
        Parsed::Failure { at, message } => Parsed::Failure { at, message },
    }
}

/// The parse of a whole sequence of tokens: the widest rule at its start.
/// Tokens after the expression are not read.
pub open spec fn parse(ts: Seq<TokenView>) -> Parsed {
    comma(ts, 0)
}

/// Whether a token of kind `kind` begins a new construct, so that parsing can
/// take up again at it after an error.
pub open spec fn begins_construct(kind: TokenType) -> bool {
    kind == TokenType::Class || kind == TokenType::Fun || kind == TokenType::Var || kind
        == TokenType::For || kind == TokenType::If || kind == TokenType::While || kind
        == TokenType::Print || kind == TokenType::Return
}

/// The first index from `pos` on at which parsing can take up again: after a
/// semicolon, at a token that begins a construct, or at the end marker.
pub open spec fn resume_point(ts: Seq<TokenView>, pos: int) -> int
    decreases remaining(ts, pos),
{
    if kind_at(ts, pos) == TokenType::EOF || kind_at(ts, pos - 1) == TokenType::Semicolon
        || begins_construct(kind_at(ts, pos)) {
        pos
    } else {
        resume_point(ts, pos + 1)
    }
}

/// Where parsing takes up again after an error at index `pos`: the token at
/// `pos` is passed over, unless it is the end marker, and the next resume
/// point is looked for.
pub open spec fn synchronized(ts: Seq<TokenView>, pos: int) -> int {
    if kind_at(ts, pos) == TokenType::EOF {
        pos
    } else {
        resume_point(ts, pos + 1)
    }
}

} // verus!
