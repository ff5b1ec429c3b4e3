//! The syntax tree: six kinds of expression, each owning its operands.

use vstd::prelude::*;
use crate::token::{LiteralType, LiteralView, Token, TokenView};

verus! {

/// An operator between two operands.
#[derive(Debug)]
pub struct Binary {
    pub left: Box<Expr>,
    pub operator: Token,
    pub right: Box<Expr>,
}

/// An expression in parentheses.
#[derive(Debug)]
pub struct Grouping {
    pub expression: Box<Expr>,
}

/// A value written in the source.
#[derive(Debug)]
pub struct Literal {
    pub value: LiteralType,
}

/// An operator before its operand.
#[derive(Debug)]
pub struct Unary {
    pub operator: Token,
    pub right: Box<Expr>,
}

/// Two expressions in sequence; the value is that of the second.
#[derive(Debug)]
pub struct Comma {
    pub left: Box<Expr>,
    pub right: Box<Expr>,
}

/// A choice between two expressions by the value of a third.
#[derive(Debug)]
pub struct Ternary {
    pub condition: Box<Expr>,
    pub then_branch: Box<Expr>,
    pub else_branch: Box<Expr>,
}

/// An expression.
#[derive(Debug)]
pub enum Expr {
    Binary(Binary),
    Grouping(Grouping),
    Literal(Literal),
    Unary(Unary),
    Comma(Comma),
    Ternary(Ternary),
}

/// The mathematical content of an [`Expr`]: the same tree over the views of
/// its tokens and values.
pub enum ExprView {
    Binary { left: Box<ExprView>, operator: TokenView, right: Box<ExprView> },
    Grouping { expression: Box<ExprView> },
    Literal { value: LiteralView },
    Unary { operator: TokenView, right: Box<ExprView> },
    Comma { left: Box<ExprView>, right: Box<ExprView> },
    Ternary { condition: Box<ExprView>, then_branch: Box<ExprView>, else_branch: Box<ExprView> },
}

/// The view of an expression, by recursion on the tree.
pub open spec fn expr_view(e: Expr) -> ExprView
    decreases e,
{
    match e {
        Expr::Binary(b) => ExprView::Binary {
            left: Box::new(expr_view(*b.left)),
            operator: b.operator@,
            right: Box::new(expr_view(*b.right)),
        },
        Expr::Grouping(g) => ExprView::Grouping { expression: Box::new(expr_view(*g.expression)) },
        Expr::Literal(l) => ExprView::Literal { value: l.value@ },
        Expr::Unary(u) => ExprView::Unary {
            operator: u.operator@,
            right: Box::new(expr_view(*u.right)),
        },
        Expr::Comma(c) => ExprView::Comma {
            left: Box::new(expr_view(*c.left)),
            right: Box::new(expr_view(*c.right)),
        },
        Expr::Ternary(t) => ExprView::Ternary {
            condition: Box::new(expr_view(*t.condition)),
            then_branch: Box::new(expr_view(*t.then_branch)),
            else_branch: Box::new(expr_view(*t.else_branch)),
        },
    }
}

impl View for Expr {
    type V = ExprView;

    open spec fn view(&self) -> ExprView {
        expr_view(*self)
    }
}

} // verus!
