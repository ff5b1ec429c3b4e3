//! The evaluator: from a syntax tree to a value or a runtime error.
//!
//! Evaluation is eager, depth first and from left to right. What a tree
//! evaluates to is given by [`eval`]; [`Interpreter`] computes it.
//!
//! Negation, ordering and equality of numbers are decided here, on the
//! encodings. Sums, differences, products and quotients are rounded by an
//! arithmetic function that the interpreter is made with.

use vstd::prelude::*;
use vstd::string::StringExecFns;
use crate::error_handler::{ErrorHandler, RuntimeError, RuntimeErrorView};
use crate::expr::{expr_view, Binary, Comma, Expr, ExprView, Grouping, Literal, Ternary, Unary};
use crate::number::{
    greater, greater_equal, less, less_equal, negate, negated, num_le, num_lt, ArithOp,
};
use crate::token::{literal_eq, LiteralType, LiteralView, Token, TokenView};
use crate::token_type::TokenType;

verus! {

/// Whether a value counts as true: `nil` and `false` do not, everything else
/// does.
pub open spec fn truthy(value: LiteralView) -> bool {
    match value {
        LiteralView::Nil => false,
        LiteralView::Bool(b) => b,
        _ => true,
    }
}

/// The error of an arithmetic or ordering operator whose operand is no
/// number.
pub open spec fn operand_error(operator: TokenView) -> RuntimeErrorView {
    RuntimeErrorView { token: operator, message: "Operand must be a number"@ }
}

/// The error of `+` on operands that are neither two numbers nor two strings.
pub open spec fn operands_error(operator: TokenView) -> RuntimeErrorView {
    RuntimeErrorView { token: operator, message: "Operands must be two numbers or two strings."@ }
}

/// Whether a token of kind `kind` is an operator before one operand.
pub open spec fn is_unary_operator(kind: TokenType) -> bool {
    kind == TokenType::Minus || kind == TokenType::Bang
}

/// Whether a token of kind `kind` is an operator between two operands.
pub open spec fn is_binary_operator(kind: TokenType) -> bool {
    kind == TokenType::Minus || kind == TokenType::Slash || kind == TokenType::Star || kind
        == TokenType::Plus || kind == TokenType::Greater || kind == TokenType::GreaterEqual || kind
        == TokenType::Less || kind == TokenType::LessEqual || kind == TokenType::BangEqual || kind
        == TokenType::EqualEqual
}

/// Whether every operator in the tree is one that the evaluator knows: the
/// trees that can be evaluated.
pub open spec fn evaluable(e: ExprView) -> bool
    decreases e,
{
    match e {
        ExprView::Literal { value } => true,
        ExprView::Grouping { expression } => evaluable(*expression),
        ExprView::Unary { operator, right } => is_unary_operator(operator.token_type) && evaluable(
            *right,
        ),
        ExprView::Binary { left, operator, right } => is_binary_operator(operator.token_type)
            && evaluable(*left) && evaluable(*right),
        ExprView::Comma { left, right } => evaluable(*left) && evaluable(*right),
        ExprView::Ternary { condition, then_branch, else_branch } => evaluable(*condition)
            && evaluable(*then_branch) && evaluable(*else_branch),
    }
}

/// The value of a unary operator on the value of its operand: `-` negates a
/// number and fails on anything else; `!` gives whether the operand does not
/// count as true.
pub open spec fn unary_value(operator: TokenView, right: LiteralView) -> Result<
    LiteralView,
    RuntimeErrorView,
> {
    if operator.token_type == TokenType::Minus {
        match right {
            LiteralView::Number(n) => Ok(LiteralView::Number(negated(n))),
            _ => Err(operand_error(operator)),
        }
    } else {
        Ok(LiteralView::Bool(!truthy(right)))
    }
}

/// The value of an operator that takes two numbers and gives a number.
pub open spec fn arithmetic_value(
    num: spec_fn(ArithOp, u64, u64) -> u64,
    op: ArithOp,
    left: LiteralView,
    operator: TokenView,
    right: LiteralView,
) -> Result<LiteralView, RuntimeErrorView> {
    match (left, right) {
        (LiteralView::Number(a), LiteralView::Number(b)) => Ok(LiteralView::Number(num(op, a, b))),
        _ => Err(operand_error(operator)),
    }
}

/// The value of an operator that orders two numbers: `holds` says whether it
/// holds of them.
pub open spec fn ordering_value(
    holds: spec_fn(u64, u64) -> bool,
    left: LiteralView,
    operator: TokenView,
    right: LiteralView,
) -> Result<LiteralView, RuntimeErrorView> {
    match (left, right) {
        (LiteralView::Number(a), LiteralView::Number(b)) => Ok(LiteralView::Bool(holds(a, b))),
        _ => Err(operand_error(operator)),
    }
}

/// The value of `+`: the sum of two numbers, or two strings joined.
pub open spec fn plus_value(
    num: spec_fn(ArithOp, u64, u64) -> u64,
    left: LiteralView,
    operator: TokenView,
    right: LiteralView,
) -> Result<LiteralView, RuntimeErrorView> {
    match (left, right) {
        (LiteralView::Number(a), LiteralView::Number(b)) => Ok(
            LiteralView::Number(num(ArithOp::Add, a, b)),
        ),
        (LiteralView::String(a), LiteralView::String(b)) => Ok(LiteralView::String(a + b)),
        _ => Err(operands_error(operator)),
    }
}

/// The value of a binary operator on the values of its operands, where `num`
/// rounds the results of arithmetic.
pub open spec fn binary_value(
    num: spec_fn(ArithOp, u64, u64) -> u64,
    left: LiteralView,
    operator: TokenView,
    right: LiteralView,
) -> Result<LiteralView, RuntimeErrorView> {
    let kind = operator.token_type;
    if kind == TokenType::Minus {
        arithmetic_value(num, ArithOp::Sub, left, operator, right)
    } else if kind == TokenType::Slash {
        arithmetic_value(num, ArithOp::Div, left, operator, right)
    } else if kind == TokenType::Star {
        arithmetic_value(num, ArithOp::Mul, left, operator, right)
    } else if kind == TokenType::Plus {
        plus_value(num, left, operator, right)
    } else if kind == TokenType::Greater {
        ordering_value(|a: u64, b: u64| num_lt(b, a), left, operator, right)
    } else if kind == TokenType::GreaterEqual {
        ordering_value(|a: u64, b: u64| num_le(b, a), left, operator, right)
    } else if kind == TokenType::Less {
        ordering_value(|a: u64, b: u64| num_lt(a, b), left, operator, right)
    } else if kind == TokenType::LessEqual {
        ordering_value(|a: u64, b: u64| num_le(a, b), left, operator, right)
    } else if kind == TokenType::BangEqual {
        Ok(LiteralView::Bool(!literal_eq(left, right)))
    } else {
        Ok(LiteralView::Bool(literal_eq(left, right)))
    }
}

/// What a tree evaluates to, where `num` rounds the results of arithmetic.
///
/// An error in an operand is the error of the whole; of two operands the
/// left is evaluated first. A ternary evaluates its condition and then one
/// branch only. A comma evaluates both sides and gives the value of the
/// right.
pub open spec fn eval(num: spec_fn(ArithOp, u64, u64) -> u64, e: ExprView) -> Result<
    LiteralView,
    RuntimeErrorView,
>
    decreases e,
{
    match e {
        ExprView::Literal { value } => Ok(value),
        ExprView::Grouping { expression } => eval(num, *expression),
        ExprView::Unary { operator, right } => match eval(num, *right) {
            Ok(value) => unary_value(operator, value),
            Err(error) => Err(error),
        },
        ExprView::Binary { left, operator, right } => match eval(num, *left) {
            Ok(left_value) => match eval(num, *right) {
                Ok(right_value) => binary_value(num, left_value, operator, right_value),
                Err(error) => Err(error),
            },
            Err(error) => Err(error),
        },
        ExprView::Comma { left, right } => match eval(num, *left) {
            Ok(_) => eval(num, *right),
            Err(error) => Err(error),
        },
        ExprView::Ternary { condition, then_branch, else_branch } => match eval(num, *condition) {
            Ok(value) => if truthy(value) {
                eval(num, *then_branch)
            } else {
                eval(num, *else_branch)
            },
            Err(error) => Err(error),
        },
    }
}

/// The mathematical content of the result of an evaluation.
pub open spec fn outcome_view(r: Result<LiteralType, RuntimeError>) -> Result<
    LiteralView,
    RuntimeErrorView,
> {
    match r {
        Ok(value) => Ok(value@),
        Err(error) => Err(error@),
    }
}

/// Whether `f` can be called on every operation and every two numbers.
pub open spec fn rounds_all<F: Fn(ArithOp, u64, u64) -> u64>(f: F) -> bool {
    forall|op: ArithOp, a: u64, b: u64| #[trigger] f.requires((op, a, b))
}

/// Whether `num` says of every operation and every two numbers what `f`
/// returns for them.
pub open spec fn computes<F: Fn(ArithOp, u64, u64) -> u64>(
    f: F,
    num: spec_fn(ArithOp, u64, u64) -> u64,
) -> bool {
    forall|op: ArithOp, a: u64, b: u64, r: u64| #[trigger]
        f.ensures((op, a, b), r) ==> r == num(op, a, b)
}

/// Evaluates syntax trees, rounding with the arithmetic function `arith`.
pub struct Interpreter<'a, F> {
    pub arith: &'a F,
}

impl<'a, F: Fn(ArithOp, u64, u64) -> u64> Interpreter<'a, F> {
    /// An interpreter that rounds with `arith`.
    pub fn new(arith: &'a F) -> (r: Self)
        ensures
            r.arith == arith,
    {
        Self { arith }
    }

    /// Evaluates `expression`. Gives the value when there is one; reports
    /// the error to `error_handler` when there is none.
    pub fn interpret(&self, expression: Expr, error_handler: &mut ErrorHandler) -> (r: Option<
        LiteralType,
    >)
        requires
            rounds_all(*self.arith),
            evaluable(expression@),
        ensures
            forall|num: spec_fn(ArithOp, u64, u64) -> u64|
                computes(*self.arith, num) ==> match #[trigger] eval(num, expression@) {
                    Ok(value) => r is Some && r->Some_0@ == value && final(error_handler)@ == old(
                        error_handler,
                    )@,
                    Err(error) => r is None && final(error_handler)@ == old(
                        error_handler,
                    )@.failed(error),
                },
    {
        let value = self.evaluate(expression);
        match value {
            Ok(result) => Some(result),
            Err(err) => {
                error_handler.runtime_error(err);
                None
            },
        }
    }

    /// The value of `expr`, or the error that evaluating it runs into.
    pub fn evaluate(&self, expr: Expr) -> (r: Result<LiteralType, RuntimeError>)
        requires
            rounds_all(*self.arith),
            evaluable(expr@),
        ensures
            forall|num: spec_fn(ArithOp, u64, u64) -> u64|
                computes(*self.arith, num) ==> outcome_view(r) == #[trigger] eval(num, expr@),
        decreases expr, 1nat,
    {
        self.visit(expr)
    }

    /// The value of an operator before its operand.
    fn evaluate_unary(&self, unary: Unary) -> (r: Result<LiteralType, RuntimeError>)
        requires
            rounds_all(*self.arith),
            evaluable(expr_view(Expr::Unary(unary))),
        ensures
            forall|num: spec_fn(ArithOp, u64, u64) -> u64|
                computes(*self.arith, num) ==> outcome_view(r) == #[trigger] eval(
                    num,
                    expr_view(Expr::Unary(unary)),
                ),
        decreases unary, 0nat,
    {
        let ghost whole = expr_view(Expr::Unary(unary));
        let Unary { operator, right } = unary;
        let ghost operand = expr_view(*right);
        assert(whole == ExprView::Unary { operator: operator@, right: Box::new(operand) });
        let evaluated_right = match self.evaluate(*right) {
            Ok(value) => value,
            Err(error) => {
                assert forall|num: spec_fn(ArithOp, u64, u64) -> u64|
                    computes(*self.arith, num) implies Err::<LiteralView, RuntimeErrorView>(error@)
                    == #[trigger] eval(num, whole) by {
                    assert(eval(num, operand) == Err::<LiteralView, RuntimeErrorView>(error@));
                }
                return Err(error);
            },
        };
        let r = match operator.token_type {
            TokenType::Minus => match evaluated_right.as_number(operator) {
                Ok(n) => Ok(LiteralType::Number(negate(n))),
                Err(error) => Err(error),
            },
            _ => Ok(LiteralType::Bool(!Self::is_truthy(&evaluated_right))),
        };
        assert forall|num: spec_fn(ArithOp, u64, u64) -> u64|
            computes(*self.arith, num) implies outcome_view(r) == #[trigger] eval(num, whole) by {
            assert(eval(num, operand) == Ok::<LiteralView, RuntimeErrorView>(evaluated_right@));
        }
        r
    }

    /// Whether `literal` counts as true.
    pub fn is_truthy(literal: &LiteralType) -> (r: bool)
        ensures
            r == truthy(literal@),
    {
        match literal {
            LiteralType::Nil => false,
            LiteralType::Bool(value) => *value,
            _ => true,
        }
    }

    /// The value of `expr`, by the kind of tree it is.
    pub fn visit(&self, expr: Expr) -> (r: Result<LiteralType, RuntimeError>)
        requires
            rounds_all(*self.arith),
            evaluable(expr@),
        ensures
            forall|num: spec_fn(ArithOp, u64, u64) -> u64|
                computes(*self.arith, num) ==> outcome_view(r) == #[trigger] eval(num, expr@),
        decreases expr, 0nat,
    {
        match expr {
            Expr::Literal(Literal { value }) => {
                assert forall|num: spec_fn(ArithOp, u64, u64) -> u64|
                    computes(*self.arith, num) implies Ok::<LiteralView, RuntimeErrorView>(value@)
                    == #[trigger] eval(num, expr@) by {}
                Ok(value)
            },
            Expr::Grouping(Grouping { expression }) => {
                let ghost inner = expr_view(*expression);
                let r = self.evaluate(*expression);
                assert forall|num: spec_fn(ArithOp, u64, u64) -> u64|
                    computes(*self.arith, num) implies outcome_view(r) == #[trigger] eval(
                    num,
                    expr@,
                ) by {
                    assert(eval(num, expr@) == eval(num, inner));
                }
                r
            },
            Expr::Unary(unary) => self.evaluate_unary(unary),
            Expr::Binary(binary) => self.evaluate_binary(binary),
            Expr::Comma(Comma { left, right }) => {
                let ghost first = expr_view(*left);
                let ghost second = expr_view(*right);
                assert(expr@ == ExprView::Comma { left: Box::new(first), right: Box::new(second) });
                match self.evaluate(*left) {
                    Ok(_) => {},
                    Err(error) => {
                        assert forall|num: spec_fn(ArithOp, u64, u64) -> u64|
                            computes(*self.arith, num) implies Err::<LiteralView, RuntimeErrorView>(
                            error@,
                        ) == #[trigger] eval(num, expr@) by {
                            assert(eval(num, first) == Err::<LiteralView, RuntimeErrorView>(
                                error@,
                            ));
                        }
                        return Err(error);
                    },
                }
                let r = self.evaluate(*right);
                assert forall|num: spec_fn(ArithOp, u64, u64) -> u64|
                    computes(*self.arith, num) implies outcome_view(r) == #[trigger] eval(
                    num,
                    expr@,
                ) by {
                    assert(eval(num, first) is Ok);
                    assert(eval(num, second) == outcome_view(r));
                }
                r
            },
            Expr::Ternary(Ternary { condition, then_branch, else_branch }) => {
                let ghost first = expr_view(*condition);
                let ghost second = expr_view(*then_branch);
                let ghost third = expr_view(*else_branch);
                assert(expr@ == ExprView::Ternary {
                    condition: Box::new(first),
                    then_branch: Box::new(second),
                    else_branch: Box::new(third),
                });
                let chosen = match self.evaluate(*condition) {
                    Ok(value) => value,
                    Err(error) => {
                        assert forall|num: spec_fn(ArithOp, u64, u64) -> u64|
                            computes(*self.arith, num) implies Err::<LiteralView, RuntimeErrorView>(
                            error@,
                        ) == #[trigger] eval(num, expr@) by {
                            assert(eval(num, first) == Err::<LiteralView, RuntimeErrorView>(
                                error@,
                            ));
                        }
                        return Err(error);
                    },
                };
                let r = if Self::is_truthy(&chosen) {
                    self.evaluate(*then_branch)
                } else {
                    self.evaluate(*else_branch)
                };
                assert forall|num: spec_fn(ArithOp, u64, u64) -> u64|
                    computes(*self.arith, num) implies outcome_view(r) == #[trigger] eval(
                    num,
                    expr@,
                ) by {
                    assert(eval(num, first) == Ok::<LiteralView, RuntimeErrorView>(chosen@));
                    if truthy(chosen@) {
                        assert(eval(num, second) == outcome_view(r));
                    } else {
                        assert(eval(num, third) == outcome_view(r));
                    }
                }
                r
            },
        }
    }

    /// The value of an operator that takes two numbers and gives a number.
    fn arithmetic(&self, op: ArithOp, left: &LiteralType, operator: Token, right: &LiteralType) -> (r:
        Result<LiteralType, RuntimeError>)
        requires
            rounds_all(*self.arith),
        ensures
            forall|num: spec_fn(ArithOp, u64, u64) -> u64|
                #![trigger computes(*self.arith, num)]
                computes(*self.arith, num) ==> outcome_view(r) == arithmetic_value(
                    num,
                    op,
                    left@,
                    operator@,
                    right@,
                ),
    {
        match (left, right) {
            (LiteralType::Number(a), LiteralType::Number(b)) => {
                let arith = self.arith;
                Ok(LiteralType::Number(arith(op, *a, *b)))
            },
            _ => Err(RuntimeError::new(operator, "Operand must be a number")),
        }
    }

    /// The value of an operator between two operands.
    fn evaluate_binary(&self, binary: Binary) -> (r: Result<LiteralType, RuntimeError>)
        requires
            rounds_all(*self.arith),
            evaluable(expr_view(Expr::Binary(binary))),
        ensures
            forall|num: spec_fn(ArithOp, u64, u64) -> u64|
                computes(*self.arith, num) ==> outcome_view(r) == #[trigger] eval(
                    num,
                    expr_view(Expr::Binary(binary)),
                ),
        decreases binary, 0nat,
    {
        let ghost whole = expr_view(Expr::Binary(binary));
        let Binary { left, operator, right } = binary;
        let ghost first = expr_view(*left);
        let ghost second = expr_view(*right);
        assert(whole == ExprView::Binary {
            left: Box::new(first),
            operator: operator@,
            right: Box::new(second),
        });
        let evaluated_left = match self.evaluate(*left) {
            Ok(value) => value,
            Err(error) => {
                assert forall|num: spec_fn(ArithOp, u64, u64) -> u64|
                    computes(*self.arith, num) implies Err::<LiteralView, RuntimeErrorView>(error@)
                    == #[trigger] eval(num, whole) by {
                    assert(eval(num, first) == Err::<LiteralView, RuntimeErrorView>(error@));
                }
                return Err(error);
            },
        };
        let evaluated_right = match self.evaluate(*right) {
            Ok(value) => value,
            Err(error) => {
                assert forall|num: spec_fn(ArithOp, u64, u64) -> u64|
                    computes(*self.arith, num) implies Err::<LiteralView, RuntimeErrorView>(error@)
                    == #[trigger] eval(num, whole) by {
                    assert(eval(num, first) == Ok::<LiteralView, RuntimeErrorView>(
                        evaluated_left@,
                    ));
                    assert(eval(num, second) == Err::<LiteralView, RuntimeErrorView>(error@));
                }
                return Err(error);
            },
        };
        let ghost operator_view = operator@;
        let r = match operator.token_type {
            TokenType::Minus => self.arithmetic(
                ArithOp::Sub,
                &evaluated_left,
                operator,
                &evaluated_right,
            ),
            TokenType::Slash => self.arithmetic(
                ArithOp::Div,
                &evaluated_left,
                operator,
                &evaluated_right,
            ),
            TokenType::Star => self.arithmetic(
                ArithOp::Mul,
                &evaluated_left,
                operator,
                &evaluated_right,
            ),
            TokenType::Plus => match (evaluated_left, evaluated_right) {
                (LiteralType::Number(left_value), LiteralType::Number(right_value)) => {
                    let arith = self.arith;
                    Ok(LiteralType::Number(arith(ArithOp::Add, left_value, right_value)))
                },
                (LiteralType::String(left_value), LiteralType::String(right_value)) => {
                    Ok(LiteralType::String(left_value.concat(right_value.as_str())))
                },
                _ => Err(
                    RuntimeError::new(operator, "Operands must be two numbers or two strings."),
                ),
            },
            TokenType::Greater => match (
                evaluated_left.as_number(operator.clone()),
                evaluated_right.as_number(operator),
            ) {
                (Ok(a), Ok(b)) => Ok(LiteralType::Bool(greater(a, b))),
                (Err(error), _) => Err(error),
                (_, Err(error)) => Err(error),
            },
            TokenType::GreaterEqual => match (
                evaluated_left.as_number(operator.clone()),
                evaluated_right.as_number(operator),
            ) {
                (Ok(a), Ok(b)) => Ok(LiteralType::Bool(greater_equal(a, b))),
                (Err(error), _) => Err(error),
                (_, Err(error)) => Err(error),
            },
            TokenType::Less => match (
                evaluated_left.as_number(operator.clone()),
                evaluated_right.as_number(operator),
            ) {
                (Ok(a), Ok(b)) => Ok(LiteralType::Bool(less(a, b))),
                (Err(error), _) => Err(error),
                (_, Err(error)) => Err(error),
            },
            TokenType::LessEqual => match (
                evaluated_left.as_number(operator.clone()),
                evaluated_right.as_number(operator),
            ) {
                (Ok(a), Ok(b)) => Ok(LiteralType::Bool(less_equal(a, b))),
                (Err(error), _) => Err(error),
                (_, Err(error)) => Err(error),
            },
            TokenType::BangEqual => Ok(LiteralType::Bool(evaluated_left != evaluated_right)),
            _ => Ok(LiteralType::Bool(evaluated_left == evaluated_right)),
        };
        assert forall|num: spec_fn(ArithOp, u64, u64) -> u64|
            computes(*self.arith, num) implies outcome_view(r) == #[trigger] eval(num, whole) by {
            assert(eval(num, first) == Ok::<LiteralView, RuntimeErrorView>(evaluated_left@));
            assert(eval(num, second) == Ok::<LiteralView, RuntimeErrorView>(evaluated_right@));
            assert(outcome_view(r) == binary_value(
                num,
                evaluated_left@,
                operator_view,
                evaluated_right@,
            ));
        }
        r
    }
}

} // verus!
