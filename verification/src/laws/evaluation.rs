//! What holds of every evaluation.

use vstd::prelude::*;
use crate::error_handler::{ErrorHandlerView, RuntimeErrorView};
use crate::expr::ExprView;
use crate::grammar::{binary_node, parse, Parsed};
use crate::interpreter::{eval, operands_error, truthy};
use crate::laws::parsing::{lemma_parsed_has_no_absent, literals_match, no_absent};
use crate::lexical::{lemma_step_within, newlines, scan, scan_from, scan_step, Found};
use crate::number::{negated, ArithOp};
use crate::program::run_outcome;
use crate::token::{literal_eq, LiteralView, TokenView};
use crate::token_type::TokenType;

verus! {

/// The rounding operation that an operator of arithmetic stands for.
pub open spec fn arith_op(kind: TokenType) -> ArithOp {
    if kind == TokenType::Plus {
        ArithOp::Add
    } else if kind == TokenType::Minus {
        ArithOp::Sub
    } else if kind == TokenType::Star {
        ArithOp::Mul
    } else {
        ArithOp::Div
    }
}

/// Whether a tree is arithmetic on numbers alone: number literals, groups,
/// unary minus, and the four binary operators of arithmetic.
pub open spec fn is_arithmetic(e: ExprView) -> bool
    decreases e,
{
    match e {
        ExprView::Literal { value } => value is Number,
        ExprView::Grouping { expression } => is_arithmetic(*expression),
        ExprView::Unary { operator, right } => operator.token_type == TokenType::Minus
            && is_arithmetic(*right),
        ExprView::Binary { left, operator, right } => {
            &&& operator.token_type == TokenType::Plus || operator.token_type == TokenType::Minus
                || operator.token_type == TokenType::Star || operator.token_type
                == TokenType::Slash
            &&& is_arithmetic(*left)
            &&& is_arithmetic(*right)
        },
        _ => false,
    }
}

/// The number that a tree of arithmetic stands for, where `num` rounds: the
/// operation of each operator applied to the numbers of its operands.
pub open spec fn arithmetic_result(num: spec_fn(ArithOp, u64, u64) -> u64, e: ExprView) -> u64
    decreases e,
{
    match e {
        ExprView::Literal { value } => value->Number_0,
        ExprView::Grouping { expression } => arithmetic_result(num, *expression),
        ExprView::Unary { operator, right } => negated(arithmetic_result(num, *right)),
        ExprView::Binary { left, operator, right } => num(
            arith_op(operator.token_type),
            arithmetic_result(num, *left),
            arithmetic_result(num, *right),
        ),
        _ => 0,
    }
}

/// Arithmetic on numbers never fails, and its value is the number that the
/// tree stands for: each operator's operation, rounded by `num`, on the
/// values of its operands.
pub proof fn lemma_arithmetic_evaluates(num: spec_fn(ArithOp, u64, u64) -> u64, e: ExprView)
    requires
        is_arithmetic(e),
    ensures
        eval(num, e) == Ok::<LiteralView, RuntimeErrorView>(
            LiteralView::Number(arithmetic_result(num, e)),
        ),
    decreases e,
{
    match e {
        ExprView::Literal { value } => {},
        ExprView::Grouping { expression } => {
            lemma_arithmetic_evaluates(num, *expression);
        },
        ExprView::Unary { operator, right } => {
            lemma_arithmetic_evaluates(num, *right);
        },
        ExprView::Binary { left, operator, right } => {
            lemma_arithmetic_evaluates(num, *left);
            lemma_arithmetic_evaluates(num, *right);
        },
        _ => {},
    }
}

/// `+` gives a string only for two strings, and then the two joined; on
/// operands that are neither two numbers nor two strings it fails with the
/// error of `+`, tagged with the operator.
pub proof fn lemma_plus_joins_two_strings(
    num: spec_fn(ArithOp, u64, u64) -> u64,
    left: ExprView,
    operator: TokenView,
    right: ExprView,
)
    requires
        operator.token_type == TokenType::Plus,
        eval(num, left) is Ok,
        eval(num, right) is Ok,
    ensures
        ({
            let a = eval(num, left)->Ok_0;
            let b = eval(num, right)->Ok_0;
            let sum = eval(num, binary_node(left, operator, right));
            &&& a is String && b is String ==> sum == Ok::<LiteralView, RuntimeErrorView>(
                LiteralView::String(a->String_0 + b->String_0),
            )
            &&& sum is Ok && sum->Ok_0 is String ==> a is String && b is String
            &&& !(a is String && b is String) && !(a is Number && b is Number) ==> sum == Err::<
                LiteralView,
                RuntimeErrorView,
            >(operands_error(operator))
        }),
{
}

/// A ternary evaluates the branch that its condition chooses and no other:
/// its outcome is that of the chosen branch, whatever the other branch is.
pub proof fn lemma_ternary_takes_one_branch(
    num: spec_fn(ArithOp, u64, u64) -> u64,
    condition: ExprView,
    then_branch: ExprView,
    else_branch: ExprView,
)
    requires
        eval(num, condition) is Ok,
    ensures
        eval(
            num,
            ExprView::Ternary {
                condition: Box::new(condition),
                then_branch: Box::new(then_branch),
                else_branch: Box::new(else_branch),
            },
        ) == if truthy(eval(num, condition)->Ok_0) {
            eval(num, then_branch)
        } else {
            eval(num, else_branch)
        },
{
}

/// A comma whose left side evaluates gives what its right side gives.
pub proof fn lemma_comma_gives_the_right(
    num: spec_fn(ArithOp, u64, u64) -> u64,
    left: ExprView,
    right: ExprView,
)
    requires
        eval(num, left) is Ok,
    ensures
        eval(num, ExprView::Comma { left: Box::new(left), right: Box::new(right) }) == eval(
            num,
            right,
        ),
{
}

/// `==` and `!=` never fail on two values, and values of different variants
/// are never equal: no value is taken for one of another kind.
pub proof fn lemma_equality_has_no_coercion(
    num: spec_fn(ArithOp, u64, u64) -> u64,
    left: ExprView,
    operator: TokenView,
    right: ExprView,
)
    requires
        operator.token_type == TokenType::EqualEqual || operator.token_type
            == TokenType::BangEqual,
        eval(num, left) is Ok,
        eval(num, right) is Ok,
    ensures
        ({
            let a = eval(num, left)->Ok_0;
            let b = eval(num, right)->Ok_0;
            let same = literal_eq(a, b);
            &&& eval(num, binary_node(left, operator, right)) == Ok::<LiteralView, RuntimeErrorView>(
                LiteralView::Bool(
                    if operator.token_type == TokenType::EqualEqual {
                        same
                    } else {
                        !same
                    },
                ),
            )
            &&& same ==> (a is String <==> b is String) && (a is Number <==> b is Number) && (a
                is Bool <==> b is Bool) && (a is Nil <==> b is Nil) && (a is Absent <==> b
                is Absent)
        }),
{
}

/// An evaluation never gives the absence of a value, as long as no literal
/// of the tree is one.
pub proof fn lemma_absent_is_no_value(num: spec_fn(ArithOp, u64, u64) -> u64, e: ExprView)
    requires
        no_absent(e),
    ensures
        eval(num, e) matches Ok(value) ==> !(value is Absent),
    decreases e,
{
    match e {
        ExprView::Literal { value } => {},
        ExprView::Grouping { expression } => {
            lemma_absent_is_no_value(num, *expression);
        },
        ExprView::Unary { operator, right } => {},
        ExprView::Binary { left, operator, right } => {},
        ExprView::Comma { left, right } => {
            lemma_absent_is_no_value(num, *right);
        },
        ExprView::Ternary { condition, then_branch, else_branch } => {
            lemma_absent_is_no_value(num, *then_branch);
            lemma_absent_is_no_value(num, *else_branch);
        },
    }
}

/// Every number token of a scan carries a number and every string token a
/// string.
pub proof fn lemma_scan_matches_literals(
    number: spec_fn(Seq<char>) -> u64,
    src: Seq<char>,
    pos: int,
    line: nat,
)
    ensures
        literals_match(scan_from(number, src, pos, line).tokens),
    decreases src.len() - pos,
{
    if 0 <= pos < src.len() {
        let step = scan_step(number, src, pos);
        let end = pos + 1 + step.rest;
        let end_line = line + newlines(src, pos, end);
        lemma_step_within(number, src, pos);
        lemma_scan_matches_literals(number, src, end, end_line);
        let after = scan_from(number, src, end, end_line).tokens;
        let all = scan_from(number, src, pos, line).tokens;
        match step.found {
            Found::Token { token_type, literal } => {
                assert(token_type == TokenType::Number ==> literal is Number);
                assert(token_type == TokenType::String ==> literal is String);
                assert forall|i: int| 0 <= i < all.len() implies {
                    &&& (#[trigger] all[i]).token_type == TokenType::Number ==> all[i].literal
                        is Number
                    &&& all[i].token_type == TokenType::String ==> all[i].literal is String
                } by {
                    if i > 0 {
                        assert(all[i] == after[i - 1]);
                    }
                }
            },
            _ => {},
        }
    }
}

/// The tokens of a whole scan carry their values too.
pub proof fn lemma_scanned_tokens_match(number: spec_fn(Seq<char>) -> u64, source: Seq<char>)
    ensures
        literals_match(scan(number, source).tokens),
{
    let body = scan_from(number, source, 0, 1);
    let ts = scan(number, source).tokens;
    lemma_scan_matches_literals(number, source, 0, 1);
    assert forall|i: int| 0 <= i < ts.len() implies {
        &&& (#[trigger] ts[i]).token_type == TokenType::Number ==> ts[i].literal is Number
        &&& ts[i].token_type == TokenType::String ==> ts[i].literal is String
    } by {
        if i < body.tokens.len() {
            assert(ts[i] == body.tokens[i]);
        }
    }
}

/// No run gives the absence of a value: what a source text evaluates to is a
/// string, a number, a boolean or the null value.
pub proof fn lemma_run_gives_a_value(
    number: spec_fn(Seq<char>) -> u64,
    num: spec_fn(ArithOp, u64, u64) -> u64,
    source: Seq<char>,
    errors: ErrorHandlerView,
)
    ensures
        run_outcome(number, num, source, errors).value matches Some(value) ==> !(value is Absent),
{
    let ts = scan(number, source).tokens;
    lemma_scanned_tokens_match(number, source);
    lemma_parsed_has_no_absent(ts, 0);
    match parse(ts) {
        Parsed::Tree { expr, used } => {
            lemma_absent_is_no_value(num, expr);
        },
        Parsed::Failure { at, message } => {},
    }
}

} // verus!
