//! What holds of every tree that the grammar gives: it nests by the binding
//! strength of its operators, it stands for exactly the tokens that were
//! used, in their order, and it can be evaluated.

use vstd::prelude::*;
use crate::expr::ExprView;
use crate::grammar::{
    binary, binary_node, binary_rest, comma, comma_rest, expression, is_operator, kind_at, operand,
    primary, rank, remaining, ternary, ternary_branches, unary, Level, Parsed,
};
use crate::interpreter::{evaluable, is_binary_operator, is_unary_operator};
use crate::token::{LiteralView, TokenView};
use crate::token_type::TokenType;

verus! {

/// How tightly the operators of a level bind: equality 2, comparison 3, term
/// 4, factor 5.
pub open spec fn level_binds(level: Level) -> nat {
    (5 - rank(level)) as nat
}

/// How tightly a binary operator binds, by its kind.
pub open spec fn operator_binds(kind: TokenType) -> nat {
    if is_operator(Level::Equality, kind) {
        2
    } else if is_operator(Level::Comparison, kind) {
        3
    } else if is_operator(Level::Term, kind) {
        4
    } else {
        5
    }
}

/// How tightly the outermost construct of a tree binds: a comma 0, a ternary
/// 1, a binary operator 2 to 5 by its level, a unary operator 6, and a
/// literal or a group 7.
pub open spec fn binds(e: ExprView) -> nat {
    match e {
        ExprView::Comma { left, right } => 0,
        ExprView::Ternary { condition, then_branch, else_branch } => 1,
        ExprView::Binary { left, operator, right } => operator_binds(operator.token_type),
        ExprView::Unary { operator, right } => 6,
        ExprView::Grouping { expression } => 7,
        ExprView::Literal { value } => 7,
    }
}

/// Whether a tree nests as precedence and associativity ask.
///
/// The left operand of a binary operator binds at least as tightly as the
/// operator and the right operand more tightly, so that operators of one
/// level group to the left and tighter operators lie below looser ones. The
/// operand of a unary operator is unary or tighter. The condition and the
/// then branch of a ternary are equalities or tighter, and its else branch is
/// a ternary or tighter, so that ternaries group to the right. The right
/// side of a comma is no comma. Anything may stand in a group.
pub open spec fn well_nested(e: ExprView) -> bool
    decreases e,
{
    match e {
        ExprView::Literal { value } => true,
        ExprView::Grouping { expression } => well_nested(*expression),
        ExprView::Unary { operator, right } => {
            &&& is_unary_operator(operator.token_type)
            &&& binds(*right) >= 6
            &&& well_nested(*right)
        },
        ExprView::Binary { left, operator, right } => {
            &&& is_binary_operator(operator.token_type)
            &&& binds(*left) >= operator_binds(operator.token_type)
            &&& binds(*right) > operator_binds(operator.token_type)
            &&& well_nested(*left)
            &&& well_nested(*right)
        },
        ExprView::Comma { left, right } => {
            &&& binds(*right) >= 1
            &&& well_nested(*left)
            &&& well_nested(*right)
        },
        ExprView::Ternary { condition, then_branch, else_branch } => {
            &&& binds(*condition) >= 2
            &&& binds(*then_branch) >= 2
            &&& binds(*else_branch) >= 1
            &&& well_nested(*condition)
            &&& well_nested(*then_branch)
            &&& well_nested(*else_branch)
        },
    }
}

/// Whether every literal in the tree holds a value.
pub open spec fn no_absent(e: ExprView) -> bool
    decreases e,
{
    match e {
        ExprView::Literal { value } => !(value is Absent),
        ExprView::Grouping { expression } => no_absent(*expression),
        ExprView::Unary { operator, right } => no_absent(*right),
        ExprView::Binary { left, operator, right } => no_absent(*left) && no_absent(*right),
        ExprView::Comma { left, right } => no_absent(*left) && no_absent(*right),
        ExprView::Ternary { condition, then_branch, else_branch } => no_absent(*condition)
            && no_absent(*then_branch) && no_absent(*else_branch),
    }
}

/// How many tokens a tree is written as.
pub open spec fn span(e: ExprView) -> nat
    decreases e,
{
    match e {
        ExprView::Literal { value } => 1,
        ExprView::Grouping { expression } => span(*expression) + 2,
        ExprView::Unary { operator, right } => 1 + span(*right),
        ExprView::Binary { left, operator, right } => span(*left) + 1 + span(*right),
        ExprView::Comma { left, right } => span(*left) + 1 + span(*right),
        ExprView::Ternary { condition, then_branch, else_branch } => span(*condition) + 1 + span(
            *then_branch,
        ) + 1 + span(*else_branch),
    }
}

/// Whether the token at index `at` writes the literal `value`: a keyword of
/// the value, or a number or string token that carries it.
pub open spec fn literal_at(ts: Seq<TokenView>, at: int, value: LiteralView) -> bool {
    let kind = kind_at(ts, at);
    ||| kind == TokenType::True && value == LiteralView::Bool(true)
    ||| kind == TokenType::False && value == LiteralView::Bool(false)
    ||| kind == TokenType::Nil && value == LiteralView::Nil
    ||| (kind == TokenType::Number || kind == TokenType::String) && ts[at].literal == value
}

/// Whether the tokens of `ts` from index `from` on write the tree `e`, in
/// the order of the source: operands around their operators, a group in its
/// parentheses, and each operator of the tree the very token that stands
/// there.
pub open spec fn written_at(ts: Seq<TokenView>, from: int, e: ExprView) -> bool
    decreases e,
{
    match e {
        ExprView::Literal { value } => literal_at(ts, from, value),
        ExprView::Grouping { expression } => {
            &&& kind_at(ts, from) == TokenType::LeftParen
            &&& written_at(ts, from + 1, *expression)
            &&& kind_at(ts, from + 1 + span(*expression)) == TokenType::RightParen
        },
        ExprView::Unary { operator, right } => {
            &&& is_unary_operator(kind_at(ts, from))
            &&& ts[from] == operator
            &&& written_at(ts, from + 1, *right)
        },
        ExprView::Binary { left, operator, right } => {
            &&& written_at(ts, from, *left)
            &&& is_binary_operator(kind_at(ts, from + span(*left)))
            &&& ts[from + span(*left)] == operator
            &&& written_at(ts, from + span(*left) + 1, *right)
        },
        ExprView::Comma { left, right } => {
            &&& written_at(ts, from, *left)
            &&& kind_at(ts, from + span(*left)) == TokenType::Comma
            &&& written_at(ts, from + span(*left) + 1, *right)
        },
        ExprView::Ternary { condition, then_branch, else_branch } => {
            &&& written_at(ts, from, *condition)
            &&& kind_at(ts, from + span(*condition)) == TokenType::Question
            &&& written_at(ts, from + span(*condition) + 1, *then_branch)
            &&& kind_at(ts, from + span(*condition) + 1 + span(*then_branch)) == TokenType::Colon
            &&& written_at(ts, from + span(*condition) + 1 + span(*then_branch) + 1, *else_branch)
        },
    }
}

/// Whether every number token carries a number and every string token a
/// string, as the tokens of a scan do.
pub open spec fn literals_match(ts: Seq<TokenView>) -> bool {
    forall|i: int|
        0 <= i < ts.len() ==> {
            &&& (#[trigger] ts[i]).token_type == TokenType::Number ==> ts[i].literal is Number
            &&& ts[i].token_type == TokenType::String ==> ts[i].literal is String
        }
}

/// Whether `e`, read from index `start` of `ts` up to `end`, is a tree as the
/// grammar gives them: it nests well, binds at least as tightly as `least`,
/// is written as exactly the tokens read, and, where the tokens carry their
/// values, so do its literals.
pub open spec fn faithful(ts: Seq<TokenView>, start: int, end: int, e: ExprView, least: nat) -> bool {
    &&& well_nested(e)
    &&& binds(e) >= least
    &&& written_at(ts, start, e)
    &&& start + span(e) == end
    &&& literals_match(ts) ==> no_absent(e)
}

/// Whether a parse from index `start` of `ts` gave no tree, or a faithful
/// one.
pub open spec fn gives_faithful(ts: Seq<TokenView>, start: int, parsed: Parsed, least: nat) -> bool {
    match parsed {
        Parsed::Tree { expr, used } => faithful(ts, start, start + used, expr, least),
        Parsed::Failure { at, message } => true,
    }
}

/// The trees of `primary` are faithful and bind tightest.
proof fn lemma_primary_faithful(ts: Seq<TokenView>, pos: int)
    ensures
        gives_faithful(ts, pos, primary(ts, pos), 7),
    decreases remaining(ts, pos), 0nat,
{
    if kind_at(ts, pos) == TokenType::LeftParen {
        lemma_comma_faithful(ts, pos + 1);
    }
}

/// The trees of `unary` are faithful and bind as unary operators or tighter.
proof fn lemma_unary_faithful(ts: Seq<TokenView>, pos: int)
    ensures
        gives_faithful(ts, pos, unary(ts, pos), 6),
    decreases remaining(ts, pos), 1nat,
{
    let kind = kind_at(ts, pos);
    if kind == TokenType::Bang || kind == TokenType::Minus {
        lemma_unary_faithful(ts, pos + 1);
    } else {
        lemma_primary_faithful(ts, pos);
    }
}

/// The operands of a level are faithful and bind more tightly than the
/// level.
proof fn lemma_operand_faithful(ts: Seq<TokenView>, pos: int, level: Level)
    ensures
        gives_faithful(ts, pos, operand(ts, pos, level), level_binds(level) + 1),
    decreases remaining(ts, pos), 3 + 3 * rank(level),
{
    match level {
        Level::Equality => lemma_binary_faithful(ts, pos, Level::Comparison),
        Level::Comparison => lemma_binary_faithful(ts, pos, Level::Term),
        Level::Term => lemma_binary_faithful(ts, pos, Level::Factor),
        Level::Factor => lemma_unary_faithful(ts, pos),
    }
}

/// A faithful tree of a level stays one as operators and operands of the
/// level are joined to it.
proof fn lemma_binary_rest_faithful(
    ts: Seq<TokenView>,
    start: int,
    left: ExprView,
    pos: int,
    level: Level,
)
    requires
        faithful(ts, start, pos, left, level_binds(level)),
    ensures
        gives_faithful(
            ts,
            start,
            binary_rest(ts, left, pos, level).after((pos - start) as nat),
            level_binds(level),
        ),
    decreases remaining(ts, pos), 2 + 3 * rank(level),
{
    if is_operator(level, kind_at(ts, pos)) {
        lemma_operand_faithful(ts, pos + 1, level);
        match operand(ts, pos + 1, level) {
            Parsed::Tree { expr, used } => {
                let joined = binary_node(left, ts[pos], expr);
                let end = pos + 1 + used;
                assert(faithful(ts, start, end, joined, level_binds(level)));
                lemma_binary_rest_faithful(ts, start, joined, end, level);
                let rest = binary_rest(ts, joined, end, level);
                assert(binary_rest(ts, left, pos, level).after((pos - start) as nat) == rest.after(
                    (end - start) as nat,
                ));
            },
            Parsed::Failure { at, message } => {},
        }
    }
}

/// The trees of a level of binary operators are faithful and bind as the
/// level or tighter.
proof fn lemma_binary_faithful(ts: Seq<TokenView>, pos: int, level: Level)
    ensures
        gives_faithful(ts, pos, binary(ts, pos, level), level_binds(level)),
    decreases remaining(ts, pos), 4 + 3 * rank(level),
{
    lemma_operand_faithful(ts, pos, level);
    match operand(ts, pos, level) {
        Parsed::Tree { expr, used } => {
            lemma_binary_rest_faithful(ts, pos, expr, pos + used, level);
        },
        Parsed::Failure { at, message } => {},
    }
}

/// The trees of `ternary` are faithful and bind as ternaries or tighter.
proof fn lemma_ternary_faithful(ts: Seq<TokenView>, pos: int)
    ensures
        gives_faithful(ts, pos, ternary(ts, pos), 1),
    decreases remaining(ts, pos), 14nat,
{
    lemma_binary_faithful(ts, pos, Level::Equality);
    match binary(ts, pos, Level::Equality) {
        Parsed::Tree { expr, used } => {
            if kind_at(ts, pos + used) == TokenType::Question {
                lemma_ternary_branches_faithful(ts, pos, expr, pos + used + 1);
            }
        },
        Parsed::Failure { at, message } => {},
    }
}

/// A faithful condition and the branches after its `?` make a faithful
/// ternary.
proof fn lemma_ternary_branches_faithful(
    ts: Seq<TokenView>,
    start: int,
    condition: ExprView,
    pos: int,
)
    requires
        kind_at(ts, pos - 1) == TokenType::Question,
        faithful(ts, start, pos - 1, condition, 2),
    ensures
        gives_faithful(
            ts,
            start,
            ternary_branches(ts, condition, pos).after((pos - start) as nat),
            1,
        ),
    decreases remaining(ts, pos), 15nat,
{
    lemma_binary_faithful(ts, pos, Level::Equality);
    match binary(ts, pos, Level::Equality) {
        Parsed::Tree { expr: then_branch, used } => {
            let colon = pos + used;
            if kind_at(ts, colon) == TokenType::Colon {
                lemma_ternary_faithful(ts, colon + 1);
            }
        },
        Parsed::Failure { at, message } => {},
    }
}

/// A faithful tree stays one as commas and expressions are joined to it.
proof fn lemma_comma_rest_faithful(ts: Seq<TokenView>, start: int, left: ExprView, pos: int)
    requires
        faithful(ts, start, pos, left, 0),
    ensures
        gives_faithful(ts, start, comma_rest(ts, left, pos).after((pos - start) as nat), 0),
    decreases remaining(ts, pos), 17nat,
{
    if kind_at(ts, pos) == TokenType::Comma {
        lemma_ternary_faithful(ts, pos + 1);
        match expression(ts, pos + 1) {
            Parsed::Tree { expr, used } => {
                let joined = ExprView::Comma { left: Box::new(left), right: Box::new(expr) };
                let end = pos + 1 + used;
                assert(faithful(ts, start, end, joined, 0));
                lemma_comma_rest_faithful(ts, start, joined, end);
                let rest = comma_rest(ts, joined, end);
                assert(comma_rest(ts, left, pos).after((pos - start) as nat) == rest.after(
                    (end - start) as nat,
                ));
            },
            Parsed::Failure { at, message } => {},
        }
    }
}

/// The trees of `comma` are faithful.
proof fn lemma_comma_faithful(ts: Seq<TokenView>, pos: int)
    ensures
        gives_faithful(ts, pos, comma(ts, pos), 0),
    decreases remaining(ts, pos), 18nat,
{
    lemma_ternary_faithful(ts, pos);
    match expression(ts, pos) {
        Parsed::Tree { expr, used } => {
            lemma_comma_rest_faithful(ts, pos, expr, pos + used);
        },
        Parsed::Failure { at, message } => {},
    }
}

/// A tree that nests well can be evaluated: its operators are those that the
/// evaluator knows.
pub proof fn lemma_well_nested_is_evaluable(e: ExprView)
    requires
        well_nested(e),
    ensures
        evaluable(e),
    decreases e,
{
    match e {
        ExprView::Literal { value } => {},
        ExprView::Grouping { expression } => {
            lemma_well_nested_is_evaluable(*expression);
        },
        ExprView::Unary { operator, right } => {
            lemma_well_nested_is_evaluable(*right);
        },
        ExprView::Binary { left, operator, right } => {
            lemma_well_nested_is_evaluable(*left);
            lemma_well_nested_is_evaluable(*right);
        },
        ExprView::Comma { left, right } => {
            lemma_well_nested_is_evaluable(*left);
            lemma_well_nested_is_evaluable(*right);
        },
        ExprView::Ternary { condition, then_branch, else_branch } => {
            lemma_well_nested_is_evaluable(*condition);
            lemma_well_nested_is_evaluable(*then_branch);
            lemma_well_nested_is_evaluable(*else_branch);
        },
    }
}

/// Every tree that the parser gives nests as precedence and associativity
/// ask, and can be evaluated.
pub proof fn lemma_parsed_nests_well(ts: Seq<TokenView>, pos: int)
    ensures
        comma(ts, pos) matches Parsed::Tree { expr, used } ==> well_nested(expr) && evaluable(
            expr,
        ),
{
    lemma_comma_faithful(ts, pos);
    match comma(ts, pos) {
        Parsed::Tree { expr, used } => {
            lemma_well_nested_is_evaluable(expr);
        },
        Parsed::Failure { at, message } => {},
    }
}

/// A tree that the parser gives is written as exactly the tokens that were
/// used, in their order: no token is dropped, added or moved.
pub proof fn lemma_parsed_is_written_as_read(ts: Seq<TokenView>, pos: int)
    ensures
        comma(ts, pos) matches Parsed::Tree { expr, used } ==> written_at(ts, pos, expr) && span(
            expr,
        ) == used,
{
    lemma_comma_faithful(ts, pos);
}

/// Where the number and string tokens carry their values, every literal of a
/// tree that the parser gives holds a value.
pub proof fn lemma_parsed_has_no_absent(ts: Seq<TokenView>, pos: int)
    requires
        literals_match(ts),
    ensures
        comma(ts, pos) matches Parsed::Tree { expr, used } ==> no_absent(expr),
{
    lemma_comma_faithful(ts, pos);
}

/// Whether a token of kind `kind` ends an operand that binds at least as
/// tightly as `least`: it is no binary operator that binds so tightly.
pub open spec fn ends(kind: TokenType, least: nat) -> bool {
    !(is_binary_operator(kind) && operator_binds(kind) >= least)
}

/// Whether a token of kind `kind` ends an expression: it is no binary
/// operator and no `?`.
pub open spec fn ends_expression(kind: TokenType) -> bool {
    !is_binary_operator(kind) && kind != TokenType::Question
}

/// A literal or a group that is written at an index is what `primary` reads
/// there.
proof fn lemma_primary_reads(ts: Seq<TokenView>, from: int, e: ExprView)
    requires
        well_nested(e),
        written_at(ts, from, e),
        binds(e) >= 7,
    ensures
        primary(ts, from) == (Parsed::Tree { expr: e, used: span(e) }),
    decreases e, 0nat,
{
    match e {
        ExprView::Grouping { expression } => {
            lemma_written_tree_is_read_back(ts, from + 1, *expression);
        },
        _ => {},
    }
}

/// A tree that binds as a unary operator or tighter and is written at an
/// index is what `unary` reads there.
proof fn lemma_unary_reads(ts: Seq<TokenView>, from: int, e: ExprView)
    requires
        well_nested(e),
        written_at(ts, from, e),
        binds(e) >= 6,
    ensures
        unary(ts, from) == (Parsed::Tree { expr: e, used: span(e) }),
    decreases e, 1nat,
{
    match e {
        ExprView::Unary { operator, right } => {
            lemma_unary_reads(ts, from + 1, *right);
        },
        _ => {
            lemma_primary_reads(ts, from, e);
        },
    }
}

/// A tree that binds more tightly than a level and is written at an index is
/// what is read there as an operand of the level, if the token after it ends
/// the operand.
proof fn lemma_operand_reads(ts: Seq<TokenView>, from: int, e: ExprView, level: Level)
    requires
        well_nested(e),
        written_at(ts, from, e),
        binds(e) >= level_binds(level) + 1,
        ends(kind_at(ts, from + span(e)), level_binds(level) + 1),
    ensures
        operand(ts, from, level) == (Parsed::Tree { expr: e, used: span(e) }),
    decreases e, 3 + 3 * rank(level),
{
    match level {
        Level::Equality => lemma_binary_reads(ts, from, e, Level::Comparison),
        Level::Comparison => lemma_binary_reads(ts, from, e, Level::Term),
        Level::Term => lemma_binary_reads(ts, from, e, Level::Factor),
        Level::Factor => lemma_unary_reads(ts, from, e),
    }
}

/// A tree that binds as a level or tighter and is written at an index is
/// what is read there on the way through the level: after it, the level goes
/// on with what follows the tree.
proof fn lemma_binary_reads_on(ts: Seq<TokenView>, from: int, e: ExprView, level: Level)
    requires
        well_nested(e),
        written_at(ts, from, e),
        binds(e) >= level_binds(level),
        ends(kind_at(ts, from + span(e)), level_binds(level) + 1),
    ensures
        binary(ts, from, level) == binary_rest(ts, e, from + span(e), level).after(span(e)),
    decreases e, 4 + 3 * rank(level),
{
    if binds(e) >= level_binds(level) + 1 {
        lemma_operand_reads(ts, from, e, level);
    } else {
        match e {
            ExprView::Binary { left, operator, right } => {
                let at = from + span(*left);
                lemma_binary_reads_on(ts, from, *left, level);
                lemma_operand_reads(ts, at + 1, *right, level);
                assert(is_operator(level, kind_at(ts, at)));
                assert(binary_node(*left, ts[at], *right) == e);
                assert(binary_rest(ts, *left, at, level) == binary_rest(
                    ts,
                    e,
                    at + 1 + span(*right),
                    level,
                ).after(1 + span(*right)));
            },
            _ => {},
        }
    }
}

/// A tree that binds as a level or tighter and is written at an index is
/// what the level reads there, if the token after it ends the level.
proof fn lemma_binary_reads(ts: Seq<TokenView>, from: int, e: ExprView, level: Level)
    requires
        well_nested(e),
        written_at(ts, from, e),
        binds(e) >= level_binds(level),
        ends(kind_at(ts, from + span(e)), level_binds(level)),
    ensures
        binary(ts, from, level) == (Parsed::Tree { expr: e, used: span(e) }),
    decreases e, 5 + 3 * rank(level),
{
    lemma_binary_reads_on(ts, from, e, level);
    assert(!is_operator(level, kind_at(ts, from + span(e))));
}

/// A tree that is no comma and is written at an index is what `ternary`
/// reads there, if the token after it ends the expression.
proof fn lemma_ternary_reads(ts: Seq<TokenView>, from: int, e: ExprView)
    requires
        well_nested(e),
        written_at(ts, from, e),
        binds(e) >= 1,
        ends_expression(kind_at(ts, from + span(e))),
    ensures
        ternary(ts, from) == (Parsed::Tree { expr: e, used: span(e) }),
    decreases e, 15nat,
{
    match e {
        ExprView::Ternary { condition, then_branch, else_branch } => {
            let question = from + span(*condition);
            let colon = question + 1 + span(*then_branch);
            lemma_binary_reads(ts, from, *condition, Level::Equality);
            lemma_binary_reads(ts, question + 1, *then_branch, Level::Equality);
            lemma_ternary_reads(ts, colon + 1, *else_branch);
            assert(ternary_branches(ts, *condition, question + 1) == Parsed::Tree {
                expr: e,
                used: span(*then_branch) + 1 + span(*else_branch),
            });
        },
        _ => {
            lemma_binary_reads(ts, from, e, Level::Equality);
        },
    }
}

/// A tree that is written at an index is what `comma` reads there on its
/// way: after it, the rule goes on with what follows the tree.
proof fn lemma_comma_reads_on(ts: Seq<TokenView>, from: int, e: ExprView)
    requires
        well_nested(e),
        written_at(ts, from, e),
        ends_expression(kind_at(ts, from + span(e))),
    ensures
        comma(ts, from) == comma_rest(ts, e, from + span(e)).after(span(e)),
    decreases e, 16nat,
{
    match e {
        ExprView::Comma { left, right } => {
            let at = from + span(*left);
            lemma_comma_reads_on(ts, from, *left);
            lemma_ternary_reads(ts, at + 1, *right);
            assert(expression(ts, at + 1) == Parsed::Tree { expr: *right, used: span(*right) });
            assert(ExprView::Comma { left: Box::new(*left), right: Box::new(*right) } == e);
            assert(comma_rest(ts, *left, at) == comma_rest(ts, e, at + 1 + span(*right)).after(
                1 + span(*right),
            ));
        },
        _ => {
            lemma_ternary_reads(ts, from, e);
        },
    }
}

/// Reading is the inverse of writing: a tree that nests by precedence and
/// associativity and is written as tokens, with no operator, `?` or comma
/// after them, is the tree that the parser gives for those tokens.
///
/// With [`lemma_parsed_is_written_as_read`] and [`lemma_parsed_nests_well`]
/// this makes the trees of the parser exactly the well nested trees: each is
/// written as the tokens it was read from, and written as tokens anywhere it
/// is read back the same.
pub proof fn lemma_written_tree_is_read_back(ts: Seq<TokenView>, from: int, e: ExprView)
    requires
        well_nested(e),
        written_at(ts, from, e),
        ends_expression(kind_at(ts, from + span(e))),
        kind_at(ts, from + span(e)) != TokenType::Comma,
    ensures
        comma(ts, from) == (Parsed::Tree { expr: e, used: span(e) }),
    decreases e, 17nat,
{
    lemma_comma_reads_on(ts, from, e);
}

} // verus!
