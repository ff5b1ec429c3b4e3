//! A printer of syntax trees in prefix form, for debugging:
//! `(* (- 123) (group 45.67))`.
//!
//! How a number is written is left to a function that the caller supplies.

use vstd::prelude::*;
use vstd::string::StringExecFns;
use crate::expr::{expr_view, Expr, ExprView};
use crate::token::{shown, shows, shows_all};

verus! {

/// A tree in prefix form: a literal as its value is shown; every other tree
/// in parentheses, first its name, then its operands, each after one space.
/// The name of an operator is its text, that of a group is `group`, that of a
/// sequence is `,`, and that of a choice is `?:`.
pub open spec fn printed(show: spec_fn(u64) -> Seq<char>, e: ExprView) -> Seq<char>
    decreases e,
{
    match e {
        ExprView::Binary { left, operator, right } => "("@ + operator.lexeme + " "@ + printed(
            show,
            *left,
        ) + " "@ + printed(show, *right) + ")"@,
        ExprView::Grouping { expression } => "("@ + "group"@ + " "@ + printed(show, *expression)
            + ")"@,
        ExprView::Literal { value } => shown(show, value),
        ExprView::Unary { operator, right } => "("@ + operator.lexeme + " "@ + printed(
            show,
            *right,
        ) + ")"@,
        ExprView::Comma { left, right } => "("@ + ","@ + " "@ + printed(show, *left) + " "@
            + printed(show, *right) + ")"@,
        ExprView::Ternary { condition, then_branch, else_branch } => "("@ + "?:"@ + " "@ + printed(
            show,
            *condition,
        ) + " "@ + printed(show, *then_branch) + " "@ + printed(show, *else_branch) + ")"@,
    }
}

/// The operands of a tree in prefix form, each after one space.
pub open spec fn printed_operands(show: spec_fn(u64) -> Seq<char>, exprs: Seq<ExprView>) -> Seq<
    char,
>
    decreases exprs.len(),
{
    if exprs.len() == 0 {
        Seq::empty()
    } else {
        printed_operands(show, exprs.drop_last()) + " "@ + printed(show, exprs.last())
    }
}

/// The number of nodes of a tree.
pub open spec fn size(e: ExprView) -> nat
    decreases e,
{
    match e {
        ExprView::Binary { left, operator, right } => 1 + size(*left) + size(*right),
        ExprView::Grouping { expression } => 1 + size(*expression),
        ExprView::Literal { value } => 1,
        ExprView::Unary { operator, right } => 1 + size(*right),
        ExprView::Comma { left, right } => 1 + size(*left) + size(*right),
        ExprView::Ternary { condition, then_branch, else_branch } => 1 + size(*condition) + size(
            *then_branch,
        ) + size(*else_branch),
    }
}

/// The number of nodes of some trees together.
pub open spec fn total_size(exprs: Seq<ExprView>) -> nat
    decreases exprs.len(),
{
    if exprs.len() == 0 {
        0
    } else {
        total_size(exprs.drop_last()) + size(exprs.last())
    }
}

/// The views of some trees, in order.
pub open spec fn expr_views(exprs: Seq<&Expr>) -> Seq<ExprView> {
    Seq::new(exprs.len(), |i: int| expr_view(*exprs[i]))
}

/// Prints syntax trees.
pub struct AstPrinter {}

impl AstPrinter {
    /// The tree in prefix form, where `show` writes the numbers.
    pub fn print<F: Fn(u64) -> String>(expr: Expr, show: &F) -> (output: String)
        requires
            shows_all(*show),
        ensures
            forall|sh: spec_fn(u64) -> Seq<char>|
                shows(*show, sh) ==> output@ == #[trigger] printed(sh, expr@),
    {
        Self::visit(&expr, show)
    }

    /// A name and operands in parentheses.
    fn parenthesize<F: Fn(u64) -> String>(name: &str, exprs: Vec<&Expr>, show: &F) -> (result:
        String)
        requires
            shows_all(*show),
        ensures
            forall|sh: spec_fn(u64) -> Seq<char>|
                shows(*show, sh) ==> result@ == "("@ + name@ + #[trigger] printed_operands(
                    sh,
                    expr_views(exprs@),
                ) + ")"@,
        decreases total_size(expr_views(exprs@)), 1nat,
    {
        let mut result = String::new();
        result.append("(");
        result.append(name);
        let ghost all = expr_views(exprs@);
        let mut i: usize = 0;
        while i < exprs.len()
            invariant
                i <= exprs.len(),
                shows_all(*show),
                all == expr_views(exprs@),
                total_size(all.take(i as int)) <= total_size(all),
                forall|sh: spec_fn(u64) -> Seq<char>|
                    shows(*show, sh) ==> result@ == "("@ + name@ + #[trigger] printed_operands(
                        sh,
                        all.take(i as int),
                    ),
            decreases exprs.len() - i,
        {
            proof {
                Self::lemma_total_size_take(all, i as int + 1);
                assert(all.take(i as int + 1).drop_last() =~= all.take(i as int));
            }
            result.append(" ");
            let one = Self::visit(exprs[i], show);
            result.append(one.as_str());
            proof {
                assert forall|sh: spec_fn(u64) -> Seq<char>| shows(*show, sh) implies result@
                    == "("@ + name@ + #[trigger] printed_operands(sh, all.take(i as int + 1)) by {
                    assert(one@ == printed(sh, all[i as int]));
                    assert(printed_operands(sh, all.take(i as int + 1)) == printed_operands(
                        sh,
                        all.take(i as int),
                    ) + " "@ + printed(sh, all[i as int]));
                    assert(result@ =~= "("@ + name@ + printed_operands(sh, all.take(i as int + 1)));
                }
            }
            i += 1;
        }
        result.append(")");
        proof {
            assert(all.take(exprs.len() as int) =~= all);
        }
        result
    }

    /// The trees up to an index are no larger than all of them.
    proof fn lemma_total_size_take(all: Seq<ExprView>, n: int)
        requires
            0 <= n <= all.len(),
        ensures
            total_size(all.take(n)) <= total_size(all),
        decreases all.len() - n,
    {
        if n < all.len() {
            Self::lemma_total_size_take(all, n + 1);
            assert(all.take(n + 1).drop_last() =~= all.take(n));
        } else {
            assert(all.take(n) =~= all);
        }
    }

    /// The tree in prefix form, by the kind of tree it is.
    fn visit<F: Fn(u64) -> String>(expr: &Expr, show: &F) -> (r: String)
        requires
            shows_all(*show),
        ensures
            forall|sh: spec_fn(u64) -> Seq<char>|
                shows(*show, sh) ==> r@ == #[trigger] printed(sh, expr@),
        decreases size(expr@), 0nat,
    {
        match expr {
            Expr::Binary(b) => {
                let exprs: Vec<&Expr> = vec![&*b.left, &*b.right];
                let ghost all = expr_views(exprs@);
                proof {
                    assert(all =~= seq![expr_view(*b.left), expr_view(*b.right)]);
                    Self::lemma_two(all);
                }
                let r = Self::parenthesize(b.operator.lexeme.as_str(), exprs, show);
                proof {
                    assert forall|sh: spec_fn(u64) -> Seq<char>| shows(*show, sh) implies r@
                        == #[trigger] printed(sh, expr@) by {
                        Self::lemma_two_printed(sh, all);
                        assert(r@ == "("@ + b.operator.lexeme@ + printed_operands(sh, all) + ")"@);
                        assert(r@ =~= printed(sh, expr@));
                    }
                }
                r
            },
            Expr::Grouping(g) => {
                let exprs: Vec<&Expr> = vec![&*g.expression];
                let ghost all = expr_views(exprs@);
                proof {
                    assert(all =~= seq![expr_view(*g.expression)]);
                    Self::lemma_one(all);
                }
                let r = Self::parenthesize("group", exprs, show);
                proof {
                    assert forall|sh: spec_fn(u64) -> Seq<char>| shows(*show, sh) implies r@
                        == #[trigger] printed(sh, expr@) by {
                        Self::lemma_one_printed(sh, all);
                        assert(r@ == "("@ + "group"@ + printed_operands(sh, all) + ")"@);
                        assert(r@ =~= printed(sh, expr@));
                    }
                }
                r
            },
            Expr::Literal(l) => l.value.to_text(show),
            Expr::Unary(u) => {
                let exprs: Vec<&Expr> = vec![&*u.right];
                let ghost all = expr_views(exprs@);
                proof {
                    assert(all =~= seq![expr_view(*u.right)]);
                    Self::lemma_one(all);
                }
                let r = Self::parenthesize(u.operator.lexeme.as_str(), exprs, show);
                proof {
                    assert forall|sh: spec_fn(u64) -> Seq<char>| shows(*show, sh) implies r@
                        == #[trigger] printed(sh, expr@) by {
                        Self::lemma_one_printed(sh, all);
                        assert(r@ == "("@ + u.operator.lexeme@ + printed_operands(sh, all) + ")"@);
                        assert(r@ =~= printed(sh, expr@));
                    }
                }
                r
            },
            Expr::Comma(c) => {
                let exprs: Vec<&Expr> = vec![&*c.left, &*c.right];
                let ghost all = expr_views(exprs@);
                proof {
                    assert(all =~= seq![expr_view(*c.left), expr_view(*c.right)]);
                    Self::lemma_two(all);
                }
                let r = Self::parenthesize(",", exprs, show);
                proof {
                    assert forall|sh: spec_fn(u64) -> Seq<char>| shows(*show, sh) implies r@
                        == #[trigger] printed(sh, expr@) by {
                        Self::lemma_two_printed(sh, all);
                        assert(r@ == "("@ + ","@ + printed_operands(sh, all) + ")"@);
                        assert(r@ =~= printed(sh, expr@));
                    }
                }
                r
            },
            Expr::Ternary(t) => {
                let exprs: Vec<&Expr> = vec![&*t.condition, &*t.then_branch, &*t.else_branch];
                let ghost all = expr_views(exprs@);
                proof {
                    assert(all =~= seq![
                        expr_view(*t.condition),
                        expr_view(*t.then_branch),
                        expr_view(*t.else_branch),
                    ]);
                    Self::lemma_three(all);
                }
                let r = Self::parenthesize("?:", exprs, show);
                proof {
                    assert forall|sh: spec_fn(u64) -> Seq<char>| shows(*show, sh) implies r@
                        == #[trigger] printed(sh, expr@) by {
                        Self::lemma_three_printed(sh, all);
                        assert(r@ == "("@ + "?:"@ + printed_operands(sh, all) + ")"@);
                        assert(r@ =~= printed(sh, expr@));
                    }
                }
                r
            },
        }
    }

    /// The size of one tree alone.
    proof fn lemma_one(all: Seq<ExprView>)
        requires
            all.len() == 1,
        ensures
            total_size(all) == size(all[0]),
    {
        assert(total_size(all.drop_last()) == 0);
    }

    /// The size of two trees together.
    proof fn lemma_two(all: Seq<ExprView>)
        requires
            all.len() == 2,
        ensures
            total_size(all) == size(all[0]) + size(all[1]),
    {
        Self::lemma_one(all.drop_last());
    }

    /// The size of three trees together.
    proof fn lemma_three(all: Seq<ExprView>)
        requires
            all.len() == 3,
        ensures
            total_size(all) == size(all[0]) + size(all[1]) + size(all[2]),
    {
        Self::lemma_two(all.drop_last());
    }

    /// One operand in prefix form.
    proof fn lemma_one_printed(show: spec_fn(u64) -> Seq<char>, all: Seq<ExprView>)
        requires
            all.len() == 1,
        ensures
            printed_operands(show, all) == " "@ + printed(show, all[0]),
    {
        assert(printed_operands(show, all.drop_last()) == Seq::<char>::empty());
        assert(Seq::<char>::empty() + " "@ =~= " "@);
    }

    /// Two operands in prefix form.
    proof fn lemma_two_printed(show: spec_fn(u64) -> Seq<char>, all: Seq<ExprView>)
        requires
            all.len() == 2,
        ensures
            printed_operands(show, all) == " "@ + printed(show, all[0]) + " "@ + printed(
                show,
                all[1],
            ),
    {
        Self::lemma_one_printed(show, all.drop_last());
    }

    /// Three operands in prefix form.
    proof fn lemma_three_printed(show: spec_fn(u64) -> Seq<char>, all: Seq<ExprView>)
        requires
            all.len() == 3,
        ensures
            printed_operands(show, all) == " "@ + printed(show, all[0]) + " "@ + printed(
                show,
                all[1],
            ) + " "@ + printed(show, all[2]),
    {
        Self::lemma_two_printed(show, all.drop_last());
    }
}

} // verus!
