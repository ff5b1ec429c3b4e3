//! Writing a tree out and reading it back.
//!
//! A tree is written out as tokens by [`tokens_of`], and every tree that
//! nests by precedence and associativity is read back from its tokens
//! unchanged. The printer writes a tree as text in prefix form, for the eye;
//! of that text only a literal is source text, and reads back.

use vstd::prelude::*;
use crate::ast_printer::printed;
use crate::expr::ExprView;
use crate::grammar::{
    binary, binary_rest, comma, comma_rest, expression, is_operator, kind_at, literal, operand,
    parse, primary, ternary, unary, Level, Parsed,
};
use crate::lexical::{
    end_token, in_class, is_alpha, is_digit, is_number_text, keyword, newlines, number_rest, run,
    scan, scan_from, scan_step, splits_at, CharClass, Found, Scan,
};
use crate::laws::parsing::{
    lemma_written_tree_is_read_back, literal_at, span, well_nested, written_at,
};
use crate::token::{LiteralView, TokenView};
use crate::token_type::TokenType;

verus! {

/// A token of kind `kind` that carries no value.
pub open spec fn sign(kind: TokenType, lexeme: Seq<char>) -> TokenView {
    TokenView { token_type: kind, lexeme, literal: LiteralView::Absent, line: 1 }
}

/// The token that writes a literal: the keyword of a boolean or of the null
/// value, or else a number or string token that carries the value. Its text
/// is left empty where it would be the text of a number or a string.
pub open spec fn literal_token(value: LiteralView) -> TokenView {
    match value {
        LiteralView::Bool(b) => if b {
            sign(TokenType::True, "true"@)
        } else {
            sign(TokenType::False, "false"@)
        },
        LiteralView::Nil => sign(TokenType::Nil, "nil"@),
        LiteralView::Number(n) => TokenView {
            token_type: TokenType::Number,
            lexeme: Seq::empty(),
            literal: value,
            line: 1,
        },
        _ => TokenView {
            token_type: TokenType::String,
            lexeme: Seq::empty(),
            literal: value,
            line: 1,
        },
    }
}

/// The tokens that write a tree, in the order of the source: operands
/// around their operators, a group in its parentheses.
pub open spec fn tokens_of(e: ExprView) -> Seq<TokenView>
    decreases e,
{
    match e {
        ExprView::Literal { value } => seq![literal_token(value)],
        ExprView::Grouping { expression } => seq![sign(TokenType::LeftParen, "("@)] + tokens_of(
            *expression,
        ) + seq![sign(TokenType::RightParen, ")"@)],
        ExprView::Unary { operator, right } => seq![operator] + tokens_of(*right),
        ExprView::Binary { left, operator, right } => tokens_of(*left) + seq![operator]
            + tokens_of(*right),
        ExprView::Comma { left, right } => tokens_of(*left) + seq![sign(TokenType::Comma, ","@)]
            + tokens_of(*right),
        ExprView::Ternary { condition, then_branch, else_branch } => tokens_of(*condition)
            + seq![sign(TokenType::Question, "?"@)] + tokens_of(*then_branch) + seq![
            sign(TokenType::Colon, ":"@),
        ] + tokens_of(*else_branch),
    }
}

/// Where the tokens of a tree stand in a sequence, the tree is written
/// there.
pub proof fn lemma_tokens_write_the_tree(ts: Seq<TokenView>, from: int, e: ExprView)
    requires
        well_nested(e),
        0 <= from,
        from + tokens_of(e).len() <= ts.len(),
        ts.subrange(from, from + tokens_of(e).len()) == tokens_of(e),
    ensures
        written_at(ts, from, e),
        span(e) == tokens_of(e).len(),
    decreases e,
{
    let all = tokens_of(e);
    assert forall|i: int| 0 <= i < all.len() implies ts[from + i] == all[i] by {
        assert(ts.subrange(from, from + all.len())[i] == ts[from + i]);
    }
    match e {
        ExprView::Literal { value } => {
            assert(ts[from] == all[0]);
        },
        ExprView::Grouping { expression } => {
            let inner = tokens_of(*expression);
            assert(ts.subrange(from + 1, from + 1 + inner.len()) =~= inner) by {
                assert forall|i: int| 0 <= i < inner.len() implies ts[from + 1 + i]
                    == inner[i] by {
                    assert(all[1 + i] == inner[i]);
                }
            }
            lemma_tokens_write_the_tree(ts, from + 1, *expression);
            assert(ts[from] == all[0]);
            assert(ts[from + 1 + inner.len()] == all[1 + inner.len() as int]);
        },
        ExprView::Unary { operator, right } => {
            let inner = tokens_of(*right);
            assert(ts.subrange(from + 1, from + 1 + inner.len()) =~= inner) by {
                assert forall|i: int| 0 <= i < inner.len() implies ts[from + 1 + i]
                    == inner[i] by {
                    assert(all[1 + i] == inner[i]);
                }
            }
            lemma_tokens_write_the_tree(ts, from + 1, *right);
            assert(ts[from] == all[0]);
        },
        ExprView::Binary { left, operator, right } => {
            let first = tokens_of(*left);
            let second = tokens_of(*right);
            let at = from + first.len();
            assert(ts.subrange(from, at) =~= first) by {
                assert forall|i: int| 0 <= i < first.len() implies ts[from + i] == first[i] by {
                    assert(all[i] == first[i]);
                }
            }
            assert(ts.subrange(at + 1, at + 1 + second.len()) =~= second) by {
                assert forall|i: int| 0 <= i < second.len() implies ts[at + 1 + i]
                    == second[i] by {
                    assert(all[first.len() + 1 + i] == second[i]);
                }
            }
            lemma_tokens_write_the_tree(ts, from, *left);
            lemma_tokens_write_the_tree(ts, at + 1, *right);
            assert(ts[at] == all[first.len() as int]);
        },
        ExprView::Comma { left, right } => {
            let first = tokens_of(*left);
            let second = tokens_of(*right);
            let at = from + first.len();
            assert(ts.subrange(from, at) =~= first) by {
                assert forall|i: int| 0 <= i < first.len() implies ts[from + i] == first[i] by {
                    assert(all[i] == first[i]);
                }
            }
            assert(ts.subrange(at + 1, at + 1 + second.len()) =~= second) by {
                assert forall|i: int| 0 <= i < second.len() implies ts[at + 1 + i]
                    == second[i] by {
                    assert(all[first.len() + 1 + i] == second[i]);
                }
            }
            lemma_tokens_write_the_tree(ts, from, *left);
            lemma_tokens_write_the_tree(ts, at + 1, *right);
            assert(ts[at] == all[first.len() as int]);
        },
        ExprView::Ternary { condition, then_branch, else_branch } => {
            let first = tokens_of(*condition);
            let second = tokens_of(*then_branch);
            let third = tokens_of(*else_branch);
            let question = from + first.len();
            let colon = question + 1 + second.len();
            assert(ts.subrange(from, question) =~= first) by {
                assert forall|i: int| 0 <= i < first.len() implies ts[from + i] == first[i] by {
                    assert(all[i] == first[i]);
                }
            }
            assert(ts.subrange(question + 1, colon) =~= second) by {
                assert forall|i: int| 0 <= i < second.len() implies ts[question + 1 + i]
                    == second[i] by {
                    assert(all[first.len() + 1 + i] == second[i]);
                }
            }
            assert(ts.subrange(colon + 1, colon + 1 + third.len()) =~= third) by {
                assert forall|i: int| 0 <= i < third.len() implies ts[colon + 1 + i]
                    == third[i] by {
                    assert(all[first.len() + 1 + second.len() + 1 + i] == third[i]);
                }
            }
            lemma_tokens_write_the_tree(ts, from, *condition);
            lemma_tokens_write_the_tree(ts, question + 1, *then_branch);
            lemma_tokens_write_the_tree(ts, colon + 1, *else_branch);
            assert(ts[question] == all[first.len() as int]);
            assert(ts[colon] == all[first.len() as int + 1 + second.len()]);
        },
    }
}

/// Writing a tree out as tokens and parsing them gives the tree back, for
/// every tree that nests by precedence and associativity, and so for every
/// tree that the parser gives.
pub proof fn lemma_tokens_of_tree_read_back(e: ExprView, line: nat)
    requires
        well_nested(e),
    ensures
        parse(tokens_of(e).push(end_token(line))) == (Parsed::Tree { expr: e, used: span(e) }),
{
    let ts = tokens_of(e).push(end_token(line));
    assert(ts.subrange(0, tokens_of(e).len() as int) =~= tokens_of(e));
    lemma_tokens_write_the_tree(ts, 0, e);
    lemma_written_tree_is_read_back(ts, 0, e);
}

/// A stretch of characters of one class that ends where the text ends, or
/// before a character of another class, is a run.
pub proof fn lemma_run_exact(src: Seq<char>, from: int, to: int, class: CharClass)
    requires
        0 <= from <= to <= src.len(),
        forall|i: int| from <= i < to ==> in_class(class, #[trigger] src[i]),
        to == src.len() || !in_class(class, src[to]),
    ensures
        run(src, from, class) == to - from,
    decreases to - from,
{
    if from < to {
        lemma_run_exact(src, from + 1, to, class);
    }
}

/// A stretch without a line feed has no line feeds.
pub proof fn lemma_no_newlines(src: Seq<char>, from: int, to: int)
    requires
        0 <= from <= to <= src.len(),
        forall|i: int| from <= i < to ==> #[trigger] src[i] != '\n',
    ensures
        newlines(src, from, to) == 0,
    decreases to - from,
{
    if from < to {
        lemma_no_newlines(src, from, to - 1);
    }
}

/// A text that is written as a number is read by the scanner as one number
/// from its first character to its last.
pub proof fn lemma_number_text_is_one_number(text: Seq<char>)
    requires
        is_number_text(text),
    ensures
        text.len() > 0,
        is_digit(text[0]),
        1 + number_rest(text, 0) == text.len(),
        newlines(text, 0, text.len() as int) == 0,
{
    let k = choose|k: int| splits_at(text, k);
    let whole = text.subrange(0, k);
    assert forall|i: int| 0 <= i < k implies is_digit(#[trigger] text[i]) by {
        assert(whole[i] == text[i]);
    }
    lemma_run_exact(text, 1, k, CharClass::Digit);
    if k < text.len() {
        let tail = text.subrange(k + 1, text.len() as int);
        assert forall|i: int| k + 1 <= i < text.len() implies is_digit(#[trigger] text[i]) by {
            assert(tail[i - (k + 1)] == text[i]);
        }
        lemma_run_exact(text, k + 1, text.len() as int, CharClass::Digit);
    }
    assert forall|i: int| 0 <= i < text.len() implies #[trigger] text[i] != '\n' by {
        if i != k {
            assert(is_digit(text[i]));
        }
    }
    lemma_no_newlines(text, 0, text.len() as int);
}

/// The scan of a text that is written as a number: one number token with the
/// whole text and the value that `number` gives it, then the end marker, and
/// no error.
pub proof fn lemma_scan_of_number_text(number: spec_fn(Seq<char>) -> u64, text: Seq<char>)
    requires
        is_number_text(text),
    ensures
        scan(number, text) == (Scan {
            tokens: seq![
                TokenView {
                    token_type: TokenType::Number,
                    lexeme: text,
                    literal: LiteralView::Number(number(text)),
                    line: 1,
                },
                end_token(1),
            ],
            diagnostics: Seq::empty(),
            line: 1,
        }),
{
    lemma_number_text_is_one_number(text);
    let step = scan_step(number, text, 0);
    assert(text.subrange(0, text.len() as int) =~= text);
    assert(step.rest == number_rest(text, 0));
    assert(step.found == Found::Token {
        token_type: TokenType::Number,
        literal: LiteralView::Number(number(text)),
    });
    let after = scan_from(number, text, text.len() as int, 1);
    assert(after == Scan { tokens: Seq::empty(), diagnostics: Seq::empty(), line: 1 });
    let body = scan_from(number, text, 0, 1);
    let token = TokenView {
        token_type: TokenType::Number,
        lexeme: text,
        literal: LiteralView::Number(number(text)),
        line: 1,
    };
    assert(body.tokens =~= seq![token]);
    assert(body.tokens.push(end_token(1)) =~= seq![token, end_token(1)]);
}

/// The scan of a word: one token of the kind that the word is, then the end
/// marker, and no error.
pub proof fn lemma_scan_of_word(number: spec_fn(Seq<char>) -> u64, text: Seq<char>)
    requires
        text.len() > 0,
        is_alpha(text[0]),
        forall|i: int| 0 <= i < text.len() ==> in_class(CharClass::Word, #[trigger] text[i]),
    ensures
        scan(number, text) == (Scan {
            tokens: seq![
                TokenView {
                    token_type: keyword(text),
                    lexeme: text,
                    literal: LiteralView::Absent,
                    line: 1,
                },
                end_token(1),
            ],
            diagnostics: Seq::empty(),
            line: 1,
        }),
{
    lemma_run_exact(text, 1, text.len() as int, CharClass::Word);
    assert forall|i: int| 0 <= i < text.len() implies #[trigger] text[i] != '\n' by {
        assert(in_class(CharClass::Word, text[i]));
    }
    lemma_no_newlines(text, 0, text.len() as int);
    let step = scan_step(number, text, 0);
    assert(text.subrange(0, text.len() as int) =~= text);
    assert(step.rest == text.len() - 1);
    assert(step.found == Found::Token { token_type: keyword(text), literal: LiteralView::Absent });
    let after = scan_from(number, text, text.len() as int, 1);
    assert(after == Scan { tokens: Seq::empty(), diagnostics: Seq::empty(), line: 1 });
    let body = scan_from(number, text, 0, 1);
    let token = TokenView {
        token_type: keyword(text),
        lexeme: text,
        literal: LiteralView::Absent,
        line: 1,
    };
    assert(body.tokens =~= seq![token]);
    assert(body.tokens.push(end_token(1)) =~= seq![token, end_token(1)]);
}

/// A primary expression that no operator, `?` or comma follows is the whole
/// parse.
pub proof fn lemma_parse_of_one_primary(ts: Seq<TokenView>, pos: int)
    requires
        primary(ts, pos) is Tree,
        kind_at(ts, pos) != TokenType::Bang,
        kind_at(ts, pos) != TokenType::Minus,
        ({
            let next = kind_at(ts, pos + primary(ts, pos)->Tree_used);
            &&& !is_operator(Level::Factor, next)
            &&& !is_operator(Level::Term, next)
            &&& !is_operator(Level::Comparison, next)
            &&& !is_operator(Level::Equality, next)
            &&& next != TokenType::Question
            &&& next != TokenType::Comma
        }),
    ensures
        comma(ts, pos) == primary(ts, pos),
{
    let whole = primary(ts, pos);
    let expr = whole->Tree_expr;
    let used = whole->Tree_used;
    assert(unary(ts, pos) == whole);
    assert(operand(ts, pos, Level::Factor) == whole);
    assert(binary_rest(ts, expr, pos + used, Level::Factor) == Parsed::Tree { expr, used: 0 });
    assert(binary(ts, pos, Level::Factor) == whole);
    assert(operand(ts, pos, Level::Term) == whole);
    assert(binary_rest(ts, expr, pos + used, Level::Term) == Parsed::Tree { expr, used: 0 });
    assert(binary(ts, pos, Level::Term) == whole);
    assert(operand(ts, pos, Level::Comparison) == whole);
    assert(binary_rest(ts, expr, pos + used, Level::Comparison) == Parsed::Tree { expr, used: 0 });
    assert(binary(ts, pos, Level::Comparison) == whole);
    assert(operand(ts, pos, Level::Equality) == whole);
    assert(binary_rest(ts, expr, pos + used, Level::Equality) == Parsed::Tree { expr, used: 0 });
    assert(binary(ts, pos, Level::Equality) == whole);
    assert(ternary(ts, pos) == whole);
    assert(expression(ts, pos) == whole);
    assert(comma_rest(ts, expr, pos + used) == Parsed::Tree { expr, used: 0 });
}

/// Whether the text that a tree is printed as reads back as the same tree:
/// its scan reports no error, and the parse of its tokens is the tree.
pub open spec fn reads_back(
    number: spec_fn(Seq<char>) -> u64,
    show: spec_fn(u64) -> Seq<char>,
    e: ExprView,
) -> bool {
    let scanned = scan(number, printed(show, e));
    &&& scanned.diagnostics.len() == 0
    &&& parse(scanned.tokens) matches Parsed::Tree { expr, used }
    &&& expr == e
}

/// A literal reads back from its printed form when the form is itself
/// source text for the value: a boolean always; a number when it is written
/// as a number of the language, and `number` gives that text the number
/// back.
///
/// The printed form of every other tree is prefix notation, which the
/// grammar does not read.
pub proof fn lemma_printed_literal_reads_back(
    number: spec_fn(Seq<char>) -> u64,
    show: spec_fn(u64) -> Seq<char>,
    value: LiteralView,
)
    requires
        value is Bool || (value is Number && is_number_text(show(value->Number_0)) && number(
            show(value->Number_0),
        ) == value->Number_0),
    ensures
        reads_back(number, show, literal(value)),
{
    let text = printed(show, literal(value));
    let scanned = scan(number, text);
    match value {
        LiteralView::Number(n) => {
            lemma_scan_of_number_text(number, text);
        },
        LiteralView::Bool(b) => {
            reveal_strlit("true");
            reveal_strlit("false");
            reveal_strlit("and");
            reveal_strlit("class");
            reveal_strlit("else");
            reveal_strlit("for");
            reveal_strlit("fun");
            reveal_strlit("if");
            reveal_strlit("nil");
            reveal_strlit("or");
            reveal_strlit("print");
            reveal_strlit("return");
            reveal_strlit("super");
            reveal_strlit("this");
            if b {
                assert(text == "true"@);
                assert(text[0] == 't' && text[1] == 'r' && text[2] == 'u' && text[3] == 'e');
                assert(keyword(text) == TokenType::True);
            } else {
                assert(text == "false"@);
                assert(text[0] == 'f' && text[1] == 'a' && text[2] == 'l' && text[3] == 's'
                    && text[4] == 'e');
                assert(keyword(text) == TokenType::False);
            }
            lemma_scan_of_word(number, text);
        },
        _ => {},
    }
    let ts = scanned.tokens;
    assert(ts.len() == 2);
    assert(ts[1].token_type == TokenType::EOF);
    assert(primary(ts, 0) == Parsed::Tree { expr: literal(value), used: 1 });
    lemma_parse_of_one_primary(ts, 0);
}

} // verus!
