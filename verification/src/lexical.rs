//! The lexical grammar: what the scanner finds in a source text, as functions
//! on sequences of characters.

use vstd::prelude::*;
use crate::error_handler::DiagnosticView;
use crate::token::{LiteralView, TokenView};
use crate::token_type::TokenType;

verus! {

/// A decimal digit.
pub open spec fn is_digit(c: char) -> bool {
    '0' <= c <= '9'
}

/// A letter of the ASCII alphabet or an underscore.
pub open spec fn is_alpha(c: char) -> bool {
    ('a' <= c <= 'z') || ('A' <= c <= 'Z') || c == '_'
}

/// A character that may follow the first of a word.
pub open spec fn is_alphanumeric(c: char) -> bool {
    is_alpha(c) || is_digit(c)
}

/// The classes of character of which the scanner reads runs.
#[derive(Clone, Copy, PartialEq, Eq, Structural, Debug)]
pub enum CharClass {
    /// Decimal digits: the parts of a number.
    Digit,
    /// Letters, digits and underscores: the rest of a word.
    Word,
    /// Everything but a line feed: the rest of a line comment.
    CommentText,
    /// Everything but a double quote: the inside of a string.
    StringText,
}

/// Whether `c` belongs to `class`.
pub open spec fn in_class(class: CharClass, c: char) -> bool {
    match class {
        CharClass::Digit => is_digit(c),
        CharClass::Word => is_alphanumeric(c),
        CharClass::CommentText => c != '\n',
        CharClass::StringText => c != '"',
    }
}

/// The character at index `i`, or the null character past the end.
pub open spec fn char_at(src: Seq<char>, i: int) -> char {
    if 0 <= i < src.len() {
        src[i]
    } else {
        '\0'
    }
}

/// How many characters from index `from` on belong to `class` without a
/// break.
pub open spec fn run(src: Seq<char>, from: int, class: CharClass) -> nat
    decreases src.len() - from,
{
    if 0 <= from < src.len() && in_class(class, src[from]) {
        1 + run(src, from + 1, class)
    } else {
        0
    }
}

/// How many of the characters from index `from` up to `to` are line feeds.
pub open spec fn newlines(src: Seq<char>, from: int, to: int) -> nat
    decreases to - from,
{
    if from < to {
        newlines(src, from, to - 1) + if char_at(src, to - 1) == '\n' {
            1nat
        } else {
            0nat
        }
    } else {
        0
    }
}

/// Whether a block comment opens at index `i`.
pub open spec fn opens_comment(src: Seq<char>, i: int) -> bool {
    char_at(src, i) == '/' && char_at(src, i + 1) == '*'
}

/// Whether a block comment closes at index `i`.
pub open spec fn closes_comment(src: Seq<char>, i: int) -> bool {
    char_at(src, i) == '*' && char_at(src, i + 1) == '/'
}

/// How many characters from index `from` on lie inside block comments, when
/// `depth` of them are open at `from`: up to and including the delimiter that
/// closes the outermost, or up to the end of the text.
///
/// A delimiter is read as a whole: each `/*` opens one comment more and each
/// `*/` closes the innermost.
pub open spec fn comment_len(src: Seq<char>, from: int, depth: nat) -> nat
    decreases src.len() - from,
{
    if depth == 0 || from < 0 || from >= src.len() {
        0
    } else if opens_comment(src, from) {
        2 + comment_len(src, from + 2, depth + 1)
    } else if closes_comment(src, from) {
        2 + comment_len(src, from + 2, (depth - 1) as nat)
    } else {
        1 + comment_len(src, from + 1, depth)
    }
}

/// Whether the `depth` block comments that are open at index `from` are all
/// closed before the text ends.
pub open spec fn comment_closed(src: Seq<char>, from: int, depth: nat) -> bool
    decreases src.len() - from,
{
    if depth == 0 {
        true
    } else if from < 0 || from >= src.len() {
        false
    } else if opens_comment(src, from) {
        comment_closed(src, from + 2, depth + 1)
    } else if closes_comment(src, from) {
        comment_closed(src, from + 2, (depth - 1) as nat)
    } else {
        comment_closed(src, from + 1, depth)
    }
}

/// The kind of token that a word is: a keyword's own kind, or an identifier.
pub open spec fn keyword(text: Seq<char>) -> TokenType {
    if text == "and"@ {
        TokenType::And
    } else if text == "class"@ {
        TokenType::Class
    } else if text == "else"@ {
        TokenType::Else
    } else if text == "false"@ {
        TokenType::False
    } else if text == "for"@ {
        TokenType::For
    } else if text == "fun"@ {
        TokenType::Fun
    } else if text == "if"@ {
        TokenType::If
    } else if text == "nil"@ {
        TokenType::Nil
    } else if text == "or"@ {
        TokenType::Or
    } else if text == "print"@ {
        TokenType::Print
    } else if text == "return"@ {
        TokenType::Return
    } else if text == "super"@ {
        TokenType::Super
    } else if text == "this"@ {
        TokenType::This
    } else if text == "true"@ {
        TokenType::True
    } else if text == "var"@ {
        TokenType::Var
    } else if text == "while"@ {
        TokenType::While
    } else {
        TokenType::Identifier
    }
}

/// How many characters follow the first digit of the number that starts at
/// index `pos`: the rest of its digits and, where a point is followed by a
/// digit, the point and the digits after it.
pub open spec fn number_rest(src: Seq<char>, pos: int) -> nat {
    let whole = run(src, pos + 1, CharClass::Digit);
    let point = pos + 1 + whole;
    if char_at(src, point) == '.' && is_digit(char_at(src, point + 1)) {
        whole + 1 + run(src, point + 1, CharClass::Digit)
    } else {
        whole
    }
}

/// Whether every character of `s` is a decimal digit.
pub open spec fn all_digits(s: Seq<char>) -> bool {
    forall|i: int| 0 <= i < s.len() ==> is_digit(#[trigger] s[i])
}

/// Whether `text` is digits up to index `k` and, if it goes on, a point at
/// `k` and digits after it.
pub open spec fn splits_at(text: Seq<char>, k: int) -> bool {
    &&& 0 < k <= text.len()
    &&& all_digits(text.subrange(0, k))
    &&& k == text.len() || {
        &&& text[k] == '.'
        &&& k + 1 < text.len()
        &&& all_digits(text.subrange(k + 1, text.len() as int))
    }
}

/// Whether `text` is written as a number of the language: one or more digits,
/// optionally followed by a point and one or more digits.
pub open spec fn is_number_text(text: Seq<char>) -> bool {
    exists|k: int| splits_at(text, k)
}

/// What the scanner finds at one position.
pub enum Found {
    /// A token of the given kind with the given literal.
    Token { token_type: TokenType, literal: LiteralView },
    /// White space or a comment.
    Nothing,
    /// A lexical error.
    Error { message: Seq<char> },
}

/// One step of the scanner: what it finds at a position, and how many
/// characters it consumes after the first.
pub struct Step {
    pub rest: nat,
    pub found: Found,
}

/// A token without a literal.
pub open spec fn plain(token_type: TokenType) -> Found {
    Found::Token { token_type, literal: LiteralView::Absent }
}

/// The step at a character that may be followed by `=`.
pub open spec fn with_equal(src: Seq<char>, pos: int, alone: TokenType, followed: TokenType) -> Step {
    if char_at(src, pos + 1) == '=' {
        Step { rest: 1, found: plain(followed) }
    } else {
        Step { rest: 0, found: plain(alone) }
    }
}

/// The step at a slash: a line comment, a block comment, or a division sign.
pub open spec fn slash_step(src: Seq<char>, pos: int) -> Step {
    if char_at(src, pos + 1) == '/' {
        Step { rest: 1 + run(src, pos + 2, CharClass::CommentText), found: Found::Nothing }
    } else if char_at(src, pos + 1) == '*' {
        Step {
            rest: 1 + comment_len(src, pos + 2, 1),
            found: if comment_closed(src, pos + 2, 1) {
                Found::Nothing
            } else {
                Found::Error { message: "Unterminated comment block"@ }
            },
        }
    } else {
        Step { rest: 0, found: plain(TokenType::Slash) }
    }
}

/// The step at a double quote: a string up to the next double quote, or an
/// error when there is none.
pub open spec fn string_step(src: Seq<char>, pos: int) -> Step {
    let inside = run(src, pos + 1, CharClass::StringText);
    if pos + 1 + inside < src.len() {
        Step {
            rest: inside + 1,
            found: Found::Token {
                token_type: TokenType::String,
                literal: LiteralView::String(src.subrange(pos + 1, pos + 1 + inside)),
            },
        }
    } else {
        Step { rest: inside, found: Found::Error { message: "Unterminated string"@ } }
    }
}

/// The step of the scanner at index `pos` of `src`, where `number` gives the
/// value of a number by its text.
pub open spec fn scan_step(number: spec_fn(Seq<char>) -> u64, src: Seq<char>, pos: int) -> Step {
    let c = char_at(src, pos);
    if c == '(' {
        Step { rest: 0, found: plain(TokenType::LeftParen) }
    } else if c == ')' {
        Step { rest: 0, found: plain(TokenType::RightParen) }
    } else if c == '{' {
        Step { rest: 0, found: plain(TokenType::LeftBrace) }
    } else if c == '}' {
        Step { rest: 0, found: plain(TokenType::RightBrace) }
    } else if c == ',' {
        Step { rest: 0, found: plain(TokenType::Comma) }
    } else if c == '.' {
        Step { rest: 0, found: plain(TokenType::Dot) }
    } else if c == '-' {
        Step { rest: 0, found: plain(TokenType::Minus) }
    } else if c == '+' {
        Step { rest: 0, found: plain(TokenType::Plus) }
    } else if c == ';' {
        Step { rest: 0, found: plain(TokenType::Semicolon) }
    } else if c == '*' {
        Step { rest: 0, found: plain(TokenType::Star) }
    } else if c == '?' {
        Step { rest: 0, found: plain(TokenType::Question) }
    } else if c == ':' {
        Step { rest: 0, found: plain(TokenType::Colon) }
    } else if c == '!' {
        with_equal(src, pos, TokenType::Bang, TokenType::BangEqual)
    } else if c == '=' {
        with_equal(src, pos, TokenType::Equal, TokenType::EqualEqual)
    } else if c == '<' {
        with_equal(src, pos, TokenType::Less, TokenType::LessEqual)
    } else if c == '>' {
        with_equal(src, pos, TokenType::Greater, TokenType::GreaterEqual)
    } else if c == '/' {
        slash_step(src, pos)
    } else if c == '"' {
        string_step(src, pos)
    } else if c == ' ' || c == '\r' || c == '\t' || c == '\n' {
        Step { rest: 0, found: Found::Nothing }
    } else if is_digit(c) {
        let rest = number_rest(src, pos);
        Step {
            rest,
            found: Found::Token {
                token_type: TokenType::Number,
                literal: LiteralView::Number(number(src.subrange(pos, pos + 1 + rest))),
            },
        }
    } else if is_alpha(c) {
        let rest = run(src, pos + 1, CharClass::Word);
        Step { rest, found: plain(keyword(src.subrange(pos, pos + 1 + rest))) }
    } else {
        Step { rest: 0, found: Found::Error { message: "Unexpected character. "@.push(c) } }
    }
}

/// What a scan yields: the tokens in order, the errors in order, and the line
/// that the scan ended on.
pub struct Scan {
    pub tokens: Seq<TokenView>,
    pub diagnostics: Seq<DiagnosticView>,
    pub line: nat,
}

/// The scan of `src` from index `pos` to its end, where `pos` lies on line
/// `line`. Every token and every error carries the line on which its text
/// ends.
pub open spec fn scan_from(
    number: spec_fn(Seq<char>) -> u64,
    src: Seq<char>,
    pos: int,
    line: nat,
) -> Scan
    decreases src.len() - pos,
    via scan_from_decreases
{
    if pos < 0 || pos >= src.len() {
        Scan { tokens: Seq::empty(), diagnostics: Seq::empty(), line }
    } else {
        let step = scan_step(number, src, pos);
        let end = pos + 1 + step.rest;
        let end_line = line + newlines(src, pos, end);
        let after = scan_from(number, src, end, end_line);
        match step.found {
            Found::Token { token_type, literal } => Scan {
                tokens: seq![
                    TokenView { token_type, lexeme: src.subrange(pos, end), literal, line: end_line },
                ] + after.tokens,
                ..after
            },
            Found::Nothing => after,
            Found::Error { message } => Scan {
                diagnostics: seq![
                    DiagnosticView { line: end_line, location: Seq::empty(), message },
                ] + after.diagnostics,
                ..after
            },
        }
    }
}

/// Each step of a scan ends within the text and after where it began.
#[via_fn]
proof fn scan_from_decreases(
    number: spec_fn(Seq<char>) -> u64,
    src: Seq<char>,
    pos: int,
    line: nat,
) {
    if 0 <= pos < src.len() {
        lemma_step_within(number, src, pos);
    }
}

/// A run ends within the text.
pub proof fn lemma_run_within(src: Seq<char>, from: int, class: CharClass)
    requires
        0 <= from <= src.len(),
    ensures
        from + run(src, from, class) <= src.len(),
    decreases src.len() - from,
{
    if from < src.len() && in_class(class, src[from]) {
        lemma_run_within(src, from + 1, class);
    }
}

/// A block comment ends within the text.
pub proof fn lemma_comment_within(src: Seq<char>, from: int, depth: nat)
    requires
        0 <= from <= src.len(),
    ensures
        from + comment_len(src, from, depth) <= src.len(),
    decreases src.len() - from,
{
    if depth == 0 || from >= src.len() {
    } else if opens_comment(src, from) {
        lemma_comment_within(src, from + 2, depth + 1);
    } else if closes_comment(src, from) {
        lemma_comment_within(src, from + 2, (depth - 1) as nat);
    } else {
        lemma_comment_within(src, from + 1, depth);
    }
}

/// A number ends within the text.
pub proof fn lemma_number_within(src: Seq<char>, pos: int)
    requires
        0 <= pos < src.len(),
    ensures
        pos + 1 + number_rest(src, pos) <= src.len(),
{
    lemma_run_within(src, pos + 1, CharClass::Digit);
    let point = pos + 1 + run(src, pos + 1, CharClass::Digit);
    if char_at(src, point) == '.' && is_digit(char_at(src, point + 1)) {
        lemma_run_within(src, point + 1, CharClass::Digit);
    }
}

/// Every step of the scanner ends within the text.
pub proof fn lemma_step_within(number: spec_fn(Seq<char>) -> u64, src: Seq<char>, pos: int)
    requires
        0 <= pos < src.len(),
    ensures
        pos + 1 + scan_step(number, src, pos).rest <= src.len(),
{
    let c = src[pos];
    if c == '/' {
        if char_at(src, pos + 1) == '/' {
            lemma_run_within(src, pos + 2, CharClass::CommentText);
        } else if char_at(src, pos + 1) == '*' {
            lemma_comment_within(src, pos + 2, 1);
        }
    } else if c == '"' {
        lemma_run_within(src, pos + 1, CharClass::StringText);
    } else if is_digit(c) {
        lemma_number_within(src, pos);
    } else if is_alpha(c) {
        lemma_run_within(src, pos + 1, CharClass::Word);
    }
}

/// The characters of a run belong to its class.
pub proof fn lemma_run_in_class(src: Seq<char>, from: int, class: CharClass, i: int)
    requires
        0 <= from <= i < from + run(src, from, class),
    ensures
        i < src.len(),
        in_class(class, src[i]),
    decreases i - from,
{
    if i > from {
        lemma_run_in_class(src, from + 1, class, i);
    }
}

/// The text of a number that the scanner reads is written as a number.
pub proof fn lemma_number_text(src: Seq<char>, pos: int)
    requires
        0 <= pos < src.len(),
        is_digit(src[pos]),
    ensures
        is_number_text(src.subrange(pos, pos + 1 + number_rest(src, pos))),
{
    lemma_number_within(src, pos);
    let whole = run(src, pos + 1, CharClass::Digit);
    let point = pos + 1 + whole;
    let text = src.subrange(pos, pos + 1 + number_rest(src, pos));
    let k: int = 1 + whole as int;
    assert forall|i: int| 0 <= i < k implies is_digit(#[trigger] text.subrange(0, k)[i]) by {
        if i > 0 {
            lemma_run_in_class(src, pos + 1, CharClass::Digit, pos + i);
        }
    }
    if char_at(src, point) == '.' && is_digit(char_at(src, point + 1)) {
        let tail = text.subrange(k + 1, text.len() as int);
        assert forall|i: int| 0 <= i < tail.len() implies is_digit(#[trigger] tail[i]) by {
            lemma_run_in_class(src, point + 1, CharClass::Digit, point + 1 + i);
        }
    }
    assert(splits_at(text, k));
}

/// The line feeds of a stretch are those of its two parts.
pub proof fn lemma_newlines_split(src: Seq<char>, from: int, mid: int, to: int)
    requires
        from <= mid <= to,
    ensures
        newlines(src, from, to) == newlines(src, from, mid) + newlines(src, mid, to),
    decreases to - mid,
{
    if mid < to {
        lemma_newlines_split(src, from, mid, to - 1);
    }
}

/// The token that ends every scan.
pub open spec fn end_token(line: nat) -> TokenView {
    TokenView {
        token_type: TokenType::EOF,
        lexeme: Seq::empty(),
        literal: LiteralView::Absent,
        line,
    }
}

/// The scan of a whole source text: its tokens, closed by the end marker on
/// the last line reached, and its errors.
pub open spec fn scan(number: spec_fn(Seq<char>) -> u64, src: Seq<char>) -> Scan {
    let body = scan_from(number, src, 0, 1);
    Scan { tokens: body.tokens.push(end_token(body.line)), ..body }
}

} // verus!
