//! Tokens and the values they carry.

use vstd::prelude::*;
use vstd::std_specs::cmp::PartialEqSpecImpl;
use vstd::string::StringExecFns;
use crate::error_handler::RuntimeError;
use crate::number::{equal, num_eq};
use crate::token_type::TokenType;

verus! {

/// The mathematical content of a [`LiteralType`].
pub enum LiteralView {
    String(Seq<char>),
    Number(u64),
    Bool(bool),
    Nil,
    Absent,
}

/// Equality of values: the same variant with an equal payload. Numbers are
/// equal as numbers, so a NaN equals nothing and the two zeros equal each
/// other. No value of one variant equals a value of another.
pub open spec fn literal_eq(a: LiteralView, b: LiteralView) -> bool {
    match (a, b) {
        (LiteralView::String(x), LiteralView::String(y)) => x == y,
        (LiteralView::Number(x), LiteralView::Number(y)) => num_eq(x, y),
        (LiteralView::Bool(x), LiteralView::Bool(y)) => x == y,
        (LiteralView::Nil, LiteralView::Nil) => true,
        (LiteralView::Absent, LiteralView::Absent) => true,
        _ => false,
    }
}

/// A value of the language, or the payload of a token.
///
/// A number is held as the encoding of an IEEE-754 binary64 value. `Nil` is
/// the language's null value; `Absent` marks a token that carries no literal and
/// is never the result of an evaluation.
#[derive(Debug)]
pub enum LiteralType {
    String(String),
    Number(u64),
    Bool(bool),
    Nil,
    Absent,
}

impl View for LiteralType {
    type V = LiteralView;

    open spec fn view(&self) -> LiteralView {
        match self {
            LiteralType::String(s) => LiteralView::String(s@),
            LiteralType::Number(n) => LiteralView::Number(*n),
            LiteralType::Bool(b) => LiteralView::Bool(*b),
            LiteralType::Nil => LiteralView::Nil,
            LiteralType::Absent => LiteralView::Absent,
        }
    }
}

impl Clone for LiteralType {
    fn clone(&self) -> (r: Self)
        ensures
            r == *self,
    {
        match self {
            LiteralType::String(s) => LiteralType::String(s.clone()),
            LiteralType::Number(n) => LiteralType::Number(*n),
            LiteralType::Bool(b) => LiteralType::Bool(*b),
            LiteralType::Nil => LiteralType::Nil,
            LiteralType::Absent => LiteralType::Absent,
        }
    }
}

impl PartialEq for LiteralType {
    fn eq(&self, other: &Self) -> (r: bool) {
        match (self, other) {
            (LiteralType::String(a), LiteralType::String(b)) => *a == *b,
            (LiteralType::Number(a), LiteralType::Number(b)) => equal(*a, *b),
            (LiteralType::Bool(a), LiteralType::Bool(b)) => *a == *b,
            (LiteralType::Nil, LiteralType::Nil) => true,
            (LiteralType::Absent, LiteralType::Absent) => true,
            _ => false,
        }
    }
}

impl PartialEqSpecImpl for LiteralType {
    open spec fn obeys_eq_spec() -> bool {
        true
    }

    open spec fn eq_spec(&self, other: &Self) -> bool {
        literal_eq(self@, other@)
    }
}

/// How a value is shown, where `show` writes the numbers: a string as it
/// is, a boolean as `true` or `false`, the null value as `Nil`, and the
/// absence of a value as `None`.
pub open spec fn shown(show: spec_fn(u64) -> Seq<char>, value: LiteralView) -> Seq<char> {
    match value {
        LiteralView::String(s) => s,
        LiteralView::Number(n) => show(n),
        LiteralView::Bool(b) => if b {
            "true"@
        } else {
            "false"@
        },
        LiteralView::Nil => "Nil"@,
        LiteralView::Absent => "None"@,
    }
}

/// Whether `f` can be called on every number.
pub open spec fn shows_all<F: Fn(u64) -> String>(f: F) -> bool {
    forall|n: u64| #[trigger] f.requires((n,))
}

/// Whether `show` says of every number what `f` writes for it.
pub open spec fn shows<F: Fn(u64) -> String>(f: F, show: spec_fn(u64) -> Seq<char>) -> bool {
    forall|n: u64, s: String| #[trigger] f.ensures((n,), s) ==> s@ == show(n)
}

impl LiteralType {
    /// The value as it is shown to the user, where `show` writes a number.
    pub fn to_text<F: Fn(u64) -> String>(&self, show: &F) -> (r: String)
        requires
            shows_all(*show),
        ensures
            forall|sh: spec_fn(u64) -> Seq<char>|
                #![trigger shows(*show, sh)]
                shows(*show, sh) ==> r@ == shown(sh, self@),
    {
        match self {
            LiteralType::String(s) => s.clone(),
            LiteralType::Number(n) => show(*n),
            LiteralType::Bool(b) => if *b {
                String::from_str("true")
            } else {
                String::from_str("false")
            },
            LiteralType::Nil => String::from_str("Nil"),
            LiteralType::Absent => String::from_str("None"),
        }
    }

    /// The number that this value is, or the error "Operand must be a number"
    /// tagged with `token` when it is no number.
    pub fn as_number(&self, token: Token) -> (r: Result<u64, RuntimeError>)
        ensures
            match self@ {
                LiteralView::Number(n) => r == Ok::<u64, RuntimeError>(n),
                _ => r is Err && r->Err_0.token == token && r->Err_0.message@
                    == "Operand must be a number"@,
            },
    {
        match self {
            LiteralType::Number(value) => Ok(*value),
            _ => Err(RuntimeError::new(token, "Operand must be a number")),
        }
    }
}

/// The mathematical content of a [`Token`].
pub struct TokenView {
    pub token_type: TokenType,
    pub lexeme: Seq<char>,
    pub literal: LiteralView,
    pub line: nat,
}

/// One lexical unit: its kind, the source text it was read from, the literal
/// it carries (or `LiteralType::Absent`), and the line on which it ends.
#[derive(PartialEq, Debug)]
pub struct Token {
    pub token_type: TokenType,
    pub lexeme: String,
    pub literal: LiteralType,
    pub line: usize,
}

impl View for Token {
    type V = TokenView;

    open spec fn view(&self) -> TokenView {
        TokenView {
            token_type: self.token_type,
            lexeme: self.lexeme@,
            literal: self.literal@,
            line: self.line as nat,
        }
    }
}

impl Clone for Token {
    fn clone(&self) -> (r: Self)
        ensures
            r == *self,
    {
        Token {
            token_type: self.token_type,
            lexeme: self.lexeme.clone(),
            literal: self.literal.clone(),
            line: self.line,
        }
    }
}

impl Token {
    /// A token of the given kind, text, literal and line.
    pub fn new(token_type: TokenType, lexeme: String, literal: LiteralType, line: usize) -> (r:
        Self)
        ensures
            r.token_type == token_type,
            r.lexeme == lexeme,
            r.literal == literal,
            r.line == line,
    {
        Token { token_type, lexeme, literal, line }
    }
}

/// A copy of `tokens`.
pub fn clone_tokens(tokens: &Vec<Token>) -> (r: Vec<Token>)
    ensures
        r@ == tokens@,
{
    let mut r: Vec<Token> = Vec::new();
    let mut i: usize = 0;
    while i < tokens.len()
        invariant
            i <= tokens.len(),
            r@ == tokens@.take(i as int),
        decreases tokens.len() - i,
    {
        r.push(tokens[i].clone());
        i += 1;
        assert(r@ =~= tokens@.take(i as int));
    }
    assert(tokens@.take(tokens.len() as int) =~= tokens@);
    r
}

/// The views of a sequence of tokens, in order.
pub open spec fn token_views(tokens: Seq<Token>) -> Seq<TokenView> {
    Seq::new(tokens.len(), |i: int| tokens[i]@)
}

} // verus!
