//! The parser: from tokens to a syntax tree, by recursive descent.

use vstd::prelude::*;
use vstd::string::StringExecFns;
use crate::error_handler::{token_diagnostic, ErrorHandler, ErrorHandlerView};
use crate::expr::{Binary, Comma, Expr, ExprView, Grouping, Literal, Ternary, Unary};
use crate::grammar::{
    binary, binary_node, binary_rest, comma, comma_rest, ends_with_eof, expression, is_operator,
    kind_at, operand, primary, rank, remaining, resume_point, synchronized, ternary, unary, Level,
    Parsed,
};
use crate::token::{token_views, LiteralType, Token, TokenView};
use crate::token_type::TokenType;

verus! {

/// Whether a rule that started at index `pos` of `ts` and should give
/// `parsed` has done so: on success `result` is the tree, the position has
/// moved past the tokens used and nothing was reported; on failure `result`
/// is the message, the position is at the offending token and the error was
/// reported at that token.
pub open spec fn parsed_as(
    ts: Seq<TokenView>,
    pos: int,
    parsed: Parsed,
    result: Result<Expr, String>,
    end: int,
    before: ErrorHandlerView,
    after: ErrorHandlerView,
) -> bool {
    match parsed {
        Parsed::Tree { expr, used } => {
            &&& result is Ok
            &&& result->Ok_0@ == expr
            &&& end == pos + used
            &&& after == before
        },
        Parsed::Failure { at, message } => {
            &&& result is Err
            &&& result->Err_0@ == message
            &&& end == at
            &&& 0 <= at < ts.len()
            &&& after == before.reported(token_diagnostic(ts[at], message))
        },
    }
}

/// Reads a sequence of tokens that is closed by the end marker.
pub struct Parser {
    tokens: Vec<Token>,
    current: usize,
}

impl Parser {
    /// The tokens.
    pub closed spec fn tokens(&self) -> Seq<TokenView> {
        token_views(self.tokens@)
    }

    /// The index of the next token to read.
    pub closed spec fn position(&self) -> int {
        self.current as int
    }

    /// The tokens are closed by the end marker and the position is the index
    /// of one of them.
    pub closed spec fn wf(&self) -> bool {
        &&& ends_with_eof(token_views(self.tokens@))
        &&& self.current < self.tokens.len()
    }

    /// The views of the tokens.
    spec fn ts(&self) -> Seq<TokenView> {
        token_views(self.tokens@)
    }

    /// What every step of the parser keeps: the same as [`Parser::wf`], over
    /// the fields.
    spec fn inv(&self) -> bool {
        &&& ends_with_eof(self.ts())
        &&& self.current < self.tokens.len()
    }

    /// A parser at the first of `tokens`.
    pub fn new(tokens: Vec<Token>) -> (r: Self)
        requires
            ends_with_eof(token_views(tokens@)),
        ensures
            r.wf(),
            r.tokens() == token_views(tokens@),
            r.position() == 0,
    {
        Self { current: 0, tokens }
    }

    /// Parses one expression of the widest rule from the position on.
    ///
    /// Gives the tree when there is one. When there is none, the error has
    /// been reported at the token that does not fit, and the position is at
    /// that token. Tokens after the expression are left unread.
    pub fn parse(&mut self, error_handler: &mut ErrorHandler) -> (r: Option<Expr>)
        requires
            old(self).wf(),
        ensures
            final(self).wf(),
            final(self).tokens() == old(self).tokens(),
            match comma(old(self).tokens(), old(self).position()) {
                Parsed::Tree { expr, used } => {
                    &&& r is Some
                    &&& r->Some_0@ == expr
                    &&& final(self).position() == old(self).position() + used
                    &&& final(error_handler)@ == old(error_handler)@
                },
                Parsed::Failure { at, message } => {
                    &&& r is None
                    &&& final(self).position() == at
                    &&& 0 <= at < old(self).tokens().len()
                    &&& final(error_handler)@ == old(error_handler)@.reported(
                        token_diagnostic(old(self).tokens()[at], message),
                    )
                },
            },
    {
        let result = self.comma(error_handler);
        match result {
            Ok(result) => Some(result),
            Err(_) => None,
        }
    }

    /// `comma -> expression ( "," expression )*`
    fn comma(&mut self, error_handler: &mut ErrorHandler) -> (r: Result<Expr, String>)
        requires
            old(self).inv(),
        ensures
            final(self).inv(),
            final(self).tokens == old(self).tokens,
            final(self).current >= old(self).current,
            parsed_as(
                old(self).ts(),
                old(self).current as int,
                comma(old(self).ts(), old(self).current as int),
                r,
                final(self).current as int,
                old(error_handler)@,
                final(error_handler)@,
            ),
        decreases remaining(old(self).ts(), old(self).current as int), 20nat,
    {
        let ghost ts = self.ts();
        let ghost pos = self.current as int;
        let mut expr = match self.expression(error_handler) {
            Ok(expr) => expr,
            Err(message) => {
                return Err(message);
            },
        };
        loop
            invariant
                self.inv(),
                self.tokens == old(self).tokens,
                ts == self.ts(),
                ts == old(self).ts(),
                pos == old(self).current,
                pos <= self.current,
                error_handler@ == old(error_handler)@,
                comma(ts, pos) == comma_rest(ts, expr@, self.current as int).after(
                    (self.current - pos) as nat,
                ),
            ensures
                self.inv(),
                self.tokens == old(self).tokens,
                pos <= self.current,
                error_handler@ == old(error_handler)@,
                comma(ts, pos) == (Parsed::Tree { expr: expr@, used: (self.current - pos) as nat }),
            decreases remaining(ts, self.current as int),
        {
            let ghost at = self.current as int;
            let ghost left = expr@;
            let types = vec![TokenType::Comma];
            proof {
                assert(types@[0] == TokenType::Comma);
            }
            let matched = self.match_token(types);
            proof {
                assert(matched == (kind_at(ts, at) == TokenType::Comma));
            }
            if !matched {
                break ;
            }
            let right = match self.expression(error_handler) {
                Ok(right) => right,
                Err(message) => {
                    return Err(message);
                },
            };
            expr = Expr::Comma(Comma { left: Box::new(expr), right: Box::new(right) });
            proof {
                assert(expr@ == ExprView::Comma { left: Box::new(left), right: Box::new(right@) });
                assert(comma_rest(ts, left, at) == comma_rest(
                    ts,
                    expr@,
                    self.current as int,
                ).after((self.current - at) as nat));
            }
        }
        Ok(expr)
    }

    /// `expression -> ternary`
    fn expression(&mut self, error_handler: &mut ErrorHandler) -> (r: Result<Expr, String>)
        requires
            old(self).inv(),
        ensures
            final(self).inv(),
            final(self).tokens == old(self).tokens,
            final(self).current >= old(self).current,
            parsed_as(
                old(self).ts(),
                old(self).current as int,
                expression(old(self).ts(), old(self).current as int),
                r,
                final(self).current as int,
                old(error_handler)@,
                final(error_handler)@,
            ),
        decreases remaining(old(self).ts(), old(self).current as int), 19nat,
    {
        self.ternary(error_handler)
    }

    /// `ternary -> equality ( "?" equality ":" ternary )?`
    fn ternary(&mut self, error_handler: &mut ErrorHandler) -> (r: Result<Expr, String>)
        requires
            old(self).inv(),
        ensures
            final(self).inv(),
            final(self).tokens == old(self).tokens,
            final(self).current >= old(self).current,
            parsed_as(
                old(self).ts(),
                old(self).current as int,
                ternary(old(self).ts(), old(self).current as int),
                r,
                final(self).current as int,
                old(error_handler)@,
                final(error_handler)@,
            ),
        decreases remaining(old(self).ts(), old(self).current as int), 18nat,
    {
        let ghost ts = self.ts();
        let mut expr = match self.equality(error_handler) {
            Ok(expr) => expr,
            Err(message) => {
                return Err(message);
            },
        };
        let types = vec![TokenType::Question];
        proof {
            assert(types@[0] == TokenType::Question);
        }
        if self.match_token(types) {
            let condition = expr;
            let then_branch = match self.equality(error_handler) {
                Ok(expr) => expr,
                Err(message) => {
                    return Err(message);
                },
            };
            match self.consume(&TokenType::Colon, "Expect ':' after then branch.", error_handler) {
                Ok(_) => {},
                Err(message) => {
                    return Err(message);
                },
            }
            let else_branch = match self.ternary(error_handler) {
                Ok(expr) => expr,
                Err(message) => {
                    return Err(message);
                },
            };
            let ghost views = (condition@, then_branch@, else_branch@);
            expr = Expr::Ternary(
                Ternary {
                    condition: Box::new(condition),
                    then_branch: Box::new(then_branch),
                    else_branch: Box::new(else_branch),
                },
            );
            proof {
                assert(expr@ == ExprView::Ternary {
                    condition: Box::new(views.0),
                    then_branch: Box::new(views.1),
                    else_branch: Box::new(views.2),
                });
            }
        }
        Ok(expr)
    }

    /// `equality -> comparison ( ( "!=" | "==" ) comparison )*`
    fn equality(&mut self, error_handler: &mut ErrorHandler) -> (r: Result<Expr, String>)
        requires
            old(self).inv(),
        ensures
            final(self).inv(),
            final(self).tokens == old(self).tokens,
            final(self).current >= old(self).current,
            parsed_as(
                old(self).ts(),
                old(self).current as int,
                binary(old(self).ts(), old(self).current as int, Level::Equality),
                r,
                final(self).current as int,
                old(error_handler)@,
                final(error_handler)@,
            ),
        decreases remaining(old(self).ts(), old(self).current as int), 17nat,
    {
        self.binary(Level::Equality, error_handler)
    }

    /// `comparison -> term ( ( ">" | ">=" | "<" | "<=" ) term )*`
    fn comparison(&mut self, error_handler: &mut ErrorHandler) -> (r: Result<Expr, String>)
        requires
            old(self).inv(),
        ensures
            final(self).inv(),
            final(self).tokens == old(self).tokens,
            final(self).current >= old(self).current,
            parsed_as(
                old(self).ts(),
                old(self).current as int,
                binary(old(self).ts(), old(self).current as int, Level::Comparison),
                r,
                final(self).current as int,
                old(error_handler)@,
                final(error_handler)@,
            ),
        decreases remaining(old(self).ts(), old(self).current as int), 13nat,
    {
        self.binary(Level::Comparison, error_handler)
    }

    /// `term -> factor ( ( "-" | "+" ) factor )*`
    fn term(&mut self, error_handler: &mut ErrorHandler) -> (r: Result<Expr, String>)
        requires
            old(self).inv(),
        ensures
            final(self).inv(),
            final(self).tokens == old(self).tokens,
            final(self).current >= old(self).current,
            parsed_as(
                old(self).ts(),
                old(self).current as int,
                binary(old(self).ts(), old(self).current as int, Level::Term),
                r,
                final(self).current as int,
                old(error_handler)@,
                final(error_handler)@,
            ),
        decreases remaining(old(self).ts(), old(self).current as int), 9nat,
    {
        self.binary(Level::Term, error_handler)
    }

    /// `factor -> unary ( ( "/" | "*" ) unary )*`
    fn factor(&mut self, error_handler: &mut ErrorHandler) -> (r: Result<Expr, String>)
        requires
            old(self).inv(),
        ensures
            final(self).inv(),
            final(self).tokens == old(self).tokens,
            final(self).current >= old(self).current,
            parsed_as(
                old(self).ts(),
                old(self).current as int,
                binary(old(self).ts(), old(self).current as int, Level::Factor),
                r,
                final(self).current as int,
                old(error_handler)@,
                final(error_handler)@,
            ),
        decreases remaining(old(self).ts(), old(self).current as int), 5nat,
    {
        self.binary(Level::Factor, error_handler)
    }

    /// The operators of a level.
    fn operators(level: Level) -> (types: Vec<TokenType>)
        ensures
            forall|kind: TokenType| #[trigger]
                Self::asked(types@, kind) == is_operator(level, kind),
    {
        let types = match level {
            Level::Equality => vec![TokenType::BangEqual, TokenType::EqualEqual],
            Level::Comparison => vec![
                TokenType::Greater,
                TokenType::GreaterEqual,
                TokenType::Less,
                TokenType::LessEqual,
            ],
            Level::Term => vec![TokenType::Minus, TokenType::Plus],
            Level::Factor => vec![TokenType::Slash, TokenType::Star],
        };
        proof {
            assert forall|kind: TokenType| #[trigger]
                Self::asked(types@, kind) == is_operator(level, kind) by {
                if is_operator(level, kind) {
                    assert(types@[0] == kind || types@[1] == kind || (types@.len() == 4 && (
                    types@[2] == kind || types@[3] == kind)));
                }
            }
        }
        types
    }

    /// One level of binary operators, grouping to the left.
    fn binary(&mut self, level: Level, error_handler: &mut ErrorHandler) -> (r: Result<
        Expr,
        String,
    >)
        requires
            old(self).inv(),
        ensures
            final(self).inv(),
            final(self).tokens == old(self).tokens,
            final(self).current >= old(self).current,
            parsed_as(
                old(self).ts(),
                old(self).current as int,
                binary(old(self).ts(), old(self).current as int, level),
                r,
                final(self).current as int,
                old(error_handler)@,
                final(error_handler)@,
            ),
        decreases remaining(old(self).ts(), old(self).current as int), 4 + 4 * rank(level),
    {
        let ghost ts = self.ts();
        let ghost pos = self.current as int;
        let mut expr = match self.operand(level, error_handler) {
            Ok(expr) => expr,
            Err(message) => {
                return Err(message);
            },
        };
        loop
            invariant
                self.inv(),
                self.tokens == old(self).tokens,
                ts == self.ts(),
                ts == old(self).ts(),
                pos == old(self).current,
                pos <= self.current,
                error_handler@ == old(error_handler)@,
                binary(ts, pos, level) == binary_rest(ts, expr@, self.current as int, level).after(
                    (self.current - pos) as nat,
                ),
            ensures
                self.inv(),
                self.tokens == old(self).tokens,
                pos <= self.current,
                error_handler@ == old(error_handler)@,
                binary(ts, pos, level) == (Parsed::Tree {
                    expr: expr@,
                    used: (self.current - pos) as nat,
                }),
            decreases remaining(ts, self.current as int),
        {
            let ghost left = expr@;
            if !self.match_token(Self::operators(level)) {
                break ;
            }
            let operator = self.previous().clone();
            let right = match self.operand(level, error_handler) {
                Ok(right) => right,
                Err(message) => {
                    return Err(message);
                },
            };
            expr = Expr::Binary(Binary { left: Box::new(expr), operator, right: Box::new(right) });
            proof {
                assert(expr@ == binary_node(left, operator@, right@));
            }
        }
        Ok(expr)
    }

    /// An operand of a binary operator of `level`.
    fn operand(&mut self, level: Level, error_handler: &mut ErrorHandler) -> (r: Result<
        Expr,
        String,
    >)
        requires
            old(self).inv(),
        ensures
            final(self).inv(),
            final(self).tokens == old(self).tokens,
            final(self).current >= old(self).current,
            parsed_as(
                old(self).ts(),
                old(self).current as int,
                operand(old(self).ts(), old(self).current as int, level),
                r,
                final(self).current as int,
                old(error_handler)@,
                final(error_handler)@,
            ),
        decreases remaining(old(self).ts(), old(self).current as int), 3 + 4 * rank(level),
    {
        match level {
            Level::Equality => self.comparison(error_handler),
            Level::Comparison => self.term(error_handler),
            Level::Term => self.factor(error_handler),
            Level::Factor => self.unary(error_handler),
        }
    }

    /// `unary -> ( "!" | "-" ) unary | primary`
    fn unary(&mut self, error_handler: &mut ErrorHandler) -> (r: Result<Expr, String>)
        requires
            old(self).inv(),
        ensures
            final(self).inv(),
            final(self).tokens == old(self).tokens,
            final(self).current >= old(self).current,
            parsed_as(
                old(self).ts(),
                old(self).current as int,
                unary(old(self).ts(), old(self).current as int),
                r,
                final(self).current as int,
                old(error_handler)@,
                final(error_handler)@,
            ),
        decreases remaining(old(self).ts(), old(self).current as int), 1nat,
    {
        let types = vec![TokenType::Bang, TokenType::Minus];
        proof {
            assert(types@[0] == TokenType::Bang && types@[1] == TokenType::Minus);
        }
        if self.match_token(types) {
            let operator = self.previous().clone();
            let right = match self.unary(error_handler) {
                Ok(right) => right,
                Err(message) => {
                    return Err(message);
                },
            };
            let ghost operand = right@;
            let expr = Expr::Unary(Unary { operator, right: Box::new(right) });
            proof {
                assert(expr@ == ExprView::Unary { operator: operator@, right: Box::new(operand) });
            }
            return Ok(expr);
        }
        self.primary(error_handler)
    }

    /// `primary -> NUMBER | STRING | "true" | "false" | "nil" | "(" comma ")"`
    fn primary(&mut self, error_handler: &mut ErrorHandler) -> (r: Result<Expr, String>)
        requires
            old(self).inv(),
        ensures
            final(self).inv(),
            final(self).tokens == old(self).tokens,
            final(self).current >= old(self).current,
            parsed_as(
                old(self).ts(),
                old(self).current as int,
                primary(old(self).ts(), old(self).current as int),
                r,
                final(self).current as int,
                old(error_handler)@,
                final(error_handler)@,
            ),
        decreases remaining(old(self).ts(), old(self).current as int), 0nat,
    {
        let types = vec![TokenType::False];
        proof {
            assert(types@[0] == TokenType::False);
        }
        if self.match_token(types) {
            return Ok(Expr::Literal(Literal { value: LiteralType::Bool(false) }));
        }
        let types = vec![TokenType::True];
        proof {
            assert(types@[0] == TokenType::True);
        }
        if self.match_token(types) {
            return Ok(Expr::Literal(Literal { value: LiteralType::Bool(true) }));
        }
        let types = vec![TokenType::Nil];
        proof {
            assert(types@[0] == TokenType::Nil);
        }
        if self.match_token(types) {
            return Ok(Expr::Literal(Literal { value: LiteralType::Nil }));
        }
        let types = vec![TokenType::Number, TokenType::String];
        proof {
            assert(types@[0] == TokenType::Number && types@[1] == TokenType::String);
        }
        if self.match_token(types) {
            return Ok(Expr::Literal(Literal { value: self.previous().literal.clone() }));
        }
        let types = vec![TokenType::LeftParen];
        proof {
            assert(types@[0] == TokenType::LeftParen);
        }
        if self.match_token(types) {
            let comma = match self.comma(error_handler) {
                Ok(expr) => expr,
                Err(message) => {
                    return Err(message);
                },
            };
            match self.consume(&TokenType::RightParen, "Expect ')' after expression.", error_handler) {
                Ok(_) => {},
                Err(message) => {
                    return Err(message);
                },
            }
            let ghost inner = comma@;
            let expr = Expr::Grouping(Grouping { expression: Box::new(comma) });
            proof {
                assert(expr@ == ExprView::Grouping { expression: Box::new(inner) });
            }
            return Ok(expr);
        }
        Err(self.error(self.peek(), "Expect expression.", error_handler))
    }

    /// Reads the next token if it is of kind `token_type`, and reports
    /// `message` at it if it is not.
    fn consume(&mut self, token_type: &TokenType, message: &str, error_handler: &mut ErrorHandler) -> (r:
        Result<Token, String>)
        requires
            old(self).inv(),
            *token_type != TokenType::EOF,
        ensures
            final(self).inv(),
            final(self).tokens == old(self).tokens,
            kind_at(old(self).ts(), old(self).current as int) == *token_type ==> {
                &&& r is Ok
                &&& r->Ok_0 == old(self).tokens@[old(self).current as int]
                &&& final(self).current == old(self).current + 1
                &&& final(error_handler)@ == old(error_handler)@
            },
            kind_at(old(self).ts(), old(self).current as int) != *token_type ==> {
                &&& r is Err
                &&& r->Err_0@ == message@
                &&& final(self).current == old(self).current
                &&& final(error_handler)@ == old(error_handler)@.reported(
                    token_diagnostic(old(self).ts()[old(self).current as int], message@),
                )
            },
    {
        if self.check(token_type) {
            let token = self.peek().clone();
            self.advance();
            return Ok(token);
        }
        Err(self.error(self.peek(), message, error_handler))
    }

    /// Reports a syntax error at `token` and gives back the message.
    fn error(&self, token: &Token, message: &str, error_handler: &mut ErrorHandler) -> (r: String)
        ensures
            r@ == message@,
            final(error_handler)@ == old(error_handler)@.reported(
                token_diagnostic(token@, message@),
            ),
    {
        error_handler.error_with_token(token, message);
        String::from_str(message)
    }

    /// Moves to where parsing can take up again after a syntax error: past
    /// the offending token, then on to the first token that follows a
    /// semicolon or begins a new construct, or to the end marker.
    pub fn synchronize(&mut self)
        requires
            old(self).wf(),
        ensures
            final(self).wf(),
            final(self).tokens() == old(self).tokens(),
            final(self).position() == synchronized(old(self).tokens(), old(self).position()),
    {
        let ghost ts = self.ts();
        let ghost target = synchronized(ts, self.current as int);
        self.advance();
        while !self.is_at_end()
            invariant
                self.inv(),
                self.tokens == old(self).tokens,
                ts == self.ts(),
                ts == old(self).ts(),
                target == synchronized(ts, old(self).current as int),
                target == resume_point(ts, self.current as int),
                self.current >= 1 || self.is_at_end_spec(),
            decreases remaining(ts, self.current as int),
        {
            if self.previous().token_type == TokenType::Semicolon {
                return ;
            }
            match self.peek().token_type {
                TokenType::Class
                | TokenType::Fun
                | TokenType::Var
                | TokenType::For
                | TokenType::If
                | TokenType::While
                | TokenType::Print
                | TokenType::Return => {
                    return ;
                },
                _ => {
                    self.advance();
                },
            }
        }
    }

    /// Whether the next token is the end marker.
    spec fn is_at_end_spec(&self) -> bool {
        kind_at(self.ts(), self.current as int) == TokenType::EOF
    }

    /// The kinds of token that [`Parser::match_token`] is asked for.
    spec fn asked(types: Seq<TokenType>, kind: TokenType) -> bool {
        kind != TokenType::EOF && types.contains(kind)
    }

    /// Reads the next token if its kind is one of `types`.
    fn match_token(&mut self, types: Vec<TokenType>) -> (r: bool)
        requires
            old(self).inv(),
        ensures
            final(self).inv(),
            final(self).tokens == old(self).tokens,
            r == Self::asked(types@, kind_at(old(self).ts(), old(self).current as int)),
            final(self).current == old(self).current + if r {
                1int
            } else {
                0int
            },
    {
        let mut i: usize = 0;
        let mut is_matched = false;
        while i < types.len() && !is_matched
            invariant
                self.inv(),
                i <= types.len(),
                self.current == old(self).current,
                self.tokens == old(self).tokens,
                is_matched ==> Self::asked(types@, kind_at(self.ts(), self.current as int)),
                !is_matched ==> forall|j: int|
                    0 <= j < i ==> !(types@[j] == kind_at(self.ts(), self.current as int)
                        && types@[j] != TokenType::EOF),
            decreases types.len() - i,
        {
            is_matched = self.check(&types[i]);
            i += 1;
        }
        if is_matched {
            self.advance();
            return true;
        }
        false
    }

    /// Whether the next token is of kind `token_type` and not the end marker.
    fn check(&self, token_type: &TokenType) -> (r: bool)
        requires
            self.inv(),
        ensures
            r == (kind_at(self.ts(), self.current as int) == *token_type && *token_type
                != TokenType::EOF),
    {
        if self.is_at_end() {
            return false;
        }
        self.peek().token_type == *token_type
    }

    /// Moves past the next token, unless it is the end marker.
    fn advance(&mut self)
        requires
            old(self).inv(),
        ensures
            final(self).inv(),
            final(self).tokens == old(self).tokens,
            final(self).current == old(self).current + if kind_at(
                old(self).ts(),
                old(self).current as int,
            ) == TokenType::EOF {
                0int
            } else {
                1int
            },
    {
        if !self.is_at_end() {
            self.current += 1;
        }
    }

    /// Whether the next token is the end marker.
    fn is_at_end(&self) -> (r: bool)
        requires
            self.inv(),
        ensures
            r == (kind_at(self.ts(), self.current as int) == TokenType::EOF),
    {
        self.peek().token_type == TokenType::EOF
    }

    /// The next token.
    fn peek(&self) -> (r: &Token)
        requires
            self.inv(),
        ensures
            *r == self.tokens@[self.current as int],
            r@ == self.ts()[self.current as int],
    {
        &self.tokens[self.current]
    }

    /// The token before the next.
    fn previous(&self) -> (r: &Token)
        requires
            self.inv(),
            self.current >= 1,
        ensures
            *r == self.tokens@[self.current - 1],
            r@ == self.ts()[self.current - 1],
    {
        &self.tokens[self.current - 1]
    }
}

} // verus!
