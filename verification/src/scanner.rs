//! The scanner: from source text to tokens.

use vstd::prelude::*;
use vstd::string::StringExecFns;
use crate::error_handler::{DiagnosticView, ErrorHandler, ErrorHandlerView};
use crate::grammar::ends_with_eof;
use crate::lexical::{
    char_at, comment_closed, comment_len, end_token, in_class, is_alpha, is_digit,
    is_number_text, keyword, lemma_newlines_split, lemma_number_text, lemma_number_within,
    lemma_run_within, newlines, number_rest, run, scan_from, scan_step, CharClass, Found, Step,
};
use crate::text::{chars_of, same_text, slice_text};
use crate::token::{token_views, LiteralType, LiteralView, Token, TokenView};
use crate::token_type::TokenType;

verus! {

/// The kind of token that a word is: a keyword's own kind, or an identifier.
pub fn keywords(key: &str) -> (r: TokenType)
    ensures
        r == keyword(key@),
{
    if same_text(key, "and") {
        TokenType::And
    } else if same_text(key, "class") {
        TokenType::Class
    } else if same_text(key, "else") {
        TokenType::Else
    } else if same_text(key, "false") {
        TokenType::False
    } else if same_text(key, "for") {
        TokenType::For
    } else if same_text(key, "fun") {
        TokenType::Fun
    } else if same_text(key, "if") {
        TokenType::If
    } else if same_text(key, "nil") {
        TokenType::Nil
    } else if same_text(key, "or") {
        TokenType::Or
    } else if same_text(key, "print") {
        TokenType::Print
    } else if same_text(key, "return") {
        TokenType::Return
    } else if same_text(key, "super") {
        TokenType::Super
    } else if same_text(key, "this") {
        TokenType::This
    } else if same_text(key, "true") {
        TokenType::True
    } else if same_text(key, "var") {
        TokenType::Var
    } else if same_text(key, "while") {
        TokenType::While
    } else {
        TokenType::Identifier
    }
}

/// Whether `f` can be called on the text of every number of the language.
pub open spec fn reads_numbers<F: Fn(String) -> u64>(f: F) -> bool {
    forall|s: String| is_number_text(s@) ==> #[trigger] f.requires((s,))
}

/// Whether `number` says of every text what `f` returns for it.
pub open spec fn agrees<F: Fn(String) -> u64>(f: F, number: spec_fn(Seq<char>) -> u64) -> bool {
    forall|s: String, r: u64| #[trigger] f.ensures((s,), r) ==> r == number(s@)
}

/// Whether a scanner that had read `tokens` and reported `handler` at index
/// `pos` on line `line` has, by taking `step`, come to index `end` on line
/// `end_line` with `tokens2` read and `handler2` reported.
pub open spec fn step_taken(
    src: Seq<char>,
    pos: int,
    line: nat,
    tokens: Seq<TokenView>,
    handler: ErrorHandlerView,
    step: Step,
    end: int,
    end_line: nat,
    tokens2: Seq<TokenView>,
    handler2: ErrorHandlerView,
) -> bool {
    &&& end == pos + 1 + step.rest
    &&& end_line == line + newlines(src, pos, end)
    &&& match step.found {
        Found::Token { token_type, literal } => {
            &&& tokens2 == tokens.push(
                TokenView { token_type, lexeme: src.subrange(pos, end), literal, line: end_line },
            )
            &&& handler2 == handler
        },
        Found::Nothing => tokens2 == tokens && handler2 == handler,
        Found::Error { message } => {
            &&& tokens2 == tokens
            &&& handler2 == handler.reported(
                DiagnosticView { line: end_line, location: Seq::empty(), message },
            )
        },
    }
}

/// Reads a source text token by token.
///
/// The value of a number is not computed here: the scanner hands the text of
/// each number to `to_number` and takes what comes back as the encoding of its
/// value.
pub struct Scanner<'a, F> {
    source: Vec<char>,
    tokens: Vec<Token>,
    start: usize,
    current: usize,
    line: usize,
    to_number: &'a F,
}

impl<'a, F: Fn(String) -> u64> Scanner<'a, F> {
    /// The source text.
    pub closed spec fn source(&self) -> Seq<char> {
        self.source@
    }

    /// The index of the next character to read.
    pub closed spec fn position(&self) -> int {
        self.current as int
    }

    /// The line of the next character to read.
    pub closed spec fn line(&self) -> nat {
        self.line as nat
    }

    /// The tokens read so far.
    pub closed spec fn tokens(&self) -> Seq<TokenView> {
        token_views(self.tokens@)
    }

    /// The function that gives the value of a number by its text.
    pub closed spec fn to_number(&self) -> F {
        *self.to_number
    }

    /// The position lies within the text, and the line count cannot overflow.
    pub closed spec fn wf(&self) -> bool {
        &&& self.current <= self.source.len() < usize::MAX
        &&& self.line <= self.current + 1
    }

    /// What every step of the scanner keeps: the token being read starts at
    /// or before the position.
    spec fn inv(&self) -> bool {
        self.wf() && self.start <= self.current
    }

    /// Whether two scanners read the same text with the same function.
    spec fn same_source(&self, other: &Self) -> bool {
        &&& self.source == other.source
        &&& self.to_number == other.to_number
    }

    /// A scanner at the start of `source`, on line 1, with no token read.
    pub fn new(source: String, to_number: &'a F) -> (r: Self)
        requires
            source@.len() < usize::MAX,
        ensures
            r.wf(),
            r.source() == source@,
            r.position() == 0,
            r.line() == 1,
            r.tokens() == Seq::<TokenView>::empty(),
            r.to_number() == *to_number,
    {
        let r = Self {
            source: chars_of(source.as_str()),
            tokens: Vec::new(),
            start: 0,
            current: 0,
            line: 1,
            to_number,
        };
        assert(token_views(r.tokens@) =~= Seq::<TokenView>::empty());
        r
    }

    /// Reads the rest of the text and closes the tokens with the end marker.
    ///
    /// The tokens and errors are those of [`scan_from`] at the scanner's
    /// position, whatever function of the text `to_number` computes. An error
    /// does not stop the scan.
    pub fn scan_tokens(&mut self, error_handler: &mut ErrorHandler) -> (r: &Vec<Token>)
        requires
            old(self).wf(),
            reads_numbers(old(self).to_number()),
        ensures
            final(self).wf(),
            final(self).source() == old(self).source(),
            final(self).to_number() == old(self).to_number(),
            final(self).position() == old(self).source().len(),
            token_views(r@) == final(self).tokens(),
            ends_with_eof(final(self).tokens()),
            forall|number: spec_fn(Seq<char>) -> u64|
                agrees(old(self).to_number(), number) ==> {
                    let found = #[trigger] scan_from(
                        number,
                        old(self).source(),
                        old(self).position(),
                        old(self).line(),
                    );
                    &&& final(self).tokens() == old(self).tokens() + found.tokens.push(
                        end_token(found.line),
                    )
                    &&& final(error_handler)@ == old(error_handler)@.reported_all(
                        found.diagnostics,
                    )
                    &&& final(self).line() == found.line
                },
    {
        let ghost src = self.source@;
        let ghost pos0 = self.current as int;
        let ghost line0 = self.line as nat;
        let ghost tokens0 = token_views(self.tokens@);
        let ghost handler0 = error_handler@;
        self.start = self.current;
        assert(handler0.reported_all(Seq::empty()) == handler0) by {
            assert(handler0.diagnostics + Seq::<DiagnosticView>::empty() =~= handler0.diagnostics);
        }
        assert(tokens0 + Seq::<TokenView>::empty() =~= tokens0);
        while !self.is_at_end()
            invariant
                self.inv(),
                self.same_source(old(self)),
                src == self.source@,
                reads_numbers(*self.to_number),
                forall|number: spec_fn(Seq<char>) -> u64|
                    agrees(*self.to_number, number) ==> {
                        let rest = #[trigger] scan_from(
                            number,
                            src,
                            self.current as int,
                            self.line as nat,
                        );
                        let whole = scan_from(number, src, pos0, line0);
                        &&& token_views(self.tokens@) + rest.tokens == tokens0 + whole.tokens
                        &&& error_handler@.reported_all(rest.diagnostics)
                            == handler0.reported_all(whole.diagnostics)
                        &&& rest.line == whole.line
                    },
            decreases self.source.len() - self.current,
        {
            self.start = self.current;
            let ghost pos = self.current as int;
            let ghost line = self.line as nat;
            let ghost tokens = token_views(self.tokens@);
            let ghost handler = error_handler@;
            self.scan_token(error_handler);
            proof {
                assert forall|number: spec_fn(Seq<char>) -> u64|
                    agrees(*self.to_number, number) implies {
                    let rest = #[trigger] scan_from(
                        number,
                        src,
                        self.current as int,
                        self.line as nat,
                    );
                    let whole = scan_from(number, src, pos0, line0);
                    &&& token_views(self.tokens@) + rest.tokens == tokens0 + whole.tokens
                    &&& error_handler@.reported_all(rest.diagnostics) == handler0.reported_all(
                        whole.diagnostics,
                    )
                    &&& rest.line == whole.line
                } by {
                    let before = scan_from(number, src, pos, line);
                    let rest = scan_from(number, src, self.current as int, self.line as nat);
                    let step = scan_step(number, src, pos);
                    assert(step_taken(
                        src,
                        pos,
                        line,
                        tokens,
                        handler,
                        step,
                        self.current as int,
                        self.line as nat,
                        token_views(self.tokens@),
                        error_handler@,
                    ));
                    match step.found {
                        Found::Token { token_type, literal } => {
                            assert(token_views(self.tokens@) + rest.tokens =~= tokens
                                + before.tokens);
                        },
                        Found::Nothing => {},
                        Found::Error { message } => {
                            assert(error_handler@.reported_all(rest.diagnostics).diagnostics
                                =~= handler.reported_all(before.diagnostics).diagnostics);
                        },
                    }
                }
            }
        }
        let end = Token::new(TokenType::EOF, String::from_str(""), LiteralType::Absent, self.line);
        proof {
            reveal_strlit("");
            assert(end@.lexeme =~= Seq::<char>::empty());
        }
        let ghost scanned = token_views(self.tokens@);
        self.tokens.push(end);
        proof {
            assert(token_views(self.tokens@) =~= scanned.push(end@));
            assert forall|number: spec_fn(Seq<char>) -> u64|
                agrees(old(self).to_number(), number) implies {
                let found = #[trigger] scan_from(
                    number,
                    old(self).source(),
                    old(self).position(),
                    old(self).line(),
                );
                &&& final(self).tokens() == old(self).tokens() + found.tokens.push(
                    end_token(found.line),
                )
                &&& final(error_handler)@ == old(error_handler)@.reported_all(found.diagnostics)
                &&& final(self).line() == found.line
            } by {
                let found = scan_from(number, src, pos0, line0);
                let rest = scan_from(number, src, self.current as int, self.line as nat);
                assert(rest.tokens =~= Seq::<TokenView>::empty());
                assert(scanned + rest.tokens =~= scanned);
                assert(error_handler@.reported_all(rest.diagnostics) == error_handler@) by {
                    assert(error_handler@.diagnostics + rest.diagnostics
                        =~= error_handler@.diagnostics);
                }
                assert(scanned.push(end@) =~= tokens0 + found.tokens.push(end_token(found.line)));
            }
        }
        &self.tokens
    }

    /// Reads what stands at the position: one token, white space, a comment,
    /// or an error.
    fn scan_token(&mut self, error_handler: &mut ErrorHandler)
        requires
            old(self).inv(),
            old(self).start == old(self).current,
            old(self).current < old(self).source.len(),
            reads_numbers(*old(self).to_number),
        ensures
            final(self).inv(),
            final(self).same_source(old(self)),
            final(self).current > old(self).current,
            forall|number: spec_fn(Seq<char>) -> u64|
                agrees(*old(self).to_number, number) ==> step_taken(
                    old(self).source@,
                    old(self).current as int,
                    old(self).line as nat,
                    token_views(old(self).tokens@),
                    old(error_handler)@,
                    #[trigger] scan_step(number, old(self).source@, old(self).current as int),
                    final(self).current as int,
                    final(self).line as nat,
                    token_views(final(self).tokens@),
                    final(error_handler)@,
                ),
    {
        let ghost src = self.source@;
        let ghost pos = self.current as int;
        let c = self.advance();
        proof {
            assert(newlines(src, pos, pos + 1) == if c == '\n' {
                1nat
            } else {
                0nat
            }) by {
                assert(newlines(src, pos, pos) == 0);
            }
        }
        if c == '(' {
            self.add_token(TokenType::LeftParen, LiteralType::Absent)
        } else if c == ')' {
            self.add_token(TokenType::RightParen, LiteralType::Absent)
        } else if c == '{' {
            self.add_token(TokenType::LeftBrace, LiteralType::Absent)
        } else if c == '}' {
            self.add_token(TokenType::RightBrace, LiteralType::Absent)
        } else if c == ',' {
            self.add_token(TokenType::Comma, LiteralType::Absent)
        } else if c == '.' {
            self.add_token(TokenType::Dot, LiteralType::Absent)
        } else if c == '-' {
            self.add_token(TokenType::Minus, LiteralType::Absent)
        } else if c == '+' {
            self.add_token(TokenType::Plus, LiteralType::Absent)
        } else if c == ';' {
            self.add_token(TokenType::Semicolon, LiteralType::Absent)
        } else if c == '*' {
            self.add_token(TokenType::Star, LiteralType::Absent)
        } else if c == '?' {
            self.add_token(TokenType::Question, LiteralType::Absent)
        } else if c == ':' {
            self.add_token(TokenType::Colon, LiteralType::Absent)
        } else if c == '!' {
            self.add_with_equal(TokenType::Bang, TokenType::BangEqual)
        } else if c == '=' {
            self.add_with_equal(TokenType::Equal, TokenType::EqualEqual)
        } else if c == '<' {
            self.add_with_equal(TokenType::Less, TokenType::LessEqual)
        } else if c == '>' {
            self.add_with_equal(TokenType::Greater, TokenType::GreaterEqual)
        } else if c == '/' {
            if self.match_char('/') {
                self.skip_run(CharClass::CommentText);
                proof {
                    lemma_newlines_split(src, pos, pos + 2, self.current as int);
                    lemma_newlines_split(src, pos, pos + 1, pos + 2);
                    assert(newlines(src, pos + 1, pos + 2) == 0) by {
                        assert(newlines(src, pos + 1, pos + 1) == 0);
                    }
                }
            } else if self.match_char('*') {
                self.ignore_multiline_comment(error_handler);
                proof {
                    lemma_newlines_split(src, pos, pos + 2, self.current as int);
                    lemma_newlines_split(src, pos, pos + 1, pos + 2);
                    assert(newlines(src, pos + 1, pos + 2) == 0) by {
                        assert(newlines(src, pos + 1, pos + 1) == 0);
                    }
                }
            } else {
                self.add_token(TokenType::Slash, LiteralType::Absent);
            }
        } else if c == '"' {
            self.add_string(error_handler)
        } else if c == ' ' || c == '\r' || c == '\t' {
        } else if c == '\n' {
            self.line += 1;
        } else if Self::is_digit(c) {
            self.add_number()
        } else if Self::is_alpha(c) {
            self.add_identifier()
        } else {
            let mut message = String::from_str("Unexpected character. ");
            message.push(c);
            error_handler.error(self.line, message.as_str());
        }
        proof {
            lemma_newlines_split(src, pos, pos + 1, self.current as int);
        }
    }

    /// Adds the token of an operator that may be followed by `=`.
    fn add_with_equal(&mut self, alone: TokenType, followed: TokenType)
        requires
            old(self).inv(),
            old(self).start + 1 == old(self).current,
        ensures
            final(self).inv(),
            final(self).same_source(old(self)),
            final(self).start == old(self).start,
            final(self).line == old(self).line,
            final(self).current == old(self).current + if char_at(
                old(self).source@,
                old(self).current as int,
            ) == '=' {
                1int
            } else {
                0int
            },
            token_views(final(self).tokens@) == token_views(old(self).tokens@).push(
                TokenView {
                    token_type: if char_at(old(self).source@, old(self).current as int) == '=' {
                        followed
                    } else {
                        alone
                    },
                    lexeme: old(self).source@.subrange(
                        old(self).start as int,
                        final(self).current as int,
                    ),
                    literal: LiteralView::Absent,
                    line: old(self).line as nat,
                },
            ),
    {
        let next_is_equal = self.match_char('=');
        self.add_token(
            if next_is_equal {
                followed
            } else {
                alone
            },
            LiteralType::Absent,
        )
    }

    /// Skips a block comment whose opening delimiter has been read, and any
    /// comments nested in it. Reports an error if the text ends first.
    fn ignore_multiline_comment(&mut self, error_handler: &mut ErrorHandler)
        requires
            old(self).inv(),
        ensures
            final(self).inv(),
            final(self).same_source(old(self)),
            final(self).start == old(self).start,
            final(self).tokens == old(self).tokens,
            final(self).current == old(self).current + comment_len(
                old(self).source@,
                old(self).current as int,
                1,
            ),
            final(self).line == old(self).line + newlines(
                old(self).source@,
                old(self).current as int,
                final(self).current as int,
            ),
            final(error_handler)@ == if comment_closed(
                old(self).source@,
                old(self).current as int,
                1,
            ) {
                old(error_handler)@
            } else {
                old(error_handler)@.reported(
                    DiagnosticView {
                        line: final(self).line as nat,
                        location: Seq::empty(),
                        message: "Unterminated comment block"@,
                    },
                )
            },
    {
        let ghost src = self.source@;
        let ghost from = self.current as int;
        let ghost line0 = self.line as nat;
        let mut depth: usize = 1;
        while depth > 0 && !self.is_at_end()
            invariant
                self.inv(),
                self.same_source(old(self)),
                src == self.source@,
                self.start == old(self).start,
                self.tokens == old(self).tokens,
                from <= self.current,
                depth <= self.current - from + 1,
                comment_len(src, from, 1) == (self.current - from) + comment_len(
                    src,
                    self.current as int,
                    depth as nat,
                ),
                comment_closed(src, from, 1) == comment_closed(
                    src,
                    self.current as int,
                    depth as nat,
                ),
                self.line == line0 + newlines(src, from, self.current as int),
                self.line <= line0 + (self.current - from),
            decreases self.source.len() - self.current,
        {
            let ghost at = self.current as int;
            proof {
                assert(newlines(src, from, at + 1) == newlines(src, from, at) + if char_at(src, at)
                    == '\n' {
                    1nat
                } else {
                    0nat
                });
                assert(newlines(src, from, at + 2) == newlines(src, from, at + 1) + if char_at(
                    src,
                    at + 1,
                ) == '\n' {
                    1nat
                } else {
                    0nat
                });
            }
            if self.peek() == '/' && self.peek_next() == '*' {
                self.advance();
                self.advance();
                depth += 1;
            } else if self.peek() == '*' && self.peek_next() == '/' {
                self.advance();
                self.advance();
                depth -= 1;
            } else {
                if self.peek() == '\n' {
                    self.line += 1;
                }
                self.advance();
            }
        }
        if depth > 0 {
            error_handler.error(self.line, "Unterminated comment block");
        }
    }

    /// Adds the token of the word whose first character has been read.
    fn add_identifier(&mut self)
        requires
            old(self).inv(),
            old(self).start + 1 == old(self).current,
        ensures
            final(self).inv(),
            final(self).same_source(old(self)),
            final(self).line == old(self).line,
            final(self).current == old(self).current + run(
                old(self).source@,
                old(self).current as int,
                CharClass::Word,
            ),
            token_views(final(self).tokens@) == token_views(old(self).tokens@).push(
                TokenView {
                    token_type: keyword(
                        old(self).source@.subrange(
                            old(self).start as int,
                            final(self).current as int,
                        ),
                    ),
                    lexeme: old(self).source@.subrange(
                        old(self).start as int,
                        final(self).current as int,
                    ),
                    literal: LiteralView::Absent,
                    line: old(self).line as nat,
                },
            ),
            newlines(old(self).source@, old(self).current as int, final(self).current as int) == 0,
    {
        self.skip_run(CharClass::Word);
        let text = slice_text(&self.source, self.start, self.current);
        let token_type = keywords(text.as_str());
        proof {
            Self::lemma_no_newline(self.source@, old(self).current as int, CharClass::Word);
        }
        self.add_token(token_type, LiteralType::Absent);
    }

    /// Whether `c` is a decimal digit.
    fn is_digit(c: char) -> (r: bool)
        ensures
            r == is_digit(c),
    {
        '0' <= c && c <= '9'
    }

    /// Whether `c` may begin a word.
    fn is_alpha(c: char) -> (r: bool)
        ensures
            r == is_alpha(c),
    {
        ('a' <= c && c <= 'z') || ('A' <= c && c <= 'Z') || c == '_'
    }

    /// Whether `c` may continue a word.
    fn is_alphanumeric(c: char) -> (r: bool)
        ensures
            r == in_class(CharClass::Word, c),
    {
        Self::is_alpha(c) || Self::is_digit(c)
    }

    /// Whether `c` belongs to `class`.
    fn belongs(class: CharClass, c: char) -> (r: bool)
        ensures
            r == in_class(class, c),
    {
        match class {
            CharClass::Digit => Self::is_digit(c),
            CharClass::Word => Self::is_alphanumeric(c),
            CharClass::CommentText => c != '\n',
            CharClass::StringText => c != '"',
        }
    }

    /// A run of a class that holds no line feed holds no line feed.
    proof fn lemma_no_newline(src: Seq<char>, from: int, class: CharClass)
        requires
            0 <= from <= src.len(),
            !in_class(class, '\n'),
        ensures
            newlines(src, from, from + run(src, from, class)) == 0,
        decreases src.len() - from,
    {
        if from < src.len() && in_class(class, src[from]) {
            Self::lemma_no_newline(src, from + 1, class);
            lemma_newlines_split(src, from, from + 1, from + run(src, from, class));
            assert(newlines(src, from, from + 1) == 0) by {
                assert(newlines(src, from, from) == 0);
            }
        }
    }

    /// Adds the token of the number whose first digit has been read.
    fn add_number(&mut self)
        requires
            old(self).inv(),
            old(self).start + 1 == old(self).current,
            is_digit(old(self).source@[old(self).start as int]),
            reads_numbers(*old(self).to_number),
        ensures
            final(self).inv(),
            final(self).same_source(old(self)),
            final(self).line == old(self).line,
            final(self).current == old(self).current + number_rest(
                old(self).source@,
                old(self).start as int,
            ),
            newlines(old(self).source@, old(self).current as int, final(self).current as int) == 0,
            forall|number: spec_fn(Seq<char>) -> u64|
                #![trigger agrees(*old(self).to_number, number)]
                agrees(*old(self).to_number, number) ==> token_views(final(self).tokens@)
                    == token_views(old(self).tokens@).push(
                    TokenView {
                        token_type: TokenType::Number,
                        lexeme: old(self).source@.subrange(
                            old(self).start as int,
                            final(self).current as int,
                        ),
                        literal: LiteralView::Number(
                            number(
                                old(self).source@.subrange(
                                    old(self).start as int,
                                    final(self).current as int,
                                ),
                            ),
                        ),
                        line: old(self).line as nat,
                    },
                ),
    {
        let ghost src = self.source@;
        let ghost first = self.current as int;
        self.skip_run(CharClass::Digit);
        let ghost point = self.current as int;
        proof {
            Self::lemma_no_newline(src, first, CharClass::Digit);
            lemma_number_within(src, first - 1);
        }
        if self.peek() == '.' && Self::is_digit(self.peek_next()) {
            self.advance();
            self.skip_run(CharClass::Digit);
            proof {
                Self::lemma_no_newline(src, point + 1, CharClass::Digit);
                lemma_newlines_split(src, first, point, self.current as int);
                lemma_newlines_split(src, point, point + 1, self.current as int);
                assert(newlines(src, point, point + 1) == 0) by {
                    assert(newlines(src, point, point) == 0);
                }
            }
        }
        let text = slice_text(&self.source, self.start, self.current);
        proof {
            lemma_number_text(src, first - 1);
        }
        let to_number = self.to_number;
        let value = to_number(text);
        self.add_token(TokenType::Number, LiteralType::Number(value));
    }

    /// Adds the token of the string whose opening quote has been read, or
    /// reports that the string is not closed.
    fn add_string(&mut self, error_handler: &mut ErrorHandler)
        requires
            old(self).inv(),
            old(self).start + 1 == old(self).current,
        ensures
            final(self).inv(),
            final(self).same_source(old(self)),
            final(self).line == old(self).line + newlines(
                old(self).source@,
                old(self).current as int,
                final(self).current as int,
            ),
            ({
                let src = old(self).source@;
                let from = old(self).current as int;
                let inside = run(src, from, CharClass::StringText);
                if from + inside < src.len() {
                    &&& final(self).current == from + inside + 1
                    &&& token_views(final(self).tokens@) == token_views(old(self).tokens@).push(
                        TokenView {
                            token_type: TokenType::String,
                            lexeme: src.subrange(from - 1, from + inside + 1),
                            literal: LiteralView::String(src.subrange(from, from + inside)),
                            line: final(self).line as nat,
                        },
                    )
                    &&& final(error_handler)@ == old(error_handler)@
                } else {
                    &&& final(self).current == from + inside
                    &&& final(self).tokens == old(self).tokens
                    &&& final(error_handler)@ == old(error_handler)@.reported(
                        DiagnosticView {
                            line: final(self).line as nat,
                            location: Seq::empty(),
                            message: "Unterminated string"@,
                        },
                    )
                }
            }),
    {
        let ghost src = self.source@;
        let ghost from = self.current as int;
        self.skip_run(CharClass::StringText);
        proof {
            lemma_run_within(src, from, CharClass::StringText);
        }
        if self.is_at_end() {
            error_handler.error(self.line, "Unterminated string");
            return ;
        }
        self.advance();
        proof {
            let close = self.current as int - 1;
            assert(src[close] == '"');
            lemma_newlines_split(src, from, close, close + 1);
            assert(newlines(src, close, close + 1) == 0) by {
                assert(newlines(src, close, close) == 0);
            }
        }
        let value = slice_text(&self.source, self.start + 1, self.current - 1);
        self.add_token(TokenType::String, LiteralType::String(value))
    }

    /// Adds a token whose text runs from `start` up to the position.
    fn add_token(&mut self, token_type: TokenType, literal: LiteralType)
        requires
            old(self).inv(),
        ensures
            final(self).inv(),
            final(self).same_source(old(self)),
            final(self).start == old(self).start,
            final(self).current == old(self).current,
            final(self).line == old(self).line,
            token_views(final(self).tokens@) == token_views(old(self).tokens@).push(
                TokenView {
                    token_type,
                    lexeme: old(self).source@.subrange(
                        old(self).start as int,
                        old(self).current as int,
                    ),
                    literal: literal@,
                    line: old(self).line as nat,
                },
            ),
    {
        let text = slice_text(&self.source, self.start, self.current);
        let token = Token::new(token_type, text, literal, self.line);
        self.tokens.push(token);
        assert(token_views(final(self).tokens@) =~= token_views(old(self).tokens@).push(token@));
    }

    /// Reads characters for as long as they belong to `class`, counting the
    /// lines that end among them.
    fn skip_run(&mut self, class: CharClass)
        requires
            old(self).inv(),
        ensures
            final(self).inv(),
            final(self).same_source(old(self)),
            final(self).start == old(self).start,
            final(self).tokens == old(self).tokens,
            final(self).current == old(self).current + run(
                old(self).source@,
                old(self).current as int,
                class,
            ),
            final(self).line == old(self).line + newlines(
                old(self).source@,
                old(self).current as int,
                final(self).current as int,
            ),
            run(old(self).source@, final(self).current as int, class) == 0,
    {
        let ghost src = self.source@;
        let ghost from = self.current as int;
        let ghost line0 = self.line as nat;
        while !self.is_at_end() && Self::belongs(class, self.peek())
            invariant
                self.inv(),
                self.same_source(old(self)),
                src == self.source@,
                self.start == old(self).start,
                self.tokens == old(self).tokens,
                from <= self.current,
                run(src, from, class) == (self.current - from) + run(src, self.current as int, class),
                self.line == line0 + newlines(src, from, self.current as int),
            decreases self.source.len() - self.current,
        {
            if self.peek() == '\n' {
                self.line += 1;
            }
            self.advance();
        }
    }

    /// Reads one character.
    fn advance(&mut self) -> (c: char)
        requires
            old(self).current < old(self).source.len(),
        ensures
            c == old(self).source@[old(self).current as int],
            final(self).current == old(self).current + 1,
            final(self).same_source(old(self)),
            final(self).start == old(self).start,
            final(self).tokens == old(self).tokens,
            final(self).line == old(self).line,
    {
        let c = self.source[self.current];
        self.current += 1;
        c
    }

    /// Whether the whole text has been read.
    fn is_at_end(&self) -> (r: bool)
        ensures
            r == (self.current >= self.source.len()),
    {
        self.current >= self.source.len()
    }

    /// Reads the next character if it is `expected`.
    fn match_char(&mut self, expected: char) -> (r: bool)
        requires
            old(self).inv(),
            expected != '\0',
        ensures
            r == (char_at(old(self).source@, old(self).current as int) == expected),
            final(self).current == old(self).current + if r {
                1int
            } else {
                0int
            },
            final(self).inv(),
            final(self).same_source(old(self)),
            final(self).start == old(self).start,
            final(self).tokens == old(self).tokens,
            final(self).line == old(self).line,
    {
        if self.is_at_end() {
            return false;
        }
        if self.peek() != expected {
            return false;
        }
        self.current += 1;
        true
    }

    /// The next character, or the null character at the end of the text.
    fn peek(&self) -> (c: char)
        ensures
            c == char_at(self.source@, self.current as int),
    {
        if self.is_at_end() {
            return '\0';
        }
        self.source[self.current]
    }

    /// The character after the next, or the null character past the end.
    fn peek_next(&self) -> (c: char)
        requires
            self.current < usize::MAX,
        ensures
            c == char_at(self.source@, self.current + 1),
    {
        if self.current + 1 >= self.source.len() {
            return '\0';
        }
        self.source[self.current + 1]
    }
}

} // verus!
