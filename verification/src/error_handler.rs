//! Errors and the collector that the stages report them to.
//!
//! Nothing here writes to a stream. A stage records what it has to say in the
//! [`ErrorHandler`] it is handed, and the caller prints the records, each in
//! the form that [`Diagnostic::render`] or [`RuntimeError::render`] gives it.

use vstd::prelude::*;
use vstd::string::StringExecFns;
use crate::text::{decimal, push_decimal};
use crate::token::{Token, TokenView};
use crate::token_type::TokenType;

verus! {

/// The mathematical content of a [`RuntimeError`].
pub struct RuntimeErrorView {
    pub token: TokenView,
    pub message: Seq<char>,
}

/// A failure of evaluation: the token at which it arose and what went wrong.
#[derive(Debug)]
pub struct RuntimeError {
    pub token: Token,
    pub message: String,
}

impl View for RuntimeError {
    type V = RuntimeErrorView;

    open spec fn view(&self) -> RuntimeErrorView {
        RuntimeErrorView { token: self.token@, message: self.message@ }
    }
}

/// The text of a runtime error: the message, and on the next line the line of
/// the token.
pub open spec fn runtime_text(e: RuntimeErrorView) -> Seq<char> {
    e.message + "\n[line "@ + decimal(e.token.line) + "]"@
}

impl RuntimeError {
    /// The error `message` at `token`.
    pub fn new(token: Token, message: &str) -> (r: Self)
        ensures
            r.token == token,
            r.message@ == message@,
    {
        Self { token, message: String::from_str(message) }
    }

    /// The error as it is shown to the user.
    pub fn render(&self) -> (s: String)
        ensures
            s@ == runtime_text(self@),
    {
        let mut s = self.message.clone();
        s.append("\n[line ");
        push_decimal(&mut s, self.token.line);
        s.append("]");
        s
    }
}

/// The mathematical content of a [`Diagnostic`].
pub struct DiagnosticView {
    pub line: nat,
    pub location: Seq<char>,
    pub message: Seq<char>,
}

/// A lexical or syntax error: the line it was found on, where on that line
/// (empty when unknown), and what is wrong.
#[derive(Debug)]
pub struct Diagnostic {
    pub line: usize,
    pub location: String,
    pub message: String,
}

impl View for Diagnostic {
    type V = DiagnosticView;

    open spec fn view(&self) -> DiagnosticView {
        DiagnosticView { line: self.line as nat, location: self.location@, message: self.message@ }
    }
}

/// The text of a diagnostic: `[line: N] Error <location>: <message>`.
pub open spec fn diagnostic_text(d: DiagnosticView) -> Seq<char> {
    "[line: "@ + decimal(d.line) + "] Error "@ + d.location + ": "@ + d.message
}

/// Where a syntax error at `token` is said to be: at the end of the input, or
/// at the token's text.
pub open spec fn token_location(token: TokenView) -> Seq<char> {
    if token.token_type == TokenType::EOF {
        "at end"@
    } else {
        " at'"@ + token.lexeme + "'"@
    }
}

/// The diagnostic of a syntax error at `token`.
pub open spec fn token_diagnostic(token: TokenView, message: Seq<char>) -> DiagnosticView {
    DiagnosticView { line: token.line, location: token_location(token), message }
}

impl Diagnostic {
    /// The diagnostic as it is shown to the user.
    pub fn render(&self) -> (s: String)
        ensures
            s@ == diagnostic_text(self@),
    {
        let mut s = String::from_str("[line: ");
        push_decimal(&mut s, self.line);
        s.append("] Error ");
        s.append(self.location.as_str());
        s.append(": ");
        s.append(self.message.as_str());
        s
    }
}

/// The views of a sequence of diagnostics, in order.
pub open spec fn diagnostic_views(v: Seq<Diagnostic>) -> Seq<DiagnosticView> {
    Seq::new(v.len(), |i: int| v[i]@)
}

/// The views of a sequence of runtime errors, in order.
pub open spec fn runtime_error_views(v: Seq<RuntimeError>) -> Seq<RuntimeErrorView> {
    Seq::new(v.len(), |i: int| v[i]@)
}

/// The mathematical content of an [`ErrorHandler`].
pub struct ErrorHandlerView {
    pub had_error: bool,
    pub had_runtime_error: bool,
    pub diagnostics: Seq<DiagnosticView>,
    pub runtime_errors: Seq<RuntimeErrorView>,
}

impl ErrorHandlerView {
    /// The collector after one more lexical or syntax error.
    pub open spec fn reported(self, d: DiagnosticView) -> ErrorHandlerView {
        ErrorHandlerView { had_error: true, diagnostics: self.diagnostics.push(d), ..self }
    }

    /// The collector after each of `ds` was reported in turn.
    pub open spec fn reported_all(self, ds: Seq<DiagnosticView>) -> ErrorHandlerView {
        ErrorHandlerView {
            had_error: self.had_error || ds.len() > 0,
            diagnostics: self.diagnostics + ds,
            ..self
        }
    }

    /// The collector after one more runtime error.
    pub open spec fn failed(self, e: RuntimeErrorView) -> ErrorHandlerView {
        ErrorHandlerView {
            had_runtime_error: true,
            runtime_errors: self.runtime_errors.push(e),
            ..self
        }
    }
}

/// Collects the errors of one run and remembers of which kinds there were any.
///
/// `had_error` is set by every lexical or syntax error, `had_runtime_error` by
/// every runtime error. The errors themselves are kept in the order in which
/// they were reported.
pub struct ErrorHandler {
    pub had_error: bool,
    pub had_runtime_error: bool,
    pub diagnostics: Vec<Diagnostic>,
    pub runtime_errors: Vec<RuntimeError>,
}

impl View for ErrorHandler {
    type V = ErrorHandlerView;

    open spec fn view(&self) -> ErrorHandlerView {
        ErrorHandlerView {
            had_error: self.had_error,
            had_runtime_error: self.had_runtime_error,
            diagnostics: diagnostic_views(self.diagnostics@),
            runtime_errors: runtime_error_views(self.runtime_errors@),
        }
    }
}

impl ErrorHandler {
    /// The content of a collector that has seen no error.
    pub open spec fn new_view() -> ErrorHandlerView {
        ErrorHandlerView {
            had_error: false,
            had_runtime_error: false,
            diagnostics: Seq::empty(),
            runtime_errors: Seq::empty(),
        }
    }

    /// A collector that has seen no error.
    pub fn new() -> (r: Self)
        ensures
            r@ == Self::new_view(),
    {
        let r = Self {
            had_error: false,
            had_runtime_error: false,
            diagnostics: Vec::new(),
            runtime_errors: Vec::new(),
        };
        assert(r@.diagnostics =~= Seq::empty());
        assert(r@.runtime_errors =~= Seq::empty());
        r
    }

    /// Reports an error on `line` whose place on the line is not known.
    pub fn error(&mut self, line: usize, message: &str)
        ensures
            final(self)@ == old(self)@.reported(
                DiagnosticView { line: line as nat, location: Seq::empty(), message: message@ },
            ),
    {
        proof {
            reveal_strlit("");
            assert(""@ =~= Seq::<char>::empty());
        }
        self.report(line, "", message);
    }

    /// Records a lexical or syntax error and sets `had_error`.
    pub fn report(&mut self, line: usize, _where: &str, message: &str)
        ensures
            final(self)@ == old(self)@.reported(
                DiagnosticView { line: line as nat, location: _where@, message: message@ },
            ),
    {
        let d = Diagnostic {
            line,
            location: String::from_str(_where),
            message: String::from_str(message),
        };
        self.diagnostics.push(d);
        self.had_error = true;
        assert(final(self)@.diagnostics =~= old(self)@.diagnostics.push(d@));
        assert(final(self)@.runtime_errors =~= old(self)@.runtime_errors);
    }

    /// Reports a syntax error at `token`: at the end of the input when the
    /// token is the end marker, else at the token's text.
    pub fn error_with_token(&mut self, token: &Token, message: &str)
        ensures
            final(self)@ == old(self)@.reported(token_diagnostic(token@, message@)),
    {
        if token.token_type == TokenType::EOF {
            self.report(token.line, "at end", message);
        } else {
            let mut location = String::from_str(" at'");
            location.append(token.lexeme.as_str());
            location.append("'");
            self.report(token.line, location.as_str(), message)
        }
    }

    /// Records a runtime error and sets `had_runtime_error`.
    pub fn runtime_error(&mut self, error: RuntimeError)
        ensures
            final(self)@ == old(self)@.failed(error@),
    {
        self.runtime_errors.push(error);
        self.had_runtime_error = true;
        assert(final(self)@.runtime_errors =~= old(self)@.runtime_errors.push(error@));
        assert(final(self)@.diagnostics =~= old(self)@.diagnostics);
    }
}

} // verus!
