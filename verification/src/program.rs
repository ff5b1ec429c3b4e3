//! The pipeline: source text in, value or errors out.
//!
//! [`Program`] decides what a run does and leaves reading and printing to its
//! caller: the caller reads a script or a line, hands the text over, and
//! prints the value that comes back and the errors that were collected.

use vstd::prelude::*;
use crate::error_handler::{token_diagnostic, ErrorHandler, ErrorHandlerView};
use crate::grammar::{parse, Parsed};
use crate::interpreter::{computes, eval, rounds_all, Interpreter};
use crate::laws::parsing::lemma_parsed_nests_well;
use crate::lexical::scan;
use crate::number::ArithOp;
use crate::parser::Parser;
use crate::scanner::{agrees, reads_numbers, Scanner};
use crate::token::{clone_tokens, LiteralType, LiteralView};

verus! {

/// What a program is started on.
#[derive(Debug)]
pub enum Mode {
    /// The script at the given path: it is run as a whole.
    Script(String),
    /// The prompt: lines are run one by one as they are entered.
    Prompt,
}

/// The exit status of a script with a lexical or syntax error.
pub const EXIT_SYNTAX_ERROR: i32 = 65;

/// The exit status of a script with a runtime error.
pub const EXIT_RUNTIME_ERROR: i32 = 70;

/// What one run gives: the value, if the text was evaluated to one, and the
/// collector after the run.
pub struct Outcome {
    pub value: Option<LiteralView>,
    pub errors: ErrorHandlerView,
}

/// What running `source` gives when the collector is `errors` before the run.
///
/// The text is scanned and the tokens are parsed, whatever the scan reported.
/// The tree is evaluated only if the collector holds no lexical or syntax
/// error after that.
pub open spec fn run_outcome(
    number: spec_fn(Seq<char>) -> u64,
    num: spec_fn(ArithOp, u64, u64) -> u64,
    source: Seq<char>,
    errors: ErrorHandlerView,
) -> Outcome {
    let scanned = scan(number, source);
    let after_scan = errors.reported_all(scanned.diagnostics);
    match parse(scanned.tokens) {
        Parsed::Failure { at, message } => Outcome {
            value: None,
            errors: after_scan.reported(token_diagnostic(scanned.tokens[at], message)),
        },
        Parsed::Tree { expr, used } => if after_scan.had_error {
            Outcome { value: None, errors: after_scan }
        } else {
            match eval(num, expr) {
                Ok(value) => Outcome { value: Some(value), errors: after_scan },
                Err(error) => Outcome { value: None, errors: after_scan.failed(error) },
            }
        },
    }
}

/// The exit status that a script ends with, if it is not 0: that of a syntax
/// error before that of a runtime error.
pub open spec fn exit_status(errors: ErrorHandlerView) -> Option<i32> {
    if errors.had_error {
        Some(EXIT_SYNTAX_ERROR)
    } else if errors.had_runtime_error {
        Some(EXIT_RUNTIME_ERROR)
    } else {
        None
    }
}

/// The view of an optional value.
pub open spec fn value_view(value: Option<LiteralType>) -> Option<LiteralView> {
    match value {
        Some(v) => Some(v@),
        None => None,
    }
}

/// A scanner, a parser and an evaluator in a row, with the collector of their
/// errors. `to_number` gives the value of a number by its text and `arith`
/// rounds the results of arithmetic.
pub struct Program<'a, P, A> {
    pub error_handler: ErrorHandler,
    pub to_number: &'a P,
    pub arith: &'a A,
}

impl<'a, P: Fn(String) -> u64, A: Fn(ArithOp, u64, u64) -> u64> Program<'a, P, A> {
    /// The two functions can be called on whatever a run hands them.
    pub open spec fn wf(&self) -> bool {
        reads_numbers(*self.to_number) && rounds_all(*self.arith)
    }

    /// A program that has seen no error.
    pub fn new(to_number: &'a P, arith: &'a A) -> (r: Self)
        ensures
            r.to_number == to_number,
            r.arith == arith,
            r.error_handler@ == ErrorHandler::new_view(),
    {
        let error_handler = ErrorHandler::new();
        Self { error_handler, to_number, arith }
    }

    /// What the program is started on: the script `file`, or the prompt when
    /// there is none.
    pub fn init(&self, file: Option<String>) -> (r: Mode)
        ensures
            match file {
                Some(path) => r == Mode::Script(path),
                None => r == Mode::Prompt,
            },
    {
        if let Some(script) = file {
            Mode::Script(script)
        } else {
            Mode::Prompt
        }
    }

    /// Runs the text of a script. Gives its value, if there is one, and the
    /// status to exit with if that is not 0.
    pub fn run_file(&mut self, content: &str) -> (r: (Option<LiteralType>, Option<i32>))
        requires
            old(self).wf(),
            content@.len() < usize::MAX,
        ensures
            final(self).to_number == old(self).to_number,
            final(self).arith == old(self).arith,
            forall|number: spec_fn(Seq<char>) -> u64, num: spec_fn(ArithOp, u64, u64) -> u64|
                agrees(*old(self).to_number, number) && computes(*old(self).arith, num) ==> {
                    let outcome = #[trigger] run_outcome(
                        number,
                        num,
                        content@,
                        old(self).error_handler@,
                    );
                    &&& value_view(r.0) == outcome.value
                    &&& final(self).error_handler@ == outcome.errors
                    &&& r.1 == exit_status(outcome.errors)
                },
    {
        let value = self.run(content);
        let status = if self.error_handler.had_error {
            Some(EXIT_SYNTAX_ERROR)
        } else if self.error_handler.had_runtime_error {
            Some(EXIT_RUNTIME_ERROR)
        } else {
            None
        };
        (value, status)
    }

    /// Runs one line of the prompt. Gives its value, if there is one. A
    /// lexical or syntax error in the line is kept in the collector, but
    /// `had_error` is cleared, so that the next line starts afresh.
    pub fn run_prompt(&mut self, line: &str) -> (r: Option<LiteralType>)
        requires
            old(self).wf(),
            line@.len() < usize::MAX,
        ensures
            final(self).to_number == old(self).to_number,
            final(self).arith == old(self).arith,
            forall|number: spec_fn(Seq<char>) -> u64, num: spec_fn(ArithOp, u64, u64) -> u64|
                agrees(*old(self).to_number, number) && computes(*old(self).arith, num) ==> {
                    let outcome = #[trigger] run_outcome(
                        number,
                        num,
                        line@,
                        old(self).error_handler@,
                    );
                    &&& value_view(r) == outcome.value
                    &&& final(self).error_handler@ == (ErrorHandlerView {
                        had_error: false,
                        ..outcome.errors
                    })
                },
    {
        let value = self.run(line);
        self.error_handler.had_error = false;
        value
    }

    /// Scans, parses and evaluates `source`. Gives the value, if there is
    /// one; the errors are in the collector.
    pub fn run(&mut self, source: &str) -> (r: Option<LiteralType>)
        requires
            old(self).wf(),
            source@.len() < usize::MAX,
        ensures
            final(self).to_number == old(self).to_number,
            final(self).arith == old(self).arith,
            forall|number: spec_fn(Seq<char>) -> u64, num: spec_fn(ArithOp, u64, u64) -> u64|
                agrees(*old(self).to_number, number) && computes(*old(self).arith, num) ==> {
                    let outcome = #[trigger] run_outcome(
                        number,
                        num,
                        source@,
                        old(self).error_handler@,
                    );
                    &&& value_view(r) == outcome.value
                    &&& final(self).error_handler@ == outcome.errors
                },
    {
        let mut scanner = Scanner::new(source.to_owned(), self.to_number);
        let tokens = clone_tokens(scanner.scan_tokens(&mut self.error_handler));
        let ghost after_scan = self.error_handler@;
        let mut parser = Parser::new(tokens);
        let ghost ts = parser.tokens();
        let expression = parser.parse(&mut self.error_handler);
        proof {
            lemma_parsed_nests_well(ts, 0);
        }
        let r = if self.error_handler.had_error {
            None
        } else {
            let interpreter = Interpreter::new(self.arith);
            if let Some(expr) = expression {
                interpreter.interpret(expr, &mut self.error_handler)
            } else {
                None
            }
        };
        proof {
            assert forall|number: spec_fn(Seq<char>) -> u64, num: spec_fn(ArithOp, u64, u64) -> u64|
                agrees(*old(self).to_number, number) && computes(*old(self).arith, num) implies {
                let outcome = #[trigger] run_outcome(
                    number,
                    num,
                    source@,
                    old(self).error_handler@,
                );
                &&& value_view(r) == outcome.value
                &&& final(self).error_handler@ == outcome.errors
            } by {
                let scanned = scan(number, source@);
                assert(ts =~= scanned.tokens);
                assert(after_scan == old(self).error_handler@.reported_all(scanned.diagnostics));
            }
        }
        r
    }
}

} // verus!
