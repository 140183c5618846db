//! A small expression-oriented scripting language: a parser that turns source
//! text into a syntax tree, and a tree-walking evaluator with lexical scopes.
//!
//! A program is a row of statements, and its value is that of the call
//! `main()` after all of them have run:
//!
//! ```text
//! let limit = 10
//! func sum(n) = { let total = 0; for i in 0..n { total = total + i }; total }
//! func main() = if sum(limit) == 45 { [sum(3), "yes"] } else { none }
//! ```
//!
//! Statements are `let name = value`, `for name in source body`,
//! `func name(parameters) = body`, and expressions. Expressions are numbers,
//! `true`, `false`, `none`, strings, arrays, names, `if`, blocks in braces,
//! the binary operators `=`, `==`, `..`, `+ - * / %`, the prefix `-`, calls
//! and indexings. A function sees the global variables and its parameters,
//! never the variables of its caller.
//!
//! Every item is verified against a mathematical model: syntax trees and
//! runtime values have views built from `Seq`, environments are sequences of
//! `Map`s, and the parser and the evaluator are each proved equal to a spec
//! function on those models ([`parser::grammar`], [`interpreter::semantics`]).
//! What holds of every source text and of every program is proved in
//! [`parser::laws`] and [`interpreter::laws`].

pub mod ast;
pub mod interpreter;
pub mod parser;

use vstd::prelude::*;
use crate::interpreter::semantics::{RuntimeError, eval_program};
use crate::interpreter::{DEFAULT_DEPTH, Primitive, PrimitiveView, eval};
use crate::parser::grammar::parse_spec;
use crate::parser::{ParseError, parse};

verus! {

/// Why a source text gave no value.
#[derive(Debug, Clone, Copy, PartialEq, Eq, Structural)]
pub enum RunError {
    /// The text is no program.
    Parse(ParseError),
    /// The program stopped with an error.
    Runtime(RuntimeError),
}

/// What running a source text gives: the value of its `main()`, or the
/// error that parsing or the run ended with.
pub open spec fn run_spec(code: Seq<char>) -> Result<PrimitiveView, RunError> {
    match parse_spec(code) {
        Err(e) => Err(RunError::Parse(e)),
        Ok(program) => match eval_program(program, DEFAULT_DEPTH as nat) {
            Ok(value) => Ok(value),
            Err(e) => Err(RunError::Runtime(e)),
        },
    }
}

/// The model of what a run gave.
pub open spec fn outcome_view(res: Result<Primitive, RunError>) -> Result<PrimitiveView, RunError> {
    match res {
        Ok(value) => Ok(value@),
        Err(e) => Err(e),
    }
}

/// Parses a source text and runs the program that it writes.
pub fn run(code: String) -> (res: Result<Primitive, RunError>)
    ensures
        outcome_view(res) == run_spec(code@),
{
    match parse(code.as_str()) {
        Err(e) => Err(RunError::Parse(e)),
        Ok(program) => match eval(program) {
            Ok(value) => Ok(value),
            Err(e) => Err(RunError::Runtime(e)),
        },
    }
}

/// Running is a function of the source text alone: the same text gives the
/// same value, or the same error at the same place.
pub proof fn lemma_run_deterministic(first: Seq<char>, second: Seq<char>)
    requires
        first == second,
    ensures
        run_spec(first) == run_spec(second),
{
}

impl RunError {
    /// The error in words.
    pub fn message(&self) -> (text: String)
        ensures
            text@ == match *self {
                RunError::Parse(e) => e.expected.description(),
                RunError::Runtime(e) => e.description(),
            },
    {
        match self {
            RunError::Parse(e) => e.message(),
            RunError::Runtime(e) => e.message(),
        }
    }
}

} // verus!
