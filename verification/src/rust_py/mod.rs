//! The Rust to Python converter.
pub mod api_map;
pub mod codegen;
pub mod error;
pub mod ir;
pub mod lexer;
pub mod parser;
pub mod prelude;
pub mod strict;
pub mod syntax;

use vstd::prelude::*;
use self::codegen::{generate, generate_spec, lemma_generate_by_view};
use self::error::{Diag, RustToPythonError};
use self::ir::{program_v, Program, ProgramV};
use self::lexer::{lex, lex_spec};
use self::parser::parse;
use self::syntax::parse_spec;

verus! {

/// The converter from Rust to game Python.
#[derive(Debug, Clone, Copy, Default)]
pub struct RustToPython;

/// The Python text written for the programs that say `v`; every such program is
/// written out as the same text (`lemma_generate_by_view`).
pub open spec fn python_of(v: ProgramV) -> Seq<char> {
    generate_spec(choose|p: Program| program_v(p) == v)
}

/// What checking `source` gives: the first lexing or parsing error, if any.
pub open spec fn check_spec(source: Seq<char>) -> Result<(), Diag> {
    match lex_spec(source) {
        Err(d) => Err(d),
        Ok(ts) => match parse_spec(ts) {
            Ok(_) => Ok(()),
            Err(d) => Err(d),
        },
    }
}

/// What converting `source` gives: its game Python, or the first lexing or parsing
/// error.
pub open spec fn compile_spec(source: Seq<char>) -> Result<Seq<char>, Diag> {
    match lex_spec(source) {
        Err(d) => Err(d),
        Ok(ts) => match parse_spec(ts) {
            Ok(v) => Ok(python_of(v)),
            Err(d) => Err(d),
        },
    }
}

/// Checking accepts a source exactly when converting it succeeds, and both report the
/// same error when they fail.
pub proof fn lemma_check_agrees_with_compile(source: Seq<char>)
    ensures
        check_spec(source) is Ok <==> compile_spec(source) is Ok,
        check_spec(source) matches Err(d) ==> compile_spec(source) == Err::<Seq<char>, Diag>(d),
{
}

/// Lexes and parses `source`.
fn parse_source(source: &str) -> (r: Result<Program, RustToPythonError>)
    ensures
        match lex_spec(source@) {
            Err(d) => r matches Err(e) && e.view_diag() == d,
            Ok(ts) => match parse_spec(ts) {
                Ok(v) => r matches Ok(p) && program_v(p) == v,
                Err(d) => r matches Err(e) && e.view_diag() == d,
            },
        },
{
    let tokens = lex(source)?;
    parse(tokens.as_slice())
}

impl RustToPython {
    /// The converter's name.
    pub fn name(&self) -> (r: &'static str)
        ensures
            r@ == "rust-to-python"@,
    {
        "rust-to-python"
    }

    /// The language it reads.
    pub fn source_language(&self) -> (r: &'static str)
        ensures
            r@ == "Rust"@,
    {
        "Rust"
    }

    /// The language it writes.
    pub fn target_language(&self) -> (r: &'static str)
        ensures
            r@ == "The Farmer Was Replaced Python"@,
    {
        "The Farmer Was Replaced Python"
    }

    /// Checks that `source` lexes and parses.
    pub fn check(&self, source: &str) -> (r: Result<(), RustToPythonError>)
        ensures
            match r {
                Ok(()) => check_spec(source@) == Ok::<(), Diag>(()),
                Err(e) => check_spec(source@) == Err::<(), Diag>(e.view_diag()),
            },
    {
        match parse_source(source) {
            Ok(_) => Ok(()),
            Err(e) => Err(e),
        }
    }

    /// Converts `source` to game Python.
    pub fn compile(&self, source: &str) -> (r: Result<String, RustToPythonError>)
        ensures
            match r {
                Ok(s) => compile_spec(source@) == Ok::<Seq<char>, Diag>(s@),
                Err(e) => compile_spec(source@) == Err::<Seq<char>, Diag>(e.view_diag()),
            },
    {
        let program = parse_source(source)?;
        let text = generate(&program);
        proof {
            let v = program_v(program);
            let q = choose|p: Program| program_v(p) == v;
            lemma_generate_by_view(q, program);
        }
        Ok(text)
    }
}

/// Converts Rust source to game Python.
pub fn compile_source(source: &str) -> (r: Result<String, RustToPythonError>)
    ensures
        match r {
            Ok(s) => compile_spec(source@) == Ok::<Seq<char>, Diag>(s@),
            Err(e) => compile_spec(source@) == Err::<Seq<char>, Diag>(e.view_diag()),
        },
{
    RustToPython.compile(source)
}

/// Checks Rust source.
pub fn check_source(source: &str) -> (r: Result<(), RustToPythonError>)
    ensures
        match r {
            Ok(()) => check_spec(source@) == Ok::<(), Diag>(()),
            Err(e) => check_spec(source@) == Err::<(), Diag>(e.view_diag()),
        },
{
    RustToPython.check(source)
}

} // verus!
