//! The Scheme-like Lisp to Python converter.
pub mod codegen;
pub mod error;
pub mod ir;
pub mod lexer;
pub mod parser;

use vstd::prelude::*;
use self::codegen::{expr_depth, forms_fit, generate, generate_spec};
use self::error::{Diag, LispToPythonError};
use self::ir::{exprs_view, Expr, ExprV};
use self::lexer::{lex, lex_spec, tokens_view};
use self::parser::{lemma_forms_depth, parse, parse_spec};

verus! {

/// The converter from the Scheme-like Lisp of this project to game Python.
#[derive(Debug, Clone, Copy, Default)]
pub struct LispToPython;

/// The forms of `source`, or the first lexing or parsing error.
pub open spec fn forms_spec(source: Seq<char>) -> Result<Seq<ExprV>, Diag> {
    match lex_spec(source) {
        Err(d) => Err(d),
        Ok(ts) => parse_spec(ts),
    }
}

/// What checking `source` gives: success when it lexes and parses.
pub open spec fn check_spec(source: Seq<char>) -> Result<(), Diag> {
    match forms_spec(source) {
        Err(d) => Err(d),
        Ok(_) => Ok(()),
    }
}

/// What compiling `source` gives: the Python for its forms.
pub open spec fn compile_spec(source: Seq<char>) -> Result<Seq<char>, Diag> {
    match forms_spec(source) {
        Err(d) => Err(d),
        Ok(forms) => generate_spec(forms),
    }
}

/// Lexes and parses `source`.
fn parse_source(source: &str) -> (r: Result<Vec<Expr>, LispToPythonError>)
    ensures
        match r {
            Ok(forms) => forms_spec(source@) == Ok::<Seq<ExprV>, Diag>(exprs_view(forms@)) && forms_fit(exprs_view(forms@)),
            Err(e) => forms_spec(source@) == Err::<Seq<ExprV>, Diag>(e.view_diag()),
        },
{
    let tokens = lex(source)?;
    let r = parse(tokens.as_slice());
    proof {
        if r is Ok {
            let tv = tokens_view(tokens@);
            assert(tv.len() == tokens.len());
            let fv = exprs_view(r->Ok_0@);
            assert(parse_spec(tv) == Ok::<Seq<ExprV>, Diag>(fv));
            assert forall|k: int| 0 <= k < fv.len() implies #[trigger] expr_depth(fv[k]) < usize::MAX by {
                lemma_forms_depth(tv, 0, fv, k);
            }
        }
    }
    r
}

impl LispToPython {
    /// The converter's name.
    pub fn name(&self) -> (r: &'static str)
        ensures
            r@ == "lisp-to-python"@,
    {
        "lisp-to-python"
    }

    /// The language it reads.
    pub fn source_language(&self) -> (r: &'static str)
        ensures
            r@ == "Scheme-like Lisp"@,
    {
        "Scheme-like Lisp"
    }

    /// The language it writes.
    pub fn target_language(&self) -> (r: &'static str)
        ensures
            r@ == "The Farmer Was Replaced Python"@,
    {
        "The Farmer Was Replaced Python"
    }

    /// Checks that `source` lexes and parses.
    pub fn check(&self, source: &str) -> (r: Result<(), LispToPythonError>)
        ensures
            match r {
                Ok(()) => check_spec(source@) == Ok::<(), Diag>(()),
                Err(e) => check_spec(source@) == Err::<(), Diag>(e.view_diag()),
            },
    {
        match parse_source(source) {
            Ok(_) => Ok(()),
            Err(e) => Err(e),
        }
    }

    /// Converts `source` into game Python.
    pub fn compile(&self, source: &str) -> (r: Result<String, LispToPythonError>)
        ensures
            match r {
                Ok(s) => compile_spec(source@) == Ok::<Seq<char>, Diag>(s@),
                Err(e) => compile_spec(source@) == Err::<Seq<char>, Diag>(e.view_diag()),
            },
    {
        let forms = parse_source(source)?;
        generate(forms.as_slice())
    }
}

/// Converts Lisp `source` into game Python.
pub fn compile_source(source: &str) -> (r: Result<String, LispToPythonError>)
    ensures
        match r {
            Ok(s) => compile_spec(source@) == Ok::<Seq<char>, Diag>(s@),
            Err(e) => compile_spec(source@) == Err::<Seq<char>, Diag>(e.view_diag()),
        },
{
    LispToPython.compile(source)
}

/// Checks that Lisp `source` lexes and parses.
pub fn check_source(source: &str) -> (r: Result<(), LispToPythonError>)
    ensures
        match r {
            Ok(()) => check_spec(source@) == Ok::<(), Diag>(()),
            Err(e) => check_spec(source@) == Err::<(), Diag>(e.view_diag()),
        },
{
    LispToPython.check(source)
}

/// Whatever compiles also passes the check; and whatever fails the check fails to
/// compile with the same error.
pub proof fn lemma_compile_implies_check(source: Seq<char>)
    ensures
        compile_spec(source) is Ok ==> check_spec(source) is Ok,
        check_spec(source) matches Err(d) ==> compile_spec(source) == Err::<Seq<char>, Diag>(d),
{
}

} // verus!
