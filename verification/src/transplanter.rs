//! The common face of the two converters, and the entry points of the library.
use vstd::prelude::*;
use crate::lisp::error::LispToPythonError;
use crate::lisp::LispToPython;
use crate::rust_py::error::RustToPythonError;
use crate::rust_py::RustToPython;

verus! {

/// What a diagnostic says, whichever converter made it: message, line and column.
pub type DiagView = (Seq<char>, int, int);

/// A converter from one source language into game Python.
pub trait Converter {
    type Error;

    /// The converter's name.
    spec fn name_view(&self) -> Seq<char>;

    /// The language it reads.
    spec fn source_view(&self) -> Seq<char>;

    /// The language it writes.
    spec fn target_view(&self) -> Seq<char>;

    /// What checking `source` gives.
    spec fn check_view(&self, source: Seq<char>) -> Result<(), DiagView>;

    /// What converting `source` gives: the Python text, or a diagnostic.
    spec fn compile_view(&self, source: Seq<char>) -> Result<Seq<char>, DiagView>;

    /// What an error of this converter says.
    spec fn error_view(&self, e: Self::Error) -> DiagView;

    fn name(&self) -> (r: &'static str)
        ensures
            r@ == self.name_view();

    fn source_language(&self) -> (r: &'static str)
        ensures
            r@ == self.source_view();

    fn target_language(&self) -> (r: &'static str)
        ensures
            r@ == self.target_view();

    fn check(&self, source: &str) -> (r: Result<(), Self::Error>)
        ensures
            match r {
                Ok(()) => self.check_view(source@) == Ok::<(), DiagView>(()),
                Err(e) => self.check_view(source@) == Err::<(), DiagView>(self.error_view(e)),
            };

    fn compile(&self, source: &str) -> (r: Result<String, Self::Error>)
        ensures
            match r {
                Ok(s) => self.compile_view(source@) == Ok::<Seq<char>, DiagView>(s@),
                Err(e) => self.compile_view(source@) == Err::<Seq<char>, DiagView>(self.error_view(e)),
            };
}

/// A Rust converter diagnostic, as the common interface shows it.
pub open spec fn rust_diag_view(d: crate::rust_py::error::Diag) -> DiagView {
    (d.message, d.line, d.column)
}

/// A Lisp converter diagnostic, as the common interface shows it.
pub open spec fn lisp_diag_view(d: crate::lisp::error::Diag) -> DiagView {
    (d.message, d.line, d.column)
}

impl Converter for RustToPython {
    type Error = RustToPythonError;

    open spec fn name_view(&self) -> Seq<char> {
        "rust-to-python"@
    }

    open spec fn source_view(&self) -> Seq<char> {
        "Rust"@
    }

    open spec fn target_view(&self) -> Seq<char> {
        "The Farmer Was Replaced Python"@
    }

    open spec fn check_view(&self, source: Seq<char>) -> Result<(), DiagView> {
        match crate::rust_py::check_spec(source) {
            Ok(()) => Ok(()),
            Err(d) => Err(rust_diag_view(d)),
        }
    }

    open spec fn compile_view(&self, source: Seq<char>) -> Result<Seq<char>, DiagView> {
        match crate::rust_py::compile_spec(source) {
            Ok(s) => Ok(s),
            Err(d) => Err(rust_diag_view(d)),
        }
    }

    open spec fn error_view(&self, e: RustToPythonError) -> DiagView {
        rust_diag_view(e.view_diag())
    }

    fn name(&self) -> (r: &'static str) {
        RustToPython::name(self)
    }

    fn source_language(&self) -> (r: &'static str) {
        RustToPython::source_language(self)
    }

    fn target_language(&self) -> (r: &'static str) {
        RustToPython::target_language(self)
    }

    fn check(&self, source: &str) -> (r: Result<(), RustToPythonError>) {
        RustToPython::check(self, source)
    }

    fn compile(&self, source: &str) -> (r: Result<String, RustToPythonError>) {
        RustToPython::compile(self, source)
    }
}

impl Converter for LispToPython {
    type Error = LispToPythonError;

    open spec fn name_view(&self) -> Seq<char> {
        "lisp-to-python"@
    }

    open spec fn source_view(&self) -> Seq<char> {
        "Scheme-like Lisp"@
    }

    open spec fn target_view(&self) -> Seq<char> {
        "The Farmer Was Replaced Python"@
    }

    open spec fn check_view(&self, source: Seq<char>) -> Result<(), DiagView> {
        match crate::lisp::check_spec(source) {
            Ok(()) => Ok(()),
            Err(d) => Err(lisp_diag_view(d)),
        }
    }

    open spec fn compile_view(&self, source: Seq<char>) -> Result<Seq<char>, DiagView> {
        match crate::lisp::compile_spec(source) {
            Ok(s) => Ok(s),
            Err(d) => Err(lisp_diag_view(d)),
        }
    }

    open spec fn error_view(&self, e: LispToPythonError) -> DiagView {
        lisp_diag_view(e.view_diag())
    }

    fn name(&self) -> (r: &'static str) {
        LispToPython::name(self)
    }

    fn source_language(&self) -> (r: &'static str) {
        LispToPython::source_language(self)
    }

    fn target_language(&self) -> (r: &'static str) {
        LispToPython::target_language(self)
    }

    fn check(&self, source: &str) -> (r: Result<(), LispToPythonError>) {
        LispToPython::check(self, source)
    }

    fn compile(&self, source: &str) -> (r: Result<String, LispToPythonError>) {
        LispToPython::compile(self, source)
    }
}

/// A converter behind one interface.
#[derive(Debug, Clone, Copy)]
pub struct Transplanter<C> {
    converter: C,
}

impl<C> Transplanter<C> {
    /// The converter this wraps.
    pub closed spec fn wrapped(&self) -> C {
        self.converter
    }

    /// Wraps `converter`.
    pub fn new(converter: C) -> (t: Self)
        ensures
            t.wrapped() == converter,
    {
        Transplanter { converter }
    }
}

impl<C: Converter> Transplanter<C> {
    /// The wrapped converter.
    pub fn converter(&self) -> (r: &C)
        ensures
            *r == self.wrapped(),
    {
        &self.converter
    }

    /// Checks `source` with the wrapped converter.
    pub fn check(&self, source: &str) -> (r: Result<(), C::Error>)
        ensures
            match r {
                Ok(()) => self.wrapped().check_view(source@) == Ok::<(), DiagView>(()),
                Err(e) => self.wrapped().check_view(source@) == Err::<(), DiagView>(self.wrapped().error_view(e)),
            },
    {
        self.converter.check(source)
    }

    /// Compiles `source` with the wrapped converter.
    pub fn compile(&self, source: &str) -> (r: Result<String, C::Error>)
        ensures
            match r {
                Ok(s) => self.wrapped().compile_view(source@) == Ok::<Seq<char>, DiagView>(s@),
                Err(e) => self.wrapped().compile_view(source@) == Err::<Seq<char>, DiagView>(self.wrapped().error_view(e)),
            },
    {
        self.converter.compile(source)
    }
}

/// The Rust converter behind the common interface.
pub fn rust_to_python_transplanter() -> (t: Transplanter<RustToPython>)
    ensures
        t.wrapped() == RustToPython,
{
    Transplanter::new(RustToPython)
}

/// The Lisp converter behind the common interface.
pub fn lisp_to_python_transplanter() -> (t: Transplanter<LispToPython>)
    ensures
        t.wrapped() == LispToPython,
{
    Transplanter::new(LispToPython)
}

/// Converts Rust source to game Python.
pub fn compile_source(source: &str) -> (r: Result<String, RustToPythonError>)
    ensures
        match r {
            Ok(s) => crate::rust_py::compile_spec(source@) == Ok::<Seq<char>, crate::rust_py::error::Diag>(s@),
            Err(e) => crate::rust_py::compile_spec(source@) == Err::<Seq<char>, crate::rust_py::error::Diag>(e.view_diag()),
        },
{
    crate::rust_py::compile_source(source)
}

/// Checks Rust source.
pub fn check_source(source: &str) -> (r: Result<(), RustToPythonError>)
    ensures
        match r {
            Ok(()) => crate::rust_py::check_spec(source@) == Ok::<(), crate::rust_py::error::Diag>(()),
            Err(e) => crate::rust_py::check_spec(source@) == Err::<(), crate::rust_py::error::Diag>(e.view_diag()),
        },
{
    crate::rust_py::check_source(source)
}

/// Converts Lisp source to game Python.
pub fn compile_lisp_source(source: &str) -> (r: Result<String, LispToPythonError>)
    ensures
        match r {
            Ok(s) => crate::lisp::compile_spec(source@) == Ok::<Seq<char>, crate::lisp::error::Diag>(s@),
            Err(e) => crate::lisp::compile_spec(source@) == Err::<Seq<char>, crate::lisp::error::Diag>(e.view_diag()),
        },
{
    crate::lisp::compile_source(source)
}

/// Checks Lisp source.
pub fn check_lisp_source(source: &str) -> (r: Result<(), LispToPythonError>)
    ensures
        match r {
            Ok(()) => crate::lisp::check_spec(source@) == Ok::<(), crate::lisp::error::Diag>(()),
            Err(e) => crate::lisp::check_spec(source@) == Err::<(), crate::lisp::error::Diag>(e.view_diag()),
        },
{
    crate::lisp::check_source(source)
}

} // verus!
