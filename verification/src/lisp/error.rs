//! The diagnostic reported by the Lisp converter.
use vstd::prelude::*;

verus! {

/// A conversion error with the 1-based position it refers to.
#[derive(Debug, Clone, PartialEq, Eq)]
pub struct LispToPythonError {
    pub message: String,
    pub line: usize,
    pub column: usize,
}

/// What a diagnostic says: its message and position.
pub struct Diag {
    pub message: Seq<char>,
    pub line: int,
    pub column: int,
}

/// The diagnostic with `message` at (`line`, `column`).
pub open spec fn diag(message: Seq<char>, line: int, column: int) -> Diag {
    Diag { message, line, column }
}

impl LispToPythonError {
    /// What this error says.
    pub open spec fn view_diag(self) -> Diag {
        diag(self.message@, self.line as int, self.column as int)
    }

    /// An error with `message` at (`line`, `column`).
    pub fn new(message: &str, line: usize, column: usize) -> (e: Self)
        ensures
            e.view_diag() == diag(message@, line as int, column as int),
    {
        LispToPythonError { message: String::from_str(message), line, column }
    }
}

} // verus!
