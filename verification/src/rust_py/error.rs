//! The diagnostics reported by the Rust converter.
use vstd::prelude::*;
use crate::text::{decimal, push_decimal, push_str, string_of};

verus! {

/// A conversion error with the 1-based position it refers to.
#[derive(Debug, Clone, PartialEq, Eq)]
pub struct RustToPythonError {
    pub message: String,
    pub line: usize,
    pub column: usize,
}

/// What a diagnostic says: its message and position.
pub struct Diag {
    pub message: Seq<char>,
    pub line: int,
    pub column: int,
}

/// The diagnostic with `message` at (`line`, `column`).
pub open spec fn diag(message: Seq<char>, line: int, column: int) -> Diag {
    Diag { message, line, column }
}

/// How an error is shown: `エラー: {line}行{column}列: {message}`.
pub open spec fn error_text(d: Diag) -> Seq<char> {
    "エラー: "@ + decimal(d.line as nat) + "行"@ + decimal(d.column as nat) + "列: "@ + d.message
}

impl RustToPythonError {
    /// What this error says.
    pub open spec fn view_diag(self) -> Diag {
        diag(self.message@, self.line as int, self.column as int)
    }

    /// An error with `message` at (`line`, `column`).
    pub fn new(message: &str, line: usize, column: usize) -> (e: Self)
        ensures
            e.view_diag() == diag(message@, line as int, column as int),
    {
        RustToPythonError { message: String::from_str(message), line, column }
    }

    /// An error whose message was built by the caller.
    pub fn from_message(message: String, line: usize, column: usize) -> (e: Self)
        ensures
            e.view_diag() == diag(message@, line as int, column as int),
    {
        RustToPythonError { message, line, column }
    }

    /// An error for syntax the converter does not support: `未対応構文: {syntax}`.
    pub fn unsupported(syntax: &str, line: usize, column: usize) -> (e: Self)
        ensures
            e.view_diag() == diag("未対応構文: "@ + syntax@, line as int, column as int),
    {
        let mut m: Vec<char> = Vec::new();
        push_str(&mut m, "未対応構文: ");
        push_str(&mut m, syntax);
        RustToPythonError { message: string_of(m.as_slice()), line, column }
    }

    /// The error as shown to the user.
    pub fn to_string(&self) -> (s: String)
        ensures
            s@ == error_text(self.view_diag()),
    {
        let mut m: Vec<char> = Vec::new();
        push_str(&mut m, "エラー: ");
        push_decimal(&mut m, self.line);
        push_str(&mut m, "行");
        push_decimal(&mut m, self.column);
        push_str(&mut m, "列: ");
        push_str(&mut m, self.message.as_str());
        string_of(m.as_slice())
    }
}

/// The English-language variant of the converter's error.
#[derive(Debug, Clone, PartialEq, Eq)]
pub struct FarmError {
    pub message: String,
    pub line: usize,
    pub column: usize,
}

impl FarmError {
    /// What this error says.
    pub open spec fn view_diag(self) -> Diag {
        diag(self.message@, self.line as int, self.column as int)
    }

    /// An error with `message` at (`line`, `column`).
    pub fn new(message: &str, line: usize, column: usize) -> (e: Self)
        ensures
            e.view_diag() == diag(message@, line as int, column as int),
    {
        FarmError { message: String::from_str(message), line, column }
    }

    /// An error for unsupported syntax: `unsupported syntax: {syntax}`.
    pub fn unsupported(syntax: &str, line: usize, column: usize) -> (e: Self)
        ensures
            e.view_diag() == diag("unsupported syntax: "@ + syntax@, line as int, column as int),
    {
        let mut m: Vec<char> = Vec::new();
        push_str(&mut m, "unsupported syntax: ");
        push_str(&mut m, syntax);
        FarmError { message: string_of(m.as_slice()), line, column }
    }

    /// The error as shown: `error: {message} at {line}:{column}`.
    pub fn to_string(&self) -> (s: String)
        ensures
            s@ == "error: "@ + self.message@ + " at "@ + decimal(self.line as nat) + ":"@ + decimal(self.column as nat),
    {
        let mut m: Vec<char> = Vec::new();
        push_str(&mut m, "error: ");
        push_str(&mut m, self.message.as_str());
        push_str(&mut m, " at ");
        push_decimal(&mut m, self.line);
        push_str(&mut m, ":");
        push_decimal(&mut m, self.column);
        string_of(m.as_slice())
    }
}

} // verus!
