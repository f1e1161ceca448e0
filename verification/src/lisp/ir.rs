//! The Lisp syntax tree: atoms and lists, each with its position.
use vstd::prelude::*;

verus! {

/// A Lisp expression with the 1-based line and column where it starts.
#[derive(Debug)]
pub struct Expr {
    pub kind: ExprKind,
    pub line: usize,
    pub column: usize,
}

/// The forms a Lisp expression takes.
#[derive(Debug)]
pub enum ExprKind {
    Bool(bool),
    Keyword(String),
    List(Vec<Expr>),
    Number(String),
    String(String),
    Symbol(String),
}

/// What an expression kind holds.
pub enum ExprKindV {
    Bool(bool),
    Keyword(Seq<char>),
    List(Seq<ExprV>),
    Number(Seq<char>),
    Str(Seq<char>),
    Symbol(Seq<char>),
}

/// What an expression holds.
pub struct ExprV {
    pub kind: ExprKindV,
    pub line: int,
    pub column: int,
}

/// The view of an expression.
pub open spec fn expr_view(e: Expr) -> ExprV
    decreases e,
{
    let kind = match e.kind {
        ExprKind::Bool(b) => ExprKindV::Bool(b),
        ExprKind::Keyword(s) => ExprKindV::Keyword(s@),
        ExprKind::List(items) => ExprKindV::List(exprs_view(items@)),
        ExprKind::Number(s) => ExprKindV::Number(s@),
        ExprKind::String(s) => ExprKindV::Str(s@),
        ExprKind::Symbol(s) => ExprKindV::Symbol(s@),
    };
    ExprV { kind, line: e.line as int, column: e.column as int }
}

/// The views of a sequence of expressions.
pub open spec fn exprs_view(s: Seq<Expr>) -> Seq<ExprV>
    decreases s,
{
    if s.len() == 0 {
        Seq::empty()
    } else {
        seq![expr_view(s[0])] + exprs_view(s.subrange(1, s.len() as int))
    }
}

impl Expr {
    /// An expression of `kind` at (`line`, `column`).
    pub fn new(kind: ExprKind, line: usize, column: usize) -> (e: Self)
        ensures
            e.kind == kind,
            e.line == line,
            e.column == column,
    {
        Expr { kind, line, column }
    }
}

} // verus!
