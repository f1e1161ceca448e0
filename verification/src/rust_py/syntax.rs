//! The grammar the parser follows, as spec functions over token views: what each rule
//! reads from a position, the value it builds and the position after it, or the
//! diagnostic it stops with.
use vstd::prelude::*;
use crate::text::{decimal, join};
use super::error::{diag, Diag};
use super::ir::{ElseV, ExprTokV, FunctionV, ItemsV, ParamV, ProgramV, StmtV};
use super::lexer::{expr_tok_spec, TokKindV, TokV};
use super::strict::input_check;

verus! {

// ---------------------------------------------------------------------------------
// Tokens and positions

/// The (line, column) an error at token index `pos` is reported at: that token, else
/// the last token, else the start of the input.
pub open spec fn here_pos(ts: Seq<TokV>, pos: int) -> (int, int) {
    if 0 <= pos < ts.len() {
        (ts[pos].line, ts[pos].column)
    } else if ts.len() > 0 {
        (ts.last().line, ts.last().column)
    } else {
        (1, 1)
    }
}

/// The (line, column) of the end of the input: the last token, else the start.
pub open spec fn end_pos(ts: Seq<TokV>) -> (int, int) {
    if ts.len() > 0 {
        (ts.last().line, ts.last().column)
    } else {
        (1, 1)
    }
}

/// `message` at token `pos` (or where `here_pos` puts it).
pub open spec fn err_here(ts: Seq<TokV>, pos: int, message: Seq<char>) -> Diag {
    diag(message, here_pos(ts, pos).0, here_pos(ts, pos).1)
}

/// `message` at the end of the input.
pub open spec fn err_end(ts: Seq<TokV>, message: Seq<char>) -> Diag {
    diag(message, end_pos(ts).0, end_pos(ts).1)
}

/// `message` at token `i`.
pub open spec fn err_at(ts: Seq<TokV>, i: int, message: Seq<char>) -> Diag {
    diag(message, ts[i].line, ts[i].column)
}

/// Whether token `i` is the identifier `word`.
pub open spec fn ident_at(ts: Seq<TokV>, i: int, word: Seq<char>) -> bool {
    0 <= i < ts.len() && ts[i].kind == TokKindV::Ident(word)
}

/// Whether token `i` is the symbol `c`.
pub open spec fn symbol_at(ts: Seq<TokV>, i: int, c: char) -> bool {
    0 <= i < ts.len() && ts[i].kind == TokKindV::Symbol(c)
}

/// Whether token `i` is the operator `op`.
pub open spec fn operator_at(ts: Seq<TokV>, i: int, op: Seq<char>) -> bool {
    0 <= i < ts.len() && ts[i].kind == TokKindV::Operator(op)
}

/// The identifier at token `i`, if it is one.
pub open spec fn ident_text(ts: Seq<TokV>, i: int) -> Option<Seq<char>> {
    if 0 <= i < ts.len() {
        match ts[i].kind {
            TokKindV::Ident(v) => Some(v),
            _ => None,
        }
    } else {
        None
    }
}

/// The text of the comment at token `i`, if it is one.
pub open spec fn comment_text(ts: Seq<TokV>, i: int) -> Option<Seq<char>> {
    if 0 <= i < ts.len() {
        match ts[i].kind {
            TokKindV::Comment(v) => Some(v),
            _ => None,
        }
    } else {
        None
    }
}

/// `` `{x}` が必要です ``: the message for a missing keyword, symbol or operator.
pub open spec fn needed(x: Seq<char>) -> Seq<char> {
    "`"@ + x + "` が必要です"@
}

/// Positions only move forward. A rule that goes on from a position another rule gave
/// it checks that here, so that its recursion can be seen to end; the parser's
/// contracts show that the check always passes, and `stalled` is never returned.
pub open spec fn forward(from: int, to: int, len: int) -> bool {
    from < to <= len
}

pub open spec fn stalled() -> Diag {
    diag(Seq::empty(), 0, 0)
}

// ---------------------------------------------------------------------------------
// Bracket depth

/// Open `(`, `[` and `{` after the symbol `c`; a closing one at depth zero leaves it
/// at zero.
pub open spec fn sym_depth(d: (int, int, int), c: char) -> (int, int, int) {
    if c == '(' {
        (d.0 + 1, d.1, d.2)
    } else if c == ')' {
        (if d.0 > 0 { d.0 - 1 } else { 0 }, d.1, d.2)
    } else if c == '[' {
        (d.0, d.1 + 1, d.2)
    } else if c == ']' {
        (d.0, if d.1 > 0 { d.1 - 1 } else { 0 }, d.2)
    } else if c == '{' {
        (d.0, d.1, d.2 + 1)
    } else if c == '}' {
        (d.0, d.1, if d.2 > 0 { d.2 - 1 } else { 0 })
    } else {
        d
    }
}

/// The depth after a token.
pub open spec fn depth_after(d: (int, int, int), k: TokKindV) -> (int, int, int) {
    match k {
        TokKindV::Symbol(c) => sym_depth(d, c),
        _ => d,
    }
}

/// The depth after an expression token.
pub open spec fn etok_depth(d: (int, int, int), t: ExprTokV) -> (int, int, int) {
    match t {
        ExprTokV::Symbol(c) => sym_depth(d, c),
        _ => d,
    }
}

/// No bracket is open.
pub open spec fn at_top(d: (int, int, int)) -> bool {
    d.0 == 0 && d.1 == 0 && d.2 == 0
}

pub open spec fn zero_depth() -> (int, int, int) {
    (0, 0, 0)
}

/// `acc` with the expression token that `k` stands for, if any.
pub open spec fn with_tok(acc: Seq<ExprTokV>, k: TokKindV) -> Seq<ExprTokV> {
    match expr_tok_spec(k) {
        Some(t) => acc.push(t),
        None => acc,
    }
}

// ---------------------------------------------------------------------------------
// Scanning rules: each reads tokens up to a stop token

/// After `<`: up to the `>` that closes it, nested `<...>` included; the position after
/// that `>`.
pub open spec fn generics_from(ts: Seq<TokV>, q: int, depth: int) -> Result<int, Diag>
    decreases ts.len() - q,
{
    if q < 0 || q >= ts.len() {
        Err(err_end(ts, "generics の `>` が必要です"@))
    } else if operator_at(ts, q, "<"@) {
        generics_from(ts, q + 1, depth + 1)
    } else if operator_at(ts, q, ">"@) {
        if depth - 1 == 0 {
            Ok(q + 1)
        } else {
            generics_from(ts, q + 1, depth - 1)
        }
    } else {
        generics_from(ts, q + 1, depth)
    }
}

/// `<...>` at `p`.
pub open spec fn generics_spec(ts: Seq<TokV>, p: int) -> Result<int, Diag> {
    if operator_at(ts, p, "<"@) {
        generics_from(ts, p + 1, 1)
    } else {
        Err(err_here(ts, p, needed("<"@)))
    }
}

/// A parameter's type: up to the top-level `=`, `,` or `)` (left in place).
pub open spec fn param_type_from(ts: Seq<TokV>, q: int, d: (int, int, int), angle: int) -> Result<int, Diag>
    decreases ts.len() - q,
{
    if q < 0 || q >= ts.len() {
        Err(err_end(ts, "引数リストが閉じられていません"@))
    } else {
        let top = at_top(d) && angle == 0;
        match ts[q].kind {
            TokKindV::Operator(v) => if v == "<"@ {
                param_type_from(ts, q + 1, d, angle + 1)
            } else if v == ">"@ && angle > 0 {
                param_type_from(ts, q + 1, d, angle - 1)
            } else if v == "="@ && top {
                Ok(q)
            } else {
                param_type_from(ts, q + 1, d, angle)
            },
            TokKindV::Symbol(c) => if (c == ',' || c == ')') && top {
                Ok(q)
            } else {
                param_type_from(ts, q + 1, sym_depth(d, c), angle)
            },
            _ => param_type_from(ts, q + 1, d, angle),
        }
    }
}

/// Expression tokens up to the top-level `sym` (left in place); `;` or `}` at top
/// level, a comment, or the end of input fail with `msg`.
pub open spec fn until_symbol_from(
    ts: Seq<TokV>,
    q: int,
    sym: char,
    msg: Seq<char>,
    d: (int, int, int),
    acc: Seq<ExprTokV>,
) -> Result<(Seq<ExprTokV>, int), Diag>
    decreases ts.len() - q,
{
    if q < 0 || q >= ts.len() {
        Err(err_end(ts, msg))
    } else {
        let k = ts[q].kind;
        if k == TokKindV::Symbol(sym) && at_top(d) {
            Ok((acc, q))
        } else if (k == TokKindV::Symbol(';') || k == TokKindV::Symbol('}')) && at_top(d) {
            Err(err_at(ts, q, msg))
        } else if k is Comment {
            Err(err_at(ts, q, msg))
        } else {
            until_symbol_from(ts, q + 1, sym, msg, depth_after(d, k), with_tok(acc, k))
        }
    }
}

/// Expression tokens up to the top-level `;`, which is consumed; `}` at top level, a
/// comment, or the end of input fail with `msg`.
pub open spec fn until_semicolon_from(
    ts: Seq<TokV>,
    q: int,
    msg: Seq<char>,
    d: (int, int, int),
    acc: Seq<ExprTokV>,
) -> Result<(Seq<ExprTokV>, int), Diag>
    decreases ts.len() - q,
{
    if q < 0 || q >= ts.len() {
        Err(err_end(ts, msg))
    } else {
        let k = ts[q].kind;
        if k == TokKindV::Symbol(';') && at_top(d) {
            Ok((acc, q + 1))
        } else if k == TokKindV::Symbol('}') && at_top(d) {
            Err(err_at(ts, q, msg))
        } else if k is Comment {
            Err(err_at(ts, q, msg))
        } else {
            until_semicolon_from(ts, q + 1, msg, depth_after(d, k), with_tok(acc, k))
        }
    }
}

pub open spec fn msg_for_brace() -> Seq<char> {
    "for の後に `{` が必要です"@
}

/// A `for` loop's iterable: tokens up to the first top-level `{` that follows at least
/// one expression token.
pub open spec fn for_iter_from(ts: Seq<TokV>, q: int, d: (int, int, int), acc: Seq<ExprTokV>) -> Result<
    (Seq<ExprTokV>, int),
    Diag,
>
    decreases ts.len() - q,
{
    if q < 0 || q >= ts.len() {
        Err(err_end(ts, msg_for_brace()))
    } else {
        let k = ts[q].kind;
        if k == TokKindV::Symbol('{') && at_top(d) && acc.len() > 0 {
            Ok((acc, q))
        } else if (k == TokKindV::Symbol(';') || k == TokKindV::Symbol('}')) && at_top(d) {
            Err(err_at(ts, q, msg_for_brace()))
        } else if k is Comment {
            Err(err_at(ts, q, msg_for_brace()))
        } else {
            for_iter_from(ts, q + 1, depth_after(d, k), with_tok(acc, k))
        }
    }
}

/// An expression up to the top-level `sym` (left in place), whose tokens pass the
/// input check.
pub open spec fn expr_until_symbol(ts: Seq<TokV>, p: int, sym: char, msg: Seq<char>) -> Result<
    (Seq<ExprTokV>, int),
    Diag,
> {
    match until_symbol_from(ts, p, sym, msg, zero_depth(), Seq::empty()) {
        Err(e) => Err(e),
        Ok((e, q)) => match input_check(ts, p, q) {
            Err(d) => Err(d),
            Ok(()) => Ok((e, q)),
        },
    }
}

/// An expression up to the top-level `;` (consumed), whose tokens pass the input check.
pub open spec fn expr_until_semicolon(ts: Seq<TokV>, p: int, msg: Seq<char>) -> Result<
    (Seq<ExprTokV>, int),
    Diag,
> {
    match until_semicolon_from(ts, p, msg, zero_depth(), Seq::empty()) {
        Err(e) => Err(e),
        Ok((e, q)) => match input_check(ts, p, q - 1) {
            Err(d) => Err(d),
            Ok(()) => Ok((e, q)),
        },
    }
}

/// A `for` loop's iterable, whose tokens pass the input check.
pub open spec fn for_iterable(ts: Seq<TokV>, p: int) -> Result<(Seq<ExprTokV>, int), Diag> {
    match for_iter_from(ts, p, zero_depth(), Seq::empty()) {
        Err(e) => Err(e),
        Ok((e, q)) => match input_check(ts, p, q) {
            Err(d) => Err(d),
            Ok(()) => Ok((e, q)),
        },
    }
}

pub open spec fn msg_params_unclosed() -> Seq<char> {
    "引数リストが閉じられていません"@
}

/// A parameter's default value: tokens up to the top-level `,` or `)`.
pub open spec fn default_from(ts: Seq<TokV>, q: int, d: (int, int, int), acc: Seq<ExprTokV>) -> Result<
    (Seq<ExprTokV>, int),
    Diag,
>
    decreases ts.len() - q,
{
    if q < 0 || q >= ts.len() {
        Err(err_end(ts, msg_params_unclosed()))
    } else {
        let k = ts[q].kind;
        if (k == TokKindV::Symbol(',') || k == TokKindV::Symbol(')')) && at_top(d) {
            Ok((acc, q))
        } else if (k == TokKindV::Symbol(';') || k == TokKindV::Symbol('}')) && at_top(d) {
            Err(err_at(ts, q, msg_params_unclosed()))
        } else if k is Comment {
            Err(err_at(ts, q, msg_params_unclosed()))
        } else {
            default_from(ts, q + 1, depth_after(d, k), with_tok(acc, k))
        }
    }
}

pub open spec fn msg_body_brace() -> Seq<char> {
    "関数本体の `{` が必要です"@
}

/// A return type: up to the `{` of the body.
pub open spec fn return_type_from(ts: Seq<TokV>, q: int) -> Result<int, Diag>
    decreases ts.len() - q,
{
    if symbol_at(ts, q, '{') {
        Ok(q)
    } else if q < 0 || q >= ts.len() {
        Err(err_end(ts, msg_body_brace()))
    } else {
        let k = ts[q].kind;
        if k == TokKindV::Symbol(';') || k == TokKindV::Symbol('}') || k is Comment {
            Err(err_at(ts, q, msg_body_brace()))
        } else {
            return_type_from(ts, q + 1)
        }
    }
}

pub open spec fn msg_let_eq() -> Seq<char> {
    "let 文には `=` が必要です"@
}

/// A `let` type annotation: up to the `=` outside all brackets.
pub open spec fn let_type_from(ts: Seq<TokV>, q: int, d: (int, int, int), angle: int) -> Result<int, Diag>
    decreases ts.len() - q,
{
    if q < 0 || q >= ts.len() {
        Err(err_end(ts, msg_let_eq()))
    } else {
        match ts[q].kind {
            TokKindV::Operator(v) => if v == "<"@ {
                let_type_from(ts, q + 1, d, angle + 1)
            } else if v == ">"@ && angle > 0 {
                let_type_from(ts, q + 1, d, angle - 1)
            } else if v == "="@ && at_top(d) && angle == 0 {
                Ok(q)
            } else {
                let_type_from(ts, q + 1, d, angle)
            },
            TokKindV::Symbol(c) => if (c == ';' || c == '}') && at_top(d) {
                Err(err_at(ts, q, msg_let_eq()))
            } else {
                let_type_from(ts, q + 1, sym_depth(d, c), angle)
            },
            _ => let_type_from(ts, q + 1, d, angle),
        }
    }
}

/// Up to and including the top-level `;`; a `}` at top level or the end fail.
pub open spec fn semicolon_from(ts: Seq<TokV>, q: int, msg: Seq<char>, d: (int, int, int)) -> Result<int, Diag>
    decreases ts.len() - q,
{
    if q < 0 || q >= ts.len() {
        Err(err_end(ts, msg))
    } else {
        let k = ts[q].kind;
        if k == TokKindV::Symbol(';') && at_top(d) {
            Ok(q + 1)
        } else if k == TokKindV::Symbol('}') && at_top(d) {
            Err(err_at(ts, q, msg))
        } else {
            semicolon_from(ts, q + 1, msg, depth_after(d, k))
        }
    }
}

pub open spec fn msg_type_unclosed() -> Seq<char> {
    "型注釈が閉じられていません"@
}

/// A field's type: up to the top-level `,` or `close` (left in place).
pub open spec fn field_type_from(ts: Seq<TokV>, q: int, close: char, d: (int, int, int)) -> Result<int, Diag>
    decreases ts.len() - q,
{
    if q < 0 || q >= ts.len() {
        Err(err_end(ts, msg_type_unclosed()))
    } else {
        let k = ts[q].kind;
        if (k == TokKindV::Symbol(',') || k == TokKindV::Symbol(close)) && at_top(d) {
            Ok(q)
        } else if k is Comment {
            Err(err_at(ts, q, msg_type_unclosed()))
        } else {
            field_type_from(ts, q + 1, close, depth_after(d, k))
        }
    }
}

/// An enum variant's value: up to the top-level `,` or `close` (left in place).
pub open spec fn item_value_from(ts: Seq<TokV>, q: int, close: char, d: (int, int, int)) -> Result<int, Diag>
    decreases ts.len() - q,
{
    if q < 0 || q >= ts.len() {
        Err(err_end(ts, "項目が閉じられていません"@))
    } else {
        let k = ts[q].kind;
        if (k == TokKindV::Symbol(',') || k == TokKindV::Symbol(close)) && at_top(d) {
            Ok(q)
        } else {
            item_value_from(ts, q + 1, close, depth_after(d, k))
        }
    }
}

/// The identifiers up to the top-level `{` (left in place).
pub open spec fn idents_from(ts: Seq<TokV>, q: int, msg: Seq<char>, d: (int, int, int), acc: Seq<Seq<char>>) -> Result<
    (Seq<Seq<char>>, int),
    Diag,
>
    decreases ts.len() - q,
{
    if q < 0 || q >= ts.len() {
        Err(err_end(ts, msg))
    } else {
        let k = ts[q].kind;
        if k == TokKindV::Symbol('{') && at_top(d) {
            Ok((acc, q))
        } else if (k == TokKindV::Symbol(';') || k == TokKindV::Symbol('}')) && at_top(d) {
            Err(err_at(ts, q, msg))
        } else {
            idents_from(
                ts,
                q + 1,
                msg,
                depth_after(d, k),
                match k {
                    TokKindV::Ident(v) => acc.push(v),
                    _ => acc,
                },
            )
        }
    }
}

/// After `open`: up to the `close` that matches it; the position after that `close`.
pub open spec fn balanced_from(ts: Seq<TokV>, q: int, open: char, close: char, depth: int) -> Result<int, Diag>
    decreases ts.len() - q,
{
    if q < 0 || q >= ts.len() {
        Err(err_end(ts, needed(seq![close])))
    } else if ts[q].kind == TokKindV::Symbol(open) {
        balanced_from(ts, q + 1, open, close, depth + 1)
    } else if ts[q].kind == TokKindV::Symbol(close) {
        if depth - 1 == 0 {
            Ok(q + 1)
        } else {
            balanced_from(ts, q + 1, open, close, depth - 1)
        }
    } else {
        balanced_from(ts, q + 1, open, close, depth)
    }
}

/// `open ... close` at `p`, nested pairs included.
pub open spec fn balanced_spec(ts: Seq<TokV>, p: int, open: char, close: char) -> Result<int, Diag> {
    if symbol_at(ts, p, open) {
        balanced_from(ts, p + 1, open, close, 1)
    } else {
        Err(err_here(ts, p, needed(seq![open])))
    }
}

/// An item's header, then `;` or a `{...}` block.
pub open spec fn item_block_from(ts: Seq<TokV>, q: int, msg: Seq<char>, d: (int, int, int)) -> Result<int, Diag>
    decreases ts.len() - q,
{
    if q < 0 || q >= ts.len() {
        Err(err_end(ts, msg))
    } else {
        let k = ts[q].kind;
        if k == TokKindV::Symbol(';') && at_top(d) {
            Ok(q + 1)
        } else if k == TokKindV::Symbol('{') && at_top(d) {
            balanced_spec(ts, q, '{', '}')
        } else if k == TokKindV::Symbol('}') && at_top(d) {
            Err(err_at(ts, q, msg))
        } else {
            item_block_from(ts, q + 1, msg, depth_after(d, k))
        }
    }
}

/// A bracketed group at `q`, and a `;` after it if there is one.
pub open spec fn group_then_semicolon(ts: Seq<TokV>, q: int, open: char, close: char) -> Result<int, Diag> {
    match balanced_spec(ts, q, open, close) {
        Ok(r) => Ok(
            if symbol_at(ts, r, ';') {
                r + 1
            } else {
                r
            },
        ),
        Err(e) => Err(e),
    }
}

/// A macro definition's body: up to `;`, or a bracketed group and an optional `;`.
pub open spec fn macro_from(ts: Seq<TokV>, q: int) -> Result<int, Diag>
    decreases ts.len() - q,
{
    if q < 0 || q >= ts.len() {
        Err(err_end(ts, "macro 定義が閉じられていません"@))
    } else if symbol_at(ts, q, '{') {
        group_then_semicolon(ts, q, '{', '}')
    } else if symbol_at(ts, q, '(') {
        group_then_semicolon(ts, q, '(', ')')
    } else if symbol_at(ts, q, '[') {
        group_then_semicolon(ts, q, '[', ']')
    } else if symbol_at(ts, q, ';') {
        Ok(q + 1)
    } else {
        macro_from(ts, q + 1)
    }
}

// ---------------------------------------------------------------------------------
// Small rules

/// `pub` or `pub(...)`, if present: whether it was, and the position after it.
pub open spec fn visibility_spec(ts: Seq<TokV>, p: int) -> Result<(bool, int), Diag> {
    if !ident_at(ts, p, "pub"@) {
        Ok((false, p))
    } else if symbol_at(ts, p + 1, '(') {
        match balanced_spec(ts, p + 1, '(', ')') {
            Ok(q) => Ok((true, q)),
            Err(e) => Err(e),
        }
    } else {
        Ok((true, p + 1))
    }
}

/// Whether the tokens from `p` are `use transplanter_rust::prelude::*;`.
pub open spec fn prelude_at(ts: Seq<TokV>, p: int) -> bool {
    &&& 0 <= p && p + 7 <= ts.len()
    &&& ident_at(ts, p, "use"@)
    &&& ident_at(ts, p + 1, "transplanter_rust"@)
    &&& operator_at(ts, p + 2, "::"@)
    &&& ident_at(ts, p + 3, "prelude"@)
    &&& operator_at(ts, p + 4, "::"@)
    &&& operator_at(ts, p + 5, "*"@)
    &&& symbol_at(ts, p + 6, ';')
}

pub open spec fn msg_use_semicolon() -> Seq<char> {
    "use 文の後に `;` が必要です"@
}

/// A `use` item, if present: whether it was, and the position after it.
pub open spec fn use_spec(ts: Seq<TokV>, p: int) -> Result<(bool, int), Diag> {
    if !ident_at(ts, p, "use"@) {
        Ok((false, p))
    } else if prelude_at(ts, p) {
        Ok((true, p + 7))
    } else {
        match semicolon_from(ts, p + 1, msg_use_semicolon(), zero_depth()) {
            Ok(q) => Ok((true, q)),
            Err(e) => Err(e),
        }
    }
}

/// The index of the first top-level `target` operator of `ts`, from `i`.
pub open spec fn top_op_from(ts: Seq<ExprTokV>, i: int, target: Seq<char>, d: (int, int, int)) -> Option<int>
    decreases ts.len() - i,
{
    if i < 0 || i >= ts.len() {
        None
    } else if ts[i] == ExprTokV::Operator(target) && at_top(d) {
        Some(i)
    } else {
        top_op_from(ts, i + 1, target, etok_depth(d, ts[i]))
    }
}

/// The index of the first top-level `target` operator of `ts`.
pub open spec fn top_op(ts: Seq<ExprTokV>, target: Seq<char>) -> Option<int> {
    top_op_from(ts, 0, target, zero_depth())
}

/// `a..b` at top level, split into its two ends.
pub open spec fn split_range_spec(e: Seq<ExprTokV>) -> Option<(Seq<ExprTokV>, Seq<ExprTokV>)> {
    match top_op(e, ".."@) {
        Some(i) => Some((e.subrange(0, i), e.subrange(i + 1, e.len() as int))),
        None => None,
    }
}

/// The position after the first `for` in `ids` from `i`, or 0 when there is none.
pub open spec fn after_for(ids: Seq<Seq<char>>, i: int) -> int
    decreases ids.len() - i,
{
    if i < 0 || i >= ids.len() {
        0
    } else if ids[i] == "for"@ {
        i + 1
    } else {
        after_for(ids, i + 1)
    }
}

/// The first identifier from `j` that is not `for`.
pub open spec fn first_not_for(ids: Seq<Seq<char>>, j: int) -> Option<Seq<char>>
    decreases ids.len() - j,
{
    if j < 0 || j >= ids.len() {
        None
    } else if ids[j] != "for"@ {
        Some(ids[j])
    } else {
        first_not_for(ids, j + 1)
    }
}

/// The type an `impl` header is for: the first identifier after `for`, or the first
/// identifier when there is no `for`.
pub open spec fn impl_target(ids: Seq<Seq<char>>) -> Option<Seq<char>> {
    first_not_for(ids, after_for(ids, 0))
}

/// `name`, or the namespace and `name` joined with `_`.
pub open spec fn prefixed(ns: Seq<Seq<char>>, name: Seq<char>) -> Seq<char> {
    if ns.len() == 0 {
        name
    } else {
        join(ns.push(name), "_"@)
    }
}

/// The items a program has collected so far, with nothing in them.
pub open spec fn no_items() -> ItemsV {
    ItemsV { constants: Seq::empty(), factories: Seq::empty(), aliases: Seq::empty(), functions: Seq::empty() }
}

/// The field names of a tuple struct: `field0`, `field1`, ...
pub open spec fn tuple_field_name(i: nat) -> Seq<char> {
    "field"@ + decimal(i)
}

// ---------------------------------------------------------------------------------
// Functions and statements

/// Parameters up to (not including) the closing `)`.
pub open spec fn params_from(ts: Seq<TokV>, q: int, acc: Seq<ParamV>) -> Result<(Seq<ParamV>, int), Diag>
    decreases ts.len() - q,
{
    if symbol_at(ts, q, ')') {
        Ok((acc, q))
    } else {
        let q1 = if operator_at(ts, q, "&"@) {
            q + 1
        } else {
            q
        };
        let q2 = if ident_at(ts, q1, "mut"@) {
            q1 + 1
        } else {
            q1
        };
        match ident_text(ts, q2) {
            None => Err(err_here(ts, q2, "引数名が必要です"@)),
            Some(name) => {
                let q3 = q2 + 1;
                let ty = if symbol_at(ts, q3, ':') {
                    param_type_from(ts, q3 + 1, zero_depth(), 0)
                } else {
                    Ok(q3)
                };
                match ty {
                    Err(e) => Err(e),
                    Ok(q4) => {
                        let dv: Result<(Option<Seq<ExprTokV>>, int), Diag> = if operator_at(ts, q4, "="@) {
                            match default_from(ts, q4 + 1, zero_depth(), Seq::empty()) {
                                Err(e) => Err(e),
                                Ok((v, q5)) => if v.len() == 0 {
                                    Err(err_here(ts, q5, "デフォルト引数の値が必要です"@))
                                } else {
                                    Ok((Some(v), q5))
                                },
                            }
                        } else {
                            Ok((None, q4))
                        };
                        match dv {
                            Err(e) => Err(e),
                            Ok((dflt, q5)) => {
                                let acc2 = acc.push(ParamV { name, default: dflt });
                                if symbol_at(ts, q5, ',') {
                                    if forward(q, q5 + 1, ts.len() as int) {
                                        params_from(ts, q5 + 1, acc2)
                                    } else {
                                        Err(stalled())
                                    }
                                } else {
                                    Ok((acc2, q5))
                                }
                            },
                        }
                    },
                }
            },
        }
    }
}

/// Items that may stand inside a function body and are dropped: whether one was
/// there, and the position after it.
pub open spec fn local_item_spec(ts: Seq<TokV>, p: int) -> Result<(bool, int), Diag> {
    if ident_at(ts, p, "struct"@) || ident_at(ts, p, "enum"@) || ident_at(ts, p, "mod"@) || ident_at(ts, p, "impl"@)
        || ident_at(ts, p, "trait"@) {
        match item_block_from(ts, p + 1, "項目本体の `{` が必要です"@, zero_depth()) {
            Ok(q) => Ok((true, q)),
            Err(e) => Err(e),
        }
    } else if ident_at(ts, p, "macro_rules"@) || ident_at(ts, p, "macro"@) {
        let q = if operator_at(ts, p + 1, "!"@) {
            p + 2
        } else {
            p + 1
        };
        match macro_from(ts, q) {
            Ok(r) => Ok((true, r)),
            Err(e) => Err(e),
        }
    } else {
        Ok((false, p))
    }
}

/// `let [mut] name [: type] = value;` after the `let`.
pub open spec fn let_spec(ts: Seq<TokV>, p: int) -> Result<(StmtV, int), Diag> {
    let q1 = if ident_at(ts, p, "mut"@) {
        p + 1
    } else {
        p
    };
    match ident_text(ts, q1) {
        None => Err(err_here(ts, q1, "let の後に変数名が必要です"@)),
        Some(name) => {
            let q2 = q1 + 1;
            let ty = if symbol_at(ts, q2, ':') {
                let_type_from(ts, q2 + 1, zero_depth(), 0)
            } else {
                Ok(q2)
            };
            match ty {
                Err(e) => Err(e),
                Ok(q3) => if !operator_at(ts, q3, "="@) {
                    Err(err_here(ts, q3, msg_let_eq()))
                } else {
                    match expr_until_semicolon(ts, q3 + 1, "let 文の後に `;` が必要です"@) {
                        Err(e) => Err(e),
                        Ok((v, q4)) => if v.len() == 0 {
                            Err(err_here(ts, q4, "let 文には値が必要です"@))
                        } else {
                            Ok((StmtV::Let { name, value: v }, q4))
                        },
                    }
                },
            }
        },
    }
}

/// An expression statement, or an assignment when a top-level `=` splits it.
pub open spec fn expr_stmt_spec(ts: Seq<TokV>, p: int) -> Result<(StmtV, int), Diag> {
    match expr_until_semicolon(ts, p, "式文の後に `;` が必要です"@) {
        Err(e) => Err(e),
        Ok((e, q)) => if e.len() == 0 {
            Err(err_here(ts, q, "式が必要です"@))
        } else {
            match top_op(e, "="@) {
                None => Ok((StmtV::Expr(e), q)),
                Some(i) => {
                    let target = e.subrange(0, i);
                    let value = e.subrange(i + 1, e.len() as int);
                    if target.len() == 0 || value.len() == 0 {
                        Err(err_at(ts, q - 1, "代入文が不正です"@))
                    } else {
                        Ok((StmtV::Assign { target, value }, q))
                    }
                },
            }
        },
    }
}

/// `{ statements }`.
pub open spec fn block_spec(ts: Seq<TokV>, p: int) -> Result<(Seq<StmtV>, int), Diag>
    decreases ts.len() - p, 0nat,
{
    if symbol_at(ts, p, '{') {
        block_items(ts, p + 1, Seq::empty())
    } else {
        Err(err_here(ts, p, needed(seq!['{'])))
    }
}

/// The statements of a block from `q`, after `acc`, and the position after its `}`.
pub open spec fn block_items(ts: Seq<TokV>, q: int, acc: Seq<StmtV>) -> Result<(Seq<StmtV>, int), Diag>
    decreases ts.len() - q, 2nat,
{
    if symbol_at(ts, q, '}') {
        Ok((acc, q + 1))
    } else if q < 0 || q >= ts.len() {
        Err(err_end(ts, "ブロックが閉じられていません"@))
    } else {
        match stmt_spec(ts, q) {
            Err(e) => Err(e),
            Ok((s, r)) => if forward(q, r, ts.len() as int) {
                block_items(ts, r, acc.push(s))
            } else {
                Err(stalled())
            },
        }
    }
}

/// Generics, parameters, return type and body of a function named `name`.
pub open spec fn function_rest(ts: Seq<TokV>, p: int, name: Seq<char>) -> Result<(FunctionV, int), Diag>
    decreases ts.len() - p, 1nat,
{
    let g = if operator_at(ts, p, "<"@) {
        generics_spec(ts, p)
    } else {
        Ok(p)
    };
    match g {
        Err(e) => Err(e),
        Ok(q1) => if !symbol_at(ts, q1, '(') {
            Err(err_here(ts, q1, needed(seq!['('])))
        } else {
            match params_from(ts, q1 + 1, Seq::empty()) {
                Err(e) => Err(e),
                Ok((ps, q2)) => if !symbol_at(ts, q2, ')') {
                    Err(err_here(ts, q2, needed(seq![')'])))
                } else {
                    let q3 = q2 + 1;
                    let rt = if operator_at(ts, q3, "->"@) {
                        return_type_from(ts, q3 + 1)
                    } else {
                        Ok(q3)
                    };
                    match rt {
                        Err(e) => Err(e),
                        Ok(q4) => if !(p <= q4 <= ts.len()) {
                            Err(stalled())
                        } else {
                            match block_spec(ts, q4) {
                                Err(e) => Err(e),
                                Ok((body, q5)) => Ok((FunctionV { name, params: ps, body }, q5)),
                            }
                        },
                    }
                },
            }
        },
    }
}

pub open spec fn msg_fn_name() -> Seq<char> {
    "関数名が必要です"@
}

/// A function after `fn`.
pub open spec fn function_spec(ts: Seq<TokV>, p: int) -> Result<(FunctionV, int), Diag>
    decreases ts.len() - p, 2nat,
{
    match ident_text(ts, p) {
        None => Err(err_here(ts, p, msg_fn_name())),
        Some(n) => function_rest(ts, p + 1, n),
    }
}

/// A function after `fn` whose name gets the prefix of `ns`.
pub open spec fn prefixed_function_spec(ts: Seq<TokV>, p: int, ns: Seq<Seq<char>>) -> Result<(FunctionV, int), Diag> {
    match ident_text(ts, p) {
        None => Err(err_here(ts, p, msg_fn_name())),
        Some(n) => function_rest(ts, p + 1, prefixed(ns, n)),
    }
}

/// `if` condition, block and what follows it, after the `if`.
pub open spec fn if_spec(ts: Seq<TokV>, p: int) -> Result<(StmtV, int), Diag>
    decreases ts.len() - p, 1nat,
{
    match expr_until_symbol(ts, p, '{', "if 条件の後に `{` が必要です"@) {
        Err(e) => Err(e),
        Ok((c, q1)) => if c.len() == 0 {
            Err(err_here(ts, q1, "if 条件が必要です"@))
        } else if !(p <= q1 <= ts.len()) {
            Err(stalled())
        } else {
            match block_spec(ts, q1) {
                Err(e) => Err(e),
                Ok((tb, q2)) => if !forward(p, q2, ts.len() as int) {
                    Err(stalled())
                } else {
                    match else_spec(ts, q2) {
                        Err(e) => Err(e),
                        Ok((eb, q3)) => Ok((StmtV::If { condition: c, then_body: tb, else_branch: eb }, q3)),
                    }
                },
            }
        },
    }
}

/// `else if ...` or `else { ... }`, if present.
pub open spec fn else_spec(ts: Seq<TokV>, p: int) -> Result<(Option<ElseV>, int), Diag>
    decreases ts.len() - p, 1nat,
{
    if !ident_at(ts, p, "else"@) {
        Ok((None, p))
    } else if ident_at(ts, p + 1, "if"@) {
        match expr_until_symbol(ts, p + 2, '{', "else if 条件の後に `{` が必要です"@) {
            Err(e) => Err(e),
            Ok((c, q1)) => if c.len() == 0 {
                Err(err_here(ts, q1, "else if 条件が必要です"@))
            } else if !forward(p, q1, ts.len() as int) {
                Err(stalled())
            } else {
                match block_spec(ts, q1) {
                    Err(e) => Err(e),
                    Ok((tb, q2)) => if !forward(p, q2, ts.len() as int) {
                        Err(stalled())
                    } else {
                        match else_spec(ts, q2) {
                            Err(e) => Err(e),
                            Ok((rest, q3)) => Ok(
                                (
                                    Some(
                                        ElseV::ElseIf {
                                            condition: c,
                                            then_body: tb,
                                            else_branch: match rest {
                                                Some(b) => Some(Box::new(b)),
                                                None => None,
                                            },
                                        },
                                    ),
                                    q3,
                                ),
                            ),
                        }
                    },
                }
            },
        }
    } else {
        match block_spec(ts, p + 1) {
            Err(e) => Err(e),
            Ok((b, q)) => Ok((Some(ElseV::Else(b)), q)),
        }
    }
}

/// `for x in a..b { ... }` or `for x in items { ... }`, after the `for`.
pub open spec fn for_spec(ts: Seq<TokV>, p: int) -> Result<(StmtV, int), Diag>
    decreases ts.len() - p, 1nat,
{
    match ident_text(ts, p) {
        None => Err(err_here(ts, p, "ループ変数が必要です"@)),
        Some(v) => if !ident_at(ts, p + 1, "in"@) {
            Err(err_here(ts, p + 1, needed("in"@)))
        } else {
            match for_iterable(ts, p + 2) {
                Err(e) => Err(e),
                Ok((it, q1)) => if it.len() == 0 {
                    Err(err_here(ts, q1, "for の対象が必要です"@))
                } else if !forward(p, q1, ts.len() as int) {
                    Err(stalled())
                } else {
                    match block_spec(ts, q1) {
                        Err(e) => Err(e),
                        Ok((body, q2)) => match split_range_spec(it) {
                            Some((a, b)) => if a.len() == 0 {
                                Err(err_here(ts, q2, "for 範囲の開始値が必要です"@))
                            } else if b.len() == 0 {
                                Err(err_here(ts, q2, "for 範囲の終了値が必要です"@))
                            } else {
                                Ok((StmtV::For { variable: v, start: a, end: b, body }, q2))
                            },
                            None => Ok((StmtV::ForEach { variable: v, iterable: it, body }, q2)),
                        },
                    }
                },
            }
        },
    }
}

/// One statement.
pub open spec fn stmt_spec(ts: Seq<TokV>, p: int) -> Result<(StmtV, int), Diag>
    decreases ts.len() - p, 1nat,
{
    match visibility_spec(ts, p) {
        Err(e) => Err(e),
        Ok((_vis, q1)) => match local_item_spec(ts, q1) {
            Err(e) => Err(e),
            Ok((b, q2)) => if b {
                Ok((StmtV::Noop, q2))
            } else if !(p <= q2 <= ts.len()) {
                Err(stalled())
            } else {
                match comment_text(ts, q2) {
                    Some(c) => Ok((StmtV::Comment(c), q2 + 1)),
                    None => stmt_after_starter(ts, p, q2),
                }
            },
        },
    }
}

/// A statement whose first token, after any `pub`, is at `q` (and `p <= q`).
pub open spec fn stmt_after_starter(ts: Seq<TokV>, p: int, q: int) -> Result<(StmtV, int), Diag>
    decreases ts.len() - p, 0nat,
{
    if !(p <= q <= ts.len()) {
        Err(stalled())
    } else if ident_at(ts, q, "use"@) {
        match semicolon_from(ts, q + 1, msg_use_semicolon(), zero_depth()) {
            Ok(r) => Ok((StmtV::Noop, r)),
            Err(e) => Err(e),
        }
    } else if ident_at(ts, q, "fn"@) {
        match function_spec(ts, q + 1) {
            Ok((f, r)) => Ok((StmtV::Function(f), r)),
            Err(e) => Err(e),
        }
    } else if ident_at(ts, q, "loop"@) {
        match block_spec(ts, q + 1) {
            Ok((b, r)) => Ok((StmtV::Loop(b), r)),
            Err(e) => Err(e),
        }
    } else if ident_at(ts, q, "while"@) {
        match expr_until_symbol(ts, q + 1, '{', "while 条件の後に `{` が必要です"@) {
            Err(e) => Err(e),
            Ok((c, r1)) => if c.len() == 0 {
                Err(err_here(ts, r1, "while 条件が必要です"@))
            } else if !forward(p, r1, ts.len() as int) {
                Err(stalled())
            } else {
                match block_spec(ts, r1) {
                    Ok((b, r)) => Ok((StmtV::While { condition: c, body: b }, r)),
                    Err(e) => Err(e),
                }
            },
        }
    } else if ident_at(ts, q, "if"@) {
        if_spec(ts, q + 1)
    } else if ident_at(ts, q, "for"@) {
        for_spec(ts, q + 1)
    } else if ident_at(ts, q, "let"@) {
        let_spec(ts, q + 1)
    } else if ident_at(ts, q, "break"@) {
        if symbol_at(ts, q + 1, ';') {
            Ok((StmtV::Break, q + 2))
        } else {
            Err(err_here(ts, q + 1, "break の後に `;` が必要です"@))
        }
    } else if ident_at(ts, q, "continue"@) {
        if symbol_at(ts, q + 1, ';') {
            Ok((StmtV::Continue, q + 2))
        } else {
            Err(err_here(ts, q + 1, "continue の後に `;` が必要です"@))
        }
    } else if ident_at(ts, q, "return"@) {
        if symbol_at(ts, q + 1, ';') {
            Ok((StmtV::Return(None), q + 2))
        } else {
            match expr_until_semicolon(ts, q + 1, "return 値の後に `;` が必要です"@) {
                Ok((v, r)) => Ok((StmtV::Return(Some(v)), r)),
                Err(e) => Err(e),
            }
        }
    } else {
        expr_stmt_spec(ts, q)
    }
}

// ---------------------------------------------------------------------------------
// Items

/// `struct Name { fields }`, `struct Name(types);` or `struct Name;` after `struct`.
pub open spec fn struct_spec(ts: Seq<TokV>, p: int, ns: Seq<Seq<char>>, acc: ItemsV) -> Result<(ItemsV, int), Diag> {
    match ident_text(ts, p) {
        None => Err(err_here(ts, p, "struct 名が必要です"@)),
        Some(orig) => {
            let name = prefixed(ns, orig);
            let acc1 = ItemsV { aliases: acc.aliases.push((ns.push(orig), name)), ..acc };
            let g = if operator_at(ts, p + 1, "<"@) {
                generics_spec(ts, p + 1)
            } else {
                Ok(p + 1)
            };
            match g {
                Err(e) => Err(e),
                Ok(q) => {
                    let fs = if symbol_at(ts, q, '{') {
                        named_fields_from(ts, q + 1, Seq::empty())
                    } else if symbol_at(ts, q, '(') {
                        tuple_fields_from(ts, q + 1, Seq::empty(), 0)
                    } else if symbol_at(ts, q, ';') {
                        Ok((Seq::empty(), q + 1))
                    } else {
                        Err(err_here(ts, q, needed(seq![';'])))
                    };
                    match fs {
                        Err(e) => Err(e),
                        Ok((fields, r)) => Ok((ItemsV { factories: acc1.factories.push((name, fields)), ..acc1 }, r)),
                    }
                },
            }
        },
    }
}

/// The named fields from `q` up to and including the closing `}`.
pub open spec fn named_fields_from(ts: Seq<TokV>, q: int, acc: Seq<Seq<char>>) -> Result<(Seq<Seq<char>>, int), Diag>
    decreases ts.len() - q,
{
    if symbol_at(ts, q, '}') {
        Ok((acc, q + 1))
    } else if q < 0 || q >= ts.len() {
        Err(err_end(ts, "struct 本体が閉じられていません"@))
    } else {
        match visibility_spec(ts, q) {
            Err(e) => Err(e),
            Ok((_vis, q1)) => match ident_text(ts, q1) {
                None => Err(err_here(ts, q1, "field 名が必要です"@)),
                Some(f) => if !symbol_at(ts, q1 + 1, ':') {
                    Err(err_here(ts, q1 + 1, needed(seq![':'])))
                } else {
                    match field_type_from(ts, q1 + 2, '}', zero_depth()) {
                        Err(e) => Err(e),
                        Ok(q2) => if symbol_at(ts, q2, ',') {
                            if forward(q, q2 + 1, ts.len() as int) {
                                named_fields_from(ts, q2 + 1, acc.push(f))
                            } else {
                                Err(stalled())
                            }
                        } else if symbol_at(ts, q2, '}') {
                            Ok((acc.push(f), q2 + 1))
                        } else {
                            Err(err_here(ts, q2, needed(seq!['}'])))
                        },
                    }
                },
            },
        }
    }
}

/// The end of a tuple struct at `q`: `)` and `;`.
pub open spec fn tuple_end(ts: Seq<TokV>, q: int, acc: Seq<Seq<char>>) -> Result<(Seq<Seq<char>>, int), Diag> {
    if !symbol_at(ts, q, ')') {
        Err(err_here(ts, q, needed(seq![')'])))
    } else if !symbol_at(ts, q + 1, ';') {
        Err(err_here(ts, q + 1, "tuple struct の後に `;` が必要です"@))
    } else {
        Ok((acc, q + 2))
    }
}

/// The fields of a tuple struct from `q`, named from `field{index}` on.
pub open spec fn tuple_fields_from(ts: Seq<TokV>, q: int, acc: Seq<Seq<char>>, index: nat) -> Result<
    (Seq<Seq<char>>, int),
    Diag,
>
    decreases ts.len() - q,
{
    if symbol_at(ts, q, ')') {
        tuple_end(ts, q, acc)
    } else if q < 0 || q >= ts.len() {
        Err(err_end(ts, "tuple struct が閉じられていません"@))
    } else {
        match visibility_spec(ts, q) {
            Err(e) => Err(e),
            Ok((_vis, q1)) => {
                let acc2 = acc.push(tuple_field_name(index));
                match field_type_from(ts, q1, ')', zero_depth()) {
                    Err(e) => Err(e),
                    Ok(q2) => if symbol_at(ts, q2, ',') {
                        if forward(q, q2 + 1, ts.len() as int) {
                            tuple_fields_from(ts, q2 + 1, acc2, index + 1)
                        } else {
                            Err(stalled())
                        }
                    } else {
                        tuple_end(ts, q2, acc2)
                    },
                }
            },
        }
    }
}

/// `enum Name { Variant, ... }` after `enum`: one constant and one alias per variant.
pub open spec fn enum_spec(ts: Seq<TokV>, p: int, ns: Seq<Seq<char>>, acc: ItemsV) -> Result<(ItemsV, int), Diag> {
    match ident_text(ts, p) {
        None => Err(err_here(ts, p, "enum 名が必要です"@)),
        Some(en) => {
            let g = if operator_at(ts, p + 1, "<"@) {
                generics_spec(ts, p + 1)
            } else {
                Ok(p + 1)
            };
            match g {
                Err(e) => Err(e),
                Ok(q) => if !symbol_at(ts, q, '{') {
                    Err(err_here(ts, q, needed(seq!['{'])))
                } else {
                    variants_from(ts, q + 1, ns, en, acc)
                },
            }
        },
    }
}

/// The variants of enum `en` from `q`, up to and including the closing `}`.
pub open spec fn variants_from(ts: Seq<TokV>, q: int, ns: Seq<Seq<char>>, en: Seq<char>, acc: ItemsV) -> Result<
    (ItemsV, int),
    Diag,
>
    decreases ts.len() - q,
{
    if symbol_at(ts, q, '}') {
        Ok((acc, q + 1))
    } else if q < 0 || q >= ts.len() {
        Err(err_end(ts, "enum 本体が閉じられていません"@))
    } else {
        match ident_text(ts, q) {
            None => Err(err_here(ts, q, "variant 名が必要です"@)),
            Some(v) => {
                let path = ns.push(en).push(v);
                let out = join(path, "_"@);
                let acc2 = ItemsV {
                    constants: acc.constants.push((out, join(path, "."@))),
                    aliases: acc.aliases.push((path, out)),
                    ..acc
                };
                let b = if symbol_at(ts, q + 1, '(') {
                    balanced_spec(ts, q + 1, '(', ')')
                } else if symbol_at(ts, q + 1, '{') {
                    balanced_spec(ts, q + 1, '{', '}')
                } else {
                    Ok(q + 1)
                };
                match b {
                    Err(e) => Err(e),
                    Ok(q2) => {
                        let s = if operator_at(ts, q2, "="@) {
                            item_value_from(ts, q2 + 1, '}', zero_depth())
                        } else {
                            Ok(q2)
                        };
                        match s {
                            Err(e) => Err(e),
                            Ok(q3) => if symbol_at(ts, q3, ',') {
                                if forward(q, q3 + 1, ts.len() as int) {
                                    variants_from(ts, q3 + 1, ns, en, acc2)
                                } else {
                                    Err(stalled())
                                }
                            } else if symbol_at(ts, q3, '}') {
                                Ok((acc2, q3 + 1))
                            } else {
                                Err(err_here(ts, q3, needed(seq!['}'])))
                            },
                        }
                    },
                }
            },
        }
    }
}

/// `impl [Trait for] Type { fns }` after `impl`.
pub open spec fn impl_spec(ts: Seq<TokV>, p: int, ns: Seq<Seq<char>>, acc: ItemsV) -> Result<(ItemsV, int), Diag> {
    let g = if operator_at(ts, p, "<"@) {
        generics_spec(ts, p)
    } else {
        Ok(p)
    };
    match g {
        Err(e) => Err(e),
        Ok(q1) => match idents_from(ts, q1, "impl 本体の `{` が必要です"@, zero_depth(), Seq::empty()) {
            Err(e) => Err(e),
            Ok((ids, q2)) => match impl_target(ids) {
                None => Err(err_end(ts, "impl 対象の型名が必要です"@)),
                Some(t) => if !symbol_at(ts, q2, '{') {
                    Err(err_here(ts, q2, needed(seq!['{'])))
                } else {
                    impl_items_from(ts, q2 + 1, ns.push(t), acc)
                },
            },
        },
    }
}

/// The items of an `impl` block from `q`, up to and including the closing `}`.
pub open spec fn impl_items_from(ts: Seq<TokV>, q: int, ins: Seq<Seq<char>>, acc: ItemsV) -> Result<(ItemsV, int), Diag>
    decreases ts.len() - q,
{
    if symbol_at(ts, q, '}') {
        Ok((acc, q + 1))
    } else if q < 0 || q >= ts.len() {
        Err(err_end(ts, "impl 本体が閉じられていません"@))
    } else {
        match visibility_spec(ts, q) {
            Err(e) => Err(e),
            Ok((_vis, q1)) => if ident_at(ts, q1, "fn"@) {
                match ident_text(ts, q1 + 1) {
                    None => Err(err_here(ts, q1 + 1, msg_fn_name())),
                    Some(orig) => match prefixed_function_spec(ts, q1 + 1, ins) {
                        Err(e) => Err(e),
                        Ok((f, q2)) => if forward(q, q2, ts.len() as int) {
                            impl_items_from(
                                ts,
                                q2,
                                ins,
                                ItemsV {
                                    aliases: acc.aliases.push((ins.push(orig), f.name)),
                                    functions: acc.functions.push(f),
                                    ..acc
                                },
                            )
                        } else {
                            Err(stalled())
                        },
                    },
                }
            } else {
                match item_block_from(ts, q1, "impl 内項目の本体が必要です"@, zero_depth()) {
                    Err(e) => Err(e),
                    Ok(q2) => if forward(q, q2, ts.len() as int) {
                        impl_items_from(ts, q2, ins, acc)
                    } else {
                        Err(stalled())
                    },
                }
            },
        }
    }
}

/// A `(items, position)` result as one that says an item was there.
pub open spec fn found(r: Result<(ItemsV, int), Diag>) -> Result<(bool, ItemsV, int), Diag> {
    match r {
        Ok((acc, q)) => Ok((true, acc, q)),
        Err(e) => Err(e),
    }
}

/// Items that become constants, factories, aliases and functions, or are skipped:
/// whether one was there, the items after it, and the position after it.
pub open spec fn item_spec(ts: Seq<TokV>, p: int, ns: Seq<Seq<char>>, acc: ItemsV) -> Result<(bool, ItemsV, int), Diag>
    decreases ts.len() - p, 0nat,
{
    if ident_at(ts, p, "struct"@) {
        found(struct_spec(ts, p + 1, ns, acc))
    } else if ident_at(ts, p, "enum"@) {
        found(enum_spec(ts, p + 1, ns, acc))
    } else if ident_at(ts, p, "mod"@) {
        found(module_spec(ts, p + 1, ns, acc))
    } else if ident_at(ts, p, "impl"@) {
        found(impl_spec(ts, p + 1, ns, acc))
    } else if ident_at(ts, p, "trait"@) {
        match item_block_from(ts, p + 1, "trait 本体の `{` が必要です"@, zero_depth()) {
            Ok(q) => Ok((true, acc, q)),
            Err(e) => Err(e),
        }
    } else if ident_at(ts, p, "macro_rules"@) || ident_at(ts, p, "macro"@) {
        let q = if operator_at(ts, p + 1, "!"@) {
            p + 2
        } else {
            p + 1
        };
        match macro_from(ts, q) {
            Ok(r) => Ok((true, acc, r)),
            Err(e) => Err(e),
        }
    } else if ident_at(ts, p, "extern"@) {
        if ident_at(ts, p + 1, "crate"@) {
            match semicolon_from(ts, p + 2, "extern crate 文の後に `;` が必要です"@, zero_depth()) {
                Ok(q) => Ok((true, acc, q)),
                Err(e) => Err(e),
            }
        } else {
            Err(err_at(ts, p, "`crate` が必要です"@))
        }
    } else {
        Ok((false, acc, p))
    }
}

/// `mod name;` or `mod name { items }` after `mod`.
pub open spec fn module_spec(ts: Seq<TokV>, p: int, ns: Seq<Seq<char>>, acc: ItemsV) -> Result<(ItemsV, int), Diag>
    decreases ts.len() - p, 0nat,
{
    match ident_text(ts, p) {
        None => Err(err_here(ts, p, "module 名が必要です"@)),
        Some(m) => if symbol_at(ts, p + 1, ';') {
            Ok((acc, p + 2))
        } else if !symbol_at(ts, p + 1, '{') {
            Err(err_here(ts, p + 1, needed(seq!['{'])))
        } else {
            module_items_from(ts, p + 2, ns.push(m), acc)
        },
    }
}

/// The items of module `child` from `q`, up to and including the closing `}`.
pub open spec fn module_items_from(ts: Seq<TokV>, q: int, child: Seq<Seq<char>>, acc: ItemsV) -> Result<
    (ItemsV, int),
    Diag,
>
    decreases ts.len() - q, 1nat,
{
    if symbol_at(ts, q, '}') {
        Ok((acc, q + 1))
    } else if q < 0 || q >= ts.len() {
        Err(err_end(ts, "module 本体が閉じられていません"@))
    } else {
        match use_spec(ts, q) {
            Err(e) => Err(e),
            Ok((u, q1)) => if u {
                if forward(q, q1, ts.len() as int) {
                    module_items_from(ts, q1, child, acc)
                } else {
                    Err(stalled())
                }
            } else {
                match visibility_spec(ts, q1) {
                    Err(e) => Err(e),
                    Ok((_vis, q2)) => if !(q <= q2 <= ts.len()) {
                        Err(stalled())
                    } else {
                        match item_spec(ts, q2, child, acc) {
                            Err(e) => Err(e),
                            Ok((b, acc2, q3)) => if b {
                                if forward(q, q3, ts.len() as int) {
                                    module_items_from(ts, q3, child, acc2)
                                } else {
                                    Err(stalled())
                                }
                            } else if ident_at(ts, q3, "fn"@) {
                                match ident_text(ts, q3 + 1) {
                                    None => Err(err_here(ts, q3 + 1, msg_fn_name())),
                                    Some(orig) => match prefixed_function_spec(ts, q3 + 1, child) {
                                        Err(e) => Err(e),
                                        Ok((f, q4)) => if forward(q, q4, ts.len() as int) {
                                            module_items_from(
                                                ts,
                                                q4,
                                                child,
                                                ItemsV {
                                                    aliases: acc2.aliases.push((child.push(orig), f.name)),
                                                    functions: acc2.functions.push(f),
                                                    ..acc2
                                                },
                                            )
                                        } else {
                                            Err(stalled())
                                        },
                                    },
                                }
                            } else {
                                match item_block_from(ts, q3, "module 内項目の本体が必要です"@, zero_depth()) {
                                    Err(e) => Err(e),
                                    Ok(q4) => if forward(q, q4, ts.len() as int) {
                                        module_items_from(ts, q4, child, acc2)
                                    } else {
                                        Err(stalled())
                                    },
                                }
                            },
                        }
                    },
                }
            },
        }
    }
}

// ---------------------------------------------------------------------------------
// Programs

/// The program from `q` on, given the items and the `main` body found so far.
pub open spec fn program_from(ts: Seq<TokV>, q: int, acc: ItemsV, main: Option<Seq<StmtV>>) -> Result<ProgramV, Diag>
    decreases ts.len() - q,
{
    if q < 0 || q >= ts.len() {
        match main {
            Some(m) => Ok(ProgramV { items: acc, main: m }),
            None => Err(err_end(ts, "`fn main` がありません"@)),
        }
    } else {
        match use_spec(ts, q) {
            Err(e) => Err(e),
            Ok((u, q1)) => if u {
                if forward(q, q1, ts.len() as int) {
                    program_from(ts, q1, acc, main)
                } else {
                    Err(stalled())
                }
            } else {
                match visibility_spec(ts, q1) {
                    Err(e) => Err(e),
                    Ok((_vis, q2)) => match item_spec(ts, q2, Seq::empty(), acc) {
                        Err(e) => Err(e),
                        Ok((b, acc2, q3)) => if b {
                            if forward(q, q3, ts.len() as int) {
                                program_from(ts, q3, acc2, main)
                            } else {
                                Err(stalled())
                            }
                        } else if !ident_at(ts, q3, "fn"@) {
                            Err(err_here(ts, q3, needed("fn"@)))
                        } else {
                            match function_spec(ts, q3 + 1) {
                                Err(e) => Err(e),
                                Ok((f, q4)) => if !forward(q, q4, ts.len() as int) {
                                    Err(stalled())
                                } else if f.name == "main"@ {
                                    if f.params.len() > 0 {
                                        Err(err_at(ts, q4 - 1, "`fn main` に引数は指定できません"@))
                                    } else if main is Some {
                                        Err(err_at(ts, q4 - 1, "`fn main` が重複しています"@))
                                    } else {
                                        program_from(ts, q4, acc2, Some(f.body))
                                    }
                                } else {
                                    program_from(
                                        ts,
                                        q4,
                                        ItemsV { functions: acc2.functions.push(f), ..acc2 },
                                        main,
                                    )
                                },
                            }
                        },
                    },
                }
            },
        }
    }
}

/// The program the tokens make up.
pub open spec fn parse_spec(ts: Seq<TokV>) -> Result<ProgramV, Diag> {
    program_from(ts, 0, no_items(), None)
}

} // verus!
