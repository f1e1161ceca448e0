//! The strict check of an expression's tokens: it refuses the Python spellings that a
//! learner might carry over into Rust source.
use vstd::prelude::*;
use crate::text::{push_str, str_eq, string_of};
use super::error::{diag, Diag, RustToPythonError};
use super::lexer::{tokens_view, TokKindV, TokV, Token, TokenKind};

verus! {

/// Whether token `i + 1` is inside `..hi` and is the symbol `c`.
pub open spec fn next_symbol(ts: Seq<TokV>, hi: int, i: int, c: char) -> bool {
    i + 1 < hi && ts[i + 1].kind == TokKindV::Symbol(c)
}

/// Whether token `i + 1` is inside `..hi` and is the operator `op`.
pub open spec fn next_operator(ts: Seq<TokV>, hi: int, i: int, op: Seq<char>) -> bool {
    i + 1 < hi && ts[i + 1].kind == TokKindV::Operator(op)
}

/// Whether token `i` is written as `Direction::<it>`, within `lo..`.
pub open spec fn direction_member(ts: Seq<TokV>, lo: int, i: int) -> bool {
    lo + 2 <= i && ts[i - 2].kind == TokKindV::Ident("Direction"@) && ts[i - 1].kind == TokKindV::Operator("::"@)
}

pub open spec fn direction_ident(v: Seq<char>) -> bool {
    v == "North"@ || v == "East"@ || v == "South"@ || v == "West"@
}

/// The game's Rust enums.
pub open spec fn game_namespace(v: Seq<char>) -> bool {
    v == "Entity"@ || v == "Ground"@ || v == "Item"@ || v == "Unlock"@ || v == "Leaderboard"@
}

/// The game's Python namespaces.
pub open spec fn output_namespace(v: Seq<char>) -> bool {
    v == "Entities"@ || v == "Grounds"@ || v == "Items"@ || v == "Unlocks"@ || v == "Leaderboards"@
}

/// The Rust enum a Python namespace stands for.
pub open spec fn singular_spec(v: Seq<char>) -> Seq<char> {
    if v == "Entities"@ {
        "Entity"@
    } else if v == "Grounds"@ {
        "Ground"@
    } else if v == "Items"@ {
        "Item"@
    } else if v == "Unlocks"@ {
        "Unlock"@
    } else if v == "Leaderboards"@ {
        "Leaderboard"@
    } else {
        v
    }
}

/// What is wrong with identifier `v` at index `i` of the tokens `lo..hi`, if anything.
/// A Python namespace followed by `::` is refused only when `full`.
pub open spec fn ident_issue(ts: Seq<TokV>, lo: int, hi: int, i: int, v: Seq<char>, full: bool) -> Option<Seq<char>> {
    if v == "True"@ {
        Some("Python風の `True` は使えません。Rustの `true` を使ってください。常に繰り返す場合は `loop { ... }` も使えます"@)
    } else if v == "False"@ {
        Some("Python風の `False` は使えません。Rustの `false` を使ってください"@)
    } else if v == "and"@ {
        Some("Python風の `and` は使えません。Rustの `&&` を使ってください"@)
    } else if v == "or"@ {
        Some("Python風の `or` は使えません。Rustの `||` を使ってください"@)
    } else if v == "not"@ {
        Some("Python風の `not` は使えません。Rustの `!` を使ってください"@)
    } else if v == "range"@ && next_symbol(ts, hi, i, '(') {
        Some("`range(...)` は入力では使えません。`for i in 0..n { ... }` のようにRustの範囲構文を使ってください"@)
    } else if v == "move"@ && next_symbol(ts, hi, i, '(') {
        Some("`move(...)` は出力側の書き方です。入力では `move_dir(Direction::North)` を使ってください"@)
    } else if direction_ident(v) && !direction_member(ts, lo, i) {
        Some("`"@ + v + "` は出力側の書き方です。入力では `Direction::"@ + v + "` を使ってください"@)
    } else if output_namespace(v) && (next_operator(ts, hi, i, "."@) || (full && next_operator(ts, hi, i, "::"@))) {
        Some("`"@ + v + "` は出力側の名前空間です。入力では `"@ + singular_spec(v) + "` を使ってください"@)
    } else if game_namespace(v) && next_operator(ts, hi, i, "."@) {
        Some("`"@ + v + ".X` はRustの名前空間構文ではありません。`"@ + v + "::X` を使ってください"@)
    } else {
        None
    }
}

/// What is wrong with token `i` of the tokens `lo..hi`, if anything. When `full`, the
/// Python operators `//` and `**` and a `{` that does not follow an identifier are
/// refused too.
pub open spec fn token_issue(ts: Seq<TokV>, lo: int, hi: int, i: int, full: bool) -> Option<Seq<char>> {
    match ts[i].kind {
        TokKindV::Ident(v) => ident_issue(ts, lo, hi, i, v, full),
        TokKindV::Operator(v) => if full && v == "//"@ {
            Some("Python風の `//` 除算は入力では使えません。Rustとして成立する式にしてください"@)
        } else if full && v == "**"@ {
            Some("`**` はRustの演算子ではありません"@)
        } else {
            None
        },
        TokKindV::Symbol(c) => if full && c == '{' && !(i > lo && ts[i - 1].kind is Ident) {
            Some("Python風の dict/set リテラルは入力では使えません。`dict()` と添字代入を使ってください"@)
        } else {
            None
        },
        _ => None,
    }
}

/// The first problem among the tokens `i..hi` of `lo..hi`, reported at its token.
pub open spec fn check_from(ts: Seq<TokV>, lo: int, hi: int, i: int, full: bool) -> Result<(), Diag>
    decreases hi - i,
{
    if i < 0 || i >= hi || i >= ts.len() {
        Ok(())
    } else {
        match token_issue(ts, lo, hi, i, full) {
            Some(m) => Err(diag(m, ts[i].line, ts[i].column)),
            None => check_from(ts, lo, hi, i + 1, full),
        }
    }
}

/// The check of a whole expression: the first problem among `ts`.
pub open spec fn validate_spec(ts: Seq<TokV>) -> Result<(), Diag> {
    check_from(ts, 0, ts.len() as int, 0, true)
}

/// The check the parser makes of the expression in tokens `lo..hi`: the Python
/// spellings of names and keywords are refused, while `//`, `**`, `{...}` literals and
/// the Python namespaces written with `::` are passed on to the output.
pub open spec fn input_check(ts: Seq<TokV>, lo: int, hi: int) -> Result<(), Diag> {
    check_from(ts, lo, hi, lo, false)
}

fn next_is_symbol(tokens: &[Token], hi: usize, index: usize, expected: char) -> (r: bool)
    requires
        index < hi <= tokens@.len(),
    ensures
        r == next_symbol(tokens_view(tokens@), hi as int, index as int, expected),
{
    if hi - index > 1 {
        match &tokens[index + 1].kind {
            TokenKind::Symbol(c) => *c == expected,
            _ => false,
        }
    } else {
        false
    }
}

fn next_is_operator(tokens: &[Token], hi: usize, index: usize, expected: &str) -> (r: bool)
    requires
        index < hi <= tokens@.len(),
    ensures
        r == next_operator(tokens_view(tokens@), hi as int, index as int, expected@),
{
    if hi - index > 1 {
        match &tokens[index + 1].kind {
            TokenKind::Operator(v) => str_eq(v.as_str(), expected),
            _ => false,
        }
    } else {
        false
    }
}

fn is_direction_namespace_member(tokens: &[Token], lo: usize, index: usize) -> (r: bool)
    requires
        lo <= index < tokens@.len(),
    ensures
        r == direction_member(tokens_view(tokens@), lo as int, index as int),
{
    if index - lo < 2 {
        return false;
    }
    let a = match &tokens[index - 2].kind {
        TokenKind::Ident(v) => str_eq(v.as_str(), "Direction"),
        _ => false,
    };
    let b = match &tokens[index - 1].kind {
        TokenKind::Operator(v) => str_eq(v.as_str(), "::"),
        _ => false,
    };
    a && b
}

fn is_direction_ident(value: &str) -> (r: bool)
    ensures
        r == direction_ident(value@),
{
    str_eq(value, "North") || str_eq(value, "East") || str_eq(value, "South") || str_eq(value, "West")
}

fn is_game_namespace(value: &str) -> (r: bool)
    ensures
        r == game_namespace(value@),
{
    str_eq(value, "Entity") || str_eq(value, "Ground") || str_eq(value, "Item") || str_eq(value, "Unlock")
        || str_eq(value, "Leaderboard")
}

fn is_python_output_namespace(value: &str) -> (r: bool)
    ensures
        r == output_namespace(value@),
{
    str_eq(value, "Entities") || str_eq(value, "Grounds") || str_eq(value, "Items") || str_eq(value, "Unlocks")
        || str_eq(value, "Leaderboards")
}

fn singular_namespace(value: &str) -> (r: &str)
    ensures
        r@ == singular_spec(value@),
{
    if str_eq(value, "Entities") {
        "Entity"
    } else if str_eq(value, "Grounds") {
        "Ground"
    } else if str_eq(value, "Items") {
        "Item"
    } else if str_eq(value, "Unlocks") {
        "Unlock"
    } else if str_eq(value, "Leaderboards") {
        "Leaderboard"
    } else {
        value
    }
}

/// The message `a` + `v` + `b` + `w` + `c`.
fn message5(a: &str, v: &str, b: &str, w: &str, c: &str) -> (r: String)
    ensures
        r@ == a@ + v@ + b@ + w@ + c@,
{
    let mut m: Vec<char> = Vec::new();
    push_str(&mut m, a);
    push_str(&mut m, v);
    push_str(&mut m, b);
    push_str(&mut m, w);
    push_str(&mut m, c);
    string_of(m.as_slice())
}

/// Checks identifier `value` at `index` of the tokens `lo..hi`.
fn validate_ident(tokens: &[Token], lo: usize, hi: usize, index: usize, token: &Token, value: &str, full: bool) -> (r: Result<(), RustToPythonError>)
    requires
        lo <= index < hi <= tokens@.len(),
    ensures
        match ident_issue(tokens_view(tokens@), lo as int, hi as int, index as int, value@, full) {
            Some(m) => r matches Err(e) && e.view_diag() == diag(m, token.line as int, token.column as int),
            None => r is Ok,
        },
{
    let (line, column) = (token.line, token.column);
    if str_eq(value, "True") {
        return Err(RustToPythonError::new("Python風の `True` は使えません。Rustの `true` を使ってください。常に繰り返す場合は `loop { ... }` も使えます", line, column));
    }
    if str_eq(value, "False") {
        return Err(RustToPythonError::new("Python風の `False` は使えません。Rustの `false` を使ってください", line, column));
    }
    if str_eq(value, "and") {
        return Err(RustToPythonError::new("Python風の `and` は使えません。Rustの `&&` を使ってください", line, column));
    }
    if str_eq(value, "or") {
        return Err(RustToPythonError::new("Python風の `or` は使えません。Rustの `||` を使ってください", line, column));
    }
    if str_eq(value, "not") {
        return Err(RustToPythonError::new("Python風の `not` は使えません。Rustの `!` を使ってください", line, column));
    }
    if str_eq(value, "range") && next_is_symbol(tokens, hi, index, '(') {
        return Err(RustToPythonError::new("`range(...)` は入力では使えません。`for i in 0..n { ... }` のようにRustの範囲構文を使ってください", line, column));
    }
    if str_eq(value, "move") && next_is_symbol(tokens, hi, index, '(') {
        return Err(RustToPythonError::new("`move(...)` は出力側の書き方です。入力では `move_dir(Direction::North)` を使ってください", line, column));
    }
    if is_direction_ident(value) && !is_direction_namespace_member(tokens, lo, index) {
        let m = message5("`", value, "` は出力側の書き方です。入力では `Direction::", value, "` を使ってください");
        return Err(RustToPythonError::from_message(m, line, column));
    }
    if is_python_output_namespace(value) && (next_is_operator(tokens, hi, index, ".") || (full && next_is_operator(tokens, hi, index, "::"))) {
        let m = message5("`", value, "` は出力側の名前空間です。入力では `", singular_namespace(value), "` を使ってください");
        return Err(RustToPythonError::from_message(m, line, column));
    }
    if is_game_namespace(value) && next_is_operator(tokens, hi, index, ".") {
        let m = message5("`", value, ".X` はRustの名前空間構文ではありません。`", value, "::X` を使ってください");
        return Err(RustToPythonError::from_message(m, line, column));
    }
    Ok(())
}

/// Checks the tokens `lo..hi`; the first offending token is reported.
pub fn check_tokens(tokens: &[Token], lo: usize, hi: usize, full: bool) -> (r: Result<(), RustToPythonError>)
    requires
        lo <= hi <= tokens@.len(),
    ensures
        match check_from(tokens_view(tokens@), lo as int, hi as int, lo as int, full) {
            Ok(()) => r is Ok,
            Err(d) => r matches Err(e) && e.view_diag() == d,
        },
{
    let ghost ts = tokens_view(tokens@);
    let mut index: usize = lo;
    while index < hi
        invariant
            lo <= index <= hi <= tokens@.len(),
            ts == tokens_view(tokens@),
            check_from(ts, lo as int, hi as int, lo as int, full) == check_from(ts, lo as int, hi as int, index as int, full),
        decreases hi - index,
    {
        let token = &tokens[index];
        match &token.kind {
            TokenKind::Ident(value) => {
                validate_ident(tokens, lo, hi, index, token, value.as_str(), full)?;
            },
            TokenKind::Operator(value) => {
                if full && str_eq(value.as_str(), "//") {
                    return Err(RustToPythonError::new("Python風の `//` 除算は入力では使えません。Rustとして成立する式にしてください", token.line, token.column));
                }
                if full && str_eq(value.as_str(), "**") {
                    return Err(RustToPythonError::new("`**` はRustの演算子ではありません", token.line, token.column));
                }
            },
            TokenKind::Symbol(c) => {
                if full && *c == '{' && !is_rust_struct_literal_start(tokens, lo, index) {
                    return Err(RustToPythonError::new("Python風の dict/set リテラルは入力では使えません。`dict()` と添字代入を使ってください", token.line, token.column));
                }
            },
            _ => {},
        }
        index = index + 1;
    }
    Ok(())
}

/// Whether the `{` at `index` opens a struct literal (an identifier comes before it).
fn is_rust_struct_literal_start(tokens: &[Token], lo: usize, index: usize) -> (r: bool)
    requires
        lo <= index < tokens@.len(),
    ensures
        r == (index > lo && tokens_view(tokens@)[index - 1].kind is Ident),
{
    index > lo && match &tokens[index - 1].kind {
        TokenKind::Ident(_) => true,
        _ => false,
    }
}

/// Checks an expression's tokens for Python spellings that Rust does not have; the
/// first offending token is reported.
pub fn validate_expr(tokens: &[Token]) -> (r: Result<(), RustToPythonError>)
    ensures
        match validate_spec(tokens_view(tokens@)) {
            Ok(()) => r is Ok,
            Err(d) => r matches Err(e) && e.view_diag() == d,
        },
{
    check_tokens(tokens, 0, tokens.len(), true)
}

} // verus!
