//! Builds Lisp expressions from tokens.
use vstd::prelude::*;
use crate::text::{chars_of, is_digit, string_of, str_eq};
use super::error::{diag, Diag, LispToPythonError};
use super::ir::{expr_view, exprs_view, Expr, ExprKind, ExprKindV, ExprV};
use super::codegen::{expr_depth, max_depth};
use super::lexer::{tokens_view, Token, TokenKind, TokenKindV, TokenV};

verus! {

/// Whether `s[i..]` is the rest of a number, given whether a digit and a dot were seen.
pub open spec fn number_rest(s: Seq<char>, i: int, saw_digit: bool, saw_dot: bool) -> bool
    decreases s.len() - i,
{
    if i < 0 || i >= s.len() {
        saw_digit
    } else if is_digit(s[i]) {
        number_rest(s, i + 1, true, saw_dot)
    } else if s[i] == '.' && !saw_dot {
        number_rest(s, i + 1, saw_digit, true)
    } else {
        false
    }
}

/// A number literal: an optional sign, digits and at most one dot, with a digit somewhere.
pub open spec fn is_number(s: Seq<char>) -> bool {
    if s.len() == 0 || s == seq!['-'] || s == seq!['+'] {
        false
    } else if s[0] == '-' || s[0] == '+' {
        number_rest(s, 1, false, false)
    } else {
        number_rest(s, 0, false, false)
    }
}

/// The atom a symbol token stands for.
pub open spec fn atom_spec(v: Seq<char>) -> ExprKindV {
    if v == "#t"@ || v == "true"@ {
        ExprKindV::Bool(true)
    } else if v == "#f"@ || v == "false"@ {
        ExprKindV::Bool(false)
    } else if v.len() > 0 && v[0] == ':' {
        ExprKindV::Keyword(v.subrange(1, v.len() as int))
    } else if is_number(v) {
        ExprKindV::Number(v)
    } else {
        ExprKindV::Symbol(v)
    }
}

pub open spec fn msg_expected_expr() -> Seq<char> {
    "式が必要です"@
}

pub open spec fn msg_stray_close() -> Seq<char> {
    "対応する `(` がない `)` です"@
}

pub open spec fn msg_unclosed_list() -> Seq<char> {
    "リストを閉じる `)` が必要です"@
}

/// The expression starting at token `i`, and the index after it.
pub open spec fn parse_expr_spec(ts: Seq<TokenV>, i: int) -> Result<(ExprV, int), Diag>
    decreases ts.len() - i, 0nat,
{
    if i < 0 || i >= ts.len() {
        Err(diag(msg_expected_expr(), 1, 1))
    } else {
        let t = ts[i];
        match t.kind {
            TokenKindV::LParen => match parse_items_spec(ts, i + 1, t.line, t.column) {
                Ok((items, j)) => Ok(
                    (ExprV { kind: ExprKindV::List(items), line: t.line, column: t.column }, j),
                ),
                Err(e) => Err(e),
            },
            TokenKindV::RParen => Err(diag(msg_stray_close(), t.line, t.column)),
            TokenKindV::Str(v) => Ok(
                (ExprV { kind: ExprKindV::Str(v), line: t.line, column: t.column }, i + 1),
            ),
            TokenKindV::Symbol(v) => Ok(
                (ExprV { kind: atom_spec(v), line: t.line, column: t.column }, i + 1),
            ),
        }
    }
}

/// The items of the list whose `(` is at (`line`, `col`), from token `i`, and the
/// index after its `)`.
pub open spec fn parse_items_spec(ts: Seq<TokenV>, i: int, line: int, col: int) -> Result<
    (Seq<ExprV>, int),
    Diag,
>
    decreases ts.len() - i, 1nat,
{
    if i < 0 || i >= ts.len() {
        Err(diag(msg_unclosed_list(), line, col))
    } else if ts[i].kind is RParen {
        Ok((Seq::empty(), i + 1))
    } else {
        match parse_expr_spec(ts, i) {
            Ok((e, j)) => if j <= i || j > ts.len() {
                Err(diag(msg_unclosed_list(), line, col))
            } else {
                match parse_items_spec(ts, j, line, col) {
                    Ok((rest, k)) => Ok((seq![e] + rest, k)),
                    Err(err) => Err(err),
                }
            },
            Err(err) => Err(err),
        }
    }
}

/// The expressions from token `i` to the end.
pub open spec fn parse_all_spec(ts: Seq<TokenV>, i: int) -> Result<Seq<ExprV>, Diag>
    decreases ts.len() - i,
{
    if i < 0 || i >= ts.len() {
        Ok(Seq::empty())
    } else {
        match parse_expr_spec(ts, i) {
            Ok((e, j)) => if j <= i || j > ts.len() {
                Ok(Seq::empty())
            } else {
                match parse_all_spec(ts, j) {
                    Ok(rest) => Ok(seq![e] + rest),
                    Err(err) => Err(err),
                }
            },
            Err(err) => Err(err),
        }
    }
}

/// What the parser gives for `ts`.
pub open spec fn parse_spec(ts: Seq<TokenV>) -> Result<Seq<ExprV>, Diag> {
    parse_all_spec(ts, 0)
}

pub proof fn lemma_parse_advances(ts: Seq<TokenV>, i: int)
    ensures
        parse_expr_spec(ts, i) matches Ok((e, j)) ==> i < j <= ts.len(),
    decreases ts.len() - i, 0nat,
{
    if 0 <= i < ts.len() && ts[i].kind is LParen {
        lemma_items_advance(ts, i + 1, ts[i].line, ts[i].column);
    }
}

pub proof fn lemma_items_advance(ts: Seq<TokenV>, i: int, line: int, col: int)
    ensures
        parse_items_spec(ts, i, line, col) matches Ok((items, j)) ==> i < j <= ts.len(),
    decreases ts.len() - i, 1nat,
{
    if 0 <= i < ts.len() && !(ts[i].kind is RParen) {
        lemma_parse_advances(ts, i);
        if let Ok((e, j)) = parse_expr_spec(ts, i) {
            if i < j <= ts.len() {
                lemma_items_advance(ts, j, line, col);
            }
        }
    }
}

/// An expression read from tokens `i..j` nests at most `j - i` lists deep.
pub proof fn lemma_parse_depth(ts: Seq<TokenV>, i: int)
    ensures
        parse_expr_spec(ts, i) matches Ok((e, j)) ==> expr_depth(e) <= j - i,
    decreases ts.len() - i, 0nat,
{
    if 0 <= i < ts.len() && ts[i].kind is LParen {
        lemma_items_depth_bound(ts, i + 1, ts[i].line, ts[i].column);
    }
}

/// The items of a list read from tokens `i..j` nest at most `j - i - 1` lists deep.
pub proof fn lemma_items_depth_bound(ts: Seq<TokenV>, i: int, line: int, col: int)
    ensures
        parse_items_spec(ts, i, line, col) matches Ok((items, j)) ==> max_depth(items) + 1 <= j - i,
    decreases ts.len() - i, 1nat,
{
    if 0 <= i < ts.len() {
        if ts[i].kind is RParen {
            assert(max_depth(Seq::<ExprV>::empty()) == 0);
        } else {
            lemma_parse_advances(ts, i);
            lemma_parse_depth(ts, i);
            if let Ok((e, j1)) = parse_expr_spec(ts, i) {
                if i < j1 <= ts.len() {
                    lemma_items_depth_bound(ts, j1, line, col);
                    lemma_items_advance(ts, j1, line, col);
                    if let Ok((rest, j)) = parse_items_spec(ts, j1, line, col) {
                        let items = seq![e] + rest;
                        assert(items[0] == e);
                        assert(items.subrange(1, items.len() as int) =~= rest);
                    }
                }
            }
        }
    }
}

/// Every form read from tokens `i..` nests at most `ts.len() - i` lists deep.
pub proof fn lemma_forms_depth(ts: Seq<TokenV>, i: int, forms: Seq<ExprV>, k: int)
    requires
        0 <= i,
        parse_all_spec(ts, i) == Ok::<Seq<ExprV>, Diag>(forms),
        0 <= k < forms.len(),
    ensures
        expr_depth(forms[k]) <= ts.len() - i,
    decreases ts.len() - i,
{
    if i < ts.len() {
        lemma_parse_advances(ts, i);
        lemma_parse_depth(ts, i);
        if let Ok((e, j)) = parse_expr_spec(ts, i) {
            if i < j <= ts.len() {
                if let Ok(rest) = parse_all_spec(ts, j) {
                    assert(forms == seq![e] + rest);
                    if k > 0 {
                        assert(forms[k] == rest[k - 1]);
                        lemma_forms_depth(ts, j, rest, k - 1);
                    }
                }
            }
        }
    }
}

/// Whether `s` is a number literal.
fn is_number_literal(s: &Vec<char>) -> (r: bool)
    ensures
        r == is_number(s@),
{
    if s.len() == 0 || (s.len() == 1 && (s[0] == '-' || s[0] == '+')) {
        proof {
            if s.len() == 1 {
                if s[0] == '-' { assert(s@ =~= seq!['-']); } else { assert(s@ =~= seq!['+']); }
            }
        }
        return false;
    }
    proof {
        if s.len() == 1 {
            assert(s@ != seq!['-']) by { if s@ == seq!['-'] { assert(s@[0] == '-'); } }
            assert(s@ != seq!['+']) by { if s@ == seq!['+'] { assert(s@[0] == '+'); } }
        }
        if s.len() > 1 {
            assert(s@.len() != seq!['-'].len());
            assert(s@.len() != seq!['+'].len());
        }
    }
    let mut i: usize = if s[0] == '-' || s[0] == '+' { 1 } else { 0 };
    let mut saw_digit = false;
    let mut saw_dot = false;
    while i < s.len()
        invariant
            i <= s.len(),
            is_number(s@) == number_rest(s@, i as int, saw_digit, saw_dot),
        decreases s.len() - i,
    {
        let c = s[i];
        if '0' <= c && c <= '9' {
            saw_digit = true;
        } else if c == '.' && !saw_dot {
            saw_dot = true;
        } else {
            return false;
        }
        i = i + 1;
    }
    saw_digit
}

/// The atom a symbol token stands for.
fn atom_kind(value: &String) -> (k: ExprKind)
    ensures
        expr_view(Expr { kind: k, line: 0, column: 0 }).kind == atom_spec(value@),
{
    let s = value.as_str();
    if str_eq(s, "#t") || str_eq(s, "true") {
        return ExprKind::Bool(true);
    }
    if str_eq(s, "#f") || str_eq(s, "false") {
        return ExprKind::Bool(false);
    }
    let cs = chars_of(s);
    if cs.len() > 0 && cs[0] == ':' {
        let mut rest: Vec<char> = Vec::new();
        let mut i: usize = 1;
        while i < cs.len()
            invariant
                1 <= i <= cs.len(),
                rest@ == cs@.subrange(1, i as int),
            decreases cs.len() - i,
        {
            rest.push(cs[i]);
            i = i + 1;
            proof {
                assert(rest@ =~= cs@.subrange(1, i as int));
            }
        }
        return ExprKind::Keyword(string_of(rest.as_slice()));
    }
    if is_number_literal(&cs) {
        return ExprKind::Number(value.clone());
    }
    ExprKind::Symbol(value.clone())
}

/// The view of a parse result for one expression.
pub open spec fn expr_result_view(r: Result<(Expr, usize), LispToPythonError>) -> Result<
    (ExprV, int),
    Diag,
> {
    match r {
        Ok((e, j)) => Ok((expr_view(e), j as int)),
        Err(err) => Err(err.view_diag()),
    }
}

pub proof fn lemma_exprs_view_push(s: Seq<Expr>, e: Expr)
    ensures
        exprs_view(s.push(e)) == exprs_view(s).push(expr_view(e)),
    decreases s.len(),
{
    if s.len() == 0 {
        assert(s.push(e).subrange(1, 1) =~= Seq::<Expr>::empty());
        assert(exprs_view(Seq::<Expr>::empty()) == Seq::<ExprV>::empty());
        assert(exprs_view(s.push(e)) =~= exprs_view(s).push(expr_view(e)));
    } else {
        let t = s.subrange(1, s.len() as int);
        lemma_exprs_view_push(t, e);
        assert(s.push(e).subrange(1, s.push(e).len() as int) =~= t.push(e));
        assert(exprs_view(s.push(e)) =~= exprs_view(s).push(expr_view(e)));
    }
}

pub proof fn lemma_exprs_view_len(s: Seq<Expr>)
    ensures
        exprs_view(s).len() == s.len(),
        forall|k: int| 0 <= k < s.len() ==> #[trigger] exprs_view(s)[k] == expr_view(s[k]),
    decreases s.len(),
{
    if s.len() > 0 {
        let t = s.subrange(1, s.len() as int);
        lemma_exprs_view_len(t);
        assert forall|k: int| 0 <= k < s.len() implies #[trigger] exprs_view(s)[k] == expr_view(s[k]) by {
            if k > 0 {
                assert(t[k - 1] == s[k]);
            }
        }
    }
}

fn parse_expr(ts: &[Token], i: usize) -> (r: Result<(Expr, usize), LispToPythonError>)
    requires
        i <= ts.len(),
    ensures
        expr_result_view(r) == parse_expr_spec(tokens_view(ts@), i as int),
    decreases ts.len() - i, 0nat,
{
    let ghost tv = tokens_view(ts@);
    if i >= ts.len() {
        return Err(LispToPythonError::new("式が必要です", 1, 1));
    }
    let t = &ts[i];
    assert(tv[i as int] == t.view_token());
    match &t.kind {
        TokenKind::LParen => {
            match parse_list(ts, i + 1, t.line, t.column) {
                Ok((items, j)) => {
                    let e = Expr::new(ExprKind::List(items), t.line, t.column);
                    Ok((e, j))
                },
                Err(err) => Err(err),
            }
        },
        TokenKind::RParen => Err(LispToPythonError::new("対応する `(` がない `)` です", t.line, t.column)),
        TokenKind::String(v) => Ok((Expr::new(ExprKind::String(v.clone()), t.line, t.column), i + 1)),
        TokenKind::Symbol(v) => {
            let k = atom_kind(v);
            Ok((Expr::new(k, t.line, t.column), i + 1))
        },
    }
}

fn parse_list(ts: &[Token], i: usize, line: usize, column: usize) -> (r: Result<
    (Vec<Expr>, usize),
    LispToPythonError,
>)
    requires
        i <= ts.len(),
    ensures
        match r {
            Ok((items, j)) => parse_items_spec(tokens_view(ts@), i as int, line as int, column as int)
                == Ok::<(Seq<ExprV>, int), Diag>((exprs_view(items@), j as int)),
            Err(err) => parse_items_spec(tokens_view(ts@), i as int, line as int, column as int)
                == Err::<(Seq<ExprV>, int), Diag>(err.view_diag()),
        },
    decreases ts.len() - i, 1nat,
{
    let ghost tv = tokens_view(ts@);
    let ghost whole = parse_items_spec(tv, i as int, line as int, column as int);
    let mut items: Vec<Expr> = Vec::new();
    let mut j = i;
    proof {
        if let Ok((rest, k)) = whole {
            assert(exprs_view(items@) + rest =~= rest);
        }
    }
    while j < ts.len()
        invariant
            i <= j <= ts.len(),
            tv == tokens_view(ts@),
            whole == parse_items_spec(tv, i as int, line as int, column as int),
            match parse_items_spec(tv, j as int, line as int, column as int) {
                Ok((rest, k)) => whole == Ok::<(Seq<ExprV>, int), Diag>((exprs_view(items@) + rest, k)),
                Err(err) => whole == Err::<(Seq<ExprV>, int), Diag>(err),
            },
        decreases ts.len() - j,
    {
        assert(tv[j as int] == ts@[j as int].view_token());
        if let TokenKind::RParen = ts[j].kind {
            proof {
                assert(exprs_view(items@) + Seq::<ExprV>::empty() =~= exprs_view(items@));
            }
            return Ok((items, j + 1));
        }
        proof {
            lemma_parse_advances(tv, j as int);
        }
        match parse_expr(ts, j) {
            Ok((e, k)) => {
                proof {
                    lemma_exprs_view_push(items@, e);
                    if let Ok((rest, m)) = parse_items_spec(tv, k as int, line as int, column as int) {
                        assert(exprs_view(items@).push(expr_view(e)) + rest =~= exprs_view(items@) + (seq![expr_view(e)] + rest));
                    }
                }
                items.push(e);
                j = k;
            },
            Err(err) => {
                return Err(err);
            },
        }
    }
    Err(LispToPythonError::new("リストを閉じる `)` が必要です", line, column))
}

/// Reads every expression in `tokens`.
pub fn parse(tokens: &[Token]) -> (r: Result<Vec<Expr>, LispToPythonError>)
    ensures
        match r {
            Ok(forms) => parse_spec(tokens_view(tokens@)) == Ok::<Seq<ExprV>, Diag>(exprs_view(forms@)),
            Err(err) => parse_spec(tokens_view(tokens@)) == Err::<Seq<ExprV>, Diag>(err.view_diag()),
        },
{
    let ghost tv = tokens_view(tokens@);
    let mut forms: Vec<Expr> = Vec::new();
    let mut i: usize = 0;
    proof {
        if let Ok(rest) = parse_all_spec(tv, 0) {
            assert(exprs_view(forms@) + rest =~= rest);
        }
    }
    while i < tokens.len()
        invariant
            i <= tokens.len(),
            tv == tokens_view(tokens@),
            match parse_all_spec(tv, i as int) {
                Ok(rest) => parse_all_spec(tv, 0) == Ok::<Seq<ExprV>, Diag>(exprs_view(forms@) + rest),
                Err(err) => parse_all_spec(tv, 0) == Err::<Seq<ExprV>, Diag>(err),
            },
        decreases tokens.len() - i,
    {
        proof {
            lemma_parse_advances(tv, i as int);
        }
        match parse_expr(tokens, i) {
            Ok((e, k)) => {
                proof {
                    lemma_exprs_view_push(forms@, e);
                    if let Ok(rest) = parse_all_spec(tv, k as int) {
                        assert(exprs_view(forms@).push(expr_view(e)) + rest =~= exprs_view(forms@) + (seq![expr_view(e)] + rest));
                    }
                }
                forms.push(e);
                i = k;
            },
            Err(err) => {
                assert(parse_all_spec(tv, i as int) == Err::<Seq<ExprV>, Diag>(err.view_diag()));
                assert(parse_all_spec(tv, 0) == Err::<Seq<ExprV>, Diag>(err.view_diag()));
                assert(tv == tokens_view(tokens@));
                return Err(err);
            },
        }
    }
    proof {
        assert(exprs_view(forms@) + Seq::<ExprV>::empty() =~= exprs_view(forms@));
    }
    Ok(forms)
}

} // verus!
