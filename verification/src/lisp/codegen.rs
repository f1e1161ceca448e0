//! Writes game Python for Lisp expressions and forms.
use vstd::prelude::*;
use crate::text::{
    chars_of, debug_quote, join, push_chars, push_debug_quoted, push_join, push_repeat, push_str,
    repeat, str_eq, string_of, vecs_view,
};
use super::parser::lemma_exprs_view_len;
use super::error::{diag, Diag, LispToPythonError};
use super::ir::{expr_view, exprs_view, Expr, ExprKind, ExprKindV, ExprV};

verus! {

/// A Lisp name as a Python identifier: every `-` becomes `_`.
pub open spec fn py_ident_spec(v: Seq<char>) -> Seq<char> {
    v.map_values(|c: char| if c == '-' { '_' } else { c })
}

/// ASCII upper case of `c`.
pub open spec fn upper(c: char) -> char {
    if 'a' <= c && c <= 'z' {
        ((c as u32) - 32) as char
    } else {
        c
    }
}

/// The game-constant spelling of `v[i..]`: the parts between `-` and `_`, each with
/// its first letter in upper case, joined by `_`. `start` says whether a part starts
/// here, `any` whether a part was already written.
pub open spec fn const_from(v: Seq<char>, i: int, start: bool, any: bool) -> Seq<char>
    decreases v.len() - i,
{
    if i < 0 || i >= v.len() {
        Seq::empty()
    } else if v[i] == '-' || v[i] == '_' {
        const_from(v, i + 1, true, any)
    } else if start {
        (if any { seq!['_'] } else { Seq::empty() }) + seq![upper(v[i])] + const_from(v, i + 1, false, true)
    } else {
        seq![v[i]] + const_from(v, i + 1, false, any)
    }
}

/// The game-constant spelling of a Lisp name, such as `carrot-seed` to `Carrot_Seed`.
pub open spec fn const_variant(v: Seq<char>) -> Seq<char> {
    const_from(v, 0, true, false)
}

/// Appends the Python identifier for `v` to `out`.
fn push_py_ident(out: &mut Vec<char>, v: &String)
    ensures
        final(out)@ == old(out)@ + py_ident_spec(v@),
{
    let cs = chars_of(v.as_str());
    let ghost start = out@;
    let mut i: usize = 0;
    while i < cs.len()
        invariant
            i <= cs.len(),
            out@ == start + py_ident_spec(cs@.subrange(0, i as int)),
        decreases cs.len() - i,
    {
        let c = if cs[i] == '-' { '_' } else { cs[i] };
        out.push(c);
        i = i + 1;
        proof {
            assert(out@ =~= start + py_ident_spec(cs@.subrange(0, i as int)));
        }
    }
    proof {
        assert(cs@.subrange(0, cs.len() as int) =~= cs@);
    }
}

/// The Python identifier for `v`.
fn py_identifier(v: &String) -> (r: Vec<char>)
    ensures
        r@ == py_ident_spec(v@),
{
    let mut out: Vec<char> = Vec::new();
    push_py_ident(&mut out, v);
    proof {
        assert(out@ =~= py_ident_spec(v@));
    }
    out
}

/// The game-constant spelling of `v`.
fn to_const_variant(v: &String) -> (r: Vec<char>)
    ensures
        r@ == const_variant(v@),
{
    let cs = chars_of(v.as_str());
    let mut out: Vec<char> = Vec::new();
    let mut i: usize = 0;
    let mut start = true;
    let mut any = false;
    while i < cs.len()
        invariant
            i <= cs.len(),
            out@ + const_from(cs@, i as int, start, any) == const_variant(cs@),
        decreases cs.len() - i,
    {
        let c = cs[i];
        if c == '-' || c == '_' {
            start = true;
        } else if start {
            let ghost before = out@;
            if any {
                out.push('_');
            }
            let u = if 'a' <= c && c <= 'z' { ((c as u8) - 32) as char } else { c };
            assert(u == upper(c)) by {
                if 'a' <= c && c <= 'z' {
                    assert((c as u8) as u32 == c as u32);
                }
            }
            out.push(u);
            proof {
                assert(out@ =~= before + ((if any { seq!['_'] } else { Seq::empty() }) + seq![upper(c)]));
            }
            start = false;
            any = true;
        } else {
            out.push(c);
        }
        i = i + 1;
    }
    proof {
        assert(out@ + Seq::<char>::empty() == out@);
    }
    out
}

/// The symbol an expression is, if it is one.
pub open spec fn symbol_of(e: ExprV) -> Option<Seq<char>> {
    match e.kind {
        ExprKindV::Symbol(v) => Some(v),
        _ => None,
    }
}

/// The Python function a Lisp call names.
pub open spec fn call_name(v: Seq<char>) -> Seq<char> {
    if v == "move-dir"@ {
        "move"@
    } else if v == "quick-print"@ {
        "quick_print"@
    } else if v == "use-item"@ {
        "use_item"@
    } else {
        py_ident_spec(v)
    }
}

/// A game constant written as a symbol or keyword.
pub open spec fn const_name_spec(x: ExprV) -> Result<Seq<char>, Diag> {
    match x.kind {
        ExprKindV::Keyword(v) => Ok(const_variant(v)),
        ExprKindV::Symbol(v) => Ok(const_variant(v)),
        _ => Err(diag("定数名は symbol または keyword で書いてください"@, x.line, x.column)),
    }
}

/// The Python for each of `s`, or the first error among them.
pub open spec fn args_py(s: Seq<ExprV>) -> Result<Seq<Seq<char>>, Diag>
    decreases s,
{
    if s.len() == 0 {
        Ok(Seq::empty())
    } else {
        match expr_py(s[0]) {
            Ok(p) => match args_py(s.subrange(1, s.len() as int)) {
                Ok(rest) => Ok(seq![p] + rest),
                Err(d) => Err(d),
            },
            Err(d) => Err(d),
        }
    }
}

/// The Python for a Lisp expression used as a value.
pub open spec fn expr_py(e: ExprV) -> Result<Seq<char>, Diag>
    decreases e,
{
    match e.kind {
        ExprKindV::Bool(b) => Ok(if b { "True"@ } else { "False"@ }),
        ExprKindV::Keyword(v) => Ok(const_variant(v)),
        ExprKindV::Number(v) => Ok(v),
        ExprKindV::Str(v) => Ok(debug_quote(v)),
        ExprKindV::Symbol(v) => Ok(py_ident_spec(v)),
        ExprKindV::List(items) => if items.len() == 0 {
            Err(diag("空のリストは式として使えません"@, e.line, e.column))
        } else {
            match items[0].kind {
                ExprKindV::Symbol(head) => {
                    let args = items.subrange(1, items.len() as int);
                    if head == "+"@ || head == "*"@ || head == "/"@ || head == "<"@ || head == "<="@
                        || head == ">"@ || head == ">="@ || head == "!="@ || head == "and"@ || head
                        == "or"@ {
                        if args.len() < 2 {
                            Err(diag("`"@ + head + "` は2個以上の引数が必要です"@, e.line, e.column))
                        } else {
                            match args_py(args) {
                                Ok(ps) => Ok("("@ + join(ps, " "@ + head + " "@) + ")"@),
                                Err(d) => Err(d),
                            }
                        }
                    } else if head == "="@ {
                        if args.len() < 2 {
                            Err(diag("`==` は2個以上の引数が必要です"@, e.line, e.column))
                        } else {
                            match args_py(args) {
                                Ok(ps) => Ok("("@ + join(ps, " == "@) + ")"@),
                                Err(d) => Err(d),
                            }
                        }
                    } else if head == "-"@ {
                        if args.len() == 0 {
                            Err(diag("`-` は1個以上の引数が必要です"@, e.line, e.column))
                        } else if args.len() == 1 {
                            match expr_py(args[0]) {
                                Ok(v) => Ok("(-"@ + v + ")"@),
                                Err(d) => Err(d),
                            }
                        } else {
                            match args_py(args) {
                                Ok(ps) => Ok("("@ + join(ps, " - "@) + ")"@),
                                Err(d) => Err(d),
                            }
                        }
                    } else if head == "direction"@ {
                        if args.len() != 1 {
                            Err(diag("`direction` は `(direction north)` の形で書いてください"@, e.line, e.column))
                        } else {
                            const_name_spec(args[0])
                        }
                    } else if head == "entity"@ || head == "ground"@ || head == "item"@ || head
                        == "leaderboard"@ || head == "unlock"@ {
                        let ns = if head == "entity"@ {
                            "Entities"@
                        } else if head == "ground"@ {
                            "Grounds"@
                        } else if head == "item"@ {
                            "Items"@
                        } else if head == "leaderboard"@ {
                            "Leaderboards"@
                        } else {
                            "Unlocks"@
                        };
                        if args.len() != 1 {
                            Err(diag("ゲーム定数は引数を1個だけ取ります"@, e.line, e.column))
                        } else {
                            match const_name_spec(args[0]) {
                                Ok(c) => Ok(ns + "."@ + c),
                                Err(d) => Err(d),
                            }
                        }
                    } else if head == "index"@ {
                        if args.len() != 2 {
                            Err(diag("`index` は `(index xs i)` の形で書いてください"@, e.line, e.column))
                        } else {
                            match expr_py(args[0]) {
                                Ok(t) => match expr_py(args[1]) {
                                    Ok(i) => Ok(t + "["@ + i + "]"@),
                                    Err(d) => Err(d),
                                },
                                Err(d) => Err(d),
                            }
                        }
                    } else if head == "not"@ {
                        if args.len() != 1 {
                            Err(diag("`not` は引数を1個だけ取ります"@, e.line, e.column))
                        } else {
                            match expr_py(args[0]) {
                                Ok(v) => Ok("not "@ + v),
                                Err(d) => Err(d),
                            }
                        }
                    } else {
                        match args_py(args) {
                            Ok(ps) => Ok(call_name(head) + "("@ + join(ps, ", "@) + ")"@),
                            Err(d) => Err(d),
                        }
                    }
                },
                _ => Err(diag("関数名は symbol で書いてください"@, items[0].line, items[0].column)),
            }
        },
    }
}

/// An operator applied to two or more arguments is written between them, in the
/// order given and parenthesised, as the very operator the source names (`=` being
/// Python's `==`): `(op a b ...)` gives `(A op B op ...)`.
pub proof fn lemma_operator_stands_between_its_arguments(e: ExprV, op: Seq<char>)
    requires
        e.kind is List,
        e.kind->List_0.len() >= 3,
        e.kind->List_0[0].kind == ExprKindV::Symbol(op),
        args_py(e.kind->List_0.subrange(1, e.kind->List_0.len() as int)) is Ok,
        op == "+"@ || op == "-"@ || op == "*"@ || op == "/"@ || op == "<"@ || op == "<="@ || op == ">"@
            || op == ">="@ || op == "!="@ || op == "and"@ || op == "or"@ || op == "="@,
    ensures
        ({
            let ps = args_py(e.kind->List_0.subrange(1, e.kind->List_0.len() as int))->Ok_0;
            let written = if op == "="@ { seq!['=', '='] } else { op };
            expr_py(e) == Ok::<Seq<char>, Diag>(seq!['('] + join(ps, seq![' '] + written + seq![' ']) + seq![')'])
        }),
{
    reveal_strlit("+");
    reveal_strlit("-");
    reveal_strlit("*");
    reveal_strlit("/");
    reveal_strlit("<");
    reveal_strlit("<=");
    reveal_strlit(">");
    reveal_strlit(">=");
    reveal_strlit("!=");
    reveal_strlit("and");
    reveal_strlit("or");
    reveal_strlit("=");
    reveal_strlit(" ");
    reveal_strlit(" - ");
    reveal_strlit(" == ");
    reveal_strlit("(");
    reveal_strlit(")");
    assert(" "@ + op + " "@ =~= seq![' '] + op + seq![' ']);
    let items = e.kind->List_0;
    let ps = args_py(items.subrange(1, items.len() as int))->Ok_0;
    assert("("@ =~= seq!['('] && ")"@ =~= seq![')']);
    let group = op == "+"@ || op == "*"@ || op == "/"@ || op == "<"@ || op == "<="@ || op == ">"@ || op == ">="@
        || op == "!="@ || op == "and"@ || op == "or"@;
    if op == "-"@ || op == "="@ {
        // Neither is one of the operators of the first group: each differs from them
        // in its length or its first character.
        assert(op.len() == 1 && (op[0] == '-' || op[0] == '='));
        assert(!group) by {
            assert("+"@[0] == '+' && "*"@[0] == '*' && "/"@[0] == '/' && "<"@[0] == '<' && ">"@[0] == '>');
            assert("<="@.len() == 2 && ">="@.len() == 2 && "!="@.len() == 2 && "and"@.len() == 3 && "or"@.len() == 2);
        }
        if op == "-"@ {
            assert(op != "="@) by {
                assert("="@[0] == '=');
            }
            assert(" - "@ =~= seq![' '] + op + seq![' ']);
            assert(expr_py(e) == Ok::<Seq<char>, Diag>("("@ + join(ps, " - "@) + ")"@));
        } else {
            assert(" == "@ =~= seq![' '] + seq!['=', '='] + seq![' ']);
            assert(expr_py(e) == Ok::<Seq<char>, Diag>("("@ + join(ps, " == "@) + ")"@));
        }
    } else {
        assert(group);
        assert(op != "="@) by {
            assert("="@[0] == '=' && "="@.len() == 1);
            assert("+"@[0] == '+' && "*"@[0] == '*' && "/"@[0] == '/' && "<"@[0] == '<' && ">"@[0] == '>');
        }
        assert(expr_py(e) == Ok::<Seq<char>, Diag>("("@ + join(ps, " "@ + op + " "@) + ")"@));
    }
}

/// The view of a fallible piece of output.
pub open spec fn out_view(r: Result<Vec<char>, LispToPythonError>) -> Result<Seq<char>, Diag> {
    match r {
        Ok(v) => Ok(v@),
        Err(e) => Err(e.view_diag()),
    }
}

/// An error whose message is `cs`.
fn error_from(cs: &Vec<char>, line: usize, column: usize) -> (e: LispToPythonError)
    ensures
        e.view_diag() == diag(cs@, line as int, column as int),
{
    LispToPythonError { message: string_of(cs.as_slice()), line, column }
}

fn const_name(x: &Expr) -> (r: Result<Vec<char>, LispToPythonError>)
    ensures
        out_view(r) == const_name_spec(expr_view(*x)),
{
    match &x.kind {
        ExprKind::Keyword(v) => Ok(to_const_variant(v)),
        ExprKind::Symbol(v) => Ok(to_const_variant(v)),
        _ => Err(LispToPythonError::new("定数名は symbol または keyword で書いてください", x.line, x.column)),
    }
}

/// The Python for `items[from..]`, or the first error among them.
fn emit_args(items: &Vec<Expr>, from: usize) -> (r: Result<Vec<Vec<char>>, LispToPythonError>)
    requires
        from <= items.len(),
    ensures
        match r {
            Ok(ps) => args_py(exprs_view(items@).subrange(from as int, items.len() as int))
                == Ok::<Seq<Seq<char>>, Diag>(vecs_view(ps@)),
            Err(e) => args_py(exprs_view(items@).subrange(from as int, items.len() as int))
                == Err::<Seq<Seq<char>>, Diag>(e.view_diag()),
        },
    decreases items@, 0nat,
{
    let ghost all = exprs_view(items@);
    proof {
        lemma_exprs_view_len(items@);
    }
    let ghost whole = args_py(all.subrange(from as int, items.len() as int));
    let mut parts: Vec<Vec<char>> = Vec::new();
    let mut k = from;
    proof {
        if let Ok(rest) = whole {
            assert(vecs_view(parts@) + rest =~= rest);
        }
    }
    while k < items.len()
        invariant
            from <= k <= items.len(),
            all == exprs_view(items@),
            all.len() == items.len(),
            forall|j: int| 0 <= j < items.len() ==> #[trigger] all[j] == expr_view(items@[j]),
            whole == args_py(all.subrange(from as int, items.len() as int)),
            match args_py(all.subrange(k as int, items.len() as int)) {
                Ok(rest) => whole == Ok::<Seq<Seq<char>>, Diag>(vecs_view(parts@) + rest),
                Err(d) => whole == Err::<Seq<Seq<char>>, Diag>(d),
            },
        decreases items.len() - k,
    {
        let ghost tail = all.subrange(k as int, items.len() as int);
        assert(tail[0] == expr_view(items@[k as int]));
        assert(tail.subrange(1, tail.len() as int) =~= all.subrange(k + 1, items.len() as int));
        match emit_expr(&items[k]) {
            Ok(p) => {
                proof {
                    assert(vecs_view(parts@.push(p)) =~= vecs_view(parts@).push(p@));
                    if let Ok(rest) = args_py(all.subrange(k + 1, items.len() as int)) {
                        assert(vecs_view(parts@).push(p@) + rest =~= vecs_view(parts@) + (seq![p@] + rest));
                    }
                }
                parts.push(p);
                k = k + 1;
            },
            Err(e) => {
                return Err(e);
            },
        }
    }
    proof {
        assert(all.subrange(k as int, items.len() as int) =~= Seq::<ExprV>::empty());
        assert(vecs_view(parts@) + Seq::<Seq<char>>::empty() =~= vecs_view(parts@));
    }
    Ok(parts)
}

/// `( a op b op ... )` over already written parts.
fn wrap_join(parts: &Vec<Vec<char>>, sep: &str) -> (r: Vec<char>)
    ensures
        r@ == "("@ + join(vecs_view(parts@), sep@) + ")"@,
{
    let mut out: Vec<char> = Vec::new();
    push_str(&mut out, "(");
    push_join(&mut out, parts, sep);
    push_str(&mut out, ")");
    out
}

/// The Python for `e` used as a value.
fn emit_expr(e: &Expr) -> (r: Result<Vec<char>, LispToPythonError>)
    ensures
        out_view(r) == expr_py(expr_view(*e)),
    decreases *e, 1nat,
{
    match &e.kind {
        ExprKind::Bool(b) => {
            let mut out: Vec<char> = Vec::new();
            if *b {
                push_str(&mut out, "True");
            } else {
                push_str(&mut out, "False");
            }
            Ok(out)
        },
        ExprKind::Keyword(v) => Ok(to_const_variant(v)),
        ExprKind::Number(v) => Ok(chars_of(v.as_str())),
        ExprKind::String(v) => {
            let mut out: Vec<char> = Vec::new();
            let cs = chars_of(v.as_str());
            push_debug_quoted(&mut out, &cs);
            Ok(out)
        },
        ExprKind::Symbol(v) => Ok(py_identifier(v)),
        ExprKind::List(items) => {
            proof {
                lemma_exprs_view_len(items@);
            }
            let ghost iv = exprs_view(items@);
            if items.len() == 0 {
                return Err(LispToPythonError::new("空のリストは式として使えません", e.line, e.column));
            }
            assert(iv[0] == expr_view(items@[0]));
            let head = match &items[0].kind {
                ExprKind::Symbol(h) => h,
                _ => {
                    return Err(LispToPythonError::new("関数名は symbol で書いてください", items[0].line, items[0].column));
                },
            };
            let ghost args = iv.subrange(1, iv.len() as int);
            let n = items.len() - 1;
            assert(args.len() == n);
            let h = head.as_str();
            if str_eq(h, "+") || str_eq(h, "*") || str_eq(h, "/") || str_eq(h, "<") || str_eq(h, "<=")
                || str_eq(h, ">") || str_eq(h, ">=") || str_eq(h, "!=") || str_eq(h, "and") || str_eq(h, "or") {
                if n < 2 {
                    let mut m: Vec<char> = Vec::new();
                    push_str(&mut m, "`");
                    push_str(&mut m, h);
                    push_str(&mut m, "` は2個以上の引数が必要です");
                    return Err(error_from(&m, e.line, e.column));
                }
                let parts = emit_args(items, 1)?;
                let mut sep: Vec<char> = Vec::new();
                push_str(&mut sep, " ");
                push_str(&mut sep, h);
                push_str(&mut sep, " ");
                let sep_s = string_of(sep.as_slice());
                Ok(wrap_join(&parts, sep_s.as_str()))
            } else if str_eq(h, "=") {
                if n < 2 {
                    return Err(LispToPythonError::new("`==` は2個以上の引数が必要です", e.line, e.column));
                }
                let parts = emit_args(items, 1)?;
                Ok(wrap_join(&parts, " == "))
            } else if str_eq(h, "-") {
                if n == 0 {
                    return Err(LispToPythonError::new("`-` は1個以上の引数が必要です", e.line, e.column));
                } else if n == 1 {
                    assert(args[0] == expr_view(items@[1]));
                    let v = emit_expr(&items[1])?;
                    let mut out: Vec<char> = Vec::new();
                    push_str(&mut out, "(-");
                    push_chars(&mut out, &v);
                    push_str(&mut out, ")");
                    return Ok(out);
                }
                let parts = emit_args(items, 1)?;
                Ok(wrap_join(&parts, " - "))
            } else if str_eq(h, "direction") {
                if n != 1 {
                    return Err(LispToPythonError::new("`direction` は `(direction north)` の形で書いてください", e.line, e.column));
                }
                assert(args[0] == expr_view(items@[1]));
                const_name(&items[1])
            } else if str_eq(h, "entity") || str_eq(h, "ground") || str_eq(h, "item") || str_eq(h, "leaderboard") || str_eq(h, "unlock") {
                let ns = if str_eq(h, "entity") {
                    "Entities"
                } else if str_eq(h, "ground") {
                    "Grounds"
                } else if str_eq(h, "item") {
                    "Items"
                } else if str_eq(h, "leaderboard") {
                    "Leaderboards"
                } else {
                    "Unlocks"
                };
                if n != 1 {
                    return Err(LispToPythonError::new("ゲーム定数は引数を1個だけ取ります", e.line, e.column));
                }
                assert(args[0] == expr_view(items@[1]));
                let c = const_name(&items[1])?;
                let mut out: Vec<char> = Vec::new();
                push_str(&mut out, ns);
                push_str(&mut out, ".");
                push_chars(&mut out, &c);
                Ok(out)
            } else if str_eq(h, "index") {
                if n != 2 {
                    return Err(LispToPythonError::new("`index` は `(index xs i)` の形で書いてください", e.line, e.column));
                }
                assert(args[0] == expr_view(items@[1]));
                assert(args[1] == expr_view(items@[2]));
                let t = emit_expr(&items[1])?;
                let i = emit_expr(&items[2])?;
                let mut out: Vec<char> = Vec::new();
                push_chars(&mut out, &t);
                push_str(&mut out, "[");
                push_chars(&mut out, &i);
                push_str(&mut out, "]");
                Ok(out)
            } else if str_eq(h, "not") {
                if n != 1 {
                    return Err(LispToPythonError::new("`not` は引数を1個だけ取ります", e.line, e.column));
                }
                assert(args[0] == expr_view(items@[1]));
                let v = emit_expr(&items[1])?;
                let mut out: Vec<char> = Vec::new();
                push_str(&mut out, "not ");
                push_chars(&mut out, &v);
                Ok(out)
            } else {
                let parts = emit_args(items, 1)?;
                let mut out: Vec<char> = Vec::new();
                if str_eq(h, "move-dir") {
                    push_str(&mut out, "move");
                } else if str_eq(h, "quick-print") {
                    push_str(&mut out, "quick_print");
                } else if str_eq(h, "use-item") {
                    push_str(&mut out, "use_item");
                } else {
                    push_py_ident(&mut out, head);
                }
                push_str(&mut out, "(");
                push_join(&mut out, &parts, ", ");
                push_str(&mut out, ")");
                Ok(out)
            }
        },
    }
}

/// How deeply lists nest in `e` (0 for an atom).
pub open spec fn expr_depth(e: ExprV) -> nat
    decreases e,
{
    match e.kind {
        ExprKindV::List(items) => 1 + max_depth(items),
        _ => 0,
    }
}

/// The deepest nesting among `s`.
pub open spec fn max_depth(s: Seq<ExprV>) -> nat
    decreases s,
{
    if s.len() == 0 {
        0
    } else {
        let a = expr_depth(s[0]);
        let b = max_depth(s.subrange(1, s.len() as int));
        if a >= b { a } else { b }
    }
}

/// One output line: `ind` levels of four spaces, the text, a line break.
pub open spec fn line_spec(ind: nat, t: Seq<char>) -> Seq<char> {
    repeat("    "@, ind) + t + "\n"@
}

/// The items of a list expression (empty for an atom).
pub open spec fn items_of(e: ExprV) -> Seq<ExprV> {
    match e.kind {
        ExprKindV::List(items) => items,
        _ => Seq::empty(),
    }
}

/// Whether `e` is a list whose head is the symbol `name`.
pub open spec fn is_form(e: ExprV, name: Seq<char>) -> bool {
    e.kind is List && items_of(e).len() > 0 && symbol_of(items_of(e)[0]) == Some(name)
}

/// The Python parameter names in a `define` signature after its name.
pub open spec fn params_spec(sig: Seq<ExprV>, i: int) -> Result<Seq<Seq<char>>, Diag>
    decreases sig.len() - i,
{
    if i < 0 || i >= sig.len() {
        Ok(Seq::empty())
    } else {
        match symbol_of(sig[i]) {
            Some(p) => match params_spec(sig, i + 1) {
                Ok(rest) => Ok(seq![py_ident_spec(p)] + rest),
                Err(d) => Err(d),
            },
            None => Err(diag("関数引数は symbol で書いてください"@, sig[i].line, sig[i].column)),
        }
    }
}

/// `(define (name params...) body...)`: its name and Python parameters; `None` for any
/// other form.
pub open spec fn function_define_spec(e: ExprV) -> Result<Option<(Seq<char>, Seq<Seq<char>>)>, Diag> {
    let items = items_of(e);
    if !is_form(e, "define"@) || items.len() < 3 || !(items[1].kind is List) {
        Ok(None)
    } else {
        let sig = items_of(items[1]);
        if sig.len() == 0 {
            Err(diag("`define` の関数名が必要です"@, items[1].line, items[1].column))
        } else {
            match symbol_of(sig[0]) {
                Some(name) => match params_spec(sig, 1) {
                    Ok(ps) => Ok(Some((name, ps))),
                    Err(d) => Err(d),
                },
                None => Err(diag("`define` の関数名は symbol で書いてください"@, sig[0].line, sig[0].column)),
            }
        }
    }
}

/// A `def` with the given name, parameters and body (`items[2..]` of the `define`).
pub open spec fn function_py(e: ExprV, name: Seq<char>, params: Seq<Seq<char>>, ind: nat) -> Result<
    Seq<char>,
    Diag,
>
    decreases e, 2nat,
{
    let body = items_of(e).subrange(2, items_of(e).len() as int);
    let head = line_spec(ind, "def "@ + py_ident_spec(name) + "("@ + join(params, ", "@) + "):"@);
    if items_of(e).len() <= 2 {
        Ok(head + line_spec(ind + 1, "pass"@))
    } else {
        match block_py(body, ind + 1) {
            Ok(t) => Ok(head + t),
            Err(d) => Err(d),
        }
    }
}

/// The statements for `body`, one after another.
pub open spec fn block_py(body: Seq<ExprV>, ind: nat) -> Result<Seq<char>, Diag>
    decreases body, 1nat,
{
    if body.len() == 0 {
        Ok(Seq::empty())
    } else {
        match stmt_py(body[0], ind) {
            Ok(t) => match block_py(body.subrange(1, body.len() as int), ind) {
                Ok(rest) => Ok(t + rest),
                Err(d) => Err(d),
            },
            Err(d) => Err(d),
        }
    }
}

/// The statements for `body`, or `pass` when it is empty.
pub open spec fn block_or_pass_py(body: Seq<ExprV>, ind: nat) -> Result<Seq<char>, Diag>
    decreases body, 2nat,
{
    if body.len() == 0 {
        Ok(line_spec(ind, "pass"@))
    } else {
        block_py(body, ind)
    }
}

/// A branch of an `if`: a `begin` form is spread out as its statements.
pub open spec fn stmt_or_begin_py(e: ExprV, ind: nat) -> Result<Seq<char>, Diag>
    decreases e, 5nat,
{
    if is_form(e, "begin"@) {
        block_or_pass_py(items_of(e).subrange(1, items_of(e).len() as int), ind)
    } else {
        stmt_py(e, ind)
    }
}

/// A value expression written as a statement line.
pub open spec fn expr_stmt_py(e: ExprV, ind: nat) -> Result<Seq<char>, Diag> {
    match expr_py(e) {
        Ok(v) => Ok(line_spec(ind, v)),
        Err(d) => Err(d),
    }
}

/// The `let` bindings of `bs` from index `i`, as assignments.
pub open spec fn bindings_py(bs: Seq<ExprV>, i: int, ind: nat) -> Result<Seq<char>, Diag>
    decreases bs.len() - i,
{
    if i < 0 || i >= bs.len() {
        Ok(Seq::empty())
    } else {
        let b = bs[i];
        if !(b.kind is List) || items_of(b).len() != 2 {
            Err(diag("`let` の束縛は `(name value)` で書いてください"@, b.line, b.column))
        } else {
            let pair = items_of(b);
            match symbol_of(pair[0]) {
                None => Err(diag("`let` の変数名は symbol で書いてください"@, pair[0].line, pair[0].column)),
                Some(name) => match expr_py(pair[1]) {
                    Ok(v) => match bindings_py(bs, i + 1, ind) {
                        Ok(rest) => Ok(line_spec(ind, py_ident_spec(name) + " = "@ + v) + rest),
                        Err(d) => Err(d),
                    },
                    Err(d) => Err(d),
                },
            }
        }
    }
}

/// `(define ...)` as a statement: a nested `def`, or an assignment `(define name value)`.
pub open spec fn define_py(e: ExprV, ind: nat) -> Result<Seq<char>, Diag>
    decreases e, 3nat,
{
    let items = items_of(e);
    match function_define_spec(e) {
        Err(d) => Err(d),
        Ok(Some((name, params))) => function_py(e, name, params, ind),
        Ok(None) => if items.len() == 3 {
            match symbol_of(items[1]) {
                None => Err(diag("`define` の変数名は symbol で書いてください"@, items[1].line, items[1].column)),
                Some(name) => match expr_py(items[2]) {
                    Ok(v) => Ok(line_spec(ind, py_ident_spec(name) + " = "@ + v)),
                    Err(d) => Err(d),
                },
            }
        } else {
            Err(diag("`define` は `(define (name args...) ...)` または `(define name value)` で書いてください"@, e.line, e.column))
        },
    }
}

/// `(for i start end body...)` as `for i in range(start, end):`.
pub open spec fn for_py(e: ExprV, ind: nat) -> Result<Seq<char>, Diag>
    decreases e, 3nat,
{
    let items = items_of(e);
    if items.len() < 5 {
        Err(diag("`for` は `(for i start end body...)` で書いてください"@, e.line, e.column))
    } else {
        match symbol_of(items[1]) {
            None => Err(diag("`for` の変数名は symbol で書いてください"@, items[1].line, items[1].column)),
            Some(name) => match expr_py(items[2]) {
                Err(d) => Err(d),
                Ok(start) => match expr_py(items[3]) {
                    Err(d) => Err(d),
                    Ok(end) => match block_or_pass_py(items.subrange(4, items.len() as int), ind + 1) {
                        Err(d) => Err(d),
                        Ok(t) => Ok(line_spec(ind, "for "@ + py_ident_spec(name) + " in range("@ + start + ", "@ + end + "):"@) + t),
                    },
                },
            },
        }
    }
}

/// `(if condition then [else])`.
pub open spec fn if_py(e: ExprV, ind: nat) -> Result<Seq<char>, Diag>
    decreases e, 3nat,
{
    let items = items_of(e);
    if items.len() < 3 || items.len() > 4 {
        Err(diag("`if` は `(if condition then [else])` で書いてください"@, e.line, e.column))
    } else {
        match expr_py(items[1]) {
            Err(d) => Err(d),
            Ok(c) => match stmt_or_begin_py(items[2], ind + 1) {
                Err(d) => Err(d),
                Ok(t) => if items.len() == 4 {
                    match stmt_or_begin_py(items[3], ind + 1) {
                        Err(d) => Err(d),
                        Ok(u) => Ok(line_spec(ind, "if "@ + c + ":"@) + t + line_spec(ind, "else:"@) + u),
                    }
                } else {
                    Ok(line_spec(ind, "if "@ + c + ":"@) + t)
                },
            },
        }
    }
}

/// `(let ((name value) ...) body...)`: the assignments, then the body.
pub open spec fn let_py(e: ExprV, ind: nat) -> Result<Seq<char>, Diag>
    decreases e, 3nat,
{
    let items = items_of(e);
    if items.len() < 3 {
        Err(diag("`let` は `(let ((name value) ...) body...)` で書いてください"@, e.line, e.column))
    } else if !(items[1].kind is List) {
        Err(diag("`let` の束縛はリストで書いてください"@, items[1].line, items[1].column))
    } else {
        match bindings_py(items_of(items[1]), 0, ind) {
            Err(d) => Err(d),
            Ok(bs) => match block_py(items.subrange(2, items.len() as int), ind) {
                Err(d) => Err(d),
                Ok(t) => Ok(bs + t),
            },
        }
    }
}

/// `(loop body...)` as `while True:`.
pub open spec fn loop_py(e: ExprV, ind: nat) -> Result<Seq<char>, Diag>
    decreases e, 3nat,
{
    let items = items_of(e);
    if items.len() == 0 {
        Ok(Seq::empty())
    } else {
        match block_or_pass_py(items.subrange(1, items.len() as int), ind + 1) {
            Err(d) => Err(d),
            Ok(t) => Ok(line_spec(ind, "while True:"@) + t),
        }
    }
}

/// `(return [value])`.
pub open spec fn return_py(e: ExprV, ind: nat) -> Result<Seq<char>, Diag> {
    let items = items_of(e);
    if items.len() == 1 {
        Ok(line_spec(ind, "return"@))
    } else if items.len() == 2 {
        match expr_py(items[1]) {
            Err(d) => Err(d),
            Ok(v) => Ok(line_spec(ind, "return "@ + v)),
        }
    } else {
        Err(diag("`return` の値は0個または1個です"@, items[0].line, items[0].column))
    }
}

/// `(set! name value)` as an assignment.
pub open spec fn set_py(e: ExprV, ind: nat) -> Result<Seq<char>, Diag> {
    let items = items_of(e);
    if items.len() != 3 {
        Err(diag("`set!` は `(set! name value)` で書いてください"@, e.line, e.column))
    } else {
        match symbol_of(items[1]) {
            None => Err(diag("`set!` の変数名は symbol で書いてください"@, items[1].line, items[1].column)),
            Some(name) => match expr_py(items[2]) {
                Err(d) => Err(d),
                Ok(v) => Ok(line_spec(ind, py_ident_spec(name) + " = "@ + v)),
            },
        }
    }
}

/// `(set-index! xs i value)` as `xs[i] = value`.
pub open spec fn set_index_py(e: ExprV, ind: nat) -> Result<Seq<char>, Diag> {
    let items = items_of(e);
    if items.len() != 4 {
        Err(diag("`set-index!` は `(set-index! xs i value)` で書いてください"@, e.line, e.column))
    } else {
        match expr_py(items[1]) {
            Err(d) => Err(d),
            Ok(t) => match expr_py(items[2]) {
                Err(d) => Err(d),
                Ok(i) => match expr_py(items[3]) {
                    Err(d) => Err(d),
                    Ok(v) => Ok(line_spec(ind, t + "["@ + i + "] = "@ + v)),
                },
            },
        }
    }
}

/// `(while condition body...)`.
pub open spec fn while_py(e: ExprV, ind: nat) -> Result<Seq<char>, Diag>
    decreases e, 3nat,
{
    let items = items_of(e);
    if items.len() < 3 {
        Err(diag("`while` は `(while condition body...)` で書いてください"@, e.line, e.column))
    } else {
        match expr_py(items[1]) {
            Err(d) => Err(d),
            Ok(c) => match block_or_pass_py(items.subrange(2, items.len() as int), ind + 1) {
                Err(d) => Err(d),
                Ok(t) => Ok(line_spec(ind, "while "@ + c + ":"@) + t),
            },
        }
    }
}

/// The Python for a Lisp form used as a statement.
pub open spec fn stmt_py(e: ExprV, ind: nat) -> Result<Seq<char>, Diag>
    decreases e, 4nat,
{
    let items = items_of(e);
    if !(e.kind is List) {
        expr_stmt_py(e, ind)
    } else if items.len() == 0 {
        Err(diag("空のリストは文として使えません"@, e.line, e.column))
    } else {
        match symbol_of(items[0]) {
            None => expr_stmt_py(e, ind),
            Some(head) => if head == "begin"@ {
                block_py(items.subrange(1, items.len() as int), ind)
            } else if head == "define"@ {
                define_py(e, ind)
            } else if head == "for"@ {
                for_py(e, ind)
            } else if head == "if"@ {
                if_py(e, ind)
            } else if head == "let"@ {
                let_py(e, ind)
            } else if head == "loop"@ {
                loop_py(e, ind)
            } else if head == "return"@ {
                return_py(e, ind)
            } else if head == "set!"@ {
                set_py(e, ind)
            } else if head == "set-index!"@ {
                set_index_py(e, ind)
            } else if head == "while"@ {
                while_py(e, ind)
            } else {
                expr_stmt_py(e, ind)
            },
        }
    }
}

/// Statement forms are written by the form their head names.
proof fn lemma_stmt_dispatch(e: ExprV, ind: nat)
    requires
        e.kind is List,
        items_of(e).len() > 0,
    ensures
        is_form(e, "define"@) ==> stmt_py(e, ind) == define_py(e, ind),
        is_form(e, "for"@) ==> stmt_py(e, ind) == for_py(e, ind),
        is_form(e, "if"@) ==> stmt_py(e, ind) == if_py(e, ind),
        is_form(e, "let"@) ==> stmt_py(e, ind) == let_py(e, ind),
        is_form(e, "loop"@) ==> stmt_py(e, ind) == loop_py(e, ind),
        is_form(e, "return"@) ==> stmt_py(e, ind) == return_py(e, ind),
        is_form(e, "set!"@) ==> stmt_py(e, ind) == set_py(e, ind),
        is_form(e, "set-index!"@) ==> stmt_py(e, ind) == set_index_py(e, ind),
        is_form(e, "while"@) ==> stmt_py(e, ind) == while_py(e, ind),
{
    lemma_form_names();
}

proof fn lemma_max_depth(s: Seq<ExprV>)
    ensures
        forall|k: int| 0 <= k < s.len() ==> #[trigger] expr_depth(s[k]) <= max_depth(s),
    decreases s.len(),
{
    if s.len() > 0 {
        let t = s.subrange(1, s.len() as int);
        lemma_max_depth(t);
        assert forall|k: int| 0 <= k < s.len() implies #[trigger] expr_depth(s[k]) <= max_depth(s) by {
            if k > 0 {
                assert(t[k - 1] == s[k]);
            }
        }
    }
}

/// Every item of the list `e` is shallower than `e` itself.
proof fn lemma_items_depth(e: ExprV)
    requires
        e.kind is List,
    ensures
        forall|k: int| 0 <= k < items_of(e).len() ==> #[trigger] expr_depth(items_of(e)[k]) < expr_depth(e),
{
    lemma_max_depth(items_of(e));
}

/// The output of a statement-writing step: what was appended on success, the error otherwise.
pub open spec fn emitted(before: Seq<char>, after: Seq<char>, r: Result<(), LispToPythonError>, s: Result<Seq<char>, Diag>) -> bool {
    match s {
        Ok(t) => r is Ok && after == before + t,
        Err(d) => r matches Err(err) && err.view_diag() == d,
    }
}

/// A successful step appended exactly the text its specification gives.
proof fn lemma_emitted_ok(before: Seq<char>, after: Seq<char>, r: Result<(), LispToPythonError>, s: Result<Seq<char>, Diag>)
    requires
        emitted(before, after, r, s),
        r is Ok,
    ensures
        s is Ok,
        after == before + s->Ok_0,
        after.subrange(before.len() as int, after.len() as int) == s->Ok_0,
{
    assert(after.subrange(before.len() as int, after.len() as int) =~= s->Ok_0);
}

/// Appends one line at `ind` to `out`.
fn push_line(out: &mut Vec<char>, ind: usize, text: &Vec<char>)
    ensures
        final(out)@ == old(out)@ + line_spec(ind as nat, text@),
{
    let ghost start = out@;
    push_repeat(out, "    ", ind);
    push_chars(out, text);
    push_str(out, "\n");
    proof {
        assert(out@ =~= start + line_spec(ind as nat, text@));
    }
}

/// Appends one line at `ind` holding the literal `text` to `out`.
fn push_line_str(out: &mut Vec<char>, ind: usize, text: &str)
    ensures
        final(out)@ == old(out)@ + line_spec(ind as nat, text@),
{
    let t = chars_of(text);
    push_line(out, ind, &t);
}

/// Writes `e` as a value on a line of its own.
fn emit_expr_line(out: &mut Vec<char>, e: &Expr, ind: usize) -> (r: Result<(), LispToPythonError>)
    ensures
        emitted(old(out)@, final(out)@, r, expr_stmt_py(expr_view(*e), ind as nat)),
{
    let v = emit_expr(e)?;
    push_line(out, ind, &v);
    Ok(())
}

/// Writes the statements `items[from..]`.
fn emit_block(out: &mut Vec<char>, items: &Vec<Expr>, from: usize, ind: usize) -> (r: Result<(), LispToPythonError>)
    requires
        from <= items.len(),
        ind + max_depth(exprs_view(items@)) < usize::MAX,
    ensures
        emitted(old(out)@, final(out)@, r, block_py(exprs_view(items@).subrange(from as int, items.len() as int), ind as nat)),
    decreases items@, 1nat,
{
    let ghost all = exprs_view(items@);
    proof {
        lemma_exprs_view_len(items@);
        lemma_max_depth(all);
    }
    let ghost whole = block_py(all.subrange(from as int, items.len() as int), ind as nat);
    let ghost start = out@;
    let ghost mut done: Seq<char> = Seq::empty();
    let mut k = from;
    proof {
        if let Ok(rest) = whole {
            assert(done + rest =~= rest);
        }
        assert(out@ =~= start + done);
    }
    while k < items.len()
        invariant
            from <= k <= items.len(),
            all == exprs_view(items@),
            all.len() == items.len(),
            forall|j: int| 0 <= j < items.len() ==> #[trigger] all[j] == expr_view(items@[j]),
            forall|j: int| 0 <= j < all.len() ==> #[trigger] expr_depth(all[j]) <= max_depth(all),
            ind + max_depth(all) < usize::MAX,
            whole == block_py(all.subrange(from as int, items.len() as int), ind as nat),
            out@ == start + done,
            match block_py(all.subrange(k as int, items.len() as int), ind as nat) {
                Ok(rest) => whole == Ok::<Seq<char>, Diag>(done + rest),
                Err(d) => whole == Err::<Seq<char>, Diag>(d),
            },
        decreases items.len() - k,
    {
        let ghost tail = all.subrange(k as int, items.len() as int);
        assert(tail[0] == expr_view(items@[k as int]));
        assert(tail.subrange(1, tail.len() as int) =~= all.subrange(k + 1, items.len() as int));
        assert(expr_depth(all[k as int]) <= max_depth(all));
        let ghost before = out@;
        let r1 = emit_statement(out, &items[k], ind);
        match r1 {
            Ok(()) => {
                proof {
                    lemma_emitted_ok(before, out@, r1, stmt_py(expr_view(items@[k as int]), ind as nat));
                    let t = out@.subrange(before.len() as int, out@.len() as int);
                    assert(out@ =~= before + t);
                    if let Ok(rest) = block_py(all.subrange(k + 1, items.len() as int), ind as nat) {
                        assert(done + t + rest =~= done + (t + rest));
                    }
                    done = done + t;
                    assert(out@ =~= start + done);
                }
                k = k + 1;
            },
            Err(e) => {
                return Err(e);
            },
        }
    }
    proof {
        assert(all.subrange(k as int, items.len() as int) =~= Seq::<ExprV>::empty());
        assert(done + Seq::<char>::empty() =~= done);
    }
    Ok(())
}

/// Writes the statements `items[from..]`, or `pass` when there are none.
fn emit_block_or_pass(out: &mut Vec<char>, items: &Vec<Expr>, from: usize, ind: usize) -> (r: Result<(), LispToPythonError>)
    requires
        from <= items.len(),
        ind + max_depth(exprs_view(items@)) < usize::MAX,
    ensures
        emitted(old(out)@, final(out)@, r, block_or_pass_py(exprs_view(items@).subrange(from as int, items.len() as int), ind as nat)),
    decreases items@, 2nat,
{
    proof {
        lemma_exprs_view_len(items@);
    }
    if from >= items.len() {
        push_line_str(out, ind, "pass");
        return Ok(());
    }
    emit_block(out, items, from, ind)
}

/// The Python parameter names in `sig[from..]`.
fn function_params(sig: &Vec<Expr>) -> (r: Result<Vec<Vec<char>>, LispToPythonError>)
    requires
        sig.len() >= 1,
    ensures
        match r {
            Ok(ps) => params_spec(exprs_view(sig@), 1) == Ok::<Seq<Seq<char>>, Diag>(vecs_view(ps@)),
            Err(e) => params_spec(exprs_view(sig@), 1) == Err::<Seq<Seq<char>>, Diag>(e.view_diag()),
        },
{
    let ghost all = exprs_view(sig@);
    proof {
        lemma_exprs_view_len(sig@);
    }
    let mut params: Vec<Vec<char>> = Vec::new();
    let mut k: usize = 1;
    proof {
        if let Ok(rest) = params_spec(all, 1) {
            assert(vecs_view(params@) + rest =~= rest);
        }
    }
    while k < sig.len()
        invariant
            1 <= k <= sig.len(),
            all == exprs_view(sig@),
            all.len() == sig.len(),
            forall|j: int| 0 <= j < sig.len() ==> #[trigger] all[j] == expr_view(sig@[j]),
            match params_spec(all, k as int) {
                Ok(rest) => params_spec(all, 1) == Ok::<Seq<Seq<char>>, Diag>(vecs_view(params@) + rest),
                Err(d) => params_spec(all, 1) == Err::<Seq<Seq<char>>, Diag>(d),
            },
        decreases sig.len() - k,
    {
        assert(all[k as int] == expr_view(sig@[k as int]));
        match &sig[k].kind {
            ExprKind::Symbol(p) => {
                let v = py_identifier(p);
                proof {
                    assert(vecs_view(params@.push(v)) =~= vecs_view(params@).push(v@));
                    if let Ok(rest) = params_spec(all, k + 1) {
                        assert(vecs_view(params@).push(v@) + rest =~= vecs_view(params@) + (seq![v@] + rest));
                    }
                }
                params.push(v);
            },
            _ => {
                return Err(LispToPythonError::new("関数引数は symbol で書いてください", sig[k].line, sig[k].column));
            },
        }
        k = k + 1;
    }
    proof {
        assert(vecs_view(params@) + Seq::<Seq<char>>::empty() =~= vecs_view(params@));
    }
    Ok(params)
}

/// Reads `(define (name params...) body...)`; `None` for any other form.
fn parse_function_define(e: &Expr) -> (r: Result<Option<(String, Vec<Vec<char>>)>, LispToPythonError>)
    ensures
        match function_define_spec(expr_view(*e)) {
            Ok(None) => r matches Ok(None),
            Ok(Some((name, params))) => r matches Ok(Some((n, ps))) && n@ == name && vecs_view(ps@) == params,
            Err(d) => r matches Err(err) && err.view_diag() == d,
        },
{
    let items = match &e.kind {
        ExprKind::List(items) => items,
        _ => {
            return Ok(None);
        },
    };
    proof {
        lemma_exprs_view_len(items@);
    }
    if items.len() == 0 {
        return Ok(None);
    }
    let is_define = match &items[0].kind {
        ExprKind::Symbol(h) => str_eq(h.as_str(), "define"),
        _ => false,
    };
    if !is_define || items.len() < 3 {
        return Ok(None);
    }
    let sig = match &items[1].kind {
        ExprKind::List(sig) => sig,
        _ => {
            return Ok(None);
        },
    };
    proof {
        lemma_exprs_view_len(sig@);
    }
    if sig.len() == 0 {
        return Err(LispToPythonError::new("`define` の関数名が必要です", items[1].line, items[1].column));
    }
    let name = match &sig[0].kind {
        ExprKind::Symbol(n) => n.clone(),
        _ => {
            return Err(LispToPythonError::new("`define` の関数名は symbol で書いてください", sig[0].line, sig[0].column));
        },
    };
    let params = function_params(sig)?;
    Ok(Some((name, params)))
}

/// Writes `def name(params):` and the body `items[2..]` of the `define` form `e`.
fn emit_function(out: &mut Vec<char>, name: &String, params: &Vec<Vec<char>>, e: &Expr, ind: usize) -> (r: Result<(), LispToPythonError>)
    requires
        e.kind is List,
        ind + expr_depth(expr_view(*e)) < usize::MAX,
    ensures
        emitted(old(out)@, final(out)@, r, function_py(expr_view(*e), name@, vecs_view(params@), ind as nat)),
    decreases *e, 2nat,
{
    let items = match &e.kind {
        ExprKind::List(items) => items,
        _ => {
            return Ok(());
        },
    };
    proof {
        lemma_exprs_view_len(items@);
    }
    let ghost start = out@;
    let mut head: Vec<char> = Vec::new();
    push_str(&mut head, "def ");
    push_py_ident(&mut head, name);
    push_str(&mut head, "(");
    push_join(&mut head, params, ", ");
    push_str(&mut head, "):");
    push_line(out, ind, &head);
    if items.len() <= 2 {
        push_line_str(out, ind + 1, "pass");
        proof {
            assert(out@ =~= start + (line_spec(ind as nat, head@) + line_spec((ind + 1) as nat, "pass"@)));
        }
        return Ok(());
    }
    let ghost mid = out@;
    let r = emit_block(out, items, 2, ind + 1);
    proof {
        if r is Ok {
            lemma_emitted_ok(mid, out@, r, block_py(exprs_view(items@).subrange(2, items.len() as int), (ind + 1) as nat));
            assert(out@ =~= start + (line_spec(ind as nat, head@) + out@.subrange(mid.len() as int, out@.len() as int)));
        }
    }
    r
}

/// The statement form a head symbol names (0 for none).
pub open spec fn form_no(h: Seq<char>) -> int {
    if h == "begin"@ {
        1
    } else if h == "define"@ {
        2
    } else if h == "for"@ {
        3
    } else if h == "if"@ {
        4
    } else if h == "let"@ {
        5
    } else if h == "loop"@ {
        6
    } else if h == "return"@ {
        7
    } else if h == "set!"@ {
        8
    } else if h == "set-index!"@ {
        9
    } else if h == "while"@ {
        10
    } else {
        0
    }
}

proof fn lemma_form_names()
    ensures
        form_no("begin"@) == 1,
        form_no("define"@) == 2,
        form_no("for"@) == 3,
        form_no("if"@) == 4,
        form_no("let"@) == 5,
        form_no("loop"@) == 6,
        form_no("return"@) == 7,
        form_no("set!"@) == 8,
        form_no("set-index!"@) == 9,
        form_no("while"@) == 10,
{
    reveal_strlit("begin");
    assert("begin"@.len() == 5 && "begin"@[0] == 'b');
    reveal_strlit("define");
    assert("define"@.len() == 6 && "define"@[0] == 'd');
    reveal_strlit("for");
    assert("for"@.len() == 3 && "for"@[0] == 'f');
    reveal_strlit("if");
    assert("if"@.len() == 2 && "if"@[0] == 'i');
    reveal_strlit("let");
    assert("let"@.len() == 3 && "let"@[0] == 'l');
    reveal_strlit("loop");
    assert("loop"@.len() == 4 && "loop"@[0] == 'l');
    reveal_strlit("return");
    assert("return"@.len() == 6 && "return"@[0] == 'r');
    reveal_strlit("set!");
    assert("set!"@.len() == 4 && "set!"@[0] == 's');
    reveal_strlit("set-index!");
    assert("set-index!"@.len() == 10 && "set-index!"@[0] == 's');
    reveal_strlit("while");
    assert("while"@.len() == 5 && "while"@[0] == 'w');
}

/// The facts about a list form `e` with items `items` that the statement writers use.
proof fn lemma_form_facts(e: Expr, items: Vec<Expr>)
    requires
        e.kind == ExprKind::List(items),
    ensures
        items_of(expr_view(e)) == exprs_view(items@),
        exprs_view(items@).len() == items.len(),
        forall|j: int| 0 <= j < items.len() ==> #[trigger] exprs_view(items@)[j] == expr_view(items@[j]),
        expr_view(e).kind is List,
        expr_depth(expr_view(e)) == 1 + max_depth(exprs_view(items@)),
        forall|j: int| 0 <= j < items.len() ==> #[trigger] expr_depth(exprs_view(items@)[j]) < expr_depth(expr_view(e)),
{
    lemma_exprs_view_len(items@);
    lemma_items_depth(expr_view(e));
    lemma_form_names();
}

/// `(define ...)` as a statement: a nested `def` or an assignment.
fn emit_define_statement(out: &mut Vec<char>, e: &Expr, items: &Vec<Expr>, ind: usize) -> (r: Result<(), LispToPythonError>)
    requires
        e.kind == ExprKind::List(*items),
        is_form(expr_view(*e), "define"@),
        ind + expr_depth(expr_view(*e)) < usize::MAX,
    ensures
        emitted(old(out)@, final(out)@, r, define_py(expr_view(*e), ind as nat)),
    decreases *e, 3nat,
{
    proof {
        lemma_form_facts(*e, *items);
    }
    match parse_function_define(e)? {
        Some((name, params)) => emit_function(out, &name, &params, e, ind),
        None => {
            if items.len() == 3 {
                let name = match &items[1].kind {
                    ExprKind::Symbol(n) => n,
                    _ => {
                        return Err(LispToPythonError::new("`define` の変数名は symbol で書いてください", items[1].line, items[1].column));
                    },
                };
                let v = emit_expr(&items[2])?;
                let mut text: Vec<char> = Vec::new();
                push_py_ident(&mut text, name);
                push_str(&mut text, " = ");
                push_chars(&mut text, &v);
                push_line(out, ind, &text);
                Ok(())
            } else {
                Err(LispToPythonError::new("`define` は `(define (name args...) ...)` または `(define name value)` で書いてください", e.line, e.column))
            }
        },
    }
}

/// `(for i start end body...)` as `for i in range(start, end):`.
fn emit_for(out: &mut Vec<char>, e: &Expr, items: &Vec<Expr>, ind: usize) -> (r: Result<(), LispToPythonError>)
    requires
        e.kind == ExprKind::List(*items),
        is_form(expr_view(*e), "for"@),
        ind + expr_depth(expr_view(*e)) < usize::MAX,
    ensures
        emitted(old(out)@, final(out)@, r, for_py(expr_view(*e), ind as nat)),
    decreases *e, 3nat,
{
    proof {
        lemma_form_facts(*e, *items);
    }
    if items.len() < 5 {
        return Err(LispToPythonError::new("`for` は `(for i start end body...)` で書いてください", e.line, e.column));
    }
    let name = match &items[1].kind {
        ExprKind::Symbol(n) => n,
        _ => {
            return Err(LispToPythonError::new("`for` の変数名は symbol で書いてください", items[1].line, items[1].column));
        },
    };
    let start = emit_expr(&items[2])?;
    let end = emit_expr(&items[3])?;
    let mut text: Vec<char> = Vec::new();
    push_str(&mut text, "for ");
    push_py_ident(&mut text, name);
    push_str(&mut text, " in range(");
    push_chars(&mut text, &start);
    push_str(&mut text, ", ");
    push_chars(&mut text, &end);
    push_str(&mut text, "):");
    let ghost before = out@;
    push_line(out, ind, &text);
    let ghost mid = out@;
    let r = emit_block_or_pass(out, items, 4, ind + 1);
    proof {
        if r is Ok {
            lemma_emitted_ok(mid, out@, r, block_or_pass_py(exprs_view(items@).subrange(4, items.len() as int), (ind + 1) as nat));
            assert(out@ =~= before + (line_spec(ind as nat, text@) + out@.subrange(mid.len() as int, out@.len() as int)));
        }
    }
    r
}

/// A branch of an `if`; a `begin` form is spread out as its statements.
fn emit_statement_or_begin(out: &mut Vec<char>, e: &Expr, ind: usize) -> (r: Result<(), LispToPythonError>)
    requires
        ind + expr_depth(expr_view(*e)) < usize::MAX,
    ensures
        emitted(old(out)@, final(out)@, r, stmt_or_begin_py(expr_view(*e), ind as nat)),
    decreases *e, 5nat,
{
    if let ExprKind::List(items) = &e.kind {
        proof {
            lemma_form_facts(*e, *items);
        }
        if items.len() > 0 {
            if let ExprKind::Symbol(h) = &items[0].kind {
                if str_eq(h.as_str(), "begin") {
                    return emit_block_or_pass(out, items, 1, ind);
                }
            }
        }
    }
    emit_statement(out, e, ind)
}

/// `(if condition then [else])`.
fn emit_if(out: &mut Vec<char>, e: &Expr, items: &Vec<Expr>, ind: usize) -> (r: Result<(), LispToPythonError>)
    requires
        e.kind == ExprKind::List(*items),
        is_form(expr_view(*e), "if"@),
        ind + expr_depth(expr_view(*e)) < usize::MAX,
    ensures
        emitted(old(out)@, final(out)@, r, if_py(expr_view(*e), ind as nat)),
    decreases *e, 3nat,
{
    proof {
        lemma_form_facts(*e, *items);
    }
    if items.len() < 3 || items.len() > 4 {
        return Err(LispToPythonError::new("`if` は `(if condition then [else])` で書いてください", e.line, e.column));
    }
    let c = emit_expr(&items[1])?;
    let mut text: Vec<char> = Vec::new();
    push_str(&mut text, "if ");
    push_chars(&mut text, &c);
    push_str(&mut text, ":");
    let ghost before = out@;
    push_line(out, ind, &text);
    let ghost mid = out@;
    let r1 = emit_statement_or_begin(out, &items[2], ind + 1);
    if r1.is_err() {
        return r1;
    }
    proof {
        lemma_emitted_ok(mid, out@, r1, stmt_or_begin_py(expr_view(items@[2]), (ind + 1) as nat));
    }
    let ghost t = out@.subrange(mid.len() as int, out@.len() as int);
    proof {
        assert(out@ =~= before + (line_spec(ind as nat, text@) + t));
    }
    if items.len() == 4 {
        push_line_str(out, ind, "else:");
        let ghost mid2 = out@;
        let r = emit_statement_or_begin(out, &items[3], ind + 1);
        proof {
            if r is Ok {
                lemma_emitted_ok(mid2, out@, r, stmt_or_begin_py(expr_view(items@[3]), (ind + 1) as nat));
                let u = out@.subrange(mid2.len() as int, out@.len() as int);
                assert(out@ =~= before + (line_spec(ind as nat, text@) + t + line_spec(ind as nat, "else:"@) + u));
            }
        }
        return r;
    }
    Ok(())
}

/// `(let ((name value) ...) body...)`: the assignments, then the body.
fn emit_let(out: &mut Vec<char>, e: &Expr, items: &Vec<Expr>, ind: usize) -> (r: Result<(), LispToPythonError>)
    requires
        e.kind == ExprKind::List(*items),
        is_form(expr_view(*e), "let"@),
        ind + expr_depth(expr_view(*e)) < usize::MAX,
    ensures
        emitted(old(out)@, final(out)@, r, let_py(expr_view(*e), ind as nat)),
    decreases *e, 3nat,
{
    proof {
        lemma_form_facts(*e, *items);
    }
    if items.len() < 3 {
        return Err(LispToPythonError::new("`let` は `(let ((name value) ...) body...)` で書いてください", e.line, e.column));
    }
    let bindings = match &items[1].kind {
        ExprKind::List(bs) => bs,
        _ => {
            return Err(LispToPythonError::new("`let` の束縛はリストで書いてください", items[1].line, items[1].column));
        },
    };
    let ghost bv = exprs_view(bindings@);
    proof {
        lemma_exprs_view_len(bindings@);
        assert(items_of(expr_view(items@[1])) == bv);
    }
    let ghost whole = bindings_py(bv, 0, ind as nat);
    let ghost start = out@;
    let ghost mut done: Seq<char> = Seq::empty();
    let mut k: usize = 0;
    proof {
        if let Ok(rest) = whole {
            assert(done + rest =~= rest);
        }
        assert(out@ =~= start + done);
    }
    while k < bindings.len()
        invariant
            k <= bindings.len(),
            bv == exprs_view(bindings@),
            bv.len() == bindings.len(),
            forall|j: int| 0 <= j < bindings.len() ==> #[trigger] bv[j] == expr_view(bindings@[j]),
            whole == bindings_py(bv, 0, ind as nat),
            let_py(expr_view(*e), ind as nat) == (match whole {
                Err(d) => Err(d),
                Ok(bs) => match block_py(exprs_view(items@).subrange(2, items.len() as int), ind as nat) {
                    Err(d) => Err(d),
                    Ok(t) => Ok(bs + t),
                },
            }),
            out@ == start + done,
            match bindings_py(bv, k as int, ind as nat) {
                Ok(rest) => whole == Ok::<Seq<char>, Diag>(done + rest),
                Err(d) => whole == Err::<Seq<char>, Diag>(d),
            },
        decreases bindings.len() - k,
    {
        let b = &bindings[k];
        assert(bv[k as int] == expr_view(*b));
        let pair = match &b.kind {
            ExprKind::List(pair) => pair,
            _ => {
                assert(!(bv[k as int].kind is List));
                return Err(LispToPythonError::new("`let` の束縛は `(name value)` で書いてください", b.line, b.column));
            },
        };
        proof {
            lemma_exprs_view_len(pair@);
            assert(items_of(bv[k as int]) == exprs_view(pair@));
        }
        if pair.len() != 2 {
            return Err(LispToPythonError::new("`let` の束縛は `(name value)` で書いてください", b.line, b.column));
        }
        let name = match &pair[0].kind {
            ExprKind::Symbol(n) => n,
            _ => {
                return Err(LispToPythonError::new("`let` の変数名は symbol で書いてください", pair[0].line, pair[0].column));
            },
        };
        let v = emit_expr(&pair[1])?;
        let mut text: Vec<char> = Vec::new();
        push_py_ident(&mut text, name);
        push_str(&mut text, " = ");
        push_chars(&mut text, &v);
        push_line(out, ind, &text);
        proof {
            let l = line_spec(ind as nat, text@);
            if let Ok(rest) = bindings_py(bv, k + 1, ind as nat) {
                assert(done + l + rest =~= done + (l + rest));
            }
            done = done + l;
            assert(out@ =~= start + done);
        }
        k = k + 1;
    }
    let ghost mid = out@;
    let r = emit_block(out, items, 2, ind);
    proof {
        if r is Ok {
            lemma_emitted_ok(mid, out@, r, block_py(exprs_view(items@).subrange(2, items.len() as int), ind as nat));
            assert(done + Seq::<char>::empty() =~= done);
            assert(out@ =~= start + (done + out@.subrange(mid.len() as int, out@.len() as int)));
        }
    }
    r
}

/// `(loop body...)` as `while True:`.
fn emit_loop(out: &mut Vec<char>, e: &Expr, items: &Vec<Expr>, ind: usize) -> (r: Result<(), LispToPythonError>)
    requires
        e.kind == ExprKind::List(*items),
        is_form(expr_view(*e), "loop"@),
        ind + expr_depth(expr_view(*e)) < usize::MAX,
    ensures
        emitted(old(out)@, final(out)@, r, loop_py(expr_view(*e), ind as nat)),
    decreases *e, 3nat,
{
    proof {
        lemma_form_facts(*e, *items);
    }
    let ghost before = out@;
    push_line_str(out, ind, "while True:");
    let ghost mid = out@;
    let r = emit_block_or_pass(out, items, 1, ind + 1);
    proof {
        if r is Ok {
            lemma_emitted_ok(mid, out@, r, block_or_pass_py(exprs_view(items@).subrange(1, items.len() as int), (ind + 1) as nat));
            let t = out@.subrange(mid.len() as int, out@.len() as int);
            assert(out@ =~= before + (line_spec(ind as nat, "while True:"@) + t));
            assert(items_of(expr_view(*e)).subrange(1, items.len() as int) == exprs_view(items@).subrange(1, items.len() as int));
        }
    }
    r
}

/// `(return [value])`.
fn emit_return(out: &mut Vec<char>, e: &Expr, items: &Vec<Expr>, ind: usize) -> (r: Result<(), LispToPythonError>)
    requires
        e.kind == ExprKind::List(*items),
        is_form(expr_view(*e), "return"@),
    ensures
        emitted(old(out)@, final(out)@, r, return_py(expr_view(*e), ind as nat)),
{
    proof {
        lemma_exprs_view_len(items@);
        lemma_form_names();
    }
    if items.len() == 1 {
        push_line_str(out, ind, "return");
        Ok(())
    } else if items.len() == 2 {
        let v = emit_expr(&items[1])?;
        let mut text: Vec<char> = Vec::new();
        push_str(&mut text, "return ");
        push_chars(&mut text, &v);
        push_line(out, ind, &text);
        Ok(())
    } else {
        Err(LispToPythonError::new("`return` の値は0個または1個です", items[0].line, items[0].column))
    }
}

/// `(set! name value)` as an assignment.
fn emit_set(out: &mut Vec<char>, e: &Expr, items: &Vec<Expr>, ind: usize) -> (r: Result<(), LispToPythonError>)
    requires
        e.kind == ExprKind::List(*items),
        is_form(expr_view(*e), "set!"@),
    ensures
        emitted(old(out)@, final(out)@, r, set_py(expr_view(*e), ind as nat)),
{
    proof {
        lemma_exprs_view_len(items@);
        lemma_form_names();
    }
    if items.len() != 3 {
        return Err(LispToPythonError::new("`set!` は `(set! name value)` で書いてください", e.line, e.column));
    }
    let name = match &items[1].kind {
        ExprKind::Symbol(n) => n,
        _ => {
            return Err(LispToPythonError::new("`set!` の変数名は symbol で書いてください", items[1].line, items[1].column));
        },
    };
    let v = emit_expr(&items[2])?;
    let mut text: Vec<char> = Vec::new();
    push_py_ident(&mut text, name);
    push_str(&mut text, " = ");
    push_chars(&mut text, &v);
    push_line(out, ind, &text);
    Ok(())
}

/// `(set-index! xs i value)` as `xs[i] = value`.
fn emit_set_index(out: &mut Vec<char>, e: &Expr, items: &Vec<Expr>, ind: usize) -> (r: Result<(), LispToPythonError>)
    requires
        e.kind == ExprKind::List(*items),
        is_form(expr_view(*e), "set-index!"@),
    ensures
        emitted(old(out)@, final(out)@, r, set_index_py(expr_view(*e), ind as nat)),
{
    proof {
        lemma_exprs_view_len(items@);
        lemma_form_names();
    }
    if items.len() != 4 {
        return Err(LispToPythonError::new("`set-index!` は `(set-index! xs i value)` で書いてください", e.line, e.column));
    }
    let t = emit_expr(&items[1])?;
    let i = emit_expr(&items[2])?;
    let v = emit_expr(&items[3])?;
    let mut text: Vec<char> = Vec::new();
    push_chars(&mut text, &t);
    push_str(&mut text, "[");
    push_chars(&mut text, &i);
    push_str(&mut text, "] = ");
    push_chars(&mut text, &v);
    push_line(out, ind, &text);
    Ok(())
}

/// `(while condition body...)`.
fn emit_while(out: &mut Vec<char>, e: &Expr, items: &Vec<Expr>, ind: usize) -> (r: Result<(), LispToPythonError>)
    requires
        e.kind == ExprKind::List(*items),
        is_form(expr_view(*e), "while"@),
        ind + expr_depth(expr_view(*e)) < usize::MAX,
    ensures
        emitted(old(out)@, final(out)@, r, while_py(expr_view(*e), ind as nat)),
    decreases *e, 3nat,
{
    proof {
        lemma_form_facts(*e, *items);
    }
    if items.len() < 3 {
        return Err(LispToPythonError::new("`while` は `(while condition body...)` で書いてください", e.line, e.column));
    }
    let c = emit_expr(&items[1])?;
    let mut text: Vec<char> = Vec::new();
    push_str(&mut text, "while ");
    push_chars(&mut text, &c);
    push_str(&mut text, ":");
    let ghost before = out@;
    push_line(out, ind, &text);
    let ghost mid = out@;
    let r = emit_block_or_pass(out, items, 2, ind + 1);
    proof {
        if r is Ok {
            lemma_emitted_ok(mid, out@, r, block_or_pass_py(exprs_view(items@).subrange(2, items.len() as int), (ind + 1) as nat));
            assert(out@ =~= before + (line_spec(ind as nat, text@) + out@.subrange(mid.len() as int, out@.len() as int)));
        }
    }
    r
}

/// Writes the Lisp form `e` as Python statements.
fn emit_statement(out: &mut Vec<char>, e: &Expr, ind: usize) -> (r: Result<(), LispToPythonError>)
    requires
        ind + expr_depth(expr_view(*e)) < usize::MAX,
    ensures
        emitted(old(out)@, final(out)@, r, stmt_py(expr_view(*e), ind as nat)),
    decreases *e, 4nat,
{
    let items = match &e.kind {
        ExprKind::List(items) => items,
        _ => {
            return emit_expr_line(out, e, ind);
        },
    };
    proof {
        lemma_form_facts(*e, *items);
    }
    if items.len() == 0 {
        return Err(LispToPythonError::new("空のリストは文として使えません", e.line, e.column));
    }
    proof {
        lemma_stmt_dispatch(expr_view(*e), ind as nat);
    }
    let h = match &items[0].kind {
        ExprKind::Symbol(h) => h.as_str(),
        _ => {
            return emit_expr_line(out, e, ind);
        },
    };
    if str_eq(h, "begin") {
        emit_block(out, items, 1, ind)
    } else if str_eq(h, "define") {
        emit_define_statement(out, e, items, ind)
    } else if str_eq(h, "for") {
        emit_for(out, e, items, ind)
    } else if str_eq(h, "if") {
        emit_if(out, e, items, ind)
    } else if str_eq(h, "let") {
        emit_let(out, e, items, ind)
    } else if str_eq(h, "loop") {
        emit_loop(out, e, items, ind)
    } else if str_eq(h, "return") {
        emit_return(out, e, items, ind)
    } else if str_eq(h, "set!") {
        emit_set(out, e, items, ind)
    } else if str_eq(h, "set-index!") {
        emit_set_index(out, e, items, ind)
    } else if str_eq(h, "while") {
        emit_while(out, e, items, ind)
    } else {
        emit_expr_line(out, e, ind)
    }
}

/// Whether the output already ends with an empty line.
pub open spec fn ends_with_blank(out: Seq<char>) -> bool {
    out.len() >= 2 && out[out.len() - 1] == '\n' && out[out.len() - 2] == '\n'
}

/// The output followed by an empty line, unless it is empty or already ends with one.
pub open spec fn blank_after(out: Seq<char>) -> Seq<char> {
    if out.len() > 0 && !ends_with_blank(out) {
        out.push('\n')
    } else {
        out
    }
}

/// The text without its trailing line breaks.
pub open spec fn strip_newlines(v: Seq<char>) -> Seq<char>
    decreases v.len(),
{
    if v.len() > 0 && v.last() == '\n' {
        strip_newlines(v.drop_last())
    } else {
        v
    }
}

/// The text with its trailing line breaks replaced by one, or empty if nothing else is left.
pub open spec fn trim_blank(v: Seq<char>) -> Seq<char> {
    let w = strip_newlines(v);
    if w.len() > 0 {
        w.push('\n')
    } else {
        w
    }
}

/// The first pass over the top-level forms from index `i`: functions other than `main`
/// are written (each followed by an empty line), the body of the last `main` is kept,
/// `use` forms are skipped and everything else is kept as a top-level statement.
pub open spec fn gen_fold(
    forms: Seq<ExprV>,
    i: int,
    out: Seq<char>,
    main: Option<Seq<ExprV>>,
    top: Seq<ExprV>,
) -> Result<(Seq<char>, Option<Seq<ExprV>>, Seq<ExprV>), Diag>
    decreases forms.len() - i,
{
    if i < 0 || i >= forms.len() {
        Ok((out, main, top))
    } else {
        let f = forms[i];
        if is_form(f, "use"@) {
            gen_fold(forms, i + 1, out, main, top)
        } else {
            match function_define_spec(f) {
                Err(d) => Err(d),
                Ok(Some((name, params))) => if name == "main"@ {
                    gen_fold(forms, i + 1, out, Some(items_of(f).subrange(2, items_of(f).len() as int)), top)
                } else {
                    match function_py(f, name, params, 0) {
                        Ok(t) => gen_fold(forms, i + 1, blank_after(out + t), main, top),
                        Err(d) => Err(d),
                    }
                },
                Ok(None) => gen_fold(forms, i + 1, out, main, top.push(f)),
            }
        }
    }
}

/// The Python program for the top-level forms: the functions, then the top-level
/// statements, then the body of `main`.
pub open spec fn generate_spec(forms: Seq<ExprV>) -> Result<Seq<char>, Diag> {
    match gen_fold(forms, 0, Seq::empty(), None, Seq::empty()) {
        Err(d) => Err(d),
        Ok((out, main, top)) => match block_py(top, 0) {
            Err(d) => Err(d),
            Ok(t1) => match main {
                None => Ok(trim_blank(out + t1)),
                Some(body) => match block_py(body, 0) {
                    Err(d) => Err(d),
                    Ok(t2) => Ok(trim_blank(out + t1 + t2)),
                },
            },
        },
    }
}

/// Adds an empty line unless the output is empty or already ends with one.
fn blank_line(out: &mut Vec<char>)
    ensures
        final(out)@ == blank_after(old(out)@),
{
    let n = out.len();
    if n > 0 && !(n >= 2 && out[n - 1] == '\n' && out[n - 2] == '\n') {
        out.push('\n');
    }
}

/// Replaces the trailing line breaks of `value` with one.
fn trim_extra_blank_lines(value: &Vec<char>) -> (r: Vec<char>)
    ensures
        r@ == trim_blank(value@),
{
    let mut n = value.len();
    proof {
        assert(value@.subrange(0, n as int) =~= value@);
    }
    while n > 0 && value[n - 1] == '\n'
        invariant
            n <= value.len(),
            strip_newlines(value@) == strip_newlines(value@.subrange(0, n as int)),
        decreases n,
    {
        proof {
            assert(value@.subrange(0, n as int).drop_last() =~= value@.subrange(0, n - 1));
        }
        n = n - 1;
    }
    let mut out: Vec<char> = Vec::new();
    let mut k: usize = 0;
    while k < n
        invariant
            k <= n <= value.len(),
            out@ == value@.subrange(0, k as int),
        decreases n - k,
    {
        out.push(value[k]);
        k = k + 1;
        proof {
            assert(out@ =~= value@.subrange(0, k as int));
        }
    }
    proof {
        assert(value@.subrange(0, 0) =~= Seq::<char>::empty());
        if n > 0 {
            assert(value@.subrange(0, n as int).last() != '\n');
        }
        assert(strip_newlines(value@.subrange(0, n as int)) == value@.subrange(0, n as int));
    }
    if n > 0 {
        out.push('\n');
    }
    out
}

/// Every top-level form can be written at indentation 0.
pub open spec fn forms_fit(forms: Seq<ExprV>) -> bool {
    forall|k: int| 0 <= k < forms.len() ==> #[trigger] expr_depth(forms[k]) < usize::MAX
}

/// Writes the forms at `idxs` as top-level statements.
fn emit_top_level(out: &mut Vec<char>, forms: &[Expr], idxs: &Vec<usize>) -> (r: Result<(), LispToPythonError>)
    requires
        forms_fit(exprs_view(forms@)),
        forall|j: int| 0 <= j < idxs.len() ==> #[trigger] idxs@[j] < forms.len(),
    ensures
        emitted(old(out)@, final(out)@, r, block_py(idxs@.map_values(|k: usize| exprs_view(forms@)[k as int]), 0)),
{
    let ghost fv = exprs_view(forms@);
    let ghost top = idxs@.map_values(|k: usize| fv[k as int]);
    proof {
        lemma_exprs_view_len(forms@);
    }
    let ghost whole = block_py(top, 0);
    let ghost start = out@;
    let ghost mut done: Seq<char> = Seq::empty();
    let mut k: usize = 0;
    proof {
        if let Ok(rest) = whole {
            assert(done + rest =~= rest);
        }
        assert(top.subrange(0, top.len() as int) =~= top);
        assert(out@ =~= start + done);
    }
    while k < idxs.len()
        invariant
            k <= idxs.len(),
            fv == exprs_view(forms@),
            fv.len() == forms.len(),
            forall|j: int| 0 <= j < forms.len() ==> #[trigger] fv[j] == expr_view(forms@[j]),
            forms_fit(fv),
            forall|j: int| 0 <= j < idxs.len() ==> #[trigger] idxs@[j] < forms.len(),
            top == idxs@.map_values(|k: usize| fv[k as int]),
            whole == block_py(top, 0),
            out@ == start + done,
            match block_py(top.subrange(k as int, top.len() as int), 0) {
                Ok(rest) => whole == Ok::<Seq<char>, Diag>(done + rest),
                Err(d) => whole == Err::<Seq<char>, Diag>(d),
            },
        decreases idxs.len() - k,
    {
        let idx = idxs[k];
        let ghost tail = top.subrange(k as int, top.len() as int);
        assert(tail[0] == expr_view(forms@[idx as int]));
        assert(tail.subrange(1, tail.len() as int) =~= top.subrange(k + 1, top.len() as int));
        assert(expr_depth(fv[idx as int]) < usize::MAX);
        let ghost before = out@;
        let r1 = emit_statement(out, &forms[idx], 0);
        match r1 {
            Ok(()) => {
                proof {
                    lemma_emitted_ok(before, out@, r1, stmt_py(expr_view(forms@[idx as int]), 0));
                    let t = out@.subrange(before.len() as int, out@.len() as int);
                    if let Ok(rest) = block_py(top.subrange(k + 1, top.len() as int), 0) {
                        assert(done + t + rest =~= done + (t + rest));
                    }
                    done = done + t;
                    assert(out@ =~= start + done);
                }
                k = k + 1;
            },
            Err(e) => {
                return Err(e);
            },
        }
    }
    proof {
        assert(top.subrange(k as int, top.len() as int) =~= Seq::<ExprV>::empty());
        assert(done + Seq::<char>::empty() =~= done);
    }
    Ok(())
}

/// The Python program for the top-level forms: every function but `main` as a `def`,
/// then the other top-level forms, then the body of `main`.
pub fn generate(forms: &[Expr]) -> (r: Result<String, LispToPythonError>)
    requires
        forms_fit(exprs_view(forms@)),
    ensures
        match r {
            Ok(s) => generate_spec(exprs_view(forms@)) == Ok::<Seq<char>, Diag>(s@),
            Err(e) => generate_spec(exprs_view(forms@)) == Err::<Seq<char>, Diag>(e.view_diag()),
        },
{
    let ghost fv = exprs_view(forms@);
    proof {
        lemma_exprs_view_len(forms@);
    }
    let mut out: Vec<char> = Vec::new();
    let mut main: Option<usize> = None;
    let mut top: Vec<usize> = Vec::new();
    let mut i: usize = 0;
    proof {
        assert(out@ =~= Seq::<char>::empty());
        assert(top@.map_values(|k: usize| fv[k as int]) =~= Seq::<ExprV>::empty());
    }
    while i < forms.len()
        invariant
            i <= forms.len(),
            fv == exprs_view(forms@),
            fv.len() == forms.len(),
            forall|j: int| 0 <= j < forms.len() ==> #[trigger] fv[j] == expr_view(forms@[j]),
            forms_fit(fv),
            forall|j: int| 0 <= j < top.len() ==> #[trigger] top@[j] < forms.len(),
            main matches Some(m) ==> m < forms.len() && forms@[m as int].kind is List && items_of(fv[m as int]).len() >= 2,
            gen_fold(fv, 0, Seq::empty(), None, Seq::empty()) == gen_fold(
                fv,
                i as int,
                out@,
                match main {
                    None => None,
                    Some(m) => Some(items_of(fv[m as int]).subrange(2, items_of(fv[m as int]).len() as int)),
                },
                top@.map_values(|k: usize| fv[k as int]),
            ),
        decreases forms.len() - i,
    {
        let f = &forms[i];
        assert(fv[i as int] == expr_view(*f));
        let mut is_use = false;
        if let ExprKind::List(items) = &f.kind {
            if items.len() > 0 {
                if let ExprKind::Symbol(h) = &items[0].kind {
                    is_use = str_eq(h.as_str(), "use");
                }
            }
            proof {
                lemma_exprs_view_len(items@);
            }
        }
        if is_use {
            i = i + 1;
            continue;
        }
        match parse_function_define(f)? {
            Some((name, params)) => {
                if str_eq(name.as_str(), "main") {
                    main = Some(i);
                } else {
                    proof {
                        assert(expr_depth(fv[i as int]) < usize::MAX);
                    }
                    emit_function(&mut out, &name, &params, f, 0)?;
                    blank_line(&mut out);
                }
            },
            None => {
                proof {
                    assert(top@.push(i).map_values(|k: usize| fv[k as int]) =~= top@.map_values(|k: usize| fv[k as int]).push(fv[i as int]));
                }
                top.push(i);
            },
        }
        i = i + 1;
    }
    emit_top_level(&mut out, forms, &top)?;
    if let Some(m) = main {
        let items = match &forms[m].kind {
            ExprKind::List(items) => items,
            _ => {
                return Ok(string_of(out.as_slice()));
            },
        };
        proof {
            lemma_form_facts(forms@[m as int], *items);
            assert(expr_depth(fv[m as int]) < usize::MAX);
        }
        emit_block(&mut out, items, 2, 0)?;
    }
    let trimmed = trim_extra_blank_lines(&out);
    Ok(string_of(trimmed.as_slice()))
}

} // verus!
