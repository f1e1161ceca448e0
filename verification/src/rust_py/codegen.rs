//! Writes the converter's program form out as the game's Python.
use vstd::prelude::*;
use crate::text::{
    copy_chars, lemma_segments_len, segments, str_lines, debug_quote, join, trim, trim_text,
    push_chars, push_debug_quoted, push_join, push_join_strings, push_str, str_eq, string_of,
    strings_view, vecs_view, chars_of, is_space,
};
use super::api_map::{identifier_spec, map_identifier, map_namespace, namespace_spec};
use super::ir::{
    alias_v, constant_v, copy_tokens, else_v, etoks_view, factory_v, function_v, lemma_stmt_v_kind,
    lemma_stmts_v_index, param_v, program_v, stmt_v, stmts_v, Constant, ElseBranch, Expr, ExprTokV,
    ExprToken, Function, FunctionParam, NamespaceAlias, Program, Stmt, StructFactory,
};

verus! {

// ---------------------------------------------------------------------------------
// Expressions

/// What the context of a program says: the `::` paths its items are known by, with
/// their Python names, and the names of its structs.
pub struct CtxV {
    pub keys: Seq<Seq<char>>,
    pub outputs: Seq<Seq<char>>,
    pub structs: Seq<Seq<char>>,
}

/// The Python name registered last for `key`.
pub open spec fn alias_lookup(keys: Seq<Seq<char>>, outputs: Seq<Seq<char>>, key: Seq<char>) -> Option<Seq<char>>
    decreases keys.len(),
{
    if keys.len() == 0 || outputs.len() != keys.len() {
        None
    } else if keys.last() == key {
        Some(outputs.last())
    } else {
        alias_lookup(keys.drop_last(), outputs.drop_last(), key)
    }
}

/// Whether a space goes before an atom appended to `out`.
pub open spec fn space_before(out: Seq<char>) -> bool {
    out.len() > 0 && !(out.last() == '(' || out.last() == '[' || out.last() == '{' || out.last() == '.'
        || out.last() == ' ' || out.last() == '\n')
}

/// `out` with an atom appended, a space before it where needed.
pub open spec fn atom(out: Seq<char>, text: Seq<char>) -> Seq<char> {
    if space_before(out) {
        out + seq![' '] + text
    } else {
        out + text
    }
}

/// `out` without its trailing spaces.
pub open spec fn trim_tail(out: Seq<char>) -> Seq<char>
    decreases out.len(),
{
    if out.len() > 0 && out.last() == ' ' {
        trim_tail(out.drop_last())
    } else {
        out
    }
}

/// `out` with a binary operator or word appended, spaced on both sides.
pub open spec fn binary(out: Seq<char>, text: Seq<char>) -> Seq<char> {
    let t = trim_tail(out);
    (if t.len() > 0 { t + seq![' '] } else { t }) + text + seq![' ']
}

/// `out` with a prefix word such as `not` appended.
pub open spec fn prefix_word(out: Seq<char>, text: Seq<char>) -> Seq<char> {
    atom(out, text) + seq![' ']
}

/// The operators written unchanged, with a space on each side.
pub open spec fn binary_op(v: Seq<char>) -> bool {
    v == "+"@ || v == "-"@ || v == "*"@ || v == "/"@ || v == "//"@ || v == "%"@ || v == "**"@
        || v == "=="@ || v == "!="@ || v == "<"@ || v == "<="@ || v == ">"@ || v == ">="@ || v == "="@
}

/// `out` with one token appended.
pub open spec fn token_step(out: Seq<char>, t: ExprTokV) -> Seq<char> {
    match t {
        ExprTokV::Ident(v) => atom(out, identifier_spec(v)),
        ExprTokV::Number(v) => atom(out, v),
        ExprTokV::Str(v) => atom(out, v),
        ExprTokV::Symbol(c) => if c == '(' || c == ')' || c == ']' || c == '}' {
            trim_tail(out).push(c)
        } else if c == '[' || c == '{' {
            out.push(c)
        } else if c == ',' {
            trim_tail(out) + ", "@
        } else if c == ':' {
            trim_tail(out) + ": "@
        } else {
            atom(out, seq![c])
        },
        ExprTokV::Operator(v) => if v == "&&"@ {
            binary(out, "and"@)
        } else if v == "||"@ {
            binary(out, "or"@)
        } else if v == "!"@ {
            prefix_word(out, "not"@)
        } else if v == "."@ {
            trim_tail(out).push('.')
        } else if binary_op(v) {
            binary(out, v)
        } else {
            atom(out, v)
        },
    }
}

/// The names after a first identifier, each behind a `::`, from index `i`, and how many
/// tokens they take.
pub open spec fn path_rest(ts: Seq<ExprTokV>, i: int) -> (Seq<Seq<char>>, int)
    decreases ts.len() - i,
{
    if 0 <= i && i + 1 < ts.len() && ts[i] == ExprTokV::Operator("::"@) && ts[i + 1] is Ident {
        let (rest, n) = path_rest(ts, i + 2);
        (seq![ts[i + 1]->Ident_0] + rest, n + 2)
    } else {
        (Seq::empty(), 0)
    }
}

/// A `::` path at index `i`, written in Python, and how many tokens it takes.
pub open spec fn path_at(c: CtxV, ts: Seq<ExprTokV>, i: int) -> Option<(Seq<char>, int)> {
    if 0 <= i < ts.len() && ts[i] is Ident {
        let (rest, n) = path_rest(ts, i + 1);
        let parts = seq![ts[i]->Ident_0] + rest;
        if parts.len() < 2 {
            None
        } else {
            match alias_lookup(c.keys, c.outputs, join(parts, "::"@)) {
                Some(a) => Some((a, n + 1)),
                None => if parts.len() == 2 {
                    Some((namespace_spec(parts[0], parts[1]), n + 1))
                } else {
                    Some((join(parts, "."@), n + 1))
                },
            }
        }
    } else {
        None
    }
}

/// Bracket depths `(paren, bracket, brace)` after token `t`.
pub open spec fn depth_step(d: (nat, nat, nat), t: ExprTokV) -> (nat, nat, nat) {
    if t == ExprTokV::Symbol('(') {
        (d.0 + 1, d.1, d.2)
    } else if t == ExprTokV::Symbol(')') {
        ((if d.0 == 0 { 0 } else { d.0 - 1 }) as nat, d.1, d.2)
    } else if t == ExprTokV::Symbol('[') {
        (d.0, d.1 + 1, d.2)
    } else if t == ExprTokV::Symbol(']') {
        (d.0, (if d.1 == 0 { 0 } else { d.1 - 1 }) as nat, d.2)
    } else if t == ExprTokV::Symbol('{') {
        (d.0, d.1, d.2 + 1)
    } else if t == ExprTokV::Symbol('}') {
        (d.0, d.1, (if d.2 == 0 { 0 } else { d.2 - 1 }) as nat)
    } else {
        d
    }
}

pub open spec fn top(d: (nat, nat, nat)) -> bool {
    d.0 == 0 && d.1 == 0 && d.2 == 0
}

/// The index of the `}` that closes the `{` before `k`, `depth` braces being open.
pub open spec fn brace_close(ts: Seq<ExprTokV>, k: int, depth: nat) -> Option<int>
    decreases ts.len() - k,
{
    if k < 0 || k >= ts.len() {
        None
    } else if ts[k] == ExprTokV::Symbol('{') {
        brace_close(ts, k + 1, depth + 1)
    } else if ts[k] == ExprTokV::Symbol('}') {
        if depth <= 1 {
            Some(k)
        } else {
            brace_close(ts, k + 1, (depth - 1) as nat)
        }
    } else {
        brace_close(ts, k + 1, depth)
    }
}

/// The index of the first top-level `:` of `ts` from `k`.
pub open spec fn colon_at(ts: Seq<ExprTokV>, k: int, d: (nat, nat, nat)) -> Option<int>
    decreases ts.len() - k,
{
    if k < 0 || k >= ts.len() {
        None
    } else if ts[k] == ExprTokV::Symbol(':') && top(d) {
        Some(k)
    } else {
        colon_at(ts, k + 1, depth_step(d, ts[k]))
    }
}

/// A struct literal's field `name: value`, written as `name=value`.
pub open spec fn field_py(c: CtxV, f: Seq<ExprTokV>) -> Option<Seq<char>>
    decreases f.len(), 3nat, 0nat,
{
    match colon_at(f, 0, (0, 0, 0)) {
        Some(k) => if k == 1 && f[0] is Ident && k < f.len() {
            Some(f[0]->Ident_0 + "="@ + expr_py(c, f.subrange(k + 1, f.len() as int)))
        } else {
            None
        },
        None => None,
    }
}

/// The fields of a struct literal whose body is `ts[..hi]`, scanning from `k`, the
/// current field starting at `start`.
pub open spec fn fields_py(c: CtxV, ts: Seq<ExprTokV>, k: int, start: int, d: (nat, nat, nat), hi: int, acc: Seq<Seq<char>>) -> Option<Seq<Seq<char>>>
    decreases ts.len(), 0nat, hi - k,
{
    if !(0 < start <= k <= hi < ts.len()) {
        None
    } else if k == hi {
        if k > start {
            match field_py(c, ts.subrange(start, k)) {
                Some(f) => Some(acc.push(f)),
                None => None,
            }
        } else {
            Some(acc)
        }
    } else if ts[k] == ExprTokV::Symbol(',') && top(d) {
        match field_py(c, ts.subrange(start, k)) {
            Some(f) => fields_py(c, ts, k + 1, k + 1, d, hi, acc.push(f)),
            None => None,
        }
    } else {
        fields_py(c, ts, k + 1, start, depth_step(d, ts[k]), hi, acc)
    }
}

/// A struct literal `Name { field: value, ... }` at the start of `ts`, written as a
/// call `Name(field=value, ...)`, and how many tokens it takes.
pub open spec fn struct_lit(c: CtxV, ts: Seq<ExprTokV>) -> Option<(Seq<char>, int)>
    decreases ts.len(), 1nat, 0nat,
{
    if ts.len() >= 2 && ts[0] is Ident && ts[1] == ExprTokV::Symbol('{') && c.structs.contains(ts[0]->Ident_0) {
        match brace_close(ts, 1, 0) {
            Some(close) => if 2 <= close < ts.len() {
                match fields_py(c, ts, 2, 2, (0, 0, 0), close, Seq::empty()) {
                    Some(fields) => Some((ts[0]->Ident_0 + "("@ + join(fields, ", "@) + ")"@, close + 1)),
                    None => None,
                }
            } else {
                None
            },
            None => None,
        }
    } else {
        None
    }
}

/// `out` with the tokens of `ts` from `i` appended.
pub open spec fn expr_from(c: CtxV, ts: Seq<ExprTokV>, i: int, out: Seq<char>) -> Seq<char>
    decreases ts.len(), 2nat, ts.len() - i,
{
    if i < 0 || i >= ts.len() {
        out
    } else {
        match path_at(c, ts, i) {
            Some((text, n)) => if n >= 1 && i + n <= ts.len() {
                expr_from(c, ts, i + n, atom(out, text))
            } else {
                out
            },
            None => match struct_lit(c, ts.subrange(i, ts.len() as int)) {
                Some((text, n)) => if n >= 1 && i + n <= ts.len() {
                    expr_from(c, ts, i + n, atom(out, text))
                } else {
                    out
                },
                None => expr_from(c, ts, i + 1, token_step(out, ts[i])),
            },
        }
    }
}

/// An expression written in Python.
pub open spec fn expr_py(c: CtxV, ts: Seq<ExprTokV>) -> Seq<char>
    decreases ts.len(), 2nat, ts.len() + 1,
{
    trim(expr_from(c, ts, 0, Seq::empty()))
}


/// The `::` paths a program's items are known by, with their Python names, and its
/// struct names.
struct CodegenContext {
    keys: Vec<Vec<char>>,
    outputs: Vec<String>,
    structs: Vec<String>,
}

impl CodegenContext {
    spec fn view_ctx(&self) -> CtxV {
        CtxV { keys: vecs_view(self.keys@), outputs: strings_view(self.outputs@), structs: strings_view(self.structs@) }
    }

    spec fn wf(&self) -> bool {
        self.keys@.len() == self.outputs@.len()
    }

    /// The Python name registered last for `key`.
    fn lookup(&self, key: &Vec<char>) -> (r: Option<String>)
        requires
            self.wf(),
        ensures
            match alias_lookup(self.view_ctx().keys, self.view_ctx().outputs, key@) {
                Some(o) => r matches Some(s) && s@ == o,
                None => r is None,
            },
    {
        let mut n: usize = self.keys.len();
        proof {
            assert(self.keys@.subrange(0, n as int) =~= self.keys@);
            assert(self.outputs@.subrange(0, n as int) =~= self.outputs@);
        }
        while n > 0
            invariant
                n <= self.keys@.len() == self.outputs@.len(),
                alias_lookup(self.view_ctx().keys, self.view_ctx().outputs, key@) == alias_lookup(
                    vecs_view(self.keys@.subrange(0, n as int)),
                    strings_view(self.outputs@.subrange(0, n as int)),
                    key@,
                ),
            decreases n,
        {
            let ghost ks = vecs_view(self.keys@.subrange(0, n as int));
            let ghost os = strings_view(self.outputs@.subrange(0, n as int));
            proof {
                assert(ks.last() == self.keys@[n - 1]@);
                assert(os.last() == self.outputs@[n - 1]@);
                assert(ks.drop_last() =~= vecs_view(self.keys@.subrange(0, n - 1)));
                assert(os.drop_last() =~= strings_view(self.outputs@.subrange(0, n - 1)));
            }
            if vec_eq(&self.keys[n - 1], key) {
                return Some(self.outputs[n - 1].clone());
            }
            n = n - 1;
        }
        proof {
            assert(vecs_view(self.keys@.subrange(0, 0)).len() == 0);
        }
        None
    }

    /// Whether `name` is one of the program's structs.
    fn is_struct(&self, name: &String) -> (r: bool)
        ensures
            r == self.view_ctx().structs.contains(name@),
    {
        let mut i: usize = 0;
        while i < self.structs.len()
            invariant
                i <= self.structs@.len(),
                forall|k: int| 0 <= k < i ==> self.structs@[k]@ != name@,
            decreases self.structs@.len() - i,
        {
            if str_eq(self.structs[i].as_str(), name.as_str()) {
                proof {
                    assert(self.view_ctx().structs[i as int] == name@);
                }
                return true;
            }
            i = i + 1;
        }
        proof {
            if self.view_ctx().structs.contains(name@) {
                let k = choose|k: int| 0 <= k < self.view_ctx().structs.len() && self.view_ctx().structs[k] == name@;
                assert(self.structs@[k]@ == name@);
            }
        }
        false
    }
}

/// Equality of two character vectors.
fn vec_eq(a: &Vec<char>, b: &Vec<char>) -> (r: bool)
    ensures
        r == (a@ == b@),
{
    if a.len() != b.len() {
        return false;
    }
    let mut i: usize = 0;
    while i < a.len()
        invariant
            a@.len() == b@.len(),
            i <= a@.len(),
            forall|k: int| 0 <= k < i ==> a@[k] == b@[k],
        decreases a@.len() - i,
    {
        if a[i] != b[i] {
            return false;
        }
        i = i + 1;
    }
    proof {
        assert(a@ =~= b@);
    }
    true
}

/// Whether a space goes before an atom appended to `out`.
fn should_insert_space_before_atom(out: &Vec<char>) -> (r: bool)
    ensures
        r == space_before(out@),
{
    if out.len() == 0 {
        return false;
    }
    let last = out[out.len() - 1];
    !(last == '(' || last == '[' || last == '{' || last == '.' || last == ' ' || last == '\n')
}

/// Drops the trailing spaces of `out`.
fn trim_trailing_spaces(out: &mut Vec<char>)
    ensures
        final(out)@ == trim_tail(old(out)@),
{
    while out.len() > 0 && out[out.len() - 1] == ' '
        invariant
            trim_tail(out@) == trim_tail(old(out)@),
        decreases out@.len(),
    {
        out.pop();
    }
}

/// Appends an atom, with a space before it where needed.
fn append_atom(out: &mut Vec<char>, text: &Vec<char>)
    ensures
        final(out)@ == atom(old(out)@, text@),
{
    if should_insert_space_before_atom(out) {
        out.push(' ');
    }
    push_chars(out, text);
    proof {
        assert(out@ =~= atom(old(out)@, text@));
    }
}

/// Appends a binary operator or word, spaced on both sides.
fn append_binary(out: &mut Vec<char>, text: &str)
    ensures
        final(out)@ == binary(old(out)@, text@),
{
    trim_trailing_spaces(out);
    if out.len() > 0 {
        out.push(' ');
    }
    push_str(out, text);
    out.push(' ');
    proof {
        let t = trim_tail(old(out)@);
        assert(out@ =~= (if t.len() > 0 { t + seq![' '] } else { t }) + text@ + seq![' ']);
    }
}

/// Appends a prefix word and a space.
fn append_prefix_word(out: &mut Vec<char>, text: &str)
    ensures
        final(out)@ == prefix_word(old(out)@, text@),
{
    let t = chars_of(text);
    append_atom(out, &t);
    out.push(' ');
    proof {
        assert(out@ =~= atom(old(out)@, text@) + seq![' ']);
    }
}

/// Whether `v` is an operator written with a space on each side.
fn is_binary_operator(v: &str) -> (r: bool)
    ensures
        r == binary_op(v@),
{
    str_eq(v, "+") || str_eq(v, "-") || str_eq(v, "*") || str_eq(v, "/") || str_eq(v, "//")
        || str_eq(v, "%") || str_eq(v, "**") || str_eq(v, "==") || str_eq(v, "!=") || str_eq(v, "<")
        || str_eq(v, "<=") || str_eq(v, ">") || str_eq(v, ">=") || str_eq(v, "=")
}

/// Appends one token.
fn append_token(out: &mut Vec<char>, token: &ExprToken)
    ensures
        final(out)@ == token_step(old(out)@, token.view_tok()),
{
    match token {
        ExprToken::Ident(v) => {
            let m = chars_of(map_identifier(v.as_str()).as_str());
            append_atom(out, &m);
        },
        ExprToken::Number(v) => {
            let m = chars_of(v.as_str());
            append_atom(out, &m);
        },
        ExprToken::String(v) => {
            let m = chars_of(v.as_str());
            append_atom(out, &m);
        },
        ExprToken::Symbol(c) => {
            let c = *c;
            if c == '(' || c == ')' || c == ']' || c == '}' {
                trim_trailing_spaces(out);
                out.push(c);
            } else if c == '[' || c == '{' {
                out.push(c);
            } else if c == ',' {
                trim_trailing_spaces(out);
                push_str(out, ", ");
            } else if c == ':' {
                trim_trailing_spaces(out);
                push_str(out, ": ");
            } else {
                let m: Vec<char> = vec![c];
                proof {
                    assert(m@ =~= seq![c]);
                }
                append_atom(out, &m);
            }
        },
        ExprToken::Operator(v) => {
            if str_eq(v.as_str(), "&&") {
                append_binary(out, "and");
            } else if str_eq(v.as_str(), "||") {
                append_binary(out, "or");
            } else if str_eq(v.as_str(), "!") {
                append_prefix_word(out, "not");
            } else if str_eq(v.as_str(), ".") {
                trim_trailing_spaces(out);
                out.push('.');
            } else if is_binary_operator(v.as_str()) {
                append_binary(out, v.as_str());
            } else {
                let m = chars_of(v.as_str());
                append_atom(out, &m);
            }
        },
    }
}

proof fn lemma_path_rest(ts: Seq<ExprTokV>, i: int)
    requires
        0 <= i <= ts.len(),
    ensures
        0 <= path_rest(ts, i).1 <= ts.len() - i,
        path_rest(ts, i).1 == 2 * path_rest(ts, i).0.len(),
    decreases ts.len() - i,
{
    if 0 <= i && i + 1 < ts.len() && ts[i] == ExprTokV::Operator("::"@) && ts[i + 1] is Ident {
        lemma_path_rest(ts, i + 2);
    }
}

/// A `::` path at index `i`, written in Python, and how many tokens it takes.
fn map_namespace_expr(tokens: &Vec<ExprToken>, i: usize, ctx: &CodegenContext) -> (r: Option<(Vec<char>, usize)>)
    requires
        ctx.wf(),
        i < tokens.len(),
    ensures
        match path_at(ctx.view_ctx(), etoks_view(tokens@), i as int) {
            Some((t, n)) => r matches Some((o, m)) && o@ == t && m == n,
            None => r is None,
        },
{
    let ghost ts = etoks_view(tokens@);
    let first = match &tokens[i] {
        ExprToken::Ident(v) => v,
        _ => {
            return None;
        },
    };
    let mut parts: Vec<String> = Vec::new();
    parts.push(first.clone());
    let mut k: usize = i + 1;
    proof {
        lemma_path_rest(ts, i + 1);
    }
    while tokens.len() - k > 1 && tokens[k].view_is_path_sep() && tokens[k + 1].is_ident()
        invariant
            i + 1 <= k <= tokens.len(),
            ts == etoks_view(tokens@),
            (k - i - 1) == 2 * (parts@.len() - 1),
            parts@.len() >= 1,
            strings_view(parts@)[0] == ts[i as int]->Ident_0,
            ts[i as int] is Ident,
            seq![ts[i as int]->Ident_0] + path_rest(ts, i + 1).0 == strings_view(parts@) + path_rest(ts, k as int).0,
            path_rest(ts, i + 1).1 == (k - i - 1) + path_rest(ts, k as int).1,
        decreases tokens@.len() - k,
    {
        let name = match &tokens[k + 1] {
            ExprToken::Ident(v) => v.clone(),
            _ => String::new(),
        };
        let ghost before = strings_view(parts@);
        parts.push(name);
        proof {
            assert(strings_view(parts@) =~= before.push(ts[k + 1]->Ident_0));
            let (rest, n) = path_rest(ts, k + 2);
            assert(path_rest(ts, k as int).0 == seq![ts[k + 1]->Ident_0] + rest);
            assert(before + path_rest(ts, k as int).0 =~= strings_view(parts@) + rest);
        }
        k = k + 2;
    }
    proof {
        assert(path_rest(ts, k as int).0.len() == 0);
        assert(seq![ts[i as int]->Ident_0] + path_rest(ts, i + 1).0 =~= strings_view(parts@));
    }
    if parts.len() < 2 {
        return None;
    }
    let mut key: Vec<char> = Vec::new();
    push_join_strings(&mut key, &parts, "::");
    proof {
        assert(key@ =~= join(strings_view(parts@), "::"@));
    }
    match ctx.lookup(&key) {
        Some(alias) => {
            return Some((chars_of(alias.as_str()), k - i));
        },
        None => {},
    }
    if parts.len() == 2 {
        let m = map_namespace(parts[0].as_str(), parts[1].as_str());
        proof {
            assert(strings_view(parts@)[0] == parts@[0]@);
            assert(strings_view(parts@)[1] == parts@[1]@);
        }
        return Some((chars_of(m.as_str()), k - i));
    }
    let mut dotted: Vec<char> = Vec::new();
    push_join_strings(&mut dotted, &parts, ".");
    proof {
        assert(dotted@ =~= join(strings_view(parts@), "."@));
    }
    Some((dotted, k - i))
}

impl ExprToken {
    /// Whether this is the `::` operator.
    fn view_is_path_sep(&self) -> (r: bool)
        ensures
            r == (self.view_tok() == ExprTokV::Operator("::"@)),
    {
        match self {
            ExprToken::Operator(v) => str_eq(v.as_str(), "::"),
            _ => false,
        }
    }

    fn is_ident(&self) -> (r: bool)
        ensures
            r == (self.view_tok() is Ident),
    {
        match self {
            ExprToken::Ident(_) => true,
            _ => false,
        }
    }
}


/// Bracket depths while scanning expression tokens.
struct ExprDepth {
    paren: usize,
    bracket: usize,
    brace: usize,
}

impl ExprDepth {
    spec fn view_depth(&self) -> (nat, nat, nat) {
        (self.paren as nat, self.bracket as nat, self.brace as nat)
    }

    spec fn bounded(&self, n: int) -> bool {
        self.paren <= n && self.bracket <= n && self.brace <= n
    }

    fn new() -> (d: Self)
        ensures
            d.view_depth() == (0nat, 0nat, 0nat),
            d.bounded(0),
    {
        ExprDepth { paren: 0, bracket: 0, brace: 0 }
    }

    fn is_top_level(&self) -> (r: bool)
        ensures
            r == top(self.view_depth()),
    {
        self.paren == 0 && self.bracket == 0 && self.brace == 0
    }

    fn observe(&mut self, token: &ExprToken)
        requires
            old(self).paren < usize::MAX && old(self).bracket < usize::MAX && old(self).brace < usize::MAX,
        ensures
            final(self).view_depth() == depth_step(old(self).view_depth(), token.view_tok()),
            forall|n: int| old(self).bounded(n) ==> final(self).bounded(n + 1),
    {
        if let ExprToken::Symbol(c) = token {
            let c = *c;
            if c == '(' {
                self.paren = self.paren + 1;
            } else if c == ')' {
                self.paren = self.paren.saturating_sub(1);
            } else if c == '[' {
                self.bracket = self.bracket + 1;
            } else if c == ']' {
                self.bracket = self.bracket.saturating_sub(1);
            } else if c == '{' {
                self.brace = self.brace + 1;
            } else if c == '}' {
                self.brace = self.brace.saturating_sub(1);
            }
        }
    }
}

/// The index of the `}` matching the `{` at index 1.
fn matching_brace(ts: &Vec<ExprToken>) -> (r: Option<usize>)
    ensures
        r matches Some(k) ==> k < ts@.len(),
        brace_close(etoks_view(ts@), 1, 0) == match r {
            Some(k) => Some(k as int),
            None => None::<int>,
        },
{
    let ghost v = etoks_view(ts@);
    let mut depth: usize = 0;
    let mut k: usize = 1;
    if ts.len() < 1 {
        return None;
    }
    while k < ts.len()
        invariant
            1 <= k <= ts.len(),
            v == etoks_view(ts@),
            depth <= k,
            brace_close(v, 1, 0) == brace_close(v, k as int, depth as nat),
        decreases ts@.len() - k,
    {
        match &ts[k] {
            ExprToken::Symbol(c) => {
                if *c == '{' {
                    depth = depth + 1;
                } else if *c == '}' {
                    if depth <= 1 {
                        return Some(k);
                    }
                    depth = depth - 1;
                }
            },
            _ => {},
        }
        k = k + 1;
    }
    None
}

/// The index of the first top-level `:`.
fn top_level_colon(f: &Vec<ExprToken>) -> (r: Option<usize>)
    ensures
        r matches Some(k) ==> k < f@.len(),
        colon_at(etoks_view(f@), 0, (0, 0, 0)) == match r {
            Some(k) => Some(k as int),
            None => None::<int>,
        },
{
    let ghost v = etoks_view(f@);
    let mut depth = ExprDepth::new();
    let mut k: usize = 0;
    while k < f.len()
        invariant
            k <= f@.len(),
            v == etoks_view(f@),
            depth.bounded(k as int),
            colon_at(v, 0, (0, 0, 0)) == colon_at(v, k as int, depth.view_depth()),
        decreases f@.len() - k,
    {
        let hit = match &f[k] {
            ExprToken::Symbol(c) => *c == ':',
            _ => false,
        };
        if hit && depth.is_top_level() {
            return Some(k);
        }
        depth.observe(&f[k]);
        k = k + 1;
    }
    None
}

/// A struct literal's `name: value`, written as `name=value`.
fn format_struct_field(f: &Vec<ExprToken>, ctx: &CodegenContext) -> (r: Option<Vec<char>>)
    requires
        ctx.wf(),
    ensures
        match field_py(ctx.view_ctx(), etoks_view(f@)) {
            Some(t) => r matches Some(o) && o@ == t,
            None => r is None,
        },
    decreases f@.len(), 3nat,
{
    let colon = match top_level_colon(f) {
        Some(k) => k,
        None => {
            return None;
        },
    };
    if colon != 1 {
        return None;
    }
    let name = match &f[0] {
        ExprToken::Ident(v) => v,
        _ => {
            return None;
        },
    };
    let value = copy_tokens(f, colon + 1, f.len());
    let text = format_expr_tokens(&value, ctx);
    let mut out: Vec<char> = Vec::new();
    push_str(&mut out, name.as_str());
    out.push('=');
    push_chars(&mut out, &text);
    proof {
        assert(out@ =~= name@ + "="@ + text@) by {
            reveal_strlit("=");
        }
    }
    Some(out)
}

/// A struct literal `Name { field: value, ... }` at the start of `ts`, written as a
/// call, and how many tokens it takes.
fn format_struct_literal(ts: &Vec<ExprToken>, ctx: &CodegenContext) -> (r: Option<(Vec<char>, usize)>)
    requires
        ctx.wf(),
    ensures
        match struct_lit(ctx.view_ctx(), etoks_view(ts@)) {
            Some((t, n)) => r matches Some((o, m)) && o@ == t && m == n,
            None => r is None,
        },
    decreases ts@.len(), 1nat,
{
    let ghost v = etoks_view(ts@);
    if ts.len() < 2 {
        return None;
    }
    let name = match &ts[0] {
        ExprToken::Ident(n) => n,
        _ => {
            return None;
        },
    };
    let opens = match &ts[1] {
        ExprToken::Symbol(c) => *c == '{',
        _ => false,
    };
    if !opens || !ctx.is_struct(name) {
        return None;
    }
    let close = match matching_brace(ts) {
        Some(k) => k,
        None => {
            return None;
        },
    };
    if close < 2 {
        return None;
    }
    let mut fields: Vec<Vec<char>> = Vec::new();
    let mut depth = ExprDepth::new();
    let mut start: usize = 2;
    let mut k: usize = 2;
    let ghost c = ctx.view_ctx();
    proof {
        assert(vecs_view(fields@) =~= Seq::<Seq<char>>::empty());
    }
    let ghost whole = struct_lit(c, v);
    assert(whole == match fields_py(c, v, 2, 2, (0, 0, 0), close as int, Seq::empty()) {
        Some(fs) => Some((name@ + "("@ + join(fs, ", "@) + ")"@, close + 1)),
        None => None::<(Seq<char>, int)>,
    });
    while k < close
        invariant
            whole == struct_lit(c, v),
            whole == match fields_py(c, v, 2, 2, (0, 0, 0), close as int, Seq::empty()) {
                Some(fs) => Some((name@ + "("@ + join(fs, ", "@) + ")"@, close + 1)),
                None => None::<(Seq<char>, int)>,
            },
            2 <= start <= k <= close < ts@.len(),
            v == etoks_view(ts@),
            c == ctx.view_ctx(),
            ctx.wf(),
            depth.bounded(k as int),
            fields_py(c, v, 2, 2, (0, 0, 0), close as int, Seq::empty()) == fields_py(
                c,
                v,
                k as int,
                start as int,
                depth.view_depth(),
                close as int,
                vecs_view(fields@),
            ),
        decreases close - k,
    {
        let sep = match &ts[k] {
            ExprToken::Symbol(ch) => *ch == ',',
            _ => false,
        };
        if sep && depth.is_top_level() {
            let f = copy_tokens(ts, start, k);
            match format_struct_field(&f, ctx) {
                Some(text) => {
                    let ghost before = vecs_view(fields@);
                    fields.push(text);
                    proof {
                        assert(vecs_view(fields@) =~= before.push(text@));
                    }
                },
                None => {
                    return None;
                },
            }
            start = k + 1;
        } else {
            depth.observe(&ts[k]);
        }
        k = k + 1;
    }
    if k > start {
        let f = copy_tokens(ts, start, k);
        match format_struct_field(&f, ctx) {
            Some(text) => {
                let ghost before = vecs_view(fields@);
                fields.push(text);
                proof {
                    assert(vecs_view(fields@) =~= before.push(text@));
                }
            },
            None => {
                return None;
            },
        }
    }
    let mut out: Vec<char> = Vec::new();
    push_str(&mut out, name.as_str());
    out.push('(');
    push_join(&mut out, &fields, ", ");
    out.push(')');
    proof {
        reveal_strlit("(");
        reveal_strlit(")");
        assert(out@ =~= name@ + "("@ + join(vecs_view(fields@), ", "@) + ")"@);
    }
    Some((out, close + 1))
}

proof fn lemma_path_len(c: CtxV, ts: Seq<ExprTokV>, i: int)
    requires
        0 <= i < ts.len(),
    ensures
        path_at(c, ts, i) matches Some((t, n)) ==> 1 <= n && i + n <= ts.len(),
{
    lemma_path_rest(ts, i + 1);
}

proof fn lemma_struct_len(c: CtxV, ts: Seq<ExprTokV>)
    ensures
        struct_lit(c, ts) matches Some((t, n)) ==> 1 <= n <= ts.len(),
{
}

/// The tokens of an expression written in Python.
fn format_expr_tokens(ts: &Vec<ExprToken>, ctx: &CodegenContext) -> (r: Vec<char>)
    requires
        ctx.wf(),
    ensures
        r@ == expr_py(ctx.view_ctx(), etoks_view(ts@)),
    decreases ts@.len(), 2nat,
{
    let ghost v = etoks_view(ts@);
    let ghost c = ctx.view_ctx();
    let mut out: Vec<char> = Vec::new();
    let mut i: usize = 0;
    while i < ts.len()
        invariant
            i <= ts@.len(),
            v == etoks_view(ts@),
            c == ctx.view_ctx(),
            ctx.wf(),
            expr_from(c, v, 0, Seq::empty()) == expr_from(c, v, i as int, out@),
        decreases ts@.len() - i,
    {
        proof {
            lemma_path_len(c, v, i as int);
        }
        match map_namespace_expr(ts, i, ctx) {
            Some((text, n)) => {
                append_atom(&mut out, &text);
                i = i + n;
            },
            None => {
                let rest = copy_tokens(ts, i, ts.len());
                proof {
                    lemma_struct_len(c, etoks_view(rest@));
                }
                match format_struct_literal(&rest, ctx) {
                    Some((text, n)) => {
                        append_atom(&mut out, &text);
                        i = i + n;
                    },
                    None => {
                        append_token(&mut out, &ts[i]);
                        i = i + 1;
                    },
                }
            },
        }
    }
    trim_text(&out)
}

/// An expression written in Python.
fn format_expr(expr: &Expr, ctx: &CodegenContext) -> (r: Vec<char>)
    requires
        ctx.wf(),
    ensures
        r@ == expr_py(ctx.view_ctx(), expr.view_expr()),
{
    format_expr_tokens(&expr.tokens, ctx)
}


// ---------------------------------------------------------------------------------
// Statements

/// One comment line: `#`, then the trimmed text after a space if there is any.
pub open spec fn comment_line(l: Seq<char>) -> Seq<char> {
    if trim(l).len() == 0 {
        seq!['#']
    } else {
        seq!['#', ' '] + trim(l)
    }
}

/// A comment's lines as Python comments; an empty comment is a lone `#`.
pub open spec fn comment_lines(t: Seq<char>) -> Seq<Seq<char>> {
    if str_lines(t).len() == 0 {
        seq![seq!['#']]
    } else {
        str_lines(t).map_values(|l: Seq<char>| comment_line(l))
    }
}

/// Each line behind the indentation `pre`.
pub open spec fn indented(pre: Seq<char>, ls: Seq<Seq<char>>) -> Seq<Seq<char>> {
    ls.map_values(|l: Seq<char>| pre + l)
}

/// The indentation one level deeper than `pre`.
pub open spec fn deeper(pre: Seq<char>) -> Seq<char> {
    pre + "    "@
}

/// A parameter written in Python, with its default after `=`.
pub open spec fn param_py(c: CtxV, p: FunctionParam) -> Seq<char> {
    match p.default {
        Some(d) => p.name@ + seq!['='] + expr_py(c, d.view_expr()),
        None => p.name@,
    }
}

/// Whether a block holds a statement other than comments and no-ops.
pub open spec fn has_code(b: Seq<Stmt>) -> bool {
    exists|i: int| 0 <= i < b.len() && !(b[i] is Comment || b[i] is Noop)
}

/// The `for ... in range(...)` header of a counted loop.
pub open spec fn range_py(start: Seq<char>, end: Seq<char>) -> Seq<char> {
    if start == seq!['0'] {
        "range("@ + end + ")"@
    } else {
        "range("@ + start + ", "@ + end + ")"@
    }
}

/// A counted loop `for v in a..b` runs over the same values in Python: its header is
/// `for v in range(A, B):` with the start `A` first and the end `B` second, or
/// `for v in range(B):` when the start is `0`; the body follows it.
pub proof fn lemma_counted_loop_keeps_its_bounds(c: CtxV, s: Stmt, pre: Seq<char>)
    requires
        s is For,
    ensures
        match s {
            Stmt::For { variable, start, end, body } => {
                let a = expr_py(c, start.view_expr());
                let b = expr_py(c, end.view_expr());
                let bounds = if a == seq!['0'] { b } else { a + seq![',', ' '] + b };
                &&& stmt_lines(c, s, pre)[0] == pre + "for "@ + variable@ + " in "@ + "range("@ + bounds + ")"@ + seq![':']
                &&& stmt_lines(c, s, pre).subrange(1, stmt_lines(c, s, pre).len() as int) == block_lines(c, body@, deeper(pre))
            },
            _ => true,
        },
{
    reveal_strlit(", ");
    match s {
        Stmt::For { variable, start, end, body } => {
            let a = expr_py(c, start.view_expr());
            let b = expr_py(c, end.view_expr());
            assert(", "@ =~= seq![',', ' ']);
            assert("range("@ + a + ", "@ + b + ")"@ =~= "range("@ + (a + seq![',', ' '] + b) + ")"@);
            let h = pre + "for "@ + variable@ + " in "@ + range_py(a, b) + seq![':'];
            assert(h == pre + "for "@ + variable@ + " in "@ + "range("@ + (if a == seq!['0'] { b } else { a + seq![',', ' '] + b }) + ")"@ + seq![':']) by {
                assert(pre + "for "@ + variable@ + " in "@ + ("range("@ + (if a == seq!['0'] { b } else { a + seq![',', ' '] + b }) + ")"@) + seq![':']
                    =~= pre + "for "@ + variable@ + " in "@ + "range("@ + (if a == seq!['0'] { b } else { a + seq![',', ' '] + b }) + ")"@ + seq![':']);
            }
            assert((seq![h] + block_lines(c, body@, deeper(pre))).subrange(1, 1 + block_lines(c, body@, deeper(pre)).len() as int)
                =~= block_lines(c, body@, deeper(pre)));
        },
        _ => {},
    }
}

/// The lines of one statement at indentation `pre`.
pub open spec fn stmt_lines(c: CtxV, s: Stmt, pre: Seq<char>) -> Seq<Seq<char>>
    decreases s, 0nat,
{
    match s {
        Stmt::Noop => Seq::empty(),
        Stmt::Comment(t) => indented(pre, comment_lines(t@)),
        Stmt::Function(f) => function_lines(c, f, pre),
        Stmt::Loop(body) => seq![pre + "while True:"@] + block_lines(c, body@, deeper(pre)),
        Stmt::While { condition, body } => seq![pre + "while "@ + expr_py(c, condition.view_expr()) + seq![':']]
            + block_lines(c, body@, deeper(pre)),
        Stmt::If { condition, then_body, else_branch } => seq![pre + "if "@ + expr_py(c, condition.view_expr()) + seq![':']]
            + block_lines(c, then_body@, deeper(pre)) + match else_branch {
            Some(e) => else_lines(c, e, pre),
            None => Seq::empty(),
        },
        Stmt::For { variable, start, end, body } => seq![pre + "for "@ + variable@ + " in "@
            + range_py(expr_py(c, start.view_expr()), expr_py(c, end.view_expr())) + seq![':']]
            + block_lines(c, body@, deeper(pre)),
        Stmt::ForEach { variable, iterable, body } => seq![pre + "for "@ + variable@ + " in "@
            + expr_py(c, iterable.view_expr()) + seq![':']] + block_lines(c, body@, deeper(pre)),
        Stmt::Let { name, value } => seq![pre + name@ + " = "@ + expr_py(c, value.view_expr())],
        Stmt::Assign { target, value } => seq![pre + expr_py(c, target.view_expr()) + " = "@ + expr_py(c, value.view_expr())],
        Stmt::Expr(e) => seq![pre + expr_py(c, e.view_expr())],
        Stmt::Break => seq![pre + "break"@],
        Stmt::Continue => seq![pre + "continue"@],
        Stmt::Return(None) => seq![pre + "return"@],
        Stmt::Return(Some(e)) => seq![pre + "return "@ + expr_py(c, e.view_expr())],
    }
}

/// The lines of an `elif` or `else` part at indentation `pre`.
pub open spec fn else_lines(c: CtxV, e: ElseBranch, pre: Seq<char>) -> Seq<Seq<char>>
    decreases e, 0nat,
{
    match e {
        ElseBranch::ElseIf { condition, then_body, else_branch } => seq![pre + "elif "@ + expr_py(c, condition.view_expr()) + seq![':']]
            + block_lines(c, then_body@, deeper(pre)) + match else_branch {
            Some(b) => else_lines(c, *b, pre),
            None => Seq::empty(),
        },
        ElseBranch::Else(body) => seq![pre + "else:"@] + block_lines(c, body@, deeper(pre)),
    }
}

/// The lines of a function definition at indentation `pre`.
pub open spec fn function_lines(c: CtxV, f: Function, pre: Seq<char>) -> Seq<Seq<char>>
    decreases f, 0nat,
{
    seq![pre + "def "@ + f.name@ + seq!['('] + join(f.params@.map_values(|p: FunctionParam| param_py(c, p)), ", "@) + "):"@]
        + block_lines(c, f.body@, deeper(pre))
}

/// The lines of statements, one after another.
pub open spec fn stmts_lines(c: CtxV, b: Seq<Stmt>, pre: Seq<char>) -> Seq<Seq<char>>
    decreases b, 0nat,
{
    if b.len() == 0 {
        Seq::empty()
    } else {
        stmt_lines(c, b[0], pre) + stmts_lines(c, b.subrange(1, b.len() as int), pre)
    }
}

/// The lines of a block; one with no code gets a `pass`.
pub open spec fn block_lines(c: CtxV, b: Seq<Stmt>, pre: Seq<char>) -> Seq<Seq<char>>
    decreases b, 1nat,
{
    stmts_lines(c, b, pre) + if has_code(b) {
        Seq::empty()
    } else {
        seq![pre + "pass"@]
    }
}


/// One comment line as Python.
fn format_comment_line(l: &Vec<char>) -> (r: Vec<char>)
    ensures
        r@ == comment_line(l@),
{
    let t = trim_text(l);
    let mut r: Vec<char> = Vec::new();
    r.push('#');
    if t.len() > 0 {
        r.push(' ');
        push_chars(&mut r, &t);
    }
    proof {
        if t.len() > 0 {
            assert(r@ =~= seq!['#', ' '] + t@);
        } else {
            assert(r@ =~= seq!['#']);
        }
    }
    r
}

/// A comment's lines as Python comments.
fn format_comment_lines(text: &String) -> (r: Vec<Vec<char>>)
    ensures
        vecs_view(r@) == comment_lines(text@),
{
    let t = chars_of(text.as_str());
    let mut out: Vec<Vec<char>> = Vec::new();
    let mut cur: Vec<char> = Vec::new();
    let mut i: usize = 0;
    proof {
        assert(t@.subrange(0, 0) =~= Seq::<char>::empty());
        assert(vecs_view(out@) =~= segments(Seq::<char>::empty()).drop_last().map_values(|l: Seq<char>| comment_line(l)));
    }
    while i < t.len()
        invariant
            i <= t@.len(),
            t@ == text@,
            segments(t@.subrange(0, i as int)).len() >= 1,
            vecs_view(out@) == segments(t@.subrange(0, i as int)).drop_last().map_values(|l: Seq<char>| comment_line(l)),
            cur@ == segments(t@.subrange(0, i as int)).last(),
        decreases t@.len() - i,
    {
        let ghost pre = t@.subrange(0, i as int);
        let ghost next = t@.subrange(0, i + 1);
        proof {
            assert(next.drop_last() =~= pre);
            assert(next.last() == t@[i as int]);
            lemma_segments_len(pre);
        }
        let c = t[i];
        if c == '\n' {
            let l = format_comment_line(&cur);
            let ghost before = vecs_view(out@);
            out.push(l);
            cur = Vec::new();
            proof {
                assert(segments(next) == segments(pre).push(Seq::empty()));
                assert(vecs_view(out@) =~= before.push(comment_line(segments(pre).last())));
                assert(segments(next).drop_last() =~= segments(pre));
                assert(segments(pre) =~= segments(pre).drop_last().push(segments(pre).last()));
                assert(vecs_view(out@) =~= segments(next).drop_last().map_values(|l: Seq<char>| comment_line(l)));
                assert(cur@ =~= segments(next).last());
            }
        } else {
            cur.push(c);
            proof {
                let sp = segments(pre);
                assert(segments(next) == sp.update(sp.len() - 1, sp.last().push(c)));
                assert(segments(next).drop_last() =~= sp.drop_last());
            }
        }
        i = i + 1;
    }
    proof {
        assert(t@.subrange(0, t@.len() as int) =~= t@);
    }
    if cur.len() > 0 {
        let l = format_comment_line(&cur);
        let ghost before = vecs_view(out@);
        out.push(l);
        proof {
            let sg = segments(t@);
            lemma_segments_len(t@);
            assert(vecs_view(out@) =~= before.push(comment_line(sg.last())));
            assert(sg.map_values(|l: Seq<char>| comment_line(l)) =~= sg.drop_last().map_values(|l: Seq<char>| comment_line(l)).push(comment_line(sg.last())));
        }
    }
    if out.len() == 0 {
        let mut hash: Vec<char> = Vec::new();
        hash.push('#');
        out.push(hash);
        proof {
            assert(vecs_view(out@) =~= seq![seq!['#']]);
        }
    }
    out
}

proof fn lemma_stmts_lines_push(c: CtxV, b: Seq<Stmt>, s: Stmt, pre: Seq<char>)
    ensures
        stmts_lines(c, b.push(s), pre) == stmts_lines(c, b, pre) + stmt_lines(c, s, pre),
    decreases b.len(),
{
    if b.len() == 0 {
        assert(b.push(s).subrange(1, 1) =~= Seq::<Stmt>::empty());
        assert(stmts_lines(c, Seq::<Stmt>::empty(), pre) == Seq::<Seq<char>>::empty());
        assert(b.push(s)[0] == s);
        assert(stmts_lines(c, b, pre) == Seq::<Seq<char>>::empty());
        assert(stmts_lines(c, b.push(s), pre) =~= stmt_lines(c, s, pre));
    } else {
        let rest = b.subrange(1, b.len() as int);
        lemma_stmts_lines_push(c, rest, s, pre);
        assert(b.push(s).subrange(1, b.len() as int + 1) =~= rest.push(s));
        assert(b.push(s)[0] == b[0]);
        assert(stmts_lines(c, b.push(s), pre) =~= stmts_lines(c, b, pre) + stmt_lines(c, s, pre));
    }
}

/// `pre` followed by `text`, as a new line.
fn line_of(pre: &Vec<char>, text: &str) -> (r: Vec<char>)
    ensures
        r@ == pre@ + text@,
{
    let mut l = copy_chars(pre, 0, pre.len());
    proof {
        assert(pre@.subrange(0, pre@.len() as int) =~= pre@);
    }
    push_str(&mut l, text);
    l
}

/// The indentation one level deeper.
fn deeper_prefix(pre: &Vec<char>) -> (r: Vec<char>)
    ensures
        r@ == deeper(pre@),
{
    line_of(pre, "    ")
}

/// Whether a block holds a statement other than comments and no-ops.
fn block_has_code(body: &Vec<Stmt>) -> (r: bool)
    ensures
        r == has_code(body@),
{
    let mut i: usize = 0;
    while i < body.len()
        invariant
            i <= body@.len(),
            forall|k: int| 0 <= k < i ==> (body@[k] is Comment || body@[k] is Noop),
        decreases body@.len() - i,
    {
        match &body[i] {
            Stmt::Comment(_) => {},
            Stmt::Noop => {},
            _ => {
                return true;
            },
        }
        i = i + 1;
    }
    false
}

/// A parameter written in Python.
fn format_param(p: &FunctionParam, ctx: &CodegenContext) -> (r: Vec<char>)
    requires
        ctx.wf(),
    ensures
        r@ == param_py(ctx.view_ctx(), *p),
{
    let mut out = chars_of(p.name.as_str());
    match &p.default {
        Some(d) => {
            out.push('=');
            let v = format_expr(d, ctx);
            push_chars(&mut out, &v);
            proof {
                assert(out@ =~= p.name@ + seq!['='] + v@);
            }
        },
        None => {},
    }
    out
}

/// Appends `pre` + each line of `ls`.
fn push_indented(lines: &mut Vec<Vec<char>>, pre: &Vec<char>, ls: &Vec<Vec<char>>)
    ensures
        vecs_view(final(lines)@) == vecs_view(old(lines)@) + indented(pre@, vecs_view(ls@)),
{
    let ghost start = vecs_view(lines@);
    let mut i: usize = 0;
    while i < ls.len()
        invariant
            i <= ls@.len(),
            vecs_view(lines@) == start + indented(pre@, vecs_view(ls@.subrange(0, i as int))),
        decreases ls@.len() - i,
    {
        let mut l = copy_chars(pre, 0, pre.len());
        push_chars(&mut l, &ls[i]);
        let ghost before = vecs_view(lines@);
        lines.push(l);
        proof {
            assert(pre@.subrange(0, pre@.len() as int) =~= pre@);
            assert(vecs_view(lines@) =~= before.push(pre@ + ls@[i as int]@));
            assert(indented(pre@, vecs_view(ls@.subrange(0, i + 1))) =~= indented(pre@, vecs_view(ls@.subrange(0, i as int))).push(pre@ + ls@[i as int]@));
        }
        i = i + 1;
    }
    proof {
        assert(ls@.subrange(0, ls@.len() as int) =~= ls@);
    }
}

/// Appends one line.
fn push_line(lines: &mut Vec<Vec<char>>, l: Vec<char>)
    ensures
        vecs_view(final(lines)@) == vecs_view(old(lines)@).push(l@),
{
    let ghost before = vecs_view(lines@);
    lines.push(l);
    proof {
        assert(vecs_view(lines@) =~= before.push(l@));
    }
}

/// Appends the lines of a block.
fn emit_block(lines: &mut Vec<Vec<char>>, body: &Vec<Stmt>, pre: &Vec<char>, ctx: &CodegenContext)
    requires
        ctx.wf(),
    ensures
        vecs_view(final(lines)@) == vecs_view(old(lines)@) + block_lines(ctx.view_ctx(), body@, pre@),
    decreases body@, 1nat,
{
    let ghost start = vecs_view(lines@);
    let ghost c = ctx.view_ctx();
    let mut i: usize = 0;
    proof {
        assert(body@.subrange(0, 0) =~= Seq::<Stmt>::empty());
        assert(start + stmts_lines(c, body@.subrange(0, 0), pre@) =~= start);
    }
    while i < body.len()
        invariant
            i <= body@.len(),
            c == ctx.view_ctx(),
            ctx.wf(),
            vecs_view(lines@) == start + stmts_lines(c, body@.subrange(0, i as int), pre@),
        decreases body@.len() - i,
    {
        emit_stmt(lines, &body[i], pre, ctx);
        proof {
            lemma_stmts_lines_push(c, body@.subrange(0, i as int), body@[i as int], pre@);
            assert(body@.subrange(0, i + 1) =~= body@.subrange(0, i as int).push(body@[i as int]));
        }
        i = i + 1;
    }
    proof {
        assert(body@.subrange(0, body@.len() as int) =~= body@);
    }
    if !block_has_code(body) {
        push_line(lines, line_of(pre, "pass"));
    }
    proof {
        assert(vecs_view(lines@) =~= start + block_lines(c, body@, pre@));
    }
}

/// Appends the lines of a function definition.
fn emit_function(lines: &mut Vec<Vec<char>>, function: &Function, pre: &Vec<char>, ctx: &CodegenContext)
    requires
        ctx.wf(),
    ensures
        vecs_view(final(lines)@) == vecs_view(old(lines)@) + function_lines(ctx.view_ctx(), *function, pre@),
    decreases *function, 0nat,
{
    let ghost c = ctx.view_ctx();
    let mut params: Vec<Vec<char>> = Vec::new();
    let mut i: usize = 0;
    while i < function.params.len()
        invariant
            i <= function.params@.len(),
            ctx.wf(),
            c == ctx.view_ctx(),
            vecs_view(params@) == function.params@.subrange(0, i as int).map_values(|p: FunctionParam| param_py(c, p)),
        decreases function.params@.len() - i,
    {
        let p = format_param(&function.params[i], ctx);
        let ghost before = vecs_view(params@);
        let ghost pv = p@;
        params.push(p);
        proof {
            assert(vecs_view(params@) =~= before.push(pv));
            assert(function.params@.subrange(0, i + 1).map_values(|p: FunctionParam| param_py(c, p)) =~= function.params@.subrange(0, i as int).map_values(|p: FunctionParam| param_py(c, p)).push(param_py(c, function.params@[i as int])));
            assert(vecs_view(params@) =~= function.params@.subrange(0, i + 1).map_values(|p: FunctionParam| param_py(c, p)));
        }
        i = i + 1;
    }
    proof {
        assert(function.params@.subrange(0, function.params@.len() as int) =~= function.params@);
    }
    let mut head = line_of(pre, "def ");
    push_str(&mut head, function.name.as_str());
    head.push('(');
    push_join(&mut head, &params, ", ");
    push_str(&mut head, "):");
    let ghost start = vecs_view(lines@);
    push_line(lines, head);
    let inner = deeper_prefix(pre);
    emit_block(lines, &function.body, &inner, ctx);
    proof {
        assert(head@ =~= pre@ + "def "@ + function.name@ + seq!['('] + join(function.params@.map_values(|p: FunctionParam| param_py(c, p)), ", "@) + "):"@);
        assert(vecs_view(lines@) =~= start + function_lines(c, *function, pre@));
    }
}

/// Appends the lines of an `elif` or `else` part.
fn emit_else_branch(lines: &mut Vec<Vec<char>>, e: &ElseBranch, pre: &Vec<char>, ctx: &CodegenContext)
    requires
        ctx.wf(),
    ensures
        vecs_view(final(lines)@) == vecs_view(old(lines)@) + else_lines(ctx.view_ctx(), *e, pre@),
    decreases *e, 0nat,
{
    let ghost c = ctx.view_ctx();
    let ghost start = vecs_view(lines@);
    let inner = deeper_prefix(pre);
    match e {
        ElseBranch::ElseIf { condition, then_body, else_branch } => {
            let mut head = line_of(pre, "elif ");
            let cond = format_expr(condition, ctx);
            push_chars(&mut head, &cond);
            head.push(':');
            push_line(lines, head);
            emit_block(lines, then_body, &inner, ctx);
            let ghost mid = vecs_view(lines@);
            match else_branch {
                Some(b) => {
                    emit_else_branch(lines, b, pre, ctx);
                },
                None => {},
            }
            proof {
                assert(head@ =~= pre@ + "elif "@ + cond@ + seq![':']);
                assert(vecs_view(lines@) =~= start + else_lines(c, *e, pre@));
            }
        },
        ElseBranch::Else(body) => {
            push_line(lines, line_of(pre, "else:"));
            emit_block(lines, body, &inner, ctx);
            proof {
                assert(vecs_view(lines@) =~= start + else_lines(c, *e, pre@));
            }
        },
    }
}

/// A line made of `pre`, `a`, an expression and `b`.
fn expr_line(pre: &Vec<char>, a: &str, e: &Vec<char>, b: &str) -> (r: Vec<char>)
    ensures
        r@ == pre@ + a@ + e@ + b@,
{
    let mut l = line_of(pre, a);
    push_chars(&mut l, e);
    push_str(&mut l, b);
    l
}

/// Appends the lines of one statement.
#[verifier::rlimit(100)]
#[verifier::spinoff_prover]
fn emit_stmt(lines: &mut Vec<Vec<char>>, stmt: &Stmt, pre: &Vec<char>, ctx: &CodegenContext)
    requires
        ctx.wf(),
    ensures
        vecs_view(final(lines)@) == vecs_view(old(lines)@) + stmt_lines(ctx.view_ctx(), *stmt, pre@),
    decreases *stmt, 0nat,
{
    let ghost c = ctx.view_ctx();
    let ghost start = vecs_view(lines@);
    match stmt {
        Stmt::Noop => {
            proof {
                assert(vecs_view(lines@) =~= start + stmt_lines(c, *stmt, pre@));
            }
        },
        Stmt::Comment(text) => {
            let ls = format_comment_lines(text);
            push_indented(lines, pre, &ls);
        },
        Stmt::Function(f) => {
            emit_function(lines, f, pre, ctx);
        },
        Stmt::Loop(body) => {
            push_line(lines, line_of(pre, "while True:"));
            let inner = deeper_prefix(pre);
            emit_block(lines, body, &inner, ctx);
            proof {
                assert(vecs_view(lines@) =~= start + stmt_lines(c, *stmt, pre@));
            }
        },
        Stmt::While { condition, body } => {
            let cond = format_expr(condition, ctx);
            let head = expr_line(pre, "while ", &cond, ":");
            proof {
                reveal_strlit(":");
                assert(head@ =~= pre@ + "while "@ + cond@ + seq![':']);
            }
            push_line(lines, head);
            let inner = deeper_prefix(pre);
            emit_block(lines, body, &inner, ctx);
            proof {
                assert(vecs_view(lines@) =~= start + stmt_lines(c, *stmt, pre@));
            }
        },
        Stmt::If { condition, then_body, else_branch } => {
            let cond = format_expr(condition, ctx);
            let head = expr_line(pre, "if ", &cond, ":");
            proof {
                reveal_strlit(":");
                assert(head@ =~= pre@ + "if "@ + cond@ + seq![':']);
            }
            push_line(lines, head);
            let inner = deeper_prefix(pre);
            emit_block(lines, then_body, &inner, ctx);
            match else_branch {
                Some(e) => {
                    emit_else_branch(lines, e, pre, ctx);
                },
                None => {},
            }
            proof {
                assert(vecs_view(lines@) =~= start + stmt_lines(c, *stmt, pre@));
            }
        },
        Stmt::For { variable, start: from, end, body } => {
            let a = format_expr(from, ctx);
            let b = format_expr(end, ctx);
            let mut head = line_of(pre, "for ");
            push_str(&mut head, variable.as_str());
            push_str(&mut head, " in ");
            push_str(&mut head, "range(");
            if a.len() == 1 && a[0] == '0' {
                push_chars(&mut head, &b);
                push_str(&mut head, ")");
                proof {
                    assert(a@ =~= seq!['0']);
                }
            } else {
                push_chars(&mut head, &a);
                push_str(&mut head, ", ");
                push_chars(&mut head, &b);
                push_str(&mut head, ")");
                proof {
                    assert(a@ != seq!['0']);
                }
            }
            head.push(':');
            proof {
                assert(head@ =~= pre@ + "for "@ + variable@ + " in "@ + range_py(a@, b@) + seq![':']);
            }
            push_line(lines, head);
            let inner = deeper_prefix(pre);
            emit_block(lines, body, &inner, ctx);
            proof {
                assert(vecs_view(lines@) =~= start + stmt_lines(c, *stmt, pre@));
            }
        },
        Stmt::ForEach { variable, iterable, body } => {
            let it = format_expr(iterable, ctx);
            let mut head = line_of(pre, "for ");
            push_str(&mut head, variable.as_str());
            push_str(&mut head, " in ");
            push_chars(&mut head, &it);
            head.push(':');
            proof {
                assert(head@ =~= pre@ + "for "@ + variable@ + " in "@ + it@ + seq![':']);
            }
            push_line(lines, head);
            let inner = deeper_prefix(pre);
            emit_block(lines, body, &inner, ctx);
            proof {
                assert(vecs_view(lines@) =~= start + stmt_lines(c, *stmt, pre@));
            }
        },
        Stmt::Let { name, value } => {
            let v = format_expr(value, ctx);
            let mut l = line_of(pre, name.as_str());
            push_str(&mut l, " = ");
            push_chars(&mut l, &v);
            push_line(lines, l);
            proof {
                assert(vecs_view(lines@) =~= start + stmt_lines(c, *stmt, pre@));
            }
        },
        Stmt::Assign { target, value } => {
            let t = format_expr(target, ctx);
            let v = format_expr(value, ctx);
            let mut l = copy_chars(pre, 0, pre.len());
            push_chars(&mut l, &t);
            push_str(&mut l, " = ");
            push_chars(&mut l, &v);
            push_line(lines, l);
            proof {
                assert(pre@.subrange(0, pre@.len() as int) =~= pre@);
                assert(vecs_view(lines@) =~= start + stmt_lines(c, *stmt, pre@));
            }
        },
        Stmt::Expr(e) => {
            let v = format_expr(e, ctx);
            let mut l = copy_chars(pre, 0, pre.len());
            push_chars(&mut l, &v);
            push_line(lines, l);
            proof {
                assert(pre@.subrange(0, pre@.len() as int) =~= pre@);
                assert(vecs_view(lines@) =~= start + stmt_lines(c, *stmt, pre@));
            }
        },
        Stmt::Break => {
            push_line(lines, line_of(pre, "break"));
            proof {
                assert(vecs_view(lines@) =~= start + stmt_lines(c, *stmt, pre@));
            }
        },
        Stmt::Continue => {
            push_line(lines, line_of(pre, "continue"));
            proof {
                assert(vecs_view(lines@) =~= start + stmt_lines(c, *stmt, pre@));
            }
        },
        Stmt::Return(None) => {
            push_line(lines, line_of(pre, "return"));
            proof {
                assert(vecs_view(lines@) =~= start + stmt_lines(c, *stmt, pre@));
            }
        },
        Stmt::Return(Some(e)) => {
            let v = format_expr(e, ctx);
            let mut l = line_of(pre, "return ");
            push_chars(&mut l, &v);
            push_line(lines, l);
            proof {
                assert(vecs_view(lines@) =~= start + stmt_lines(c, *stmt, pre@));
            }
        },
    }
}


// ---------------------------------------------------------------------------------
// Programs

/// The context of a program: its items' `::` paths with their Python names, and its
/// struct names.
pub open spec fn ctx_of(p: Program) -> CtxV {
    CtxV {
        keys: p.namespace_aliases@.map_values(|a: NamespaceAlias| join(strings_view(a.path@), "::"@)),
        outputs: p.namespace_aliases@.map_values(|a: NamespaceAlias| a.output@),
        structs: p.struct_factories@.map_values(|f: StructFactory| f.name@),
    }
}

/// A constant written as `NAME = "value"`.
pub open spec fn const_line(k: Constant) -> Seq<char> {
    k.name@ + " = "@ + debug_quote(k.value@)
}

/// A struct factory: a function with one `None`-defaulted parameter per field that
/// returns a dict of them.
pub open spec fn factory_lines(f: StructFactory) -> Seq<Seq<char>> {
    let names = strings_view(f.fields@);
    seq!["def "@ + f.name@ + seq!['('] + join(names.map_values(|x: Seq<char>| x + "=None"@), ", "@) + "):"@]
        + if names.len() == 0 {
        seq!["    return dict()"@]
    } else {
        seq!["    return {"@ + join(names.map_values(|x: Seq<char>| debug_quote(x) + ": "@ + x), ", "@) + seq!['}']]
    }
}

/// The factories, each followed by an empty line.
pub open spec fn factories_lines(fs: Seq<StructFactory>) -> Seq<Seq<char>>
    decreases fs.len(),
{
    if fs.len() == 0 {
        Seq::empty()
    } else {
        factories_lines(fs.drop_last()) + factory_lines(fs.last()) + seq![Seq::<char>::empty()]
    }
}

/// The functions, each followed by an empty line.
pub open spec fn functions_lines(c: CtxV, fs: Seq<Function>) -> Seq<Seq<char>>
    decreases fs.len(),
{
    if fs.len() == 0 {
        Seq::empty()
    } else {
        functions_lines(c, fs.drop_last()) + function_lines(c, fs.last(), Seq::empty()) + seq![Seq::<char>::empty()]
    }
}

/// All lines of a program: constants, an empty line when other definitions follow
/// them, factories, functions, then the body of `main` at the top level.
pub open spec fn program_lines(p: Program) -> Seq<Seq<char>> {
    let c = ctx_of(p);
    p.constants@.map_values(|k: Constant| const_line(k)) + (if p.constants@.len() > 0 && (p.struct_factories@.len() > 0
        || p.functions@.len() > 0) {
        seq![Seq::<char>::empty()]
    } else {
        Seq::empty()
    }) + factories_lines(p.struct_factories@) + functions_lines(c, p.functions@) + block_lines(c, p.main@, Seq::empty())
}

/// `ls` without its trailing empty lines.
pub open spec fn drop_blank_tail(ls: Seq<Seq<char>>) -> Seq<Seq<char>>
    decreases ls.len(),
{
    if ls.len() > 0 && ls.last().len() == 0 {
        drop_blank_tail(ls.drop_last())
    } else {
        ls
    }
}

/// The Python text of a program: its lines, trailing empty ones dropped, each ended by
/// a line break.
pub open spec fn generate_spec(p: Program) -> Seq<char> {
    join(drop_blank_tail(program_lines(p)), "\n"@) + seq!['\n']
}

impl CodegenContext {
    fn new(program: &Program) -> (c: Self)
        ensures
            c.wf(),
            c.view_ctx() == ctx_of(*program),
    {
        let mut keys: Vec<Vec<char>> = Vec::new();
        let mut outputs: Vec<String> = Vec::new();
        let mut i: usize = 0;
        while i < program.namespace_aliases.len()
            invariant
                i <= program.namespace_aliases@.len(),
                keys@.len() == i && outputs@.len() == i,
                forall|k: int| 0 <= k < i ==> #[trigger] keys@[k]@ == join(strings_view(program.namespace_aliases@[k].path@), "::"@),
                forall|k: int| 0 <= k < i ==> #[trigger] outputs@[k]@ == program.namespace_aliases@[k].output@,
            decreases program.namespace_aliases@.len() - i,
        {
            let alias = &program.namespace_aliases[i];
            let mut key: Vec<char> = Vec::new();
            push_join_strings(&mut key, &alias.path, "::");
            proof {
                assert(key@ =~= join(strings_view(alias.path@), "::"@));
            }
            keys.push(key);
            outputs.push(alias.output.clone());
            i = i + 1;
        }
        let mut structs: Vec<String> = Vec::new();
        let mut j: usize = 0;
        while j < program.struct_factories.len()
            invariant
                j <= program.struct_factories@.len(),
                structs@.len() == j,
                forall|k: int| 0 <= k < j ==> #[trigger] structs@[k]@ == program.struct_factories@[k].name@,
            decreases program.struct_factories@.len() - j,
        {
            structs.push(program.struct_factories[j].name.clone());
            j = j + 1;
        }
        let c = CodegenContext { keys, outputs, structs };
        proof {
            assert(c.view_ctx().keys =~= ctx_of(*program).keys);
            assert(c.view_ctx().outputs =~= ctx_of(*program).outputs);
            assert(c.view_ctx().structs =~= ctx_of(*program).structs);
        }
        c
    }
}

/// Appends the lines of a struct factory.
fn emit_struct_factory(lines: &mut Vec<Vec<char>>, factory: &StructFactory)
    ensures
        vecs_view(final(lines)@) == vecs_view(old(lines)@) + factory_lines(*factory),
{
    let ghost names = strings_view(factory.fields@);
    let mut params: Vec<Vec<char>> = Vec::new();
    let mut entries: Vec<Vec<char>> = Vec::new();
    let mut i: usize = 0;
    while i < factory.fields.len()
        invariant
            i <= factory.fields@.len(),
            names == strings_view(factory.fields@),
            vecs_view(params@) == names.subrange(0, i as int).map_values(|x: Seq<char>| x + "=None"@),
            vecs_view(entries@) == names.subrange(0, i as int).map_values(|x: Seq<char>| debug_quote(x) + ": "@ + x),
        decreases factory.fields@.len() - i,
    {
        let field = chars_of(factory.fields[i].as_str());
        let mut p = copy_chars(&field, 0, field.len());
        push_str(&mut p, "=None");
        let mut e: Vec<char> = Vec::new();
        push_debug_quoted(&mut e, &field);
        push_str(&mut e, ": ");
        push_chars(&mut e, &field);
        let ghost bp = vecs_view(params@);
        let ghost be = vecs_view(entries@);
        let ghost pv = p@;
        let ghost ev = e@;
        params.push(p);
        entries.push(e);
        proof {
            assert(field@.subrange(0, field@.len() as int) =~= field@);
            assert(names[i as int] == field@);
            assert(vecs_view(params@) =~= bp.push(pv));
            assert(vecs_view(entries@) =~= be.push(ev));
            assert(names.subrange(0, i + 1).map_values(|x: Seq<char>| x + "=None"@) =~= names.subrange(0, i as int).map_values(|x: Seq<char>| x + "=None"@).push(field@ + "=None"@));
            assert(names.subrange(0, i + 1).map_values(|x: Seq<char>| debug_quote(x) + ": "@ + x) =~= names.subrange(0, i as int).map_values(|x: Seq<char>| debug_quote(x) + ": "@ + x).push(debug_quote(field@) + ": "@ + field@));
        }
        i = i + 1;
    }
    proof {
        assert(names.subrange(0, names.len() as int) =~= names);
    }
    let ghost start = vecs_view(lines@);
    let mut head: Vec<char> = Vec::new();
    push_str(&mut head, "def ");
    push_str(&mut head, factory.name.as_str());
    head.push('(');
    push_join(&mut head, &params, ", ");
    push_str(&mut head, "):");
    proof {
        assert(head@ =~= "def "@ + factory.name@ + seq!['('] + join(names.map_values(|x: Seq<char>| x + "=None"@), ", "@) + "):"@);
        assert(names.len() == factory.fields@.len());
    }
    let ghost hv = head@;
    push_line(lines, head);
    if factory.fields.len() == 0 {
        let mut body: Vec<char> = Vec::new();
        push_str(&mut body, "    return dict()");
        push_line(lines, body);
        proof {
            assert(body@ =~= "    return dict()"@);
            assert(vecs_view(lines@) =~= start + seq![hv] + seq!["    return dict()"@]);
        }
    } else {
        let mut body: Vec<char> = Vec::new();
        push_str(&mut body, "    return {");
        push_join(&mut body, &entries, ", ");
        body.push('}');
        let ghost bv = body@;
        push_line(lines, body);
        proof {
            assert(bv =~= "    return {"@ + join(names.map_values(|x: Seq<char>| debug_quote(x) + ": "@ + x), ", "@) + seq!['}']);
            assert(vecs_view(lines@) =~= start + seq![hv] + seq![bv]);
        }
    }
    proof {
        assert(vecs_view(lines@) =~= start + factory_lines(*factory));
    }
}

/// Drops the trailing empty lines.
fn drop_trailing_blank_lines(lines: &mut Vec<Vec<char>>)
    ensures
        vecs_view(final(lines)@) == drop_blank_tail(vecs_view(old(lines)@)),
{
    while lines.len() > 0 && lines[lines.len() - 1].len() == 0
        invariant
            drop_blank_tail(vecs_view(lines@)) == drop_blank_tail(vecs_view(old(lines)@)),
        decreases lines@.len(),
    {
        let ghost before = vecs_view(lines@);
        lines.pop();
        proof {
            assert(vecs_view(lines@) =~= before.drop_last());
        }
    }
}

/// The program written in the game's Python.
pub fn generate(program: &Program) -> (s: String)
    ensures
        s@ == generate_spec(*program),
{
    let ctx = CodegenContext::new(program);
    let ghost c = ctx.view_ctx();
    let mut lines: Vec<Vec<char>> = Vec::new();
    let mut i: usize = 0;
    while i < program.constants.len()
        invariant
            i <= program.constants@.len(),
            vecs_view(lines@) == program.constants@.subrange(0, i as int).map_values(|k: Constant| const_line(k)),
        decreases program.constants@.len() - i,
    {
        let k = &program.constants[i];
        let mut l: Vec<char> = Vec::new();
        push_str(&mut l, k.name.as_str());
        push_str(&mut l, " = ");
        let v = chars_of(k.value.as_str());
        push_debug_quoted(&mut l, &v);
        let ghost before = vecs_view(lines@);
        push_line(&mut lines, l);
        proof {
            assert(program.constants@.subrange(0, i + 1).map_values(|k: Constant| const_line(k)) =~= program.constants@.subrange(0, i as int).map_values(|k: Constant| const_line(k)).push(const_line(program.constants@[i as int])));
        }
        i = i + 1;
    }
    proof {
        assert(program.constants@.subrange(0, program.constants@.len() as int) =~= program.constants@);
    }
    if program.constants.len() > 0 && (program.struct_factories.len() > 0 || program.functions.len() > 0) {
        push_line(&mut lines, Vec::new());
    }
    let ghost head = vecs_view(lines@);
    let mut j: usize = 0;
    while j < program.struct_factories.len()
        invariant
            j <= program.struct_factories@.len(),
            vecs_view(lines@) == head + factories_lines(program.struct_factories@.subrange(0, j as int)),
        decreases program.struct_factories@.len() - j,
    {
        emit_struct_factory(&mut lines, &program.struct_factories[j]);
        push_line(&mut lines, Vec::new());
        proof {
            let fs = program.struct_factories@.subrange(0, j + 1);
            assert(fs.drop_last() =~= program.struct_factories@.subrange(0, j as int));
            assert(vecs_view(lines@) =~= head + factories_lines(fs));
        }
        j = j + 1;
    }
    proof {
        assert(program.struct_factories@.subrange(0, program.struct_factories@.len() as int) =~= program.struct_factories@);
    }
    let ghost mid = vecs_view(lines@);
    let top: Vec<char> = Vec::new();
    let mut k: usize = 0;
    while k < program.functions.len()
        invariant
            k <= program.functions@.len(),
            ctx.wf(),
            c == ctx.view_ctx(),
            top@ == Seq::<char>::empty(),
            vecs_view(lines@) == mid + functions_lines(c, program.functions@.subrange(0, k as int)),
        decreases program.functions@.len() - k,
    {
        emit_function(&mut lines, &program.functions[k], &top, &ctx);
        push_line(&mut lines, Vec::new());
        proof {
            let fs = program.functions@.subrange(0, k + 1);
            assert(fs.drop_last() =~= program.functions@.subrange(0, k as int));
            assert(vecs_view(lines@) =~= mid + functions_lines(c, fs));
        }
        k = k + 1;
    }
    proof {
        assert(program.functions@.subrange(0, program.functions@.len() as int) =~= program.functions@);
    }
    emit_block(&mut lines, &program.main, &top, &ctx);
    proof {
        assert(vecs_view(lines@) =~= program_lines(*program));
    }
    drop_trailing_blank_lines(&mut lines);
    let mut out: Vec<char> = Vec::new();
    push_join(&mut out, &lines, "\n");
    out.push('\n');
    proof {
        assert(out@ =~= generate_spec(*program));
    }
    string_of(out.as_slice())
}

// ---------------------------------------------------------------------------------
// The text depends only on what the program says

proof fn lemma_stmt_lines_by_view(c: CtxV, s1: Stmt, s2: Stmt, pre: Seq<char>)
    requires
        stmt_v(s1) == stmt_v(s2),
    ensures
        stmt_lines(c, s1, pre) == stmt_lines(c, s2, pre),
    decreases s1, 0nat,
{
    match (s1, s2) {
        (Stmt::Function(f1), Stmt::Function(f2)) => {
            lemma_function_lines_by_view(c, f1, f2, pre);
        },
        (Stmt::Loop(b1), Stmt::Loop(b2)) => {
            lemma_block_lines_by_view(c, b1@, b2@, deeper(pre));
        },
        (Stmt::While { condition: _, body: b1 }, Stmt::While { condition: _, body: b2 }) => {
            lemma_block_lines_by_view(c, b1@, b2@, deeper(pre));
        },
        (
            Stmt::If { condition: _, then_body: t1, else_branch: e1 },
            Stmt::If { condition: _, then_body: t2, else_branch: e2 },
        ) => {
            lemma_block_lines_by_view(c, t1@, t2@, deeper(pre));
            match (e1, e2) {
                (Some(x1), Some(x2)) => {
                    lemma_else_lines_by_view(c, x1, x2, pre);
                },
                _ => {},
            }
        },
        (
            Stmt::For { variable: _, start: _, end: _, body: b1 },
            Stmt::For { variable: _, start: _, end: _, body: b2 },
        ) => {
            lemma_block_lines_by_view(c, b1@, b2@, deeper(pre));
        },
        (
            Stmt::ForEach { variable: _, iterable: _, body: b1 },
            Stmt::ForEach { variable: _, iterable: _, body: b2 },
        ) => {
            lemma_block_lines_by_view(c, b1@, b2@, deeper(pre));
        },
        _ => {},
    }
}

proof fn lemma_else_lines_by_view(c: CtxV, e1: ElseBranch, e2: ElseBranch, pre: Seq<char>)
    requires
        else_v(e1) == else_v(e2),
    ensures
        else_lines(c, e1, pre) == else_lines(c, e2, pre),
    decreases e1, 0nat,
{
    match (e1, e2) {
        (
            ElseBranch::ElseIf { condition: _, then_body: t1, else_branch: r1 },
            ElseBranch::ElseIf { condition: _, then_body: t2, else_branch: r2 },
        ) => {
            lemma_block_lines_by_view(c, t1@, t2@, deeper(pre));
            match (r1, r2) {
                (Some(x1), Some(x2)) => {
                    lemma_else_lines_by_view(c, *x1, *x2, pre);
                },
                _ => {},
            }
        },
        (ElseBranch::Else(b1), ElseBranch::Else(b2)) => {
            lemma_block_lines_by_view(c, b1@, b2@, deeper(pre));
        },
        _ => {},
    }
}

proof fn lemma_function_lines_by_view(c: CtxV, f1: Function, f2: Function, pre: Seq<char>)
    requires
        function_v(f1) == function_v(f2),
    ensures
        function_lines(c, f1, pre) == function_lines(c, f2, pre),
    decreases f1, 0nat,
{
    let v1 = f1.params@.map_values(|p: FunctionParam| param_v(p));
    let v2 = f2.params@.map_values(|p: FunctionParam| param_v(p));
    assert(v1 == v2);
    assert(f1.params@.len() == f2.params@.len()) by {
        assert(v1.len() == f1.params@.len() && v2.len() == f2.params@.len());
    }
    let m1 = f1.params@.map_values(|p: FunctionParam| param_py(c, p));
    let m2 = f2.params@.map_values(|p: FunctionParam| param_py(c, p));
    assert forall|i: int| 0 <= i < m1.len() implies #[trigger] m1[i] == m2[i] by {
        assert(v1[i] == v2[i]);
    }
    assert(m1 =~= m2);
    lemma_block_lines_by_view(c, f1.body@, f2.body@, deeper(pre));
}

proof fn lemma_stmts_lines_by_view(c: CtxV, b1: Seq<Stmt>, b2: Seq<Stmt>, pre: Seq<char>)
    requires
        stmts_v(b1) == stmts_v(b2),
    ensures
        stmts_lines(c, b1, pre) == stmts_lines(c, b2, pre),
    decreases b1, 0nat,
{
    if b1.len() > 0 {
        lemma_stmts_v_index(b1, 0);
        lemma_stmts_v_index(b2, 0);
        lemma_stmt_lines_by_view(c, b1[0], b2[0], pre);
        let r1 = b1.subrange(1, b1.len() as int);
        let r2 = b2.subrange(1, b2.len() as int);
        assert(r1.len() == r2.len());
        assert forall|i: int| 0 <= i < r1.len() implies #[trigger] stmts_v(r1)[i] == stmts_v(r2)[i] by {
            lemma_stmts_v_index(b1, i + 1);
            lemma_stmts_v_index(b2, i + 1);
            lemma_stmts_v_index(r1, i);
            lemma_stmts_v_index(r2, i);
        }
        if r1.len() > 0 {
            lemma_stmts_v_index(r1, 0);
            lemma_stmts_v_index(r2, 0);
        }
        assert(stmts_v(r1) =~= stmts_v(r2));
        lemma_stmts_lines_by_view(c, r1, r2, pre);
    } else if b2.len() > 0 {
        lemma_stmts_v_index(b2, 0);
    }
}

proof fn lemma_block_lines_by_view(c: CtxV, b1: Seq<Stmt>, b2: Seq<Stmt>, pre: Seq<char>)
    requires
        stmts_v(b1) == stmts_v(b2),
    ensures
        block_lines(c, b1, pre) == block_lines(c, b2, pre),
    decreases b1, 1nat,
{
    lemma_stmts_lines_by_view(c, b1, b2, pre);
    if has_code(b1) {
        let i = choose|i: int| 0 <= i < b1.len() && !(b1[i] is Comment || b1[i] is Noop);
        lemma_stmts_v_index(b1, i);
        lemma_stmts_v_index(b2, i);
        lemma_stmt_v_kind(b1[i]);
        lemma_stmt_v_kind(b2[i]);
        assert(!(b2[i] is Comment || b2[i] is Noop));
    }
    if has_code(b2) {
        let i = choose|i: int| 0 <= i < b2.len() && !(b2[i] is Comment || b2[i] is Noop);
        lemma_stmts_v_index(b2, i);
        lemma_stmts_v_index(b1, i);
        lemma_stmt_v_kind(b1[i]);
        lemma_stmt_v_kind(b2[i]);
        assert(!(b1[i] is Comment || b1[i] is Noop));
    }
}

#[verifier::spinoff_prover]
proof fn lemma_factories_lines_by_view(fs1: Seq<StructFactory>, fs2: Seq<StructFactory>)
    requires
        fs1.map_values(|f: StructFactory| factory_v(f)) == fs2.map_values(|f: StructFactory| factory_v(f)),
    ensures
        factories_lines(fs1) == factories_lines(fs2),
    decreases fs1.len(),
{
    let m1 = fs1.map_values(|f: StructFactory| factory_v(f));
    let m2 = fs2.map_values(|f: StructFactory| factory_v(f));
    assert(fs1.len() == fs2.len()) by {
        assert(m1.len() == fs1.len() && m2.len() == fs2.len());
    }
    if fs1.len() > 0 {
        let n = fs1.len() - 1;
        assert(m1[n] == m2[n]);
        let d1 = fs1.drop_last();
        let d2 = fs2.drop_last();
        let e1 = d1.map_values(|f: StructFactory| factory_v(f));
        let e2 = d2.map_values(|f: StructFactory| factory_v(f));
        assert forall|i: int| 0 <= i < d1.len() implies #[trigger] e1[i] == e2[i] by {
            assert(m1[i] == m2[i]);
            assert(d1[i] == fs1[i] && d2[i] == fs2[i]);
            assert(e1[i] == factory_v(d1[i]) && m1[i] == factory_v(fs1[i]));
            assert(e2[i] == factory_v(d2[i]) && m2[i] == factory_v(fs2[i]));
        }
        assert(e1 =~= e2);
        lemma_factories_lines_by_view(d1, d2);
    }
}

#[verifier::spinoff_prover]
proof fn lemma_functions_lines_by_view(c: CtxV, fs1: Seq<Function>, fs2: Seq<Function>)
    requires
        fs1.map_values(|f: Function| function_v(f)) == fs2.map_values(|f: Function| function_v(f)),
    ensures
        functions_lines(c, fs1) == functions_lines(c, fs2),
    decreases fs1.len(),
{
    let m1 = fs1.map_values(|f: Function| function_v(f));
    let m2 = fs2.map_values(|f: Function| function_v(f));
    assert(fs1.len() == fs2.len()) by {
        assert(m1.len() == fs1.len() && m2.len() == fs2.len());
    }
    if fs1.len() > 0 {
        let n = fs1.len() - 1;
        assert(m1[n] == m2[n]);
        assert(m1[n] == function_v(fs1[n]) && m2[n] == function_v(fs2[n]));
        lemma_function_lines_by_view(c, fs1.last(), fs2.last(), Seq::empty());
        let d1 = fs1.drop_last();
        let d2 = fs2.drop_last();
        let e1 = d1.map_values(|f: Function| function_v(f));
        let e2 = d2.map_values(|f: Function| function_v(f));
        assert forall|i: int| 0 <= i < d1.len() implies #[trigger] e1[i] == e2[i] by {
            assert(m1[i] == m2[i]);
            assert(d1[i] == fs1[i] && d2[i] == fs2[i]);
            assert(e1[i] == function_v(d1[i]) && m1[i] == function_v(fs1[i]));
            assert(e2[i] == function_v(d2[i]) && m2[i] == function_v(fs2[i]));
        }
        assert(e1 =~= e2);
        lemma_functions_lines_by_view(c, d1, d2);
    }
}

/// Two programs that say the same thing are written out as the same Python text.
pub proof fn lemma_generate_by_view(p1: Program, p2: Program)
    requires
        program_v(p1) == program_v(p2),
    ensures
        generate_spec(p1) == generate_spec(p2),
{
    let a1 = p1.namespace_aliases@.map_values(|a: NamespaceAlias| alias_v(a));
    let a2 = p2.namespace_aliases@.map_values(|a: NamespaceAlias| alias_v(a));
    let f1 = p1.struct_factories@.map_values(|f: StructFactory| factory_v(f));
    let f2 = p2.struct_factories@.map_values(|f: StructFactory| factory_v(f));
    let k1 = p1.constants@.map_values(|k: Constant| constant_v(k));
    let k2 = p2.constants@.map_values(|k: Constant| constant_v(k));
    let g1 = p1.functions@.map_values(|f: Function| function_v(f));
    let g2 = p2.functions@.map_values(|f: Function| function_v(f));
    assert(a1 == a2 && f1 == f2 && k1 == k2 && g1 == g2);
    assert(a1.len() == p1.namespace_aliases@.len() && a2.len() == p2.namespace_aliases@.len());
    assert(f1.len() == p1.struct_factories@.len() && f2.len() == p2.struct_factories@.len());
    assert(k1.len() == p1.constants@.len() && k2.len() == p2.constants@.len());
    assert(g1.len() == p1.functions@.len() && g2.len() == p2.functions@.len());
    let c1 = ctx_of(p1);
    let c2 = ctx_of(p2);
    assert forall|i: int| 0 <= i < c1.keys.len() implies #[trigger] c1.keys[i] == c2.keys[i] by {
        assert(a1[i] == a2[i]);
    }
    assert forall|i: int| 0 <= i < c1.outputs.len() implies #[trigger] c1.outputs[i] == c2.outputs[i] by {
        assert(a1[i] == a2[i]);
    }
    assert forall|i: int| 0 <= i < c1.structs.len() implies #[trigger] c1.structs[i] == c2.structs[i] by {
        assert(f1[i] == f2[i]);
    }
    assert(c1.keys =~= c2.keys);
    assert(c1.outputs =~= c2.outputs);
    assert(c1.structs =~= c2.structs);
    let l1 = p1.constants@.map_values(|k: Constant| const_line(k));
    let l2 = p2.constants@.map_values(|k: Constant| const_line(k));
    assert forall|i: int| 0 <= i < l1.len() implies #[trigger] l1[i] == l2[i] by {
        assert(k1[i] == k2[i]);
    }
    assert(l1 =~= l2);
    lemma_factories_lines_by_view(p1.struct_factories@, p2.struct_factories@);
    lemma_functions_lines_by_view(c1, p1.functions@, p2.functions@);
    lemma_block_lines_by_view(c1, p1.main@, p2.main@, Seq::empty());
    assert(program_lines(p1) == program_lines(p2));
}


// ---------------------------------------------------------------------------------
// The shape of the output

/// A line that does not end in a line break (an empty line included).
pub open spec fn line_ok(l: Seq<char>) -> bool {
    l.len() == 0 || l.last() != '\n'
}

/// Every line of `ls` is `line_ok`.
pub open spec fn lines_ok(ls: Seq<Seq<char>>) -> bool {
    forall|i: int| 0 <= i < ls.len() ==> line_ok(#[trigger] ls[i])
}

proof fn lemma_lines_ok_add(a: Seq<Seq<char>>, b: Seq<Seq<char>>)
    requires
        lines_ok(a),
        lines_ok(b),
    ensures
        lines_ok(a + b),
{
    assert forall|i: int| 0 <= i < (a + b).len() implies line_ok(#[trigger] (a + b)[i]) by {
        if i < a.len() {
            assert((a + b)[i] == a[i]);
        } else {
            assert((a + b)[i] == b[i - a.len()]);
        }
    }
}

/// Trimmed text ends with something other than white space.
proof fn lemma_trim_end(s: Seq<char>)
    ensures
        trim(s).len() > 0 ==> !is_space(trim(s).last()),
    decreases s.len(),
{
    if s.len() > 0 && is_space(s[0]) {
        lemma_trim_end(s.subrange(1, s.len() as int));
    } else if s.len() > 0 && is_space(s.last()) {
        lemma_trim_end(s.drop_last());
    }
}

/// `pre + tail` is `line_ok` when `pre` is and `tail` is either empty or ends in
/// something other than a line break.
proof fn lemma_line_ok_append(pre: Seq<char>, tail: Seq<char>)
    requires
        line_ok(pre),
        line_ok(tail),
    ensures
        line_ok(pre + tail),
{
    if tail.len() > 0 {
        assert((pre + tail).last() == tail.last());
    } else {
        assert(pre + tail =~= pre);
    }
}

proof fn lemma_expr_line_ok(pre: Seq<char>, c: CtxV, ts: Seq<ExprTokV>)
    requires
        line_ok(pre),
    ensures
        line_ok(pre + expr_py(c, ts)),
{
    lemma_trim_end(expr_from(c, ts, 0, Seq::empty()));
    assert(is_space('\n'));
    lemma_line_ok_append(pre, expr_py(c, ts));
}

proof fn lemma_ends_with(l: Seq<char>, ch: char)
    requires
        l.len() > 0,
        l.last() == ch,
        ch != '\n',
    ensures
        line_ok(l),
{
}

proof fn lemma_comment_lines_ok(t: Seq<char>, pre: Seq<char>)
    requires
        line_ok(pre),
    ensures
        lines_ok(indented(pre, comment_lines(t))),
{
    let cl = comment_lines(t);
    assert forall|i: int| 0 <= i < cl.len() implies line_ok(#[trigger] cl[i]) by {
        if str_lines(t).len() > 0 {
            let l = str_lines(t)[i];
            lemma_trim_end(l);
            assert(is_space('\n'));
            assert(cl[i] == comment_line(l));
            if trim(l).len() > 0 {
                assert(comment_line(l).last() == trim(l).last());
            }
        }
    }
    let ind = indented(pre, cl);
    assert forall|i: int| 0 <= i < ind.len() implies line_ok(#[trigger] ind[i]) by {
        lemma_line_ok_append(pre, cl[i]);
    }
}

#[verifier::spinoff_prover]
#[verifier::rlimit(40)]
proof fn lemma_stmt_lines_ok(c: CtxV, s: Stmt, pre: Seq<char>)
    requires
        line_ok(pre),
    ensures
        lines_ok(stmt_lines(c, s, pre)),
    decreases s, 0nat,
{
    reveal_strlit("    ");
    reveal_strlit("while True:");
    reveal_strlit(" = ");
    reveal_strlit("break");
    reveal_strlit("continue");
    reveal_strlit("return");
    reveal_strlit("return ");
    let d = deeper(pre);
    assert(line_ok(d)) by {
        assert(d.last() == ' ');
    }
    match s {
        Stmt::Noop => {},
        Stmt::Comment(t) => {
            lemma_comment_lines_ok(t@, pre);
        },
        Stmt::Function(f) => {
            lemma_function_lines_ok(c, f, pre);
        },
        Stmt::Loop(body) => {
            lemma_block_lines_ok(c, body@, d);
            let h = pre + "while True:"@;
            lemma_ends_with(h, ':');
            lemma_lines_ok_add(seq![h], block_lines(c, body@, d));
        },
        Stmt::While { condition, body } => {
            lemma_block_lines_ok(c, body@, d);
            let h = pre + "while "@ + expr_py(c, condition.view_expr()) + seq![':'];
            lemma_ends_with(h, ':');
            lemma_lines_ok_add(seq![h], block_lines(c, body@, d));
        },
        Stmt::If { condition, then_body, else_branch } => {
            lemma_block_lines_ok(c, then_body@, d);
            let h = pre + "if "@ + expr_py(c, condition.view_expr()) + seq![':'];
            lemma_ends_with(h, ':');
            lemma_lines_ok_add(seq![h], block_lines(c, then_body@, d));
            let rest = match else_branch {
                Some(e) => else_lines(c, e, pre),
                None => Seq::empty(),
            };
            match else_branch {
                Some(e) => {
                    lemma_else_lines_ok(c, e, pre);
                },
                None => {},
            }
            lemma_lines_ok_add(seq![h] + block_lines(c, then_body@, d), rest);
        },
        Stmt::For { variable, start, end, body } => {
            lemma_block_lines_ok(c, body@, d);
            let h = pre + "for "@ + variable@ + " in "@ + range_py(expr_py(c, start.view_expr()), expr_py(c, end.view_expr())) + seq![':'];
            lemma_ends_with(h, ':');
            lemma_lines_ok_add(seq![h], block_lines(c, body@, d));
        },
        Stmt::ForEach { variable, iterable, body } => {
            lemma_block_lines_ok(c, body@, d);
            let h = pre + "for "@ + variable@ + " in "@ + expr_py(c, iterable.view_expr()) + seq![':'];
            lemma_ends_with(h, ':');
            lemma_lines_ok_add(seq![h], block_lines(c, body@, d));
        },
        Stmt::Let { name, value } => {
            let h = pre + name@ + " = "@;
            lemma_ends_with(h, ' ');
            lemma_expr_line_ok(h, c, value.view_expr());
        },
        Stmt::Assign { target, value } => {
            let h = pre + expr_py(c, target.view_expr()) + " = "@;
            lemma_ends_with(h, ' ');
            lemma_expr_line_ok(h, c, value.view_expr());
        },
        Stmt::Expr(e) => {
            lemma_expr_line_ok(pre, c, e.view_expr());
        },
        Stmt::Break => {
            lemma_ends_with(pre + "break"@, 'k');
        },
        Stmt::Continue => {
            lemma_ends_with(pre + "continue"@, 'e');
        },
        Stmt::Return(None) => {
            lemma_ends_with(pre + "return"@, 'n');
        },
        Stmt::Return(Some(e)) => {
            let h = pre + "return "@;
            lemma_ends_with(h, ' ');
            lemma_expr_line_ok(h, c, e.view_expr());
        },
    }
}

#[verifier::spinoff_prover]
#[verifier::rlimit(40)]
proof fn lemma_else_lines_ok(c: CtxV, e: ElseBranch, pre: Seq<char>)
    requires
        line_ok(pre),
    ensures
        lines_ok(else_lines(c, e, pre)),
    decreases e, 0nat,
{
    reveal_strlit("    ");
    reveal_strlit("else:");
    let d = deeper(pre);
    assert(line_ok(d)) by {
        assert(d.last() == ' ');
    }
    match e {
        ElseBranch::ElseIf { condition, then_body, else_branch } => {
            lemma_block_lines_ok(c, then_body@, d);
            let h = pre + "elif "@ + expr_py(c, condition.view_expr()) + seq![':'];
            lemma_ends_with(h, ':');
            lemma_lines_ok_add(seq![h], block_lines(c, then_body@, d));
            let rest = match else_branch {
                Some(b) => else_lines(c, *b, pre),
                None => Seq::empty(),
            };
            match else_branch {
                Some(b) => {
                    lemma_else_lines_ok(c, *b, pre);
                },
                None => {},
            }
            lemma_lines_ok_add(seq![h] + block_lines(c, then_body@, d), rest);
        },
        ElseBranch::Else(body) => {
            lemma_block_lines_ok(c, body@, d);
            let h = pre + "else:"@;
            lemma_ends_with(h, ':');
            lemma_lines_ok_add(seq![h], block_lines(c, body@, d));
        },
    }
}

proof fn lemma_function_lines_ok(c: CtxV, f: Function, pre: Seq<char>)
    requires
        line_ok(pre),
    ensures
        lines_ok(function_lines(c, f, pre)),
    decreases f, 0nat,
{
    reveal_strlit("    ");
    reveal_strlit("):");
    let d = deeper(pre);
    assert(line_ok(d)) by {
        assert(d.last() == ' ');
    }
    lemma_block_lines_ok(c, f.body@, d);
    let h = pre + "def "@ + f.name@ + seq!['('] + join(f.params@.map_values(|p: FunctionParam| param_py(c, p)), ", "@) + "):"@;
    lemma_ends_with(h, ':');
    lemma_lines_ok_add(seq![h], block_lines(c, f.body@, d));
}

proof fn lemma_stmts_lines_ok(c: CtxV, b: Seq<Stmt>, pre: Seq<char>)
    requires
        line_ok(pre),
    ensures
        lines_ok(stmts_lines(c, b, pre)),
    decreases b, 0nat,
{
    if b.len() > 0 {
        lemma_stmt_lines_ok(c, b[0], pre);
        lemma_stmts_lines_ok(c, b.subrange(1, b.len() as int), pre);
        lemma_lines_ok_add(stmt_lines(c, b[0], pre), stmts_lines(c, b.subrange(1, b.len() as int), pre));
    }
}

proof fn lemma_block_lines_ok(c: CtxV, b: Seq<Stmt>, pre: Seq<char>)
    requires
        line_ok(pre),
    ensures
        lines_ok(block_lines(c, b, pre)),
    decreases b, 1nat,
{
    reveal_strlit("pass");
    lemma_stmts_lines_ok(c, b, pre);
    if !has_code(b) {
        let h = pre + "pass"@;
        lemma_ends_with(h, 's');
        lemma_lines_ok_add(stmts_lines(c, b, pre), seq![h]);
    }
}

#[verifier::spinoff_prover]
#[verifier::rlimit(40)]
proof fn lemma_program_lines_ok(p: Program)
    ensures
        lines_ok(program_lines(p)),
{
    let c = ctx_of(p);
    let consts = p.constants@.map_values(|k: Constant| const_line(k));
    assert forall|i: int| 0 <= i < consts.len() implies line_ok(#[trigger] consts[i]) by {
        lemma_ends_with(consts[i], '"');
    }
    let sep: Seq<Seq<char>> = if p.constants@.len() > 0 && (p.struct_factories@.len() > 0 || p.functions@.len() > 0) {
        seq![Seq::<char>::empty()]
    } else {
        Seq::empty()
    };
    assert(lines_ok(sep));
    lemma_factories_lines_ok(p.struct_factories@);
    lemma_functions_lines_ok(c, p.functions@);
    lemma_block_lines_ok(c, p.main@, Seq::empty());
    lemma_lines_ok_add(consts, sep);
    lemma_lines_ok_add(consts + sep, factories_lines(p.struct_factories@));
    lemma_lines_ok_add(consts + sep + factories_lines(p.struct_factories@), functions_lines(c, p.functions@));
    lemma_lines_ok_add(consts + sep + factories_lines(p.struct_factories@) + functions_lines(c, p.functions@), block_lines(c, p.main@, Seq::empty()));
}

proof fn lemma_factories_lines_ok(fs: Seq<StructFactory>)
    ensures
        lines_ok(factories_lines(fs)),
    decreases fs.len(),
{
    reveal_strlit("):");
    reveal_strlit("    return dict()");
    if fs.len() > 0 {
        lemma_factories_lines_ok(fs.drop_last());
        let f = fs.last();
        let fl = factory_lines(f);
        let names = strings_view(f.fields@);
        let h = "def "@ + f.name@ + seq!['('] + join(names.map_values(|x: Seq<char>| x + "=None"@), ", "@) + "):"@;
        lemma_ends_with(h, ':');
        if names.len() == 0 {
            lemma_ends_with("    return dict()"@, ')');
        } else {
            let r = "    return {"@ + join(names.map_values(|x: Seq<char>| debug_quote(x) + ": "@ + x), ", "@) + seq!['}'];
            lemma_ends_with(r, '}');
        }
        assert(lines_ok(fl));
        lemma_lines_ok_add(factories_lines(fs.drop_last()), fl);
        lemma_lines_ok_add(factories_lines(fs.drop_last()) + fl, seq![Seq::<char>::empty()]);
    }
}

proof fn lemma_functions_lines_ok(c: CtxV, fs: Seq<Function>)
    ensures
        lines_ok(functions_lines(c, fs)),
    decreases fs.len(),
{
    if fs.len() > 0 {
        lemma_functions_lines_ok(c, fs.drop_last());
        lemma_function_lines_ok(c, fs.last(), Seq::empty());
        lemma_lines_ok_add(functions_lines(c, fs.drop_last()), function_lines(c, fs.last(), Seq::empty()));
        lemma_lines_ok_add(functions_lines(c, fs.drop_last()) + function_lines(c, fs.last(), Seq::empty()), seq![Seq::<char>::empty()]);
    }
}

proof fn lemma_drop_blank_tail(ls: Seq<Seq<char>>)
    ensures
        drop_blank_tail(ls).len() > 0 ==> drop_blank_tail(ls).last().len() > 0,
        forall|i: int| 0 <= i < drop_blank_tail(ls).len() ==> #[trigger] drop_blank_tail(ls)[i] == ls[i],
        drop_blank_tail(ls).len() <= ls.len(),
    decreases ls.len(),
{
    if ls.len() > 0 && ls.last().len() == 0 {
        lemma_drop_blank_tail(ls.drop_last());
    }
}

proof fn lemma_join_last(ls: Seq<Seq<char>>)
    requires
        ls.len() > 0,
        ls.last().len() > 0,
    ensures
        join(ls, "\n"@).len() > 0,
        join(ls, "\n"@).last() == ls.last().last(),
        join(ls, "\n"@).len() >= ls.last().len(),
        join(ls, "\n"@).subrange(join(ls, "\n"@).len() - ls.last().len(), join(ls, "\n"@).len() as int) == ls.last(),
{
    lemma_join_split(ls);
}

proof fn lemma_join_split(ls: Seq<Seq<char>>)
    requires
        ls.len() > 0,
    ensures
        join(ls, "\n"@) == if ls.len() == 1 { ls[0] } else { join(ls.drop_last(), "\n"@) + "\n"@ + ls.last() },
{
    reveal_with_fuel(join, 2);
}

/// The Python text always ends with exactly one line break, and a program whose `main`
/// holds only comments (or nothing) ends with `pass`.
#[verifier::spinoff_prover]
#[verifier::rlimit(40)]
pub proof fn lemma_generate_shape(p: Program)
    ensures
        generate_spec(p).len() > 0,
        generate_spec(p).last() == '\n',
        !(generate_spec(p).len() >= 2 && generate_spec(p)[generate_spec(p).len() - 2] == '\n'),
        !has_code(p.main@) ==> generate_spec(p).len() >= 5
            && generate_spec(p).subrange(generate_spec(p).len() - 5, generate_spec(p).len() as int) == "pass\n"@,
{
    reveal_strlit("pass");
    reveal_strlit("pass\n");
    reveal_strlit("\n");
    let ls = program_lines(p);
    let kept = drop_blank_tail(ls);
    lemma_program_lines_ok(p);
    lemma_drop_blank_tail(ls);
    let j = join(kept, "\n"@);
    let out = generate_spec(p);
    assert(out == j + seq!['\n']);
    assert(out.last() == '\n');
    if kept.len() > 0 {
        lemma_join_last(kept);
        assert(line_ok(ls[kept.len() - 1]));
        assert(out[out.len() - 2] == j.last());
    } else {
        assert(j.len() == 0);
    }
    if !has_code(p.main@) {
        let c = ctx_of(p);
        let main = block_lines(c, p.main@, Seq::empty());
        assert(main.last() == "pass"@) by {
            assert(Seq::<char>::empty() + "pass"@ =~= "pass"@);
        }
        assert(ls.last() == main.last());
        assert(ls.last().len() > 0);
        assert(kept == ls);
        lemma_join_last(kept);
        assert(out.subrange(out.len() - 5, out.len() as int) =~= j.subrange(j.len() - 4, j.len() as int) + seq!['\n']);
    }
}

} // verus!
