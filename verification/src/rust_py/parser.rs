//! Turns the token stream of a Rust farm program into the converter's program form:
//! functions, a `main` body, and the structs, enums, modules and impls around them.
//! Each step follows the rule of the same name in `syntax`.
use vstd::prelude::*;
use crate::text::{
    clone_strings, join, join_strings, push_decimal, push_str, str_eq, string_of, strings_view,
};
use super::error::{Diag, RustToPythonError};
use super::ir::{
    copy_tokens, etoks_view, function_v, items_v, param_v, program_v, stmt_v, stmts_v, Constant,
    ElseBranch, ElseV, Expr, ExprTokV, ExprToken, Function, FunctionParam, FunctionV, ItemsV,
    NamespaceAlias, ParamV, Program, Stmt, StmtV, StructFactory, else_v,
};
use super::lexer::{tokens_view, TokV, Token, TokenKind};
use super::strict::check_tokens;
use super::syntax::{
    after_for, at_top, balanced_from, balanced_spec, block_items, block_spec, comment_text,
    default_from, depth_after, else_spec, end_pos, expr_until_semicolon, expr_until_symbol, enum_spec, err_at, err_end, err_here, etok_depth,
    expr_stmt_spec, field_type_from, first_not_for, for_iter_from, for_iterable, for_spec, function_rest,
    function_spec, generics_from, generics_spec, ident_at, ident_text, idents_from, if_spec,
    impl_items_from, impl_spec, impl_target, item_block_from, item_spec, item_value_from, let_spec,
    let_type_from, local_item_spec, macro_from, module_items_from, module_spec, named_fields_from,
    needed, no_items, operator_at, param_type_from, params_from, parse_spec, prefixed,
    prefixed_function_spec, prelude_at, program_from, return_type_from, semicolon_from,
    split_range_spec, stmt_after_starter, stmt_spec, struct_spec, sym_depth, symbol_at, top_op,
    top_op_from, tuple_field_name, tuple_fields_from, until_semicolon_from, until_symbol_from,
    use_spec, variants_from, visibility_spec, with_tok, zero_depth, here_pos,
};

verus! {

// ---------------------------------------------------------------------------------
// How an exec step's result matches a rule's result

/// A step that only moves: `Ok` at the rule's position, or the rule's diagnostic.
pub open spec fn done_pos(r: Result<(), RustToPythonError>, after: int, s: Result<int, Diag>) -> bool {
    match s {
        Ok(q) => r is Ok && after == q,
        Err(d) => r matches Err(e) && e.view_diag() == d,
    }
}

/// A step that reads an expression.
pub open spec fn done_expr(r: Result<Expr, RustToPythonError>, after: int, s: Result<(Seq<ExprTokV>, int), Diag>) -> bool {
    match s {
        Ok((v, q)) => r matches Ok(e) && e.view_expr() == v && after == q,
        Err(d) => r matches Err(e) && e.view_diag() == d,
    }
}

/// A step that says whether something was there.
pub open spec fn done_flag(r: Result<bool, RustToPythonError>, after: int, s: Result<(bool, int), Diag>) -> bool {
    match s {
        Ok((b, q)) => r == Ok::<bool, RustToPythonError>(b) && after == q,
        Err(d) => r matches Err(e) && e.view_diag() == d,
    }
}

/// A step that reads names.
pub open spec fn done_names(r: Result<Vec<String>, RustToPythonError>, after: int, s: Result<(Seq<Seq<char>>, int), Diag>) -> bool {
    match s {
        Ok((v, q)) => r matches Ok(ns) && strings_view(ns@) == v && after == q,
        Err(d) => r matches Err(e) && e.view_diag() == d,
    }
}

/// A step that reads parameters.
pub open spec fn done_params(r: Result<Vec<FunctionParam>, RustToPythonError>, after: int, s: Result<(Seq<ParamV>, int), Diag>) -> bool {
    match s {
        Ok((v, q)) => r matches Ok(ps) && ps@.map_values(|x: FunctionParam| param_v(x)) == v && after == q,
        Err(d) => r matches Err(e) && e.view_diag() == d,
    }
}

/// A step that reads a function.
pub open spec fn done_function(r: Result<Function, RustToPythonError>, after: int, s: Result<(FunctionV, int), Diag>) -> bool {
    match s {
        Ok((v, q)) => r matches Ok(f) && function_v(f) == v && after == q,
        Err(d) => r matches Err(e) && e.view_diag() == d,
    }
}

/// A step that reads a statement.
pub open spec fn done_stmt(r: Result<Stmt, RustToPythonError>, after: int, s: Result<(StmtV, int), Diag>) -> bool {
    match s {
        Ok((v, q)) => r matches Ok(x) && stmt_v(x) == v && after == q,
        Err(d) => r matches Err(e) && e.view_diag() == d,
    }
}

/// A step that reads a block.
pub open spec fn done_block(r: Result<Vec<Stmt>, RustToPythonError>, after: int, s: Result<(Seq<StmtV>, int), Diag>) -> bool {
    match s {
        Ok((v, q)) => r matches Ok(b) && stmts_v(b@) == v && after == q,
        Err(d) => r matches Err(e) && e.view_diag() == d,
    }
}

/// A step that reads an optional `else` part.
pub open spec fn done_else(r: Result<Option<ElseBranch>, RustToPythonError>, after: int, s: Result<(Option<ElseV>, int), Diag>) -> bool {
    match s {
        Ok((v, q)) => after == q && match v {
            Some(ev) => r matches Ok(Some(b)) && else_v(b) == ev,
            None => r matches Ok(None),
        },
        Err(d) => r matches Err(e) && e.view_diag() == d,
    }
}

/// A step that adds to the program's items.
pub open spec fn done_items(r: Result<(), RustToPythonError>, items: ItemsV, after: int, s: Result<(ItemsV, int), Diag>) -> bool {
    match s {
        Ok((v, q)) => r is Ok && items == v && after == q,
        Err(d) => r matches Err(e) && e.view_diag() == d,
    }
}

/// A step that may add to the program's items, and says whether it read an item.
pub open spec fn done_item(r: Result<bool, RustToPythonError>, items: ItemsV, after: int, s: Result<(bool, ItemsV, int), Diag>) -> bool {
    match s {
        Ok((b, v, q)) => r == Ok::<bool, RustToPythonError>(b) && items == v && after == q,
        Err(d) => r matches Err(e) && e.view_diag() == d,
    }
}

/// Nesting depth of brackets while scanning tokens.
struct Depth {
    paren: usize,
    bracket: usize,
    brace: usize,
}

impl Depth {
    spec fn view_d(&self) -> (int, int, int) {
        (self.paren as int, self.bracket as int, self.brace as int)
    }

    spec fn bounded(&self, n: int) -> bool {
        self.paren <= n && self.bracket <= n && self.brace <= n
    }

    fn new() -> (d: Depth)
        ensures
            d.bounded(0),
            d.view_d() == zero_depth(),
    {
        Depth { paren: 0, bracket: 0, brace: 0 }
    }

    fn is_top_level(&self) -> (r: bool)
        ensures
            r == at_top(self.view_d()),
    {
        self.paren == 0 && self.bracket == 0 && self.brace == 0
    }

    fn open_close(&mut self, c: char)
        requires
            old(self).paren < usize::MAX && old(self).bracket < usize::MAX && old(self).brace < usize::MAX,
        ensures
            forall|n: int| old(self).bounded(n) ==> final(self).bounded(n + 1),
            final(self).view_d() == sym_depth(old(self).view_d(), c),
    {
        if c == '(' {
            self.paren = self.paren + 1;
        } else if c == ')' {
            self.paren = self.paren.saturating_sub(1);
        } else if c == '[' {
            self.bracket = self.bracket + 1;
        } else if c == ']' {
            self.bracket = self.bracket.saturating_sub(1);
        } else if c == '{' {
            self.brace = self.brace + 1;
        } else if c == '}' {
            self.brace = self.brace.saturating_sub(1);
        }
    }

    /// Counts the bracket a token opens or closes.
    fn observe(&mut self, kind: &TokenKind)
        requires
            old(self).paren < usize::MAX && old(self).bracket < usize::MAX && old(self).brace < usize::MAX,
        ensures
            forall|n: int| old(self).bounded(n) ==> final(self).bounded(n + 1),
            final(self).view_d() == depth_after(old(self).view_d(), kind.view_kind()),
    {
        if let TokenKind::Symbol(c) = kind {
            self.open_close(*c);
        }
    }

    /// Counts the bracket an expression token opens or closes.
    fn observe_expr(&mut self, token: &ExprToken)
        requires
            old(self).paren < usize::MAX && old(self).bracket < usize::MAX && old(self).brace < usize::MAX,
        ensures
            forall|n: int| old(self).bounded(n) ==> final(self).bounded(n + 1),
            final(self).view_d() == etok_depth(old(self).view_d(), token.view_tok()),
    {
        if let ExprToken::Symbol(c) = token {
            self.open_close(*c);
        }
    }
}

/// The items a program collects while it is read.
struct Items {
    constants: Vec<Constant>,
    struct_factories: Vec<StructFactory>,
    namespace_aliases: Vec<NamespaceAlias>,
    functions: Vec<Function>,
}

impl Items {
    spec fn view_items(&self) -> ItemsV {
        items_v(self.constants@, self.struct_factories@, self.namespace_aliases@, self.functions@)
    }
}

struct Parser<'a> {
    tokens: &'a [Token],
    pos: usize,
}

impl<'a> Parser<'a> {
    /// The tokens, as the grammar sees them.
    spec fn ts(&self) -> Seq<TokV> {
        tokens_view(self.tokens@)
    }

    spec fn wf(&self) -> bool {
        self.pos <= self.tokens@.len()
    }

    /// `next` continues from `self` over the same tokens, at or after its position.
    spec fn moved_to(&self, next: &Self) -> bool {
        &&& next.tokens@ == self.tokens@
        &&& next.pos <= next.tokens@.len()
        &&& self.pos <= next.pos
    }

    fn is_eof(&self) -> (r: bool)
        ensures
            r == (self.pos >= self.tokens@.len()),
    {
        self.pos >= self.tokens.len()
    }

    fn advance(&mut self)
        requires
            old(self).wf(),
        ensures
            old(self).moved_to(&*final(self)),
            final(self).pos == if old(self).pos < old(self).tokens@.len() {
                old(self).pos + 1
            } else {
                old(self).pos as int
            },
    {
        if self.pos < self.tokens.len() {
            self.pos = self.pos + 1;
        }
    }

    fn end_position(&self) -> (r: (usize, usize))
        ensures
            (r.0 as int, r.1 as int) == end_pos(self.ts()),
    {
        if self.tokens.len() > 0 {
            let t = &self.tokens[self.tokens.len() - 1];
            (t.line, t.column)
        } else {
            (1, 1)
        }
    }

    /// Where an error about the current token is reported.
    fn here(&self) -> (r: (usize, usize))
        ensures
            (r.0 as int, r.1 as int) == here_pos(self.ts(), self.pos as int),
    {
        if self.pos < self.tokens.len() {
            (self.tokens[self.pos].line, self.tokens[self.pos].column)
        } else {
            self.end_position()
        }
    }

    fn error_here(&self, message: &str) -> (e: RustToPythonError)
        ensures
            e.view_diag() == err_here(self.ts(), self.pos as int, message@),
    {
        let (line, column) = self.here();
        RustToPythonError::new(message, line, column)
    }

    fn error_at_end(&self, message: &str) -> (e: RustToPythonError)
        ensures
            e.view_diag() == err_end(self.ts(), message@),
    {
        let (line, column) = self.end_position();
        RustToPythonError::new(message, line, column)
    }

    /// The error `message` at token `i`.
    fn error_at(&self, i: usize, message: &str) -> (e: RustToPythonError)
        requires
            i < self.tokens@.len(),
        ensures
            e.view_diag() == err_at(self.ts(), i as int, message@),
    {
        RustToPythonError::new(message, self.tokens[i].line, self.tokens[i].column)
    }

    fn check_keyword(&self, keyword: &str) -> (r: bool)
        ensures
            r == ident_at(self.ts(), self.pos as int, keyword@),
    {
        if self.pos < self.tokens.len() {
            match &self.tokens[self.pos].kind {
                TokenKind::Ident(v) => str_eq(v.as_str(), keyword),
                _ => false,
            }
        } else {
            false
        }
    }

    fn check_symbol(&self, symbol: char) -> (r: bool)
        ensures
            r == symbol_at(self.ts(), self.pos as int, symbol),
    {
        if self.pos < self.tokens.len() {
            match &self.tokens[self.pos].kind {
                TokenKind::Symbol(c) => *c == symbol,
                _ => false,
            }
        } else {
            false
        }
    }

    fn check_operator(&self, operator: &str) -> (r: bool)
        ensures
            r == operator_at(self.ts(), self.pos as int, operator@),
    {
        if self.pos < self.tokens.len() {
            match &self.tokens[self.pos].kind {
                TokenKind::Operator(v) => str_eq(v.as_str(), operator),
                _ => false,
            }
        } else {
            false
        }
    }

    fn match_keyword(&mut self, keyword: &str) -> (r: bool)
        requires
            old(self).wf(),
        ensures
            old(self).moved_to(&*final(self)),
            r == ident_at(old(self).ts(), old(self).pos as int, keyword@),
            final(self).pos == old(self).pos + if r { 1int } else { 0int },
    {
        if self.check_keyword(keyword) {
            self.advance();
            true
        } else {
            false
        }
    }

    fn match_symbol(&mut self, symbol: char) -> (r: bool)
        requires
            old(self).wf(),
        ensures
            old(self).moved_to(&*final(self)),
            r == symbol_at(old(self).ts(), old(self).pos as int, symbol),
            final(self).pos == old(self).pos + if r { 1int } else { 0int },
    {
        if self.check_symbol(symbol) {
            self.advance();
            true
        } else {
            false
        }
    }

    fn match_operator(&mut self, operator: &str) -> (r: bool)
        requires
            old(self).wf(),
        ensures
            old(self).moved_to(&*final(self)),
            r == operator_at(old(self).ts(), old(self).pos as int, operator@),
            final(self).pos == old(self).pos + if r { 1int } else { 0int },
    {
        if self.check_operator(operator) {
            self.advance();
            true
        } else {
            false
        }
    }

    fn expect_keyword(&mut self, keyword: &str) -> (r: Result<(), RustToPythonError>)
        requires
            old(self).wf(),
        ensures
            old(self).moved_to(&*final(self)),
            done_pos(r, final(self).pos as int, if ident_at(old(self).ts(), old(self).pos as int, keyword@) {
                Ok(old(self).pos + 1)
            } else {
                Err(err_here(old(self).ts(), old(self).pos as int, needed(keyword@)))
            }),
    {
        if self.match_keyword(keyword) {
            Ok(())
        } else {
            let mut m: Vec<char> = Vec::new();
            push_str(&mut m, "`");
            push_str(&mut m, keyword);
            push_str(&mut m, "` が必要です");
            let (line, column) = self.here();
            proof {
                assert(m@ =~= needed(keyword@));
            }
            Err(RustToPythonError::from_message(string_of(m.as_slice()), line, column))
        }
    }

    fn expect_symbol(&mut self, symbol: char) -> (r: Result<(), RustToPythonError>)
        requires
            old(self).wf(),
        ensures
            old(self).moved_to(&*final(self)),
            done_pos(r, final(self).pos as int, if symbol_at(old(self).ts(), old(self).pos as int, symbol) {
                Ok(old(self).pos + 1)
            } else {
                Err(err_here(old(self).ts(), old(self).pos as int, needed(seq![symbol])))
            }),
    {
        if self.match_symbol(symbol) {
            Ok(())
        } else {
            let mut m: Vec<char> = Vec::new();
            push_str(&mut m, "`");
            m.push(symbol);
            push_str(&mut m, "` が必要です");
            let (line, column) = self.here();
            proof {
                assert(m@ =~= needed(seq![symbol]));
            }
            Err(RustToPythonError::from_message(string_of(m.as_slice()), line, column))
        }
    }

    fn expect_operator(&mut self, operator: &str) -> (r: Result<(), RustToPythonError>)
        requires
            old(self).wf(),
        ensures
            old(self).moved_to(&*final(self)),
            done_pos(r, final(self).pos as int, if operator_at(old(self).ts(), old(self).pos as int, operator@) {
                Ok(old(self).pos + 1)
            } else {
                Err(err_here(old(self).ts(), old(self).pos as int, needed(operator@)))
            }),
    {
        if self.match_operator(operator) {
            Ok(())
        } else {
            let mut m: Vec<char> = Vec::new();
            push_str(&mut m, "`");
            push_str(&mut m, operator);
            push_str(&mut m, "` が必要です");
            let (line, column) = self.here();
            proof {
                assert(m@ =~= needed(operator@));
            }
            Err(RustToPythonError::from_message(string_of(m.as_slice()), line, column))
        }
    }

    /// `;`, or the error `message` here.
    fn expect_semicolon(&mut self, message: &str) -> (r: Result<(), RustToPythonError>)
        requires
            old(self).wf(),
        ensures
            old(self).moved_to(&*final(self)),
            done_pos(r, final(self).pos as int, if symbol_at(old(self).ts(), old(self).pos as int, ';') {
                Ok(old(self).pos + 1)
            } else {
                Err(err_here(old(self).ts(), old(self).pos as int, message@))
            }),
    {
        if self.match_symbol(';') {
            Ok(())
        } else {
            Err(self.error_here(message))
        }
    }

    /// The identifier at the current token, without moving.
    fn peek_ident(&self, message: &str) -> (r: Result<String, RustToPythonError>)
        ensures
            match ident_text(self.ts(), self.pos as int) {
                Some(v) => r matches Ok(s) && s@ == v,
                None => r matches Err(e) && e.view_diag() == err_here(self.ts(), self.pos as int, message@),
            },
    {
        if self.pos < self.tokens.len() {
            match &self.tokens[self.pos].kind {
                TokenKind::Ident(v) => Ok(v.clone()),
                _ => Err(self.error_here(message)),
            }
        } else {
            Err(self.error_here(message))
        }
    }

    /// Takes the identifier at the current token.
    fn expect_ident(&mut self, message: &str) -> (r: Result<String, RustToPythonError>)
        requires
            old(self).wf(),
        ensures
            old(self).moved_to(&*final(self)),
            match ident_text(old(self).ts(), old(self).pos as int) {
                Some(v) => r matches Ok(s) && s@ == v && final(self).pos == old(self).pos + 1,
                None => r matches Err(e) && e.view_diag() == err_here(old(self).ts(), old(self).pos as int, message@),
            },
    {
        let v = self.peek_ident(message)?;
        self.advance();
        Ok(v)
    }

    /// Takes a comment token, if the current token is one.
    fn match_comment(&mut self) -> (r: Option<String>)
        requires
            old(self).wf(),
        ensures
            old(self).moved_to(&*final(self)),
            match comment_text(old(self).ts(), old(self).pos as int) {
                Some(v) => r matches Some(s) && s@ == v && final(self).pos == old(self).pos + 1,
                None => r is None && final(self).pos == old(self).pos,
            },
    {
        if self.pos < self.tokens.len() {
            match &self.tokens[self.pos].kind {
                TokenKind::Comment(v) => {
                    let v = v.clone();
                    self.advance();
                    Some(v)
                },
                _ => None,
            }
        } else {
            None
        }
    }

    /// The position of the token before the current one.
    fn previous_position(&self) -> (r: (usize, usize))
        requires
            0 < self.pos <= self.tokens@.len(),
        ensures
            r.0 as int == self.ts()[self.pos - 1].line && r.1 as int == self.ts()[self.pos - 1].column,
    {
        (self.tokens[self.pos - 1].line, self.tokens[self.pos - 1].column)
    }

    /// Fails with `message` when `expr` is empty.
    fn require_expr(&self, expr: &Expr, message: &str) -> (r: Result<(), RustToPythonError>)
        ensures
            r is Ok <==> expr.tokens@.len() > 0,
            r matches Err(e) ==> e.view_diag() == err_here(self.ts(), self.pos as int, message@),
    {
        if !expr.is_empty() {
            Ok(())
        } else {
            Err(self.error_here(message))
        }
    }

    // -----------------------------------------------------------------------------
    // Scanning steps

    /// Skips `<...>`, nested angle brackets included.
    fn skip_generics(&mut self) -> (r: Result<(), RustToPythonError>)
        requires
            old(self).wf(),
        ensures
            old(self).moved_to(&*final(self)),
            r is Ok ==> final(self).pos > old(self).pos,
            done_pos(r, final(self).pos as int, generics_spec(old(self).ts(), old(self).pos as int)),
    {
        let ghost ts = self.ts();
        let ghost p0 = self.pos as int;
        self.expect_operator("<")?;
        let ghost start = self.pos as int;
        let mut depth: usize = 1;
        while !self.is_eof()
            invariant
                old(self).moved_to(&*self),
                ts == old(self).ts() && ts == self.ts() && p0 == old(self).pos,
                old(self).pos < start <= self.pos,
                1 <= depth <= self.pos - start + 1,
                generics_spec(ts, p0) == generics_from(ts, self.pos as int, depth as int),
            decreases self.tokens@.len() - self.pos,
        {
            if self.match_operator("<") {
                depth = depth + 1;
                continue;
            }
            if self.match_operator(">") {
                depth = depth - 1;
                if depth == 0 {
                    return Ok(());
                }
                continue;
            }
            self.advance();
        }
        Err(self.error_at_end("generics の `>` が必要です"))
    }

    /// Skips a parameter's type, up to the `=`, `,` or `)` that ends it.
    fn skip_param_type(&mut self) -> (r: Result<(), RustToPythonError>)
        requires
            old(self).wf(),
        ensures
            old(self).moved_to(&*final(self)),
            done_pos(r, final(self).pos as int, param_type_from(old(self).ts(), old(self).pos as int, zero_depth(), 0)),
    {
        let ghost ts = self.ts();
        let ghost start = self.pos as int;
        let mut depth = Depth::new();
        let mut angle: usize = 0;
        let tokens = self.tokens;
        while self.pos < tokens.len()
            invariant
                old(self).moved_to(&*self),
                tokens@ == self.tokens@,
                ts == old(self).ts() && ts == self.ts() && start == old(self).pos,
                depth.bounded(self.pos - start),
                angle <= self.pos - start,
                param_type_from(ts, start, zero_depth(), 0) == param_type_from(ts, self.pos as int, depth.view_d(), angle as int),
            decreases self.tokens@.len() - self.pos,
        {
            let top = depth.is_top_level() && angle == 0;
            match &tokens[self.pos].kind {
                TokenKind::Operator(v) => {
                    if str_eq(v.as_str(), "<") {
                        angle = angle + 1;
                    } else if str_eq(v.as_str(), ">") && angle > 0 {
                        angle = angle - 1;
                    } else if str_eq(v.as_str(), "=") && top {
                        return Ok(());
                    }
                },
                TokenKind::Symbol(c) => {
                    if (*c == ',' || *c == ')') && top {
                        return Ok(());
                    }
                },
                _ => {},
            }
            depth.observe(&tokens[self.pos].kind);
            self.advance();
        }
        Err(self.error_at_end("引数リストが閉じられていません"))
    }

    /// Collects the expression tokens up to the first top-level `symbol`, which is
    /// left in place; `;`, `}` at top level, a comment or the end of input fail.
    fn collect_expr_until_symbol(&mut self, symbol: char, missing_message: &str) -> (r: Result<Expr, RustToPythonError>)
        requires
            old(self).wf(),
        ensures
            old(self).moved_to(&*final(self)),
            done_expr(r, final(self).pos as int, expr_until_symbol(old(self).ts(), old(self).pos as int, symbol, missing_message@)),
    {
        let ghost ts = self.ts();
        let ghost start = self.pos as int;
        let start_pos = self.pos;
        let mut toks: Vec<ExprToken> = Vec::new();
        let mut depth = Depth::new();
        let tokens = self.tokens;
        proof {
            assert(etoks_view(toks@) =~= Seq::<ExprTokV>::empty());
        }
        while self.pos < tokens.len()
            invariant
                old(self).moved_to(&*self),
                tokens@ == self.tokens@,
                ts == old(self).ts() && ts == self.ts() && start == old(self).pos && start_pos == start,
                depth.bounded(self.pos - start),
                until_symbol_from(ts, start, symbol, missing_message@, zero_depth(), Seq::empty())
                    == until_symbol_from(ts, self.pos as int, symbol, missing_message@, depth.view_d(), etoks_view(toks@)),
            decreases self.tokens@.len() - self.pos,
        {
            let token = &tokens[self.pos];
            let top = depth.is_top_level();
            match &token.kind {
                TokenKind::Symbol(c) => {
                    if *c == symbol && top {
                        return match check_tokens(tokens, start_pos, self.pos, false) {
                            Ok(()) => Ok(Expr::new(toks)),
                            Err(e) => Err(e),
                        };
                    }
                    if (*c == ';' || *c == '}') && top {
                        return Err(RustToPythonError::new(missing_message, token.line, token.column));
                    }
                },
                TokenKind::Comment(_) => {
                    return Err(RustToPythonError::new(missing_message, token.line, token.column));
                },
                _ => {},
            }
            let ghost before = etoks_view(toks@);
            depth.observe(&token.kind);
            match token.expr_token() {
                Some(t) => toks.push(t),
                None => {},
            }
            proof {
                assert(etoks_view(toks@) =~= with_tok(before, token.kind.view_kind()));
            }
            self.advance();
        }
        Err(self.error_at_end(missing_message))
    }

    /// Collects the expression tokens up to the top-level `;`, which is consumed;
    /// `}` at top level, a comment or the end of input fail.
    fn collect_expr_until_semicolon(&mut self, missing_message: &str) -> (r: Result<Expr, RustToPythonError>)
        requires
            old(self).wf(),
        ensures
            old(self).moved_to(&*final(self)),
            r is Ok ==> final(self).pos > old(self).pos,
            done_expr(r, final(self).pos as int, expr_until_semicolon(old(self).ts(), old(self).pos as int, missing_message@)),
    {
        let ghost ts = self.ts();
        let ghost start = self.pos as int;
        let start_pos = self.pos;
        let mut toks: Vec<ExprToken> = Vec::new();
        let mut depth = Depth::new();
        let tokens = self.tokens;
        proof {
            assert(etoks_view(toks@) =~= Seq::<ExprTokV>::empty());
        }
        while self.pos < tokens.len()
            invariant
                old(self).moved_to(&*self),
                tokens@ == self.tokens@,
                ts == old(self).ts() && ts == self.ts() && start == old(self).pos && start_pos == start,
                depth.bounded(self.pos - start),
                until_semicolon_from(ts, start, missing_message@, zero_depth(), Seq::empty())
                    == until_semicolon_from(ts, self.pos as int, missing_message@, depth.view_d(), etoks_view(toks@)),
            decreases self.tokens@.len() - self.pos,
        {
            let token = &tokens[self.pos];
            let top = depth.is_top_level();
            match &token.kind {
                TokenKind::Symbol(c) => {
                    if *c == ';' && top {
                        let end = self.pos;
                        self.advance();
                        return match check_tokens(tokens, start_pos, end, false) {
                            Ok(()) => Ok(Expr::new(toks)),
                            Err(e) => Err(e),
                        };
                    }
                    if *c == '}' && top {
                        return Err(RustToPythonError::new(missing_message, token.line, token.column));
                    }
                },
                TokenKind::Comment(_) => {
                    return Err(RustToPythonError::new(missing_message, token.line, token.column));
                },
                _ => {},
            }
            let ghost before = etoks_view(toks@);
            depth.observe(&token.kind);
            match token.expr_token() {
                Some(t) => toks.push(t),
                None => {},
            }
            proof {
                assert(etoks_view(toks@) =~= with_tok(before, token.kind.view_kind()));
            }
            self.advance();
        }
        Err(self.error_at_end(missing_message))
    }

    /// Collects a `for` loop's iterable: the tokens up to the first top-level `{` that
    /// follows at least one token.
    fn collect_for_iterable_expr(&mut self) -> (r: Result<Expr, RustToPythonError>)
        requires
            old(self).wf(),
        ensures
            old(self).moved_to(&*final(self)),
            r matches Ok(e) ==> e.tokens@.len() > 0,
            done_expr(r, final(self).pos as int, for_iterable(old(self).ts(), old(self).pos as int)),
    {
        let ghost ts = self.ts();
        let ghost start = self.pos as int;
        let start_pos = self.pos;
        let mut toks: Vec<ExprToken> = Vec::new();
        let mut depth = Depth::new();
        let tokens = self.tokens;
        proof {
            assert(etoks_view(toks@) =~= Seq::<ExprTokV>::empty());
        }
        while self.pos < tokens.len()
            invariant
                old(self).moved_to(&*self),
                tokens@ == self.tokens@,
                ts == old(self).ts() && ts == self.ts() && start == old(self).pos && start_pos == start,
                depth.bounded(self.pos - start),
                for_iter_from(ts, start, zero_depth(), Seq::empty()) == for_iter_from(ts, self.pos as int, depth.view_d(), etoks_view(toks@)),
            decreases self.tokens@.len() - self.pos,
        {
            let token = &tokens[self.pos];
            let top = depth.is_top_level();
            match &token.kind {
                TokenKind::Symbol(c) => {
                    if *c == '{' && top && toks.len() > 0 {
                        return match check_tokens(tokens, start_pos, self.pos, false) {
                            Ok(()) => Ok(Expr::new(toks)),
                            Err(e) => Err(e),
                        };
                    }
                    if (*c == ';' || *c == '}') && top {
                        return Err(RustToPythonError::new("for の後に `{` が必要です", token.line, token.column));
                    }
                },
                TokenKind::Comment(_) => {
                    return Err(RustToPythonError::new("for の後に `{` が必要です", token.line, token.column));
                },
                _ => {},
            }
            let ghost before = etoks_view(toks@);
            depth.observe(&token.kind);
            match token.expr_token() {
                Some(t) => toks.push(t),
                None => {},
            }
            proof {
                assert(etoks_view(toks@) =~= with_tok(before, token.kind.view_kind()));
            }
            self.advance();
        }
        Err(self.error_at_end("for の後に `{` が必要です"))
    }

    /// Collects a parameter's default value: the tokens up to the top-level `,` or `)`.
    fn collect_default_value(&mut self) -> (r: Result<Expr, RustToPythonError>)
        requires
            old(self).wf(),
        ensures
            old(self).moved_to(&*final(self)),
            done_expr(r, final(self).pos as int, default_from(old(self).ts(), old(self).pos as int, zero_depth(), Seq::empty())),
    {
        let ghost ts = self.ts();
        let ghost start = self.pos as int;
        let mut toks: Vec<ExprToken> = Vec::new();
        let mut depth = Depth::new();
        let tokens = self.tokens;
        proof {
            assert(etoks_view(toks@) =~= Seq::<ExprTokV>::empty());
        }
        while self.pos < tokens.len()
            invariant
                old(self).moved_to(&*self),
                tokens@ == self.tokens@,
                ts == old(self).ts() && ts == self.ts() && start == old(self).pos,
                depth.bounded(self.pos - start),
                default_from(ts, start, zero_depth(), Seq::empty()) == default_from(ts, self.pos as int, depth.view_d(), etoks_view(toks@)),
            decreases self.tokens@.len() - self.pos,
        {
            let token = &tokens[self.pos];
            let top = depth.is_top_level();
            match &token.kind {
                TokenKind::Symbol(c) => {
                    if (*c == ',' || *c == ')') && top {
                        return Ok(Expr::new(toks));
                    }
                    if (*c == ';' || *c == '}') && top {
                        return Err(RustToPythonError::new("引数リストが閉じられていません", token.line, token.column));
                    }
                },
                TokenKind::Comment(_) => {
                    return Err(RustToPythonError::new("引数リストが閉じられていません", token.line, token.column));
                },
                _ => {},
            }
            let ghost before = etoks_view(toks@);
            depth.observe(&token.kind);
            match token.expr_token() {
                Some(t) => toks.push(t),
                None => {},
            }
            proof {
                assert(etoks_view(toks@) =~= with_tok(before, token.kind.view_kind()));
            }
            self.advance();
        }
        Err(self.error_at_end("引数リストが閉じられていません"))
    }

    /// Skips a return type, up to the `{` of the body.
    fn skip_return_type(&mut self) -> (r: Result<(), RustToPythonError>)
        requires
            old(self).wf(),
        ensures
            old(self).moved_to(&*final(self)),
            done_pos(r, final(self).pos as int, return_type_from(old(self).ts(), old(self).pos as int)),
    {
        let ghost ts = self.ts();
        let ghost start = self.pos as int;
        let tokens = self.tokens;
        while !self.check_symbol('{')
            invariant
                old(self).moved_to(&*self),
                tokens@ == self.tokens@,
                ts == old(self).ts() && ts == self.ts() && start == old(self).pos,
                return_type_from(ts, start) == return_type_from(ts, self.pos as int),
            decreases self.tokens@.len() - self.pos,
        {
            if self.pos >= tokens.len() {
                return Err(self.error_at_end("関数本体の `{` が必要です"));
            }
            let token = &tokens[self.pos];
            match &token.kind {
                TokenKind::Symbol(c) => {
                    if *c == ';' || *c == '}' {
                        return Err(RustToPythonError::new("関数本体の `{` が必要です", token.line, token.column));
                    }
                },
                TokenKind::Comment(_) => {
                    return Err(RustToPythonError::new("関数本体の `{` が必要です", token.line, token.column));
                },
                _ => {},
            }
            self.advance();
        }
        Ok(())
    }

    /// Skips a `let` type annotation, up to the top-level `=`.
    fn skip_let_type(&mut self) -> (r: Result<(), RustToPythonError>)
        requires
            old(self).wf(),
        ensures
            old(self).moved_to(&*final(self)),
            done_pos(r, final(self).pos as int, let_type_from(old(self).ts(), old(self).pos as int, zero_depth(), 0)),
    {
        let ghost ts = self.ts();
        let ghost start = self.pos as int;
        let mut depth = Depth::new();
        let mut angle: usize = 0;
        let tokens = self.tokens;
        while self.pos < tokens.len()
            invariant
                old(self).moved_to(&*self),
                tokens@ == self.tokens@,
                ts == old(self).ts() && ts == self.ts() && start == old(self).pos,
                depth.bounded(self.pos - start),
                angle <= self.pos - start,
                let_type_from(ts, start, zero_depth(), 0) == let_type_from(ts, self.pos as int, depth.view_d(), angle as int),
            decreases self.tokens@.len() - self.pos,
        {
            let token = &tokens[self.pos];
            let top = depth.is_top_level();
            match &token.kind {
                TokenKind::Operator(v) => {
                    if str_eq(v.as_str(), "<") {
                        angle = angle + 1;
                    } else if str_eq(v.as_str(), ">") && angle > 0 {
                        angle = angle - 1;
                    } else if str_eq(v.as_str(), "=") && top && angle == 0 {
                        return Ok(());
                    }
                },
                TokenKind::Symbol(c) => {
                    if (*c == ';' || *c == '}') && top {
                        return Err(RustToPythonError::new("let 文には `=` が必要です", token.line, token.column));
                    }
                },
                _ => {},
            }
            depth.observe(&token.kind);
            self.advance();
        }
        Err(self.error_at_end("let 文には `=` が必要です"))
    }

    /// Skips up to and including the top-level `;`.
    fn skip_statement_until_semicolon(&mut self, missing_message: &str) -> (r: Result<(), RustToPythonError>)
        requires
            old(self).wf(),
        ensures
            old(self).moved_to(&*final(self)),
            r is Ok ==> final(self).pos > old(self).pos,
            done_pos(r, final(self).pos as int, semicolon_from(old(self).ts(), old(self).pos as int, missing_message@, zero_depth())),
    {
        let ghost ts = self.ts();
        let ghost start = self.pos as int;
        let mut depth = Depth::new();
        let tokens = self.tokens;
        while self.pos < tokens.len()
            invariant
                old(self).moved_to(&*self),
                tokens@ == self.tokens@,
                ts == old(self).ts() && ts == self.ts() && start == old(self).pos,
                depth.bounded(self.pos - start),
                semicolon_from(ts, start, missing_message@, zero_depth()) == semicolon_from(ts, self.pos as int, missing_message@, depth.view_d()),
            decreases self.tokens@.len() - self.pos,
        {
            let token = &tokens[self.pos];
            let top = depth.is_top_level();
            match &token.kind {
                TokenKind::Symbol(c) => {
                    if *c == ';' && top {
                        self.advance();
                        return Ok(());
                    }
                    if *c == '}' && top {
                        return Err(RustToPythonError::new(missing_message, token.line, token.column));
                    }
                },
                _ => {},
            }
            depth.observe(&token.kind);
            self.advance();
        }
        Err(self.error_at_end(missing_message))
    }

    /// Skips a field's type, up to the top-level `,` or `close`.
    #[verifier::rlimit(40)]
    fn skip_type_until_field_separator(&mut self, close: char) -> (r: Result<(), RustToPythonError>)
        requires
            old(self).wf(),
        ensures
            old(self).moved_to(&*final(self)),
            done_pos(r, final(self).pos as int, field_type_from(old(self).ts(), old(self).pos as int, close, zero_depth())),
    {
        let ghost ts = self.ts();
        let ghost start = self.pos as int;
        let mut depth = Depth::new();
        let tokens = self.tokens;
        while self.pos < tokens.len()
            invariant
                old(self).moved_to(&*self),
                tokens@ == self.tokens@,
                ts == old(self).ts() && ts == self.ts() && start == old(self).pos,
                depth.bounded(self.pos - start),
                field_type_from(ts, start, close, zero_depth()) == field_type_from(ts, self.pos as int, close, depth.view_d()),
            decreases self.tokens@.len() - self.pos,
        {
            let token = &tokens[self.pos];
            let top = depth.is_top_level();
            match &token.kind {
                TokenKind::Symbol(c) => {
                    if (*c == ',' || *c == close) && top {
                        return Ok(());
                    }
                },
                TokenKind::Comment(_) => {
                    return Err(RustToPythonError::new("型注釈が閉じられていません", token.line, token.column));
                },
                _ => {},
            }
            depth.observe(&token.kind);
            self.advance();
        }
        Err(self.error_at_end("型注釈が閉じられていません"))
    }

    /// Skips up to the top-level `,` or `close` that ends an enum variant's value.
    fn skip_until_item_separator(&mut self, close: char) -> (r: Result<(), RustToPythonError>)
        requires
            old(self).wf(),
        ensures
            old(self).moved_to(&*final(self)),
            done_pos(r, final(self).pos as int, item_value_from(old(self).ts(), old(self).pos as int, close, zero_depth())),
    {
        let ghost ts = self.ts();
        let ghost start = self.pos as int;
        let mut depth = Depth::new();
        let tokens = self.tokens;
        while self.pos < tokens.len()
            invariant
                old(self).moved_to(&*self),
                tokens@ == self.tokens@,
                ts == old(self).ts() && ts == self.ts() && start == old(self).pos,
                depth.bounded(self.pos - start),
                item_value_from(ts, start, close, zero_depth()) == item_value_from(ts, self.pos as int, close, depth.view_d()),
            decreases self.tokens@.len() - self.pos,
        {
            let token = &tokens[self.pos];
            let top = depth.is_top_level();
            match &token.kind {
                TokenKind::Symbol(c) => {
                    if (*c == ',' || *c == close) && top {
                        return Ok(());
                    }
                },
                _ => {},
            }
            depth.observe(&token.kind);
            self.advance();
        }
        Err(self.error_at_end("項目が閉じられていません"))
    }

    /// The identifiers of an `impl` header, up to the top-level `{`.
    #[verifier::rlimit(40)]
    fn collect_idents_until_block(&mut self, missing_message: &str) -> (r: Result<Vec<String>, RustToPythonError>)
        requires
            old(self).wf(),
        ensures
            old(self).moved_to(&*final(self)),
            done_names(r, final(self).pos as int, idents_from(old(self).ts(), old(self).pos as int, missing_message@, zero_depth(), Seq::empty())),
    {
        let ghost ts = self.ts();
        let ghost start = self.pos as int;
        let mut idents: Vec<String> = Vec::new();
        let mut depth = Depth::new();
        let tokens = self.tokens;
        proof {
            assert(strings_view(idents@) =~= Seq::<Seq<char>>::empty());
        }
        while self.pos < tokens.len()
            invariant
                old(self).moved_to(&*self),
                tokens@ == self.tokens@,
                ts == old(self).ts() && ts == self.ts() && start == old(self).pos,
                depth.bounded(self.pos - start),
                idents_from(ts, start, missing_message@, zero_depth(), Seq::empty())
                    == idents_from(ts, self.pos as int, missing_message@, depth.view_d(), strings_view(idents@)),
            decreases self.tokens@.len() - self.pos,
        {
            let token = &tokens[self.pos];
            let top = depth.is_top_level();
            let ghost before = strings_view(idents@);
            match &token.kind {
                TokenKind::Symbol(c) => {
                    if *c == '{' && top {
                        return Ok(idents);
                    }
                    if (*c == ';' || *c == '}') && top {
                        return Err(RustToPythonError::new(missing_message, token.line, token.column));
                    }
                },
                TokenKind::Ident(v) => {
                    idents.push(v.clone());
                    proof {
                        assert(strings_view(idents@) =~= before.push(v@));
                    }
                },
                _ => {},
            }
            depth.observe(&token.kind);
            self.advance();
        }
        Err(self.error_at_end(missing_message))
    }

    /// Skips from `open` to its matching `close`.
    fn skip_balanced_symbol(&mut self, open: char, close: char) -> (r: Result<(), RustToPythonError>)
        requires
            old(self).wf(),
        ensures
            old(self).moved_to(&*final(self)),
            r is Ok ==> final(self).pos > old(self).pos,
            done_pos(r, final(self).pos as int, balanced_spec(old(self).ts(), old(self).pos as int, open, close)),
    {
        let ghost ts = self.ts();
        let ghost p0 = self.pos as int;
        self.expect_symbol(open)?;
        let ghost start = self.pos as int;
        let mut depth: usize = 1;
        let tokens = self.tokens;
        while self.pos < tokens.len()
            invariant
                old(self).moved_to(&*self),
                tokens@ == self.tokens@,
                ts == old(self).ts() && ts == self.ts() && p0 == old(self).pos,
                old(self).pos < start <= self.pos,
                1 <= depth <= self.pos - start + 1,
                balanced_spec(ts, p0, open, close) == balanced_from(ts, self.pos as int, open, close, depth as int),
            decreases self.tokens@.len() - self.pos,
        {
            let is_open = match &tokens[self.pos].kind {
                TokenKind::Symbol(c) => *c == open,
                _ => false,
            };
            let is_close = match &tokens[self.pos].kind {
                TokenKind::Symbol(c) => *c == close,
                _ => false,
            };
            self.advance();
            if is_open {
                depth = depth + 1;
            } else if is_close {
                depth = depth - 1;
                if depth == 0 {
                    return Ok(());
                }
            }
        }
        let mut m: Vec<char> = Vec::new();
        push_str(&mut m, "`");
        m.push(close);
        push_str(&mut m, "` が必要です");
        let (line, column) = self.end_position();
        proof {
            assert(m@ =~= needed(seq![close]));
        }
        Err(RustToPythonError::from_message(string_of(m.as_slice()), line, column))
    }

    /// Skips an item such as a trait: its header and then `;` or a `{...}` block.
    fn skip_item_header_and_block(&mut self, missing_message: &str) -> (r: Result<(), RustToPythonError>)
        requires
            old(self).wf(),
        ensures
            old(self).moved_to(&*final(self)),
            r is Ok ==> final(self).pos > old(self).pos,
            done_pos(r, final(self).pos as int, item_block_from(old(self).ts(), old(self).pos as int, missing_message@, zero_depth())),
    {
        let ghost ts = self.ts();
        let ghost start = self.pos as int;
        let mut depth = Depth::new();
        let tokens = self.tokens;
        while self.pos < tokens.len()
            invariant
                old(self).moved_to(&*self),
                tokens@ == self.tokens@,
                ts == old(self).ts() && ts == self.ts() && start == old(self).pos,
                depth.bounded(self.pos - start),
                item_block_from(ts, start, missing_message@, zero_depth()) == item_block_from(ts, self.pos as int, missing_message@, depth.view_d()),
            decreases self.tokens@.len() - self.pos,
        {
            let token = &tokens[self.pos];
            let top = depth.is_top_level();
            match &token.kind {
                TokenKind::Symbol(c) => {
                    if *c == ';' && top {
                        self.advance();
                        return Ok(());
                    }
                    if *c == '{' && top {
                        return self.skip_balanced_symbol('{', '}');
                    }
                    if *c == '}' && top {
                        return Err(RustToPythonError::new(missing_message, token.line, token.column));
                    }
                },
                _ => {},
            }
            depth.observe(&token.kind);
            self.advance();
        }
        Err(self.error_at_end(missing_message))
    }

    /// Skips a macro definition: up to `;`, or a bracketed body and an optional `;`.
    fn skip_macro_item(&mut self) -> (r: Result<(), RustToPythonError>)
        requires
            old(self).wf(),
        ensures
            old(self).moved_to(&*final(self)),
            r is Ok ==> final(self).pos > old(self).pos,
            done_pos(r, final(self).pos as int, macro_from(old(self).ts(), old(self).pos as int)),
    {
        let ghost ts = self.ts();
        let ghost start = self.pos as int;
        let tokens = self.tokens;
        while self.pos < tokens.len()
            invariant
                old(self).moved_to(&*self),
                tokens@ == self.tokens@,
                ts == old(self).ts() && ts == self.ts() && start == old(self).pos,
                macro_from(ts, start) == macro_from(ts, self.pos as int),
            decreases self.tokens@.len() - self.pos,
        {
            let bracket = match &tokens[self.pos].kind {
                TokenKind::Symbol(c) => if *c == '{' {
                    Some(('{', '}'))
                } else if *c == '(' {
                    Some(('(', ')'))
                } else if *c == '[' {
                    Some(('[', ']'))
                } else {
                    None
                },
                _ => None,
            };
            match bracket {
                Some((open, close)) => {
                    self.skip_balanced_symbol(open, close)?;
                    self.match_symbol(';');
                    return Ok(());
                },
                None => {},
            }
            if self.match_symbol(';') {
                return Ok(());
            }
            self.advance();
        }
        Err(self.error_at_end("macro 定義が閉じられていません"))
    }

    /// `pub`, and `pub(...)`.
    fn match_visibility(&mut self) -> (r: Result<bool, RustToPythonError>)
        requires
            old(self).wf(),
        ensures
            old(self).moved_to(&*final(self)),
            done_flag(r, final(self).pos as int, visibility_spec(old(self).ts(), old(self).pos as int)),
    {
        if !self.match_keyword("pub") {
            return Ok(false);
        }
        if self.check_symbol('(') {
            self.skip_balanced_symbol('(', ')')?;
        }
        Ok(true)
    }

    /// Whether the tokens from the current one are `use transplanter_rust::prelude::*;`.
    fn check_prelude_import(&self) -> (r: bool)
        requires
            self.wf(),
        ensures
            r == prelude_at(self.ts(), self.pos as int),
            r ==> self.pos + 7 <= self.tokens@.len(),
    {
        let tokens = self.tokens;
        if tokens.len() - self.pos < 7 {
            return false;
        }
        let p = self.pos;
        let a = match &tokens[p].kind { TokenKind::Ident(v) => str_eq(v.as_str(), "use"), _ => false };
        let b = match &tokens[p + 1].kind { TokenKind::Ident(v) => str_eq(v.as_str(), "transplanter_rust"), _ => false };
        let c = match &tokens[p + 2].kind { TokenKind::Operator(v) => str_eq(v.as_str(), "::"), _ => false };
        let d = match &tokens[p + 3].kind { TokenKind::Ident(v) => str_eq(v.as_str(), "prelude"), _ => false };
        let e = match &tokens[p + 4].kind { TokenKind::Operator(v) => str_eq(v.as_str(), "::"), _ => false };
        let f = match &tokens[p + 5].kind { TokenKind::Operator(v) => str_eq(v.as_str(), "*"), _ => false };
        let g = match &tokens[p + 6].kind { TokenKind::Symbol(c) => *c == ';', _ => false };
        a && b && c && d && e && f && g
    }

    /// Skips a `use` item.
    fn match_use_statement(&mut self) -> (r: Result<bool, RustToPythonError>)
        requires
            old(self).wf(),
        ensures
            old(self).moved_to(&*final(self)),
            r matches Ok(b) ==> (b ==> final(self).pos > old(self).pos),
            done_flag(r, final(self).pos as int, use_spec(old(self).ts(), old(self).pos as int)),
    {
        if !self.check_keyword("use") {
            return Ok(false);
        }
        let total = self.tokens.len();
        if self.check_prelude_import() {
            self.pos = self.pos + 7;
            return Ok(true);
        }
        self.advance();
        self.skip_statement_until_semicolon("use 文の後に `;` が必要です")?;
        Ok(true)
    }

    // -----------------------------------------------------------------------------
    // Functions and statements

    /// A parameter list, up to (not including) the closing `)`.
    fn parse_params(&mut self) -> (r: Result<Vec<FunctionParam>, RustToPythonError>)
        requires
            old(self).wf(),
        ensures
            old(self).moved_to(&*final(self)),
            done_params(r, final(self).pos as int, params_from(old(self).ts(), old(self).pos as int, Seq::empty())),
    {
        let ghost ts = self.ts();
        let ghost start = self.pos as int;
        let mut params: Vec<FunctionParam> = Vec::new();
        proof {
            assert(params@.map_values(|x: FunctionParam| param_v(x)) =~= Seq::<ParamV>::empty());
        }
        while !self.check_symbol(')')
            invariant
                old(self).moved_to(&*self),
                ts == old(self).ts() && ts == self.ts() && start == old(self).pos,
                params_from(ts, start, Seq::empty()) == params_from(ts, self.pos as int, params@.map_values(|x: FunctionParam| param_v(x))),
            decreases self.tokens@.len() - self.pos,
        {
            let ghost q = self.pos as int;
            let ghost acc = params@.map_values(|x: FunctionParam| param_v(x));
            self.match_operator("&");
            self.match_keyword("mut");
            let name = self.expect_ident("引数名が必要です")?;
            if self.match_symbol(':') {
                self.skip_param_type()?;
            }
            let default = if self.match_operator("=") {
                let value = self.collect_default_value()?;
                self.require_expr(&value, "デフォルト引数の値が必要です")?;
                Some(value)
            } else {
                None
            };
            let param = FunctionParam { name, default };
            let ghost pv = param_v(param);
            params.push(param);
            proof {
                assert(params@.map_values(|x: FunctionParam| param_v(x)) =~= acc.push(pv));
            }
            if !self.match_symbol(',') {
                return Ok(params);
            }
        }
        Ok(params)
    }

    /// The rest of a function after `fn`: name, generics, parameters, return type, body.
    fn parse_function_after_fn(&mut self) -> (r: Result<Function, RustToPythonError>)
        requires
            old(self).wf(),
        ensures
            old(self).moved_to(&*final(self)),
            r is Ok ==> final(self).pos > old(self).pos,
            done_function(r, final(self).pos as int, function_spec(old(self).ts(), old(self).pos as int)),
        decreases old(self).tokens@.len() - old(self).pos, 3nat,
    {
        let name = self.expect_ident("関数名が必要です")?;
        self.parse_function_rest(name)
    }

    /// A function whose name is prefixed with its module or impl path.
    fn parse_function_with_name_prefix(&mut self, namespace: &Vec<String>) -> (r: Result<Function, RustToPythonError>)
        requires
            old(self).wf(),
        ensures
            old(self).moved_to(&*final(self)),
            r is Ok ==> final(self).pos > old(self).pos,
            done_function(r, final(self).pos as int, prefixed_function_spec(old(self).ts(), old(self).pos as int, strings_view(namespace@))),
    {
        let declared_name = self.expect_ident("関数名が必要です")?;
        let name = prefixed_name(namespace, &declared_name);
        self.parse_function_rest(name)
    }

    /// Generics, parameters, return type and body of a function named `name`.
    fn parse_function_rest(&mut self, name: String) -> (r: Result<Function, RustToPythonError>)
        requires
            old(self).wf(),
        ensures
            old(self).moved_to(&*final(self)),
            r is Ok ==> final(self).pos > old(self).pos,
            done_function(r, final(self).pos as int, function_rest(old(self).ts(), old(self).pos as int, name@)),
        decreases old(self).tokens@.len() - old(self).pos, 2nat,
    {
        if self.check_operator("<") {
            self.skip_generics()?;
        }
        self.expect_symbol('(')?;
        let params = self.parse_params()?;
        self.expect_symbol(')')?;
        if self.match_operator("->") {
            self.skip_return_type()?;
        }
        let body = self.parse_block()?;
        Ok(Function { name, params, body })
    }

    /// `{ statements }`.
    fn parse_block(&mut self) -> (r: Result<Vec<Stmt>, RustToPythonError>)
        requires
            old(self).wf(),
        ensures
            old(self).moved_to(&*final(self)),
            r is Ok ==> final(self).pos > old(self).pos,
            done_block(r, final(self).pos as int, block_spec(old(self).ts(), old(self).pos as int)),
        decreases old(self).tokens@.len() - old(self).pos, 0nat,
    {
        let ghost ts = self.ts();
        let ghost p0 = self.pos as int;
        self.expect_symbol('{')?;
        let mut body: Vec<Stmt> = Vec::new();
        let ghost start = self.pos as int;
        proof {
            assert(stmts_v(body@) =~= Seq::<StmtV>::empty());
        }
        while !self.check_symbol('}')
            invariant
                old(self).moved_to(&*self),
                ts == old(self).ts() && ts == self.ts() && p0 == old(self).pos,
                old(self).pos < start <= self.pos,
                block_spec(ts, p0) == block_items(ts, self.pos as int, stmts_v(body@)),
            decreases self.tokens@.len() - self.pos,
        {
            if self.is_eof() {
                return Err(self.error_at_end("ブロックが閉じられていません"));
            }
            let ghost acc = stmts_v(body@);
            let stmt = self.parse_stmt()?;
            let ghost sv = stmt_v(stmt);
            body.push(stmt);
            proof {
                assert(stmts_v(body@) =~= acc.push(sv));
            }
        }
        self.expect_symbol('}')?;
        Ok(body)
    }

    /// Items that may appear inside a function body and are dropped from the output.
    fn match_local_metadata_item(&mut self) -> (r: Result<bool, RustToPythonError>)
        requires
            old(self).wf(),
        ensures
            old(self).moved_to(&*final(self)),
            r matches Ok(b) ==> (b ==> final(self).pos > old(self).pos),
            done_flag(r, final(self).pos as int, local_item_spec(old(self).ts(), old(self).pos as int)),
    {
        if self.match_keyword("struct") || self.match_keyword("enum") || self.match_keyword("mod")
            || self.match_keyword("impl") || self.match_keyword("trait") {
            self.skip_item_header_and_block("項目本体の `{` が必要です")?;
            return Ok(true);
        }
        if self.check_keyword("macro_rules") || self.check_keyword("macro") {
            self.advance();
            self.match_operator("!");
            self.skip_macro_item()?;
            return Ok(true);
        }
        Ok(false)
    }

    /// One statement.
    fn parse_stmt(&mut self) -> (r: Result<Stmt, RustToPythonError>)
        requires
            old(self).wf(),
            old(self).pos < old(self).tokens@.len(),
        ensures
            old(self).moved_to(&*final(self)),
            r is Ok ==> final(self).pos > old(self).pos,
            done_stmt(r, final(self).pos as int, stmt_spec(old(self).ts(), old(self).pos as int)),
        decreases old(self).tokens@.len() - old(self).pos, 2nat,
    {
        let ghost p = self.pos as int;
        self.match_visibility()?;
        if self.match_local_metadata_item()? {
            return Ok(Stmt::Noop);
        }
        if let Some(comment) = self.match_comment() {
            return Ok(Stmt::Comment(comment));
        }
        self.parse_stmt_after_starter(Ghost(p))
    }

    /// A statement whose first token, after any `pub`, is the current one; the
    /// statement started at `p`.
    fn parse_stmt_after_starter(&mut self, Ghost(p): Ghost<int>) -> (r: Result<Stmt, RustToPythonError>)
        requires
            old(self).wf(),
            0 <= p <= old(self).pos,
        ensures
            old(self).moved_to(&*final(self)),
            r is Ok ==> final(self).pos > old(self).pos,
            done_stmt(r, final(self).pos as int, stmt_after_starter(old(self).ts(), p, old(self).pos as int)),
        decreases old(self).tokens@.len() - old(self).pos, 1nat,
    {
        if self.match_keyword("use") {
            self.skip_statement_until_semicolon("use 文の後に `;` が必要です")?;
            return Ok(Stmt::Noop);
        }
        if self.match_keyword("fn") {
            let f = self.parse_function_after_fn()?;
            return Ok(Stmt::Function(f));
        }
        if self.match_keyword("loop") {
            let body = self.parse_block()?;
            return Ok(Stmt::Loop(body));
        }
        if self.match_keyword("while") {
            let condition = self.collect_expr_until_symbol('{', "while 条件の後に `{` が必要です")?;
            self.require_expr(&condition, "while 条件が必要です")?;
            let body = self.parse_block()?;
            return Ok(Stmt::While { condition, body });
        }
        if self.match_keyword("if") {
            return self.parse_if_after_keyword();
        }
        if self.match_keyword("for") {
            return self.parse_for_after_keyword();
        }
        if self.match_keyword("let") {
            return self.parse_let_after_keyword();
        }
        if self.match_keyword("break") {
            self.expect_semicolon("break の後に `;` が必要です")?;
            return Ok(Stmt::Break);
        }
        if self.match_keyword("continue") {
            self.expect_semicolon("continue の後に `;` が必要です")?;
            return Ok(Stmt::Continue);
        }
        if self.match_keyword("return") {
            if self.match_symbol(';') {
                return Ok(Stmt::Return(None));
            }
            let value = self.collect_expr_until_semicolon("return 値の後に `;` が必要です")?;
            return Ok(Stmt::Return(Some(value)));
        }
        self.parse_expr_or_assignment_stmt()
    }

    /// `if` condition, block and what follows it.
    fn parse_if_after_keyword(&mut self) -> (r: Result<Stmt, RustToPythonError>)
        requires
            old(self).wf(),
        ensures
            old(self).moved_to(&*final(self)),
            r is Ok ==> final(self).pos > old(self).pos,
            done_stmt(r, final(self).pos as int, if_spec(old(self).ts(), old(self).pos as int)),
        decreases old(self).tokens@.len() - old(self).pos, 1nat,
    {
        let condition = self.collect_expr_until_symbol('{', "if 条件の後に `{` が必要です")?;
        self.require_expr(&condition, "if 条件が必要です")?;
        let then_body = self.parse_block()?;
        let else_branch = self.parse_else_branch()?;
        Ok(Stmt::If { condition, then_body, else_branch })
    }

    /// `else if ...` or `else { ... }`, if present.
    fn parse_else_branch(&mut self) -> (r: Result<Option<ElseBranch>, RustToPythonError>)
        requires
            old(self).wf(),
        ensures
            old(self).moved_to(&*final(self)),
            done_else(r, final(self).pos as int, else_spec(old(self).ts(), old(self).pos as int)),
        decreases old(self).tokens@.len() - old(self).pos, 1nat,
    {
        if !self.match_keyword("else") {
            return Ok(None);
        }
        if self.match_keyword("if") {
            let condition = self.collect_expr_until_symbol('{', "else if 条件の後に `{` が必要です")?;
            self.require_expr(&condition, "else if 条件が必要です")?;
            let then_body = self.parse_block()?;
            let rest = self.parse_else_branch()?;
            let else_branch = match rest {
                Some(b) => Some(Box::new(b)),
                None => None,
            };
            return Ok(Some(ElseBranch::ElseIf { condition, then_body, else_branch }));
        }
        let body = self.parse_block()?;
        Ok(Some(ElseBranch::Else(body)))
    }

    /// `for x in a..b { ... }` or `for x in items { ... }`.
    fn parse_for_after_keyword(&mut self) -> (r: Result<Stmt, RustToPythonError>)
        requires
            old(self).wf(),
        ensures
            old(self).moved_to(&*final(self)),
            r is Ok ==> final(self).pos > old(self).pos,
            done_stmt(r, final(self).pos as int, for_spec(old(self).ts(), old(self).pos as int)),
        decreases old(self).tokens@.len() - old(self).pos, 1nat,
    {
        let variable = self.expect_ident("ループ変数が必要です")?;
        self.expect_keyword("in")?;
        let iterable = self.collect_for_iterable_expr()?;
        self.require_expr(&iterable, "for の対象が必要です")?;
        let body = self.parse_block()?;
        match split_top_level_range(&iterable) {
            Some((start, end)) => {
                self.require_expr(&start, "for 範囲の開始値が必要です")?;
                self.require_expr(&end, "for 範囲の終了値が必要です")?;
                Ok(Stmt::For { variable, start, end, body })
            },
            None => Ok(Stmt::ForEach { variable, iterable, body }),
        }
    }

    /// `let [mut] name [: type] = value;`.
    fn parse_let_after_keyword(&mut self) -> (r: Result<Stmt, RustToPythonError>)
        requires
            old(self).wf(),
        ensures
            old(self).moved_to(&*final(self)),
            r is Ok ==> final(self).pos > old(self).pos,
            done_stmt(r, final(self).pos as int, let_spec(old(self).ts(), old(self).pos as int)),
    {
        self.match_keyword("mut");
        let name = self.expect_ident("let の後に変数名が必要です")?;
        if self.match_symbol(':') {
            self.skip_let_type()?;
        }
        if !self.match_operator("=") {
            return Err(self.error_here("let 文には `=` が必要です"));
        }
        let value = self.collect_expr_until_semicolon("let 文の後に `;` が必要です")?;
        self.require_expr(&value, "let 文には値が必要です")?;
        Ok(Stmt::Let { name, value })
    }

    /// An expression statement, or an assignment when a top-level `=` splits it.
    fn parse_expr_or_assignment_stmt(&mut self) -> (r: Result<Stmt, RustToPythonError>)
        requires
            old(self).wf(),
        ensures
            old(self).moved_to(&*final(self)),
            r is Ok ==> final(self).pos > old(self).pos,
            done_stmt(r, final(self).pos as int, expr_stmt_spec(old(self).ts(), old(self).pos as int)),
    {
        let expr = self.collect_expr_until_semicolon("式文の後に `;` が必要です")?;
        self.require_expr(&expr, "式が必要です")?;
        match top_level_operator_index(&expr, "=") {
            None => Ok(Stmt::Expr(expr)),
            Some(index) => {
                let n = expr.tokens.len();
                let target = Expr::new(copy_tokens(&expr.tokens, 0, index));
                let value = Expr::new(copy_tokens(&expr.tokens, index + 1, n));
                if target.is_empty() || value.is_empty() {
                    let (line, column) = self.previous_position();
                    return Err(RustToPythonError::new("代入文が不正です", line, column));
                }
                Ok(Stmt::Assign { target, value })
            },
        }
    }

    // -----------------------------------------------------------------------------
    // Items

    /// `struct Name { fields }`, `struct Name(types);` or `struct Name;`, written as
    /// a factory function.
    fn parse_struct_item(&mut self, namespace: &Vec<String>, items: &mut Items) -> (r: Result<(), RustToPythonError>)
        requires
            old(self).wf(),
        ensures
            old(self).moved_to(&*final(self)),
            r is Ok ==> final(self).pos > old(self).pos,
            done_items(r, final(items).view_items(), final(self).pos as int, struct_spec(old(self).ts(), old(self).pos as int, strings_view(namespace@), old(items).view_items())),
    {
        let ghost acc = items.view_items();
        let ghost ns = strings_view(namespace@);
        let declared_name = self.expect_ident("struct 名が必要です")?;
        let name = prefixed_name(namespace, &declared_name);
        let mut path = clone_strings(namespace);
        path.push(declared_name);
        proof {
            assert(strings_view(path@) =~= ns.push(declared_name@));
        }
        items.namespace_aliases.push(NamespaceAlias { path, output: name.clone() });
        proof {
            assert(items.view_items().aliases =~= acc.aliases.push((ns.push(declared_name@), name@)));
            assert(items.view_items().constants =~= acc.constants);
            assert(items.view_items().factories =~= acc.factories);
            assert(items.view_items().functions =~= acc.functions);
        }
        let ghost acc1 = items.view_items();
        if self.check_operator("<") {
            self.skip_generics()?;
        }
        let fields = if self.match_symbol('{') {
            self.parse_named_fields()?
        } else if self.match_symbol('(') {
            self.parse_tuple_fields()?
        } else {
            self.expect_symbol(';')?;
            let v: Vec<String> = Vec::new();
            proof {
                assert(strings_view(v@) =~= Seq::<Seq<char>>::empty());
            }
            v
        };
        let ghost fv = strings_view(fields@);
        items.struct_factories.push(StructFactory { name, fields });
        proof {
            assert(items.view_items().factories =~= acc1.factories.push((name@, fv)));
            assert(items.view_items().constants =~= acc1.constants);
            assert(items.view_items().aliases =~= acc1.aliases);
            assert(items.view_items().functions =~= acc1.functions);
        }
        Ok(())
    }

    /// `name: type, ...}`.
    fn parse_named_fields(&mut self) -> (r: Result<Vec<String>, RustToPythonError>)
        requires
            old(self).wf(),
        ensures
            old(self).moved_to(&*final(self)),
            r is Ok ==> final(self).pos > old(self).pos,
            done_names(r, final(self).pos as int, named_fields_from(old(self).ts(), old(self).pos as int, Seq::empty())),
    {
        let ghost ts = self.ts();
        let ghost start = self.pos as int;
        let mut fields: Vec<String> = Vec::new();
        proof {
            assert(strings_view(fields@) =~= Seq::<Seq<char>>::empty());
        }
        while !self.check_symbol('}')
            invariant
                old(self).moved_to(&*self),
                ts == old(self).ts() && ts == self.ts() && start == old(self).pos,
                named_fields_from(ts, start, Seq::empty()) == named_fields_from(ts, self.pos as int, strings_view(fields@)),
            decreases self.tokens@.len() - self.pos,
        {
            if self.is_eof() {
                return Err(self.error_at_end("struct 本体が閉じられていません"));
            }
            let ghost acc = strings_view(fields@);
            self.match_visibility()?;
            let field = self.expect_ident("field 名が必要です")?;
            let ghost fv = field@;
            fields.push(field);
            proof {
                assert(strings_view(fields@) =~= acc.push(fv));
            }
            self.expect_symbol(':')?;
            self.skip_type_until_field_separator('}')?;
            if !self.match_symbol(',') {
                self.expect_symbol('}')?;
                return Ok(fields);
            }
        }
        self.expect_symbol('}')?;
        Ok(fields)
    }

    /// `type, ...);`, with the fields named `field0`, `field1`, ...
    fn parse_tuple_fields(&mut self) -> (r: Result<Vec<String>, RustToPythonError>)
        requires
            old(self).wf(),
        ensures
            old(self).moved_to(&*final(self)),
            r is Ok ==> final(self).pos > old(self).pos,
            done_names(r, final(self).pos as int, tuple_fields_from(old(self).ts(), old(self).pos as int, Seq::empty(), 0)),
    {
        let ghost ts = self.ts();
        let ghost start = self.pos as int;
        let mut fields: Vec<String> = Vec::new();
        let mut index: usize = 0;
        let total = self.tokens.len();
        proof {
            assert(strings_view(fields@) =~= Seq::<Seq<char>>::empty());
        }
        while !self.check_symbol(')')
            invariant
                old(self).moved_to(&*self),
                ts == old(self).ts() && ts == self.ts() && start == old(self).pos,
                index <= self.pos - start,
                self.pos <= self.tokens@.len(),
                total == self.tokens@.len(),
                tuple_fields_from(ts, start, Seq::empty(), 0) == tuple_fields_from(ts, self.pos as int, strings_view(fields@), index as nat),
            decreases self.tokens@.len() - self.pos,
        {
            if self.is_eof() {
                return Err(self.error_at_end("tuple struct が閉じられていません"));
            }
            let ghost acc = strings_view(fields@);
            let ghost i0 = index as nat;
            let mut name: Vec<char> = Vec::new();
            push_str(&mut name, "field");
            push_decimal(&mut name, index);
            let field = string_of(name.as_slice());
            proof {
                assert(field@ =~= tuple_field_name(i0));
            }
            index = index + 1;
            self.match_visibility()?;
            fields.push(field);
            proof {
                assert(strings_view(fields@) =~= acc.push(tuple_field_name(i0)));
            }
            self.skip_type_until_field_separator(')')?;
            if !self.match_symbol(',') {
                self.expect_symbol(')')?;
                self.expect_semicolon("tuple struct の後に `;` が必要です")?;
                return Ok(fields);
            }
        }
        self.expect_symbol(')')?;
        self.expect_semicolon("tuple struct の後に `;` が必要です")?;
        Ok(fields)
    }

    /// `enum Name { Variant, ... }`, written as one string constant per variant.
    fn parse_enum_item(&mut self, namespace: &Vec<String>, items: &mut Items) -> (r: Result<(), RustToPythonError>)
        requires
            old(self).wf(),
        ensures
            old(self).moved_to(&*final(self)),
            r is Ok ==> final(self).pos > old(self).pos,
            done_items(r, final(items).view_items(), final(self).pos as int, enum_spec(old(self).ts(), old(self).pos as int, strings_view(namespace@), old(items).view_items())),
    {
        let ghost ts = self.ts();
        let ghost ns = strings_view(namespace@);
        let ghost acc0 = items.view_items();
        let enum_name = self.expect_ident("enum 名が必要です")?;
        if self.check_operator("<") {
            self.skip_generics()?;
        }
        self.expect_symbol('{')?;
        let ghost start = self.pos as int;
        assert(enum_spec(ts, old(self).pos as int, ns, acc0) == variants_from(ts, start, ns, enum_name@, acc0));
        while !self.check_symbol('}')
            invariant
                old(self).moved_to(&*self),
                ts == old(self).ts() && ts == self.ts(),
                old(self).pos < start <= self.pos,
                ns == strings_view(namespace@),
                acc0 == old(items).view_items(),
                enum_spec(ts, old(self).pos as int, ns, acc0) == variants_from(ts, start, ns, enum_name@, acc0),
                variants_from(ts, start, ns, enum_name@, acc0) == variants_from(ts, self.pos as int, ns, enum_name@, items.view_items()),
            decreases self.tokens@.len() - self.pos,
        {
            if self.is_eof() {
                return Err(self.error_at_end("enum 本体が閉じられていません"));
            }
            let ghost acc = items.view_items();
            let variant = self.expect_ident("variant 名が必要です")?;
            let mut path = clone_strings(namespace);
            path.push(enum_name.clone());
            path.push(variant);
            let ghost pv = strings_view(path@);
            proof {
                assert(pv =~= ns.push(enum_name@).push(path@[path@.len() - 1]@));
            }
            let output = join_strings(&path, "_");
            let value = join_strings(&path, ".");
            items.constants.push(Constant { name: output.clone(), value });
            items.namespace_aliases.push(NamespaceAlias { path, output });
            proof {
                assert(items.view_items().constants =~= acc.constants.push((join(pv, "_"@), join(pv, "."@))));
                assert(items.view_items().aliases =~= acc.aliases.push((pv, join(pv, "_"@))));
                assert(items.view_items().factories =~= acc.factories);
                assert(items.view_items().functions =~= acc.functions);
            }
            if self.check_symbol('(') {
                self.skip_balanced_symbol('(', ')')?;
            } else if self.check_symbol('{') {
                self.skip_balanced_symbol('{', '}')?;
            }
            if self.match_operator("=") {
                self.skip_until_item_separator('}')?;
            }
            if !self.match_symbol(',') {
                self.expect_symbol('}')?;
                return Ok(());
            }
        }
        self.expect_symbol('}')?;
        Ok(())
    }

    /// `mod name;` or `mod name { items }`; the items' names get the module prefix.
    #[verifier::rlimit(80)]
    fn parse_module_item(&mut self, namespace: &Vec<String>, items: &mut Items) -> (r: Result<(), RustToPythonError>)
        requires
            old(self).wf(),
        ensures
            old(self).moved_to(&*final(self)),
            r is Ok ==> final(self).pos > old(self).pos,
            done_items(r, final(items).view_items(), final(self).pos as int, module_spec(old(self).ts(), old(self).pos as int, strings_view(namespace@), old(items).view_items())),
        decreases old(self).tokens@.len() - old(self).pos, 0nat,
    {
        let ghost ts = self.ts();
        let ghost acc0 = items.view_items();
        let module_name = self.expect_ident("module 名が必要です")?;
        if self.match_symbol(';') {
            return Ok(());
        }
        self.expect_symbol('{')?;
        let mut child = clone_strings(namespace);
        child.push(module_name);
        let ghost cv = strings_view(child@);
        proof {
            assert(cv =~= strings_view(namespace@).push(child@[child@.len() - 1]@));
        }
        let ghost start = self.pos as int;
        assert(module_spec(ts, old(self).pos as int, strings_view(namespace@), acc0) == module_items_from(ts, start, cv, acc0));
        while !self.check_symbol('}')
            invariant
                old(self).moved_to(&*self),
                ts == old(self).ts() && ts == self.ts(),
                old(self).pos < start <= self.pos,
                cv == strings_view(child@),
                acc0 == old(items).view_items(),
                module_spec(ts, old(self).pos as int, strings_view(namespace@), acc0) == module_items_from(ts, start, cv, acc0),
                module_items_from(ts, start, cv, acc0) == module_items_from(ts, self.pos as int, cv, items.view_items()),
            decreases self.tokens@.len() - self.pos,
        {
            if self.is_eof() {
                return Err(self.error_at_end("module 本体が閉じられていません"));
            }
            let ghost q = self.pos as int;
            if self.match_use_statement()? {
                continue;
            }
            self.match_visibility()?;
            if self.match_metadata_item(&child, items)? {
                continue;
            }
            if self.match_keyword("fn") {
                let ghost acc = items.view_items();
                let declared_name = self.peek_ident("関数名が必要です")?;
                let function = self.parse_function_with_name_prefix(&child)?;
                let mut path = clone_strings(&child);
                path.push(declared_name);
                proof {
                    assert(strings_view(path@) =~= cv.push(path@[path@.len() - 1]@));
                }
                let ghost fv = function_v(function);
                items.namespace_aliases.push(NamespaceAlias { path, output: function.name.clone() });
                items.functions.push(function);
                proof {
                    assert(items.view_items().aliases =~= acc.aliases.push((strings_view(path@), fv.name)));
                    assert(items.view_items().functions =~= acc.functions.push(fv));
                    assert(items.view_items().constants =~= acc.constants);
                    assert(items.view_items().factories =~= acc.factories);
                }
                continue;
            }
            self.skip_item_header_and_block("module 内項目の本体が必要です")?;
        }
        self.expect_symbol('}')?;
        Ok(())
    }

    /// `impl [Trait for] Type { fns }`; the functions get the type's name as prefix.
    #[verifier::rlimit(80)]
    fn parse_impl_item(&mut self, namespace: &Vec<String>, items: &mut Items) -> (r: Result<(), RustToPythonError>)
        requires
            old(self).wf(),
        ensures
            old(self).moved_to(&*final(self)),
            r is Ok ==> final(self).pos > old(self).pos,
            done_items(r, final(items).view_items(), final(self).pos as int, impl_spec(old(self).ts(), old(self).pos as int, strings_view(namespace@), old(items).view_items())),
    {
        let ghost ts = self.ts();
        let ghost acc0 = items.view_items();
        if self.check_operator("<") {
            self.skip_generics()?;
        }
        let header = self.collect_idents_until_block("impl 本体の `{` が必要です")?;
        let target = match infer_impl_target(&header) {
            Some(t) => t,
            None => {
                return Err(self.error_at_end("impl 対象の型名が必要です"));
            },
        };
        self.expect_symbol('{')?;
        let mut impl_namespace = clone_strings(namespace);
        impl_namespace.push(target);
        let ghost iv = strings_view(impl_namespace@);
        proof {
            assert(iv =~= strings_view(namespace@).push(impl_namespace@[impl_namespace@.len() - 1]@));
        }
        let ghost start = self.pos as int;
        assert(impl_spec(ts, old(self).pos as int, strings_view(namespace@), acc0) == impl_items_from(ts, start, iv, acc0));
        while !self.check_symbol('}')
            invariant
                old(self).moved_to(&*self),
                ts == old(self).ts() && ts == self.ts(),
                old(self).pos < start <= self.pos,
                iv == strings_view(impl_namespace@),
                acc0 == old(items).view_items(),
                impl_spec(ts, old(self).pos as int, strings_view(namespace@), acc0) == impl_items_from(ts, start, iv, acc0),
                impl_items_from(ts, start, iv, acc0) == impl_items_from(ts, self.pos as int, iv, items.view_items()),
            decreases self.tokens@.len() - self.pos,
        {
            if self.is_eof() {
                return Err(self.error_at_end("impl 本体が閉じられていません"));
            }
            self.match_visibility()?;
            if self.match_keyword("fn") {
                let ghost acc = items.view_items();
                let declared_name = self.peek_ident("関数名が必要です")?;
                let function = self.parse_function_with_name_prefix(&impl_namespace)?;
                let mut path = clone_strings(&impl_namespace);
                path.push(declared_name);
                proof {
                    assert(strings_view(path@) =~= iv.push(path@[path@.len() - 1]@));
                }
                let ghost fv = function_v(function);
                items.namespace_aliases.push(NamespaceAlias { path, output: function.name.clone() });
                items.functions.push(function);
                proof {
                    assert(items.view_items().aliases =~= acc.aliases.push((strings_view(path@), fv.name)));
                    assert(items.view_items().functions =~= acc.functions.push(fv));
                    assert(items.view_items().constants =~= acc.constants);
                    assert(items.view_items().factories =~= acc.factories);
                }
                continue;
            }
            self.skip_item_header_and_block("impl 内項目の本体が必要です")?;
        }
        self.expect_symbol('}')?;
        Ok(())
    }

    /// Items that become constants, factories and aliases, or are skipped.
    fn match_metadata_item(&mut self, namespace: &Vec<String>, items: &mut Items) -> (r: Result<bool, RustToPythonError>)
        requires
            old(self).wf(),
        ensures
            old(self).moved_to(&*final(self)),
            r matches Ok(b) ==> (b ==> final(self).pos > old(self).pos),
            done_item(r, final(items).view_items(), final(self).pos as int, item_spec(old(self).ts(), old(self).pos as int, strings_view(namespace@), old(items).view_items())),
        decreases old(self).tokens@.len() - old(self).pos, 1nat,
    {
        if self.match_keyword("struct") {
            self.parse_struct_item(namespace, items)?;
            return Ok(true);
        }
        if self.match_keyword("enum") {
            self.parse_enum_item(namespace, items)?;
            return Ok(true);
        }
        if self.match_keyword("mod") {
            self.parse_module_item(namespace, items)?;
            return Ok(true);
        }
        if self.match_keyword("impl") {
            self.parse_impl_item(namespace, items)?;
            return Ok(true);
        }
        if self.match_keyword("trait") {
            self.skip_item_header_and_block("trait 本体の `{` が必要です")?;
            return Ok(true);
        }
        if self.check_keyword("macro_rules") || self.check_keyword("macro") {
            self.advance();
            self.match_operator("!");
            self.skip_macro_item()?;
            return Ok(true);
        }
        if self.match_keyword("extern") {
            if self.match_keyword("crate") {
                self.skip_statement_until_semicolon("extern crate 文の後に `;` が必要です")?;
                return Ok(true);
            }
            let (line, column) = self.previous_position();
            return Err(RustToPythonError::new("`crate` が必要です", line, column));
        }
        Ok(false)
    }

    /// A whole program: items, functions and exactly one argument-less `fn main`.
    #[verifier::rlimit(80)]
    fn parse_program(&mut self) -> (r: Result<Program, RustToPythonError>)
        requires
            old(self).wf(),
        ensures
            old(self).moved_to(&*final(self)),
            match program_from(old(self).ts(), old(self).pos as int, no_items(), None) {
                Ok(v) => r matches Ok(p) && program_v(p) == v,
                Err(d) => r matches Err(e) && e.view_diag() == d,
            },
    {
        let ghost ts = self.ts();
        let ghost start = self.pos as int;
        let mut items = Items {
            constants: Vec::new(),
            struct_factories: Vec::new(),
            namespace_aliases: Vec::new(),
            functions: Vec::new(),
        };
        let mut main: Option<Vec<Stmt>> = None;
        let top: Vec<String> = Vec::new();
        proof {
            assert(items.view_items().constants =~= no_items().constants);
            assert(items.view_items().factories =~= no_items().factories);
            assert(items.view_items().aliases =~= no_items().aliases);
            assert(items.view_items().functions =~= no_items().functions);
            assert(strings_view(top@) =~= Seq::<Seq<char>>::empty());
        }
        while !self.is_eof()
            invariant
                old(self).moved_to(&*self),
                ts == old(self).ts() && ts == self.ts() && start == old(self).pos,
                strings_view(top@) == Seq::<Seq<char>>::empty(),
                program_from(ts, start, no_items(), None) == program_from(ts, self.pos as int, items.view_items(), match main {
                    Some(m) => Some(stmts_v(m@)),
                    None => None,
                }),
            decreases self.tokens@.len() - self.pos,
        {
            if self.match_use_statement()? {
                continue;
            }
            self.match_visibility()?;
            if self.match_metadata_item(&top, &mut items)? {
                continue;
            }
            self.expect_keyword("fn")?;
            let function = self.parse_function_after_fn()?;
            if str_eq(function.name.as_str(), "main") {
                let (line, column) = self.previous_position();
                if function.params.len() > 0 {
                    return Err(RustToPythonError::new("`fn main` に引数は指定できません", line, column));
                }
                if main.is_some() {
                    return Err(RustToPythonError::new("`fn main` が重複しています", line, column));
                }
                main = Some(function.body);
            } else {
                let ghost acc = items.view_items();
                let ghost fv = function_v(function);
                items.functions.push(function);
                proof {
                    assert(items.view_items().functions =~= acc.functions.push(fv));
                    assert(items.view_items().constants =~= acc.constants);
                    assert(items.view_items().factories =~= acc.factories);
                    assert(items.view_items().aliases =~= acc.aliases);
                }
            }
        }
        match main {
            Some(main) => {
                let p = Program {
                    constants: items.constants,
                    struct_factories: items.struct_factories,
                    namespace_aliases: items.namespace_aliases,
                    functions: items.functions,
                    main,
                };
                Ok(p)
            },
            None => Err(self.error_at_end("`fn main` がありません")),
        }
    }
}

/// The index of the first top-level `target` operator of `expr`.
fn top_level_operator_index(expr: &Expr, target: &str) -> (r: Option<usize>)
    ensures
        match top_op(expr.view_expr(), target@) {
            Some(i) => r matches Some(k) && k as int == i && k < expr.tokens@.len(),
            None => r is None,
        },
{
    let ghost e = expr.view_expr();
    let mut depth = Depth::new();
    let mut i: usize = 0;
    while i < expr.tokens.len()
        invariant
            i <= expr.tokens@.len(),
            e == expr.view_expr(),
            depth.bounded(i as int),
            top_op(e, target@) == top_op_from(e, i as int, target@, depth.view_d()),
        decreases expr.tokens@.len() - i,
    {
        let token = &expr.tokens[i];
        let hit = match token {
            ExprToken::Operator(op) => str_eq(op.as_str(), target) && depth.is_top_level(),
            _ => false,
        };
        if hit {
            return Some(i);
        }
        depth.observe_expr(token);
        i = i + 1;
    }
    None
}

/// `name`, or the namespace and `name` joined with `_`.
fn prefixed_name(namespace: &Vec<String>, name: &String) -> (r: String)
    ensures
        r@ == prefixed(strings_view(namespace@), name@),
{
    if namespace.len() == 0 {
        return name.clone();
    }
    let mut parts = clone_strings(namespace);
    parts.push(name.clone());
    proof {
        assert(strings_view(parts@) =~= strings_view(namespace@).push(name@));
    }
    join_strings(&parts, "_")
}

/// The type an `impl` header is for: the first identifier after `for`, or the first
/// identifier when there is no `for`.
fn infer_impl_target(idents: &Vec<String>) -> (r: Option<String>)
    ensures
        match impl_target(strings_view(idents@)) {
            Some(t) => r matches Some(s) && s@ == t,
            None => r is None,
        },
{
    let ghost ids = strings_view(idents@);
    let mut start: usize = 0;
    let mut i: usize = 0;
    while i < idents.len()
        invariant
            i <= idents@.len(),
            ids == strings_view(idents@),
            start <= idents@.len(),
            start != 0 ==> i == idents@.len(),
            if start == 0 {
                after_for(ids, 0) == after_for(ids, i as int)
            } else {
                start as int == after_for(ids, 0)
            },
        decreases idents@.len() - i,
    {
        if str_eq(idents[i].as_str(), "for") {
            start = i + 1;
            i = idents.len();
        } else {
            i = i + 1;
        }
    }
    let mut j: usize = start;
    while j < idents.len()
        invariant
            start <= j <= idents@.len(),
            ids == strings_view(idents@),
            impl_target(ids) == first_not_for(ids, j as int),
        decreases idents@.len() - j,
    {
        if !str_eq(idents[j].as_str(), "for") {
            return Some(idents[j].clone());
        }
        j = j + 1;
    }
    None
}

/// `a..b` at top level, split into its two ends.
fn split_top_level_range(expr: &Expr) -> (r: Option<(Expr, Expr)>)
    ensures
        match split_range_spec(expr.view_expr()) {
            Some((a, b)) => r matches Some((x, y)) && x.view_expr() == a && y.view_expr() == b,
            None => r is None,
        },
{
    match top_level_operator_index(expr, "..") {
        None => None,
        Some(index) => {
            let a = Expr::new(copy_tokens(&expr.tokens, 0, index));
            let n = expr.tokens.len();
            let b = Expr::new(copy_tokens(&expr.tokens, index + 1, n));
            Some((a, b))
        },
    }
}

/// The program the tokens make up.
pub fn parse(tokens: &[Token]) -> (r: Result<Program, RustToPythonError>)
    ensures
        match parse_spec(tokens_view(tokens@)) {
            Ok(v) => r matches Ok(p) && program_v(p) == v,
            Err(d) => r matches Err(e) && e.view_diag() == d,
        },
{
    let mut parser = Parser { tokens, pos: 0 };
    parser.parse_program()
}

} // verus!
