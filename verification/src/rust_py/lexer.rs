//! Splits Rust source text into identifiers, numbers, strings, comments, symbols and
//! operators.
use vstd::prelude::*;
use crate::text::{chars_of, is_alnum, is_alpha, is_digit, push_chars, push_str, string_of};
use super::error::{diag, Diag, RustToPythonError};
use super::ir::{ExprTokV, ExprToken};

verus! {

/// A token with the 1-based line and column where it starts.
#[derive(Debug, Clone, PartialEq, Eq)]
pub struct Token {
    pub kind: TokenKind,
    pub line: usize,
    pub column: usize,
}

/// The kinds of Rust tokens.
#[derive(Debug, Clone, PartialEq, Eq)]
pub enum TokenKind {
    Ident(String),
    Number(String),
    String(String),
    Comment(String),
    Symbol(char),
    Operator(String),
}

/// What a token kind holds.
pub enum TokKindV {
    Ident(Seq<char>),
    Number(Seq<char>),
    Str(Seq<char>),
    Comment(Seq<char>),
    Symbol(char),
    Operator(Seq<char>),
}

/// What a token holds.
pub struct TokV {
    pub kind: TokKindV,
    pub line: int,
    pub column: int,
}

impl TokenKind {
    pub open spec fn view_kind(self) -> TokKindV {
        match self {
            TokenKind::Ident(s) => TokKindV::Ident(s@),
            TokenKind::Number(s) => TokKindV::Number(s@),
            TokenKind::String(s) => TokKindV::Str(s@),
            TokenKind::Comment(s) => TokKindV::Comment(s@),
            TokenKind::Symbol(c) => TokKindV::Symbol(c),
            TokenKind::Operator(s) => TokKindV::Operator(s@),
        }
    }
}

impl Token {
    pub open spec fn view_token(self) -> TokV {
        TokV { kind: self.kind.view_kind(), line: self.line as int, column: self.column as int }
    }
}

/// The views of a sequence of tokens.
pub open spec fn tokens_view(ts: Seq<Token>) -> Seq<TokV> {
    ts.map_values(|t: Token| t.view_token())
}

/// The expression token a token kind stands for; comments stand for none.
pub open spec fn expr_tok_spec(k: TokKindV) -> Option<ExprTokV> {
    match k {
        TokKindV::Ident(s) => Some(ExprTokV::Ident(s)),
        TokKindV::Number(s) => Some(ExprTokV::Number(s)),
        TokKindV::Str(s) => Some(ExprTokV::Str(s)),
        TokKindV::Comment(_) => None,
        TokKindV::Symbol(c) => Some(ExprTokV::Symbol(c)),
        TokKindV::Operator(s) => Some(ExprTokV::Operator(s)),
    }
}

impl Token {
    /// The expression token this token stands for; a comment stands for none.
    pub fn expr_token(&self) -> (r: Option<ExprToken>)
        ensures
            match expr_tok_spec(self.kind.view_kind()) {
                Some(v) => r matches Some(t) && t.view_tok() == v,
                None => r is None,
            },
    {
        match &self.kind {
            TokenKind::Ident(v) => Some(ExprToken::Ident(v.clone())),
            TokenKind::Number(v) => Some(ExprToken::Number(v.clone())),
            TokenKind::String(v) => Some(ExprToken::String(v.clone())),
            TokenKind::Symbol(c) => Some(ExprToken::Symbol(*c)),
            TokenKind::Operator(v) => Some(ExprToken::Operator(v.clone())),
            TokenKind::Comment(_) => None,
        }
    }
}

/// The 1-based (line, column) of index `i` of `cs`.
pub open spec fn pos_of(cs: Seq<char>, i: int) -> (int, int)
    decreases i,
{
    if i <= 0 {
        (1, 1)
    } else {
        let (l, c) = pos_of(cs, i - 1);
        if cs[i - 1] == '\n' {
            (l + 1, 1)
        } else {
            (l, c + 1)
        }
    }
}

pub proof fn lemma_pos_bounds(cs: Seq<char>, i: int)
    requires
        0 <= i,
    ensures
        1 <= pos_of(cs, i).0 <= i + 1,
        1 <= pos_of(cs, i).1 <= i + 1,
    decreases i,
{
    if i > 0 {
        lemma_pos_bounds(cs, i - 1);
    }
}

/// A letter or `_`.
pub open spec fn ident_start(c: char) -> bool {
    is_alpha(c) || c == '_'
}

/// A letter, digit or `_`.
pub open spec fn ident_continue(c: char) -> bool {
    is_alnum(c) || c == '_'
}

/// Space, tab or carriage return.
pub open spec fn blank(c: char) -> bool {
    c == ' ' || c == '\t' || c == '\r'
}

/// The end of the run of identifier characters starting at `i`.
pub open spec fn ident_end(cs: Seq<char>, i: int) -> int
    decreases cs.len() - i,
{
    if i < 0 || i >= cs.len() || !ident_continue(cs[i]) {
        i
    } else {
        ident_end(cs, i + 1)
    }
}

/// The end of the run of digits and `_` starting at `i`.
pub open spec fn number_end(cs: Seq<char>, i: int) -> int
    decreases cs.len() - i,
{
    if i < 0 || i >= cs.len() || !(is_digit(cs[i]) || cs[i] == '_') {
        i
    } else {
        number_end(cs, i + 1)
    }
}

/// The index of the line break at or after `i`, or the end.
pub open spec fn line_end(cs: Seq<char>, i: int) -> int
    decreases cs.len() - i,
{
    if i < 0 || i >= cs.len() || cs[i] == '\n' {
        i
    } else {
        line_end(cs, i + 1)
    }
}

/// The index of the `*` of the first `*/` at or after `i`.
pub open spec fn block_end(cs: Seq<char>, i: int) -> Option<int>
    decreases cs.len() - i,
{
    if i < 0 || i >= cs.len() {
        None
    } else if cs[i] == '*' && i + 1 < cs.len() && cs[i + 1] == '/' {
        Some(i)
    } else {
        block_end(cs, i + 1)
    }
}

/// The index of the quote closing a string literal, scanning from `i`; `None` when a
/// line break or the end comes first.
pub open spec fn string_end(cs: Seq<char>, i: int, escaped: bool) -> Option<int>
    decreases cs.len() - i,
{
    if i < 0 || i >= cs.len() {
        None
    } else if escaped {
        string_end(cs, i + 1, false)
    } else if cs[i] == '\\' {
        string_end(cs, i + 1, true)
    } else if cs[i] == '"' {
        Some(i)
    } else if cs[i] == '\n' {
        None
    } else {
        string_end(cs, i + 1, false)
    }
}

/// The last non-blank character before `p` on the same line.
pub open spec fn prev_non_blank(cs: Seq<char>, p: int) -> Option<char>
    decreases p,
{
    if p <= 0 || p > cs.len() {
        None
    } else if cs[p - 1] == '\n' {
        None
    } else if !blank(cs[p - 1]) {
        Some(cs[p - 1])
    } else {
        prev_non_blank(cs, p - 1)
    }
}

/// The first non-blank character at or after `p`.
pub open spec fn next_non_blank(cs: Seq<char>, p: int) -> Option<char>
    decreases cs.len() - p,
{
    if p < 0 || p >= cs.len() {
        None
    } else if !blank(cs[p]) {
        Some(cs[p])
    } else {
        next_non_blank(cs, p + 1)
    }
}

/// Whether one of `; { ) ] ,` comes at or after `p` before the end of the line.
pub open spec fn terminator_after(cs: Seq<char>, p: int) -> bool
    decreases cs.len() - p,
{
    if p < 0 || p >= cs.len() || cs[p] == '\n' {
        false
    } else if cs[p] == ';' || cs[p] == '{' || cs[p] == ')' || cs[p] == ']' || cs[p] == ',' {
        true
    } else {
        terminator_after(cs, p + 1)
    }
}

/// Whether the `//` at `i` is Python-style floor division rather than a comment: it
/// follows an operand on the same line, an operand follows it, and the line goes on to
/// one of `; { ) ] ,`.
pub open spec fn floor_div_at(cs: Seq<char>, i: int) -> bool {
    match prev_non_blank(cs, i) {
        None => false,
        Some(p) => if p == ';' || p == '{' || p == '(' || p == '[' || p == ',' || p == ':' {
            false
        } else {
            match next_non_blank(cs, i + 2) {
                None => false,
                Some(n) => n != '\n' && terminator_after(cs, i + 2),
            }
        },
    }
}

/// One step of the lexer at index `i`.
pub enum Step {
    Skip(int),
    Tok(TokKindV, int),
    Fail(Seq<char>),
}

/// A character that starts an operator token.
pub open spec fn op_char(c: char) -> bool {
    c == '=' || c == '!' || c == '<' || c == '>' || c == '&' || c == '|' || c == '.' || c == '-'
        || c == '+' || c == '*' || c == '/' || c == '%'
}

/// A character that is a symbol token.
pub open spec fn symbol_char(c: char) -> bool {
    c == '{' || c == '}' || c == '(' || c == ')' || c == '[' || c == ']' || c == ',' || c == ';'
        || c == ':'
}

/// The two-character operators.
pub open spec fn op_pair(a: char, b: char) -> bool {
    ||| (a == '/' && b == '/')
    ||| (a == '*' && b == '*')
    ||| (a == '=' && b == '=')
    ||| (a == '!' && b == '=')
    ||| (a == '<' && b == '=')
    ||| (a == '>' && b == '=')
    ||| (a == '&' && b == '&')
    ||| (a == '|' && b == '|')
    ||| (a == ':' && b == ':')
    ||| (a == '.' && b == '.')
    ||| (a == '-' && b == '>')
}

/// The operator starting at `i`.
pub open spec fn operator_step(cs: Seq<char>, i: int) -> Step {
    let ch = cs[i];
    if i + 1 < cs.len() && op_pair(ch, cs[i + 1]) {
        Step::Tok(TokKindV::Operator(seq![ch, cs[i + 1]]), i + 2)
    } else if ch == '|' {
        Step::Fail("`||` が必要です"@)
    } else {
        Step::Tok(TokKindV::Operator(seq![ch]), i + 1)
    }
}

/// What the lexer does at index `i`.
pub open spec fn step(cs: Seq<char>, i: int) -> Step {
    let ch = cs[i];
    let has_next = i + 1 < cs.len();
    if ch == ' ' || ch == '\t' || ch == '\r' || ch == '\n' {
        Step::Skip(i + 1)
    } else if ch == '/' && has_next && cs[i + 1] == '/' {
        if floor_div_at(cs, i) {
            operator_step(cs, i)
        } else {
            let j = line_end(cs, i + 2);
            Step::Tok(TokKindV::Comment(cs.subrange(i + 2, j)), j)
        }
    } else if ch == '/' && has_next && cs[i + 1] == '*' {
        match block_end(cs, i + 2) {
            Some(j) => Step::Tok(TokKindV::Comment(cs.subrange(i + 2, j)), j + 2),
            None => Step::Fail("ブロックコメントが閉じられていません"@),
        }
    } else if ch == '"' {
        match string_end(cs, i + 1, false) {
            Some(j) => Step::Tok(TokKindV::Str(cs.subrange(i, j + 1)), j + 1),
            None => Step::Fail("文字列リテラルが閉じられていません"@),
        }
    } else if ch == '\'' && has_next && ident_start(cs[i + 1]) {
        let j = ident_end(cs, i + 1);
        Step::Tok(TokKindV::Ident(cs.subrange(i, j)), j)
    } else if is_digit(ch) {
        let j = number_end(cs, i);
        Step::Tok(TokKindV::Number(cs.subrange(i, j)), j)
    } else if ident_start(ch) {
        let j = ident_end(cs, i);
        Step::Tok(TokKindV::Ident(cs.subrange(i, j)), j)
    } else if ch == ':' && has_next && cs[i + 1] == ':' {
        Step::Tok(TokKindV::Operator(seq![':', ':']), i + 2)
    } else if symbol_char(ch) {
        Step::Tok(TokKindV::Symbol(ch), i + 1)
    } else if op_char(ch) {
        operator_step(cs, i)
    } else {
        Step::Fail("予期しない文字 `"@ + seq![ch] + "`"@)
    }
}

/// The tokens of `cs` from index `i`.
pub open spec fn lex_from(cs: Seq<char>, i: int) -> Result<Seq<TokV>, Diag>
    decreases cs.len() - i,
{
    if i < 0 || i >= cs.len() {
        Ok(Seq::empty())
    } else {
        let (line, col) = pos_of(cs, i);
        match step(cs, i) {
            Step::Fail(m) => Err(diag(m, line, col)),
            Step::Skip(k) => if k <= i || k > cs.len() {
                Ok(Seq::empty())
            } else {
                lex_from(cs, k)
            },
            Step::Tok(kind, k) => if k <= i || k > cs.len() {
                Ok(Seq::empty())
            } else {
                match lex_from(cs, k) {
                    Ok(rest) => Ok(seq![TokV { kind, line, column: col }] + rest),
                    Err(d) => Err(d),
                }
            },
        }
    }
}

/// What the lexer gives for `source`.
pub open spec fn lex_spec(source: Seq<char>) -> Result<Seq<TokV>, Diag> {
    lex_from(source, 0)
}

/// A letter or `_`.
fn is_ident_start(ch: char) -> (r: bool)
    ensures
        r == ident_start(ch),
{
    ('a' <= ch && ch <= 'z') || ('A' <= ch && ch <= 'Z') || ch == '_'
}

/// A letter, digit or `_`.
fn is_ident_continue(ch: char) -> (r: bool)
    ensures
        r == ident_continue(ch),
{
    ('a' <= ch && ch <= 'z') || ('A' <= ch && ch <= 'Z') || ('0' <= ch && ch <= '9') || ch == '_'
}

struct Lexer {
    chars: Vec<char>,
    pos: usize,
    line: usize,
    column: usize,
    tokens: Vec<Token>,
}

impl Lexer {
    /// The position fields agree with the index.
    spec fn wf(&self) -> bool {
        &&& self.pos <= self.chars.len() < isize::MAX
        &&& (self.line as int, self.column as int) == pos_of(self.chars@, self.pos as int)
    }

    proof fn lemma_wf(&self)
        requires
            self.wf(),
        ensures
            1 <= self.line <= self.pos + 1,
            1 <= self.column <= self.pos + 1,
    {
        lemma_pos_bounds(self.chars@, self.pos as int);
    }

    fn peek(&self) -> (r: Option<char>)
        ensures
            self.pos < self.chars.len() ==> r == Some(self.chars@[self.pos as int]),
            self.pos >= self.chars.len() ==> r is None,
    {
        if self.pos < self.chars.len() {
            Some(self.chars[self.pos])
        } else {
            None
        }
    }

    fn peek_next(&self) -> (r: Option<char>)
        requires
            self.pos < usize::MAX,
        ensures
            self.pos + 1 < self.chars.len() ==> r == Some(self.chars@[self.pos + 1]),
            self.pos + 1 >= self.chars.len() ==> r is None,
    {
        if self.pos + 1 < self.chars.len() {
            Some(self.chars[self.pos + 1])
        } else {
            None
        }
    }

    /// Moves past one character, keeping the position up to date.
    fn advance(&mut self) -> (r: Option<char>)
        requires
            old(self).wf(),
        ensures
            final(self).wf(),
            final(self).chars == old(self).chars,
            final(self).tokens == old(self).tokens,
            old(self).pos < old(self).chars.len() ==> final(self).pos == old(self).pos + 1 && r == Some(old(self).chars@[old(self).pos as int]),
            old(self).pos >= old(self).chars.len() ==> final(self).pos == old(self).pos && r is None,
    {
        if self.pos >= self.chars.len() {
            return None;
        }
        proof {
            self.lemma_wf();
        }
        let ch = self.chars[self.pos];
        self.pos = self.pos + 1;
        if ch == '\n' {
            self.line = self.line + 1;
            self.column = 1;
        } else {
            self.column = self.column + 1;
        }
        Some(ch)
    }

    fn push(&mut self, kind: TokenKind, line: usize, column: usize)
        ensures
            final(self).chars == old(self).chars,
            final(self).pos == old(self).pos,
            final(self).line == old(self).line,
            final(self).column == old(self).column,
            final(self).tokens@ == old(self).tokens@.push(Token { kind, line, column }),
    {
        self.tokens.push(Token { kind, line, column });
    }

    /// The last non-blank character before the current index on the same line.
    fn previous_non_space_on_line(&self) -> (r: Option<char>)
        requires
            self.pos <= self.chars.len(),
        ensures
            r == prev_non_blank(self.chars@, self.pos as int),
    {
        let mut p = self.pos;
        while p > 0
            invariant
                p <= self.pos <= self.chars.len(),
                prev_non_blank(self.chars@, self.pos as int) == prev_non_blank(self.chars@, p as int),
            decreases p,
        {
            p = p - 1;
            let ch = self.chars[p];
            if ch == '\n' {
                return None;
            }
            if !(ch == ' ' || ch == '\t' || ch == '\r') {
                return Some(ch);
            }
        }
        None
    }

    /// The first non-blank character at or after the current index plus `offset`.
    fn next_non_space_after(&self, offset: usize) -> (r: Option<char>)
        requires
            self.pos + offset <= usize::MAX,
        ensures
            r == next_non_blank(self.chars@, self.pos + offset),
    {
        let mut p = self.pos + offset;
        while p < self.chars.len()
            invariant
                self.pos + offset <= p,
                next_non_blank(self.chars@, self.pos + offset) == next_non_blank(self.chars@, p as int),
            decreases self.chars.len() - p,
        {
            let ch = self.chars[p];
            if !(ch == ' ' || ch == '\t' || ch == '\r') {
                return Some(ch);
            }
            p = p + 1;
        }
        None
    }

    /// Whether one of `; { ) ] ,` comes before the end of the line, from the current
    /// index plus `offset`.
    fn line_contains_expr_terminator_after(&self, offset: usize) -> (r: bool)
        requires
            self.pos + offset <= usize::MAX,
        ensures
            r == terminator_after(self.chars@, self.pos + offset),
    {
        let mut p = self.pos + offset;
        while p < self.chars.len()
            invariant
                self.pos + offset <= p,
                terminator_after(self.chars@, self.pos + offset) == terminator_after(self.chars@, p as int),
            decreases self.chars.len() - p,
        {
            let ch = self.chars[p];
            if ch == '\n' {
                return false;
            }
            if ch == ';' || ch == '{' || ch == ')' || ch == ']' || ch == ',' {
                return true;
            }
            p = p + 1;
        }
        false
    }

    /// Whether the `//` at the current index is floor division rather than a comment.
    fn is_floor_div_operator(&self) -> (r: bool)
        requires
            self.pos + 1 < self.chars.len() < isize::MAX,
            self.chars@[self.pos as int] == '/',
            self.chars@[self.pos + 1] == '/',
        ensures
            r == floor_div_at(self.chars@, self.pos as int),
    {
        if self.peek() != Some('/') || self.peek_next() != Some('/') {
            return false;
        }
        let prev = match self.previous_non_space_on_line() {
            Some(p) => p,
            None => {
                return false;
            },
        };
        if prev == ';' || prev == '{' || prev == '(' || prev == '[' || prev == ',' || prev == ':' {
            return false;
        }
        let next = match self.next_non_space_after(2) {
            Some(n) => n,
            None => {
                return false;
            },
        };
        if next == '\n' {
            return false;
        }
        self.line_contains_expr_terminator_after(2)
    }

    /// Reads the identifier characters from the current index on.
    fn take_ident(&mut self) -> (value: Vec<char>)
        requires
            old(self).wf(),
        ensures
            final(self).wf(),
            final(self).chars == old(self).chars,
            final(self).tokens == old(self).tokens,
            final(self).pos == ident_end(old(self).chars@, old(self).pos as int),
            old(self).pos <= final(self).pos,
            value@ == old(self).chars@.subrange(old(self).pos as int, final(self).pos as int),
    {
        let ghost start = self.pos as int;
        let mut value: Vec<char> = Vec::new();
        while self.pos < self.chars.len() && is_ident_continue(self.chars[self.pos])
            invariant
                self.wf(),
                self.chars == old(self).chars,
                self.tokens == old(self).tokens,
                0 <= start <= self.pos,
                ident_end(self.chars@, start) == ident_end(self.chars@, self.pos as int),
                value@ == self.chars@.subrange(start, self.pos as int),
            decreases self.chars.len() - self.pos,
        {
            value.push(self.chars[self.pos]);
            self.advance();
            proof {
                assert(value@ =~= self.chars@.subrange(start, self.pos as int));
            }
        }
        value
    }

    /// `//` comment: runs to the end of the line.
    fn lex_comment(&mut self)
        requires
            old(self).wf(),
            old(self).pos + 1 < old(self).chars.len(),
        ensures
            final(self).wf(),
            final(self).chars == old(self).chars,
            final(self).pos == line_end(old(self).chars@, old(self).pos + 2),
            tokens_view(final(self).tokens@) == tokens_view(old(self).tokens@).push(
                TokV {
                    kind: TokKindV::Comment(old(self).chars@.subrange(old(self).pos + 2, final(self).pos as int)),
                    line: old(self).line as int,
                    column: old(self).column as int,
                },
            ),
    {
        let line = self.line;
        let column = self.column;
        self.advance();
        self.advance();
        let ghost start = self.pos as int;
        let mut value: Vec<char> = Vec::new();
        while self.pos < self.chars.len() && self.chars[self.pos] != '\n'
            invariant
                self.wf(),
                self.chars == old(self).chars,
                self.tokens == old(self).tokens,
                0 <= start <= self.pos,
                line_end(self.chars@, start) == line_end(self.chars@, self.pos as int),
                value@ == self.chars@.subrange(start, self.pos as int),
            decreases self.chars.len() - self.pos,
        {
            value.push(self.chars[self.pos]);
            self.advance();
            proof {
                assert(value@ =~= self.chars@.subrange(start, self.pos as int));
            }
        }
        let ghost before = self.tokens@;
        self.push(TokenKind::Comment(string_of(value.as_slice())), line, column);
        proof {
            lemma_tokens_view_push(before, self.tokens@.last());
        }
    }

    /// `/* ... */` comment.
    fn lex_block_comment(&mut self) -> (r: Result<(), RustToPythonError>)
        requires
            old(self).wf(),
            old(self).pos + 1 < old(self).chars.len(),
        ensures
            final(self).wf(),
            final(self).chars == old(self).chars,
            match block_end(old(self).chars@, old(self).pos + 2) {
                Some(j) => r is Ok && final(self).pos == j + 2 && tokens_view(final(self).tokens@)
                    == tokens_view(old(self).tokens@).push(
                    TokV {
                        kind: TokKindV::Comment(old(self).chars@.subrange(old(self).pos + 2, j)),
                        line: old(self).line as int,
                        column: old(self).column as int,
                    },
                ),
                None => r matches Err(e) && e.view_diag() == diag(
                    "ブロックコメントが閉じられていません"@,
                    old(self).line as int,
                    old(self).column as int,
                ),
            },
    {
        let line = self.line;
        let column = self.column;
        self.advance();
        self.advance();
        let ghost start = self.pos as int;
        let mut value: Vec<char> = Vec::new();
        while self.pos < self.chars.len()
            invariant
                self.wf(),
                self.chars == old(self).chars,
                self.tokens == old(self).tokens,
                0 <= start <= self.pos,
                start == old(self).pos + 2,
                line == old(self).line,
                column == old(self).column,
                block_end(self.chars@, start) == block_end(self.chars@, self.pos as int),
                value@ == self.chars@.subrange(start, self.pos as int),
            decreases self.chars.len() - self.pos,
        {
            let ch = self.chars[self.pos];
            if ch == '*' && self.pos + 1 < self.chars.len() && self.chars[self.pos + 1] == '/' {
                self.advance();
                self.advance();
                let ghost before = self.tokens@;
                self.push(TokenKind::Comment(string_of(value.as_slice())), line, column);
                proof {
                    lemma_tokens_view_push(before, self.tokens@.last());
                }
                return Ok(());
            }
            value.push(ch);
            self.advance();
            proof {
                assert(value@ =~= self.chars@.subrange(start, self.pos as int));
            }
        }
        Err(RustToPythonError::new("ブロックコメントが閉じられていません", line, column))
    }

    /// A string literal, quotes and escapes kept as written.
    fn lex_string(&mut self) -> (r: Result<(), RustToPythonError>)
        requires
            old(self).wf(),
            old(self).pos < old(self).chars.len(),
        ensures
            final(self).wf(),
            final(self).chars == old(self).chars,
            match string_end(old(self).chars@, old(self).pos + 1, false) {
                Some(j) => r is Ok && final(self).pos == j + 1 && tokens_view(final(self).tokens@)
                    == tokens_view(old(self).tokens@).push(
                    TokV {
                        kind: TokKindV::Str(old(self).chars@.subrange(old(self).pos as int, j + 1)),
                        line: old(self).line as int,
                        column: old(self).column as int,
                    },
                ),
                None => r matches Err(e) && e.view_diag() == diag(
                    "文字列リテラルが閉じられていません"@,
                    old(self).line as int,
                    old(self).column as int,
                ),
            },
    {
        let line = self.line;
        let column = self.column;
        let ghost start = self.pos as int;
        let mut value: Vec<char> = Vec::new();
        value.push(self.chars[self.pos]);
        self.advance();
        let mut escaped = false;
        proof {
            assert(value@ =~= self.chars@.subrange(start, self.pos as int));
        }
        while self.pos < self.chars.len()
            invariant
                self.wf(),
                self.chars == old(self).chars,
                self.tokens == old(self).tokens,
                0 <= start < self.pos,
                start == old(self).pos,
                line == old(self).line,
                column == old(self).column,
                string_end(self.chars@, start + 1, false) == string_end(self.chars@, self.pos as int, escaped),
                value@ == self.chars@.subrange(start, self.pos as int),
            decreases self.chars.len() - self.pos,
        {
            let ch = self.chars[self.pos];
            value.push(ch);
            self.advance();
            proof {
                assert(value@ =~= self.chars@.subrange(start, self.pos as int));
            }
            if escaped {
                escaped = false;
            } else if ch == '\\' {
                escaped = true;
            } else if ch == '"' {
                let ghost before = self.tokens@;
                self.push(TokenKind::String(string_of(value.as_slice())), line, column);
                proof {
                    lemma_tokens_view_push(before, self.tokens@.last());
                }
                return Ok(());
            } else if ch == '\n' {
                return Err(RustToPythonError::new("文字列リテラルが閉じられていません", line, column));
            }
        }
        Err(RustToPythonError::new("文字列リテラルが閉じられていません", line, column))
    }

    /// A run of digits and `_`.
    fn lex_number(&mut self)
        requires
            old(self).wf(),
        ensures
            final(self).wf(),
            final(self).chars == old(self).chars,
            final(self).pos == number_end(old(self).chars@, old(self).pos as int),
            tokens_view(final(self).tokens@) == tokens_view(old(self).tokens@).push(
                TokV {
                    kind: TokKindV::Number(old(self).chars@.subrange(old(self).pos as int, final(self).pos as int)),
                    line: old(self).line as int,
                    column: old(self).column as int,
                },
            ),
    {
        let line = self.line;
        let column = self.column;
        let ghost start = self.pos as int;
        let mut value: Vec<char> = Vec::new();
        while self.pos < self.chars.len() && (('0' <= self.chars[self.pos] && self.chars[self.pos] <= '9') || self.chars[self.pos] == '_')
            invariant
                self.wf(),
                self.chars == old(self).chars,
                self.tokens == old(self).tokens,
                0 <= start <= self.pos,
                number_end(self.chars@, start) == number_end(self.chars@, self.pos as int),
                value@ == self.chars@.subrange(start, self.pos as int),
            decreases self.chars.len() - self.pos,
        {
            value.push(self.chars[self.pos]);
            self.advance();
            proof {
                assert(value@ =~= self.chars@.subrange(start, self.pos as int));
            }
        }
        let ghost before = self.tokens@;
        self.push(TokenKind::Number(string_of(value.as_slice())), line, column);
        proof {
            lemma_tokens_view_push(before, self.tokens@.last());
        }
    }

    /// An identifier or keyword.
    fn lex_ident(&mut self)
        requires
            old(self).wf(),
        ensures
            final(self).wf(),
            final(self).chars == old(self).chars,
            final(self).pos == ident_end(old(self).chars@, old(self).pos as int),
            tokens_view(final(self).tokens@) == tokens_view(old(self).tokens@).push(
                TokV {
                    kind: TokKindV::Ident(old(self).chars@.subrange(old(self).pos as int, final(self).pos as int)),
                    line: old(self).line as int,
                    column: old(self).column as int,
                },
            ),
    {
        let line = self.line;
        let column = self.column;
        let value = self.take_ident();
        let ghost before = self.tokens@;
        self.push(TokenKind::Ident(string_of(value.as_slice())), line, column);
        proof {
            lemma_tokens_view_push(before, self.tokens@.last());
        }
    }

    /// A lifetime such as `'a`, kept as one identifier token with its quote.
    fn lex_lifetime(&mut self)
        requires
            old(self).wf(),
            old(self).pos < old(self).chars.len(),
        ensures
            final(self).wf(),
            final(self).chars == old(self).chars,
            final(self).pos == ident_end(old(self).chars@, old(self).pos + 1),
            tokens_view(final(self).tokens@) == tokens_view(old(self).tokens@).push(
                TokV {
                    kind: TokKindV::Ident(old(self).chars@.subrange(old(self).pos as int, final(self).pos as int)),
                    line: old(self).line as int,
                    column: old(self).column as int,
                },
            ),
    {
        let line = self.line;
        let column = self.column;
        let quote = self.chars[self.pos];
        self.advance();
        let rest = self.take_ident();
        let mut value: Vec<char> = Vec::new();
        value.push(quote);
        push_chars(&mut value, &rest);
        proof {
            assert(value@ == seq![quote] + rest@);
            assert(value@ =~= self.chars@.subrange(old(self).pos as int, self.pos as int));
        }
        let ghost before = self.tokens@;
        self.push(TokenKind::Ident(string_of(value.as_slice())), line, column);
        proof {
            lemma_tokens_view_push(before, self.tokens@.last());
        }
    }

    /// An operator of one or two characters.
    fn lex_operator(&mut self) -> (r: Result<(), RustToPythonError>)
        requires
            old(self).wf(),
            old(self).pos < old(self).chars.len(),
        ensures
            final(self).wf(),
            final(self).chars == old(self).chars,
            match operator_step(old(self).chars@, old(self).pos as int) {
                Step::Tok(kind, k) => r is Ok && final(self).pos == k && tokens_view(final(self).tokens@)
                    == tokens_view(old(self).tokens@).push(
                    TokV { kind, line: old(self).line as int, column: old(self).column as int },
                ),
                Step::Fail(m) => r matches Err(e) && e.view_diag() == diag(
                    m,
                    old(self).line as int,
                    old(self).column as int,
                ),
                Step::Skip(_) => false,
            },
    {
        let line = self.line;
        let column = self.column;
        let ch = self.chars[self.pos];
        self.advance();
        let ghost before = self.tokens@;
        if self.pos < self.chars.len() && is_op_pair(ch, self.chars[self.pos]) {
            let next = self.chars[self.pos];
            self.advance();
            let v: Vec<char> = vec![ch, next];
            self.push(TokenKind::Operator(string_of(v.as_slice())), line, column);
            proof {
                assert(v@ =~= seq![ch, next]);
                lemma_tokens_view_push(before, self.tokens@.last());
            }
            Ok(())
        } else if ch == '|' {
            Err(RustToPythonError::new("`||` が必要です", line, column))
        } else {
            let v: Vec<char> = vec![ch];
            self.push(TokenKind::Operator(string_of(v.as_slice())), line, column);
            proof {
                assert(v@ =~= seq![ch]);
                lemma_tokens_view_push(before, self.tokens@.last());
            }
            Ok(())
        }
    }

    /// Lexes the whole input.
    fn lex_all(&mut self) -> (r: Result<(), RustToPythonError>)
        requires
            old(self).wf(),
            old(self).pos == 0,
            old(self).tokens@.len() == 0,
        ensures
            final(self).chars == old(self).chars,
            match r {
                Ok(_) => lex_spec(old(self).chars@) == Ok::<Seq<TokV>, Diag>(tokens_view(final(self).tokens@)),
                Err(e) => lex_spec(old(self).chars@) == Err::<Seq<TokV>, Diag>(e.view_diag()),
            },
    {
        let ghost cs = self.chars@;
        proof {
            assert(tokens_view(self.tokens@) =~= Seq::<TokV>::empty());
            assert(lex_spec(cs) == lex_from(cs, 0));
        }
        while self.pos < self.chars.len()
            invariant
                self.wf(),
                self.chars == old(self).chars,
                cs == self.chars@,
                lex_spec(cs) == match lex_from(cs, self.pos as int) {
                    Ok(rest) => Ok::<Seq<TokV>, Diag>(tokens_view(self.tokens@) + rest),
                    Err(d) => Err::<Seq<TokV>, Diag>(d),
                },
            decreases self.chars.len() - self.pos,
        {
            let ghost i = self.pos as int;
            let ghost tv = tokens_view(self.tokens@);
            let ch = self.chars[self.pos];
            let has_next = self.pos + 1 < self.chars.len();
            let next = if has_next { self.chars[self.pos + 1] } else { ' ' };
            proof {
                self.lemma_wf();
                lemma_scan_ends(cs, i);
            }
            if ch == ' ' || ch == '\t' || ch == '\r' || ch == '\n' {
                self.advance();
            } else if ch == '/' && has_next && next == '/' {
                if self.is_floor_div_operator() {
                    let r = self.lex_operator();
                    if r.is_err() {
                        return r;
                    }
                } else {
                    self.lex_comment();
                }
            } else if ch == '/' && has_next && next == '*' {
                let r = self.lex_block_comment();
                if r.is_err() {
                    return r;
                }
            } else if ch == '"' {
                let r = self.lex_string();
                if r.is_err() {
                    return r;
                }
            } else if ch == '\'' && has_next && is_ident_start(next) {
                self.lex_lifetime();
            } else if '0' <= ch && ch <= '9' {
                self.lex_number();
            } else if is_ident_start(ch) {
                self.lex_ident();
            } else if ch == ':' && has_next && next == ':' {
                let r = self.lex_operator();
                if r.is_err() {
                    return r;
                }
            } else if ch == '{' || ch == '}' || ch == '(' || ch == ')' || ch == '[' || ch == ']'
                || ch == ',' || ch == ';' || ch == ':' {
                let line = self.line;
                let column = self.column;
                self.advance();
                let ghost before = self.tokens@;
                self.push(TokenKind::Symbol(ch), line, column);
                proof {
                    lemma_tokens_view_push(before, self.tokens@.last());
                }
            } else if ch == '=' || ch == '!' || ch == '<' || ch == '>' || ch == '&' || ch == '|'
                || ch == '.' || ch == '-' || ch == '+' || ch == '*' || ch == '/' || ch == '%' {
                let r = self.lex_operator();
                if r.is_err() {
                    return r;
                }
            } else {
                let mut m: Vec<char> = Vec::new();
                push_str(&mut m, "予期しない文字 `");
                m.push(ch);
                push_str(&mut m, "`");
                proof {
                    assert(m@ =~= "予期しない文字 `"@ + seq![ch] + "`"@);
                }
                return Err(RustToPythonError::from_message(string_of(m.as_slice()), self.line, self.column));
            }
            proof {
                let nv = tokens_view(self.tokens@);
                match lex_from(cs, self.pos as int) {
                    Ok(rest) => {
                        if nv.len() > tv.len() {
                            assert(nv + rest =~= tv + (seq![nv.last()] + rest));
                        }
                    },
                    Err(_) => {},
                }
            }
        }
        proof {
            assert(tokens_view(self.tokens@) + Seq::<TokV>::empty() =~= tokens_view(self.tokens@));
        }
        Ok(())
    }
}

/// Whether `a` followed by `b` is a two-character operator.
fn is_op_pair(a: char, b: char) -> (r: bool)
    ensures
        r == op_pair(a, b),
{
    (a == '/' && b == '/') || (a == '*' && b == '*') || (a == '=' && b == '=') || (a == '!' && b == '=')
        || (a == '<' && b == '=') || (a == '>' && b == '=') || (a == '&' && b == '&') || (a == '|' && b == '|')
        || (a == ':' && b == ':') || (a == '.' && b == '.') || (a == '-' && b == '>')
}

proof fn lemma_ident_end(cs: Seq<char>, i: int)
    requires
        0 <= i <= cs.len(),
    ensures
        i <= ident_end(cs, i) <= cs.len(),
    decreases cs.len() - i,
{
    if i < cs.len() && ident_continue(cs[i]) {
        lemma_ident_end(cs, i + 1);
    }
}

proof fn lemma_number_end(cs: Seq<char>, i: int)
    requires
        0 <= i <= cs.len(),
    ensures
        i <= number_end(cs, i) <= cs.len(),
    decreases cs.len() - i,
{
    if i < cs.len() && (is_digit(cs[i]) || cs[i] == '_') {
        lemma_number_end(cs, i + 1);
    }
}

proof fn lemma_line_end(cs: Seq<char>, i: int)
    requires
        0 <= i <= cs.len(),
    ensures
        i <= line_end(cs, i) <= cs.len(),
    decreases cs.len() - i,
{
    if i < cs.len() && cs[i] != '\n' {
        lemma_line_end(cs, i + 1);
    }
}

proof fn lemma_block_end(cs: Seq<char>, i: int)
    requires
        0 <= i,
    ensures
        block_end(cs, i) matches Some(j) ==> i <= j && j + 1 < cs.len(),
    decreases cs.len() - i,
{
    if 0 <= i < cs.len() && !(cs[i] == '*' && i + 1 < cs.len() && cs[i + 1] == '/') {
        lemma_block_end(cs, i + 1);
    }
}

proof fn lemma_string_end(cs: Seq<char>, i: int, escaped: bool)
    requires
        0 <= i,
    ensures
        string_end(cs, i, escaped) matches Some(j) ==> i <= j < cs.len(),
    decreases cs.len() - i,
{
    if 0 <= i < cs.len() {
        lemma_string_end(cs, i + 1, false);
        lemma_string_end(cs, i + 1, true);
    }
}

/// Every scan that starts at `i` ends at or after it and within the input.
proof fn lemma_scan_ends(cs: Seq<char>, i: int)
    requires
        0 <= i < cs.len(),
    ensures
        i <= ident_end(cs, i) <= cs.len(),
        i + 1 <= ident_end(cs, i + 1) <= cs.len(),
        i <= number_end(cs, i) <= cs.len(),
        i + 1 <= number_end(cs, i + 1) <= cs.len(),
        i + 1 < cs.len() ==> i + 2 <= line_end(cs, i + 2) <= cs.len(),
        block_end(cs, i + 2) matches Some(j) ==> i + 2 <= j && j + 1 < cs.len(),
        string_end(cs, i + 1, false) matches Some(j) ==> i + 1 <= j < cs.len(),
{
    lemma_ident_end(cs, i);
    lemma_ident_end(cs, i + 1);
    lemma_number_end(cs, i);
    lemma_number_end(cs, i + 1);
    if i + 1 < cs.len() {
        lemma_line_end(cs, i + 2);
    }
    lemma_block_end(cs, i + 2);
    lemma_string_end(cs, i + 1, false);
}

proof fn lemma_tokens_view_push(ts: Seq<Token>, t: Token)
    ensures
        tokens_view(ts.push(t)) == tokens_view(ts).push(t.view_token()),
{
    assert(tokens_view(ts.push(t)) =~= tokens_view(ts).push(t.view_token()));
}

/// The tokens of `source`, each with the line and column where it starts.
pub fn lex(source: &str) -> (r: Result<Vec<Token>, RustToPythonError>)
    ensures
        match r {
            Ok(ts) => lex_spec(source@) == Ok::<Seq<TokV>, Diag>(tokens_view(ts@)),
            Err(e) => lex_spec(source@) == Err::<Seq<TokV>, Diag>(e.view_diag()),
        },
{
    let chars = chars_of(source);
    let mut lexer = Lexer { chars, pos: 0, line: 1, column: 1, tokens: Vec::new() };
    proof {
        assert(pos_of(lexer.chars@, 0) == (1int, 1int));
    }
    match lexer.lex_all() {
        Ok(()) => Ok(lexer.tokens),
        Err(e) => Err(e),
    }
}

} // verus!
