//! Splits Lisp source text into parentheses, strings and symbols.
use vstd::prelude::*;
use crate::text::{chars_of, is_space, is_whitespace, string_of};
use super::error::{diag, Diag, LispToPythonError};

verus! {

/// A token with the 1-based line and column where it starts.
#[derive(Debug, Clone, PartialEq, Eq)]
pub struct Token {
    pub kind: TokenKind,
    pub line: usize,
    pub column: usize,
}

/// The kinds of Lisp tokens.
#[derive(Debug, Clone, PartialEq, Eq)]
pub enum TokenKind {
    LParen,
    RParen,
    String(String),
    Symbol(String),
}

/// What a token kind holds.
pub enum TokenKindV {
    LParen,
    RParen,
    Str(Seq<char>),
    Symbol(Seq<char>),
}

/// What a token holds.
pub struct TokenV {
    pub kind: TokenKindV,
    pub line: int,
    pub column: int,
}

impl TokenKind {
    pub open spec fn view_kind(self) -> TokenKindV {
        match self {
            TokenKind::LParen => TokenKindV::LParen,
            TokenKind::RParen => TokenKindV::RParen,
            TokenKind::String(s) => TokenKindV::Str(s@),
            TokenKind::Symbol(s) => TokenKindV::Symbol(s@),
        }
    }
}

impl Token {
    pub open spec fn view_token(self) -> TokenV {
        TokenV { kind: self.kind.view_kind(), line: self.line as int, column: self.column as int }
    }
}

/// The views of a sequence of tokens.
pub open spec fn tokens_view(ts: Seq<Token>) -> Seq<TokenV> {
    ts.map_values(|t: Token| t.view_token())
}

/// The character a string escape `\c` stands for.
pub open spec fn unescape(c: char) -> char {
    if c == 'n' {
        '\n'
    } else if c == 'r' {
        '\r'
    } else if c == 't' {
        '\t'
    } else {
        c
    }
}

pub open spec fn msg_escape_cut() -> Seq<char> {
    "文字列の escape が途中で終わっています"@
}

pub open spec fn msg_unclosed_string() -> Seq<char> {
    "文字列が閉じられていません"@
}

/// The rest of a string literal from index `j` (just after the opening quote or
/// inside the literal) at (`line`, `col`): its value, the index after the closing
/// quote, and the position there; or the message of the error that stops it.
pub open spec fn string_body(cs: Seq<char>, j: int, line: int, col: int) -> Result<
    (Seq<char>, int, int, int),
    Seq<char>,
>
    decreases cs.len() - j,
{
    if j < 0 || j >= cs.len() {
        Err(msg_unclosed_string())
    } else if cs[j] == '"' {
        Ok((Seq::empty(), j + 1, line, col + 1))
    } else if cs[j] == '\\' {
        if j + 1 >= cs.len() {
            Err(msg_escape_cut())
        } else {
            match string_body(cs, j + 2, line, col + 2) {
                Ok((v, k, l, c)) => Ok((seq![unescape(cs[j + 1])] + v, k, l, c)),
                Err(m) => Err(m),
            }
        }
    } else if cs[j] == '\n' {
        match string_body(cs, j + 1, line + 1, 1) {
            Ok((v, k, l, c)) => Ok((seq![cs[j]] + v, k, l, c)),
            Err(m) => Err(m),
        }
    } else {
        match string_body(cs, j + 1, line, col + 1) {
            Ok((v, k, l, c)) => Ok((seq![cs[j]] + v, k, l, c)),
            Err(m) => Err(m),
        }
    }
}

/// Characters that end a symbol.
pub open spec fn ends_symbol(c: char) -> bool {
    is_space(c) || c == '(' || c == ')' || c == ';'
}

/// The index where the symbol starting at `i` ends.
pub open spec fn symbol_end(cs: Seq<char>, i: int) -> int
    decreases cs.len() - i,
{
    if i < 0 || i >= cs.len() || ends_symbol(cs[i]) {
        i
    } else {
        symbol_end(cs, i + 1)
    }
}

/// The index of the line break that ends the comment starting at `i`, or the end.
pub open spec fn line_end(cs: Seq<char>, i: int) -> int
    decreases cs.len() - i,
{
    if i < 0 || i >= cs.len() || cs[i] == '\n' {
        i
    } else {
        line_end(cs, i + 1)
    }
}

/// The tokens of `cs` from index `i`, which stands at (`line`, `col`).
pub open spec fn lex_from(cs: Seq<char>, i: int, line: int, col: int) -> Result<Seq<TokenV>, Diag>
    decreases cs.len() - i,
{
    if i < 0 || i >= cs.len() {
        Ok(Seq::empty())
    } else {
        let ch = cs[i];
        if ch == '(' || ch == ')' {
            let kind = if ch == '(' { TokenKindV::LParen } else { TokenKindV::RParen };
            match lex_from(cs, i + 1, line, col + 1) {
                Ok(rest) => Ok(seq![TokenV { kind, line, column: col }] + rest),
                Err(e) => Err(e),
            }
        } else if ch == '"' {
            match string_body(cs, i + 1, line, col + 1) {
                Err(m) => Err(diag(m, line, col)),
                Ok((v, k, l, c)) => if k <= i || k > cs.len() {
                    Ok(Seq::empty())
                } else {
                    match lex_from(cs, k, l, c) {
                        Ok(rest) => Ok(
                            seq![TokenV { kind: TokenKindV::Str(v), line, column: col }] + rest,
                        ),
                        Err(e) => Err(e),
                    }
                },
            }
        } else if ch == ';' {
            let j = line_end(cs, i);
            if j <= i || j > cs.len() {
                Ok(Seq::empty())
            } else {
                lex_from(cs, j, line, col + (j - i))
            }
        } else if ch == '\n' {
            lex_from(cs, i + 1, line + 1, 1)
        } else if is_space(ch) {
            lex_from(cs, i + 1, line, col + 1)
        } else {
            let j = symbol_end(cs, i + 1);
            if j <= i || j > cs.len() {
                Ok(Seq::empty())
            } else {
            match lex_from(cs, j, line, col + (j - i)) {
                Ok(rest) => Ok(
                    seq![
                        TokenV {
                            kind: TokenKindV::Symbol(cs.subrange(i, j)),
                            line,
                            column: col,
                        },
                    ] + rest,
                ),
                Err(e) => Err(e),
            }
            }
        }
    }
}

/// What the lexer gives for `source`.
pub open spec fn lex_spec(source: Seq<char>) -> Result<Seq<TokenV>, Diag> {
    lex_from(source, 0, 1, 1)
}

/// The view of a lexing result.
pub open spec fn lex_result_view(r: Result<Vec<Token>, LispToPythonError>) -> Result<
    Seq<TokenV>,
    Diag,
> {
    match r {
        Ok(ts) => Ok(tokens_view(ts@)),
        Err(e) => Err(e.view_diag()),
    }
}

proof fn lemma_string_body_advances(cs: Seq<char>, j: int, line: int, col: int)
    requires
        0 <= j,
        line >= 1,
        col >= 1,
    ensures
        string_body(cs, j, line, col) matches Ok((v, k, l, c)) ==> k > j && k <= cs.len() && l
            >= 1 && c >= 1 && l <= line + (k - j) && c <= col + (k - j) && (l > line ==> c <= k
            - j),
    decreases cs.len() - j,
{
    if 0 <= j < cs.len() {
        if cs[j] == '\\' && j + 1 < cs.len() {
            lemma_string_body_advances(cs, j + 2, line, col + 2);
        } else if cs[j] == '\n' {
            lemma_string_body_advances(cs, j + 1, line + 1, 1);
        } else if cs[j] != '"' && cs[j] != '\\' {
            lemma_string_body_advances(cs, j + 1, line, col + 1);
        }
    }
}

proof fn lemma_symbol_end(cs: Seq<char>, i: int)
    requires
        0 <= i <= cs.len(),
    ensures
        i <= symbol_end(cs, i) <= cs.len(),
        forall|k: int| i <= k < symbol_end(cs, i) ==> !ends_symbol(#[trigger] cs[k]),
        symbol_end(cs, i) < cs.len() ==> ends_symbol(cs[symbol_end(cs, i)]),
    decreases cs.len() - i,
{
    if i < cs.len() && !ends_symbol(cs[i]) {
        lemma_symbol_end(cs, i + 1);
    }
}

proof fn lemma_line_end(cs: Seq<char>, i: int)
    requires
        0 <= i <= cs.len(),
    ensures
        i <= line_end(cs, i) <= cs.len(),
        forall|k: int| i <= k < line_end(cs, i) ==> #[trigger] cs[k] != '\n',
        line_end(cs, i) < cs.len() ==> cs[line_end(cs, i)] == '\n',
    decreases cs.len() - i,
{
    if i < cs.len() && cs[i] != '\n' {
        lemma_line_end(cs, i + 1);
    }
}

/// Each token takes at least one character.
pub proof fn lemma_lex_len(cs: Seq<char>, i: int, line: int, col: int)
    requires
        0 <= i <= cs.len(),
        line >= 1,
        col >= 1,
    ensures
        lex_from(cs, i, line, col) matches Ok(ts) ==> ts.len() <= cs.len() - i,
    decreases cs.len() - i,
{
    if i < cs.len() {
        let ch = cs[i];
        if ch == '(' || ch == ')' {
            lemma_lex_len(cs, i + 1, line, col + 1);
        } else if ch == '"' {
            lemma_string_body_advances(cs, i + 1, line, col + 1);
            if let Ok((v, k, l, c)) = string_body(cs, i + 1, line, col + 1) {
                lemma_lex_len(cs, k, l, c);
            }
        } else if ch == ';' {
            lemma_line_end(cs, i);
            let j = line_end(cs, i);
            if i < j <= cs.len() {
                lemma_lex_len(cs, j, line, col + (j - i));
            }
        } else if ch == '\n' {
            lemma_lex_len(cs, i + 1, line + 1, 1);
        } else if is_space(ch) {
            lemma_lex_len(cs, i + 1, line, col + 1);
        } else {
            lemma_symbol_end(cs, i + 1);
            let j = symbol_end(cs, i + 1);
            lemma_lex_len(cs, j, line, col + (j - i));
        }
    }
}

/// Reads a string literal whose opening quote is at `start` (at `line`, `column`).
fn read_string(cs: &Vec<char>, start: usize, line: usize, column: usize) -> (r: Result<
    (Token, usize, usize, usize),
    LispToPythonError,
>)
    requires
        start < cs.len() < isize::MAX,
        cs@[start as int] == '"',
        1 <= line <= start + 1,
        1 <= column <= start + 1,
    ensures
        match string_body(cs@, start + 1, line as int, column + 1) {
            Ok((v, k, l, c)) => r matches Ok((t, k2, l2, c2)) && t.view_token() == (TokenV {
                kind: TokenKindV::Str(v),
                line: line as int,
                column: column as int,
            }) && k2 == k && l2 == l && c2 == c,
            Err(m) => r matches Err(e) && e.view_diag() == diag(m, line as int, column as int),
        },
{
    let ghost whole = string_body(cs@, start + 1, line as int, column + 1);
    let mut j = start + 1;
    let mut cur_line = line;
    let mut cur_col = column + 1;
    let mut value: Vec<char> = Vec::new();
    proof {
        lemma_string_body_advances(cs@, start + 1, line as int, column + 1);
    }
    while j < cs.len()
        invariant
            start < j <= cs.len() < isize::MAX,
            1 <= cur_line <= j,
            1 <= cur_col <= j + 1,
            cur_line > line ==> cur_col <= j - start,
            cur_line == line ==> cur_col == column + (j - start),
            line <= cur_line,
            whole == string_body(cs@, start + 1, line as int, column + 1),
            match string_body(cs@, j as int, cur_line as int, cur_col as int) {
                Ok((v, k, l, c)) => whole == Ok::<(Seq<char>, int, int, int), Seq<char>>(
                    (value@ + v, k, l, c),
                ),
                Err(m) => whole == Err::<(Seq<char>, int, int, int), Seq<char>>(m),
            },
        decreases cs.len() - j,
    {
        let ch = cs[j];
        if ch == '"' {
            let s = string_of(value.as_slice());
            proof {
                assert(value@ + Seq::<char>::empty() == value@);
            }
            let t = Token { kind: TokenKind::String(s), line, column };
            return Ok((t, j + 1, cur_line, cur_col + 1));
        } else if ch == '\\' {
            if j + 1 >= cs.len() {
                return Err(LispToPythonError::new("文字列の escape が途中で終わっています", line, column));
            }
            let e = cs[j + 1];
            let u = if e == 'n' {
                '\n'
            } else if e == 'r' {
                '\r'
            } else if e == 't' {
                '\t'
            } else {
                e
            };
            proof {
                assert(value@.push(u) + (match string_body(cs@, j + 2, cur_line as int, cur_col + 2) {
                    Ok((v, k, l, c)) => v, Err(_) => Seq::empty() }) =~= value@ + (seq![u] + (match string_body(cs@, j + 2, cur_line as int, cur_col + 2) {
                    Ok((v, k, l, c)) => v, Err(_) => Seq::empty() })));
            }
            value.push(u);
            j = j + 2;
            cur_col = cur_col + 2;
        } else if ch == '\n' {
            proof {
                assert(value@.push(ch) + (match string_body(cs@, j + 1, cur_line + 1, 1) {
                    Ok((v, k, l, c)) => v, Err(_) => Seq::empty() }) =~= value@ + (seq![ch] + (match string_body(cs@, j + 1, cur_line + 1, 1) {
                    Ok((v, k, l, c)) => v, Err(_) => Seq::empty() })));
            }
            value.push(ch);
            j = j + 1;
            cur_line = cur_line + 1;
            cur_col = 1;
        } else {
            proof {
                assert(value@.push(ch) + (match string_body(cs@, j + 1, cur_line as int, cur_col + 1) {
                    Ok((v, k, l, c)) => v, Err(_) => Seq::empty() }) =~= value@ + (seq![ch] + (match string_body(cs@, j + 1, cur_line as int, cur_col + 1) {
                    Ok((v, k, l, c)) => v, Err(_) => Seq::empty() })));
            }
            value.push(ch);
            j = j + 1;
            cur_col = cur_col + 1;
        }
    }
    Err(LispToPythonError::new("文字列が閉じられていません", line, column))
}

proof fn lemma_tokens_view_push(ts: Seq<Token>, t: Token)
    ensures
        tokens_view(ts.push(t)) == tokens_view(ts).push(t.view_token()),
{
    assert(tokens_view(ts.push(t)) =~= tokens_view(ts).push(t.view_token()));
}

/// Splits `source` into tokens; an unterminated string literal is an error.
pub fn lex(source: &str) -> (r: Result<Vec<Token>, LispToPythonError>)
    ensures
        lex_result_view(r) == lex_spec(source@),
        r matches Ok(ts) ==> ts.len() < isize::MAX,
{
    let cs = chars_of(source);
    let mut tokens: Vec<Token> = Vec::new();
    let mut i: usize = 0;
    let mut line: usize = 1;
    let mut column: usize = 1;
    proof {
        assert(tokens_view(tokens@) + lex_from(cs@, 0, 1, 1)->Ok_0 =~= lex_from(cs@, 0, 1, 1)->Ok_0);
    }
    while i < cs.len()
        invariant
            0 <= i <= cs.len() < isize::MAX,
            1 <= line <= i + 1,
            1 <= column <= i + 1,
            cs@ == source@,
            match lex_from(cs@, i as int, line as int, column as int) {
                Ok(rest) => lex_spec(cs@) == Ok::<Seq<TokenV>, Diag>(tokens_view(tokens@) + rest),
                Err(e) => lex_spec(cs@) == Err::<Seq<TokenV>, Diag>(e),
            },
        decreases cs.len() - i,
    {
        let ch = cs[i];
        if ch == '(' || ch == ')' {
            let kind = if ch == '(' { TokenKind::LParen } else { TokenKind::RParen };
            let t = Token { kind, line, column };
            proof {
                lemma_tokens_view_push(tokens@, t);
                if let Ok(rest) = lex_from(cs@, i + 1, line as int, column + 1) {
                    assert(tokens_view(tokens@).push(t.view_token()) + rest =~= tokens_view(tokens@) + (seq![t.view_token()] + rest));
                }
            }
            tokens.push(t);
            i = i + 1;
            column = column + 1;
        } else if ch == '"' {
            proof {
                lemma_string_body_advances(cs@, i + 1, line as int, column + 1);
            }
            match read_string(&cs, i, line, column) {
                Ok((t, k, l, c)) => {
                    proof {
                        lemma_tokens_view_push(tokens@, t);
                        if let Ok(rest) = lex_from(cs@, k as int, l as int, c as int) {
                            assert(tokens_view(tokens@).push(t.view_token()) + rest =~= tokens_view(tokens@) + (seq![t.view_token()] + rest));
                        }
                    }
                    tokens.push(t);
                    i = k;
                    line = l;
                    column = c;
                },
                Err(e) => {
                    return Err(e);
                },
            }
        } else if ch == ';' {
            let start = i;
            proof {
                lemma_line_end(cs@, i as int);
            }
            while i < cs.len() && cs[i] != '\n'
                invariant
                    start <= i <= cs.len(),
                    line_end(cs@, start as int) == line_end(cs@, i as int),
                decreases cs.len() - i,
            {
                i = i + 1;
            }
            column = column + (i - start);
        } else if ch == '\n' {
            i = i + 1;
            line = line + 1;
            column = 1;
        } else if is_whitespace(ch) {
            i = i + 1;
            column = column + 1;
        } else {
            let start = i;
            let mut value: Vec<char> = Vec::new();
            value.push(ch);
            i = i + 1;
            proof {
                lemma_symbol_end(cs@, i as int);
            }
            while i < cs.len() && !(is_whitespace(cs[i]) || cs[i] == '(' || cs[i] == ')' || cs[i] == ';')
                invariant
                    start < i <= cs.len(),
                    symbol_end(cs@, start + 1) == symbol_end(cs@, i as int),
                    value@ == cs@.subrange(start as int, i as int),
                decreases cs.len() - i,
            {
                value.push(cs[i]);
                i = i + 1;
                proof {
                    assert(value@ =~= cs@.subrange(start as int, i as int));
                }
            }
            let text = string_of(value.as_slice());
            let t = Token { kind: TokenKind::Symbol(text), line, column };
            proof {
                lemma_tokens_view_push(tokens@, t);
                if let Ok(rest) = lex_from(cs@, i as int, line as int, column + (i - start)) {
                    assert(tokens_view(tokens@).push(t.view_token()) + rest =~= tokens_view(tokens@) + (seq![t.view_token()] + rest));
                }
            }
            tokens.push(t);
            column = column + (i - start);
        }
    }
    proof {
        assert(tokens_view(tokens@) + Seq::<TokenV>::empty() =~= tokens_view(tokens@));
        lemma_lex_len(cs@, 0, 1, 1);
        assert(tokens_view(tokens@).len() == tokens@.len());
    }
    Ok(tokens)
}

} // verus!
