//! The workspace configuration file: how it is written and read back.
use vstd::prelude::*;
use crate::language::{lemma_parse_as_str, mode_name, parse_mode, LanguageMode};
use crate::paths::{push_quoted, quoted, quoted_body, quoted_char};
use crate::text::{
    chars_of, copy_chars, find_char, find_first, is_space, lemma_find_char_prefix,
    lemma_segments_len, lines_of, push_str, segments, str_eq, str_lines, string_of, trim, trim_text,
    vecs_view,
};

verus! {

pub const CONFIG_FILE_NAME: &'static str = "transplanter.toml";

/// The workspace settings.
#[derive(Debug, Clone, Default, PartialEq, Eq)]
pub struct Config {
    pub src_dir: String,
    pub out_dir: String,
    pub language: LanguageMode,
    pub last_release_tag: String,
    pub last_release_notes: String,
}

/// What the settings hold.
pub struct ConfigV {
    pub src: Seq<char>,
    pub out: Seq<char>,
    pub language: LanguageMode,
    pub tag: Seq<char>,
    pub notes: Seq<char>,
}

impl Config {
    pub open spec fn view_config(&self) -> ConfigV {
        ConfigV {
            src: self.src_dir@,
            out: self.out_dir@,
            language: self.language,
            tag: self.last_release_tag@,
            notes: self.last_release_notes@,
        }
    }
}

/// The settings before the file says anything.
pub open spec fn default_config() -> ConfigV {
    ConfigV { src: Seq::empty(), out: Seq::empty(), language: LanguageMode::Auto, tag: Seq::empty(), notes: Seq::empty() }
}

/// One `key = "value"` line.
pub open spec fn config_line(key: Seq<char>, value: Seq<char>) -> Seq<char> {
    key + " = "@ + quoted(value)
}

/// The text of the configuration file.
pub open spec fn render_spec(c: ConfigV) -> Seq<char> {
    config_line("src_dir"@, c.src) + seq!['\n'] + config_line("out_dir"@, c.out) + seq!['\n'] + config_line(
        "language"@,
        mode_name(c.language),
    ) + seq!['\n'] + config_line("last_release_tag"@, c.tag) + seq!['\n'] + config_line("last_release_notes"@, c.notes)
        + seq!['\n']
}

/// The text of a quoted string with its escapes undone; `None` when it ends inside an
/// escape.
pub open spec fn unescape(s: Seq<char>) -> Option<Seq<char>>
    decreases s.len(),
{
    if s.len() == 0 {
        Some(Seq::empty())
    } else if s[0] != '\\' {
        match unescape(s.subrange(1, s.len() as int)) {
            Some(r) => Some(seq![s[0]] + r),
            None => None,
        }
    } else if s.len() < 2 {
        None
    } else {
        let e = s[1];
        let c = if e == 'n' {
            '\n'
        } else if e == 'r' {
            '\r'
        } else if e == 't' {
            '\t'
        } else {
            e
        };
        match unescape(s.subrange(2, s.len() as int)) {
            Some(r) => Some(seq![c] + r),
            None => None,
        }
    }
}

/// A configuration value: a double-quoted string with escapes.
pub open spec fn toml_value_spec(v: Seq<char>) -> Result<Seq<char>, Seq<char>> {
    if v.len() >= 2 && v[0] == '"' && v.last() == '"' {
        match unescape(v.subrange(1, v.len() - 1)) {
            Some(r) => Ok(r),
            None => Err("エラー: 設定ファイルの文字列エスケープが途中で終わっています"@),
        }
    } else {
        Err("エラー: 設定ファイルの文字列は \"...\" で囲んでください"@)
    }
}

/// The settings after lines `i..` of the file, starting from `c`. Blank lines,
/// `#` comments and lines without `=` are skipped; a value that is not a quoted string,
/// or a language that is not known, is an error; unknown keys are ignored.
pub open spec fn config_from(lines: Seq<Seq<char>>, i: int, c: ConfigV) -> Result<ConfigV, Seq<char>>
    decreases lines.len() - i,
{
    if i < 0 || i >= lines.len() {
        Ok(c)
    } else {
        let line = trim(lines[i]);
        let k = find_char(line, '=');
        if line.len() == 0 || line[0] == '#' || k < 0 {
            config_from(lines, i + 1, c)
        } else {
            let key = trim(line.subrange(0, k));
            match toml_value_spec(trim(line.subrange(k + 1, line.len() as int))) {
                Err(m) => Err(m),
                Ok(v) => if key == "src_dir"@ {
                    config_from(lines, i + 1, ConfigV { src: v, ..c })
                } else if key == "out_dir"@ {
                    config_from(lines, i + 1, ConfigV { out: v, ..c })
                } else if key == "language"@ {
                    match parse_mode(v) {
                        Some(m) => config_from(lines, i + 1, ConfigV { language: m, ..c }),
                        None => Err("エラー: language は auto、rust、lisp のどれかを指定してください: `"@ + v + "`"@),
                    }
                } else if key == "last_release_tag"@ {
                    config_from(lines, i + 1, ConfigV { tag: v, ..c })
                } else if key == "last_release_notes"@ {
                    config_from(lines, i + 1, ConfigV { notes: v, ..c })
                } else {
                    config_from(lines, i + 1, c)
                },
            }
        }
    }
}

/// The settings a configuration file holds.
pub open spec fn parse_config_spec(contents: Seq<char>) -> Result<ConfigV, Seq<char>> {
    config_from(str_lines(contents), 0, default_config())
}

/// Appends `key = "value"` and a line break.
fn push_config_line(out: &mut Vec<char>, key: &str, value: &str)
    ensures
        final(out)@ == old(out)@ + config_line(key@, value@) + seq!['\n'],
{
    push_str(out, key);
    push_str(out, " = ");
    let v = chars_of(value);
    push_quoted(out, &v);
    out.push('\n');
    proof {
        assert(out@ =~= old(out)@ + config_line(key@, value@) + seq!['\n']);
    }
}

/// The text of the configuration file.
pub fn render_config(config: &Config) -> (r: String)
    ensures
        r@ == render_spec(config.view_config()),
{
    let mut out: Vec<char> = Vec::new();
    push_config_line(&mut out, "src_dir", config.src_dir.as_str());
    push_config_line(&mut out, "out_dir", config.out_dir.as_str());
    push_config_line(&mut out, "language", config.language.as_str());
    push_config_line(&mut out, "last_release_tag", config.last_release_tag.as_str());
    push_config_line(&mut out, "last_release_notes", config.last_release_notes.as_str());
    proof {
        assert(out@ =~= render_spec(config.view_config()));
    }
    string_of(out.as_slice())
}

/// A configuration value with its quotes and escapes undone.
pub fn parse_toml_string(value: &str) -> (r: Result<String, String>)
    ensures
        match toml_value_spec(value@) {
            Ok(v) => r matches Ok(s) && s@ == v,
            Err(m) => r matches Err(e) && e@ == m,
        },
{
    let v = chars_of(value);
    if !(v.len() >= 2 && v[0] == '"' && v[v.len() - 1] == '"') {
        return Err(String::from_str("エラー: 設定ファイルの文字列は \"...\" で囲んでください"));
    }
    let inner = copy_chars(&v, 1, v.len() - 1);
    let mut out: Vec<char> = Vec::new();
    let mut i: usize = 0;
    proof {
        assert(inner@.subrange(0, inner@.len() as int) =~= inner@);
        match unescape(inner@) {
            Some(r) => {
                assert(out@ + r =~= r);
            },
            None => {},
        }
    }
    while i < inner.len()
        invariant
            i <= inner@.len(),
            value@.len() >= 2 && value@[0] == '"' && value@.last() == '"',
            inner@ == value@.subrange(1, value@.len() - 1),
            unescape(inner@) == match unescape(inner@.subrange(i as int, inner@.len() as int)) {
                Some(r) => Some(out@ + r),
                None => None::<Seq<char>>,
            },
        decreases inner@.len() - i,
    {
        let c = inner[i];
        let ghost rest = inner@.subrange(i as int, inner@.len() as int);
        let ghost before = out@;
        if c != '\\' {
            out.push(c);
            proof {
                let next = inner@.subrange(i + 1, inner@.len() as int);
                assert(rest.subrange(1, rest.len() as int) =~= next);
                match unescape(next) {
                    Some(r) => {
                        assert(before + (seq![c] + r) =~= out@ + r);
                    },
                    None => {},
                }
            }
            i = i + 1;
        } else {
            if inner.len() - i < 2 {
                return Err(String::from_str("エラー: 設定ファイルの文字列エスケープが途中で終わっています"));
            }
            let e = inner[i + 1];
            let d = if e == 'n' {
                '\n'
            } else if e == 'r' {
                '\r'
            } else if e == 't' {
                '\t'
            } else {
                e
            };
            out.push(d);
            proof {
                let next = inner@.subrange(i + 2, inner@.len() as int);
                assert(rest.subrange(2, rest.len() as int) =~= next);
                assert(rest[1] == e);
                match unescape(next) {
                    Some(r) => {
                        assert(before + (seq![d] + r) =~= out@ + r);
                    },
                    None => {},
                }
            }
            i = i + 2;
        }
    }
    proof {
        assert(inner@.subrange(inner@.len() as int, inner@.len() as int) =~= Seq::<char>::empty());
        assert(out@ + Seq::<char>::empty() =~= out@);
    }
    Ok(string_of(out.as_slice()))
}


/// The settings a configuration file holds.
pub fn parse_config(contents: &str) -> (r: Result<Config, String>)
    ensures
        match parse_config_spec(contents@) {
            Ok(c) => r matches Ok(cfg) && cfg.view_config() == c,
            Err(m) => r matches Err(e) && e@ == m,
        },
{
    let v = chars_of(contents);
    let lines = lines_of(&v);
    let ghost ls = vecs_view(lines@);
    let mut config = Config {
        src_dir: String::new(),
        out_dir: String::new(),
        language: LanguageMode::Auto,
        last_release_tag: String::new(),
        last_release_notes: String::new(),
    };
    let mut i: usize = 0;
    while i < lines.len()
        invariant
            i <= lines@.len(),
            ls == vecs_view(lines@),
            parse_config_spec(contents@) == config_from(ls, i as int, config.view_config()),
        decreases lines@.len() - i,
    {
        let line = trim_text(&lines[i]);
        proof {
            assert(ls[i as int] == lines@[i as int]@);
        }
        if line.len() == 0 || line[0] == '#' {
            i = i + 1;
            continue;
        }
        let k = match find_first(&line, '=') {
            Some(k) => k,
            None => {
                i = i + 1;
                continue;
            },
        };
        let key = trim_text(&copy_chars(&line, 0, k));
        let raw = trim_text(&copy_chars(&line, k + 1, line.len()));
        let raw_s = string_of(raw.as_slice());
        let value = parse_toml_string(raw_s.as_str())?;
        let ks = string_of(key.as_slice());
        if str_eq(ks.as_str(), "src_dir") {
            config.src_dir = value;
        } else if str_eq(ks.as_str(), "out_dir") {
            config.out_dir = value;
        } else if str_eq(ks.as_str(), "language") {
            match LanguageMode::parse(value.as_str()) {
                Some(m) => {
                    config.language = m;
                },
                None => {
                    let mut msg: Vec<char> = Vec::new();
                    push_str(&mut msg, "エラー: language は auto、rust、lisp のどれかを指定してください: `");
                    push_str(&mut msg, value.as_str());
                    push_str(&mut msg, "`");
                    return Err(string_of(msg.as_slice()));
                },
            }
        } else if str_eq(ks.as_str(), "last_release_tag") {
            config.last_release_tag = value;
        } else if str_eq(ks.as_str(), "last_release_notes") {
            config.last_release_notes = value;
        }
        i = i + 1;
    }
    Ok(config)
}

/// Text without a line break, added after `p`, goes onto the last line of `p`.
proof fn lemma_segments_extend(p: Seq<char>, t: Seq<char>)
    requires
        forall|i: int| 0 <= i < t.len() ==> t[i] != '\n',
    ensures
        segments(p + t) == segments(p).update(
            segments(p).len() - 1,
            segments(p).last() + t,
        ),
    decreases t.len(),
{
    lemma_segments_len(p);
    if t.len() == 0 {
        assert(p + t =~= p);
        assert(segments(p).last() + t =~= segments(p).last());
        assert(segments(p).update(segments(p).len() - 1, segments(p).last()) =~= segments(p));
    } else {
        let u = t.drop_last();
        lemma_segments_extend(p, u);
        assert((p + t).drop_last() =~= p + u);
        assert((p + t).last() == t.last());
        let s = segments(p);
        assert((s.last() + u).push(t.last()) =~= s.last() + t);
        assert(s.update(s.len() - 1, s.last() + u).update(s.len() - 1, s.last() + t) =~= s.update(
            s.len() - 1,
            s.last() + t,
        ));
    }
}

/// A line without line breaks, and a line break, added after text that ends with a line
/// break (or is empty), becomes one more line.
proof fn lemma_segments_line(p: Seq<char>, line: Seq<char>)
    requires
        forall|i: int| 0 <= i < line.len() ==> line[i] != '\n',
        segments(p).last().len() == 0,
    ensures
        segments(p + line + seq!['\n']) == segments(p).drop_last().push(line).push(Seq::empty()),
{
    lemma_segments_len(p);
    lemma_segments_extend(p, line);
    let t = p + line + seq!['\n'];
    assert(t.drop_last() =~= p + line);
    let s = segments(p);
    assert(s.last() + line =~= line);
    assert(s.update(s.len() - 1, line) =~= s.drop_last().push(line));
}

/// Where no character is `c`, `c` is not found.
proof fn lemma_find_char_absent(s: Seq<char>, c: char)
    requires
        forall|i: int| 0 <= i < s.len() ==> s[i] != c,
    ensures
        find_char(s, c) == -1,
    decreases s.len(),
{
    if s.len() > 0 {
        lemma_find_char_absent(s.drop_last(), c);
    }
}

/// Escaping one character and undoing the escape gives the character back, whatever
/// follows.
proof fn lemma_unescape_char(c: char, r: Seq<char>)
    ensures
        unescape(quoted_char(c) + r) == match unescape(r) {
            Some(x) => Some(seq![c] + x),
            None => None::<Seq<char>>,
        },
{
    let s = quoted_char(c) + r;
    let n = quoted_char(c).len() as int;
    assert(s.subrange(n, s.len() as int) =~= r);
}

/// Escaped text followed by `r` reads back as the text followed by what `r` reads as.
proof fn lemma_unescape_body(a: Seq<char>, r: Seq<char>)
    ensures
        unescape(quoted_body(a) + r) == match unescape(r) {
            Some(x) => Some(a + x),
            None => None::<Seq<char>>,
        },
    decreases a.len(),
{
    if a.len() == 0 {
        assert(quoted_body(a) + r =~= r);
        match unescape(r) {
            Some(x) => {
                assert(a + x =~= x);
            },
            None => {},
        }
    } else {
        let b = a.drop_last();
        let rr = quoted_char(a.last()) + r;
        lemma_unescape_body(b, rr);
        lemma_unescape_char(a.last(), r);
        assert(quoted_body(a) + r =~= quoted_body(b) + rr);
        match unescape(r) {
            Some(x) => {
                assert(b + (seq![a.last()] + x) =~= a + x);
            },
            None => {},
        }
    }
}

/// Reading back a value written by `toml_string` gives the value.
pub proof fn lemma_toml_string_round_trip(v: Seq<char>)
    ensures
        toml_value_spec(quoted(v)) == Ok::<Seq<char>, Seq<char>>(v),
{
    let q = quoted(v);
    let body = quoted_body(v);
    assert(q.subrange(1, q.len() - 1) =~= body);
    lemma_unescape_body(v, Seq::empty());
    assert(body + Seq::<char>::empty() =~= body);
    assert(v + Seq::<char>::empty() =~= v);
}

/// A configuration key: a non-empty name of letters and underscores.
spec fn config_key(key: Seq<char>) -> bool {
    &&& key.len() > 0
    &&& forall|i: int| 0 <= i < key.len() ==> (key[i] == '_' || ('a' <= key[i] && key[i] <= 'z'))
}

/// One line `key = "value"` reads back as that key and that value.
proof fn lemma_config_line(key: Seq<char>, v: Seq<char>)
    requires
        config_key(key),
    ensures
        ({
            let line = config_line(key, v);
            let k = find_char(line, '=');
            &&& forall|i: int| 0 <= i < line.len() ==> line[i] != '\n'
            &&& trim(line) == line
            &&& line.len() > 0 && line[0] != '#'
            &&& k == key.len() + 1
            &&& trim(line.subrange(0, k)) == key
            &&& toml_value_spec(trim(line.subrange(k + 1, line.len() as int))) == Ok::<
                Seq<char>,
                Seq<char>,
            >(v)
        }),
{
    reveal_strlit(" = ");
    let q = quoted(v);
    let line = config_line(key, v);
    let body = quoted_body(v);
    assert(line =~= key + " = "@ + q);
    assert(q.len() >= 2 && q[0] == '"' && q.last() == '"');
    assert(q.subrange(1, q.len() - 1) =~= body);
    assert forall|i: int| 0 <= i < body.len() implies body[i] != '\n' by {
        lemma_quoted_body_no_newline(v, i);
    }
    assert forall|i: int| 0 <= i < line.len() implies line[i] != '\n' by {
        if i < key.len() {
            assert(line[i] == key[i]);
        } else if i < key.len() + 3 {
        } else if i == line.len() - 1 {
        } else if i == key.len() + 3 {
        } else {
            assert(line[i] == body[i - key.len() - 4]);
        }
    }
    assert(trim(line) == line) by {
        assert(line[0] == key[0]);
        assert(line.last() == '"');
    }
    let pre = key + seq![' '];
    assert forall|i: int| 0 <= i < pre.len() implies pre[i] != '=' by {
        if i < key.len() {
            assert(pre[i] == key[i]);
        }
    }
    lemma_find_char_absent(pre, '=');
    let n: int = key.len() + 2int;
    assert(line.subrange(0, n).drop_last() =~= pre);
    assert(line.subrange(0, n).last() == '=');
    lemma_find_char_prefix(line, n, '=');
    let k: int = key.len() + 1int;
    assert(line.subrange(0, k) =~= pre);
    assert(pre.drop_last() =~= key);
    assert(trim(key) == key) by {
        assert(!crate::text::is_space(key[0]));
        assert(!crate::text::is_space(key.last()));
    }
    assert(trim(pre) == key);
    let rest = line.subrange(k + 1, line.len() as int);
    assert(rest =~= seq![' '] + q);
    assert(rest.subrange(1, rest.len() as int) =~= q);
    assert(trim(q) == q);
    assert(trim(rest) == q);
    lemma_unescape_body(v, Seq::empty());
    assert(body + Seq::<char>::empty() =~= body);
    assert(v + Seq::<char>::empty() =~= v);
}

/// Escaping never writes a raw line break.
proof fn lemma_quoted_body_no_newline(v: Seq<char>, i: int)
    requires
        0 <= i < quoted_body(v).len(),
    ensures
        quoted_body(v)[i] != '\n',
    decreases v.len(),
{
    let b = quoted_body(v.drop_last());
    if i < b.len() {
        lemma_quoted_body_no_newline(v.drop_last(), i);
    } else {
        assert(quoted_body(v)[i] == quoted_char(v.last())[i - b.len()]);
    }
}

/// Reading back the configuration file that `render_config` writes gives the settings
/// that were written.
/// The lines of the configuration file, one per setting.
pub open spec fn render_lines(c: ConfigV) -> Seq<Seq<char>> {
    seq![
        config_line("src_dir"@, c.src),
        config_line("out_dir"@, c.out),
        config_line("language"@, mode_name(c.language)),
        config_line("last_release_tag"@, c.tag),
        config_line("last_release_notes"@, c.notes),
    ]
}

/// The configuration file is its setting lines, each ended by a line break.
#[verifier::spinoff_prover]
proof fn lemma_render_lines(c: ConfigV)
    ensures
        str_lines(render_spec(c)) == render_lines(c),
{
    reveal_strlit("src_dir");
    reveal_strlit("out_dir");
    reveal_strlit("language");
    reveal_strlit("last_release_tag");
    reveal_strlit("last_release_notes");
    let ls = render_lines(c);
    lemma_config_line("src_dir"@, c.src);
    lemma_config_line("out_dir"@, c.out);
    lemma_config_line("language"@, mode_name(c.language));
    lemma_config_line("last_release_tag"@, c.tag);
    lemma_config_line("last_release_notes"@, c.notes);
    let nl = seq!['\n'];
    let e = Seq::<char>::empty();
    let p1 = e + ls[0] + nl;
    let p2 = p1 + ls[1] + nl;
    let p3 = p2 + ls[2] + nl;
    let p4 = p3 + ls[3] + nl;
    let p5 = p4 + ls[4] + nl;
    assert(segments(e) == seq![e]);
    lemma_segments_line(e, ls[0]);
    assert(segments(p1) =~= seq![ls[0], e]);
    lemma_segments_line(p1, ls[1]);
    assert(segments(p2) =~= seq![ls[0], ls[1], e]);
    lemma_segments_line(p2, ls[2]);
    assert(segments(p3) =~= seq![ls[0], ls[1], ls[2], e]);
    lemma_segments_line(p3, ls[3]);
    assert(segments(p4) =~= seq![ls[0], ls[1], ls[2], ls[3], e]);
    lemma_segments_line(p4, ls[4]);
    assert(segments(p5) =~= seq![ls[0], ls[1], ls[2], ls[3], ls[4], e]);
    assert(render_spec(c) =~= p5);
    assert(str_lines(render_spec(c)) =~= ls);
}

/// Reading back the configuration file that `render_config` writes gives the settings
/// that were written.
#[verifier::spinoff_prover]
pub proof fn lemma_config_round_trip(c: ConfigV)
    ensures
        parse_config_spec(render_spec(c)) == Ok::<ConfigV, Seq<char>>(c),
{
    reveal_strlit("src_dir");
    reveal_strlit("out_dir");
    reveal_strlit("language");
    reveal_strlit("last_release_tag");
    reveal_strlit("last_release_notes");
    let k1 = "src_dir"@;
    let k2 = "out_dir"@;
    let k3 = "language"@;
    let k4 = "last_release_tag"@;
    let k5 = "last_release_notes"@;
    lemma_config_line(k1, c.src);
    lemma_config_line(k2, c.out);
    lemma_config_line(k3, mode_name(c.language));
    lemma_config_line(k4, c.tag);
    lemma_config_line(k5, c.notes);
    lemma_render_lines(c);
    let ls = str_lines(render_spec(c));
    lemma_parse_as_str(c.language);
    assert(k2 != k1) by {
        assert(k2[0] != k1[0]);
    }
    assert(k3 != k1 && k3 != k2);
    assert(k4 != k1 && k4 != k2 && k4 != k3);
    assert(k5 != k1 && k5 != k2 && k5 != k3 && k5 != k4);
    let c0 = default_config();
    let c1 = ConfigV { src: c.src, ..c0 };
    let c2 = ConfigV { out: c.out, ..c1 };
    let c3 = ConfigV { language: c.language, ..c2 };
    let c4 = ConfigV { tag: c.tag, ..c3 };
    let c5 = ConfigV { notes: c.notes, ..c4 };
    assert(config_from(ls, 5, c5) == Ok::<ConfigV, Seq<char>>(c5));
    assert(config_from(ls, 4, c4) == config_from(ls, 5, c5));
    assert(config_from(ls, 3, c3) == config_from(ls, 4, c4));
    assert(config_from(ls, 2, c2) == config_from(ls, 3, c3));
    assert(config_from(ls, 1, c1) == config_from(ls, 2, c2));
    assert(config_from(ls, 0, c0) == config_from(ls, 1, c1));
}

} // verus!
