//! Path helpers of the workspace. Paths are handled as text, with both `/` and `\`
//! taken as separators, the way Windows reads them.
use vstd::prelude::*;
use crate::lisp::error::LispToPythonError;
use crate::rust_py::error::RustToPythonError;
use crate::text::{chars_of, copy_chars, decimal, lower, push_decimal, push_str, str_eq, string_of};

verus! {

pub const DEFAULT_SRC_DIR: &'static str = "play_src";
pub const LEGACY_DEFAULT_SRC_DIR: &'static str = "rs_src";
pub const DEFAULT_OUT_DIR: &'static str = "py_src";
pub const SYSTEM_DIR: &'static str = ".transplanter";
pub const LEGACY_IDE_SUPPORT_DIR: &'static str = ".transplanter_ide";
pub const IDE_SUPPORT_CRATE_DIR: &'static str = "transplanter_rust";

/// A path separator.
pub open spec fn is_sep(c: char) -> bool {
    c == '/' || c == '\\'
}

/// Whether `p` ends in a `.` part: a `.` right after a separator. `Path` reads such a
/// part as "this folder" and leaves it out.
pub open spec fn ends_in_dot_part(p: Seq<char>) -> bool {
    p.len() >= 2 && p.last() == '.' && is_sep(p[p.len() - 2])
}

/// `p` without trailing separators and trailing `.` parts, as `Path` reads its end.
pub open spec fn strip_seps(p: Seq<char>) -> Seq<char>
    decreases p.len(),
{
    if p.len() > 0 && is_sep(p.last()) {
        strip_seps(p.drop_last())
    } else if ends_in_dot_part(p) {
        strip_seps(p.drop_last())
    } else {
        p
    }
}

/// The index of the last separator of `p` before `end`, or -1.
pub open spec fn last_sep(p: Seq<char>, end: int) -> int
    decreases end,
{
    if end <= 0 || end > p.len() {
        -1
    } else if is_sep(p[end - 1]) {
        end - 1
    } else {
        last_sep(p, end - 1)
    }
}

/// The last component of a path, trailing separators ignored.
pub open spec fn last_component(p: Seq<char>) -> Seq<char> {
    let q = strip_seps(p);
    q.subrange(last_sep(q, q.len() as int) + 1, q.len() as int)
}

/// The file name of a path: its last component, unless that is empty, `.` or `..`.
pub open spec fn file_name_spec(p: Seq<char>) -> Option<Seq<char>> {
    let n = last_component(p);
    if n.len() == 0 || n == seq!['.'] || n == seq!['.', '.'] {
        None
    } else {
        Some(n)
    }
}

/// The index of the last `.` of `n` before `end`, or -1.
pub open spec fn last_dot(n: Seq<char>, end: int) -> int
    decreases end,
{
    if end <= 0 || end > n.len() {
        -1
    } else if n[end - 1] == '.' {
        end - 1
    } else {
        last_dot(n, end - 1)
    }
}

/// The extension of a file name: what follows its last `.`, when something comes
/// before that dot.
pub open spec fn extension_spec(n: Seq<char>) -> Option<Seq<char>> {
    let d = last_dot(n, n.len() as int);
    if d <= 0 {
        None
    } else {
        Some(n.subrange(d + 1, n.len() as int))
    }
}

/// Equality up to ASCII case.
pub open spec fn eq_ignore_case(a: Seq<char>, b: Seq<char>) -> bool {
    a.len() == b.len() && forall|i: int| 0 <= i < a.len() ==> lower(a[i]) == lower(b[i])
}

/// Whether the path's file has extension `expected`, in any ASCII case.
pub open spec fn has_extension_spec(p: Seq<char>, expected: Seq<char>) -> bool {
    match file_name_spec(p) {
        Some(n) => match extension_spec(n) {
            Some(e) => eq_ignore_case(e, expected),
            None => false,
        },
        None => false,
    }
}

/// How one character is written inside a double-quoted TOML or Scheme string.
pub open spec fn quoted_char(c: char) -> Seq<char> {
    if c == '\\' {
        seq!['\\', '\\']
    } else if c == '"' {
        seq!['\\', '"']
    } else if c == '\n' {
        seq!['\\', 'n']
    } else if c == '\r' {
        seq!['\\', 'r']
    } else if c == '\t' {
        seq!['\\', 't']
    } else {
        seq![c]
    }
}

/// The characters of `s` escaped for a double-quoted string.
pub open spec fn quoted_body(s: Seq<char>) -> Seq<char>
    decreases s.len(),
{
    if s.len() == 0 {
        Seq::empty()
    } else {
        quoted_body(s.drop_last()) + quoted_char(s.last())
    }
}

/// `s` as a double-quoted string with `\\`, `\"`, `\n`, `\r` and `\t` escapes.
pub open spec fn quoted(s: Seq<char>) -> Seq<char> {
    seq!['"'] + quoted_body(s) + seq!['"']
}

/// `s` with every `\` turned into `/`.
pub open spec fn forward_slashes(s: Seq<char>) -> Seq<char> {
    s.map_values(|c: char| if c == '\\' { '/' } else { c })
}

/// The path, as text.
pub fn display_path(path: &str) -> (r: String)
    ensures
        r@ == path@,
{
    String::from_str(path)
}

/// `value` as a TOML basic string.
pub fn toml_string(value: &str) -> (r: String)
    ensures
        r@ == quoted(value@),
{
    let v = chars_of(value);
    let mut out: Vec<char> = Vec::new();
    push_quoted(&mut out, &v);
    string_of(out.as_slice())
}

/// Appends `s` as a double-quoted string with its escapes.
pub fn push_quoted(out: &mut Vec<char>, s: &Vec<char>)
    ensures
        final(out)@ == old(out)@ + quoted(s@),
{
    let ghost start = out@;
    out.push('"');
    let mut i: usize = 0;
    while i < s.len()
        invariant
            i <= s@.len(),
            out@ == start + seq!['"'] + quoted_body(s@.subrange(0, i as int)),
        decreases s@.len() - i,
    {
        let c = s[i];
        let ghost before = out@;
        if c == '\\' {
            out.push('\\');
            out.push('\\');
        } else if c == '"' {
            out.push('\\');
            out.push('"');
        } else if c == '\n' {
            out.push('\\');
            out.push('n');
        } else if c == '\r' {
            out.push('\\');
            out.push('r');
        } else if c == '\t' {
            out.push('\\');
            out.push('t');
        } else {
            out.push(c);
        }
        proof {
            assert(out@ =~= before + quoted_char(c));
            assert(s@.subrange(0, i + 1).drop_last() =~= s@.subrange(0, i as int));
        }
        i = i + 1;
    }
    out.push('"');
    proof {
        assert(s@.subrange(0, s@.len() as int) =~= s@);
        assert(out@ =~= start + quoted(s@));
    }
}

/// A relative path written with `/` separators, as the manifest wants it.
pub fn relative_path_for_manifest(relative: &str) -> (r: String)
    ensures
        r@ == forward_slashes(relative@),
{
    manifest_path_string(relative)
}

/// A path written with `/` separators.
pub fn manifest_path_string(path: &str) -> (r: String)
    ensures
        r@ == forward_slashes(path@),
{
    let v = chars_of(path);
    let mut out: Vec<char> = Vec::new();
    let mut i: usize = 0;
    while i < v.len()
        invariant
            i <= v@.len(),
            out@ == forward_slashes(v@.subrange(0, i as int)),
        decreases v@.len() - i,
    {
        let c = v[i];
        out.push(if c == '\\' { '/' } else { c });
        i = i + 1;
        proof {
            assert(out@ =~= forward_slashes(v@.subrange(0, i as int)));
        }
    }
    proof {
        assert(v@.subrange(0, v@.len() as int) =~= v@);
    }
    string_of(out.as_slice())
}

/// The end of `p[..end]` once trailing separators and `.` parts are dropped.
pub(crate) fn strip_seps_end(p: &Vec<char>, end: usize) -> (r: usize)
    requires
        end <= p@.len(),
    ensures
        r <= end,
        p@.subrange(0, r as int) == strip_seps(p@.subrange(0, end as int)),
{
    let mut e = end;
    while e > 0 && (p[e - 1] == '/' || p[e - 1] == '\\' || (e >= 2 && p[e - 1] == '.' && (p[e - 2] == '/' || p[e - 2] == '\\')))
        invariant
            e <= end <= p@.len(),
            strip_seps(p@.subrange(0, e as int)) == strip_seps(p@.subrange(0, end as int)),
        decreases e,
    {
        proof {
            assert(p@.subrange(0, e as int).drop_last() =~= p@.subrange(0, e - 1));
        }
        e = e - 1;
    }
    e
}

/// The index of the last separator before `end`, if any.
pub(crate) fn find_last_sep(p: &Vec<char>, end: usize) -> (r: Option<usize>)
    requires
        end <= p@.len(),
    ensures
        match r {
            Some(i) => i == last_sep(p@, end as int) && i < end,
            None => last_sep(p@, end as int) == -1,
        },
{
    let mut e = end;
    while e > 0
        invariant
            e <= end <= p@.len(),
            last_sep(p@, end as int) == last_sep(p@, e as int),
        decreases e,
    {
        if p[e - 1] == '/' || p[e - 1] == '\\' {
            return Some(e - 1);
        }
        e = e - 1;
    }
    None
}

pub(crate) proof fn lemma_last_sep_prefix(p: Seq<char>, q: Seq<char>, end: int)
    requires
        0 <= end <= q.len() <= p.len(),
        q == p.subrange(0, q.len() as int),
    ensures
        last_sep(q, end) == last_sep(p, end),
    decreases end,
{
    if end > 0 {
        lemma_last_sep_prefix(p, q, end - 1);
    }
}

/// The file name of a path, if it has one.
pub fn file_name(path: &str) -> (r: Option<String>)
    ensures
        match file_name_spec(path@) {
            Some(n) => r matches Some(s) && s@ == n,
            None => r is None,
        },
{
    let p = chars_of(path);
    let e = strip_seps_end(&p, p.len());
    proof {
        assert(p@.subrange(0, p@.len() as int) =~= p@);
        lemma_last_sep_prefix(p@, p@.subrange(0, e as int), e as int);
    }
    let start = match find_last_sep(&p, e) {
        Some(i) => i + 1,
        None => 0,
    };
    let mut name: Vec<char> = Vec::new();
    let mut k: usize = start;
    while k < e
        invariant
            start <= k <= e <= p@.len(),
            name@ == p@.subrange(start as int, k as int),
        decreases e - k,
    {
        name.push(p[k]);
        k = k + 1;
        proof {
            assert(name@ =~= p@.subrange(start as int, k as int));
        }
    }
    proof {
        let q = strip_seps(p@);
        assert(q == p@.subrange(0, e as int));
        assert(name@ =~= q.subrange(last_sep(q, q.len() as int) + 1, q.len() as int));
    }
    if name.len() == 0 || (name.len() == 1 && name[0] == '.') || (name.len() == 2 && name[0] == '.' && name[1] == '.') {
        proof {
            if name.len() == 1 {
                assert(name@ =~= seq!['.']);
            }
            if name.len() == 2 {
                assert(name@ =~= seq!['.', '.']);
            }
        }
        return None;
    }
    proof {
        assert(name@ != seq!['.']);
        assert(name@ != seq!['.', '.']);
    }
    Some(string_of(name.as_slice()))
}

/// Whether the path's file has extension `expected`, in any ASCII case.
fn has_extension(path: &str, expected: &str) -> (r: bool)
    ensures
        r == has_extension_spec(path@, expected@),
{
    let name = match file_name(path) {
        Some(n) => chars_of(n.as_str()),
        None => {
            return false;
        },
    };
    let mut d = name.len();
    while d > 0 && name[d - 1] != '.'
        invariant
            d <= name@.len(),
            last_dot(name@, name@.len() as int) == last_dot(name@, d as int),
        decreases d,
    {
        d = d - 1;
    }
    if d <= 1 {
        return false;
    }
    let ext_start = d;
    let want = chars_of(expected);
    if name.len() - ext_start != want.len() {
        return false;
    }
    let mut i: usize = 0;
    assert(has_extension_spec(path@, expected@) == eq_ignore_case(name@.subrange(ext_start as int, name@.len() as int), want@));
    while i < want.len()
        invariant
            has_extension_spec(path@, expected@) == eq_ignore_case(name@.subrange(ext_start as int, name@.len() as int), want@),
            ext_start <= name.len(),
            name.len() - ext_start == want.len(),
            i <= want.len(),
            forall|k: int| 0 <= k < i ==> lower(name@[ext_start + k]) == lower(want@[k]),
        decreases want@.len() - i,
    {
        let a = name[ext_start + i];
        let b = want[i];
        let la = if 'A' <= a && a <= 'Z' { ((a as u8) + 32) as char } else { a };
        let lb = if 'A' <= b && b <= 'Z' { ((b as u8) + 32) as char } else { b };
        if la != lb {
            proof {
                let e = name@.subrange(ext_start as int, name@.len() as int);
                assert(e[i as int] == a);
                assert(want@[i as int] == b);
                assert(lower(e[i as int]) != lower(want@[i as int]));
                assert(!eq_ignore_case(e, want@));
            }
            return false;
        }
        i = i + 1;
    }
    proof {
        let e = name@.subrange(ext_start as int, name@.len() as int);
        assert(forall|k: int| 0 <= k < e.len() ==> lower(e[k]) == lower(want@[k]));
    }
    true
}

/// Whether the path names a Rust source file.
pub fn is_rs_file(path: &str) -> (r: bool)
    ensures
        r == has_extension_spec(path@, "rs"@),
{
    has_extension(path, "rs")
}

/// Whether the path names a Lisp source file (`.scm` or `.lisp`).
pub fn is_lisp_file(path: &str) -> (r: bool)
    ensures
        r == (has_extension_spec(path@, "scm"@) || has_extension_spec(path@, "lisp"@)),
{
    has_extension(path, "scm") || has_extension(path, "lisp")
}

/// Whether the path names a source file of either language.
pub fn is_source_file(path: &str) -> (r: bool)
    ensures
        r == (has_extension_spec(path@, "rs"@) || has_extension_spec(path@, "scm"@) || has_extension_spec(path@, "lisp"@)),
{
    is_rs_file(path) || is_lisp_file(path)
}

/// Whether a source scan skips this folder: the tool's own folders and `target`.
pub fn should_skip_source_dir(path: &str) -> (r: bool)
    ensures
        r == match file_name_spec(path@) {
            Some(n) => n == ".transplanter"@ || n == ".transplanter_ide"@ || n == "target"@,
            None => false,
        },
{
    match file_name(path) {
        Some(n) => str_eq(n.as_str(), SYSTEM_DIR) || str_eq(n.as_str(), LEGACY_IDE_SUPPORT_DIR) || str_eq(n.as_str(), "target"),
        None => false,
    }
}

/// The length of a drive prefix such as `C:` at the start of `p`, else 0.
pub open spec fn drive_len(p: Seq<char>) -> int {
    if p.len() >= 2 && crate::text::is_alpha(p[0]) && p[1] == ':' {
        2
    } else {
        0
    }
}

/// The parent of a path: what comes before its last separator (trailing separators
/// and `.` parts ignored). What comes first stays whole: a lone root separator, a
/// drive prefix such as `C:`, or a drive with its root such as `C:\`. Empty when
/// there is nothing before the last part.
pub open spec fn parent_spec(p: Seq<char>) -> Seq<char> {
    let k = drive_len(p);
    let q = strip_seps(p);
    let i = last_sep(q, q.len() as int);
    if i < k {
        q.subrange(0, k)
    } else if strip_seps(q.subrange(0, i)).len() <= k {
        q.subrange(0, k + 1)
    } else {
        strip_seps(q.subrange(0, i))
    }
}

/// Trailing separators and `.` parts never reach into a drive prefix.
pub proof fn lemma_strip_keeps_drive(p: Seq<char>)
    ensures
        drive_len(p) <= strip_seps(p).len() <= p.len(),
        strip_seps(p) == p.subrange(0, strip_seps(p).len() as int),
    decreases p.len(),
{
    if p.len() > 0 && (is_sep(p.last()) || ends_in_dot_part(p)) {
        lemma_strip_keeps_drive(p.drop_last());
        if drive_len(p) == 2 {
            assert(p.len() > 2);
            assert(drive_len(p.drop_last()) == 2);
        }
        assert(p.drop_last().subrange(0, strip_seps(p).len() as int) =~= p.subrange(0, strip_seps(p).len() as int));
    } else {
        assert(p.subrange(0, p.len() as int) =~= p);
    }
}

/// The parent of the text `p`.
fn parent_text(p: &Vec<char>) -> (r: Vec<char>)
    ensures
        r@ == parent_spec(p@),
{
    let k: usize = if p.len() >= 2 && (('a' <= p[0] && p[0] <= 'z') || ('A' <= p[0] && p[0] <= 'Z')) && p[1] == ':' {
        2
    } else {
        0
    };
    let e = strip_seps_end(p, p.len());
    proof {
        assert(p@.subrange(0, p@.len() as int) =~= p@);
        lemma_last_sep_prefix(p@, p@.subrange(0, e as int), e as int);
        lemma_strip_keeps_drive(p@);
    }
    let ghost q = strip_seps(p@);
    let end: usize = match find_last_sep(p, e) {
        None => k,
        Some(i) => {
            if i < k {
                k
            } else {
                let f = strip_seps_end(p, i);
                proof {
                    assert(q.subrange(0, i as int) =~= p@.subrange(0, i as int));
                }
                if f <= k {
                    k + 1
                } else {
                    f
                }
            }
        },
    };
    proof {
        assert(end <= e);
    }
    let r = copy_chars(p, 0, end);
    proof {
        assert(r@ =~= parent_spec(p@));
    }
    r
}

/// The folder of the project that holds a source folder: its parent, or `.`.
pub open spec fn project_dir_spec(src_dir: Seq<char>) -> Seq<char> {
    if parent_spec(src_dir).len() == 0 {
        seq!['.']
    } else {
        parent_spec(src_dir)
    }
}

/// The project folder of a source folder.
pub fn project_dir_for_src_dir(src_dir: &str) -> (r: String)
    ensures
        r@ == project_dir_spec(src_dir@),
{
    let p = chars_of(src_dir);
    let parent = parent_text(&p);
    if parent.len() == 0 {
        proof {
            reveal_strlit(".");
        }
        return String::from_str(".");
    }
    string_of(parent.as_slice())
}

/// `base` joined with `name` by a `/`, unless `base` is empty or already ends in a
/// separator.
pub open spec fn join_path(base: Seq<char>, name: Seq<char>) -> Seq<char> {
    if base.len() == 0 {
        name
    } else if is_sep(base.last()) {
        base + name
    } else {
        base + seq!['/'] + name
    }
}

/// The parent of a path, as `Path::parent` gives it: none for an empty path, a lone
/// root or a lone drive (with or without its root), else what comes before the last
/// part (possibly empty).
pub open spec fn parent_opt(p: Seq<char>) -> Option<Seq<char>> {
    if strip_seps(p).len() <= drive_len(p) {
        None
    } else {
        Some(parent_spec(p))
    }
}

/// The parent of a path, if it has one.
pub fn parent_path(path: &str) -> (r: Option<String>)
    ensures
        match parent_opt(path@) {
            Some(q) => r matches Some(s) && s@ == q,
            None => r is None,
        },
{
    let p = chars_of(path);
    let e = strip_seps_end(&p, p.len());
    let k: usize = if p.len() >= 2 && (('a' <= p[0] && p[0] <= 'z') || ('A' <= p[0] && p[0] <= 'Z')) && p[1] == ':' {
        2
    } else {
        0
    };
    proof {
        assert(p@.subrange(0, p@.len() as int) =~= p@);
    }
    if e <= k {
        return None;
    }
    let parent = parent_text(&p);
    Some(string_of(parent.as_slice()))
}

/// `base` joined with `name`, as `Path::join` does for a relative name.
pub fn join_path_text(base: &str, name: &str) -> (r: String)
    ensures
        r@ == join_path(base@, name@),
{
    let b = chars_of(base);
    let mut out: Vec<char> = Vec::new();
    crate::text::push_chars(&mut out, &b);
    if b.len() > 0 && !(b[b.len() - 1] == '/' || b[b.len() - 1] == '\\') {
        out.push('/');
    }
    push_str(&mut out, name);
    proof {
        assert(out@ =~= join_path(base@, name@));
    }
    string_of(out.as_slice())
}

/// The tool's own folder beside a source folder.
pub fn system_dir_for_src_dir(src_dir: &str) -> (r: String)
    ensures
        r@ == join_path(project_dir_spec(src_dir@), ".transplanter"@),
{
    let base = chars_of(project_dir_for_src_dir(src_dir).as_str());
    let mut out: Vec<char> = Vec::new();
    crate::text::push_chars(&mut out, &base);
    if base.len() > 0 && !(base[base.len() - 1] == '/' || base[base.len() - 1] == '\\') {
        out.push('/');
    }
    push_str(&mut out, SYSTEM_DIR);
    proof {
        assert(out@ =~= join_path(project_dir_spec(src_dir@), ".transplanter"@));
    }
    string_of(out.as_slice())
}

/// What a diagnostic of either converter says.
pub trait CompileDiagnostic {
    spec fn diag_line(&self) -> int;
    spec fn diag_column(&self) -> int;
    spec fn diag_message(&self) -> Seq<char>;

    fn line(&self) -> (r: usize)
        ensures
            r == self.diag_line();

    fn column(&self) -> (r: usize)
        ensures
            r == self.diag_column();

    fn message(&self) -> (r: &str)
        ensures
            r@ == self.diag_message();
}

impl CompileDiagnostic for RustToPythonError {
    open spec fn diag_line(&self) -> int {
        self.line as int
    }

    open spec fn diag_column(&self) -> int {
        self.column as int
    }

    open spec fn diag_message(&self) -> Seq<char> {
        self.message@
    }

    fn line(&self) -> (r: usize) {
        self.line
    }

    fn column(&self) -> (r: usize) {
        self.column
    }

    fn message(&self) -> (r: &str) {
        self.message.as_str()
    }
}

impl CompileDiagnostic for LispToPythonError {
    open spec fn diag_line(&self) -> int {
        self.line as int
    }

    open spec fn diag_column(&self) -> int {
        self.column as int
    }

    open spec fn diag_message(&self) -> Seq<char> {
        self.message@
    }

    fn line(&self) -> (r: usize) {
        self.line
    }

    fn column(&self) -> (r: usize) {
        self.column
    }

    fn message(&self) -> (r: &str) {
        self.message.as_str()
    }
}

/// `エラー: {path}:{line}行{column}列: {message}`.
pub fn format_compile_error<E: CompileDiagnostic>(path: &str, err: E) -> (r: String)
    ensures
        r@ == "エラー: "@ + path@ + ":"@ + decimal(err.diag_line() as nat) + "行"@ + decimal(err.diag_column() as nat)
            + "列: "@ + err.diag_message(),
{
    let mut m: Vec<char> = Vec::new();
    push_str(&mut m, "エラー: ");
    push_str(&mut m, path);
    push_str(&mut m, ":");
    push_decimal(&mut m, err.line());
    push_str(&mut m, "行");
    push_decimal(&mut m, err.column());
    push_str(&mut m, "列: ");
    push_str(&mut m, err.message());
    string_of(m.as_slice())
}

} // verus!
