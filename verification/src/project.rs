//! Where a project's outputs go, and the Cargo manifests written so that an editor can
//! check the Rust sources.
use vstd::prelude::*;
use crate::paths::{
    extension_spec, file_name_spec, forward_slashes, is_sep, join_path, last_dot, last_sep, manifest_path_string,
    push_quoted, quoted, strip_seps,
};
use crate::text::{
    chars_of, copy_chars, is_alnum, is_digit, push_chars, push_str, str_eq, string_of, strings_view,
};
use crate::gui_text::find_from;

verus! {

/// Whether a `.` part (read by `Path` as "this folder") starts at index `i` of `p`.
pub open spec fn dot_part_at(p: Seq<char>, i: int) -> bool {
    0 <= i < p.len() && p[i] == '.' && (i + 1 == p.len() || is_sep(p[i + 1]))
}

/// Where the next named part of `p` starts at or after `i`: separators and `.` parts
/// are passed over.
pub open spec fn skip_lead(p: Seq<char>, i: int) -> int
    decreases p.len() - i,
{
    if 0 <= i < p.len() && (is_sep(p[i]) || dot_part_at(p, i)) {
        skip_lead(p, i + 1)
    } else {
        i
    }
}

/// Where the part of `p` that starts at `i` ends: at the next separator or the end.
pub open spec fn part_end(p: Seq<char>, i: int) -> int
    decreases p.len() - i,
{
    if 0 <= i < p.len() && !is_sep(p[i]) {
        part_end(p, i + 1)
    } else {
        i
    }
}

/// How a path begins, as `Path` reads it: 1 from the root, 2 with a leading `.` part,
/// 0 with a named part (or nothing).
pub open spec fn start_kind(p: Seq<char>) -> int {
    if p.len() > 0 && is_sep(p[0]) {
        1
    } else if dot_part_at(p, 0) {
        2
    } else {
        0
    }
}

/// Matching the parts of `dir` from `i` on against those of `path` from `j` on: where
/// in `path` what lies below `dir` begins, once every part of `dir` matched.
pub open spec fn strip_from(dir: Seq<char>, i: int, path: Seq<char>, j: int) -> Option<int>
    decreases dir.len() - i,
{
    let i2 = skip_lead(dir, i);
    let j2 = skip_lead(path, j);
    if i2 < i || i2 >= dir.len() {
        Some(j2)
    } else {
        let ie = part_end(dir, i2);
        let je = part_end(path, j2);
        if ie <= i2 || ie > dir.len() {
            None
        } else if j2 < path.len() && dir.subrange(i2, ie) == path.subrange(j2, je) {
            strip_from(dir, ie, path, je)
        } else {
            None
        }
    }
}

/// What lies below folder `dir` in `path`, the way `Path::strip_prefix` takes a folder
/// off a path: the parts are compared one by one (separators and `.` parts do not
/// count), and the rest is given without separators or `.` parts at either end. An empty
/// `dir` takes nothing off.
pub open spec fn below_spec(dir: Seq<char>, path: Seq<char>) -> Option<Seq<char>> {
    if dir.len() == 0 {
        Some(strip_seps(path))
    } else if start_kind(dir) != start_kind(path) {
        None
    } else {
        match strip_from(dir, 0, path, 0) {
            Some(j) => Some(strip_seps(path.subrange(j, path.len() as int))),
            None => None,
        }
    }
}

/// A path with its file's extension set to `py` (`PathBuf::set_extension`): an
/// existing extension replaced, or `.py` added; a path without a file name is left as
/// it is.
pub open spec fn with_py_extension(p: Seq<char>) -> Seq<char> {
    let q = strip_seps(p);
    if file_name_spec(p) is None {
        p
    } else {
    let start = last_sep(q, q.len() as int) + 1;
    let name = q.subrange(start, q.len() as int);
    match extension_spec(name) {
        Some(e) => q.subrange(0, q.len() - e.len()) + "py"@,
        None => q + ".py"@,
    }
    }
}

/// Where a source's output goes: its place below the source folder, below the output
/// folder, ending in `.py`.
pub open spec fn output_path_spec(src_dir: Seq<char>, out_dir: Seq<char>, input: Seq<char>) -> Result<Seq<char>, Seq<char>> {
    match below_spec(src_dir, input) {
        Some(rest) => Ok(with_py_extension(join_path(out_dir, rest))),
        None => Err("エラー: `"@ + input + "` は `"@ + src_dir + "` の中にありません"@),
    }
}

/// The end of `p[..end]` once trailing separators are dropped.
fn trailing_seps_start(p: &Vec<char>) -> (r: usize)
    ensures
        r <= p@.len(),
        p@.subrange(0, r as int) == strip_seps(p@),
{
    let mut e = p.len();
    proof {
        assert(p@.subrange(0, p@.len() as int) =~= p@);
    }
    while e > 0 && (p[e - 1] == '/' || p[e - 1] == '\\' || (e >= 2 && p[e - 1] == '.' && (p[e - 2] == '/' || p[e - 2] == '\\')))
        invariant
            e <= p@.len(),
            strip_seps(p@.subrange(0, e as int)) == strip_seps(p@),
        decreases e,
    {
        proof {
            assert(p@.subrange(0, e as int).drop_last() =~= p@.subrange(0, e - 1));
        }
        e = e - 1;
    }
    e
}

/// Where the next named part of `p` starts at or after `i`.
fn skip_lead_at(p: &Vec<char>, i: usize) -> (r: usize)
    requires
        i <= p@.len(),
    ensures
        i <= r <= p@.len(),
        r == skip_lead(p@, i as int),
{
    let mut k = i;
    while k < p.len() && (p[k] == '/' || p[k] == '\\' || (p[k] == '.' && (k + 1 == p.len() || p[k + 1] == '/' || p[k + 1] == '\\')))
        invariant
            i <= k <= p@.len(),
            skip_lead(p@, i as int) == skip_lead(p@, k as int),
        decreases p@.len() - k,
    {
        k = k + 1;
    }
    k
}

/// Where the part of `p` that starts at `i` ends.
fn part_end_at(p: &Vec<char>, i: usize) -> (r: usize)
    requires
        i <= p@.len(),
    ensures
        i <= r <= p@.len(),
        r == part_end(p@, i as int),
{
    let mut k = i;
    while k < p.len() && !(p[k] == '/' || p[k] == '\\')
        invariant
            i <= k <= p@.len(),
            part_end(p@, i as int) == part_end(p@, k as int),
        decreases p@.len() - k,
    {
        k = k + 1;
    }
    k
}

/// Whether `a[i..ie]` and `b[j..je]` hold the same characters.
fn same_range(a: &Vec<char>, i: usize, ie: usize, b: &Vec<char>, j: usize, je: usize) -> (r: bool)
    requires
        i <= ie <= a@.len(),
        j <= je <= b@.len(),
    ensures
        r == (a@.subrange(i as int, ie as int) == b@.subrange(j as int, je as int)),
{
    if ie - i != je - j {
        proof {
            assert(a@.subrange(i as int, ie as int).len() != b@.subrange(j as int, je as int).len());
        }
        return false;
    }
    let mut k: usize = 0;
    while k < ie - i
        invariant
            i <= ie <= a@.len(),
            j <= je <= b@.len(),
            ie - i == je - j,
            k <= ie - i,
            forall|t: int| 0 <= t < k ==> a@.subrange(i as int, ie as int)[t] == b@.subrange(j as int, je as int)[t],
        decreases ie - i - k,
    {
        if a[i + k] != b[j + k] {
            proof {
                assert(a@.subrange(i as int, ie as int)[k as int] != b@.subrange(j as int, je as int)[k as int]);
            }
            return false;
        }
        k = k + 1;
    }
    proof {
        assert(a@.subrange(i as int, ie as int) =~= b@.subrange(j as int, je as int));
    }
    true
}

fn start_kind_of(p: &Vec<char>) -> (r: u8)
    ensures
        r == start_kind(p@),
{
    if p.len() > 0 && (p[0] == '/' || p[0] == '\\') {
        1
    } else if p.len() > 0 && p[0] == '.' && (p.len() == 1 || p[1] == '/' || p[1] == '\\') {
        2
    } else {
        0
    }
}

/// `p` without trailing separators and `.` parts.
fn stripped(p: &Vec<char>) -> (r: Vec<char>)
    ensures
        r@ == strip_seps(p@),
{
    let e = crate::paths::strip_seps_end(p, p.len());
    proof {
        assert(p@.subrange(0, p@.len() as int) =~= p@);
    }
    copy_chars(p, 0, e)
}

/// What lies below folder `dir` in `path`, if `path` lies below it.
pub fn relative_below(dir: &str, path: &str) -> (r: Option<String>)
    ensures
        match below_spec(dir@, path@) {
            Some(rest) => r matches Some(s) && s@ == rest,
            None => r is None,
        },
{
    let d = chars_of(dir);
    let p = chars_of(path);
    if d.len() == 0 {
        let t = stripped(&p);
        return Some(string_of(t.as_slice()));
    }
    if start_kind_of(&d) != start_kind_of(&p) {
        return None;
    }
    let mut i: usize = 0;
    let mut j: usize = 0;
    loop
        invariant
            i <= d@.len(),
            j <= p@.len(),
            d@ == dir@ && p@ == path@ && d@.len() > 0 && start_kind(d@) == start_kind(p@),
            strip_from(d@, 0, p@, 0) == strip_from(d@, i as int, p@, j as int),
        decreases d@.len() - i,
    {
        let i2 = skip_lead_at(&d, i);
        let j2 = skip_lead_at(&p, j);
        if i2 >= d.len() {
            let rest = copy_chars(&p, j2, p.len());
            let t = stripped(&rest);
            return Some(string_of(t.as_slice()));
        }
        let ie = part_end_at(&d, i2);
        let je = part_end_at(&p, j2);
        if ie <= i2 {
            return None;
        }
        if j2 < p.len() && same_range(&d, i2, ie, &p, j2, je) {
            i = ie;
            j = je;
        } else {
            return None;
        }
    }
}

/// `p` with its file's extension set to `py`.
#[verifier::rlimit(40)]
#[verifier::spinoff_prover]
fn set_py_extension(p: &Vec<char>) -> (r: Vec<char>)
    ensures
        r@ == with_py_extension(p@),
{
    let e = crate::paths::strip_seps_end(p, p.len());
    proof {
        assert(p@.subrange(0, p@.len() as int) =~= p@);
        crate::paths::lemma_last_sep_prefix(p@, p@.subrange(0, e as int), e as int);
    }
    let s = match crate::paths::find_last_sep(p, e) {
        Some(k) => k + 1,
        None => 0,
    };
    let ghost q = strip_seps(p@);
    proof {
        assert(q == p@.subrange(0, e as int));
        assert(last_sep(q, q.len() as int) + 1 == s);
    }
    let n = e - s;
    if n == 0 || (n == 1 && p[s] == '.') || (n == 2 && p[s] == '.' && p[s + 1] == '.') {
        proof {
            let name = q.subrange(s as int, e as int);
            if n == 1 {
                assert(name =~= seq!['.']);
            }
            if n == 2 {
                assert(name =~= seq!['.', '.']);
            }
        }
        return copy_chars(p, 0, p.len());
    }
    proof {
        let name = q.subrange(s as int, e as int);
        assert(name.len() == n);
        if n == 1 {
            assert(name != seq!['.']) by {
                assert(name[0] == p@[s as int]);
            }
        }
        if n == 2 {
            assert(name != seq!['.', '.']) by {
                assert(name[0] == p@[s as int]);
                assert(name[1] == p@[s + 1]);
            }
        }
    }
    let mut dot = e;
    while dot > s && p[dot - 1] != '.'
        invariant
            s <= dot <= e <= p@.len(),
            last_dot(p@.subrange(s as int, e as int), e - s) == last_dot(p@.subrange(s as int, e as int), dot - s),
        decreases dot,
    {
        dot = dot - 1;
    }
    let mut out: Vec<char> = Vec::new();
    if dot > s + 1 {
        let head = copy_chars(p, 0, dot);
        push_chars(&mut out, &head);
        push_str(&mut out, "py");
    } else {
        let head = copy_chars(p, 0, e);
        push_chars(&mut out, &head);
        push_str(&mut out, ".py");
    }
    proof {
        let name = q.subrange(s as int, q.len() as int);
        assert(name =~= p@.subrange(s as int, e as int));
        if dot > s + 1 {
            let ext = name.subrange(dot - s, name.len() as int);
            assert(q.subrange(0, q.len() - ext.len()) =~= p@.subrange(0, dot as int));
        }
        assert(out@ =~= with_py_extension(p@));
    }
    out
}

/// Where a source's output goes.
pub fn output_path_for(src_dir: &str, out_dir: &str, input_path: &str) -> (r: Result<String, String>)
    ensures
        match output_path_spec(src_dir@, out_dir@, input_path@) {
            Ok(o) => r matches Ok(s) && s@ == o,
            Err(m) => r matches Err(e) && e@ == m,
        },
{
    match relative_below(src_dir, input_path) {
        None => {
            let mut m: Vec<char> = Vec::new();
            push_str(&mut m, "エラー: `");
            push_str(&mut m, input_path);
            push_str(&mut m, "` は `");
            push_str(&mut m, src_dir);
            push_str(&mut m, "` の中にありません");
            Err(string_of(m.as_slice()))
        },
        Some(rest) => {
            let joined = chars_of(crate::paths::join_path_text(out_dir, rest.as_str()).as_str());
            let out = set_py_extension(&joined);
            Ok(string_of(out.as_slice()))
        },
    }
}


// ---------------------------------------------------------------------------------
// Editor support manifests

/// The manifest of the support crate that holds the game prelude.
pub const SUPPORT_MANIFEST: &'static str = "[package]\nname = \"transplanter_rust\"\nversion = \"0.1.0\"\nedition = \"2024\"\npublish = false\n\n[lib]\npath = \"src/lib.rs\"\n";

/// The support crate's `lib.rs`.
pub const SUPPORT_LIB: &'static str = "pub mod prelude;\n";

/// The manifest of the support crate.
pub fn support_manifest() -> (r: &'static str)
    ensures
        r@ == SUPPORT_MANIFEST@,
{
    SUPPORT_MANIFEST
}

/// Whether `t` occurs in `s`.
pub open spec fn contains_text(s: Seq<char>, t: Seq<char>) -> bool {
    find_from(s, t, 0) >= 0
}

fn contains_str(s: &Vec<char>, t: &str) -> (r: bool)
    ensures
        r == contains_text(s@, t@),
{
    let tv = chars_of(t);
    crate::gui_text::find_text(s, &tv).is_some()
}

/// Whether a `Cargo.toml` is one this tool wrote for the editor.
pub fn is_generated_rust_support_manifest_text(contents: &str) -> (r: bool)
    ensures
        r == (contains_text(contents@, "name = \"transplanter-scripts\""@) && contains_text(contents@, "autobins = false"@)
            && contains_text(contents@, "transplanter_rust = { path = "@)),
{
    let c = chars_of(contents);
    contains_str(&c, "name = \"transplanter-scripts\"") && contains_str(&c, "autobins = false") && contains_str(&c, "transplanter_rust = { path = ")
}

/// Whether a `Cargo.toml` found above a source file depends on the prelude crate, so
/// that checking it checks the source the way the editor does.
pub fn uses_prelude_crate(contents: &str) -> (r: bool)
    ensures
        r == contains_text(contents@, "transplanter_rust"@),
{
    let c = chars_of(contents);
    contains_str(&c, "transplanter_rust")
}

/// Whether a `Cargo.lock` is one Cargo wrote for this tool's editor manifest.
pub fn is_generated_rust_support_lockfile_text(contents: &str) -> (r: bool)
    ensures
        r == (contains_text(contents@, "name = \"transplanter-scripts\""@) && contains_text(contents@, "name = \"transplanter_rust\""@)),
{
    let c = chars_of(contents);
    contains_str(&c, "name = \"transplanter-scripts\"") && contains_str(&c, "name = \"transplanter_rust\"")
}

/// Whether a file was read and holds `text`.
pub open spec fn read_as(contents: Option<String>, text: Seq<char>) -> bool {
    match contents {
        Some(c) => c@ == text,
        None => false,
    }
}

/// Whether a support crate found on disk is exactly the one this tool writes: its
/// manifest, `lib.rs` and prelude (`None` where a file could not be read) hold the
/// written texts, `expected_prelude` being the prelude this build carries.
pub fn is_generated_support_crate(
    manifest: &Option<String>,
    lib: &Option<String>,
    prelude: &Option<String>,
    expected_prelude: &str,
) -> (r: bool)
    ensures
        r == (read_as(*manifest, SUPPORT_MANIFEST@) && read_as(*lib, SUPPORT_LIB@) && read_as(*prelude, expected_prelude@)),
{
    let m = match manifest {
        Some(m) => m,
        None => return false,
    };
    let l = match lib {
        Some(l) => l,
        None => return false,
    };
    let p = match prelude {
        Some(p) => p,
        None => return false,
    };
    str_eq(m.as_str(), SUPPORT_MANIFEST) && str_eq(l.as_str(), SUPPORT_LIB) && str_eq(p.as_str(), expected_prelude)
}

/// The package section shared by the editor manifests, up to the prelude dependency.
pub open spec fn manifest_head(name: Seq<char>) -> Seq<char> {
    "[package]\n"@ + "name = \""@ + name + "\"\n"@ + "version = \"0.1.0\"\n"@ + "edition = \"2024\"\n"@
        + "publish = false\n"@ + "autobins = false\n\n"@ + "[dependencies]\n"@ + "transplanter_rust = { path = "@
        + quoted("transplanter_rust"@) + " }\n"@
}

/// A `[[bin]]` section.
pub open spec fn bin_section(name: Seq<char>, path: Seq<char>) -> Seq<char> {
    "\n[[bin]]\n"@ + "name = "@ + quoted(name) + seq!['\n'] + "path = "@ + quoted(path) + seq!['\n']
}

fn push_manifest_head(out: &mut Vec<char>, name: &str)
    ensures
        final(out)@ == old(out)@ + manifest_head(name@),
{
    push_str(out, "[package]\n");
    push_str(out, "name = \"");
    push_str(out, name);
    push_str(out, "\"\n");
    push_str(out, "version = \"0.1.0\"\n");
    push_str(out, "edition = \"2024\"\n");
    push_str(out, "publish = false\n");
    push_str(out, "autobins = false\n\n");
    push_str(out, "[dependencies]\n");
    push_str(out, "transplanter_rust = { path = ");
    let dir = chars_of("transplanter_rust");
    push_quoted(out, &dir);
    push_str(out, " }\n");
    proof {
        assert(final(out)@ =~= old(out)@ + manifest_head(name@));
    }
}

fn push_bin_section(out: &mut Vec<char>, name: &Vec<char>, path: &Vec<char>)
    ensures
        final(out)@ == old(out)@ + bin_section(name@, path@),
{
    push_str(out, "\n[[bin]]\n");
    push_str(out, "name = ");
    push_quoted(out, name);
    out.push('\n');
    push_str(out, "path = ");
    push_quoted(out, path);
    out.push('\n');
    proof {
        assert(final(out)@ =~= old(out)@ + bin_section(name@, path@));
    }
}

/// The manifest that checks one source file on its own, its absolute path given.
pub fn render_single_file_validation_manifest(input_path: &str) -> (r: String)
    ensures
        r@ == manifest_head("transplanter-script-check"@) + bin_section("script"@, forward_slashes(input_path@)),
{
    let mut out: Vec<char> = Vec::new();
    push_manifest_head(&mut out, "transplanter-script-check");
    let name = chars_of("script");
    let path = chars_of(manifest_path_string(input_path).as_str());
    push_bin_section(&mut out, &name, &path);
    string_of(out.as_slice())
}

/// The editor manifest with one binary per `(name, path)` entry.
pub open spec fn manifest_spec(bins: Seq<(Seq<char>, Seq<char>)>) -> Seq<char>
    decreases bins.len(),
{
    if bins.len() == 0 {
        manifest_head("transplanter-scripts"@)
    } else {
        manifest_spec(bins.drop_last()) + bin_section(bins.last().0, forward_slashes(bins.last().1))
    }
}

pub open spec fn pairs_view(bins: Seq<(String, String)>) -> Seq<(Seq<char>, Seq<char>)> {
    bins.map_values(|b: (String, String)| (b.0@, b.1@))
}

/// The editor manifest: the package, the prelude dependency, and one `[[bin]]` per
/// entry of binary name and path (written with `/`).
pub fn render_manifest(bins: &Vec<(String, String)>) -> (r: String)
    ensures
        r@ == manifest_spec(pairs_view(bins@)),
{
    let mut out: Vec<char> = Vec::new();
    push_manifest_head(&mut out, "transplanter-scripts");
    let mut i: usize = 0;
    proof {
        assert(pairs_view(bins@.subrange(0, 0)) =~= Seq::<(Seq<char>, Seq<char>)>::empty());
        assert(out@ =~= manifest_spec(Seq::<(Seq<char>, Seq<char>)>::empty()));
    }
    while i < bins.len()
        invariant
            i <= bins@.len(),
            out@ == manifest_spec(pairs_view(bins@.subrange(0, i as int))),
        decreases bins@.len() - i,
    {
        let name = chars_of(bins[i].0.as_str());
        let path = chars_of(manifest_path_string(bins[i].1.as_str()).as_str());
        push_bin_section(&mut out, &name, &path);
        proof {
            let pv = pairs_view(bins@.subrange(0, i + 1));
            assert(pv.drop_last() =~= pairs_view(bins@.subrange(0, i as int)));
            assert(pv.last() == (bins@[i as int].0@, bins@[i as int].1@));
        }
        i = i + 1;
    }
    proof {
        assert(bins@.subrange(0, bins@.len() as int) =~= bins@);
    }
    string_of(out.as_slice())
}


/// A path without its file's extension (`with_extension("")`).
pub open spec fn stem_spec(rel: Seq<char>) -> Seq<char> {
    let start = last_sep(rel, rel.len() as int) + 1;
    match extension_spec(rel.subrange(start, rel.len() as int)) {
        Some(e) => rel.subrange(0, rel.len() - e.len() - 1),
        None => rel,
    }
}

/// A character kept in a binary name; others become `_`.
pub open spec fn name_char(c: char) -> char {
    if is_alnum(c) || c == '-' || c == '_' {
        c
    } else {
        '_'
    }
}

/// The binary name a source's relative path suggests: its path without extension,
/// other characters than letters, digits, `-` and `_` made `_`, and `script_` in front
/// when that is empty or starts with a digit.
pub open spec fn bin_base(rel: Seq<char>) -> Seq<char> {
    let m = stem_spec(rel).map_values(|c: char| name_char(c));
    if m.len() == 0 || is_digit(m[0]) {
        "script_"@ + m
    } else {
        m
    }
}

/// The `k`-th name tried: the base, then the base with `_2`, `_3`, ...
pub open spec fn candidate(base: Seq<char>, k: nat) -> Seq<char> {
    if k <= 1 {
        base
    } else {
        base + seq!['_'] + crate::text::decimal(k)
    }
}

/// The first `k` from `k` below `limit` whose name is not taken, else `limit`.
pub open spec fn first_free(base: Seq<char>, used: Seq<Seq<char>>, k: nat, limit: nat) -> nat
    decreases limit - k,
{
    if k >= limit {
        limit
    } else if !used.contains(candidate(base, k)) {
        k
    } else {
        first_free(base, used, k + 1, limit)
    }
}

/// The name given to a source: the first of its candidates that is not taken yet (one
/// of the first `n + 1` always is, `n` names being taken: see
/// `lemma_unique_name_is_fresh`).
pub open spec fn unique_name_spec(rel: Seq<char>, used: Seq<Seq<char>>) -> Seq<char> {
    candidate(bin_base(rel), first_free(bin_base(rel), used, 1, used.len() + 1))
}

/// Different tries give different names.
proof fn lemma_candidates_differ(base: Seq<char>, j: nat, k: nat)
    requires
        1 <= j < k,
    ensures
        candidate(base, j) != candidate(base, k),
{
    crate::text::lemma_decimal_len(k);
    if j >= 2 {
        crate::text::lemma_decimal_len(j);
        if candidate(base, j) == candidate(base, k) {
            let start = base.len() + 1;
            assert(candidate(base, j).subrange(start as int, candidate(base, j).len() as int) =~= crate::text::decimal(j));
            assert(candidate(base, k).subrange(start as int, candidate(base, k).len() as int) =~= crate::text::decimal(k));
            crate::text::lemma_decimal_injective(j, k);
        }
    }
}

/// What the search for a free name finds: every try before it is taken, and it is free
/// unless the search ran to its limit.
proof fn lemma_first_free(base: Seq<char>, used: Seq<Seq<char>>, k: nat, limit: nat)
    requires
        k <= limit,
    ensures
        k <= first_free(base, used, k, limit) <= limit,
        first_free(base, used, k, limit) < limit ==> !used.contains(candidate(base, first_free(base, used, k, limit))),
        forall|j: nat| k <= j < first_free(base, used, k, limit) ==> used.contains(#[trigger] candidate(base, j)),
    decreases limit - k,
{
    if k < limit && used.contains(candidate(base, k)) {
        lemma_first_free(base, used, k + 1, limit);
    }
}

/// The name given to a source is never one already taken: of the first `n + 1` tries,
/// which all differ, `n` taken names cannot hold every one.
pub proof fn lemma_unique_name_is_fresh(rel: Seq<char>, used: Seq<Seq<char>>)
    ensures
        !used.contains(unique_name_spec(rel, used)),
{
    broadcast use vstd::seq_lib::seq_to_set_is_finite;
    let base = bin_base(rel);
    let n = used.len();
    lemma_first_free(base, used, 1, n + 1);
    let r = first_free(base, used, 1, n + 1);
    if r == n + 1 && used.contains(candidate(base, n + 1)) {
        let cs = Seq::new(n + 1, |i: int| candidate(base, (i + 1) as nat));
        assert(cs.no_duplicates()) by {
            assert forall|i: int, j: int| 0 <= i < cs.len() && 0 <= j < cs.len() && i != j implies cs[i] != cs[j] by {
                if i < j {
                    lemma_candidates_differ(base, (i + 1) as nat, (j + 1) as nat);
                } else {
                    lemma_candidates_differ(base, (j + 1) as nat, (i + 1) as nat);
                }
            }
        }
        cs.unique_seq_to_set();
        assert(cs.to_set().subset_of(used.to_set())) by {
            assert forall|x: Seq<char>| cs.to_set().contains(x) implies used.to_set().contains(x) by {
                let i = choose|i: int| 0 <= i < cs.len() && cs[i] == x;
                if i < n {
                    assert(used.contains(candidate(base, (i + 1) as nat)));
                }
            }
        }
        vstd::set_lib::lemma_len_subset(cs.to_set(), used.to_set());
        used.lemma_cardinality_of_set();
        assert(false);
    }
}

fn name_taken(used: &Vec<String>, name: &Vec<char>) -> (r: bool)
    ensures
        r == strings_view(used@).contains(name@),
{
    let ns = string_of(name.as_slice());
    let mut i: usize = 0;
    while i < used.len()
        invariant
            i <= used@.len(),
            ns@ == name@,
            forall|k: int| 0 <= k < i ==> used@[k]@ != name@,
        decreases used@.len() - i,
    {
        if str_eq(used[i].as_str(), ns.as_str()) {
            proof {
                assert(strings_view(used@)[i as int] == name@);
            }
            return true;
        }
        i = i + 1;
    }
    proof {
        if strings_view(used@).contains(name@) {
            let k = choose|k: int| 0 <= k < strings_view(used@).len() && strings_view(used@)[k] == name@;
            assert(used@[k]@ == name@);
        }
    }
    false
}

fn candidate_name(base: &Vec<char>, k: usize) -> (r: Vec<char>)
    ensures
        r@ == candidate(base@, k as nat),
{
    let mut c = copy_chars(base, 0, base.len());
    proof {
        assert(base@.subrange(0, base@.len() as int) =~= base@);
    }
    if k > 1 {
        c.push('_');
        crate::text::push_decimal(&mut c, k);
    }
    c
}

/// The binary name for a source's relative path, not yet in `used`; it is added to
/// `used`.
pub fn unique_bin_name(relative: &str, used: &mut Vec<String>) -> (r: String)
    requires
        old(used)@.len() < usize::MAX - 1,
    ensures
        r@ == unique_name_spec(relative@, strings_view(old(used)@)),
        !strings_view(old(used)@).contains(r@),
        final(used)@ == old(used)@.push(r),
{
    let rel = chars_of(relative);
    let mut start = rel.len();
    while start > 0 && !(rel[start - 1] == '/' || rel[start - 1] == '\\')
        invariant
            start <= rel@.len(),
            last_sep(rel@, rel@.len() as int) == last_sep(rel@, start as int),
        decreases start,
    {
        start = start - 1;
    }
    let mut dot = rel.len();
    while dot > start && rel[dot - 1] != '.'
        invariant
            start <= dot <= rel@.len(),
            last_dot(rel@.subrange(start as int, rel@.len() as int), rel@.len() - start) == last_dot(rel@.subrange(start as int, rel@.len() as int), dot - start),
        decreases dot,
    {
        dot = dot - 1;
    }
    let stem_end = if dot > start + 1 { dot - 1 } else { rel.len() };
    proof {
        let name = rel@.subrange(start as int, rel@.len() as int);
        assert(last_sep(rel@, rel@.len() as int) + 1 == start);
        if dot > start + 1 {
            let e = name.subrange(dot - start, name.len() as int);
            assert(rel@.len() - e.len() - 1 == dot - 1);
        }
    }
    let mut m: Vec<char> = Vec::new();
    let mut i: usize = 0;
    while i < stem_end
        invariant
            i <= stem_end <= rel@.len(),
            m@ == rel@.subrange(0, i as int).map_values(|c: char| name_char(c)),
        decreases stem_end - i,
    {
        let c = rel[i];
        let d = if ('a' <= c && c <= 'z') || ('A' <= c && c <= 'Z') || ('0' <= c && c <= '9') || c == '-' || c == '_' {
            c
        } else {
            '_'
        };
        m.push(d);
        i = i + 1;
        proof {
            assert(m@ =~= rel@.subrange(0, i as int).map_values(|c: char| name_char(c)));
        }
    }
    proof {
        assert(rel@.subrange(0, stem_end as int) == stem_spec(relative@));
    }
    let base: Vec<char> = if m.len() == 0 || ('0' <= m[0] && m[0] <= '9') {
        let mut b: Vec<char> = Vec::new();
        push_str(&mut b, "script_");
        push_chars(&mut b, &m);
        b
    } else {
        m
    };
    let ghost uv = strings_view(used@);
    let limit = used.len() + 1;
    let mut k: usize = 1;
    while k < limit && name_taken(used, &candidate_name(&base, k))
        invariant
            1 <= k <= limit == used@.len() + 1,
            uv == strings_view(used@),
            base@ == bin_base(relative@),
            first_free(base@, uv, 1, limit as nat) == first_free(base@, uv, k as nat, limit as nat),
        decreases limit - k,
    {
        k = k + 1;
    }
    let name = candidate_name(&base, k);
    let r = string_of(name.as_slice());
    proof {
        lemma_unique_name_is_fresh(relative@, uv);
    }
    used.push(r.clone());
    r
}

/// What a part of a path is, as `std::path::Component` tells them apart.
#[derive(Clone, Copy, Debug, PartialEq, Eq, Structural)]
pub enum PartKind {
    Prefix,
    Root,
    Current,
    Parent,
    Normal,
}

/// One part of a path: its kind and its text.
#[derive(Clone, Debug)]
pub struct PathPart {
    pub kind: PartKind,
    pub text: String,
}

/// The parts of a path, each as its kind and text.
pub open spec fn parts_view(parts: Seq<PathPart>) -> Seq<(PartKind, Seq<char>)> {
    parts.map_values(|p: PathPart| (p.kind, p.text@))
}

/// The number of leading parts, from `i` on, that `base` and `target` share.
pub open spec fn common_len(base: Seq<(PartKind, Seq<char>)>, target: Seq<(PartKind, Seq<char>)>, i: int) -> int
    decreases base.len() - i,
{
    if 0 <= i < base.len() && i < target.len() && base[i] == target[i] {
        common_len(base, target, i + 1)
    } else {
        i
    }
}

/// The steps up out of `base[from..to]`: `..` for each named folder, nothing for `.`;
/// any other part leaves no way up.
pub open spec fn climb(base: Seq<(PartKind, Seq<char>)>, from: int, to: int) -> Option<Seq<Seq<char>>>
    decreases to - from,
{
    if to <= from {
        Some(Seq::empty())
    } else {
        match climb(base, from, to - 1) {
            None => None,
            Some(up) => match base[to - 1].0 {
                PartKind::Normal => Some(up.push(".."@)),
                PartKind::Current => Some(up),
                _ => None,
            },
        }
    }
}

/// The way from folder `base` to `target`, as the parts to join: up out of what
/// `base` does not share with `target`, then down the rest of `target`. There is none
/// when the two share no leading part, or when `base` goes on with anything but named
/// folders and `.`.
pub open spec fn relative_spec(base: Seq<(PartKind, Seq<char>)>, target: Seq<(PartKind, Seq<char>)>) -> Option<Seq<Seq<char>>> {
    let c = common_len(base, target, 0);
    if c == 0 {
        None
    } else {
        match climb(base, c, base.len() as int) {
            None => None,
            Some(up) => Some(up + target.subrange(c, target.len() as int).map_values(|p: (PartKind, Seq<char>)| p.1)),
        }
    }
}

/// The folder reached from `dir` by one step of a relative path: `..` goes up (not past
/// the start), `.` stays, a name goes down.
pub open spec fn step_into(dir: Seq<Seq<char>>, step: Seq<char>) -> Seq<Seq<char>> {
    if step == ".."@ {
        if dir.len() > 0 {
            dir.drop_last()
        } else {
            dir
        }
    } else if step == "."@ {
        dir
    } else {
        dir.push(step)
    }
}

/// The folder reached from `dir` by taking `steps` in order.
pub open spec fn follow(dir: Seq<Seq<char>>, steps: Seq<Seq<char>>) -> Seq<Seq<char>>
    decreases steps.len(),
{
    if steps.len() == 0 {
        dir
    } else {
        step_into(follow(dir, steps.drop_last()), steps.last())
    }
}

/// The texts of the parts `from..to`, `.` parts left out.
pub open spec fn names_between(parts: Seq<(PartKind, Seq<char>)>, from: int, to: int) -> Seq<Seq<char>>
    decreases to - from,
{
    if to <= from {
        Seq::empty()
    } else if parts[to - 1].0 == PartKind::Current {
        names_between(parts, from, to - 1)
    } else {
        names_between(parts, from, to - 1).push(parts[to - 1].1)
    }
}

/// Where a path leads: the texts of its parts, `.` parts left out.
pub open spec fn path_names(parts: Seq<(PartKind, Seq<char>)>) -> Seq<Seq<char>> {
    names_between(parts, 0, parts.len() as int)
}

/// A named folder's text is a name, not `.` or `..`.
pub open spec fn plain_part(p: (PartKind, Seq<char>)) -> bool {
    p.0 == PartKind::Normal ==> p.1 != ".."@ && p.1 != "."@
}

/// `n` steps up.
pub open spec fn ups(n: nat) -> Seq<Seq<char>> {
    Seq::new(n, |i: int| ".."@)
}

proof fn lemma_names_split(parts: Seq<(PartKind, Seq<char>)>, from: int, mid: int, to: int)
    requires
        from <= mid <= to,
    ensures
        names_between(parts, from, to) == names_between(parts, from, mid) + names_between(parts, mid, to),
    decreases to - mid,
{
    if to > mid {
        lemma_names_split(parts, from, mid, to - 1);
        assert(names_between(parts, from, mid) + names_between(parts, mid, to - 1).push(parts[to - 1].1)
            =~= (names_between(parts, from, mid) + names_between(parts, mid, to - 1)).push(parts[to - 1].1));
    } else {
        assert(names_between(parts, from, mid) + Seq::<Seq<char>>::empty() =~= names_between(parts, from, mid));
    }
}

proof fn lemma_names_same_prefix(a: Seq<(PartKind, Seq<char>)>, b: Seq<(PartKind, Seq<char>)>, to: int)
    requires
        0 <= to <= a.len(),
        to <= b.len(),
        forall|i: int| 0 <= i < to ==> a[i] == b[i],
    ensures
        names_between(a, 0, to) == names_between(b, 0, to),
    decreases to,
{
    if to > 0 {
        lemma_names_same_prefix(a, b, to - 1);
    }
}

proof fn lemma_names_of_named(parts: Seq<(PartKind, Seq<char>)>, from: int, to: int)
    requires
        0 <= from <= to <= parts.len(),
        forall|i: int| from <= i < to ==> parts[i].0 == PartKind::Normal,
    ensures
        names_between(parts, from, to) == parts.subrange(from, to).map_values(|p: (PartKind, Seq<char>)| p.1),
    decreases to - from,
{
    if to > from {
        lemma_names_of_named(parts, from, to - 1);
        assert(parts.subrange(from, to).map_values(|p: (PartKind, Seq<char>)| p.1)
            =~= parts.subrange(from, to - 1).map_values(|p: (PartKind, Seq<char>)| p.1).push(parts[to - 1].1));
    } else {
        assert(parts.subrange(from, to).map_values(|p: (PartKind, Seq<char>)| p.1) =~= Seq::<Seq<char>>::empty());
    }
}

proof fn lemma_climb_is_ups(base: Seq<(PartKind, Seq<char>)>, from: int, to: int)
    requires
        from <= to,
        climb(base, from, to) is Some,
    ensures
        climb(base, from, to) == Some(ups(names_between(base, from, to).len())),
    decreases to - from,
{
    if to > from {
        lemma_climb_is_ups(base, from, to - 1);
        let n = names_between(base, from, to - 1).len();
        assert(ups(n).push(".."@) =~= ups(n + 1));
    } else {
        assert(ups(0) =~= Seq::<Seq<char>>::empty());
    }
}

proof fn lemma_follow_append(dir: Seq<Seq<char>>, s1: Seq<Seq<char>>, s2: Seq<Seq<char>>)
    ensures
        follow(dir, s1 + s2) == follow(follow(dir, s1), s2),
    decreases s2.len(),
{
    if s2.len() == 0 {
        assert(s1 + s2 =~= s1);
    } else {
        lemma_follow_append(dir, s1, s2.drop_last());
        assert((s1 + s2).drop_last() =~= s1 + s2.drop_last());
    }
}

proof fn lemma_follow_ups(dir: Seq<Seq<char>>, n: nat)
    requires
        n <= dir.len(),
    ensures
        follow(dir, ups(n)) == dir.subrange(0, dir.len() - n),
    decreases n,
{
    if n == 0 {
        assert(dir.subrange(0, dir.len() as int) =~= dir);
    } else {
        lemma_follow_ups(dir, (n - 1) as nat);
        assert(ups(n).drop_last() =~= ups((n - 1) as nat));
        assert(dir.subrange(0, dir.len() - (n - 1)).drop_last() =~= dir.subrange(0, dir.len() - n));
    }
}

proof fn lemma_follow_names(dir: Seq<Seq<char>>, names: Seq<Seq<char>>)
    requires
        forall|i: int| 0 <= i < names.len() ==> names[i] != ".."@ && names[i] != "."@,
    ensures
        follow(dir, names) == dir + names,
    decreases names.len(),
{
    if names.len() == 0 {
        assert(dir + names =~= dir);
    } else {
        lemma_follow_names(dir, names.drop_last());
        assert((dir + names.drop_last()).push(names.last()) =~= dir + names);
    }
}

/// Going from folder `base` along the path `relative_path_between` gives reaches
/// `target`, when the parts that name folders carry plain names and `target` goes on
/// with named folders only once it leaves `base`.
pub proof fn lemma_relative_path_leads_to_target(base: Seq<(PartKind, Seq<char>)>, target: Seq<(PartKind, Seq<char>)>)
    requires
        forall|i: int| 0 <= i < base.len() ==> plain_part(#[trigger] base[i]),
        forall|i: int| 0 <= i < target.len() ==> plain_part(#[trigger] target[i]),
        forall|i: int| common_len(base, target, 0) <= i < target.len() ==> (#[trigger] target[i]).0 == PartKind::Normal,
        relative_spec(base, target) is Some,
    ensures
        relative_spec(base, target) matches Some(steps) && follow(path_names(base), steps) == path_names(target),
{
    let c = common_len(base, target, 0);
    lemma_common_len(base, target, 0);
    let up = climb(base, c, base.len() as int).get_Some_0();
    let down = target.subrange(c, target.len() as int).map_values(|p: (PartKind, Seq<char>)| p.1);
    lemma_climb_is_ups(base, c, base.len() as int);
    lemma_names_split(base, 0, c, base.len() as int);
    lemma_names_split(target, 0, c, target.len() as int);
    lemma_names_same_prefix(base, target, c);
    lemma_names_of_named(target, c, target.len() as int);
    let prefix = names_between(base, 0, c);
    let rest = names_between(base, c, base.len() as int);
    lemma_follow_append(path_names(base), up, down);
    lemma_follow_ups(path_names(base), rest.len());
    assert(path_names(base).subrange(0, path_names(base).len() - rest.len()) =~= prefix);
    assert forall|i: int| 0 <= i < down.len() implies down[i] != ".."@ && down[i] != "."@ by {
        assert(plain_part(target[c + i]));
    }
    lemma_follow_names(prefix, down);
}

/// The number of shared leading parts, with what it says of them.
proof fn lemma_common_len(base: Seq<(PartKind, Seq<char>)>, target: Seq<(PartKind, Seq<char>)>, i: int)
    requires
        0 <= i <= base.len(),
        i <= target.len(),
        forall|k: int| 0 <= k < i ==> base[k] == target[k],
    ensures
        i <= common_len(base, target, i) <= base.len(),
        common_len(base, target, i) <= target.len(),
        forall|k: int| 0 <= k < common_len(base, target, i) ==> base[k] == target[k],
    decreases base.len() - i,
{
    if i < base.len() && i < target.len() && base[i] == target[i] {
        lemma_common_len(base, target, i + 1);
    }
}

fn same_part(a: &PathPart, b: &PathPart) -> (r: bool)
    ensures
        r == ((a.kind, a.text@) == (b.kind, b.text@)),
{
    a.kind == b.kind && str_eq(a.text.as_str(), b.text.as_str())
}

/// The path from folder `base` to `target`, as the parts to join, when one part at
/// least leads the two; `None` otherwise, or when `base` goes on with a root, a prefix
/// or `..` past what the two share.
pub fn relative_path_between(base: &Vec<PathPart>, target: &Vec<PathPart>) -> (r: Option<Vec<String>>)
    ensures
        match relative_spec(parts_view(base@), parts_view(target@)) {
            None => r is None,
            Some(v) => r matches Some(x) && strings_view(x@) == v,
        },
{
    let ghost b = parts_view(base@);
    let ghost t = parts_view(target@);
    let mut c: usize = 0;
    while c < base.len() && c < target.len() && same_part(&base[c], &target[c])
        invariant
            c <= base@.len() && c <= target@.len(),
            b == parts_view(base@) && t == parts_view(target@),
            common_len(b, t, 0) == common_len(b, t, c as int),
        decreases base.len() - c,
    {
        c = c + 1;
    }
    assert(common_len(b, t, c as int) == c);
    if c == 0 {
        return None;
    }
    let mut parts: Vec<String> = Vec::new();
    let mut i: usize = c;
    while i < base.len()
        invariant
            c <= i <= base@.len(),
            b == parts_view(base@) && t == parts_view(target@),
            common_len(b, t, 0) == c,
            climb(b, c as int, i as int) == Some(strings_view(parts@)),
        decreases base.len() - i,
    {
        let ghost before = strings_view(parts@);
        match base[i].kind {
            PartKind::Normal => {
                parts.push(String::from_str(".."));
                proof {
                    assert(strings_view(parts@) =~= before.push(".."@));
                }
            },
            PartKind::Current => {},
            _ => {
                proof {
                    assert(b[i as int].0 == base@[i as int].kind);
                    lemma_climb_stays_none(b, c as int, i as int + 1, base@.len() as int);
                }
                return None;
            },
        }
        i = i + 1;
    }
    let ghost up = strings_view(parts@);
    proof {
        assert(t.subrange(c as int, c as int).map_values(|p: (PartKind, Seq<char>)| p.1) =~= Seq::<Seq<char>>::empty());
        assert(up + Seq::<Seq<char>>::empty() =~= up);
    }
    let mut j: usize = c;
    while j < target.len()
        invariant
            c <= j <= target@.len(),
            t == parts_view(target@),
            strings_view(parts@) == up + t.subrange(c as int, j as int).map_values(|p: (PartKind, Seq<char>)| p.1),
        decreases target.len() - j,
    {
        let ghost before = strings_view(parts@);
        parts.push(target[j].text.clone());
        proof {
            assert(t.subrange(c as int, j + 1).map_values(|p: (PartKind, Seq<char>)| p.1)
                =~= t.subrange(c as int, j as int).map_values(|p: (PartKind, Seq<char>)| p.1).push(t[j as int].1));
            assert(strings_view(parts@) =~= before.push(target@[j as int].text@));
        }
        j = j + 1;
    }
    proof {
        assert(t.subrange(c as int, j as int) =~= t.subrange(c as int, t.len() as int));
    }
    Some(parts)
}

/// Once the way up is cut, it stays cut.
proof fn lemma_climb_stays_none(base: Seq<(PartKind, Seq<char>)>, from: int, i: int, to: int)
    requires
        from <= i <= to,
        climb(base, from, i) is None,
    ensures
        climb(base, from, to) is None,
    decreases to - i,
{
    if i < to {
        lemma_climb_stays_none(base, from, i + 1, to);
    }
}


/// Two output paths name the same file, as `Path` compares them: they begin alike and
/// have the same named parts, whichever separators stand between them and whatever
/// `.` parts lie among them.
pub open spec fn same_output(a: Seq<char>, b: Seq<char>) -> bool {
    start_kind(a) == start_kind(b) && same_parts_from(a, 0, b, 0)
}

/// Whether the named parts of `a` from `i` on are those of `b` from `j` on, one for
/// one (separators and `.` parts do not count).
pub open spec fn same_parts_from(a: Seq<char>, i: int, b: Seq<char>, j: int) -> bool
    decreases a.len() - i,
{
    let i2 = skip_lead(a, i);
    let j2 = skip_lead(b, j);
    if i2 < i || i2 >= a.len() {
        j2 >= b.len()
    } else {
        let ie = part_end(a, i2);
        let je = part_end(b, j2);
        if ie <= i2 || ie > a.len() {
            false
        } else {
            j2 < b.len() && a.subrange(i2, ie) == b.subrange(j2, je) && same_parts_from(a, ie, b, je)
        }
    }
}

/// The first index below `n` whose output is the same file as `o`, if any.
pub open spec fn first_same(outs: Seq<Seq<char>>, o: Seq<char>, n: int) -> Option<int>
    decreases n,
{
    if n <= 0 {
        None
    } else {
        match first_same(outs, o, n - 1) {
            Some(k) => Some(k),
            None => if same_output(outs[n - 1], o) {
                Some(n - 1)
            } else {
                None
            },
        }
    }
}

pub open spec fn clash_message(previous: Seq<char>, input: Seq<char>, output: Seq<char>) -> Seq<char> {
    "エラー: `"@ + previous + "` と `"@ + input + "` の出力先がどちらも `"@ + output
        + "` になります。どちらかのファイル名を変更してください"@
}

/// The outputs of `inputs`, in order, when each lies below `src_dir` and no two of them
/// are the same file; else the first failure: a source outside the folder, or the
/// earlier source whose output a later one would overwrite.
pub open spec fn unique_outputs_spec(src_dir: Seq<char>, out_dir: Seq<char>, inputs: Seq<Seq<char>>) -> Result<Seq<Seq<char>>, Seq<char>>
    decreases inputs.len(),
{
    if inputs.len() == 0 {
        Ok(Seq::empty())
    } else {
        let n = inputs.len() - 1;
        match unique_outputs_spec(src_dir, out_dir, inputs.drop_last()) {
            Err(e) => Err(e),
            Ok(outs) => match output_path_spec(src_dir, out_dir, inputs[n]) {
                Err(e) => Err(e),
                Ok(o) => match first_same(outs, o, outs.len() as int) {
                    Some(k) => Err(clash_message(inputs[k], inputs[n], o)),
                    None => Ok(outs.push(o)),
                },
            },
        }
    }
}

proof fn lemma_first_same_none(outs: Seq<Seq<char>>, o: Seq<char>, n: int)
    requires
        first_same(outs, o, n) is None,
    ensures
        forall|k: int| 0 <= k < n ==> !same_output(#[trigger] outs[k], o),
    decreases n,
{
    if n > 0 {
        lemma_first_same_none(outs, o, n - 1);
    }
}

/// When the sources are accepted, each output is the one its source gives, and no two
/// sources are written to the same file.
pub proof fn lemma_unique_outputs_distinct(src_dir: Seq<char>, out_dir: Seq<char>, inputs: Seq<Seq<char>>)
    requires
        unique_outputs_spec(src_dir, out_dir, inputs) is Ok,
    ensures
        unique_outputs_spec(src_dir, out_dir, inputs) matches Ok(outs) && {
            &&& outs.len() == inputs.len()
            &&& forall|i: int| 0 <= i < inputs.len() ==> output_path_spec(src_dir, out_dir, inputs[i]) == Ok::<Seq<char>, Seq<char>>(#[trigger] outs[i])
            &&& forall|i: int, j: int| 0 <= i < j < inputs.len() ==> !same_output(#[trigger] outs[i], #[trigger] outs[j])
        },
    decreases inputs.len(),
{
    if inputs.len() > 0 {
        let front = inputs.drop_last();
        lemma_unique_outputs_distinct(src_dir, out_dir, front);
        let outs = unique_outputs_spec(src_dir, out_dir, front).get_Ok_0();
        let o = output_path_spec(src_dir, out_dir, inputs.last()).get_Ok_0();
        lemma_first_same_none(outs, o, outs.len() as int);
        let all = outs.push(o);
        assert forall|i: int| 0 <= i < inputs.len() implies output_path_spec(src_dir, out_dir, inputs[i]) == Ok::<Seq<char>, Seq<char>>(#[trigger] all[i]) by {
            if i < front.len() {
                assert(front[i] == inputs[i]);
            }
        }
        assert forall|i: int, j: int| 0 <= i < j < inputs.len() implies !same_output(#[trigger] all[i], #[trigger] all[j]) by {
            if j == inputs.len() - 1 {
                assert(all[i] == outs[i]);
            } else {
                assert(all[i] == outs[i] && all[j] == outs[j]);
            }
        }
    }
}

/// The first match, once found, stays the first.
proof fn lemma_first_same_stays(outs: Seq<Seq<char>>, o: Seq<char>, j: int, n: int)
    requires
        0 <= j <= n,
        first_same(outs, o, j) is Some,
    ensures
        first_same(outs, o, n) == first_same(outs, o, j),
    decreases n - j,
{
    if j < n {
        lemma_first_same_stays(outs, o, j, n - 1);
    }
}

/// Once a prefix of the sources is refused, every longer prefix is refused the same way.
proof fn lemma_unique_outputs_err(src_dir: Seq<char>, out_dir: Seq<char>, inputs: Seq<Seq<char>>, j: int, n: int)
    requires
        0 <= j <= n <= inputs.len(),
        unique_outputs_spec(src_dir, out_dir, inputs.subrange(0, j)) is Err,
    ensures
        unique_outputs_spec(src_dir, out_dir, inputs.subrange(0, n)) == unique_outputs_spec(src_dir, out_dir, inputs.subrange(0, j)),
    decreases n - j,
{
    if j < n {
        lemma_unique_outputs_err(src_dir, out_dir, inputs, j, n - 1);
        assert(inputs.subrange(0, n).drop_last() =~= inputs.subrange(0, n - 1));
    }
}

pub(crate) fn same_output_text(a: &str, b: &str) -> (r: bool)
    ensures
        r == same_output(a@, b@),
{
    let x = chars_of(a);
    let y = chars_of(b);
    if start_kind_of(&x) != start_kind_of(&y) {
        return false;
    }
    let mut i: usize = 0;
    let mut j: usize = 0;
    loop
        invariant
            i <= x@.len(),
            j <= y@.len(),
            x@ == a@ && y@ == b@ && start_kind(x@) == start_kind(y@),
            same_parts_from(x@, 0, y@, 0) == same_parts_from(x@, i as int, y@, j as int),
        decreases x@.len() - i,
    {
        let i2 = skip_lead_at(&x, i);
        let j2 = skip_lead_at(&y, j);
        if i2 >= x.len() {
            return j2 >= y.len();
        }
        let ie = part_end_at(&x, i2);
        let je = part_end_at(&y, j2);
        if ie <= i2 {
            return false;
        }
        if j2 < y.len() && same_range(&x, i2, ie, &y, j2, je) {
            i = ie;
            j = je;
        } else {
            return false;
        }
    }
}

/// The outputs of the sources, in order; refused when a source lies outside `src_dir`
/// or when two sources would be written to the same output file.
pub fn unique_output_paths(src_dir: &str, out_dir: &str, inputs: &Vec<String>) -> (r: Result<Vec<String>, String>)
    ensures
        match unique_outputs_spec(src_dir@, out_dir@, strings_view(inputs@)) {
            Ok(outs) => r matches Ok(v) && strings_view(v@) == outs,
            Err(m) => r matches Err(e) && e@ == m,
        },
{
    let ghost ins = strings_view(inputs@);
    let mut outs: Vec<String> = Vec::new();
    proof {
        assert(ins.subrange(0, 0) =~= Seq::<Seq<char>>::empty());
        assert(strings_view(outs@) =~= Seq::<Seq<char>>::empty());
    }
    let mut i: usize = 0;
    while i < inputs.len()
        invariant
            i <= inputs@.len(),
            ins == strings_view(inputs@),
            unique_outputs_spec(src_dir@, out_dir@, ins.subrange(0, i as int)) == Ok::<Seq<Seq<char>>, Seq<char>>(strings_view(outs@)),
            outs@.len() == i,
        decreases inputs.len() - i,
    {
        proof {
            assert(ins.subrange(0, i + 1).drop_last() =~= ins.subrange(0, i as int));
            assert(ins.subrange(0, i + 1)[i as int] == inputs@[i as int]@);
        }
        let o = match output_path_for(src_dir, out_dir, inputs[i].as_str()) {
            Ok(o) => o,
            Err(e) => {
                proof {
                    lemma_unique_outputs_err(src_dir@, out_dir@, ins, i + 1, ins.len() as int);
                    assert(ins.subrange(0, ins.len() as int) =~= ins);
                }
                return Err(e);
            },
        };
        let mut k: usize = 0;
        while k < outs.len()
            invariant
                k <= outs@.len(),
                i < inputs@.len(),
                outs@.len() == i,
                ins == strings_view(inputs@),
                unique_outputs_spec(src_dir@, out_dir@, ins.subrange(0, i as int)) == Ok::<Seq<Seq<char>>, Seq<char>>(strings_view(outs@)),
                output_path_spec(src_dir@, out_dir@, ins.subrange(0, i + 1)[i as int]) == Ok::<Seq<char>, Seq<char>>(o@),
                ins.subrange(0, i + 1).drop_last() == ins.subrange(0, i as int),
                first_same(strings_view(outs@), o@, k as int) is None,
            decreases outs.len() - k,
        {
            if same_output_text(outs[k].as_str(), o.as_str()) {
                proof {
                    assert(strings_view(outs@)[k as int] == outs@[k as int]@);
                    assert(first_same(strings_view(outs@), o@, k + 1) == Some(k as int));
                    lemma_first_same_stays(strings_view(outs@), o@, k + 1, outs@.len() as int);
                }
                let mut m: Vec<char> = Vec::new();
                push_str(&mut m, "エラー: `");
                push_str(&mut m, inputs[k].as_str());
                push_str(&mut m, "` と `");
                push_str(&mut m, inputs[i].as_str());
                push_str(&mut m, "` の出力先がどちらも `");
                push_str(&mut m, o.as_str());
                push_str(&mut m, "` になります。どちらかのファイル名を変更してください");
                proof {
                    assert(ins.subrange(0, i + 1)[k as int] == inputs@[k as int]@);
                    assert(ins.subrange(0, i + 1)[i as int] == inputs@[i as int]@);
                    assert(m@ =~= clash_message(ins.subrange(0, i + 1)[k as int], ins.subrange(0, i + 1)[i as int], o@));
                    lemma_unique_outputs_err(src_dir@, out_dir@, ins, i + 1, ins.len() as int);
                    assert(ins.subrange(0, ins.len() as int) =~= ins);
                }
                return Err(string_of(m.as_slice()));
            }
            k = k + 1;
        }
        let ghost before = strings_view(outs@);
        outs.push(o);
        proof {
            assert(strings_view(outs@) =~= before.push(o@));
        }
        i = i + 1;
    }
    proof {
        assert(ins.subrange(0, i as int) =~= ins);
    }
    Ok(outs)
}


} // verus!
