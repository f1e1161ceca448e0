//! The update check's decisions: comparing release versions, reading the release
//! description that the fetch prints, and building the command that runs the update
//! script.
use vstd::prelude::*;
use vstd::utf8::{decode_utf8, valid_utf8};
use crate::text::{
    chars_of, copy_chars, find_char, find_first, is_digit, join, lines_of, push_chars, push_str,
    repeat, str_eq, str_lines, string_of, strings_view, trim, trim_text, vecs_view,
};

verus! {

/// The latest release, as the release service describes it.
#[derive(Debug, Clone, PartialEq, Eq)]
pub struct ReleaseInfo {
    pub tag: String,
    pub version: String,
    pub notes: String,
    pub html_url: String,
    pub asset_url: String,
}

/// The latest release and whether it is newer than the running one.
#[derive(Debug, Clone, PartialEq, Eq)]
pub struct UpdateCheck {
    pub latest: ReleaseInfo,
    pub update_available: bool,
}

// ---------------------------------------------------------------------------------
// Versions

/// `s` without its leading `v`s.
pub open spec fn strip_vs(s: Seq<char>) -> Seq<char>
    decreases s.len(),
{
    if s.len() > 0 && s[0] == 'v' {
        strip_vs(s.subrange(1, s.len() as int))
    } else {
        s
    }
}

/// What comes before the first `-` (a pre-release suffix), or all of `s`.
pub open spec fn before_dash(s: Seq<char>) -> Seq<char> {
    if find_char(s, '-') >= 0 {
        s.subrange(0, find_char(s, '-'))
    } else {
        s
    }
}

/// The pieces of `s` between dots, the way `str::split('.')` cuts them.
pub open spec fn split_dots(s: Seq<char>) -> Seq<Seq<char>>
    decreases s.len(),
{
    if s.len() == 0 {
        seq![Seq::empty()]
    } else if s.last() == '.' {
        split_dots(s.drop_last()).push(Seq::empty())
    } else {
        let p = split_dots(s.drop_last());
        p.update(p.len() - 1, p.last().push(s.last()))
    }
}

/// The digits `s` begins with.
pub open spec fn digit_prefix(s: Seq<char>) -> Seq<char>
    decreases s.len(),
{
    if s.len() > 0 && is_digit(s[0]) {
        seq![s[0]] + digit_prefix(s.subrange(1, s.len() as int))
    } else {
        Seq::empty()
    }
}

/// The number a string of decimal digits writes.
pub open spec fn digits_value(d: Seq<char>) -> nat
    decreases d.len(),
{
    if d.len() == 0 {
        0
    } else {
        digits_value(d.drop_last()) * 10 + ((d.last() as int) - ('0' as int)) as nat
    }
}

/// A version part's number: its leading digits, or 0 when there are none or they do
/// not fit in 64 bits.
pub open spec fn part_value(p: Seq<char>) -> nat {
    let d = digit_prefix(p);
    if d.len() == 0 || digits_value(d) > u64::MAX {
        0
    } else {
        digits_value(d)
    }
}

/// The numbers of a version such as `v0.1.2-beta`: trimmed, leading `v`s dropped, the
/// suffix after `-` dropped, split at dots.
pub open spec fn version_numbers_spec(v: Seq<char>) -> Seq<nat> {
    split_dots(before_dash(strip_vs(trim(v)))).map_values(|p: Seq<char>| part_value(p))
}

/// Number `i` of a version, missing numbers being 0.
pub open spec fn nth(a: Seq<nat>, i: int) -> nat {
    if 0 <= i < a.len() {
        a[i]
    } else {
        0
    }
}

/// Compares two number lists from index `i` on, the shorter padded with zeros:
/// -1, 0 or 1.
pub open spec fn compare_from(a: Seq<nat>, b: Seq<nat>, i: nat) -> int
    decreases (if a.len() > b.len() { a.len() } else { b.len() }) - i,
{
    if i >= a.len() && i >= b.len() {
        0
    } else if nth(a, i as int) < nth(b, i as int) {
        -1
    } else if nth(a, i as int) > nth(b, i as int) {
        1
    } else {
        compare_from(a, b, i + 1)
    }
}

/// How version `a` compares with version `b`: -1, 0 or 1.
pub open spec fn version_order(a: Seq<char>, b: Seq<char>) -> int {
    compare_from(version_numbers_spec(a), version_numbers_spec(b), 0)
}

proof fn lemma_split_dots_len(s: Seq<char>)
    ensures
        split_dots(s).len() >= 1,
    decreases s.len(),
{
    if s.len() > 0 {
        lemma_split_dots_len(s.drop_last());
    }
}

/// The leading digits of `p` as a number, or 0 when there are none or they overflow.
fn part_number(p: &Vec<char>) -> (r: u64)
    ensures
        r == part_value(p@),
{
    let mut value: u64 = 0;
    let mut overflow = false;
    let mut i: usize = 0;
    proof {
        assert(p@.subrange(0, 0) + digit_prefix(p@.subrange(0, p@.len() as int)) =~= digit_prefix(p@)) by {
            assert(p@.subrange(0, p@.len() as int) =~= p@);
        }
    }
    while i < p.len() && '0' <= p[i] && p[i] <= '9'
        invariant
            i <= p@.len(),
            digit_prefix(p@) == p@.subrange(0, i as int) + digit_prefix(p@.subrange(i as int, p@.len() as int)),
            forall|k: int| 0 <= k < i ==> is_digit(p@[k]),
            !overflow ==> value == digits_value(p@.subrange(0, i as int)),
            overflow ==> digits_value(p@.subrange(0, i as int)) > u64::MAX,
        decreases p@.len() - i,
    {
        let d = ((p[i] as u32) - ('0' as u32)) as u64;
        let ghost pre = p@.subrange(0, i as int);
        let ghost next = p@.subrange(0, i + 1);
        proof {
            assert(next.drop_last() =~= pre);
            assert(next.last() == p@[i as int]);
            let rest = p@.subrange(i as int, p@.len() as int);
            assert(rest[0] == p@[i as int]);
            assert(rest.subrange(1, rest.len() as int) =~= p@.subrange(i + 1, p@.len() as int));
            assert(digit_prefix(rest) == seq![p@[i as int]] + digit_prefix(p@.subrange(i + 1, p@.len() as int)));
            assert(pre + (seq![p@[i as int]] + digit_prefix(p@.subrange(i + 1, p@.len() as int))) =~= next + digit_prefix(p@.subrange(i + 1, p@.len() as int)));
        }
        if !overflow {
            if value > (u64::MAX - d) / 10 {
                overflow = true;
                proof {
                    assert(digits_value(next) == value * 10 + d);
                    assert(value * 10 + d > u64::MAX) by (nonlinear_arith)
                        requires
                            value > (u64::MAX - d) / 10,
                            d <= 9;
                }
            } else {
                proof {
                    assert(value * 10 + d <= u64::MAX) by (nonlinear_arith)
                        requires
                            value <= (u64::MAX - d) / 10,
                            d <= 9;
                }
                value = value * 10 + d;
            }
        } else {
            proof {
                assert(digits_value(next) >= digits_value(pre) * 10);
                assert(digits_value(pre) * 10 >= digits_value(pre)) by (nonlinear_arith)
                    requires
                        digits_value(pre) >= 0;
            }
        }
        i = i + 1;
    }
    proof {
        let rest = p@.subrange(i as int, p@.len() as int);
        assert(digit_prefix(rest) =~= Seq::<char>::empty());
        assert(digit_prefix(p@) =~= p@.subrange(0, i as int));
    }
    if overflow || i == 0 {
        0
    } else {
        value
    }
}

/// The pieces of `s` between dots.
fn split_at_dots(s: &Vec<char>) -> (r: Vec<Vec<char>>)
    ensures
        vecs_view(r@) == split_dots(s@),
{
    let mut out: Vec<Vec<char>> = Vec::new();
    let mut cur: Vec<char> = Vec::new();
    let mut i: usize = 0;
    proof {
        assert(s@.subrange(0, 0) =~= Seq::<char>::empty());
        assert(vecs_view(out@).push(cur@) =~= split_dots(Seq::<char>::empty()));
    }
    while i < s.len()
        invariant
            i <= s@.len(),
            vecs_view(out@).push(cur@) == split_dots(s@.subrange(0, i as int)),
        decreases s@.len() - i,
    {
        let ghost pre = s@.subrange(0, i as int);
        let ghost next = s@.subrange(0, i + 1);
        let ghost before = vecs_view(out@);
        proof {
            assert(next.drop_last() =~= pre);
            assert(next.last() == s@[i as int]);
        }
        if s[i] == '.' {
            let ghost cv = cur@;
            out.push(cur);
            cur = Vec::new();
            proof {
                assert(vecs_view(out@) =~= before.push(cv));
                assert(vecs_view(out@).push(cur@) =~= split_dots(next));
            }
        } else {
            let ghost cv = cur@;
            cur.push(s[i]);
            proof {
                let sp = split_dots(pre);
                assert(sp =~= before.push(cv));
                assert(vecs_view(out@).push(cur@) =~= sp.update(sp.len() - 1, sp.last().push(s@[i as int])));
            }
        }
        i = i + 1;
    }
    proof {
        assert(s@.subrange(0, s@.len() as int) =~= s@);
    }
    let ghost before = vecs_view(out@);
    let ghost cv = cur@;
    out.push(cur);
    proof {
        assert(vecs_view(out@) =~= before.push(cv));
    }
    out
}

/// The numbers of a version string.
fn version_numbers(version: &str) -> (r: Vec<u64>)
    ensures
        r@.map_values(|x: u64| x as nat) == version_numbers_spec(version@),
{
    let v = chars_of(version);
    let t = trim_text(&v);
    let mut a: usize = 0;
    proof {
        assert(t@.subrange(0, t@.len() as int) =~= t@);
    }
    while a < t.len() && t[a] == 'v'
        invariant
            a <= t@.len(),
            strip_vs(t@) == strip_vs(t@.subrange(a as int, t@.len() as int)),
        decreases t@.len() - a,
    {
        proof {
            let sub = t@.subrange(a as int, t@.len() as int);
            assert(sub.subrange(1, sub.len() as int) =~= t@.subrange(a + 1, t@.len() as int));
        }
        a = a + 1;
    }
    proof {
        assert(t@.subrange(0, t@.len() as int) =~= t@);
    }
    let stripped = copy_chars(&t, a, t.len());
    proof {
        let sub = stripped@;
        assert(!(sub.len() > 0 && sub[0] == 'v'));
        assert(strip_vs(sub) == sub);
    }
    let main = match find_first(&stripped, '-') {
        Some(k) => copy_chars(&stripped, 0, k),
        None => copy_chars(&stripped, 0, stripped.len()),
    };
    proof {
        assert(stripped@.subrange(0, stripped@.len() as int) =~= stripped@);
        assert(main@ == before_dash(strip_vs(trim(version@))));
    }
    let parts = split_at_dots(&main);
    let mut out: Vec<u64> = Vec::new();
    let mut i: usize = 0;
    while i < parts.len()
        invariant
            i <= parts@.len(),
            out@.map_values(|x: u64| x as nat) == vecs_view(parts@).subrange(0, i as int).map_values(|p: Seq<char>| part_value(p)),
        decreases parts@.len() - i,
    {
        let n = part_number(&parts[i]);
        let ghost before = out@.map_values(|x: u64| x as nat);
        out.push(n);
        proof {
            assert(out@.map_values(|x: u64| x as nat) =~= before.push(n as nat));
            assert(vecs_view(parts@).subrange(0, i + 1).map_values(|p: Seq<char>| part_value(p)) =~= vecs_view(parts@).subrange(0, i as int).map_values(|p: Seq<char>| part_value(p)).push(part_value(parts@[i as int]@)));
            assert(vecs_view(parts@)[i as int] == parts@[i as int]@);
            assert(out@.map_values(|x: u64| x as nat) =~= vecs_view(parts@).subrange(0, i + 1).map_values(|p: Seq<char>| part_value(p)));
        }
        i = i + 1;
    }
    proof {
        assert(vecs_view(parts@).subrange(0, parts@.len() as int) =~= vecs_view(parts@));
    }
    out
}

/// How version `left` compares with version `right`: -1, 0 or 1.
fn compare_versions(left: &str, right: &str) -> (r: i8)
    ensures
        r == version_order(left@, right@),
{
    let a = version_numbers(left);
    let b = version_numbers(right);
    let ghost av = a@.map_values(|x: u64| x as nat);
    let ghost bv = b@.map_values(|x: u64| x as nat);
    let len = if a.len() > b.len() { a.len() } else { b.len() };
    let mut i: usize = 0;
    while i < len
        invariant
            i <= len,
            len == if a@.len() > b@.len() { a@.len() } else { b@.len() },
            av == a@.map_values(|x: u64| x as nat),
            bv == b@.map_values(|x: u64| x as nat),
            version_order(left@, right@) == compare_from(av, bv, i as nat),
        decreases len - i,
    {
        let x = if i < a.len() { a[i] } else { 0 };
        let y = if i < b.len() { b[i] } else { 0 };
        proof {
            assert(nth(av, i as int) == x);
            assert(nth(bv, i as int) == y);
        }
        if x < y {
            return -1;
        }
        if x > y {
            return 1;
        }
        i = i + 1;
    }
    0
}

/// Whether release version `latest` is newer than version `current`.
pub fn is_newer_version(latest: &str, current: &str) -> (r: bool)
    ensures
        r == (version_order(latest@, current@) == 1),
{
    compare_versions(latest, current) == 1
}

/// The update check's answer for a fetched release and the running version.
pub fn update_check_for(latest: ReleaseInfo, current_version: &str) -> (r: UpdateCheck)
    ensures
        r.latest == latest,
        r.update_available == (version_order(latest.version@, current_version@) == 1),
{
    let update_available = is_newer_version(latest.version.as_str(), current_version);
    UpdateCheck { latest, update_available }
}

proof fn lemma_compare_flip(a: Seq<nat>, b: Seq<nat>, i: nat)
    ensures
        compare_from(a, b, i) == -compare_from(b, a, i),
    decreases (if a.len() > b.len() { a.len() } else { b.len() }) - i,
{
    if !(i >= a.len() && i >= b.len()) && nth(a, i as int) == nth(b, i as int) {
        lemma_compare_flip(a, b, i + 1);
    }
}

proof fn lemma_compare_self(a: Seq<nat>, i: nat)
    ensures
        compare_from(a, a, i) == 0,
    decreases a.len() - i,
{
    if i < a.len() {
        lemma_compare_self(a, i + 1);
    }
}

proof fn lemma_compare_range(a: Seq<nat>, b: Seq<nat>, i: nat)
    ensures
        -1 <= compare_from(a, b, i) <= 1,
    decreases (if a.len() > b.len() { a.len() } else { b.len() }) - i,
{
    if !(i >= a.len() && i >= b.len()) && nth(a, i as int) == nth(b, i as int) {
        lemma_compare_range(a, b, i + 1);
    }
}

proof fn lemma_compare_trans(a: Seq<nat>, b: Seq<nat>, c: Seq<nat>, i: nat)
    requires
        compare_from(a, b, i) == 1,
        compare_from(b, c, i) == 1,
    ensures
        compare_from(a, c, i) == 1,
    decreases (if a.len() > b.len() { if a.len() > c.len() { a.len() } else { c.len() } } else { if b.len() > c.len() { b.len() } else { c.len() } }) - i,
{
    if nth(a, i as int) == nth(b, i as int) && nth(b, i as int) == nth(c, i as int) {
        lemma_compare_trans(a, b, c, i + 1);
    }
}

/// No version is newer than itself, and of two versions at most one is newer than the
/// other.
pub proof fn lemma_newer_is_strict(a: Seq<char>, b: Seq<char>)
    ensures
        version_order(a, a) != 1,
        version_order(a, b) == 1 ==> version_order(b, a) != 1,
        version_order(a, b) == -version_order(b, a),
{
    lemma_compare_self(version_numbers_spec(a), 0);
    lemma_compare_flip(version_numbers_spec(a), version_numbers_spec(b), 0);
}

/// A version newer than one that is newer than a third is newer than the third.
pub proof fn lemma_newer_is_transitive(a: Seq<char>, b: Seq<char>, c: Seq<char>)
    requires
        version_order(a, b) == 1,
        version_order(b, c) == 1,
    ensures
        version_order(a, c) == 1,
{
    lemma_compare_trans(version_numbers_spec(a), version_numbers_spec(b), version_numbers_spec(c), 0);
}


proof fn lemma_compare_at_first_difference(a: Seq<nat>, b: Seq<nat>, i: nat, k: nat)
    requires
        i <= k,
        forall|j: int| i <= j < k ==> nth(a, j) == nth(b, j),
        nth(a, k as int) > nth(b, k as int),
    ensures
        compare_from(a, b, i) == 1,
    decreases k - i,
{
    if i < k {
        assert(nth(a, i as int) == nth(b, i as int));
        assert(!(i >= a.len() && i >= b.len())) by {
            if i >= a.len() && i >= b.len() {
                assert(k >= a.len());
            }
        }
        lemma_compare_at_first_difference(a, b, i + 1, k);
    } else {
        assert(k < a.len());
    }
}

proof fn lemma_compare_equal(a: Seq<nat>, b: Seq<nat>, i: nat)
    requires
        forall|j: int| i <= j ==> nth(a, j) == nth(b, j),
    ensures
        compare_from(a, b, i) == 0,
    decreases (if a.len() > b.len() { a.len() } else { b.len() }) - i,
{
    if !(i >= a.len() && i >= b.len()) {
        assert(nth(a, i as int) == nth(b, i as int));
        lemma_compare_equal(a, b, i + 1);
    }
}

/// Versions are ordered by their numbers, first number first, a missing number
/// counting as 0: where two versions agree on every number before index `k` and differ
/// at `k`, the one with the larger number at `k` is the newer, whatever follows.
pub proof fn lemma_newer_at_first_different_number(latest: Seq<char>, current: Seq<char>, k: nat)
    requires
        forall|j: int| 0 <= j < k ==> nth(version_numbers_spec(latest), j) == nth(version_numbers_spec(current), j),
        nth(version_numbers_spec(latest), k as int) > nth(version_numbers_spec(current), k as int),
    ensures
        version_order(latest, current) == 1,
        version_order(current, latest) == -1,
{
    lemma_compare_at_first_difference(version_numbers_spec(latest), version_numbers_spec(current), 0, k);
    lemma_compare_flip(version_numbers_spec(latest), version_numbers_spec(current), 0);
}

/// Versions whose numbers all agree (a missing number counting as 0) are equally new.
pub proof fn lemma_same_numbers_same_version(a: Seq<char>, b: Seq<char>)
    requires
        forall|j: int| 0 <= j ==> nth(version_numbers_spec(a), j) == nth(version_numbers_spec(b), j),
    ensures
        version_order(a, b) == 0,
{
    lemma_compare_equal(version_numbers_spec(a), version_numbers_spec(b), 0);
}

// ---------------------------------------------------------------------------------
// The release description

/// The fields the release fetch prints, one `key=value` per line.
#[derive(Debug, Clone, PartialEq, Eq)]
pub struct ReleaseFields {
    pub tag: String,
    pub html_url: String,
    pub asset_url: String,
    pub notes_b64: String,
}

/// The value of the last line `key=value` whose trimmed key is `key`, trimmed; empty
/// when there is none.
pub open spec fn field_value(lines: Seq<Seq<char>>, key: Seq<char>) -> Seq<char>
    decreases lines.len(),
{
    if lines.len() == 0 {
        Seq::empty()
    } else {
        let l = lines.last();
        let i = find_char(l, '=');
        if i >= 0 && trim(l.subrange(0, i)) == key {
            trim(l.subrange(i + 1, l.len() as int))
        } else {
            field_value(lines.drop_last(), key)
        }
    }
}

proof fn lemma_field_step(prefix: Seq<Seq<char>>, l: Seq<char>, key: Seq<char>)
    ensures
        field_value(prefix.push(l), key) == if find_char(l, '=') >= 0 && trim(l.subrange(0, find_char(l, '='))) == key {
            trim(l.subrange(find_char(l, '=') + 1, l.len() as int))
        } else {
            field_value(prefix, key)
        },
{
    assert(prefix.push(l).drop_last() =~= prefix);
}

/// What the fetch's output says, or the error for a release without tag or asset.
pub open spec fn release_fields_spec(output: Seq<char>) -> Result<(Seq<char>, Seq<char>, Seq<char>, Seq<char>), Seq<char>> {
    let ls = str_lines(output);
    let tag = field_value(ls, "tag"@);
    let asset = field_value(ls, "asset_url"@);
    if tag.len() == 0 || asset.len() == 0 {
        Err("エラー: GitHub Release の情報が不足しています"@)
    } else {
        Ok((tag, field_value(ls, "html_url"@), asset, field_value(ls, "notes_b64"@)))
    }
}

/// Reads the fields of the fetch's output.
pub fn read_release_fields(output: &str) -> (r: Result<ReleaseFields, String>)
    ensures
        match release_fields_spec(output@) {
            Ok((t, h, a, n)) => r matches Ok(f) && f.tag@ == t && f.html_url@ == h && f.asset_url@ == a && f.notes_b64@ == n,
            Err(m) => r matches Err(e) && e@ == m,
        },
{
    let v = chars_of(output);
    let lines = lines_of(&v);
    let ghost ls = vecs_view(lines@);
    let mut tag: Vec<char> = Vec::new();
    let mut html_url: Vec<char> = Vec::new();
    let mut asset_url: Vec<char> = Vec::new();
    let mut notes_b64: Vec<char> = Vec::new();
    let mut k: usize = 0;
    while k < lines.len()
        invariant
            k <= lines@.len(),
            ls == vecs_view(lines@),
            tag@ == field_value(ls.subrange(0, k as int), "tag"@),
            html_url@ == field_value(ls.subrange(0, k as int), "html_url"@),
            asset_url@ == field_value(ls.subrange(0, k as int), "asset_url"@),
            notes_b64@ == field_value(ls.subrange(0, k as int), "notes_b64"@),
        decreases lines@.len() - k,
    {
        let line = &lines[k];
        proof {
            assert(ls.subrange(0, k + 1) =~= ls.subrange(0, k as int).push(line@));
            reveal_strlit("tag");
            reveal_strlit("html_url");
            reveal_strlit("asset_url");
            reveal_strlit("notes_b64");
        }
        match find_first(line, '=') {
            Some(i) => {
                assert(i < line.len());
                let key_raw = copy_chars(line, 0, i);
                let key = trim_text(&key_raw);
                let value_raw = copy_chars(line, i + 1, line.len());
                let value = trim_text(&value_raw);
                let ks = string_of(key.as_slice());
                proof {
                    let prefix = ls.subrange(0, k as int);
                    assert(ks@ == trim(line@.subrange(0, i as int)));
                    assert(value@ == trim(line@.subrange(i + 1, line@.len() as int)));
                    lemma_field_step(prefix, line@, "tag"@);
                    lemma_field_step(prefix, line@, "html_url"@);
                    lemma_field_step(prefix, line@, "asset_url"@);
                    lemma_field_step(prefix, line@, "notes_b64"@);
                    assert("tag"@.len() == 3 && "html_url"@.len() == 8 && "asset_url"@.len() == 9 && "notes_b64"@.len() == 9);
                    assert("asset_url"@[0] == 'a' && "notes_b64"@[0] == 'n');
                    assert("tag"@ != "html_url"@ && "tag"@ != "asset_url"@ && "tag"@ != "notes_b64"@);
                    assert("html_url"@ != "asset_url"@ && "html_url"@ != "notes_b64"@);
                    assert("asset_url"@ != "notes_b64"@);
                }
                if str_eq(ks.as_str(), "tag") {
                    tag = value;
                } else if str_eq(ks.as_str(), "html_url") {
                    html_url = value;
                } else if str_eq(ks.as_str(), "asset_url") {
                    asset_url = value;
                } else if str_eq(ks.as_str(), "notes_b64") {
                    notes_b64 = value;
                }
            },
            None => {
                proof {
                    let prefix = ls.subrange(0, k as int);
                    lemma_field_step(prefix, line@, "tag"@);
                    lemma_field_step(prefix, line@, "html_url"@);
                    lemma_field_step(prefix, line@, "asset_url"@);
                    lemma_field_step(prefix, line@, "notes_b64"@);
                }
            },
        }
        k = k + 1;
    }
    proof {
        assert(ls.subrange(0, lines@.len() as int) =~= ls);
    }
    if tag.len() == 0 || asset_url.len() == 0 {
        return Err(String::from_str("エラー: GitHub Release の情報が不足しています"));
    }
    Ok(ReleaseFields {
        tag: string_of(tag.as_slice()),
        html_url: string_of(html_url.as_slice()),
        asset_url: string_of(asset_url.as_slice()),
        notes_b64: string_of(notes_b64.as_slice()),
    })
}

/// ASCII white space, as `char::is_ascii_whitespace` has it.
pub open spec fn ascii_space(c: char) -> bool {
    c == ' ' || c == '\t' || c == '\n' || c == '\x0C' || c == '\r'
}

/// The value of a Base64 digit.
pub open spec fn base64_digit(c: char) -> Option<nat> {
    if 'A' <= c && c <= 'Z' {
        Some(((c as int) - ('A' as int)) as nat)
    } else if 'a' <= c && c <= 'z' {
        Some(((c as int) - ('a' as int) + 26) as nat)
    } else if '0' <= c && c <= '9' {
        Some(((c as int) - ('0' as int) + 52) as nat)
    } else if c == '+' {
        Some(62)
    } else if c == '/' {
        Some(63)
    } else {
        None
    }
}

/// Two to the `k`.
pub open spec fn two_to(k: nat) -> nat
    decreases k,
{
    if k == 0 {
        1
    } else {
        2 * two_to((k - 1) as nat)
    }
}

/// Base64 decoding from index `i`, with `bits` bits worth `buf` still to go out;
/// white space is skipped, `=` ends the input, any other non-digit fails.
pub open spec fn base64_from(s: Seq<char>, i: int, buf: nat, bits: nat, out: Seq<u8>) -> Option<Seq<u8>>
    decreases s.len() - i,
{
    if i < 0 || i >= s.len() {
        Some(out)
    } else if ascii_space(s[i]) {
        base64_from(s, i + 1, buf, bits, out)
    } else if s[i] == '=' {
        Some(out)
    } else {
        match base64_digit(s[i]) {
            None => None,
            Some(v) => {
                let b = buf * 64 + v;
                if bits + 6 >= 8 {
                    let k = (bits + 6 - 8) as nat;
                    base64_from(s, i + 1, b % two_to(k), k, out.push((b / two_to(k)) as u8))
                } else {
                    base64_from(s, i + 1, b, bits + 6, out)
                }
            },
        }
    }
}

/// The value of a Base64 digit.
fn base64_value(ch: char) -> (r: Option<u8>)
    ensures
        match base64_digit(ch) {
            Some(v) => r == Some(v as u8) && v < 64,
            None => r is None,
        },
{
    if 'A' <= ch && ch <= 'Z' {
        Some((ch as u8) - ('A' as u8))
    } else if 'a' <= ch && ch <= 'z' {
        Some((ch as u8) - ('a' as u8) + 26)
    } else if '0' <= ch && ch <= '9' {
        Some((ch as u8) - ('0' as u8) + 52)
    } else if ch == '+' {
        Some(62)
    } else if ch == '/' {
        Some(63)
    } else {
        None
    }
}

/// Two to the `k`, for `k` below 8.
fn pow2_small(k: u32) -> (r: u32)
    requires
        k < 8,
    ensures
        r == two_to(k as nat),
        1 <= r <= 128,
{
    proof {
        reveal_with_fuel(two_to, 8);
    }
    if k == 0 {
        1
    } else if k == 1 {
        2
    } else if k == 2 {
        4
    } else if k == 3 {
        8
    } else if k == 4 {
        16
    } else if k == 5 {
        32
    } else if k == 6 {
        64
    } else {
        128
    }
}

/// The bytes a Base64 text stands for.
pub fn decode_base64(value: &str) -> (r: Result<Vec<u8>, String>)
    ensures
        match base64_from(value@, 0, 0, 0, Seq::empty()) {
            Some(b) => r matches Ok(v) && v@ == b,
            None => r matches Err(e) && e@ == "エラー: リリースノートのBase64を読めません"@,
        },
{
    let s = chars_of(value);
    let mut output: Vec<u8> = Vec::new();
    let mut buffer: u32 = 0;
    let mut bits: u32 = 0;
    let mut i: usize = 0;
    while i < s.len()
        invariant
            i <= s@.len(),
            s@ == value@,
            bits < 8,
            buffer < two_to(bits as nat),
            base64_from(value@, 0, 0, 0, Seq::empty()) == base64_from(s@, i as int, buffer as nat, bits as nat, output@),
        decreases s@.len() - i,
    {
        let ch = s[i];
        if ch == ' ' || ch == '\t' || ch == '\n' || ch == '\x0C' || ch == '\r' {
            i = i + 1;
            continue;
        }
        if ch == '=' {
            return Ok(output);
        }
        let v = match base64_value(ch) {
            Some(v) => v,
            None => {
                return Err(String::from_str("エラー: リリースノートのBase64を読めません"));
            },
        };
        proof {
            lemma_two_to_bounds(bits as nat);
        }
        let b = buffer * 64 + (v as u32);
        if bits + 6 >= 8 {
            let k = bits + 6 - 8;
            let p = pow2_small(k);
            let byte = b / p;
            proof {
                lemma_two_to_shift(k as nat);
                assert(b < p * 256);
                assert(byte < 256) by (nonlinear_arith)
                    requires
                        b < p * 256,
                        byte == b / p,
                        p >= 1;
            }
            output.push(byte as u8);
            buffer = b % p;
            bits = k;
        } else {
            buffer = b;
            bits = bits + 6;
            proof {
                lemma_two_to_shift((bits - 6) as nat);
            }
        }
        i = i + 1;
    }
    Ok(output)
}

proof fn lemma_two_to_bounds(k: nat)
    requires
        k < 8,
    ensures
        1 <= two_to(k) <= 128,
{
    reveal_with_fuel(two_to, 8);
}

proof fn lemma_two_to_shift(k: nat)
    ensures
        two_to(k + 2) == 4 * two_to(k),
        two_to(k + 6) == 64 * two_to(k),
{
    reveal_with_fuel(two_to, 7);
}


/// The message of the error `String::from_utf8` gives for bytes that are not UTF-8.
pub uninterp spec fn utf8_error_text(bytes: Seq<u8>) -> Seq<char>;

/// What reading `bytes` as UTF-8 gives: the characters they encode, or the error's
/// message.
pub open spec fn utf8_decoded(bytes: Seq<u8>) -> Result<Seq<char>, Seq<char>> {
    if valid_utf8(bytes) {
        Ok(decode_utf8(bytes))
    } else {
        Err(utf8_error_text(bytes))
    }
}

/// The bytes read as UTF-8 (std `String::from_utf8`; its error is turned into its
/// message with `to_string`). The contract claims that valid UTF-8 is decoded into the
/// characters it encodes, that anything else is an error, and that the error's message
/// is a function of the bytes, named `utf8_error_text`; the wording of that message is
/// left unsaid.
#[verifier::external_body]
fn string_from_utf8(bytes: Vec<u8>) -> (r: Result<String, String>)
    ensures
        match r {
            Ok(s) => valid_utf8(bytes@) && s@ == decode_utf8(bytes@),
            Err(e) => !valid_utf8(bytes@) && e@ == utf8_error_text(bytes@),
        },
{
    String::from_utf8(bytes).map_err(|err| err.to_string())
}

/// The release built from its fields and its decoded notes: the version is the tag
/// without leading `v`s.
pub open spec fn release_spec(tag: Seq<char>, html: Seq<char>, asset: Seq<char>, notes: Result<Seq<char>, Seq<char>>)
    -> Result<(Seq<char>, Seq<char>, Seq<char>, Seq<char>, Seq<char>), Seq<char>> {
    match notes {
        Ok(n) => Ok((tag, strip_vs(tag), n, html, asset)),
        Err(e) => Err("エラー: リリースノートをUTF-8として読めません: "@ + e),
    }
}

/// The release for `fields` once its notes were read as UTF-8 (`notes`).
pub fn release_info_from(fields: ReleaseFields, notes: Result<String, String>) -> (r: Result<ReleaseInfo, String>)
    ensures
        match release_spec(fields.tag@, fields.html_url@, fields.asset_url@, match notes {
            Ok(n) => Ok::<Seq<char>, Seq<char>>(n@),
            Err(e) => Err::<Seq<char>, Seq<char>>(e@),
        }) {
            Ok((t, v, n, h, a)) => r matches Ok(ri) && ri.tag@ == t && ri.version@ == v && ri.notes@ == n && ri.html_url@ == h
                && ri.asset_url@ == a,
            Err(m) => r matches Err(e) && e@ == m,
        },
{
    match notes {
        Err(e) => {
            let mut m: Vec<char> = Vec::new();
            push_str(&mut m, "エラー: リリースノートをUTF-8として読めません: ");
            push_str(&mut m, e.as_str());
            Err(string_of(m.as_slice()))
        },
        Ok(n) => {
            let t = chars_of(fields.tag.as_str());
            let mut a: usize = 0;
            proof {
                assert(t@.subrange(0, t@.len() as int) =~= t@);
            }
            while a < t.len() && t[a] == 'v'
                invariant
                    a <= t@.len(),
                    strip_vs(t@) == strip_vs(t@.subrange(a as int, t@.len() as int)),
                decreases t@.len() - a,
            {
                proof {
                    let sub = t@.subrange(a as int, t@.len() as int);
                    assert(sub.subrange(1, sub.len() as int) =~= t@.subrange(a + 1, t@.len() as int));
                }
                a = a + 1;
            }
            let version = copy_chars(&t, a, t.len());
            proof {
                assert(strip_vs(version@) == version@);
            }
            Ok(ReleaseInfo {
                tag: fields.tag,
                version: string_of(version.as_slice()),
                notes: n,
                html_url: fields.html_url,
                asset_url: fields.asset_url,
            })
        },
    }
}

/// The release described by the fetch's output.
pub fn parse_release_output(output: &str) -> (r: Result<ReleaseInfo, String>)
    ensures
        match release_fields_spec(output@) {
            Err(m) => r matches Err(e) && e@ == m,
            Ok((t, h, a, b)) => match base64_from(b, 0, 0, 0, Seq::empty()) {
                None => r matches Err(e) && e@ == "エラー: リリースノートのBase64を読めません"@,
                Some(bytes) => match release_spec(t, h, a, utf8_decoded(bytes)) {
                    Ok((t2, v, n, h2, a2)) => r matches Ok(ri) && ri.tag@ == t2 && ri.version@ == v && ri.notes@ == n
                        && ri.html_url@ == h2 && ri.asset_url@ == a2,
                    Err(m) => r matches Err(e) && e@ == m,
                },
            },
        },
{
    let fields = read_release_fields(output)?;
    let bytes = decode_base64(fields.notes_b64.as_str())?;
    let notes = string_from_utf8(bytes);
    release_info_from(fields, notes)
}

// ---------------------------------------------------------------------------------
// Launching the update script

/// How `CommandLineToArgvW` wants one argument: quoted, with the backslashes before a
/// quote or the closing quote doubled. The pair is the text so far and the number of
/// backslashes not yet written.
pub open spec fn quote_state(s: Seq<char>) -> (Seq<char>, nat)
    decreases s.len(),
{
    if s.len() == 0 {
        (Seq::empty(), 0)
    } else {
        let (o, b) = quote_state(s.drop_last());
        let c = s.last();
        if c == '\\' {
            (o, b + 1)
        } else if c == '"' {
            (o + repeat(seq!['\\'], 2 * b + 1) + seq!['"'], 0)
        } else {
            (o + repeat(seq!['\\'], b) + seq![c], 0)
        }
    }
}

/// One argument quoted for a Windows command line.
pub open spec fn quote_arg(s: Seq<char>) -> Seq<char> {
    let (o, b) = quote_state(s);
    seq!['"'] + o + repeat(seq!['\\'], 2 * b) + seq!['"']
}

/// Reading the inside of a quoted argument the way `CommandLineToArgvW` does, one
/// character at a time: the backslashes waiting for what follows them, the text read so
/// far, and whether the argument is still open. A run of backslashes before a quote is
/// halved; an odd run makes the quote literal, an even one closes the argument.
pub open spec fn read_quoted(t: Seq<char>) -> (nat, Seq<char>, bool)
    decreases t.len(),
{
    if t.len() == 0 {
        (0, Seq::empty(), true)
    } else {
        let (pending, text, open) = read_quoted(t.drop_last());
        let c = t.last();
        if !open {
            (pending, text, false)
        } else if c == '\\' {
            ((pending + 1) as nat, text, true)
        } else if c == '"' {
            if pending % 2 == 1 {
                (0, text + repeat(seq!['\\'], ((pending - 1) / 2) as nat) + seq!['"'], true)
            } else {
                (pending, text, false)
            }
        } else {
            (0, text + repeat(seq!['\\'], pending) + seq![c], true)
        }
    }
}

/// The argument a quoted command-line word stands for: the text between its quotes,
/// read as above, when the inside never closes it early and its closing quote follows
/// an even run of backslashes.
pub open spec fn unquote_arg(q: Seq<char>) -> Option<Seq<char>> {
    if q.len() >= 2 && q[0] == '"' && q.last() == '"' {
        let (pending, text, open) = read_quoted(q.subrange(1, q.len() - 1));
        if open && pending % 2 == 0 {
            Some(text + repeat(seq!['\\'], pending / 2))
        } else {
            None
        }
    } else {
        None
    }
}

proof fn lemma_read_backslashes(t: Seq<char>, n: nat)
    requires
        read_quoted(t).2,
    ensures
        read_quoted(t + repeat(seq!['\\'], n)) == ((read_quoted(t).0 + n) as nat, read_quoted(t).1, true),
    decreases n,
{
    if n == 0 {
        assert(t + repeat(seq!['\\'], 0) =~= t);
    } else {
        lemma_read_backslashes(t, (n - 1) as nat);
        let u = t + repeat(seq!['\\'], n);
        assert(u.drop_last() =~= t + repeat(seq!['\\'], (n - 1) as nat));
        assert(u.last() == '\\');
    }
}

/// The step of `lemma_read_quote_state` for a last character that is not a backslash.
#[verifier::spinoff_prover]
proof fn lemma_read_quote_step(front: Seq<char>, c: char)
    requires
        c != '\\',
        read_quoted(quote_state(front).0) == (0nat, front.subrange(0, front.len() - quote_state(front).1), true),
        quote_state(front).1 <= front.len(),
        front.subrange(front.len() - quote_state(front).1, front.len() as int) == repeat(seq!['\\'], quote_state(front).1),
    ensures
        read_quoted(quote_state(front.push(c)).0) == (0nat, front.push(c), true),
        quote_state(front.push(c)).1 == 0,
{
    let s = front.push(c);
    assert(s.drop_last() =~= front);
    let (o, b) = quote_state(front);
    let kept = front.subrange(0, front.len() - b);
    assert(front =~= kept + repeat(seq!['\\'], b));
    if c == '"' {
        let run = o + repeat(seq!['\\'], 2 * b + 1);
        lemma_read_backslashes(o, 2 * b + 1);
        let o2 = run + seq!['"'];
        assert(o2.drop_last() =~= run);
        assert((((2 * b + 1) - 1) / 2) as nat == b);
        assert(read_quoted(o2).1 =~= kept + repeat(seq!['\\'], b) + seq!['"']);
    } else {
        let run = o + repeat(seq!['\\'], b);
        lemma_read_backslashes(o, b);
        let o2 = run + seq![c];
        assert(o2.drop_last() =~= run);
        assert(read_quoted(o2).1 =~= kept + repeat(seq!['\\'], b) + seq![c]);
    }
}

/// How the quoted text of `s` is read back: nothing waits, the text is `s` without its
/// trailing backslashes, and those are the ones still to be written.
proof fn lemma_read_quote_state(s: Seq<char>)
    ensures
        read_quoted(quote_state(s).0) == (0nat, s.subrange(0, s.len() - quote_state(s).1), true),
        quote_state(s).1 <= s.len(),
        s.subrange(s.len() - quote_state(s).1, s.len() as int) == repeat(seq!['\\'], quote_state(s).1),
    decreases s.len(),
{
    if s.len() == 0 {
        assert(s.subrange(0, 0) =~= Seq::<char>::empty());
    } else {
        let front = s.drop_last();
        lemma_read_quote_state(front);
        let c = s.last();
        assert(s =~= front.push(c));
        if c == '\\' {
            let b = quote_state(front).1;
            let kept = front.subrange(0, front.len() - b);
            assert(s.subrange(0, s.len() - (b + 1)) =~= kept);
            assert(s.subrange(s.len() - (b + 1), s.len() as int) =~= repeat(seq!['\\'], b) + seq!['\\']);
        } else {
            lemma_read_quote_step(front, c);
            assert(s.subrange(0, s.len() as int) =~= s);
            assert(s.subrange(s.len() - 0, s.len() as int) =~= repeat(seq!['\\'], 0));
        }
    }
}

/// A Windows command line reads a quoted argument back as the text it was made from.
pub proof fn lemma_quote_arg_round_trip(s: Seq<char>)
    ensures
        unquote_arg(quote_arg(s)) == Some(s),
{
    lemma_read_quote_state(s);
    let (o, b) = quote_state(s);
    let body = o + repeat(seq!['\\'], 2 * b);
    let q = quote_arg(s);
    assert(q =~= seq!['"'] + body + seq!['"']);
    assert(q.subrange(1, q.len() - 1) =~= body);
    lemma_read_backslashes(o, 2 * b);
    assert((2 * b) as nat / 2 == b);
    assert(s =~= s.subrange(0, s.len() - b) + repeat(seq!['\\'], b));
}

/// Appends `n` backslashes.
fn push_backslashes(out: &mut Vec<char>, n: usize)
    ensures
        final(out)@ == old(out)@ + repeat(seq!['\\'], n as nat),
{
    let ghost start = out@;
    let mut k: usize = 0;
    while k < n
        invariant
            k <= n,
            out@ == start + repeat(seq!['\\'], k as nat),
        decreases n - k,
    {
        out.push('\\');
        k = k + 1;
        proof {
            assert(out@ =~= start + repeat(seq!['\\'], k as nat));
        }
    }
}

/// `value` quoted as one Windows command-line argument.
pub fn quote_windows_arg(value: &str) -> (r: String)
    requires
        value@.len() < usize::MAX / 2,
    ensures
        r@ == quote_arg(value@),
{
    let s = chars_of(value);
    let mut body: Vec<char> = Vec::new();
    let mut backslashes: usize = 0;
    let mut i: usize = 0;
    while i < s.len()
        invariant
            i <= s@.len() < usize::MAX / 2,
            backslashes <= i,
            quote_state(s@.subrange(0, i as int)) == (body@, backslashes as nat),
        decreases s@.len() - i,
    {
        let c = s[i];
        proof {
            assert(s@.subrange(0, i + 1).drop_last() =~= s@.subrange(0, i as int));
        }
        if c == '\\' {
            backslashes = backslashes + 1;
        } else if c == '"' {
            push_backslashes(&mut body, backslashes * 2 + 1);
            body.push('"');
            backslashes = 0;
        } else {
            push_backslashes(&mut body, backslashes);
            body.push(c);
            backslashes = 0;
        }
        i = i + 1;
    }
    proof {
        assert(s@.subrange(0, s@.len() as int) =~= s@);
    }
    let mut out: Vec<char> = Vec::new();
    out.push('"');
    push_chars(&mut out, &body);
    push_backslashes(&mut out, backslashes * 2);
    out.push('"');
    proof {
        assert(out@ =~= quote_arg(value@));
    }
    string_of(out.as_slice())
}

/// The fixed options before the update script's own arguments.
pub open spec fn script_options(script: Seq<char>) -> Seq<Seq<char>> {
    seq!["-NoProfile"@, "-ExecutionPolicy"@, "Bypass"@, "-WindowStyle"@, "Hidden"@, "-File"@, quote_arg(script)]
}

/// The PowerShell parameters that run the update script with `args`.
pub fn powershell_file_parameters(script_path: &str, args: &Vec<String>) -> (r: String)
    requires
        script_path@.len() < usize::MAX / 2,
        forall|k: int| 0 <= k < args@.len() ==> (#[trigger] args@[k])@.len() < usize::MAX / 2,
    ensures
        r@ == join(script_options(script_path@) + strings_view(args@).map_values(|a: Seq<char>| quote_arg(a)), " "@),
{
    let mut parts: Vec<String> = Vec::new();
    parts.push(String::from_str("-NoProfile"));
    parts.push(String::from_str("-ExecutionPolicy"));
    parts.push(String::from_str("Bypass"));
    parts.push(String::from_str("-WindowStyle"));
    parts.push(String::from_str("Hidden"));
    parts.push(String::from_str("-File"));
    parts.push(quote_windows_arg(script_path));
    proof {
        assert(strings_view(parts@) =~= script_options(script_path@));
    }
    let mut i: usize = 0;
    while i < args.len()
        invariant
            i <= args@.len(),
            forall|k: int| 0 <= k < args@.len() ==> (#[trigger] args@[k])@.len() < usize::MAX / 2,
            strings_view(parts@) == script_options(script_path@) + strings_view(args@).subrange(0, i as int).map_values(|a: Seq<char>| quote_arg(a)),
        decreases args@.len() - i,
    {
        let q = quote_windows_arg(args[i].as_str());
        let ghost before = strings_view(parts@);
        parts.push(q);
        proof {
            assert(strings_view(parts@) =~= before.push(quote_arg(args@[i as int]@)));
            assert(strings_view(args@).subrange(0, i + 1).map_values(|a: Seq<char>| quote_arg(a)) =~= strings_view(args@).subrange(0, i as int).map_values(|a: Seq<char>| quote_arg(a)).push(quote_arg(args@[i as int]@)));
        }
        i = i + 1;
    }
    proof {
        assert(strings_view(args@).subrange(0, args@.len() as int) =~= strings_view(args@));
    }
    crate::text::join_strings(&parts, " ")
}


/// The PowerShell script that replaces the running program with the downloaded
/// release once the program has exited, and starts it again.
pub const UPDATE_SCRIPT: &'static str = r#"
param(
    [Parameter(Mandatory = $true)][int]$ProcessId,
    [Parameter(Mandatory = $true)][string]$TargetPath,
    [Parameter(Mandatory = $true)][string]$NewPath,
    [Parameter(Mandatory = $true)][string]$AssetUrl
)

$ErrorActionPreference = 'Stop'
$ProgressPreference = 'SilentlyContinue'
$backupPath = "$TargetPath.old"
$logPath = "$TargetPath.update.log"

try {
    Wait-Process -Id $ProcessId -Timeout 30 -ErrorAction SilentlyContinue
    Start-Sleep -Milliseconds 500

    [Net.ServicePointManager]::SecurityProtocol = [Net.SecurityProtocolType]::Tls12
    if (Test-Path -LiteralPath $NewPath) {
        Remove-Item -LiteralPath $NewPath -Force
    }
    Invoke-WebRequest -Uri $AssetUrl -OutFile $NewPath -UseBasicParsing
    if (!(Test-Path -LiteralPath $NewPath) -or ((Get-Item -LiteralPath $NewPath).Length -le 0)) {
        throw 'Downloaded update file is empty.'
    }

    if (Test-Path -LiteralPath $backupPath) {
        Remove-Item -LiteralPath $backupPath -Force
    }

    Rename-Item -LiteralPath $TargetPath -NewName (Split-Path -Leaf $backupPath)
    Rename-Item -LiteralPath $NewPath -NewName (Split-Path -Leaf $TargetPath)

    Start-Process -FilePath $TargetPath
    Remove-Item -LiteralPath $backupPath -Force -ErrorAction SilentlyContinue
} catch {
    $_ | Out-String | Set-Content -LiteralPath $logPath -Encoding UTF8
    if (!(Test-Path -LiteralPath $TargetPath) -and (Test-Path -LiteralPath $backupPath)) {
        Rename-Item -LiteralPath $backupPath -NewName (Split-Path -Leaf $TargetPath) -Force
    }
    if (Test-Path -LiteralPath $TargetPath) {
        Start-Process -FilePath $TargetPath
    }
} finally {
    Remove-Item -LiteralPath $PSCommandPath -Force -ErrorAction SilentlyContinue
}
"#;

/// The update script's text.
pub fn update_script() -> (r: &'static str)
    ensures
        r@ == UPDATE_SCRIPT@,
{
    UPDATE_SCRIPT
}

} // verus!
