//! Character-level helpers shared by the converters.
use vstd::prelude::*;

verus! {

/// The characters of `s`, in order (std `str::chars`, collected into a `Vec`).
/// A `Vec` never holds more than `isize::MAX` bytes, so fewer than that many characters.
#[verifier::external_body]
pub(crate) fn chars_of(s: &str) -> (v: Vec<char>)
    ensures
        v@ == s@,
        v@.len() < isize::MAX,
{
    s.chars().collect()
}

/// Builds a `String` from its characters (std `FromIterator<char>` for `String`).
#[verifier::external_body]
pub(crate) fn string_of(v: &[char]) -> (s: String)
    ensures
        s@ == v@,
{
    v.iter().collect()
}

/// Appends one character to `s` (std `String::push`).
#[verifier::external_body]
pub(crate) fn push_char(s: &mut String, c: char)
    ensures
        final(s)@ == old(s)@.push(c),
{
    s.push(c)
}

/// Equality of two string slices (std `<str as PartialEq>::eq`).
#[verifier::external_body]
pub(crate) fn str_eq(a: &str, b: &str) -> (r: bool)
    ensures
        r == (a@ == b@),
{
    a == b
}


/// Unicode `White_Space`: the characters std's `char::is_whitespace` accepts.
pub open spec fn is_space(c: char) -> bool {
    ||| ('\u{9}' <= c && c <= '\u{d}')
    ||| c == ' '
    ||| c == '\u{85}'
    ||| c == '\u{a0}'
    ||| c == '\u{1680}'
    ||| ('\u{2000}' <= c && c <= '\u{200a}')
    ||| c == '\u{2028}'
    ||| c == '\u{2029}'
    ||| c == '\u{202f}'
    ||| c == '\u{205f}'
    ||| c == '\u{3000}'
}

/// Whether `c` is a Unicode white-space character.
pub fn is_whitespace(c: char) -> (r: bool)
    ensures
        r == is_space(c),
{
    ('\u{9}' <= c && c <= '\u{d}') || c == ' ' || c == '\u{85}' || c == '\u{a0}' || c
        == '\u{1680}' || ('\u{2000}' <= c && c <= '\u{200a}') || c == '\u{2028}' || c
        == '\u{2029}' || c == '\u{202f}' || c == '\u{205f}' || c == '\u{3000}'
}

/// `s` without leading and trailing white space.
pub open spec fn trim(s: Seq<char>) -> Seq<char>
    decreases s.len(),
{
    if s.len() > 0 && is_space(s[0]) {
        trim(s.subrange(1, s.len() as int))
    } else if s.len() > 0 && is_space(s.last()) {
        trim(s.drop_last())
    } else {
        s
    }
}

/// `s` without leading and trailing white space.
pub fn trim_text(s: &Vec<char>) -> (r: Vec<char>)
    ensures
        r@ == trim(s@),
{
    let mut a: usize = 0;
    proof {
        assert(s@.subrange(0, s@.len() as int) =~= s@);
    }
    while a < s.len() && is_whitespace(s[a])
        invariant
            a <= s@.len(),
            trim(s@) == trim(s@.subrange(a as int, s@.len() as int)),
        decreases s@.len() - a,
    {
        proof {
            let sub = s@.subrange(a as int, s@.len() as int);
            assert(sub.subrange(1, sub.len() as int) =~= s@.subrange(a + 1, s@.len() as int));
        }
        a = a + 1;
    }
    let mut b: usize = s.len();
    proof {
        assert(a == s@.len() || !is_space(s@[a as int]));
    }
    while b > a && is_whitespace(s[b - 1])
        invariant
            a <= b <= s@.len(),
            a == s@.len() || !is_space(s@[a as int]),
            trim(s@) == trim(s@.subrange(a as int, b as int)),
        decreases b,
    {
        proof {
            let sub = s@.subrange(a as int, b as int);
            assert(sub.drop_last() =~= s@.subrange(a as int, b - 1));
        }
        b = b - 1;
    }
    let r = copy_chars(s, a, b);
    r
}

/// `s[from..to]`.
pub fn copy_chars(s: &Vec<char>, from: usize, to: usize) -> (r: Vec<char>)
    requires
        from <= to <= s@.len(),
    ensures
        r@ == s@.subrange(from as int, to as int),
{
    let mut r: Vec<char> = Vec::new();
    let mut i: usize = from;
    while i < to
        invariant
            from <= i <= to <= s@.len(),
            r@ == s@.subrange(from as int, i as int),
        decreases to - i,
    {
        r.push(s[i]);
        i = i + 1;
        proof {
            assert(r@ =~= s@.subrange(from as int, i as int));
        }
    }
    r
}

/// ASCII lower case.
pub open spec fn lower(c: char) -> char {
    if 'A' <= c && c <= 'Z' {
        ((c as u8) + 32) as char
    } else {
        c
    }
}

/// ASCII decimal digit.
pub open spec fn is_digit(c: char) -> bool {
    '0' <= c && c <= '9'
}

/// ASCII letter.
pub open spec fn is_alpha(c: char) -> bool {
    ('a' <= c && c <= 'z') || ('A' <= c && c <= 'Z')
}

/// ASCII letter or digit.
pub open spec fn is_alnum(c: char) -> bool {
    is_alpha(c) || is_digit(c)
}


/// Appends the characters of `s` to `out`.
pub fn push_str(out: &mut Vec<char>, s: &str)
    ensures
        final(out)@ == old(out)@ + s@,
{
    let cs = chars_of(s);
    push_chars(out, &cs);
}

/// Appends `cs` to `out`.
pub fn push_chars(out: &mut Vec<char>, cs: &Vec<char>)
    ensures
        final(out)@ == old(out)@ + cs@,
{
    let ghost start = out@;
    let mut i: usize = 0;
    while i < cs.len()
        invariant
            i <= cs.len(),
            out@ == start + cs@.subrange(0, i as int),
        decreases cs.len() - i,
    {
        out.push(cs[i]);
        i = i + 1;
        proof {
            assert(out@ =~= start + cs@.subrange(0, i as int));
        }
    }
    proof {
        assert(cs@.subrange(0, cs.len() as int) =~= cs@);
    }
}

/// `n` copies of `unit`, one after another.
pub open spec fn repeat(unit: Seq<char>, n: nat) -> Seq<char>
    decreases n,
{
    if n == 0 {
        Seq::empty()
    } else {
        repeat(unit, (n - 1) as nat) + unit
    }
}

/// Appends `n` copies of `unit` to `out` (what `str::repeat` gives).
pub fn push_repeat(out: &mut Vec<char>, unit: &str, n: usize)
    ensures
        final(out)@ == old(out)@ + repeat(unit@, n as nat),
{
    let ghost start = out@;
    let mut k: usize = 0;
    while k < n
        invariant
            k <= n,
            out@ == start + repeat(unit@, k as nat),
        decreases n - k,
    {
        push_str(out, unit);
        k = k + 1;
        proof {
            assert(out@ =~= start + repeat(unit@, k as nat));
        }
    }
}

/// The parts joined with `sep` between neighbours.
pub open spec fn join(parts: Seq<Seq<char>>, sep: Seq<char>) -> Seq<char>
    decreases parts.len(),
{
    if parts.len() == 0 {
        Seq::empty()
    } else if parts.len() == 1 {
        parts[0]
    } else {
        join(parts.drop_last(), sep) + sep + parts.last()
    }
}

/// What std's `escape_debug` gives for a character that the quoting below does
/// not spell out itself: the character, or its `\u{...}`, `\0` or similar escape.
pub uninterp spec fn char_escape_debug(c: char) -> Seq<char>;

/// The escape of `c` (std `char::escape_debug`, collected into characters).
#[verifier::external_body]
fn escape_debug_chars(c: char) -> (r: Vec<char>)
    ensures
        r@ == char_escape_debug(c),
{
    c.escape_debug().collect()
}

/// How one character appears inside a Rust-style (Debug) string literal.
pub open spec fn debug_char(c: char) -> Seq<char> {
    if c == '"' {
        seq!['\\', '"']
    } else if c == '\\' {
        seq!['\\', '\\']
    } else if c == '\n' {
        seq!['\\', 'n']
    } else if c == '\r' {
        seq!['\\', 'r']
    } else if c == '\t' {
        seq!['\\', 't']
    } else if ' ' <= c && c <= '~' {
        seq![c]
    } else {
        char_escape_debug(c)
    }
}

/// The characters of `s` as they appear inside a Debug string literal.
pub open spec fn debug_body(s: Seq<char>) -> Seq<char>
    decreases s.len(),
{
    if s.len() == 0 {
        Seq::empty()
    } else {
        debug_body(s.drop_last()) + debug_char(s.last())
    }
}

/// `s` as a double-quoted literal, the way Rust's `{:?}` writes a string.
pub open spec fn debug_quote(s: Seq<char>) -> Seq<char> {
    seq!['"'] + debug_body(s) + seq!['"']
}

/// Appends `s` written as a double-quoted Debug literal to `out`.
pub fn push_debug_quoted(out: &mut Vec<char>, s: &Vec<char>)
    ensures
        final(out)@ == old(out)@ + debug_quote(s@),
{
    let ghost start = out@;
    out.push('"');
    let mut i: usize = 0;
    while i < s.len()
        invariant
            i <= s.len(),
            out@ == start + seq!['"'] + debug_body(s@.subrange(0, i as int)),
        decreases s.len() - i,
    {
        let c = s[i];
        let ghost before = out@;
        if c == '"' {
            out.push('\\');
            out.push('"');
        } else if c == '\\' {
            out.push('\\');
            out.push('\\');
        } else if c == '\n' {
            out.push('\\');
            out.push('n');
        } else if c == '\r' {
            out.push('\\');
            out.push('r');
        } else if c == '\t' {
            out.push('\\');
            out.push('t');
        } else if ' ' <= c && c <= '~' {
            out.push(c);
        } else {
            let e = escape_debug_chars(c);
            push_chars(out, &e);
        }
        proof {
            assert(out@ =~= before + debug_char(c));
            assert(s@.subrange(0, i + 1).drop_last() =~= s@.subrange(0, i as int));
            assert(s@.subrange(0, i + 1).last() == c);
        }
        i = i + 1;
        proof {
            assert(out@ =~= start + seq!['"'] + debug_body(s@.subrange(0, i as int)));
        }
    }
    out.push('"');
    proof {
        assert(s@.subrange(0, s.len() as int) =~= s@);
        assert(out@ =~= start + debug_quote(s@));
    }
}


/// The views of a sequence of character vectors.
pub open spec fn vecs_view(parts: Seq<Vec<char>>) -> Seq<Seq<char>> {
    parts.map_values(|p: Vec<char>| p@)
}

/// Appends the parts joined with `sep` to `out`.
pub fn push_join(out: &mut Vec<char>, parts: &Vec<Vec<char>>, sep: &str)
    ensures
        final(out)@ == old(out)@ + join(vecs_view(parts@), sep@),
{
    let ghost start = out@;
    let mut i: usize = 0;
    while i < parts.len()
        invariant
            i <= parts.len(),
            out@ == start + join(vecs_view(parts@.subrange(0, i as int)), sep@),
        decreases parts.len() - i,
    {
        let ghost before = out@;
        if i > 0 {
            push_str(out, sep);
        }
        push_chars(out, &parts[i]);
        proof {
            let done = vecs_view(parts@.subrange(0, i as int));
            let next = vecs_view(parts@.subrange(0, i + 1));
            assert(next.drop_last() =~= done);
            assert(next.last() == parts@[i as int]@);
            if i == 0 {
                assert(next.len() == 1);
                assert(out@ =~= start + join(next, sep@));
            } else {
                assert(out@ =~= start + join(next, sep@));
            }
        }
        i = i + 1;
    }
    proof {
        assert(parts@.subrange(0, parts.len() as int) =~= parts@);
    }
}

/// The views of a sequence of strings.
pub open spec fn strings_view(parts: Seq<String>) -> Seq<Seq<char>> {
    parts.map_values(|p: String| p@)
}

/// Appends the strings joined with `sep` to `out`.
pub fn push_join_strings(out: &mut Vec<char>, parts: &Vec<String>, sep: &str)
    ensures
        final(out)@ == old(out)@ + join(strings_view(parts@), sep@),
{
    let ghost start = out@;
    let mut i: usize = 0;
    while i < parts.len()
        invariant
            i <= parts.len(),
            out@ == start + join(strings_view(parts@.subrange(0, i as int)), sep@),
        decreases parts.len() - i,
    {
        if i > 0 {
            push_str(out, sep);
        }
        push_str(out, parts[i].as_str());
        proof {
            let done = strings_view(parts@.subrange(0, i as int));
            let next = strings_view(parts@.subrange(0, i + 1));
            assert(next.drop_last() =~= done);
            assert(next.last() == parts@[i as int]@);
            if i == 0 {
                assert(next.len() == 1);
            }
            assert(out@ =~= start + join(next, sep@));
        }
        i = i + 1;
    }
    proof {
        assert(parts@.subrange(0, parts.len() as int) =~= parts@);
    }
}

/// The strings joined with `sep` (what `[String]::join` gives).
pub fn join_strings(parts: &Vec<String>, sep: &str) -> (s: String)
    ensures
        s@ == join(strings_view(parts@), sep@),
{
    let mut out: Vec<char> = Vec::new();
    push_join_strings(&mut out, parts, sep);
    proof {
        assert(out@ =~= join(strings_view(parts@), sep@));
    }
    string_of(out.as_slice())
}

/// A copy of a list of strings.
pub fn clone_strings(parts: &Vec<String>) -> (r: Vec<String>)
    ensures
        strings_view(r@) == strings_view(parts@),
        r@.len() == parts@.len(),
        forall|k: int| 0 <= k < r@.len() ==> r@[k]@ == parts@[k]@,
{
    let mut r: Vec<String> = Vec::new();
    let mut i: usize = 0;
    while i < parts.len()
        invariant
            i <= parts.len(),
            r@.len() == i,
            forall|k: int| 0 <= k < i ==> r@[k]@ == parts@[k]@,
        decreases parts.len() - i,
    {
        r.push(parts[i].clone());
        i = i + 1;
    }
    proof {
        assert(strings_view(r@) =~= strings_view(parts@));
    }
    r
}

/// The pieces of `t` between line breaks, the way `str::split('\n')` cuts them.
pub open spec fn segments(t: Seq<char>) -> Seq<Seq<char>>
    decreases t.len(),
{
    if t.len() == 0 {
        seq![Seq::empty()]
    } else if t.last() == '\n' {
        segments(t.drop_last()).push(Seq::empty())
    } else {
        let s = segments(t.drop_last());
        s.update(s.len() - 1, s.last().push(t.last()))
    }
}

/// The lines of `t`, the way `str::lines` gives them (a final line break ends the last
/// line rather than starting an empty one).
pub open spec fn str_lines(t: Seq<char>) -> Seq<Seq<char>> {
    let s = segments(t);
    if s.last().len() == 0 {
        s.drop_last()
    } else {
        s
    }
}

pub proof fn lemma_segments_len(t: Seq<char>)
    ensures
        segments(t).len() >= 1,
    decreases t.len(),
{
    if t.len() > 0 {
        lemma_segments_len(t.drop_last());
    }
}

/// The lines of `v`, the way `str::lines` gives them.
pub fn lines_of(v: &Vec<char>) -> (r: Vec<Vec<char>>)
    ensures
        vecs_view(r@) == str_lines(v@),
{
    let mut out: Vec<Vec<char>> = Vec::new();
    let mut cur: Vec<char> = Vec::new();
    let mut i: usize = 0;
    proof {
        assert(v@.subrange(0, 0) =~= Seq::<char>::empty());
        assert(vecs_view(out@) =~= segments(Seq::<char>::empty()).drop_last());
    }
    while i < v.len()
        invariant
            i <= v@.len(),
            segments(v@.subrange(0, i as int)).len() >= 1,
            vecs_view(out@) == segments(v@.subrange(0, i as int)).drop_last(),
            cur@ == segments(v@.subrange(0, i as int)).last(),
        decreases v@.len() - i,
    {
        let ghost pre = v@.subrange(0, i as int);
        let ghost next = v@.subrange(0, i + 1);
        proof {
            assert(next.drop_last() =~= pre);
            assert(next.last() == v@[i as int]);
            lemma_segments_len(pre);
        }
        let c = v[i];
        if c == '\n' {
            let ghost before = vecs_view(out@);
            let ghost cv = cur@;
            out.push(cur);
            cur = Vec::new();
            proof {
                assert(segments(next) == segments(pre).push(Seq::empty()));
                assert(vecs_view(out@) =~= before.push(cv));
                assert(segments(pre) =~= segments(pre).drop_last().push(segments(pre).last()));
                assert(vecs_view(out@) =~= segments(next).drop_last());
                assert(cur@ =~= segments(next).last());
            }
        } else {
            cur.push(c);
            proof {
                let sp = segments(pre);
                assert(segments(next) == sp.update(sp.len() - 1, sp.last().push(c)));
                assert(segments(next).drop_last() =~= sp.drop_last());
            }
        }
        i = i + 1;
    }
    proof {
        assert(v@.subrange(0, v@.len() as int) =~= v@);
        lemma_segments_len(v@);
    }
    if cur.len() > 0 {
        let ghost before = vecs_view(out@);
        let ghost cv = cur@;
        out.push(cur);
        proof {
            let sg = segments(v@);
            assert(vecs_view(out@) =~= before.push(cv));
            assert(sg =~= sg.drop_last().push(sg.last()));
        }
    }
    out
}

/// The index of the first `c` in `s`, or -1.
pub open spec fn find_char(s: Seq<char>, c: char) -> int
    decreases s.len(),
{
    if s.len() == 0 {
        -1
    } else if find_char(s.drop_last(), c) >= 0 {
        find_char(s.drop_last(), c)
    } else if s.last() == c {
        s.len() - 1
    } else {
        -1
    }
}

/// The index of the first `c` in `s`, if any.
pub fn find_first(s: &Vec<char>, c: char) -> (r: Option<usize>)
    ensures
        match r {
            Some(i) => i as int == find_char(s@, c) && i < s@.len(),
            None => find_char(s@, c) == -1,
        },
{
    let mut i: usize = 0;
    while i < s.len()
        invariant
            i <= s@.len(),
            find_char(s@.subrange(0, i as int), c) == -1,
        decreases s@.len() - i,
    {
        proof {
            assert(s@.subrange(0, i + 1).drop_last() =~= s@.subrange(0, i as int));
        }
        if s[i] == c {
            proof {
                lemma_find_char_prefix(s@, i as int + 1, c);
            }
            return Some(i);
        }
        i = i + 1;
    }
    proof {
        assert(s@.subrange(0, s@.len() as int) =~= s@);
    }
    None
}

/// A found character stays first when more text follows.
pub proof fn lemma_find_char_prefix(s: Seq<char>, n: int, c: char)
    requires
        0 <= n <= s.len(),
        find_char(s.subrange(0, n), c) >= 0,
    ensures
        find_char(s, c) == find_char(s.subrange(0, n), c),
    decreases s.len() - n,
{
    if n < s.len() {
        let m = s.subrange(0, n + 1);
        assert(m.drop_last() =~= s.subrange(0, n));
        lemma_find_char_prefix(s, n + 1, c);
    } else {
        assert(s.subrange(0, n) =~= s);
    }
}

/// The decimal digits of `n`.
pub open spec fn decimal(n: nat) -> Seq<char>
    decreases n,
{
    if n < 10 {
        seq![(('0' as u32) + n) as char]
    } else {
        decimal(n / 10) + seq![(('0' as u32) + (n % 10)) as char]
    }
}

proof fn lemma_digit_char_injective(a: nat, b: nat)
    requires
        a < 10,
        b < 10,
        ((('0' as u32) + a) as char) == ((('0' as u32) + b) as char),
    ensures
        a == b,
{
    assert(((('0' as u32) + a) as char) as u32 == ('0' as u32) + a);
}

/// A number's decimal digits: one at least, two at least from ten on.
pub proof fn lemma_decimal_len(n: nat)
    ensures
        decimal(n).len() >= 1,
        n >= 10 ==> decimal(n).len() >= 2,
    decreases n,
{
    if n >= 10 {
        lemma_decimal_len(n / 10);
    }
}

/// Different numbers have different decimal digits.
pub proof fn lemma_decimal_injective(a: nat, b: nat)
    requires
        decimal(a) == decimal(b),
    ensures
        a == b,
    decreases a,
{
    lemma_decimal_len(a);
    lemma_decimal_len(b);
    if a < 10 && b < 10 {
        let ca = (('0' as u32) + a) as char;
        let cb = (('0' as u32) + b) as char;
        assert(decimal(a) == seq![ca]);
        assert(decimal(b) == seq![cb]);
        assert(seq![ca][0] == ca);
        assert(seq![cb][0] == cb);
        assert(ca == cb);
        lemma_digit_char_injective(a, b);
    } else if a >= 10 && b >= 10 {
        let da = decimal(a);
        let db = decimal(b);
        assert(da.last() == db.last());
        lemma_digit_char_injective(a % 10, b % 10);
        assert(da.drop_last() =~= decimal(a / 10));
        assert(db.drop_last() =~= decimal(b / 10));
        lemma_decimal_injective(a / 10, b / 10);
    } else {
        if a >= 10 {
            lemma_decimal_len(a / 10);
        } else {
            lemma_decimal_len(b / 10);
        }
    }
}

/// Appends the decimal digits of `n` to `out` (what `usize::to_string` gives).
pub fn push_decimal(out: &mut Vec<char>, n: usize)
    ensures
        final(out)@ == old(out)@ + decimal(n as nat),
    decreases n,
{
    if n >= 10 {
        push_decimal(out, n / 10);
    }
    let d = (n % 10) as u8;
    let c = ('0' as u8 + d) as char;
    assert(c == (('0' as u32) + (n % 10) as nat) as char) by {
        assert(('0' as u8 + d) as u32 == ('0' as u32) + (n % 10));
    }
    out.push(c);
}

} // verus!
