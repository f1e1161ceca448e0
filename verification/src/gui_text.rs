//! The texts the window shows: status and diagnostic lines shortened to fit, and the
//! text a mouse selection covers.
use vstd::prelude::*;
use crate::paths::{file_name, file_name_spec};
use crate::text::{
    chars_of, copy_chars, is_space, is_whitespace, push_chars, push_str, str_eq, str_lines,
    lines_of, string_of, trim, trim_text,
};

verus! {

pub const STATUS_UPDATE_AVAILABLE: &'static str = "新しいバージョンがあります";
pub const STATUS_UP_TO_DATE: &'static str = "最新のバージョンです";
pub const STATUS_CHECKING: &'static str = "確認中";

/// How the status line names a file: by its file name, or by the whole path when it
/// has none.
pub fn file_name_for_status(path: &str) -> (r: String)
    ensures
        r@ == match file_name_spec(path@) {
            Some(n) => n,
            None => path@,
        },
{
    match file_name(path) {
        Some(n) => n,
        None => String::from_str(path),
    }
}

/// Whether `m` begins with `p`.
pub open spec fn starts_with(m: Seq<char>, p: Seq<char>) -> bool {
    m.len() >= p.len() && m.subrange(0, p.len() as int) == p
}

/// Whether `marker` occurs in `body` at index `k`.
pub open spec fn occurs_at(body: Seq<char>, marker: Seq<char>, k: int) -> bool {
    0 <= k && k + marker.len() <= body.len() && body.subrange(k, k + marker.len()) == marker
}

/// The first index at or after `k` where `marker` occurs in `body`, or -1.
pub open spec fn find_from(body: Seq<char>, marker: Seq<char>, k: int) -> int
    decreases body.len() + 1 - k,
{
    if k < 0 || k + marker.len() > body.len() {
        -1
    } else if occurs_at(body, marker, k) {
        k
    } else {
        find_from(body, marker, k + 1)
    }
}

/// A diagnostic `エラー: {path}{rest}` with the path cut down to its file name, where
/// the path is what comes before the first of `markers` that occurs (the marker's
/// final `:` starting the rest).
pub open spec fn compact_with(m: Seq<char>, body: Seq<char>, markers: Seq<Seq<char>>) -> Seq<char>
    decreases markers.len(),
{
    if markers.len() == 0 {
        m
    } else {
        let k = find_from(body, markers[0], 0);
        if k >= 0 && markers[0].len() >= 1 {
            let e = k + markers[0].len() - 1;
            let path = body.subrange(0, e);
            "エラー: "@ + match file_name_spec(path) {
                Some(n) => n,
                None => path,
            } + body.subrange(e, body.len() as int)
        } else {
            compact_with(m, body, markers.subrange(1, markers.len() as int))
        }
    }
}

/// The file-name markers a diagnostic's path ends with.
pub open spec fn path_markers() -> Seq<Seq<char>> {
    seq![".rs:"@, ".scm:"@, ".lisp:"@, ".py:"@]
}

/// A diagnostic shortened for the window: `エラー: {file}:...` in place of the full path.
pub open spec fn compact_spec(m: Seq<char>) -> Seq<char> {
    let p = "エラー: "@;
    if starts_with(m, p) {
        compact_with(m, m.subrange(p.len() as int, m.len() as int), path_markers())
    } else {
        m
    }
}

/// The first index at or after `k` where `marker` occurs in `body`.
pub fn find_text(body: &Vec<char>, marker: &Vec<char>) -> (r: Option<usize>)
    ensures
        match r {
            Some(k) => k as int == find_from(body@, marker@, 0),
            None => find_from(body@, marker@, 0) == -1,
        },
{
    if marker.len() > body.len() {
        return None;
    }
    let mut k: usize = 0;
    while body.len() - k >= marker.len()
        invariant
            marker.len() <= body.len(),
            k <= body.len(),
            find_from(body@, marker@, 0) == find_from(body@, marker@, k as int),
        decreases body@.len() - k,
    {
        let mut j: usize = 0;
        let mut same = true;
        while j < marker.len()
            invariant
                k + marker.len() <= body.len(),
                j <= marker@.len(),
                same == forall|t: int| 0 <= t < j ==> body@[k + t] == marker@[t],
            decreases marker@.len() - j,
        {
            if body[k + j] != marker[j] {
                same = false;
            }
            j = j + 1;
        }
        proof {
            if same {
                assert(body@.subrange(k as int, k + marker@.len()) =~= marker@);
            } else {
                let t = choose|t: int| 0 <= t < marker@.len() && body@[k + t] != marker@[t];
                assert(body@.subrange(k as int, k + marker@.len())[t] != marker@[t]);
            }
        }
        if same {
            return Some(k);
        }
        if k == body.len() {
            return None;
        }
        k = k + 1;
    }
    None
}

/// A diagnostic shortened for the window.
pub fn compact_error_message(message: &str) -> (r: String)
    ensures
        r@ == compact_spec(message@),
{
    let m = chars_of(message);
    let p = chars_of("エラー: ");
    if m.len() < p.len() {
        return String::from_str(message);
    }
    let head = copy_chars(&m, 0, p.len());
    let mut same = true;
    let mut j: usize = 0;
    while j < p.len()
        invariant
            j <= p@.len() <= m@.len(),
            head@ == m@.subrange(0, p@.len() as int),
            same == forall|t: int| 0 <= t < j ==> head@[t] == p@[t],
        decreases p@.len() - j,
    {
        if head[j] != p[j] {
            same = false;
        }
        j = j + 1;
    }
    if !same {
        proof {
            let t = choose|t: int| 0 <= t < p@.len() && head@[t] != p@[t];
            assert(!starts_with(message@, "エラー: "@));
        }
        return String::from_str(message);
    }
    proof {
        assert(head@ =~= p@);
    }
    let body = copy_chars(&m, p.len(), m.len());
    proof {
        assert(starts_with(message@, "エラー: "@));
        assert(path_markers().subrange(0, 4) =~= path_markers());
    }
    let markers: Vec<&str> = vec![".rs:", ".scm:", ".lisp:", ".py:"];
    let mut i: usize = 0;
    while i < markers.len()
        invariant
            i <= markers@.len() == 4,
            markers@[0]@ == ".rs:"@ && markers@[1]@ == ".scm:"@ && markers@[2]@ == ".lisp:"@ && markers@[3]@ == ".py:"@,
            body@ == message@.subrange("エラー: "@.len() as int, message@.len() as int),
            starts_with(message@, "エラー: "@),
            compact_spec(message@) == compact_with(message@, body@, path_markers().subrange(i as int, 4)),
        decreases 4 - i,
    {
        let marker = chars_of(markers[i]);
        proof {
            let ms = path_markers().subrange(i as int, 4);
            assert(ms[0] == marker@);
            assert(ms.subrange(1, ms.len() as int) =~= path_markers().subrange(i + 1, 4));
        }
        match find_text(&body, &marker) {
            Some(k) => {
                if marker.len() >= 1 {
                    proof {
                        assert(k + marker@.len() <= body@.len()) by {
                            lemma_find_from_bound(body@, marker@, 0);
                        }
                        assert(k + marker.len() <= body.len());
                    }
                    let e = k + marker.len() - 1;
                    let path = copy_chars(&body, 0, e);
                    let ps = string_of(path.as_slice());
                    let name = match file_name(ps.as_str()) {
                        Some(n) => chars_of(n.as_str()),
                        None => path,
                    };
                    let mut out: Vec<char> = Vec::new();
                    push_str(&mut out, "エラー: ");
                    push_chars(&mut out, &name);
                    let rest = copy_chars(&body, e, body.len());
                    push_chars(&mut out, &rest);
                    return string_of(out.as_slice());
                }
            },
            None => {},
        }
        i = i + 1;
    }
    proof {
        assert(path_markers().subrange(4, 4).len() == 0);
    }
    String::from_str(message)
}

/// The error line the window shows for a failure of the watch loop: the message with
/// its file path shortened, marked as an error when it is not already.
pub open spec fn error_event_spec(message: Seq<char>) -> Seq<char> {
    let m = compact_spec(message);
    if starts_with(m, "エラー:"@) {
        m
    } else {
        "エラー: "@ + m
    }
}

/// The error line the window shows for a failure of the watch loop.
pub fn error_event_text(message: &str) -> (r: String)
    ensures
        r@ == error_event_spec(message@),
{
    let m = compact_error_message(message);
    let cs = chars_of(m.as_str());
    let p = chars_of("エラー:");
    let mut marked = cs.len() >= p.len();
    let mut i: usize = 0;
    while marked && i < p.len()
        invariant
            i <= p@.len(),
            p@ == "エラー:"@,
            cs@ == m@,
            marked ==> cs@.len() >= p@.len(),
            marked == (cs@.len() >= p@.len() && forall|k: int| 0 <= k < i ==> cs@[k] == p@[k]),
        decreases p@.len() - i,
    {
        if cs[i] != p[i] {
            marked = false;
        }
        i = i + 1;
    }
    proof {
        if marked {
            assert(cs@.subrange(0, p@.len() as int) =~= p@);
        } else if cs@.len() >= p@.len() {
            let k = choose|k: int| 0 <= k < i && cs@[k] != p@[k];
            assert(cs@.subrange(0, p@.len() as int)[k] != p@[k]);
        }
    }
    if marked {
        m
    } else {
        let mut out: Vec<char> = Vec::new();
        push_str(&mut out, "エラー: ");
        push_chars(&mut out, &cs);
        string_of(out.as_slice())
    }
}

proof fn lemma_find_from_bound(body: Seq<char>, marker: Seq<char>, k: int)
    ensures
        find_from(body, marker, k) >= 0 ==> find_from(body, marker, k) + marker.len() <= body.len() && find_from(body, marker, k) >= k,
    decreases body.len() + 1 - k,
{
    if !(k < 0 || k + marker.len() > body.len()) && !occurs_at(body, marker, k) {
        lemma_find_from_bound(body, marker, k + 1);
    }
}

/// The character shown for a character of a diagnostic: line breaks and tabs as
/// spaces, double quotes as single ones.
pub open spec fn literal_char(c: char) -> char {
    if c == '\r' || c == '\n' || c == '\t' {
        ' '
    } else if c == '"' {
        '\''
    } else {
        c
    }
}

/// A diagnostic as shown inside a string literal, and whether it ends in a space:
/// each run of white space becomes one space.
pub open spec fn literal_state(s: Seq<char>) -> (Seq<char>, bool)
    decreases s.len(),
{
    if s.len() == 0 {
        (Seq::empty(), false)
    } else {
        let (o, sp) = literal_state(s.drop_last());
        let c = literal_char(s.last());
        if is_space(c) {
            (if sp { o } else { o.push(' ') }, true)
        } else {
            (o.push(c), false)
        }
    }
}

/// A diagnostic written so that it fits inside a string literal on one line.
pub fn code_string_literal_value(value: &str) -> (r: String)
    ensures
        r@ == literal_state(value@).0,
{
    let s = chars_of(value);
    let mut out: Vec<char> = Vec::new();
    let mut last_was_space = false;
    let mut i: usize = 0;
    while i < s.len()
        invariant
            i <= s@.len(),
            literal_state(s@.subrange(0, i as int)) == (out@, last_was_space),
        decreases s@.len() - i,
    {
        proof {
            assert(s@.subrange(0, i + 1).drop_last() =~= s@.subrange(0, i as int));
        }
        let raw = s[i];
        let ch = if raw == '\r' || raw == '\n' || raw == '\t' {
            ' '
        } else if raw == '"' {
            '\''
        } else {
            raw
        };
        if is_whitespace(ch) {
            if !last_was_space {
                out.push(' ');
            }
            last_was_space = true;
        } else {
            out.push(ch);
            last_was_space = false;
        }
        i = i + 1;
    }
    proof {
        assert(s@.subrange(0, s@.len() as int) =~= s@);
    }
    string_of(out.as_slice())
}

/// `value` cut to `max_chars` characters, the last of them an ellipsis when it was
/// longer.
pub open spec fn truncate_spec(value: Seq<char>, max_chars: nat) -> Seq<char> {
    if value.len() <= max_chars {
        value
    } else {
        value.subrange(0, if max_chars == 0 { 0 } else { max_chars - 1 }).push('…')
    }
}

/// `value` cut to fit in `max_chars` characters.
pub fn truncate_for_status(value: &str, max_chars: usize) -> (r: String)
    ensures
        r@ == truncate_spec(value@, max_chars as nat),
{
    let v = chars_of(value);
    if v.len() <= max_chars {
        return String::from_str(value);
    }
    let keep = if max_chars == 0 { 0 } else { max_chars - 1 };
    let mut out = copy_chars(&v, 0, keep);
    out.push('…');
    string_of(out.as_slice())
}

/// Whether a status text is long enough to need a scroll bar.
pub fn needs_scrollbar(status: &str) -> (r: bool)
    ensures
        r == (str_lines(status@).len() > 6 || status@.len() > 180),
{
    let v = chars_of(status);
    let lines = lines_of(&v);
    proof {
        assert(crate::text::vecs_view(lines@).len() == lines@.len());
    }
    lines.len() > 6 || v.len() > 180
}

/// The spinner character for animation step `spinner`.
pub open spec fn spinner_spec(spinner: nat) -> char {
    let k = spinner % 4;
    if k == 0 {
        '/'
    } else if k == 1 {
        '-'
    } else if k == 2 {
        '\\'
    } else {
        '|'
    }
}

/// The spinner character for animation step `spinner`.
pub fn command_spinner(spinner: usize) -> (r: char)
    ensures
        r == spinner_spec(spinner as nat),
{
    let k = spinner % 4;
    if k == 0 {
        '/'
    } else if k == 1 {
        '-'
    } else if k == 2 {
        '\\'
    } else {
        '|'
    }
}

/// What the status line shows: the update notice, the check in progress with its
/// spinner, or the status, shortened to 42 characters.
pub open spec fn status_value_spec(status: Seq<char>, update_available: bool, spinner: nat) -> Option<Seq<char>> {
    let s = if update_available {
        "新しいバージョンがあります"@
    } else if trim(status).len() == 0 {
        "確認中"@ + seq![' ', spinner_spec(spinner)]
    } else {
        status
    };
    if trim(s).len() == 0 {
        None
    } else {
        Some(truncate_spec(compact_spec(s), 42))
    }
}

/// What the status line shows, if anything.
pub fn status_display_value(status: &str, update_available: bool, spinner: usize) -> (r: Option<String>)
    ensures
        match status_value_spec(status@, update_available, spinner as nat) {
            Some(v) => r matches Some(s) && s@ == v,
            None => r is None,
        },
{
    let st = chars_of(status);
    let s: Vec<char> = if update_available {
        chars_of(STATUS_UPDATE_AVAILABLE)
    } else if trim_text(&st).len() == 0 {
        let mut c = chars_of(STATUS_CHECKING);
        c.push(' ');
        c.push(command_spinner(spinner));
        proof {
            assert(c@ =~= "確認中"@ + seq![' ', spinner_spec(spinner as nat)]);
        }
        c
    } else {
        st
    };
    if trim_text(&s).len() == 0 {
        return None;
    }
    let ss = string_of(s.as_slice());
    let compact = compact_error_message(ss.as_str());
    Some(truncate_for_status(compact.as_str(), 42))
}

/// The status line as shown: `status = "..."`.
pub fn status_display_text(status: &str, update_available: bool, spinner: usize) -> (r: Option<String>)
    ensures
        match status_value_spec(status@, update_available, spinner as nat) {
            Some(v) => r matches Some(s) && s@ == "status = \""@ + v + seq!['"'],
            None => r is None,
        },
{
    match status_display_value(status, update_available, spinner) {
        Some(v) => {
            let mut out: Vec<char> = Vec::new();
            push_str(&mut out, "status = \"");
            push_str(&mut out, v.as_str());
            out.push('"');
            Some(string_of(out.as_slice()))
        },
        None => None,
    }
}

/// What the diagnostic line shows: the shortened diagnostic on one line, if any.
pub open spec fn diagnostic_value_spec(diagnostic: Seq<char>) -> Option<Seq<char>> {
    let c = trim(compact_spec(diagnostic));
    if c.len() == 0 {
        None
    } else {
        Some(literal_state(c).0)
    }
}

/// What the diagnostic line shows, if anything.
pub fn diagnostic_display_value(diagnostic: &str) -> (r: Option<String>)
    ensures
        match diagnostic_value_spec(diagnostic@) {
            Some(v) => r matches Some(s) && s@ == v,
            None => r is None,
        },
{
    let compact = compact_error_message(diagnostic);
    let c = trim_text(&chars_of(compact.as_str()));
    if c.len() == 0 {
        return None;
    }
    let cs = string_of(c.as_slice());
    Some(code_string_literal_value(cs.as_str()))
}

/// The diagnostic line as shown: `error = "..."`.
pub fn diagnostic_display_text(diagnostic: &str) -> (r: Option<String>)
    ensures
        match diagnostic_value_spec(diagnostic@) {
            Some(v) => r matches Some(s) && s@ == "error = \""@ + v + seq!['"'],
            None => r is None,
        },
{
    match diagnostic_display_value(diagnostic) {
        Some(v) => {
            let mut out: Vec<char> = Vec::new();
            push_str(&mut out, "error = \"");
            push_str(&mut out, v.as_str());
            out.push('"');
            Some(string_of(out.as_slice()))
        },
        None => None,
    }
}

/// Whether a status text is one of the version-check results.
pub fn is_version_status(text: &str) -> (r: bool)
    ensures
        r == (text@ == STATUS_UPDATE_AVAILABLE@ || text@ == STATUS_UP_TO_DATE@),
{
    str_eq(text, STATUS_UPDATE_AVAILABLE) || str_eq(text, STATUS_UP_TO_DATE)
}


/// A position in the window's selectable text.
#[derive(Clone, Copy, Debug, PartialEq, Eq, Structural)]
pub struct TextPosition {
    pub line: usize,
    pub char_index: usize,
}

/// A mouse selection: where it started and where it is now.
#[derive(Clone, Copy, Debug, PartialEq, Eq, Structural)]
pub struct TextSelection {
    pub anchor: TextPosition,
    pub active: TextPosition,
}

/// The font a selectable line is drawn in.
#[derive(Clone, Copy, Debug, PartialEq, Eq, Structural)]
pub enum SelectableFont {
    Title,
    Code,
}

/// One line of selectable text and where it is drawn.
#[derive(Debug, Clone, PartialEq, Eq)]
pub struct SelectableLine {
    pub text: String,
    pub left: i32,
    pub top: i32,
    pub right: i32,
    pub bottom: i32,
    pub scrollable: bool,
    pub font: SelectableFont,
}

/// Whether position `a` comes at or before position `b`.
pub open spec fn pos_le(a: TextPosition, b: TextPosition) -> bool {
    a.line < b.line || (a.line == b.line && a.char_index <= b.char_index)
}

/// A position moved onto the text: its line at most the last one, its column at most
/// that line's length.
pub open spec fn clamp_spec(p: TextPosition, lines: Seq<SelectableLine>) -> TextPosition {
    let line = if p.line < lines.len() - 1 { p.line as int } else { lines.len() - 1 };
    let n = lines[line].text@.len();
    TextPosition { line: line as usize, char_index: (if p.char_index < n { p.char_index as int } else { n as int }) as usize }
}

/// The selection's two ends, moved onto the text, first one first.
pub open spec fn normalized_spec(sel: TextSelection, lines: Seq<SelectableLine>) -> Option<(TextPosition, TextPosition)> {
    if lines.len() == 0 {
        None
    } else {
        let a = clamp_spec(sel.anchor, lines);
        let b = clamp_spec(sel.active, lines);
        if pos_le(a, b) {
            Some((a, b))
        } else {
            Some((b, a))
        }
    }
}

fn clamp_position(p: TextPosition, lines: &Vec<SelectableLine>) -> (r: TextPosition)
    requires
        lines@.len() > 0,
    ensures
        r == clamp_spec(p, lines@),
{
    let last = lines.len() - 1;
    let line = if p.line < last { p.line } else { last };
    let n = chars_of(lines[line].text.as_str()).len();
    let char_index = if p.char_index < n { p.char_index } else { n };
    TextPosition { line, char_index }
}

/// The selection's ends moved onto the text, first one first.
pub fn normalized_selection(selection: TextSelection, lines: &Vec<SelectableLine>) -> (r: Option<(TextPosition, TextPosition)>)
    ensures
        r == normalized_spec(selection, lines@),
{
    if lines.len() == 0 {
        return None;
    }
    let a = clamp_position(selection.anchor, lines);
    let b = clamp_position(selection.active, lines);
    if a.line < b.line || (a.line == b.line && a.char_index <= b.char_index) {
        Some((a, b))
    } else {
        Some((b, a))
    }
}

/// The characters `start..end` of `text`, as `skip(start).take(end - start)` gives them.
pub open spec fn slice_spec(text: Seq<char>, start: nat, end: nat) -> Seq<char> {
    let a = if start < text.len() { start as int } else { text.len() as int };
    let n = if end > start { end - start } else { 0 };
    let b = if a + n < text.len() { a + n } else { text.len() as int };
    text.subrange(a, b)
}

/// The characters `start..end` of `text`.
pub fn slice_chars(text: &str, start: usize, end: usize) -> (r: String)
    ensures
        r@ == slice_spec(text@, start as nat, end as nat),
{
    let v = chars_of(text);
    let a = if start < v.len() { start } else { v.len() };
    let n = if end > start { end - start } else { 0 };
    let b = if n < v.len() - a { a + n } else { v.len() };
    let out = copy_chars(&v, a, b);
    string_of(out.as_slice())
}

/// The selected part of line `i` between `start` and `end`.
pub open spec fn line_part(lines: Seq<SelectableLine>, i: int, start: TextPosition, end: TextPosition) -> Seq<char> {
    let t = lines[i].text@;
    let n = t.len();
    let s = if i == start.line { if start.char_index < n { start.char_index as nat } else { n } } else { 0 };
    let e = if i == end.line { if end.char_index < n { end.char_index as nat } else { n } } else { n };
    slice_spec(t, s, e)
}

/// The selected text of lines `start.line..i`, lines joined by CR LF (a join only
/// once some text was taken).
pub open spec fn selected_from(lines: Seq<SelectableLine>, i: int, start: TextPosition, end: TextPosition) -> Seq<char>
    decreases i,
{
    if i <= start.line || i <= 0 {
        Seq::empty()
    } else {
        let prev = selected_from(lines, i - 1, start, end);
        (if prev.len() > 0 { prev + seq!['\r', '\n'] } else { prev }) + line_part(lines, i - 1, start, end)
    }
}

/// The text a selection covers, lines joined by CR LF; nothing when it covers none.
pub open spec fn selected_spec(lines: Seq<SelectableLine>, sel: TextSelection) -> Option<Seq<char>> {
    match normalized_spec(sel, lines) {
        None => None,
        Some((start, end)) => if start == end {
            None
        } else {
            let t = selected_from(lines, end.line + 1, start, end);
            if t.len() == 0 {
                None
            } else {
                Some(t)
            }
        },
    }
}

/// The text a selection covers.
pub fn selected_text_from_lines(lines: &Vec<SelectableLine>, selection: TextSelection) -> (r: Option<String>)
    ensures
        match selected_spec(lines@, selection) {
            Some(t) => r matches Some(s) && s@ == t,
            None => r is None,
        },
{
    let (start, end) = match normalized_selection(selection, lines) {
        Some(p) => p,
        None => {
            return None;
        },
    };
    if start == end {
        return None;
    }
    let mut out: Vec<char> = Vec::new();
    let mut i: usize = start.line;
    while i <= end.line
        invariant
            start.line <= i <= end.line + 1,
            end.line < lines.len(),
            out@ == selected_from(lines@, i as int, start, end),
        decreases end.line + 1 - i,
    {
        if out.len() > 0 {
            out.push('\r');
            out.push('\n');
        }
        let t = chars_of(lines[i].text.as_str());
        let n = t.len();
        let s = if i == start.line { if start.char_index < n { start.char_index } else { n } } else { 0 };
        let e = if i == end.line { if end.char_index < n { end.char_index } else { n } } else { n };
        let part = slice_chars(lines[i].text.as_str(), s, e);
        let ghost prev = out@;
        push_str(&mut out, part.as_str());
        proof {
            assert(out@ =~= (if prev.len() > 0 { selected_from(lines@, i as int, start, end) + seq!['\r', '\n'] } else { selected_from(lines@, i as int, start, end) }) + line_part(lines@, i as int, start, end));
        }
        i = i + 1;
    }
    if out.len() == 0 {
        None
    } else {
        Some(string_of(out.as_slice()))
    }
}

} // verus!
