//! Which source language a workspace converts: Rust, Lisp, or both.
use vstd::prelude::*;
use crate::paths::{has_extension_spec, is_lisp_file, is_rs_file, is_source_file};
use crate::text::{chars_of, lower, str_eq, trim, trim_text};

verus! {

/// The language setting.
#[derive(Clone, Copy, Debug, Default, Eq, PartialEq, Structural)]
pub enum LanguageMode {
    #[default]
    Auto,
    Rust,
    Lisp,
}

/// The setting's name in the configuration file.
pub open spec fn mode_name(m: LanguageMode) -> Seq<char> {
    match m {
        LanguageMode::Auto => "auto"@,
        LanguageMode::Rust => "rust"@,
        LanguageMode::Lisp => "lisp"@,
    }
}

/// The setting a configuration value names: trimmed, in any ASCII case.
pub open spec fn parse_mode(value: Seq<char>) -> Option<LanguageMode> {
    let t = trim(value).map_values(|c: char| lower(c));
    if t == "auto"@ {
        Some(LanguageMode::Auto)
    } else if t == "rust"@ {
        Some(LanguageMode::Rust)
    } else if t == "lisp"@ {
        Some(LanguageMode::Lisp)
    } else {
        None
    }
}

/// The setting after `m` in the cycle Rust, Lisp, Auto.
pub open spec fn next_mode(m: LanguageMode) -> LanguageMode {
    match m {
        LanguageMode::Rust => LanguageMode::Lisp,
        LanguageMode::Lisp => LanguageMode::Auto,
        LanguageMode::Auto => LanguageMode::Rust,
    }
}

/// Whether a path is a source file of the language `m` selects.
pub open spec fn accepts_spec(m: LanguageMode, p: Seq<char>) -> bool {
    let rs = has_extension_spec(p, "rs"@);
    let lisp = has_extension_spec(p, "scm"@) || has_extension_spec(p, "lisp"@);
    match m {
        LanguageMode::Auto => rs || lisp,
        LanguageMode::Rust => rs,
        LanguageMode::Lisp => lisp,
    }
}

impl LanguageMode {
    /// The setting named by a configuration value, if any.
    pub fn parse(value: &str) -> (r: Option<LanguageMode>)
        ensures
            r == parse_mode(value@),
    {
        let v = chars_of(value);
        let t = trim_text(&v);
        let mut low: Vec<char> = Vec::new();
        let mut i: usize = 0;
        while i < t.len()
            invariant
                i <= t@.len(),
                low@ == t@.subrange(0, i as int).map_values(|c: char| lower(c)),
            decreases t@.len() - i,
        {
            let c = t[i];
            low.push(if 'A' <= c && c <= 'Z' { ((c as u8) + 32) as char } else { c });
            i = i + 1;
            proof {
                assert(low@ =~= t@.subrange(0, i as int).map_values(|c: char| lower(c)));
            }
        }
        proof {
            assert(t@.subrange(0, t@.len() as int) =~= t@);
        }
        let s = crate::text::string_of(low.as_slice());
        if str_eq(s.as_str(), "auto") {
            Some(LanguageMode::Auto)
        } else if str_eq(s.as_str(), "rust") {
            Some(LanguageMode::Rust)
        } else if str_eq(s.as_str(), "lisp") {
            Some(LanguageMode::Lisp)
        } else {
            None
        }
    }

    /// The setting's name in the configuration file.
    pub fn as_str(self) -> (r: &'static str)
        ensures
            r@ == mode_name(self),
    {
        match self {
            LanguageMode::Auto => "auto",
            LanguageMode::Rust => "rust",
            LanguageMode::Lisp => "lisp",
        }
    }

    /// The setting's name on screen.
    pub fn display_name(self) -> (r: &'static str)
        ensures
            r@ == match self {
                LanguageMode::Auto => "自動"@,
                LanguageMode::Rust => "Rust"@,
                LanguageMode::Lisp => "Lisp"@,
            },
    {
        match self {
            LanguageMode::Auto => "自動",
            LanguageMode::Rust => "Rust",
            LanguageMode::Lisp => "Lisp",
        }
    }

    /// The next setting in the cycle Rust, Lisp, Auto.
    pub fn next(self) -> (r: LanguageMode)
        ensures
            r == next_mode(self),
    {
        match self {
            LanguageMode::Rust => LanguageMode::Lisp,
            LanguageMode::Lisp => LanguageMode::Auto,
            LanguageMode::Auto => LanguageMode::Rust,
        }
    }

    /// Whether Rust sources are converted under this setting.
    pub fn includes_rust(self) -> (r: bool)
        ensures
            r == (self == LanguageMode::Auto || self == LanguageMode::Rust),
    {
        match self {
            LanguageMode::Auto => true,
            LanguageMode::Rust => true,
            LanguageMode::Lisp => false,
        }
    }

    /// Whether a path is a source file of the selected language.
    pub fn accepts_path(self, path: &str) -> (r: bool)
        ensures
            r == accepts_spec(self, path@),
    {
        match self {
            LanguageMode::Auto => is_source_file(path),
            LanguageMode::Rust => is_rs_file(path),
            LanguageMode::Lisp => is_lisp_file(path),
        }
    }
}

/// Why a project run refuses to convert `path` on its own: it is not a source file of
/// the selected language.
pub fn language_mismatch(language: LanguageMode, path: &str) -> (r: Option<String>)
    ensures
        accepts_spec(language, path@) ==> r is None,
        !accepts_spec(language, path@) ==> (r matches Some(m)
            && m@ == "エラー: `"@ + path@ + "` は "@ + mode_name(language) + " mode の対象ファイルではありません"@),
{
    if language.accepts_path(path) {
        return None;
    }
    let mut m: Vec<char> = Vec::new();
    crate::text::push_str(&mut m, "エラー: `");
    crate::text::push_str(&mut m, path);
    crate::text::push_str(&mut m, "` は ");
    crate::text::push_str(&mut m, language.as_str());
    crate::text::push_str(&mut m, " mode の対象ファイルではありません");
    proof {
        assert(m@ =~= "エラー: `"@ + path@ + "` は "@ + mode_name(language) + " mode の対象ファイルではありません"@);
    }
    Some(crate::text::string_of(m.as_slice()))
}

/// Reading back the name a setting is written with gives that setting.
pub proof fn lemma_parse_as_str(m: LanguageMode)
    ensures
        parse_mode(mode_name(m)) == Some(m),
{
    reveal_strlit("auto");
    reveal_strlit("rust");
    reveal_strlit("lisp");
    let v = mode_name(m);
    assert(trim(v) == v) by {
        assert(v.len() == 4);
        assert(!crate::text::is_space(v[0]));
        assert(!crate::text::is_space(v.last()));
    }
    assert(v.map_values(|c: char| lower(c)) =~= v);
}

/// Going to the next setting three times comes back to where it started.
pub proof fn lemma_next_cycles(m: LanguageMode)
    ensures
        next_mode(next_mode(next_mode(m))) == m,
        next_mode(m) != m,
{
}

} // verus!
