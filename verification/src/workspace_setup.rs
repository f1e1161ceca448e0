//! What the tool prepares in a workspace when it starts: where the settings and the
//! sources live, which starter file a language gets, and which untouched generated
//! files a language no longer needs.
use vstd::prelude::*;
use crate::language::LanguageMode;
use crate::paths::{
    file_name, file_name_spec, forward_slashes, join_path, join_path_text, parent_opt, parent_path,
    DEFAULT_SRC_DIR, SYSTEM_DIR,
};
use crate::text::{chars_of, join, join_strings, push_str, str_eq, string_of, strings_view, trim, trim_text};
use crate::workspace::{Config, ConfigV, CONFIG_FILE_NAME};
use crate::project::same_output;

verus! {

/// The Rust starter file written into a new source folder.
pub const DEFAULT_MAIN_RS: &'static str = "use transplanter_rust::prelude::*;\n\nfn main() {\n    harvest();\n}\n";

/// The Lisp starter file written into a new source folder.
pub const DEFAULT_MAIN_SCM: &'static str = "(use transplanter)\n\n(define (main)\n  (harvest))\n";

/// The folder the workspace's own paths are read from: the folder of the settings
/// file, or the one above it when that is the tool's own folder.
pub open spec fn config_base_spec(config_path: Seq<char>) -> Seq<char> {
    let parent = match parent_opt(config_path) {
        Some(q) => q,
        None => seq!['.'],
    };
    if file_name_spec(parent) == Some(".transplanter"@) {
        match parent_opt(parent) {
            Some(q) => q,
            None => parent,
        }
    } else {
        parent
    }
}

/// The folder the workspace's own paths are read from.
pub fn config_base_dir(config_path: &str) -> (r: String)
    ensures
        r@ == config_base_spec(config_path@),
{
    let parent = match parent_path(config_path) {
        Some(q) => q,
        None => String::from_str("."),
    };
    proof {
        reveal_strlit(".");
        reveal_strlit(".transplanter");
    }
    let ghost pv = match parent_opt(config_path@) {
        Some(q) => q,
        None => seq!['.'],
    };
    assert(parent@ == pv);
    let in_system_dir = match file_name(parent.as_str()) {
        Some(n) => str_eq(n.as_str(), SYSTEM_DIR),
        None => false,
    };
    assert(in_system_dir == (file_name_spec(pv) == Some(".transplanter"@)));
    if in_system_dir {
        match parent_path(parent.as_str()) {
            Some(q) => q,
            None => parent,
        }
    } else {
        parent
    }
}

/// Where a workspace keeps its sources unless told otherwise.
pub fn default_src_dir_for_config(config_path: &str) -> (r: String)
    ensures
        r@ == join_path(config_base_spec(config_path@), "play_src"@),
{
    let base = config_base_dir(config_path);
    proof {
        reveal_strlit("play_src");
    }
    join_path_text(base.as_str(), DEFAULT_SRC_DIR)
}

/// Where older versions kept the settings file: beside the tool's own folder.
pub fn legacy_config_path_for(config_path: &str) -> (r: String)
    ensures
        r@ == join_path(config_base_spec(config_path@), "transplanter.toml"@),
{
    let base = config_base_dir(config_path);
    proof {
        reveal_strlit("transplanter.toml");
    }
    join_path_text(base.as_str(), CONFIG_FILE_NAME)
}

/// The settings of a new workspace: the default source folder, no save folder yet,
/// and Rust.
pub fn default_initial_config(config_path: &str) -> (r: Config)
    ensures
        r.view_config() == (ConfigV {
            src: join_path(config_base_spec(config_path@), "play_src"@),
            out: Seq::empty(),
            language: LanguageMode::Rust,
            tag: Seq::empty(),
            notes: Seq::empty(),
        }),
{
    Config {
        src_dir: default_src_dir_for_config(config_path),
        out_dir: String::new(),
        language: LanguageMode::Rust,
        last_release_tag: String::new(),
        last_release_notes: String::new(),
    }
}

/// A blank source folder setting is replaced by the default one; whether it was.
pub fn fill_default_src_dir(config_path: &str, config: &mut Config) -> (changed: bool)
    ensures
        changed == (trim(old(config).src_dir@).len() == 0),
        final(config).view_config() == (if changed {
            ConfigV { src: join_path(config_base_spec(config_path@), "play_src"@), ..old(config).view_config() }
        } else {
            old(config).view_config()
        }),
{
    let src = chars_of(config.src_dir.as_str());
    let t = trim_text(&src);
    if t.len() == 0 {
        config.src_dir = default_src_dir_for_config(config_path);
        true
    } else {
        false
    }
}

/// The starter file a language gets when its source folder holds none of its files:
/// the language looked for, the file's name, and its text. Rust and both languages
/// get `main.rs`, Lisp gets `main.scm`.
pub fn starter_file(language: LanguageMode) -> (r: (LanguageMode, &'static str, &'static str))
    ensures
        language == LanguageMode::Lisp ==> r.0 == LanguageMode::Lisp && r.1@ == "main.scm"@ && r.2@ == DEFAULT_MAIN_SCM@,
        language != LanguageMode::Lisp ==> r.0 == LanguageMode::Rust && r.1@ == "main.rs"@ && r.2@ == DEFAULT_MAIN_RS@,
{
    proof {
        reveal_strlit("main.scm");
        reveal_strlit("main.rs");
    }
    match language {
        LanguageMode::Rust | LanguageMode::Auto => (LanguageMode::Rust, "main.rs", DEFAULT_MAIN_RS),
        LanguageMode::Lisp => (LanguageMode::Lisp, "main.scm", DEFAULT_MAIN_SCM),
    }
}

/// The other language's starter file that a language removes when it is still exactly
/// as generated: Rust drops `main.scm`, Lisp drops `main.rs`, both languages keep all.
pub fn generated_file_for_mode(language: LanguageMode) -> (r: Option<(&'static str, &'static str)>)
    ensures
        language == LanguageMode::Rust ==> (r matches Some(f) && f.0@ == "main.scm"@ && f.1@ == DEFAULT_MAIN_SCM@),
        language == LanguageMode::Lisp ==> (r matches Some(f) && f.0@ == "main.rs"@ && f.1@ == DEFAULT_MAIN_RS@),
        language == LanguageMode::Auto ==> r is None,
{
    proof {
        reveal_strlit("main.scm");
        reveal_strlit("main.rs");
    }
    match language {
        LanguageMode::Rust => Some(("main.scm", DEFAULT_MAIN_SCM)),
        LanguageMode::Lisp => Some(("main.rs", DEFAULT_MAIN_RS)),
        LanguageMode::Auto => None,
    }
}

/// A generated file is removed only when its text is still exactly what was written.
pub fn is_untouched_generated_file(contents: &str, generated: &str) -> (r: bool)
    ensures
        r == (contents@ == generated@),
{
    str_eq(contents, generated)
}

/// The starter files of older versions, beside the source folder, that are removed when
/// untouched: their paths and generated texts. There are some only when the source
/// folder (the default one when blank) lies directly in the workspace's base folder,
/// the two compared part by part as `Path` compares them.
pub open spec fn legacy_starters_spec(config_path: Seq<char>, src_dir: Seq<char>) -> Seq<(Seq<char>, Seq<char>)> {
    let base = config_base_spec(config_path);
    let src = if trim(src_dir).len() == 0 {
        join_path(base, "play_src"@)
    } else {
        src_dir
    };
    match parent_opt(src) {
        Some(p) => if same_output(p, base) {
            seq![
                (join_path(base, "main.rs"@), DEFAULT_MAIN_RS@),
                (join_path(base, "main.scm"@), DEFAULT_MAIN_SCM@),
                (join_path(base, "main.lisp"@), DEFAULT_MAIN_SCM@),
            ]
        } else {
            Seq::empty()
        },
        None => Seq::empty(),
    }
}

/// The untouched starter files of older versions to remove: paths and generated texts.
pub fn legacy_starter_files(config_path: &str, src_dir: &str) -> (r: Vec<(String, &'static str)>)
    ensures
        r@.map_values(|f: (String, &'static str)| (f.0@, f.1@)) == legacy_starters_spec(config_path@, src_dir@),
{
    let base = config_base_dir(config_path);
    let src_chars = chars_of(src_dir);
    let src = if trim_text(&src_chars).len() == 0 {
        default_src_dir_for_config(config_path)
    } else {
        String::from_str(src_dir)
    };
    proof {
        reveal_strlit("play_src");
        reveal_strlit("main.rs");
        reveal_strlit("main.scm");
        reveal_strlit("main.lisp");
    }
    let mut r: Vec<(String, &'static str)> = Vec::new();
    match parent_path(src.as_str()) {
        Some(p) => {
            if crate::project::same_output_text(p.as_str(), base.as_str()) {
                r.push((join_path_text(base.as_str(), "main.rs"), DEFAULT_MAIN_RS));
                r.push((join_path_text(base.as_str(), "main.scm"), DEFAULT_MAIN_SCM));
                r.push((join_path_text(base.as_str(), "main.lisp"), DEFAULT_MAIN_SCM));
            }
        },
        None => {},
    }
    proof {
        assert(r@.map_values(|f: (String, &'static str)| (f.0@, f.1@)) =~= legacy_starters_spec(config_path@, src_dir@));
    }
    r
}

/// The outcome of moving an old source folder's contents: success when nothing was
/// left behind, else the names of the files that clash with different ones already in
/// the new folder.
pub open spec fn migration_spec(from_dir: Seq<char>, to_dir: Seq<char>, blocked: Seq<Seq<char>>) -> Result<(), Seq<char>> {
    if blocked.len() == 0 {
        Ok(())
    } else {
        Err("エラー: `"@ + from_dir + "` から `"@ + to_dir + "` へ移行できない同名ファイルがあります: "@ + join(blocked, ", "@))
    }
}

/// The outcome of moving an old source folder's contents.
pub fn migration_result(from_dir: &str, to_dir: &str, blocked: &Vec<String>) -> (r: Result<(), String>)
    ensures
        match migration_spec(from_dir@, to_dir@, strings_view(blocked@)) {
            Ok(()) => r is Ok,
            Err(m) => r matches Err(e) && e@ == m,
        },
{
    if blocked.len() == 0 {
        return Ok(());
    }
    let mut m: Vec<char> = Vec::new();
    push_str(&mut m, "エラー: `");
    push_str(&mut m, from_dir);
    push_str(&mut m, "` から `");
    push_str(&mut m, to_dir);
    push_str(&mut m, "` へ移行できない同名ファイルがあります: ");
    let names = join_strings(blocked, ", ");
    push_str(&mut m, names.as_str());
    proof {
        assert(m@ =~= "エラー: `"@ + from_dir@ + "` から `"@ + to_dir@ + "` へ移行できない同名ファイルがあります: "@ + join(strings_view(blocked@), ", "@));
    }
    Err(string_of(m.as_slice()))
}

} // verus!
