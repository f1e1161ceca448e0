use transplanter::language::{language_mismatch, LanguageMode};
use transplanter::paths::{
    file_name, is_lisp_file, is_rs_file, is_source_file, manifest_path_string, parent_path,
    project_dir_for_src_dir, should_skip_source_dir, system_dir_for_src_dir,
};

#[test]
fn language_modes_parse_and_cycle() {
    assert_eq!(LanguageMode::parse(" RUST "), Some(LanguageMode::Rust));
    assert_eq!(LanguageMode::parse("lisp"), Some(LanguageMode::Lisp));
    assert_eq!(LanguageMode::parse("ruby"), None);
    for m in [LanguageMode::Auto, LanguageMode::Rust, LanguageMode::Lisp] {
        assert_eq!(LanguageMode::parse(m.as_str()), Some(m));
        assert_eq!(m.next().next().next(), m);
    }
    assert_eq!(LanguageMode::Rust.next(), LanguageMode::Lisp);
    assert_eq!(LanguageMode::Auto.display_name(), "自動");
    assert!(LanguageMode::Auto.includes_rust());
    assert!(!LanguageMode::Lisp.includes_rust());
    assert!(LanguageMode::Lisp.accepts_path("a/b.SCM"));
    assert!(!LanguageMode::Rust.accepts_path("a/b.scm"));
    assert!(LanguageMode::Auto.accepts_path("main.rs"));
}

#[test]
fn paths_by_extension_and_name() {
    assert!(is_rs_file(r"C:\farm\main.rs"));
    assert!(is_rs_file("main.RS"));
    assert!(!is_rs_file(".rs"));
    assert!(!is_rs_file("main.rs/.."));
    assert!(is_lisp_file("x.lisp"));
    assert!(is_source_file("x.scm"));
    assert!(!is_source_file("notes.txt"));
    assert_eq!(file_name("a/b/c.rs/").as_deref(), Some("c.rs"));
    assert_eq!(file_name(".."), None);
    assert!(should_skip_source_dir("play_src/target"));
    assert!(should_skip_source_dir(r"x\.transplanter"));
    assert!(!should_skip_source_dir("src"));
    assert_eq!(manifest_path_string(r"a\b/c"), "a/b/c");
    assert_eq!(project_dir_for_src_dir("play_src"), ".");
    assert_eq!(project_dir_for_src_dir("/home/p/play_src/"), "/home/p");
    assert_eq!(project_dir_for_src_dir("/play_src"), "/");
    assert_eq!(system_dir_for_src_dir("farm/play_src"), "farm/.transplanter");
}

#[test]
fn a_drive_keeps_its_root_in_a_parent() {
    assert_eq!(project_dir_for_src_dir(r"C:\play_src"), r"C:\");
    assert_eq!(project_dir_for_src_dir("C:play_src"), "C:");
    assert_eq!(project_dir_for_src_dir(r"C:\farm\play_src\"), r"C:\farm");
    assert_eq!(system_dir_for_src_dir(r"C:\play_src"), r"C:\.transplanter");
    assert_eq!(parent_path(r"C:\"), None);
    assert_eq!(parent_path("C:"), None);
    assert_eq!(parent_path("/"), None);
    assert_eq!(parent_path(""), None);
    assert_eq!(parent_path("C:a"), Some("C:".to_string()));
    assert_eq!(parent_path(r"C:\a\b"), Some(r"C:\a".to_string()));
    assert_eq!(parent_path("a"), Some(String::new()));
    assert_eq!(parent_path("/a/./"), Some("/".to_string()));
}

#[test]
fn a_file_of_another_language_is_refused_by_name() {
    assert_eq!(language_mismatch(LanguageMode::Rust, "play_src/main.rs"), None);
    assert_eq!(language_mismatch(LanguageMode::Auto, "play_src/main.scm"), None);
    assert_eq!(
        language_mismatch(LanguageMode::Lisp, "play_src/main.rs"),
        Some("エラー: `play_src/main.rs` は lisp mode の対象ファイルではありません".to_string())
    );
}

#[test]
fn a_trailing_dot_part_does_not_hide_the_file_name() {
    assert!(transplanter::paths::is_rs_file("main.rs/."));
    assert!(transplanter::paths::is_lisp_file("play_src/main.scm/./"));
    assert!(!transplanter::paths::is_rs_file("."));
    assert_eq!(transplanter::paths::file_name("crops/carrot.rs/."), Some("carrot.rs".to_string()));
    assert_eq!(transplanter::paths::file_name("/."), None);
}
