use transplanter::language::LanguageMode;
use transplanter::workspace::Config;
use transplanter::workspace_setup::{
    config_base_dir, default_initial_config, default_src_dir_for_config, fill_default_src_dir,
    generated_file_for_mode, is_untouched_generated_file, legacy_config_path_for,
    legacy_starter_files, migration_result, starter_file, DEFAULT_MAIN_RS, DEFAULT_MAIN_SCM,
};

#[test]
fn workspace_paths_are_read_beside_the_tool_folder() {
    assert_eq!(config_base_dir("C:\\farm\\.transplanter\\transplanter.toml"), "C:\\farm");
    assert_eq!(config_base_dir("farm/transplanter.toml"), "farm");
    assert_eq!(config_base_dir(".transplanter/transplanter.toml"), "");
    assert_eq!(config_base_dir("transplanter.toml"), "");
    assert_eq!(config_base_dir(""), ".");
    assert_eq!(default_src_dir_for_config("C:\\farm\\.transplanter\\transplanter.toml"), "C:\\farm/play_src");
    assert_eq!(default_src_dir_for_config(".transplanter/transplanter.toml"), "play_src");
    assert_eq!(legacy_config_path_for("/home/p/farm/.transplanter/transplanter.toml"), "/home/p/farm/transplanter.toml");
}

#[test]
fn a_new_workspace_starts_in_rust() {
    let config = default_initial_config("/w/.transplanter/transplanter.toml");
    assert_eq!(
        config,
        Config {
            src_dir: "/w/play_src".to_string(),
            out_dir: String::new(),
            language: LanguageMode::Rust,
            last_release_tag: String::new(),
            last_release_notes: String::new(),
        }
    );
}

#[test]
fn a_blank_source_folder_gets_the_default() {
    let mut config = Config { src_dir: "  ".to_string(), ..Config::default() };
    assert!(fill_default_src_dir("/w/.transplanter/transplanter.toml", &mut config));
    assert_eq!(config.src_dir, "/w/play_src");
    assert!(!fill_default_src_dir("/w/.transplanter/transplanter.toml", &mut config));
    assert_eq!(config.src_dir, "/w/play_src");
}

#[test]
fn starter_files_follow_the_language() {
    assert_eq!(starter_file(LanguageMode::Rust), (LanguageMode::Rust, "main.rs", DEFAULT_MAIN_RS));
    assert_eq!(starter_file(LanguageMode::Auto), (LanguageMode::Rust, "main.rs", DEFAULT_MAIN_RS));
    assert_eq!(starter_file(LanguageMode::Lisp), (LanguageMode::Lisp, "main.scm", DEFAULT_MAIN_SCM));
    assert!(DEFAULT_MAIN_RS.contains("harvest();"));
}

#[test]
fn only_the_other_languages_untouched_starter_is_removed() {
    assert_eq!(generated_file_for_mode(LanguageMode::Rust), Some(("main.scm", DEFAULT_MAIN_SCM)));
    assert_eq!(generated_file_for_mode(LanguageMode::Lisp), Some(("main.rs", DEFAULT_MAIN_RS)));
    assert_eq!(generated_file_for_mode(LanguageMode::Auto), None);
    assert!(is_untouched_generated_file(DEFAULT_MAIN_SCM, DEFAULT_MAIN_SCM));
    let edited = format!("{DEFAULT_MAIN_SCM}\n; user note\n");
    assert!(!is_untouched_generated_file(&edited, DEFAULT_MAIN_SCM));
}

#[test]
fn old_starters_are_looked_for_only_beside_the_source_folder() {
    let files = legacy_starter_files("/w/.transplanter/transplanter.toml", "");
    assert_eq!(
        files,
        vec![
            ("/w/main.rs".to_string(), DEFAULT_MAIN_RS),
            ("/w/main.scm".to_string(), DEFAULT_MAIN_SCM),
            ("/w/main.lisp".to_string(), DEFAULT_MAIN_SCM),
        ]
    );
    assert_eq!(legacy_starter_files("/w/.transplanter/transplanter.toml", "\\w\\src").len(), 3);
    assert!(legacy_starter_files("/w/.transplanter/transplanter.toml", "/elsewhere/src").is_empty());
}

#[test]
fn a_migration_reports_the_files_it_could_not_move() {
    assert_eq!(migration_result("rs_src", "play_src", &Vec::new()), Ok(()));
    assert_eq!(
        migration_result("rs_src", "play_src", &vec!["main.rs".to_string(), "lab.rs".to_string()]),
        Err("エラー: `rs_src` から `play_src` へ移行できない同名ファイルがあります: main.rs, lab.rs".to_string())
    );
}
