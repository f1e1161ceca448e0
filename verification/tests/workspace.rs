use transplanter::language::LanguageMode;
use transplanter::paths::toml_string;
use transplanter::workspace::{parse_config, parse_toml_string, render_config, Config};

#[test]
fn toml_string_escapes_windows_paths() {
    assert_eq!(
        toml_string(r#"C:\Users\Player\The "Farm""#),
        r#""C:\\Users\\Player\\The \"Farm\"""#
    );
}

#[test]
fn config_round_trips_paths() {
    let config = Config {
        src_dir: r"C:\Users\Player\Desktop\farming\rs_src".to_string(),
        out_dir: r"C:\Users\Player\AppData\LocalLow\TheFarmerWasReplaced\Saves\Rust"
            .to_string(),
        language: LanguageMode::Lisp,
        last_release_tag: "v0.1.1".to_string(),
        last_release_notes: "更新内容".to_string(),
    };
    let rendered = render_config(&config);
    assert_eq!(parse_config(&rendered).unwrap(), config);
}

#[test]
fn config_without_language_defaults_to_auto() {
    let config = parse_config("src_dir = \"rs_src\"\nout_dir = \"py_src\"\n").unwrap();
    assert_eq!(config.language, LanguageMode::Auto);
}

#[test]
fn config_errors_and_escapes() {
    assert_eq!(
        parse_config("language = \"ruby\"\n").err().unwrap(),
        "エラー: language は auto、rust、lisp のどれかを指定してください: `ruby`"
    );
    assert_eq!(
        parse_toml_string("plain").err().unwrap(),
        "エラー: 設定ファイルの文字列は \"...\" で囲んでください"
    );
    assert_eq!(
        parse_toml_string("\"a\\\"").err().unwrap(),
        "エラー: 設定ファイルの文字列エスケープが途中で終わっています"
    );
    assert_eq!(parse_toml_string("\"a\\tb\\q\"").unwrap(), "a\tbq");
    let config = parse_config("# note\n\nsrc_dir = \"x\"\nother = \"y\"\nno equals\n").unwrap();
    assert_eq!(config.src_dir, "x");
    let text = render_config(&config);
    assert_eq!(
        text,
        "src_dir = \"x\"\nout_dir = \"\"\nlanguage = \"auto\"\nlast_release_tag = \"\"\nlast_release_notes = \"\"\n"
    );
}

#[test]
fn config_round_trips_escapes_and_every_mode() {
    for language in [LanguageMode::Auto, LanguageMode::Rust, LanguageMode::Lisp] {
        let config = Config {
            src_dir: "a\\b \"c\"\n".to_string(),
            out_dir: " = #x\t\r".to_string(),
            language,
            last_release_tag: String::new(),
            last_release_notes: "line one\nline two = \\".to_string(),
        };
        assert_eq!(parse_config(&render_config(&config)).unwrap(), config);
    }
}
