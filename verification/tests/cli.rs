use transplanter::cli::{parse_cli, plan, Plan};
use transplanter::language::LanguageMode;
use transplanter::paths::toml_string;

#[test]
fn parse_cli_empty_args_defaults_to_help() {
    let cli = parse_cli(Vec::new()).unwrap();
    assert!(cli.show_help);
}

#[test]
fn toml_strings_escape_windows_paths() {
    assert_eq!(
        toml_string(r#"C:\Users\Player\The "Farm""#),
        r#""C:\\Users\\Player\\The \"Farm\"""#
    );
}

fn args(items: &[&str]) -> Vec<String> {
    items.iter().map(|s| s.to_string()).collect()
}

#[test]
fn parse_cli_reads_paths_and_flags() {
    let cli = parse_cli(args(&["main.rs", "-o", "out.py"])).unwrap();
    assert_eq!(cli.input_path.as_deref(), Some("main.rs"));
    assert_eq!(cli.output_path.as_deref(), Some("out.py"));
    assert!(!cli.show_help);
    assert_eq!(cli.src_dir, "play_src");
    assert_eq!(cli.out_dir, "py_src");

    let cli = parse_cli(args(&["--sync", "--src", "a", "--out", "b"])).unwrap();
    assert!(cli.sync && cli.src_dir_set && cli.out_dir_set);
    assert_eq!(cli.src_dir, "a");
    assert_eq!(cli.out_dir, "b");
}

#[test]
fn parse_cli_reports_each_error() {
    assert_eq!(
        parse_cli(args(&["--unknown"])).err().unwrap(),
        "エラー: 不明なオプション `--unknown`"
    );
    assert_eq!(
        parse_cli(args(&["--version", "--unknown"])).err().unwrap(),
        "エラー: 不明なオプション `--unknown`"
    );
    assert_eq!(
        parse_cli(args(&["main.rs", "-o"])).err().unwrap(),
        "エラー: -o/--output の後に出力パスが必要です"
    );
    assert_eq!(
        parse_cli(args(&["--src"])).err().unwrap(),
        "エラー: --src の後に入力フォルダが必要です"
    );
    assert_eq!(
        parse_cli(args(&["--out"])).err().unwrap(),
        "エラー: --out の後に出力フォルダが必要です"
    );
    assert_eq!(
        parse_cli(args(&["a.rs", "b.rs"])).err().unwrap(),
        "エラー: 入力ファイルは1つだけ指定できます"
    );
}

#[test]
fn plan_follows_option_precedence() {
    let p = plan(&parse_cli(args(&["--help", "--sync"])).unwrap()).unwrap();
    assert!(matches!(p, Plan::ShowHelp));
    let p = plan(&parse_cli(args(&["-V"])).unwrap()).unwrap();
    assert!(matches!(p, Plan::ShowVersion));
    let p = plan(&parse_cli(args(&["main.rs", "--check"])).unwrap()).unwrap();
    assert!(matches!(p, Plan::Check { ref input_path } if input_path == "main.rs"));
    let p = plan(&parse_cli(args(&["--watch"])).unwrap()).unwrap();
    assert!(matches!(p, Plan::Watch { .. }));
    assert_eq!(
        plan(&parse_cli(args(&["main.rs", "--check", "-o", "output.py"])).unwrap()).err().unwrap(),
        "エラー: --check と -o/--output は同時に使えません"
    );
    assert_eq!(
        plan(&parse_cli(args(&["--sync", "main.rs"])).unwrap()).err().unwrap(),
        "エラー: --sync/--watch と入力ファイルは同時に使えません"
    );
    assert_eq!(
        plan(&parse_cli(args(&["--sync", "--watch"])).unwrap()).err().unwrap(),
        "エラー: --sync と --watch は同時に使えません"
    );
    assert_eq!(
        plan(&parse_cli(args(&["--check"])).unwrap()).err().unwrap(),
        "エラー: 入力ファイルが必要です"
    );
    assert_eq!(
        plan(&parse_cli(args(&["--init-ide", "--out", "x"])).unwrap()).err().unwrap(),
        "エラー: --init-ide では --out は使いません"
    );
}

#[test]
fn language_option_selects_the_project_language() {
    let p = plan(&parse_cli(args(&["--sync", "--language", "rust"])).unwrap()).unwrap();
    assert_eq!(
        p,
        Plan::Sync { src_dir: "play_src".to_string(), out_dir: "py_src".to_string(), language: LanguageMode::Rust }
    );
    let p = plan(&parse_cli(args(&["--watch", "--language", " LISP "])).unwrap()).unwrap();
    assert_eq!(
        p,
        Plan::Watch { src_dir: "play_src".to_string(), out_dir: "py_src".to_string(), language: LanguageMode::Lisp }
    );
    let p = plan(&parse_cli(args(&["--sync"])).unwrap()).unwrap();
    assert_eq!(
        p,
        Plan::Sync { src_dir: "play_src".to_string(), out_dir: "py_src".to_string(), language: LanguageMode::Auto }
    );
}

#[test]
fn language_option_errors() {
    let err = parse_cli(args(&["--sync", "--language", "ruby"])).err().unwrap();
    assert!(err.contains("--language") && err.contains("auto") && err.contains("rust") && err.contains("lisp"));
    assert_eq!(
        err,
        "エラー: 不明な言語モード `ruby` です。--language には auto / rust / lisp のどれかを指定してください"
    );
    assert_eq!(
        parse_cli(args(&["--sync", "--language"])).err().unwrap(),
        "エラー: --language の後に言語モードが必要です"
    );
    assert_eq!(
        plan(&parse_cli(args(&["main.rs", "--language", "rust"])).unwrap()).err().unwrap(),
        "エラー: 単体ファイル変換では --language は使いません"
    );
}
