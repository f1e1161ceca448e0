use transplanter::lisp_check::{
    checker_verdict, default_checkers, missing_checkers_message, no_checker_outcome, scheme_string,
    validation_source,
    CheckerOutcome, CheckerVerdict, SchemeChecker, VALIDATION_PRELUDE,
};

#[test]
fn scheme_string_escapes_windows_paths() {
    assert_eq!(
        scheme_string(r#"C:\Users\Player\my "farm".scm"#),
        r#""C:\\Users\\Player\\my \"farm\".scm""#
    );
}

#[test]
fn validation_source_puts_prelude_first() {
    let s = validation_source("(define (main) (harvest))");
    assert!(s.starts_with(VALIDATION_PRELUDE));
    assert!(s.ends_with("\n\n(define (main) (harvest))"));
}

#[test]
fn checker_verdicts_and_missing_message() {
    assert!(matches!(checker_verdict("main.scm", SchemeChecker::GuileGuild, CheckerOutcome::Passed), CheckerVerdict::Accept));
    assert!(matches!(checker_verdict("main.scm", SchemeChecker::GuileGuild, CheckerOutcome::NotFound), CheckerVerdict::TryNext));
    match checker_verdict("main.scm", SchemeChecker::ChezScheme("scheme"), CheckerOutcome::Failed { details: "bad".to_string() }) {
        CheckerVerdict::Reject(m) => assert_eq!(m, "エラー: `main.scm` はChez Scheme (`scheme --script`)で検査した結果、Schemeとしてコンパイルできません。\nbad"),
        _ => panic!("expected a rejection"),
    }
    let tried: Vec<String> = default_checkers().iter().map(|c| c.command().to_string()).collect();
    let m = missing_checkers_message("main.scm", &tried);
    assert!(m.contains("外部Scheme検査"));
    assert!(m.ends_with("試したコマンド: guild, guile, chezscheme, scheme"));
}

#[test]
fn reports_missing_checker() {
    let tried: Vec<String> = Vec::new();
    let err = missing_checkers_message("main.scm", &tried);
    assert!(err.contains("外部Scheme検査"), "{err}");
}

#[test]
fn a_missing_checker_stops_only_project_runs() {
    let tried = vec!["guild".to_string(), "guile".to_string()];
    let warning = no_checker_outcome("main.scm", &tried, true).unwrap();
    assert!(warning.contains("外部Scheme検査"));
    assert!(warning.ends_with("試したコマンド: guild, guile"));
    let err = no_checker_outcome("main.scm", &tried, false).unwrap_err();
    assert_eq!(err, warning);
}
