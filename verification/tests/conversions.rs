use transplanter::paths::toml_string;
use transplanter::rust_py::error::RustToPythonError;
use transplanter::workspace::parse_toml_string;
use transplanter::{check_source, compile_lisp_source, compile_source};

fn rust_error(source: &str) -> RustToPythonError {
    compile_source(source).unwrap_err()
}

#[test]
fn rust_check_agrees_with_compile() {
    let sources = [
        "fn main() { harvest(); }",
        "fn main() { harvest() }",
        "fn helper() {}",
        "fn main() {}\nfn main() {}",
        "fn main(x: i32) {}",
        "fn main() { = 1; }",
        "fn main() { let x; }",
        "struct P { x: i32 }\nenum D { N, S }\nmod m { pub fn f() {} }\nfn main() { m::f(); }",
        "",
    ];
    for source in sources {
        let checked = check_source(source);
        let compiled = compile_source(source);
        assert_eq!(checked.is_ok(), compiled.is_ok(), "{source}");
        if let (Err(a), Err(b)) = (checked, compiled) {
            assert_eq!(a, b);
        }
    }
}

#[test]
fn missing_main_is_reported_at_the_last_token() {
    let err = rust_error("fn helper() {}");
    assert_eq!(err.message, "`fn main` がありません");
    assert_eq!((err.line, err.column), (1, 14));
}

#[test]
fn duplicate_main_is_reported_after_the_second_one() {
    let err = rust_error("fn main() {}\nfn main() {}");
    assert_eq!(err.message, "`fn main` が重複しています");
    assert_eq!((err.line, err.column), (2, 12));
}

#[test]
fn main_with_parameters_is_refused() {
    let err = rust_error("fn main(x: i32) {}");
    assert_eq!(err.message, "`fn main` に引数は指定できません");
    assert_eq!((err.line, err.column), (1, 18));
}

#[test]
fn assignment_without_target_is_refused() {
    let err = rust_error("fn main() { = 1; }");
    assert_eq!(err.message, "代入文が不正です");
    assert_eq!((err.line, err.column), (1, 16));
}

#[test]
fn let_without_value_is_refused() {
    let err = rust_error("fn main() { let x; }");
    assert_eq!(err.message, "let 文には `=` が必要です");
    assert_eq!((err.line, err.column), (1, 18));
}

#[test]
fn items_become_constants_factories_and_prefixed_functions() {
    let source = "struct P { x: i32 }\nenum D { N, S }\nmod m { pub fn f() {} }\nfn main() { m::f(); }";
    assert_eq!(
        compile_source(source).unwrap(),
        "D_N = \"D.N\"\nD_S = \"D.S\"\n\ndef P(x=None):\n    return {\"x\": x}\n\ndef m_f():\n    pass\n\nm_f()\n"
    );
}

#[test]
fn toml_strings_read_back_unchanged() {
    for value in ["", "plain", "a\\b", "\"quoted\"", "line\nbreak\tand\rreturn", "更新内容"] {
        assert_eq!(parse_toml_string(&toml_string(value)).unwrap(), value);
    }
}

#[test]
fn lisp_strings_are_written_as_debug_literals() {
    let source = "(define (main) (print \"a\u{7}b é\"))";
    assert_eq!(compile_lisp_source(source).unwrap(), "print(\"a\\u{7}b é\")\n");
}

#[test]
fn python_range_call_is_refused_in_input() {
    let err = rust_error("fn main() { for i in range(4) {} }");
    assert_eq!(
        err.message,
        "`range(...)` は入力では使えません。`for i in 0..n { ... }` のようにRustの範囲構文を使ってください"
    );
    assert_eq!((err.line, err.column), (1, 22));
}

#[test]
fn python_true_is_refused_in_a_condition() {
    let err = rust_error("fn main() { while True {} }");
    assert_eq!(
        err.message,
        "Python風の `True` は使えません。Rustの `true` を使ってください。常に繰り返す場合は `loop { ... }` も使えます"
    );
    assert_eq!((err.line, err.column), (1, 19));
}

#[test]
fn python_namespace_with_a_dot_is_refused() {
    let err = rust_error("fn main() { plant(Entities.Bush); }");
    assert_eq!(err.message, "`Entities` は出力側の名前空間です。入力では `Entity` を使ってください");
    assert_eq!((err.line, err.column), (1, 19));
}

#[test]
fn bare_direction_is_refused() {
    let err = rust_error("fn main() { move_dir(North); }");
    assert_eq!(err.message, "`North` は出力側の書き方です。入力では `Direction::North` を使ってください");
    assert_eq!((err.line, err.column), (1, 22));
    assert!(compile_source("fn main() { move_dir(Direction::North); }").is_ok());
}

#[test]
fn output_ends_with_one_line_break_and_an_empty_main_passes() {
    assert_eq!(compile_source("fn main() {}").unwrap(), "pass\n");
    let commented = compile_source("fn main() {\n    // later\n}\n").unwrap();
    assert!(commented.ends_with("pass\n"));
    for source in ["fn main() { harvest(); }\n\n\n", "fn helper() {}\nfn main() { helper(); }"] {
        let out = compile_source(source).unwrap();
        assert!(out.ends_with('\n') && !out.ends_with("\n\n"), "{out:?}");
    }
}
