//! The external Scheme check of Lisp sources: the file handed to the Scheme
//! implementation, and what each implementation's answer means.
use vstd::prelude::*;
use crate::paths::{push_quoted, quoted};
use crate::text::{chars_of, join, push_str, string_of, strings_view};

verus! {

/// Definitions that let a Scheme implementation compile a converter source: the
/// converter's own forms and the game's functions, all doing nothing.
pub const VALIDATION_PRELUDE: &'static str = r#"; Generated by Transplanter for external Scheme validation.
(define (use . args) #t)

(define-syntax loop
  (syntax-rules ()
    ((_ body ...)
     (let transplanter-loop ()
       body ...
       (transplanter-loop)))))

(define-syntax for
  (syntax-rules ()
    ((_ var start end body ...)
     (let transplanter-for ((var start))
       (if (< var end)
           (begin
             body ...
             (transplanter-for (+ var 1)))
           #t)))))

(define (transplanter-any . args) #t)
(define :north 'north)
(define :east 'east)
(define :south 'south)
(define :west 'west)

(define harvest transplanter-any)
(define can-harvest transplanter-any)
(define swap transplanter-any)
(define plant transplanter-any)
(define move transplanter-any)
(define move-dir transplanter-any)
(define till transplanter-any)
(define trade transplanter-any)
(define get-pos-x transplanter-any)
(define get-pos-y transplanter-any)
(define get-world-size transplanter-any)
(define get-entity-type transplanter-any)
(define get-ground-type transplanter-any)
(define get-tick-count transplanter-any)
(define get-time transplanter-any)
(define get-op-count transplanter-any)
(define use-item transplanter-any)
(define get-water transplanter-any)
(define do-a-flip transplanter-any)
(define print transplanter-any)
(define quick-print transplanter-any)
(define len transplanter-any)
(define num-items transplanter-any)
(define get-cost transplanter-any)
(define clear transplanter-any)
(define get-companion transplanter-any)
(define unlock transplanter-any)
(define num-unlocked transplanter-any)
(define timed-reset transplanter-any)
(define measure transplanter-any)
(define dict transplanter-any)
(define set transplanter-any)
(define set-execution-speed transplanter-any)
(define set-farm-size transplanter-any)
(define simulate transplanter-any)
(define leaderboard-run transplanter-any)
(define direction transplanter-any)
(define entity transplanter-any)
(define ground transplanter-any)
(define item transplanter-any)
(define leaderboard transplanter-any)
(define index transplanter-any)
(define set-index! transplanter-any)
"#;

/// A Scheme implementation that can check a Lisp source.
#[derive(Clone, Copy, Debug, PartialEq, Eq)]
pub enum SchemeChecker {
    GuileGuild,
    GuileCommand,
    ChezScheme(&'static str),
}

/// An implementation's name in messages.
pub open spec fn checker_name(c: SchemeChecker) -> Seq<char> {
    match c {
        SchemeChecker::GuileGuild => "Guile Scheme (`guild compile`)"@,
        SchemeChecker::GuileCommand => "Guile Scheme (`guile -s`)"@,
        SchemeChecker::ChezScheme(c) => if c@ == "chezscheme"@ {
            "Chez Scheme (`chezscheme --script`)"@
        } else {
            "Chez Scheme (`scheme --script`)"@
        },
    }
}

impl SchemeChecker {
    /// The command that runs it.
    pub fn command(self) -> (r: &'static str)
        ensures
            r@ == match self {
                SchemeChecker::GuileGuild => "guild"@,
                SchemeChecker::GuileCommand => "guile"@,
                SchemeChecker::ChezScheme(c) => c@,
            },
    {
        match self {
            SchemeChecker::GuileGuild => "guild",
            SchemeChecker::GuileCommand => "guile",
            SchemeChecker::ChezScheme(command) => command,
        }
    }

    /// Its name in messages.
    pub fn name(self) -> (r: &'static str)
        ensures
            r@ == checker_name(self),
    {
        match self {
            SchemeChecker::GuileGuild => "Guile Scheme (`guild compile`)",
            SchemeChecker::GuileCommand => "Guile Scheme (`guile -s`)",
            SchemeChecker::ChezScheme(c) => if crate::text::str_eq(c, "chezscheme") {
                "Chez Scheme (`chezscheme --script`)"
            } else {
                "Chez Scheme (`scheme --script`)"
            },
        }
    }
}

/// The implementations tried, in order.
pub fn default_checkers() -> (r: Vec<SchemeChecker>)
    ensures
        r@ == seq![SchemeChecker::GuileGuild, SchemeChecker::GuileCommand, SchemeChecker::ChezScheme("chezscheme"), SchemeChecker::ChezScheme("scheme")],
{
    let v: Vec<SchemeChecker> = vec![SchemeChecker::GuileGuild, SchemeChecker::GuileCommand, SchemeChecker::ChezScheme("chezscheme"), SchemeChecker::ChezScheme("scheme")];
    proof {
        assert(v@ =~= seq![SchemeChecker::GuileGuild, SchemeChecker::GuileCommand, SchemeChecker::ChezScheme("chezscheme"), SchemeChecker::ChezScheme("scheme")]);
    }
    v
}

/// A path as a Scheme string literal.
pub fn scheme_string(path: &str) -> (r: String)
    ensures
        r@ == quoted(path@),
{
    let v = chars_of(path);
    let mut out: Vec<char> = Vec::new();
    push_quoted(&mut out, &v);
    string_of(out.as_slice())
}

/// The file handed to the Scheme implementation: the prelude, an empty line, then the
/// source.
pub fn validation_source(source: &str) -> (r: String)
    ensures
        r@ == VALIDATION_PRELUDE@ + seq!['\n', '\n'] + source@,
{
    let mut out: Vec<char> = Vec::new();
    push_str(&mut out, VALIDATION_PRELUDE);
    out.push('\n');
    out.push('\n');
    push_str(&mut out, source);
    proof {
        assert(out@ =~= VALIDATION_PRELUDE@ + seq!['\n', '\n'] + source@);
    }
    string_of(out.as_slice())
}

/// How a run of one implementation ended.
#[derive(Debug, Clone, PartialEq, Eq)]
pub enum CheckerOutcome {
    /// It compiled the file.
    Passed,
    /// It ran and refused the file, printing `details`.
    Failed { details: String },
    /// Its command does not exist.
    NotFound,
    /// It could not be started for another reason, given as text.
    StartFailed { error: String },
}

/// What to do after one implementation's run.
#[derive(Debug, Clone, PartialEq, Eq)]
pub enum CheckerVerdict {
    /// The source is accepted.
    Accept,
    /// The source or the run failed, with this message.
    Reject(String),
    /// The implementation is missing: try the next one.
    TryNext,
}

/// The verdict on the run of `checker` for the file `input_path`.
pub fn checker_verdict(input_path: &str, checker: SchemeChecker, outcome: CheckerOutcome) -> (r: CheckerVerdict)
    ensures
        match outcome {
            CheckerOutcome::Passed => r is Accept,
            CheckerOutcome::NotFound => r is TryNext,
            CheckerOutcome::Failed { details } => r matches CheckerVerdict::Reject(m) && m@ == "エラー: `"@ + input_path@
                + "` は"@ + checker_name(checker) + "で検査した結果、Schemeとしてコンパイルできません。\n"@ + details@,
            CheckerOutcome::StartFailed { error } => r matches CheckerVerdict::Reject(m) && m@ == "エラー: "@ + checker_name(checker)
                + "を起動できません: "@ + error@,
        },
{
    match outcome {
        CheckerOutcome::Passed => CheckerVerdict::Accept,
        CheckerOutcome::NotFound => CheckerVerdict::TryNext,
        CheckerOutcome::Failed { details } => {
            let mut m: Vec<char> = Vec::new();
            push_str(&mut m, "エラー: `");
            push_str(&mut m, input_path);
            push_str(&mut m, "` は");
            push_str(&mut m, checker.name());
            push_str(&mut m, "で検査した結果、Schemeとしてコンパイルできません。\n");
            push_str(&mut m, details.as_str());
            CheckerVerdict::Reject(string_of(m.as_slice()))
        },
        CheckerOutcome::StartFailed { error } => {
            let mut m: Vec<char> = Vec::new();
            push_str(&mut m, "エラー: ");
            push_str(&mut m, checker.name());
            push_str(&mut m, "を起動できません: ");
            push_str(&mut m, error.as_str());
            CheckerVerdict::Reject(string_of(m.as_slice()))
        },
    }
}

/// The message when no implementation was found; `tried` are their commands.
pub fn missing_checkers_message(input_path: &str, tried: &Vec<String>) -> (r: String)
    ensures
        r@ == "エラー: `"@ + input_path@ + "` はLisp入力ですが、外部Scheme検査に使う Guile Scheme (`guild` / `guile`) または Chez Scheme (`chezscheme` / `scheme`) が見つかりません。\nGuile または Chez Scheme をインストールしてPATHに追加してください。\n試したコマンド: "@
            + join(strings_view(tried@), ", "@),
{
    let mut m: Vec<char> = Vec::new();
    push_str(&mut m, "エラー: `");
    push_str(&mut m, input_path);
    push_str(&mut m, "` はLisp入力ですが、外部Scheme検査に使う Guile Scheme (`guild` / `guile`) または Chez Scheme (`chezscheme` / `scheme`) が見つかりません。\nGuile または Chez Scheme をインストールしてPATHに追加してください。\n試したコマンド: ");
    crate::text::push_join_strings(&mut m, tried, ", ");
    string_of(m.as_slice())
}

/// What a run makes of finding no Scheme implementation: converting or checking one
/// named file goes on, with the message as a warning; a project run stops with it, so
/// that no output is written from an unchecked source.
pub fn no_checker_outcome(input_path: &str, tried: &Vec<String>, single_file: bool) -> (r: Result<String, String>)
    ensures
        single_file ==> (r matches Ok(w) && w@ == "エラー: `"@ + input_path@ + "` はLisp入力ですが、外部Scheme検査に使う Guile Scheme (`guild` / `guile`) または Chez Scheme (`chezscheme` / `scheme`) が見つかりません。\nGuile または Chez Scheme をインストールしてPATHに追加してください。\n試したコマンド: "@
            + join(strings_view(tried@), ", "@)),
        !single_file ==> (r matches Err(e) && e@ == "エラー: `"@ + input_path@ + "` はLisp入力ですが、外部Scheme検査に使う Guile Scheme (`guild` / `guile`) または Chez Scheme (`chezscheme` / `scheme`) が見つかりません。\nGuile または Chez Scheme をインストールしてPATHに追加してください。\n試したコマンド: "@
            + join(strings_view(tried@), ", "@)),
{
    let message = missing_checkers_message(input_path, tried);
    if single_file {
        Ok(message)
    } else {
        Err(message)
    }
}

} // verus!
