//! The command line: its options, and which run they ask for.
use vstd::prelude::*;
use crate::language::{parse_mode, LanguageMode};
use crate::paths::{DEFAULT_OUT_DIR, DEFAULT_SRC_DIR};
use crate::text::{push_str, str_eq, string_of};

verus! {

/// The parsed command line.
#[derive(Debug, Clone, PartialEq, Eq)]
pub struct Cli {
    pub input_path: Option<String>,
    pub output_path: Option<String>,
    pub show_help: bool,
    pub show_version: bool,
    pub check_only: bool,
    pub sync: bool,
    pub watch: bool,
    pub init_ide: bool,
    pub src_dir: String,
    pub out_dir: String,
    pub src_dir_set: bool,
    pub out_dir_set: bool,
    pub language: LanguageMode,
    pub language_set: bool,
}

/// What a parsed command line holds.
pub struct CliV {
    pub input: Option<Seq<char>>,
    pub output: Option<Seq<char>>,
    pub help: bool,
    pub version: bool,
    pub check: bool,
    pub sync: bool,
    pub watch: bool,
    pub init_ide: bool,
    pub src: Seq<char>,
    pub out: Seq<char>,
    pub src_set: bool,
    pub out_set: bool,
    pub language: LanguageMode,
    pub language_set: bool,
}

pub open spec fn opt_view(o: Option<String>) -> Option<Seq<char>> {
    match o {
        Some(s) => Some(s@),
        None => None,
    }
}

impl Cli {
    pub open spec fn view_cli(&self) -> CliV {
        CliV {
            input: opt_view(self.input_path),
            output: opt_view(self.output_path),
            help: self.show_help,
            version: self.show_version,
            check: self.check_only,
            sync: self.sync,
            watch: self.watch,
            init_ide: self.init_ide,
            src: self.src_dir@,
            out: self.out_dir@,
            src_set: self.src_dir_set,
            out_set: self.out_dir_set,
            language: self.language,
            language_set: self.language_set,
        }
    }
}

/// The command line with no option given.
pub open spec fn default_cli() -> CliV {
    CliV {
        input: None,
        output: None,
        help: false,
        version: false,
        check: false,
        sync: false,
        watch: false,
        init_ide: false,
        src: "play_src"@,
        out: "py_src"@,
        src_set: false,
        out_set: false,
        language: LanguageMode::Auto,
        language_set: false,
    }
}

/// Why a `--language` value is refused.
pub open spec fn unknown_language_message(v: Seq<char>) -> Seq<char> {
    "エラー: 不明な言語モード `"@ + v + "` です。--language には auto / rust / lisp のどれかを指定してください"@
}

/// The setting a flag without a value turns on, if `a` is one.
pub open spec fn flag_update(a: Seq<char>, c: CliV) -> Option<CliV> {
    if a == "-h"@ || a == "--help"@ {
        Some(CliV { help: true, ..c })
    } else if a == "-V"@ || a == "--version"@ {
        Some(CliV { version: true, ..c })
    } else if a == "--check"@ {
        Some(CliV { check: true, ..c })
    } else if a == "--sync"@ {
        Some(CliV { sync: true, ..c })
    } else if a == "--watch"@ {
        Some(CliV { watch: true, ..c })
    } else if a == "--init-ide"@ {
        Some(CliV { init_ide: true, ..c })
    } else {
        None
    }
}

/// Why an option that takes a value lacks it, if `a` is such an option.
pub open spec fn missing_value_message(a: Seq<char>) -> Option<Seq<char>> {
    if a == "--src"@ {
        Some("エラー: --src の後に入力フォルダが必要です"@)
    } else if a == "--out"@ {
        Some("エラー: --out の後に出力フォルダが必要です"@)
    } else if a == "--language"@ {
        Some("エラー: --language の後に言語モードが必要です"@)
    } else if a == "-o"@ || a == "--output"@ {
        Some("エラー: -o/--output の後に出力パスが必要です"@)
    } else {
        None
    }
}

/// What option `a` with value `v` sets (`a` being one that takes a value).
pub open spec fn value_update(a: Seq<char>, v: Seq<char>, c: CliV) -> Result<CliV, Seq<char>> {
    if a == "--src"@ {
        Ok(CliV { src: v, src_set: true, ..c })
    } else if a == "--out"@ {
        Ok(CliV { out: v, out_set: true, ..c })
    } else if a == "--language"@ {
        match parse_mode(v) {
            Some(m) => Ok(CliV { language: m, language_set: true, ..c }),
            None => Err(unknown_language_message(v)),
        }
    } else {
        Ok(CliV { output: Some(v), ..c })
    }
}

/// Reads the arguments from index `i` on into `c`.
pub open spec fn cli_from(args: Seq<Seq<char>>, i: int, c: CliV) -> Result<CliV, Seq<char>>
    decreases args.len() - i,
{
    if i < 0 || i >= args.len() {
        Ok(c)
    } else {
        let a = args[i];
        match flag_update(a, c) {
            Some(c2) => cli_from(args, i + 1, c2),
            None => match missing_value_message(a) {
                Some(missing) => if i + 1 < args.len() {
                    match value_update(a, args[i + 1], c) {
                        Ok(c2) => cli_from(args, i + 2, c2),
                        Err(e) => Err(e),
                    }
                } else {
                    Err(missing)
                },
                None => if a.len() > 0 && a[0] == '-' {
                    Err("エラー: 不明なオプション `"@ + a + "`"@)
                } else if c.input is Some {
                    Err("エラー: 入力ファイルは1つだけ指定できます"@)
                } else {
                    cli_from(args, i + 1, CliV { input: Some(a), ..c })
                },
            },
        }
    }
}

/// The command line the arguments make; no argument at all asks for help.
pub open spec fn parse_cli_spec(args: Seq<Seq<char>>) -> Result<CliV, Seq<char>> {
    if args.len() == 0 {
        Ok(CliV { help: true, ..default_cli() })
    } else {
        cli_from(args, 0, default_cli())
    }
}

pub open spec fn args_view(args: Seq<String>) -> Seq<Seq<char>> {
    args.map_values(|a: String| a@)
}

fn default_cli_value() -> (c: Cli)
    ensures
        c.view_cli() == default_cli(),
{
    Cli {
        input_path: None,
        output_path: None,
        show_help: false,
        show_version: false,
        check_only: false,
        sync: false,
        watch: false,
        init_ide: false,
        src_dir: String::from_str(DEFAULT_SRC_DIR),
        out_dir: String::from_str(DEFAULT_OUT_DIR),
        src_dir_set: false,
        out_dir_set: false,
        language: LanguageMode::Auto,
        language_set: false,
    }
}

/// Turns on the setting of flag `a`; whether `a` is a flag.
fn read_flag(a: &str, cli: &mut Cli) -> (r: bool)
    ensures
        match flag_update(a@, old(cli).view_cli()) {
            Some(c) => r && final(cli).view_cli() == c,
            None => !r && final(cli).view_cli() == old(cli).view_cli(),
        },
{
    if str_eq(a, "-h") || str_eq(a, "--help") {
        cli.show_help = true;
    } else if str_eq(a, "-V") || str_eq(a, "--version") {
        cli.show_version = true;
    } else if str_eq(a, "--check") {
        cli.check_only = true;
    } else if str_eq(a, "--sync") {
        cli.sync = true;
    } else if str_eq(a, "--watch") {
        cli.watch = true;
    } else if str_eq(a, "--init-ide") {
        cli.init_ide = true;
    } else {
        return false;
    }
    true
}

/// Why option `a` lacks its value, if it takes one.
fn missing_value(a: &str) -> (r: Option<&'static str>)
    ensures
        match missing_value_message(a@) {
            Some(m) => r matches Some(t) && t@ == m,
            None => r is None,
        },
{
    if str_eq(a, "--src") {
        Some("エラー: --src の後に入力フォルダが必要です")
    } else if str_eq(a, "--out") {
        Some("エラー: --out の後に出力フォルダが必要です")
    } else if str_eq(a, "--language") {
        Some("エラー: --language の後に言語モードが必要です")
    } else if str_eq(a, "-o") || str_eq(a, "--output") {
        Some("エラー: -o/--output の後に出力パスが必要です")
    } else {
        None
    }
}

/// Sets what option `a` (one that takes a value) says with value `v`.
fn read_value(a: &str, v: &String, cli: &mut Cli) -> (r: Result<(), String>)
    requires
        missing_value_message(a@) is Some,
    ensures
        match value_update(a@, v@, old(cli).view_cli()) {
            Ok(c) => r is Ok && final(cli).view_cli() == c,
            Err(m) => r matches Err(e) && e@ == m,
        },
{
    if str_eq(a, "--src") {
        cli.src_dir = v.clone();
        cli.src_dir_set = true;
    } else if str_eq(a, "--out") {
        cli.out_dir = v.clone();
        cli.out_dir_set = true;
    } else if str_eq(a, "--language") {
        cli.language = language_arg(v.as_str())?;
        cli.language_set = true;
    } else {
        cli.output_path = Some(v.clone());
    }
    Ok(())
}

/// Reads the argument at `i` (and the value after it, for an option that takes one)
/// into `cli`; the index of the next argument.
fn read_arg(args: &Vec<String>, i: usize, cli: &mut Cli) -> (r: Result<usize, String>)
    requires
        i < args@.len(),
    ensures
        match r {
            Ok(j) => i < j <= args@.len() && cli_from(args_view(args@), i as int, old(cli).view_cli())
                == cli_from(args_view(args@), j as int, final(cli).view_cli()),
            Err(e) => cli_from(args_view(args@), i as int, old(cli).view_cli()) == Err::<CliV, Seq<char>>(e@),
        },
{
    let ghost av = args_view(args@);
    let n = args.len();
    let a = args[i].as_str();
    proof {
        assert(av[i as int] == a@);
    }
    if read_flag(a, cli) {
        return Ok(i + 1);
    }
    match missing_value(a) {
        Some(m) => {
            if n - i < 2 {
                return Err(String::from_str(m));
            }
            proof {
                assert(av[i + 1] == args@[i + 1]@);
            }
            read_value(a, &args[i + 1], cli)?;
            Ok(i + 2)
        },
        None => {
            if starts_with_dash(a) {
                let mut m: Vec<char> = Vec::new();
                push_str(&mut m, "エラー: 不明なオプション `");
                push_str(&mut m, a);
                push_str(&mut m, "`");
                return Err(string_of(m.as_slice()));
            }
            if cli.input_path.is_some() {
                return Err(String::from_str("エラー: 入力ファイルは1つだけ指定できます"));
            }
            cli.input_path = Some(String::from_str(a));
            Ok(i + 1)
        },
    }
}

/// Reads the command-line arguments.
pub fn parse_cli(args: Vec<String>) -> (r: Result<Cli, String>)
    ensures
        match parse_cli_spec(args_view(args@)) {
            Ok(c) => r matches Ok(cli) && cli.view_cli() == c,
            Err(m) => r matches Err(e) && e@ == m,
        },
{
    let ghost av = args_view(args@);
    let mut cli = default_cli_value();
    if args.len() == 0 {
        cli.show_help = true;
        return Ok(cli);
    }
    let mut i: usize = 0;
    while i < args.len()
        invariant
            i <= args@.len(),
            av == args_view(args@),
            parse_cli_spec(av) == cli_from(av, i as int, cli.view_cli()),
        decreases args@.len() - i,
    {
        i = read_arg(&args, i, &mut cli)?;
    }
    Ok(cli)
}

/// The language a `--language` value names.
fn language_arg(v: &str) -> (r: Result<LanguageMode, String>)
    ensures
        match parse_mode(v@) {
            Some(m) => r == Ok::<LanguageMode, String>(m),
            None => r matches Err(e) && e@ == unknown_language_message(v@),
        },
{
    match LanguageMode::parse(v) {
        Some(m) => Ok(m),
        None => {
            let mut m: Vec<char> = Vec::new();
            push_str(&mut m, "エラー: 不明な言語モード `");
            push_str(&mut m, v);
            push_str(&mut m, "` です。--language には auto / rust / lisp のどれかを指定してください");
            proof {
                assert(m@ =~= unknown_language_message(v@));
            }
            Err(string_of(m.as_slice()))
        },
    }
}

fn starts_with_dash(a: &str) -> (r: bool)
    ensures
        r == (a@.len() > 0 && a@[0] == '-'),
{
    let cs = crate::text::chars_of(a);
    cs.len() > 0 && cs[0] == '-'
}

/// What a command line asks to be done.
#[derive(Debug, Clone, PartialEq, Eq)]
pub enum Plan {
    ShowHelp,
    ShowVersion,
    InitIde { src_dir: String },
    Sync { src_dir: String, out_dir: String, language: LanguageMode },
    Watch { src_dir: String, out_dir: String, language: LanguageMode },
    Check { input_path: String },
    Compile { input_path: String, output_path: Option<String> },
}

/// What a plan holds.
pub enum PlanV {
    ShowHelp,
    ShowVersion,
    InitIde(Seq<char>),
    Sync(Seq<char>, Seq<char>, LanguageMode),
    Watch(Seq<char>, Seq<char>, LanguageMode),
    Check(Seq<char>),
    Compile(Seq<char>, Option<Seq<char>>),
}

impl Plan {
    pub open spec fn view_plan(&self) -> PlanV {
        match self {
            Plan::ShowHelp => PlanV::ShowHelp,
            Plan::ShowVersion => PlanV::ShowVersion,
            Plan::InitIde { src_dir } => PlanV::InitIde(src_dir@),
            Plan::Sync { src_dir, out_dir, language } => PlanV::Sync(src_dir@, out_dir@, *language),
            Plan::Watch { src_dir, out_dir, language } => PlanV::Watch(src_dir@, out_dir@, *language),
            Plan::Check { input_path } => PlanV::Check(input_path@),
            Plan::Compile { input_path, output_path } => PlanV::Compile(input_path@, opt_view(*output_path)),
        }
    }
}

/// The run a command line asks for, or why its options do not go together. Help wins
/// over everything, then the version, then `--init-ide`, then `--sync`/`--watch` (in
/// the language `--language` names, both by default), and otherwise one file is
/// converted or checked, whose language its extension tells.
pub open spec fn plan_spec(c: CliV) -> Result<PlanV, Seq<char>> {
    if c.help {
        Ok(PlanV::ShowHelp)
    } else if c.version {
        Ok(PlanV::ShowVersion)
    } else if c.init_ide {
        if c.sync || c.watch {
            Err("エラー: --init-ide と --sync/--watch は同時に使えません"@)
        } else if c.input is Some {
            Err("エラー: --init-ide と入力ファイルは同時に使えません"@)
        } else if c.output is Some {
            Err("エラー: --init-ide と -o/--output は同時に使えません"@)
        } else if c.check {
            Err("エラー: --init-ide と --check は同時に使えません"@)
        } else if c.out_set {
            Err("エラー: --init-ide では --out は使いません"@)
        } else {
            Ok(PlanV::InitIde(c.src))
        }
    } else if c.sync || c.watch {
        if c.sync && c.watch {
            Err("エラー: --sync と --watch は同時に使えません"@)
        } else if c.input is Some {
            Err("エラー: --sync/--watch と入力ファイルは同時に使えません"@)
        } else if c.output is Some {
            Err("エラー: --sync/--watch と -o/--output は同時に使えません"@)
        } else if c.check {
            Err("エラー: --sync/--watch と --check は同時に使えません"@)
        } else if c.watch {
            Ok(PlanV::Watch(c.src, c.out, c.language))
        } else {
            Ok(PlanV::Sync(c.src, c.out, c.language))
        }
    } else if c.src_set || c.out_set {
        Err("エラー: --src/--out は --sync または --watch と一緒に使います"@)
    } else if c.language_set {
        Err("エラー: 単体ファイル変換では --language は使いません"@)
    } else {
        match c.input {
            None => Err("エラー: 入力ファイルが必要です"@),
            Some(input) => if c.check && c.output is Some {
                Err("エラー: --check と -o/--output は同時に使えません"@)
            } else if c.check {
                Ok(PlanV::Check(input))
            } else {
                Ok(PlanV::Compile(input, c.output))
            },
        }
    }
}

/// A conversion of one file writes its Python where `-o`/`--output` said, and converts
/// the input file the command line named: a planned conversion holds exactly the
/// command line's input and output paths, and a command line that asks for nothing
/// but a conversion plans one.
pub proof fn lemma_compile_plan_keeps_the_paths(c: CliV)
    ensures
        plan_spec(c) matches Ok(PlanV::Compile(i, o)) ==> c.input == Some(i) && o == c.output,
        (!c.help && !c.version && !c.init_ide && !c.sync && !c.watch && !c.src_set && !c.out_set
            && !c.language_set && !c.check && c.input is Some) ==> plan_spec(c) == Ok::<PlanV, Seq<char>>(
            PlanV::Compile(c.input->0, c.output),
        ),
{
}

proof fn lemma_cli_from_prefix(args: Seq<Seq<char>>, t: Seq<Seq<char>>, i: int, c: CliV)
    requires
        0 <= i <= args.len(),
        cli_from(args, i, c) is Ok,
    ensures
        cli_from(args + t, i, c) == cli_from(args + t, args.len() as int, cli_from(args, i, c)->Ok_0),
    decreases args.len() - i,
{
    if i < args.len() {
        let a = args[i];
        assert((args + t)[i] == a);
        match flag_update(a, c) {
            Some(c2) => {
                lemma_cli_from_prefix(args, t, i + 1, c2);
            },
            None => match missing_value_message(a) {
                Some(_) => {
                    assert(i + 1 < args.len());
                    assert((args + t)[i + 1] == args[i + 1]);
                    match value_update(a, args[i + 1], c) {
                        Ok(c2) => {
                            lemma_cli_from_prefix(args, t, i + 2, c2);
                        },
                        Err(_) => {},
                    }
                },
                None => {
                    if !(a.len() > 0 && a[0] == '-') && c.input is None {
                        lemma_cli_from_prefix(args, t, i + 1, CliV { input: Some(a), ..c });
                    }
                },
            },
        }
    }
}

/// The last `-o`/`--output` given sets the output path: appending `-o v` (or
/// `--output v`) to a command line that parses gives one whose output path is `v`.
pub proof fn lemma_last_output_option_wins(args: Seq<Seq<char>>, option: Seq<char>, v: Seq<char>)
    requires
        parse_cli_spec(args) is Ok,
        option == "-o"@ || option == "--output"@,
    ensures
        parse_cli_spec(args + seq![option, v]) matches Ok(c) && c.output == Some(v),
{
    reveal_strlit("-o");
    reveal_strlit("--output");
    reveal_strlit("-h");
    reveal_strlit("--help");
    reveal_strlit("-V");
    reveal_strlit("--version");
    reveal_strlit("--check");
    reveal_strlit("--sync");
    reveal_strlit("--watch");
    reveal_strlit("--init-ide");
    reveal_strlit("--src");
    reveal_strlit("--out");
    reveal_strlit("--language");
    let t = seq![option, v];
    let whole = args + t;
    let mid = if args.len() == 0 {
        default_cli()
    } else {
        lemma_cli_from_prefix(args, t, 0, default_cli());
        cli_from(args, 0, default_cli())->Ok_0
    };
    if args.len() == 0 {
        assert(whole =~= t);
    }
    assert(parse_cli_spec(whole) == cli_from(whole, args.len() as int, mid));
    assert(whole[args.len() as int] == option);
    assert(whole[args.len() as int + 1] == v);
    if option == "-o"@ {
        assert(option != "-h"@) by {
            assert(option[1] != "-h"@[1]);
        }
        assert(option != "-V"@) by {
            assert(option[1] != "-V"@[1]);
        }
    }
    assert(flag_update(option, mid) is None);
    assert(missing_value_message(option) is Some);
    assert(value_update(option, v, mid) == Ok::<CliV, Seq<char>>(CliV { output: Some(v), ..mid }));
    assert(cli_from(whole, args.len() as int + 2, CliV { output: Some(v), ..mid }) == Ok::<CliV, Seq<char>>(
        CliV { output: Some(v), ..mid },
    ));
    assert(cli_from(whole, args.len() as int, mid) == Ok::<CliV, Seq<char>>(CliV { output: Some(v), ..mid }));
}

fn clone_opt(o: &Option<String>) -> (r: Option<String>)
    ensures
        opt_view(r) == opt_view(*o),
{
    match o {
        Some(s) => Some(s.clone()),
        None => None,
    }
}

fn error_text(m: &str) -> (r: Result<Plan, String>)
    ensures
        r matches Err(e) && e@ == m@,
{
    Err(String::from_str(m))
}

/// The run the command line asks for.
pub fn plan(cli: &Cli) -> (r: Result<Plan, String>)
    ensures
        match plan_spec(cli.view_cli()) {
            Ok(p) => r matches Ok(q) && q.view_plan() == p,
            Err(m) => r matches Err(e) && e@ == m,
        },
{
    if cli.show_help {
        return Ok(Plan::ShowHelp);
    }
    if cli.show_version {
        return Ok(Plan::ShowVersion);
    }
    if cli.init_ide {
        if cli.sync || cli.watch {
            return error_text("エラー: --init-ide と --sync/--watch は同時に使えません");
        }
        if cli.input_path.is_some() {
            return error_text("エラー: --init-ide と入力ファイルは同時に使えません");
        }
        if cli.output_path.is_some() {
            return error_text("エラー: --init-ide と -o/--output は同時に使えません");
        }
        if cli.check_only {
            return error_text("エラー: --init-ide と --check は同時に使えません");
        }
        if cli.out_dir_set {
            return error_text("エラー: --init-ide では --out は使いません");
        }
        return Ok(Plan::InitIde { src_dir: cli.src_dir.clone() });
    }
    if cli.sync || cli.watch {
        if cli.sync && cli.watch {
            return error_text("エラー: --sync と --watch は同時に使えません");
        }
        if cli.input_path.is_some() {
            return error_text("エラー: --sync/--watch と入力ファイルは同時に使えません");
        }
        if cli.output_path.is_some() {
            return error_text("エラー: --sync/--watch と -o/--output は同時に使えません");
        }
        if cli.check_only {
            return error_text("エラー: --sync/--watch と --check は同時に使えません");
        }
        if cli.watch {
            return Ok(Plan::Watch { src_dir: cli.src_dir.clone(), out_dir: cli.out_dir.clone(), language: cli.language });
        }
        return Ok(Plan::Sync { src_dir: cli.src_dir.clone(), out_dir: cli.out_dir.clone(), language: cli.language });
    }
    if cli.src_dir_set || cli.out_dir_set {
        return error_text("エラー: --src/--out は --sync または --watch と一緒に使います");
    }
    if cli.language_set {
        return error_text("エラー: 単体ファイル変換では --language は使いません");
    }
    match &cli.input_path {
        None => error_text("エラー: 入力ファイルが必要です"),
        Some(input) => {
            if cli.check_only && cli.output_path.is_some() {
                return error_text("エラー: --check と -o/--output は同時に使えません");
            }
            if cli.check_only {
                return Ok(Plan::Check { input_path: input.clone() });
            }
            Ok(Plan::Compile { input_path: input.clone(), output_path: clone_opt(&cli.output_path) })
        },
    }
}

} // verus!
