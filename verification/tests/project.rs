use transplanter::project::{
    is_generated_rust_support_lockfile_text, is_generated_rust_support_manifest_text,
    is_generated_support_crate, output_path_for, relative_path_between, render_manifest, render_single_file_validation_manifest,
    support_manifest, unique_bin_name, unique_output_paths, uses_prelude_crate, PartKind, PathPart,
};

fn part(kind: PartKind, text: &str) -> PathPart {
    PathPart { kind, text: text.to_string() }
}

fn normal(text: &str) -> PathPart {
    part(PartKind::Normal, text)
}

#[test]
fn outputs_mirror_the_source_tree_with_py_extension() {
    assert_eq!(output_path_for("rs_src", "py_src", "rs_src/farm/main.rs"), Ok("py_src/farm/main.py".to_string()));
    assert_eq!(output_path_for("rs_src", "py_src", "rs_src/loop.scm"), Ok("py_src/loop.py".to_string()));
}

#[test]
fn a_source_outside_the_folder_has_no_output() {
    assert_eq!(
        output_path_for("rs_src", "py_src", "other/main.rs"),
        Err("エラー: `other/main.rs` は `rs_src` の中にありません".to_string())
    );
}

#[test]
fn binary_names_are_unique_and_valid() {
    let mut used = Vec::new();
    assert_eq!(unique_bin_name("farm/main.rs", &mut used), "farm_main");
    assert_eq!(unique_bin_name("farm/main.rs", &mut used), "farm_main_2");
    assert_eq!(unique_bin_name("farm/main.rs", &mut used), "farm_main_3");
    assert_eq!(unique_bin_name("1st.rs", &mut used), "script_1st");
    assert_eq!(unique_bin_name("a b-c.rs", &mut used), "a_b-c");
    assert_eq!(used, vec!["farm_main", "farm_main_2", "farm_main_3", "script_1st", "a_b-c"]);
}

#[test]
fn manifest_lists_each_binary_with_forward_slashes() {
    let bins = vec![("main".to_string(), "..\\rs_src\\main.rs".to_string())];
    let manifest = render_manifest(&bins);
    assert_eq!(
        manifest,
        "[package]\nname = \"transplanter-scripts\"\nversion = \"0.1.0\"\nedition = \"2024\"\npublish = false\nautobins = false\n\n[dependencies]\ntransplanter_rust = { path = \"transplanter_rust\" }\n\n[[bin]]\nname = \"main\"\npath = \"../rs_src/main.rs\"\n"
    );
    assert!(is_generated_rust_support_manifest_text(&manifest));
    assert!(!is_generated_rust_support_manifest_text(support_manifest()));
}

#[test]
fn single_file_manifest_names_one_script() {
    let manifest = render_single_file_validation_manifest("C:\\work\\main.rs");
    assert!(manifest.starts_with("[package]\nname = \"transplanter-script-check\"\n"));
    assert!(manifest.ends_with("\n[[bin]]\nname = \"script\"\npath = \"C:/work/main.rs\"\n"));
}

#[test]
fn lockfile_is_recognised_by_both_package_names() {
    assert!(is_generated_rust_support_lockfile_text(
        "[[package]]\nname = \"transplanter-scripts\"\n[[package]]\nname = \"transplanter_rust\"\n"
    ));
    assert!(!is_generated_rust_support_lockfile_text("[[package]]\nname = \"transplanter-scripts\"\n"));
}

#[test]
fn relative_path_climbs_out_of_the_manifest_folder() {
    let base = vec![part(PartKind::Root, "/"), normal("home"), normal("farm"), normal(".transplanter")];
    let target = vec![part(PartKind::Root, "/"), normal("home"), normal("farm"), normal("rs_src"), normal("main.rs")];
    assert_eq!(
        relative_path_between(&base, &target),
        Some(vec!["..".to_string(), "rs_src".to_string(), "main.rs".to_string()])
    );
}

#[test]
fn relative_path_needs_a_shared_start_and_named_folders() {
    assert_eq!(relative_path_between(&vec![normal("a")], &vec![normal("b")]), None);
    let base = vec![normal("a"), part(PartKind::Parent, ".."), normal("c")];
    assert_eq!(relative_path_between(&base, &vec![normal("a"), normal("b")]), None);
    let base = vec![normal("a"), part(PartKind::Current, "."), normal("c")];
    assert_eq!(
        relative_path_between(&base, &vec![normal("a"), normal("b")]),
        Some(vec!["..".to_string(), "b".to_string()])
    );
}

#[test]
fn sources_with_one_output_name_are_refused() {
    let inputs = vec!["play_src/main.rs".to_string(), "play_src/main.scm".to_string()];
    assert_eq!(
        unique_output_paths("play_src", "save", &inputs),
        Err("エラー: `play_src/main.rs` と `play_src/main.scm` の出力先がどちらも `save/main.py` になります。どちらかのファイル名を変更してください".to_string())
    );
}

#[test]
fn distinct_sources_keep_their_outputs_in_order() {
    let inputs = vec!["play_src/a.rs".to_string(), "play_src/sub/a.rs".to_string(), "play_src\\sub\\b.lisp".to_string()];
    assert_eq!(
        unique_output_paths("play_src", "save", &inputs),
        Ok(vec!["save/a.py".to_string(), "save/sub/a.py".to_string(), "save/sub\\b.py".to_string()])
    );
    assert_eq!(
        unique_output_paths("play_src", "save", &vec!["elsewhere/a.rs".to_string()]),
        Err("エラー: `elsewhere/a.rs` は `play_src` の中にありません".to_string())
    );
}

#[test]
fn a_manifest_above_a_file_is_used_when_it_names_the_prelude_crate() {
    assert!(uses_prelude_crate(&render_manifest(&Vec::new())));
    assert!(!uses_prelude_crate("[package]\nname = \"other\"\n"));
}

#[test]
fn the_source_folder_itself_maps_to_the_output_folder_with_py() {
    assert_eq!(output_path_for("play_src", "py_src", "play_src"), Ok("py_src.py".to_string()));
    assert_eq!(output_path_for("play_src/", "py_src", "play_src"), Ok("py_src.py".to_string()));
    assert_eq!(output_path_for("a", "", "a"), Ok(String::new()));
}

#[test]
fn dot_parts_are_read_as_paths_read_them() {
    assert_eq!(output_path_for("play_src", "py_src", "play_src/./crops/x.rs"), Ok("py_src/crops/x.py".to_string()));
    assert_eq!(output_path_for("play_src", "py_src", "play_src/crops/./x.rs"), Ok("py_src/crops/./x.py".to_string()));
    assert_eq!(output_path_for("./play_src", "py_src", "./play_src/x.rs"), Ok("py_src/x.py".to_string()));
    assert_eq!(output_path_for("play_src/.", "py_src", "play_src//x.rs/."), Ok("py_src/x.py".to_string()));
    assert!(output_path_for("./play_src", "py_src", "play_src/x.rs").is_err());
    assert!(output_path_for("play_src", "py_src", "play_srcx/x.rs").is_err());
    assert_eq!(output_path_for("", "out", "./a.rs"), Ok("out/./a.py".to_string()));
}

#[test]
fn outputs_are_compared_part_by_part() {
    let inputs = vec!["play_src/a/x.rs".to_string(), "play_src/a/./x.scm".to_string()];
    assert_eq!(
        unique_output_paths("play_src", "save", &inputs),
        Err("エラー: `play_src/a/x.rs` と `play_src/a/./x.scm` の出力先がどちらも `save/a/./x.py` になります。どちらかのファイル名を変更してください".to_string())
    );
    let inputs = vec!["play_src/a/x.rs".to_string(), "play_src/ax.rs".to_string()];
    assert!(unique_output_paths("play_src", "save", &inputs).is_ok());
}

#[test]
fn only_an_untouched_support_crate_counts_as_generated() {
    let manifest = Some(support_manifest().to_string());
    let lib = Some("pub mod prelude;\n".to_string());
    let prelude = Some("pub fn move_(d: Direction) {}\n".to_string());
    let expected = "pub fn move_(d: Direction) {}\n";
    assert!(is_generated_support_crate(&manifest, &lib, &prelude, expected));
    assert!(!is_generated_support_crate(&manifest, &lib, &Some("edited".to_string()), expected));
    assert!(!is_generated_support_crate(&None, &lib, &prelude, expected));
    assert!(!is_generated_support_crate(&manifest, &Some("pub mod prelude;".to_string()), &prelude, expected));
    assert!(!is_generated_support_crate(&manifest, &lib, &None, expected));
}
