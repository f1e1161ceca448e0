use transplanter::language::LanguageMode;
use transplanter::watch::{
    output_needs_recompile, same_source_set, source_stamp_changed, watch_action, FileStamp, WatchAction,
};

fn stamp(secs: u64, len: u64) -> FileStamp {
    FileStamp { after_epoch: true, secs, nanos: 0, len }
}

#[test]
fn source_set_and_stamps_are_compared() {
    let seen = vec![("src/a.rs".to_string(), stamp(1, 10)), ("src/b.rs".to_string(), stamp(2, 20))];
    let same = seen.clone();
    let touched = vec![("src/a.rs".to_string(), stamp(1, 10)), ("src/b.rs".to_string(), stamp(3, 20))];
    let added = vec![
        ("src/a.rs".to_string(), stamp(1, 10)),
        ("src/b.rs".to_string(), stamp(2, 20)),
        ("src/c.rs".to_string(), stamp(4, 1)),
    ];
    assert!(same_source_set(&seen, &same));
    assert!(!source_stamp_changed(&seen, &same));
    assert!(same_source_set(&seen, &touched));
    assert!(source_stamp_changed(&seen, &touched));
    assert!(!same_source_set(&seen, &added));
    assert!(source_stamp_changed(&seen, &added));
}

#[test]
fn changed_or_removed_outputs_are_written_again() {
    let seen = vec![("out/a.py".to_string(), Some(stamp(1, 5))), ("out/b.py".to_string(), Some(stamp(1, 5)))];
    let now = vec![("out/a.py".to_string(), Some(stamp(1, 5))), ("out/b.py".to_string(), None)];
    assert_eq!(output_needs_recompile("src", "out", "src/a.rs", &seen, &now), Ok(false));
    assert_eq!(output_needs_recompile("src", "out", "src/b.rs", &seen, &now), Ok(true));
    assert!(output_needs_recompile("src", "out", "other/c.rs", &seen, &now).is_err());
}

#[test]
fn a_new_source_resyncs_and_rewrites_the_manifest_for_rust() {
    let seen = vec![("src/a.rs".to_string(), stamp(1, 10))];
    let now = vec![("src/a.rs".to_string(), stamp(1, 10)), ("src/b.scm".to_string(), stamp(2, 3))];
    let none: Vec<(String, Option<FileStamp>)> = Vec::new();
    let auto = watch_action("src", "out", LanguageMode::Auto, &seen, &now, &none, &none);
    assert!(matches!(auto, WatchAction::Resync { write_manifest: true }));
    let lisp = watch_action("src", "out", LanguageMode::Lisp, &seen, &now, &none, &none);
    assert!(matches!(lisp, WatchAction::Resync { write_manifest: false }));
}

#[test]
fn a_touched_source_resyncs_without_the_manifest() {
    let seen = vec![("src/a.rs".to_string(), stamp(1, 10))];
    let now = vec![("src/a.rs".to_string(), stamp(5, 10))];
    let none: Vec<(String, Option<FileStamp>)> = Vec::new();
    let action = watch_action("src", "out", LanguageMode::Rust, &seen, &now, &none, &none);
    assert!(matches!(action, WatchAction::Resync { write_manifest: false }));
}

#[test]
fn quiet_sources_rewrite_only_the_outputs_that_changed() {
    let sources = vec![
        ("src/a.rs".to_string(), stamp(1, 10)),
        ("src/b.rs".to_string(), stamp(1, 10)),
        ("src/c.rs".to_string(), stamp(1, 10)),
    ];
    let seen_out = vec![
        ("out/a.py".to_string(), Some(stamp(1, 5))),
        ("out/b.py".to_string(), Some(stamp(1, 5))),
        ("out/c.py".to_string(), Some(stamp(1, 5))),
    ];
    let now_out = vec![
        ("out/a.py".to_string(), Some(stamp(1, 5))),
        ("out/b.py".to_string(), None),
        ("out/c.py".to_string(), Some(stamp(9, 6))),
    ];
    match watch_action("src", "out", LanguageMode::Auto, &sources, &sources, &seen_out, &now_out) {
        WatchAction::Recompile { inputs, error } => {
            assert_eq!(inputs, vec!["src/b.rs".to_string(), "src/c.rs".to_string()]);
            assert_eq!(error, None);
        }
        other => panic!("unexpected {other:?}"),
    }
    match watch_action("src", "out", LanguageMode::Auto, &sources, &sources, &seen_out, &seen_out) {
        WatchAction::Recompile { inputs, error } => {
            assert!(inputs.is_empty());
            assert_eq!(error, None);
        }
        other => panic!("unexpected {other:?}"),
    }
}

#[test]
fn a_source_outside_the_folder_stops_the_rewrites_after_those_before_it() {
    let sources = vec![("src/a.rs".to_string(), stamp(1, 10)), ("elsewhere/b.rs".to_string(), stamp(1, 10))];
    let seen_out = vec![("out/a.py".to_string(), Some(stamp(1, 5)))];
    let now_out = vec![("out/a.py".to_string(), None)];
    match watch_action("src", "out", LanguageMode::Auto, &sources, &sources, &seen_out, &now_out) {
        WatchAction::Recompile { inputs, error } => {
            assert_eq!(inputs, vec!["src/a.rs".to_string()]);
            assert!(error.is_some());
        }
        other => panic!("unexpected {other:?}"),
    }
}
