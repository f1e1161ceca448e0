use transplanter::gui_text::{
    command_spinner, compact_error_message, diagnostic_display_text, error_event_text, diagnostic_display_value,
    is_version_status, needs_scrollbar, normalized_selection, selected_text_from_lines,
    slice_chars, status_display_text, truncate_for_status, SelectableFont, SelectableLine,
    TextPosition, TextSelection,
};

fn test_selectable_line(text: &str) -> SelectableLine {
    SelectableLine {
        text: text.to_string(),
        left: 0,
        top: 0,
        right: 800,
        bottom: 32,
        scrollable: false,
        font: SelectableFont::Code,
    }
}

#[test]
fn lisp_diagnostics_are_compacted_for_gui() {
    let compact = compact_error_message(
        r"エラー: C:\Users\Player\farming\play_src\main.scm:2行1列: expected expression",
    );
    assert_eq!(compact, "エラー: main.scm:2行1列: expected expression");

    let display =
        diagnostic_display_value("エラー: main.scm:1行1列: bad\nGuile を確認してください")
            .unwrap();
    assert_eq!(
        display,
        "エラー: main.scm:1行1列: bad Guile を確認してください"
    );
}

#[test]
fn selected_text_preserves_visible_line_order() {
    let lines = vec![
        test_selectable_line("status = \"最新のバージョンです\""),
        test_selectable_line("src_dir  = C:\\farm\\play_src"),
        test_selectable_line("out_dir  = C:\\game\\save"),
    ];
    let selected = selected_text_from_lines(
        &lines,
        TextSelection {
            anchor: TextPosition {
                line: 0,
                char_index: 10,
            },
            active: TextPosition {
                line: 2,
                char_index: 10,
            },
        },
    )
    .unwrap();

    assert_eq!(
        selected,
        "最新のバージョンです\"\r\nsrc_dir  = C:\\farm\\play_src\r\nout_dir  ="
    );
}

#[test]
fn status_shows_spinner_while_checking_version() {
    assert_eq!(
        status_display_text("", false, 0).unwrap(),
        "status = \"確認中 /\""
    );
    assert_eq!(
        status_display_text("", false, 1).unwrap(),
        "status = \"確認中 -\""
    );
}

#[test]
fn status_shows_update_and_truncates() {
    assert_eq!(
        status_display_text("anything", true, 3).unwrap(),
        "status = \"新しいバージョンがあります\""
    );
    assert_eq!(truncate_for_status("abcdef", 4), "abc…");
    assert_eq!(truncate_for_status("abc", 4), "abc");
    assert_eq!(command_spinner(2), '\\');
    assert_eq!(command_spinner(7), '|');
    assert!(is_version_status("最新のバージョンです"));
    assert!(!is_version_status("確認中"));
    assert!(needs_scrollbar("1\n2\n3\n4\n5\n6\n7"));
    assert!(!needs_scrollbar("short"));
}

#[test]
fn diagnostics_become_one_line() {
    assert_eq!(
        diagnostic_display_text("エラー: /home/p/a.rs:3行1列: say \"hi\"\n\tnow").unwrap(),
        "error = \"エラー: a.rs:3行1列: say 'hi' now\""
    );
    assert!(diagnostic_display_value("   ").is_none());
    assert_eq!(compact_error_message("warning: x.rs:1"), "warning: x.rs:1");
}

#[test]
fn selection_is_clamped_and_ordered() {
    let lines = vec![test_selectable_line("abc"), test_selectable_line("de")];
    let sel = TextSelection {
        anchor: TextPosition { line: 9, char_index: 9 },
        active: TextPosition { line: 0, char_index: 1 },
    };
    let (a, b) = normalized_selection(sel, &lines).unwrap();
    assert_eq!(a, TextPosition { line: 0, char_index: 1 });
    assert_eq!(b, TextPosition { line: 1, char_index: 2 });
    assert_eq!(selected_text_from_lines(&lines, sel).unwrap(), "bc\r\nde");
    assert_eq!(slice_chars("héllo", 1, 3), "él");
    assert_eq!(slice_chars("abc", 2, 1), "");
}

#[test]
fn watch_errors_are_shortened_and_marked() {
    assert_eq!(
        error_event_text("エラー: play_src/farm/main.rs:3行1列: 式文の後に `;` が必要です"),
        "エラー: main.rs:3行1列: 式文の後に `;` が必要です"
    );
    assert_eq!(error_event_text("boom"), "エラー: boom");
    assert_eq!(error_event_text("エラー:x"), "エラー:x");
}
