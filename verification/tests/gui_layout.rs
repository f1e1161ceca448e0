use transplanter::gui_layout::{
    char_index_at_x, code_content_width, drag_scroll, hit_zone, needs_text_animation, next_spinner, scroll_press, select_all, HitZone,
    HorizontalScrollMetrics, ScrollPress,
    horizontal_scroll_metrics, hit_target_at, point_distance_exceeds, point_from_lparam, point_in_rect,
    rect_has_area, selectable_line_index_at_point, selectable_lines, selectable_value_text, title_button_at,
    title_text_rect, transplanter_version_module, CodeText, HoverTarget, Point, Rect, TitleButton, WindowLayout,
};
use transplanter::gui_text::{file_name_for_status, SelectableFont, SelectableLine, TextPosition, TextSelection};

fn window() -> WindowLayout {
    WindowLayout::new(704, 620)
}

#[test]
fn small_windows_grow_to_the_minimum_size() {
    let layout = WindowLayout::new(100, 90);
    assert_eq!((layout.width, layout.height), (220, 160));
    assert_eq!(layout.code_right(), 198);
    assert_eq!(title_text_rect(window()), Rect { left: 124, top: 20, right: 584, bottom: 56 });
}

#[test]
fn title_buttons_are_found_under_the_mouse() {
    let layout = window();
    assert_eq!(title_button_at(Point { x: 30, y: 30 }, layout), Some(TitleButton::Run));
    assert_eq!(title_button_at(Point { x: 72, y: 18 }, layout), Some(TitleButton::Step));
    assert_eq!(title_button_at(Point { x: 653, y: 57 }, layout), Some(TitleButton::Close));
    assert_eq!(title_button_at(Point { x: 639, y: 30 }, layout), Some(TitleButton::Minimize));
    assert_eq!(title_button_at(Point { x: 640, y: 30 }, layout), None);
    assert_eq!(title_button_at(Point { x: 60, y: 30 }, layout), None);
}

#[test]
fn scroll_bar_follows_the_text_width() {
    let layout = window();
    assert!(horizontal_scroll_metrics(layout, 618, 10).is_none());
    let m = horizontal_scroll_metrics(layout, 1000, 100).unwrap();
    assert_eq!(m.max_scroll, 382);
    assert_eq!(m.viewport_width, 618);
    assert_eq!(m.track, Rect { left: 64, top: 594, right: 682, bottom: 601 });
    assert_eq!(m.thumb, Rect { left: 126, top: 594, right: 507, bottom: 601 });
    let end = horizontal_scroll_metrics(layout, 1000, 5000).unwrap();
    assert_eq!(end.thumb.right, 682);
}

#[test]
fn mouse_message_points_are_signed() {
    assert_eq!(point_from_lparam(0x0002_0001), Point { x: 1, y: 2 });
    assert_eq!(point_from_lparam(0xffff_fffe_u32 as isize), Point { x: -2, y: -1 });
    assert!(point_distance_exceeds(Point { x: 0, y: 0 }, Point { x: 5, y: 0 }, 4));
    assert!(!point_distance_exceeds(Point { x: 0, y: 0 }, Point { x: -4, y: 4 }, 4));
    assert!(point_in_rect(Point { x: 1, y: 1 }, Rect { left: 1, top: 1, right: 2, bottom: 2 }));
    assert!(!point_in_rect(Point { x: 2, y: 1 }, Rect { left: 1, top: 1, right: 2, bottom: 2 }));
    assert!(!rect_has_area(&Rect { left: 3, top: 0, right: 3, bottom: 9 }));
}

#[test]
fn hover_targets_follow_the_rows() {
    let layout = window();
    assert_eq!(hit_target_at(Point { x: 160, y: 230 }, false, layout, 0), Some(HoverTarget::SrcDir));
    assert_eq!(hit_target_at(Point { x: 160, y: 300 }, false, layout, 0), Some(HoverTarget::OutDir));
    assert_eq!(hit_target_at(Point { x: 170, y: 320 }, false, layout, 0), None);
    assert_eq!(hit_target_at(Point { x: 170, y: 320 }, false, layout, 10), Some(HoverTarget::Language));
    assert_eq!(hit_target_at(Point { x: 70, y: 140 }, false, layout, 0), None);
    assert_eq!(hit_target_at(Point { x: 70, y: 140 }, true, layout, 0), Some(HoverTarget::UpdateStatus));
}

fn line(top: i32, bottom: i32) -> SelectableLine {
    SelectableLine {
        text: String::from("x"),
        left: 10,
        top,
        right: 20,
        bottom,
        scrollable: true,
        font: SelectableFont::Code,
    }
}

#[test]
fn line_under_the_point_or_the_nearest_one() {
    let lines = vec![line(10, 20), line(30, 40), line(60, 70)];
    assert_eq!(selectable_line_index_at_point(&lines, Point { x: 15, y: 35 }, false), Some(1));
    assert_eq!(selectable_line_index_at_point(&lines, Point { x: 50, y: 35 }, false), None);
    assert_eq!(selectable_line_index_at_point(&lines, Point { x: 50, y: 35 }, true), Some(1));
    assert_eq!(selectable_line_index_at_point(&lines, Point { x: 15, y: 5 }, true), Some(0));
    assert_eq!(selectable_line_index_at_point(&lines, Point { x: 15, y: 45 }, true), Some(1));
    assert_eq!(selectable_line_index_at_point(&lines, Point { x: 15, y: 56 }, true), Some(2));
    assert_eq!(selectable_line_index_at_point(&lines, Point { x: 15, y: 50 }, true), Some(1));
    assert_eq!(selectable_line_index_at_point(&Vec::new(), Point { x: 0, y: 0 }, true), None);
}

#[test]
fn a_line_with_its_top_below_its_bottom_is_measured_from_either_edge() {
    let lines = vec![line(10, 20), line(50, 30)];
    assert_eq!(selectable_line_index_at_point(&lines, Point { x: 15, y: 45 }, true), Some(1));
    assert_eq!(selectable_line_index_at_point(&lines, Point { x: 15, y: 60 }, true), Some(1));
    assert_eq!(selectable_line_index_at_point(&lines, Point { x: 15, y: 25 }, true), Some(0));
    assert_eq!(selectable_line_index_at_point(&lines, Point { x: 15, y: 45 }, false), None);
}

#[test]
fn selectable_lines_show_the_settings() {
    assert_eq!(transplanter_version_module("0.1.1-beta"), "transplanter_v0_1_1_beta");
    assert_eq!(selectable_value_text("  ", true), "_");
    assert_eq!(selectable_value_text("", false), "");
    assert_eq!(selectable_value_text("rs_src", true), "rs_src");
    let text = CodeText {
        src: "rs_src",
        out: "",
        language: "rust",
        status: "最新のバージョンです",
        diagnostic: "",
        hover_target: None,
        blink_on: true,
        spinner: 0,
        update_available: false,
    };
    let lines = selectable_lines(text, window(), "0.1.1");
    let texts: Vec<&str> = lines.iter().map(|l| l.text.as_str()).collect();
    assert_eq!(
        texts,
        vec![
            "Transplanter",
            "import transplanter_v0_1_1 as transplanter",
            "status = \"最新のバージョンです\"",
            "src_dir  = rs_src",
            "out_dir  = _",
            "language = rust",
            "transplanter(src_dir, out_dir, language)",
        ]
    );
    assert_eq!((lines[3].top, lines[3].bottom, lines[3].right), (226, 258, 682));
    assert!(!lines[0].scrollable);
}

#[test]
fn window_edges_resize_and_the_title_band_moves() {
    let layout = WindowLayout::new(704, 620);
    assert_eq!(hit_zone(Point { x: 2, y: 3 }, layout), HitZone::TopLeft);
    assert_eq!(hit_zone(Point { x: 700, y: 3 }, layout), HitZone::TopRight);
    assert_eq!(hit_zone(Point { x: 2, y: 615 }, layout), HitZone::BottomLeft);
    assert_eq!(hit_zone(Point { x: 700, y: 615 }, layout), HitZone::BottomRight);
    assert_eq!(hit_zone(Point { x: 2, y: 300 }, layout), HitZone::Left);
    assert_eq!(hit_zone(Point { x: 699, y: 300 }, layout), HitZone::Right);
    assert_eq!(hit_zone(Point { x: 300, y: 7 }, layout), HitZone::Top);
    assert_eq!(hit_zone(Point { x: 300, y: 612 }, layout), HitZone::Bottom);
    assert_eq!(hit_zone(Point { x: 300, y: 30 }, layout), HitZone::Client);
    assert_eq!(hit_zone(Point { x: 300, y: 60 }, layout), HitZone::Caption);
    assert_eq!(hit_zone(Point { x: 100, y: 60 }, layout), HitZone::Client);
    assert_eq!(hit_zone(Point { x: 300, y: 300 }, layout), HitZone::Client);
}

#[test]
fn spinner_turns_through_four_frames() {
    assert_eq!(next_spinner(0), 1);
    assert_eq!(next_spinner(3), 0);
    assert_eq!(next_spinner(6), 3);
}

#[test]
fn text_keeps_animating_while_something_is_blank_or_hovered() {
    assert!(!needs_text_animation(None, "OK", "play_src", "save", false));
    assert!(needs_text_animation(Some(HoverTarget::Language), "OK", "play_src", "save", false));
    assert!(needs_text_animation(None, "  ", "play_src", "save", false));
    assert!(needs_text_animation(None, "OK", "play_src", "", false));
    assert!(needs_text_animation(None, "OK", "play_src", "save", true));
}

#[test]
fn select_all_spans_every_line() {
    assert_eq!(select_all(&Vec::new()), None);
    let layout = WindowLayout::new(704, 620);
    let text = CodeText {
        src: "play_src",
        out: "save",
        language: "rust",
        status: "",
        diagnostic: "",
        hover_target: None,
        blink_on: true,
        spinner: 0,
        update_available: false,
    };
    let lines = selectable_lines(text, layout, "0.1.0");
    let last = lines.len() - 1;
    assert_eq!(
        select_all(&lines),
        Some(TextSelection {
            anchor: TextPosition { line: 0, char_index: 0 },
            active: TextPosition { line: last, char_index: lines[last].text.chars().count() },
        })
    );
}

#[test]
fn status_names_a_file_by_its_name() {
    assert_eq!(file_name_for_status("play_src/crops/carrot.rs"), "carrot.rs");
    assert_eq!(file_name_for_status("C:\\farm\\main.scm"), "main.scm");
    assert_eq!(file_name_for_status(".."), "..");
}

fn scroll_bar(thumb_left: i32) -> HorizontalScrollMetrics {
    HorizontalScrollMetrics {
        max_scroll: 300,
        viewport_width: 400,
        track: Rect { left: 64, top: 600, right: 464, bottom: 607 },
        thumb: Rect { left: thumb_left, top: 600, right: thumb_left + 200, bottom: 607 },
    }
}

#[test]
fn pressing_the_scroll_bar_grabs_or_pages() {
    assert_eq!(scroll_press(scroll_bar(64), Point { x: 100, y: 603 }, 0), Some(ScrollPress::Grab));
    assert_eq!(scroll_press(scroll_bar(64), Point { x: 300, y: 603 }, 0), Some(ScrollPress::Page(300)));
    assert_eq!(scroll_press(scroll_bar(200), Point { x: 100, y: 603 }, 250), Some(ScrollPress::Page(0)));
    assert_eq!(scroll_press(scroll_bar(64), Point { x: 300, y: 500 }, 0), None);
}

#[test]
fn dragging_the_thumb_scrolls_in_proportion() {
    let m = scroll_bar(64);
    assert_eq!(drag_scroll(m, 100, 0, 150), 75);
    assert_eq!(drag_scroll(m, 100, 100, 93), 90);
    assert_eq!(drag_scroll(m, 100, 100, 70), 55);
    assert_eq!(drag_scroll(m, 100, 0, 1100), 300);
    assert_eq!(drag_scroll(m, 100, 0, 0), 0);
}

#[test]
fn a_click_lands_before_the_character_whose_middle_is_right_of_it() {
    let widths = vec![0, 10, 20, 31];
    assert_eq!(char_index_at_x(&widths, 100, 90), 0);
    assert_eq!(char_index_at_x(&widths, 100, 104), 0);
    assert_eq!(char_index_at_x(&widths, 100, 105), 1);
    assert_eq!(char_index_at_x(&widths, 100, 124), 2);
    assert_eq!(char_index_at_x(&widths, 100, 125), 3);
    assert_eq!(char_index_at_x(&widths, 100, 126), 3);
    assert_eq!(char_index_at_x(&widths, 100, 500), 3);
    assert_eq!(char_index_at_x(&vec![0], 0, 5), 0);
}

#[test]
fn code_width_reaches_the_furthest_line() {
    assert_eq!(code_content_width(24, &vec![100, 310, 250]), 286);
    assert_eq!(code_content_width(24, &vec![10, 20]), 0);
    assert_eq!(code_content_width(24, &Vec::new()), 0);
}
