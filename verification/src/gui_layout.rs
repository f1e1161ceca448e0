//! Where the window puts things: the layout of its parts for a window size, the
//! scroll bar, the lines of selectable text, and what a mouse point is over.
use vstd::prelude::*;
use crate::gui_text::{
    diagnostic_display_text, diagnostic_value_spec, status_display_text, status_value_spec, SelectableFont,
    SelectableLine, TextPosition, TextSelection,
};
use crate::text::{chars_of, is_alnum, push_str, string_of, trim, trim_text};

verus! {

pub const WINDOW_WIDTH: i32 = 704;
pub const WINDOW_HEIGHT: i32 = 620;
pub const MIN_WINDOW_WIDTH: i32 = 220;
pub const MIN_WINDOW_HEIGHT: i32 = 160;
pub const TITLE_HEIGHT: i32 = 66;
pub const EDITOR_LEFT: i32 = 14;
pub const EDITOR_TOP: i32 = 66;
pub const GUTTER_RIGHT: i32 = 48;
pub const CONTENT_LEFT: i32 = 64;
pub const PATH_EQUAL_LEFT: i32 = 136;
pub const PATH_VALUE_LEFT: i32 = 154;
pub const LANGUAGE_EQUAL_LEFT: i32 = 156;
pub const LANGUAGE_VALUE_LEFT: i32 = 174;
pub const IMPORT_ROW_TOP: i32 = 88;
pub const STATUS_ROW_TOP: i32 = 134;
pub const DIAGNOSTIC_ROW_TOP: i32 = 180;
pub const SRC_ROW_TOP: i32 = 226;
pub const OUT_ROW_TOP: i32 = 272;
pub const LANGUAGE_ROW_TOP: i32 = 318;
pub const CALL_ROW_TOP: i32 = 410;
pub const TEXT_ROW_HEIGHT: i32 = 32;
pub const RESIZE_BORDER: i32 = 8;
pub const HORIZONTAL_SCROLL_HEIGHT: i32 = 7;
pub const HORIZONTAL_SCROLL_MIN_THUMB: i32 = 36;

/// A point in window coordinates.
#[derive(Clone, Copy, Debug, PartialEq, Eq, Structural)]
pub struct Point {
    pub x: i32,
    pub y: i32,
}

/// A rectangle; `left` and `top` are inside it, `right` and `bottom` just outside.
#[derive(Clone, Copy, Debug, PartialEq, Eq, Structural)]
pub struct Rect {
    pub left: i32,
    pub top: i32,
    pub right: i32,
    pub bottom: i32,
}

/// A child control's place: its corner and size.
#[derive(Clone, Copy, Debug, PartialEq, Eq, Structural)]
pub struct ControlRect {
    pub x: i32,
    pub y: i32,
    pub width: i32,
    pub height: i32,
}

impl ControlRect {
    pub fn new(x: i32, y: i32, width: i32, height: i32) -> (r: Self)
        ensures
            r == (ControlRect { x, y, width, height }),
    {
        ControlRect { x, y, width, height }
    }

    /// The rectangle the control covers.
    pub fn to_rect(self) -> (r: Rect)
        requires
            i32::MIN <= self.x + self.width <= i32::MAX,
            i32::MIN <= self.y + self.height <= i32::MAX,
        ensures
            r == (Rect {
                left: self.x,
                top: self.y,
                right: (self.x + self.width) as i32,
                bottom: (self.y + self.height) as i32,
            }),
    {
        Rect { left: self.x, top: self.y, right: self.x + self.width, bottom: self.y + self.height }
    }
}

/// The buttons of the title bar.
#[derive(Clone, Copy, Debug, PartialEq, Eq, Structural)]
pub enum TitleButton {
    Run,
    Step,
    Minimize,
    Close,
}

/// The parts of the text that react to the mouse.
#[derive(Clone, Copy, Debug, PartialEq, Eq, Structural)]
pub enum HoverTarget {
    SrcDir,
    OutDir,
    Language,
    UpdateStatus,
}

/// The window's size, as the layout sees it.
#[derive(Clone, Copy, Debug, PartialEq, Eq, Structural)]
pub struct WindowLayout {
    pub width: i32,
    pub height: i32,
}

impl WindowLayout {
    /// At least the smallest window size.
    pub open spec fn wf(self) -> bool {
        self.width >= MIN_WINDOW_WIDTH && self.height >= MIN_WINDOW_HEIGHT
    }

    /// The layout of a window of this size, grown to the smallest size.
    pub fn new(width: i32, height: i32) -> (r: Self)
        ensures
            r.wf(),
            r.width == if width >= MIN_WINDOW_WIDTH { width } else { MIN_WINDOW_WIDTH },
            r.height == if height >= MIN_WINDOW_HEIGHT { height } else { MIN_WINDOW_HEIGHT },
    {
        WindowLayout {
            width: if width >= MIN_WINDOW_WIDTH { width } else { MIN_WINDOW_WIDTH },
            height: if height >= MIN_WINDOW_HEIGHT { height } else { MIN_WINDOW_HEIGHT },
        }
    }

    /// A length in layout units, in pixels (one for one).
    pub fn s(self, value: i32) -> (r: i32)
        ensures
            r == value,
    {
        value
    }

    pub fn title_height(self) -> (r: i32)
        ensures
            r == TITLE_HEIGHT,
    {
        self.s(TITLE_HEIGHT)
    }

    pub fn editor_left(self) -> (r: i32)
        ensures
            r == EDITOR_LEFT,
    {
        self.s(EDITOR_LEFT)
    }

    pub fn editor_top(self) -> (r: i32)
        ensures
            r == EDITOR_TOP,
    {
        self.s(EDITOR_TOP)
    }

    pub open spec fn editor_right_spec(self) -> int {
        self.width - 14
    }

    pub fn editor_right(self) -> (r: i32)
        requires
            self.wf(),
        ensures
            r == self.editor_right_spec(),
    {
        self.width - self.s(14)
    }

    pub open spec fn editor_bottom_spec(self) -> int {
        self.height - 14
    }

    pub fn editor_bottom(self) -> (r: i32)
        requires
            self.wf(),
        ensures
            r == self.editor_bottom_spec(),
    {
        self.height - self.s(14)
    }

    /// The right end of the code text.
    pub open spec fn code_right_spec(self) -> int {
        self.width - 22
    }

    pub fn code_right(self) -> (r: i32)
        requires
            self.wf(),
        ensures
            r == self.code_right_spec(),
    {
        self.editor_right() - self.s(8)
    }

    pub fn value_right(self) -> (r: i32)
        requires
            self.wf(),
        ensures
            r == self.code_right_spec(),
    {
        self.code_right()
    }

    pub fn content_left(self) -> (r: i32)
        ensures
            r == CONTENT_LEFT,
    {
        self.s(CONTENT_LEFT)
    }

    pub fn gutter_right(self) -> (r: i32)
        ensures
            r == GUTTER_RIGHT,
    {
        self.s(GUTTER_RIGHT)
    }

    pub fn text_row_height(self) -> (r: i32)
        ensures
            r == TEXT_ROW_HEIGHT,
    {
        let v = self.s(TEXT_ROW_HEIGHT);
        if v >= 1 {
            v
        } else {
            1
        }
    }

    pub fn horizontal_scroll_height(self) -> (r: i32)
        ensures
            r == HORIZONTAL_SCROLL_HEIGHT,
    {
        let v = self.s(HORIZONTAL_SCROLL_HEIGHT);
        if v >= 1 {
            v
        } else {
            1
        }
    }

    pub fn horizontal_scroll_min_thumb(self) -> (r: i32)
        ensures
            r == HORIZONTAL_SCROLL_MIN_THUMB,
    {
        let v = self.s(HORIZONTAL_SCROLL_MIN_THUMB);
        if v >= 1 {
            v
        } else {
            1
        }
    }

    pub fn resize_border(self) -> (r: i32)
        ensures
            r == RESIZE_BORDER,
    {
        let v = self.s(RESIZE_BORDER);
        if v >= 6 {
            v
        } else {
            6
        }
    }

    pub fn icon_scale(self) -> (r: i32)
        ensures
            r == 2,
    {
        2
    }

    /// Where a title-bar button goes.
    pub open spec fn title_button_spec(self, button: TitleButton) -> ControlRect {
        match button {
            TitleButton::Run => ControlRect { x: 20, y: 18, width: 40, height: 40 },
            TitleButton::Step => ControlRect { x: 72, y: 18, width: 40, height: 40 },
            TitleButton::Minimize => ControlRect { x: (self.width - 104) as i32, y: 18, width: 40, height: 40 },
            TitleButton::Close => ControlRect { x: (self.width - 52) as i32, y: 18, width: 40, height: 40 },
        }
    }

    pub fn title_button(self, button: TitleButton) -> (r: ControlRect)
        requires
            self.wf(),
        ensures
            r == self.title_button_spec(button),
    {
        match button {
            TitleButton::Run => ControlRect::new(self.s(20), self.s(18), self.s(40), self.s(40)),
            TitleButton::Step => ControlRect::new(self.s(72), self.s(18), self.s(40), self.s(40)),
            TitleButton::Minimize => ControlRect::new(self.width - self.s(104), self.s(18), self.s(40), self.s(40)),
            TitleButton::Close => ControlRect::new(self.width - self.s(52), self.s(18), self.s(40), self.s(40)),
        }
    }

    /// The width left for a value that starts at `left`: at least 1.
    pub fn hidden_value_width(self, left: i32) -> (r: i32)
        requires
            self.wf(),
            self.code_right_spec() - left >= i32::MIN,
            self.code_right_spec() - left <= i32::MAX,
        ensures
            r == if self.code_right_spec() - left >= 1 { self.code_right_spec() - left } else { 1 },
    {
        let v = self.value_right() - self.s(left);
        if v >= 1 {
            v
        } else {
            1
        }
    }
}

/// Where the window's title text goes.
pub fn title_text_rect(layout: WindowLayout) -> (r: Rect)
    requires
        layout.wf(),
    ensures
        r == (Rect { left: 124, top: 20, right: (layout.width - 120) as i32, bottom: 56 }),
{
    Rect { left: layout.s(124), top: layout.s(20), right: layout.width - layout.s(120), bottom: layout.s(56) }
}

/// Whether `point` is inside `rect`.
pub open spec fn in_rect(point: Point, rect: Rect) -> bool {
    point.x >= rect.left && point.x < rect.right && point.y >= rect.top && point.y < rect.bottom
}

/// Whether `point` is inside `rect`.
pub fn point_in_rect(point: Point, rect: Rect) -> (r: bool)
    ensures
        r == in_rect(point, rect),
{
    point.x >= rect.left && point.x < rect.right && point.y >= rect.top && point.y < rect.bottom
}

/// Whether `rect` covers any pixel.
pub fn rect_has_area(rect: &Rect) -> (r: bool)
    ensures
        r == (rect.right > rect.left && rect.bottom > rect.top),
{
    rect.right > rect.left && rect.bottom > rect.top
}

/// A 16-bit field read as a signed number.
pub open spec fn signed16(v: int) -> int {
    if v >= 0x8000 {
        v - 0x10000
    } else {
        v
    }
}

/// The point a mouse message carries: its low and high 16 bits, each signed.
pub fn point_from_lparam(lparam: isize) -> (r: Point)
    ensures
        r.x == signed16((lparam & 0xffff) as int),
        r.y == signed16(((lparam >> 16) & 0xffff) as int),
{
    let lo_bits = lparam & 0xffff;
    let hi_bits = (lparam >> 16) & 0xffff;
    assert(0 <= lo_bits <= 0xffff) by (bit_vector)
        requires
            lo_bits == lparam & 0xffff,
    ;
    assert(0 <= hi_bits <= 0xffff) by (bit_vector)
        requires
            hi_bits == (lparam >> 16) & 0xffff,
    ;
    let lo = lo_bits as i32;
    let hi = hi_bits as i32;
    Point {
        x: if lo >= 0x8000 { lo - 0x10000 } else { lo },
        y: if hi >= 0x8000 { hi - 0x10000 } else { hi },
    }
}

/// The title-bar button at `point`, if any.
pub fn title_button_at(point: Point, layout: WindowLayout) -> (r: Option<TitleButton>)
    requires
        layout.wf(),
    ensures
        r == if in_rect(point, button_rect(layout, TitleButton::Run)) {
            Some(TitleButton::Run)
        } else if in_rect(point, button_rect(layout, TitleButton::Step)) {
            Some(TitleButton::Step)
        } else if in_rect(point, button_rect(layout, TitleButton::Minimize)) {
            Some(TitleButton::Minimize)
        } else if in_rect(point, button_rect(layout, TitleButton::Close)) {
            Some(TitleButton::Close)
        } else {
            None
        },
{
    if point_in_rect(point, layout.title_button(TitleButton::Run).to_rect()) {
        Some(TitleButton::Run)
    } else if point_in_rect(point, layout.title_button(TitleButton::Step).to_rect()) {
        Some(TitleButton::Step)
    } else if point_in_rect(point, layout.title_button(TitleButton::Minimize).to_rect()) {
        Some(TitleButton::Minimize)
    } else if point_in_rect(point, layout.title_button(TitleButton::Close).to_rect()) {
        Some(TitleButton::Close)
    } else {
        None
    }
}

/// The rectangle a title-bar button covers.
pub open spec fn button_rect(layout: WindowLayout, button: TitleButton) -> Rect {
    let c = layout.title_button_spec(button);
    Rect { left: c.x, top: c.y, right: (c.x + c.width) as i32, bottom: (c.y + c.height) as i32 }
}

/// `|v|`.
pub open spec fn abs_spec(v: int) -> int {
    if v < 0 {
        -v
    } else {
        v
    }
}

/// Whether the mouse moved more than `threshold` along either axis.
pub fn point_distance_exceeds(start: Point, current: Point, threshold: i32) -> (r: bool)
    requires
        i32::MIN < start.x - current.x <= i32::MAX,
        i32::MIN < start.y - current.y <= i32::MAX,
    ensures
        r == (abs_spec(start.x - current.x) > threshold || abs_spec(start.y - current.y) > threshold),
{
    let dx = start.x - current.x;
    let dy = start.y - current.y;
    let ax = if dx < 0 { -dx } else { dx };
    let ay = if dy < 0 { -dy } else { dy };
    ax > threshold || ay > threshold
}

/// A row of text from `left` to `right` at `top`, moved left by the scroll.
pub fn scrolled_rect(layout: WindowLayout, left: i32, top: i32, right: i32, scroll_x: i32) -> (r: Rect)
    requires
        i32::MIN <= left - scroll_x <= i32::MAX,
        top + TEXT_ROW_HEIGHT <= i32::MAX,
    ensures
        r == (Rect { left: (left - scroll_x) as i32, top, right, bottom: (top + TEXT_ROW_HEIGHT) as i32 }),
{
    let top = layout.s(top);
    Rect { left: layout.s(left) - scroll_x, top, right, bottom: top + layout.text_row_height() }
}

/// The left end and row of a part of the text that reacts to the mouse.
pub open spec fn target_place(target: HoverTarget) -> (i32, i32) {
    match target {
        HoverTarget::SrcDir => (PATH_VALUE_LEFT, SRC_ROW_TOP),
        HoverTarget::OutDir => (PATH_VALUE_LEFT, OUT_ROW_TOP),
        HoverTarget::Language => (LANGUAGE_VALUE_LEFT, LANGUAGE_ROW_TOP),
        HoverTarget::UpdateStatus => (CONTENT_LEFT, STATUS_ROW_TOP),
    }
}

/// The rectangle of a part of the text that reacts to the mouse.
pub open spec fn target_rect(target: HoverTarget, layout: WindowLayout, scroll_x: i32) -> Rect {
    let (left, top) = target_place(target);
    Rect {
        left: (left - scroll_x) as i32,
        top,
        right: layout.code_right_spec() as i32,
        bottom: (top + TEXT_ROW_HEIGHT) as i32,
    }
}

/// Where a part of the text that reacts to the mouse is.
pub fn interactive_rect(target: HoverTarget, layout: WindowLayout, scroll_x: i32) -> (r: Rect)
    requires
        layout.wf(),
        scroll_x >= 0,
    ensures
        r == target_rect(target, layout, scroll_x),
{
    let code_right = layout.code_right();
    match target {
        HoverTarget::SrcDir => scrolled_rect(layout, PATH_VALUE_LEFT, SRC_ROW_TOP, code_right, scroll_x),
        HoverTarget::OutDir => scrolled_rect(layout, PATH_VALUE_LEFT, OUT_ROW_TOP, code_right, scroll_x),
        HoverTarget::Language => scrolled_rect(layout, LANGUAGE_VALUE_LEFT, LANGUAGE_ROW_TOP, code_right, scroll_x),
        HoverTarget::UpdateStatus => scrolled_rect(layout, CONTENT_LEFT, STATUS_ROW_TOP, code_right, scroll_x),
    }
}

/// The part of the text under `point`: the source folder, the output folder, the
/// language, then the update status when it can be clicked.
pub fn hit_target_at(point: Point, update_clickable: bool, layout: WindowLayout, scroll_x: i32) -> (r: Option<HoverTarget>)
    requires
        layout.wf(),
        scroll_x >= 0,
    ensures
        r == if in_rect(point, target_rect(HoverTarget::SrcDir, layout, scroll_x)) {
            Some(HoverTarget::SrcDir)
        } else if in_rect(point, target_rect(HoverTarget::OutDir, layout, scroll_x)) {
            Some(HoverTarget::OutDir)
        } else if in_rect(point, target_rect(HoverTarget::Language, layout, scroll_x)) {
            Some(HoverTarget::Language)
        } else if update_clickable && in_rect(point, target_rect(HoverTarget::UpdateStatus, layout, scroll_x)) {
            Some(HoverTarget::UpdateStatus)
        } else {
            None
        },
{
    if point_in_rect(point, interactive_rect(HoverTarget::SrcDir, layout, scroll_x)) {
        return Some(HoverTarget::SrcDir);
    }
    if point_in_rect(point, interactive_rect(HoverTarget::OutDir, layout, scroll_x)) {
        return Some(HoverTarget::OutDir);
    }
    if point_in_rect(point, interactive_rect(HoverTarget::Language, layout, scroll_x)) {
        return Some(HoverTarget::Language);
    }
    if update_clickable && point_in_rect(point, interactive_rect(HoverTarget::UpdateStatus, layout, scroll_x)) {
        return Some(HoverTarget::UpdateStatus);
    }
    None
}

/// What part of the window frame a point is over: an edge or corner that resizes the
/// window, the caption that moves it, or the client area.
#[derive(Clone, Copy, Debug, PartialEq, Eq, Structural)]
pub enum HitZone {
    TopLeft,
    TopRight,
    BottomLeft,
    BottomRight,
    Left,
    Right,
    Top,
    Bottom,
    Caption,
    Client,
}

/// The part of the window a point is over. The resize borders come first, corners
/// before edges; then the title-bar buttons and the title text belong to the client
/// area; the rest of the title band between them is the caption.
pub open spec fn hit_zone_spec(point: Point, layout: WindowLayout) -> HitZone {
    let b = RESIZE_BORDER as int;
    let left = point.x >= 0 && point.x < b;
    let right = point.x >= layout.width - b && point.x < layout.width;
    let top = point.y >= 0 && point.y < b;
    let bottom = point.y >= layout.height - b && point.y < layout.height;
    if left && top {
        HitZone::TopLeft
    } else if right && top {
        HitZone::TopRight
    } else if left && bottom {
        HitZone::BottomLeft
    } else if right && bottom {
        HitZone::BottomRight
    } else if left {
        HitZone::Left
    } else if right {
        HitZone::Right
    } else if top {
        HitZone::Top
    } else if bottom {
        HitZone::Bottom
    } else if in_rect(point, button_rect(layout, TitleButton::Run)) || in_rect(point, button_rect(layout, TitleButton::Step))
        || in_rect(point, button_rect(layout, TitleButton::Minimize)) || in_rect(point, button_rect(layout, TitleButton::Close)) {
        HitZone::Client
    } else if in_rect(point, Rect { left: 124, top: 20, right: (layout.width - 120) as i32, bottom: 56 }) {
        HitZone::Client
    } else if point.y >= 0 && point.y < TITLE_HEIGHT && point.x > 120 && point.x < layout.width - 112 {
        HitZone::Caption
    } else {
        HitZone::Client
    }
}

/// The part of the window a point (in client coordinates) is over.
pub fn hit_zone(point: Point, layout: WindowLayout) -> (r: HitZone)
    requires
        layout.wf(),
    ensures
        r == hit_zone_spec(point, layout),
{
    let border = layout.resize_border();
    let left = point.x >= 0 && point.x < border;
    let right = point.x >= layout.width - border && point.x < layout.width;
    let top = point.y >= 0 && point.y < border;
    let bottom = point.y >= layout.height - border && point.y < layout.height;
    if left && top {
        HitZone::TopLeft
    } else if right && top {
        HitZone::TopRight
    } else if left && bottom {
        HitZone::BottomLeft
    } else if right && bottom {
        HitZone::BottomRight
    } else if left {
        HitZone::Left
    } else if right {
        HitZone::Right
    } else if top {
        HitZone::Top
    } else if bottom {
        HitZone::Bottom
    } else if title_button_at(point, layout).is_some() {
        HitZone::Client
    } else if point_in_rect(point, title_text_rect(layout)) {
        HitZone::Client
    } else if point.y >= 0 && point.y < layout.title_height() && point.x > layout.s(120) && point.x < layout.width - layout.s(112) {
        HitZone::Caption
    } else {
        HitZone::Client
    }
}

/// The spinner's next step: it turns through four frames.
pub fn next_spinner(spinner: usize) -> (r: usize)
    ensures
        r == (spinner + 1) % 4,
{
    (spinner % 4 + 1) % 4
}

/// Whether the window keeps redrawing for its text: something is hovered, the status
/// or a folder is still blank (its cursor blinks), or an update can be clicked.
pub fn needs_text_animation(
    hover_target: Option<HoverTarget>,
    status_text: &str,
    src_dir: &str,
    out_dir: &str,
    update_clickable: bool,
) -> (r: bool)
    ensures
        r == (hover_target is Some || trim(status_text@).len() == 0 || trim(src_dir@).len() == 0
            || trim(out_dir@).len() == 0 || update_clickable),
{
    hover_target.is_some() || trim_text(&chars_of(status_text)).len() == 0 || trim_text(&chars_of(src_dir)).len() == 0
        || trim_text(&chars_of(out_dir)).len() == 0 || update_clickable
}

/// The selection of every selectable line, from the start of the first to the end of
/// the last; none when there is no line.
pub fn select_all(lines: &Vec<SelectableLine>) -> (r: Option<TextSelection>)
    ensures
        lines@.len() == 0 ==> r is None,
        lines@.len() > 0 ==> r == Some(TextSelection {
            anchor: TextPosition { line: 0, char_index: 0 },
            active: TextPosition { line: (lines@.len() - 1) as usize, char_index: lines@.last().text@.len() as usize },
        }),
{
    if lines.len() == 0 {
        return None;
    }
    let last = lines.len() - 1;
    let n = chars_of(lines[last].text.as_str()).len();
    Some(TextSelection {
        anchor: TextPosition { line: 0, char_index: 0 },
        active: TextPosition { line: last, char_index: n },
    })
}

/// The scroll bar under the code text: how far it scrolls, how wide the view is,
/// and where its track and thumb are.
#[derive(Clone, Copy, Debug, PartialEq, Eq, Structural)]
pub struct HorizontalScrollMetrics {
    pub max_scroll: i32,
    pub viewport_width: i32,
    pub track: Rect,
    pub thumb: Rect,
}

/// The width of the code text's view.
pub open spec fn viewport_spec(layout: WindowLayout) -> int {
    layout.code_right_spec() - CONTENT_LEFT
}

/// `v` moved into `lo..=hi`.
pub open spec fn clamp_spec(v: int, lo: int, hi: int) -> int {
    if v < lo {
        lo
    } else if v > hi {
        hi
    } else {
        v
    }
}

/// The scroll bar for text `virtual_width` wide scrolled by `requested_scroll`; none
/// when the text fits.
pub open spec fn scroll_metrics_spec(layout: WindowLayout, virtual_width: int, requested_scroll: int) -> Option<
    HorizontalScrollMetrics,
> {
    let viewport = viewport_spec(layout);
    let max_scroll = virtual_width - viewport;
    if max_scroll <= 0 {
        None
    } else {
        let track = Rect {
            left: CONTENT_LEFT,
            top: (layout.editor_bottom_spec() - HORIZONTAL_SCROLL_HEIGHT - 5) as i32,
            right: layout.code_right_spec() as i32,
            bottom: (layout.editor_bottom_spec() - 5) as i32,
        };
        let track_width = viewport;
        let thumb_width = clamp_spec((viewport * track_width) / virtual_width, HORIZONTAL_SCROLL_MIN_THUMB as int, track_width);
        let travel = if track_width - thumb_width >= 1 { track_width - thumb_width } else { 1 };
        let scroll = clamp_spec(requested_scroll as int, 0, max_scroll);
        let thumb_left = CONTENT_LEFT + (travel * scroll) / max_scroll;
        Some(
            HorizontalScrollMetrics {
                max_scroll: max_scroll as i32,
                viewport_width: viewport as i32,
                track,
                thumb: Rect { left: thumb_left as i32, top: track.top, right: (thumb_left + thumb_width) as i32, bottom: track.bottom },
            },
        )
    }
}

/// What pressing the mouse on the scroll bar does: grab the thumb, or page the view by
/// its width towards the press.
#[derive(Clone, Copy, Debug, PartialEq, Eq, Structural)]
pub enum ScrollPress {
    Grab,
    Page(i32),
}

/// Pressing at `point` on the scroll bar: on the thumb it is grabbed; elsewhere on the
/// track the view pages left or right of the thumb, kept within `0..=max_scroll`.
pub open spec fn scroll_press_spec(m: HorizontalScrollMetrics, point: Point, scroll: i32) -> Option<ScrollPress> {
    if in_rect(point, m.thumb) {
        Some(ScrollPress::Grab)
    } else if in_rect(point, m.track) {
        let target = if point.x < m.thumb.left { scroll - m.viewport_width } else { scroll + m.viewport_width };
        Some(ScrollPress::Page(clamp_spec(target, 0, m.max_scroll as int) as i32))
    } else {
        None
    }
}

/// What pressing the mouse at `point` on the scroll bar does, if anything.
pub fn scroll_press(m: HorizontalScrollMetrics, point: Point, scroll: i32) -> (r: Option<ScrollPress>)
    requires
        m.max_scroll >= 0,
    ensures
        r == scroll_press_spec(m, point, scroll),
{
    if point_in_rect(point, m.thumb) {
        return Some(ScrollPress::Grab);
    }
    if point_in_rect(point, m.track) {
        let step = m.viewport_width as i64;
        let target: i64 = if point.x < m.thumb.left { scroll as i64 - step } else { scroll as i64 + step };
        let page: i64 = if target < 0 { 0 } else if target > m.max_scroll as i64 { m.max_scroll as i64 } else { target };
        return Some(ScrollPress::Page(page as i32));
    }
    None
}

/// Integer division that rounds toward zero, as Rust's `/` does.
pub open spec fn div_toward_zero(a: int, b: int) -> int {
    if a >= 0 {
        a / b
    } else {
        -((-a) / b)
    }
}

/// Where dragging the thumb from `start_x` (the view then scrolled by `start_scroll`)
/// to `x` scrolls the view: the thumb's travel stands for the whole scroll range.
pub open spec fn drag_scroll_spec(m: HorizontalScrollMetrics, start_x: i32, start_scroll: i32, x: i32) -> int {
    let track_width = m.track.right - m.track.left;
    let thumb_width = m.thumb.right - m.thumb.left;
    let travel = if track_width - thumb_width >= 1 { track_width - thumb_width } else { 1 };
    clamp_spec(start_scroll + div_toward_zero((x - start_x) * m.max_scroll, travel), 0, m.max_scroll as int)
}

/// Where dragging the scroll bar's thumb scrolls the view.
pub fn drag_scroll(m: HorizontalScrollMetrics, start_x: i32, start_scroll: i32, x: i32) -> (r: i32)
    requires
        0 <= m.max_scroll,
        m.track.left <= m.thumb.left < m.thumb.right <= m.track.right,
    ensures
        r == drag_scroll_spec(m, start_x, start_scroll, x),
{
    let track_width = m.track.right as i128 - m.track.left as i128;
    let thumb_width = m.thumb.right as i128 - m.thumb.left as i128;
    let travel: i128 = if track_width - thumb_width >= 1 { track_width - thumb_width } else { 1 };
    let delta: i128 = x as i128 - start_x as i128;
    assert(-0x1_0000_0000 * 0x8000_0000 < delta * (m.max_scroll as i128) < 0x1_0000_0000 * 0x8000_0000) by (nonlinear_arith)
        requires
            -0x1_0000_0000 < delta < 0x1_0000_0000,
            0 <= m.max_scroll < 0x8000_0000,
    ;
    let moved: i128 = delta * (m.max_scroll as i128);
    assert(moved >= 0 ==> 0 <= (moved as int) / (travel as int) <= moved) by (nonlinear_arith)
        requires
            travel >= 1,
    ;
    assert(moved < 0 ==> 0 <= (-moved) / (travel as int) <= -moved) by (nonlinear_arith)
        requires
            travel >= 1,
    ;
    let q: i128 = if moved >= 0 { moved / travel } else { -((-moved) / travel) };
    let target: i128 = start_scroll as i128 + q;
    let scroll: i128 = if target < 0 { 0 } else if target > m.max_scroll as i128 { m.max_scroll as i128 } else { target };
    scroll as i32
}

/// The middle of character `i`, from the widths of the text's prefixes.
pub open spec fn char_midpoint(prefix_widths: Seq<i32>, i: int) -> int {
    prefix_widths[i] + div_toward_zero(prefix_widths[i + 1] - prefix_widths[i], 2)
}

/// The first character from `i` on whose middle lies right of `rel`; past the last
/// character when there is none.
pub open spec fn char_index_from(prefix_widths: Seq<i32>, rel: int, i: int) -> int
    decreases prefix_widths.len() - i,
{
    if i < 0 || i + 1 >= prefix_widths.len() {
        prefix_widths.len() - 1
    } else if rel < char_midpoint(prefix_widths, i) {
        i
    } else {
        char_index_from(prefix_widths, rel, i + 1)
    }
}

/// Where a click at `x` falls in a line of text drawn from `text_left`.
pub open spec fn char_index_spec(prefix_widths: Seq<i32>, text_left: int, x: int) -> int {
    if x - text_left <= 0 {
        0
    } else {
        char_index_from(prefix_widths, x - text_left, 0)
    }
}

/// Where a click at `x` falls in a line of text drawn from `text_left`: before the first
/// character whose middle lies right of it. `prefix_widths[k]` is the drawn width of
/// the first `k` characters, one entry per character and one more.
pub fn char_index_at_x(prefix_widths: &Vec<i32>, text_left: i32, x: i32) -> (r: usize)
    requires
        prefix_widths@.len() >= 1,
    ensures
        r == char_index_spec(prefix_widths@, text_left as int, x as int),
{
    let rel: i64 = x as i64 - text_left as i64;
    if rel <= 0 {
        return 0;
    }
    let chars = prefix_widths.len() - 1;
    let mut index: usize = 0;
    while index < chars
        invariant
            index <= chars == prefix_widths@.len() - 1,
            rel == x - text_left,
            rel > 0,
            char_index_from(prefix_widths@, rel as int, 0) == char_index_from(prefix_widths@, rel as int, index as int),
        decreases chars - index,
    {
        let left = prefix_widths[index] as i64;
        let right = prefix_widths[index + 1] as i64;
        let gap = right - left;
        let half: i64 = if gap >= 0 { gap / 2 } else { -((-gap) / 2) };
        if rel < left + half {
            assert(char_index_from(prefix_widths@, rel as int, index as int) == index);
            return index;
        }
        index = index + 1;
    }
    chars
}

/// The scroll bar's thumb always lies inside its track, and reaches the track's right
/// end exactly when the text is scrolled to its end.
pub proof fn lemma_thumb_inside_track(layout: WindowLayout, virtual_width: i32, requested_scroll: i32)
    requires
        layout.wf(),
        virtual_width > viewport_spec(layout) ==> viewport_spec(layout) * virtual_width <= i32::MAX,
    ensures
        scroll_metrics_spec(layout, virtual_width as int, requested_scroll as int) matches Some(m) ==> {
            &&& m.track.left <= m.thumb.left
            &&& m.thumb.left < m.thumb.right <= m.track.right
            &&& (m.thumb.right == m.track.right <==> requested_scroll >= m.max_scroll)
        },
{
    let v = viewport_spec(layout);
    let max_scroll = virtual_width - v;
    if max_scroll > 0 {
        assert(v * v <= v * virtual_width) by (nonlinear_arith)
            requires
                v >= 1,
                virtual_width > v,
        ;
        let raw = (v * v) / (virtual_width as int);
        assert(0 <= raw < v) by (nonlinear_arith)
            requires
                v >= 1,
                virtual_width > v,
                raw == (v * v) / (virtual_width as int),
        ;
        let thumb_width = clamp_spec(raw, HORIZONTAL_SCROLL_MIN_THUMB as int, v);
        let travel = v - thumb_width;
        assert(travel >= 1);
        let scroll = clamp_spec(requested_scroll as int, 0, max_scroll);
        let q = (travel * scroll) / max_scroll;
        assert(0 <= q <= travel) by (nonlinear_arith)
            requires
                travel >= 1,
                0 <= scroll <= max_scroll,
                max_scroll >= 1,
                q == (travel * scroll) / max_scroll,
        ;
        assert(q == travel <==> scroll == max_scroll) by (nonlinear_arith)
            requires
                travel >= 1,
                0 <= scroll <= max_scroll,
                max_scroll >= 1,
                q == (travel * scroll) / max_scroll,
        ;
    }
}

/// The scroll bar under the code text, when the text is wider than its view.
pub fn horizontal_scroll_metrics(layout: WindowLayout, virtual_width: i32, requested_scroll: i32) -> (r: Option<
    HorizontalScrollMetrics,
>)
    requires
        layout.wf(),
        virtual_width - viewport_spec(layout) >= i32::MIN,
        virtual_width > viewport_spec(layout) ==> viewport_spec(layout) * virtual_width <= i32::MAX,
    ensures
        r == scroll_metrics_spec(layout, virtual_width as int, requested_scroll as int),
{
    let w = layout.code_right() - layout.content_left();
    let viewport_width = if w >= 1 { w } else { 1 };
    let d = virtual_width - viewport_width;
    let max_scroll = if d >= 0 { d } else { 0 };
    if max_scroll <= 0 {
        return None;
    }
    let track = Rect {
        left: layout.content_left(),
        top: layout.editor_bottom() - layout.horizontal_scroll_height() - layout.s(5),
        right: layout.code_right(),
        bottom: layout.editor_bottom() - layout.s(5),
    };
    let tw = track.right - track.left;
    let track_width = if tw >= 1 { tw } else { 1 };
    let vw = if virtual_width >= 1 { virtual_width } else { 1 };
    assert(viewport_width * track_width <= viewport_width * virtual_width) by (nonlinear_arith)
        requires
            track_width == viewport_width,
            viewport_width < virtual_width,
            viewport_width >= 1,
    ;
    let raw = (viewport_width * track_width) / vw;
    let min_thumb = layout.horizontal_scroll_min_thumb();
    let thumb_width = if raw < min_thumb {
        min_thumb
    } else if raw > track_width {
        track_width
    } else {
        raw
    };
    let tr = track_width - thumb_width;
    let travel = if tr >= 1 { tr } else { 1 };
    let scroll = if requested_scroll < 0 {
        0
    } else if requested_scroll > max_scroll {
        max_scroll
    } else {
        requested_scroll
    };
    assert(travel * scroll <= viewport_width * virtual_width) by (nonlinear_arith)
        requires
            1 <= travel <= viewport_width,
            0 <= scroll <= max_scroll,
            max_scroll < virtual_width,
            viewport_width >= 1,
    ;
    assert(0 <= (travel * scroll) / (max_scroll as int) <= travel) by (nonlinear_arith)
        requires
            1 <= travel,
            0 <= scroll <= max_scroll,
            max_scroll >= 1,
    ;
    let thumb_left = track.left + (travel * scroll) / max_scroll;
    let thumb = Rect { left: thumb_left, top: track.top, right: thumb_left + thumb_width, bottom: track.bottom };
    Some(HorizontalScrollMetrics { max_scroll, viewport_width, track, thumb })
}

/// The furthest right edge among `rights[0..n]`, never left of `left`.
pub open spec fn furthest_right(left: int, rights: Seq<i32>, n: int) -> int
    decreases n,
{
    if n <= 0 {
        left
    } else {
        let before = furthest_right(left, rights, n - 1);
        if rights[n - 1] > before {
            rights[n - 1] as int
        } else {
            before
        }
    }
}

/// The width the code view's content needs: how far the furthest of the measured right
/// edges of its lines (`rights`) reaches past `content_left`, or zero.
pub fn code_content_width(content_left: i32, rights: &Vec<i32>) -> (r: i32)
    requires
        forall|i: int| 0 <= i < rights@.len() ==> rights@[i] - content_left <= i32::MAX,
    ensures
        r as int == furthest_right(content_left as int, rights@, rights@.len() as int) - content_left,
{
    let mut right = content_left;
    let mut i: usize = 0;
    while i < rights.len()
        invariant
            i <= rights@.len(),
            right as int == furthest_right(content_left as int, rights@, i as int),
            right >= content_left,
            right == content_left || exists|k: int| 0 <= k < i && rights@[k] == right,
        decreases rights@.len() - i,
    {
        if rights[i] > right {
            right = rights[i];
        }
        i = i + 1;
    }
    proof {
        if right != content_left {
            let k = choose|k: int| 0 <= k < rights@.len() && rights@[k] == right;
            assert(rights@[k] - content_left <= i32::MAX);
        }
    }
    right - content_left
}

/// The distance from `y` to the rows of `line`: zero inside them.
pub open spec fn row_distance(line: SelectableLine, y: int) -> int {
    if y < line.top {
        line.top - y
    } else if y >= line.bottom {
        y - line.bottom
    } else {
        0
    }
}

/// The first line whose rows hold `y`, from `i`.
pub open spec fn first_row_from(lines: Seq<SelectableLine>, y: int, i: int) -> Option<int>
    decreases lines.len() - i,
{
    if i < 0 || i >= lines.len() {
        None
    } else if y >= lines[i].top && y < lines[i].bottom {
        Some(i)
    } else {
        first_row_from(lines, y, i + 1)
    }
}

/// The first of the lines `0..n` nearest to `y`.
pub open spec fn nearest_line(lines: Seq<SelectableLine>, y: int, n: int) -> int
    decreases n,
{
    if n <= 1 {
        0
    } else {
        let k = nearest_line(lines, y, n - 1);
        if row_distance(lines[n - 1], y) < row_distance(lines[k], y) {
            n - 1
        } else {
            k
        }
    }
}

/// The line of selectable text at `point`: the first whose rows hold it (and, unless
/// `clamp_to_nearest_line`, whose columns hold it too); else, when clamping, the first
/// line above all of them or the nearest one.
pub open spec fn line_at_spec(lines: Seq<SelectableLine>, point: Point, clamp_to_nearest_line: bool) -> Option<int> {
    if lines.len() == 0 {
        None
    } else {
        match first_row_from(lines, point.y as int, 0) {
            Some(i) if clamp_to_nearest_line || (point.x >= lines[i].left && point.x < lines[i].right) => Some(i),
            _ => if !clamp_to_nearest_line {
                None
            } else if point.y < lines[0].top {
                Some(0)
            } else {
                Some(nearest_line(lines, point.y as int, lines.len() as int))
            },
        }
    }
}

/// The line of selectable text at `point`.
pub fn selectable_line_index_at_point(lines: &Vec<SelectableLine>, point: Point, clamp_to_nearest_line: bool) -> (r: Option<usize>)
    ensures
        match line_at_spec(lines@, point, clamp_to_nearest_line) {
            Some(i) => r matches Some(k) && k as int == i,
            None => r is None,
        },
{
    if lines.len() == 0 {
        return None;
    }
    match first_row(lines, point.y) {
        Some(index) => {
            if clamp_to_nearest_line || (point.x >= lines[index].left && point.x < lines[index].right) {
                return Some(index);
            }
        },
        None => {},
    }
    if !clamp_to_nearest_line {
        return None;
    }
    if point.y < lines[0].top {
        return Some(0);
    }
    let mut best: usize = 0;
    let mut best_distance: i64 = distance(&lines[0], point.y);
    let mut j: usize = 1;
    while j < lines.len()
        invariant
            1 <= j <= lines@.len(),
            best < j,
            best as int == nearest_line(lines@, point.y as int, j as int),
            best_distance as int == row_distance(lines@[best as int], point.y as int),
        decreases lines@.len() - j,
    {
        let d = distance(&lines[j], point.y);
        if d < best_distance {
            best = j;
            best_distance = d;
        }
        j = j + 1;
    }
    Some(best)
}

/// The first line whose rows hold `y`.
fn first_row(lines: &Vec<SelectableLine>, y: i32) -> (r: Option<usize>)
    ensures
        r matches Some(k) ==> k < lines@.len(),
        match first_row_from(lines@, y as int, 0) {
            Some(i) => r matches Some(k) && k as int == i,
            None => r is None,
        },
{
    let mut i: usize = 0;
    while i < lines.len()
        invariant
            i <= lines@.len(),
            first_row_from(lines@, y as int, 0) == first_row_from(lines@, y as int, i as int),
        decreases lines@.len() - i,
    {
        if y >= lines[i].top && y < lines[i].bottom {
            return Some(i);
        }
        i = i + 1;
    }
    None
}

/// The distance from `y` to the rows of `line`.
fn distance(line: &SelectableLine, y: i32) -> (r: i64)
    ensures
        r as int == row_distance(*line, y as int),
{
    if y < line.top {
        line.top as i64 - y as i64
    } else if y >= line.bottom {
        y as i64 - line.bottom as i64
    } else {
        0
    }
}

/// Whether nothing is selected.
pub fn selection_is_empty(selection: TextSelection) -> (r: bool)
    ensures
        r == (selection.anchor == selection.active),
{
    selection.anchor == selection.active
}

/// A value as shown in the selectable text: an empty one shows the blinking cursor
/// `_` when it is on.
pub open spec fn shown_value(value: Seq<char>, blink_on: bool) -> Seq<char> {
    if trim(value).len() == 0 {
        if blink_on {
            seq!['_']
        } else {
            Seq::empty()
        }
    } else {
        value
    }
}

/// A value as shown in the selectable text.
pub fn selectable_value_text<'a>(value: &'a str, blink_on: bool) -> (r: &'a str)
    ensures
        r@ == shown_value(value@, blink_on),
{
    proof {
        reveal_strlit("_");
        reveal_strlit("");
    }
    let t = trim_text(&chars_of(value));
    if t.len() == 0 {
        if blink_on {
            "_"
        } else {
            ""
        }
    } else {
        value
    }
}

/// The version as a Python module name: `transplanter_v` and the version with each
/// character that is not an ASCII letter or digit made `_`.
pub open spec fn version_module_spec(version: Seq<char>) -> Seq<char> {
    "transplanter_v"@ + version.map_values(|c: char| if is_alnum(c) { c } else { '_' })
}

/// The module name the window's `import` line shows for `version`.
pub fn transplanter_version_module(version: &str) -> (r: String)
    ensures
        r@ == version_module_spec(version@),
{
    let v = chars_of(version);
    let mut out: Vec<char> = Vec::new();
    push_str(&mut out, "transplanter_v");
    let ghost start = out@;
    let mut i: usize = 0;
    while i < v.len()
        invariant
            i <= v@.len(),
            v@ == version@,
            out@ == start + v@.subrange(0, i as int).map_values(|c: char| if is_alnum(c) { c } else { '_' }),
        decreases v@.len() - i,
    {
        let c = v[i];
        let ascii_alnum = ('a' <= c && c <= 'z') || ('A' <= c && c <= 'Z') || ('0' <= c && c <= '9');
        out.push(if ascii_alnum { c } else { '_' });
        proof {
            assert(v@.subrange(0, i + 1).map_values(|c: char| if is_alnum(c) { c } else { '_' }) =~= v@.subrange(0, i as int).map_values(
                |c: char| if is_alnum(c) { c } else { '_' },
            ).push(if is_alnum(c) { c } else { '_' }));
        }
        i = i + 1;
    }
    proof {
        assert(v@.subrange(0, v@.len() as int) =~= v@);
    }
    string_of(out.as_slice())
}

/// A line of code text at row `top`.
pub open spec fn code_line(layout: WindowLayout, top: i32, text: Seq<char>) -> (Seq<char>, Rect) {
    (text, Rect { left: CONTENT_LEFT, top, right: layout.code_right_spec() as i32, bottom: (top + TEXT_ROW_HEIGHT) as i32 })
}

/// Appends a line of code text at row `top`.
pub fn push_code_line(lines: &mut Vec<SelectableLine>, layout: WindowLayout, top: i32, text: String)
    requires
        layout.wf(),
        top + TEXT_ROW_HEIGHT <= i32::MAX,
    ensures
        final(lines)@.len() == old(lines)@.len() + 1,
        final(lines)@.drop_last() == old(lines)@,
        forall|i: int| 0 <= i < old(lines)@.len() ==> final(lines)@[i] == old(lines)@[i],
        final(lines)@.last() == (SelectableLine {
            text,
            left: CONTENT_LEFT,
            top,
            right: layout.code_right_spec() as i32,
            bottom: (top + TEXT_ROW_HEIGHT) as i32,
            scrollable: true,
            font: SelectableFont::Code,
        }),
{
    let top = layout.s(top);
    let line = SelectableLine {
        text,
        left: layout.content_left(),
        top,
        right: layout.code_right(),
        bottom: top + layout.text_row_height(),
        scrollable: true,
        font: SelectableFont::Code,
    };
    lines.push(line);
    proof {
        assert(lines@.drop_last() =~= old(lines)@);
    }
}

/// What the window's code text shows.
pub struct CodeText<'a> {
    pub src: &'a str,
    pub out: &'a str,
    pub language: &'a str,
    pub status: &'a str,
    pub diagnostic: &'a str,
    pub hover_target: Option<HoverTarget>,
    pub blink_on: bool,
    pub spinner: usize,
    pub update_available: bool,
}

/// The rows of code text below the title, each with its top: the `import` line, the
/// status and error lines when there are any, the three settings and the call.
pub open spec fn code_rows(text: CodeText, version: Seq<char>) -> Seq<(Seq<char>, i32)> {
    seq![("import "@ + version_module_spec(version) + " as transplanter"@, IMPORT_ROW_TOP)] + match status_value_spec(
        text.status@,
        text.update_available,
        text.spinner as nat,
    ) {
        Some(v) => seq![("status = \""@ + v + seq!['"'], STATUS_ROW_TOP)],
        None => Seq::empty(),
    } + match diagnostic_value_spec(text.diagnostic@) {
        Some(v) => seq![("error = \""@ + v + seq!['"'], DIAGNOSTIC_ROW_TOP)],
        None => Seq::empty(),
    } + seq![
        ("src_dir  = "@ + shown_value(text.src@, text.blink_on), SRC_ROW_TOP),
        ("out_dir  = "@ + shown_value(text.out@, text.blink_on), OUT_ROW_TOP),
        ("language = "@ + shown_value(text.language@, text.blink_on), LANGUAGE_ROW_TOP),
        ("transplanter(src_dir, out_dir, language)"@, CALL_ROW_TOP),
    ]
}

/// Whether `line` is a code row with text `t` at row `top`.
pub open spec fn is_code_row(line: SelectableLine, layout: WindowLayout, t: Seq<char>, top: i32) -> bool {
    &&& line.text@ == t
    &&& line.left == CONTENT_LEFT
    &&& line.top == top
    &&& line.right == layout.code_right_spec()
    &&& line.bottom == top + TEXT_ROW_HEIGHT
    &&& line.scrollable
    &&& line.font == SelectableFont::Code
}

/// Appends a code row with `prefix` and `value` at row `top`.
fn push_row(lines: &mut Vec<SelectableLine>, layout: WindowLayout, top: i32, prefix: &str, value: &str)
    requires
        layout.wf(),
        top + TEXT_ROW_HEIGHT <= i32::MAX,
    ensures
        final(lines)@.len() == old(lines)@.len() + 1,
        final(lines)@.drop_last() == old(lines)@,
        forall|i: int| 0 <= i < old(lines)@.len() ==> final(lines)@[i] == old(lines)@[i],
        is_code_row(final(lines)@.last(), layout, prefix@ + value@, top),
{
    let mut t: Vec<char> = Vec::new();
    push_str(&mut t, prefix);
    push_str(&mut t, value);
    push_code_line(lines, layout, top, string_of(t.as_slice()));
}

/// The window's lines of selectable text: the title, then the rows of `code_rows`.
pub fn selectable_lines(text: CodeText, layout: WindowLayout, version: &str) -> (r: Vec<SelectableLine>)
    requires
        layout.wf(),
    ensures
        r@.len() == code_rows(text, version@).len() + 1,
        r@[0].text@ == "Transplanter"@,
        r@[0].left == 124 && r@[0].top == 20 && r@[0].right == layout.width - 120 && r@[0].bottom == 56,
        !r@[0].scrollable && r@[0].font == SelectableFont::Title,
        forall|i: int|
            1 <= i < r@.len() ==> is_code_row(r@[i], layout, code_rows(text, version@)[i - 1].0, code_rows(text, version@)[i - 1].1),
{
    let mut lines: Vec<SelectableLine> = Vec::new();
    let title = title_text_rect(layout);
    lines.push(
        SelectableLine {
            text: String::from_str("Transplanter"),
            left: title.left,
            top: title.top,
            right: title.right,
            bottom: title.bottom,
            scrollable: false,
            font: SelectableFont::Title,
        },
    );
    let module = transplanter_version_module(version);
    let mut import: Vec<char> = Vec::new();
    push_str(&mut import, "import ");
    push_str(&mut import, module.as_str());
    push_str(&mut import, " as transplanter");
    push_code_line(&mut lines, layout, IMPORT_ROW_TOP, string_of(import.as_slice()));
    let ghost rows0: Seq<(Seq<char>, i32)> = seq![("import "@ + version_module_spec(version@) + " as transplanter"@, IMPORT_ROW_TOP)];
    proof {
        assert(import@ =~= rows0[0].0);
    }
    let ghost status_rows: Seq<(Seq<char>, i32)> = match status_value_spec(text.status@, text.update_available, text.spinner as nat) {
        Some(v) => seq![("status = \""@ + v + seq!['"'], STATUS_ROW_TOP)],
        None => Seq::empty(),
    };
    match status_display_text(text.status, text.update_available, text.spinner) {
        Some(status) => push_code_line(&mut lines, layout, STATUS_ROW_TOP, status),
        None => {},
    }
    let ghost diag_rows: Seq<(Seq<char>, i32)> = match diagnostic_value_spec(text.diagnostic@) {
        Some(v) => seq![("error = \""@ + v + seq!['"'], DIAGNOSTIC_ROW_TOP)],
        None => Seq::empty(),
    };
    match diagnostic_display_text(text.diagnostic) {
        Some(diagnostic) => push_code_line(&mut lines, layout, DIAGNOSTIC_ROW_TOP, diagnostic),
        None => {},
    }
    let ghost before = lines@;
    push_row(&mut lines, layout, SRC_ROW_TOP, "src_dir  = ", selectable_value_text(text.src, text.blink_on));
    push_row(&mut lines, layout, OUT_ROW_TOP, "out_dir  = ", selectable_value_text(text.out, text.blink_on));
    push_row(&mut lines, layout, LANGUAGE_ROW_TOP, "language = ", selectable_value_text(text.language, text.blink_on));
    push_row(&mut lines, layout, CALL_ROW_TOP, "transplanter(src_dir, out_dir, language)", "");
    proof {
        let rows = code_rows(text, version@);
        assert(rows =~= rows0 + status_rows + diag_rows + seq![
            ("src_dir  = "@ + shown_value(text.src@, text.blink_on), SRC_ROW_TOP),
            ("out_dir  = "@ + shown_value(text.out@, text.blink_on), OUT_ROW_TOP),
            ("language = "@ + shown_value(text.language@, text.blink_on), LANGUAGE_ROW_TOP),
            ("transplanter(src_dir, out_dir, language)"@, CALL_ROW_TOP),
        ]);
        assert("transplanter(src_dir, out_dir, language)"@ + ""@ =~= "transplanter(src_dir, out_dir, language)"@) by {
            reveal_strlit("");
        }
    }
    lines
}

} // verus!
