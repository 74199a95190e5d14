//! The measurement overlay: its modes and how they are saved, how it reacts
//! to the user, and what it measures and draws for a cursor position.

use crate::edge_detector::{Axis, EdgeEngine};
use crate::text::{decimal, is_digit_char, lemma_decimal_read_back, numeral_value, is_white_space, lemma_trim_unpadded, push_decimal, spec_trim, str_equals, trim};
use vstd::prelude::*;

verus! {

/// What the overlay measures.
#[derive(Debug, Clone, Copy, PartialEq, Eq, Structural)]
pub enum Mode {
    /// The box around the cursor.
    Bounds,
    /// Both the horizontal and the vertical span through the cursor.
    Crosshair,
    /// The horizontal span through the cursor.
    Horizontal,
    /// The vertical span through the cursor.
    Vertical,
}

/// The name under which a mode is saved.
pub open spec fn spec_mode_name(mode: Mode) -> Seq<char> {
    match mode {
        Mode::Bounds => "Bounds"@,
        Mode::Crosshair => "Crosshair"@,
        Mode::Horizontal => "Horizontal"@,
        Mode::Vertical => "Vertical"@,
    }
}

/// The mode a saved name stands for; an unknown name gives `Horizontal`.
pub open spec fn spec_mode_from_name(name: Seq<char>) -> Mode {
    if name == "Bounds"@ {
        Mode::Bounds
    } else if name == "Crosshair"@ {
        Mode::Crosshair
    } else if name == "Horizontal"@ {
        Mode::Horizontal
    } else if name == "Vertical"@ {
        Mode::Vertical
    } else {
        Mode::Horizontal
    }
}

/// The name under which a mode is saved.
pub fn mode_name(mode: Mode) -> (name: &'static str)
    ensures
        name@ == spec_mode_name(mode),
{
    match mode {
        Mode::Bounds => "Bounds",
        Mode::Crosshair => "Crosshair",
        Mode::Horizontal => "Horizontal",
        Mode::Vertical => "Vertical",
    }
}

/// The mode a saved name stands for; an unknown name gives `Horizontal`.
pub fn mode_from_name(name: &str) -> (mode: Mode)
    ensures
        mode == spec_mode_from_name(name@),
{
    if str_equals(name, "Bounds") {
        Mode::Bounds
    } else if str_equals(name, "Crosshair") {
        Mode::Crosshair
    } else if str_equals(name, "Horizontal") {
        Mode::Horizontal
    } else if str_equals(name, "Vertical") {
        Mode::Vertical
    } else {
        Mode::Horizontal
    }
}

/// Every mode reads back from its saved name.
pub proof fn lemma_mode_name_roundtrip(mode: Mode)
    ensures
        spec_mode_from_name(spec_mode_name(mode)) == mode,
{
    reveal_strlit("Bounds");
    reveal_strlit("Crosshair");
    reveal_strlit("Horizontal");
    reveal_strlit("Vertical");
    // The four names have different lengths, so no two of them are equal.
    assert("Bounds"@.len() == 6);
    assert("Crosshair"@.len() == 9);
    assert("Horizontal"@.len() == 10);
    assert("Vertical"@.len() == 8);
}

proof fn lemma_mode_name_unpadded(mode: Mode)
    ensures
        spec_trim(spec_mode_name(mode)) == spec_mode_name(mode),
{
    reveal_strlit("Bounds");
    reveal_strlit("Crosshair");
    reveal_strlit("Horizontal");
    reveal_strlit("Vertical");
    let name = spec_mode_name(mode);
    assert(name.len() > 0);
    assert(!is_white_space(name[0]));
    assert(!is_white_space(name.last()));
    lemma_trim_unpadded(name);
}

/// The mode saved in a file's content: the content without surrounding
/// white space, read as a mode name. Content written for a mode reads back
/// as that mode.
pub fn parse_saved_mode(content: &str) -> (mode: Mode)
    ensures
        mode == spec_mode_from_name(spec_trim(content@)),
        forall|saved: Mode| content@ == spec_mode_name(saved) ==> mode == saved,
{
    let name = trim(content);
    let mode = mode_from_name(name);
    proof {
        assert forall|saved: Mode| content@ == spec_mode_name(saved) implies mode == saved by {
            lemma_mode_name_unpadded(saved);
            lemma_mode_name_roundtrip(saved);
        }
    }
    mode
}

/// The mode to start in: the saved one when the saved content could be
/// read, `Horizontal` otherwise.
pub fn load_saved_mode(saved: Option<&str>) -> (mode: Mode)
    ensures
        match saved {
            Some(content) => mode == spec_mode_from_name(spec_trim(content@)),
            None => mode == Mode::Horizontal,
        },
{
    match saved {
        Some(content) => parse_saved_mode(content),
        None => Mode::Horizontal,
    }
}

/// Which way the wheel turned.
#[derive(Debug, Clone, Copy, PartialEq, Eq, Structural)]
pub enum ScrollDirection {
    /// Towards the user: skip to the next edges further out.
    Down,
    /// Away from the user: come back to the previous edges.
    Up,
    /// Neither (a purely horizontal or zero scroll).
    Still,
}

/// Something the user did to the overlay.
#[derive(Debug, Clone, Copy, PartialEq, Eq, Structural)]
pub enum OverlayEvent {
    /// A mode button was toggled; `active` tells whether it is now pressed.
    ModeToggled { mode: Mode, active: bool },
    /// The pointer moved over the overlay.
    PointerMoved,
    /// The mouse wheel turned.
    Scrolled(ScrollDirection),
    /// The close button was clicked.
    CloseClicked,
    /// The Escape key was pressed.
    EscapePressed,
}

/// What the overlay has to do after an event.
#[derive(Debug, Clone, Copy, PartialEq, Eq, Structural)]
pub enum OverlayAction {
    /// Nothing.
    Nothing,
    /// Draw the overlay again.
    Redraw,
    /// Save the given mode as the one to start with, then draw again.
    SaveModeAndRedraw(Mode),
    /// Close the overlay window.
    CloseWindow,
}

/// The overlay's interaction state: how many edges to skip on each side,
/// and the mode.
#[derive(Debug, Clone, Copy, PartialEq, Eq, Structural)]
pub struct AppState {
    pub skip_index: usize,
    pub mode: Mode,
}

/// How the overlay reacts to an event: the next state and the action.
pub open spec fn spec_handle(state: AppState, event: OverlayEvent) -> (AppState, OverlayAction) {
    match event {
        OverlayEvent::ModeToggled { mode, active } => {
            if active {
                (AppState { skip_index: 0, mode }, OverlayAction::SaveModeAndRedraw(mode))
            } else {
                (state, OverlayAction::Nothing)
            }
        },
        OverlayEvent::PointerMoved => (
            AppState { skip_index: 0, mode: state.mode },
            OverlayAction::Redraw,
        ),
        OverlayEvent::Scrolled(direction) => {
            let skip_index = match direction {
                ScrollDirection::Down => (state.skip_index + 1) as usize,
                ScrollDirection::Up => if state.skip_index > 0 {
                    (state.skip_index - 1) as usize
                } else {
                    state.skip_index
                },
                ScrollDirection::Still => state.skip_index,
            };
            (AppState { skip_index, mode: state.mode }, OverlayAction::Redraw)
        },
        OverlayEvent::CloseClicked => (state, OverlayAction::CloseWindow),
        OverlayEvent::EscapePressed => (state, OverlayAction::CloseWindow),
    }
}

/// Whether the overlay can take an event: skipping further is impossible
/// once the skip count is the largest `usize`.
pub open spec fn can_handle(state: AppState, event: OverlayEvent) -> bool {
    !(event == OverlayEvent::Scrolled(ScrollDirection::Down) && state.skip_index == usize::MAX)
}

impl AppState {
    /// The state the overlay starts in.
    pub fn new(mode: Mode) -> (state: Self)
        ensures
            state.skip_index == 0,
            state.mode == mode,
    {
        AppState { skip_index: 0, mode }
    }

    /// Applies an event to the state and returns what the overlay has to do.
    pub fn handle(&mut self, event: OverlayEvent) -> (action: OverlayAction)
        requires
            can_handle(*old(self), event),
        ensures
            (*final(self), action) == spec_handle(*old(self), event),
    {
        match event {
            OverlayEvent::ModeToggled { mode, active } => {
                if active {
                    self.mode = mode;
                    self.skip_index = 0;
                    OverlayAction::SaveModeAndRedraw(mode)
                } else {
                    OverlayAction::Nothing
                }
            },
            OverlayEvent::PointerMoved => {
                self.skip_index = 0;
                OverlayAction::Redraw
            },
            OverlayEvent::Scrolled(direction) => {
                match direction {
                    ScrollDirection::Down => {
                        self.skip_index += 1;
                    },
                    ScrollDirection::Up => {
                        if self.skip_index > 0 {
                            self.skip_index -= 1;
                        }
                    },
                    ScrollDirection::Still => {},
                }
                OverlayAction::Redraw
            },
            OverlayEvent::CloseClicked => OverlayAction::CloseWindow,
            OverlayEvent::EscapePressed => OverlayAction::CloseWindow,
        }
    }
}

/// What each kind of event makes the overlay do, whatever the state: a
/// pointer move always redraws; closing or Escape always closes and changes
/// nothing; releasing a mode button does nothing at all.
pub proof fn lemma_event_actions(state: AppState, mode: Mode)
    ensures
        spec_handle(state, OverlayEvent::PointerMoved).1 == OverlayAction::Redraw,
        spec_handle(state, OverlayEvent::CloseClicked) == (state, OverlayAction::CloseWindow),
        spec_handle(state, OverlayEvent::EscapePressed) == (state, OverlayAction::CloseWindow),
        spec_handle(state, (OverlayEvent::ModeToggled { mode, active: false })) == (
            state,
            OverlayAction::Nothing,
        ),
{
}

/// Scrolling down and then up comes back to the same state.
pub proof fn lemma_scroll_down_then_up(state: AppState)
    requires
        state.skip_index < usize::MAX,
    ensures
        spec_handle(
            spec_handle(state, OverlayEvent::Scrolled(ScrollDirection::Down)).0,
            OverlayEvent::Scrolled(ScrollDirection::Up),
        ).0 == state,
{
}

/// Scrolling up never goes below the nearest edges.
pub proof fn lemma_scroll_up_at_nearest(state: AppState)
    requires
        state.skip_index == 0,
    ensures
        spec_handle(state, OverlayEvent::Scrolled(ScrollDirection::Up)).0 == state,
{
}

/// Scrolling only changes which edges are skipped, never the mode, and the
/// overlay is always drawn again.
pub proof fn lemma_scroll_keeps_mode(state: AppState, direction: ScrollDirection)
    ensures
        spec_handle(state, OverlayEvent::Scrolled(direction)).0.mode == state.mode,
        spec_handle(state, OverlayEvent::Scrolled(direction)).1 == OverlayAction::Redraw,
{
}

/// Moving the pointer, or choosing a mode, starts again from the nearest
/// edges; choosing a mode also selects and saves it.
pub proof fn lemma_reset_to_nearest_edges(state: AppState, mode: Mode)
    ensures
        spec_handle(state, OverlayEvent::PointerMoved).0 == (AppState {
            skip_index: 0,
            mode: state.mode,
        }),
        spec_handle(state, (OverlayEvent::ModeToggled { mode, active: true })) == (
            (AppState { skip_index: 0, mode }),
            OverlayAction::SaveModeAndRedraw(mode),
        ),
{
}

/// Whether an event starts again from the nearest edges: a pointer move, or
/// choosing a mode.
pub open spec fn resets_skip(event: OverlayEvent) -> bool {
    ||| event == OverlayEvent::PointerMoved
    ||| (event matches OverlayEvent::ModeToggled { active, .. } && active)
}

/// The state after a sequence of events, one after the other.
pub open spec fn run_events(state: AppState, events: Seq<OverlayEvent>) -> AppState
    decreases events.len(),
{
    if events.len() == 0 {
        state
    } else {
        spec_handle(run_events(state, events.drop_last()), events.last()).0
    }
}

/// Whether the overlay can take each event of the sequence in turn.
pub open spec fn can_run(state: AppState, events: Seq<OverlayEvent>) -> bool {
    forall|i: int|
        0 <= i < events.len() ==> can_handle(run_events(state, events.take(i)), #[trigger] events[i])
}

/// The skip count reached from `start` by the wheel turns of a sequence:
/// one more for each turn down, one less for each turn up unless it is 0.
pub open spec fn wheel_count(start: int, events: Seq<OverlayEvent>) -> int
    decreases events.len(),
{
    if events.len() == 0 {
        start
    } else {
        let before = wheel_count(start, events.drop_last());
        if events.last() == OverlayEvent::Scrolled(ScrollDirection::Down) {
            before + 1
        } else if events.last() == OverlayEvent::Scrolled(ScrollDirection::Up) && before > 0 {
            before - 1
        } else {
            before
        }
    }
}

/// Whether some event of the sequence starts again from the nearest edges.
pub open spec fn has_reset(events: Seq<OverlayEvent>) -> bool
    decreases events.len(),
{
    events.len() > 0 && (resets_skip(events.last()) || has_reset(events.drop_last()))
}

/// The events after the last one that starts again from the nearest edges
/// (all of them when there is none).
pub open spec fn since_last_reset(events: Seq<OverlayEvent>) -> Seq<OverlayEvent>
    decreases events.len(),
{
    if events.len() == 0 {
        events
    } else if resets_skip(events.last()) {
        Seq::empty()
    } else {
        since_last_reset(events.drop_last()).push(events.last())
    }
}

/// After any sequence of events, the skip count is the count of wheel turns
/// since the last pointer move or mode choice, starting from 0 there (or
/// from the first state's count when there was none), going up one for each
/// turn down and down one for each turn up, never below 0.
pub proof fn lemma_skip_index_after_events(state: AppState, events: Seq<OverlayEvent>)
    requires
        can_run(state, events),
    ensures
        run_events(state, events).skip_index == wheel_count(
            if has_reset(events) {
                0
            } else {
                state.skip_index as int
            },
            since_last_reset(events),
        ),
    decreases events.len(),
{
    if events.len() > 0 {
        let prefix = events.drop_last();
        assert forall|i: int| 0 <= i < prefix.len() implies can_handle(
            run_events(state, prefix.take(i)),
            #[trigger] prefix[i],
        ) by {
            assert(prefix.take(i) =~= events.take(i));
            assert(prefix[i] == events[i]);
        }
        lemma_skip_index_after_events(state, prefix);
        let last_index = events.len() - 1;
        assert(events.take(last_index) =~= prefix);
        assert(can_handle(run_events(state, events.take(last_index)), events[last_index]));
        let start = if has_reset(events) {
            0
        } else {
            state.skip_index as int
        };
        if !resets_skip(events.last()) {
            assert(has_reset(events) == has_reset(prefix));
            let rest = since_last_reset(prefix).push(events.last());
            assert(since_last_reset(events) == rest);
            assert(rest.drop_last() =~= since_last_reset(prefix));
            assert(wheel_count(start, rest) == {
                let before = wheel_count(start, since_last_reset(prefix));
                if events.last() == OverlayEvent::Scrolled(ScrollDirection::Down) {
                    before + 1
                } else if events.last() == OverlayEvent::Scrolled(ScrollDirection::Up) && before > 0 {
                    before - 1
                } else {
                    before
                }
            });
        }
    }
}

/// The measured span around the cursor, in pixels: from `left` to `right`
/// horizontally and from `top` to `bottom` vertically.
#[derive(Debug, Clone, Copy, PartialEq, Eq, Structural)]
pub struct Bounds {
    pub left: u32,
    pub right: u32,
    pub top: u32,
    pub bottom: u32,
}

impl Bounds {
    /// The measured width.
    pub open spec fn spec_width(self) -> int {
        self.right - self.left
    }

    /// The measured height.
    pub open spec fn spec_height(self) -> int {
        self.bottom - self.top
    }

    /// The measured width: `right - left`.
    pub fn width(&self) -> (w: i64)
        ensures
            w == self.spec_width(),
    {
        self.right as i64 - self.left as i64
    }

    /// The measured height: `bottom - top`.
    pub fn height(&self) -> (h: i64)
        ensures
            h == self.spec_height(),
    {
        self.bottom as i64 - self.top as i64
    }
}

/// The edge at `index`, or `fallback` when there are not that many edges.
pub open spec fn spec_edge_or(edges: Seq<u32>, index: int, fallback: u32) -> u32 {
    if 0 <= index < edges.len() {
        edges[index]
    } else {
        fallback
    }
}

/// The edge at `index`, or `fallback` when there are not that many edges.
pub fn edge_or(edges: &Vec<u32>, index: usize, fallback: u32) -> (edge: u32)
    ensures
        edge == spec_edge_or(edges@, index as int, fallback),
{
    if index < edges.len() {
        edges[index]
    } else {
        fallback
    }
}

/// The span measured around the cursor: after skipping `skip_index` edges
/// on each side, the next edge to the left, right, top and bottom; where
/// there is none, the border of the drawing area (`0`, `width`, `0`,
/// `height`).
pub open spec fn spec_measure(
    engine: EdgeEngine,
    cursor_x: u32,
    cursor_y: u32,
    skip_index: usize,
    width: u32,
    height: u32,
) -> Bounds {
    let horizontal = engine.spec_find_edges(Axis::Horizontal, cursor_x, cursor_y);
    let vertical = engine.spec_find_edges(Axis::Vertical, cursor_x, cursor_y);
    Bounds {
        left: spec_edge_or(horizontal.0, skip_index as int, 0),
        right: spec_edge_or(horizontal.1, skip_index as int, width),
        top: spec_edge_or(vertical.0, skip_index as int, 0),
        bottom: spec_edge_or(vertical.1, skip_index as int, height),
    }
}

/// Measures the span around the cursor (see `spec_measure`). The cursor
/// must lie inside the screenshot.
pub fn measure(
    engine: &EdgeEngine,
    cursor_x: u32,
    cursor_y: u32,
    skip_index: usize,
    width: u32,
    height: u32,
) -> (bounds: Bounds)
    requires
        engine.contains(cursor_x, cursor_y),
    ensures
        bounds == spec_measure(*engine, cursor_x, cursor_y, skip_index, width, height),
{
    let (neg_x, pos_x) = engine.find_edges(cursor_x, cursor_y, Axis::Horizontal);
    let (neg_y, pos_y) = engine.find_edges(cursor_x, cursor_y, Axis::Vertical);
    Bounds {
        left: edge_or(&neg_x, skip_index, 0),
        right: edge_or(&pos_x, skip_index, width),
        top: edge_or(&neg_y, skip_index, 0),
        bottom: edge_or(&pos_y, skip_index, height),
    }
}

/// The measured span brackets the cursor: the left and top sides lie before
/// it, and the right and bottom sides lie after it or on the border of the
/// drawing area.
pub proof fn lemma_measure_brackets_cursor(
    engine: EdgeEngine,
    cursor_x: u32,
    cursor_y: u32,
    skip_index: usize,
    width: u32,
    height: u32,
)
    requires
        engine.contains(cursor_x, cursor_y),
    ensures
        ({
            let b = spec_measure(engine, cursor_x, cursor_y, skip_index, width, height);
            &&& b.left <= cursor_x
            &&& b.top <= cursor_y
            &&& (cursor_x < b.right < engine.width() || b.right == width)
            &&& (cursor_y < b.bottom < engine.height() || b.bottom == height)
        }),
{
    crate::edge_detector::lemma_find_edges_ordered(engine, Axis::Horizontal, cursor_x, cursor_y);
    crate::edge_detector::lemma_find_edges_ordered(engine, Axis::Vertical, cursor_x, cursor_y);
    let h = engine.spec_find_edges(Axis::Horizontal, cursor_x, cursor_y);
    let v = engine.spec_find_edges(Axis::Vertical, cursor_x, cursor_y);
    if (skip_index as int) < h.0.len() {
        assert(h.0[skip_index as int] < cursor_x);
    }
    if (skip_index as int) < h.1.len() {
        assert(cursor_x < h.1[skip_index as int]);
    }
    if (skip_index as int) < v.0.len() {
        assert(v.0[skip_index as int] < cursor_y);
    }
    if (skip_index as int) < v.1.len() {
        assert(cursor_y < v.1[skip_index as int]);
    }
}

/// For every skip count `k`, each side of the measured span is the `k`-th
/// edge (nearest first, counting from 0) on its side of the cursor, found on
/// the cursor's row for left and right and on its column for top and
/// bottom; when there are at most `k` edges on that side, it is the border
/// of the drawing area.
pub proof fn lemma_measure_sides(
    engine: EdgeEngine,
    cursor_x: u32,
    cursor_y: u32,
    skip_index: usize,
    width: u32,
    height: u32,
)
    ensures
        ({
            let b = spec_measure(engine, cursor_x, cursor_y, skip_index, width, height);
            let row = engine.spec_find_edges(Axis::Horizontal, cursor_x, cursor_y);
            let column = engine.spec_find_edges(Axis::Vertical, cursor_x, cursor_y);
            let k = skip_index as int;
            &&& b.left == (if k < row.0.len() {
                row.0[k]
            } else {
                0
            })
            &&& b.right == (if k < row.1.len() {
                row.1[k]
            } else {
                width
            })
            &&& b.top == (if k < column.0.len() {
                column.0[k]
            } else {
                0
            })
            &&& b.bottom == (if k < column.1.len() {
                column.1[k]
            } else {
                height
            })
        }),
{
}

/// The label shown next to the cursor.
pub open spec fn spec_hud_text(mode: Mode, bounds: Bounds) -> Seq<char> {
    match mode {
        Mode::Bounds | Mode::Crosshair => "X: "@ + decimal(bounds.spec_width()) + "px | Y: "@ + decimal(
            bounds.spec_height(),
        ) + "px"@,
        Mode::Horizontal => "Width: "@ + decimal(bounds.spec_width()) + "px"@,
        Mode::Vertical => "Height: "@ + decimal(bounds.spec_height()) + "px"@,
    }
}

/// The label shown next to the cursor, e.g. `Width: 120px`.
pub fn hud_text(mode: Mode, bounds: &Bounds) -> (text: String)
    ensures
        text@ == spec_hud_text(mode, *bounds),
{
    let mut text = String::new();
    match mode {
        Mode::Bounds | Mode::Crosshair => {
            text.append("X: ");
            push_decimal(&mut text, bounds.width());
            text.append("px | Y: ");
            push_decimal(&mut text, bounds.height());
            text.append("px");
        },
        Mode::Horizontal => {
            text.append("Width: ");
            push_decimal(&mut text, bounds.width());
            text.append("px");
        },
        Mode::Vertical => {
            text.append("Height: ");
            push_decimal(&mut text, bounds.height());
            text.append("px");
        },
    }
    assert(text@ =~= spec_hud_text(mode, *bounds));
    text
}

/// Whether `digits` is a string of decimal digits that reads as `n`.
pub open spec fn reads_as(digits: Seq<char>, n: int) -> bool {
    &&& numeral_value(digits) == n
    &&& forall|i: int| 0 <= i < digits.len() ==> is_digit_char(#[trigger] digits[i])
}

/// The numbers in the label read back as the measured sizes: for a span
/// that is not reversed, the label is `X: <w>px | Y: <h>px` (box and
/// crosshair), `Width: <w>px` or `Height: <h>px`, where `<w>` and `<h>` are
/// digit strings that read as the width `right - left` and the height
/// `bottom - top`.
pub proof fn lemma_hud_text_reads_back(mode: Mode, bounds: Bounds)
    requires
        bounds.left <= bounds.right,
        bounds.top <= bounds.bottom,
    ensures
        (mode == Mode::Bounds || mode == Mode::Crosshair) ==> exists|w: Seq<char>, h: Seq<char>|
            #[trigger] reads_as(w, bounds.right - bounds.left) && #[trigger] reads_as(h, bounds.bottom - bounds.top)
                && spec_hud_text(mode, bounds) == "X: "@ + w + "px | Y: "@ + h + "px"@,
        mode == Mode::Horizontal ==> exists|w: Seq<char>|
            #[trigger] reads_as(w, bounds.right - bounds.left) && spec_hud_text(mode, bounds) == "Width: "@ + w
                + "px"@,
        mode == Mode::Vertical ==> exists|h: Seq<char>|
            #[trigger] reads_as(h, bounds.bottom - bounds.top) && spec_hud_text(mode, bounds) == "Height: "@ + h
                + "px"@,
{
    let width = bounds.right - bounds.left;
    let height = bounds.bottom - bounds.top;
    lemma_decimal_read_back(width);
    lemma_decimal_read_back(height);
    assert(reads_as(decimal(width), width));
    assert(reads_as(decimal(height), height));
}

/// A line or box to draw. Lines run through the cursor: a horizontal line at
/// the cursor's height, a vertical one at the cursor's column.
#[derive(Debug, Clone, Copy, PartialEq, Eq, Structural)]
pub enum Stroke {
    /// The box of the measured span.
    Rectangle(Bounds),
    /// A horizontal line from `from_x` to `to_x`.
    HorizontalLine { from_x: u32, to_x: u32 },
    /// A vertical line from `from_y` to `to_y`.
    VerticalLine { from_y: u32, to_y: u32 },
}

/// What each mode draws of the measured span.
pub open spec fn spec_strokes(mode: Mode, bounds: Bounds) -> Seq<Stroke> {
    let across = Stroke::HorizontalLine { from_x: bounds.left, to_x: bounds.right };
    let down = Stroke::VerticalLine { from_y: bounds.top, to_y: bounds.bottom };
    match mode {
        Mode::Bounds => seq![Stroke::Rectangle(bounds)],
        Mode::Crosshair => seq![across, down],
        Mode::Horizontal => seq![across],
        Mode::Vertical => seq![down],
    }
}

/// The lines and boxes to draw for the measured span, in drawing order.
pub fn strokes(mode: Mode, bounds: &Bounds) -> (drawn: Vec<Stroke>)
    ensures
        drawn@ == spec_strokes(mode, *bounds),
{
    let across = Stroke::HorizontalLine { from_x: bounds.left, to_x: bounds.right };
    let down = Stroke::VerticalLine { from_y: bounds.top, to_y: bounds.bottom };
    let mut drawn: Vec<Stroke> = Vec::new();
    match mode {
        Mode::Bounds => drawn.push(Stroke::Rectangle(*bounds)),
        Mode::Crosshair => {
            drawn.push(across);
            drawn.push(down);
        },
        Mode::Horizontal => drawn.push(across),
        Mode::Vertical => drawn.push(down),
    }
    assert(drawn@ =~= spec_strokes(mode, *bounds));
    drawn
}

} // verus!
