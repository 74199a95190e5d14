use image::{Rgba, RgbaImage};
use wayruler::edge_detector::EdgeEngine;
use wayruler::overlay::{
    edge_or, hud_text, load_saved_mode, measure, mode_from_name, mode_name, parse_saved_mode, strokes,
    AppState, Bounds, Mode, OverlayAction, OverlayEvent, ScrollDirection, Stroke,
};
use std::io::Cursor;
use wayruler::pixels::{decode_screenshot, Screenshot};
use wayruler::text::trim;

const ALL_MODES: [Mode; 4] = [Mode::Bounds, Mode::Crosshair, Mode::Horizontal, Mode::Vertical];

#[test]
fn mode_names_are_the_saved_words() {
    assert_eq!(mode_name(Mode::Bounds), "Bounds");
    assert_eq!(mode_name(Mode::Crosshair), "Crosshair");
    assert_eq!(mode_name(Mode::Horizontal), "Horizontal");
    assert_eq!(mode_name(Mode::Vertical), "Vertical");
}

#[test]
fn saved_mode_reads_back() {
    for mode in ALL_MODES {
        assert_eq!(mode_from_name(mode_name(mode)), mode);
        assert_eq!(parse_saved_mode(mode_name(mode)), mode);
    }
}

#[test]
fn saved_mode_ignores_surrounding_white_space() {
    assert_eq!(parse_saved_mode("  Vertical\n"), Mode::Vertical);
    assert_eq!(parse_saved_mode("\tCrosshair \r\n"), Mode::Crosshair);
}

#[test]
fn saved_mode_ignores_unicode_white_space() {
    assert_eq!(parse_saved_mode("\u{3000}Bounds\u{a0}"), Mode::Bounds);
    assert_eq!(parse_saved_mode("\u{2028}Vertical\u{85}\u{b}"), Mode::Vertical);
    assert_eq!(parse_saved_mode("\u{200b}Bounds"), Mode::Horizontal);
}

#[test]
fn unknown_saved_mode_is_horizontal() {
    assert_eq!(parse_saved_mode("vertical"), Mode::Horizontal);
    assert_eq!(parse_saved_mode(""), Mode::Horizontal);
    assert_eq!(mode_from_name("Bounds "), Mode::Horizontal);
    assert_eq!(parse_saved_mode("Bounds Bounds"), Mode::Horizontal);
}

#[test]
fn missing_saved_mode_is_horizontal() {
    assert_eq!(load_saved_mode(None), Mode::Horizontal);
    assert_eq!(load_saved_mode(Some("Bounds\n")), Mode::Bounds);
}

#[test]
fn mode_toggle_selects_and_saves() {
    let mut state = AppState::new(Mode::Horizontal);
    state.skip_index = 3;
    let action = state.handle(OverlayEvent::ModeToggled { mode: Mode::Bounds, active: true });
    assert_eq!(action, OverlayAction::SaveModeAndRedraw(Mode::Bounds));
    assert_eq!(state, AppState { skip_index: 0, mode: Mode::Bounds });
}

#[test]
fn mode_untoggle_does_nothing() {
    let mut state = AppState { skip_index: 2, mode: Mode::Vertical };
    let action = state.handle(OverlayEvent::ModeToggled { mode: Mode::Vertical, active: false });
    assert_eq!(action, OverlayAction::Nothing);
    assert_eq!(state, AppState { skip_index: 2, mode: Mode::Vertical });
}

#[test]
fn pointer_motion_resets_skip() {
    let mut state = AppState { skip_index: 5, mode: Mode::Crosshair };
    assert_eq!(state.handle(OverlayEvent::PointerMoved), OverlayAction::Redraw);
    assert_eq!(state, AppState { skip_index: 0, mode: Mode::Crosshair });
}

#[test]
fn scrolling_moves_through_edges() {
    let mut state = AppState::new(Mode::Bounds);
    assert_eq!(state.handle(OverlayEvent::Scrolled(ScrollDirection::Up)), OverlayAction::Redraw);
    assert_eq!(state.skip_index, 0);
    state.handle(OverlayEvent::Scrolled(ScrollDirection::Down));
    state.handle(OverlayEvent::Scrolled(ScrollDirection::Down));
    assert_eq!(state.skip_index, 2);
    state.handle(OverlayEvent::Scrolled(ScrollDirection::Up));
    assert_eq!(state.skip_index, 1);
    assert_eq!(state.handle(OverlayEvent::Scrolled(ScrollDirection::Still)), OverlayAction::Redraw);
    assert_eq!(state, AppState { skip_index: 1, mode: Mode::Bounds });
}

#[test]
fn close_and_escape_close_the_window() {
    let mut state = AppState::new(Mode::Vertical);
    assert_eq!(state.handle(OverlayEvent::CloseClicked), OverlayAction::CloseWindow);
    assert_eq!(state.handle(OverlayEvent::EscapePressed), OverlayAction::CloseWindow);
    assert_eq!(state, AppState::new(Mode::Vertical));
}

#[test]
fn edge_or_falls_back() {
    let edges = vec![7, 3];
    assert_eq!(edge_or(&edges, 0, 99), 7);
    assert_eq!(edge_or(&edges, 1, 99), 3);
    assert_eq!(edge_or(&edges, 2, 99), 99);
    assert_eq!(edge_or(&Vec::new(), 0, 0), 0);
}

fn boxed_screenshot() -> Screenshot {
    // A 10x8 black image with a white box covering x in 2..=6 and y in 1..=5.
    let img = RgbaImage::from_fn(10, 8, |x, y| {
        if (2..=6).contains(&x) && (1..=5).contains(&y) {
            Rgba([255, 255, 255, 255])
        } else {
            Rgba([0, 0, 0, 255])
        }
    });
    let mut bytes = Vec::new();
    img.write_to(&mut Cursor::new(&mut bytes), image::ImageOutputFormat::Png).unwrap();
    decode_screenshot(&bytes).unwrap()
}

#[test]
fn measure_finds_the_box_around_the_cursor() {
    let engine = EdgeEngine::new(boxed_screenshot());
    let bounds = measure(&engine, 4, 3, 0, 10, 8);
    assert_eq!(bounds, Bounds { left: 1, right: 7, top: 0, bottom: 6 });
    assert_eq!(bounds.width(), 6);
    assert_eq!(bounds.height(), 6);
}

#[test]
fn measure_skips_edges_and_falls_back_to_the_area() {
    let engine = EdgeEngine::new(boxed_screenshot());
    let bounds = measure(&engine, 4, 3, 1, 10, 8);
    assert_eq!(bounds, Bounds { left: 0, right: 10, top: 0, bottom: 8 });
    let bounds = measure(&engine, 4, 3, 5, 1920, 1080);
    assert_eq!(bounds, Bounds { left: 0, right: 1920, top: 0, bottom: 1080 });
}

#[test]
fn hud_text_per_mode() {
    let bounds = Bounds { left: 10, right: 130, top: 5, bottom: 47 };
    assert_eq!(hud_text(Mode::Bounds, &bounds), "X: 120px | Y: 42px");
    assert_eq!(hud_text(Mode::Crosshair, &bounds), "X: 120px | Y: 42px");
    assert_eq!(hud_text(Mode::Horizontal, &bounds), "Width: 120px");
    assert_eq!(hud_text(Mode::Vertical, &bounds), "Height: 42px");
}

#[test]
fn hud_text_numbers() {
    let zero = Bounds { left: 3, right: 3, top: 0, bottom: 0 };
    assert_eq!(hud_text(Mode::Horizontal, &zero), "Width: 0px");
    let negative = Bounds { left: 50, right: 40, top: 9, bottom: 1_000_009 };
    assert_eq!(hud_text(Mode::Bounds, &negative), "X: -10px | Y: 1000000px");
    let wide = Bounds { left: 0, right: u32::MAX, top: u32::MAX, bottom: 0 };
    assert_eq!(hud_text(Mode::Crosshair, &wide), "X: 4294967295px | Y: -4294967295px");
}

#[test]
fn strokes_per_mode() {
    let b = Bounds { left: 1, right: 9, top: 2, bottom: 8 };
    assert_eq!(strokes(Mode::Bounds, &b), vec![Stroke::Rectangle(b)]);
    assert_eq!(
        strokes(Mode::Crosshair, &b),
        vec![
            Stroke::HorizontalLine { from_x: 1, to_x: 9 },
            Stroke::VerticalLine { from_y: 2, to_y: 8 }
        ]
    );
    assert_eq!(strokes(Mode::Horizontal, &b), vec![Stroke::HorizontalLine { from_x: 1, to_x: 9 }]);
    assert_eq!(strokes(Mode::Vertical, &b), vec![Stroke::VerticalLine { from_y: 2, to_y: 8 }]);
}

#[test]
fn skip_index_counts_wheel_turns_since_last_reset() {
    let mut state = AppState::new(Mode::Horizontal);
    let down = OverlayEvent::Scrolled(ScrollDirection::Down);
    let up = OverlayEvent::Scrolled(ScrollDirection::Up);
    for event in [down, down, down, OverlayEvent::PointerMoved, up, down, down, up, down] {
        state.handle(event);
    }
    assert_eq!(state.skip_index, 2);
    for event in [OverlayEvent::ModeToggled { mode: Mode::Bounds, active: true }, down, up, up, down] {
        state.handle(event);
    }
    assert_eq!(state, AppState { skip_index: 1, mode: Mode::Bounds });
}

#[test]
fn trim_removes_only_white_space_at_the_ends() {
    assert_eq!(trim("  a b \n"), "a b");
    assert_eq!(trim("\u{3000}\u{a0}x\u{2029}"), "x");
    assert_eq!(trim(" \t\r\n"), "");
    assert_eq!(trim(""), "");
    assert_eq!(trim("\u{200b}y\u{200b}"), "\u{200b}y\u{200b}");
    assert_eq!(trim("é ü"), "é ü");
}
