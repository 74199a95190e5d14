use image::{Rgba, RgbaImage};
use wayruler::edge_detector::{color_diff, luminance, Axis, EdgeEngine, DEFAULT_THRESHOLD};
use std::io::Cursor;
use wayruler::pixels::{decode_screenshot, CaptureError, Screenshot};

fn png_bytes(img: &RgbaImage) -> Vec<u8> {
    let mut bytes = Vec::new();
    img.write_to(&mut Cursor::new(&mut bytes), image::ImageOutputFormat::Png).unwrap();
    bytes
}

/// The screenshot of an image, as captured: written to a PNG file and decoded.
fn shot(img: RgbaImage) -> Screenshot {
    decode_screenshot(&png_bytes(&img)).unwrap()
}

fn row_image(levels: &[u8]) -> Screenshot {
    let width = levels.len() as u32;
    let img = RgbaImage::from_fn(width, 1, |x, _| {
        let v = levels[x as usize];
        Rgba([v, v, v, 255])
    });
    shot(img)
}

fn column_image(levels: &[u8]) -> Screenshot {
    let height = levels.len() as u32;
    let img = RgbaImage::from_fn(1, height, |_, y| {
        let v = levels[y as usize];
        Rgba([v, v, v, 255])
    });
    shot(img)
}

#[test]
fn luminance_uses_rec601_weights() {
    assert_eq!(luminance([0, 0, 0]), 0);
    assert_eq!(luminance([255, 255, 255]), 255);
    assert_eq!(luminance([255, 0, 0]), 76);
    assert_eq!(luminance([0, 255, 0]), 149);
    assert_eq!(luminance([0, 0, 255]), 29);
    assert_eq!(luminance([98, 128, 206]), 127);
    assert_eq!(luminance([77, 77, 77]), 77);
}

#[test]
fn color_diff_is_luminance_difference() {
    assert_eq!(color_diff([10, 200, 30], [20, 100, 35]), 55);
    assert_eq!(color_diff([20, 100, 35], [10, 200, 30]), 55);
    assert_eq!(color_diff([0, 0, 0], [0, 0, 0]), 0);
    assert_eq!(color_diff([255, 0, 0], [0, 0, 0]), 76);
    assert_eq!(color_diff([0, 0, 7], [0, 0, 0]), 0);
    assert_eq!(color_diff([255, 255, 255], [0, 0, 0]), 255);
}

#[test]
fn equal_luminance_hue_change_is_no_edge() {
    let img = RgbaImage::from_fn(2, 1, |x, _| {
        if x == 0 {
            Rgba([128, 128, 128, 255])
        } else {
            Rgba([98, 128, 206, 255])
        }
    });
    let engine = EdgeEngine::new(shot(img));
    assert_eq!(engine.find_edges(0, 0, Axis::Horizontal), (vec![], vec![]));
}

#[test]
fn default_threshold_is_documented_value() {
    assert_eq!(DEFAULT_THRESHOLD, 25);
}

#[test]
fn finds_edges_on_both_sides_of_a_row() {
    let engine = EdgeEngine::new(row_image(&[0, 0, 0, 255, 255, 255, 255, 100, 100, 100]));
    let (neg, pos) = engine.find_edges(5, 0, Axis::Horizontal);
    assert_eq!(neg, vec![2]);
    assert_eq!(pos, vec![7]);
}

#[test]
fn contrast_equal_to_threshold_is_no_edge() {
    let engine = EdgeEngine::new(row_image(&[100, 125, 100, 126, 100]));
    let (neg, pos) = engine.find_edges(2, 0, Axis::Horizontal);
    assert_eq!(neg, Vec::<u32>::new());
    assert_eq!(pos, vec![3, 4]);
}

#[test]
fn gradual_change_is_measured_from_last_edge() {
    let engine = EdgeEngine::new(row_image(&[0, 10, 20, 30, 40, 50, 60, 70]));
    let (neg, pos) = engine.find_edges(0, 0, Axis::Horizontal);
    assert_eq!(neg, Vec::<u32>::new());
    assert_eq!(pos, vec![3, 6]);
}

#[test]
fn negative_edges_are_nearest_first() {
    let engine = EdgeEngine::new(row_image(&[0, 200, 0, 200, 0, 200]));
    let (neg, pos) = engine.find_edges(5, 0, Axis::Horizontal);
    assert_eq!(neg, vec![4, 3, 2, 1, 0]);
    assert_eq!(pos, Vec::<u32>::new());
}

#[test]
fn vertical_axis_walks_the_column() {
    let engine = EdgeEngine::new(column_image(&[50, 50, 200, 200, 200, 10]));
    let (neg, pos) = engine.find_edges(0, 3, Axis::Vertical);
    assert_eq!(neg, vec![1]);
    assert_eq!(pos, vec![5]);
}

#[test]
fn only_colour_channels_count() {
    let img = RgbaImage::from_fn(3, 1, |x, _| Rgba([0, 0, 0, (x * 100) as u8]));
    let engine = EdgeEngine::new(shot(img));
    let (neg, pos) = engine.find_edges(1, 0, Axis::Horizontal);
    assert!(neg.is_empty());
    assert!(pos.is_empty());
}

#[test]
fn single_pixel_image_has_no_edges() {
    let engine = EdgeEngine::new(row_image(&[42]));
    let (neg, pos) = engine.find_edges(0, 0, Axis::Horizontal);
    assert!(neg.is_empty());
    assert!(pos.is_empty());
    let (neg, pos) = engine.find_edges(0, 0, Axis::Vertical);
    assert!(neg.is_empty());
    assert!(pos.is_empty());
}

#[test]
fn horizontal_scan_stays_on_start_row() {
    let img = RgbaImage::from_fn(4, 2, |x, y| {
        if y == 0 {
            Rgba([0, 0, 0, 255])
        } else if x == 3 {
            Rgba([255, 255, 255, 255])
        } else {
            Rgba([0, 0, 0, 255])
        }
    });
    let engine = EdgeEngine::new(shot(img));
    assert_eq!(engine.find_edges(0, 0, Axis::Horizontal), (vec![], vec![]));
    assert_eq!(engine.find_edges(0, 1, Axis::Horizontal), (vec![], vec![3]));
}

#[test]
fn contains_point_matches_image_size() {
    let img = RgbaImage::new(4, 3);
    let engine = EdgeEngine::new(shot(img));
    assert!(engine.contains_point(0, 0));
    assert!(engine.contains_point(3, 2));
    assert!(!engine.contains_point(4, 0));
    assert!(!engine.contains_point(0, 3));
}


#[test]
fn decodes_a_captured_png() {
    let img = RgbaImage::from_fn(5, 2, |x, _| if x < 3 { Rgba([0, 0, 0, 255]) } else { Rgba([255, 255, 255, 255]) });
    let decoded = decode_screenshot(&png_bytes(&img)).unwrap();
    let engine = EdgeEngine::new(decoded);
    assert!(engine.contains_point(4, 1));
    assert!(!engine.contains_point(5, 1));
    assert_eq!(engine.find_edges(0, 1, Axis::Horizontal), (vec![], vec![3]));
}

#[test]
fn undecodable_capture_is_an_error() {
    assert!(matches!(
        decode_screenshot(b"not an image"),
        Err(CaptureError::Image(image::ImageError::Unsupported(_)))
    ));
    assert!(matches!(
        decode_screenshot(&[]),
        Err(CaptureError::Image(image::ImageError::Unsupported(_)))
    ));
    let mut truncated = png_bytes(&RgbaImage::new(3, 3));
    truncated.truncate(20);
    assert!(matches!(decode_screenshot(&truncated), Err(CaptureError::Image(_))));
}
