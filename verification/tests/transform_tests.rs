//! Tests for rotation, mirroring, scaling geometry and the transform
//! pipeline.

use epaper_display::frame::RgbFrame;
use epaper_display::transform::Rotation;
use epaper_display::transform::TransformOptions;
use epaper_display::transform::compute_fill_dims;
use epaper_display::transform::compute_fit_dims;
use epaper_display::transform::mirror_horizontal;
use epaper_display::transform::mirror_vertical;
use epaper_display::transform::rotate180;
use epaper_display::transform::rotate270;
use epaper_display::transform::rotate90;
use epaper_display::transform::transform_image;

/// A 2x1 frame with a distinct red value per pixel.
fn two_pixels() -> RgbFrame {
    RgbFrame { width: 2, height: 1, pixels: vec![10, 0, 0, 20, 0, 0] }
}

#[test]
fn rotation_from_degrees() {
    assert_eq!(Rotation::from(0u16), Rotation::NoRotation);
    assert_eq!(Rotation::from(90u16), Rotation::Rotate90);
    assert_eq!(Rotation::from(180u16), Rotation::Rotate180);
    assert_eq!(Rotation::from(270u16), Rotation::Rotate270);
    assert_eq!(Rotation::from(45u16), Rotation::NoRotation);
}

#[test]
fn default_transform_options() {
    let o = TransformOptions::default();
    assert_eq!(o.rotation, Rotation::NoRotation);
    assert!(!o.mirror_h && !o.mirror_v);
    assert!(o.scale_to_fit && o.rotate_first);
    assert_eq!((o.target_width, o.target_height), (800, 480));
}

#[test]
fn rotate90_turns_a_row_into_a_column() {
    let img = two_pixels();
    let out = rotate90(&img);
    assert_eq!((out.width, out.height), (1, 2));
    // Clockwise: the left pixel ends on top.
    assert_eq!(out.get_px(0, 0, 0), 10);
    assert_eq!(out.get_px(0, 1, 0), 20);
}

#[test]
fn rotate270_turns_a_row_the_other_way() {
    let img = two_pixels();
    let out = rotate270(&img);
    assert_eq!((out.width, out.height), (1, 2));
    assert_eq!(out.get_px(0, 0, 0), 20);
    assert_eq!(out.get_px(0, 1, 0), 10);
}

#[test]
fn rotate180_reverses_both_axes() {
    let img = two_pixels();
    let out = rotate180(&img);
    assert_eq!((out.width, out.height), (2, 1));
    assert_eq!(out.get_px(0, 0, 0), 20);
    assert_eq!(out.get_px(1, 0, 0), 10);
}

#[test]
fn mirrors_flip_single_axes() {
    let img = two_pixels();
    let h = mirror_horizontal(&img);
    assert_eq!(h.get_px(0, 0, 0), 20);
    assert_eq!(h.get_px(1, 0, 0), 10);
    let v = mirror_vertical(&img);
    assert_eq!(v.get_px(0, 0, 0), 10);
    assert_eq!(v.get_px(1, 0, 0), 20);
}

#[test]
fn quarter_turns_compose_to_a_half_turn() {
    let img = RgbFrame {
        width: 2,
        height: 2,
        pixels: vec![1, 0, 0, 2, 0, 0, 3, 0, 0, 4, 0, 0],
    };
    let twice = rotate90(&rotate90(&img));
    let half = rotate180(&img);
    assert_eq!(twice.pixels, half.pixels);
}

#[test]
fn fit_dims_letterbox_and_pillarbox() {
    // A wide source into a 800x480 box takes the full width.
    assert_eq!(compute_fit_dims(1600, 400, 800, 480), (800, 200));
    // A tall source takes the full height.
    assert_eq!(compute_fit_dims(400, 1600, 800, 480), (120, 480));
    // An exact match is kept.
    assert_eq!(compute_fit_dims(800, 480, 800, 480), (800, 480));
    // Extreme ratios never collapse below one pixel.
    assert_eq!(compute_fit_dims(1, 100000, 800, 480), (1, 480));
}

#[test]
fn fill_dims_cover_and_crop() {
    assert_eq!(compute_fill_dims(1600, 400, 800, 480), (1920, 480));
    assert_eq!(compute_fill_dims(400, 1600, 800, 480), (800, 3200));
    assert_eq!(compute_fill_dims(800, 480, 800, 480), (800, 480));
}

#[test]
fn transform_produces_exactly_the_target_size() {
    let img = RgbFrame::new_filled(10, 10, 200, 200, 200);
    let opts = TransformOptions { target_width: 64, target_height: 32, ..Default::default() };
    let out = transform_image(img, &opts);
    assert_eq!((out.width, out.height), (64, 32));
    assert_eq!(out.pixels.len(), 64 * 32 * 3);
}

#[test]
fn fit_mode_pads_with_white_bars() {
    // A square black source into a wide box: pillar bars on both sides
    // are white, the center stays black.
    let img = RgbFrame::new_filled(10, 10, 0, 0, 0);
    let opts = TransformOptions { target_width: 20, target_height: 10, ..Default::default() };
    let out = transform_image(img, &opts);
    assert_eq!((out.width, out.height), (20, 10));
    // Scaled content is 10x10 centered at x = 5..15.
    for y in 0..10u32 {
        for c in 0..3u32 {
            assert_eq!(out.get_px(0, y, c), 255);
            assert_eq!(out.get_px(4, y, c), 255);
            assert_eq!(out.get_px(15, y, c), 255);
            assert_eq!(out.get_px(19, y, c), 255);
            assert_eq!(out.get_px(10, y, c), 0);
        }
    }
}

#[test]
fn fill_mode_crops_to_the_target() {
    let img = RgbFrame::new_filled(10, 20, 50, 60, 70);
    let opts = TransformOptions {
        scale_to_fit: false,
        target_width: 10,
        target_height: 10,
        ..Default::default()
    };
    let out = transform_image(img, &opts);
    assert_eq!((out.width, out.height), (10, 10));
    for c in 0..3u32 {
        let want = [50u8, 60, 70][c as usize];
        assert_eq!(out.get_px(5, 5, c), want);
    }
}

#[test]
fn rotation_inside_the_pipeline_swaps_sides_before_scaling() {
    // A 4x2 black frame rotated a quarter turn becomes 2x4; fit into a
    // 4x4 box gives a 2x4 centered column with white pillars.
    let img = RgbFrame::new_filled(4, 2, 0, 0, 0);
    let opts = TransformOptions {
        rotation: Rotation::Rotate90,
        target_width: 4,
        target_height: 4,
        ..Default::default()
    };
    let out = transform_image(img, &opts);
    assert_eq!((out.width, out.height), (4, 4));
    for y in 0..4u32 {
        assert_eq!(out.get_px(0, y, 0), 255);
        assert_eq!(out.get_px(3, y, 0), 255);
        assert_eq!(out.get_px(1, y, 0), 0);
        assert_eq!(out.get_px(2, y, 0), 0);
    }
}

#[test]
fn upscaling_a_solid_image_keeps_its_color() {
    // A genuine resample: 2x2 up to 4x4 fills the box exactly, so the
    // output is the resampled content with no padding.
    let img = RgbFrame::new_filled(2, 2, 30, 90, 150);
    let opts = TransformOptions { target_width: 4, target_height: 4, ..Default::default() };
    let out = transform_image(img, &opts);
    assert_eq!((out.width, out.height), (4, 4));
    for y in 0..4u32 {
        for x in 0..4u32 {
            assert_eq!(out.get_px(x, y, 0), 30);
            assert_eq!(out.get_px(x, y, 1), 90);
            assert_eq!(out.get_px(x, y, 2), 150);
        }
    }
}
