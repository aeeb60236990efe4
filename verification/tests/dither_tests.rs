//! Tests for palette matching and Floyd-Steinberg dithering.

use epaper_display::dither::calculate_buffer_size;
use epaper_display::dither::color_name;
use epaper_display::dither::dither_image;
use epaper_display::dither::find_nearest_color;
use epaper_display::display::Color;
use epaper_display::frame::RgbFrame;

#[test]
fn nearest_color_exact_palette_entries() {
    assert_eq!(find_nearest_color(0, 0, 0), 0); // black
    assert_eq!(find_nearest_color(255, 255, 255), 1); // white
    assert_eq!(find_nearest_color(255, 255, 0), 2); // yellow
    assert_eq!(find_nearest_color(255, 0, 0), 3); // red
    assert_eq!(find_nearest_color(255, 128, 0), 4); // orange
    assert_eq!(find_nearest_color(0, 0, 255), 5); // blue
    assert_eq!(find_nearest_color(0, 255, 0), 6); // green
}

#[test]
fn nearest_color_ties_take_first_palette_entry() {
    // (255, 64, 0) is equally far from red (255,0,0) and orange (255,128,0);
    // the first palette match, red, wins.
    assert_eq!(find_nearest_color(255, 64, 0), 3);
}

#[test]
fn nearest_color_near_misses() {
    assert_eq!(find_nearest_color(10, 10, 10), 0);
    assert_eq!(find_nearest_color(250, 250, 250), 1);
    assert_eq!(find_nearest_color(200, 0, 30), 3);
}

#[test]
fn buffer_size_is_half_the_pixels() {
    assert_eq!(calculate_buffer_size(800, 480), 192000);
    assert_eq!(calculate_buffer_size(4, 2), 4);
    assert_eq!(calculate_buffer_size(3, 3), 4);
}

#[test]
fn dither_all_white_3x3_packs_white_nibbles() {
    // A 3x3 all-white image: every nibble of the packed output holds the
    // white index (1), so every byte is 0x11.
    let img = RgbFrame::new_filled(3, 3, 255, 255, 255);
    let out = dither_image(&img);
    assert_eq!(out.len(), 4);
    for b in out {
        assert_eq!(b, 0x11);
    }
}

#[test]
fn dither_all_black_is_all_zero() {
    let img = RgbFrame::new_filled(4, 2, 0, 0, 0);
    let out = dither_image(&img);
    assert_eq!(out, vec![0u8; 4]);
}

#[test]
fn dither_solid_red_packs_red_nibbles() {
    let img = RgbFrame::new_filled(8, 4, 255, 0, 0);
    let out = dither_image(&img);
    assert_eq!(out.len(), 16);
    for b in out {
        assert_eq!(b, 0x33);
    }
}

#[test]
fn dither_is_deterministic() {
    // A gradient that exercises error diffusion; two runs on the same
    // input must produce byte-identical output.
    let mut pixels = Vec::new();
    for y in 0..6u32 {
        for x in 0..8u32 {
            let v = (x * 30 + y * 17) as u8;
            pixels.push(v);
            pixels.push(255 - v);
            pixels.push(v / 2);
        }
    }
    let img = RgbFrame { width: 8, height: 6, pixels };
    let a = dither_image(&img);
    let b = dither_image(&img);
    assert_eq!(a, b);
    assert_eq!(a.len(), 24);
}

#[test]
fn dither_mid_gray_mixes_palette_colors() {
    // Mid gray has no exact palette entry; error diffusion mixes several
    // palette colors, and every nibble is a valid palette index.
    let img = RgbFrame::new_filled(8, 8, 128, 128, 128);
    let out = dither_image(&img);
    let mut seen = [false; 7];
    for b in out {
        let hi = b >> 4;
        let lo = b & 0x0f;
        for nib in [hi, lo] {
            assert!(nib < 7);
            seen[nib as usize] = true;
        }
    }
    assert!(seen.iter().filter(|&&s| s).count() >= 2);
}

#[test]
fn color_names() {
    assert_eq!(color_name(Color::Black), "Black");
    assert_eq!(color_name(Color::White), "White");
    assert_eq!(color_name(Color::Green), "Green");
}
