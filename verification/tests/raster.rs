use screenshot_tool::raster::{blank_image, crop_screenshot, outline_rect, pixelate, stamp_span, Image, Px};
use screenshot_tool::style::{preset_color, LineColor, Rgb};

/// A `w` by `h` RGBA screenshot whose pixel (x, y) is (x, y, x + y, 7).
fn screenshot(w: u32, h: u32) -> Vec<u8> {
    let mut v = Vec::new();
    for y in 0..h {
        for x in 0..w {
            v.extend_from_slice(&[x as u8, y as u8, (x + y) as u8, 7]);
        }
    }
    v
}

fn whole(w: u32, h: u32) -> Image {
    crop_screenshot(&screenshot(w, h), w, 0, 0, w, h)
}

#[test]
fn blank_image_is_transparent_black() {
    let img = blank_image(3, 2);
    assert_eq!((img.width(), img.height()), (3, 2));
    for y in 0..2 {
        for x in 0..3 {
            assert_eq!(img.pixel(x, y), (0, 0, 0, 0));
        }
    }
    assert_eq!(img.into_raw(), vec![0u8; 24]);
}

#[test]
fn crop_takes_the_selected_rectangle() {
    let src = screenshot(10, 8);
    let img = crop_screenshot(&src, 10, 3, 2, 4, 5);
    assert_eq!((img.width(), img.height()), (4, 5));
    assert_eq!(img.pixel(0, 0), (3, 2, 5, 7));
    assert_eq!(img.pixel(3, 4), (6, 6, 12, 7));
    let raw = img.into_raw();
    assert_eq!(raw.len(), 4 * 4 * 5);
    assert_eq!(&raw[0..4], &[3, 2, 5, 7]);
}

#[test]
fn empty_crop() {
    let src = screenshot(4, 4);
    let img = crop_screenshot(&src, 4, 1, 1, 0, 0);
    assert_eq!((img.width(), img.height()), (0, 0));
}

#[test]
fn pixelate_averages_blocks() {
    let mut img = whole(5, 3);
    pixelate(&mut img, 0, 0, 5, 3, 2);
    // block x 0..2, y 0..2: r mean (0+1+0+1)/4 = 0, g mean 0, b (0+1+1+2)/4 = 1
    assert_eq!(img.pixel(0, 0), (0, 0, 1, 255));
    assert_eq!(img.pixel(1, 1), (0, 0, 1, 255));
    // block x 2..4, y 0..2: r (2+3+2+3)/4 = 2, g 0, b (2+3+3+4)/4 = 3
    assert_eq!(img.pixel(3, 0), (2, 0, 3, 255));
    // block x 4..5, y 2..3: a single pixel (4, 2, 6)
    assert_eq!(img.pixel(4, 2), (4, 2, 6, 255));
    // block x 0..2, y 2..3: r (0+1)/2 = 0, g 2, b (2+3)/2 = 2
    assert_eq!(img.pixel(1, 2), (0, 2, 2, 255));
}

#[test]
fn pixelate_clamps_and_leaves_outside_alone() {
    let mut img = whole(6, 6);
    pixelate(&mut img, 4, 4, 100, 100, 0);
    assert_eq!(img.pixel(3, 3), (3, 3, 6, 7));
    assert_eq!(img.pixel(0, 5), (0, 5, 5, 7));
    // block 4..6 x 4..6 with the minimum block size 2: r (4+5+4+5)/4 = 4, g 4, b (8+9+9+10)/4 = 9
    assert_eq!(img.pixel(5, 5), (4, 4, 9, 255));
}

#[test]
fn pixelating_twice_changes_nothing_more() {
    let mut once = whole(7, 5);
    pixelate(&mut once, 1, 0, 7, 5, 3);
    let mut twice = whole(7, 5);
    pixelate(&mut twice, 1, 0, 7, 5, 3);
    pixelate(&mut twice, 1, 0, 7, 5, 3);
    assert_eq!(once.into_raw(), twice.into_raw());
}

#[test]
fn outline_draws_bands_around_edges() {
    let mut img = blank_image(10, 10);
    let red = Rgb { r: 255, g: 0, b: 0 };
    outline_rect(&mut img, 2, 2, 7, 6, 1, red);
    let c: Px = (255, 0, 0, 255);
    assert_eq!(img.pixel(1, 1), c);
    assert_eq!(img.pixel(8, 7), c);
    assert_eq!(img.pixel(5, 3), c);
    assert_eq!(img.pixel(4, 4), (0, 0, 0, 0));
    assert_eq!(img.pixel(0, 0), (0, 0, 0, 0));
    assert_eq!(img.pixel(9, 4), (0, 0, 0, 0));
}

#[test]
fn outline_edges_are_clamped_into_the_image() {
    let mut img = blank_image(4, 4);
    outline_rect(&mut img, -5, -5, 100, 100, 0, Rgb { r: 1, g: 2, b: 3 });
    assert_eq!(img.pixel(0, 2), (1, 2, 3, 255));
    assert_eq!(img.pixel(3, 1), (1, 2, 3, 255));
    assert_eq!(img.pixel(2, 2), (0, 0, 0, 0));
}

#[test]
fn span_is_clipped() {
    let mut img = blank_image(5, 5);
    stamp_span(&mut img, 0, 1, 2, false, Rgb { r: 9, g: 9, b: 9 });
    assert_eq!(img.pixel(0, 1), (9, 9, 9, 255));
    assert_eq!(img.pixel(2, 1), (9, 9, 9, 255));
    assert_eq!(img.pixel(3, 1), (0, 0, 0, 0));
    stamp_span(&mut img, 4, 4, 1, true, Rgb { r: 1, g: 1, b: 1 });
    assert_eq!(img.pixel(4, 3), (1, 1, 1, 255));
    assert_eq!(img.pixel(4, 2), (0, 0, 0, 0));
}

#[test]
fn set_pixel_changes_one_pixel() {
    let mut img = blank_image(2, 2);
    img.set_pixel(1, 0, (1, 2, 3, 4));
    assert_eq!(img.into_raw(), vec![0, 0, 0, 0, 1, 2, 3, 4, 0, 0, 0, 0, 0, 0, 0, 0]);
}

#[test]
fn preset_colors_in_toolbar_order() {
    assert_eq!(preset_color(0), LineColor::Red);
    assert_eq!(preset_color(4), LineColor::White);
    assert_eq!(preset_color(2).to_rgb(), Rgb { r: 52, g: 199, b: 89 });
    assert_eq!(LineColor::Custom(Rgb { r: 1, g: 2, b: 3 }).to_rgb(), Rgb { r: 1, g: 2, b: 3 });
}
