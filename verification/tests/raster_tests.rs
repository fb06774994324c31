use mdview::raster::{
    blend_channel, heading_scale_numerator, rasterize_heading, GlyphPixel, GlyphPixels,
    PixelBuffer,
};

#[test]
fn blend_extremes_and_midpoint() {
    // Zero coverage leaves the destination untouched.
    assert_eq!(blend_channel(100, 0), 100);
    // Full coverage is full white.
    assert_eq!(blend_channel(100, 255), 255);
    // Half coverage over black: 128 * 128 / 255.
    assert_eq!(blend_channel(0, 128), 64);
}

#[test]
fn filled_buffer_repeats_background() {
    let buf = PixelBuffer::new_filled(2, 2, 1, 2, 3);
    assert_eq!(buf.width, 2);
    assert_eq!(buf.height, 2);
    assert_eq!(buf.data.len(), 12);
    for p in 0..4 {
        assert_eq!(buf.data[3 * p], 1);
        assert_eq!(buf.data[3 * p + 1], 2);
        assert_eq!(buf.data[3 * p + 2], 3);
    }
}

#[test]
fn blend_pixel_touches_one_pixel_only() {
    let mut buf = PixelBuffer::new_filled(2, 2, 10, 10, 10);
    buf.blend_pixel(1, 0, 255);
    // Pixel (1, 0) is channel offset 3.
    assert_eq!(&buf.data[0..3], &[10, 10, 10]);
    assert_eq!(&buf.data[3..6], &[255, 255, 255]);
    assert_eq!(&buf.data[6..9], &[10, 10, 10]);
    assert_eq!(&buf.data[9..12], &[10, 10, 10]);
}

#[test]
fn scenario_heading_truncation() {
    // A 4x2 buffer on black. The second glyph has a pixel beyond the width,
    // so the third glyph is never drawn, but in-bounds pixels of the second
    // still are, and the buffer keeps its dimensions.
    let glyphs = vec![
        GlyphPixels { min_x: 0, min_y: 0, pixels: vec![GlyphPixel { dx: 0, dy: 0, cov: 255 }] },
        GlyphPixels {
            min_x: 1,
            min_y: 0,
            pixels: vec![
                GlyphPixel { dx: 0, dy: 1, cov: 255 },
                GlyphPixel { dx: 9, dy: 0, cov: 255 },
            ],
        },
        GlyphPixels { min_x: 2, min_y: 0, pixels: vec![GlyphPixel { dx: 0, dy: 0, cov: 255 }] },
    ];
    let buf = rasterize_heading(4, 2, 0, 0, 0, &glyphs);
    assert_eq!(buf.width, 4);
    assert_eq!(buf.height, 2);
    assert_eq!(buf.data.len(), 24);
    // First glyph's pixel at (0, 0).
    assert_eq!(buf.data[0], 255);
    // Second glyph's in-bounds pixel at (1, 1): offset 3 * (1 * 4 + 1) = 15.
    assert_eq!(buf.data[15], 255);
    // Third glyph's pixel at (2, 0) was never drawn: offset 6.
    assert_eq!(buf.data[6], 0);
}

#[test]
fn heading_scale_is_monotonically_non_increasing() {
    let mut previous = heading_scale_numerator(1);
    assert_eq!(previous, 11);
    for tier in 2..=6u8 {
        let current = heading_scale_numerator(tier);
        assert!(current <= previous);
        previous = current;
    }
    assert_eq!(previous, 6);
}
