use pixel_engine::font::{fallback_advance, FontOptions, GlyphBitmap};
use pixel_engine::layout::layout_glyphs;
use pixel_engine::ui::{UiError, BLANK_PIXEL, FOREGROUND_PIXEL, UI};

fn surface(width: usize, height: usize) -> UI {
    UI::new(width, height, FontOptions::new(Vec::new())).unwrap()
}

#[test]
fn layout_same_input_twice_identical() {
    let chars = vec!['h', 'e', 'l', 'l', 'o', '\n', 'x'];
    let advances = vec![3, 4, 2, 2, 5, 0, 6];
    let first = layout_glyphs(&chars, &advances, 1, 2, 7, 20, 30);
    let second = layout_glyphs(&chars, &advances, 1, 2, 7, 20, 30);
    assert_eq!(first.len(), second.len());
    for (a, b) in first.iter().zip(second.iter()) {
        assert_eq!(a, b);
    }
}

#[test]
fn wrap_at_width_ten_from_anchor_eight() {
    let chars = vec!['a', 'b'];
    let advances = vec![4, 4];
    let glyphs = layout_glyphs(&chars, &advances, 8, 0, 5, 10, 100);
    assert_eq!(glyphs.len(), 2);
    assert_eq!(glyphs[0].character, 'a');
    assert_eq!((glyphs[0].x, glyphs[0].y), (8, 0));
    assert_eq!(glyphs[1].character, 'b');
    assert_eq!((glyphs[1].x, glyphs[1].y), (8, 5));
}

#[test]
fn newline_is_a_hard_break() {
    let chars = vec!['a', '\n', 'b'];
    let advances = vec![4, 0, 4];
    let glyphs = layout_glyphs(&chars, &advances, 2, 1, 6, 50, 100);
    assert_eq!(glyphs.len(), 2);
    assert_eq!((glyphs[0].x, glyphs[0].y), (2, 1));
    assert_eq!((glyphs[1].x, glyphs[1].y), (2, 7));
}

#[test]
fn glyphs_below_bottom_are_omitted() {
    let chars = vec!['a', '\n', 'b'];
    let advances = vec![4, 0, 4];
    let glyphs = layout_glyphs(&chars, &advances, 0, 0, 6, 50, 5);
    assert_eq!(glyphs.len(), 1);
    assert_eq!(glyphs[0].character, 'a');
}

#[test]
fn overlay_vertical_bar_lights_five_pixels() {
    let mut ui = surface(10, 10);
    let bar = GlyphBitmap {
        width: 1,
        height: 5,
        advance: 1,
        coverage: vec![255; 5],
    };
    ui.overlay_u8_bitmap_onto_framebuffer(&bar, 0, 0);
    for y in 0..10 {
        for x in 0..10 {
            let expected = if x == 0 && y < 5 {
                FOREGROUND_PIXEL
            } else {
                BLANK_PIXEL
            };
            assert_eq!(ui.pixel_at(x, y), expected);
        }
    }
}

#[test]
fn overlay_clips_at_right_edge_without_wrapping() {
    let mut ui = surface(10, 10);
    let wide = GlyphBitmap {
        width: 3,
        height: 1,
        advance: 3,
        coverage: vec![255, 255, 255],
    };
    ui.overlay_u8_bitmap_onto_framebuffer(&wide, 8, 0);
    assert_eq!(ui.pixel_at(8, 0), FOREGROUND_PIXEL);
    assert_eq!(ui.pixel_at(9, 0), FOREGROUND_PIXEL);
    // The sample past the right edge is skipped, not wrapped to the next row.
    for y in 1..10 {
        for x in 0..10 {
            assert_eq!(ui.pixel_at(x, y), BLANK_PIXEL);
        }
    }
    for x in 0..8 {
        assert_eq!(ui.pixel_at(x, 0), BLANK_PIXEL);
    }
}

#[test]
fn overlay_clips_at_bottom_edge() {
    let mut ui = surface(4, 4);
    let tall = GlyphBitmap {
        width: 1,
        height: 6,
        advance: 1,
        coverage: vec![255; 6],
    };
    ui.overlay_u8_bitmap_onto_framebuffer(&tall, 1, 2);
    assert_eq!(ui.pixel_at(1, 2), FOREGROUND_PIXEL);
    assert_eq!(ui.pixel_at(1, 3), FOREGROUND_PIXEL);
    for y in 0..2 {
        for x in 0..4 {
            assert_eq!(ui.pixel_at(x, y), BLANK_PIXEL);
        }
    }
}

#[test]
fn overlay_zero_coverage_leaves_surface_blank() {
    let mut ui = surface(4, 4);
    let ghostly = GlyphBitmap {
        width: 2,
        height: 2,
        advance: 2,
        coverage: vec![0; 4],
    };
    ui.overlay_u8_bitmap_onto_framebuffer(&ghostly, 1, 1);
    for y in 0..4 {
        for x in 0..4 {
            assert_eq!(ui.pixel_at(x, y), BLANK_PIXEL);
        }
    }
}

#[test]
fn malformed_font_bytes_fail_write_string() {
    let mut ui = surface(10, 10);
    let r = ui.write_string("ab", 0, 0);
    assert!(matches!(r, Err(UiError::InvalidFontData)));
    for y in 0..10 {
        for x in 0..10 {
            assert_eq!(ui.pixel_at(x, y), BLANK_PIXEL);
        }
    }
}

#[test]
fn malformed_font_bytes_fail_write_glyph() {
    let mut ui = surface(10, 10);
    let garbage = FontOptions::new(vec![0xDE, 0xAD, 0xBE, 0xEF]);
    ui.set_font(&garbage);
    let r = ui.write_glyph('I', 0, 0);
    assert!(matches!(r, Err(UiError::InvalidFontData)));
    for y in 0..10 {
        for x in 0..10 {
            assert_eq!(ui.pixel_at(x, y), BLANK_PIXEL);
        }
    }
}

#[test]
fn set_font_replaces_active_font_only() {
    let mut ui = surface(4, 4);
    let other = FontOptions::new(vec![9, 9]).with_size(24);
    ui.set_font(&other);
    assert_eq!(ui.font_options.size, 24);
    assert_eq!(ui.font_options.font_bytes, vec![9, 9]);
    assert_eq!(ui.default_font.size, 16);
    assert!(ui.default_font.font_bytes.is_empty());
}

#[test]
fn fallback_advance_is_half_the_size_rounded_up() {
    assert_eq!(fallback_advance(16), 8);
    assert_eq!(fallback_advance(17), 9);
    assert_eq!(fallback_advance(1), 1);
}
