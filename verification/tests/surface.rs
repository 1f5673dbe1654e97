use pixel_engine::font::FontOptions;
use pixel_engine::ui::{UiError, BLANK_PIXEL, UI};

fn surface(width: usize, height: usize) -> UI {
    UI::new(width, height, FontOptions::new(Vec::new())).unwrap()
}

#[test]
fn create_then_export_is_blank() {
    let ui = surface(3, 2);
    let bytes = ui.export_bytes();
    assert_eq!(bytes.len(), 3 * 2 * 4);
    assert!(bytes.iter().all(|b| *b == 0));
}

#[test]
fn create_rejects_zero_width() {
    let r = UI::new(0, 5, FontOptions::new(Vec::new()));
    assert!(matches!(r, Err(UiError::InvalidDimensions)));
}

#[test]
fn create_rejects_zero_height() {
    let r = UI::new(5, 0, FontOptions::new(Vec::new()));
    assert!(matches!(r, Err(UiError::InvalidDimensions)));
}

#[test]
fn place_pixel_then_readback() {
    let mut ui = surface(5, 4);
    ui.place_pixel(2, 3, 0xAABB_CCDD).unwrap();
    assert_eq!(ui.pixel_at(2, 3), 0xAABB_CCDD);
    for y in 0..4 {
        for x in 0..5 {
            if (x, y) != (2, 3) {
                assert_eq!(ui.pixel_at(x, y), BLANK_PIXEL);
            }
        }
    }
}

#[test]
fn place_pixel_out_of_bounds_is_error() {
    let mut ui = surface(5, 5);
    ui.place_pixel(4, 4, 7).unwrap();
    assert!(matches!(ui.place_pixel(5, 0, 1), Err(UiError::OutOfBounds)));
    assert!(matches!(ui.place_pixel(0, 5, 1), Err(UiError::OutOfBounds)));
    assert!(matches!(
        ui.place_pixel(usize::MAX, usize::MAX, 1),
        Err(UiError::OutOfBounds)
    ));
    for y in 0..5 {
        for x in 0..5 {
            let expected = if (x, y) == (4, 4) { 7 } else { BLANK_PIXEL };
            assert_eq!(ui.pixel_at(x, y), expected);
        }
    }
}

#[test]
fn reset_restores_blank_after_writes() {
    let mut ui = surface(4, 4);
    for y in 0..4 {
        for x in 0..4 {
            ui.place_pixel(x, y, 0xFFFF_FFFF).unwrap();
        }
    }
    let other_font = FontOptions::new(vec![1, 2, 3]).with_size(32);
    ui.set_font(&other_font);
    ui.reset();
    for y in 0..4 {
        for x in 0..4 {
            assert_eq!(ui.pixel_at(x, y), BLANK_PIXEL);
        }
    }
    assert_eq!(ui.font_options.size, 16);
    assert!(ui.font_options.font_bytes.is_empty());
}

#[test]
fn export_byte_order_least_significant_first() {
    let mut ui = surface(2, 1);
    ui.place_pixel(0, 0, 0x0102_0304).unwrap();
    let bytes = ui.export_bytes();
    assert_eq!(bytes.len(), 8);
    assert_eq!(&bytes[0..4], &[0x04, 0x03, 0x02, 0x01]);
    assert_eq!(&bytes[4..8], &[0, 0, 0, 0]);
}

#[test]
fn draw_exports_then_resets() {
    let mut ui = surface(2, 2);
    ui.place_pixel(1, 0, 0x0000_00FF).unwrap();
    let bytes = ui.draw();
    assert_eq!(bytes.len(), 16);
    assert_eq!(bytes[4], 0xFF);
    assert!(bytes[0..4].iter().all(|b| *b == 0));
    for y in 0..2 {
        for x in 0..2 {
            assert_eq!(ui.pixel_at(x, y), BLANK_PIXEL);
        }
    }
}
