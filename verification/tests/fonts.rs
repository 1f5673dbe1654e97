use pixel_engine::font::FontOptions;
use pixel_engine::sfnt::name_storage_safe;
use pixel_engine::ui::{UiError, BLANK_PIXEL, UI};

/// A single-face sfnt blob holding one `name` table with one full-name
/// record (name ID 4, Unicode platform) whose payload is `payload`.
fn sfnt_with_name_payload(payload: &[u8]) -> Vec<u8> {
    let name_table_len = 6 + 12 + payload.len();
    let mut b = Vec::new();
    b.extend_from_slice(&[0x00, 0x01, 0x00, 0x00]); // TrueType magic
    b.extend_from_slice(&1u16.to_be_bytes()); // numTables
    b.extend_from_slice(&[0; 6]); // searchRange, entrySelector, rangeShift
    b.extend_from_slice(b"name"); // tag
    b.extend_from_slice(&0u32.to_be_bytes()); // checksum
    b.extend_from_slice(&28u32.to_be_bytes()); // table offset
    b.extend_from_slice(&(name_table_len as u32).to_be_bytes()); // table length
    b.extend_from_slice(&0u16.to_be_bytes()); // name table: version
    b.extend_from_slice(&1u16.to_be_bytes()); // count
    b.extend_from_slice(&18u16.to_be_bytes()); // storage offset
    b.extend_from_slice(&0u16.to_be_bytes()); // record: platform (Unicode)
    b.extend_from_slice(&3u16.to_be_bytes()); // encoding
    b.extend_from_slice(&0u16.to_be_bytes()); // language
    b.extend_from_slice(&4u16.to_be_bytes()); // name id (full name)
    b.extend_from_slice(&(payload.len() as u16).to_be_bytes()); // length
    b.extend_from_slice(&0u16.to_be_bytes()); // offset into storage
    b.extend_from_slice(payload);
    b
}

#[test]
fn name_scan_accepts_trivial_inputs() {
    assert!(name_storage_safe(&Vec::new()));
    assert!(name_storage_safe(&vec![0xDE, 0xAD, 0xBE, 0xEF]));
}

#[test]
fn name_scan_rejects_odd_length_unicode_name() {
    let font = sfnt_with_name_payload(&[0x00, 0x41, 0x00]);
    assert!(!name_storage_safe(&font));
}

#[test]
fn name_scan_rejects_unpaired_surrogates() {
    let lone_high = sfnt_with_name_payload(&[0xD8, 0x00]);
    assert!(!name_storage_safe(&lone_high));
    let bad_pair = sfnt_with_name_payload(&[0xD8, 0x00, 0x00, 0x41]);
    assert!(!name_storage_safe(&bad_pair));
    let lone_low = sfnt_with_name_payload(&[0xDC, 0x00]);
    assert!(!name_storage_safe(&lone_low));
}

#[test]
fn name_scan_accepts_wellformed_utf16() {
    let plain = sfnt_with_name_payload(&[0x00, 0x41, 0x00, 0x42]);
    assert!(name_storage_safe(&plain));
    let paired = sfnt_with_name_payload(&[0xD8, 0x3D, 0xDE, 0x00]);
    assert!(name_storage_safe(&paired));
}

#[test]
fn hostile_name_record_fails_cleanly() {
    let font = FontOptions::new(sfnt_with_name_payload(&[0x00, 0x41, 0x00]));
    let mut ui = UI::new(4, 4, font).unwrap();
    let r = ui.write_string("hi", 0, 0);
    assert!(matches!(r, Err(UiError::InvalidFontData)));
    for y in 0..4 {
        for x in 0..4 {
            assert_eq!(ui.pixel_at(x, y), BLANK_PIXEL);
        }
    }
}

#[test]
fn safe_name_but_incomplete_font_fails_cleanly() {
    let font = FontOptions::new(sfnt_with_name_payload(&[0x00, 0x41, 0x00, 0x42]));
    let mut ui = UI::new(4, 4, font).unwrap();
    let r = ui.write_glyph('A', 0, 0);
    assert!(matches!(r, Err(UiError::InvalidFontData)));
    for y in 0..4 {
        for x in 0..4 {
            assert_eq!(ui.pixel_at(x, y), BLANK_PIXEL);
        }
    }
}
