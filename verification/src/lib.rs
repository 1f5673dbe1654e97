//! A minimal pixel-framebuffer UI toolkit.
//!
//! The library owns a fixed-size grid of packed 32-bit colors and a
//! text-to-pixel rendering pipeline: a string is shaped into positioned
//! glyphs, each glyph is rasterized to a coverage bitmap by the font
//! engine, and each bitmap is composited onto the framebuffer with
//! bounds-checked coordinate accounting.  Window creation and
//! presentation are left to the surrounding application.

pub mod font;
pub mod layout;
pub mod sfnt;
pub mod ui;
