//! The framebuffer: drawing pixels, lines, shapes and glyphs into the screen's
//! memory, and the text console drawn on top of it.

pub mod colors;
pub mod console;
pub mod framebuffer;
