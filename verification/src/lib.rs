//! Rendering of text as pixel-art bitmap glyphs.
//!
//! A font is a glyph atlas (a single RGBA image holding a grid of equally
//! sized tiles) together with a character map that assigns a tile index to
//! each displayable character. A text request names a font, carries the text,
//! an optional box size, a padding and a background colour; the library wraps
//! the text into lines, sizes the output box, and composites the glyph tiles
//! over the background into a fresh RGBA pixel buffer.

pub mod charmap;
pub mod color;
pub mod font;
pub mod pipeline;
pub mod pixbuf;
pub mod raster;
pub mod wrap;
