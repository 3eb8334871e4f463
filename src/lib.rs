//! Terminal rasterisation: a double-buffered character framebuffer that
//! repaints only the cells that changed, choosing a glyph and an ink colour
//! for each cell from its RGB value.
pub mod color;
pub mod glyph;
pub mod ansi;
pub mod framebuffer;
pub mod sampling;
pub mod prefab;
pub mod controls;
pub mod object;
