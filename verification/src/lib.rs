//! Text overlay engine: wraps a caption to the width of a raster image using
//! font metrics, blends rasterised glyphs onto the image and stamps an
//! optional outline behind them.
//!
//! The engine works in two passes with the rasteriser between them. `layout`
//! breaks the text into lines and places the glyphs of each line; the caller
//! rasterises the placed glyphs into coverage masks; `overlay` draws the masks
//! of each line, outline first, onto the image.
//!
//! All quantities are integers. Lengths that the layout derives from the image
//! are held in millionths of a pixel, style factors in thousandths, glyph
//! metrics in font design units and glyph coverage in millionths. Sums of
//! glyph metrics are compared with pixel lengths exactly, so a line is broken
//! if and only if it is wider than the limit.

pub mod api;
pub mod canvas;
pub mod color;
pub mod draw;
pub mod font;
pub mod layout;
pub mod outline;
pub mod overlay;
pub mod style;
pub mod words;
pub mod wrap;
