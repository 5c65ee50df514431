//! A cache of rasterized font glyphs, keyed by pixel size and character.
//!
//! Point sizes are converted to pixels, glyphs are rasterized once per key
//! into alpha bitmaps with a transparent one-pixel border, and the texture
//! made from each bitmap is kept for the life of the cache.
pub mod bitmap;
pub mod cache;
pub mod laws;
pub mod raster;
pub mod size;

pub use bitmap::{AlphaBitmap, Coverage};
pub use cache::{build_glyph, Glyph, GlyphCache, GlyphError, Rasterized};
pub use raster::{needs_replacement, rendered_char, PixelBox, REPLACEMENT_CHARACTER};
pub use size::pixel_size;
