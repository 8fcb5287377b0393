//! Resolution of stretchy math symbols: pick a larger replacement glyph from
//! a font's variant ladder, or assemble one from parts joined at connectors.
pub mod assembly;
pub mod fit;
pub mod glyph;
pub mod laws;
pub mod resolve;
pub mod tables;

pub use assembly::advance_with_glyphs;
pub use fit::fit_to_size;
pub use glyph::{
    ConstructableGlyph, Direction, Glyph, GlyphInstruction, GlyphPart, GlyphVariants,
    ReplacementGlyph, VariantError, VariantGlyph,
};
pub use resolve::Variant;
pub use tables::VariantTables;
