//! The data model: glyphs, variant ladders, assembly recipes and results.
use vstd::prelude::*;

verus! {

/// A glyph of the font with the metrics this library reads.
#[derive(Debug, Clone, Copy, PartialEq, Eq, Structural)]
pub struct Glyph {
    /// Identity of the glyph (a codepoint, unique per drawn shape).
    pub unicode: u32,
    /// Extent of the glyph along the stretch direction, in font units.
    pub advance: u32,
}

/// The direction in which a symbol is stretched.
#[derive(Debug, Clone, Copy, PartialEq, Eq, Structural)]
pub enum Direction {
    Vertical,
    Horizontal,
}

/// One rung of a variant ladder: a pre-drawn glyph and its advance.
#[derive(Debug, Clone, Copy, PartialEq, Eq, Structural)]
pub struct ReplacementGlyph {
    pub unicode: u32,
    pub advance: u16,
}

/// One piece of an assembly recipe.
#[derive(Debug, Clone, Copy, PartialEq, Eq, Structural)]
pub struct GlyphPart {
    pub unicode: u32,
    /// Length of the leading edge usable for overlap with the previous piece.
    pub start_connector_length: u32,
    /// Length of the trailing edge usable for overlap with the next piece.
    pub end_connector_length: u32,
    /// Advance of the piece before any overlap is taken off.
    pub full_advance: u32,
    /// `true` for an end cap (used once), `false` for an extender (repeated).
    pub required: bool,
}

/// A recipe for assembling an arbitrarily large glyph out of parts.
#[derive(Debug, Clone)]
pub struct ConstructableGlyph {
    pub parts: Vec<GlyphPart>,
    pub italics_correction: i16,
}

/// The variant data of one base glyph in one direction.
#[derive(Debug, Clone)]
pub struct GlyphVariants {
    /// Larger pre-drawn glyphs, by non-decreasing advance.
    pub replacements: Vec<ReplacementGlyph>,
    /// The assembly recipe, where the font has one.
    pub constructable: Option<ConstructableGlyph>,
}

/// One drawing step of an assembled glyph: the glyph to draw and how much of
/// its advance overlaps the previous step.
#[derive(Debug, Clone, Copy, PartialEq, Eq, Structural)]
pub struct GlyphInstruction {
    pub glyph: Glyph,
    pub overlap: i64,
}

/// The glyph(s) that render a symbol at the requested size.
#[derive(Debug, Clone)]
pub enum VariantGlyph {
    /// A single glyph drawn as it is.
    Replacement(Glyph),
    /// Parts drawn one after the other along the given direction.
    Constructable(Direction, Vec<GlyphInstruction>),
}

/// Why a symbol could not be resolved; each failure carries the base glyph's
/// identity, the direction and the requested size.
#[derive(Debug, Clone, Copy, PartialEq, Eq, Structural)]
pub enum VariantError {
    /// No number of extender repeats within the ceiling reaches the size.
    ConstructionUnsatisfiable { unicode: u32, direction: Direction, min_size: u32 },
    /// The largest replacement was needed but the ladder is empty.
    MalformedVariantData { unicode: u32, direction: Direction, min_size: u32 },
}

} // verus!
