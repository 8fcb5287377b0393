//! The read-only font data consulted during resolution.
use std::collections::HashMap;
use vstd::prelude::*;

use crate::glyph::{Direction, Glyph, GlyphVariants};

verus! {

broadcast use vstd::std_specs::hash::group_hash_axioms;

/// The read-only font data that resolution consults: one variant table per
/// direction, the metrics of every glyph, and the font-wide cap on the overlap
/// of two joined parts.
pub struct VariantTables {
    pub vertical: HashMap<u32, GlyphVariants>,
    pub horizontal: HashMap<u32, GlyphVariants>,
    pub metrics: HashMap<u32, Glyph>,
    pub min_connector_overlap: u32,
}

/// Every glyph that `v` names has metrics in `m`.
pub open spec fn variants_have_metrics(v: GlyphVariants, m: Map<u32, Glyph>) -> bool {
    &&& forall|i: int|
        0 <= i < v.replacements@.len() ==> m.contains_key(#[trigger] v.replacements@[i].unicode)
    &&& match v.constructable {
        Some(c) => forall|i: int|
            0 <= i < c.parts@.len() ==> m.contains_key(#[trigger] c.parts@[i].unicode),
        None => true,
    }
}

/// Every entry of `t` names only glyphs with metrics in `m`.
pub open spec fn table_has_metrics(t: Map<u32, GlyphVariants>, m: Map<u32, Glyph>) -> bool {
    forall|k: u32| #[trigger] t.contains_key(k) ==> variants_have_metrics(t[k], m)
}

impl VariantTables {
    /// The metrics provider is total on the glyphs the tables name.
    pub open spec fn wf(&self) -> bool {
        &&& table_has_metrics(self.vertical@, self.metrics@)
        &&& table_has_metrics(self.horizontal@, self.metrics@)
    }

    /// The table consulted for stretching in direction `d`.
    pub open spec fn table(&self, d: Direction) -> Map<u32, GlyphVariants> {
        match d {
            Direction::Vertical => self.vertical@,
            Direction::Horizontal => self.horizontal@,
        }
    }

    /// The metrics of glyph `unicode`.
    pub open spec fn metrics_of(&self, unicode: u32) -> Glyph {
        self.metrics@[unicode]
    }

    /// Full metrics of a glyph that the tables name.
    pub fn glyph_metrics(&self, unicode: u32) -> (g: Glyph)
        requires
            self.metrics@.contains_key(unicode),
        ensures
            g == self.metrics_of(unicode),
    {
        *self.metrics.get(&unicode).unwrap()
    }

    /// The variant data of glyph `unicode` for direction `d`, if any.
    pub fn variants(&self, d: Direction, unicode: u32) -> (r: Option<&GlyphVariants>)
        ensures
            match r {
                Some(v) => self.table(d).contains_key(unicode) && *v == self.table(d)[unicode],
                None => !self.table(d).contains_key(unicode),
            },
    {
        match d {
            Direction::Vertical => self.vertical.get(&unicode),
            Direction::Horizontal => self.horizontal.get(&unicode),
        }
    }
}

} // verus!
