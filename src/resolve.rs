//! Resolving a glyph to a replacement or an assembly of parts, and finding
//! its next size up.
use vstd::prelude::*;

use crate::assembly::{
    advance_with_glyphs, assembled_advance, copies, instances, join_overlap, least_repeats,
    least_repeats_from, run_advance, within_bounds, MAX_REPEATS,
};
use crate::fit::{fit_to_size, share};
use crate::glyph::{
    Direction, Glyph, GlyphInstruction, GlyphPart, ReplacementGlyph, VariantError, VariantGlyph,
};
use crate::tables::{variants_have_metrics, VariantTables};

verus! {

/// The index of the first rung at or after `from` whose advance reaches
/// `size`, or the length of the ladder when none does.
pub open spec fn first_fit_from(reps: Seq<ReplacementGlyph>, size: int, from: int) -> int
    decreases reps.len() - from,
{
    if from < 0 || from >= reps.len() {
        reps.len() as int
    } else if reps[from].advance >= size {
        from
    } else {
        first_fit_from(reps, size, from + 1)
    }
}

/// The index of the first rung whose advance reaches `size`, or the length
/// of the ladder when none does.
pub open spec fn first_fit(reps: Seq<ReplacementGlyph>, size: int) -> int {
    first_fit_from(reps, size, 0)
}

/// `ins` are the drawing steps of `parts` assembled with `repeats` extender
/// repeats and fitted to `size`: one step per part instance, each with the
/// instance's metrics and its join overlap less its share of the slack.
pub open spec fn assembly_steps(
    t: VariantTables,
    parts: Seq<GlyphPart>,
    repeats: nat,
    size: int,
    ins: Seq<GlyphInstruction>,
) -> bool {
    let cap = t.min_connector_overlap;
    let inst = instances(parts, repeats);
    let slack = size - assembled_advance(parts, repeats, cap);
    &&& ins.len() == inst.len()
    &&& forall|i: int|
        0 <= i < ins.len() ==> (#[trigger] ins[i]).glyph == t.metrics_of(inst[i].unicode)
            && ins[i].overlap == join_overlap(inst, i, cap) - (if slack >= 0 {
            share(slack, ins.len() as int, i)
        } else {
            0
        })
}

/// What resolving `base` in direction `d` at least `size` long yields.
pub open spec fn resolves_to(
    t: VariantTables,
    base: Glyph,
    d: Direction,
    size: u32,
    r: Result<VariantGlyph, VariantError>,
) -> bool {
    if !t.table(d).contains_key(base.unicode) {
        r == Ok::<VariantGlyph, VariantError>(VariantGlyph::Replacement(base))
    } else {
        let v = t.table(d)[base.unicode];
        let reps = v.replacements@;
        let i = first_fit(reps, size as int);
        if i < reps.len() {
            r == Ok::<VariantGlyph, VariantError>(
                VariantGlyph::Replacement(t.metrics_of(reps[i].unicode)),
            )
        } else {
            match v.constructable {
                None => if reps.len() == 0 {
                    r == Err::<VariantGlyph, VariantError>(
                        VariantError::MalformedVariantData {
                            unicode: base.unicode,
                            direction: d,
                            min_size: size,
                        },
                    )
                } else {
                    r == Ok::<VariantGlyph, VariantError>(
                        VariantGlyph::Replacement(t.metrics_of(reps.last().unicode)),
                    )
                },
                Some(c) => match least_repeats(c.parts@, t.min_connector_overlap, size as int) {
                    None => r == Err::<VariantGlyph, VariantError>(
                        VariantError::ConstructionUnsatisfiable {
                            unicode: base.unicode,
                            direction: d,
                            min_size: size,
                        },
                    ),
                    Some(k) => match r {
                        Ok(VariantGlyph::Constructable(rd, ins)) => rd == d && assembly_steps(
                            t,
                            c.parts@,
                            k,
                            size as int,
                            ins@,
                        ),
                        _ => false,
                    },
                },
            }
        }
    }
}

/// The next size up of `base`: the second rung of its vertical ladder, or
/// `base` itself where there is none.
pub open spec fn successor_of(t: VariantTables, base: Glyph) -> Glyph {
    if t.vertical@.contains_key(base.unicode) && t.vertical@[base.unicode].replacements@.len()
        >= 2 {
        t.metrics_of(t.vertical@[base.unicode].replacements@[1].unicode)
    } else {
        base
    }
}

/// The least repeat count, at most the ceiling, whose assembly reaches `size`.
fn search_repeats(parts: &Vec<GlyphPart>, cap: u32, size: u32) -> (r: Option<u8>)
    ensures
        match r {
            Some(k) => least_repeats(parts@, cap, size as int) == Some(k as nat) && k
                <= MAX_REPEATS && assembled_advance(parts@, k as nat, cap) >= size,
            None => least_repeats(parts@, cap, size as int) is None,
        },
{
    let mut count: u8 = 0;
    loop
        invariant
            count <= MAX_REPEATS,
            least_repeats(parts@, cap, size as int) == least_repeats_from(
                parts@,
                cap,
                size as int,
                count as nat,
            ),
        decreases MAX_REPEATS - count,
    {
        let advance = advance_with_glyphs(parts, count, cap);
        if advance >= size as i128 {
            return Some(count);
        }
        if count == MAX_REPEATS {
            proof {
                assert(least_repeats_from(parts@, cap, size as int, (count + 1) as nat) is None);
            }
            return None;
        }
        count = count + 1;
    }
}

proof fn lemma_join_overlap_push(inst: Seq<GlyphPart>, part: GlyphPart, cap: u32, i: int)
    requires
        0 <= i < inst.len(),
    ensures
        join_overlap(inst.push(part), i, cap) == join_overlap(inst, i, cap),
{
    if i > 0 {
        assert(inst.push(part)[i - 1] == inst[i - 1]);
    }
}

/// One drawing step for each part instance of `parts` assembled with
/// `repeats` extender repeats, with the total advance of the assembly.
fn assemble(tables: &VariantTables, parts: &Vec<GlyphPart>, repeats: u8) -> (r: (
    Vec<GlyphInstruction>,
    i128,
))
    requires
        repeats <= MAX_REPEATS,
        forall|i: int| 0 <= i < parts@.len() ==> tables.metrics@.contains_key(#[trigger] parts@[i].unicode),
    ensures
        r.1 == assembled_advance(parts@, repeats as nat, tables.min_connector_overlap),
        r.0@.len() == instances(parts@, repeats as nat).len(),
        forall|i: int|
            0 <= i < r.0@.len() ==> (#[trigger] r.0@[i]).glyph == tables.metrics_of(
                instances(parts@, repeats as nat)[i].unicode,
            ) && r.0@[i].overlap == join_overlap(
                instances(parts@, repeats as nat),
                i,
                tables.min_connector_overlap,
            ),
{
    let cap = tables.min_connector_overlap;
    let mut instructions: Vec<GlyphInstruction> = Vec::new();
    let mut advance: i128 = 0;
    let mut previous_connector: u32 = 0;
    let ghost mut done: Seq<GlyphPart> = seq![];
    let mut p: usize = 0;
    while p < parts.len()
        invariant
            p <= parts@.len(),
            repeats <= MAX_REPEATS,
            cap == tables.min_connector_overlap,
            forall|i: int| 0 <= i < parts@.len() ==> tables.metrics@.contains_key(#[trigger] parts@[i].unicode),
            done == instances(parts@.subrange(0, p as int), repeats as nat),
            done.len() <= 10 * p,
            advance == run_advance(done, cap),
            within_bounds(advance as int, done.len() as int),
            previous_connector == (if done.len() == 0 {
                0
            } else {
                done.last().end_connector_length
            }),
            instructions@.len() == done.len(),
            forall|i: int|
                0 <= i < done.len() ==> (#[trigger] instructions@[i]).glyph == tables.metrics_of(
                    done[i].unicode,
                ) && instructions@[i].overlap == join_overlap(done, i, cap),
        decreases parts@.len() - p,
    {
        let part = parts[p];
        let count: u8 = if part.required {
            1
        } else {
            repeats
        };
        let glyph = tables.glyph_metrics(part.unicode);
        let ghost start = done;
        let mut j: u8 = 0;
        while j < count
            invariant
                p < parts@.len(),
                part == parts@[p as int],
                glyph == tables.metrics_of(part.unicode),
                count == copies(part, repeats as nat),
                count <= MAX_REPEATS,
                j <= count,
                cap == tables.min_connector_overlap,
                start.len() <= 10 * p,
                done == start + Seq::new(j as nat, |_k: int| part),
                advance == run_advance(done, cap),
                within_bounds(advance as int, done.len() as int),
                previous_connector == (if done.len() == 0 {
                    0
                } else {
                    done.last().end_connector_length
                }),
                instructions@.len() == done.len(),
                forall|i: int|
                    0 <= i < done.len() ==> (#[trigger] instructions@[i]).glyph
                        == tables.metrics_of(done[i].unicode) && instructions@[i].overlap
                        == join_overlap(done, i, cap),
            decreases count - j,
        {
            let overlap: u32 = if previous_connector <= cap {
                previous_connector
            } else {
                cap
            };
            proof {
                crate::assembly::lemma_push_copy(start, part, j as nat);
                crate::assembly::lemma_run_advance_push(done, part, cap);
                assert forall|i: int| 0 <= i < done.len() implies join_overlap(
                    done.push(part),
                    i,
                    cap,
                ) == join_overlap(done, i, cap) by {
                    lemma_join_overlap_push(done, part, cap, i);
                }
                done = done.push(part);
            }
            advance = advance + part.full_advance as i128 - overlap as i128;
            instructions.push(GlyphInstruction { glyph, overlap: overlap as i64 });
            previous_connector = part.end_connector_length;
            j = j + 1;
        }
        proof {
            crate::assembly::lemma_instances_step(parts@, p as int, repeats as nat);
        }
        p = p + 1;
    }
    proof {
        assert(parts@.subrange(0, parts@.len() as int) =~= parts@);
    }
    (instructions, advance)
}

/// Stretching of a glyph: a variant at least a given size long, and the
/// next size up.
pub trait Variant {
    /// The glyph(s) that draw `self` at least `size` long in `direction`.
    fn variant(&self, tables: &VariantTables, size: u32, direction: Direction) -> Result<
        VariantGlyph,
        VariantError,
    >
        requires
            tables.wf(),
    ;

    /// The next discrete size up of `self`.
    fn successor(&self, tables: &VariantTables) -> Glyph
        requires
            tables.wf(),
    ;

    /// The glyph(s) that draw `self` at least `size` tall.
    fn vert_variant(&self, tables: &VariantTables, size: u32) -> Result<VariantGlyph, VariantError>
        requires
            tables.wf(),
    ;

    /// The glyph(s) that draw `self` at least `size` wide.
    fn horz_variant(&self, tables: &VariantTables, size: u32) -> Result<VariantGlyph, VariantError>
        requires
            tables.wf(),
    ;
}

impl Variant for Glyph {
    fn variant(&self, tables: &VariantTables, size: u32, direction: Direction) -> (r: Result<
        VariantGlyph,
        VariantError,
    >)
        ensures
            resolves_to(*tables, *self, direction, size, r),
            !tables.table(direction).contains_key(self.unicode) ==> r == Ok::<
                VariantGlyph,
                VariantError,
            >(VariantGlyph::Replacement(*self)),
    {
        let variants = match tables.variants(direction, self.unicode) {
            Some(v) => v,
            None => return Ok(VariantGlyph::Replacement(*self)),
        };
        proof {
            assert(variants_have_metrics(*variants, tables.metrics@));
        }
        let ghost reps = variants.replacements@;
        let mut i: usize = 0;
        while i < variants.replacements.len()
            invariant
                reps == variants.replacements@,
                tables.table(direction).contains_key(self.unicode),
                *variants == tables.table(direction)[self.unicode],
                variants_have_metrics(*variants, tables.metrics@),
                i <= reps.len(),
                first_fit(reps, size as int) == first_fit_from(reps, size as int, i as int),
            decreases reps.len() - i,
        {
            let rung = variants.replacements[i];
            if rung.advance as u32 >= size {
                return Ok(VariantGlyph::Replacement(tables.glyph_metrics(rung.unicode)));
            }
            i = i + 1;
        }
        let construction = match &variants.constructable {
            None => {
                let n = variants.replacements.len();
                if n == 0 {
                    return Err(
                        VariantError::MalformedVariantData {
                            unicode: self.unicode,
                            direction,
                            min_size: size,
                        },
                    );
                }
                let largest = variants.replacements[n - 1];
                return Ok(VariantGlyph::Replacement(tables.glyph_metrics(largest.unicode)));
            },
            Some(c) => c,
        };
        let cap = tables.min_connector_overlap;
        let repeats = match search_repeats(&construction.parts, cap, size) {
            Some(k) => k,
            None => {
                return Err(
                    VariantError::ConstructionUnsatisfiable {
                        unicode: self.unicode,
                        direction,
                        min_size: size,
                    },
                );
            },
        };
        let (mut instructions, total) = assemble(tables, &construction.parts, repeats);
        // What the assembly lacks of `size`; the search makes it at least
        // `size` long, so a slack that is not negative is zero.
        let slack: i128 = size as i128 - total;
        if slack < 0 {
            return Ok(VariantGlyph::Constructable(direction, instructions));
        }
        fit_to_size(&mut instructions, slack as u32);
        Ok(VariantGlyph::Constructable(direction, instructions))
    }

    fn successor(&self, tables: &VariantTables) -> (r: Glyph)
        ensures
            r == successor_of(*tables, *self),
    {
        let variants = match tables.variants(Direction::Vertical, self.unicode) {
            None => return *self,
            Some(v) => v,
        };
        proof {
            assert(variants_have_metrics(*variants, tables.metrics@));
        }
        if variants.replacements.len() >= 2 {
            tables.glyph_metrics(variants.replacements[1].unicode)
        } else {
            *self
        }
    }

    fn vert_variant(&self, tables: &VariantTables, size: u32) -> (r: Result<VariantGlyph, VariantError>)
        ensures
            resolves_to(*tables, *self, Direction::Vertical, size, r),
    {
        self.variant(tables, size, Direction::Vertical)
    }

    fn horz_variant(&self, tables: &VariantTables, size: u32) -> (r: Result<VariantGlyph, VariantError>)
        ensures
            resolves_to(*tables, *self, Direction::Horizontal, size, r),
    {
        self.variant(tables, size, Direction::Horizontal)
    }
}

} // verus!
