//! The advance of an assembly recipe drawn with a given number of extender
//! repeats, and the least number of repeats that reaches a size.
use vstd::prelude::*;

use crate::glyph::GlyphPart;

verus! {

/// The most extender repeats that an assembly may use.
pub const MAX_REPEATS: u8 = 10;

/// How many times `part` appears when extenders repeat `repeats` times.
pub open spec fn copies(part: GlyphPart, repeats: nat) -> nat {
    if part.required {
        1
    } else {
        repeats
    }
}

/// The sequence of part instances drawn, in order, when every extender is
/// repeated `repeats` times and every end cap appears once.
pub open spec fn instances(parts: Seq<GlyphPart>, repeats: nat) -> Seq<GlyphPart>
    decreases parts.len(),
{
    if parts.len() == 0 {
        seq![]
    } else {
        instances(parts.drop_last(), repeats) + Seq::new(
            copies(parts.last(), repeats),
            |_j: int| parts.last(),
        )
    }
}

/// The overlap of instance `i` with the one before it: the lesser of the
/// previous instance's end connector and the cap; nothing for the first.
pub open spec fn join_overlap(inst: Seq<GlyphPart>, i: int, cap: u32) -> int {
    if i <= 0 {
        0
    } else {
        let prev = inst[i - 1].end_connector_length;
        if prev <= cap {
            prev as int
        } else {
            cap as int
        }
    }
}

/// The advance of instances drawn in order, each less its overlap.
pub open spec fn run_advance(inst: Seq<GlyphPart>, cap: u32) -> int
    decreases inst.len(),
{
    if inst.len() == 0 {
        0
    } else {
        run_advance(inst.drop_last(), cap) + inst.last().full_advance - join_overlap(
            inst,
            inst.len() - 1,
            cap,
        )
    }
}

/// The advance of the recipe `parts` assembled with `repeats` extender repeats.
pub open spec fn assembled_advance(parts: Seq<GlyphPart>, repeats: nat, cap: u32) -> int {
    run_advance(instances(parts, repeats), cap)
}

/// The least repeat count up to the ceiling whose assembly reaches `size`,
/// searching from `from` upwards.
pub open spec fn least_repeats_from(parts: Seq<GlyphPart>, cap: u32, size: int, from: nat) -> Option<
    nat,
>
    decreases MAX_REPEATS + 1 - from,
{
    if from > MAX_REPEATS {
        None
    } else if assembled_advance(parts, from, cap) >= size {
        Some(from)
    } else {
        least_repeats_from(parts, cap, size, from + 1)
    }
}

/// The least repeat count, at most the ceiling, whose assembly reaches `size`.
pub open spec fn least_repeats(parts: Seq<GlyphPart>, cap: u32, size: int) -> Option<nat> {
    least_repeats_from(parts, cap, size, 0)
}

/// An advance bound that every assembly of `n` instances meets.
pub open spec fn within_bounds(a: int, n: int) -> bool {
    -n * 0x1_0000_0000 <= a <= n * 0x1_0000_0000
}

pub(crate) proof fn lemma_instances_step(parts: Seq<GlyphPart>, p: int, repeats: nat)
    requires
        0 <= p < parts.len(),
    ensures
        instances(parts.subrange(0, p + 1), repeats) == instances(parts.subrange(0, p), repeats)
            + Seq::new(copies(parts[p], repeats), |_j: int| parts[p]),
{
    let s = parts.subrange(0, p + 1);
    assert(s.drop_last() =~= parts.subrange(0, p));
    assert(s.last() == parts[p]);
}

pub(crate) proof fn lemma_push_copy(base: Seq<GlyphPart>, part: GlyphPart, j: nat)
    ensures
        base + Seq::new(j + 1, |_k: int| part) == (base + Seq::new(j, |_k: int| part)).push(part),
{
    assert(base + Seq::new(j + 1, |_k: int| part) =~= (base + Seq::new(j, |_k: int| part)).push(
        part,
    ));
}

pub(crate) proof fn lemma_run_advance_push(inst: Seq<GlyphPart>, part: GlyphPart, cap: u32)
    ensures
        run_advance(inst.push(part), cap) == run_advance(inst, cap) + part.full_advance
            - join_overlap(inst.push(part), inst.len() as int, cap),
{
    assert(inst.push(part).drop_last() =~= inst);
}

/// The advance of `parts` assembled with `repeats` extender repeats.
pub fn advance_with_glyphs(parts: &Vec<GlyphPart>, repeats: u8, cap: u32) -> (r: i128)
    requires
        repeats <= MAX_REPEATS,
    ensures
        r == assembled_advance(parts@, repeats as nat, cap),
{
    let mut advance: i128 = 0;
    let mut previous_connector: u32 = 0;
    let ghost mut done: Seq<GlyphPart> = seq![];
    let mut p: usize = 0;
    while p < parts.len()
        invariant
            p <= parts@.len(),
            repeats <= MAX_REPEATS,
            done == instances(parts@.subrange(0, p as int), repeats as nat),
            done.len() <= 10 * p,
            advance == run_advance(done, cap),
            within_bounds(advance as int, done.len() as int),
            previous_connector == (if done.len() == 0 {
                0
            } else {
                done.last().end_connector_length
            }),
        decreases parts@.len() - p,
    {
        let part = parts[p];
        let count: u8 = if part.required {
            1
        } else {
            repeats
        };
        let ghost start = done;
        let mut j: u8 = 0;
        while j < count
            invariant
                p < parts@.len(),
                part == parts@[p as int],
                count == copies(part, repeats as nat),
                count <= MAX_REPEATS,
                j <= count,
                start.len() <= 10 * p,
                done == start + Seq::new(j as nat, |_k: int| part),
                advance == run_advance(done, cap),
                within_bounds(advance as int, done.len() as int),
                previous_connector == (if done.len() == 0 {
                    0
                } else {
                    done.last().end_connector_length
                }),
            decreases count - j,
        {
            let overlap: u32 = if previous_connector <= cap {
                previous_connector
            } else {
                cap
            };
            proof {
                lemma_push_copy(start, part, j as nat);
                lemma_run_advance_push(done, part, cap);
                done = done.push(part);
            }
            advance = advance + part.full_advance as i128 - overlap as i128;
            previous_connector = part.end_connector_length;
            j = j + 1;
        }
        proof {
            lemma_instances_step(parts@, p as int, repeats as nat);
        }
        p = p + 1;
    }
    proof {
        assert(parts@.subrange(0, parts@.len() as int) =~= parts@);
    }
    advance
}

} // verus!
