//! Properties that hold across calls and of every input.
use vstd::prelude::*;

use crate::assembly::{
    assembled_advance, instances, join_overlap, least_repeats, least_repeats_from,
    run_advance, MAX_REPEATS,
};
use crate::fit::{drawn_advance, lemma_shares_total, share, share_sum};
use crate::glyph::{Glyph, GlyphInstruction, GlyphPart};
use crate::resolve::{assembly_steps, successor_of};
use crate::tables::VariantTables;

verus! {

proof fn lemma_least_repeats_from(parts: Seq<GlyphPart>, cap: u32, size: int, from: nat)
    ensures
        match least_repeats_from(parts, cap, size, from) {
            Some(k) => from <= k <= MAX_REPEATS && assembled_advance(parts, k, cap) >= size
                && forall|j: nat| from <= j < k ==> assembled_advance(parts, j, cap) < size,
            None => forall|j: nat|
                from <= j <= MAX_REPEATS ==> assembled_advance(parts, j, cap) < size,
        },
    decreases MAX_REPEATS + 1 - from,
{
    if from <= MAX_REPEATS && assembled_advance(parts, from, cap) < size {
        lemma_least_repeats_from(parts, cap, size, from + 1);
        assert forall|j: nat| from <= j < from + 1 implies assembled_advance(parts, j, cap)
            < size by {
            assert(j == from);
        }
    }
}

/// The repeat count that an assembly uses is the least one that reaches the
/// requested size; when there is none up to the ceiling, no count up to the
/// ceiling reaches it.
pub proof fn lemma_least_repeats(parts: Seq<GlyphPart>, cap: u32, size: int)
    ensures
        match least_repeats(parts, cap, size) {
            Some(k) => k <= MAX_REPEATS && assembled_advance(parts, k, cap) >= size && forall|
                j: nat,
            | j < k ==> assembled_advance(parts, j, cap) < size,
            None => forall|j: nat| j <= MAX_REPEATS ==> assembled_advance(parts, j, cap) < size,
        },
{
    lemma_least_repeats_from(parts, cap, size, 0);
}

proof fn lemma_instances_from_parts(parts: Seq<GlyphPart>, repeats: nat, i: int)
    requires
        0 <= i < instances(parts, repeats).len(),
    ensures
        parts.contains(instances(parts, repeats)[i]),
    decreases parts.len(),
{
    let head = instances(parts.drop_last(), repeats);
    if i < head.len() {
        lemma_instances_from_parts(parts.drop_last(), repeats, i);
        let j = choose|j: int| 0 <= j < parts.drop_last().len() && parts.drop_last()[j] == head[i];
        assert(parts[j] == head[i]);
    } else {
        assert(instances(parts, repeats)[i] == parts[parts.len() - 1]);
    }
}

proof fn lemma_drawn_steps(
    ins: Seq<GlyphInstruction>,
    inst: Seq<GlyphPart>,
    cap: u32,
    slack: int,
    n: int,
)
    requires
        ins.len() == inst.len(),
        forall|i: int|
            0 <= i < ins.len() ==> (#[trigger] ins[i]).glyph.advance == inst[i].full_advance
                && ins[i].overlap == join_overlap(inst, i, cap) - share(slack, n, i),
    ensures
        drawn_advance(ins) == run_advance(inst, cap) + share_sum(slack, n, ins.len() as int),
    decreases ins.len(),
{
    if ins.len() > 0 {
        let k = ins.len() - 1;
        assert forall|i: int| 0 <= i < k implies (#[trigger] ins.drop_last()[i]).glyph.advance
            == inst.drop_last()[i].full_advance && ins.drop_last()[i].overlap == join_overlap(
            inst.drop_last(),
            i,
            cap,
        ) - share(slack, n, i) by {
            assert(ins.drop_last()[i] == ins[i]);
            if i > 0 {
                assert(inst.drop_last()[i - 1] == inst[i - 1]);
            }
        }
        lemma_drawn_steps(ins.drop_last(), inst.drop_last(), cap, slack, n);
        assert(ins[k as int].glyph.advance == inst[k as int].full_advance);
    }
}

/// Where every part of a recipe is drawn with its full advance and the
/// assembly falls short of `size` by a slack of zero or more, the fitted
/// drawing steps, when there are more than one, span exactly `size`.
pub proof fn lemma_exact_fit(
    t: VariantTables,
    parts: Seq<GlyphPart>,
    repeats: nat,
    size: int,
    ins: Seq<GlyphInstruction>,
)
    requires
        assembly_steps(t, parts, repeats, size, ins),
        forall|j: int|
            0 <= j < parts.len() ==> #[trigger] t.metrics_of(parts[j].unicode).advance
                == parts[j].full_advance,
        size - assembled_advance(parts, repeats, t.min_connector_overlap) >= 0,
        ins.len() > 1,
    ensures
        drawn_advance(ins) == size,
{
    let cap = t.min_connector_overlap;
    let inst = instances(parts, repeats);
    let slack = size - assembled_advance(parts, repeats, cap);
    assert forall|i: int| 0 <= i < ins.len() implies (#[trigger] ins[i]).glyph.advance
        == inst[i].full_advance && ins[i].overlap == join_overlap(inst, i, cap) - share(
        slack,
        ins.len() as int,
        i,
    ) by {
        lemma_instances_from_parts(parts, repeats, i);
        let j = choose|j: int| 0 <= j < parts.len() && parts[j] == inst[i];
        assert(t.metrics_of(parts[j].unicode).advance == parts[j].full_advance);
    }
    lemma_drawn_steps(ins, inst, cap, slack, ins.len() as int);
    lemma_shares_total(slack, ins.len() as int);
}

/// A glyph without metadata, or whose vertical ladder has fewer than two
/// rungs, is its own successor.
pub proof fn lemma_successor_below_two_rungs(t: VariantTables, g: Glyph)
    requires
        !t.vertical@.contains_key(g.unicode) || t.vertical@[g.unicode].replacements@.len() < 2,
    ensures
        successor_of(t, g) == g,
{
}

/// The successor of a glyph whose vertical ladder has exactly two rungs is
/// the second rung, and when that glyph has no further rung of its own,
/// taking the successor again leaves it where it is.
pub proof fn lemma_successor_at_ceiling(t: VariantTables, g: Glyph)
    requires
        t.vertical@.contains_key(g.unicode),
        t.vertical@[g.unicode].replacements@.len() == 2,
        ({
            let top = t.metrics_of(t.vertical@[g.unicode].replacements@[1].unicode);
            !t.vertical@.contains_key(top.unicode) || t.vertical@[top.unicode].replacements@.len()
                < 2
        }),
    ensures
        successor_of(t, g) == t.metrics_of(t.vertical@[g.unicode].replacements@[1].unicode),
        successor_of(t, successor_of(t, g)) == successor_of(t, g),
{
}

} // verus!
