//! Stretching the joins of an assembly so that it spans a requested size.
use vstd::arithmetic::div_mod::lemma_fundamental_div_mod;
use vstd::prelude::*;

use crate::glyph::GlyphInstruction;

verus! {

/// The advance of drawn instructions: each glyph's advance less its overlap.
pub open spec fn drawn_advance(ins: Seq<GlyphInstruction>) -> int
    decreases ins.len(),
{
    if ins.len() == 0 {
        0
    } else {
        drawn_advance(ins.drop_last()) + ins.last().glyph.advance - ins.last().overlap
    }
}

/// How much the overlap of instruction `i` of `n` shrinks when `slack` is
/// spread over the joins: the first instruction keeps its overlap, every
/// later one gives up an even share, and the remainder of the division goes
/// one unit each to the earliest joins.
pub open spec fn share(slack: int, n: int, i: int) -> int {
    if i <= 0 || n <= 1 {
        0
    } else {
        slack / (n - 1) + if i <= slack % (n - 1) {
            1int
        } else {
            0int
        }
    }
}

/// The shares of the first `m` instructions.
pub open spec fn share_sum(slack: int, n: int, m: int) -> int
    decreases m,
{
    if m <= 0 {
        0
    } else {
        share_sum(slack, n, m - 1) + share(slack, n, m - 1)
    }
}

proof fn lemma_share_sum(slack: int, n: int, m: int)
    requires
        slack >= 0,
        n > 1,
        1 <= m <= n,
    ensures
        share_sum(slack, n, m) == (m - 1) * (slack / (n - 1)) + if m - 1 <= slack % (n - 1) {
            m - 1
        } else {
            slack % (n - 1)
        },
    decreases m,
{
    let q = slack / (n - 1);
    assert(0 <= slack % (n - 1) < n - 1);
    if m == 1 {
        assert(share_sum(slack, n, 0) == 0);
        assert(0 * q == 0);
    } else {
        lemma_share_sum(slack, n, m - 1);
        assert((m - 1) * q == (m - 2) * q + q) by (nonlinear_arith);
    }
}

/// Spreading `slack` over all `n` instructions takes exactly `slack` off
/// their overlaps.
pub(crate) proof fn lemma_shares_total(slack: int, n: int)
    requires
        slack >= 0,
        n > 1,
    ensures
        share_sum(slack, n, n) == slack,
{
    lemma_share_sum(slack, n, n);
    lemma_fundamental_div_mod(slack, n - 1);
}

proof fn lemma_drawn_after_shares(
    before: Seq<GlyphInstruction>,
    after: Seq<GlyphInstruction>,
    slack: int,
    n: int,
)
    requires
        before.len() == after.len(),
        before.len() <= n,
        forall|i: int|
            0 <= i < before.len() ==> (#[trigger] after[i]).glyph == before[i].glyph
                && after[i].overlap == before[i].overlap - share(slack, n, i),
    ensures
        drawn_advance(after) == drawn_advance(before) + share_sum(slack, n, before.len() as int),
    decreases before.len(),
{
    if before.len() > 0 {
        let k = before.len() - 1;
        lemma_drawn_after_shares(before.drop_last(), after.drop_last(), slack, n);
        assert(after[k as int].glyph == before[k as int].glyph);
    }
}

/// Reduces the overlap of every instruction but the first by an even share
/// of `slack`, so that the drawn advance grows by exactly `slack`. A single
/// instruction has no join to stretch and is left as it is.
pub fn fit_to_size(instructions: &mut Vec<GlyphInstruction>, slack: u32)
    requires
        forall|i: int|
            0 <= i < old(instructions)@.len() ==> #[trigger] old(instructions)@[i].overlap
                >= i64::MIN + 0x1_0000_0001,
    ensures
        final(instructions)@.len() == old(instructions)@.len(),
        forall|i: int|
            0 <= i < old(instructions)@.len() ==> (#[trigger] final(instructions)@[i]).glyph
                == old(instructions)@[i].glyph && final(instructions)@[i].overlap
                == old(instructions)@[i].overlap - share(
                slack as int,
                old(instructions)@.len() as int,
                i,
            ),
        old(instructions)@.len() > 1 ==> drawn_advance(final(instructions)@) == drawn_advance(
            old(instructions)@,
        ) + slack,
{
    let n = instructions.len();
    if n <= 1 {
        return ;
    }
    let ghost before = instructions@;
    let joins: u64 = (n - 1) as u64;
    let even: u64 = slack as u64 / joins;
    let rest: u64 = slack as u64 % joins;
    let mut i: usize = 1;
    while i < n
        invariant
            1 <= i <= n,
            n == before.len(),
            n > 1,
            joins == n - 1,
            even == (slack as int) / (n - 1),
            rest == (slack as int) % (n - 1),
            even <= slack,
            instructions@.len() == n,
            forall|k: int|
                0 <= k < n ==> #[trigger] before[k].overlap >= i64::MIN + 0x1_0000_0001,
            forall|k: int|
                0 <= k < i ==> (#[trigger] instructions@[k]).glyph == before[k].glyph
                    && instructions@[k].overlap == before[k].overlap - share(slack as int, n as int, k),
            forall|k: int| i <= k < n ==> #[trigger] instructions@[k] == before[k],
        decreases n - i,
    {
        let cut: u64 = if (i as u64) <= rest {
            even + 1
        } else {
            even
        };
        let mut ins = instructions[i];
        ins.overlap = ins.overlap - cut as i64;
        instructions.set(i, ins);
        i = i + 1;
    }
    proof {
        lemma_drawn_after_shares(before, instructions@, slack as int, n as int);
        lemma_shares_total(slack as int, n as int);
    }
}

} // verus!
