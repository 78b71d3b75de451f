//! The markers as a closed ring, and the colours of neighbouring markers.

use vstd::prelude::*;
use crate::palette::Rgb;
use crate::combination::{Combination, stack_color};

verus! {

/// The marker before `marker` on a ring of `total` markers.  The marker
/// before the first is the last.
pub open spec fn predecessor(marker: int, total: int) -> int {
    if marker == 0 {
        total - 1
    } else {
        marker - 1
    }
}

/// The colours of a marker and of the marker before it.
#[derive(Clone, Copy, Debug, PartialEq, Eq, Structural)]
pub struct Neighbors {
    pub color: Rgb,
    pub previous: Rgb,
}

/// Going once around the ring by predecessors visits every marker: each
/// marker is the predecessor of exactly one marker.
pub proof fn lemma_ring_closed(marker: int, total: int)
    requires
        0 <= marker < total,
    ensures
        0 <= predecessor(marker, total) < total,
        predecessor((marker + 1) % total, total) == marker,
        total == 1 ==> predecessor(marker, total) == marker,
{
    if marker + 1 < total {
        assert((marker + 1) % total == marker + 1) by (nonlinear_arith)
            requires
                0 <= marker + 1 < total,
        ;
    } else {
        assert((marker + 1) % total == 0) by (nonlinear_arith)
            requires
                marker + 1 == total,
                total > 0,
        ;
    }
}

/// Finds the marker before `marker` on a ring of `total` markers.
pub fn ring_predecessor(marker: usize, total: usize) -> (before: usize)
    requires
        marker < total,
    ensures
        before == predecessor(marker as int, total as int),
        before < total,
{
    if marker == 0 {
        total - 1
    } else {
        marker - 1
    }
}

/// Blends the stack of every marker and pairs its colour with the colour of
/// the marker before it.
pub fn neighbor_colors(stacks: &Vec<Combination>) -> (pairs: Vec<Neighbors>)
    ensures
        pairs.len() == stacks.len(),
        forall|k: int|
            0 <= k < stacks.len() ==> (#[trigger] pairs[k]).color == stack_color(stacks[k]@)
                && pairs[k].previous == stack_color(
                stacks[predecessor(k, stacks.len() as int)]@,
            ),
        stacks.len() == 1 ==> pairs[0].color == pairs[0].previous,
{
    let total = stacks.len();
    let mut pairs: Vec<Neighbors> = Vec::new();
    let mut k: usize = 0;
    while k < total
        invariant
            total == stacks.len(),
            k <= total,
            pairs.len() == k,
            forall|m: int|
                0 <= m < k ==> (#[trigger] pairs[m]).color == stack_color(stacks[m]@)
                    && pairs[m].previous == stack_color(stacks[predecessor(m, total as int)]@),
        decreases total - k,
    {
        let before = ring_predecessor(k, total);
        let color = stacks[k].color();
        let previous = stacks[before].color();
        pairs.push(Neighbors { color, previous });
        k += 1;
    }
    pairs
}

} // verus!
