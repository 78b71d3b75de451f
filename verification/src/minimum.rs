//! Finding the smallest of a list of scores, the first one on a tie.

use vstd::prelude::*;

verus! {

/// Whether the score at `at` is the smallest of all and every score before
/// it is larger.
pub open spec fn is_first_minimum(scores: Seq<u64>, at: int) -> bool {
    &&& 0 <= at < scores.len()
    &&& forall|i: int| 0 <= i < scores.len() ==> scores[at] <= scores[i]
    &&& forall|i: int| 0 <= i < at ==> scores[at] < scores[i]
}

/// A list of scores has at most one first minimum.
pub proof fn lemma_first_minimum_unique(scores: Seq<u64>, first: int, second: int)
    requires
        is_first_minimum(scores, first),
        is_first_minimum(scores, second),
    ensures
        first == second,
{
    if first < second {
        assert(scores[second] < scores[first]);
    }
    if second < first {
        assert(scores[first] < scores[second]);
    }
}

/// Every list that holds a score has a first minimum.
pub proof fn lemma_first_minimum_exists(scores: Seq<u64>)
    requires
        scores.len() > 0,
    ensures
        exists|at: int| is_first_minimum(scores, at),
    decreases scores.len(),
{
    if scores.len() == 1 {
        assert(is_first_minimum(scores, 0));
    } else {
        let shorter = scores.drop_last();
        let last = scores.len() - 1;
        lemma_first_minimum_exists(shorter);
        let before = choose|at: int| is_first_minimum(shorter, at);
        assert(forall|i: int| 0 <= i < last ==> shorter[i] == scores[i]);
        if scores[last] < scores[before] {
            assert(is_first_minimum(scores, last));
        } else {
            assert(is_first_minimum(scores, before));
        }
    }
}

/// Scans the scores in order and keeps a position only when its score is
/// strictly smaller than the one kept so far.
pub fn first_minimum(scores: &Vec<u64>) -> (found: Option<usize>)
    ensures
        found is None <==> scores.len() == 0,
        found matches Some(at) ==> is_first_minimum(scores@, at as int),
{
    if scores.len() == 0 {
        return None;
    }
    let mut best: usize = 0;
    let mut i: usize = 1;
    while i < scores.len()
        invariant
            1 <= i <= scores.len(),
            is_first_minimum(scores@.take(i as int), best as int),
        decreases scores.len() - i,
    {
        if scores[i] < scores[best] {
            best = i;
        }
        i += 1;
    }
    assert(scores@.take(i as int) =~= scores@);
    Some(best)
}

} // verus!
