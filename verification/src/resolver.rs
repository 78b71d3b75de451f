//! Choosing, for a wanted colour, the stack whose colour lies nearest to it.
//!
//! The caller measures the perceptual distance from the wanted colour to the
//! colour of every entry of the index and hands the distances over in the
//! order of the entries.  A distance is the bit pattern of a non-negative
//! double-precision number.

use vstd::prelude::*;
use crate::combination::Combination;
use crate::index::IndexEntry;
use crate::minimum::{is_first_minimum, first_minimum, lemma_first_minimum_exists};

verus! {

/// The distance one hundred.  Only an entry nearer than this can be chosen.
pub const DISTANCE_CEILING: u64 = 0x4059_0000_0000_0000;

/// Whether the entry at `at` is the one to choose: it is nearer than the
/// ceiling, no entry is nearer, and every entry before it is farther.
pub open spec fn is_best_match(distances: Seq<u64>, at: int) -> bool {
    &&& is_first_minimum(distances, at)
    &&& distances[at] < DISTANCE_CEILING
}

/// An entry at distance zero makes the chosen entry one at distance zero.
pub proof fn lemma_exact_match_wins(distances: Seq<u64>, exact: int)
    requires
        0 <= exact < distances.len(),
        distances[exact] == 0,
    ensures
        exists|at: int| is_best_match(distances, at),
        forall|at: int| is_best_match(distances, at) ==> distances[at] == 0 && at <= exact,
{
    lemma_first_minimum_exists(distances);
    let at = choose|at: int| is_first_minimum(distances, at);
    assert(distances[at] <= distances[exact]);
    assert(is_best_match(distances, at));
    assert forall|at: int| is_best_match(distances, at) implies distances[at] == 0 && at
        <= exact by {
        assert(distances[at] <= distances[exact]);
    }
}

/// Whether some entry is nearer than the ceiling.
pub open spec fn has_match(distances: Seq<u64>) -> bool {
    exists|i: int| 0 <= i < distances.len() && distances[i] < DISTANCE_CEILING
}

/// Whether `combination` is the stack of the entry to choose.
pub open spec fn is_resolved(
    entries: Seq<IndexEntry>,
    distances: Seq<u64>,
    combination: Combination,
) -> bool {
    exists|at: int| is_best_match(distances, at) && entries[at].combination == combination
}

/// Finds the position of the entry to choose.
pub fn best_match(distances: &Vec<u64>) -> (found: Option<usize>)
    ensures
        found is Some <==> has_match(distances@),
        found matches Some(at) ==> is_best_match(distances@, at as int),
{
    match first_minimum(distances) {
        Some(at) => {
            if distances[at] < DISTANCE_CEILING {
                Some(at)
            } else {
                None
            }
        },
        None => None,
    }
}

/// Chooses the stack for one wanted colour.
pub fn resolve(entries: &Vec<IndexEntry>, distances: &Vec<u64>) -> (found: Option<Combination>)
    requires
        distances.len() == entries.len(),
    ensures
        found is Some <==> has_match(distances@),
        found matches Some(combination) ==> is_resolved(entries@, distances@, combination),
{
    match best_match(distances) {
        Some(at) => Some(entries[at].combination),
        None => None,
    }
}

/// Chooses a stack for every marker.  `distances[k]` holds the distances from
/// the colour wanted at marker `k` to the entries.
pub fn assign_markers(entries: &Vec<IndexEntry>, distances: &Vec<Vec<u64>>) -> (assigned: Option<
    Vec<Combination>,
>)
    requires
        forall|k: int| 0 <= k < distances.len() ==> (#[trigger] distances[k]).len() == entries.len(),
    ensures
        assigned is Some <==> forall|k: int|
            0 <= k < distances.len() ==> has_match((#[trigger] distances[k])@),
        assigned matches Some(stacks) ==> stacks.len() == distances.len() && forall|k: int|
            0 <= k < distances.len() ==> is_resolved(
                entries@,
                (#[trigger] distances[k])@,
                stacks[k],
            ),
{
    let mut stacks: Vec<Combination> = Vec::new();
    let mut k: usize = 0;
    while k < distances.len()
        invariant
            k <= distances.len(),
            stacks.len() == k,
            forall|m: int|
                0 <= m < distances.len() ==> (#[trigger] distances[m]).len() == entries.len(),
            forall|m: int| 0 <= m < k ==> has_match((#[trigger] distances[m])@),
            forall|m: int|
                0 <= m < k ==> is_resolved(entries@, (#[trigger] distances[m])@, stacks[m]),
        decreases distances.len() - k,
    {
        match resolve(entries, &distances[k]) {
            Some(combination) => {
                stacks.push(combination);
            },
            None => {
                return None;
            },
        }
        k += 1;
    }
    Some(stacks)
}

} // verus!
