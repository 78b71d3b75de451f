//! Keeping, for each marker, the lattice point nearest to its ray.
//!
//! The caller walks along the ray of a marker, rounds each position to the
//! lattice and measures how far the rounding moved it.  The candidates come
//! in the order in which the ray was walked.

use vstd::prelude::*;
use crate::minimum::{is_first_minimum, first_minimum};

verus! {

/// A candidate position of a marker.
#[derive(Clone, Copy, Debug, PartialEq, Eq, Structural)]
pub struct LatticePoint {
    /// The lattice coordinates.
    pub x: i64,
    pub y: i64,
    /// The angle of the marker's ray, as the bit pattern of a double-precision
    /// number.
    pub angle: u64,
    /// The distance between the position on the ray and the lattice point, as
    /// the bit pattern of a non-negative double-precision number.
    pub delta: u64,
}

/// The deviations of a list of candidates, in order.
pub open spec fn deltas(candidates: Seq<LatticePoint>) -> Seq<u64> {
    Seq::new(candidates.len(), |i: int| candidates[i].delta)
}

/// Keeps the candidate that deviates least, the first of them on a tie.
/// Without candidates no point is kept.
pub fn nearest_point(candidates: &Vec<LatticePoint>) -> (kept: Option<LatticePoint>)
    ensures
        kept is None <==> candidates.len() == 0,
        kept matches Some(point) ==> exists|at: int|
            is_first_minimum(deltas(candidates@), at) && candidates[at] == point,
        kept matches Some(point) ==> forall|i: int|
            0 <= i < candidates.len() ==> point.delta <= (#[trigger] candidates[i]).delta,
{
    let mut scores: Vec<u64> = Vec::new();
    let mut i: usize = 0;
    while i < candidates.len()
        invariant
            i <= candidates.len(),
            scores@ =~= deltas(candidates@).take(i as int),
        decreases candidates.len() - i,
    {
        scores.push(candidates[i].delta);
        i += 1;
    }
    assert(scores@ =~= deltas(candidates@));
    match first_minimum(&scores) {
        Some(at) => {
            assert forall|i: int| 0 <= i < candidates.len() implies candidates[at as int].delta
                <= (#[trigger] candidates[i]).delta by {
                assert(scores[at as int] <= scores[i]);
            }
            Some(candidates[at])
        },
        None => None,
    }
}

/// Keeps one point for every marker.  `scans[k]` holds the candidates of
/// marker `k`.
pub fn solve_lattice(scans: &Vec<Vec<LatticePoint>>) -> (points: Vec<Option<LatticePoint>>)
    ensures
        points.len() == scans.len(),
        forall|k: int|
            0 <= k < scans.len() ==> ((#[trigger] points[k]) is None <==> scans[k].len() == 0),
        forall|k: int|
            0 <= k < scans.len() ==> ((#[trigger] points[k]) matches Some(point) ==> exists|at: int|
                is_first_minimum(deltas(scans[k]@), at) && scans[k][at] == point),
{
    let mut points: Vec<Option<LatticePoint>> = Vec::new();
    let mut k: usize = 0;
    while k < scans.len()
        invariant
            k <= scans.len(),
            points.len() == k,
            forall|m: int| 0 <= m < k ==> ((#[trigger] points[m]) is None <==> scans[m].len() == 0),
            forall|m: int|
                0 <= m < k ==> ((#[trigger] points[m]) matches Some(point) ==> exists|at: int|
                    is_first_minimum(deltas(scans[m]@), at) && scans[m][at] == point),
        decreases scans.len() - k,
    {
        let kept = nearest_point(&scans[k]);
        points.push(kept);
        k += 1;
    }
    points
}

} // verus!
