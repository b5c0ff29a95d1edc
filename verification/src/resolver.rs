//! Nearest-country resolution.
//!
//! A query position is resolved against a reference list by a linear scan
//! over squared Euclidean distance in degree space. An entry whose
//! distance is less than *or equal to* the best seen so far replaces it,
//! so on exact ties the last entry in list order wins. That quirk is an
//! observable part of the algorithm and is pinned down here.

use vstd::prelude::*;

use crate::coords::{distance, spec_distance, Location};
use crate::records::{Country, Error};

verus! {

/// The index the scan has settled on after the first `n` entries: the
/// last index among the first `n` whose distance to the query is minimal.
pub open spec fn best_upto(query: Location, refs: Seq<Country>, n: int) -> int
    recommends
        1 <= n <= refs.len(),
    decreases n,
{
    if n <= 1 {
        0
    } else {
        let prev = best_upto(query, refs, n - 1);
        if spec_distance(query, refs[n - 1].location) <= spec_distance(
            query,
            refs[prev].location,
        ) {
            n - 1
        } else {
            prev
        }
    }
}

/// The index of the reference entry a query resolves to.
pub open spec fn spec_best_index(query: Location, refs: Seq<Country>) -> int {
    best_upto(query, refs, refs.len() as int)
}

/// What the scan's result means: the winning index is in range, no entry
/// is strictly closer, and every later entry is strictly farther — on
/// ties, the last minimal entry wins.
pub proof fn lemma_best_index_nearest_last_wins(query: Location, refs: Seq<Country>)
    requires
        refs.len() > 0,
    ensures
        0 <= spec_best_index(query, refs) < refs.len(),
        forall|j: int|
            0 <= j < refs.len() ==> #[trigger] spec_distance(query, refs[j].location)
                >= spec_distance(query, refs[spec_best_index(query, refs)].location),
        forall|j: int|
            spec_best_index(query, refs) < j < refs.len() ==> #[trigger] spec_distance(
                query,
                refs[j].location,
            ) > spec_distance(query, refs[spec_best_index(query, refs)].location),
{
    lemma_best_upto(query, refs, refs.len() as int);
}

/// The same facts for every prefix of the scan, proved by induction on
/// its length.
proof fn lemma_best_upto(query: Location, refs: Seq<Country>, n: int)
    requires
        1 <= n <= refs.len(),
    ensures
        0 <= best_upto(query, refs, n) < n,
        forall|j: int|
            0 <= j < n ==> #[trigger] spec_distance(query, refs[j].location) >= spec_distance(
                query,
                refs[best_upto(query, refs, n)].location,
            ),
        forall|j: int|
            best_upto(query, refs, n) < j < n ==> #[trigger] spec_distance(query, refs[j].location)
                > spec_distance(query, refs[best_upto(query, refs, n)].location),
    decreases n,
{
    if n > 1 {
        lemma_best_upto(query, refs, n - 1);
    }
}

/// Resolves a query position to the name of the nearest reference entry,
/// the last such entry on exact distance ties. An empty reference list is
/// a configuration error.
pub fn resolve(query: &Location, reference: &Vec<Country>) -> (r: Result<String, Error>)
    requires
        query.wf(),
        forall|i: int| 0 <= i < reference.len() ==> (#[trigger] reference[i]).location.wf(),
    ensures
        match r {
            Ok(name) => reference.len() > 0 && name == reference@[spec_best_index(
                *query,
                reference@,
            )].name,
            Err(e) => reference.len() == 0 && e matches Error::ConfigurationError(_),
        },
{
    if reference.len() == 0 {
        return Err(Error::ConfigurationError("empty reference country list".to_owned()));
    }
    let mut best: usize = 0;
    let mut closest: i64 = distance(query, &reference[0].location);
    let mut i: usize = 1;
    while i < reference.len()
        invariant
            1 <= i <= reference.len(),
            query.wf(),
            forall|k: int| 0 <= k < reference.len() ==> (#[trigger] reference[k]).location.wf(),
            best == best_upto(*query, reference@, i as int),
            0 <= best < i,
            closest == spec_distance(*query, reference@[best as int].location),
        decreases reference.len() - i,
    {
        let d: i64 = distance(query, &reference[i].location);
        if d <= closest {
            best = i;
            closest = d;
        }
        i = i + 1;
    }
    Ok(reference[best].name.clone())
}

} // verus!
