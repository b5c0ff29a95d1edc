//! The full pass over a batch of extracted records: resolve each located
//! record to its nearest country, drop the unlocated ones, and group what
//! remains into a catalog.

use vstd::prelude::*;

use crate::catalog::{build, cat_model, spec_build, Catalog};
use crate::records::{Country, Error, Photo, PhotoPartial};
use crate::resolver::{resolve, spec_best_index};

verus! {

/// The finished record a partial record becomes: its position resolved to
/// the nearest reference entry, or nothing when it has no position.
pub open spec fn spec_finish(p: PhotoPartial, refs: Seq<Country>) -> Option<Photo>
    recommends
        refs.len() > 0,
{
    match p.location {
        None => None,
        Some(loc) => Some(
            Photo {
                path: p.path,
                date: p.date,
                width: p.width,
                height: p.height,
                country: Country {
                    name: refs[spec_best_index(loc, refs)].name,
                    location: loc,
                },
            },
        ),
    }
}

/// Resolves one partial record against the reference list. A record
/// without a position finishes as `Ok(None)` and is never an error; an
/// empty reference list is a configuration error for any located record.
pub fn finish(p: PhotoPartial, reference: &Vec<Country>) -> (r: Result<Option<Photo>, Error>)
    requires
        p.wf(),
        forall|i: int| 0 <= i < reference.len() ==> (#[trigger] reference[i]).location.wf(),
    ensures
        match r {
            Ok(opt) => (p.location is Some ==> reference.len() > 0) && opt == spec_finish(
                p,
                reference@,
            ),
            Err(e) => reference.len() == 0 && p.location is Some && e
                matches Error::ConfigurationError(_),
        },
{
    match p.location {
        None => Ok(None),
        Some(loc) => match resolve(&loc, reference) {
            Ok(name) => Ok(
                Some(
                    Photo {
                        path: p.path,
                        date: p.date,
                        width: p.width,
                        height: p.height,
                        country: Country { name, location: loc },
                    },
                ),
            ),
            Err(e) => Err(e),
        },
    }
}

/// The finished records of a batch, in order, the unlocated ones left
/// out.
pub open spec fn spec_located(s: Seq<PhotoPartial>, refs: Seq<Country>) -> Seq<Photo>
    decreases s.len(),
{
    if s.len() == 0 {
        Seq::empty()
    } else {
        let rest = spec_located(s.drop_last(), refs);
        match spec_finish(s.last(), refs) {
            Some(p) => rest.push(p),
            None => rest,
        }
    }
}

/// A record with no position contributes nothing to the batch: the
/// finished records are those of the batch without it. Together with the
/// extractor's contract — no GPS tags give a record with its position
/// unset — an untagged photo is excluded from the catalog without
/// disturbing the rest.
pub proof fn lemma_unlocated_excluded(s: Seq<PhotoPartial>, refs: Seq<Country>, i: int)
    requires
        0 <= i < s.len(),
        s[i].location is None,
    ensures
        spec_located(s, refs) == spec_located(s.remove(i), refs),
    decreases s.len(),
{
    if i == s.len() - 1 {
        assert(s.remove(i) =~= s.drop_last());
    } else {
        assert(s.drop_last()[i] == s[i]);
        lemma_unlocated_excluded(s.drop_last(), refs, i);
        assert(s.remove(i).drop_last() =~= s.drop_last().remove(i));
        assert(s.remove(i).last() == s.last());
    }
}

/// Runs the whole batch: an empty reference list is a configuration
/// error, fatal up front; otherwise every located record is resolved,
/// unlocated ones are dropped, and the results are grouped by country
/// and capture year.
pub fn process(partials: Vec<PhotoPartial>, reference: &Vec<Country>) -> (r: Result<
    Catalog,
    Error,
>)
    requires
        forall|i: int| 0 <= i < partials.len() ==> (#[trigger] partials[i]).wf(),
        forall|i: int| 0 <= i < reference.len() ==> (#[trigger] reference[i]).location.wf(),
    ensures
        match r {
            Ok(c) => reference.len() > 0 && cat_model(c) == spec_build(
                spec_located(partials@, reference@),
            ),
            Err(e) => reference.len() == 0 && e matches Error::ConfigurationError(_),
        },
{
    if reference.len() == 0 {
        return Err(Error::ConfigurationError("empty reference country list".to_owned()));
    }
    let ghost orig = partials@;
    let mut recs = partials;
    let ghost mut done: Seq<PhotoPartial> = Seq::empty();
    let mut photos: Vec<Photo> = Vec::new();
    while recs.len() > 0
        invariant
            done + recs@ == orig,
            photos@ == spec_located(done, reference@),
            reference.len() > 0,
            forall|i: int| 0 <= i < orig.len() ==> (#[trigger] orig[i]).wf(),
            forall|i: int| 0 <= i < recs.len() ==> (#[trigger] recs[i]).wf(),
            forall|i: int| 0 <= i < reference.len() ==> (#[trigger] reference[i]).location.wf(),
        decreases recs.len(),
    {
        let part = recs.remove(0);
        let ghost partp = part;
        match finish(part, reference) {
            Ok(Some(photo)) => { photos.push(photo) },
            Ok(None) => {},
            Err(e) => {
                return Err(e);
            },
        }
        proof {
            assert(done.push(partp).drop_last() =~= done);
            assert(done.push(partp).last() == partp);
            done = done.push(partp);
            assert(done + recs@ =~= orig);
        }
    }
    proof {
        assert(done =~= orig);
    }
    Ok(build(photos))
}

} // verus!
