//! The catalog: records grouped by country and capture year.
//!
//! A group key is the country name with the decimal year appended, no
//! separator. (So two different country/year pairs can collide on one
//! key — a known limitation of the format, kept as it is.) Groups appear
//! in order of first use, and a group holds its records in insertion
//! order. Records without a capture date are skipped.

use vstd::multiset::Multiset;
use vstd::prelude::*;
use vstd::string::StringExecFns;

use crate::records::Photo;

verus! {

/// The decimal digit character for a value below ten.
pub open spec fn digit_char(d: int) -> char
    recommends
        0 <= d < 10,
{
    ((d + 48) as u8) as char
}

/// The decimal representation of a number, most significant digit first,
/// no leading zeros (a lone zero for zero).
pub open spec fn spec_decimal(n: nat) -> Seq<char>
    decreases n,
{
    if n < 10 {
        seq![digit_char(n as int)]
    } else {
        spec_decimal(n / 10).push(digit_char((n % 10) as int))
    }
}

/// The one-character string for a decimal digit.
fn digit_str(d: u8) -> (r: &'static str)
    requires
        d < 10,
    ensures
        r@ =~= seq![digit_char(d as int)],
{
    proof {
        reveal_strlit("0");
        reveal_strlit("1");
        reveal_strlit("2");
        reveal_strlit("3");
        reveal_strlit("4");
        reveal_strlit("5");
        reveal_strlit("6");
        reveal_strlit("7");
        reveal_strlit("8");
        reveal_strlit("9");
    }
    match d {
        0 => "0",
        1 => "1",
        2 => "2",
        3 => "3",
        4 => "4",
        5 => "5",
        6 => "6",
        7 => "7",
        8 => "8",
        _ => "9",
    }
}

/// Formats a year as decimal digits.
pub fn u16_to_string(n: u16) -> (r: String)
    ensures
        r@ =~= spec_decimal(n as nat),
    decreases n,
{
    if n < 10 {
        digit_str(n as u8).to_owned()
    } else {
        let mut prefix = u16_to_string(n / 10);
        prefix.append(digit_str((n % 10) as u8));
        proof {
            assert(prefix@ =~= spec_decimal(n as nat));
        }
        prefix
    }
}

/// The composite group key: country name with the decimal year appended.
pub open spec fn spec_key(name: Seq<char>, year: nat) -> Seq<char> {
    name + spec_decimal(year)
}

/// Builds the composite group key for a country name and a year.
pub fn make_key(name: &str, year: u16) -> (r: String)
    ensures
        r@ =~= spec_key(name@, year as nat),
{
    let mut key = name.to_owned();
    let year_str = u16_to_string(year);
    key.append(year_str.as_str());
    key
}

/// The key a dated record is grouped under.
pub open spec fn spec_photo_key(p: Photo) -> Seq<char>
    recommends
        p.date is Some,
{
    spec_key(p.country.name@, p.date->0.year as nat)
}

/// One catalog group: a composite key and the records under it, in
/// insertion order.
#[derive(Debug)]
pub struct Group {
    pub key: String,
    pub photos: Vec<Photo>,
}

/// The catalog: groups in order of first use, with pairwise distinct keys.
#[derive(Debug)]
pub struct Catalog {
    pub groups: Vec<Group>,
}

/// The mathematical content of one group.
pub open spec fn group_model(g: Group) -> (Seq<char>, Seq<Photo>) {
    (g.key@, g.photos@)
}

/// The mathematical content of a catalog: the key/records pairs in group
/// order.
pub open spec fn cat_model(c: Catalog) -> Seq<(Seq<char>, Seq<Photo>)> {
    c.groups@.map(|i: int, g: Group| group_model(g))
}

/// The index of the group with the given key, or -1 when there is none.
pub open spec fn spec_find_key(m: Seq<(Seq<char>, Seq<Photo>)>, k: Seq<char>) -> int
    decreases m.len(),
{
    if m.len() == 0 {
        -1
    } else if m[0].0 == k {
        0
    } else {
        let rest = spec_find_key(m.drop_first(), k);
        if rest == -1 {
            -1
        } else {
            rest + 1
        }
    }
}

/// Adding one record to the catalog: a dated record is appended to the
/// group holding its key, or opens a new group at the end; an undated
/// record is skipped.
pub open spec fn spec_add(m: Seq<(Seq<char>, Seq<Photo>)>, p: Photo) -> Seq<
    (Seq<char>, Seq<Photo>),
> {
    if p.date is None {
        m
    } else {
        let k = spec_photo_key(p);
        let i = spec_find_key(m, k);
        if i == -1 {
            m.push((k, seq![p]))
        } else {
            m.update(i, (k, m[i].1.push(p)))
        }
    }
}

/// The catalog built from a sequence of records, in order.
pub open spec fn spec_build(records: Seq<Photo>) -> Seq<(Seq<char>, Seq<Photo>)>
    decreases records.len(),
{
    if records.len() == 0 {
        Seq::empty()
    } else {
        spec_add(spec_build(records.drop_last()), records.last())
    }
}

/// `spec_find_key` finds exactly the first index carrying the key.
proof fn lemma_find_key(m: Seq<(Seq<char>, Seq<Photo>)>, k: Seq<char>, i: int)
    requires
        0 <= i <= m.len(),
        forall|j: int| 0 <= j < i ==> (#[trigger] m[j]).0 != k,
        i < m.len() ==> m[i].0 == k,
    ensures
        spec_find_key(m, k) == if i == m.len() {
            -1int
        } else {
            i
        },
    decreases i,
{
    if m.len() == 0 {
    } else if i == 0 {
    } else {
        assert(m[0].0 != k);
        assert(forall|j: int|
            0 <= j < i - 1 ==> (#[trigger] m.drop_first()[j]).0 == m[j + 1].0 && m[j + 1].0 != k);
        lemma_find_key(m.drop_first(), k, i - 1);
    }
}

/// What `spec_find_key` returns means: -1 exactly when no group holds
/// the key, otherwise an in-range index holding it.
proof fn lemma_find_key_props(m: Seq<(Seq<char>, Seq<Photo>)>, k: Seq<char>)
    ensures
        spec_find_key(m, k) == -1 ==> forall|i: int| 0 <= i < m.len() ==> (#[trigger] m[i]).0 != k,
        spec_find_key(m, k) != -1 ==> 0 <= spec_find_key(m, k) < m.len() && m[spec_find_key(
            m,
            k,
        )].0 == k,
    decreases m.len(),
{
    if m.len() > 0 && m[0].0 != k {
        lemma_find_key_props(m.drop_first(), k);
        if spec_find_key(m.drop_first(), k) == -1 {
            assert forall|i: int| 0 <= i < m.len() implies (#[trigger] m[i]).0 != k by {
                if i > 0 {
                    assert(m.drop_first()[i - 1] == m[i]);
                }
            }
        } else {
            assert(m[spec_find_key(m, k)] == m.drop_first()[spec_find_key(m.drop_first(), k)]);
        }
    }
}

/// The catalog invariant: group keys are pairwise distinct, and every
/// record stands in exactly the group of its own key — each group's key
/// is the pure function of its records' country and capture year.
pub open spec fn groups_wf(m: Seq<(Seq<char>, Seq<Photo>)>) -> bool {
    &&& forall|i: int, j: int| 0 <= i < j < m.len() ==> (#[trigger] m[i]).0 != (#[trigger] m[j]).0
    &&& forall|i: int, j: int|
        0 <= i < m.len() && 0 <= j < (#[trigger] m[i]).1.len() ==> (#[trigger] m[i].1[j]).date
            is Some && spec_photo_key(m[i].1[j]) == m[i].0
}

/// Adding one record preserves the catalog invariant.
proof fn lemma_add_wf(m: Seq<(Seq<char>, Seq<Photo>)>, p: Photo)
    requires
        groups_wf(m),
    ensures
        groups_wf(spec_add(m, p)),
{
    if p.date is Some {
        let k = spec_photo_key(p);
        lemma_find_key_props(m, k);
        let idx = spec_find_key(m, k);
        let m2 = spec_add(m, p);
        if idx == -1 {
            assert forall|i: int, j: int|
                0 <= i < m2.len() && 0 <= j < (#[trigger] m2[i]).1.len() implies (
            #[trigger] m2[i].1[j]).date is Some && spec_photo_key(m2[i].1[j]) == m2[i].0 by {
                if i < m.len() {
                    assert(m2[i] == m[i]);
                } else {
                    assert(m2[i].1 =~= seq![p]);
                }
            }
        } else {
            assert forall|i: int, j: int|
                0 <= i < m2.len() && 0 <= j < (#[trigger] m2[i]).1.len() implies (
            #[trigger] m2[i].1[j]).date is Some && spec_photo_key(m2[i].1[j]) == m2[i].0 by {
                if i != idx {
                    assert(m2[i] == m[i]);
                } else {
                    assert(m2[i].1 == m[idx].1.push(p));
                    if j < m[idx].1.len() {
                        assert(m2[i].1[j] == m[idx].1[j]);
                    } else {
                        assert(m2[i].1[j] == p);
                    }
                }
            }
        }
    }
}

/// A built catalog satisfies the catalog invariant: every record appears
/// in the one group named by its own country and capture year, and no two
/// groups share a key.
pub proof fn lemma_build_wf(records: Seq<Photo>)
    ensures
        groups_wf(spec_build(records)),
    decreases records.len(),
{
    if records.len() > 0 {
        lemma_build_wf(records.drop_last());
        lemma_add_wf(spec_build(records.drop_last()), records.last());
    }
}

/// Every photo held by a catalog, over all its groups.
pub open spec fn catalog_contents(m: Seq<(Seq<char>, Seq<Photo>)>) -> Multiset<Photo>
    decreases m.len(),
{
    if m.len() == 0 {
        Multiset::empty()
    } else {
        catalog_contents(m.drop_last()).add(m.last().1.to_multiset())
    }
}

/// The dated records of a batch, as a multiset.
pub open spec fn dated_records(records: Seq<Photo>) -> Multiset<Photo>
    decreases records.len(),
{
    if records.len() == 0 {
        Multiset::empty()
    } else {
        let rest = dated_records(records.drop_last());
        if records.last().date is Some {
            rest.insert(records.last())
        } else {
            rest
        }
    }
}

/// Appending a photo to one group adds exactly that photo to the
/// catalog's contents.
proof fn lemma_contents_update_push(m: Seq<(Seq<char>, Seq<Photo>)>, i: int, p: Photo)
    requires
        0 <= i < m.len(),
    ensures
        catalog_contents(m.update(i, (m[i].0, m[i].1.push(p)))) =~= catalog_contents(m).insert(p),
    decreases m.len(),
{
    broadcast use vstd::seq_lib::group_to_multiset_ensures;

    let m2 = m.update(i, (m[i].0, m[i].1.push(p)));
    if i == m.len() - 1 {
        assert(m2.drop_last() =~= m.drop_last());
        assert(m2.last().1.to_multiset() =~= m.last().1.to_multiset().insert(p));
    } else {
        assert(m2.drop_last() =~= m.drop_last().update(i, (m[i].0, m[i].1.push(p))));
        assert(m.drop_last()[i] == m[i]);
        lemma_contents_update_push(m.drop_last(), i, p);
        assert(m2.last() == m.last());
    }
}

/// Adding one record to the catalog adds exactly that record when it is
/// dated, and nothing otherwise.
proof fn lemma_add_contents(m: Seq<(Seq<char>, Seq<Photo>)>, p: Photo)
    ensures
        catalog_contents(spec_add(m, p)) =~= if p.date is Some {
            catalog_contents(m).insert(p)
        } else {
            catalog_contents(m)
        },
{
    broadcast use vstd::seq_lib::group_to_multiset_ensures;

    if p.date is Some {
        let k = spec_photo_key(p);
        lemma_find_key_props(m, k);
        let idx = spec_find_key(m, k);
        if idx == -1 {
            let m2 = m.push((k, seq![p]));
            assert(m2.drop_last() =~= m);
            assert(seq![p] =~= Seq::empty().push(p));
            assert(seq![p].to_multiset() =~= Multiset::empty().insert(p));
        } else {
            assert((k, m[idx].1.push(p)) == (m[idx].0, m[idx].1.push(p)));
            lemma_contents_update_push(m, idx, p);
        }
    }
}

/// A built catalog holds exactly the dated records of its input batch:
/// each appears as often as it was handed in, and undated records not at
/// all. With the catalog invariant, each dated record stands in the one
/// group named by its country and capture year.
pub proof fn lemma_build_conserves_records(records: Seq<Photo>)
    ensures
        catalog_contents(spec_build(records)) == dated_records(records),
    decreases records.len(),
{
    if records.len() > 0 {
        lemma_build_conserves_records(records.drop_last());
        lemma_add_contents(spec_build(records.drop_last()), records.last());
        assert(catalog_contents(spec_build(records)) =~= dated_records(records));
    } else {
        assert(catalog_contents(spec_build(records)) =~= dated_records(records));
    }
}

impl Catalog {
    /// An empty catalog.
    pub fn new() -> (c: Catalog)
        ensures
            cat_model(c) =~= Seq::<(Seq<char>, Seq<Photo>)>::empty(),
    {
        Catalog { groups: Vec::new() }
    }

    /// Adds one record: appended to the group holding its key, or to a
    /// new group at the end; skipped when it has no capture date.
    pub fn insert(&mut self, p: Photo)
        ensures
            cat_model(*final(self)) == spec_add(cat_model(*old(self)), p),
    {
        let ghost m0 = cat_model(*old(self));
        let ghost pp = p;
        let date_year: u16 = match &p.date {
            Some(d) => d.year,
            None => {
                return ;
            },
        };
        let key = make_key(p.country.name.as_str(), date_year);
        let ghost k = spec_photo_key(pp);
        assert(key@ == k);
        let n = self.groups.len();
        let mut i: usize = 0;
        while i < n
            invariant
                0 <= i <= n,
                n == self.groups.len(),
                key@ == k,
                cat_model(*self) == m0,
                forall|j: int| 0 <= j < i ==> (#[trigger] m0[j]).0 != k,
            ensures
                i <= n,
                cat_model(*self) == m0,
                i < n ==> m0[i as int].0 == k,
                forall|j: int| 0 <= j < i ==> (#[trigger] m0[j]).0 != k,
            decreases n - i,
        {
            if self.groups[i].key == key {
                proof {
                    assert(m0[i as int].0 == self.groups[i as int].key@);
                }
                break ;
            }
            proof {
                assert(m0[i as int].0 == self.groups[i as int].key@);
            }
            i = i + 1;
        }
        if i < n {
            proof {
                assert(m0[i as int].0 == self.groups[i as int].key@);
                assert(m0[i as int].0 == k);
                lemma_find_key(m0, k, i as int);
            }
            let ghost gs0 = self.groups@;
            let mut group = self.groups.remove(i);
            proof {
                assert(group == gs0[i as int]);
            }
            let ghost gmid = group;
            group.photos.push(p);
            proof {
                assert(group.photos@ == gmid.photos@.push(pp));
                assert(group.key@ == k);
            }
            let ghost gfin = group;
            self.groups.insert(i, group);
            proof {
                assert(spec_find_key(m0, k) == i as int);
                let target = m0.update(i as int, (k, m0[i as int].1.push(pp)));
                gs0.remove_ensures(i as int);
                gs0.remove(i as int).insert_ensures(i as int, gfin);
                assert forall|j: int| 0 <= j < gs0.len() implies self.groups@[j] == gs0.update(
                    i as int,
                    gfin,
                )[j] by {
                    if j < i {
                    } else if j == i {
                    } else {
                        assert(self.groups@[j] == gs0.remove(i as int)[j - 1]);
                    }
                }
                assert(self.groups@ =~= gs0.update(i as int, gfin));
                assert forall|j: int| 0 <= j < self.groups@.len() implies cat_model(*self)[j]
                    == target[j] by {
                    assert(cat_model(*self)[j] == group_model(self.groups@[j]));
                    assert(m0[j] == group_model(gs0[j]));
                    if j == i {
                        assert(self.groups@[j] == gfin);
                        assert(gfin.photos@ == gs0[i as int].photos@.push(pp));
                        assert(m0[i as int].1 == gs0[i as int].photos@);
                    } else {
                        assert(self.groups@[j] == gs0[j]);
                        assert(target[j] == m0[j]);
                    }
                }
                assert(cat_model(*self) =~= target);
                assert(cat_model(*self) == spec_add(m0, pp));
            }
        } else {
            proof {
                lemma_find_key(m0, k, n as int);
            }
            let mut photos: Vec<Photo> = Vec::new();
            photos.push(p);
            self.groups.push(Group { key, photos });
            proof {
                assert(cat_model(*self) =~= m0.push((k, seq![pp])));
                assert(cat_model(*self) == spec_add(m0, pp));
            }
        }
    }
}

/// Folds a sequence of records into a catalog grouped by country and
/// capture year.
pub fn build(records: Vec<Photo>) -> (c: Catalog)
    ensures
        cat_model(c) == spec_build(records@),
{
    let ghost orig = records@;
    let mut recs = records;
    let ghost mut done: Seq<Photo> = Seq::empty();
    let mut catalog = Catalog::new();
    proof {
        assert(done =~= orig.take(0));
    }
    while recs.len() > 0
        invariant
            done + recs@ == orig,
            cat_model(catalog) == spec_build(done),
        decreases recs.len(),
    {
        let p = recs.remove(0);
        let ghost pp = p;
        catalog.insert(p);
        proof {
            assert(done.push(pp).drop_last() =~= done);
            assert(done.push(pp).last() == pp);
            done = done.push(pp);
            assert(done + recs@ =~= orig);
        }
    }
    proof {
        assert(done =~= orig);
    }
    catalog
}

} // verus!
