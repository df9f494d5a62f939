//! The catalog query composer.
//!
//! A [`Catalog`] is an identifier-ordered snapshot of the catalog rows. Its
//! [`search`](Catalog::search) answers a filtered listing query: the entries
//! that pass every present filter, ordered by ascending identifier, capped at
//! [`SEARCH_CAP`](crate::SEARCH_CAP), each reduced to identifier and name.
//! Its [`fetch_detail`](Catalog::fetch_detail) is the point lookup behind the
//! detail view: the full record of one identifier, with the description
//! defaulted and each tag collection deduplicated, or a distinct "not found"
//! answer.

use crate::catalog::{entry_matches, entry_matches_exec, CatalogEntry, FilterCriteria, Subspecies};
use crate::SEARCH_CAP;
use vstd::prelude::*;

verus! {

/// A listing row: just the identifier and the display name.
#[derive(Debug)]
pub struct StrainSummary {
    pub id: u64,
    pub name: String,
}

/// The listing row of one entry.
pub open spec fn summary_of(e: CatalogEntry) -> StrainSummary {
    StrainSummary { id: e.id, name: e.name }
}

/// The identifiers strictly increase along the sequence; in particular no
/// identifier repeats.
pub open spec fn ids_strictly_ascending(s: Seq<CatalogEntry>) -> bool {
    forall|i: int, j: int|
        0 <= i < j < s.len() ==> #[trigger] s[i].id < #[trigger] s[j].id
}

/// A well-formed catalog snapshot: ordered by strictly ascending identifier,
/// every display name non-empty.
pub open spec fn catalog_wf(s: Seq<CatalogEntry>) -> bool {
    &&& ids_strictly_ascending(s)
    &&& forall|i: int| 0 <= i < s.len() ==> (#[trigger] s[i]).name@.len() > 0
}

/// The subsequence of entries that pass every filter of the request, in
/// catalog order.
pub open spec fn matching(s: Seq<CatalogEntry>, c: FilterCriteria) -> Seq<CatalogEntry> {
    s.filter(|e: CatalogEntry| entry_matches(e, c))
}

/// The first `n` elements, or all of them when fewer.
pub open spec fn capped<A>(s: Seq<A>, n: int) -> Seq<A> {
    if s.len() <= n {
        s
    } else {
        s.subrange(0, n)
    }
}

/// What a search returns: the matching entries in catalog order, capped, as
/// listing rows.
pub open spec fn search_results(s: Seq<CatalogEntry>, c: FilterCriteria) -> Seq<StrainSummary> {
    capped(matching(s, c), SEARCH_CAP as int).map_values(|e: CatalogEntry| summary_of(e))
}

/// The sequence with every repeated value dropped: each value keeps its
/// first occurrence only, in order.
pub open spec fn dedup_views(s: Seq<Seq<char>>) -> Seq<Seq<char>>
    decreases s.len(),
{
    if s.len() == 0 {
        Seq::empty()
    } else {
        let rest = dedup_views(s.drop_last());
        if rest.contains(s.last()) {
            rest
        } else {
            rest.push(s.last())
        }
    }
}

/// Deduplication never invents or loses a value.
pub proof fn lemma_dedup_same_members(s: Seq<Seq<char>>)
    ensures
        forall|x: Seq<char>| #[trigger] dedup_views(s).contains(x) <==> s.contains(x),
    decreases s.len(),
{
    if s.len() > 0 {
        lemma_dedup_same_members(s.drop_last());
        assert forall|x: Seq<char>| s.contains(x) implies #[trigger] dedup_views(s).contains(
            x,
        ) by {
            let k = choose|k: int| 0 <= k < s.len() && s[k] == x;
            if k < s.len() - 1 {
                assert(s.drop_last()[k] == x);
                assert(dedup_views(s.drop_last()).contains(x));
                let j = choose|j: int|
                    0 <= j < dedup_views(s.drop_last()).len() && dedup_views(s.drop_last())[j]
                        == x;
                assert(dedup_views(s)[j] == x);
            } else {
                if !dedup_views(s.drop_last()).contains(x) {
                    assert(dedup_views(s).last() == x);
                }
            }
        }
        assert forall|x: Seq<char>| #[trigger] dedup_views(s).contains(x) implies s.contains(
            x,
        ) by {
            if dedup_views(s.drop_last()).contains(x) {
                let j = choose|j: int| 0 <= j < s.drop_last().len() && s.drop_last()[j] == x;
                assert(s[j] == x);
            } else {
                assert(s[s.len() - 1] == x);
            }
        }
    }
}

/// The deduplicated sequence holds no value twice.
pub proof fn lemma_dedup_no_repeats(s: Seq<Seq<char>>)
    ensures
        forall|i: int, j: int|
            0 <= i < j < dedup_views(s).len() ==> #[trigger] dedup_views(s)[i] != #[trigger] dedup_views(s)[j],
    decreases s.len(),
{
    if s.len() > 0 {
        lemma_dedup_no_repeats(s.drop_last());
        let rest = dedup_views(s.drop_last());
        if !rest.contains(s.last()) {
            assert forall|i: int, j: int|
                0 <= i < j < dedup_views(s).len() implies #[trigger] dedup_views(s)[i]
                != #[trigger] dedup_views(s)[j] by {
                if j < dedup_views(s).len() - 1 {
                    assert(rest[i] != rest[j]);
                } else {
                    assert(dedup_views(s)[i] == rest[i]);
                    assert(rest.contains(rest[i]));
                }
            }
        }
    }
}

/// A copy of an optional string with the same characters.
fn clone_opt_string(o: &Option<String>) -> (r: Option<String>)
    ensures
        r.deep_view() == o.deep_view(),
{
    match o {
        Some(s) => Some(s.clone()),
        None => None,
    }
}

/// Is some element of `v` the same character sequence as `x`.
fn vec_contains_str(v: &Vec<String>, x: &String) -> (r: bool)
    ensures
        r == v.deep_view().contains(x@),
{
    let mut i: usize = 0;
    while i < v.len()
        invariant
            0 <= i <= v.len(),
            forall|j: int| 0 <= j < i ==> v.deep_view()[j] != x@,
        decreases v.len() - i,
    {
        if v[i] == *x {
            assert(v.deep_view()[i as int] == x@);
            return true;
        }
        i += 1;
    }
    assert forall|j: int| 0 <= j < v.deep_view().len() implies v.deep_view()[j] != x@ by {}
    false
}

/// A copy of the tag collection with every repeated value dropped, first
/// occurrences kept in order.
fn dedup_tags(v: &Vec<String>) -> (r: Vec<String>)
    ensures
        r.deep_view() == dedup_views(v.deep_view()),
{
    let mut out: Vec<String> = Vec::new();
    let mut i: usize = 0;
    assert(v.deep_view().subrange(0, 0) =~= Seq::<Seq<char>>::empty());
    assert(out.deep_view() =~= dedup_views(v.deep_view().subrange(0, 0)));
    while i < v.len()
        invariant
            0 <= i <= v.len(),
            out.deep_view() == dedup_views(v.deep_view().subrange(0, i as int)),
        decreases v.len() - i,
    {
        let ghost prefix = v.deep_view().subrange(0, i as int);
        let ghost prefix2 = v.deep_view().subrange(0, i as int + 1);
        proof {
            assert(prefix2.drop_last() =~= prefix);
            assert(prefix2.last() == v.deep_view()[i as int]);
        }
        let present = vec_contains_str(&out, &v[i]);
        if !present {
            let item = v[i].clone();
            out.push(item);
            assert(out.deep_view() =~= dedup_views(prefix).push(v.deep_view()[i as int]));
        }
        i += 1;
    }
    assert(v.deep_view().subrange(0, v.len() as int) =~= v.deep_view());
    out
}

/// What the description of a detail card shows: the stored text, or the
/// fixed placeholder when none is stored.
pub open spec fn description_or_default(d: Option<String>) -> Seq<char> {
    match d {
        Some(t) => t@,
        None => "No description available"@,
    }
}

/// The full record behind a detail view: one entry with its description
/// defaulted and each tag collection deduplicated.
#[derive(Debug)]
pub struct StrainDetail {
    pub id: u64,
    pub name: String,
    pub description: String,
    pub subspecies: Option<Subspecies>,
    pub image_url: Option<String>,
    pub positive_effects: Vec<String>,
    pub negative_effects: Vec<String>,
    pub flavors: Vec<String>,
    pub ailments: Vec<String>,
}

/// Does the detail card show exactly this entry.
pub open spec fn detail_of(d: StrainDetail, e: CatalogEntry) -> bool {
    &&& d.id == e.id
    &&& d.name@ == e.name@
    &&& d.description@ == description_or_default(e.description)
    &&& d.subspecies == e.subspecies
    &&& d.image_url.deep_view() == e.image_url.deep_view()
    &&& d.positive_effects.deep_view() == dedup_views(e.positive_effects.deep_view())
    &&& d.negative_effects.deep_view() == dedup_views(e.negative_effects.deep_view())
    &&& d.flavors.deep_view() == dedup_views(e.flavors.deep_view())
    &&& d.ailments.deep_view() == dedup_views(e.ailments.deep_view())
}

/// An identifier-ordered snapshot of the catalog.
#[derive(Debug)]
pub struct Catalog {
    entries: Vec<CatalogEntry>,
}

impl View for Catalog {
    type V = Seq<CatalogEntry>;

    closed spec fn view(&self) -> Seq<CatalogEntry> {
        self.entries@
    }
}

impl Catalog {
    /// The snapshot is well-formed; every method of the catalog keeps it so.
    pub open spec fn wf(&self) -> bool {
        catalog_wf(self@)
    }

    /// Builds a catalog from rows already ordered by strictly ascending
    /// identifier with non-empty names, and refuses anything else.
    pub fn from_entries(entries: Vec<CatalogEntry>) -> (r: Option<Catalog>)
        ensures
            match r {
                Some(cat) => cat@ == entries@ && catalog_wf(entries@),
                None => !catalog_wf(entries@),
            },
    {
        let n = entries.len();
        let mut i: usize = 0;
        while i < n
            invariant
                0 <= i <= n,
                n == entries@.len(),
                forall|p: int, q: int|
                    0 <= p < q < i ==> #[trigger] entries@[p].id < #[trigger] entries@[q].id,
                forall|p: int| 0 <= p < i ==> (#[trigger] entries@[p]).name@.len() > 0,
            decreases n - i,
        {
            if entries[i].name.as_str().unicode_len() == 0 {
                return None;
            }
            if i > 0 && entries[i - 1].id >= entries[i].id {
                return None;
            }
            let ghost cur = entries@[i as int];
            assert forall|p: int| 0 <= p < i implies #[trigger] entries@[p].id < cur.id by {
                if p < i - 1 {
                    assert(entries@[p].id < entries@[i - 1].id);
                }
            }
            i += 1;
        }
        Some(Catalog { entries })
    }

    /// How many entries the snapshot holds.
    pub fn len(&self) -> (r: usize)
        ensures
            r == self@.len(),
    {
        self.entries.len()
    }

    /// The entry at one position of the snapshot.
    pub fn get(&self, i: usize) -> (r: &CatalogEntry)
        requires
            i < self@.len(),
        ensures
            *r == self@[i as int],
    {
        &self.entries[i]
    }

    /// Answers a filtered listing query: the entries passing every present
    /// filter, in ascending-identifier order, capped at `SEARCH_CAP`, as
    /// listing rows. The cap is silent: nothing marks that more matched.
    pub fn search(&self, c: &FilterCriteria) -> (r: Vec<StrainSummary>)
        ensures
            r@ == search_results(self@, *c),
            r@.len() == capped(matching(self@, *c), SEARCH_CAP as int).len(),
    {
        let ghost pred = |e: CatalogEntry| entry_matches(e, *c);
        let mut out: Vec<StrainSummary> = Vec::new();
        let n = self.entries.len();
        let mut i: usize = 0;
        proof {
            reveal(Seq::filter);
            assert(self.entries@.subrange(0, 0) =~= Seq::<CatalogEntry>::empty());
            assert(matching(Seq::<CatalogEntry>::empty(), *c) =~= Seq::<CatalogEntry>::empty());
        }
        while i < n
            invariant
                0 <= i <= n,
                n == self.entries@.len(),
                out@ == search_results(self.entries@.subrange(0, i as int), *c),
            decreases n - i,
        {
            let ghost prefix = self.entries@.subrange(0, i as int);
            let ghost prefix2 = self.entries@.subrange(0, i as int + 1);
            let ghost m0 = matching(prefix, *c);
            let ghost m1 = matching(prefix2, *c);
            let e = &self.entries[i];
            proof {
                reveal(Seq::filter);
                assert(prefix2.drop_last() =~= prefix);
                assert(prefix2.last() == self.entries@[i as int]);
                if entry_matches(self.entries@[i as int], *c) {
                    assert(m1 == m0.push(self.entries@[i as int]));
                } else {
                    assert(m1 =~= m0);
                }
                prefix.lemma_filter_len(pred);
            }
            if entry_matches_exec(e, c) {
                if out.len() < SEARCH_CAP {
                    proof {
                        assert(m0.len() == out@.len());
                        assert(capped(m1, SEARCH_CAP as int) == m1);
                        assert(m1.map_values(|x: CatalogEntry| summary_of(x)) =~= m0.map_values(
                            |x: CatalogEntry| summary_of(x),
                        ).push(summary_of(self.entries@[i as int])));
                    }
                    let name = e.name.clone();
                    out.push(StrainSummary { id: e.id, name });
                } else {
                    proof {
                        assert(m0.len() >= SEARCH_CAP);
                        assert(capped(m1, SEARCH_CAP as int) =~= capped(m0, SEARCH_CAP as int));
                    }
                }
            }
            i += 1;
        }
        assert(self.entries@.subrange(0, n as int) =~= self.entries@);
        out
    }

    /// The point lookup behind the detail view: the full record of the entry
    /// with this identifier — description defaulted, tag collections
    /// deduplicated — or `None` when no entry has it.
    pub fn fetch_detail(&self, id: u64) -> (r: Option<StrainDetail>)
        ensures
            match r {
                Some(d) => exists|k: int|
                    0 <= k < self@.len() && (#[trigger] self@[k]).id == id && detail_of(d, self@[k]),
                None => forall|k: int| 0 <= k < self@.len() ==> (#[trigger] self@[k]).id != id,
            },
    {
        let n = self.entries.len();
        let mut i: usize = 0;
        while i < n
            invariant
                0 <= i <= n,
                n == self.entries@.len(),
                forall|k: int| 0 <= k < i ==> (#[trigger] self.entries@[k]).id != id,
            decreases n - i,
        {
            let e = &self.entries[i];
            if e.id == id {
                let description = match &e.description {
                    Some(t) => t.clone(),
                    None => String::from_str("No description available"),
                };
                let d = StrainDetail {
                    id: e.id,
                    name: e.name.clone(),
                    description,
                    subspecies: e.subspecies,
                    image_url: clone_opt_string(&e.image_url),
                    positive_effects: dedup_tags(&e.positive_effects),
                    negative_effects: dedup_tags(&e.negative_effects),
                    flavors: dedup_tags(&e.flavors),
                    ailments: dedup_tags(&e.ailments),
                };
                assert(self@[i as int].id == id && detail_of(d, self@[i as int]));
                return Some(d);
            }
            i += 1;
        }
        None
    }
}

/// A filter keeps the strictly ascending identifier order.
proof fn lemma_filter_keeps_ascending(s: Seq<CatalogEntry>, pred: spec_fn(CatalogEntry) -> bool)
    requires
        ids_strictly_ascending(s),
    ensures
        ids_strictly_ascending(s.filter(pred)),
    decreases s.len(),
{
    reveal(Seq::filter);
    if s.len() > 0 {
        let dl = s.drop_last();
        assert(ids_strictly_ascending(dl));
        lemma_filter_keeps_ascending(dl, pred);
        let fdl = dl.filter(pred);
        if pred(s.last()) {
            assert forall|k: int| 0 <= k < fdl.len() implies (#[trigger] fdl[k]).id < s.last().id by {
                assert(fdl.contains(fdl[k]));
                dl.lemma_filter_contains_rev(pred, fdl[k]);
                let j = choose|j: int| 0 <= j < dl.len() && dl[j] == fdl[k];
                assert(s[j] == fdl[k]);
                assert(s[j].id < s[s.len() - 1].id);
            }
            assert(s.filter(pred) == fdl.push(s.last()));
        } else {
            assert(s.filter(pred) == fdl);
        }
    }
}

/// Law: on a well-formed catalog a search's rows come in strictly ascending
/// identifier order; in particular no entry is listed twice, however many of
/// its tags match the applied filters.
pub proof fn lemma_search_ordered_and_distinct(s: Seq<CatalogEntry>, c: FilterCriteria)
    requires
        catalog_wf(s),
    ensures
        forall|i: int, j: int|
            0 <= i < j < search_results(s, c).len() ==> #[trigger] search_results(s, c)[i].id
                < #[trigger] search_results(s, c)[j].id,
{
    lemma_filter_keeps_ascending(s, |e: CatalogEntry| entry_matches(e, c));
    let m = matching(s, c);
    let cap = capped(m, SEARCH_CAP as int);
    assert forall|i: int, j: int|
        0 <= i < j < search_results(s, c).len() implies #[trigger] search_results(s, c)[i].id
        < #[trigger] search_results(s, c)[j].id by {
        assert(cap[i] == m[i] && cap[j] == m[j]);
        assert(m[i].id < m[j].id);
        assert(search_results(s, c)[i] == summary_of(cap[i]));
        assert(search_results(s, c)[j] == summary_of(cap[j]));
    }
}

/// Law: the cap is exact. A filter matching more than `SEARCH_CAP` entries
/// returns exactly `SEARCH_CAP` rows — the first that many in identifier
/// order — and one matching fewer returns one row per matching entry.
pub proof fn lemma_search_cap(s: Seq<CatalogEntry>, c: FilterCriteria)
    ensures
        matching(s, c).len() > SEARCH_CAP ==> search_results(s, c).len() == SEARCH_CAP,
        matching(s, c).len() <= SEARCH_CAP ==> search_results(s, c).len() == matching(s, c).len(),
        forall|i: int|
            0 <= i < search_results(s, c).len() ==> #[trigger] search_results(s, c)[i]
                == summary_of(matching(s, c)[i]),
{
}

} // verus!
