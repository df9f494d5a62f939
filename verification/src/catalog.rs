//! The catalog's data model and filter semantics.
//!
//! A [`CatalogEntry`] is one row of the searchable catalog: an identifier, a
//! display name, an optional description, an optional subspecies, an optional
//! image reference, and four unordered collections of tags (positive effects,
//! negative effects, flavors, ailments). A [`FilterCriteria`] is one request's
//! worth of optional filters; a field left `None` imposes no constraint at
//! all, while a present field keeps exactly the entries it matches.

use crate::text::{contains_ci, contains_fold, eq_ci, eq_fold, str_eq};
use vstd::prelude::*;

verus! {

/// The closed set of category labels a catalog entry can carry.
#[derive(Clone, Copy, PartialEq, Eq, Structural, Debug)]
pub enum Subspecies {
    Hybrid,
    Indica,
    Sativa,
    Ruderalis,
}

impl Subspecies {
    /// The human-readable label of this category.
    pub open spec fn spec_label(self) -> Seq<char> {
        match self {
            Subspecies::Hybrid => "Hybrid"@,
            Subspecies::Indica => "Indica"@,
            Subspecies::Sativa => "Sativa"@,
            Subspecies::Ruderalis => "Ruderalis"@,
        }
    }

    /// The human-readable label of this category.
    pub fn label(&self) -> (r: &'static str)
        ensures
            r@ == self.spec_label(),
    {
        match self {
            Subspecies::Hybrid => "Hybrid",
            Subspecies::Indica => "Indica",
            Subspecies::Sativa => "Sativa",
            Subspecies::Ruderalis => "Ruderalis",
        }
    }

    /// The lowercase name under which the relational store writes this
    /// category.
    pub open spec fn spec_store_name(self) -> Seq<char> {
        match self {
            Subspecies::Hybrid => "hybrid"@,
            Subspecies::Indica => "indica"@,
            Subspecies::Sativa => "sativa"@,
            Subspecies::Ruderalis => "ruderalis"@,
        }
    }

    /// The lowercase name under which the relational store writes this
    /// category.
    pub fn store_name(&self) -> (r: &'static str)
        ensures
            r@ == self.spec_store_name(),
    {
        match self {
            Subspecies::Hybrid => "hybrid",
            Subspecies::Indica => "indica",
            Subspecies::Sativa => "sativa",
            Subspecies::Ruderalis => "ruderalis",
        }
    }

    /// Which category a stored name denotes; an unknown name denotes none.
    pub open spec fn spec_from_store(s: Seq<char>) -> Option<Subspecies> {
        if s == "hybrid"@ {
            Some(Subspecies::Hybrid)
        } else if s == "indica"@ {
            Some(Subspecies::Indica)
        } else if s == "sativa"@ {
            Some(Subspecies::Sativa)
        } else if s == "ruderalis"@ {
            Some(Subspecies::Ruderalis)
        } else {
            None
        }
    }

    /// Reads a category from the store's representation, rejecting unknown
    /// values at the boundary.
    pub fn from_store(s: &str) -> (r: Option<Subspecies>)
        ensures
            r == Self::spec_from_store(s@),
    {
        if str_eq(s, "hybrid") {
            Some(Subspecies::Hybrid)
        } else if str_eq(s, "indica") {
            Some(Subspecies::Indica)
        } else if str_eq(s, "sativa") {
            Some(Subspecies::Sativa)
        } else if str_eq(s, "ruderalis") {
            Some(Subspecies::Ruderalis)
        } else {
            None
        }
    }
}

/// One of the three tag dimensions an entry carries and a filter can
/// constrain.
#[derive(Clone, Copy, PartialEq, Eq, Structural, Debug)]
pub enum TagDim {
    Flavor,
    Effect,
    Ailment,
}

/// One row of the searchable catalog.
#[derive(Debug)]
pub struct CatalogEntry {
    pub id: u64,
    pub name: String,
    pub description: Option<String>,
    pub subspecies: Option<Subspecies>,
    pub image_url: Option<String>,
    pub positive_effects: Vec<String>,
    pub negative_effects: Vec<String>,
    pub flavors: Vec<String>,
    pub ailments: Vec<String>,
}

/// The tag values an entry carries in one dimension. The effect dimension is
/// the positive and negative effects taken together.
pub open spec fn tags_of(e: CatalogEntry, d: TagDim) -> Seq<Seq<char>> {
    match d {
        TagDim::Flavor => e.flavors.deep_view(),
        TagDim::Effect => e.positive_effects.deep_view() + e.negative_effects.deep_view(),
        TagDim::Ailment => e.ailments.deep_view(),
    }
}

/// One request's filters. Every field is independently optional and a `None`
/// field imposes no constraint.
#[derive(Debug)]
pub struct FilterCriteria {
    /// Case-insensitive substring of the display name.
    pub name: Option<String>,
    /// Exact category.
    pub subspecies: Option<Subspecies>,
    /// Case-insensitive exact flavor tag.
    pub flavor: Option<String>,
    /// Case-insensitive exact effect tag.
    pub effect: Option<String>,
    /// Case-insensitive exact ailment tag.
    pub ailment: Option<String>,
}

impl FilterCriteria {
    /// The criteria that keep every entry.
    pub fn none() -> (r: FilterCriteria)
        ensures
            r.name is None,
            r.subspecies is None,
            r.flavor is None,
            r.effect is None,
            r.ailment is None,
    {
        FilterCriteria { name: None, subspecies: None, flavor: None, effect: None, ailment: None }
    }
}

/// The filter a request puts on one tag dimension, if any.
pub open spec fn dim_filter(c: FilterCriteria, d: TagDim) -> Option<Seq<char>> {
    match d {
        TagDim::Flavor => match c.flavor {
            Some(f) => Some(f@),
            None => None,
        },
        TagDim::Effect => match c.effect {
            Some(f) => Some(f@),
            None => None,
        },
        TagDim::Ailment => match c.ailment {
            Some(f) => Some(f@),
            None => None,
        },
    }
}

/// Some tag in the collection equals the filter value case-insensitively.
pub open spec fn has_tag_fold(tags: Seq<Seq<char>>, f: Seq<char>) -> bool {
    exists|i: int| 0 <= i < tags.len() && eq_fold(#[trigger] tags[i], f)
}

/// Does the entry pass the name filter: absent keeps all, present keeps the
/// entries whose name contains the value case-insensitively.
pub open spec fn name_matches(e: CatalogEntry, c: FilterCriteria) -> bool {
    match c.name {
        Some(n) => contains_fold(e.name@, n@),
        None => true,
    }
}

/// Does the entry pass the category filter: absent keeps all, present keeps
/// exact matches only (an uncategorized entry matches no present filter).
pub open spec fn subspecies_matches(e: CatalogEntry, c: FilterCriteria) -> bool {
    match c.subspecies {
        Some(s) => e.subspecies == Some(s),
        None => true,
    }
}

/// Does the entry pass the filter of one tag dimension: absent keeps all —
/// also the entries with no tags at all in that dimension — while present
/// keeps exactly the entries with at least one case-insensitively equal tag.
pub open spec fn dim_matches(e: CatalogEntry, c: FilterCriteria, d: TagDim) -> bool {
    match dim_filter(c, d) {
        Some(f) => has_tag_fold(tags_of(e, d), f),
        None => true,
    }
}

/// Does the entry pass every filter of the request.
pub open spec fn entry_matches(e: CatalogEntry, c: FilterCriteria) -> bool {
    &&& name_matches(e, c)
    &&& subspecies_matches(e, c)
    &&& forall|d: TagDim| dim_matches(e, c, d)
}

/// Law: an absent tag filter is transparent. An entry with zero tags in a
/// dimension is kept or dropped by the remaining criteria alone when that
/// dimension's filter is absent, and is excluded by every present filter on
/// that dimension.
pub proof fn lemma_null_filter_transparency(e: CatalogEntry, c: FilterCriteria, d: TagDim)
    requires
        tags_of(e, d).len() == 0,
    ensures
        dim_filter(c, d) is None ==> (entry_matches(e, c) <==> (name_matches(e, c)
            && subspecies_matches(e, c) && (forall|d2: TagDim|
            d2 != d ==> #[trigger] dim_matches(e, c, d2)))),
        dim_filter(c, d) is Some ==> !entry_matches(e, c),
{
    if dim_filter(c, d) is Some {
        assert(!dim_matches(e, c, d));
    } else {
        assert(dim_matches(e, c, d));
        if name_matches(e, c) && subspecies_matches(e, c) && (forall|d2: TagDim|
            d2 != d ==> #[trigger] dim_matches(e, c, d2)) {
            assert forall|d2: TagDim| dim_matches(e, c, d2) by {
                if d2 != d {
                    assert(dim_matches(e, c, d2));
                }
            }
        }
    }
}

/// Some tag in `tags` equals `f` case-insensitively.
fn has_tag(tags: &Vec<String>, f: &str) -> (r: bool)
    ensures
        r == has_tag_fold(tags.deep_view(), f@),
{
    let mut i: usize = 0;
    while i < tags.len()
        invariant
            0 <= i <= tags.len(),
            forall|j: int| 0 <= j < i ==> !eq_fold(#[trigger] tags.deep_view()[j], f@),
        decreases tags.len() - i,
    {
        if eq_ci(tags[i].as_str(), f) {
            assert(eq_fold(tags.deep_view()[i as int], f@));
            return true;
        }
        i += 1;
    }
    false
}

/// A tag occurs in two collections taken together exactly when it occurs in
/// one of them.
proof fn lemma_has_tag_concat(a: Seq<Seq<char>>, b: Seq<Seq<char>>, f: Seq<char>)
    ensures
        has_tag_fold(a + b, f) == (has_tag_fold(a, f) || has_tag_fold(b, f)),
{
    if has_tag_fold(a + b, f) {
        let k = choose|k: int| 0 <= k < (a + b).len() && eq_fold((a + b)[k], f);
        if k < a.len() {
            assert(eq_fold(a[k], f));
        } else {
            assert(eq_fold(b[k - a.len()], f));
        }
    }
    if has_tag_fold(a, f) {
        let k = choose|k: int| 0 <= k < a.len() && eq_fold(a[k], f);
        assert(eq_fold((a + b)[k], f));
    }
    if has_tag_fold(b, f) {
        let k = choose|k: int| 0 <= k < b.len() && eq_fold(b[k], f);
        assert(eq_fold((a + b)[a.len() + k], f));
    }
}

/// Does the entry pass every filter of the request.
pub fn entry_matches_exec(e: &CatalogEntry, c: &FilterCriteria) -> (r: bool)
    ensures
        r == entry_matches(*e, *c),
{
    let name_ok = match &c.name {
        Some(n) => contains_ci(e.name.as_str(), n.as_str()),
        None => true,
    };
    if !name_ok {
        return false;
    }
    let subspecies_ok = match c.subspecies {
        Some(want) => match e.subspecies {
            Some(have) => have == want,
            None => false,
        },
        None => true,
    };
    if !subspecies_ok {
        return false;
    }
    let flavor_ok = match &c.flavor {
        Some(f) => has_tag(&e.flavors, f.as_str()),
        None => true,
    };
    if !flavor_ok {
        assert(!dim_matches(*e, *c, TagDim::Flavor));
        return false;
    }
    let effect_ok = match &c.effect {
        Some(f) => {
            let in_positive = has_tag(&e.positive_effects, f.as_str());
            let in_negative = has_tag(&e.negative_effects, f.as_str());
            proof {
                lemma_has_tag_concat(
                    e.positive_effects.deep_view(),
                    e.negative_effects.deep_view(),
                    f@,
                );
            }
            in_positive || in_negative
        },
        None => true,
    };
    if !effect_ok {
        assert(!dim_matches(*e, *c, TagDim::Effect));
        return false;
    }
    let ailment_ok = match &c.ailment {
        Some(f) => has_tag(&e.ailments, f.as_str()),
        None => true,
    };
    if !ailment_ok {
        assert(!dim_matches(*e, *c, TagDim::Ailment));
        return false;
    }
    assert forall|d: TagDim| dim_matches(*e, *c, d) by {
        match d {
            TagDim::Flavor => assert(dim_matches(*e, *c, TagDim::Flavor)),
            TagDim::Effect => assert(dim_matches(*e, *c, TagDim::Effect)),
            TagDim::Ailment => assert(dim_matches(*e, *c, TagDim::Ailment)),
        }
    }
    true
}

} // verus!
