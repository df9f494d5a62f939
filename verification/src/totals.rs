//! Per-category counts over the catalog, for the bot's "about" card.

use crate::catalog::{CatalogEntry, Subspecies};
use crate::composer::Catalog;
use vstd::prelude::*;

verus! {

/// How many entries carry exactly this category.
pub open spec fn count_with(s: Seq<CatalogEntry>, sub: Subspecies) -> int {
    s.filter(|e: CatalogEntry| e.subspecies == Some(sub)).len() as int
}

/// The catalog's size and its three named category counts. Whatever is
/// neither hybrid, indica nor sativa — ruderalis or uncategorized — shows as
/// [`unknown`](StrainTotals::unknown).
#[derive(Clone, Copy, PartialEq, Eq, Structural, Debug)]
pub struct StrainTotals {
    pub total: u64,
    pub hybrid: u64,
    pub indica: u64,
    pub sativa: u64,
}

impl StrainTotals {
    /// The named counts never exceed the total; counting establishes this.
    pub open spec fn wf(&self) -> bool {
        self.hybrid + self.indica + self.sativa <= self.total
    }

    /// How many entries fall under none of the three named categories.
    pub fn unknown(&self) -> (r: u64)
        requires
            self.wf(),
        ensures
            r == self.total - self.hybrid - self.indica - self.sativa,
    {
        self.total - self.hybrid - self.indica - self.sativa
    }
}

/// Counts the catalog: the total and one count per named category.
pub fn strain_counts(catalog: &Catalog) -> (t: StrainTotals)
    ensures
        t.total == catalog@.len(),
        t.hybrid == count_with(catalog@, Subspecies::Hybrid),
        t.indica == count_with(catalog@, Subspecies::Indica),
        t.sativa == count_with(catalog@, Subspecies::Sativa),
        t.wf(),
{
    let n = catalog.len();
    let mut hybrid: u64 = 0;
    let mut indica: u64 = 0;
    let mut sativa: u64 = 0;
    let mut i: usize = 0;
    proof {
        reveal(Seq::filter);
        assert(catalog@.subrange(0, 0) =~= Seq::<CatalogEntry>::empty());
    }
    while i < n
        invariant
            0 <= i <= n,
            n == catalog@.len(),
            hybrid == count_with(catalog@.subrange(0, i as int), Subspecies::Hybrid),
            indica == count_with(catalog@.subrange(0, i as int), Subspecies::Indica),
            sativa == count_with(catalog@.subrange(0, i as int), Subspecies::Sativa),
            hybrid + indica + sativa <= i,
        decreases n - i,
    {
        let ghost prefix = catalog@.subrange(0, i as int);
        let ghost prefix2 = catalog@.subrange(0, i as int + 1);
        proof {
            reveal(Seq::filter);
            assert(prefix2.drop_last() =~= prefix);
            assert(prefix2.last() == catalog@[i as int]);
        }
        let e = catalog.get(i);
        match e.subspecies {
            Some(Subspecies::Hybrid) => {
                hybrid += 1;
            },
            Some(Subspecies::Indica) => {
                indica += 1;
            },
            Some(Subspecies::Sativa) => {
                sativa += 1;
            },
            _ => {},
        }
        i += 1;
    }
    assert(catalog@.subrange(0, n as int) =~= catalog@);
    StrainTotals { total: n as u64, hybrid, indica, sativa }
}

} // verus!
