//! The autocomplete suggestion cache.
//!
//! One [`SuggestionCache`] serves one tag dimension. It starts unpopulated;
//! the first completed fetch of the dimension's distinct values installs the
//! snapshot — a failed fetch installs the empty snapshot rather than leaving
//! the cache poisoned — and every later population attempt changes nothing,
//! so all callers observe the single winner's snapshot. A populated cache
//! answers prefix queries from memory: the subsequence of the snapshot whose
//! values start with the prefix case-insensitively, in the snapshot's own
//! order.

use crate::composer::capped;
use crate::text::{fold_chars, prefix_fold, starts_with_ci};
use vstd::prelude::*;

verus! {

/// The most values one snapshot holds; a longer fetch result is cut here.
pub const SUGGESTION_CAP: usize = 100;

/// The snapshot that installing a fetch outcome yields: the fetched values
/// capped at [`SUGGESTION_CAP`], or the empty snapshot when the fetch failed.
pub open spec fn populate_outcome(fetched: Option<Seq<Seq<char>>>) -> Seq<Seq<char>> {
    match fetched {
        Some(vals) => capped(vals, SUGGESTION_CAP as int),
        None => Seq::empty(),
    }
}

/// The cache state an attempted population leaves behind: the first outcome
/// installs its snapshot, every later attempt is ignored.
pub open spec fn populate_state(
    state: Option<Seq<Seq<char>>>,
    fetched: Option<Seq<Seq<char>>>,
) -> Option<Seq<Seq<char>>> {
    match state {
        Some(snapshot) => Some(snapshot),
        None => Some(populate_outcome(fetched)),
    }
}

/// The suggestions a snapshot gives for a prefix: the values starting with
/// the prefix case-insensitively, in snapshot order.
pub open spec fn suggestions_for(snapshot: Seq<Seq<char>>, prefix: Seq<char>) -> Seq<Seq<char>> {
    snapshot.filter(|v: Seq<char>| prefix_fold(prefix, v))
}

/// A lazily-populated cache of one tag dimension's distinct values.
#[derive(Debug)]
pub struct SuggestionCache {
    snapshot: Option<Vec<String>>,
}

impl View for SuggestionCache {
    type V = Option<Seq<Seq<char>>>;

    closed spec fn view(&self) -> Option<Seq<Seq<char>>> {
        match self.snapshot {
            Some(v) => Some(v.deep_view()),
            None => None,
        }
    }
}

impl SuggestionCache {
    /// An unpopulated cache.
    pub fn new() -> (r: SuggestionCache)
        ensures
            r@ is None,
    {
        SuggestionCache { snapshot: None }
    }

    /// Is the snapshot installed.
    pub open spec fn populated(&self) -> bool {
        self@ is Some
    }

    /// The installed snapshot.
    pub open spec fn snapshot_view(&self) -> Seq<Seq<char>> {
        self@->0
    }

    /// Is the snapshot installed.
    pub fn is_populated(&self) -> (r: bool)
        ensures
            r == self.populated(),
    {
        self.snapshot.is_some()
    }

    /// Installs the outcome of one fetch of the dimension's distinct values.
    /// Population is at most once: on a cache already populated this changes
    /// nothing, whatever was fetched. A failed fetch (`None`) installs the
    /// empty snapshot, so later reads answer empty instead of blocking or
    /// retrying here.
    pub fn populate(&mut self, fetched: Option<Vec<String>>)
        ensures
            final(self)@ == populate_state(old(self)@, fetched.deep_view()),
    {
        if self.snapshot.is_some() {
            return;
        }
        match fetched {
            Some(mut vals) => {
                let ghost full = vals.deep_view();
                if vals.len() > SUGGESTION_CAP {
                    vals.truncate(SUGGESTION_CAP);
                    assert(vals.deep_view() =~= capped(full, SUGGESTION_CAP as int));
                } else {
                    assert(vals.deep_view() =~= capped(full, SUGGESTION_CAP as int));
                }
                self.snapshot = Some(vals);
            },
            None => {
                self.snapshot = Some(Vec::new());
                assert(self.snapshot_view() =~= Seq::<Seq<char>>::empty());
            },
        }
    }

    /// Answers a prefix query: the installed snapshot's values that start
    /// with the prefix case-insensitively, in snapshot order. An empty
    /// prefix returns the whole snapshot; an unpopulated cache answers empty
    /// rather than failing.
    pub fn suggest(&self, prefix: &str) -> (r: Vec<String>)
        ensures
            self.populated() ==> r.deep_view() == suggestions_for(self.snapshot_view(), prefix@),
            !self.populated() ==> r@.len() == 0,
    {
        let vals = match &self.snapshot {
            Some(v) => v,
            None => {
                return Vec::new();
            },
        };
        let mut out: Vec<String> = Vec::new();
        let mut i: usize = 0;
        proof {
            reveal(Seq::filter);
            assert(vals.deep_view().subrange(0, 0) =~= Seq::<Seq<char>>::empty());
            assert(out.deep_view() =~= suggestions_for(vals.deep_view().subrange(0, 0), prefix@));
        }
        while i < vals.len()
            invariant
                0 <= i <= vals.len(),
                out.deep_view() == suggestions_for(vals.deep_view().subrange(0, i as int), prefix@),
            decreases vals.len() - i,
        {
            let ghost prefix_rows = vals.deep_view().subrange(0, i as int);
            let ghost prefix_rows2 = vals.deep_view().subrange(0, i as int + 1);
            proof {
                reveal(Seq::filter);
                assert(prefix_rows2.drop_last() =~= prefix_rows);
                assert(prefix_rows2.last() == vals.deep_view()[i as int]);
            }
            if starts_with_ci(vals[i].as_str(), prefix) {
                let item = vals[i].clone();
                out.push(item);
                assert(out.deep_view() =~= suggestions_for(prefix_rows, prefix@).push(
                    vals.deep_view()[i as int],
                ));
            }
            i += 1;
        }
        assert(vals.deep_view().subrange(0, vals.len() as int) =~= vals.deep_view());
        out
    }
}

/// Law: population has a single winner. Whatever two fetch outcomes raced,
/// attempting a second population never changes the state the first left, so
/// every concurrent first-time caller observes the same snapshot.
pub proof fn lemma_population_single_winner(
    state: Option<Seq<Seq<char>>>,
    first: Option<Seq<Seq<char>>>,
    second: Option<Seq<Seq<char>>>,
)
    ensures
        populate_state(state, first) is Some,
        populate_state(populate_state(state, first), second) == populate_state(state, first),
{
}

/// Two predicates that agree everywhere filter a sequence alike.
proof fn lemma_filter_congruence<A>(s: Seq<A>, p: spec_fn(A) -> bool, q: spec_fn(A) -> bool)
    requires
        forall|x: A| #[trigger] p(x) == q(x),
    ensures
        s.filter(p) == s.filter(q),
    decreases s.len(),
{
    reveal(Seq::filter);
    if s.len() > 0 {
        lemma_filter_congruence(s.drop_last(), p, q);
    }
}

/// Law: suggestions are case-insensitive in the prefix. Two prefixes with
/// the same case fold select exactly the same rows, and every selected value
/// starts with the prefix case-insensitively.
pub proof fn lemma_suggest_case_insensitive(
    snapshot: Seq<Seq<char>>,
    p1: Seq<char>,
    p2: Seq<char>,
)
    requires
        fold_chars(p1) == fold_chars(p2),
    ensures
        suggestions_for(snapshot, p1) == suggestions_for(snapshot, p2),
        forall|i: int|
            0 <= i < suggestions_for(snapshot, p1).len() ==> prefix_fold(
                p1,
                #[trigger] suggestions_for(snapshot, p1)[i],
            ),
{
    lemma_filter_congruence(
        snapshot,
        |v: Seq<char>| prefix_fold(p1, v),
        |v: Seq<char>| prefix_fold(p2, v),
    );
    assert forall|i: int| 0 <= i < suggestions_for(snapshot, p1).len() implies prefix_fold(
        p1,
        #[trigger] suggestions_for(snapshot, p1)[i],
    ) by {
        snapshot.lemma_filter_pred(|v: Seq<char>| prefix_fold(p1, v), i);
    }
}

/// Law: the empty prefix selects the whole snapshot.
pub proof fn lemma_empty_prefix_full_snapshot(snapshot: Seq<Seq<char>>, p: Seq<char>)
    requires
        p.len() == 0,
    ensures
        suggestions_for(snapshot, p) == snapshot,
    decreases snapshot.len(),
{
    reveal(Seq::filter);
    assert(fold_chars(p) =~= Seq::<char>::empty());
    if snapshot.len() > 0 {
        lemma_empty_prefix_full_snapshot(snapshot.drop_last(), p);
        assert(fold_chars(p).is_prefix_of(fold_chars(snapshot.last()))) by {
            assert(fold_chars(p) =~= fold_chars(snapshot.last()).subrange(0, 0));
        }
        assert(suggestions_for(snapshot, p) =~= snapshot);
    }
}

} // verus!
