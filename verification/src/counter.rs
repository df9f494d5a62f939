//! The puff counter.
//!
//! A [`CounterTable`] models the store of record for one kind of actor (users
//! or guilds): a non-negative counter and a moderation flag per identifier.
//! Its view is the map from identifier to [`CounterState`]. A row is created
//! idempotently on first interaction, advanced atomically by
//! [`take_puff`](CounterTable::take_puff) unless the actor is blacklisted,
//! and set back to zero by a confirmed [`reset`](CounterTable::reset); rows
//! are never deleted here, and the blacklist flag is written only by the
//! moderation side ([`set_blacklisted`](CounterTable::set_blacklisted)).

use vstd::prelude::*;

verus! {

/// One actor's counter and moderation flag.
#[derive(Clone, Copy, PartialEq, Eq, Structural, Debug)]
pub struct CounterState {
    pub puffs: u64,
    pub blacklisted: bool,
}

/// Why an increment was refused.
#[derive(Clone, Copy, PartialEq, Eq, Structural, Debug)]
pub enum CounterError {
    /// The actor is blacklisted: the counter must not move.
    Blacklisted,
    /// No row exists for the identifier.
    MissingRow,
}

/// One stored row.
#[derive(Clone, Copy, Debug)]
struct CounterRow {
    id: u64,
    state: CounterState,
}

/// The map a row sequence denotes; a later row with the same identifier
/// would win, so the table keeps identifiers unique.
spec fn rows_map(rows: Seq<CounterRow>) -> Map<u64, CounterState>
    decreases rows.len(),
{
    if rows.len() == 0 {
        Map::empty()
    } else {
        rows_map(rows.drop_last()).insert(rows.last().id, rows.last().state)
    }
}

/// No identifier occurs twice.
spec fn rows_unique(rows: Seq<CounterRow>) -> bool {
    forall|i: int, j: int|
        0 <= i < j < rows.len() ==> (#[trigger] rows[i]).id != (#[trigger] rows[j]).id
}

/// An identifier is in the map exactly when some row carries it.
proof fn lemma_rows_map_contains(rows: Seq<CounterRow>, id: u64)
    ensures
        rows_map(rows).contains_key(id) <==> exists|i: int|
            0 <= i < rows.len() && (#[trigger] rows[i]).id == id,
    decreases rows.len(),
{
    if rows.len() > 0 {
        lemma_rows_map_contains(rows.drop_last(), id);
        if rows.last().id == id {
            assert(rows[rows.len() - 1].id == id);
        } else if rows_map(rows).contains_key(id) {
            let i = choose|i: int| 0 <= i < rows.drop_last().len() && (#[trigger] rows.drop_last()[i]).id == id;
            assert(rows[i].id == id);
        } else {
            assert forall|i: int| 0 <= i < rows.len() implies (#[trigger] rows[i]).id != id by {
                if i < rows.len() - 1 {
                    assert(rows.drop_last()[i].id != id);
                }
            }
        }
    }
}

/// With unique identifiers, each row's identifier maps to that row's state.
proof fn lemma_rows_map_index(rows: Seq<CounterRow>, i: int)
    requires
        rows_unique(rows),
        0 <= i < rows.len(),
    ensures
        rows_map(rows).contains_key(rows[i].id),
        rows_map(rows)[rows[i].id] == rows[i].state,
    decreases rows.len(),
{
    if i == rows.len() - 1 {
    } else {
        assert(rows_unique(rows.drop_last()));
        assert(rows.drop_last()[i] == rows[i]);
        lemma_rows_map_index(rows.drop_last(), i);
        assert(rows[i].id != rows.last().id);
    }
}

/// With unique identifiers, overwriting one row rewrites exactly its key.
proof fn lemma_rows_map_update(rows: Seq<CounterRow>, i: int, r: CounterRow)
    requires
        rows_unique(rows),
        0 <= i < rows.len(),
        r.id == rows[i].id,
    ensures
        rows_map(rows.update(i, r)) == rows_map(rows).insert(r.id, r.state),
    decreases rows.len(),
{
    if i == rows.len() - 1 {
        assert(rows.update(i, r).drop_last() =~= rows.drop_last());
        assert(rows_map(rows.update(i, r)) =~= rows_map(rows).insert(r.id, r.state));
    } else {
        assert(rows_unique(rows.drop_last()));
        assert(rows.drop_last()[i] == rows[i]);
        lemma_rows_map_update(rows.drop_last(), i, r);
        assert(rows.update(i, r).drop_last() =~= rows.drop_last().update(i, r));
        assert(rows.update(i, r).last() == rows.last());
        assert(r.id != rows.last().id);
        assert(rows_map(rows.update(i, r)) =~= rows_map(rows).insert(r.id, r.state));
    }
}

/// The counter an identifier stands at: a missing row counts as zero.
pub open spec fn counter_of(m: Map<u64, CounterState>, id: u64) -> u64 {
    if m.contains_key(id) {
        m[id].puffs
    } else {
        0
    }
}

/// Is the identifier refused by the moderation flag.
pub open spec fn refused(m: Map<u64, CounterState>, id: u64) -> bool {
    m.contains_key(id) && m[id].blacklisted
}

/// The store after one take: unchanged for a blacklisted actor, else the
/// actor's row — created at zero if absent — advanced by one.
pub open spec fn take_state(m: Map<u64, CounterState>, id: u64) -> Map<u64, CounterState> {
    if refused(m, id) {
        m
    } else {
        m.insert(id, (CounterState { puffs: (counter_of(m, id) + 1) as u64, blacklisted: false }))
    }
}

/// The store of record for one kind of actor.
#[derive(Debug)]
pub struct CounterTable {
    rows: Vec<CounterRow>,
}

impl View for CounterTable {
    type V = Map<u64, CounterState>;

    closed spec fn view(&self) -> Map<u64, CounterState> {
        rows_map(self.rows@)
    }
}

impl CounterTable {
    /// The table's identifiers are unique; every method keeps this, so every
    /// row is the one its identifier maps to.
    pub closed spec fn wf(&self) -> bool {
        rows_unique(self.rows@)
    }

    /// An empty table.
    pub fn new() -> (r: CounterTable)
        ensures
            r.wf(),
            r@ == Map::<u64, CounterState>::empty(),
    {
        CounterTable { rows: Vec::new() }
    }

    /// The index of the identifier's row, if one exists.
    fn find(&self, id: u64) -> (r: Option<usize>)
        ensures
            match r {
                Some(i) => i < self.rows@.len() && self.rows@[i as int].id == id,
                None => forall|k: int| 0 <= k < self.rows@.len() ==> (#[trigger] self.rows@[k]).id != id,
            },
    {
        let mut i: usize = 0;
        while i < self.rows.len()
            invariant
                0 <= i <= self.rows@.len(),
                forall|k: int| 0 <= k < i ==> (#[trigger] self.rows@[k]).id != id,
            decreases self.rows@.len() - i,
        {
            if self.rows[i].id == id {
                return Some(i);
            }
            i += 1;
        }
        None
    }

    /// Does a row exist for the identifier.
    pub fn contains(&self, id: u64) -> (r: bool)
        requires
            self.wf(),
        ensures
            r == self@.contains_key(id),
    {
        proof {
            lemma_rows_map_contains(self.rows@, id);
        }
        self.find(id).is_some()
    }

    /// The counter the identifier stands at, if a row exists.
    pub fn puffs_of(&self, id: u64) -> (r: Option<u64>)
        requires
            self.wf(),
        ensures
            match r {
                Some(n) => self@.contains_key(id) && n == self@[id].puffs,
                None => !self@.contains_key(id),
            },
    {
        proof {
            lemma_rows_map_contains(self.rows@, id);
        }
        match self.find(id) {
            Some(i) => {
                proof {
                    lemma_rows_map_index(self.rows@, i as int);
                }
                Some(self.rows[i].state.puffs)
            },
            None => None,
        }
    }

    /// Is the identifier blacklisted; an absent row is not.
    pub fn is_blacklisted(&self, id: u64) -> (r: bool)
        requires
            self.wf(),
        ensures
            r == refused(self@, id),
    {
        proof {
            lemma_rows_map_contains(self.rows@, id);
        }
        match self.find(id) {
            Some(i) => {
                proof {
                    lemma_rows_map_index(self.rows@, i as int);
                }
                self.rows[i].state.blacklisted
            },
            None => false,
        }
    }

    /// Creates the identifier's row if absent — at zero, not blacklisted —
    /// and does nothing if one exists ("create if absent, else no-op").
    pub fn ensure_row(&mut self, id: u64)
        requires
            old(self).wf(),
        ensures
            final(self).wf(),
            old(self)@.contains_key(id) ==> final(self)@ == old(self)@,
            !old(self)@.contains_key(id) ==> final(self)@ == old(self)@.insert(
                id,
                (CounterState { puffs: 0, blacklisted: false }),
            ),
    {
        proof {
            lemma_rows_map_contains(self.rows@, id);
        }
        if self.find(id).is_none() {
            let ghost rows0 = self.rows@;
            let row = CounterRow { id, state: CounterState { puffs: 0, blacklisted: false } };
            self.rows.push(row);
            proof {
                assert(self.rows@.drop_last() =~= rows0);
                assert forall|i: int, j: int|
                    0 <= i < j < self.rows@.len() implies (#[trigger] self.rows@[i]).id
                    != (#[trigger] self.rows@[j]).id by {
                    if j == self.rows@.len() - 1 {
                        assert(rows0[i].id != id);
                    }
                }
            }
        }
    }

    /// Atomically advances the identifier's counter by one and returns the
    /// new value — a single read-modify-write against the row, refused for a
    /// blacklisted actor and for a missing row, both without any change.
    pub fn increment(&mut self, id: u64) -> (r: Result<u64, CounterError>)
        requires
            old(self).wf(),
            old(self)@.contains_key(id) ==> old(self)@[id].puffs < u64::MAX,
        ensures
            final(self).wf(),
            match r {
                Ok(n) => old(self)@.contains_key(id) && !old(self)@[id].blacklisted && n == old(
                    self,
                )@[id].puffs + 1 && final(self)@ == old(self)@.insert(
                    id,
                    (CounterState { puffs: n, blacklisted: false }),
                ),
                Err(CounterError::Blacklisted) => refused(old(self)@, id) && final(self)@ == old(
                    self,
                )@,
                Err(CounterError::MissingRow) => !old(self)@.contains_key(id) && final(self)@
                    == old(self)@,
            },
    {
        proof {
            lemma_rows_map_contains(self.rows@, id);
        }
        match self.find(id) {
            Some(i) => {
                proof {
                    lemma_rows_map_index(self.rows@, i as int);
                }
                let row = self.rows[i];
                if row.state.blacklisted {
                    Err(CounterError::Blacklisted)
                } else {
                    let n = row.state.puffs + 1;
                    let updated = CounterRow {
                        id,
                        state: CounterState { puffs: n, blacklisted: false },
                    };
                    proof {
                        lemma_rows_map_update(self.rows@, i as int, updated);
                    }
                    let ghost rows0 = self.rows@;
                    self.rows.set(i, updated);
                    proof {
                        assert forall|p: int, q: int|
                            0 <= p < q < self.rows@.len() implies (#[trigger] self.rows@[p]).id
                            != (#[trigger] self.rows@[q]).id by {
                            assert(rows0[p].id != rows0[q].id);
                        }
                    }
                    Ok(n)
                }
            },
            None => Err(CounterError::MissingRow),
        }
    }

    /// One take: ensures the row exists, then increments it — refused only
    /// for a blacklisted actor. The whole step leaves the store at
    /// [`take_state`] of the old one.
    pub fn take_puff(&mut self, id: u64) -> (r: Result<u64, CounterError>)
        requires
            old(self).wf(),
            old(self)@.contains_key(id) ==> old(self)@[id].puffs < u64::MAX,
        ensures
            final(self).wf(),
            final(self)@ == take_state(old(self)@, id),
            reports_take(old(self)@, id, r),
    {
        self.ensure_row(id);
        let r = self.increment(id);
        proof {
            if !refused(old(self)@, id) {
                assert(final(self)@ =~= take_state(old(self)@, id));
            }
        }
        r
    }

    /// Sets the identifier's counter back to zero if a row exists — the
    /// moderation flag is untouched — and changes nothing otherwise. Returns
    /// whether a row existed.
    pub fn reset(&mut self, id: u64) -> (found: bool)
        requires
            old(self).wf(),
        ensures
            final(self).wf(),
            found == old(self)@.contains_key(id),
            final(self)@ == reset_state(old(self)@, id),
    {
        proof {
            lemma_rows_map_contains(self.rows@, id);
        }
        match self.find(id) {
            Some(i) => {
                proof {
                    lemma_rows_map_index(self.rows@, i as int);
                }
                let row = self.rows[i];
                let updated = CounterRow {
                    id,
                    state: CounterState { puffs: 0, blacklisted: row.state.blacklisted },
                };
                proof {
                    lemma_rows_map_update(self.rows@, i as int, updated);
                }
                let ghost rows0 = self.rows@;
                self.rows.set(i, updated);
                proof {
                    assert forall|p: int, q: int|
                        0 <= p < q < self.rows@.len() implies (#[trigger] self.rows@[p]).id
                        != (#[trigger] self.rows@[q]).id by {
                        assert(rows0[p].id != rows0[q].id);
                    }
                }
                true
            },
            None => false,
        }
    }

    /// Writes the moderation flag for an identifier, creating the row at
    /// zero if absent. This stands in for the external moderation process
    /// that owns the flag.
    pub fn set_blacklisted(&mut self, id: u64, flag: bool)
        requires
            old(self).wf(),
        ensures
            final(self).wf(),
            final(self)@ == old(self)@.insert(
                id,
                (CounterState { puffs: counter_of(old(self)@, id), blacklisted: flag }),
            ),
    {
        self.ensure_row(id);
        proof {
            lemma_rows_map_contains(self.rows@, id);
        }
        match self.find(id) {
            Some(i) => {
                proof {
                    lemma_rows_map_index(self.rows@, i as int);
                }
                let row = self.rows[i];
                let updated = CounterRow {
                    id,
                    state: CounterState { puffs: row.state.puffs, blacklisted: flag },
                };
                proof {
                    lemma_rows_map_update(self.rows@, i as int, updated);
                }
                let ghost rows0 = self.rows@;
                self.rows.set(i, updated);
                proof {
                    assert forall|p: int, q: int|
                        0 <= p < q < self.rows@.len() implies (#[trigger] self.rows@[p]).id
                        != (#[trigger] self.rows@[q]).id by {
                        assert(rows0[p].id != rows0[q].id);
                    }
                    assert(final(self)@ =~= old(self)@.insert(
                        id,
                        (CounterState { puffs: counter_of(old(self)@, id), blacklisted: flag }),
                    ));
                }
            },
            None => {
                proof {
                    assert(false);
                }
            },
        }
    }
}

/// Does the result report one take against this store faithfully: the new
/// value on success, and refusal exactly for a blacklisted actor.
pub open spec fn reports_take(
    m: Map<u64, CounterState>,
    id: u64,
    r: Result<u64, CounterError>,
) -> bool {
    match r {
        Ok(n) => !refused(m, id) && n == counter_of(m, id) + 1,
        Err(e) => e == CounterError::Blacklisted && refused(m, id),
    }
}

/// The store after a confirmed reset: the identifier's counter back at zero
/// if a row exists — flag untouched — and nothing otherwise.
pub open spec fn reset_state(m: Map<u64, CounterState>, id: u64) -> Map<u64, CounterState> {
    if m.contains_key(id) {
        m.insert(id, (CounterState { puffs: 0, blacklisted: m[id].blacklisted }))
    } else {
        m
    }
}

/// One command's worth of takes: one for the user and, in a guild context,
/// one for the guild as a second, independent operation. A refused or failed
/// user take skips the guild's; the guild's own refusal never rolls the
/// user's advance back; neither store ever touches the other.
pub fn take_puffs(
    users: &mut CounterTable,
    guilds: &mut CounterTable,
    user_id: u64,
    guild_id: Option<u64>,
) -> (r: (Result<u64, CounterError>, Option<Result<u64, CounterError>>))
    requires
        old(users).wf(),
        old(guilds).wf(),
        old(users)@.contains_key(user_id) ==> old(users)@[user_id].puffs < u64::MAX,
        guild_id matches Some(g) ==> (old(guilds)@.contains_key(g) ==> old(guilds)@[g].puffs
            < u64::MAX),
    ensures
        final(users).wf(),
        final(guilds).wf(),
        final(users)@ == take_state(old(users)@, user_id),
        reports_take(old(users)@, user_id, r.0),
        r.0 is Err || guild_id is None ==> final(guilds)@ == old(guilds)@ && r.1 is None,
        r.0 is Ok ==> (guild_id matches Some(g) ==> final(guilds)@ == take_state(old(guilds)@, g)
            && (r.1 matches Some(gr) && reports_take(old(guilds)@, g, gr))),
{
    let user_result = users.take_puff(user_id);
    if user_result.is_err() {
        return (user_result, None);
    }
    match guild_id {
        Some(g) => {
            let guild_result = guilds.take_puff(g);
            (user_result, Some(guild_result))
        },
        None => (user_result, None),
    }
}

/// The store after `n` successive takes for one identifier.
pub open spec fn takes_n(m: Map<u64, CounterState>, id: u64, n: nat) -> Map<u64, CounterState>
    decreases n,
{
    if n == 0 {
        m
    } else {
        take_state(takes_n(m, id, (n - 1) as nat), id)
    }
}

/// Law: no lost updates. `n` takes for one identifier advance its counter by
/// exactly `n` — unless the actor is blacklisted, in which case every take
/// is refused and the store never moves.
pub proof fn lemma_increment_atomicity(m: Map<u64, CounterState>, id: u64, n: nat)
    requires
        counter_of(m, id) + n <= u64::MAX,
    ensures
        refused(m, id) ==> takes_n(m, id, n) == m,
        !refused(m, id) ==> counter_of(takes_n(m, id, n), id) == counter_of(m, id) + n
            && !refused(takes_n(m, id, n), id),
    decreases n,
{
    if n > 0 {
        lemma_increment_atomicity(m, id, (n - 1) as nat);
    }
}

} // verus!
