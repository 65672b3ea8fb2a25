//! The store of in-flight, killable queries.
//!
//! The registry owns a mapping from `(user, connection, category)` keys to the
//! cancellation signal of the query running under that key. It is generic in
//! the signal type: the coordination logic does not depend on what a signal
//! is, only on which signals are handed out when queries are killed.
//!
//! Its model is a [`Map`] from [`ActiveQuery`] keys to signals:
//! registration inserts (overwriting any earlier entry at the same key),
//! deregistration removes, and a kill removes and returns every entry of one
//! user, either across all categories or scoped to one.

use vstd::prelude::*;

verus! {

/// The opaque identity of a requesting user or browser session.
#[derive(Clone, Copy, Debug, PartialEq, Eq, Structural)]
pub struct UserId {
    pub id: u128,
}

/// The tag distinguishing speech-detail queries from chart/aggregate queries,
/// so that a targeted kill can affect one without disturbing the other.
#[derive(Clone, Copy, Debug, PartialEq, Eq, Structural)]
pub enum QueryCategory {
    Chart,
    Speech,
}

/// The key identifying one in-flight, killable database query: at most one
/// tracked query exists per key at a time.
#[derive(Clone, Copy, Debug, PartialEq, Eq, Structural)]
pub struct ActiveQuery {
    /// The identity of the user the query runs for.
    pub uuid: UserId,
    /// An identifier meaningful to the database layer that lets a forceful
    /// kill terminate this specific running query server-side.
    pub conn_id: i32,
    /// Whether this is a speech-detail or a chart query.
    pub category: QueryCategory,
}

/// One registry entry: a tracked query together with the one-shot signal that
/// cancels its handler.
pub struct Entry<S> {
    pub query: ActiveQuery,
    pub signal: S,
}

/// Whether a kill for `user`, scoped to `category` (`None` meaning every
/// category), hits the entry at `key`.
pub open spec fn targeted(key: ActiveQuery, user: UserId, category: Option<QueryCategory>) -> bool {
    key.uuid == user && (category is Some ==> key.category == category->0)
}

/// The keys of `m` that a kill for `user`, scoped to `category`, removes.
pub open spec fn targeted_keys<S>(
    m: Map<ActiveQuery, S>,
    user: UserId,
    category: Option<QueryCategory>,
) -> Set<ActiveQuery> {
    Set::new(|key: ActiveQuery| m.contains_key(key) && targeted(key, user, category))
}

/// Whether some entry of the sequence carries the key.
pub open spec fn seq_contains_key<S>(entries: Seq<Entry<S>>, key: ActiveQuery) -> bool {
    exists|i: int| 0 <= i < entries.len() && (#[trigger] entries[i]).query == key
}

/// The position of the entry carrying the key, provided one exists.
pub open spec fn seq_index_of<S>(entries: Seq<Entry<S>>, key: ActiveQuery) -> int {
    choose|i: int| 0 <= i < entries.len() && (#[trigger] entries[i]).query == key
}

/// Whether no two entries of the sequence share a key.
pub open spec fn distinct_keys<S>(entries: Seq<Entry<S>>) -> bool {
    forall|i: int, j: int|
        0 <= i < j < entries.len() ==> (#[trigger] entries[i]).query != (#[trigger] entries[j]).query
}

/// The association that a sequence of entries represents.
pub open spec fn map_of<S>(entries: Seq<Entry<S>>) -> Map<ActiveQuery, S> {
    Map::new(
        |key: ActiveQuery| seq_contains_key(entries, key),
        |key: ActiveQuery| entries[seq_index_of(entries, key)].signal,
    )
}

/// An entry at any position of a distinct-keyed sequence is the one its key
/// maps to.
proof fn lemma_map_of_at<S>(entries: Seq<Entry<S>>, i: int)
    requires
        distinct_keys(entries),
        0 <= i < entries.len(),
    ensures
        map_of(entries).contains_key(entries[i].query),
        map_of(entries)[entries[i].query] == entries[i].signal,
{
    assert(seq_contains_key(entries, entries[i].query));
    let j = seq_index_of(entries, entries[i].query);
    assert(0 <= j < entries.len() && entries[j].query == entries[i].query);
    if i < j || j < i {
        assert(false);
    }
}

/// The registry of in-flight queries: the single place that maps each
/// `(user, connection, category)` key to the signal of the query running
/// under it.
pub struct Registry<S> {
    entries: Vec<Entry<S>>,
}

impl<S> Registry<S> {
    /// Well-formedness: no key is tracked twice.
    pub closed spec fn inv(&self) -> bool {
        distinct_keys(self.entries@)
    }

    /// The mapping from tracked keys to their signals.
    pub closed spec fn view(&self) -> Map<ActiveQuery, S> {
        map_of(self.entries@)
    }

    /// Creates an empty registry: nothing is tracked.
    pub fn new() -> (registry: Registry<S>)
        ensures
            registry.inv(),
            registry@ == Map::<ActiveQuery, S>::empty(),
    {
        let registry = Registry { entries: Vec::new() };
        proof {
            assert(registry@ =~= Map::<ActiveQuery, S>::empty());
        }
        registry
    }

    /// The position at which the key is tracked, if it is.
    fn position_of(&self, query: &ActiveQuery) -> (position: Option<usize>)
        ensures
            match position {
                Some(i) => i < self.entries@.len() && self.entries@[i as int].query == *query,
                None => !seq_contains_key(self.entries@, *query),
            },
    {
        let mut i: usize = 0;
        while i < self.entries.len()
            invariant
                i <= self.entries@.len(),
                forall|j: int| 0 <= j < i ==> (#[trigger] self.entries@[j]).query != *query,
            decreases self.entries@.len() - i,
        {
            if self.entries[i].query == *query {
                return Some(i);
            }
            i += 1;
        }
        None
    }

    /// Whether a query is tracked under the key.
    pub fn contains(&self, query: &ActiveQuery) -> (tracked_here: bool)
        requires
            self.inv(),
        ensures
            tracked_here == self@.contains_key(*query),
    {
        match self.position_of(query) {
            Some(i) => {
                proof {
                    lemma_map_of_at(self.entries@, i as int);
                }
                true
            },
            None => false,
        }
    }

    /// Tracks a query: inserts the entry at its key, overwriting (and
    /// abandoning the signal of) any entry already there. Never fails.
    pub fn register(&mut self, query: ActiveQuery, signal: S)
        requires
            old(self).inv(),
        ensures
            final(self).inv(),
            final(self)@ == old(self)@.insert(query, signal),
    {
        let ghost entries0 = self.entries@;
        match self.position_of(&query) {
            Some(i) => {
                self.entries[i] = Entry { query, signal };
                proof {
                    lemma_map_of_update(entries0, i as int, self.entries@[i as int]);
                }
            },
            None => {
                self.entries.push(Entry { query, signal });
                proof {
                    lemma_map_of_push(entries0, self.entries@.last());
                }
            },
        }
    }

    /// Stops tracking the key: removes its entry if one exists, and is a
    /// no-op if none does (as when a kill already cleared it).
    pub fn deregister(&mut self, query: &ActiveQuery)
        requires
            old(self).inv(),
        ensures
            final(self).inv(),
            final(self)@ == old(self)@.remove(*query),
    {
        let ghost entries0 = self.entries@;
        match self.position_of(query) {
            Some(i) => {
                let _entry = self.entries.swap_remove(i);
                proof {
                    lemma_map_of_swap_remove(entries0, i as int);
                }
            },
            None => {
                proof {
                    assert(self@ =~= old(self)@.remove(*query));
                }
            },
        }
    }

    /// Removes every entry that a kill for `user`, scoped to `category`
    /// (`None` meaning every category), targets, and returns those entries —
    /// each exactly once — so the caller can fire their signals and kill
    /// their connections. Entries of other users, and of other categories
    /// under a scoped kill, stay untouched.
    fn drain_targeted(&mut self, user: UserId, category: Option<QueryCategory>) -> (removed: Vec<
        Entry<S>,
    >)
        requires
            old(self).inv(),
        ensures
            final(self).inv(),
            final(self)@ == old(self)@.remove_keys(targeted_keys(old(self)@, user, category)),
            distinct_keys(removed@),
            forall|i: int|
                0 <= i < removed@.len() ==> targeted(
                    (#[trigger] removed@[i]).query,
                    user,
                    category,
                ) && old(self)@.contains_key(removed@[i].query) && old(self)@[removed@[i].query]
                    == removed@[i].signal,
            forall|k: ActiveQuery|
                #[trigger] old(self)@.contains_key(k) && targeted(k, user, category)
                    ==> seq_contains_key(removed@, k),
    {
        let ghost entries0 = self.entries@;
        let mut kept: Vec<Entry<S>> = Vec::new();
        let mut removed: Vec<Entry<S>> = Vec::new();
        while self.entries.len() > 0
            invariant
                distinct_keys(entries0),
                self.entries@ == entries0.subrange(0, self.entries@.len() as int),
                self.entries@.len() <= entries0.len(),
                forall|i: int|
                    0 <= i < kept@.len() ==> exists|p: int|
                        self.entries@.len() <= p < entries0.len() && entries0[p]
                            == #[trigger] kept@[i] && !targeted(kept@[i].query, user, category),
                forall|i: int|
                    0 <= i < removed@.len() ==> exists|p: int|
                        self.entries@.len() <= p < entries0.len() && entries0[p]
                            == #[trigger] removed@[i] && targeted(removed@[i].query, user, category),
                distinct_keys(kept@),
                distinct_keys(removed@),
                forall|p: int|
                    self.entries@.len() <= p < entries0.len() ==> if targeted(
                        (#[trigger] entries0[p]).query,
                        user,
                        category,
                    ) {
                        seq_contains_key(removed@, entries0[p].query)
                    } else {
                        seq_contains_key(kept@, entries0[p].query)
                    },
            decreases self.entries@.len(),
        {
            let ghost n = self.entries@.len() as int;
            let entry = self.entries.pop().unwrap();
            proof {
                assert(entry == entries0[n - 1]);
                assert(self.entries@ == entries0.subrange(0, n - 1));
                assert forall|i: int| 0 <= i < kept@.len() implies (#[trigger] kept@[i]).query
                    != entry.query by {
                    let p = choose|p: int|
                        n <= p < entries0.len() && entries0[p] == kept@[i] && !targeted(
                            kept@[i].query,
                            user,
                            category,
                        );
                    assert(entries0[n - 1].query != entries0[p].query);
                }
                assert forall|i: int| 0 <= i < removed@.len() implies (#[trigger] removed@[i]).query
                    != entry.query by {
                    let p = choose|p: int|
                        n <= p < entries0.len() && entries0[p] == removed@[i] && targeted(
                            removed@[i].query,
                            user,
                            category,
                        );
                    assert(entries0[n - 1].query != entries0[p].query);
                }
            }
            let hit = entry.query.uuid == user && (match category {
                Some(wanted) => entry.query.category == wanted,
                None => true,
            });
            proof {
                assert(hit == targeted(entry.query, user, category));
            }
            if hit {
                let ghost removed0 = removed@;
                removed.push(entry);
                proof {
                    assert forall|k: ActiveQuery| seq_contains_key(removed0, k) implies
                        seq_contains_key(removed@, k) by {
                        let i = choose|i: int|
                            0 <= i < removed0.len() && (#[trigger] removed0[i]).query == k;
                        assert(removed@[i].query == k);
                    }
                    assert(entries0[n - 1] == removed@.last());
                    assert(seq_contains_key(removed@, entries0[n - 1].query));
                }
            } else {
                let ghost kept0 = kept@;
                kept.push(entry);
                proof {
                    assert forall|k: ActiveQuery| seq_contains_key(kept0, k) implies
                        seq_contains_key(kept@, k) by {
                        let i = choose|i: int|
                            0 <= i < kept0.len() && (#[trigger] kept0[i]).query == k;
                        assert(kept@[i].query == k);
                    }
                    assert(entries0[n - 1] == kept@.last());
                    assert(seq_contains_key(kept@, entries0[n - 1].query));
                }
            }
        }
        self.entries = kept;
        proof {
            let ghost survivors = old(self)@.remove_keys(targeted_keys(old(self)@, user, category));
            assert forall|k: ActiveQuery| #[trigger] self@.contains_key(k) implies
                survivors.contains_key(k) && self@[k] == survivors[k] by {
                let i = seq_index_of(self.entries@, k);
                assert(0 <= i < self.entries@.len() && self.entries@[i].query == k);
                lemma_map_of_at(self.entries@, i);
                let p = choose|p: int|
                    0 <= p < entries0.len() && entries0[p] == self.entries@[i] && !targeted(
                        self.entries@[i].query,
                        user,
                        category,
                    );
                lemma_map_of_at(entries0, p);
            }
            assert forall|k: ActiveQuery| #[trigger] survivors.contains_key(k) implies
                self@.contains_key(k) by {
                let p = seq_index_of(entries0, k);
                assert(0 <= p < entries0.len() && entries0[p].query == k);
                assert(seq_contains_key(self.entries@, k));
                let i = seq_index_of(self.entries@, k);
                lemma_map_of_at(self.entries@, i);
            }
            assert(self@ =~= survivors);
            assert forall|i: int| 0 <= i < removed@.len() implies targeted(
                (#[trigger] removed@[i]).query,
                user,
                category,
            ) && old(self)@.contains_key(removed@[i].query) && old(self)@[removed@[i].query]
                == removed@[i].signal by {
                let p = choose|p: int|
                    0 <= p < entries0.len() && entries0[p] == removed@[i] && targeted(
                        removed@[i].query,
                        user,
                        category,
                    );
                lemma_map_of_at(entries0, p);
            }
            assert forall|k: ActiveQuery| #[trigger] old(self)@.contains_key(k) && targeted(
                k,
                user,
                category,
            ) implies seq_contains_key(removed@, k) by {
                let p = seq_index_of(entries0, k);
                assert(0 <= p < entries0.len() && entries0[p].query == k);
            }
        }
        removed
    }

    /// Kills every query of the user, regardless of category: removes all of
    /// the user's entries and returns them — each exactly once — while every
    /// other user's entries stay untouched.
    pub fn kill_user(&mut self, user: UserId) -> (removed: Vec<Entry<S>>)
        requires
            old(self).inv(),
        ensures
            final(self).inv(),
            final(self)@ == old(self)@.remove_keys(targeted_keys(old(self)@, user, None)),
            distinct_keys(removed@),
            forall|i: int|
                0 <= i < removed@.len() ==> (#[trigger] removed@[i]).query.uuid == user && old(
                    self,
                )@.contains_key(removed@[i].query) && old(self)@[removed@[i].query]
                    == removed@[i].signal,
            forall|k: ActiveQuery|
                #[trigger] old(self)@.contains_key(k) && k.uuid == user ==> seq_contains_key(
                    removed@,
                    k,
                ),
    {
        self.drain_targeted(user, None)
    }

    /// Kills the user's queries of one category only: removes and returns
    /// exactly the user's entries of that category, while the user's entries
    /// of other categories, and every other user's, stay untouched.
    pub fn kill_category(&mut self, user: UserId, category: QueryCategory) -> (removed: Vec<
        Entry<S>,
    >)
        requires
            old(self).inv(),
        ensures
            final(self).inv(),
            final(self)@ == old(self)@.remove_keys(
                targeted_keys(old(self)@, user, Some(category)),
            ),
            distinct_keys(removed@),
            forall|i: int|
                0 <= i < removed@.len() ==> (#[trigger] removed@[i]).query.uuid == user
                    && removed@[i].query.category == category && old(self)@.contains_key(
                    removed@[i].query,
                ) && old(self)@[removed@[i].query] == removed@[i].signal,
            forall|k: ActiveQuery|
                #[trigger] old(self)@.contains_key(k) && k.uuid == user && k.category == category
                    ==> seq_contains_key(removed@, k),
    {
        self.drain_targeted(user, Some(category))
    }
}

/// Law: registering twice at the same key leaves exactly one entry there.
/// The mapping after both registrations is the mapping after the second
/// alone — its domain gains the key once — and the signal reachable at the
/// key is the second; the first is abandoned, never reachable again.
pub proof fn lemma_register_overwrite<S>(
    m: Map<ActiveQuery, S>,
    query: ActiveQuery,
    first: S,
    second: S,
)
    ensures
        m.insert(query, first).insert(query, second) == m.insert(query, second),
        m.insert(query, first).insert(query, second)[query] == second,
        m.insert(query, first).insert(query, second).dom() == m.dom().insert(query),
{
    assert(m.insert(query, first).insert(query, second) =~= m.insert(query, second));
    assert(m.insert(query, first).insert(query, second).dom() =~= m.dom().insert(query));
}

/// Law: deregistering a key with no entry is a no-op — the mapping is
/// unchanged, and nothing errs.
pub proof fn lemma_deregister_absent<S>(m: Map<ActiveQuery, S>, query: ActiveQuery)
    requires
        !m.contains_key(query),
    ensures
        m.remove(query) == m,
{
    assert(m.remove(query) =~= m);
}

/// Law: after a kill for a user, the mapping holds no entry of that user at
/// all, while every entry of every other user survives with its signal.
pub proof fn lemma_kill_clears_user<S>(m: Map<ActiveQuery, S>, user: UserId)
    ensures
        forall|k: ActiveQuery|
            #[trigger] m.remove_keys(targeted_keys(m, user, None)).contains_key(k) ==> k.uuid
                != user,
        forall|k: ActiveQuery|
            #[trigger] m.contains_key(k) && k.uuid != user ==> m.remove_keys(
                targeted_keys(m, user, None),
            ).contains_key(k) && m.remove_keys(targeted_keys(m, user, None))[k] == m[k],
        targeted_keys(m, user, None) =~= m.dom().filter(|k: ActiveQuery| k.uuid == user),
{
}

/// Law: a kill scoped to one category removes exactly the user's entries of
/// that category — those are the keys whose signals it fires — and leaves
/// every entry of another category, or of another user, in place with its
/// signal untouched.
pub proof fn lemma_kill_category_isolation<S>(
    m: Map<ActiveQuery, S>,
    user: UserId,
    category: QueryCategory,
)
    ensures
        forall|k: ActiveQuery|
            #[trigger] m.contains_key(k) && !(k.uuid == user && k.category == category)
                ==> m.remove_keys(targeted_keys(m, user, Some(category))).contains_key(k)
                && m.remove_keys(targeted_keys(m, user, Some(category)))[k] == m[k],
        forall|k: ActiveQuery|
            #[trigger] m.remove_keys(targeted_keys(m, user, Some(category))).contains_key(k)
                ==> m.contains_key(k) && !(k.uuid == user && k.category == category),
        targeted_keys(m, user, Some(category)) =~= m.dom().filter(
            |k: ActiveQuery| k.uuid == user && k.category == category,
        ),
{
}

/// Updating the entry at a position with one of the same key updates the
/// association at that key alone.
proof fn lemma_map_of_update<S>(entries: Seq<Entry<S>>, i: int, entry: Entry<S>)
    requires
        distinct_keys(entries),
        0 <= i < entries.len(),
        entries[i].query == entry.query,
    ensures
        distinct_keys(entries.update(i, entry)),
        map_of(entries.update(i, entry)) == map_of(entries).insert(entry.query, entry.signal),
{
    let updated = entries.update(i, entry);
    assert forall|k: ActiveQuery| seq_contains_key(updated, k) <==> seq_contains_key(
        entries,
        k,
    ) by {
        if seq_contains_key(updated, k) {
            let p = seq_index_of(updated, k);
            assert(entries[if p == i { i } else { p }].query == k);
        }
        if seq_contains_key(entries, k) {
            let p = seq_index_of(entries, k);
            assert(updated[if p == i { i } else { p }].query == k);
        }
    }
    assert forall|k: ActiveQuery| #[trigger] map_of(updated).contains_key(k) implies map_of(
        updated,
    )[k] == map_of(entries).insert(entry.query, entry.signal)[k] by {
        let p = seq_index_of(updated, k);
        assert(0 <= p < updated.len() && updated[p].query == k);
        lemma_map_of_at(updated, p);
        if k == entry.query {
            if p != i {
                assert(entries[p].query == entry.query);
                assert(false);
            }
        } else {
            assert(p != i);
            assert(entries[p].query == k);
            lemma_map_of_at(entries, p);
        }
    }
    assert(map_of(updated) =~= map_of(entries).insert(entry.query, entry.signal));
}

/// Appending an entry with a fresh key extends the association at that key
/// alone.
proof fn lemma_map_of_push<S>(entries: Seq<Entry<S>>, entry: Entry<S>)
    requires
        distinct_keys(entries),
        !seq_contains_key(entries, entry.query),
    ensures
        distinct_keys(entries.push(entry)),
        map_of(entries.push(entry)) == map_of(entries).insert(entry.query, entry.signal),
{
    let extended = entries.push(entry);
    assert forall|i: int, j: int| 0 <= i < j < extended.len() implies (#[trigger] extended[i]).query
        != (#[trigger] extended[j]).query by {
        if j < entries.len() {
            assert(entries[i].query != entries[j].query);
        } else {
            assert(entries[i].query == extended[i].query);
        }
    }
    assert forall|k: ActiveQuery| #[trigger] map_of(extended).contains_key(k) implies map_of(
        extended,
    )[k] == map_of(entries).insert(entry.query, entry.signal)[k] by {
        let p = seq_index_of(extended, k);
        assert(0 <= p < extended.len() && extended[p].query == k);
        lemma_map_of_at(extended, p);
        if k == entry.query {
            assert(p == entries.len());
        } else {
            assert(p < entries.len());
            assert(entries[p].query == k);
            lemma_map_of_at(entries, p);
        }
    }
    assert forall|k: ActiveQuery| map_of(entries).insert(entry.query, entry.signal).contains_key(
        k,
    ) implies map_of(extended).contains_key(k) by {
        if k == entry.query {
            assert(extended[entries.len() as int].query == k);
        } else {
            let p = seq_index_of(entries, k);
            assert(extended[p].query == k);
        }
    }
    assert(map_of(extended) =~= map_of(entries).insert(entry.query, entry.signal));
}

/// Removing the entry at a position by swapping in the last one removes the
/// association at its key alone.
proof fn lemma_map_of_swap_remove<S>(entries: Seq<Entry<S>>, i: int)
    requires
        distinct_keys(entries),
        0 <= i < entries.len(),
    ensures
        distinct_keys(entries.update(i, entries.last()).drop_last()),
        map_of(entries.update(i, entries.last()).drop_last()) == map_of(entries).remove(
            entries[i].query,
        ),
{
    let shrunk = entries.update(i, entries.last()).drop_last();
    assert forall|p: int, q: int| 0 <= p < q < shrunk.len() implies (#[trigger] shrunk[p]).query
        != (#[trigger] shrunk[q]).query by {
        let p0 = if p == i { entries.len() - 1 } else { p };
        let q0 = if q == i { entries.len() - 1 } else { q };
        assert(shrunk[p] == entries[p0] && shrunk[q] == entries[q0]);
        assert(entries[p0].query != entries[q0].query);
    }
    assert forall|k: ActiveQuery| #[trigger] map_of(shrunk).contains_key(k) implies map_of(
        entries,
    ).remove(entries[i].query).contains_key(k) && map_of(shrunk)[k] == map_of(entries)[k] by {
        let p = seq_index_of(shrunk, k);
        assert(0 <= p < shrunk.len() && shrunk[p].query == k);
        lemma_map_of_at(shrunk, p);
        let p0 = if p == i { entries.len() - 1 } else { p };
        assert(shrunk[p] == entries[p0]);
        lemma_map_of_at(entries, p0);
        assert(k != entries[i].query);
    }
    assert forall|k: ActiveQuery| map_of(entries).remove(entries[i].query).contains_key(
        k,
    ) implies map_of(shrunk).contains_key(k) by {
        let p = seq_index_of(entries, k);
        assert(0 <= p < entries.len() && entries[p].query == k);
        assert(p != i);
        if p == entries.len() - 1 {
            assert(i < entries.len() - 1);
            assert(shrunk[i].query == k);
        } else {
            assert(shrunk[p].query == k);
        }
    }
    assert(map_of(shrunk) =~= map_of(entries).remove(entries[i].query));
}

} // verus!
