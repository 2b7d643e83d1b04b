//! A record table keyed by `u64` identifiers.
//!
//! The persistent store keeps one record per entity id. This module models
//! such a table as an association list with unique keys; its view is the
//! mathematical `Map<u64, V>` the contracts of the ledger speak of.

use vstd::prelude::*;

verus! {

/// `true` when no identifier occurs twice in the entry sequence.
pub open spec fn id_keys_unique<V>(s: Seq<(u64, V)>) -> bool {
    forall|i: int, j: int| 0 <= i < j < s.len() ==> s[i].0 != s[j].0
}

/// The map described by an entry sequence; a later entry overrides an
/// earlier one with the same key.
pub open spec fn id_entries_map<V>(s: Seq<(u64, V)>) -> Map<u64, V>
    decreases s.len(),
{
    if s.len() == 0 {
        Map::empty()
    } else {
        id_entries_map(s.drop_last()).insert(s.last().0, s.last().1)
    }
}

/// `true` when some entry of `s` carries the key `k`.
pub open spec fn has_id_key<V>(s: Seq<(u64, V)>, k: u64) -> bool {
    exists|i: int| 0 <= i < s.len() && (#[trigger] s[i]).0 == k
}

/// A key is in the map's domain exactly when some entry carries it.
pub proof fn lemma_id_map_dom<V>(s: Seq<(u64, V)>)
    ensures
        forall|k: u64| #[trigger] id_entries_map(s).dom().contains(k) <==> has_id_key(s, k),
    decreases s.len(),
{
    if s.len() == 0 {
    } else {
        let s0 = s.drop_last();
        lemma_id_map_dom(s0);
        let m0 = id_entries_map(s0);
        let m = id_entries_map(s);
        assert forall|k: u64| #[trigger] m.dom().contains(k) implies has_id_key(s, k) by {
            if k == s.last().0 {
                assert((s[s.len() - 1]).0 == k);
            } else {
                assert(m0.dom().contains(k));
                let i = choose|i: int| 0 <= i < s0.len() && (#[trigger] s0[i]).0 == k;
                assert((s[i]).0 == k);
            }
        }
        assert forall|k: u64| has_id_key(s, k) implies #[trigger] m.dom().contains(k) by {
            let i = choose|i: int| 0 <= i < s.len() && (#[trigger] s[i]).0 == k;
            if i < s.len() - 1 {
                assert((s0[i]).0 == k);
            }
        }
    }
}

/// With unique keys, each entry's value is the map's value at its key.
pub proof fn lemma_id_map_index<V>(s: Seq<(u64, V)>)
    requires
        id_keys_unique(s),
    ensures
        forall|i: int|
            0 <= i < s.len() ==> id_entries_map(s).dom().contains((#[trigger] s[i]).0)
                && id_entries_map(s)[s[i].0] == s[i].1,
    decreases s.len(),
{
    if s.len() == 0 {
    } else {
        let s0 = s.drop_last();
        assert(id_keys_unique(s0)) by {
            assert forall|i: int, j: int| 0 <= i < j < s0.len() implies (s0[i]).0 != (s0[j]).0 by {
                assert(s0[i] == s[i]);
                assert(s0[j] == s[j]);
            }
        }
        lemma_id_map_index(s0);
        assert forall|i: int| 0 <= i < s.len() implies id_entries_map(s).dom().contains(
            (#[trigger] s[i]).0,
        ) && id_entries_map(s)[s[i].0] == s[i].1 by {
            if i < s.len() - 1 {
                assert(s0[i] == s[i]);
                assert((s[i]).0 != s.last().0);
            }
        }
    }
}

/// With unique keys, the map has exactly one element per entry.
pub proof fn lemma_id_map_len<V>(s: Seq<(u64, V)>)
    requires
        id_keys_unique(s),
    ensures
        id_entries_map(s).dom().finite(),
        id_entries_map(s).dom().len() == s.len(),
    decreases s.len(),
{
    if s.len() == 0 {
        assert(id_entries_map(s).dom() =~= Set::<u64>::empty());
    } else {
        let s0 = s.drop_last();
        assert(id_keys_unique(s0)) by {
            assert forall|i: int, j: int| 0 <= i < j < s0.len() implies (s0[i]).0 != (s0[j]).0 by {
                assert(s0[i] == s[i]);
                assert(s0[j] == s[j]);
            }
        }
        lemma_id_map_len(s0);
        lemma_id_map_dom(s0);
        assert(!has_id_key(s0, s.last().0)) by {
            if has_id_key(s0, s.last().0) {
                let i = choose|i: int| 0 <= i < s0.len() && (#[trigger] s0[i]).0 == s.last().0;
                assert(s0[i] == s[i]);
                assert((s[i]).0 == (s[s.len() - 1]).0);
            }
        }
        assert(!id_entries_map(s0).dom().contains(s.last().0));
    }
}

/// Replacing the entry at `i` by one with the same key updates the map at
/// that key and nothing else.
pub proof fn lemma_id_map_update<V>(s: Seq<(u64, V)>, i: int, x: (u64, V))
    requires
        id_keys_unique(s),
        0 <= i < s.len(),
        x.0 == s[i].0,
    ensures
        id_entries_map(s.update(i, x)) =~= id_entries_map(s).insert(x.0, x.1),
    decreases s.len(),
{
    let t = s.update(i, x);
    if i == s.len() - 1 {
        assert(t.drop_last() =~= s.drop_last());
    } else {
        let s0 = s.drop_last();
        assert(id_keys_unique(s0)) by {
            assert forall|a: int, b: int| 0 <= a < b < s0.len() implies (s0[a]).0 != (s0[b]).0 by {
                assert(s0[a] == s[a]);
                assert(s0[b] == s[b]);
            }
        }
        assert(s0[i] == s[i]);
        lemma_id_map_update(s0, i, x);
        assert(t.drop_last() =~= s0.update(i, x));
        assert(t.last() == s.last());
        assert((s[i]).0 != s.last().0);
    }
}

/// An id-keyed record table, viewed as a `Map<u64, V>`.
pub struct IdMap<V> {
    entries: Vec<(u64, V)>,
}

impl<V> View for IdMap<V> {
    type V = Map<u64, V>;

    open spec fn view(&self) -> Map<u64, V> {
        id_entries_map(self.entries_seq())
    }
}

/// Where the first entry carrying `k` stands, if any entry does.
fn id_find<V>(entries: &Vec<(u64, V)>, k: u64) -> (r: Option<usize>)
    ensures
        match r {
            Some(i) => i < entries@.len() && entries@[i as int].0 == k,
            None => forall|j: int| 0 <= j < entries@.len() ==> entries@[j].0 != k,
        },
{
    let mut i: usize = 0;
    while i < entries.len()
        invariant
            i <= entries@.len(),
            forall|j: int| 0 <= j < i ==> entries@[j].0 != k,
        decreases entries@.len() - i,
    {
        if entries[i].0 == k {
            return Some(i);
        }
        i += 1;
    }
    None
}

impl<V> IdMap<V> {
    /// The underlying entry sequence, in insertion order.
    pub closed spec fn entries_seq(&self) -> Seq<(u64, V)> {
        self.entries@
    }

    #[verifier::type_invariant]
    pub open spec fn wf(self) -> bool {
        id_keys_unique(self.entries_seq())
    }

    /// An empty table.
    pub fn new() -> (r: Self)
        ensures
            r@ == Map::<u64, V>::empty(),
            r.entries_seq().len() == 0,
    {
        IdMap { entries: Vec::new() }
    }

    /// How many records the table holds.
    pub fn len(&self) -> (r: usize)
        ensures
            r == self.entries_seq().len(),
            self@.dom().finite(),
            r == self@.dom().len(),
    {
        proof {
            use_type_invariant(&*self);
            lemma_id_map_len(self.entries_seq());
        }
        self.entries.len()
    }

    /// Whether a record is stored under `k`.
    pub fn contains(&self, k: u64) -> (r: bool)
        ensures
            r == self@.dom().contains(k),
    {
        proof {
            use_type_invariant(&*self);
            lemma_id_map_dom(self.entries_seq());
        }
        id_find(&self.entries, k).is_some()
    }

    /// The record stored under `k`, if any.
    pub fn get(&self, k: u64) -> (r: Option<&V>)
        ensures
            match r {
                Some(v) => self@.dom().contains(k) && *v == self@[k],
                None => !self@.dom().contains(k),
            },
    {
        proof {
            use_type_invariant(&*self);
            lemma_id_map_dom(self.entries_seq());
            lemma_id_map_index(self.entries_seq());
        }
        match id_find(&self.entries, k) {
            Some(i) => Some(&self.entries[i].1),
            None => None,
        }
    }

    /// Stores `v` under `k`, replacing any earlier record with that key.
    pub fn set(&mut self, k: u64, v: V)
        ensures
            final(self)@ == old(self)@.insert(k, v),
    {
        proof {
            use_type_invariant(&*self);
        }
        let mut entries: Vec<(u64, V)> = Vec::new();
        core::mem::swap(&mut entries, &mut self.entries);
        let ghost s = entries@;
        match id_find(&entries, k) {
            Some(i) => {
                proof {
                    lemma_id_map_update(s, i as int, (k, v));
                }
                entries[i] = (k, v);
            },
            None => {
                entries.push((k, v));
                proof {
                    assert(entries@.drop_last() =~= s);
                    assert(id_entries_map(entries@) =~= id_entries_map(s).insert(k, v));
                }
            },
        }
        self.entries = entries;
    }

    /// The entry at position `i` of the table's entry sequence.
    pub fn entry_at(&self, i: usize) -> (r: &(u64, V))
        requires
            i < self.entries_seq().len(),
        ensures
            *r == self.entries_seq()[i as int],
    {
        &self.entries[i]
    }

}

} // verus!
