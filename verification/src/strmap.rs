//! A record table keyed by text.
//!
//! Dynamic map-typed fields of the ledger (expertise areas, milestones,
//! progress, restrictions, analytics data) and the analytics cache are all
//! keyed by strings. This module models such a table as an association list
//! with unique keys; its view is a `Map<Seq<char>, V>`.

use vstd::prelude::*;

verus! {

/// `true` when no key occurs twice in the entry sequence.
pub open spec fn str_keys_unique<V>(s: Seq<(String, V)>) -> bool {
    forall|i: int, j: int| 0 <= i < j < s.len() ==> (s[i]).0@ != (s[j]).0@
}

/// The map described by an entry sequence; a later entry overrides an
/// earlier one with the same key.
pub open spec fn str_entries_map<V>(s: Seq<(String, V)>) -> Map<Seq<char>, V>
    decreases s.len(),
{
    if s.len() == 0 {
        Map::empty()
    } else {
        str_entries_map(s.drop_last()).insert(s.last().0@, s.last().1)
    }
}

/// `true` when some entry of `s` carries the key `k`.
pub open spec fn has_str_key<V>(s: Seq<(String, V)>, k: Seq<char>) -> bool {
    exists|i: int| 0 <= i < s.len() && (#[trigger] s[i]).0@ == k
}

/// A key is in the map's domain exactly when some entry carries it.
pub proof fn lemma_str_map_dom<V>(s: Seq<(String, V)>)
    ensures
        forall|k: Seq<char>| #[trigger] str_entries_map(s).dom().contains(k) <==> has_str_key(s, k),
    decreases s.len(),
{
    if s.len() == 0 {
    } else {
        let s0 = s.drop_last();
        lemma_str_map_dom(s0);
        let m0 = str_entries_map(s0);
        let m = str_entries_map(s);
        assert forall|k: Seq<char>| #[trigger] m.dom().contains(k) implies has_str_key(s, k) by {
            if k == s.last().0@ {
                assert((s[s.len() - 1]).0@ == k);
            } else {
                assert(m0.dom().contains(k));
                let i = choose|i: int| 0 <= i < s0.len() && (#[trigger] s0[i]).0@ == k;
                assert((s[i]).0@ == k);
            }
        }
        assert forall|k: Seq<char>| has_str_key(s, k) implies #[trigger] m.dom().contains(k) by {
            let i = choose|i: int| 0 <= i < s.len() && (#[trigger] s[i]).0@ == k;
            if i < s.len() - 1 {
                assert((s0[i]).0@ == k);
            }
        }
    }
}

/// With unique keys, each entry's value is the map's value at its key.
pub proof fn lemma_str_map_index<V>(s: Seq<(String, V)>)
    requires
        str_keys_unique(s),
    ensures
        forall|i: int|
            0 <= i < s.len() ==> str_entries_map(s).dom().contains((#[trigger] s[i]).0@)
                && str_entries_map(s)[s[i].0@] == s[i].1,
    decreases s.len(),
{
    if s.len() == 0 {
    } else {
        let s0 = s.drop_last();
        assert(str_keys_unique(s0)) by {
            assert forall|i: int, j: int| 0 <= i < j < s0.len() implies (s0[i]).0@ != (s0[j]).0@ by {
                assert(s0[i] == s[i]);
                assert(s0[j] == s[j]);
            }
        }
        lemma_str_map_index(s0);
        assert forall|i: int| 0 <= i < s.len() implies str_entries_map(s).dom().contains(
            (#[trigger] s[i]).0@,
        ) && str_entries_map(s)[s[i].0@] == s[i].1 by {
            if i < s.len() - 1 {
                assert(s0[i] == s[i]);
                assert((s[i]).0@ != s.last().0@);
            }
        }
    }
}

/// With unique keys, the map has exactly one element per entry.
pub proof fn lemma_str_map_len<V>(s: Seq<(String, V)>)
    requires
        str_keys_unique(s),
    ensures
        str_entries_map(s).dom().finite(),
        str_entries_map(s).dom().len() == s.len(),
    decreases s.len(),
{
    if s.len() == 0 {
        assert(str_entries_map(s).dom() =~= Set::<Seq<char>>::empty());
    } else {
        let s0 = s.drop_last();
        assert(str_keys_unique(s0)) by {
            assert forall|i: int, j: int| 0 <= i < j < s0.len() implies (s0[i]).0@ != (s0[j]).0@ by {
                assert(s0[i] == s[i]);
                assert(s0[j] == s[j]);
            }
        }
        lemma_str_map_len(s0);
        lemma_str_map_dom(s0);
        assert(!has_str_key(s0, s.last().0@)) by {
            if has_str_key(s0, s.last().0@) {
                let i = choose|i: int| 0 <= i < s0.len() && (#[trigger] s0[i]).0@ == s.last().0@;
                assert(s0[i] == s[i]);
                assert((s[i]).0@ == (s[s.len() - 1]).0@);
            }
        }
        assert(!str_entries_map(s0).dom().contains(s.last().0@));
    }
}

/// Replacing the entry at `i` by one with the same key updates the map at
/// that key and nothing else.
pub proof fn lemma_str_map_update<V>(s: Seq<(String, V)>, i: int, x: (String, V))
    requires
        str_keys_unique(s),
        0 <= i < s.len(),
        x.0@ == (s[i]).0@,
    ensures
        str_entries_map(s.update(i, x)) =~= str_entries_map(s).insert(x.0@, x.1),
    decreases s.len(),
{
    let t = s.update(i, x);
    if i == s.len() - 1 {
        assert(t.drop_last() =~= s.drop_last());
    } else {
        let s0 = s.drop_last();
        assert(str_keys_unique(s0)) by {
            assert forall|a: int, b: int| 0 <= a < b < s0.len() implies (s0[a]).0@ != (s0[b]).0@ by {
                assert(s0[a] == s[a]);
                assert(s0[b] == s[b]);
            }
        }
        assert(s0[i] == s[i]);
        lemma_str_map_update(s0, i, x);
        assert(t.drop_last() =~= s0.update(i, x));
        assert(t.last() == s.last());
        assert((s[i]).0@ != s.last().0@);
    }
}

/// A string-keyed record table, viewed as a `Map<Seq<char>, V>`.
pub struct StrMap<V> {
    entries: Vec<(String, V)>,
}

impl<V> View for StrMap<V> {
    type V = Map<Seq<char>, V>;

    open spec fn view(&self) -> Map<Seq<char>, V> {
        str_entries_map(self.entries_seq())
    }
}

/// Where the first entry carrying `k` stands, if any entry does.
fn str_find<V>(entries: &Vec<(String, V)>, k: &String) -> (r: Option<usize>)
    ensures
        match r {
            Some(i) => i < entries@.len() && (entries@[i as int]).0@ == k@,
            None => forall|j: int| 0 <= j < entries@.len() ==> (entries@[j]).0@ != k@,
        },
{
    let mut i: usize = 0;
    while i < entries.len()
        invariant
            i <= entries@.len(),
            forall|j: int| 0 <= j < i ==> (entries@[j]).0@ != k@,
        decreases entries@.len() - i,
    {
        if entries[i].0 == *k {
            return Some(i);
        }
        i += 1;
    }
    None
}

impl<V> StrMap<V> {
    /// The underlying entry sequence, in insertion order.
    pub closed spec fn entries_seq(&self) -> Seq<(String, V)> {
        self.entries@
    }

    #[verifier::type_invariant]
    pub open spec fn wf(self) -> bool {
        str_keys_unique(self.entries_seq())
    }

    /// An empty table.
    pub fn new() -> (r: Self)
        ensures
            r@ == Map::<Seq<char>, V>::empty(),
            r.entries_seq().len() == 0,
    {
        StrMap { entries: Vec::new() }
    }

    /// How many records the table holds.
    pub fn len(&self) -> (r: usize)
        ensures
            r == self.entries_seq().len(),
            self@.dom().finite(),
            r == self@.dom().len(),
    {
        proof {
            use_type_invariant(&*self);
            lemma_str_map_len(self.entries_seq());
        }
        self.entries.len()
    }

    /// Whether a record is stored under `k`.
    pub fn contains(&self, k: &String) -> (r: bool)
        ensures
            r == self@.dom().contains(k@),
    {
        proof {
            use_type_invariant(&*self);
            lemma_str_map_dom(self.entries_seq());
        }
        str_find(&self.entries, k).is_some()
    }

    /// The record stored under `k`, if any.
    pub fn get(&self, k: &String) -> (r: Option<&V>)
        ensures
            match r {
                Some(v) => self@.dom().contains(k@) && *v == self@[k@],
                None => !self@.dom().contains(k@),
            },
    {
        proof {
            use_type_invariant(&*self);
            lemma_str_map_dom(self.entries_seq());
            lemma_str_map_index(self.entries_seq());
        }
        match str_find(&self.entries, k) {
            Some(i) => Some(&self.entries[i].1),
            None => None,
        }
    }

    /// The entry at position `i` of the table's entry sequence.
    pub fn entry_at(&self, i: usize) -> (r: &(String, V))
        requires
            i < self.entries_seq().len(),
        ensures
            *r == self.entries_seq()[i as int],
    {
        &self.entries[i]
    }

    /// Stores `v` under `k`, replacing any earlier record with that key.
    pub fn set(&mut self, k: String, v: V)
        ensures
            final(self)@ == old(self)@.insert(k@, v),
    {
        proof {
            use_type_invariant(&*self);
        }
        let mut entries: Vec<(String, V)> = Vec::new();
        core::mem::swap(&mut entries, &mut self.entries);
        let ghost s = entries@;
        match str_find(&entries, &k) {
            Some(i) => {
                let ghost x = (k, v);
                proof {
                    lemma_str_map_update(s, i as int, x);
                }
                entries[i] = (k, v);
            },
            None => {
                entries.push((k, v));
                proof {
                    assert(entries@.drop_last() =~= s);
                    assert(str_entries_map(entries@) =~= str_entries_map(s).insert(
                        entries@.last().0@,
                        entries@.last().1,
                    ));
                }
            },
        }
        self.entries = entries;
    }
}

impl<V: Copy> StrMap<V> {
    /// A fresh table holding the same records.
    pub fn duplicate(&self) -> (r: Self)
        ensures
            r@ == self@,
            r.entries_seq().len() == self.entries_seq().len(),
    {
        proof {
            use_type_invariant(&*self);
        }
        let mut entries: Vec<(String, V)> = Vec::new();
        let n = self.entries.len();
        let mut i: usize = 0;
        while i < n
            invariant
                i <= n,
                n == self.entries_seq().len(),
                entries@.len() == i,
                forall|j: int| 0 <= j < i ==> entries@[j] == self.entries_seq()[j],
            decreases n - i,
        {
            let key = self.entries[i].0.clone();
            let value = self.entries[i].1;
            entries.push((key, value));
            i += 1;
        }
        proof {
            assert(entries@ =~= self.entries_seq());
        }
        StrMap { entries }
    }
}

} // verus!
