//! A record table keyed by a user id and a subject.
//!
//! Current reputation scores are stored per (user, subject) pair. This module
//! models such a table as an association list with unique keys; its view is a
//! `Map<(u64, Seq<char>), V>`.

use vstd::prelude::*;

verus! {

/// The mathematical key of an entry: the user id and the subject text.
pub open spec fn pair_key_of<V>(p: ((u64, String), V)) -> (u64, Seq<char>) {
    (p.0.0, p.0.1@)
}

/// `true` when no (user, subject) pair occurs twice in the entry sequence.
pub open spec fn pair_keys_unique<V>(s: Seq<((u64, String), V)>) -> bool {
    forall|i: int, j: int|
        0 <= i < j < s.len() ==> pair_key_of(#[trigger] s[i]) != pair_key_of(#[trigger] s[j])
}

/// The map described by an entry sequence; a later entry overrides an
/// earlier one with the same key.
pub open spec fn pair_entries_map<V>(s: Seq<((u64, String), V)>) -> Map<(u64, Seq<char>), V>
    decreases s.len(),
{
    if s.len() == 0 {
        Map::empty()
    } else {
        pair_entries_map(s.drop_last()).insert(pair_key_of(s.last()), s.last().1)
    }
}

/// `true` when some entry of `s` carries the key `k`.
pub open spec fn has_pair_key<V>(s: Seq<((u64, String), V)>, k: (u64, Seq<char>)) -> bool {
    exists|i: int| 0 <= i < s.len() && pair_key_of(#[trigger] s[i]) == k
}

/// A key is in the map's domain exactly when some entry carries it.
pub proof fn lemma_pair_map_dom<V>(s: Seq<((u64, String), V)>)
    ensures
        forall|k: (u64, Seq<char>)| #[trigger]
            pair_entries_map(s).dom().contains(k) <==> has_pair_key(s, k),
    decreases s.len(),
{
    if s.len() == 0 {
    } else {
        let s0 = s.drop_last();
        lemma_pair_map_dom(s0);
        let m0 = pair_entries_map(s0);
        let m = pair_entries_map(s);
        assert forall|k: (u64, Seq<char>)| #[trigger] m.dom().contains(k) implies has_pair_key(
            s,
            k,
        ) by {
            if k == pair_key_of(s.last()) {
                assert(pair_key_of(s[s.len() - 1]) == k);
            } else {
                assert(m0.dom().contains(k));
                let i = choose|i: int| 0 <= i < s0.len() && pair_key_of(#[trigger] s0[i]) == k;
                assert(pair_key_of(s[i]) == k);
            }
        }
        assert forall|k: (u64, Seq<char>)| has_pair_key(s, k) implies #[trigger] m.dom().contains(
            k,
        ) by {
            let i = choose|i: int| 0 <= i < s.len() && pair_key_of(#[trigger] s[i]) == k;
            if i < s.len() - 1 {
                assert(pair_key_of(s0[i]) == k);
            }
        }
    }
}

/// With unique keys, each entry's value is the map's value at its key.
pub proof fn lemma_pair_map_index<V>(s: Seq<((u64, String), V)>)
    requires
        pair_keys_unique(s),
    ensures
        forall|i: int|
            0 <= i < s.len() ==> pair_entries_map(s).dom().contains(pair_key_of(#[trigger] s[i]))
                && pair_entries_map(s)[pair_key_of(s[i])] == s[i].1,
    decreases s.len(),
{
    if s.len() == 0 {
    } else {
        let s0 = s.drop_last();
        assert(pair_keys_unique(s0)) by {
            assert forall|i: int, j: int| 0 <= i < j < s0.len() implies pair_key_of(
                #[trigger] s0[i],
            ) != pair_key_of(#[trigger] s0[j]) by {
                assert(s0[i] == s[i]);
                assert(s0[j] == s[j]);
            }
        }
        lemma_pair_map_index(s0);
        assert forall|i: int| 0 <= i < s.len() implies pair_entries_map(s).dom().contains(
            pair_key_of(#[trigger] s[i]),
        ) && pair_entries_map(s)[pair_key_of(s[i])] == s[i].1 by {
            if i < s.len() - 1 {
                assert(s0[i] == s[i]);
                assert(pair_key_of(s[i]) != pair_key_of(s.last()));
            }
        }
    }
}

/// Replacing the entry at `i` by one with the same key updates the map at
/// that key and nothing else.
pub proof fn lemma_pair_map_update<V>(s: Seq<((u64, String), V)>, i: int, x: ((u64, String), V))
    requires
        pair_keys_unique(s),
        0 <= i < s.len(),
        pair_key_of(x) == pair_key_of(s[i]),
    ensures
        pair_entries_map(s.update(i, x)) =~= pair_entries_map(s).insert(pair_key_of(x), x.1),
    decreases s.len(),
{
    let t = s.update(i, x);
    if i == s.len() - 1 {
        assert(t.drop_last() =~= s.drop_last());
    } else {
        let s0 = s.drop_last();
        assert(pair_keys_unique(s0)) by {
            assert forall|a: int, b: int| 0 <= a < b < s0.len() implies pair_key_of(
                #[trigger] s0[a],
            ) != pair_key_of(#[trigger] s0[b]) by {
                assert(s0[a] == s[a]);
                assert(s0[b] == s[b]);
            }
        }
        assert(s0[i] == s[i]);
        lemma_pair_map_update(s0, i, x);
        assert(t.drop_last() =~= s0.update(i, x));
        assert(t.last() == s.last());
        assert(pair_key_of(s[i]) != pair_key_of(s.last()));
    }
}

/// A (user, subject)-keyed record table, viewed as a `Map<(u64, Seq<char>), V>`.
pub struct PairMap<V> {
    entries: Vec<((u64, String), V)>,
}

impl<V> View for PairMap<V> {
    type V = Map<(u64, Seq<char>), V>;

    open spec fn view(&self) -> Map<(u64, Seq<char>), V> {
        pair_entries_map(self.entries_seq())
    }
}

/// Where the first entry carrying the key `(id, subject)` stands, if any does.
fn pair_find<V>(entries: &Vec<((u64, String), V)>, id: u64, subject: &String) -> (r: Option<usize>)
    ensures
        match r {
            Some(i) => i < entries@.len() && pair_key_of(entries@[i as int]) == (id, subject@),
            None => forall|j: int|
                0 <= j < entries@.len() ==> pair_key_of(#[trigger] entries@[j]) != (id, subject@),
        },
{
    let mut i: usize = 0;
    while i < entries.len()
        invariant
            i <= entries@.len(),
            forall|j: int| 0 <= j < i ==> pair_key_of(#[trigger] entries@[j]) != (id, subject@),
        decreases entries@.len() - i,
    {
        if entries[i].0.0 == id && entries[i].0.1 == *subject {
            return Some(i);
        }
        i += 1;
    }
    None
}

impl<V> PairMap<V> {
    /// The underlying entry sequence, in insertion order.
    pub closed spec fn entries_seq(&self) -> Seq<((u64, String), V)> {
        self.entries@
    }

    #[verifier::type_invariant]
    pub open spec fn wf(self) -> bool {
        pair_keys_unique(self.entries_seq())
    }

    /// An empty table.
    pub fn new() -> (r: Self)
        ensures
            r@ == Map::<(u64, Seq<char>), V>::empty(),
            r.entries_seq().len() == 0,
    {
        PairMap { entries: Vec::new() }
    }

    /// Whether a record is stored for `(id, subject)`.
    pub fn contains(&self, id: u64, subject: &String) -> (r: bool)
        ensures
            r == self@.dom().contains((id, subject@)),
    {
        proof {
            use_type_invariant(&*self);
            lemma_pair_map_dom(self.entries_seq());
        }
        pair_find(&self.entries, id, subject).is_some()
    }

    /// The record stored for `(id, subject)`, if any.
    pub fn get(&self, id: u64, subject: &String) -> (r: Option<&V>)
        ensures
            match r {
                Some(v) => self@.dom().contains((id, subject@)) && *v == self@[(id, subject@)],
                None => !self@.dom().contains((id, subject@)),
            },
    {
        proof {
            use_type_invariant(&*self);
            lemma_pair_map_dom(self.entries_seq());
            lemma_pair_map_index(self.entries_seq());
        }
        match pair_find(&self.entries, id, subject) {
            Some(i) => Some(&self.entries[i].1),
            None => None,
        }
    }

    /// Stores `v` for `(id, subject)`, replacing any earlier record with
    /// that key.
    pub fn set(&mut self, id: u64, subject: String, v: V)
        ensures
            final(self)@ == old(self)@.insert((id, subject@), v),
    {
        proof {
            use_type_invariant(&*self);
        }
        let mut entries: Vec<((u64, String), V)> = Vec::new();
        core::mem::swap(&mut entries, &mut self.entries);
        let ghost s = entries@;
        match pair_find(&entries, id, &subject) {
            Some(i) => {
                let ghost x = ((id, subject), v);
                proof {
                    lemma_pair_map_update(s, i as int, x);
                }
                entries[i] = ((id, subject), v);
            },
            None => {
                entries.push(((id, subject), v));
                proof {
                    assert(entries@.drop_last() =~= s);
                    assert(pair_entries_map(entries@) =~= pair_entries_map(s).insert(
                        pair_key_of(entries@.last()),
                        entries@.last().1,
                    ));
                }
            },
        }
        self.entries = entries;
    }
}

} // verus!
