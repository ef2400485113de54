//! A map from keys to values kept as a list of entries, in which no key
//! occurs twice.
//!
//! The keys of the front end's maps are ids of this library (a movie id, or a
//! movie id with one of its episodes). vstd specifies `HashMap` lookups only
//! for keys whose hashing and equality it knows, not for such structs, so the
//! maps are kept here as entries, with the uniqueness of keys as invariant.
use vstd::prelude::*;

verus! {

/// Keys that can be compared for equality.
pub trait SameKey: Sized {
    fn same_key(&self, other: &Self) -> (r: bool)
        ensures
            r == (*self == *other),
    ;
}

/// No key occurs twice among the entries.
pub open spec fn keys_unique<K, V>(s: Seq<(K, V)>) -> bool {
    forall|i: int, j: int| 0 <= i < j < s.len() ==> s[i].0 != s[j].0
}

/// The map that the entries make, a later entry winning over an earlier one.
pub open spec fn entries_map<K, V>(s: Seq<(K, V)>) -> Map<K, V>
    decreases s.len(),
{
    if s.len() == 0 {
        Map::empty()
    } else {
        entries_map(s.drop_last()).insert(s.last().0, s.last().1)
    }
}

proof fn lemma_entries_map_contains<K, V>(s: Seq<(K, V)>, k: K)
    ensures
        entries_map(s).contains_key(k) <==> exists|i: int| 0 <= i < s.len() && s[i].0 == k,
    decreases s.len(),
{
    if s.len() > 0 {
        lemma_entries_map_contains(s.drop_last(), k);
        if entries_map(s).contains_key(k) {
            if s.last().0 != k {
                let i = choose|i: int| 0 <= i < s.drop_last().len() && s.drop_last()[i].0 == k;
                assert(s[i].0 == k);
            } else {
                assert(s[s.len() - 1].0 == k);
            }
        }
        if exists|i: int| 0 <= i < s.len() && s[i].0 == k {
            let i = choose|i: int| 0 <= i < s.len() && s[i].0 == k;
            if i < s.len() - 1 {
                assert(s.drop_last()[i].0 == k);
            }
        }
    }
}

proof fn lemma_entries_map_at<K, V>(s: Seq<(K, V)>, i: int)
    requires
        keys_unique(s),
        0 <= i < s.len(),
    ensures
        entries_map(s).contains_key(s[i].0),
        entries_map(s)[s[i].0] == s[i].1,
    decreases s.len(),
{
    if i < s.len() - 1 {
        assert(s.drop_last()[i] == s[i]);
        lemma_entries_map_at(s.drop_last(), i);
        assert(s[i].0 != s[s.len() - 1].0);
    }
}

proof fn lemma_entries_map_update<K, V>(s: Seq<(K, V)>, i: int, v: V)
    requires
        keys_unique(s),
        0 <= i < s.len(),
    ensures
        entries_map(s.update(i, (s[i].0, v))) =~= entries_map(s).insert(s[i].0, v),
        keys_unique(s.update(i, (s[i].0, v))),
    decreases s.len(),
{
    let t = s.update(i, (s[i].0, v));
    if i == s.len() - 1 {
        assert(t.drop_last() =~= s.drop_last());
    } else {
        assert(t.drop_last() =~= s.drop_last().update(i, (s[i].0, v)));
        assert(s.drop_last()[i] == s[i]);
        lemma_entries_map_update(s.drop_last(), i, v);
        assert(s[i].0 != s[s.len() - 1].0);
    }
}

proof fn lemma_entries_map_remove<K, V>(s: Seq<(K, V)>, i: int)
    requires
        keys_unique(s),
        0 <= i < s.len(),
    ensures
        entries_map(s.remove(i)) =~= entries_map(s).remove(s[i].0),
        keys_unique(s.remove(i)),
    decreases s.len(),
{
    let t = s.remove(i);
    if i == s.len() - 1 {
        assert(t =~= s.drop_last());
        lemma_entries_map_contains(s.drop_last(), s[i].0);
        assert forall|j: int| 0 <= j < s.drop_last().len() implies s.drop_last()[j].0 != s[i].0 by {
            assert(s.drop_last()[j] == s[j]);
        }
    } else {
        assert(t.drop_last() =~= s.drop_last().remove(i));
        assert(t.last() == s.last());
        assert(s.drop_last()[i] == s[i]);
        lemma_entries_map_remove(s.drop_last(), i);
        assert(s[i].0 != s[s.len() - 1].0);
    }
}

/// A map kept as a list of entries with distinct keys.
pub struct KeyedMap<K, V> {
    entries: Vec<(K, V)>,
}

impl<K, V> View for KeyedMap<K, V> {
    type V = Map<K, V>;

    closed spec fn view(&self) -> Map<K, V> {
        entries_map(self.entries@)
    }
}

impl<K, V> KeyedMap<K, V> {
    #[verifier::type_invariant]
    spec fn wf(self) -> bool {
        keys_unique(self.entries@)
    }
}

impl<K: SameKey, V> KeyedMap<K, V> {
    /// An empty map.
    pub fn new() -> (r: Self)
        ensures
            r@ == Map::<K, V>::empty(),
    {
        let r = KeyedMap { entries: Vec::new() };
        assert(r@ =~= Map::<K, V>::empty());
        r
    }

    /// The position of the entry with key `k`.
    fn position(&self, k: &K) -> (r: Option<usize>)
        ensures
            match r {
                Some(i) => i < self.entries@.len() && self.entries@[i as int].0 == *k,
                None => forall|i: int| 0 <= i < self.entries@.len() ==> self.entries@[i].0 != *k,
            },
    {
        let mut i: usize = 0;
        while i < self.entries.len()
            invariant
                i <= self.entries@.len(),
                forall|j: int| 0 <= j < i ==> self.entries@[j].0 != *k,
            decreases self.entries@.len() - i,
        {
            if self.entries[i].0.same_key(k) {
                return Some(i);
            }
            i = i + 1;
        }
        None
    }

    /// Whether the map has the key `k`.
    pub fn contains_key(&self, k: &K) -> (r: bool)
        ensures
            r == self@.contains_key(*k),
    {
        proof {
            lemma_entries_map_contains(self.entries@, *k);
        }
        self.position(k).is_some()
    }

    /// The value at `k`.
    pub fn get(&self, k: &K) -> (r: Option<&V>)
        ensures
            match r {
                Some(v) => self@.contains_key(*k) && *v == self@[*k],
                None => !self@.contains_key(*k),
            },
    {
        proof {
            use_type_invariant(self);
            lemma_entries_map_contains(self.entries@, *k);
        }
        match self.position(k) {
            Some(i) => {
                proof {
                    lemma_entries_map_at(self.entries@, i as int);
                }
                Some(&self.entries[i].1)
            },
            None => None,
        }
    }

    /// Sets the value at `k`.
    pub fn insert(&mut self, k: K, v: V)
        ensures
            final(self)@ == old(self)@.insert(k, v),
    {
        proof {
            use_type_invariant(&*self);
        }
        let found = self.position(&k);
        let mut entries = Vec::new();
        std::mem::swap(&mut entries, &mut self.entries);
        match found {
            Some(i) => {
                proof {
                    lemma_entries_map_update(entries@, i as int, v);
                }
                entries[i] = (k, v);
            },
            None => {
                proof {
                    assert(entries@.push((k, v)).drop_last() =~= entries@);
                }
                entries.push((k, v));
            },
        }
        self.entries = entries;
    }

    /// Takes the value at `k` out of the map.
    pub fn remove(&mut self, k: &K) -> (r: Option<V>)
        ensures
            final(self)@ == old(self)@.remove(*k),
            match r {
                Some(v) => old(self)@.contains_key(*k) && v == old(self)@[*k],
                None => !old(self)@.contains_key(*k) && final(self)@ == old(self)@,
            },
    {
        proof {
            use_type_invariant(&*self);
            lemma_entries_map_contains(self.entries@, *k);
        }
        match self.position(k) {
            Some(i) => {
                proof {
                    lemma_entries_map_at(self.entries@, i as int);
                    lemma_entries_map_remove(self.entries@, i as int);
                }
                let mut entries = Vec::new();
                std::mem::swap(&mut entries, &mut self.entries);
                let (_, v) = entries.remove(i);
                self.entries = entries;
                Some(v)
            },
            None => {
                assert(old(self)@.remove(*k) =~= old(self)@);
                None
            },
        }
    }

    /// The number of entries.
    pub fn len(&self) -> (r: usize)
        ensures
            r == self@.len(),
    {
        proof {
            use_type_invariant(self);
            lemma_entries_map_len(self.entries@);
        }
        self.entries.len()
    }

    /// The entries, each key once, in the order the map keeps them.
    pub fn entries(&self) -> (r: &[(K, V)])
        ensures
            keys_unique(r@),
            entries_map(r@) == self@,
    {
        proof {
            use_type_invariant(self);
        }
        self.entries.as_slice()
    }
}

proof fn lemma_entries_map_len<K, V>(s: Seq<(K, V)>)
    requires
        keys_unique(s),
    ensures
        entries_map(s).len() == s.len(),
        entries_map(s).dom().finite(),
    decreases s.len(),
{
    if s.len() > 0 {
        lemma_entries_map_len(s.drop_last());
        lemma_entries_map_contains(s.drop_last(), s.last().0);
        assert forall|j: int| 0 <= j < s.drop_last().len() implies s.drop_last()[j].0 != s.last().0 by {
            assert(s.drop_last()[j] == s[j]);
        }
    }
}

/// What a read gives back of a write: after `insert(k, v)` the map holds `v`
/// at `k` and every other key as before; after `remove(k)` it holds nothing
/// at `k` and every other key as before.
pub proof fn law_read_after_write<K, V>(before: Map<K, V>, k: K, v: V, other: K)
    requires
        other != k,
    ensures
        before.insert(k, v).contains_key(k),
        before.insert(k, v)[k] == v,
        before.insert(k, v).contains_key(other) == before.contains_key(other),
        before.contains_key(other) ==> before.insert(k, v)[other] == before[other],
        !before.remove(k).contains_key(k),
        before.remove(k).contains_key(other) == before.contains_key(other),
        before.contains_key(other) ==> before.remove(k)[other] == before[other],
{
}

} // verus!
