use vstd::prelude::*;
use crate::id::UnitsObjectId;

verus! {

/// The map that a sequence of key/value pairs denotes, later pairs taking precedence.
pub open spec fn map_of<V>(s: Seq<(UnitsObjectId, V)>) -> Map<UnitsObjectId, V>
    decreases s.len(),
{
    if s.len() == 0 {
        Map::empty()
    } else {
        map_of(s.drop_last()).insert(s.last().0, s.last().1)
    }
}

/// No key occurs twice in the sequence.
pub open spec fn keys_distinct<V>(s: Seq<(UnitsObjectId, V)>) -> bool {
    forall|i: int, j: int| 0 <= i < s.len() && 0 <= j < s.len() && i != j ==> s[i].0 != s[j].0
}

/// A key is in the denoted map exactly when some pair carries it.
pub proof fn lemma_map_of_dom<V>(s: Seq<(UnitsObjectId, V)>, k: UnitsObjectId)
    ensures
        map_of(s).dom().contains(k) <==> exists|i: int| 0 <= i < s.len() && s[i].0 == k,
    decreases s.len(),
{
    if s.len() > 0 {
        lemma_map_of_dom(s.drop_last(), k);
        if map_of(s.drop_last()).dom().contains(k) {
            let i = choose|i: int| 0 <= i < s.drop_last().len() && s.drop_last()[i].0 == k;
            assert(s[i].0 == k);
        }
        if exists|i: int| 0 <= i < s.len() && s[i].0 == k {
            let i = choose|i: int| 0 <= i < s.len() && s[i].0 == k;
            if i < s.len() - 1 {
                assert(s.drop_last()[i].0 == k);
            }
        }
    }
}

/// With distinct keys, the denoted map holds at each key the value paired with it.
pub proof fn lemma_map_of_index<V>(s: Seq<(UnitsObjectId, V)>, i: int)
    requires
        keys_distinct(s),
        0 <= i < s.len(),
    ensures
        map_of(s).dom().contains(s[i].0),
        map_of(s)[s[i].0] == s[i].1,
    decreases s.len(),
{
    if i < s.len() - 1 {
        let t = s.drop_last();
        assert(keys_distinct(t));
        lemma_map_of_index(t, i);
        assert(t[i] == s[i]);
        assert(s.last().0 != s[i].0);
    }
}

/// With distinct keys, the denoted map has one entry per pair.
pub proof fn lemma_map_of_len<V>(s: Seq<(UnitsObjectId, V)>)
    requires
        keys_distinct(s),
    ensures
        map_of(s).dom().finite(),
        map_of(s).dom().len() == s.len(),
    decreases s.len(),
{
    if s.len() > 0 {
        let t = s.drop_last();
        assert(keys_distinct(t));
        lemma_map_of_len(t);
        lemma_map_of_dom(t, s.last().0);
        if map_of(t).dom().contains(s.last().0) {
            let i = choose|i: int| 0 <= i < t.len() && t[i].0 == s.last().0;
            assert(s[i].0 == s[s.len() - 1].0);
        }
    }
}

/// A map from object identifiers to values, kept as a list of pairs with distinct keys.
pub struct IdMap<V> {
    entries: Vec<(UnitsObjectId, V)>,
}

impl<V> View for IdMap<V> {
    type V = Map<UnitsObjectId, V>;

    open spec fn view(&self) -> Map<UnitsObjectId, V> {
        map_of(self.entries())
    }
}

impl<V> IdMap<V> {
    /// The pairs, in insertion order.
    pub closed spec fn entries(&self) -> Seq<(UnitsObjectId, V)> {
        self.entries@
    }

    /// The pairs never repeat a key.
    #[verifier::type_invariant]
    pub closed spec fn inv(&self) -> bool {
        keys_distinct(self.entries@)
    }

    /// What the invariant gives: distinct keys, a finite domain with one key per pair.
    pub proof fn lemma_inv(&self)
        requires
            self.inv(),
        ensures
            keys_distinct(self.entries()),
            self@.dom().finite(),
            self@.dom().len() == self.entries().len(),
    {
        lemma_map_of_len(self.entries@);
    }

    /// An empty map.
    pub fn new() -> (m: Self)
        ensures
            m@ == Map::<UnitsObjectId, V>::empty(),
            m.entries().len() == 0,
    {
        IdMap { entries: Vec::new() }
    }

    /// Position of `k` among the pairs, if present.
    fn find(&self, k: &UnitsObjectId) -> (r: Option<usize>)
        ensures
            match r {
                Some(i) => i < self.entries().len() && self.entries()[i as int].0 == *k,
                None => forall|i: int| 0 <= i < self.entries().len() ==> self.entries()[i].0 != *k,
            },
    {
        let mut i: usize = 0;
        while i < self.entries.len()
            invariant
                i <= self.entries@.len(),
                forall|j: int| 0 <= j < i ==> self.entries@[j].0 != *k,
            decreases self.entries@.len() - i,
        {
            if self.entries[i].0 == *k {
                return Some(i);
            }
            i = i + 1;
        }
        None
    }

    /// Number of keys.
    pub fn len(&self) -> (n: usize)
        ensures
            n as nat == self@.dom().len(),
            n as nat == self.entries().len(),
    {
        proof {
            use_type_invariant(self);
            lemma_map_of_len(self.entries@);
        }
        self.entries.len()
    }

    /// Whether `k` is a key.
    pub fn contains_key(&self, k: &UnitsObjectId) -> (r: bool)
        ensures
            r == self@.dom().contains(*k),
    {
        proof {
            lemma_map_of_dom(self.entries@, *k);
        }
        self.find(k).is_some()
    }

    /// The value at `k`, if present.
    pub fn get(&self, k: &UnitsObjectId) -> (r: Option<&V>)
        ensures
            match r {
                Some(v) => self@.dom().contains(*k) && *v == self@[*k],
                None => !self@.dom().contains(*k),
            },
    {
        proof {
            use_type_invariant(self);
            lemma_map_of_dom(self.entries@, *k);
        }
        match self.find(k) {
            Some(i) => {
                proof {
                    lemma_map_of_index(self.entries@, i as int);
                }
                Some(&self.entries[i].1)
            },
            None => None,
        }
    }

    /// The pairs, in insertion order, taken out of the map.
    pub fn into_entries(self) -> (v: Vec<(UnitsObjectId, V)>)
        ensures
            v@ == self.entries(),
            map_of(v@) == self@,
    {
        self.entries
    }

    /// The pair at position `i`.
    pub fn entry(&self, i: usize) -> (r: &(UnitsObjectId, V))
        requires
            i < self.entries().len(),
        ensures
            *r == self.entries()[i as int],
    {
        &self.entries[i]
    }

    /// Insert or overwrite the value at `k`.
    pub fn insert(&mut self, k: UnitsObjectId, v: V)
        ensures
            final(self)@ == old(self)@.insert(k, v),
    {
        proof {
            use_type_invariant(&*self);
        }
        let ghost old_entries = self.entries@;
        match self.find(&k) {
            Some(i) => {
                let mut entries = Vec::new();
                std::mem::swap(&mut entries, &mut self.entries);
                entries.set(i, (k, v));
                proof {
                    let s = entries@;
                    assert(keys_distinct(s));
                    assert forall|key: UnitsObjectId| #[trigger] map_of(s).dom().contains(key)
                        <==> map_of(old_entries).insert(k, v).dom().contains(key) by {
                        lemma_map_of_dom(s, key);
                        lemma_map_of_dom(old_entries, key);
                        if exists|j: int| 0 <= j < old_entries.len() && old_entries[j].0 == key {
                            let j = choose|j: int| 0 <= j < old_entries.len() && old_entries[j].0 == key;
                            assert(s[j].0 == key);
                        }
                    }
                    assert forall|key: UnitsObjectId| #[trigger] map_of(s).dom().contains(key)
                        implies map_of(s)[key] == map_of(old_entries).insert(k, v)[key] by {
                        lemma_map_of_dom(s, key);
                        let j = choose|j: int| 0 <= j < s.len() && s[j].0 == key;
                        lemma_map_of_index(s, j);
                        if j != i {
                            lemma_map_of_index(old_entries, j);
                        }
                    }
                    assert(map_of(s) =~= map_of(old_entries).insert(k, v));
                }
                self.entries = entries;
            },
            None => {
                assert(forall|j: int| 0 <= j < self.entries().len() ==> self.entries()[j].0 != k);
                assert(forall|j: int| 0 <= j < old_entries.len() ==> old_entries[j].0 != k);
                let mut entries = Vec::new();
                std::mem::swap(&mut entries, &mut self.entries);
                entries.push((k, v));
                proof {
                    assert(entries@.drop_last() =~= old_entries);
                    assert forall|a: int, b: int| 0 <= a < entries@.len() && 0 <= b < entries@.len() && a != b
                        implies entries@[a].0 != entries@[b].0 by {
                        if a < old_entries.len() && b < old_entries.len() {
                            assert(entries@[a] == old_entries[a]);
                            assert(entries@[b] == old_entries[b]);
                        }
                    }
                }
                self.entries = entries;
            },
        }
    }

    /// Remove the pair at `k`, if any, returning its value.
    pub fn remove(&mut self, k: &UnitsObjectId) -> (r: Option<V>)
        ensures
            final(self)@ == old(self)@.remove(*k),
            r == (if old(self)@.dom().contains(*k) { Some(old(self)@[*k]) } else { None::<V> }),
    {
        proof {
            use_type_invariant(&*self);
            lemma_map_of_dom(self.entries@, *k);
        }
        let ghost old_entries = self.entries@;
        match self.find(k) {
            Some(i) => {
                proof {
                    lemma_map_of_index(old_entries, i as int);
                }
                let mut entries = Vec::new();
                std::mem::swap(&mut entries, &mut self.entries);
                let (_, v) = entries.remove(i);
                proof {
                    let s = entries@;
                    assert(s =~= old_entries.remove(i as int));
                    assert(keys_distinct(s));
                    assert forall|key: UnitsObjectId| #[trigger] map_of(s).dom().contains(key)
                        <==> map_of(old_entries).remove(*k).dom().contains(key) by {
                        lemma_map_of_dom(s, key);
                        lemma_map_of_dom(old_entries, key);
                        if exists|j: int| 0 <= j < old_entries.len() && old_entries[j].0 == key {
                            let j = choose|j: int| 0 <= j < old_entries.len() && old_entries[j].0 == key;
                            if j < i {
                                assert(s[j].0 == key);
                            } else if j > i {
                                assert(s[j - 1].0 == key);
                            }
                        }
                        if exists|j: int| 0 <= j < s.len() && s[j].0 == key {
                            let j = choose|j: int| 0 <= j < s.len() && s[j].0 == key;
                            if j < i {
                                assert(old_entries[j].0 == key);
                            } else {
                                assert(old_entries[j + 1].0 == key);
                            }
                        }
                    }
                    assert forall|key: UnitsObjectId| #[trigger] map_of(s).dom().contains(key)
                        implies map_of(s)[key] == map_of(old_entries).remove(*k)[key] by {
                        lemma_map_of_dom(s, key);
                        let j = choose|j: int| 0 <= j < s.len() && s[j].0 == key;
                        lemma_map_of_index(s, j);
                        if j < i {
                            lemma_map_of_index(old_entries, j);
                        } else {
                            lemma_map_of_index(old_entries, j + 1);
                        }
                    }
                    assert(map_of(s) =~= map_of(old_entries).remove(*k));
                }
                self.entries = entries;
                Some(v)
            },
            None => {
                proof {
                    assert(forall|j: int| 0 <= j < self.entries().len() ==> self.entries()[j].0 != *k);
                    assert(forall|j: int| 0 <= j < old_entries.len() ==> old_entries[j].0 != *k);
                    assert(!map_of(old_entries).dom().contains(*k));
                    assert(map_of(old_entries) =~= map_of(old_entries).remove(*k));
                }
                None
            },
        }
    }
}

} // verus!
