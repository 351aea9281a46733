//! Values by key, kept as a vector of entries with unique keys.

use vstd::prelude::*;

verus! {

/// Keys compared by their view.
pub trait TableKey: View + Sized {
    fn same_key(&self, other: &Self) -> (r: bool)
        ensures
            r == (self@ == other@),
    ;
}

impl TableKey for u64 {
    fn same_key(&self, other: &Self) -> (r: bool) {
        *self == *other
    }
}

impl TableKey for String {
    fn same_key(&self, other: &Self) -> (r: bool) {
        *self == *other
    }
}

/// `entries` hold the pairs of `model`, each key once.
spec fn entries_match<K: TableKey, V>(entries: Seq<(K, V)>, model: Map<K::V, V>) -> bool {
    &&& forall|i: int|
        #![trigger entries[i]]
        0 <= i < entries.len() ==> {
            &&& model.contains_key(entries[i].0@)
            &&& model[entries[i].0@] == entries[i].1
        }
    &&& forall|k: K::V|
        #[trigger] model.contains_key(k) ==> exists|i: int| 0 <= i < entries.len() && entries[i].0@ == k
    &&& forall|i: int, j: int|
        #![trigger entries[i], entries[j]]
        0 <= i < entries.len() && 0 <= j < entries.len() && i != j ==> entries[i].0@ != entries[j].0@
}

/// A finite map from key views to values.
pub struct KeyedTable<K: TableKey, V> {
    entries: Vec<(K, V)>,
    model: Ghost<Map<K::V, V>>,
}

impl<K: TableKey, V> View for KeyedTable<K, V> {
    type V = Map<K::V, V>;

    closed spec fn view(&self) -> Map<K::V, V> {
        self.model@
    }
}

impl<K: TableKey, V> KeyedTable<K, V> {
    #[verifier::type_invariant]
    spec fn consistent(self) -> bool {
        entries_match(self.entries@, self.model@)
    }

    /// An empty table.
    pub fn new() -> (r: Self)
        ensures
            r@ == Map::<K::V, V>::empty(),
    {
        KeyedTable { entries: Vec::new(), model: Ghost(Map::empty()) }
    }

    /// Where `key` is, if it is there.
    fn find(&self, key: &K) -> (r: Option<usize>)
        ensures
            r is Some <==> self@.contains_key(key@),
            r matches Some(i) ==> {
                &&& i < self.entries@.len()
                &&& self.entries@[i as int].0@ == key@
                &&& self@[key@] == self.entries@[i as int].1
            },
    {
        proof {
            use_type_invariant(self);
        }
        let n = self.entries.len();
        let mut i: usize = 0;
        while i < n
            invariant
                entries_match(self.entries@, self.model@),
                n == self.entries@.len(),
                i <= n,
                forall|j: int| 0 <= j < i ==> self.entries@[j].0@ != key@,
            decreases n - i,
        {
            if self.entries[i].0.same_key(key) {
                return Some(i);
            }
            i = i + 1;
        }
        proof {
            if self.model@.contains_key(key@) {
                let j = choose|j: int| 0 <= j < self.entries@.len() && self.entries@[j].0@ == key@;
                assert(self.entries@[j].0@ != key@);
            }
        }
        None
    }

    /// Whether `key` is there.
    pub fn contains(&self, key: &K) -> (r: bool)
        ensures
            r == self@.contains_key(key@),
    {
        self.find(key).is_some()
    }

    /// The value under `key`, if any.
    pub fn get(&self, key: &K) -> (r: Option<&V>)
        ensures
            r is Some <==> self@.contains_key(key@),
            r matches Some(v) ==> *v == self@[key@],
    {
        match self.find(key) {
            None => None,
            Some(i) => Some(&self.entries[i].1),
        }
    }

    /// Put `value` under `key` when the key is free; with the key taken,
    /// nothing changes and false is returned.
    pub fn insert_new(&mut self, key: K, value: V) -> (r: bool)
        ensures
            r == !old(self)@.contains_key(key@),
            r ==> final(self)@ == old(self)@.insert(key@, value),
            !r ==> final(self)@ == old(self)@,
    {
        proof {
            use_type_invariant(&*self);
        }
        if self.find(&key).is_some() {
            return false;
        }
        let ghost k = key@;
        let ghost old_entries = self.entries@;
        let ghost old_model = self.model@;
        let ghost new_model = old_model.insert(k, value);
        proof {
            assert forall|i: int| 0 <= i < old_entries.len() implies old_entries[i].0@ != k by {
                assert(old_model.contains_key(old_entries[i].0@));
            }
        }
        let mut table = KeyedTable::new();
        std::mem::swap(&mut table, self);
        let mut entries = table.entries;
        entries.push((key, value));
        proof {
            assert forall|i: int| #![trigger entries@[i]] 0 <= i < entries@.len() implies {
                &&& new_model.contains_key(entries@[i].0@)
                &&& new_model[entries@[i].0@] == entries@[i].1
            } by {
                if i < old_entries.len() {
                    assert(entries@[i] == old_entries[i]);
                }
            }
            assert forall|a: int, b: int|
                #![trigger entries@[a], entries@[b]]
                0 <= a < entries@.len() && 0 <= b < entries@.len() && a != b implies entries@[a].0@
                != entries@[b].0@ by {
                if a < old_entries.len() {
                    assert(entries@[a] == old_entries[a]);
                }
                if b < old_entries.len() {
                    assert(entries@[b] == old_entries[b]);
                }
            }
            assert forall|j: K::V| #[trigger] new_model.contains_key(j) implies exists|i: int|
                0 <= i < entries@.len() && entries@[i].0@ == j by {
                if j == k {
                    assert(entries@[old_entries.len() as int].0@ == j);
                } else {
                    let i = choose|i: int| 0 <= i < old_entries.len() && old_entries[i].0@ == j;
                    assert(entries@[i] == old_entries[i]);
                }
            }
        }
        assert(entries_match(entries@, new_model));
        *self = KeyedTable { entries, model: Ghost(new_model) };
        true
    }

    /// Drop the value under `key`, if there is one; with none there,
    /// nothing changes.
    pub fn remove(&mut self, key: &K)
        ensures
            final(self)@ == old(self)@.remove(key@),
            !old(self)@.contains_key(key@) ==> final(self)@ == old(self)@,
    {
        proof {
            use_type_invariant(&*self);
        }
        match self.find(key) {
            None => {
                assert(self.model@.remove(key@) =~= self.model@);
            },
            Some(i) => {
                let ghost k = key@;
                let ghost old_entries = self.entries@;
                let ghost old_model = self.model@;
                let ghost new_model = old_model.remove(k);
                let mut table = KeyedTable::new();
                std::mem::swap(&mut table, self);
                let mut entries = table.entries;
                let last = (entries.len() - 1) as usize;
                let _removed = entries.swap_remove(i);
                proof {
                    let e = entries@;
                    assert(e == old_entries.update(i as int, old_entries.last()).drop_last());
                    assert forall|j: int| #![trigger e[j]] 0 <= j < e.len() implies {
                        &&& new_model.contains_key(e[j].0@)
                        &&& new_model[e[j].0@] == e[j].1
                    } by {
                        let src = if j == i { last as int } else { j };
                        assert(e[j] == old_entries[src]);
                        assert(src != i);
                        assert(old_model.contains_key(old_entries[src].0@));
                    }
                    assert forall|j: K::V| #[trigger] new_model.contains_key(j) implies exists|
                        x: int,
                    | 0 <= x < e.len() && e[x].0@ == j by {
                        let s = choose|s: int| 0 <= s < old_entries.len() && old_entries[s].0@ == j;
                        assert(s != i);
                        if s == last {
                            assert(e[i as int] == old_entries[s]);
                        } else {
                            assert(e[s] == old_entries[s]);
                        }
                    }
                    assert forall|a: int, b: int|
                        #![trigger e[a], e[b]]
                        0 <= a < e.len() && 0 <= b < e.len() && a != b implies e[a].0@ != e[b].0@ by {
                        let sa = if a == i { last as int } else { a };
                        let sb = if b == i { last as int } else { b };
                        assert(e[a] == old_entries[sa]);
                        assert(e[b] == old_entries[sb]);
                    }
                }
                assert(entries_match(entries@, new_model));
                *self = KeyedTable { entries, model: Ghost(new_model) };
            },
        }
    }
}

} // verus!
