//! Tables that find values by their keys and keep the order of insertion.

use vstd::prelude::*;

verus! {

/// A key that can be told from others.
pub trait TableKey: View {
    fn same(&self, other: &Self) -> (same: bool)
        ensures
            same == (self@ == other@),
    ;
}

impl TableKey for String {
    fn same(&self, other: &Self) -> (same: bool) {
        *self == *other
    }
}

/// Values with keys, no two of which are the same.
pub struct Table<K: TableKey, T> {
    entries: Vec<(K, T)>,
}

impl<K: TableKey, T> Table<K, T> {
    /// The keys, in the order of insertion.
    pub closed spec fn keys(self) -> Seq<K::V> {
        self.entries@.map_values(|e: (K, T)| e.0@)
    }

    /// The values, in the order of insertion.
    pub closed spec fn values(self) -> Seq<T> {
        self.entries@.map_values(|e: (K, T)| e.1)
    }

    /// No two keys are the same.
    pub open spec fn wf(self) -> bool {
        self.keys().no_duplicates() && self.keys().len() == self.values().len()
    }

    /// The value of each key.
    pub open spec fn view(self) -> Map<K::V, T> {
        Map::new(
            |k: K::V| self.keys().contains(k),
            |k: K::V| self.values()[self.keys().index_of(k)],
        )
    }

    /// An empty table.
    pub fn new() -> (table: Self)
        ensures
            table.wf(),
            table.keys() == Seq::<K::V>::empty(),
            table.values() == Seq::<T>::empty(),
            table@ == Map::<K::V, T>::empty(),
    {
        let table = Table { entries: Vec::new() };
        assert(table.keys() =~= Seq::<K::V>::empty());
        assert(table.values() =~= Seq::<T>::empty());
        assert(table@ =~= Map::<K::V, T>::empty());
        table
    }

    /// The number of values.
    pub fn len(&self) -> (n: usize)
        ensures
            n == self.keys().len(),
            n == self.values().len(),
    {
        self.entries.len()
    }

    /// The place of a key.
    pub fn find(&self, key: &K) -> (place: Option<usize>)
        ensures
            match place {
                Some(i) => i < self.keys().len() && self.keys()[i as int] == key@,
                None => !self.keys().contains(key@),
            },
    {
        let mut i: usize = 0;
        while i < self.entries.len()
            invariant
                i <= self.entries.len(),
                forall|k: int| 0 <= k < i ==> self.keys()[k] != key@,
            decreases self.entries.len() - i,
        {
            if self.entries[i].0.same(key) {
                return Some(i);
            }
            i += 1;
        }
        None
    }

    /// The value at a place.
    pub fn value(&self, place: usize) -> (value: &T)
        requires
            place < self.values().len(),
        ensures
            *value == self.values()[place as int],
    {
        &self.entries[place].1
    }

    /// The value of a key.
    pub fn get(&self, key: &K) -> (value: Option<&T>)
        requires
            self.wf(),
        ensures
            match value {
                Some(v) => self@.contains_key(key@) && self@[key@] == *v,
                None => !self@.contains_key(key@),
            },
    {
        match self.find(key) {
            Some(i) => {
                proof {
                    let place = self.keys().index_of(key@);
                    assert(self.keys()[i as int] == key@);
                    assert(self.keys()[place] == key@);
                }
                Some(&self.entries[i].1)
            },
            None => None,
        }
    }

    /// Gives a key a value, in place of the one that it had.
    pub fn insert(&mut self, key: K, value: T)
        requires
            old(self).wf(),
        ensures
            final(self).wf(),
            final(self)@ == old(self)@.insert(key@, value),
            old(self).keys().contains(key@) ==> final(self).keys() == old(self).keys(),
            !old(self).keys().contains(key@) ==> {
                &&& final(self).keys() == old(self).keys().push(key@)
                &&& final(self).values() == old(self).values().push(value)
            },
    {
        let ghost keys = self.keys();
        let ghost values = self.values();
        let ghost k = key@;
        match self.find(&key) {
            Some(i) => {
                self.entries.set(i, (key, value));
                proof {
                    assert(self.keys() =~= keys);
                    assert(self.values() =~= values.update(i as int, value));
                    assert(keys.contains(k));
                    assert forall|o: K::V| #[trigger] self@.contains_key(o) implies self@[o]
                        == old(self)@.insert(k, value)[o] by {
                        let place = keys.index_of(o);
                        assert(keys[place] == o);
                        if o == k {
                            assert(keys[i as int] == keys[place]);
                        } else {
                            assert(place != i);
                        }
                    }
                    assert(self@ =~= old(self)@.insert(k, value));
                }
            },
            None => {
                self.entries.push((key, value));
                proof {
                    assert(self.keys() =~= keys.push(k));
                    assert(self.values() =~= values.push(value));
                    assert(self.keys().no_duplicates());
                    assert(self.keys()[keys.len() as int] == k);
                    assert forall|o: K::V| #[trigger]
                        self@.contains_key(o) <==> old(self)@.insert(k, value).contains_key(o) by {
                        if keys.contains(o) {
                            assert(self.keys()[keys.index_of(o)] == o);
                        }
                        if self.keys().contains(o) && o != k {
                            assert(keys[self.keys().index_of(o)] == o);
                        }
                    }
                    assert forall|o: K::V| #[trigger] self@.contains_key(o) implies self@[o]
                        == old(self)@.insert(k, value)[o] by {
                        let place = self.keys().index_of(o);
                        assert(self.keys()[place] == o);
                        if o == k {
                            assert(place == keys.len());
                        } else {
                            assert(keys[place] == o);
                            assert(keys[keys.index_of(o)] == o);
                        }
                    }
                    assert(self@ =~= old(self)@.insert(k, value));
                }
            },
        }
    }

    /// Takes all keys and values out.
    pub fn into_entries(self) -> (entries: Vec<(K, T)>)
        ensures
            entries.len() == self.values().len(),
            forall|i: int|
                0 <= i < entries.len() ==> (#[trigger] entries@[i]).0@ == self.keys()[i]
                    && entries@[i].1 == self.values()[i],
    {
        self.entries
    }
}

} // verus!
