//! A small table from keys to values that remembers the order in which its
//! keys first came.

use vstd::prelude::*;
use crate::account::Key;

verus! {

/// `list` with `item` at its end, unless the list holds it already.
pub open spec fn listed<A>(list: Seq<A>, item: A) -> Seq<A> {
    if list.contains(item) {
        list
    } else {
        list.push(item)
    }
}

/// A finite map from `K` to `T`, held as two vectors of equal length. A key
/// stands in the table at most once, at the place where it was first set.
pub struct Table<K, T> {
    keys: Vec<K>,
    values: Vec<T>,
}

impl<K, T> View for Table<K, T> {
    type V = Map<K, T>;

    /// The table as a map: every key that was set, with the value set last.
    closed spec fn view(&self) -> Map<K, T> {
        Map::new(
            |k: K| self.keys@.contains(k),
            |k: K| self.values@[self.keys@.index_of(k)],
        )
    }
}

impl<K: Key, T: Copy> Table<K, T> {
    /// The keys of the table, in the order in which they were first set.
    pub closed spec fn keys(&self) -> Seq<K> {
        self.keys@
    }

    /// Every key has its value, and no key stands in the table twice.
    pub closed spec fn wf(&self) -> bool {
        &&& self.keys@.len() == self.values@.len()
        &&& self.keys@.no_duplicates()
    }

    /// The keys listed by `keys` are the keys of the map, each listed once.
    pub proof fn lemma_keys(&self)
        requires
            self.wf(),
        ensures
            self.keys().no_duplicates(),
            forall|k: K| self.keys().contains(k) <==> #[trigger] self@.contains_key(k),
    {
    }

    /// An empty table.
    pub fn new() -> (r: Table<K, T>)
        ensures
            r.wf(),
            r@ == Map::<K, T>::empty(),
            r.keys() == Seq::<K>::empty(),
    {
        let r = Table { keys: Vec::new(), values: Vec::new() };
        assert(r@ =~= Map::<K, T>::empty());
        r
    }

    /// The number of keys in the table.
    pub fn len(&self) -> (r: usize)
        ensures
            r == self.keys().len(),
    {
        self.keys.len()
    }

    /// The key that came `index`-th, counted from 0.
    pub fn key(&self, index: usize) -> (r: K)
        requires
            index < self.keys().len(),
        ensures
            r == self.keys()[index as int],
    {
        self.keys[index]
    }

    /// Where `key` stands in the table, if it does.
    fn position(&self, key: &K) -> (r: Option<usize>)
        requires
            self.wf(),
        ensures
            match r {
                Some(i) => i < self.keys@.len() && self.keys@[i as int] == *key,
                None => !self.keys@.contains(*key),
            },
    {
        let mut i: usize = 0;
        while i < self.keys.len()
            invariant
                i <= self.keys@.len(),
                forall|j: int| 0 <= j < i ==> self.keys@[j] != *key,
            decreases self.keys@.len() - i,
        {
            if self.keys[i].same(key) {
                return Some(i);
            }
            i += 1;
        }
        None
    }

    /// The value set last for `key`, or `None` where none was ever set.
    pub fn get(&self, key: &K) -> (r: Option<T>)
        requires
            self.wf(),
        ensures
            r == (if self@.contains_key(*key) {
                Some(self@[*key])
            } else {
                None
            }),
    {
        match self.position(key) {
            Some(i) => {
                assert(self.keys@.index_of(*key) == i as int);
                Some(self.values[i])
            },
            None => None,
        }
    }

    /// Sets the value of `key`, in place of an earlier one if there was one.
    pub fn insert(&mut self, key: K, value: T)
        requires
            old(self).wf(),
        ensures
            final(self).wf(),
            final(self)@ == old(self)@.insert(key, value),
            final(self).keys() == listed(old(self).keys(), key),
    {
        let ghost before = *self;
        match self.position(&key) {
            Some(i) => {
                self.values[i] = value;
                assert(self@ =~= before@.insert(key, value)) by {
                    assert forall|k: K| self.keys@.contains(k) implies #[trigger] self@[k]
                        == before@.insert(key, value)[k] by {
                        let j = self.keys@.index_of(k);
                        assert(self.keys@[j] == k);
                        if k == key {
                            assert(j == i as int);
                        }
                    }
                }
            },
            None => {
                self.keys.push(key);
                self.values.push(value);
                proof {
                    let n = before.keys@.len() as int;
                    assert(self.keys@ == before.keys@.push(key));
                    assert(self.values@ == before.values@.push(value));
                    assert forall|i: int, j: int|
                        0 <= i < self.keys@.len() && 0 <= j < self.keys@.len() && i != j implies self.keys@[i]
                        != self.keys@[j] by {
                        if i < n && j < n {
                            assert(before.keys@[i] != before.keys@[j]);
                        } else if i < n {
                            assert(before.keys@[i] != key);
                        } else {
                            assert(before.keys@[j] != key);
                        }
                    }
                    assert(self.keys@.no_duplicates());
                    assert forall|k: K| self.keys@.contains(k) <==> before.keys@.contains(k) || k
                        == key by {
                        if self.keys@.contains(k) {
                            let j = self.keys@.index_of(k);
                            if j < n {
                                assert(before.keys@[j] == k);
                            }
                        }
                        if before.keys@.contains(k) {
                            let j = before.keys@.index_of(k);
                            assert(self.keys@[j] == k);
                        }
                        assert(self.keys@[n] == key);
                    }
                    assert forall|k: K| self.keys@.contains(k) implies #[trigger] self@[k]
                        == before@.insert(key, value)[k] by {
                        let j = self.keys@.index_of(k);
                        assert(self.keys@[j] == k);
                        if k == key {
                            assert(self.keys@[n] == key);
                            assert(j == n);
                        } else {
                            let j0 = before.keys@.index_of(k);
                            assert(before.keys@[j0] == k);
                            assert(self.keys@[j0] == k);
                            assert(j == j0);
                        }
                    }
                    assert(self@ =~= before@.insert(key, value));
                }
            },
        }
    }
}

} // verus!
