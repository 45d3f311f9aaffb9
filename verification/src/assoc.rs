//! A map that keeps its entries in a list.

use vstd::prelude::*;

verus! {

/// A value that entries of an [`AssocMap`] can be found by.
pub trait Key: Sized {
    /// What tells one key from another.
    type K;

    /// What this key stands for.
    spec fn key(&self) -> Self::K;

    /// Whether two keys stand for the same thing.
    fn same(&self, other: &Self) -> (r: bool)
        ensures
            r == (self.key() == other.key()),
    ;

    /// Another key that stands for the same thing.
    fn copied(&self) -> (r: Self)
        ensures
            r.key() == self.key(),
    ;
}

/// The keys of a list of entries.
pub open spec fn entry_keys<K: Key, V>(entries: Seq<(K, V)>) -> Seq<K::K> {
    Seq::new(entries.len(), |i: int| entries[i].0.key())
}

/// A map from `K` to `V`, kept as a list of entries in which no key occurs twice.
#[derive(Debug)]
pub struct AssocMap<K: Key, V> {
    entries: Vec<(K, V)>,
}

impl<K: Key, V> View for AssocMap<K, V> {
    type V = Map<K::K, V>;

    closed spec fn view(&self) -> Map<K::K, V> {
        Map::new(
            |k: K::K| entry_keys(self.entries@).contains(k),
            |k: K::K| self.entries@[entry_keys(self.entries@).index_of(k)].1,
        )
    }
}

impl<K: Key, V> AssocMap<K, V> {
    #[verifier::type_invariant]
    spec fn well_formed(&self) -> bool {
        entry_keys(self.entries@).no_duplicates()
    }

    /// The keys of the map, each once, in the order in which the map lists them.
    pub closed spec fn key_list(&self) -> Seq<K::K> {
        entry_keys(self.entries@)
    }

    /// A map without entries.
    pub fn new() -> (r: Self)
        ensures
            r@ == Map::<K::K, V>::empty(),
            r.key_list() == Seq::<K::K>::empty(),
    {
        let r = AssocMap { entries: Vec::new() };
        assert(r@ =~= Map::<K::K, V>::empty());
        assert(r.key_list() =~= Seq::<K::K>::empty());
        r
    }

    /// The place of a key in the list.
    fn position(&self, key: &K) -> (r: Option<usize>)
        ensures
            match r {
                Some(i) => {
                    &&& i < self.entries@.len()
                    &&& self.entries@[i as int].0.key() == key.key()
                    &&& self@.dom().contains(key.key())
                    &&& self@[key.key()] == self.entries@[i as int].1
                },
                None => !self@.dom().contains(key.key()),
            },
    {
        proof {
            use_type_invariant(self);
        }
        let ghost keys = entry_keys(self.entries@);
        let mut i: usize = 0;
        while i < self.entries.len()
            invariant
                i <= self.entries@.len(),
                keys == entry_keys(self.entries@),
                keys.no_duplicates(),
                forall|j: int| 0 <= j < i ==> keys[j] != key.key(),
            decreases self.entries@.len() - i,
        {
            if self.entries[i].0.same(key) {
                assert(keys[i as int] == key.key());
                assert(keys.contains(key.key()));
                assert(keys.index_of(key.key()) == i);
                return Some(i);
            }
            i += 1;
        }
        None
    }

    /// Whether the map has an entry for `key`.
    pub fn contains_key(&self, key: &K) -> (r: bool)
        ensures
            r == self@.dom().contains(key.key()),
    {
        match self.position(key) {
            Some(_) => true,
            None => false,
        }
    }

    /// The entry for `key`, if there is one.
    pub fn get(&self, key: &K) -> (r: Option<&V>)
        ensures
            match r {
                Some(v) => self@.dom().contains(key.key()) && *v == self@[key.key()],
                None => !self@.dom().contains(key.key()),
            },
    {
        match self.position(key) {
            Some(i) => Some(&self.entries[i].1),
            None => None,
        }
    }

    /// Makes `value` the entry for `key`, whether or not there was one.
    pub fn insert(&mut self, key: K, value: V)
        ensures
            final(self)@ == old(self)@.insert(key.key(), value),
    {
        proof {
            use_type_invariant(&*self);
        }
        let place = self.position(&key);
        let mut entries: Vec<(K, V)> = Vec::new();
        core::mem::swap(&mut self.entries, &mut entries);
        let ghost before = entries@;
        let ghost keys = entry_keys(before);
        match place {
            Some(i) => {
                entries.set(i, (key, value));
                assert(entry_keys(entries@) =~= keys);
            },
            None => {
                entries.push((key, value));
                assert(!keys.contains(key.key()));
                assert(entry_keys(entries@) =~= keys.push(key.key()));
            },
        }
        let ghost now = entry_keys(entries@);
        assert(now.no_duplicates());
        self.entries = entries;
        assert(self@ =~= old(self)@.insert(key.key(), value)) by {
            assert forall|k: K::K| now.contains(k) <==> keys.contains(k) || k == key.key() by {
                if keys.contains(k) {
                    assert(now[keys.index_of(k)] == k);
                }
                if k == key.key() {
                    match place {
                        Some(i) => assert(now[i as int] == k),
                        None => assert(now[now.len() - 1] == k),
                    }
                }
                if now.contains(k) && k != key.key() {
                    assert(keys[now.index_of(k)] == k);
                }
            }
            assert forall|k: K::K| now.contains(k) implies self@[k] == old(self)@.insert(
                key.key(),
                value,
            )[k] by {
                if k != key.key() {
                    assert(keys.contains(k));
                    assert(now[keys.index_of(k)] == k);
                    assert(now.index_of(k) == keys.index_of(k));
                } else {
                    match place {
                        Some(i) => assert(now[i as int] == k),
                        None => assert(now[now.len() - 1] == k),
                    }
                }
            }
        }
    }

    /// Takes the entry for `key` out of the map, if there is one.
    pub fn remove(&mut self, key: &K)
        ensures
            final(self)@ == old(self)@.remove(key.key()),
    {
        proof {
            use_type_invariant(&*self);
        }
        let place = self.position(key);
        match place {
            Some(i) => {
                let mut entries: Vec<(K, V)> = Vec::new();
                core::mem::swap(&mut self.entries, &mut entries);
                let ghost keys = entry_keys(entries@);
                let _ = entries.remove(i);
                let ghost now = entry_keys(entries@);
                assert(now =~= keys.remove(i as int));
                self.entries = entries;
                assert(self@ =~= old(self)@.remove(key.key())) by {
                    assert forall|k: K::K| now.contains(k) <==> keys.contains(k) && k
                        != key.key() by {
                        if now.contains(k) {
                            let j = now.index_of(k);
                            assert(keys[if j < i { j } else { j + 1 }] == k);
                            assert(keys[i as int] == key.key());
                        }
                        if keys.contains(k) && k != key.key() {
                            let j = keys.index_of(k);
                            assert(now[if j < i { j } else { j - 1 }] == k);
                        }
                    }
                    assert forall|k: K::K| now.contains(k) implies self@[k] == old(self)@[k] by {
                        let j = now.index_of(k);
                        assert(keys[if j < i { j } else { j + 1 }] == k);
                        assert(keys.index_of(k) == if j < i { j } else { j + 1 });
                    }
                }
            },
            None => {
                assert(old(self)@.remove(key.key()) =~= old(self)@);
            },
        }
    }

    /// The keys of the map, each once.
    pub fn keys(&self) -> (r: Vec<K>)
        ensures
            r@.len() == self.key_list().len(),
            forall|i: int| 0 <= i < r@.len() ==> (#[trigger] r@[i]).key() == self.key_list()[i],
            self.key_list().no_duplicates(),
            forall|k: K::K| self.key_list().contains(k) <==> self@.dom().contains(k),
    {
        proof {
            use_type_invariant(self);
        }
        let mut r: Vec<K> = Vec::new();
        let mut i: usize = 0;
        while i < self.entries.len()
            invariant
                i <= self.entries@.len(),
                r@.len() == i,
                forall|j: int| 0 <= j < i ==> (#[trigger] r@[j]).key() == self.key_list()[j],
            decreases self.entries@.len() - i,
        {
            r.push(self.entries[i].0.copied());
            i += 1;
        }
        r
    }
}

} // verus!
