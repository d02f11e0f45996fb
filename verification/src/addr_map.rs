//! A map keyed by transport addresses.

use vstd::prelude::*;
use crate::addr::TransportAddr;

verus! {

/// A map from transport addresses to values; each address occurs once.
#[verifier::reject_recursive_types(V)]
pub struct AddrMap<V> {
    entries: Vec<(TransportAddr, V)>,
}

impl<V> AddrMap<V> {
    /// The addresses in the order in which they are held.
    pub closed spec fn keys(self) -> Seq<Seq<u8>> {
        Seq::new(self.entries@.len(), |i: int| self.entries@[i].0@)
    }

    /// No address occurs twice.
    pub closed spec fn inv(self) -> bool {
        forall|i: int, j: int|
            0 <= i < j < self.entries@.len() ==> (#[trigger] self.entries@[i]).0@
                != (#[trigger] self.entries@[j]).0@
    }

    spec fn holds(self, key: Seq<u8>, i: int) -> bool {
        0 <= i < self.entries@.len() && self.entries@[i].0@ == key
    }

    spec fn find(self, key: Seq<u8>) -> int {
        choose|i: int| self.holds(key, i)
    }
}

impl<V> View for AddrMap<V> {
    type V = Map<Seq<u8>, V>;

    closed spec fn view(&self) -> Map<Seq<u8>, V> {
        Map::new(
            |key: Seq<u8>| exists|i: int| self.holds(key, i),
            |key: Seq<u8>| self.entries@[self.find(key)].1,
        )
    }
}

impl<V> AddrMap<V> {
    proof fn lemma_at(self, i: int)
        requires
            self.inv(),
            0 <= i < self.entries@.len(),
        ensures
            self@.dom().contains(self.entries@[i].0@),
            self@[self.entries@[i].0@] == self.entries@[i].1,
    {
        assert(self.holds(self.entries@[i].0@, i));
    }

    /// The addresses held are distinct, and they are those that have a value.
    pub proof fn lemma_len(self)
        requires
            self.inv(),
        ensures
            self@.dom().finite(),
            self@.dom().len() == self.keys().len(),
            self.keys().no_duplicates(),
            self.keys().to_set() == self@.dom(),
    {
        let keys = self.keys();
        assert(keys.no_duplicates());
        keys.unique_seq_to_set();
        assert forall|k: Seq<u8>| keys.to_set().contains(k) <==> self@.dom().contains(k) by {
            if keys.contains(k) {
                let i = choose|i: int| 0 <= i < keys.len() && keys[i] == k;
                assert(self.holds(k, i));
            }
            if self@.dom().contains(k) {
                let i = choose|i: int| self.holds(k, i);
                assert(keys[i] == k);
            }
        }
        assert(keys.to_set() =~= self@.dom());
    }

    pub fn new() -> (map: AddrMap<V>)
        ensures
            map.inv(),
            map@ == Map::<Seq<u8>, V>::empty(),
    {
        let map: AddrMap<V> = AddrMap { entries: Vec::new() };
        assert(map@ =~= Map::<Seq<u8>, V>::empty());
        map
    }

    pub fn len(&self) -> (n: usize)
        requires
            self.inv(),
        ensures
            n == self@.dom().len(),
            self@.dom().finite(),
    {
        proof {
            self.lemma_len();
        }
        self.entries.len()
    }

    pub fn is_empty(&self) -> (empty: bool)
        requires
            self.inv(),
        ensures
            empty == (self@ == Map::<Seq<u8>, V>::empty()),
    {
        proof {
            self.lemma_len();
            if self.entries@.len() == 0 {
                assert(self@ =~= Map::<Seq<u8>, V>::empty());
            } else {
                self.lemma_at(0);
            }
        }
        self.entries.len() == 0
    }

    fn position(&self, key: &TransportAddr) -> (at: Option<usize>)
        requires
            self.inv(),
        ensures
            match at {
                Some(i) => self.holds(key@, i as int) && self@.dom().contains(key@)
                    && self@[key@] == self.entries@[i as int].1,
                None => !self@.dom().contains(key@) && forall|i: int| !self.holds(key@, i),
            },
    {
        let mut i: usize = 0;
        while i < self.entries.len()
            invariant
                i <= self.entries@.len(),
                self.inv(),
                forall|k: int| 0 <= k < i ==> !self.holds(key@, k),
            decreases self.entries@.len() - i,
        {
            if self.entries[i].0.same(key) {
                proof {
                    self.lemma_at(i as int);
                }
                return Some(i);
            }
            i = i + 1;
        }
        None
    }

    pub fn contains(&self, key: &TransportAddr) -> (yes: bool)
        requires
            self.inv(),
        ensures
            yes == self@.dom().contains(key@),
    {
        self.position(key).is_some()
    }

    pub fn get(&self, key: &TransportAddr) -> (value: Option<&V>)
        requires
            self.inv(),
        ensures
            match value {
                Some(v) => self@.dom().contains(key@) && *v == self@[key@],
                None => !self@.dom().contains(key@),
            },
    {
        match self.position(key) {
            Some(i) => Some(&self.entries[i].1),
            None => None,
        }
    }

    /// Takes the value of an address out of the map.
    pub fn remove(&mut self, key: &TransportAddr) -> (value: Option<V>)
        requires
            old(self).inv(),
        ensures
            final(self).inv(),
            final(self)@ == old(self)@.remove(key@),
            match value {
                Some(v) => old(self)@.dom().contains(key@) && v == old(self)@[key@],
                None => !old(self)@.dom().contains(key@),
            },
    {
        match self.position(key) {
            Some(i) => {
                let ghost before = *self;
                let (_, value) = self.entries.remove(i);
                proof {
                    let after = *self;
                    assert forall|a: int, b: int| 0 <= a < b < after.entries@.len() implies (
                    #[trigger] after.entries@[a]).0@ != (#[trigger] after.entries@[b]).0@ by {
                        let x = if a < i { a } else { a + 1 };
                        let y = if b < i { b } else { b + 1 };
                        assert(before.entries@[x].0@ != before.entries@[y].0@);
                    }
                    assert forall|k: Seq<u8>| after@.dom().contains(k) <==> before@.remove(
                        key@,
                    ).dom().contains(k) by {
                        if after@.dom().contains(k) {
                            let a = choose|a: int| after.holds(k, a);
                            let x = if a < i { a } else { a + 1 };
                            assert(before.holds(k, x));
                            assert(before.entries@[x].0@ != before.entries@[i as int].0@);
                        }
                        if before@.remove(key@).dom().contains(k) {
                            let x = choose|x: int| before.holds(k, x);
                            let a = if x < i { x } else { x - 1 };
                            assert(after.holds(k, a));
                        }
                    }
                    assert forall|k: Seq<u8>| after@.dom().contains(k) implies after@[k]
                        == before@.remove(key@)[k] by {
                        let a = choose|a: int| after.holds(k, a);
                        after.lemma_at(a);
                        let x = if a < i { a } else { a + 1 };
                        before.lemma_at(x);
                        assert(before.entries@[x].0@ != before.entries@[i as int].0@);
                    }
                    assert(after@ =~= before@.remove(key@));
                }
                Some(value)
            },
            None => {
                assert(self@ =~= old(self)@.remove(key@));
                None
            },
        }
    }

    /// Gives an address a value; a value that it had is replaced and returned.
    pub fn insert(&mut self, key: TransportAddr, value: V) -> (replaced: Option<V>)
        requires
            old(self).inv(),
        ensures
            final(self).inv(),
            final(self)@ == old(self)@.insert(key@, value),
            match replaced {
                Some(v) => old(self)@.dom().contains(key@) && v == old(self)@[key@],
                None => !old(self)@.dom().contains(key@),
            },
    {
        let replaced = self.remove(&key);
        let ghost before = *self;
        let ghost k0 = key@;
        self.entries.push((key, value));
        proof {
            let after = *self;
            let n = before.entries@.len();
            assert forall|a: int, b: int| 0 <= a < b < after.entries@.len() implies (
            #[trigger] after.entries@[a]).0@ != (#[trigger] after.entries@[b]).0@ by {
                if b == n {
                    before.lemma_at(a);
                } else {
                    assert(before.entries@[a].0@ != before.entries@[b].0@);
                }
            }
            assert forall|k: Seq<u8>| after@.dom().contains(k) <==> before@.insert(
                k0,
                value,
            ).dom().contains(k) by {
                if after@.dom().contains(k) {
                    let a = choose|a: int| after.holds(k, a);
                    if a < n {
                        before.lemma_at(a);
                    }
                }
                if k == k0 {
                    assert(after.holds(k0, n as int));
                } else if before@.dom().contains(k) {
                    let x = choose|x: int| before.holds(k, x);
                    assert(after.holds(k, x));
                }
            }
            assert forall|k: Seq<u8>| after@.dom().contains(k) implies after@[k] == before@.insert(
                k0,
                value,
            )[k] by {
                let a = choose|a: int| after.holds(k, a);
                after.lemma_at(a);
                if a < n {
                    before.lemma_at(a);
                }
            }
            assert(after@ =~= before@.insert(k0, value));
            assert(after@ =~= old(self)@.insert(k0, value));
        }
        replaced
    }

    /// The address and the value at a position.
    pub fn at(&self, i: usize) -> (entry: (&TransportAddr, &V))
        requires
            self.inv(),
            i < self@.dom().len(),
        ensures
            entry.0@ == self.keys()[i as int],
            self@.dom().contains(entry.0@),
            self@[entry.0@] == *entry.1,
    {
        proof {
            self.lemma_len();
            self.lemma_at(i as int);
        }
        (&self.entries[i].0, &self.entries[i].1)
    }

    /// Empties the map.
    pub fn clear(&mut self)
        ensures
            final(self).inv(),
            final(self)@ == Map::<Seq<u8>, V>::empty(),
    {
        self.entries.clear();
        assert(self@ =~= Map::<Seq<u8>, V>::empty());
    }
}

} // verus!
