//! A small map from text keys to values, kept as a list of slots.
//!
//! The map is meant for stores of modest size: every operation walks the
//! list. Its mathematical model is a `Map` from the key's characters to the
//! value's view. A key keeps its slot for as long as it is in the map, and a
//! new key gets the last slot.

use vstd::prelude::*;
use crate::text::str_eq;

verus! {

#[derive(Debug)]
struct Slot<V> {
    key: String,
    value: V,
}

/// A map from text keys to values.
#[derive(Debug)]
pub struct StringMap<V> {
    slots: Vec<Slot<V>>,
}

spec fn slot_keys<V>(slots: Seq<Slot<V>>) -> Seq<Seq<char>> {
    Seq::new(slots.len(), |i: int| slots[i].key@)
}

impl<V: View> View for StringMap<V> {
    type V = Map<Seq<char>, V::V>;

    closed spec fn view(&self) -> Map<Seq<char>, V::V> {
        Map::new(
            |k: Seq<char>| self.keys().contains(k),
            |k: Seq<char>| self.slots@[self.keys().index_of(k)].value@,
        )
    }
}

impl<V> StringMap<V> {
    #[verifier::type_invariant]
    spec fn distinct_keys(self) -> bool {
        slot_keys(self.slots@).no_duplicates()
    }
}

impl<V: View> StringMap<V> {
    /// The keys of the map, slot by slot.
    pub closed spec fn keys(&self) -> Seq<Seq<char>> {
        slot_keys(self.slots@)
    }

    proof fn lemma_keys(&self)
        requires
            self.distinct_keys(),
        ensures
            self.keys().no_duplicates(),
            self@.dom() == self.keys().to_set(),
            self@.dom().finite(),
            self@.dom().len() == self.keys().len(),
    {
        assert(self@.dom() =~= self.keys().to_set());
        self.keys().unique_seq_to_set();
    }

    proof fn lemma_slot(&self, i: int)
        requires
            self.distinct_keys(),
            0 <= i < self.slots@.len(),
        ensures
            self@.contains_key(self.keys()[i]),
            self@[self.keys()[i]] == self.slots@[i].value@,
            self.keys().index_of(self.keys()[i]) == i,
    {
        let keys = self.keys();
        assert(keys[i] == keys[i]);
        assert(keys.contains(keys[i]));
    }

    /// An empty map.
    pub fn new() -> (m: Self)
        ensures
            m@ == Map::<Seq<char>, V::V>::empty(),
            m.keys() == Seq::<Seq<char>>::empty(),
    {
        let m = StringMap { slots: Vec::new() };
        assert(m.keys() =~= Seq::<Seq<char>>::empty());
        assert(m@ =~= Map::<Seq<char>, V::V>::empty());
        m
    }

    /// The number of keys. The keys are pairwise distinct and are exactly the
    /// domain of the map.
    pub fn len(&self) -> (n: usize)
        ensures
            n == self.keys().len(),
            n == self@.dom().len(),
            self.keys().no_duplicates(),
            self@.dom() == self.keys().to_set(),
    {
        proof {
            use_type_invariant(self);
            self.lemma_keys();
        }
        self.slots.len()
    }

    fn position(&self, key: &str) -> (at: Option<usize>)
        ensures
            match at {
                Some(i) => i < self.keys().len() && self.keys()[i as int] == key@,
                None => !self.keys().contains(key@),
            },
    {
        let mut i: usize = 0;
        while i < self.slots.len()
            invariant
                i <= self.slots@.len(),
                forall|j: int| 0 <= j < i ==> self.keys()[j] != key@,
            decreases self.slots@.len() - i,
        {
            if str_eq(self.slots[i].key.as_str(), key) {
                return Some(i);
            }
            i += 1;
        }
        None
    }

    /// Whether `key` is in the map.
    pub fn contains_key(&self, key: &str) -> (found: bool)
        ensures
            found == self@.contains_key(key@),
    {
        self.position(key).is_some()
    }

    /// The value stored under `key`, if there is one.
    pub fn get(&self, key: &str) -> (found: Option<&V>)
        ensures
            match found {
                Some(v) => self@.contains_key(key@) && self@[key@] == v@,
                None => !self@.contains_key(key@),
            },
    {
        proof {
            use_type_invariant(self);
        }
        match self.position(key) {
            Some(i) => {
                proof {
                    self.lemma_slot(i as int);
                }
                Some(&self.slots[i].value)
            },
            None => None,
        }
    }

    /// The key of the slot at position `i`.
    pub fn key_at(&self, i: usize) -> (key: &String)
        requires
            i < self.keys().len(),
        ensures
            key@ == self.keys()[i as int],
    {
        &self.slots[i].key
    }

    /// The value of the slot at position `i`.
    pub fn value_at(&self, i: usize) -> (value: &V)
        requires
            i < self.keys().len(),
        ensures
            self@.contains_key(self.keys()[i as int]),
            value@ == self@[self.keys()[i as int]],
    {
        proof {
            use_type_invariant(self);
            self.lemma_slot(i as int);
        }
        &self.slots[i].value
    }

    /// Stores `value` under `key` and hands back the value that it replaces.
    pub fn insert(&mut self, key: String, value: V) -> (previous: Option<V>)
        ensures
            final(self)@ == old(self)@.insert(key@, value@),
            match previous {
                Some(v) => old(self)@.contains_key(key@) && old(self)@[key@] == v@
                    && final(self).keys() == old(self).keys(),
                None => !old(self)@.contains_key(key@)
                    && final(self).keys() == old(self).keys().push(key@),
            },
    {
        proof {
            use_type_invariant(&*self);
        }
        let at = self.position(key.as_str());
        let ghost before = *self;
        let mut slots: Vec<Slot<V>> = Vec::new();
        std::mem::swap(&mut slots, &mut self.slots);
        let previous = match at {
            Some(i) => {
                proof {
                    before.lemma_slot(i as int);
                }
                slots.push(Slot { key, value });
                let old_slot = slots.swap_remove(i);
                assert(slot_keys(slots@) =~= slot_keys(before.slots@));
                Some(old_slot.value)
            },
            None => {
                slots.push(Slot { key, value });
                assert(slot_keys(slots@) =~= slot_keys(before.slots@).push(key@));
                None
            },
        };
        self.slots = slots;
        proof {
            let after = *self;
            assert forall|k: Seq<char>|
                after@.contains_key(k) == #[trigger] before@.insert(key@, value@).contains_key(
                    k,
                ) by {
                if before.keys().contains(k) {
                    let j = before.keys().index_of(k);
                    assert(after.keys()[j] == k);
                }
                if k == key@ {
                    match at {
                        Some(i) => assert(after.keys()[i as int] == k),
                        None => assert(after.keys()[before.keys().len() as int] == k),
                    }
                }
                if after.keys().contains(k) && k != key@ {
                    let j = after.keys().index_of(k);
                    assert(before.keys()[j] == k);
                }
            }
            assert forall|k: Seq<char>| #[trigger] after@.contains_key(k) implies after@[k]
                == before@.insert(key@, value@)[k] by {
                let j = after.keys().index_of(k);
                after.lemma_slot(j);
                if k != key@ {
                    before.lemma_slot(j);
                }
            }
            assert(after@ =~= before@.insert(key@, value@));
        }
        previous
    }

    /// Takes `key` and its value out of the map.
    pub fn remove(&mut self, key: &str) -> (taken: Option<V>)
        ensures
            final(self)@ == old(self)@.remove(key@),
            match taken {
                Some(v) => old(self)@.contains_key(key@) && old(self)@[key@] == v@,
                None => !old(self)@.contains_key(key@),
            },
    {
        proof {
            use_type_invariant(&*self);
        }
        let ghost before = *self;
        match self.position(key) {
            Some(i) => {
                let mut slots: Vec<Slot<V>> = Vec::new();
                std::mem::swap(&mut slots, &mut self.slots);
                let slot = slots.remove(i);
                proof {
                    let rest = slot_keys(slots@);
                    assert(rest =~= before.keys().remove(i as int));
                    assert forall|a: int, b: int|
                        0 <= a < rest.len() && 0 <= b < rest.len() && a != b implies rest[a]
                        != rest[b] by {
                        let from_a = if a < i { a } else { a + 1 };
                        let from_b = if b < i { b } else { b + 1 };
                        assert(rest[a] == before.keys()[from_a]);
                        assert(rest[b] == before.keys()[from_b]);
                    }
                }
                self.slots = slots;
                proof {
                    let after = *self;
                    before.lemma_slot(i as int);
                    assert(after.keys() =~= before.keys().remove(i as int));
                    assert forall|k: Seq<char>|
                        after@.contains_key(k) == #[trigger] before@.remove(key@).contains_key(
                            k,
                        ) by {
                        if before.keys().contains(k) && k != key@ {
                            let from = before.keys().index_of(k);
                            let j = if from < i { from } else { from - 1 };
                            assert(after.keys()[j] == k);
                        }
                        if after.keys().contains(k) {
                            let j = after.keys().index_of(k);
                            let from = if j < i { j } else { j + 1 };
                            assert(before.keys()[from] == k);
                        }
                    }
                    assert forall|k: Seq<char>| #[trigger] after@.contains_key(k) implies after@[k]
                        == before@.remove(key@)[k] by {
                        let j = after.keys().index_of(k);
                        let from = if j < i { j } else { j + 1 };
                        after.lemma_slot(j);
                        before.lemma_slot(from);
                    }
                    assert(after@ =~= before@.remove(key@));
                }
                Some(slot.value)
            },
            None => {
                assert(self@ =~= before@.remove(key@));
                None
            },
        }
    }
}

} // verus!
