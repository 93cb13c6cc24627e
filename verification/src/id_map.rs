//! A map keyed by identifiers that keeps its entries in the order of insertion.
use vstd::prelude::*;

use crate::text_map;

verus! {

/// A map from identifiers to values. Its entries keep the order in which their keys first came.
#[derive(Debug)]
pub struct IdMap<V> {
    entries: Vec<(u128, V)>,
}

impl<V> View for IdMap<V> {
    type V = Map<u128, V>;

    open spec fn view(&self) -> Map<u128, V> {
        text_map::map_of(self.items())
    }
}

impl<V> IdMap<V> {
    /// The entries in their order.
    pub closed spec fn items(&self) -> Seq<(u128, V)> {
        self.entries@
    }

    #[verifier::type_invariant]
    spec fn keys_are_unique(&self) -> bool {
        text_map::unique_keys(self.items())
    }

    /// No key occurs twice, and the entries are those of the view.
    pub open spec fn coherent(&self) -> bool {
        &&& text_map::unique_keys(self.items())
        &&& forall|k: u128|
            #[trigger] self@.dom().contains(k) <==> text_map::has_key(self.items(), k)
        &&& forall|i: int|
            0 <= i < self.items().len() ==> self@.dom().contains((#[trigger] self.items()[i]).0)
                && self@[self.items()[i].0] == self.items()[i].1
    }

    /// The empty map.
    pub fn new() -> (r: Self)
        ensures
            r@ == Map::<u128, V>::empty(),
            r.items() == Seq::<(u128, V)>::empty(),
    {
        let r = IdMap { entries: Vec::new() };
        assert(r.items() == Seq::<(u128, V)>::empty());
        r
    }

    /// How many entries there are.
    pub fn len(&self) -> (r: usize)
        ensures
            r == self.items().len(),
            self.coherent(),
    {
        proof {
            use_type_invariant(self);
            text_map::lemma_map_of(self.items());
        }
        self.entries.len()
    }

    /// Whether there is no entry.
    pub fn is_empty(&self) -> (r: bool)
        ensures
            r == (self.items().len() == 0),
    {
        self.entries.len() == 0
    }

    /// The key of entry `i`.
    pub fn key_at(&self, i: usize) -> (r: u128)
        requires
            i < self.items().len(),
        ensures
            r == self.items()[i as int].0,
    {
        self.entries[i].0
    }

    /// The value of entry `i`.
    pub fn value_at(&self, i: usize) -> (r: &V)
        requires
            i < self.items().len(),
        ensures
            *r == self.items()[i as int].1,
    {
        &self.entries[i].1
    }

    /// The position of `key`.
    fn position(&self, key: u128) -> (r: Option<usize>)
        ensures
            match r {
                Some(i) => i < self.items().len() && self.items()[i as int].0 == key,
                None => !text_map::has_key(self.items(), key),
            },
    {
        let mut i: usize = 0;
        while i < self.entries.len()
            invariant
                i <= self.entries@.len(),
                forall|j: int| 0 <= j < i ==> (#[trigger] self.items()[j]).0 != key,
            decreases self.entries@.len() - i,
        {
            if self.entries[i].0 == key {
                return Some(i);
            }
            i += 1;
        }
        None
    }

    /// The value of `key`.
    pub fn get(&self, key: u128) -> (r: Option<&V>)
        ensures
            r is Some == self@.dom().contains(key),
            r matches Some(v) ==> *v == self@[key],
    {
        proof {
            use_type_invariant(self);
            text_map::lemma_map_of(self.items());
        }
        match self.position(key) {
            Some(i) => Some(&self.entries[i].1),
            None => None,
        }
    }

    /// Whether `key` has a value.
    pub fn contains_key(&self, key: u128) -> (r: bool)
        ensures
            r == self@.dom().contains(key),
    {
        proof {
            use_type_invariant(self);
            text_map::lemma_map_of(self.items());
        }
        self.position(key).is_some()
    }

    /// Gives `key` the value `value`, whatever it had before.
    pub fn insert(&mut self, key: u128, value: V)
        ensures
            final(self)@ == old(self)@.insert(key, value),
            old(self)@.dom().contains(key) ==> final(self).items().len() == old(
                self,
            ).items().len(),
            !old(self)@.dom().contains(key) ==> final(self).items() == old(self).items().push(
                (key, value),
            ),
    {
        let at = self.position(key);
        proof {
            use_type_invariant(&*self);
            text_map::lemma_map_of(self.items());
        }
        let ghost before = self.items();
        let mut entries: Vec<(u128, V)> = Vec::new();
        std::mem::swap(&mut entries, &mut self.entries);
        let ghost pair = (key, value);
        match at {
            Some(i) => {
                entries.set(i, (key, value));
                let ghost after = entries@;
                proof {
                    assert(after == before.update(i as int, pair));
                    assert(text_map::unique_keys(after));
                    text_map::lemma_map_of(after);
                    assert forall|k: u128| text_map::has_key(after, k) == text_map::has_key(before, k) by {
                        if text_map::has_key(after, k) {
                            let j = choose|j: int| 0 <= j < after.len() && (#[trigger] after[j]).0 == k;
                            assert(before[j].0 == k);
                        }
                        if text_map::has_key(before, k) {
                            let j = choose|j: int|
                                0 <= j < before.len() && (#[trigger] before[j]).0 == k;
                            assert(after[j].0 == k);
                        }
                    }
                    assert(before[i as int].0 == pair.0);
                    assert(text_map::has_key(before, pair.0));
                    assert forall|k: u128| text_map::map_of(after).dom().contains(k) implies #[trigger] text_map::map_of(
                        after,
                    )[k] == text_map::map_of(before).insert(pair.0, pair.1)[k] by {
                        let j = choose|j: int| 0 <= j < after.len() && (#[trigger] after[j]).0 == k;
                        assert(before[j].0 == k);
                        assert(after[j].0 == k);
                    }
                    assert(text_map::map_of(after) == text_map::map_of(before).insert(pair.0, pair.1));
                }
            },
            None => {
                entries.push((key, value));
                proof {
                    let after = entries@;
                    assert(after == before.push(pair));
                    assert(after.drop_last() == before);
                    assert(text_map::unique_keys(after));
                }
            },
        }
        self.entries = entries;
    }

    /// Takes `key` and its value out, where it has one.
    pub fn remove(&mut self, key: u128)
        ensures
            final(self)@ == old(self)@.remove(key),
            !old(self)@.dom().contains(key) ==> final(self).items() == old(self).items(),
    {
        let at = self.position(key);
        proof {
            use_type_invariant(&*self);
            text_map::lemma_map_of(self.items());
        }
        let ghost before = self.items();
        if let Some(i) = at {
            let mut entries: Vec<(u128, V)> = Vec::new();
            std::mem::swap(&mut entries, &mut self.entries);
            let gone = entries.remove(i);
            let ghost after = entries@;
            proof {
                assert(after == before.remove(i as int));
                text_map::lemma_removed(before, i as int);
            }
            self.entries = entries;
        } else {
            assert(text_map::map_of(before).remove(key) == text_map::map_of(before));
        }
    }
}

impl<V: Clone> Clone for IdMap<V> {
    fn clone(&self) -> (r: Self)
        ensures
            r.items().len() == self.items().len(),
            forall|i: int|
                0 <= i < self.items().len() ==> (#[trigger] r.items()[i]).0 == self.items()[i].0
                    && cloned::<V>(self.items()[i].1, r.items()[i].1),
    {
        proof {
            use_type_invariant(self);
        }
        let mut entries: Vec<(u128, V)> = Vec::new();
        let mut i: usize = 0;
        while i < self.entries.len()
            invariant
                i <= self.entries@.len(),
                entries@.len() == i,
                forall|j: int|
                    0 <= j < i ==> (#[trigger] entries@[j]).0 == self.entries@[j].0 && cloned::<V>(
                        self.entries@[j].1,
                        entries@[j].1,
                    ),
            decreases self.entries@.len() - i,
        {
            let value = self.entries[i].1.clone();
            entries.push((self.entries[i].0, value));
            i += 1;
        }
        let ghost after = entries@;
        assert forall|a: int, b: int|
            #![trigger after[a], after[b]]
            0 <= a < b < after.len() implies after[a].0 != after[b].0 by {
            assert(self.items()[a].0 != self.items()[b].0);
        }
        IdMap { entries }
    }
}

} // verus!
