//! A map with text keys that keeps its entries in the order of insertion.
use vstd::prelude::*;

use crate::text::same_text;

verus! {

/// The map that a sequence of entries stands for; a later entry wins.
pub open spec fn map_of<K, V>(items: Seq<(K, V)>) -> Map<K, V>
    decreases items.len(),
{
    if items.len() == 0 {
        Map::empty()
    } else {
        map_of(items.drop_last()).insert(items.last().0, items.last().1)
    }
}

/// Whether no key occurs twice.
pub open spec fn unique_keys<K, V>(items: Seq<(K, V)>) -> bool {
    forall|i: int, j: int|
        #![trigger items[i], items[j]]
        0 <= i < j < items.len() ==> items[i].0 != items[j].0
}

/// Whether `k` is the key of an entry.
pub open spec fn has_key<K, V>(items: Seq<(K, V)>, k: K) -> bool {
    exists|i: int| 0 <= i < items.len() && (#[trigger] items[i]).0 == k
}

/// The entries with `v` for `k`: in the place of the first entry with that key, else at the end.
pub open spec fn put<K, V>(items: Seq<(K, V)>, k: K, v: V) -> Seq<(K, V)>
    decreases items.len(),
{
    if items.len() == 0 {
        seq![(k, v)]
    } else if items[0].0 == k {
        items.update(0, (k, v))
    } else {
        seq![items[0]] + put(items.skip(1), k, v)
    }
}

/// Where `put` puts a pair: over the first entry with its key, or at the end.
pub proof fn lemma_put<K, V>(items: Seq<(K, V)>, k: K, v: V, i: int)
    requires
        0 <= i <= items.len(),
        forall|j: int| 0 <= j < i ==> (#[trigger] items[j]).0 != k,
    ensures
        i < items.len() && items[i].0 == k ==> put(items, k, v) == items.update(i, (k, v)),
        i == items.len() ==> put(items, k, v) == items.push((k, v)),
    decreases items.len(),
{
    if items.len() == 0 {
        assert(items.push((k, v)) == seq![(k, v)]);
    } else if i > 0 {
        assert(items[0].0 != k);
        let rest = items.skip(1);
        assert forall|j: int| 0 <= j < i - 1 implies (#[trigger] rest[j]).0 != k by {
            assert(rest[j] == items[j + 1]);
        }
        lemma_put(rest, k, v, i - 1);
        if i < items.len() && items[i].0 == k {
            assert(rest[i - 1] == items[i]);
            assert(seq![items[0]] + rest.update(i - 1, (k, v)) == items.update(i, (k, v)));
        }
        if i == items.len() {
            assert(seq![items[0]] + rest.push((k, v)) == items.push((k, v)));
        }
    }
}

/// The value of the first entry with a key.
pub open spec fn value_of<K, V>(items: Seq<(K, V)>, k: K) -> Option<V>
    decreases items.len(),
{
    if items.len() == 0 {
        None
    } else {
        match value_of(items.drop_last(), k) {
            Some(v) => Some(v),
            None => if items.last().0 == k {
                Some(items.last().1)
            } else {
                None
            },
        }
    }
}

/// The first entry decides, or else the rest.
pub proof fn lemma_value_at_front<K, V>(items: Seq<(K, V)>, k: K)
    requires
        items.len() > 0,
    ensures
        value_of(items, k) == (if items[0].0 == k {
            Some(items[0].1)
        } else {
            value_of(items.skip(1), k)
        }),
    decreases items.len(),
{
    let front = items.drop_last();
    if front.len() == 0 {
        assert(items.skip(1) == Seq::<(K, V)>::empty());
        assert(value_of(front, k) is None);
    } else {
        lemma_value_at_front(front, k);
        assert(front.skip(1) == items.skip(1).drop_last());
        assert(items.skip(1).last() == items.last());
    }
}

/// What is put under a key is found there, and what stands under other keys stays.
pub proof fn lemma_value_put<K, V>(items: Seq<(K, V)>, k: K, v: V, other: K)
    ensures
        value_of(put(items, k, v), other) == (if other == k {
            Some(v)
        } else {
            value_of(items, other)
        }),
    decreases items.len(),
{
    let all = put(items, k, v);
    if items.len() == 0 {
        assert(all.drop_last() == Seq::<(K, V)>::empty());
        assert(value_of(all.drop_last(), other) is None);
    } else {
        lemma_value_at_front(items, other);
        lemma_value_at_front(all, other);
        if items[0].0 == k {
            assert(all.skip(1) == items.skip(1));
        } else {
            lemma_value_put(items.skip(1), k, v, other);
            assert(all.skip(1) == put(items.skip(1), k, v));
        }
    }
}

/// Each entry of a sequence without repeated keys is found in its map.
pub proof fn lemma_map_of<K, V>(items: Seq<(K, V)>)
    requires
        unique_keys(items),
    ensures
        forall|k: K| #[trigger] map_of(items).dom().contains(k) <==> has_key(items, k),
        forall|i: int|
            0 <= i < items.len() ==> map_of(items).dom().contains((#[trigger] items[i]).0)
                && map_of(items)[items[i].0] == items[i].1,
    decreases items.len(),
{
    if items.len() > 0 {
        let init = items.drop_last();
        lemma_map_of(init);
        assert forall|k: K| #[trigger] map_of(items).dom().contains(k) <==> has_key(items, k) by {
            assert(map_of(init).dom().contains(k) <==> has_key(init, k));
            assert(map_of(items).dom() == map_of(init).dom().insert(items.last().0));
            if has_key(init, k) {
                let i = choose|i: int| 0 <= i < init.len() && (#[trigger] init[i]).0 == k;
                assert(items[i].0 == k);
            }
            if has_key(items, k) && k != items.last().0 {
                let i = choose|i: int| 0 <= i < items.len() && (#[trigger] items[i]).0 == k;
                assert(init[i].0 == k);
            }
            if k == items.last().0 {
                assert(items[items.len() - 1].0 == k);
            }
        }
        assert forall|i: int| 0 <= i < items.len() implies map_of(items).dom().contains(
            (#[trigger] items[i]).0,
        ) && map_of(items)[items[i].0] == items[i].1 by {
            if i < items.len() - 1 {
                assert(init[i] == items[i]);
                assert(items[i].0 != items[items.len() - 1].0);
            }
        }
    }
}

/// A sequence of entries stands for a finite map.
pub proof fn lemma_map_of_finite<K, V>(items: Seq<(K, V)>)
    ensures
        map_of(items).dom().finite(),
    decreases items.len(),
{
    if items.len() > 0 {
        lemma_map_of_finite(items.drop_last());
    }
}

/// A map from texts to values. Its entries keep the order in which their keys first came.
#[derive(Debug)]
pub struct TextMap<V> {
    entries: Vec<(String, V)>,
}

impl<V> View for TextMap<V> {
    type V = Map<Seq<char>, V>;

    open spec fn view(&self) -> Map<Seq<char>, V> {
        map_of(self.items())
    }
}

impl<V> TextMap<V> {
    /// The entries in their order.
    pub closed spec fn items(&self) -> Seq<(Seq<char>, V)> {
        self.entries@.map_values(|e: (String, V)| (e.0@, e.1))
    }

    #[verifier::type_invariant]
    spec fn keys_are_unique(&self) -> bool {
        unique_keys(self.items())
    }

    /// No key occurs twice, and the entries are those of the view.
    pub open spec fn coherent(&self) -> bool {
        &&& unique_keys(self.items())
        &&& forall|k: Seq<char>|
            #[trigger] self@.dom().contains(k) <==> has_key(self.items(), k)
        &&& forall|i: int|
            0 <= i < self.items().len() ==> self@.dom().contains((#[trigger] self.items()[i]).0)
                && self@[self.items()[i].0] == self.items()[i].1
    }

    /// The empty map.
    pub fn new() -> (r: Self)
        ensures
            r@ == Map::<Seq<char>, V>::empty(),
            r.items() == Seq::<(Seq<char>, V)>::empty(),
            r.coherent(),
    {
        let r = TextMap { entries: Vec::new() };
        assert(r.items() == Seq::<(Seq<char>, V)>::empty());
        r
    }

    /// How many entries there are.
    pub fn len(&self) -> (r: usize)
        ensures
            r == self.items().len(),
            self.coherent(),
    {
        proof {
            use_type_invariant(self);
            lemma_map_of(self.items());
        }
        self.entries.len()
    }

    /// Whether there is no entry.
    pub fn is_empty(&self) -> (r: bool)
        ensures
            r == (self.items().len() == 0),
    {
        self.entries.len() == 0
    }

    /// The key of entry `i`.
    pub fn key_at(&self, i: usize) -> (r: &String)
        requires
            i < self.items().len(),
        ensures
            r@ == self.items()[i as int].0,
    {
        &self.entries[i].0
    }

    /// The value of entry `i`.
    pub fn value_at(&self, i: usize) -> (r: &V)
        requires
            i < self.items().len(),
        ensures
            *r == self.items()[i as int].1,
    {
        &self.entries[i].1
    }

    /// The position of `key`.
    fn position(&self, key: &str) -> (r: Option<usize>)
        ensures
            match r {
                Some(i) => i < self.items().len() && self.items()[i as int].0 == key@ && forall|
                    j: int,
                |
                    0 <= j < i ==> (#[trigger] self.items()[j]).0 != key@,
                None => !has_key(self.items(), key@),
            },
    {
        let mut i: usize = 0;
        while i < self.entries.len()
            invariant
                i <= self.entries@.len(),
                forall|j: int| 0 <= j < i ==> (#[trigger] self.items()[j]).0 != key@,
            decreases self.entries@.len() - i,
        {
            if same_text(self.entries[i].0.as_str(), key) {
                return Some(i);
            }
            i += 1;
        }
        None
    }

    /// The value of `key`.
    pub fn get(&self, key: &str) -> (r: Option<&V>)
        ensures
            r is Some == self@.dom().contains(key@),
            r matches Some(v) ==> *v == self@[key@],
    {
        proof {
            use_type_invariant(self);
            lemma_map_of(self.items());
        }
        match self.position(key) {
            Some(i) => Some(&self.entries[i].1),
            None => None,
        }
    }

    /// Whether `key` has a value.
    pub fn contains_key(&self, key: &str) -> (r: bool)
        ensures
            r == self@.dom().contains(key@),
    {
        proof {
            use_type_invariant(self);
            lemma_map_of(self.items());
        }
        self.position(key).is_some()
    }

    /// Gives `key` the value `value`, whatever it had before.
    pub fn insert(&mut self, key: String, value: V)
        ensures
            final(self)@ == old(self)@.insert(key@, value),
            final(self).items() == put(old(self).items(), key@, value),
            old(self)@.dom().contains(key@) ==> final(self).items().len() == old(
                self,
            ).items().len(),
            !old(self)@.dom().contains(key@) ==> final(self).items() == old(self).items().push(
                (key@, value),
            ),
            final(self).coherent(),
    {
        let at = self.position(key.as_str());
        proof {
            use_type_invariant(&*self);
            lemma_map_of(self.items());
        }
        let ghost before = self.items();
        let mut entries: Vec<(String, V)> = Vec::new();
        std::mem::swap(&mut entries, &mut self.entries);
        let ghost pair = (key@, value);
        match at {
            Some(i) => {
                entries.set(i, (key, value));
                let ghost after = entries@.map_values(|e: (String, V)| (e.0@, e.1));
                proof {
                    assert(after == before.update(i as int, pair));
                    lemma_put(before, pair.0, pair.1, i as int);
                    assert(unique_keys(after));
                    lemma_map_of(after);
                    assert forall|k: Seq<char>| has_key(after, k) == has_key(before, k) by {
                        if has_key(after, k) {
                            let j = choose|j: int| 0 <= j < after.len() && (#[trigger] after[j]).0 == k;
                            assert(before[j].0 == k);
                        }
                        if has_key(before, k) {
                            let j = choose|j: int|
                                0 <= j < before.len() && (#[trigger] before[j]).0 == k;
                            assert(after[j].0 == k);
                        }
                    }
                    assert(before[i as int].0 == pair.0);
                    assert(has_key(before, pair.0));
                    assert forall|k: Seq<char>| map_of(after).dom().contains(k) implies #[trigger] map_of(
                        after,
                    )[k] == map_of(before).insert(pair.0, pair.1)[k] by {
                        let j = choose|j: int| 0 <= j < after.len() && (#[trigger] after[j]).0 == k;
                        assert(before[j].0 == k);
                        assert(after[j].0 == k);
                    }
                    assert(map_of(after) == map_of(before).insert(pair.0, pair.1));
                }
            },
            None => {
                entries.push((key, value));
                proof {
                    let after = entries@.map_values(|e: (String, V)| (e.0@, e.1));
                    assert(after == before.push(pair));
                    lemma_put(before, pair.0, pair.1, before.len() as int);
                    assert(after.drop_last() == before);
                    assert(unique_keys(after));
                }
            },
        }
        self.entries = entries;
        proof {
            lemma_map_of(self.items());
        }
    }

    /// Takes `key` and its value out, where it has one.
    pub fn remove(&mut self, key: &str)
        ensures
            final(self)@ == old(self)@.remove(key@),
            !old(self)@.dom().contains(key@) ==> final(self).items() == old(self).items(),
    {
        let at = self.position(key);
        proof {
            use_type_invariant(&*self);
            lemma_map_of(self.items());
        }
        let ghost before = self.items();
        if let Some(i) = at {
            let mut entries: Vec<(String, V)> = Vec::new();
            std::mem::swap(&mut entries, &mut self.entries);
            let gone = entries.remove(i);
            let ghost after = entries@.map_values(|e: (String, V)| (e.0@, e.1));
            proof {
                assert(after == before.remove(i as int));
                lemma_removed(before, i as int);
            }
            self.entries = entries;
        } else {
            assert(map_of(before).remove(key@) == map_of(before));
        }
    }
}

/// Taking one entry out of a sequence without repeated keys takes out its key.
pub proof fn lemma_removed<K, V>(items: Seq<(K, V)>, i: int)
    requires
        unique_keys(items),
        0 <= i < items.len(),
    ensures
        unique_keys(items.remove(i)),
        map_of(items.remove(i)) == map_of(items).remove(items[i].0),
{
    let after = items.remove(i);
    assert forall|a: int, b: int|
        #![trigger after[a], after[b]]
        0 <= a < b < after.len() implies after[a].0 != after[b].0 by {
        let x = if a < i {
            a
        } else {
            a + 1
        };
        let y = if b < i {
            b
        } else {
            b + 1
        };
        assert(items[x].0 != items[y].0);
    }
    lemma_map_of(items);
    lemma_map_of(after);
    assert forall|k: K|
        #[trigger] map_of(after).dom().contains(k) == map_of(items).remove(
            items[i].0,
        ).dom().contains(k) by {
        if has_key(after, k) {
            let j = choose|j: int| 0 <= j < after.len() && (#[trigger] after[j]).0 == k;
            let x = if j < i {
                j
            } else {
                j + 1
            };
            assert(items[x].0 == k);
            assert(items[i].0 != items[x].0);
        }
        if has_key(items, k) && k != items[i].0 {
            let j = choose|j: int| 0 <= j < items.len() && (#[trigger] items[j]).0 == k;
            let x = if j < i {
                j
            } else {
                j - 1
            };
            assert(after[x].0 == k);
        }
    }
    assert forall|k: K| map_of(after).dom().contains(k) implies #[trigger] map_of(after)[k] == map_of(
        items,
    ).remove(items[i].0)[k] by {
        let j = choose|j: int| 0 <= j < after.len() && (#[trigger] after[j]).0 == k;
        let x = if j < i {
            j
        } else {
            j + 1
        };
        assert(items[x].0 == k && items[x] == after[j]);
    }
    assert(map_of(after) == map_of(items).remove(items[i].0));
}

impl<V: Clone> Clone for TextMap<V> {
    fn clone(&self) -> (r: Self)
        ensures
            r.items().len() == self.items().len(),
            forall|i: int|
                0 <= i < self.items().len() ==> (#[trigger] r.items()[i]).0 == self.items()[i].0
                    && cloned::<V>(self.items()[i].1, r.items()[i].1),
    {
        proof {
            use_type_invariant(self);
        }
        let mut entries: Vec<(String, V)> = Vec::new();
        let mut i: usize = 0;
        while i < self.entries.len()
            invariant
                i <= self.entries@.len(),
                entries@.len() == i,
                forall|j: int|
                    0 <= j < i ==> (#[trigger] entries@[j]).0 == self.entries@[j].0 && cloned::<V>(
                        self.entries@[j].1,
                        entries@[j].1,
                    ),
            decreases self.entries@.len() - i,
        {
            let value = self.entries[i].1.clone();
            entries.push((self.entries[i].0.clone(), value));
            i += 1;
        }
        let ghost after = entries@.map_values(|e: (String, V)| (e.0@, e.1));
        assert forall|a: int, b: int|
            #![trigger after[a], after[b]]
            0 <= a < b < after.len() implies after[a].0 != after[b].0 by {
            assert(self.items()[a].0 != self.items()[b].0);
        }
        TextMap { entries }
    }
}

} // verus!
