//! A map from text to values, kept in the order its keys were first inserted.

use vstd::prelude::*;
use crate::text::same_text;

verus! {

/// A map keyed by text. No key occurs twice, and what was inserted first stays
/// first.
#[derive(Debug)]
pub struct TextMap<V> {
    keys: Vec<String>,
    values: Vec<V>,
}

impl<V> TextMap<V> {
    /// The keys, in the order they were first inserted.
    pub closed spec fn order(self) -> Seq<Seq<char>> {
        self.keys@.map_values(|key: String| key@)
    }

    /// Whether the order lists every key of the map exactly once.
    pub open spec fn lists_its_keys(self) -> bool {
        &&& self.order().no_duplicates()
        &&& forall|key: Seq<char>| #[trigger]
            self.order().contains(key) <==> self@.contains_key(key)
    }

    #[verifier::type_invariant]
    spec fn distinct(self) -> bool {
        &&& self.keys@.len() == self.values@.len()
        &&& forall|i: int, j: int|
            0 <= i < j < self.keys@.len() ==> (#[trigger] self.keys@[i])@ != (
            #[trigger] self.keys@[j])@
    }

    spec fn holds(self, key: Seq<char>, i: int) -> bool {
        0 <= i < self.keys@.len() && self.keys@[i]@ == key
    }

    spec fn at(self, key: Seq<char>) -> int {
        choose|i: int| self.holds(key, i)
    }
}

impl<V> View for TextMap<V> {
    type V = Map<Seq<char>, V>;

    closed spec fn view(&self) -> Map<Seq<char>, V> {
        Map::new(
            |key: Seq<char>| exists|i: int| self.holds(key, i),
            |key: Seq<char>| self.values@[self.at(key)],
        )
    }
}

impl<V> TextMap<V> {
    proof fn lemma_held(self, key: Seq<char>, i: int)
        requires
            self.distinct(),
            self.holds(key, i),
        ensures
            self.at(key) == i,
            self@.contains_key(key),
            self@[key] == self.values@[i],
    {
        let chosen = self.at(key);
        assert(self.holds(key, chosen));
    }

    proof fn lemma_lists_its_keys(self)
        requires
            self.distinct(),
        ensures
            self.lists_its_keys(),
    {
        let order = self.order();
        assert forall|key: Seq<char>| #[trigger] order.contains(key) implies self@.contains_key(
            key,
        ) by {
            let i = choose|i: int| 0 <= i < order.len() && order[i] == key;
            self.lemma_held(key, i);
        }
        assert forall|key: Seq<char>| self@.contains_key(key) implies #[trigger] order.contains(
            key,
        ) by {
            let i = self.at(key);
            assert(self.holds(key, i));
            assert(order[i] == key);
        }
    }

    /// The map with nothing in it.
    pub fn new() -> (map: TextMap<V>)
        ensures
            map@ == Map::<Seq<char>, V>::empty(),
            map.order() == Seq::<Seq<char>>::empty(),
    {
        let map = TextMap { keys: Vec::new(), values: Vec::new() };
        assert(map@ =~= Map::<Seq<char>, V>::empty());
        assert(map.order() =~= Seq::<Seq<char>>::empty());
        map
    }

    fn find(&self, key: &str) -> (found: Option<usize>)
        ensures
            match found {
                Some(i) => i < self.keys@.len() && i < self.values@.len() && self@.contains_key(
                    key@,
                ) && self@[key@] == self.values@[i as int] && self.keys@[i as int]@ == key@,
                None => !self@.contains_key(key@) && forall|j: int|
                    0 <= j < self.keys@.len() ==> (#[trigger] self.keys@[j])@ != key@,
            },
    {
        proof {
            use_type_invariant(self);
        }
        let mut i: usize = 0;
        while i < self.keys.len()
            invariant
                self.distinct(),
                i <= self.keys@.len(),
                forall|j: int| 0 <= j < i ==> (#[trigger] self.keys@[j])@ != key@,
            decreases self.keys@.len() - i,
        {
            if same_text(self.keys[i].as_str(), key) {
                proof {
                    self.lemma_held(key@, i as int);
                }
                return Some(i);
            }
            i = i + 1;
        }
        None
    }

    /// The value under `key`, where there is one.
    pub fn get(&self, key: &str) -> (found: Option<&V>)
        ensures
            match found {
                Some(value) => self@.contains_key(key@) && *value == self@[key@],
                None => !self@.contains_key(key@),
            },
    {
        match self.find(key) {
            Some(i) => Some(&self.values[i]),
            None => None,
        }
    }

    /// Whether there is a value under `key`.
    pub fn contains_key(&self, key: &str) -> (yes: bool)
        ensures
            yes == self@.contains_key(key@),
    {
        self.find(key).is_some()
    }

    /// How many keys there are.
    pub fn len(&self) -> (length: usize)
        ensures
            length == self.order().len(),
            self.lists_its_keys(),
    {
        proof {
            use_type_invariant(self);
            self.lemma_lists_its_keys();
        }
        self.keys.len()
    }

    /// Whether there are no keys.
    pub fn is_empty(&self) -> (yes: bool)
        ensures
            yes == (self@ == Map::<Seq<char>, V>::empty()),
            yes == (self.order().len() == 0),
    {
        proof {
            use_type_invariant(self);
            if self.keys@.len() == 0 {
                assert(self@ =~= Map::<Seq<char>, V>::empty());
            } else {
                self.lemma_held(self.keys@[0]@, 0);
            }
        }
        self.keys.len() == 0
    }

    /// The `i`th key in insertion order.
    pub fn key_at(&self, i: usize) -> (key: &str)
        requires
            i < self.order().len(),
        ensures
            key@ == self.order()[i as int],
            self.lists_its_keys(),
    {
        proof {
            use_type_invariant(self);
            self.lemma_lists_its_keys();
        }
        self.keys[i].as_str()
    }

    /// The value of the `i`th key in insertion order.
    pub fn value_at(&self, i: usize) -> (value: &V)
        requires
            i < self.order().len(),
        ensures
            self@.contains_key(self.order()[i as int]),
            *value == self@[self.order()[i as int]],
    {
        proof {
            use_type_invariant(self);
            self.lemma_held(self.keys@[i as int]@, i as int);
        }
        &self.values[i]
    }

    /// Sets the value under `key`. A key that is already there keeps its place.
    pub fn insert(&mut self, key: String, value: V)
        ensures
            final(self)@ == old(self)@.insert(key@, value),
            final(self).order() == (if old(self)@.contains_key(key@) {
                old(self).order()
            } else {
                old(self).order().push(key@)
            }),
    {
        let found = self.find(key.as_str());
        proof {
            use_type_invariant(&*self);
        }
        let ghost before = *self;
        let mut taken: TextMap<V> = TextMap { keys: Vec::new(), values: Vec::new() };
        std::mem::swap(&mut taken, self);
        let TextMap { mut keys, mut values } = taken;
        match found {
            Some(i) => {
                values.set(i, value);
            },
            None => {
                keys.push(key);
                values.push(value);
            },
        }
        let after = TextMap { keys, values };
        proof {
            let model = before@.insert(key@, value);
            assert forall|k: Seq<char>| #![trigger after@.contains_key(k)]
                after@.contains_key(k) <==> model.contains_key(k) by {
                if after@.contains_key(k) {
                    let i = after.at(k);
                    assert(after.holds(k, i));
                    if i < before.keys@.len() {
                        assert(before.holds(k, i));
                    }
                }
                if before@.contains_key(k) {
                    let i = before.at(k);
                    assert(before.holds(k, i));
                    assert(after.holds(k, i));
                }
                if k == key@ {
                    match found {
                        Some(i) => {
                            assert(after.holds(k, i as int));
                        },
                        None => {
                            assert(after.holds(k, before.keys@.len() as int));
                        },
                    }
                }
            }
            assert forall|k: Seq<char>| #![trigger after@[k]]
                model.contains_key(k) implies after@[k] == model[k] by {
                let i = after.at(k);
                assert(after@.contains_key(k));
                assert(after.holds(k, i));
                if k == key@ {
                    match found {
                        Some(at) => {
                            after.lemma_held(k, at as int);
                        },
                        None => {
                            after.lemma_held(k, before.keys@.len() as int);
                        },
                    }
                } else {
                    assert(before.holds(k, i));
                    before.lemma_held(k, i);
                }
            }
            assert(after@ =~= model);
            assert(after.order() =~= (if before@.contains_key(key@) {
                before.order()
            } else {
                before.order().push(key@)
            }));
        }
        *self = after;
    }
}

/// Whether a time lies at most `ttl` before `now`.
pub open spec fn is_recent(time: u64, now: u64, ttl: u64) -> bool {
    now - time <= ttl
}

impl TextMap<u64> {
    /// Drops every entry whose time is older than `now - ttl`.
    pub fn drop_older(&mut self, now: u64, ttl: u64)
        ensures
            forall|key: Seq<char>|
                #![trigger final(self)@.contains_key(key)]
                final(self)@.contains_key(key) <==> old(self)@.contains_key(key) && is_recent(
                    old(self)@[key],
                    now,
                    ttl,
                ),
            forall|key: Seq<char>|
                #![trigger final(self)@[key]]
                final(self)@.contains_key(key) ==> final(self)@[key] == old(self)@[key],
    {
        proof {
            use_type_invariant(&*self);
        }
        let ghost before = *self;
        let mut kept: TextMap<u64> = TextMap::new();
        let mut i: usize = 0;
        while i < self.keys.len()
            invariant
                *self == before,
                before.distinct(),
                i <= before.keys@.len(),
                forall|key: Seq<char>|
                    #![trigger kept@.contains_key(key)]
                    kept@.contains_key(key) <==> exists|j: int|
                        #![trigger before.holds(key, j)]
                        before.holds(key, j) && j < i && is_recent(before.values@[j], now, ttl),
                forall|key: Seq<char>|
                    #![trigger kept@[key]]
                    kept@.contains_key(key) ==> kept@[key] == before@[key],
            decreases before.keys@.len() - i,
        {
            let time: u64 = self.values[i];
            let ghost earlier = kept;
            if now.saturating_sub(time) <= ttl {
                kept.insert(self.keys[i].clone(), time);
            }
            proof {
                let here = before.keys@[i as int]@;
                before.lemma_held(here, i as int);
                assert forall|key: Seq<char>| #![trigger kept@.contains_key(key)]
                    kept@.contains_key(key) <==> exists|j: int|
                        #![trigger before.holds(key, j)]
                        before.holds(key, j) && j < i + 1 && is_recent(
                            before.values@[j],
                            now,
                            ttl,
                        ) by {
                    if earlier@.contains_key(key) {
                        let j = choose|j: int|
                            #![trigger before.holds(key, j)]
                            before.holds(key, j) && j < i && is_recent(before.values@[j], now, ttl);
                        assert(before.holds(key, j) && j < i + 1);
                    }
                    if key == here && is_recent(time, now, ttl) {
                        assert(before.holds(key, i as int));
                    }
                    if exists|j: int|
                        #![trigger before.holds(key, j)]
                        before.holds(key, j) && j < i + 1 && is_recent(
                            before.values@[j],
                            now,
                            ttl,
                        ) {
                        let j = choose|j: int|
                            #![trigger before.holds(key, j)]
                            before.holds(key, j) && j < i + 1 && is_recent(
                                before.values@[j],
                                now,
                                ttl,
                            );
                        if j < i {
                            assert(before.holds(key, j) && j < i);
                            assert(earlier@.contains_key(key));
                        } else {
                            assert(key == here);
                        }
                    }
                }
            }
            i = i + 1;
        }
        proof {
            assert forall|key: Seq<char>| #![trigger kept@.contains_key(key)]
                kept@.contains_key(key) <==> before@.contains_key(key) && is_recent(
                    before@[key],
                    now,
                    ttl,
                ) by {
                if before@.contains_key(key) {
                    let j = before.at(key);
                    assert(before.holds(key, j));
                    before.lemma_held(key, j);
                }
                if kept@.contains_key(key) {
                    let j = choose|j: int|
                        #![trigger before.holds(key, j)]
                        before.holds(key, j) && j < i && is_recent(before.values@[j], now, ttl);
                    before.lemma_held(key, j);
                }
            }
        }
        *self = kept;
    }
}

} // verus!
