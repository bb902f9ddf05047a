//! A small map from text keys to values, kept as parallel vectors; its
//! view is a `Map` from the keys' characters.

use vstd::prelude::*;
use crate::text::{chars_of, seq_equal};
use crate::rules_engine::string_views;

verus! {

pub struct KeyedStore<V> {
    keys: Vec<String>,
    vals: Vec<V>,
}

pub open spec fn key_index(keys: Seq<String>, k: Seq<char>) -> int {
    choose|i: int| 0 <= i < keys.len() && keys[i]@ == k
}

pub open spec fn map_of<V>(keys: Seq<String>, vals: Seq<V>) -> Map<Seq<char>, V> {
    Map::new(
        |k: Seq<char>| exists|i: int| 0 <= i < keys.len() && keys[i]@ == k,
        |k: Seq<char>| vals[key_index(keys, k)],
    )
}

pub proof fn lemma_map_of_at<V>(keys: Seq<String>, vals: Seq<V>, i: int)
    requires
        string_views(keys).no_duplicates(),
        keys.len() == vals.len(),
        0 <= i < keys.len(),
    ensures
        map_of(keys, vals).dom().contains(keys[i]@),
        map_of(keys, vals)[keys[i]@] == vals[i],
{
    let k = keys[i]@;
    assert(exists|j: int| 0 <= j < keys.len() && keys[j]@ == k);
    let j = key_index(keys, k);
    assert(map_of(keys, vals).dom().contains(k));
    assert(map_of(keys, vals)[k] == vals[key_index(keys, k)]);
    assert(string_views(keys)[i] == k);
    assert(string_views(keys)[j] == k);
    assert(j == i);
}

impl<V> View for KeyedStore<V> {
    type V = Map<Seq<char>, V>;

    closed spec fn view(&self) -> Map<Seq<char>, V> {
        map_of(self.keys@, self.vals@)
    }
}

impl<V> KeyedStore<V> {
    pub closed spec fn wf(&self) -> bool {
        &&& self.keys@.len() == self.vals@.len()
        &&& string_views(self.keys@).no_duplicates()
    }

    pub fn new() -> (r: Self)
        ensures
            r.wf(),
            r@ == Map::<Seq<char>, V>::empty(),
    {
        let r = KeyedStore { keys: Vec::new(), vals: Vec::new() };
        assert(r@ =~= Map::<Seq<char>, V>::empty());
        r
    }

    /// The number of keys stored.
    pub fn len(&self) -> (r: usize)
        requires
            self.wf(),
        ensures
            r == self@.dom().len(),
    {
        proof {
            string_views(self.keys@).unique_seq_to_set();
            assert forall|k: Seq<char>| self@.dom().contains(k) == string_views(self.keys@).to_set().contains(k) by {
                if self@.dom().contains(k) {
                    let j = choose|j: int| 0 <= j < self.keys@.len() && self.keys@[j]@ == k;
                    assert(string_views(self.keys@)[j] == k);
                }
                if string_views(self.keys@).contains(k) {
                    let j = choose|j: int| 0 <= j < string_views(self.keys@).len() && string_views(self.keys@)[j] == k;
                    assert(self.keys@[j]@ == k);
                }
            }
            assert(self@.dom() =~= string_views(self.keys@).to_set());
        }
        self.keys.len()
    }

    fn index_of(&self, key: &str) -> (r: Option<usize>)
        requires
            self.wf(),
        ensures
            match r {
                Some(i) => i < self.keys@.len() && self.keys@[i as int]@ == key@,
                None => forall|i: int| 0 <= i < self.keys@.len() ==> self.keys@[i]@ != key@,
            },
    {
        let kc = chars_of(key);
        let mut i: usize = 0;
        while i < self.keys.len()
            invariant
                i <= self.keys.len(),
                kc@ == key@,
                forall|j: int| 0 <= j < i ==> self.keys@[j]@ != key@,
            decreases self.keys.len() - i,
        {
            let c = chars_of(self.keys[i].as_str());
            if seq_equal(&c, &kc) {
                return Some(i);
            }
            i += 1;
        }
        None
    }

    /// The value stored under `key`, if any.
    pub fn get(&self, key: &str) -> (r: Option<&V>)
        requires
            self.wf(),
        ensures
            r is Some <==> self@.dom().contains(key@),
            r matches Some(v) ==> *v == self@[key@],
    {
        match self.index_of(key) {
            Some(i) => {
                proof {
                    lemma_map_of_at(self.keys@, self.vals@, i as int);
                }
                Some(&self.vals[i])
            },
            None => None,
        }
    }

    /// Stores `val` under `key`, replacing what was there.
    pub fn insert(&mut self, key: String, val: V)
        requires
            old(self).wf(),
        ensures
            final(self).wf(),
            final(self)@ == old(self)@.insert(key@, val),
    {
        let ghost old_keys = self.keys@;
        let ghost old_vals = self.vals@;
        let ghost target = map_of(old_keys, old_vals).insert(key@, val);
        match self.index_of(key.as_str()) {
            Some(i) => {
                self.vals.set(i, val);
                assert(self.keys@ == old_keys);
                assert forall|k: Seq<char>| self@.dom().contains(k) implies self@[k] == target[k] by {
                    let j = choose|j: int| 0 <= j < self.keys@.len() && self.keys@[j]@ == k;
                    lemma_map_of_at(self.keys@, self.vals@, j);
                    lemma_map_of_at(old_keys, old_vals, j);
                    if k == key@ {
                        assert(string_views(old_keys)[j] == string_views(old_keys)[i as int]);
                    }
                }
                assert(self@ =~= target);
            },
            None => {
                self.keys.push(key);
                self.vals.push(val);
                assert(string_views(self.keys@) =~= string_views(old_keys).push(key@));
                assert forall|k: Seq<char>| self@.dom().contains(k) == target.dom().contains(k) by {
                    if k == key@ {
                        assert(self.keys@[old_keys.len() as int]@ == k);
                    } else if map_of(old_keys, old_vals).dom().contains(k) {
                        let j = choose|j: int| 0 <= j < old_keys.len() && old_keys[j]@ == k;
                        assert(self.keys@[j]@ == k);
                    }
                    if self@.dom().contains(k) {
                        let j = choose|j: int| 0 <= j < self.keys@.len() && self.keys@[j]@ == k;
                        if j < old_keys.len() {
                            assert(old_keys[j]@ == k);
                        }
                    }
                }
                assert forall|k: Seq<char>| self@.dom().contains(k) implies self@[k] == target[k] by {
                    let j = choose|j: int| 0 <= j < self.keys@.len() && self.keys@[j]@ == k;
                    lemma_map_of_at(self.keys@, self.vals@, j);
                    if j < old_keys.len() {
                        lemma_map_of_at(old_keys, old_vals, j);
                    }
                }
                assert(self@ =~= target);
            },
        }
    }

    /// Removes every entry.
    pub fn clear(&mut self)
        ensures
            final(self).wf(),
            final(self)@ == Map::<Seq<char>, V>::empty(),
    {
        self.keys = Vec::new();
        self.vals = Vec::new();
        assert(self@ =~= Map::<Seq<char>, V>::empty());
    }
}

} // verus!
