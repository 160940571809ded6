//! The record store: records held under distinct text keys, in the
//! ascending order of their keys.

use vstd::prelude::*;
use crate::text::{
    ascending, comes_before, key_before, lemma_ascending_distinct, lemma_ascending_insert,
    lemma_ascending_unique, lemma_before_total, lemma_before_transitive,
};

verus! {

/// The text of each of a sequence of strings.
pub open spec fn texts(strings: Seq<String>) -> Seq<Seq<char>> {
    Seq::new(strings.len(), |i: int| strings[i]@)
}

/// The map that takes each key to the record in its place.
pub open spec fn keyed<R>(keys: Seq<Seq<char>>, records: Seq<R>) -> Map<Seq<char>, R> {
    Map::new(|k: Seq<char>| keys.contains(k), |k: Seq<char>| records[keys.index_of(k)])
}

/// Replacing the record in place `i` replaces it under the key in place `i`.
pub proof fn lemma_replace<R>(keys: Seq<Seq<char>>, records: Seq<R>, i: int, r: R)
    requires
        keys.no_duplicates(),
        keys.len() == records.len(),
        0 <= i < keys.len(),
    ensures
        keyed(keys, records.update(i, r)) == keyed(keys, records).insert(keys[i], r),
{
    assert forall|k: Seq<char>| keys.contains(k) implies #[trigger] keyed(
        keys,
        records.update(i, r),
    )[k] == keyed(keys, records).insert(keys[i], r)[k] by {
        keys.index_of_first_ensures(k);
    }
}

/// A new key with its record, put in at any place, adds one entry.
pub proof fn lemma_put_in<R>(
    keys: Seq<Seq<char>>,
    records: Seq<R>,
    at: int,
    key: Seq<char>,
    r: R,
)
    requires
        keys.no_duplicates(),
        keys.len() == records.len(),
        !keys.contains(key),
        0 <= at <= keys.len(),
    ensures
        keyed(keys.insert(at, key), records.insert(at, r)) == keyed(keys, records).insert(key, r),
{
    let grown = keys.insert(at, key);
    assert(grown[at] == key);
    assert forall|i: int, j: int| 0 <= i < grown.len() && 0 <= j < grown.len() && i != j implies grown[i]
        != grown[j] by {
        let from = if i < at { i } else { i - 1 };
        let to = if j < at { j } else { j - 1 };
        if i != at {
            assert(grown[i] == keys[from]);
        }
        if j != at {
            assert(grown[j] == keys[to]);
        }
    }
    assert forall|k: Seq<char>| keys.contains(k) implies grown.contains(k) by {
        let j = keys.index_of(k);
        keys.index_of_first_ensures(k);
        if j < at {
            assert(grown[j] == k);
        } else {
            assert(grown[j + 1] == k);
        }
    }
    assert forall|k: Seq<char>| grown.contains(k) implies #[trigger] keyed(
        grown,
        records.insert(at, r),
    )[k] == keyed(keys, records).insert(key, r)[k] by {
        grown.index_of_first_ensures(k);
        let j = grown.index_of(k);
        if k != key {
            let from = if j < at { j } else { j - 1 };
            assert(grown[j] == keys[from]);
            keys.index_of_first_ensures(k);
        }
    }
    assert forall|k: Seq<char>| grown.contains(k) implies k == key || keys.contains(k) by {
        grown.index_of_first_ensures(k);
        let j = grown.index_of(k);
        if j != at {
            let from = if j < at { j } else { j - 1 };
            assert(keys[from] == k);
        }
    }
}

/// A collection of records, each under its own key.
///
/// Its view is the map from key to record. The keys stand in ascending
/// order, so no key occurs twice, and whatever walks the store meets the
/// records by ascending key.
pub struct Store<R> {
    keys: Vec<String>,
    records: Vec<R>,
}

impl<R> Store<R> {
    /// The keys in their order.
    pub closed spec fn keys(&self) -> Seq<Seq<char>> {
        texts(self.keys@)
    }

    /// The records, each at the place of its key.
    pub closed spec fn records(&self) -> Seq<R> {
        self.records@
    }

    /// Every key has a record, and each key comes before all that follow
    /// it. This holds of every store.
    #[verifier::type_invariant]
    pub open spec fn wf(&self) -> bool {
        &&& self.keys().len() == self.records().len()
        &&& ascending(self.keys())
    }

    /// The map from key to record.
    pub open spec fn view(&self) -> Map<Seq<char>, R> {
        keyed(self.keys(), self.records())
    }

    /// An empty store.
    pub fn new() -> (s: Self)
        ensures
            s.wf(),
            s.keys() == Seq::<Seq<char>>::empty(),
            s.records() == Seq::<R>::empty(),
            s@ == Map::<Seq<char>, R>::empty(),
    {
        let s = Store { keys: Vec::new(), records: Vec::new() };
        s
    }

    /// The number of records.
    pub fn len(&self) -> (n: usize)
        ensures
            n == self.keys().len(),
            n == self@.len(),
    {
        proof {
            use_type_invariant(self);
            self.lemma_view_len();
        }
        self.keys.len()
    }

    /// The place of `key`, if the store holds it.
    pub fn find(&self, key: &String) -> (r: Option<usize>)
        ensures
            r is Some <==> self@.contains_key(key@),
            r matches Some(i) ==> i < self.keys().len() && self.keys()[i as int] == key@
                && self@[key@] == self.records()[i as int],
    {
        proof {
            use_type_invariant(self);
        }
        let mut i: usize = 0;
        while i < self.keys.len()
            invariant
                self.wf(),
                i <= self.keys.len(),
                forall|j: int| 0 <= j < i ==> self.keys()[j] != key@,
            decreases self.keys.len() - i,
        {
            if self.keys[i] == *key {
                proof {
                    self.lemma_view_at(i as int);
                }
                return Some(i);
            }
            i += 1;
        }
        None
    }

    /// Whether the store holds `key`.
    pub fn contains_key(&self, key: &String) -> (b: bool)
        ensures
            b == self@.contains_key(key@),
    {
        self.find(key).is_some()
    }

    /// The record under `key`, if the store holds it.
    pub fn get(&self, key: &String) -> (r: Option<&R>)
        ensures
            r is Some <==> self@.contains_key(key@),
            r matches Some(x) ==> *x == self@[key@],
    {
        proof {
            use_type_invariant(self);
        }
        match self.find(key) {
            Some(i) => Some(&self.records[i]),
            None => None,
        }
    }

    /// The key in place `i`.
    pub fn key_at(&self, i: usize) -> (k: &String)
        requires
            i < self.keys().len(),
        ensures
            k@ == self.keys()[i as int],
    {
        proof {
            use_type_invariant(self);
        }
        &self.keys[i]
    }

    /// The record in place `i`.
    pub fn record_at(&self, i: usize) -> (r: &R)
        requires
            i < self.keys().len(),
        ensures
            *r == self.records()[i as int],
            *r == self@[self.keys()[i as int]],
    {
        proof {
            use_type_invariant(self);
            self.lemma_view_at(i as int);
        }
        &self.records[i]
    }

    /// Puts `record` under `key`. A key that the store already holds keeps
    /// its place and gives its earlier record back; a new key goes where
    /// the ascending order has it.
    pub fn insert(&mut self, key: String, record: R) -> (earlier: Option<R>)
        ensures
            final(self).wf(),
            final(self)@ == old(self)@.insert(key@, record),
            earlier is Some <==> old(self)@.contains_key(key@),
            earlier matches Some(r) ==> r == old(self)@[key@] && final(self).keys() == old(
                self,
            ).keys(),
            earlier is None ==> exists|at: int|
                {
                    &&& 0 <= at <= old(self).keys().len()
                    &&& final(self).keys() == #[trigger] old(self).keys().insert(at, key@)
                    &&& final(self).records() == old(self).records().insert(at, record)
                    &&& forall|i: int| 0 <= i < at ==> key_before(old(self).keys()[i], key@)
                    &&& forall|i: int|
                        at <= i < old(self).keys().len() ==> key_before(key@, old(self).keys()[i])
                },
    {
        proof {
            use_type_invariant(&*self);
            lemma_ascending_distinct(self.keys());
        }
        match self.find(&key) {
            Some(i) => {
                let mut held = record;
                proof {
                    lemma_replace(self.keys(), self.records(), i as int, record);
                }
                std::mem::swap(&mut self.records[i], &mut held);
                Some(held)
            },
            None => {
                let at = self.place_for(&key);
                proof {
                    lemma_put_in(self.keys(), self.records(), at as int, key@, record);
                    lemma_ascending_insert(self.keys(), at as int, key@);
                    assert forall|i: int| at <= i < self.keys().len() implies key_before(
                        key@,
                        self.keys()[i],
                    ) by {
                        if i > at {
                            assert(key_before(self.keys()[at as int], self.keys()[i]));
                            lemma_before_transitive(key@, self.keys()[at as int], self.keys()[i]);
                        }
                    }
                }
                // The vectors grow outside the store: between the two
                // insertions a key is without its record.
                let mut taken = Store::new();
                std::mem::swap(self, &mut taken);
                let Store { mut keys, mut records } = taken;
                keys.insert(at, key);
                records.insert(at, record);
                assert(texts(keys@) =~= old(self).keys().insert(at as int, key@));
                *self = Store { keys, records };
                None
            },
        }
    }

    /// The place at which a key that the store does not hold is to stand:
    /// behind all keys that come before it.
    fn place_for(&self, key: &String) -> (at: usize)
        requires
            !self@.contains_key(key@),
        ensures
            at <= self.keys().len(),
            forall|i: int| 0 <= i < at ==> key_before(#[trigger] self.keys()[i], key@),
            at < self.keys().len() ==> key_before(key@, self.keys()[at as int]),
    {
        proof {
            use_type_invariant(self);
        }
        let mut at: usize = 0;
        while at < self.keys.len() && comes_before(self.keys[at].as_str(), key.as_str())
            invariant
                self.wf(),
                !self@.contains_key(key@),
                at <= self.keys.len(),
                forall|i: int| 0 <= i < at ==> key_before(#[trigger] self.keys()[i], key@),
            decreases self.keys.len() - at,
        {
            at += 1;
        }
        proof {
            if at < self.keys.len() {
                assert(self.keys().contains(self.keys()[at as int]));
                lemma_before_total(self.keys()[at as int], key@);
            }
        }
        at
    }

    /// The record in place `i`, to be changed where it lies.
    pub fn record_mut(&mut self, i: usize) -> (r: &mut R)
        requires
            i < old(self).keys().len(),
        ensures
            *r == old(self).records()[i as int],
            final(self).wf(),
            final(self).keys() == old(self).keys(),
            final(self).records() == old(self).records().update(i as int, *final(r)),
            final(self)@ == old(self)@.insert(old(self).keys()[i as int], *final(r)),
    {
        proof {
            use_type_invariant(&*self);
            lemma_ascending_distinct(self.keys());
        }
        let r = &mut self.records[i];
        proof {
            lemma_replace(old(self).keys(), old(self).records(), i as int, *final(r));
        }
        r
    }

    /// The view at the key in place `i` is the record in place `i`.
    pub proof fn lemma_view_at(&self, i: int)
        requires
            self.wf(),
            0 <= i < self.keys().len(),
        ensures
            self@.contains_key(self.keys()[i]),
            self@[self.keys()[i]] == self.records()[i],
    {
        lemma_ascending_distinct(self.keys());
        self.keys().index_of_first_ensures(self.keys()[i]);
    }

    /// The view has one entry for each key.
    pub proof fn lemma_view_len(&self)
        requires
            self.wf(),
        ensures
            self@.dom().finite(),
            self@.len() == self.keys().len(),
    {
        lemma_ascending_distinct(self.keys());
        self.keys().unique_seq_to_set();
    }

    /// A store is determined by its map: two stores that hold the same
    /// records under the same keys hold them in the same places. So a store
    /// that is written out key by key and built again from what was
    /// written, in whatever order, is the store that it was.
    pub proof fn lemma_determined(&self, other: &Store<R>)
        requires
            self.wf(),
            other.wf(),
            self@ == other@,
        ensures
            self.keys() == other.keys(),
            self.records() == other.records(),
    {
        assert forall|k: Seq<char>| self.keys().contains(k) <==> other.keys().contains(k) by {
            assert(self@.dom().contains(k) <==> self.keys().contains(k));
            assert(other@.dom().contains(k) <==> other.keys().contains(k));
        }
        lemma_ascending_unique(self.keys(), other.keys());
        assert forall|i: int| 0 <= i < self.records().len() implies self.records()[i]
            == other.records()[i] by {
            self.lemma_view_at(i);
            other.lemma_view_at(i);
        }
        assert(self.records() =~= other.records());
    }
}

} // verus!
