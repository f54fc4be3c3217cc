//! A mapping from strings to values, kept as two parallel lists.
//!
//! No key occurs twice. Lookups walk the list, which suits the few hundred
//! entries a model file holds.

use vstd::prelude::*;
use crate::text::str_eq;

verus! {

/// A finite mapping keyed by strings.
pub struct StringMap<V> {
    keys: Vec<String>,
    values: Vec<V>,
}

impl<V> View for StringMap<V> {
    type V = Map<Seq<char>, V>;

    closed spec fn view(&self) -> Map<Seq<char>, V> {
        Map::new(
            |k: Seq<char>| Self::occurs(self.keys@, k),
            |k: Seq<char>| self.values@[Self::index_of(self.keys@, k)],
        )
    }
}

impl<V> StringMap<V> {
    spec fn occurs(keys: Seq<String>, k: Seq<char>) -> bool {
        exists|i: int| 0 <= i < keys.len() && (#[trigger] keys[i])@ == k
    }

    spec fn index_of(keys: Seq<String>, k: Seq<char>) -> int {
        choose|i: int| 0 <= i < keys.len() && (#[trigger] keys[i])@ == k
    }

    spec fn distinct(keys: Seq<String>) -> bool {
        forall|i: int, j: int|
            0 <= i < j < keys.len() ==> (#[trigger] keys[i])@ != (#[trigger] keys[j])@
    }

    /// The two lists have one length, no key occurs twice, and the mapping
    /// has as many keys as the lists have entries.
    pub closed spec fn wf(&self) -> bool {
        &&& self.keys@.len() == self.values@.len()
        &&& Self::distinct(self.keys@)
        &&& self@.dom().finite()
        &&& self@.dom().len() == self.keys@.len()
    }

    /// The keys in the order in which [`StringMap::key_at`] hands them out.
    pub closed spec fn key_list(&self) -> Seq<Seq<char>> {
        Seq::new(self.keys@.len(), |i: int| self.keys@[i]@)
    }

    proof fn lemma_at(&self, i: int)
        requires
            self.keys@.len() == self.values@.len(),
            Self::distinct(self.keys@),
            0 <= i < self.keys@.len(),
        ensures
            self@.contains_key(self.keys@[i]@),
            self@[self.keys@[i]@] == self.values@[i],
    {
        let k = self.keys@[i]@;
        assert(Self::occurs(self.keys@, k));
        let j = Self::index_of(self.keys@, k);
        assert(0 <= j < self.keys@.len() && self.keys@[j]@ == k);
        assert(j == i);
    }

    /// The list of keys names every key of the mapping, each once.
    pub proof fn lemma_key_list(&self)
        requires
            self.wf(),
        ensures
            self.key_list().no_duplicates(),
            self.key_list().len() == self@.len(),
            forall|k: Seq<char>| self@.contains_key(k) <==> self.key_list().contains(k),
    {
        let keys = self.key_list();
        assert forall|k: Seq<char>| self@.contains_key(k) <==> keys.contains(k) by {
            if self@.contains_key(k) {
                let i = Self::index_of(self.keys@, k);
                assert(keys[i] == k);
            }
            if keys.contains(k) {
                let i = choose|i: int| 0 <= i < keys.len() && keys[i] == k;
                assert(self.keys@[i]@ == k);
            }
        }
    }

    /// An empty mapping.
    pub fn new() -> (r: Self)
        ensures
            r.wf(),
            r@ == Map::<Seq<char>, V>::empty(),
    {
        let r = StringMap { keys: Vec::new(), values: Vec::new() };
        assert(r@ =~= Map::<Seq<char>, V>::empty());
        r
    }

    /// The number of keys.
    pub fn len(&self) -> (r: usize)
        requires
            self.wf(),
        ensures
            r == self@.len(),
            r == self.key_list().len(),
    {
        self.keys.len()
    }

    /// Whether the mapping holds no key.
    pub fn is_empty(&self) -> (r: bool)
        requires
            self.wf(),
        ensures
            r == (self@.len() == 0),
    {
        self.keys.len() == 0
    }

    fn position_of(&self, key: &str) -> (r: Option<usize>)
        requires
            self.wf(),
        ensures
            match r {
                Some(i) => i < self.keys@.len() && self.keys@[i as int]@ == key@,
                None => !Self::occurs(self.keys@, key@),
            },
    {
        let mut i: usize = 0;
        while i < self.keys.len()
            invariant
                i <= self.keys@.len(),
                forall|j: int| 0 <= j < i ==> (#[trigger] self.keys@[j])@ != key@,
            decreases self.keys@.len() - i,
        {
            if str_eq(self.keys[i].as_str(), key) {
                return Some(i);
            }
            i = i + 1;
        }
        None
    }

    /// Whether `key` is present.
    pub fn contains_key(&self, key: &str) -> (r: bool)
        requires
            self.wf(),
        ensures
            r == self@.contains_key(key@),
    {
        match self.position_of(key) {
            Some(i) => {
                proof {
                    self.lemma_at(i as int);
                }
                true
            },
            None => false,
        }
    }

    /// The value stored under `key`, if any.
    pub fn get(&self, key: &str) -> (r: Option<&V>)
        requires
            self.wf(),
        ensures
            match r {
                Some(value) => self@.contains_key(key@) && *value == self@[key@],
                None => !self@.contains_key(key@),
            },
    {
        match self.position_of(key) {
            Some(i) => {
                proof {
                    self.lemma_at(i as int);
                }
                Some(&self.values[i])
            },
            None => None,
        }
    }

    /// Stores `value` under `key` and returns what was stored there before.
    pub fn insert(&mut self, key: String, value: V) -> (r: Option<V>)
        requires
            old(self).wf(),
        ensures
            final(self).wf(),
            final(self)@ == old(self)@.insert(key@, value),
            match r {
                Some(before) => old(self)@.contains_key(key@) && before == old(self)@[key@],
                None => !old(self)@.contains_key(key@),
            },
    {
        match self.position_of(key.as_str()) {
            Some(i) => {
                proof {
                    old(self).lemma_at(i as int);
                }
                self.values.push(value);
                let before = self.values.swap_remove(i);
                proof {
                    assert(self.keys@ == old(self).keys@);
                    assert(self.values@ =~= old(self).values@.update(i as int, value));
                    assert forall|k: Seq<char>| #[trigger]
                        self@.contains_key(k) == old(self)@.insert(key@, value).contains_key(
                            k,
                        ) by {}
                    assert forall|k: Seq<char>| self@.contains_key(k) implies #[trigger] self@[k]
                        == old(self)@.insert(key@, value)[k] by {
                        let j = Self::index_of(self.keys@, k);
                        self.lemma_at(j);
                        old(self).lemma_at(j);
                    }
                    assert(self@ =~= old(self)@.insert(key@, value));
                    assert(self@.dom() =~= old(self)@.dom());
                }
                Some(before)
            },
            None => {
                self.keys.push(key);
                self.values.push(value);
                proof {
                    let n = old(self).keys@.len() as int;
                    assert(self.keys@[n]@ == key@);
                    assert forall|k: Seq<char>| #[trigger]
                        self@.contains_key(k) == old(self)@.insert(key@, value).contains_key(
                            k,
                        ) by {
                        if Self::occurs(self.keys@, k) {
                            let j = Self::index_of(self.keys@, k);
                            if j < n {
                                assert(old(self).keys@[j]@ == k);
                            }
                        }
                        if Self::occurs(old(self).keys@, k) {
                            let j = Self::index_of(old(self).keys@, k);
                            assert(self.keys@[j]@ == k);
                        }
                    }
                    assert forall|k: Seq<char>| self@.contains_key(k) implies #[trigger] self@[k]
                        == old(self)@.insert(key@, value)[k] by {
                        let j = Self::index_of(self.keys@, k);
                        self.lemma_at(j);
                        if j < n {
                            assert(old(self).keys@[j]@ == k);
                            old(self).lemma_at(j);
                        }
                    }
                    assert(self@ =~= old(self)@.insert(key@, value));
                    assert(self@.dom() =~= old(self)@.dom().insert(key@));
                }
                None
            },
        }
    }

    /// Takes `key` and its value out of the mapping.
    pub fn remove(&mut self, key: &str) -> (r: Option<V>)
        requires
            old(self).wf(),
        ensures
            final(self).wf(),
            final(self)@ == old(self)@.remove(key@),
            match r {
                Some(value) => old(self)@.contains_key(key@) && value == old(self)@[key@],
                None => !old(self)@.contains_key(key@),
            },
    {
        match self.position_of(key) {
            Some(i) => {
                proof {
                    old(self).lemma_at(i as int);
                }
                let _ = self.keys.swap_remove(i);
                let value = self.values.swap_remove(i);
                proof {
                    let n = old(self).keys@.len() as int;
                    // where each remaining entry came from
                    let from = |j: int| if j == i { n - 1 } else { j };
                    assert forall|j: int| 0 <= j < n - 1 implies (#[trigger] self.keys@[j])
                        == old(self).keys@[from(j)] && self.values@[j] == old(self).values@[from(
                        j,
                    )] by {}
                    assert(Self::distinct(self.keys@)) by {
                        assert forall|a: int, b: int| 0 <= a < b < self.keys@.len() implies (
                        #[trigger] self.keys@[a])@ != (#[trigger] self.keys@[b])@ by {
                            let x = old(self).keys@[from(a)];
                            let y = old(self).keys@[from(b)];
                            assert(from(a) != from(b));
                            if from(a) < from(b) {
                                assert(x@ != y@);
                            } else {
                                assert(y@ != x@);
                            }
                        }
                    }
                    assert forall|k: Seq<char>| #[trigger]
                        self@.contains_key(k) == old(self)@.remove(key@).contains_key(k) by {
                        if Self::occurs(self.keys@, k) {
                            let j = Self::index_of(self.keys@, k);
                            assert(old(self).keys@[from(j)]@ == k);
                            assert(from(j) != i);
                            if k == key@ {
                                if from(j) < i {
                                    assert(old(self).keys@[from(j)]@ != old(self).keys@[i as int]@);
                                } else {
                                    assert(old(self).keys@[i as int]@ != old(self).keys@[from(j)]@);
                                }
                            }
                        }
                        if Self::occurs(old(self).keys@, k) && k != key@ {
                            let j = Self::index_of(old(self).keys@, k);
                            assert(j != i);
                            if j == n - 1 {
                                assert(self.keys@[i as int]@ == k);
                            } else {
                                assert(self.keys@[j]@ == k);
                            }
                        }
                    }
                    assert forall|k: Seq<char>| self@.contains_key(k) implies #[trigger] self@[k]
                        == old(self)@.remove(key@)[k] by {
                        let j = Self::index_of(self.keys@, k);
                        self.lemma_at(j);
                        old(self).lemma_at(from(j));
                    }
                    assert(self@ =~= old(self)@.remove(key@));
                    assert(self@.dom() =~= old(self)@.dom().remove(key@));
                }
                Some(value)
            },
            None => {
                assert(self@ =~= old(self)@.remove(key@));
                None
            },
        }
    }

    /// The key at place `i` of the list of keys.
    pub fn key_at(&self, i: usize) -> (r: &String)
        requires
            self.wf(),
            i < self.key_list().len(),
        ensures
            r@ == self.key_list()[i as int],
            self@.contains_key(r@),
    {
        proof {
            self.lemma_at(i as int);
        }
        &self.keys[i]
    }

    /// The value stored under the key at place `i`.
    pub fn value_at(&self, i: usize) -> (r: &V)
        requires
            self.wf(),
            i < self.key_list().len(),
        ensures
            self@.contains_key(self.key_list()[i as int]),
            *r == self@[self.key_list()[i as int]],
    {
        proof {
            self.lemma_at(i as int);
        }
        &self.values[i]
    }
}

} // verus!
