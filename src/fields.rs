//! An ordered map from strings to strings, with unique keys kept in insertion order.
use vstd::prelude::*;

use crate::text::str_eq;

verus! {

/// A list of `(key, value)` pairs.
pub type Pairs = Seq<(Seq<char>, Seq<char>)>;

/// The first index of `k` among the keys of `s`, or -1.
pub open spec fn key_index(s: Pairs, k: Seq<char>) -> int
    decreases s.len(),
{
    if s.len() == 0 {
        -1
    } else if key_index(s.drop_last(), k) >= 0 {
        key_index(s.drop_last(), k)
    } else if s.last().0 == k {
        s.len() - 1
    } else {
        -1
    }
}

/// The value stored under `k` in `s`.
pub open spec fn lookup(s: Pairs, k: Seq<char>) -> Option<Seq<char>> {
    if key_index(s, k) >= 0 {
        Some(s[key_index(s, k)].1)
    } else {
        None
    }
}

/// `s` with `v` stored under `k`: the value replaced in place where `k` is a key,
/// else the pair appended.
pub open spec fn insert_pair(s: Pairs, k: Seq<char>, v: Seq<char>) -> Pairs {
    if key_index(s, k) >= 0 {
        s.update(key_index(s, k), (k, v))
    } else {
        s.push((k, v))
    }
}

/// Whether no key occurs twice in `s`.
pub open spec fn unique_keys(s: Pairs) -> bool {
    forall|i: int, j: int| 0 <= i < j < s.len() ==> s[i].0 != s[j].0
}

/// The map that `s` stands for.
pub open spec fn pairs_map(s: Pairs) -> Map<Seq<char>, Seq<char>>
    decreases s.len(),
{
    if s.len() == 0 {
        Map::empty()
    } else {
        pairs_map(s.drop_last()).insert(s.last().0, s.last().1)
    }
}

pub proof fn lemma_key_index(s: Pairs, k: Seq<char>)
    ensures
        -1 <= key_index(s, k) < s.len(),
        key_index(s, k) >= 0 ==> s[key_index(s, k)].0 == k,
        key_index(s, k) >= 0 ==> forall|j: int| 0 <= j < key_index(s, k) ==> s[j].0 != k,
        key_index(s, k) < 0 ==> forall|j: int| 0 <= j < s.len() ==> s[j].0 != k,
    decreases s.len(),
{
    if s.len() > 0 {
        let t = s.drop_last();
        lemma_key_index(t, k);
        assert forall|j: int| 0 <= j < t.len() implies t[j] == s[j] by {}
    }
}

/// An ordered string map: each key at most once, kept in the order it was first
/// inserted.
#[derive(Clone, Debug)]
pub struct Fields {
    entries: Vec<(String, String)>,
}

impl View for Fields {
    type V = Pairs;

    closed spec fn view(&self) -> Pairs {
        self.entries@.map_values(|e: (String, String)| (e.0@, e.1@))
    }
}

impl Fields {
    /// Keys are unique.
    pub open spec fn wf(&self) -> bool {
        unique_keys(self@)
    }

    /// An empty map.
    pub fn new() -> (r: Fields)
        ensures
            r@ == Seq::<(Seq<char>, Seq<char>)>::empty(),
            r.wf(),
    {
        Fields { entries: Vec::new() }
    }

    /// The number of keys.
    pub fn len(&self) -> (r: usize)
        ensures
            r == self@.len(),
    {
        self.entries.len()
    }

    /// The `i`-th pair, in insertion order.
    pub fn entry(&self, i: usize) -> (r: (&String, &String))
        requires
            i < self@.len(),
        ensures
            r.0@ == self@[i as int].0,
            r.1@ == self@[i as int].1,
    {
        (&self.entries[i].0, &self.entries[i].1)
    }

    /// The position of `key`, if present.
    pub fn position(&self, key: &str) -> (r: Option<usize>)
        ensures
            r matches Some(i) ==> key_index(self@, key@) == i && i < self@.len(),
            r is None ==> key_index(self@, key@) == -1,
    {
        proof {
            lemma_key_index(self@, key@);
        }
        let mut i: usize = 0;
        while i < self.entries.len()
            invariant
                i <= self@.len(),
                self@.len() == self.entries@.len(),
                forall|j: int| 0 <= j < i ==> self@[j].0 != key@,
                -1 <= key_index(self@, key@) < self@.len(),
                key_index(self@, key@) >= 0 ==> self@[key_index(self@, key@)].0 == key@
                    && forall|j: int| 0 <= j < key_index(self@, key@) ==> self@[j].0 != key@,
                key_index(self@, key@) < 0 ==> forall|j: int| 0 <= j < self@.len() ==> self@[j].0 != key@,
            decreases self@.len() - i,
        {
            if str_eq(self.entries[i].0.as_str(), key) {
                assert(self@[i as int].0 == key@);
                return Some(i);
            }
            assert(self@[i as int].0 != key@);
            i = i + 1;
        }
        None
    }

    /// The value stored under `key`.
    pub fn get(&self, key: &str) -> (r: Option<&String>)
        ensures
            r matches Some(v) ==> lookup(self@, key@) == Some(v@),
            r is None ==> lookup(self@, key@) is None,
    {
        match self.position(key) {
            Some(i) => {
                assert(self@[i as int].1 == self.entries@[i as int].1@);
                Some(&self.entries[i].1)
            },
            None => None,
        }
    }

    /// Whether `key` is present.
    pub fn contains_key(&self, key: &str) -> (r: bool)
        ensures
            r == (lookup(self@, key@) is Some),
    {
        self.position(key).is_some()
    }

    /// Stores `value` under `key`, replacing the value in place if `key` is present.
    pub fn insert(&mut self, key: String, value: String)
        requires
            old(self).wf(),
        ensures
            final(self).wf(),
            final(self)@ == insert_pair(old(self)@, key@, value@),
    {
        proof {
            lemma_key_index(self@, key@);
        }
        match self.position(key.as_str()) {
            Some(i) => {
                let ghost k = key@;
                let ghost v = value@;
                self.entries.set(i, (key, value));
                assert(self@ == insert_pair(old(self)@, k, v));
            },
            None => {
                let ghost k = key@;
                let ghost v = value@;
                self.entries.push((key, value));
                assert(self@ == insert_pair(old(self)@, k, v));
            },
        }
    }
}

} // verus!
