//! A small map with text keys.

use crate::text::str_eq;
use vstd::prelude::*;

verus! {

/// Entries with pairwise distinct keys.
pub open spec fn distinct_keys<V>(entries: Seq<(String, V)>) -> bool {
    forall|i: int, j: int|
        0 <= i < j < entries.len() ==> #[trigger] entries[i].0@ != #[trigger] entries[j].0@
}

/// Where a key stands.
pub open spec fn is_at<V>(entries: Seq<(String, V)>, key: Seq<char>, i: int) -> bool {
    0 <= i < entries.len() && entries[i].0@ == key
}

/// The map that entries stand for.
pub open spec fn entries_map<V>(entries: Seq<(String, V)>) -> Map<Seq<char>, V> {
    Map::new(
        |k: Seq<char>| exists|i: int| is_at(entries, k, i),
        |k: Seq<char>| entries[choose|i: int| is_at(entries, k, i)].1,
    )
}

/// A map from texts to values.
#[derive(Debug)]
pub struct TextMap<V> {
    entries: Vec<(String, V)>,
}

impl<V> View for TextMap<V> {
    type V = Map<Seq<char>, V>;

    closed spec fn view(&self) -> Map<Seq<char>, V> {
        entries_map(self.entries@)
    }
}

/// With distinct keys, each entry is what the map holds at its key.
proof fn lemma_entry<V>(entries: Seq<(String, V)>, i: int)
    requires
        distinct_keys(entries),
        0 <= i < entries.len(),
    ensures
        entries_map(entries).contains_key(entries[i].0@),
        entries_map(entries)[entries[i].0@] == entries[i].1,
{
    let k = entries[i].0@;
    assert(is_at(entries, k, i));
    let j = choose|j: int| is_at(entries, k, j);
    assert(is_at(entries, k, j));
    assert(j == i);
}

impl<V> TextMap<V> {
    #[verifier::type_invariant]
    spec fn inv(&self) -> bool {
        distinct_keys(self.entries@)
    }

    pub fn new() -> (m: Self)
        ensures
            m@ == Map::<Seq<char>, V>::empty(),
    {
        let m = TextMap { entries: Vec::new() };
        assert(m@ =~= Map::<Seq<char>, V>::empty());
        m
    }

    /// The entries behind the map.
    pub closed spec fn spec_entries(&self) -> Seq<(String, V)> {
        self.entries@
    }

    /// The entries, for walking through the whole map.
    pub fn entries(&self) -> (r: &Vec<(String, V)>)
        ensures
            r@ == self.spec_entries(),
            distinct_keys(r@),
            entries_map(r@) == self@,
    {
        proof {
            use_type_invariant(self);
        }
        &self.entries
    }

    pub fn len(&self) -> (n: usize)
        ensures
            n == self.spec_entries().len(),
    {
        self.entries.len()
    }

    pub fn is_empty(&self) -> (r: bool)
        ensures
            r <==> self@ == Map::<Seq<char>, V>::empty(),
    {
        proof {
            use_type_invariant(self);
            if self.entries@.len() > 0 {
                lemma_entry(self.entries@, 0);
            } else {
                assert(self@ =~= Map::<Seq<char>, V>::empty());
            }
        }
        self.entries.len() == 0
    }

    fn position(&self, key: &str) -> (r: Option<usize>)
        ensures
            match r {
                Some(i) => is_at(self.entries@, key@, i as int),
                None => forall|i: int| !is_at(self.entries@, key@, i),
            },
    {
        let n: usize = self.entries.len();
        for i in 0..n
            invariant
                n == self.entries@.len(),
                forall|j: int| 0 <= j < i ==> !is_at(self.entries@, key@, j),
        {
            if str_eq(self.entries[i].0.as_str(), key) {
                return Some(i);
            }
        }
        None
    }

    pub fn get(&self, key: &str) -> (r: Option<&V>)
        ensures
            match r {
                Some(v) => self@.contains_key(key@) && *v == self@[key@],
                None => !self@.contains_key(key@),
            },
    {
        proof {
            use_type_invariant(self);
        }
        match self.position(key) {
            Some(i) => {
                proof {
                    lemma_entry(self.entries@, i as int);
                }
                Some(&self.entries[i].1)
            },
            None => None,
        }
    }

    pub fn contains_key(&self, key: &str) -> (r: bool)
        ensures
            r == self@.contains_key(key@),
    {
        self.get(key).is_some()
    }

    /// Set the value of a key.
    pub fn insert(&mut self, key: String, value: V)
        ensures
            final(self)@ == old(self)@.insert(key@, value),
    {
        proof {
            use_type_invariant(&*self);
        }
        let at = self.position(key.as_str());
        let mut entries: Vec<(String, V)> = Vec::new();
        std::mem::swap(&mut entries, &mut self.entries);
        let ghost before = entries@;
        let ghost k = key@;
        match at {
            Some(i) => {
                entries.set(i, (key, value));
            },
            None => {
                entries.push((key, value));
                proof {
                    assert forall|i: int, j: int| 0 <= i < j < entries@.len() implies #[trigger] entries@[i].0@
                        != #[trigger] entries@[j].0@ by {
                        assert(!is_at(before, k, i));
                    }
                }
            },
        }
        proof {
            let ghost after = entries@;
            let at_k: int = match at {
                Some(i) => i as int,
                None => before.len() as int,
            };
            assert(distinct_keys(after));
            assert(entries_map(after) =~= entries_map(before).insert(k, value)) by {
                lemma_entry(after, at_k);
                assert forall|x: Seq<char>| entries_map(after).contains_key(x) == entries_map(
                    before,
                ).insert(k, value).contains_key(x) by {
                    if x != k {
                        if entries_map(after).contains_key(x) {
                            let i = choose|i: int| is_at(after, x, i);
                            assert(is_at(before, x, i));
                        }
                        if entries_map(before).contains_key(x) {
                            let i = choose|i: int| is_at(before, x, i);
                            assert(is_at(after, x, i));
                        }
                    }
                }
                assert forall|x: Seq<char>| x != k && entries_map(after).contains_key(x) implies
                    entries_map(after)[x] == entries_map(before)[x] by {
                    let i = choose|i: int| is_at(after, x, i);
                    assert(is_at(before, x, i));
                    lemma_entry(after, i);
                    lemma_entry(before, i);
                }
            }
        }
        self.entries = entries;
    }

    /// Drop a key, if it is there.
    pub fn remove(&mut self, key: &str)
        ensures
            final(self)@ == old(self)@.remove(key@),
    {
        proof {
            use_type_invariant(&*self);
        }
        match self.position(key) {
            Some(i) => {
                let mut entries: Vec<(String, V)> = Vec::new();
                std::mem::swap(&mut entries, &mut self.entries);
                let ghost before = entries@;
                let _ = entries.remove(i);
                proof {
                    let ghost after = entries@;
                    let at: int = i as int;
                    assert forall|a: int, b: int| 0 <= a < b < after.len() implies #[trigger] after[a].0@
                        != #[trigger] after[b].0@ by {
                        let a2 = if a < at { a } else { a + 1 };
                        let b2 = if b < at { b } else { b + 1 };
                        assert(after[a] == before[a2]);
                        assert(after[b] == before[b2]);
                    }
                    assert(entries_map(after) =~= entries_map(before).remove(key@)) by {
                        assert forall|x: Seq<char>| entries_map(after).contains_key(x)
                            == entries_map(before).remove(key@).contains_key(x) by {
                            if entries_map(after).contains_key(x) {
                                let a = choose|a: int| is_at(after, x, a);
                                let a2 = if a < at { a } else { a + 1 };
                                assert(is_at(before, x, a2));
                                assert(before[a2].0@ != before[at].0@);
                            }
                            if x != key@ && entries_map(before).contains_key(x) {
                                let b = choose|b: int| is_at(before, x, b);
                                let a = if b < at { b } else { b - 1 };
                                assert(is_at(after, x, a));
                            }
                        }
                        assert forall|x: Seq<char>| entries_map(after).contains_key(x) implies
                            entries_map(after)[x] == entries_map(before)[x] by {
                            let a = choose|a: int| is_at(after, x, a);
                            let a2 = if a < at { a } else { a + 1 };
                            assert(is_at(before, x, a2));
                            lemma_entry(after, a);
                            lemma_entry(before, a2);
                        }
                    }
                }
                self.entries = entries;
            },
            None => {
                assert(self@ =~= old(self)@.remove(key@));
            },
        }
    }
}

impl<V: Clone> Clone for TextMap<V> {
    fn clone(&self) -> (r: Self)
        ensures
            r.spec_entries().len() == self.spec_entries().len(),
            forall|i: int|
                0 <= i < self.spec_entries().len() ==> {
                    &&& (#[trigger] r.spec_entries()[i]).0 == self.spec_entries()[i].0
                    &&& cloned(self.spec_entries()[i].1, r.spec_entries()[i].1)
                },
    {
        proof {
            use_type_invariant(self);
        }
        let mut entries: Vec<(String, V)> = Vec::new();
        let n: usize = self.entries.len();
        for i in 0..n
            invariant
                n == self.entries@.len(),
                entries@.len() == i,
                forall|j: int|
                    0 <= j < i ==> {
                        &&& (#[trigger] entries@[j]).0 == self.entries@[j].0
                        &&& cloned(self.entries@[j].1, entries@[j].1)
                    },
        {
            entries.push((self.entries[i].0.clone(), self.entries[i].1.clone()));
        }
        TextMap { entries }
    }
}

} // verus!
