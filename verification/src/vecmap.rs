//! An association-list map owned by the builder.
//!
//! Slots are inserted while loads are still pending for other specifiers, so
//! the graph needs a specifier-keyed mapping with no external aliasing until
//! the build completes. It is kept as a vector of pairs whose keys are
//! pairwise distinct, and viewed in specifications as a `Map` from the keys'
//! abstract values.

use vstd::prelude::*;

verus! {

/// A type usable as a map key: its abstract value is its view, and equality
/// of views is decidable.
pub trait MapKey: View + Sized {
    fn key_eq(&self, other: &Self) -> (r: bool)
        ensures
            r == (self@ == other@),
    ;
}

impl MapKey for String {
    fn key_eq(&self, other: &Self) -> (r: bool) {
        String::eq(self, other)
    }
}

/// The map a sequence of entries stands for: a later entry with the same key
/// would win, though well-formed maps never hold one.
pub open spec fn seq_to_map<K: View, T>(s: Seq<(K, T)>) -> Map<<K as View>::V, T>
    decreases s.len(),
{
    if s.len() == 0 {
        Map::empty()
    } else {
        seq_to_map(s.drop_last()).insert(s.last().0@, s.last().1)
    }
}

/// Pairwise distinct keys.
pub open spec fn distinct_keys<K: View, T>(s: Seq<(K, T)>) -> bool {
    forall|i: int, j: int|
        0 <= i < j < s.len() ==> (#[trigger] s[i]).0@ != (#[trigger] s[j]).0@
}

pub proof fn lemma_seq_to_map_contains<K: View, T>(s: Seq<(K, T)>, k: <K as View>::V)
    ensures
        seq_to_map(s).contains_key(k) <==> exists|i: int| 0 <= i < s.len() && (#[trigger] s[i]).0@ == k,
    decreases s.len(),
{
    if s.len() > 0 {
        lemma_seq_to_map_contains(s.drop_last(), k);
        if s.last().0@ == k {
            assert(s[s.len() - 1].0@ == k);
        } else {
            if seq_to_map(s).contains_key(k) {
                let i = choose|i: int| 0 <= i < s.drop_last().len() && (#[trigger] s.drop_last()[i]).0@ == k;
                assert(s[i].0@ == k);
            }
            if exists|i: int| 0 <= i < s.len() && (#[trigger] s[i]).0@ == k {
                let i = choose|i: int| 0 <= i < s.len() && (#[trigger] s[i]).0@ == k;
                assert(s.drop_last()[i].0@ == k);
            }
        }
    }
}

pub proof fn lemma_seq_to_map_index<K: View, T>(s: Seq<(K, T)>, i: int)
    requires
        distinct_keys(s),
        0 <= i < s.len(),
    ensures
        seq_to_map(s).contains_key(s[i].0@),
        seq_to_map(s)[s[i].0@] == s[i].1,
    decreases s.len(),
{
    if i == s.len() - 1 {
    } else {
        lemma_seq_to_map_index(s.drop_last(), i);
        assert(s.drop_last()[i] == s[i]);
        assert(s.last().0@ != s[i].0@);
    }
}

/// Removing the entry at `i` removes exactly its key from the map.
pub proof fn lemma_seq_to_map_remove<K: View, T>(s: Seq<(K, T)>, i: int)
    requires
        distinct_keys(s),
        0 <= i < s.len(),
    ensures
        distinct_keys(s.remove(i)),
        seq_to_map(s.remove(i)) == seq_to_map(s).remove(s[i].0@),
{
    let r = s.remove(i);
    let k = s[i].0@;
    assert forall|a: int, b: int| 0 <= a < b < r.len()
        implies (#[trigger] r[a]).0@ != (#[trigger] r[b]).0@ by {
        let a0: int = if a < i { a } else { a + 1 };
        let b0: int = if b < i { b } else { b + 1 };
        assert(r[a] == s[a0]);
        assert(r[b] == s[b0]);
    }
    assert forall|x: <K as View>::V| #[trigger] seq_to_map(r).contains_key(x)
        == seq_to_map(s).remove(k).contains_key(x) by {
        lemma_seq_to_map_contains(r, x);
        lemma_seq_to_map_contains(s, x);
        if exists|j: int| 0 <= j < r.len() && (#[trigger] r[j]).0@ == x {
            let j = choose|j: int| 0 <= j < r.len() && (#[trigger] r[j]).0@ == x;
            let j0: int = if j < i { j } else { j + 1 };
            assert(s[j0].0@ == x);
            assert(x != k);
        }
        if seq_to_map(s).remove(k).contains_key(x) {
            let j = choose|j: int| 0 <= j < s.len() && (#[trigger] s[j]).0@ == x;
            assert(j != i);
            let j1: int = if j < i { j } else { j - 1 };
            assert(r[j1] == s[j]);
        }
    }
    assert forall|x: <K as View>::V| seq_to_map(r).contains_key(x)
        implies #[trigger] seq_to_map(r)[x] == seq_to_map(s).remove(k)[x] by {
        lemma_seq_to_map_contains(r, x);
        let j = choose|j: int| 0 <= j < r.len() && (#[trigger] r[j]).0@ == x;
        let j0: int = if j < i { j } else { j + 1 };
        assert(s[j0] == r[j]);
        lemma_seq_to_map_index(r, j);
        lemma_seq_to_map_index(s, j0);
    }
    assert(seq_to_map(r) =~= seq_to_map(s).remove(k));
}

/// Appending a fresh entry inserts exactly its key.
pub proof fn lemma_seq_to_map_push<K: View, T>(s: Seq<(K, T)>, key: K, value: T)
    ensures
        seq_to_map(s.push((key, value))) == seq_to_map(s).insert(key@, value),
{
    assert(s.push((key, value)).drop_last() =~= s);
    assert(s.push((key, value)).last() == (key, value));
}

/// A map from keys to values, stored as entries with pairwise distinct keys.
#[derive(Debug)]
pub struct VecMap<K: MapKey, T> {
    pub entries: Vec<(K, T)>,
}

impl<K: MapKey, T> View for VecMap<K, T> {
    type V = Map<<K as View>::V, T>;

    open spec fn view(&self) -> Map<<K as View>::V, T> {
        seq_to_map(self.entries@)
    }
}

impl<K: MapKey, T> VecMap<K, T> {
    pub open spec fn wf(self) -> bool {
        distinct_keys(self.entries@)
    }

    pub fn new() -> (r: Self)
        ensures
            r.wf(),
            r@ == Map::<<K as View>::V, T>::empty(),
    {
        VecMap { entries: Vec::new() }
    }

    /// The index of the entry holding `key`, if one does.
    pub fn index_of(&self, key: &K) -> (r: Option<usize>)
        ensures
            match r {
                Some(i) => i < self.entries@.len() && self.entries@[i as int].0@ == key@,
                None => forall|i: int|
                    0 <= i < self.entries@.len() ==> (#[trigger] self.entries@[i]).0@ != key@,
            },
    {
        let mut i: usize = 0;
        while i < self.entries.len()
            invariant
                i <= self.entries@.len(),
                forall|j: int| 0 <= j < i ==> (#[trigger] self.entries@[j]).0@ != key@,
            decreases self.entries@.len() - i,
        {
            let entry = &self.entries[i];
            if entry.0.key_eq(key) {
                return Some(i);
            }
            i = i + 1;
        }
        None
    }

    pub fn contains_key(&self, key: &K) -> (r: bool)
        ensures
            r == self@.contains_key(key@),
    {
        proof {
            lemma_seq_to_map_contains(self.entries@, key@);
        }
        self.index_of(key).is_some()
    }

    pub fn get<'a>(&'a self, key: &K) -> (r: Option<&'a T>)
        requires
            self.wf(),
        ensures
            match r {
                Some(v) => self@.contains_key(key@) && *v == self@[key@],
                None => !self@.contains_key(key@),
            },
    {
        proof {
            lemma_seq_to_map_contains(self.entries@, key@);
        }
        match self.index_of(key) {
            Some(i) => {
                proof {
                    lemma_seq_to_map_index(self.entries@, i as int);
                }
                Some(&self.entries[i].1)
            },
            None => None,
        }
    }

    pub fn len(&self) -> (r: usize)
        ensures
            r == self.entries@.len(),
    {
        self.entries.len()
    }

    /// Insert, replacing any entry the key already has.
    pub fn insert(&mut self, key: K, value: T)
        requires
            old(self).wf(),
        ensures
            final(self).wf(),
            final(self)@ == old(self)@.insert(key@, value),
    {
        match self.index_of(&key) {
            Some(i) => {
                let ghost s0 = self.entries@;
                proof {
                    lemma_seq_to_map_remove(s0, i as int);
                }
                let _ = self.entries.remove(i);
                let ghost s1 = self.entries@;
                proof {
                    lemma_seq_to_map_push(s1, key, value);
                    assert forall|a: int, b: int| 0 <= a < b < s1.push((key, value)).len()
                        implies (#[trigger] s1.push((key, value))[a]).0@
                            != (#[trigger] s1.push((key, value))[b]).0@ by {
                        if b == s1.len() as int {
                            lemma_seq_to_map_contains(s1, key@);
                            assert(!seq_to_map(s1).contains_key(key@));
                        }
                    }
                    assert(seq_to_map(s0).remove(key@).insert(key@, value)
                        =~= seq_to_map(s0).insert(key@, value));
                }
                self.entries.push((key, value));
            },
            None => {
                let ghost s0 = self.entries@;
                proof {
                    lemma_seq_to_map_push(s0, key, value);
                    assert forall|a: int, b: int| 0 <= a < b < s0.push((key, value)).len()
                        implies (#[trigger] s0.push((key, value))[a]).0@
                            != (#[trigger] s0.push((key, value))[b]).0@ by {}
                }
                self.entries.push((key, value));
            },
        }
    }

    /// Take the entry the key has out of the map, if any.
    pub fn take(&mut self, key: &K) -> (r: Option<(K, T)>)
        requires
            old(self).wf(),
        ensures
            final(self).wf(),
            match r {
                Some(pair) => old(self)@.contains_key(key@) && pair.0@ == key@ && pair.1 == old(
                    self,
                )@[key@] && final(self)@ == old(self)@.remove(key@),
                None => !old(self)@.contains_key(key@) && *final(self) == *old(self),
            },
    {
        proof {
            lemma_seq_to_map_contains(self.entries@, key@);
        }
        match self.index_of(key) {
            Some(i) => {
                proof {
                    lemma_seq_to_map_index(self.entries@, i as int);
                    lemma_seq_to_map_remove(self.entries@, i as int);
                }
                Some(self.entries.remove(i))
            },
            None => None,
        }
    }

    /// Remove the entry the key has, if any.
    pub fn remove(&mut self, key: &K)
        requires
            old(self).wf(),
        ensures
            final(self).wf(),
            final(self)@ == old(self)@.remove(key@),
    {
        match self.index_of(key) {
            Some(i) => {
                proof {
                    lemma_seq_to_map_remove(self.entries@, i as int);
                }
                let _ = self.entries.remove(i);
            },
            None => {
                proof {
                    lemma_seq_to_map_contains(self.entries@, key@);
                    assert(seq_to_map(self.entries@) =~= seq_to_map(self.entries@).remove(key@));
                }
            },
        }
    }
}

} // verus!
