//! An association list: a vector of key/value pairs whose keys are pairwise
//! distinct, viewed as a finite map.

use vstd::prelude::*;

verus! {

/// Keys that can be compared for equality of their views.
pub trait KeyEq: View + Sized {
    /// Whether two keys have the same view.
    fn key_eq(&self, other: &Self) -> (res: bool)
        ensures
            res == (self@ == other@),
    ;
}

impl KeyEq for u64 {
    fn key_eq(&self, other: &Self) -> (res: bool) {
        *self == *other
    }
}

impl KeyEq for String {
    fn key_eq(&self, other: &Self) -> (res: bool) {
        *self == *other
    }
}

impl KeyEq for &'static str {
    fn key_eq(&self, other: &Self) -> (res: bool) {
        crate::text::str_eq(*self, *other)
    }
}

impl KeyEq for Vec<u64> {
    fn key_eq(&self, other: &Self) -> (res: bool) {
        if self.len() != other.len() {
            assert(self@.len() != other@.len());
            return false;
        }
        let mut i: usize = 0;
        while i < self.len()
            invariant
                self@.len() == other@.len(),
                i <= self@.len(),
                forall|j: int| 0 <= j < i ==> self@[j] == other@[j],
            decreases self@.len() - i,
        {
            if self[i] != other[i] {
                assert(self@[i as int] != other@[i as int]);
                return false;
            }
            i = i + 1;
        }
        assert(self@ =~= other@);
        true
    }
}

/// Finite map from key views to values, stored as a list of distinct keys.
#[derive(Debug)]
pub struct AssocList<K, V> {
    entries: Vec<(K, V)>,
}

impl<K: KeyEq, V> AssocList<K, V> {
    /// Whether `k` occurs as the key of some entry.
    pub open spec fn has_key(entries: Seq<(K, V)>, k: K::V) -> bool {
        exists|i: int| 0 <= i < entries.len() && (#[trigger] entries[i]).0@ == k
    }

    /// Keys of distinct entries have distinct views.
    pub open spec fn distinct_keys(entries: Seq<(K, V)>) -> bool {
        forall|i: int, j: int|
            0 <= i < entries.len() && 0 <= j < entries.len() && i != j ==> (
            #[trigger] entries[i]).0@ != (#[trigger] entries[j]).0@
    }

    /// The entries of the list.
    pub closed spec fn entries(self) -> Seq<(K, V)> {
        self.entries@
    }

    /// The well-formedness of the list: keys are pairwise distinct.
    pub open spec fn wf(self) -> bool {
        Self::distinct_keys(self.entries())
    }

    /// The map that the list denotes.
    pub open spec fn map(self) -> Map<K::V, V> {
        Map::new(
            |k: K::V| Self::has_key(self.entries(), k),
            |k: K::V|
                self.entries()[choose|i: int|
                    0 <= i < self.entries().len() && (#[trigger] self.entries()[i]).0@ == k].1,
        )
    }

    /// In a well-formed list, the entry at `i` is what the map holds for its key.
    pub proof fn lemma_entry_in_map(self, i: int)
        requires
            self.wf(),
            0 <= i < self.entries().len(),
        ensures
            self.map().contains_key(self.entries()[i].0@),
            self.map()[self.entries()[i].0@] == self.entries()[i].1,
    {
        let k = self.entries()[i].0@;
        assert(Self::has_key(self.entries(), k));
        let j = choose|j: int| 0 <= j < self.entries().len() && (#[trigger] self.entries()[j]).0@ == k;
        assert(j == i);
    }

    /// The map of a well-formed list has as many keys as the list has entries.
    pub proof fn lemma_len(self)
        requires
            self.wf(),
        ensures
            self.map().dom().finite(),
            self.map().dom().len() == self.entries().len(),
    {
        let s = self.entries();
        let keys = s.map_values(|e: (K, V)| e.0@);
        assert forall|i: int, j: int| 0 <= i < keys.len() && 0 <= j < keys.len() && i != j implies keys[i]
            != keys[j] by {
            assert(s[i].0@ == keys[i] && s[j].0@ == keys[j]);
        }
        keys.unique_seq_to_set();
        assert forall|k: K::V| self.map().dom().contains(k) <==> keys.to_set().contains(k) by {
            if self.map().dom().contains(k) {
                let i = choose|i: int| 0 <= i < s.len() && (#[trigger] s[i]).0@ == k;
                assert(keys[i] == k);
            }
            if keys.to_set().contains(k) {
                let i = choose|i: int| 0 <= i < keys.len() && keys[i] == k;
                assert(s[i].0@ == k);
            }
        }
        assert(self.map().dom() =~= keys.to_set());
    }

    /// An empty list.
    pub fn new() -> (res: Self)
        ensures
            res.wf(),
            res.map() == Map::<K::V, V>::empty(),
            res.entries().len() == 0,
    {
        let res = AssocList { entries: Vec::new() };
        assert(res.map() =~= Map::<K::V, V>::empty());
        res
    }

    /// The number of entries.
    pub fn len(&self) -> (res: usize)
        ensures
            res == self.entries().len(),
    {
        self.entries.len()
    }

    /// The position of the entry whose key has the view of `k`, if any.
    pub fn find(&self, k: &K) -> (res: Option<usize>)
        requires
            self.wf(),
        ensures
            res is None <==> !self.map().contains_key(k@),
            res matches Some(i) ==> i < self.entries().len() && self.entries()[i as int].0@ == k@,
    {
        let mut i: usize = 0;
        while i < self.entries.len()
            invariant
                i <= self.entries@.len(),
                forall|j: int| 0 <= j < i ==> (#[trigger] self.entries@[j]).0@ != k@,
            decreases self.entries@.len() - i,
        {
            if self.entries[i].0.key_eq(k) {
                return Some(i);
            }
            i = i + 1;
        }
        None
    }

    /// The value stored for `k`, if any.
    pub fn get(&self, k: &K) -> (res: Option<&V>)
        requires
            self.wf(),
        ensures
            res is Some <==> self.map().contains_key(k@),
            res matches Some(v) ==> *v == self.map()[k@],
    {
        match self.find(k) {
            Some(i) => {
                proof {
                    self.lemma_entry_in_map(i as int);
                }
                Some(&self.entries[i].1)
            },
            None => None,
        }
    }

    /// The key and value at position `i`.
    pub fn entry_at(&self, i: usize) -> (res: &(K, V))
        requires
            i < self.entries().len(),
        ensures
            *res == self.entries()[i as int],
    {
        &self.entries[i]
    }

    /// Adds an entry for a key that is not present yet.
    pub fn insert_new(&mut self, k: K, v: V)
        requires
            old(self).wf(),
            !old(self).map().contains_key(k@),
        ensures
            final(self).wf(),
            final(self).map() == old(self).map().insert(k@, v),
            final(self).entries() == old(self).entries().push((k, v)),
    {
        let ghost kv = k@;
        let ghost old_s = self.entries@;
        self.entries.push((k, v));
        let ghost s = self.entries@;
        assert forall|i: int, j: int|
            0 <= i < s.len() && 0 <= j < s.len() && i != j implies (#[trigger] s[i]).0@ != (
            #[trigger] s[j]).0@ by {
            if i < old_s.len() && j < old_s.len() {
                assert(s[i] == old_s[i] && s[j] == old_s[j]);
            } else if i < old_s.len() {
                assert(s[i] == old_s[i]);
                assert(Self::has_key(old_s, s[i].0@));
            } else {
                assert(s[j] == old_s[j]);
                assert(Self::has_key(old_s, s[j].0@));
            }
        }
        assert forall|key: K::V| #[trigger] self.map().contains_key(key) <==> old(self).map().insert(kv, v).contains_key(key) by {
            if Self::has_key(s, key) && key != kv {
                let i = choose|i: int| 0 <= i < s.len() && (#[trigger] s[i]).0@ == key;
                assert(s[i] == old_s[i]);
            }
            if Self::has_key(old_s, key) {
                let i = choose|i: int| 0 <= i < old_s.len() && (#[trigger] old_s[i]).0@ == key;
                assert(s[i] == old_s[i]);
            }
            if key == kv {
                assert(s[old_s.len() as int].0@ == kv);
            }
        }
        assert forall|key: K::V| #[trigger] self.map().contains_key(key) implies self.map()[key] == old(self).map().insert(kv, v)[key] by {
            let i = choose|i: int| 0 <= i < s.len() && (#[trigger] s[i]).0@ == key;
            self.lemma_entry_in_map(i);
            if key != kv {
                assert(s[i] == old_s[i]);
                old(self).lemma_entry_in_map(i);
            }
        }
        assert(self.map() =~= old(self).map().insert(kv, v));
    }

    /// Removes the entry at position `i` and returns it.
    pub fn remove_at(&mut self, i: usize) -> (res: (K, V))
        requires
            old(self).wf(),
            i < old(self).entries().len(),
        ensures
            final(self).wf(),
            res == old(self).entries()[i as int],
            old(self).map().contains_key(res.0@),
            old(self).map()[res.0@] == res.1,
            final(self).map() == old(self).map().remove(res.0@),
            final(self).entries() == old(self).entries().remove(i as int),
    {
        proof {
            self.lemma_entry_in_map(i as int);
        }
        let ghost old_s = self.entries@;
        let res = self.entries.remove(i);
        let ghost s = self.entries@;
        let ghost kv = res.0@;
        assert(s =~= old_s.remove(i as int));
        assert forall|a: int, b: int|
            0 <= a < s.len() && 0 <= b < s.len() && a != b implies (#[trigger] s[a]).0@ != (
            #[trigger] s[b]).0@ by {
            let oa = if a < i { a } else { a + 1 };
            let ob = if b < i { b } else { b + 1 };
            assert(s[a] == old_s[oa] && s[b] == old_s[ob]);
        }
        assert forall|key: K::V| #[trigger] self.map().contains_key(key) <==> old(self).map().remove(kv).contains_key(key) by {
            if Self::has_key(s, key) {
                let a = choose|a: int| 0 <= a < s.len() && (#[trigger] s[a]).0@ == key;
                let oa = if a < i { a } else { a + 1 };
                assert(s[a] == old_s[oa]);
            }
            if Self::has_key(old_s, key) && key != kv {
                let oa = choose|a: int| 0 <= a < old_s.len() && (#[trigger] old_s[a]).0@ == key;
                assert(oa != i);
                let a = if oa < i { oa } else { oa - 1 };
                assert(s[a] == old_s[oa]);
            }
        }
        assert forall|key: K::V| #[trigger] self.map().contains_key(key) implies self.map()[key] == old(self).map().remove(kv)[key] by {
            let a = choose|a: int| 0 <= a < s.len() && (#[trigger] s[a]).0@ == key;
            self.lemma_entry_in_map(a);
            let oa = if a < i { a } else { a + 1 };
            assert(s[a] == old_s[oa]);
            old(self).lemma_entry_in_map(oa);
        }
        assert(self.map() =~= old(self).map().remove(kv));
        res
    }

    /// Replaces the value at position `i`, keeping its key, and returns the
    /// value it held.
    pub fn replace_value_at(&mut self, i: usize, v: V) -> (res: V)
        requires
            old(self).wf(),
            i < old(self).entries().len(),
        ensures
            final(self).wf(),
            res == old(self).entries()[i as int].1,
            final(self).map() == old(self).map().insert(old(self).entries()[i as int].0@, v),
            final(self).entries().len() == old(self).entries().len(),
            forall|j: int| 0 <= j < old(self).entries().len() ==> (#[trigger] final(self).entries()[j]).0
                == old(self).entries()[j].0,
            final(self).entries()[i as int].1 == v,
            forall|j: int| 0 <= j < old(self).entries().len() && j != i ==> (#[trigger] final(self).entries()[j]).1
                == old(self).entries()[j].1,
    {
        let ghost old_s = self.entries@;
        let (k, old_v) = self.entries.remove(i);
        self.entries.insert(i, (k, v));
        let ghost s = self.entries@;
        let ghost kv = old_s[i as int].0@;
        assert(s =~= old_s.update(i as int, (old_s[i as int].0, v)));
        assert forall|a: int, b: int|
            0 <= a < s.len() && 0 <= b < s.len() && a != b implies (#[trigger] s[a]).0@ != (
            #[trigger] s[b]).0@ by {
            assert(s[a].0 == old_s[a].0 && s[b].0 == old_s[b].0);
        }
        assert forall|key: K::V| #[trigger] self.map().contains_key(key) <==> old(self).map().insert(kv, v).contains_key(key) by {
            if Self::has_key(s, key) {
                let a = choose|a: int| 0 <= a < s.len() && (#[trigger] s[a]).0@ == key;
                assert(s[a].0 == old_s[a].0);
            }
            if Self::has_key(old_s, key) {
                let a = choose|a: int| 0 <= a < old_s.len() && (#[trigger] old_s[a]).0@ == key;
                assert(s[a].0 == old_s[a].0);
            }
        }
        assert forall|key: K::V| #[trigger] self.map().contains_key(key) implies self.map()[key] == old(self).map().insert(kv, v)[key] by {
            let a = choose|a: int| 0 <= a < s.len() && (#[trigger] s[a]).0@ == key;
            self.lemma_entry_in_map(a);
            if a != i {
                assert(s[a] == old_s[a]);
                old(self).lemma_entry_in_map(a);
            }
        }
        assert(self.map() =~= old(self).map().insert(kv, v));
        old_v
    }

    /// A mutable reference to the value at position `i`; writing through it
    /// changes that value and nothing else.
    pub fn value_mut_at(&mut self, i: usize) -> (res: &mut V)
        requires
            i < old(self).entries().len(),
        ensures
            *res == old(self).entries()[i as int].1,
            final(self).entries() == old(self).entries().update(
                i as int,
                (old(self).entries()[i as int].0, *final(res)),
            ),
    {
        &mut self.entries[i].1
    }
}

} // verus!
