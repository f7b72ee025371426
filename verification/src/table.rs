//! Exact-match tables: the map type behind every keyed lookup of the stages.

use vstd::prelude::*;
use crate::bytes;

verus! {

/// A key that can be compared for equality.
pub trait Key: Sized + Copy {
    /// Whether the two keys are the same.
    fn same(&self, other: &Self) -> (r: bool)
        ensures
            r == (*self == *other),
    ;
}

impl Key for u32 {
    fn same(&self, other: &Self) -> (r: bool) {
        *self == *other
    }
}

impl Key for u16 {
    fn same(&self, other: &Self) -> (r: bool) {
        *self == *other
    }
}

impl Key for [u8; 16] {
    fn same(&self, other: &Self) -> (r: bool) {
        bytes::same16(self, other)
    }
}

/// A table from keys to values; its view is the map it holds.
pub struct Table<K, V> {
    entries: Vec<(K, V)>,
}

/// The value the entry list `s` gives to `k`: that of the last entry for it.
spec fn find<K, V>(s: Seq<(K, V)>, k: K) -> Option<V>
    decreases s.len(),
{
    if s.len() == 0 {
        None
    } else if s.last().0 == k {
        Some(s.last().1)
    } else {
        find(s.drop_last(), k)
    }
}

impl<K, V> View for Table<K, V> {
    type V = Map<K, V>;

    closed spec fn view(&self) -> Map<K, V> {
        Map::new(
            |k: K| find(self.entries@, k) is Some,
            |k: K| find(self.entries@, k)->0,
        )
    }
}

/// An entry replaced in place changes the value of its own key only, when no
/// later entry has that key.
proof fn find_update<K, V>(s: Seq<(K, V)>, i: int, k: K, v: V, q: K)
    requires
        0 <= i < s.len(),
        s[i].0 == k,
        forall|j: int| i < j < s.len() ==> s[j].0 != k,
    ensures
        find(s.update(i, (k, v)), q) == (if q == k { Some(v) } else { find(s, q) }),
    decreases s.len(),
{
    let u = s.update(i, (k, v));
    if i == s.len() - 1 {
        assert(u.drop_last() =~= s.drop_last());
    } else {
        assert(u.drop_last() =~= s.drop_last().update(i, (k, v)));
        assert(s.last().0 != k);
        find_update(s.drop_last(), i, k, v, q);
    }
}

impl<K, V> Table<K, V> {
    /// The empty table.
    pub fn new() -> (r: Self)
        ensures
            r@ == Map::<K, V>::empty(),
    {
        let r = Table { entries: Vec::new() };
        assert(r@ =~= Map::<K, V>::empty());
        r
    }
}

impl<K: Key, V: Copy> Table<K, V> {
    /// The value of `k`, if it has one.
    pub fn get(&self, k: &K) -> (r: Option<V>)
        ensures
            r == self@.get(*k),
    {
        let mut i: usize = self.entries.len();
        assert(self.entries@.take(i as int) =~= self.entries@);
        while i > 0
            invariant
                i <= self.entries@.len(),
                find(self.entries@, *k) == find(self.entries@.take(i as int), *k),
            decreases i,
        {
            i -= 1;
            assert(self.entries@.take(i + 1).drop_last() =~= self.entries@.take(i as int));
            if self.entries[i].0.same(k) {
                return Some(self.entries[i].1);
            }
        }
        None
    }

    /// Whether `k` has a value.
    pub fn has(&self, k: &K) -> (r: bool)
        ensures
            r == self@.contains_key(*k),
    {
        self.get(k).is_some()
    }

    /// Set the value of `k`.
    pub fn put(&mut self, k: K, v: V)
        ensures
            final(self)@ == old(self)@.insert(k, v),
    {
        let ghost before = self.entries@;
        let mut i: usize = self.entries.len();
        while i > 0
            invariant
                i <= self.entries@.len(),
                self.entries@ == before,
                *self == *old(self),
                old(self).entries@ == before,
                forall|j: int| i <= j < self.entries@.len() ==> self.entries@[j].0 != k,
            decreases i,
        {
            i -= 1;
            if self.entries[i].0.same(&k) {
                self.entries.set(i, (k, v));
                proof {
                    assert forall|q: K| #[trigger]
                        find(self.entries@, q) == (if q == k { Some(v) } else { find(before, q) })
                        by {
                        find_update(before, i as int, k, v, q);
                    }
                    assert(self@ =~= old(self)@.insert(k, v));
                }
                return;
            }
        }
        self.entries.push((k, v));
        proof {
            assert(self.entries@.drop_last() =~= before);
            assert(self@ =~= old(self)@.insert(k, v));
        }
    }
}

} // verus!
