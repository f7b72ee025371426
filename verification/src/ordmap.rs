//! Maps and sets that keep their keys in order.

use vstd::prelude::*;
use crate::text;

verus! {

/// How two keys lie to each other.
pub enum Side {
    Before,
    Same,
    After,
}

/// A key type with a strict total order on its values.
pub trait SortKey: Sized + View {
    /// Whether `a` comes before `b`.
    spec fn lt(a: <Self as View>::V, b: <Self as View>::V) -> bool;

    proof fn irreflexive(a: <Self as View>::V)
        ensures
            !Self::lt(a, a),
    ;

    proof fn transitive(a: <Self as View>::V, b: <Self as View>::V, c: <Self as View>::V)
        requires
            Self::lt(a, b),
            Self::lt(b, c),
        ensures
            Self::lt(a, c),
    ;

    proof fn total(a: <Self as View>::V, b: <Self as View>::V)
        ensures
            Self::lt(a, b) || a == b || Self::lt(b, a),
    ;

    /// Where `self` lies to `other`.
    fn side(&self, other: &Self) -> (r: Side)
        ensures
            match r {
                Side::Before => Self::lt(self@, other@),
                Side::Same => self@ == other@,
                Side::After => Self::lt(other@, self@),
            },
    ;
}

/// Whether the keys of the listing strictly ascend.
pub open spec fn ascending<K: SortKey, A>(s: Seq<(K::V, A)>) -> bool {
    forall|i: int, j: int| 0 <= i < j < s.len() ==> K::lt(#[trigger] s[i].0, #[trigger] s[j].0)
}

/// The value that the listing gives to `k`.
pub open spec fn lookup<Q, A>(s: Seq<(Q, A)>, k: Q) -> Option<A>
    decreases s.len(),
{
    if s.len() == 0 {
        None
    } else if s.last().0 == k {
        Some(s.last().1)
    } else {
        lookup(s.drop_last(), k)
    }
}

/// The map that the listing stands for.
pub open spec fn mapping<Q, A>(s: Seq<(Q, A)>) -> Map<Q, A> {
    Map::new(|k: Q| lookup(s, k) is Some, |k: Q| lookup(s, k)->0)
}

/// A key looked up successfully stands in the listing.
pub proof fn lookup_found<Q, A>(s: Seq<(Q, A)>, k: Q) -> (i: int)
    requires
        lookup(s, k) is Some,
    ensures
        0 <= i < s.len(),
        s[i].0 == k,
        s[i].1 == lookup(s, k)->0,
    decreases s.len(),
{
    if s.last().0 == k {
        s.len() - 1
    } else {
        lookup_found(s.drop_last(), k)
    }
}

/// A key that no entry has is not found.
pub proof fn lookup_missing<Q, A>(s: Seq<(Q, A)>, k: Q)
    requires
        forall|i: int| 0 <= i < s.len() ==> (#[trigger] s[i]).0 != k,
    ensures
        lookup(s, k) is None,
    decreases s.len(),
{
    if s.len() > 0 {
        lookup_missing(s.drop_last(), k);
    }
}

/// In an ascending listing every entry is what its key is looked up as.
pub proof fn lookup_entry<K: SortKey, A>(s: Seq<(K::V, A)>, i: int)
    requires
        ascending::<K, A>(s),
        0 <= i < s.len(),
    ensures
        lookup(s, s[i].0) == Some(s[i].1),
    decreases s.len(),
{
    if i < s.len() - 1 {
        assert(K::lt(s[i].0, s[s.len() - 1].0));
        K::irreflexive(s[i].0);
        assert(ascending::<K, A>(s.drop_last()));
        lookup_entry::<K, A>(s.drop_last(), i);
    }
}

/// A map has one ascending listing: the order in which its entries came does
/// not show.
pub proof fn one_listing<K: SortKey, A>(s: Seq<(K::V, A)>, t: Seq<(K::V, A)>)
    requires
        ascending::<K, A>(s),
        ascending::<K, A>(t),
        mapping(s) == mapping(t),
    ensures
        s == t,
    decreases s.len(),
{
    assert forall|k: K::V| #[trigger] lookup(s, k) == lookup(t, k) by {
        let (m, n) = (mapping(s), mapping(t));
        assert(m.contains_key(k) == (lookup(s, k) is Some));
        assert(n.contains_key(k) == (lookup(t, k) is Some));
        if m.contains_key(k) {
            assert(m[k] == lookup(s, k)->0);
            assert(n[k] == lookup(t, k)->0);
        }
    }
    if s.len() == 0 {
        if t.len() > 0 {
            lookup_entry::<K, A>(t, 0);
            assert(lookup(s, t[0].0) is None);
        }
        assert(s =~= t);
    } else {
        let k = s.last().0;
        lookup_entry::<K, A>(s, s.len() - 1);
        let j = lookup_found(t, k);
        let q = t.last().0;
        lookup_entry::<K, A>(t, t.len() - 1);
        let i = lookup_found(s, q);
        if j < t.len() - 1 {
            assert(K::lt(t[j].0, t[t.len() - 1].0));
            if i < s.len() - 1 {
                assert(K::lt(s[i].0, s[s.len() - 1].0));
                K::transitive(k, q, k);
            }
            K::irreflexive(k);
            assert(false);
        }
        assert(s.last() == t.last());
        let s1 = s.drop_last();
        let t1 = t.drop_last();
        assert forall|x: K::V| lookup(s1, x) == lookup(t1, x) by {
            if x == k {
                if lookup(s1, x) is Some {
                    let n = lookup_found(s1, x);
                    assert(K::lt(s[n].0, s[s.len() - 1].0));
                    K::irreflexive(k);
                }
                if lookup(t1, x) is Some {
                    let n = lookup_found(t1, x);
                    assert(K::lt(t[n].0, t[t.len() - 1].0));
                    K::irreflexive(k);
                }
            } else {
                assert(lookup(s, x) == lookup(t, x));
            }
        }
        assert(mapping(s1) =~= mapping(t1));
        one_listing::<K, A>(s1, t1);
        assert(s =~= s1.push(s.last()));
        assert(t =~= t1.push(t.last()));
    }
}

/// The ascending listing of a map.
pub open spec fn listing_of<K: SortKey, A>(m: Map<K::V, A>) -> Seq<(K::V, A)> {
    choose|s: Seq<(K::V, A)>| ascending::<K, A>(s) && mapping(s) == m
}

/// Listing one entry more adds it to the map.
pub proof fn mapping_push<Q, A>(s: Seq<(Q, A)>, e: (Q, A))
    ensures
        mapping(s.push(e)) == mapping(s).insert(e.0, e.1),
{
    assert(s.push(e).drop_last() =~= s);
    assert(mapping(s.push(e)) =~= mapping(s).insert(e.0, e.1));
}

/// A listing stands for a finite map.
pub proof fn mapping_finite<Q, A>(s: Seq<(Q, A)>)
    ensures
        mapping(s).dom().finite(),
    decreases s.len(),
{
    if s.len() == 0 {
        assert(mapping(s).dom() =~= Set::<Q>::empty());
    } else {
        mapping_finite(s.drop_last());
        mapping_push(s.drop_last(), s.last());
        assert(s.drop_last().push(s.last()) =~= s);
        assert(mapping(s).dom() =~= mapping(s.drop_last()).dom().insert(s.last().0));
    }
}

/// An ascending listing with one entry put into its place.
proof fn insert_listing<K: SortKey, A>(t: Seq<(K::V, A)>, e: (K::V, A)) -> (u: Seq<(K::V, A)>)
    requires
        ascending::<K, A>(t),
    ensures
        ascending::<K, A>(u),
        mapping(u) == mapping(t).insert(e.0, e.1),
        forall|i: int|
            0 <= i < u.len() ==> (#[trigger] u[i]).0 == e.0 || exists|j: int|
                0 <= j < t.len() && (#[trigger] t[j]).0 == u[i].0,
    decreases t.len(),
{
    if t.len() == 0 {
        mapping_push(t, e);
        assert(t.push(e)[0] == e);
        t.push(e)
    } else {
        let d = t.drop_last();
        let last = t.last();
        assert(t[t.len() - 1] == last);
        assert(ascending::<K, A>(d));
        assert(d.push(last) =~= t);
        mapping_push(d, last);
        K::total(last.0, e.0);
        if K::lt(last.0, e.0) {
            let u = t.push(e);
            mapping_push(t, e);
            assert forall|i: int, j: int| 0 <= i < j < u.len() implies K::lt(
                #[trigger] u[i].0,
                #[trigger] u[j].0,
            ) by {
                if j == t.len() {
                    if i < t.len() - 1 {
                        assert(K::lt(t[i].0, t[t.len() - 1].0));
                        K::transitive(t[i].0, last.0, e.0);
                    }
                } else {
                    assert(K::lt(t[i].0, t[j].0));
                }
            }
            assert forall|i: int| 0 <= i < u.len() implies (#[trigger] u[i]).0 == e.0 || exists|
                j: int,
            | 0 <= j < t.len() && (#[trigger] t[j]).0 == u[i].0 by {
                if i < t.len() {
                    assert(t[i].0 == u[i].0);
                }
            }
            u
        } else if last.0 == e.0 {
            let u = d.push(e);
            mapping_push(d, e);
            assert forall|i: int, j: int| 0 <= i < j < u.len() implies K::lt(
                #[trigger] u[i].0,
                #[trigger] u[j].0,
            ) by {
                assert(K::lt(t[i].0, t[j].0));
            }
            assert forall|i: int| 0 <= i < u.len() implies (#[trigger] u[i]).0 == e.0 || exists|
                j: int,
            | 0 <= j < t.len() && (#[trigger] t[j]).0 == u[i].0 by {
                if i < d.len() {
                    assert(t[i].0 == u[i].0);
                }
            }
            assert(mapping(u) =~= mapping(t).insert(e.0, e.1));
            u
        } else {
            let v = insert_listing::<K, A>(d, e);
            let u = v.push(last);
            mapping_push(v, last);
            K::irreflexive(last.0);
            assert forall|i: int| 0 <= i < v.len() implies K::lt(#[trigger] v[i].0, last.0) by {
                if v[i].0 != e.0 {
                    let j = choose|j: int| 0 <= j < d.len() && (#[trigger] d[j]).0 == v[i].0;
                    assert(K::lt(t[j].0, t[t.len() - 1].0));
                }
            }
            assert forall|i: int, j: int| 0 <= i < j < u.len() implies K::lt(
                #[trigger] u[i].0,
                #[trigger] u[j].0,
            ) by {
                if j < v.len() {
                    assert(K::lt(v[i].0, v[j].0));
                } else {
                    assert(K::lt(v[i].0, last.0));
                }
            }
            assert forall|i: int| 0 <= i < u.len() implies (#[trigger] u[i]).0 == e.0 || exists|
                j: int,
            | 0 <= j < t.len() && (#[trigger] t[j]).0 == u[i].0 by {
                if i < v.len() {
                    if v[i].0 != e.0 {
                        let j = choose|j: int| 0 <= j < d.len() && (#[trigger] d[j]).0 == v[i].0;
                        assert(t[j].0 == u[i].0);
                    }
                } else {
                    assert(t[t.len() - 1].0 == u[i].0);
                }
            }
            assert(mapping(u) =~= mapping(t).insert(e.0, e.1));
            u
        }
    }
}

proof fn some_listing<K: SortKey, A>(m: Map<K::V, A>) -> (s: Seq<(K::V, A)>)
    requires
        m.dom().finite(),
    ensures
        ascending::<K, A>(s),
        mapping(s) == m,
    decreases m.dom().len(),
{
    if m.dom().is_empty() {
        let s = Seq::<(K::V, A)>::empty();
        assert(mapping(s) =~= m);
        s
    } else {
        let k = m.dom().choose();
        let r = m.remove(k);
        assert(r.dom() =~= m.dom().remove(k));
        let t = some_listing::<K, A>(r);
        let s = insert_listing::<K, A>(t, (k, m[k]));
        assert(mapping(s) =~= m);
        s
    }
}

/// Every finite map has an ascending listing.
pub proof fn finite_is_listed<K: SortKey, A>(m: Map<K::V, A>)
    requires
        m.dom().finite(),
    ensures
        ascending::<K, A>(listing_of::<K, A>(m)),
        mapping(listing_of::<K, A>(m)) == m,
{
    let s = some_listing::<K, A>(m);
    assert(ascending::<K, A>(s) && mapping(s) == m);
}

/// A map whose entries are kept in ascending order of their keys.
pub struct OrdMap<K: SortKey, V: View> {
    entries: Vec<(K, V)>,
}

impl<K: SortKey, V: View> View for OrdMap<K, V> {
    type V = Map<K::V, V::V>;

    open spec fn view(&self) -> Map<K::V, V::V> {
        mapping(self.listing())
    }
}

impl<K: SortKey, V: View> OrdMap<K, V> {
    /// The entries in order.
    pub closed spec fn listing(&self) -> Seq<(K::V, V::V)> {
        text::views(self.entries@)
    }

    #[verifier::type_invariant]
    spec fn in_order(self) -> bool {
        ascending::<K, V::V>(self.listing())
    }

    /// The empty map.
    pub fn new() -> (r: Self)
        ensures
            r@ == Map::<K::V, V::V>::empty(),
            r.listing() == Seq::<(K::V, V::V)>::empty(),
    {
        let r = OrdMap { entries: Vec::new() };
        assert(r.listing() =~= Seq::<(K::V, V::V)>::empty());
        assert(r@ =~= Map::<K::V, V::V>::empty());
        r
    }

    /// How many entries there are. They stand in ascending order.
    pub fn len(&self) -> (r: usize)
        ensures
            r == self.listing().len(),
            ascending::<K, V::V>(self.listing()),
            self.listing() == listing_of::<K, V::V>(self@),
    {
        proof {
            use_type_invariant(self);
            let s = self.listing();
            assert(ascending::<K, V::V>(s) && mapping(s) == self@);
            one_listing::<K, V::V>(s, listing_of::<K, V::V>(self@));
        }
        self.entries.len()
    }

    /// Whether there is no entry.
    pub fn is_empty(&self) -> (r: bool)
        ensures
            r == (self.listing().len() == 0),
    {
        self.entries.len() == 0
    }

    /// The key of the entry at place `i`.
    pub fn key(&self, i: usize) -> (r: &K)
        requires
            i < self.listing().len(),
        ensures
            r@ == self.listing()[i as int].0,
    {
        &self.entries[i].0
    }

    /// The value of the entry at place `i`.
    pub fn value(&self, i: usize) -> (r: &V)
        requires
            i < self.listing().len(),
        ensures
            r@ == self.listing()[i as int].1,
    {
        &self.entries[i].1
    }

    /// The place of the first key not before `k`, and whether it is `k`.
    fn place(&self, k: &K) -> (r: (usize, bool))
        ensures
            r.0 <= self.listing().len(),
            forall|i: int| 0 <= i < r.0 ==> K::lt(#[trigger] self.listing()[i].0, k@),
            r.1 ==> r.0 < self.listing().len() && self.listing()[r.0 as int].0 == k@,
            !r.1 ==> forall|i: int|
                r.0 <= i < self.listing().len() ==> K::lt(k@, #[trigger] self.listing()[i].0),
    {
        proof {
            use_type_invariant(self);
        }
        let mut lo: usize = 0;
        let mut hi: usize = self.entries.len();
        while lo < hi
            invariant
                lo <= hi <= self.entries@.len(),
                self.listing().len() == self.entries@.len(),
                ascending::<K, V::V>(self.listing()),
                forall|i: int| 0 <= i < lo ==> K::lt(#[trigger] self.listing()[i].0, k@),
                forall|i: int|
                    hi <= i < self.listing().len() ==> K::lt(k@, #[trigger] self.listing()[i].0),
            decreases hi - lo,
        {
            let mid: usize = lo + (hi - lo) / 2;
            let ghost m = self.listing()[mid as int].0;
            assert(m == self.entries@[mid as int].0@);
            match k.side(&self.entries[mid].0) {
                Side::Before => {
                    proof {
                        assert forall|i: int| mid <= i < self.listing().len() implies K::lt(
                            k@,
                            #[trigger] self.listing()[i].0,
                        ) by {
                            if i > mid {
                                assert(K::lt(m, self.listing()[i].0));
                                K::transitive(k@, m, self.listing()[i].0);
                            }
                        }
                    }
                    hi = mid;
                },
                Side::Same => {
                    proof {
                        assert forall|i: int| 0 <= i < mid implies K::lt(
                            #[trigger] self.listing()[i].0,
                            k@,
                        ) by {
                            assert(K::lt(self.listing()[i].0, m));
                        }
                    }
                    return (mid, true);
                },
                Side::After => {
                    proof {
                        assert forall|i: int| 0 <= i < mid + 1 implies K::lt(
                            #[trigger] self.listing()[i].0,
                            k@,
                        ) by {
                            if i < mid {
                                assert(K::lt(self.listing()[i].0, m));
                                K::transitive(self.listing()[i].0, m, k@);
                            }
                        }
                    }
                    lo = mid + 1;
                },
            }
        }
        (lo, false)
    }

    /// A key that fits between two neighbours is not in the map.
    proof fn absent(s: Seq<(K::V, V::V)>, k: K::V, n: int)
        requires
            0 <= n <= s.len(),
            forall|i: int| 0 <= i < n ==> K::lt(#[trigger] s[i].0, k),
            forall|i: int| n <= i < s.len() ==> K::lt(k, #[trigger] s[i].0),
        ensures
            lookup(s, k) is None,
    {
        assert forall|i: int| 0 <= i < s.len() implies (#[trigger] s[i]).0 != k by {
            K::irreflexive(k);
            if i < n {
                assert(K::lt(s[i].0, k));
            } else {
                assert(K::lt(k, s[i].0));
            }
        }
        lookup_missing(s, k);
    }

    /// The value of `k`, if it has one.
    pub fn get(&self, k: &K) -> (r: Option<&V>)
        ensures
            match r {
                Some(v) => self@.contains_key(k@) && v@ == self@[k@],
                None => !self@.contains_key(k@),
            },
    {
        let (i, found) = self.place(k);
        proof {
            use_type_invariant(self);
            if found {
                lookup_entry::<K, V::V>(self.listing(), i as int);
            } else {
                Self::absent(self.listing(), k@, i as int);
            }
        }
        if found {
            Some(&self.entries[i].1)
        } else {
            None
        }
    }

    /// Whether `k` has a value.
    pub fn has(&self, k: &K) -> (r: bool)
        ensures
            r == self@.contains_key(k@),
    {
        self.get(k).is_some()
    }

    /// Give `k` the value `v`.
    pub fn insert(&mut self, k: K, v: V)
        ensures
            final(self)@ == old(self)@.insert(k@, v@),
    {
        let (i, found) = self.place(&k);
        let ghost s = self.listing();
        let ghost kv = (k@, v@);
        proof {
            use_type_invariant(&*self);
        }
        let mut entries: Vec<(K, V)> = Vec::new();
        std::mem::swap(&mut entries, &mut self.entries);
        if found {
            entries.set(i, (k, v));
            assert(text::views(entries@) =~= s.update(i as int, kv));
        } else {
            entries.insert(i, (k, v));
            assert(text::views(entries@) =~= s.insert(i as int, kv));
        }
        let ghost t = text::views(entries@);
        proof {
            assert(ascending::<K, V::V>(t)) by {
                assert forall|a: int, b: int| 0 <= a < b < t.len() implies K::lt(
                    #[trigger] t[a].0,
                    #[trigger] t[b].0,
                ) by {
                    if found {
                        assert(t[a].0 == s[a].0 && t[b].0 == s[b].0);
                    } else {
                        let x = if a < i {
                            a
                        } else {
                            a - 1
                        };
                        let y = if b < i {
                            b
                        } else {
                            b - 1
                        };
                        if a != i && b != i {
                            assert(t[a] == s[x] && t[b] == s[y]);
                        } else if a == i {
                            assert(t[b] == s[y]);
                        } else {
                            assert(t[a] == s[x]);
                        }
                    }
                }
            }
        }
        self.entries = entries;
        proof {
            assert(self.listing() == t);
            assert forall|q: K::V| #[trigger]
                lookup(t, q) == (if q == kv.0 {
                    Some(kv.1)
                } else {
                    lookup(s, q)
                }) by {
                Self::inserted(s, t, i as int, found, kv, q);
            }
            assert(self@ =~= old(self)@.insert(k@, v@));
        }
    }

    proof fn inserted(
        s: Seq<(K::V, V::V)>,
        t: Seq<(K::V, V::V)>,
        i: int,
        found: bool,
        kv: (K::V, V::V),
        q: K::V,
    )
        requires
            ascending::<K, V::V>(s),
            ascending::<K, V::V>(t),
            0 <= i <= s.len(),
            found ==> i < s.len() && s[i].0 == kv.0 && t == s.update(i, kv),
            !found ==> t == s.insert(i, kv),
        ensures
            lookup(t, q) == (if q == kv.0 {
                Some(kv.1)
            } else {
                lookup(s, q)
            }),
    {
        if q == kv.0 {
            assert(t[i] == kv);
            lookup_entry::<K, V::V>(t, i);
        } else if lookup(s, q) is Some {
            let n = lookup_found(s, q);
            lookup_entry::<K, V::V>(s, n);
            let m = if found || n < i {
                n
            } else {
                n + 1
            };
            assert(t[m] == s[n]);
            lookup_entry::<K, V::V>(t, m);
        } else {
            if lookup(t, q) is Some {
                let m = lookup_found(t, q);
                let n = if found || m < i {
                    m
                } else {
                    m - 1
                };
                assert(m != i);
                assert(t[m] == s[n]);
                lookup_entry::<K, V::V>(s, n);
            }
        }
    }

    /// Take the entry of `k` away.
    pub fn remove(&mut self, k: &K)
        ensures
            final(self)@ == old(self)@.remove(k@),
    {
        let (i, found) = self.place(k);
        let ghost s = self.listing();
        proof {
            use_type_invariant(&*self);
        }
        if !found {
            proof {
                Self::absent(s, k@, i as int);
                assert(self@ =~= self@.remove(k@));
            }
            return;
        }
        let mut entries: Vec<(K, V)> = Vec::new();
        std::mem::swap(&mut entries, &mut self.entries);
        let _gone = entries.remove(i);
        let ghost t = text::views(entries@);
        proof {
            assert(t =~= s.remove(i as int));
            assert(ascending::<K, V::V>(t)) by {
                assert forall|a: int, b: int| 0 <= a < b < t.len() implies K::lt(
                    #[trigger] t[a].0,
                    #[trigger] t[b].0,
                ) by {
                    let x = if a < i {
                        a
                    } else {
                        a + 1
                    };
                    let y = if b < i {
                        b
                    } else {
                        b + 1
                    };
                    assert(t[a] == s[x] && t[b] == s[y]);
                }
            }
        }
        self.entries = entries;
        proof {
            assert forall|q: K::V| #[trigger]
                lookup(t, q) == (if q == k@ {
                    None
                } else {
                    lookup(s, q)
                }) by {
                Self::removed(s, t, i as int, q);
            }
            assert(self@ =~= old(self)@.remove(k@));
        }
    }

    proof fn removed(s: Seq<(K::V, V::V)>, t: Seq<(K::V, V::V)>, i: int, q: K::V)
        requires
            ascending::<K, V::V>(s),
            ascending::<K, V::V>(t),
            0 <= i < s.len(),
            t == s.remove(i),
        ensures
            lookup(t, q) == (if q == s[i].0 {
                None
            } else {
                lookup(s, q)
            }),
    {
        if lookup(t, q) is Some {
            let m = lookup_found(t, q);
            let n = if m < i {
                m
            } else {
                m + 1
            };
            assert(t[m] == s[n]);
            lookup_entry::<K, V::V>(s, n);
            lookup_entry::<K, V::V>(s, i);
            if n < i {
                assert(K::lt(s[n].0, s[i].0));
            } else {
                assert(K::lt(s[i].0, s[n].0));
            }
            K::irreflexive(s[i].0);
        } else if lookup(s, q) is Some && q != s[i].0 {
            let n = lookup_found(s, q);
            let m = if n < i {
                n
            } else {
                n - 1
            };
            assert(t[m] == s[n]);
            lookup_entry::<K, V::V>(t, m);
        }
    }
}

impl<K: SortKey, V: View> Default for OrdMap<K, V> {
    fn default() -> (r: Self)
        ensures
            r@ == Map::<K::V, V::V>::empty(),
    {
        OrdMap::new()
    }
}

/// A set whose items are kept in ascending order.
pub struct OrdSet<K: SortKey> {
    map: OrdMap<K, ()>,
}

impl<K: SortKey> View for OrdSet<K> {
    type V = Set<K::V>;

    closed spec fn view(&self) -> Set<K::V> {
        self.map@.dom()
    }
}

/// Whether the items strictly ascend.
pub open spec fn rising<K: SortKey>(s: Seq<K::V>) -> bool {
    forall|i: int, j: int| 0 <= i < j < s.len() ==> K::lt(#[trigger] s[i], #[trigger] s[j])
}

/// The items of a set in ascending order.
pub open spec fn items_of<K: SortKey>(set: Set<K::V>) -> Seq<K::V> {
    choose|s: Seq<K::V>|
        rising::<K>(s) && forall|k: K::V| set.contains(k) <==> #[trigger] s.contains(k)
}

/// A set has one ascending listing.
proof fn one_rising<K: SortKey>(s: Seq<K::V>, t: Seq<K::V>)
    requires
        rising::<K>(s),
        rising::<K>(t),
        forall|k: K::V| #[trigger] s.contains(k) <==> t.contains(k),
    ensures
        s == t,
    decreases s.len(),
{
    if s.len() == 0 {
        if t.len() > 0 {
            assert(t.contains(t[0]));
            assert(s.contains(t[0]));
        }
        assert(s =~= t);
    } else {
        assert(s[s.len() - 1] == s.last());
        assert(s.contains(s.last()));
        let j = choose|j: int| 0 <= j < t.len() && t[j] == s.last();
        assert(t[t.len() - 1] == t.last());
        assert(t.contains(t.last()));
        assert(s.contains(t.last()));
        let i = choose|i: int| 0 <= i < s.len() && s[i] == t.last();
        if s.last() != t.last() {
            assert(K::lt(t[j], t[t.len() - 1]));
            assert(K::lt(s[i], s[s.len() - 1]));
            K::transitive(s.last(), t.last(), s.last());
            K::irreflexive(s.last());
        }
        let s1 = s.drop_last();
        let t1 = t.drop_last();
        assert forall|x: K::V| #[trigger] s1.contains(x) <==> t1.contains(x) by {
            if s1.contains(x) {
                let n = choose|n: int| 0 <= n < s1.len() && s1[n] == x;
                assert(s[n] == x);
                assert(K::lt(s[n], s[s.len() - 1]));
                K::irreflexive(x);
                assert(s.contains(x));
                let m = choose|m: int| 0 <= m < t.len() && t[m] == x;
                assert(t1[m] == x);
            }
            if t1.contains(x) {
                let n = choose|n: int| 0 <= n < t1.len() && t1[n] == x;
                assert(t[n] == x);
                assert(K::lt(t[n], t[t.len() - 1]));
                K::irreflexive(x);
                assert(t.contains(x));
                assert(s.contains(x));
                let m = choose|m: int| 0 <= m < s.len() && s[m] == x;
                assert(s1[m] == x);
            }
        }
        one_rising::<K>(s1, t1);
        assert(s =~= s1.push(s.last()));
        assert(t =~= t1.push(t.last()));
    }
}

impl<K: SortKey> OrdSet<K> {
    /// The items in order.
    pub closed spec fn listing(&self) -> Seq<K::V> {
        Seq::new(self.map.listing().len(), |i: int| self.map.listing()[i].0)
    }

    /// The empty set.
    pub fn new() -> (r: Self)
        ensures
            r@ == Set::<K::V>::empty(),
    {
        let r = OrdSet { map: OrdMap::new() };
        assert(r@ =~= Set::<K::V>::empty());
        r
    }

    /// How many items there are. They stand in ascending order.
    pub fn len(&self) -> (r: usize)
        ensures
            r == self.listing().len(),
            rising::<K>(self.listing()),
            self.listing() == items_of::<K>(self@),
            forall|k: K::V| self@.contains(k) <==> #[trigger] self.listing().contains(k),
    {
        let r = self.map.len();
        proof {
            let s = self.map.listing();
            assert forall|k: K::V| self@.contains(k) <==> self.listing().contains(k) by {
                if self@.contains(k) {
                    let i = lookup_found(s, k);
                    assert(self.listing()[i] == k);
                }
                if self.listing().contains(k) {
                    let i = choose|i: int|
                        0 <= i < self.listing().len() && self.listing()[i] == k;
                    lookup_entry::<K, ()>(s, i);
                }
            }
            let l = self.listing();
            assert(rising::<K>(l)) by {
                assert forall|i: int, j: int| 0 <= i < j < l.len() implies K::lt(
                    #[trigger] l[i],
                    #[trigger] l[j],
                ) by {
                    assert(K::lt(s[i].0, s[j].0));
                }
            }
            one_rising::<K>(l, items_of::<K>(self@));
        }
        r
    }

    /// The item at place `i`.
    pub fn item(&self, i: usize) -> (r: &K)
        requires
            i < self.listing().len(),
        ensures
            r@ == self.listing()[i as int],
    {
        self.map.key(i)
    }

    /// Whether `k` is in the set.
    pub fn has(&self, k: &K) -> (r: bool)
        ensures
            r == self@.contains(k@),
    {
        self.map.has(k)
    }

    /// Whether the two sets have the same items.
    pub fn same(&self, other: &Self) -> (r: bool)
        ensures
            r == (self@ == other@),
    {
        self.within(other) && other.within(self) && {
            assert(self@ =~= other@);
            true
        }
    }

    /// Whether every item is in `other`.
    fn within(&self, other: &Self) -> (r: bool)
        ensures
            r == self@.subset_of(other@),
    {
        let n: usize = self.len();
        let ghost l = self.listing();
        let mut i: usize = 0;
        while i < n
            invariant
                i <= n,
                n == l.len(),
                l == self.listing(),
                forall|k: K::V| self@.contains(k) <==> l.contains(k),
                forall|j: int| 0 <= j < i ==> other@.contains(#[trigger] l[j]),
            decreases n - i,
        {
            if !other.has(self.item(i)) {
                assert(l.contains(l[i as int]));
                assert(self@.contains(l[i as int]));
                return false;
            }
            i += 1;
        }
        assert forall|k: K::V| self@.contains(k) implies other@.contains(k) by {
            assert(l.contains(k));
            let j = choose|j: int| 0 <= j < l.len() && l[j] == k;
            assert(other@.contains(l[j]));
        }
        true
    }

    /// Put `k` into the set.
    pub fn insert(&mut self, k: K)
        ensures
            final(self)@ == old(self)@.insert(k@),
    {
        self.map.insert(k, ());
        assert(self@ =~= old(self)@.insert(k@));
    }
}

impl<K: SortKey + Copy> Clone for OrdSet<K> {
    fn clone(&self) -> (r: Self)
        ensures
            r@ == self@,
    {
        let n: usize = self.len();
        let ghost l = self.listing();
        let mut r: OrdSet<K> = OrdSet::new();
        let mut i: usize = 0;
        while i < n
            invariant
                i <= n,
                n == l.len(),
                l == self.listing(),
                forall|k: K::V| r@.contains(k) <==> l.take(i as int).contains(k),
            decreases n - i,
        {
            let ghost before = r@;
            r.insert(*self.item(i));
            proof {
                let next = l.take(i + 1);
                let head = l.take(i as int);
                assert(next =~= head.push(l[i as int]));
                assert forall|k: K::V| r@.contains(k) <==> next.contains(k) by {
                    if head.contains(k) {
                        let j = choose|j: int| 0 <= j < head.len() && head[j] == k;
                        assert(next[j] == k);
                    }
                    assert(next[i as int] == l[i as int]);
                    if next.contains(k) && k != l[i as int] {
                        let j = choose|j: int| 0 <= j < next.len() && next[j] == k;
                        assert(head[j] == k);
                    }
                }
            }
            i += 1;
        }
        assert(l.take(i as int) =~= l);
        assert(r@ =~= self@);
        r
    }
}

/// Whether the text `a` comes before `b`: character by character, by code
/// point; a text comes before its continuations.
pub open spec fn text_lt(a: Seq<char>, b: Seq<char>) -> bool
    decreases b.len(),
{
    if b.len() == 0 {
        false
    } else if a.len() == 0 {
        true
    } else if a[0] == b[0] {
        text_lt(a.skip(1), b.skip(1))
    } else {
        (a[0] as int) < (b[0] as int)
    }
}

proof fn text_lt_irreflexive(a: Seq<char>)
    ensures
        !text_lt(a, a),
    decreases a.len(),
{
    if a.len() > 0 {
        text_lt_irreflexive(a.skip(1));
    }
}

proof fn text_lt_transitive(a: Seq<char>, b: Seq<char>, c: Seq<char>)
    requires
        text_lt(a, b),
        text_lt(b, c),
    ensures
        text_lt(a, c),
    decreases a.len(),
{
    if a.len() > 0 && a[0] == b[0] && b[0] == c[0] {
        text_lt_transitive(a.skip(1), b.skip(1), c.skip(1));
    }
}

proof fn text_lt_total(a: Seq<char>, b: Seq<char>)
    ensures
        text_lt(a, b) || a == b || text_lt(b, a),
    decreases a.len(),
{
    if a.len() > 0 && b.len() > 0 && a[0] == b[0] {
        text_lt_total(a.skip(1), b.skip(1));
        if a.skip(1) == b.skip(1) {
            assert(a =~= seq![a[0]] + a.skip(1));
            assert(b =~= seq![b[0]] + b.skip(1));
        }
    } else if a.len() == 0 && b.len() == 0 {
        assert(a =~= b);
    }
}

/// The code point of a character.
fn code(c: char) -> (r: u32)
    ensures
        r as int == c as int,
{
    c as u32
}

/// Where the text `a` lies to `b`.
fn text_side(a: &str, b: &str) -> (r: Side)
    ensures
        match r {
            Side::Before => text_lt(a@, b@),
            Side::Same => a@ == b@,
            Side::After => text_lt(b@, a@),
        },
{
    let x = text::chars_of(a);
    let y = text::chars_of(b);
    let mut i: usize = 0;
    assert(a@.skip(0) =~= a@ && b@.skip(0) =~= b@);
    while i < x.len() && i < y.len()
        invariant
            x@ == a@,
            y@ == b@,
            i <= x@.len(),
            i <= y@.len(),
            forall|j: int| 0 <= j < i ==> a@[j] == b@[j],
            text_lt(a@, b@) == text_lt(a@.skip(i as int), b@.skip(i as int)),
            text_lt(b@, a@) == text_lt(b@.skip(i as int), a@.skip(i as int)),
        decreases x@.len() - i,
    {
        assert(a@.skip(i as int)[0] == x@[i as int] && b@.skip(i as int)[0] == y@[i as int]);
        let p: u32 = code(x[i]);
        let q: u32 = code(y[i]);
        if p < q {
            return Side::Before;
        }
        if p > q {
            return Side::After;
        }
        proof {
            assert(a@.skip(i as int).skip(1) =~= a@.skip(i + 1));
            assert(b@.skip(i as int).skip(1) =~= b@.skip(i + 1));
        }
        i += 1;
    }
    if i < y.len() {
        Side::Before
    } else if i < x.len() {
        Side::After
    } else {
        assert(a@ =~= b@);
        Side::Same
    }
}

impl SortKey for String {
    open spec fn lt(a: Seq<char>, b: Seq<char>) -> bool {
        text_lt(a, b)
    }

    proof fn irreflexive(a: Seq<char>) {
        text_lt_irreflexive(a);
    }

    proof fn transitive(a: Seq<char>, b: Seq<char>, c: Seq<char>) {
        text_lt_transitive(a, b, c);
    }

    proof fn total(a: Seq<char>, b: Seq<char>) {
        text_lt_total(a, b);
    }

    fn side(&self, other: &Self) -> (r: Side) {
        text_side(self.as_str(), other.as_str())
    }
}

impl SortKey for (String, String) {
    open spec fn lt(a: (Seq<char>, Seq<char>), b: (Seq<char>, Seq<char>)) -> bool {
        text_lt(a.0, b.0) || (a.0 == b.0 && text_lt(a.1, b.1))
    }

    proof fn irreflexive(a: (Seq<char>, Seq<char>)) {
        text_lt_irreflexive(a.0);
        text_lt_irreflexive(a.1);
    }

    proof fn transitive(
        a: (Seq<char>, Seq<char>),
        b: (Seq<char>, Seq<char>),
        c: (Seq<char>, Seq<char>),
    ) {
        if text_lt(a.0, b.0) && text_lt(b.0, c.0) {
            text_lt_transitive(a.0, b.0, c.0);
        }
        if text_lt(a.1, b.1) && text_lt(b.1, c.1) {
            text_lt_transitive(a.1, b.1, c.1);
        }
    }

    proof fn total(a: (Seq<char>, Seq<char>), b: (Seq<char>, Seq<char>)) {
        text_lt_total(a.0, b.0);
        text_lt_total(a.1, b.1);
    }

    fn side(&self, other: &Self) -> (r: Side) {
        match text_side(self.0.as_str(), other.0.as_str()) {
            Side::Same => text_side(self.1.as_str(), other.1.as_str()),
            r => r,
        }
    }
}

impl SortKey for u32 {
    open spec fn lt(a: u32, b: u32) -> bool {
        a < b
    }

    proof fn irreflexive(a: u32) {
    }

    proof fn transitive(a: u32, b: u32, c: u32) {
    }

    proof fn total(a: u32, b: u32) {
    }

    fn side(&self, other: &Self) -> (r: Side) {
        if *self < *other {
            Side::Before
        } else if *self == *other {
            Side::Same
        } else {
            Side::After
        }
    }
}

impl SortKey for (u32, u16) {
    open spec fn lt(a: (u32, u16), b: (u32, u16)) -> bool {
        a.0 < b.0 || (a.0 == b.0 && a.1 < b.1)
    }

    proof fn irreflexive(a: (u32, u16)) {
    }

    proof fn transitive(a: (u32, u16), b: (u32, u16), c: (u32, u16)) {
    }

    proof fn total(a: (u32, u16), b: (u32, u16)) {
    }

    fn side(&self, other: &Self) -> (r: Side) {
        if self.0 < other.0 || (self.0 == other.0 && self.1 < other.1) {
            Side::Before
        } else if self.0 == other.0 && self.1 == other.1 {
            Side::Same
        } else {
            Side::After
        }
    }
}

impl SortKey for (u32, u16, u8) {
    open spec fn lt(a: (u32, u16, u8), b: (u32, u16, u8)) -> bool {
        a.0 < b.0 || (a.0 == b.0 && (a.1 < b.1 || (a.1 == b.1 && a.2 < b.2)))
    }

    proof fn irreflexive(a: (u32, u16, u8)) {
    }

    proof fn transitive(a: (u32, u16, u8), b: (u32, u16, u8), c: (u32, u16, u8)) {
    }

    proof fn total(a: (u32, u16, u8), b: (u32, u16, u8)) {
    }

    fn side(&self, other: &Self) -> (r: Side) {
        if self.0 < other.0 || (self.0 == other.0 && (self.1 < other.1 || (self.1 == other.1
            && self.2 < other.2))) {
            Side::Before
        } else if self.0 == other.0 && self.1 == other.1 && self.2 == other.2 {
            Side::Same
        } else {
            Side::After
        }
    }
}

} // verus!
