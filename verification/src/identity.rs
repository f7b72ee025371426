//! Identity allocation: numeric identities for label sets.
//!
//! An allocated identity is recorded under its number together with the label
//! set it stands for, in the `k8s:` form. Allocation finds the existing record
//! or creates the next number from [`FIRST_ID`]. A label set without a record
//! falls back to the hash identity. Records that no endpoint references are
//! collected after a grace.

use vstd::prelude::*;
use crate::digits;
use crate::netpol;
use crate::objects::{CidListing, CidListingView, Labels, Pod, PodView};
use crate::ordmap;
use crate::ordmap::OrdMap;
use crate::text;

verus! {

/// First allocatable identity; those below are reserved.
pub const FIRST_ID: u32 = 256;

// ---------------------------------------------------------------- id lists

/// Whether the identities strictly ascend.
pub open spec fn ids_ascend(s: Seq<u32>) -> bool {
    forall|i: int, j: int| 0 <= i < j < s.len() ==> s[i] < s[j]
}

/// The members of a set of identities, in ascending order.
pub open spec fn sorted_ids(ids: Set<u32>) -> Seq<u32> {
    choose|s: Seq<u32>|
        ids_ascend(s) && forall|x: u32| #[trigger] s.contains(x) <==> ids.contains(x)
}

proof fn one_order(s: Seq<u32>, t: Seq<u32>)
    requires
        ids_ascend(s),
        ids_ascend(t),
        forall|x: u32| #[trigger] s.contains(x) <==> t.contains(x),
    ensures
        s == t,
    decreases s.len(),
{
    if s.len() == 0 {
        if t.len() > 0 {
            assert(t.contains(t[0]));
            assert(s.contains(t[0]));
        }
        assert(s =~= t);
    } else {
        assert(s[s.len() - 1] == s.last());
        assert(s.contains(s.last()));
        assert(t.contains(s.last()));
        let j = choose|j: int| 0 <= j < t.len() && t[j] == s.last();
        assert(t[t.len() - 1] == t.last());
        assert(t.contains(t.last()));
        assert(s.contains(t.last()));
        let i = choose|i: int| 0 <= i < s.len() && s[i] == t.last();
        assert(s.last() == t.last());
        let s1 = s.drop_last();
        let t1 = t.drop_last();
        assert forall|x: u32| #[trigger] s1.contains(x) <==> t1.contains(x) by {
            if s1.contains(x) {
                let n = choose|n: int| 0 <= n < s1.len() && s1[n] == x;
                assert(s[n] == x);
                assert(s.contains(x));
                assert(t.contains(x));
                let m = choose|m: int| 0 <= m < t.len() && t[m] == x;
                assert(t1[m] == x);
            }
            if t1.contains(x) {
                let n = choose|n: int| 0 <= n < t1.len() && t1[n] == x;
                assert(t[n] == x);
                assert(t.contains(x));
                assert(s.contains(x));
                let m = choose|m: int| 0 <= m < s.len() && s[m] == x;
                assert(s1[m] == x);
            }
        }
        one_order(s1, t1);
        assert(s =~= s1.push(s.last()));
        assert(t =~= t1.push(t.last()));
    }
}

/// An ascending list with the members of `ids` is the sorted list of `ids`.
pub proof fn is_sorted_ids(s: Seq<u32>, ids: Set<u32>)
    requires
        ids_ascend(s),
        forall|x: u32| #[trigger] s.contains(x) <==> ids.contains(x),
    ensures
        s == sorted_ids(ids),
{
    one_order(s, sorted_ids(ids));
}

/// The members of `ids` below `n`, in ascending order.
spec fn ids_below(ids: Set<u32>, n: int) -> Seq<u32>
    decreases n,
{
    if n <= 0 {
        Seq::empty()
    } else if ids.contains((n - 1) as u32) {
        ids_below(ids, n - 1).push((n - 1) as u32)
    } else {
        ids_below(ids, n - 1)
    }
}

proof fn ids_below_members(ids: Set<u32>, n: int)
    requires
        0 <= n <= 0x1_0000_0000,
    ensures
        ids_ascend(ids_below(ids, n)),
        forall|x: u32| #[trigger] ids_below(ids, n).contains(x) <==> ids.contains(x) && x < n,
    decreases n,
{
    if n > 0 {
        ids_below_members(ids, n - 1);
        let head = ids_below(ids, n - 1);
        let all = ids_below(ids, n);
        let last = (n - 1) as u32;
        assert forall|i: int| 0 <= i < head.len() implies head[i] < n - 1 by {
            assert(head.contains(head[i]));
        }
        assert forall|x: u32| #[trigger] all.contains(x) <==> ids.contains(x) && x < n by {
            if head.contains(x) {
                let i = choose|i: int| 0 <= i < head.len() && head[i] == x;
                assert(all[i] == x);
            }
            if all.contains(x) && !head.contains(x) {
                let i = choose|i: int| 0 <= i < all.len() && all[i] == x;
                if i < head.len() {
                    assert(head[i] == x);
                }
            }
            if x == last && ids.contains(x) {
                assert(all[head.len() as int] == x);
            }
        }
    }
}

/// The sorted list of a set of identities exists: it ascends, and holds the
/// members of the set and no others.
pub proof fn sorted_ids_members(ids: Set<u32>)
    ensures
        ids_ascend(sorted_ids(ids)),
        forall|x: u32| #[trigger] sorted_ids(ids).contains(x) <==> ids.contains(x),
{
    let s = ids_below(ids, 0x1_0000_0000);
    ids_below_members(ids, 0x1_0000_0000);
    assert(ids_ascend(s) && forall|x: u32| #[trigger] s.contains(x) <==> ids.contains(x));
}

/// Put an identity into an ascending list.
pub(crate) fn add_id(v: &mut Vec<u32>, x: u32)
    requires
        ids_ascend(old(v)@),
    ensures
        ids_ascend(final(v)@),
        forall|y: u32| #[trigger]
            final(v)@.contains(y) <==> old(v)@.contains(y) || y == x,
{
    let ghost s = v@;
    let mut i: usize = 0;
    while i < v.len() && v[i] < x
        invariant
            v@ == s,
            ids_ascend(s),
            i <= s.len(),
            forall|j: int| 0 <= j < i ==> s[j] < x,
        decreases s.len() - i,
    {
        i += 1;
    }
    if i < v.len() && v[i] == x {
        assert(s[i as int] == x);
        return;
    }
    v.insert(i, x);
    proof {
        let t = v@;
        assert(t == s.insert(i as int, x));
        assert forall|y: u32| #[trigger] t.contains(y) <==> s.contains(y) || y == x by {
            if t.contains(y) {
                let n = choose|n: int| 0 <= n < t.len() && t[n] == y;
                if n < i {
                    assert(s[n] == y);
                } else if n > i {
                    assert(s[n - 1] == y);
                }
            }
            if s.contains(y) {
                let n = choose|n: int| 0 <= n < s.len() && s[n] == y;
                if n < i {
                    assert(t[n] == y);
                } else {
                    assert(t[n + 1] == y);
                }
            }
            assert(t[i as int] == x);
        }
        assert forall|a: int, b: int| 0 <= a < b < t.len() implies t[a] < t[b] by {
            if a != i && b != i {
                assert(t[a] == s[if a < i { a } else { a - 1 }]);
                assert(t[b] == s[if b < i { b } else { b - 1 }]);
            } else if a == i {
                assert(t[b] == s[b - 1]);
                assert(s[i as int] <= s[b - 1]);
            }
        }
    }
}

// -------------------------------------------------------------- label keys

/// One label in the `k8s:` form.
pub open spec fn label_text(e: (Seq<char>, Seq<char>)) -> Seq<char> {
    "k8s:"@ + e.0 + "="@ + e.1
}

/// A label set in the `k8s:` form: the namespace, then the labels by key.
pub open spec fn label_texts(ns: Seq<char>, labels: Map<Seq<char>, Seq<char>>) -> Seq<Seq<char>> {
    let l = ordmap::listing_of::<String, Seq<char>>(labels);
    seq!["k8s:io.kubernetes.pod.namespace="@ + ns] + Seq::new(l.len(), |i: int| label_text(l[i]))
}

/// The canonical text of a label set.
pub open spec fn key_text(ns: Seq<char>, labels: Map<Seq<char>, Seq<char>>) -> Seq<char> {
    text::joined(label_texts(ns, labels), ";"@)
}

/// A label set in the `k8s:` form: the namespace, then the labels by key.
pub fn label_list(namespace: &str, labels: &Labels) -> (r: Vec<String>)
    ensures
        text::views(r@) == label_texts(namespace@, labels@),
{
    let mut r: Vec<String> = Vec::new();
    let mut head = "k8s:io.kubernetes.pod.namespace=".to_owned();
    head.append(namespace);
    r.push(head);
    let n: usize = labels.len();
    let ghost l = labels.listing();
    let ghost all = label_texts(namespace@, labels@);
    assert(text::views(r@) =~= all.take(1));
    let mut i: usize = 0;
    while i < n
        invariant
            i <= n,
            n == l.len(),
            l == labels.listing(),
            all == seq!["k8s:io.kubernetes.pod.namespace="@ + namespace@] + Seq::new(
                l.len(),
                |i: int| label_text(l[i]),
            ),
            text::views(r@) == all.take(i + 1),
        decreases n - i,
    {
        let mut t = "k8s:".to_owned();
        t.append(labels.key(i).as_str());
        t.append("=");
        t.append(labels.value(i).as_str());
        let ghost before = text::views(r@);
        r.push(t);
        proof {
            assert(t@ == all[i + 1]);
            assert(text::views(r@) =~= before.push(t@));
            assert(all.take(i + 2) =~= all.take(i + 1).push(all[i + 1]));
        }
        i += 1;
    }
    assert(all.take(n + 1) =~= all);
    r
}

/// The canonical string for a label set — the allocation key.
pub fn labels_key(namespace: &str, labels: &Labels) -> (r: String)
    ensures
        r@ == key_text(namespace@, labels@),
{
    let parts = label_list(namespace, labels);
    text::join(&parts, ";")
}

/// The allocation table: canonical label-set string → allocated identity.
/// Empty when the allocator is off — resolution falls back to the hash.
pub struct Alloc(pub OrdMap<String, u32>);

impl View for Alloc {
    type V = Map<Seq<char>, u32>;

    open spec fn view(&self) -> Map<Seq<char>, u32> {
        self.0@
    }
}

/// The identity of a label set: the allocated one, else its hash.
pub open spec fn resolved(
    alloc: Map<Seq<char>, u32>,
    ns: Seq<char>,
    labels: Map<Seq<char>, Seq<char>>,
) -> u32 {
    let key = key_text(ns, labels);
    if alloc.contains_key(key) {
        alloc[key]
    } else {
        netpol::hash_identity(ns, labels)
    }
}

impl Alloc {
    /// The table of a node without an allocator.
    pub fn new() -> (r: Self)
        ensures
            r@ == Map::<Seq<char>, u32>::empty(),
    {
        Alloc(OrdMap::new())
    }

    /// Resolve a pod's identity: allocated if present, the hash otherwise.
    pub fn resolve(&self, namespace: &str, labels: &Labels) -> (r: u32)
        ensures
            r == resolved(self@, namespace@, labels@),
    {
        let key = labels_key(namespace, labels);
        match self.0.get(&key) {
            Some(id) => *id,
            None => netpol::identity(namespace, labels),
        }
    }

    /// Every allocated identity, ascending, each once.
    pub fn all_ids(&self) -> (r: Vec<u32>)
        ensures
            r@ == sorted_ids(self@.values()),
            ids_ascend(r@),
            forall|x: u32| #[trigger] r@.contains(x) <==> self@.values().contains(x),
    {
        let n: usize = self.0.len();
        let ghost l = self.0.listing();
        let mut v: Vec<u32> = Vec::new();
        let mut i: usize = 0;
        while i < n
            invariant
                i <= n,
                n == l.len(),
                l == self.0.listing(),
                ids_ascend(v@),
                forall|x: u32| #[trigger]
                    v@.contains(x) <==> exists|j: int| 0 <= j < i && (#[trigger] l[j]).1 == x,
            decreases n - i,
        {
            let ghost before = v@;
            let x: u32 = *self.0.value(i);
            add_id(&mut v, x);
            proof {
                assert forall|y: u32| #[trigger] v@.contains(y) <==> exists|j: int|
                    0 <= j < i + 1 && (#[trigger] l[j]).1 == y by {
                    assert(l[i as int].1 == x);
                    if before.contains(y) {
                        let j = choose|j: int| 0 <= j < i && (#[trigger] l[j]).1 == y;
                        assert(l[j].1 == y);
                    }
                }
            }
            i += 1;
        }
        proof {
            let ids = self@.values();
            assert forall|x: u32| #[trigger] v@.contains(x) <==> ids.contains(x) by {
                if v@.contains(x) {
                    let j = choose|j: int| 0 <= j < n && (#[trigger] l[j]).1 == x;
                    ordmap::lookup_entry::<String, u32>(l, j);
                    assert(self@.contains_key(l[j].0) && self@[l[j].0] == x);
                }
                if ids.contains(x) {
                    let k = choose|k: Seq<char>| #[trigger]
                        self@.contains_key(k) && self@[k] == x;
                    let j = ordmap::lookup_found(l, k);
                    assert(l[j].1 == x);
                }
            }
            is_sorted_ids(v@, ids);
        }
        v
    }
}

impl Default for Alloc {
    fn default() -> (r: Self)
        ensures
            r@ == Map::<Seq<char>, u32>::empty(),
    {
        Alloc::new()
    }
}

impl Clone for Alloc {
    fn clone(&self) -> (r: Self)
        ensures
            r@ == self@,
    {
        let n: usize = self.0.len();
        let ghost l = self.0.listing();
        let mut out: OrdMap<String, u32> = OrdMap::new();
        assert(ordmap::mapping(l.take(0)) =~= Map::empty());
        let mut i: usize = 0;
        while i < n
            invariant
                i <= n,
                n == l.len(),
                l == self.0.listing(),
                out@ == ordmap::mapping(l.take(i as int)),
            decreases n - i,
        {
            let k = self.0.key(i).clone();
            let v: u32 = *self.0.value(i);
            out.insert(k, v);
            proof {
                assert(l.take(i + 1) =~= l.take(i as int).push(l[i as int]));
                ordmap::mapping_push(l.take(i as int), l[i as int]);
            }
            i += 1;
        }
        assert(l.take(n as int) =~= l);
        Alloc(out)
    }
}

// ------------------------------------------------------------- allocation

/// A label as it stands in a record's key.
pub open spec fn pair_text(e: (Seq<char>, Seq<char>)) -> Seq<char> {
    e.0 + "="@ + e.1
}

/// The key of a record: its labels by key.
pub open spec fn record_key(labels: Map<Seq<char>, Seq<char>>) -> Seq<char> {
    let l = ordmap::listing_of::<String, Seq<char>>(labels);
    text::joined(Seq::new(l.len(), |i: int| pair_text(l[i])), ";"@)
}

/// The key of a record: its labels by key.
pub fn cid_key(labels: &Labels) -> (r: String)
    ensures
        r@ == record_key(labels@),
{
    let n: usize = labels.len();
    let ghost l = labels.listing();
    let ghost all = Seq::new(l.len(), |i: int| pair_text(l[i]));
    let mut parts: Vec<String> = Vec::new();
    let mut i: usize = 0;
    assert(text::views(parts@) =~= all.take(0));
    while i < n
        invariant
            i <= n,
            n == l.len(),
            l == labels.listing(),
            all == Seq::new(l.len(), |i: int| pair_text(l[i])),
            text::views(parts@) == all.take(i as int),
        decreases n - i,
    {
        let mut t = labels.key(i).clone();
        t.append("=");
        t.append(labels.value(i).as_str());
        let ghost before = text::views(parts@);
        parts.push(t);
        proof {
            assert(t@ == all[i as int]);
            assert(text::views(parts@) =~= before.push(t@));
            assert(all.take(i + 1) =~= all.take(i as int).push(all[i as int]));
        }
        i += 1;
    }
    assert(all.take(n as int) =~= all);
    text::join(&parts, ";")
}

/// The key under which a record holds the label `k`. The key of the namespace
/// is taken: a label of that name stands under a key of its own.
pub open spec fn record_name(k: Seq<char>) -> Seq<char> {
    if k == "io.kubernetes.pod.namespace"@ {
        "pod:io.kubernetes.pod.namespace"@
    } else {
        "k8s:"@ + k
    }
}

/// The label that a record holds under `q`, if any.
pub open spec fn label_of(q: Seq<char>) -> Option<Seq<char>> {
    if q == "pod:io.kubernetes.pod.namespace"@ {
        Some("io.kubernetes.pod.namespace"@)
    } else if "k8s:"@.is_prefix_of(q) && q != "k8s:io.kubernetes.pod.namespace"@ {
        Some(q.skip(4))
    } else {
        None
    }
}

/// A label stands under its own key alone, which is not that of the namespace.
proof fn one_name(k: Seq<char>, q: Seq<char>)
    ensures
        label_of(q) == Some(k) <==> q == record_name(k),
        record_name(k) != "k8s:io.kubernetes.pod.namespace"@,
{
    reveal_strlit("k8s:");
    reveal_strlit("io.kubernetes.pod.namespace");
    reveal_strlit("k8s:io.kubernetes.pod.namespace");
    reveal_strlit("pod:io.kubernetes.pod.namespace");
    let name = "k8s:"@ + k;
    assert(name.skip(4) =~= k);
    assert("k8s:io.kubernetes.pod.namespace"@ =~= "k8s:"@ + "io.kubernetes.pod.namespace"@);
    assert("k8s:io.kubernetes.pod.namespace"@.skip(4) =~= "io.kubernetes.pod.namespace"@);
    assert("pod:io.kubernetes.pod.namespace"@[0] == 'p');
    assert("k8s:io.kubernetes.pod.namespace"@[0] == 'k');
    assert(name[0] == 'k');
    if "k8s:"@.is_prefix_of(q) {
        assert(q =~= "k8s:"@ + q.skip(4));
    }
}

/// The label set as a record holds it: the namespace, and every label under
/// its own key.
pub open spec fn security(ns: Seq<char>, labels: Map<Seq<char>, Seq<char>>) -> Map<
    Seq<char>,
    Seq<char>,
> {
    Map::new(
        |q: Seq<char>|
            q == "k8s:io.kubernetes.pod.namespace"@ || label_of(q) is Some && labels.contains_key(
                label_of(q)->0,
            ),
        |q: Seq<char>|
            if q == "k8s:io.kubernetes.pod.namespace"@ {
                ns
            } else {
                labels[label_of(q)->0]
            },
    )
}

/// The record's `security-labels` map for a pod label set (`k8s:` form). A
/// label never stands in for the namespace.
pub fn security_labels(namespace: &str, labels: &Labels) -> (r: Labels)
    ensures
        r@ == security(namespace@, labels@),
{
    let mut out: Labels = OrdMap::new();
    out.insert("k8s:io.kubernetes.pod.namespace".to_owned(), namespace.to_owned());
    let n: usize = labels.len();
    let ghost l = labels.listing();
    proof {
        assert(ordmap::mapping(l.take(0)) =~= Map::empty());
        assert(out@ =~= security(namespace@, ordmap::mapping(l.take(0))));
    }
    let mut i: usize = 0;
    while i < n
        invariant
            i <= n,
            n == l.len(),
            l == labels.listing(),
            out@ == security(namespace@, ordmap::mapping(l.take(i as int))),
        decreases n - i,
    {
        let k = if text::same(labels.key(i).as_str(), "io.kubernetes.pod.namespace") {
            "pod:io.kubernetes.pod.namespace".to_owned()
        } else {
            let mut t = "k8s:".to_owned();
            t.append(labels.key(i).as_str());
            t
        };
        let v = labels.value(i).clone();
        out.insert(k, v);
        proof {
            let m = ordmap::mapping(l.take(i as int));
            let e = l[i as int];
            assert(l.take(i + 1) =~= l.take(i as int).push(e));
            ordmap::mapping_push(l.take(i as int), e);
            assert(k@ == record_name(e.0));
            assert forall|q: Seq<char>| #[trigger] label_of(q) == Some(e.0) <==> q == k@ by {
                one_name(e.0, q);
            }
            one_name(e.0, k@);
            assert(security(namespace@, m.insert(e.0, e.1)) =~= security(namespace@, m).insert(
                k@,
                e.1,
            ));
        }
        i += 1;
    }
    assert(l.take(n as int) =~= l);
    out
}

/// The key under which a pod's label set is recorded.
pub open spec fn set_key(ns: Seq<char>, labels: Map<Seq<char>, Seq<char>>) -> Seq<char> {
    record_key(security(ns, labels))
}

/// Whether a label set can be written in keys: no text in it holds the `;`
/// that parts labels, and no label's name the `=` that ends it.
pub open spec fn plain_set(ns: Seq<char>, labels: Map<Seq<char>, Seq<char>>) -> bool {
    &&& labels.dom().finite()
    &&& !ns.contains(';')
    &&& forall|k: Seq<char>| #[trigger]
        labels.contains_key(k) ==> !k.contains(';') && !k.contains('=') && !labels[k].contains(';')
}

proof fn sum_contains(a: Seq<char>, b: Seq<char>, c: char)
    ensures
        (a + b).contains(c) <==> a.contains(c) || b.contains(c),
{
    let s = a + b;
    if s.contains(c) {
        let i = choose|i: int| 0 <= i < s.len() && s[i] == c;
        if i < a.len() {
            assert(a[i] == c);
        } else {
            assert(b[i - a.len()] == c);
        }
    }
    if a.contains(c) {
        let i = choose|i: int| 0 <= i < a.len() && a[i] == c;
        assert(s[i] == c);
    }
    if b.contains(c) {
        let i = choose|i: int| 0 <= i < b.len() && b[i] == c;
        assert(s[a.len() + i] == c);
    }
}

/// The entries of a listing with texts fit for a key.
proof fn plain_entry(m: Map<Seq<char>, Seq<char>>, i: int)
    requires
        plain_set(Seq::empty(), m),
        0 <= i < ordmap::listing_of::<String, Seq<char>>(m).len(),
    ensures
        ({
            let e = ordmap::listing_of::<String, Seq<char>>(m)[i];
            !e.0.contains(';') && !e.0.contains('=') && !e.1.contains(';')
        }),
{
    let l = ordmap::listing_of::<String, Seq<char>>(m);
    ordmap::finite_is_listed::<String, Seq<char>>(m);
    ordmap::lookup_entry::<String, Seq<char>>(l, i);
    assert(ordmap::mapping(l).contains_key(l[i].0));
    assert(ordmap::mapping(l)[l[i].0] == l[i].1);
}

proof fn one_pair(a: (Seq<char>, Seq<char>), b: (Seq<char>, Seq<char>))
    requires
        pair_text(a) == pair_text(b),
        !a.0.contains('='),
        !b.0.contains('='),
    ensures
        a == b,
{
    reveal_strlit("=");
    assert(pair_text(a) =~= a.0.push('=') + a.1);
    assert(pair_text(b) =~= b.0.push('=') + b.1);
    text::one_cut(a.0, a.1, b.0, b.1, '=');
}

proof fn plain_pair(e: (Seq<char>, Seq<char>))
    requires
        !e.0.contains(';'),
        !e.1.contains(';'),
    ensures
        !pair_text(e).contains(';'),
{
    reveal_strlit("=");
    sum_contains(e.0, "="@, ';');
    sum_contains(e.0 + "="@, e.1, ';');
}

proof fn pairs_are_no_empty_text(s: Seq<Seq<char>>, l: Seq<(Seq<char>, Seq<char>)>)
    requires
        s == Seq::new(l.len(), |i: int| pair_text(l[i])),
    ensures
        text::joined(s, ";"@).len() == 0 <==> s.len() == 0,
{
    reveal_strlit("=");
    reveal_strlit(";");
    if s.len() > 0 {
        assert(s.last() == pair_text(l.last()));
    }
}

/// A record's key stands for one label set.
pub proof fn record_keys_differ(a: Map<Seq<char>, Seq<char>>, b: Map<Seq<char>, Seq<char>>)
    requires
        plain_set(Seq::empty(), a),
        plain_set(Seq::empty(), b),
        record_key(a) == record_key(b),
    ensures
        a == b,
{
    reveal_strlit(";");
    let l = ordmap::listing_of::<String, Seq<char>>(a);
    let r = ordmap::listing_of::<String, Seq<char>>(b);
    let s = Seq::new(l.len(), |i: int| pair_text(l[i]));
    let t = Seq::new(r.len(), |i: int| pair_text(r[i]));
    ordmap::finite_is_listed::<String, Seq<char>>(a);
    ordmap::finite_is_listed::<String, Seq<char>>(b);
    assert(";"@ =~= seq![';']);
    assert forall|i: int| 0 <= i < s.len() implies !(#[trigger] s[i]).contains(';') by {
        plain_entry(a, i);
        plain_pair(l[i]);
    }
    assert forall|i: int| 0 <= i < t.len() implies !(#[trigger] t[i]).contains(';') by {
        plain_entry(b, i);
        plain_pair(r[i]);
    }
    if l.len() == 0 || r.len() == 0 {
        pairs_are_no_empty_text(s, l);
        pairs_are_no_empty_text(t, r);
    } else {
        text::join_then_split(s, ';');
        text::join_then_split(t, ';');
    }
    assert(s == t);
    assert forall|i: int| 0 <= i < l.len() implies l[i] == r[i] by {
        assert(s[i] == t[i]);
        plain_entry(a, i);
        plain_entry(b, i);
        one_pair(l[i], r[i]);
    }
    assert(l =~= r);
}

proof fn security_plain(ns: Seq<char>, labels: Map<Seq<char>, Seq<char>>)
    requires
        plain_set(ns, labels),
    ensures
        plain_set(Seq::empty(), security(ns, labels)),
        security(ns, labels).dom().len() > 0,
{
    let m = security(ns, labels);
    let head = "k8s:io.kubernetes.pod.namespace"@;
    let names = labels.dom().map(|k: Seq<char>| record_name(k)).insert(head);
    labels.dom().lemma_map_finite(|k: Seq<char>| record_name(k));
    assert forall|q: Seq<char>| #[trigger] m.dom().contains(q) implies names.contains(q) by {
        if q != head {
            let k = label_of(q)->0;
            one_name(k, q);
            assert(labels.dom().contains(k));
        }
    }
    vstd::set_lib::lemma_len_subset(m.dom(), names);
    assert(m.dom().contains(head));
    assert forall|q: Seq<char>| #[trigger] m.contains_key(q) implies !q.contains(';')
        && !q.contains('=') && !m[q].contains(';') by {
        reveal_strlit("k8s:");
        reveal_strlit("k8s:io.kubernetes.pod.namespace");
        reveal_strlit("pod:io.kubernetes.pod.namespace");
        if q != head {
            let k = label_of(q)->0;
            one_name(k, q);
            assert(labels.contains_key(k));
            sum_contains("k8s:"@, k, ';');
            sum_contains("k8s:"@, k, '=');
        }
    }
}

/// Two label sets never share the key under which they are recorded.
pub proof fn recorded_sets_differ(
    ns1: Seq<char>,
    l1: Map<Seq<char>, Seq<char>>,
    ns2: Seq<char>,
    l2: Map<Seq<char>, Seq<char>>,
)
    requires
        plain_set(ns1, l1),
        plain_set(ns2, l2),
        set_key(ns1, l1) == set_key(ns2, l2),
    ensures
        ns1 == ns2,
        l1 == l2,
{
    security_plain(ns1, l1);
    security_plain(ns2, l2);
    let (a, b) = (security(ns1, l1), security(ns2, l2));
    record_keys_differ(a, b);
    let head = "k8s:io.kubernetes.pod.namespace"@;
    assert(a.contains_key(head) && b.contains_key(head));
    assert(a[head] == ns1 && b[head] == ns2);
    assert forall|k: Seq<char>|
        l1.contains_key(k) == l2.contains_key(k) && (l1.contains_key(k) ==> l1[k] == l2[k]) by {
        let q = record_name(k);
        one_name(k, q);
        assert(a.contains_key(q) == l1.contains_key(k));
        assert(b.contains_key(q) == l2.contains_key(k));
        if a.contains_key(q) {
            assert(a[q] == l1[k]);
            assert(b[q] == l2[k]);
        }
    }
    assert(l1 =~= l2);
}

/// Two label sets never share their canonical text.
pub proof fn label_keys_differ(
    ns1: Seq<char>,
    l1: Map<Seq<char>, Seq<char>>,
    ns2: Seq<char>,
    l2: Map<Seq<char>, Seq<char>>,
)
    requires
        plain_set(ns1, l1),
        plain_set(ns2, l2),
        key_text(ns1, l1) == key_text(ns2, l2),
    ensures
        ns1 == ns2,
        l1 == l2,
{
    let s = label_texts(ns1, l1);
    let t = label_texts(ns2, l2);
    plain_texts(ns1, l1);
    plain_texts(ns2, l2);
    reveal_strlit(";");
    assert(";"@ =~= seq![';']);
    text::join_then_split(s, ';');
    text::join_then_split(t, ';');
    assert(s == t);
    let head = "k8s:io.kubernetes.pod.namespace="@;
    assert((head + ns1).skip(head.len() as int) =~= ns1);
    assert((head + ns2).skip(head.len() as int) =~= ns2);
    assert(s[0] == head + ns1 && t[0] == head + ns2);
    let l = ordmap::listing_of::<String, Seq<char>>(l1);
    let r = ordmap::listing_of::<String, Seq<char>>(l2);
    ordmap::finite_is_listed::<String, Seq<char>>(l1);
    ordmap::finite_is_listed::<String, Seq<char>>(l2);
    assert forall|i: int| 0 <= i < l.len() implies l[i] == r[i] by {
        assert(s[i + 1] == label_text(l[i]));
        assert(t[i + 1] == label_text(r[i]));
        plain_entry(l1, i);
        plain_entry(l2, i);
        let k8s = "k8s:"@;
        assert(label_text(l[i]) =~= k8s + pair_text(l[i]));
        assert(label_text(r[i]) =~= k8s + pair_text(r[i]));
        assert((k8s + pair_text(l[i])).skip(k8s.len() as int) =~= pair_text(l[i]));
        assert((k8s + pair_text(r[i])).skip(k8s.len() as int) =~= pair_text(r[i]));
        one_pair(l[i], r[i]);
    }
    assert(l =~= r);
}

proof fn plain_texts(ns: Seq<char>, labels: Map<Seq<char>, Seq<char>>)
    requires
        plain_set(ns, labels),
    ensures
        forall|i: int|
            0 <= i < label_texts(ns, labels).len() ==> !(#[trigger] label_texts(
                ns,
                labels,
            )[i]).contains(';'),
{
    let s = label_texts(ns, labels);
    let l = ordmap::listing_of::<String, Seq<char>>(labels);
    reveal_strlit("k8s:");
    reveal_strlit("k8s:io.kubernetes.pod.namespace=");
    assert forall|i: int| 0 <= i < s.len() implies !(#[trigger] s[i]).contains(';') by {
        if i == 0 {
            assert(s[0] == "k8s:io.kubernetes.pod.namespace="@ + ns);
            sum_contains("k8s:io.kubernetes.pod.namespace="@, ns, ';');
        } else {
            let e = l[i - 1];
            assert(s[i] == label_text(e));
            plain_entry(labels, i - 1);
            plain_pair(e);
            sum_contains("k8s:"@, pair_text(e), ';');
            assert(label_text(e) =~= "k8s:"@ + pair_text(e));
        }
    }
}

/// The state of an allocation round: the recorded label sets, and the highest
/// identity in use.
pub struct Ledger {
    table: OrdMap<String, u32>,
    max_id: u32,
}

/// What a `Ledger` holds.
#[verifier::ext_equal]
pub struct LedgerView {
    pub table: Map<Seq<char>, u32>,
    pub max_id: u32,
}

impl View for Ledger {
    type V = LedgerView;

    closed spec fn view(&self) -> LedgerView {
        LedgerView { table: self.table@, max_id: self.max_id }
    }
}

impl LedgerView {
    /// No record is above the highest identity, which leaves the reserved
    /// range alone.
    pub open spec fn wf(self) -> bool {
        &&& self.max_id >= FIRST_ID - 1
        &&& forall|k: Seq<char>| #[trigger]
            self.table.contains_key(k) ==> self.table[k] <= self.max_id
    }

    /// With one record more.
    pub open spec fn with(self, key: Seq<char>, id: u32) -> LedgerView {
        LedgerView {
            table: self.table.insert(key, id),
            max_id: if id > self.max_id {
                id
            } else {
                self.max_id
            },
        }
    }
}

/// The ledger of the listed records; one whose name is no number is skipped.
pub open spec fn adopted(cids: Seq<CidListingView>) -> LedgerView
    decreases cids.len(),
{
    if cids.len() == 0 {
        LedgerView { table: Map::empty(), max_id: (FIRST_ID - 1) as u32 }
    } else {
        let l = adopted(cids.drop_last());
        match digits::spelled(cids.last().name, u32::MAX as int) {
            Some(id) => l.with(record_key(cids.last().labels), id as u32),
            None => l,
        }
    }
}

/// The identity table of `pods`: every pod whose label set is recorded, by its
/// canonical key; the last pod of a key decides.
pub open spec fn rekeyed(table: Map<Seq<char>, u32>, pods: Seq<PodView>) -> Map<Seq<char>, u32>
    decreases pods.len(),
{
    if pods.len() == 0 {
        Map::empty()
    } else {
        let m = rekeyed(table, pods.drop_last());
        let p = pods.last();
        let ns = text::or_empty(p.namespace);
        if table.contains_key(set_key(ns, p.labels)) {
            m.insert(key_text(ns, p.labels), table[set_key(ns, p.labels)])
        } else {
            m
        }
    }
}

impl Ledger {
    /// Adopt every existing record.
    pub fn adopt(cids: &[CidListing]) -> (r: Ledger)
        ensures
            r@ == adopted(text::views(cids@)),
            r@.wf(),
    {
        let mut table: OrdMap<String, u32> = OrdMap::new();
        let mut max_id: u32 = FIRST_ID - 1;
        let ghost all = text::views(cids@);
        let mut i: usize = 0;
        assert(all.take(0).len() == 0);
        while i < cids.len()
            invariant
                i <= cids@.len(),
                all == text::views(cids@),
                (LedgerView { table: table@, max_id }) == adopted(all.take(i as int)),
                adopted(all.take(i as int)).wf(),
            decreases cids@.len() - i,
        {
            proof {
                assert(all.take(i + 1).drop_last() =~= all.take(i as int));
                assert(all.take(i + 1).last() == cids@[i as int]@);
            }
            if let Some(id) = digits::parse_number(cids[i].name.as_str(), u32::MAX) {
                if id > max_id {
                    max_id = id;
                }
                let key = cid_key(&cids[i].labels);
                table.insert(key, id);
            }
            i += 1;
        }
        assert(all.take(i as int) =~= all);
        Ledger { table, max_id }
    }

    /// The highest identity in use.
    pub fn max_id(&self) -> (r: u32)
        ensures
            r == self@.max_id,
    {
        self.max_id
    }

    /// Whether a label set has a record.
    pub fn recorded(&self, namespace: &str, labels: &Labels) -> (r: bool)
        ensures
            r == self@.table.contains_key(set_key(namespace@, labels@)),
    {
        self.table.has(&cid_key(&security_labels(namespace, labels)))
    }

    /// The identity to create for a label set; none if it has a record.
    pub fn want(&self, namespace: &str, labels: &Labels) -> (r: Option<u32>)
        requires
            self@.max_id < u32::MAX || self@.table.contains_key(set_key(namespace@, labels@)),
        ensures
            r == (if self@.table.contains_key(set_key(namespace@, labels@)) {
                None
            } else {
                Some((self@.max_id + 1) as u32)
            }),
    {
        if self.recorded(namespace, labels) {
            None
        } else {
            Some(self.max_id + 1)
        }
    }

    /// Note what came of creating the wanted identity. A failed creation
    /// leaves its number for the next set.
    pub fn settle(&mut self, namespace: &str, labels: &Labels, created: bool)
        requires
            old(self)@.max_id < u32::MAX,
        ensures
            final(self)@ == (if created {
                old(self)@.with(
                    set_key(namespace@, labels@),
                    (old(self)@.max_id + 1) as u32,
                )
            } else {
                old(self)@
            }),
            old(self)@.wf() ==> final(self)@.wf(),
    {
        if created {
            let key = cid_key(&security_labels(namespace, labels));
            let id: u32 = self.max_id + 1;
            self.table.insert(key, id);
            self.max_id = id;
        }
    }

    /// The table by which the pods' identities are resolved.
    pub fn table_for(&self, pods: &[Pod]) -> (r: Alloc)
        ensures
            r@ == rekeyed(self@.table, text::views(pods@)),
    {
        let mut out: OrdMap<String, u32> = OrdMap::new();
        let ghost all = text::views(pods@);
        let mut i: usize = 0;
        assert(all.take(0).len() == 0);
        while i < pods.len()
            invariant
                i <= pods@.len(),
                all == text::views(pods@),
                out@ == rekeyed(self.table@, all.take(i as int)),
            decreases pods@.len() - i,
        {
            proof {
                assert(all.take(i + 1).drop_last() =~= all.take(i as int));
                assert(all.take(i + 1).last() == pods@[i as int]@);
            }
            let ns = text::text_of(&pods[i].namespace);
            let key = cid_key(&security_labels(ns.as_str(), &pods[i].labels));
            if let Some(id) = self.table.get(&key) {
                out.insert(labels_key(ns.as_str(), &pods[i].labels), *id);
            }
            i += 1;
        }
        assert(all.take(i as int) =~= all);
        Alloc(out)
    }
}

/// An identity about to be created is in no record yet, and is allocatable.
pub proof fn wanted_identity_is_new(l: LedgerView, ns: Seq<char>, labels: Map<Seq<char>, Seq<char>>)
    requires
        l.wf(),
        l.max_id < u32::MAX,
    ensures
        l.max_id + 1 >= FIRST_ID,
        !l.table.values().contains((l.max_id + 1) as u32),
{
}

/// A created identity is kept: the next round finds the record, and so wants
/// none for that label set.
pub proof fn created_identity_is_found(
    l: LedgerView,
    ns: Seq<char>,
    labels: Map<Seq<char>, Seq<char>>,
)
    requires
        l.max_id < u32::MAX,
    ensures
        ({
            let m = l.with(set_key(ns, labels), (l.max_id + 1) as u32);
            &&& m.table.contains_key(set_key(ns, labels))
            &&& m.table[set_key(ns, labels)] == l.max_id + 1
            &&& forall|k: Seq<char>|
                k != set_key(ns, labels) ==> (m.table.contains_key(k) <==> l.table.contains_key(k))
        }),
{
}

/// The key under which a pod's label set is recorded.
pub open spec fn pod_key(p: PodView) -> Seq<char> {
    set_key(text::or_empty(p.namespace), p.labels)
}

/// Whether a pod's label set can be written in keys.
pub open spec fn plain_pod(p: PodView) -> bool {
    plain_set(text::or_empty(p.namespace), p.labels)
}

/// The ledger after a round over `pods`: each set without a record is created,
/// the `i`-th pod's with the outcome `created[i]`.
pub open spec fn round(l: LedgerView, pods: Seq<PodView>, created: Seq<bool>) -> LedgerView
    decreases pods.len(),
{
    if pods.len() == 0 {
        l
    } else {
        let m = round(l, pods.drop_last(), created);
        let key = pod_key(pods.last());
        if m.table.contains_key(key) || !created[pods.len() - 1] {
            m
        } else {
            m.with(key, (m.max_id + 1) as u32)
        }
    }
}

/// How many records a round creates.
pub open spec fn creations(l: LedgerView, pods: Seq<PodView>, created: Seq<bool>) -> nat
    decreases pods.len(),
{
    if pods.len() == 0 {
        0
    } else {
        let n = creations(l, pods.drop_last(), created);
        let m = round(l, pods.drop_last(), created);
        if m.table.contains_key(pod_key(pods.last())) || !created[pods.len() - 1] {
            n
        } else {
            n + 1
        }
    }
}

/// Whether no two recorded sets share an identity.
pub open spec fn collision_free(l: LedgerView) -> bool {
    forall|a: Seq<char>, b: Seq<char>|
        #![trigger l.table.contains_key(a), l.table.contains_key(b)]
        l.table.contains_key(a) && l.table.contains_key(b) && l.table[a] == l.table[b] ==> a == b
}

/// What a round keeps: the ledger's order, every record, and that no two
/// records share an identity. The highest identity grows by one for each
/// record created.
pub proof fn round_keeps_records(l: LedgerView, pods: Seq<PodView>, created: Seq<bool>)
    requires
        l.wf(),
        l.max_id + pods.len() <= u32::MAX,
    ensures
        round(l, pods, created).wf(),
        collision_free(l) ==> collision_free(round(l, pods, created)),
        creations(l, pods, created) <= pods.len(),
        round(l, pods, created).max_id == l.max_id + creations(l, pods, created),
        forall|k: Seq<char>| #[trigger]
            l.table.contains_key(k) ==> round(l, pods, created).table.contains_key(k) && round(
                l,
                pods,
                created,
            ).table[k] == l.table[k],
    decreases pods.len(),
{
    if pods.len() > 0 {
        round_keeps_records(l, pods.drop_last(), created);
    }
}

/// The round goes on from what its first pods left.
proof fn round_goes_on(l: LedgerView, pods: Seq<PodView>, created: Seq<bool>, n: int)
    requires
        l.wf(),
        l.max_id + pods.len() <= u32::MAX,
        0 <= n <= pods.len(),
    ensures
        forall|k: Seq<char>| #[trigger]
            round(l, pods.take(n), created).table.contains_key(k) ==> round(
                l,
                pods,
                created,
            ).table.contains_key(k) && round(l, pods, created).table[k] == round(
                l,
                pods.take(n),
                created,
            ).table[k],
    decreases pods.len(),
{
    if n == pods.len() {
        assert(pods.take(n) =~= pods);
    } else {
        assert(pods.drop_last().take(n) =~= pods.take(n));
        round_goes_on(l, pods.drop_last(), created, n);
        round_keeps_records(l, pods.drop_last(), created);
    }
}

/// Identities are given out in the order of the pods, one after the other: a
/// pod whose set has no record yet asks for the number after the last one
/// given. If its creation succeeds, the set has that number from then on; if
/// it fails, nothing changes, and the number goes to the next set that asks.
pub proof fn round_numbers_in_order(
    l: LedgerView,
    pods: Seq<PodView>,
    created: Seq<bool>,
    i: int,
)
    requires
        l.wf(),
        l.max_id + pods.len() <= u32::MAX,
        0 <= i < pods.len(),
        !round(l, pods.take(i), created).table.contains_key(pod_key(pods[i])),
    ensures
        ({
            let before = round(l, pods.take(i), created);
            let after = round(l, pods.take(i + 1), created);
            let id = l.max_id + creations(l, pods.take(i), created) + 1;
            let end = round(l, pods, created);
            &&& before.max_id + 1 == id
            &&& created[i] ==> {
                &&& after == before.with(pod_key(pods[i]), id as u32)
                &&& creations(l, pods.take(i + 1), created) == creations(l, pods.take(i), created)
                    + 1
                &&& end.table.contains_key(pod_key(pods[i]))
                &&& end.table[pod_key(pods[i])] == id
            }
            &&& !created[i] ==> {
                &&& after == before
                &&& creations(l, pods.take(i + 1), created) == creations(l, pods.take(i), created)
            }
        }),
{
    round_keeps_records(l, pods.take(i), created);
    assert(pods.take(i + 1).drop_last() =~= pods.take(i));
    assert(pods.take(i + 1).last() == pods[i]);
    round_goes_on(l, pods, created, i + 1);
    let before = round(l, pods.take(i), created);
    let after = round(l, pods.take(i + 1), created);
    if created[i] {
        assert(after == before.with(pod_key(pods[i]), (before.max_id + 1) as u32));
        assert(after.table.contains_key(pod_key(pods[i])));
    }
}

/// A pod whose creation does not fail has a record at the end of the round.
pub proof fn round_records_pod(l: LedgerView, pods: Seq<PodView>, created: Seq<bool>, i: int)
    requires
        l.wf(),
        l.max_id + pods.len() <= u32::MAX,
        0 <= i < pods.len(),
        created[i],
    ensures
        round(l, pods, created).table.contains_key(pod_key(pods[i])),
{
    if round(l, pods.take(i), created).table.contains_key(pod_key(pods[i])) {
        round_goes_on(l, pods, created, i);
    } else {
        round_numbers_in_order(l, pods, created, i);
    }
}

/// Two recorded pods share an identity if and only if they have the same
/// namespace and the same labels, whatever creations failed in the round.
pub proof fn round_is_collision_free(
    l: LedgerView,
    pods: Seq<PodView>,
    created: Seq<bool>,
    i: int,
    j: int,
)
    requires
        l.wf(),
        collision_free(l),
        l.max_id + pods.len() <= u32::MAX,
        0 <= i < pods.len(),
        0 <= j < pods.len(),
        plain_pod(pods[i]),
        plain_pod(pods[j]),
        round(l, pods, created).table.contains_key(pod_key(pods[i])),
        round(l, pods, created).table.contains_key(pod_key(pods[j])),
    ensures
        round(l, pods, created).table[pod_key(pods[i])] == round(l, pods, created).table[pod_key(
            pods[j],
        )] <==> text::or_empty(pods[i].namespace) == text::or_empty(pods[j].namespace)
            && pods[i].labels == pods[j].labels,
{
    round_keeps_records(l, pods, created);
    if pod_key(pods[i]) == pod_key(pods[j]) {
        recorded_sets_differ(
            text::or_empty(pods[i].namespace),
            pods[i].labels,
            text::or_empty(pods[j].namespace),
            pods[j].labels,
        );
    }
}

/// A created record is adopted again: listed by its number with the label set
/// it was created for, it gives that set its identity.
pub proof fn created_record_is_adopted(
    cids: Seq<CidListingView>,
    id: u32,
    ns: Seq<char>,
    labels: Map<Seq<char>, Seq<char>>,
)
    ensures
        ({
            let l = adopted(
                cids.push(
                    CidListingView {
                        name: digits::dec(id as int),
                        labels: security(ns, labels),
                    },
                ),
            );
            &&& l.table.contains_key(set_key(ns, labels))
            &&& l.table[set_key(ns, labels)] == id
        }),
{
    let one = CidListingView { name: digits::dec(id as int), labels: security(ns, labels) };
    assert(cids.push(one).drop_last() =~= cids);
    digits::number_of_dec(id as int, u32::MAX as int);
}

/// A recorded pod resolves to its record's identity: allocation precedes the
/// hash.
pub proof fn recorded_pod_resolves(table: Map<Seq<char>, u32>, pods: Seq<PodView>, i: int)
    requires
        0 <= i < pods.len(),
        forall|j: int| 0 <= j < pods.len() ==> plain_pod(#[trigger] pods[j]),
        table.contains_key(pod_key(pods[i])),
    ensures
        resolved(
            rekeyed(table, pods),
            text::or_empty(pods[i].namespace),
            pods[i].labels,
        ) == table[pod_key(pods[i])],
    decreases pods.len(),
{
    let (p, q) = (pods[i], pods.last());
    assert(pods[pods.len() - 1] == q);
    if i < pods.len() - 1 {
        let head = pods.drop_last();
        assert(head[i] == p);
        assert forall|j: int| 0 <= j < head.len() implies plain_pod(#[trigger] head[j]) by {
            assert(head[j] == pods[j]);
        }
        recorded_pod_resolves(table, head, i);
        let (a, b) = (text::or_empty(p.namespace), text::or_empty(q.namespace));
        if key_text(a, p.labels) == key_text(b, q.labels) {
            label_keys_differ(a, p.labels, b, q.labels);
        }
        recorded_is_listed(table, head, p);
    }
}

/// The table of the pods holds a recorded pod's canonical key.
proof fn recorded_is_listed(table: Map<Seq<char>, u32>, pods: Seq<PodView>, p: PodView)
    requires
        pods.contains(p),
        table.contains_key(pod_key(p)),
    ensures
        rekeyed(table, pods).contains_key(key_text(text::or_empty(p.namespace), p.labels)),
    decreases pods.len(),
{
    if p != pods.last() {
        let i = choose|i: int| 0 <= i < pods.len() && pods[i] == p;
        assert(pods.drop_last()[i] == p);
        recorded_is_listed(table, pods.drop_last(), p);
    }
}

/// A pod without a record, such as one whose creation failed, resolves to its
/// hash identity, whatever other pods are recorded.
pub proof fn unrecorded_pod_falls_back(table: Map<Seq<char>, u32>, pods: Seq<PodView>, i: int)
    requires
        0 <= i < pods.len(),
        forall|j: int| 0 <= j < pods.len() ==> plain_pod(#[trigger] pods[j]),
        !table.contains_key(pod_key(pods[i])),
    ensures
        resolved(
            rekeyed(table, pods),
            text::or_empty(pods[i].namespace),
            pods[i].labels,
        ) == netpol::hash_identity(text::or_empty(pods[i].namespace), pods[i].labels),
{
    unrecorded_is_unlisted(table, pods, pods[i]);
}

proof fn unrecorded_is_unlisted(table: Map<Seq<char>, u32>, pods: Seq<PodView>, p: PodView)
    requires
        plain_pod(p),
        forall|j: int| 0 <= j < pods.len() ==> plain_pod(#[trigger] pods[j]),
        !table.contains_key(pod_key(p)),
    ensures
        !rekeyed(table, pods).contains_key(key_text(text::or_empty(p.namespace), p.labels)),
    decreases pods.len(),
{
    if pods.len() > 0 {
        let (head, q) = (pods.drop_last(), pods.last());
        assert(pods[pods.len() - 1] == q);
        assert forall|j: int| 0 <= j < head.len() implies plain_pod(#[trigger] head[j]) by {
            assert(head[j] == pods[j]);
        }
        unrecorded_is_unlisted(table, head, p);
        let (a, b) = (text::or_empty(p.namespace), text::or_empty(q.namespace));
        if key_text(a, p.labels) == key_text(b, q.labels) {
            label_keys_differ(a, p.labels, b, q.labels);
        }
    }
}

/// A label set without an allocation resolves to its hash identity.
pub proof fn unallocated_set_falls_back(
    alloc: Map<Seq<char>, u32>,
    ns: Seq<char>,
    labels: Map<Seq<char>, Seq<char>>,
)
    requires
        !alloc.contains_key(key_text(ns, labels)),
    ensures
        resolved(alloc, ns, labels) == netpol::hash_identity(ns, labels),
        resolved(alloc, ns, labels) >= 3,
{
}

// -------------------------------------------------------------- collection

/// Rounds that an identity may go unreferenced: a fresh one survives the lag
/// until its pod's endpoint is published.
pub const GC_GRACE: u32 = 3;

/// The identities that the listed records stand for.
pub open spec fn record_ids(cids: Seq<CidListingView>) -> Set<u32> {
    Set::new(
        |id: u32|
            exists|i: int|
                0 <= i < cids.len() && digits::spelled(
                    (#[trigger] cids[i]).name,
                    u32::MAX as int,
                ) == Some(id as int),
    )
}

/// The identities that the listed records stand for, ascending, each once. A
/// record whose name is no number is skipped.
pub fn cid_ids(cids: &[CidListing]) -> (r: Vec<u32>)
    ensures
        r@ == sorted_ids(record_ids(text::views(cids@))),
        ids_ascend(r@),
        forall|x: u32| #[trigger] r@.contains(x) <==> record_ids(text::views(cids@)).contains(x),
{
    let ghost all = text::views(cids@);
    let mut v: Vec<u32> = Vec::new();
    let mut i: usize = 0;
    while i < cids.len()
        invariant
            i <= cids@.len(),
            all == text::views(cids@),
            ids_ascend(v@),
            forall|x: u32| #[trigger]
                v@.contains(x) <==> exists|j: int|
                    0 <= j < i && digits::spelled((#[trigger] all[j]).name, u32::MAX as int)
                        == Some(x as int),
        decreases cids@.len() - i,
    {
        let ghost before = v@;
        assert(all[i as int] == cids@[i as int]@);
        if let Some(id) = digits::parse_number(cids[i].name.as_str(), u32::MAX) {
            add_id(&mut v, id);
        }
        proof {
            assert forall|x: u32| #[trigger] v@.contains(x) <==> exists|j: int|
                0 <= j < i + 1 && digits::spelled((#[trigger] all[j]).name, u32::MAX as int)
                    == Some(x as int) by {
                assert(v@.contains(x) <==> before.contains(x) || digits::spelled(
                    all[i as int].name,
                    u32::MAX as int,
                ) == Some(x as int));
                if before.contains(x) {
                    let j = choose|j: int|
                        0 <= j < i && digits::spelled((#[trigger] all[j]).name, u32::MAX as int)
                            == Some(x as int);
                    assert(all[j] == all[j]);
                }
            }
        }
        i += 1;
    }
    proof {
        is_sorted_ids(v@, record_ids(all));
    }
    v
}

/// The strikes against an identity that goes unreferenced for one round more.
pub open spec fn struck(strikes: Map<u32, u32>, id: u32) -> u32 {
    if !strikes.contains_key(id) {
        1
    } else if strikes[id] == u32::MAX {
        u32::MAX
    } else {
        (strikes[id] + 1) as u32
    }
}

/// Whether a record exists that nothing references.
pub open spec fn idle(cids: Set<u32>, in_use: Set<u32>, id: u32) -> bool {
    cids.contains(id) && !in_use.contains(id)
}

/// The strikes after a round: against each idle identity still within its
/// grace. One that is referenced again, or gone, starts afresh.
pub open spec fn gc_strikes(
    cids: Set<u32>,
    in_use: Set<u32>,
    strikes: Map<u32, u32>,
    grace: u32,
) -> Map<u32, u32> {
    Map::new(
        |id: u32| idle(cids, in_use, id) && struck(strikes, id) < grace,
        |id: u32| struck(strikes, id),
    )
}

/// The identities that a round deletes: those idle to the end of their grace.
pub open spec fn gc_deleted(
    cids: Set<u32>,
    in_use: Set<u32>,
    strikes: Map<u32, u32>,
    grace: u32,
) -> Set<u32> {
    Set::new(|id: u32| idle(cids, in_use, id) && struck(strikes, id) >= grace)
}

fn listed(ids: &[u32], id: u32) -> (r: bool)
    ensures
        r == ids@.contains(id),
{
    let mut i: usize = 0;
    while i < ids.len()
        invariant
            i <= ids@.len(),
            forall|j: int| 0 <= j < i ==> ids@[j] != id,
        decreases ids@.len() - i,
    {
        if ids[i] == id {
            assert(ids@[i as int] == id);
            return true;
        }
        i += 1;
    }
    false
}

/// Plan one round of collection over the recorded identities: mark those that
/// no endpoint references, and sweep those marked in `grace` rounds on end.
/// Returns the marks to carry on, and the identities to delete, ascending.
pub fn gc_plan(cids: &[u32], in_use: &[u32], strikes: &OrdMap<u32, u32>, grace: u32) -> (r: (
    OrdMap<u32, u32>,
    Vec<u32>,
))
    ensures
        r.0@ == gc_strikes(cids@.to_set(), in_use@.to_set(), strikes@, grace),
        r.1@ == sorted_ids(gc_deleted(cids@.to_set(), in_use@.to_set(), strikes@, grace)),
        ids_ascend(r.1@),
        forall|x: u32| #[trigger]
            r.1@.contains(x) <==> gc_deleted(
                cids@.to_set(),
                in_use@.to_set(),
                strikes@,
                grace,
            ).contains(x),
{
    let ghost used = in_use@.to_set();
    let ghost all = cids@;
    let mut kept: OrdMap<u32, u32> = OrdMap::new();
    let mut gone: Vec<u32> = Vec::new();
    let mut i: usize = 0;
    assert(all.take(0).to_set() =~= Set::empty());
    assert(kept@ =~= gc_strikes(all.take(0).to_set(), used, strikes@, grace));
    while i < cids.len()
        invariant
            i <= cids@.len(),
            all == cids@,
            used == in_use@.to_set(),
            kept@ == gc_strikes(all.take(i as int).to_set(), used, strikes@, grace),
            ids_ascend(gone@),
            forall|x: u32| #[trigger]
                gone@.contains(x) <==> gc_deleted(
                    all.take(i as int).to_set(),
                    used,
                    strikes@,
                    grace,
                ).contains(x),
        decreases cids@.len() - i,
    {
        let id: u32 = cids[i];
        let ghost head = all.take(i as int).to_set();
        let ghost next = all.take(i + 1).to_set();
        let ghost before = gone@;
        proof {
            assert(all.take(i + 1) =~= all.take(i as int).push(id));
            assert forall|x: u32| #[trigger] next.contains(x) <==> head.contains(x) || x == id by {
                let s = all.take(i as int);
                if s.push(id).contains(x) && x != id {
                    let j = choose|j: int| 0 <= j < s.push(id).len() && s.push(id)[j] == x;
                    assert(s[j] == x);
                }
                if s.contains(x) {
                    let j = choose|j: int| 0 <= j < s.len() && s[j] == x;
                    assert(s.push(id)[j] == x);
                }
                assert(s.push(id)[i as int] == id);
            }
        }
        if !listed(in_use, id) {
            let n: u32 = match strikes.get(&id) {
                Some(n) => if *n == u32::MAX {
                    u32::MAX
                } else {
                    *n + 1
                },
                None => 1,
            };
            assert(n == struck(strikes@, id));
            if n < grace {
                kept.insert(id, n);
            } else {
                add_id(&mut gone, id);
            }
        }
        proof {
            assert(kept@ =~= gc_strikes(next, used, strikes@, grace));
            assert forall|x: u32| #[trigger] gone@.contains(x) <==> gc_deleted(
                next,
                used,
                strikes@,
                grace,
            ).contains(x) by {
                assert(before.contains(x) <==> gc_deleted(head, used, strikes@, grace).contains(
                    x,
                ));
                assert(next.contains(x) <==> head.contains(x) || x == id);
            }
        }
        i += 1;
    }
    proof {
        assert(all.take(i as int) =~= all);
        is_sorted_ids(gone@, gc_deleted(all.to_set(), used, strikes@, grace));
    }
    (kept, gone)
}

/// One round of collection as it finds the cluster: the recorded identities,
/// and those that an endpoint references.
pub struct GcRound {
    pub cids: Set<u32>,
    pub in_use: Set<u32>,
}

/// The strikes after some rounds from none.
pub open spec fn strikes_after(rounds: Seq<GcRound>, grace: u32) -> Map<u32, u32>
    decreases rounds.len(),
{
    if rounds.len() == 0 {
        Map::empty()
    } else {
        let r = rounds.last();
        gc_strikes(r.cids, r.in_use, strikes_after(rounds.drop_last(), grace), grace)
    }
}

/// The identities that round `i` deletes.
pub open spec fn deleted_in(rounds: Seq<GcRound>, grace: u32, i: int) -> Set<u32> {
    gc_deleted(rounds[i].cids, rounds[i].in_use, strikes_after(rounds.take(i), grace), grace)
}

/// Whether an identity is idle in each of the last `n` rounds.
pub open spec fn idle_for(rounds: Seq<GcRound>, id: u32, n: int) -> bool {
    &&& n <= rounds.len()
    &&& forall|i: int|
        rounds.len() - n <= i < rounds.len() ==> idle(
            (#[trigger] rounds[i]).cids,
            rounds[i].in_use,
            id,
        )
}

/// A strike stands for a round gone unreferenced, the last ones on end.
proof fn strikes_are_rounds(rounds: Seq<GcRound>, grace: u32, id: u32)
    ensures
        strikes_after(rounds, grace).contains_key(id) ==> 1 <= strikes_after(rounds, grace)[id]
            < grace && idle_for(rounds, id, strikes_after(rounds, grace)[id] as int),
    decreases rounds.len(),
{
    if rounds.len() > 0 && strikes_after(rounds, grace).contains_key(id) {
        let head = rounds.drop_last();
        strikes_are_rounds(head, grace, id);
        longer_idle(rounds, strikes_after(head, grace), id);
    }
}

proof fn longer_idle(rounds: Seq<GcRound>, strikes: Map<u32, u32>, id: u32)
    requires
        rounds.len() > 0,
        idle(rounds.last().cids, rounds.last().in_use, id),
        strikes.contains_key(id) ==> strikes[id] < u32::MAX && idle_for(
            rounds.drop_last(),
            id,
            strikes[id] as int,
        ),
    ensures
        idle_for(rounds, id, struck(strikes, id) as int),
{
    let head = rounds.drop_last();
    let n = struck(strikes, id);
    assert forall|i: int| rounds.len() - n <= i < rounds.len() implies idle(
        (#[trigger] rounds[i]).cids,
        rounds[i].in_use,
        id,
    ) by {
        if i < rounds.len() - 1 {
            assert(head[i] == rounds[i]);
        }
    }
}

/// No identity is deleted before its grace is over: one that a round deletes
/// was idle in that round and in the rounds before it, `grace` of them.
pub proof fn deleted_only_after_grace(rounds: Seq<GcRound>, grace: u32, id: u32)
    requires
        rounds.len() > 0,
        deleted_in(rounds, grace, rounds.len() - 1).contains(id),
    ensures
        idle_for(rounds, id, grace as int),
        !rounds.last().in_use.contains(id),
{
    let head = rounds.drop_last();
    assert(rounds.take(rounds.len() - 1) =~= head);
    assert(rounds[rounds.len() - 1] == rounds.last());
    let strikes = strikes_after(head, grace);
    strikes_are_rounds(head, grace, id);
    longer_idle(rounds, strikes, id);
}

/// An identity that stays idle for its grace is deleted within it.
pub proof fn deleted_within_grace(rounds: Seq<GcRound>, grace: u32, id: u32)
    requires
        grace > 0,
        idle_for(rounds, id, grace as int),
    ensures
        exists|i: int|
            rounds.len() - grace <= i < rounds.len() && #[trigger] deleted_in(
                rounds,
                grace,
                i,
            ).contains(id),
{
    if forall|i: int|
        rounds.len() - grace <= i < rounds.len() ==> !(#[trigger] deleted_in(
            rounds,
            grace,
            i,
        ).contains(id)) {
        strikes_pile_up(rounds, grace, id, grace as int);
        strikes_are_rounds(rounds, grace, id);
    }
}

proof fn strikes_pile_up(rounds: Seq<GcRound>, grace: u32, id: u32, n: int)
    requires
        grace > 0,
        0 <= n,
        idle_for(rounds, id, n),
        forall|i: int|
            rounds.len() - n <= i < rounds.len() ==> !(#[trigger] deleted_in(
                rounds,
                grace,
                i,
            ).contains(id)),
    ensures
        n > 0 ==> strikes_after(rounds, grace).contains_key(id) && strikes_after(
            rounds,
            grace,
        )[id] >= n,
    decreases n,
{
    if n > 0 {
        let head = rounds.drop_last();
        let last = rounds.len() - 1;
        assert forall|i: int| head.len() - (n - 1) <= i < head.len() implies idle(
            (#[trigger] head[i]).cids,
            head[i].in_use,
            id,
        ) by {
            assert(head[i] == rounds[i]);
        }
        assert forall|i: int| head.len() - (n - 1) <= i < head.len() implies !(
        #[trigger] deleted_in(head, grace, i).contains(id)) by {
            assert(head.take(i) =~= rounds.take(i));
            assert(head[i] == rounds[i]);
            assert(!deleted_in(rounds, grace, i).contains(id));
        }
        strikes_pile_up(head, grace, id, n - 1);
        strikes_are_rounds(head, grace, id);
        assert(rounds.take(last) =~= head);
        assert(idle(rounds[last].cids, rounds[last].in_use, id));
        assert(!deleted_in(rounds, grace, last).contains(id));
    }
}

/// A referenced identity is never deleted, and keeps no strikes.
pub proof fn referenced_identity_stays(
    cids: Set<u32>,
    in_use: Set<u32>,
    strikes: Map<u32, u32>,
    grace: u32,
    id: u32,
)
    requires
        in_use.contains(id),
    ensures
        !gc_deleted(cids, in_use, strikes, grace).contains(id),
        !gc_strikes(cids, in_use, strikes, grace).contains_key(id),
{
}

} // verus!
