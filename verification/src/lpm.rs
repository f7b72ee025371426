//! Longest-prefix-match tables.

use vstd::prelude::*;

verus! {

/// The leading `n` bits of a byte, as a number.
pub open spec fn top_bits(b: u8, n: int) -> int {
    if n <= 0 {
        0
    } else if n == 1 {
        b as int / 128
    } else if n == 2 {
        b as int / 64
    } else if n == 3 {
        b as int / 32
    } else if n == 4 {
        b as int / 16
    } else if n == 5 {
        b as int / 8
    } else if n == 6 {
        b as int / 4
    } else if n == 7 {
        b as int / 2
    } else {
        b as int
    }
}

/// Whether the first `bits` bits of `prefix` and `key` agree.
pub open spec fn covers(prefix: Seq<u8>, bits: int, key: Seq<u8>) -> bool {
    &&& 0 <= bits <= 8 * prefix.len()
    &&& bits <= 8 * key.len()
    &&& prefix.take(bits / 8) == key.take(bits / 8)
    &&& bits % 8 != 0 ==> top_bits(prefix[bits / 8], bits % 8) == top_bits(
        key[bits / 8],
        bits % 8,
    )
}

/// One route: a prefix, its length in bits, and what it maps to.
pub struct LpmEntry<V> {
    pub prefix: Vec<u8>,
    pub bits: u32,
    pub val: V,
}

/// A longest-prefix-match table; its view lists the routes in the order they
/// were put.
pub struct Lpm<V> {
    entries: Vec<LpmEntry<V>>,
}

impl<V> View for Lpm<V> {
    type V = Seq<(Seq<u8>, int, V)>;

    closed spec fn view(&self) -> Seq<(Seq<u8>, int, V)> {
        self.entries@.map_values(|e: LpmEntry<V>| (e.prefix@, e.bits as int, e.val))
    }
}

/// The longest covering route and its length; among equals the one put last.
pub open spec fn best<V>(s: Seq<(Seq<u8>, int, V)>, key: Seq<u8>) -> Option<(int, V)>
    decreases s.len(),
{
    if s.len() == 0 {
        None
    } else {
        let b = best(s.drop_last(), key);
        let e = s.last();
        if covers(e.0, e.1, key) && (b is None || e.1 >= (b->0).0) {
            Some((e.1, e.2))
        } else {
            b
        }
    }
}

/// What the table maps `key` to.
pub open spec fn matched<V>(s: Seq<(Seq<u8>, int, V)>, key: Seq<u8>) -> Option<V> {
    match best(s, key) {
        Some(b) => Some(b.1),
        None => None,
    }
}

/// A lookup finds a route exactly when some route covers the key, and then
/// one that covers it with the greatest length.
pub proof fn longest_prefix_wins<V>(s: Seq<(Seq<u8>, int, V)>, key: Seq<u8>)
    ensures
        best(s, key) is None <==> forall|j: int| 0 <= j < s.len() ==> !covers(
            #[trigger] s[j].0,
            s[j].1,
            key,
        ),
        best(s, key) matches Some(b) ==> {
            &&& exists|i: int|
                0 <= i < s.len() && covers(#[trigger] s[i].0, s[i].1, key) && b == (s[i].1, s[i].2)
            &&& forall|j: int|
                0 <= j < s.len() && covers(#[trigger] s[j].0, s[j].1, key) ==> s[j].1 <= b.0
        },
    decreases s.len(),
{
    if s.len() > 0 {
        let t = s.drop_last();
        longest_prefix_wins(t, key);
        let e = s.last();
        assert(forall|j: int| 0 <= j < t.len() ==> t[j] == s[j]);
        assert(s[s.len() - 1] == e);
        if best(t, key) is None {
            assert forall|j: int| 0 <= j < t.len() implies !covers(#[trigger] s[j].0, s[j].1, key)
                by {
                assert(!covers(t[j].0, t[j].1, key));
            }
        } else {
            let b = best(t, key)->0;
            let i = choose|i: int|
                0 <= i < t.len() && covers(#[trigger] t[i].0, t[i].1, key) && b == (t[i].1, t[i].2);
            assert(covers(s[i].0, s[i].1, key) && b == (s[i].1, s[i].2));
            assert forall|j: int|
                0 <= j < t.len() && covers(#[trigger] s[j].0, s[j].1, key) implies s[j].1 <= b.0 by {
                assert(covers(t[j].0, t[j].1, key));
            }
        }
    }
}

/// After a route is put, a key it covers more specifically than every other
/// route is mapped to it.
pub proof fn put_most_specific<V>(s: Seq<(Seq<u8>, int, V)>, prefix: Seq<u8>, bits: int, val: V, key: Seq<u8>)
    requires
        covers(prefix, bits, key),
        forall|j: int| 0 <= j < s.len() && covers(#[trigger] s[j].0, s[j].1, key) ==> s[j].1 <= bits,
    ensures
        matched(s.push((prefix, bits, val)), key) == Some(val),
{
    longest_prefix_wins(s, key);
    assert(s.push((prefix, bits, val)).drop_last() =~= s);
}

fn top(b: u8, n: u32) -> (r: u8)
    requires
        1 <= n <= 7,
    ensures
        r == top_bits(b, n as int),
{
    match n {
        1 => b / 128,
        2 => b / 64,
        3 => b / 32,
        4 => b / 16,
        5 => b / 8,
        6 => b / 4,
        _ => b / 2,
    }
}

impl<V> LpmEntry<V> {
    fn covers_key(&self, key: &[u8]) -> (r: bool)
        ensures
            r == covers(self.prefix@, self.bits as int, key@),
    {
        let full: usize = (self.bits / 8) as usize;
        let rest: u32 = self.bits % 8;
        if full > self.prefix.len() || full > key.len() {
            return false;
        }
        if rest != 0 && (full == self.prefix.len() || full == key.len()) {
            return false;
        }
        let mut i: usize = 0;
        while i < full
            invariant
                i <= full <= self.prefix@.len(),
                full <= key@.len(),
                full == self.bits as int / 8,
                forall|j: int| 0 <= j < i ==> self.prefix@[j] == key@[j],
            decreases full - i,
        {
            if self.prefix[i] != key[i] {
                proof {
                    if self.prefix@.take(full as int) == key@.take(full as int) {
                        assert(self.prefix@.take(full as int)[i as int] == key@.take(
                            full as int,
                        )[i as int]);
                    }
                }
                return false;
            }
            i += 1;
        }
        assert(self.prefix@.take(full as int) =~= key@.take(full as int));
        rest == 0 || top(self.prefix[full], rest) == top(key[full], rest)
    }
}

impl<V> Lpm<V> {
    /// The empty table.
    pub fn new() -> (r: Self)
        ensures
            r@ == Seq::<(Seq<u8>, int, V)>::empty(),
    {
        let r = Lpm { entries: Vec::new() };
        assert(r@ =~= Seq::<(Seq<u8>, int, V)>::empty());
        r
    }

    /// Map the keys covered by the first `bits` bits of `prefix` to `val`.
    pub fn put(&mut self, prefix: Vec<u8>, bits: u32, val: V)
        ensures
            final(self)@ == old(self)@.push((prefix@, bits as int, val)),
    {
        self.entries.push(LpmEntry { prefix, bits, val });
        assert(self@ =~= old(self)@.push((prefix@, bits as int, val)));
    }
}

impl<V: Copy> Lpm<V> {
    /// The value of the longest route covering `key`.
    pub fn get(&self, key: &[u8]) -> (r: Option<V>)
        ensures
            r == matched(self@, key@),
    {
        let mut found: Option<(u32, V)> = None;
        let mut i: usize = 0;
        while i < self.entries.len()
            invariant
                i <= self.entries@.len(),
                self@.len() == self.entries@.len(),
                best(self@.take(i as int), key@) == (match found {
                    Some(f) => Some((f.0 as int, f.1)),
                    None => None,
                }),
            decreases self.entries@.len() - i,
        {
            let e = &self.entries[i];
            assert(self@.take(i + 1).drop_last() =~= self@.take(i as int));
            let longer: bool = match found {
                Some(f) => e.bits >= f.0,
                None => true,
            };
            if e.covers_key(key) && longer {
                found = Some((e.bits, e.val));
            }
            i += 1;
        }
        assert(self@.take(i as int) =~= self@);
        match found {
            Some(f) => Some(f.1),
            None => None,
        }
    }
}

} // verus!
