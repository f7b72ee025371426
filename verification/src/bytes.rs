//! Reading and writing packet bytes.
//!
//! Loads are bounds-checked and fail with `Err(())` when the packet is too
//! short, the way a packet-access helper does. `le` readers give the memory
//! order of a little-endian machine, `be` readers the network value.

use vstd::prelude::*;

verus! {

/// Length of an Ethernet header.
pub const ETH_HLEN: usize = 14;

// ------------------------------- model -------------------------------------

/// The network-order 16-bit value at `o`.
pub open spec fn be16(s: Seq<u8>, o: int) -> u16 {
    (s[o] * 256 + s[o + 1]) as u16
}

/// The memory-order 16-bit value at `o`.
pub open spec fn le16(s: Seq<u8>, o: int) -> u16 {
    (s[o + 1] * 256 + s[o]) as u16
}

/// The network-order 32-bit value at `o`.
pub open spec fn be32(s: Seq<u8>, o: int) -> u32 {
    (s[o] * 0x100_0000 + s[o + 1] * 0x1_0000 + s[o + 2] * 256 + s[o + 3]) as u32
}

/// The memory-order 32-bit value at `o`.
pub open spec fn le32(s: Seq<u8>, o: int) -> u32 {
    (s[o + 3] * 0x100_0000 + s[o + 2] * 0x1_0000 + s[o + 1] * 256 + s[o]) as u32
}

/// The 4 bytes at `o`.
pub open spec fn oct4(s: Seq<u8>, o: int) -> [u8; 4] {
    [s[o], s[o + 1], s[o + 2], s[o + 3]]
}

/// The 6 bytes at `o`.
pub open spec fn oct6(s: Seq<u8>, o: int) -> [u8; 6] {
    [s[o], s[o + 1], s[o + 2], s[o + 3], s[o + 4], s[o + 5]]
}

/// The 16 bytes at `o`.
pub open spec fn oct16(s: Seq<u8>, o: int) -> [u8; 16] {
    [s[o], s[o + 1], s[o + 2], s[o + 3], s[o + 4], s[o + 5], s[o + 6], s[o + 7], s[o + 8], s[o + 9], s[o + 10], s[o + 11], s[o + 12], s[o + 13], s[o + 14], s[o + 15]]
}

/// `v` on the wire.
pub open spec fn be16_bytes(v: u16) -> Seq<u8> {
    seq![(v / 256) as u8, (v % 256) as u8]
}

/// `v` on the wire.
pub open spec fn be32_bytes(v: u32) -> Seq<u8> {
    seq![
        (v / 0x100_0000) as u8,
        ((v / 0x1_0000) % 256) as u8,
        ((v / 256) % 256) as u8,
        (v % 256) as u8,
    ]
}

/// `v` as a little-endian machine lays it out.
pub open spec fn le16_bytes(v: u16) -> Seq<u8> {
    seq![(v % 256) as u8, (v / 256) as u8]
}

/// `v` as a little-endian machine lays it out.
pub open spec fn le32_bytes(v: u32) -> Seq<u8> {
    seq![
        (v % 256) as u8,
        ((v / 256) % 256) as u8,
        ((v / 0x1_0000) % 256) as u8,
        (v / 0x100_0000) as u8,
    ]
}

/// `s` with the bytes from `o` on replaced by `b`.
pub open spec fn splice(s: Seq<u8>, o: int, b: Seq<u8>) -> Seq<u8> {
    s.take(o) + b + s.skip(o + b.len())
}

/// `s` with `b` inserted at `o`.
pub open spec fn inserted(s: Seq<u8>, o: int, b: Seq<u8>) -> Seq<u8> {
    s.take(o) + b + s.skip(o)
}

/// An Ethernet header.
pub open spec fn eth_hdr(dst: [u8; 6], src: [u8; 6], ethertype: u16) -> Seq<u8> {
    dst@ + src@ + be16_bytes(ethertype)
}

/// `x` reduced to 16 bits.
pub open spec fn wrap16(x: int) -> u16 {
    (x % 0x1_0000) as u16
}

// ------------------------------- loads -------------------------------------

/// The byte at `o`.
pub fn ld8(d: &Vec<u8>, o: usize) -> (r: Result<u8, ()>)
    ensures
        r == (if o < d@.len() { Ok(d@[o as int]) } else { Err(()) }),
{
    if o < d.len() {
        Ok(d[o])
    } else {
        Err(())
    }
}

/// Whether `n` bytes can be read at `o`.
pub fn fits(d: &Vec<u8>, o: usize, n: usize) -> (r: bool)
    ensures
        r == (o + n <= d@.len()),
        r ==> o + n <= usize::MAX,
{
    n <= d.len() && o <= d.len() - n
}

/// The network-order 16-bit value at `o`.
pub fn ld_be16(d: &Vec<u8>, o: usize) -> (r: Result<u16, ()>)
    ensures
        r == (if o + 2 <= d@.len() { Ok(be16(d@, o as int)) } else { Err(()) }),
{
    if !fits(d, o, 2) {
        return Err(());
    }
    Ok((d[o] as u16) * 256 + d[o + 1] as u16)
}

/// The memory-order 16-bit value at `o`.
pub fn ld_le16(d: &Vec<u8>, o: usize) -> (r: Result<u16, ()>)
    ensures
        r == (if o + 2 <= d@.len() { Ok(le16(d@, o as int)) } else { Err(()) }),
{
    if !fits(d, o, 2) {
        return Err(());
    }
    Ok((d[o + 1] as u16) * 256 + d[o] as u16)
}

/// The network-order 32-bit value at `o`.
pub fn ld_be32(d: &Vec<u8>, o: usize) -> (r: Result<u32, ()>)
    ensures
        r == (if o + 4 <= d@.len() { Ok(be32(d@, o as int)) } else { Err(()) }),
{
    if !fits(d, o, 4) {
        return Err(());
    }
    Ok((d[o] as u32) * 0x100_0000 + (d[o + 1] as u32) * 0x1_0000 + (d[o + 2] as u32) * 256 + d[o + 3] as u32)
}

/// The memory-order 32-bit value at `o`.
pub fn ld_le32(d: &Vec<u8>, o: usize) -> (r: Result<u32, ()>)
    ensures
        r == (if o + 4 <= d@.len() { Ok(le32(d@, o as int)) } else { Err(()) }),
{
    if !fits(d, o, 4) {
        return Err(());
    }
    Ok((d[o + 3] as u32) * 0x100_0000 + (d[o + 2] as u32) * 0x1_0000 + (d[o + 1] as u32) * 256 + d[o] as u32)
}

/// The 4 bytes at `o`.
pub fn ld4(d: &Vec<u8>, o: usize) -> (r: Result<[u8; 4], ()>)
    ensures
        r == (if o + 4 <= d@.len() { Ok(oct4(d@, o as int)) } else { Err(()) }),
{
    if !fits(d, o, 4) {
        return Err(());
    }
    let a: [u8; 4] = [d[o], d[o + 1], d[o + 2], d[o + 3]];
    assert(a =~= oct4(d@, o as int));
    Ok(a)
}

/// The 6 bytes at `o`.
pub fn ld6(d: &Vec<u8>, o: usize) -> (r: Result<[u8; 6], ()>)
    ensures
        r == (if o + 6 <= d@.len() { Ok(oct6(d@, o as int)) } else { Err(()) }),
{
    if !fits(d, o, 6) {
        return Err(());
    }
    let a: [u8; 6] = [d[o], d[o + 1], d[o + 2], d[o + 3], d[o + 4], d[o + 5]];
    assert(a =~= oct6(d@, o as int));
    Ok(a)
}

/// The 16 bytes at `o`.
pub fn ld16(d: &Vec<u8>, o: usize) -> (r: Result<[u8; 16], ()>)
    ensures
        r == (if o + 16 <= d@.len() { Ok(oct16(d@, o as int)) } else { Err(()) }),
{
    if !fits(d, o, 16) {
        return Err(());
    }
    let a: [u8; 16] = [d[o], d[o + 1], d[o + 2], d[o + 3], d[o + 4], d[o + 5], d[o + 6], d[o + 7], d[o + 8], d[o + 9], d[o + 10], d[o + 11], d[o + 12], d[o + 13], d[o + 14], d[o + 15]];
    assert(a =~= oct16(d@, o as int));
    Ok(a)
}

// ------------------------------ writes -------------------------------------

/// Replace the bytes from `o` on by `b`.
pub(crate) fn overwrite(d: &mut Vec<u8>, o: usize, b: &[u8])
    requires
        o + b@.len() <= old(d)@.len(),
    ensures
        final(d)@ == splice(old(d)@, o as int, b@),
{
    let len: usize = d.len();
    let mut i: usize = 0;
    while i < b.len()
        invariant
            i <= b@.len(),
            o + b@.len() <= old(d)@.len(),
            old(d)@.len() == len,
            d@.len() == old(d)@.len(),
            d@ == splice(old(d)@, o as int, b@.take(i as int)),
        decreases b@.len() - i,
    {
        d.set(o + i, b[i]);
        i += 1;
        assert(d@ =~= splice(old(d)@, o as int, b@.take(i as int)));
    }
    assert(b@.take(i as int) =~= b@);
}

/// Insert `b` at `o`.
pub(crate) fn insert_at(d: &mut Vec<u8>, o: usize, b: Vec<u8>)
    requires
        o <= old(d)@.len(),
    ensures
        final(d)@ == inserted(old(d)@, o as int, b@),
{
    let mut tail = d.split_off(o);
    let mut mid = b;
    d.append(&mut mid);
    d.append(&mut tail);
}

/// Drop the first `n` bytes.
pub(crate) fn drop_front(d: &mut Vec<u8>, n: usize)
    requires
        n <= old(d)@.len(),
    ensures
        final(d)@ == old(d)@.skip(n as int),
{
    let tail = d.split_off(n);
    *d = tail;
}

/// Append a byte string.
pub fn put(v: &mut Vec<u8>, b: &[u8])
    ensures
        final(v)@ == old(v)@ + b@,
{
    v.extend_from_slice(b);
    assert(v@ =~= old(v)@ + b@);
}

/// Append a network-order 16-bit value.
pub fn put_be16(v: &mut Vec<u8>, x: u16)
    ensures
        final(v)@ == old(v)@ + be16_bytes(x),
{
    v.push((x / 256) as u8);
    v.push((x % 256) as u8);
    assert(v@ =~= old(v)@ + be16_bytes(x));
}

/// Append a network-order 32-bit value.
pub fn put_be32(v: &mut Vec<u8>, x: u32)
    ensures
        final(v)@ == old(v)@ + be32_bytes(x),
{
    v.push((x / 0x100_0000) as u8);
    v.push(((x / 0x1_0000) % 256) as u8);
    v.push(((x / 256) % 256) as u8);
    v.push((x % 256) as u8);
    assert(v@ =~= old(v)@ + be32_bytes(x));
}

/// The wire bytes of a network-order 16-bit value.
pub fn to_be16(x: u16) -> (r: [u8; 2])
    ensures
        r@ == be16_bytes(x),
{
    let r: [u8; 2] = [(x / 256) as u8, (x % 256) as u8];
    assert(r@ =~= be16_bytes(x));
    r
}

/// The wire bytes of a network-order 32-bit value.
pub fn to_be32(x: u32) -> (r: [u8; 4])
    ensures
        r@ == be32_bytes(x),
{
    let r: [u8; 4] = [
        (x / 0x100_0000) as u8,
        ((x / 0x1_0000) % 256) as u8,
        ((x / 256) % 256) as u8,
        (x % 256) as u8,
    ];
    assert(r@ =~= be32_bytes(x));
    r
}

/// The memory-order bytes of a 16-bit value.
pub fn to_le16(x: u16) -> (r: [u8; 2])
    ensures
        r@ == le16_bytes(x),
{
    let r: [u8; 2] = [(x % 256) as u8, (x / 256) as u8];
    assert(r@ =~= le16_bytes(x));
    r
}

/// The memory-order bytes of a 32-bit value.
pub fn to_le32(x: u32) -> (r: [u8; 4])
    ensures
        r@ == le32_bytes(x),
{
    let r: [u8; 4] = [
        (x % 256) as u8,
        ((x / 256) % 256) as u8,
        ((x / 0x1_0000) % 256) as u8,
        (x / 0x100_0000) as u8,
    ];
    assert(r@ =~= le32_bytes(x));
    r
}

/// The all-zero address.
pub open spec fn zeros16() -> [u8; 16] {
    [0u8, 0u8, 0u8, 0u8, 0u8, 0u8, 0u8, 0u8, 0u8, 0u8, 0u8, 0u8, 0u8, 0u8, 0u8, 0u8]
}

/// The all-zero address.
pub fn zero16() -> (r: [u8; 16])
    ensures
        r == zeros16(),
{
    [0u8, 0u8, 0u8, 0u8, 0u8, 0u8, 0u8, 0u8, 0u8, 0u8, 0u8, 0u8, 0u8, 0u8, 0u8, 0u8]
}

/// The memory-order value of four bytes.
pub fn from_le4(b: &[u8; 4]) -> (r: u32)
    ensures
        r == le32(b@, 0),
{
    (b[3] as u32) * 0x100_0000 + (b[2] as u32) * 0x1_0000 + (b[1] as u32) * 256 + b[0] as u32
}

/// The network-order value of 4 bytes.
pub fn from_be4(b: &[u8; 4]) -> (r: u32)
    ensures
        r == be32(b@, 0),
{
    (b[0] as u32) * 0x100_0000 + (b[1] as u32) * 0x1_0000 + (b[2] as u32) * 256 + b[3] as u32
}

/// Append an Ethernet header.
pub fn put_eth(v: &mut Vec<u8>, dst: &[u8; 6], src: &[u8; 6], ethertype: u16)
    ensures
        final(v)@ == old(v)@ + eth_hdr(*dst, *src, ethertype),
{
    put(v, dst.as_slice());
    put(v, src.as_slice());
    put_be16(v, ethertype);
    assert(v@ =~= old(v)@ + eth_hdr(*dst, *src, ethertype));
}

/// `len - sub + add`, reduced to 16 bits (`sub` capped at `len`).
pub fn len16(len: usize, sub: usize, add: u16) -> (r: u16)
    ensures
        r == wrap16((if sub <= len { len - sub } else { 0 }) + add),
{
    let left: usize = if sub <= len { len - sub } else { 0 };
    assert(left as u16 == left % 0x1_0000) by (bit_vector);
    (left as u16).wrapping_add(add)
}

/// Whether two 2-byte strings are equal.
pub fn same2(a: &[u8; 2], b: &[u8; 2]) -> (r: bool)
    ensures
        r == (*a == *b),
{
    let mut i: usize = 0;
    while i < 2
        invariant
            i <= 2,
            forall|j: int| 0 <= j < i ==> a@[j] == b@[j],
        decreases 2 - i,
    {
        if a[i] != b[i] {
            return false;
        }
        i += 1;
    }
    assert(*a =~= *b);
    true
}

/// Whether two 3-byte strings are equal.
pub fn same3(a: &[u8; 3], b: &[u8; 3]) -> (r: bool)
    ensures
        r == (*a == *b),
{
    let mut i: usize = 0;
    while i < 3
        invariant
            i <= 3,
            forall|j: int| 0 <= j < i ==> a@[j] == b@[j],
        decreases 3 - i,
    {
        if a[i] != b[i] {
            return false;
        }
        i += 1;
    }
    assert(*a =~= *b);
    true
}

/// Whether two 4-byte strings are equal.
pub fn same4(a: &[u8; 4], b: &[u8; 4]) -> (r: bool)
    ensures
        r == (*a == *b),
{
    let mut i: usize = 0;
    while i < 4
        invariant
            i <= 4,
            forall|j: int| 0 <= j < i ==> a@[j] == b@[j],
        decreases 4 - i,
    {
        if a[i] != b[i] {
            return false;
        }
        i += 1;
    }
    assert(*a =~= *b);
    true
}

/// Whether two 6-byte strings are equal.
pub fn same6(a: &[u8; 6], b: &[u8; 6]) -> (r: bool)
    ensures
        r == (*a == *b),
{
    let mut i: usize = 0;
    while i < 6
        invariant
            i <= 6,
            forall|j: int| 0 <= j < i ==> a@[j] == b@[j],
        decreases 6 - i,
    {
        if a[i] != b[i] {
            return false;
        }
        i += 1;
    }
    assert(*a =~= *b);
    true
}

/// Whether two 16-byte strings are equal.
pub fn same16(a: &[u8; 16], b: &[u8; 16]) -> (r: bool)
    ensures
        r == (*a == *b),
{
    let mut i: usize = 0;
    while i < 16
        invariant
            i <= 16,
            forall|j: int| 0 <= j < i ==> a@[j] == b@[j],
        decreases 16 - i,
    {
        if a[i] != b[i] {
            return false;
        }
        i += 1;
    }
    assert(*a =~= *b);
    true
}

/// Writing a 16-bit value and reading it back gives the value.
pub proof fn be16_round_trip(v: u16)
    ensures
        be16(be16_bytes(v), 0) == v,
        le16(le16_bytes(v), 0) == v,
{
}

/// Writing a 32-bit value and reading it back gives the value.
pub proof fn be32_round_trip(v: u32)
    ensures
        be32(be32_bytes(v), 0) == v,
        le32(le32_bytes(v), 0) == v,
{
}

/// Reading the bytes of a value and writing it again gives the bytes.
pub proof fn le_read_back(a: u8, b: u8, c: u8, d: u8)
    ensures
        le32_bytes((d * 0x100_0000 + c * 0x1_0000 + b * 256 + a) as u32) == seq![a, b, c, d],
        le16_bytes((b * 256 + a) as u16) == seq![a, b],
{
    let v = (d * 0x100_0000 + c * 0x1_0000 + b * 256 + a) as u32;
    assert(v / 256 == d * 0x1_0000 + c * 256 + b);
    assert(v / 0x1_0000 == d * 256 + c);
    assert(v / 0x100_0000 == d);
}

/// A splice keeps the length and every byte outside the spliced range.
pub proof fn splice_keeps_the_rest(s: Seq<u8>, o: int, b: Seq<u8>)
    requires
        0 <= o,
        o + b.len() <= s.len(),
    ensures
        splice(s, o, b).len() == s.len(),
        forall|i: int| 0 <= i < s.len() ==> #[trigger] splice(s, o, b)[i] == (if o <= i < o
            + b.len() { b[i - o] } else { s[i] }),
{
}

} // verus!
