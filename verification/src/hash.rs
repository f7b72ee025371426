//! The hashes the project names things by.

use vstd::prelude::*;

verus! {

pub const FNV32_BASIS: u32 = 0x811c_9dc5;
pub const FNV32_PRIME: u32 = 0x0100_0193;
pub const FNV64_BASIS: u64 = 0xcbf2_9ce4_8422_2325;
pub const FNV64_PRIME: u64 = 0x0000_0100_0000_01b3;

/// FNV-1a over `s`, 32 bits: xor each byte in, multiply by the prime.
pub open spec fn fnv32(h: u32, s: Seq<u8>) -> u32
    decreases s.len(),
{
    if s.len() == 0 {
        h
    } else {
        (((fnv32(h, s.drop_last()) ^ (s.last() as u32)) * FNV32_PRIME) % 0x1_0000_0000) as u32
    }
}

/// FNV-1a over `s`, 64 bits.
pub open spec fn fnv64(s: Seq<u8>) -> u64
    decreases s.len(),
{
    if s.len() == 0 {
        FNV64_BASIS
    } else {
        (((fnv64(s.drop_last()) ^ (s.last() as u64)) * FNV64_PRIME)
            % 0x1_0000_0000_0000_0000) as u64
    }
}

/// Hashing a concatenation continues from the hash of its head.
pub proof fn fnv32_concat(h: u32, a: Seq<u8>, b: Seq<u8>)
    ensures
        fnv32(h, a + b) == fnv32(fnv32(h, a), b),
    decreases b.len(),
{
    if b.len() == 0 {
        assert(a + b =~= a);
    } else {
        assert((a + b).drop_last() =~= a + b.drop_last());
        fnv32_concat(h, a, b.drop_last());
    }
}

/// Continue a 32-bit FNV-1a hash over `s`.
pub fn fnv1a32(h: u32, s: &[u8]) -> (r: u32)
    ensures
        r == fnv32(h, s@),
{
    let mut r: u32 = h;
    let mut i: usize = 0;
    while i < s.len()
        invariant
            i <= s@.len(),
            r == fnv32(h, s@.take(i as int)),
        decreases s@.len() - i,
    {
        assert(s@.take(i + 1).drop_last() =~= s@.take(i as int));
        r = (r ^ (s[i] as u32)).wrapping_mul(FNV32_PRIME);
        i += 1;
    }
    assert(s@.take(i as int) =~= s@);
    r
}

/// FNV-1a of a byte string, 64 bits.
pub fn fnv1a64(s: &[u8]) -> (r: u64)
    ensures
        r == fnv64(s@),
{
    let mut r: u64 = FNV64_BASIS;
    let mut i: usize = 0;
    while i < s.len()
        invariant
            i <= s@.len(),
            r == fnv64(s@.take(i as int)),
        decreases s@.len() - i,
    {
        assert(s@.take(i + 1).drop_last() =~= s@.take(i as int));
        r = (r ^ (s[i] as u64)).wrapping_mul(FNV64_PRIME);
        i += 1;
    }
    assert(s@.take(i as int) =~= s@);
    r
}

/// `x * m` reduced to 32 bits.
pub open spec fn mul32(x: u32, m: u32) -> u32 {
    ((x * m) % 0x1_0000_0000) as u32
}

/// Murmur3's 32-bit finalizer.
pub open spec fn fmix(h: u32) -> u32 {
    let a = mul32(h ^ (h >> 16u32), 0x85eb_ca6b);
    let b = mul32(a ^ (a >> 13u32), 0xc2b2_ae35);
    b ^ (b >> 16u32)
}

/// Murmur3 32-bit finalizer — good avalanche so the low bits used for member
/// selection depend on every input bit (inputs often differ only in high bits).
pub fn fmix32(h: u32) -> (r: u32)
    ensures
        r == fmix(h),
{
    let mut h: u32 = h;
    h = h ^ (h >> 16);
    h = h.wrapping_mul(0x85eb_ca6b);
    h = h ^ (h >> 13);
    h = h.wrapping_mul(0xc2b2_ae35);
    h ^ (h >> 16)
}

/// `x` rotated left by 16 bits: its two halves swapped.
pub open spec fn rotl16(x: u32) -> u32 {
    ((x % 0x1_0000) * 0x1_0000 + x / 0x1_0000) as u32
}

/// Swap the halves of a 32-bit word.
pub fn rotate16(x: u32) -> (r: u32)
    ensures
        r == rotl16(x),
{
    (x % 0x1_0000) * 0x1_0000 + x / 0x1_0000
}

} // verus!
