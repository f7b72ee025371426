//! Packed words: the DIR-24-8 forwarding slot and the MPLS label stack entry.

use vstd::prelude::*;
use crate::types::{
    FibWord, FIBW_FLAGS_MASK, FIBW_FLAGS_SHIFT, FIBW_ID_MASK, FIBW_TBL8, FIBW_VALID,
};

verus! {

/// Value of a valid route slot: bit 31 set, 4 flag bits at 26, a 26-bit id.
pub open spec fn fibw_entry_value(nexthop_id: int, flags: int) -> int {
    0x8000_0000 + (flags % 16) * 0x400_0000 + nexthop_id % 0x400_0000
}

/// Value of a group-pointer slot: bits 31 and 30 set, a 26-bit group index.
pub open spec fn fibw_group_value(group_idx: int) -> int {
    0xc000_0000 + group_idx % 0x400_0000
}

/// The `(nexthop_id, flags)` held in a slot.
pub open spec fn fibw_fields(w: u32) -> (u32, u32) {
    ((w % 0x400_0000) as u32, ((w / 0x400_0000) % 16) as u32)
}

/// Value of a label stack entry: Label(20) | TC(3) | S(1) | TTL(8).
pub open spec fn lse_value(label: int, tc: int, s: int, ttl: int) -> int {
    (label % 0x10_0000) * 4096 + (tc % 8) * 512 + (s % 2) * 256 + ttl
}

/// The `(label, tc, s, ttl)` held in a label stack entry.
pub open spec fn lse_fields(lse: u32) -> (u32, u8, u8, u8) {
    (
        (lse / 4096) as u32,
        ((lse / 512) % 8) as u8,
        ((lse / 256) % 2) as u8,
        (lse % 256) as u8,
    )
}

/// Pack a resolved route into a valid `FibWord`. `flags` is masked to the
/// 4-bit field (`FIB_F_*` fit) and `nexthop_id` to the 26-bit field.
pub fn fibw_entry(nexthop_id: u32, flags: u32) -> (w: FibWord)
    ensures
        w == fibw_entry_value(nexthop_id as int, flags as int),
        w & FIBW_VALID != 0,
        w & FIBW_TBL8 == 0,
{
    let w: u32 = FIBW_VALID | (flags & FIBW_FLAGS_MASK) << FIBW_FLAGS_SHIFT | (nexthop_id
        & FIBW_ID_MASK);
    assert(({
        let w: u32 = 0x8000_0000u32 | (flags & 0xfu32) << 26u32 | (nexthop_id & 0x3ff_ffffu32);
        &&& w == 0x8000_0000 + (flags % 16) * 0x400_0000 + nexthop_id % 0x400_0000
        &&& w & 0x8000_0000u32 != 0
        &&& w & 0x4000_0000u32 == 0
    })) by (bit_vector);
    w
}

/// Pack a `TBL8` group pointer.
pub fn fibw_group(group_idx: u32) -> (w: FibWord)
    ensures
        w == fibw_group_value(group_idx as int),
        w & FIBW_VALID != 0,
        w & FIBW_TBL8 != 0,
        w & FIBW_ID_MASK == group_idx % 0x400_0000,
{
    let w: u32 = FIBW_VALID | FIBW_TBL8 | (group_idx & FIBW_ID_MASK);
    assert(({
        let w: u32 = 0x8000_0000u32 | 0x4000_0000u32 | (group_idx & 0x3ff_ffffu32);
        &&& w == 0xc000_0000 + group_idx % 0x400_0000
        &&& w & 0x8000_0000u32 != 0
        &&& w & 0x4000_0000u32 != 0
        &&& w & 0x3ff_ffffu32 == group_idx % 0x400_0000
    })) by (bit_vector);
    w
}

/// Unpack a valid, non-group word into `(nexthop_id, flags)`.
pub fn fibw_unpack(w: FibWord) -> (r: (u32, u32))
    ensures
        r == fibw_fields(w),
{
    assert(w & 0x3ff_ffffu32 == w % 0x400_0000 && (w >> 26u32) & 0xfu32 == (w / 0x400_0000) % 16)
        by (bit_vector);
    (w & FIBW_ID_MASK, (w >> FIBW_FLAGS_SHIFT) & FIBW_FLAGS_MASK)
}

/// Pack an MPLS label stack entry: Label(20) | TC(3) | S(1) | TTL(8).
/// Returns the host-order `u32` whose big-endian bytes are the wire LSE.
pub fn mpls_lse(label: u32, tc: u8, s: u8, ttl: u8) -> (lse: u32)
    ensures
        lse == lse_value(label as int, tc as int, s as int, ttl as int),
{
    let (t, b, l): (u32, u32, u32) = (tc as u32, s as u32, ttl as u32);
    assert((label & 0xf_ffffu32) << 12u32 | (t & 0x7u32) << 9u32 | (b & 0x1u32) << 8u32 | l == (
    label % 0x10_0000) * 4096 + (t % 8) * 512 + (b % 2) * 256 + l) by (bit_vector)
        requires
            l < 256,
    ;
    (label & 0xf_ffff) << 12 | (t & 0x7) << 9 | (b & 0x1) << 8 | l
}

/// Unpack an MPLS label stack entry (host-order value of the big-endian wire
/// word) into `(label, tc, s, ttl)`.
pub fn mpls_lse_unpack(lse: u32) -> (r: (u32, u8, u8, u8))
    ensures
        r == lse_fields(lse),
{
    assert(lse >> 12u32 == lse / 4096 && (lse >> 9u32) & 0x7u32 == (lse / 512) % 8 && (lse >> 8u32)
        & 0x1u32 == (lse / 256) % 2 && lse & 0xffu32 == lse % 256) by (bit_vector);
    (lse >> 12, ((lse >> 9) & 0x7) as u8, ((lse >> 8) & 0x1) as u8, (lse & 0xff) as u8)
}

/// Unpacking a packed route gives back its id and flags, for every id that
/// fits 26 bits and every flag set that fits 4.
pub proof fn fibw_round_trip(nexthop_id: u32, flags: u32)
    requires
        nexthop_id < 0x400_0000,
        flags < 16,
    ensures
        fibw_fields(fibw_entry_value(nexthop_id as int, flags as int) as u32) == (
            nexthop_id,
            flags,
        ),
{
}

/// A route slot and a group pointer are never the same word.
pub proof fn fibw_entry_is_no_group(nexthop_id: int, flags: int, group_idx: int)
    ensures
        fibw_entry_value(nexthop_id, flags) < fibw_group_value(group_idx),
{
}

/// Unpacking a packed label stack entry gives back its fields, for every
/// label of 20 bits, traffic class of 3 and bottom-of-stack bit.
#[verifier::spinoff_prover]
pub proof fn lse_round_trip(label: u32, tc: u8, s: u8, ttl: u8)
    requires
        label < 0x10_0000,
        tc < 8,
        s < 2,
    ensures
        lse_fields(lse_value(label as int, tc as int, s as int, ttl as int) as u32) == (
            label,
            tc,
            s,
            ttl,
        ),
{
    let v = lse_value(label as int, tc as int, s as int, ttl as int);
    let high = label * 16 + tc * 2 + s;
    assert(v == high * 256 + ttl);
    assert(v / 256 == high && v % 256 == ttl);
    assert(v / 512 == high / 2 && high / 2 == label * 8 + tc && high % 2 == s);
    assert(v / 4096 == label);
}

/// Packing the fields of a label stack entry gives back the entry.
#[verifier::spinoff_prover]
pub proof fn lse_fields_pack(lse: u32)
    ensures
        ({
            let (label, tc, s, ttl) = lse_fields(lse);
            lse_value(label as int, tc as int, s as int, ttl as int) == lse
        }),
{
    assert((lse / 4096) * 4096 + ((lse / 512) % 8) * 512 + ((lse / 256) % 2) * 256 + lse % 256 == lse
        && lse / 4096 < 0x10_0000) by (bit_vector);
    let (label, tc, s, ttl) = lse_fields(lse);
    assert(label == lse / 4096 && tc == (lse / 512) % 8 && s == (lse / 256) % 2 && ttl == lse % 256);
}

} // verus!
