//! Route, nexthop and neighbor resolution.

use vstd::prelude::*;
use crate::bytes;
use crate::frame;
use crate::frame::{XdpAct, XdpView};
use crate::hash;
use crate::lpm;
use crate::skb;
use crate::skb::{Tc, TcAct, TcView};
use crate::tables;
use crate::tables::Tables;
use crate::types::{
    CradleXdpMeta, FibEntry, FibWord, Neigh4Key, Neigh6Key, NextHop, NhGroupKey, DPC_FIB4_DIR24,
    FIBW_ID_MASK, FIBW_TBL8, FIBW_VALID, NH_F_V6, STAT_FIB4_DEFAULT, STAT_FIB4_TBL24_HIT,
    STAT_FIB4_TBL8_HIT, STAT_FIB4_VRF_HIT, STAT_FIB6_VRF_HIT, STAT_NH_BACKUP,
};
use crate::wire::{IPPROTO_TCP, IPPROTO_UDP};
use crate::words;

verus! {

// ------------------------------- routes -------------------------------------

/// The DIR-24-8 slot for `dst` and the counter its kind bumps: the /24 slot,
/// the group slot it points at, or the default route when that holds none.
pub open spec fn dir24(t: &Tables, dst: [u8; 4]) -> Option<(FibWord, u32)> {
    let idx = bytes::be32(dst@, 0) / 256;
    if idx >= t.tbl24@.len() {
        None
    } else {
        let w = t.tbl24@[idx as int];
        if w & FIBW_TBL8 != 0 {
            let i = ((w & FIBW_ID_MASK) * 256 + dst[3]) % 0x1_0000_0000;
            if i >= t.tbl8@.len() {
                None
            } else if t.tbl8@[i] & FIBW_VALID != 0 {
                Some((t.tbl8@[i], STAT_FIB4_TBL8_HIT))
            } else {
                dir24_default(t)
            }
        } else if w & FIBW_VALID != 0 {
            Some((w, STAT_FIB4_TBL24_HIT))
        } else {
            dir24_default(t)
        }
    }
}

/// The default route, kept outside the table.
pub open spec fn dir24_default(t: &Tables) -> Option<(FibWord, u32)> {
    if t.default4 & FIBW_VALID != 0 {
        Some((t.default4, STAT_FIB4_DEFAULT))
    } else {
        None
    }
}

/// The route held in a slot.
pub open spec fn entry_of(w: FibWord) -> FibEntry {
    FibEntry { nexthop_id: words::fibw_fields(w).0, flags: words::fibw_fields(w).1 }
}

/// IPv4 route lookup: the per-VRF table for a non-zero VRF, else the
/// DIR-24-8 arrays when enabled, else the global trie.
#[verifier::opaque]
pub open spec fn route4(t: &Tables, c: TcView, vrf_id: u32, dst: [u8; 4]) -> (
    TcView,
    Option<FibEntry>,
) {
    if vrf_id != 0 {
        let m = lpm::matched(t.fib4_vrf@, tables::scoped(vrf_id, dst@));
        (if m is Some { skb::stat(c, STAT_FIB4_VRF_HIT) } else { c }, m)
    } else if t.dp_config & DPC_FIB4_DIR24 == 0 {
        (c, lpm::matched(t.fib4@, dst@))
    } else {
        match dir24(t, dst) {
            Some((w, counter)) => (skb::stat(c, counter), Some(entry_of(w))),
            None => (c, None),
        }
    }
}

/// IPv6 route lookup: the per-VRF table for a non-zero VRF, else the global
/// trie.
#[verifier::opaque]
pub open spec fn route6(t: &Tables, c: TcView, vrf_id: u32, dst: [u8; 16]) -> (
    TcView,
    Option<FibEntry>,
) {
    if vrf_id != 0 {
        let m = lpm::matched(t.fib6_vrf@, tables::scoped(vrf_id, dst@));
        (if m is Some { skb::stat(c, STAT_FIB6_VRF_HIT) } else { c }, m)
    } else {
        (c, lpm::matched(t.fib6@, dst@))
    }
}

/// Look `dst` up in the DIR-24-8 arrays (one or two flat array loads and a
/// default fall-through).
pub fn dir24_lookup(t: &Tables, dst: [u8; 4]) -> (r: Option<(FibWord, u32)>)
    ensures
        r == dir24(t, dst),
{
    let key: u32 = (dst[0] as u32) * 0x100_0000 + (dst[1] as u32) * 0x1_0000 + (dst[2] as u32) * 256
        + dst[3] as u32;
    let idx: usize = (key / 256) as usize;
    if idx >= t.tbl24.len() {
        return None;
    }
    let w: u32 = t.tbl24[idx];
    if w & FIBW_TBL8 != 0 {
        let group: u32 = w & FIBW_ID_MASK;
        let i: usize = group.wrapping_mul(256).wrapping_add(dst[3] as u32) as usize;
        proof {
            assert(w & 0x3ff_ffffu32 <= 0x3ff_ffffu32) by (bit_vector);
        }
        if i >= t.tbl8.len() {
            return None;
        }
        let w8: u32 = t.tbl8[i];
        if w8 & FIBW_VALID != 0 {
            return Some((w8, STAT_FIB4_TBL8_HIT));
        }
    } else if w & FIBW_VALID != 0 {
        return Some((w, STAT_FIB4_TBL24_HIT));
    }
    if t.default4 & FIBW_VALID != 0 {
        Some((t.default4, STAT_FIB4_DEFAULT))
    } else {
        None
    }
}

/// v4 route lookup.
pub fn fib4_lookup(t: &Tables, c: &mut Tc, vrf_id: u32, dst: [u8; 4]) -> (r: Option<FibEntry>)
    ensures
        (final(c)@, r) == route4(t, old(c)@, vrf_id, dst),
{
    reveal(route4);
    if vrf_id != 0 {
        let key = tables::scoped_key(vrf_id, dst.as_slice());
        let fib = t.fib4_vrf.get(key.as_slice());
        if fib.is_some() {
            c.stat_inc(STAT_FIB4_VRF_HIT);
        }
        return fib;
    }
    if !t.dpc(DPC_FIB4_DIR24) {
        return t.fib4.get(dst.as_slice());
    }
    match dir24_lookup(t, dst) {
        Some((w, counter)) => {
            c.stat_inc(counter);
            let (nexthop_id, flags) = words::fibw_unpack(w);
            Some(FibEntry { nexthop_id, flags })
        },
        None => None,
    }
}

/// v6 route lookup — the per-VRF table when `vrf_id != 0`, else global.
pub fn fib6_lookup(t: &Tables, c: &mut Tc, vrf_id: u32, dst: [u8; 16]) -> (r: Option<FibEntry>)
    ensures
        (final(c)@, r) == route6(t, old(c)@, vrf_id, dst),
{
    reveal(route6);
    if vrf_id != 0 {
        let key = tables::scoped_key(vrf_id, dst.as_slice());
        let fib = t.fib6_vrf.get(key.as_slice());
        if fib.is_some() {
            c.stat_inc(STAT_FIB6_VRF_HIT);
        }
        return fib;
    }
    t.fib6.get(dst.as_slice())
}

// ------------------------------ nexthops ------------------------------------

/// Nexthop resolution with fast reroute: the backup when the primary has one
/// and its link is down.
#[verifier::opaque]
pub open spec fn resolved(t: &Tables, c: TcView, nh_id: u32) -> (TcView, Option<(u32, NextHop)>) {
    match t.nexthops@.get(nh_id) {
        None => (c, None),
        Some(nh) => if nh.backup_id != 0 && t.link_down@.contains_key(nh.oif) {
            match t.nexthops@.get(nh.backup_id) {
                None => (c, None),
                Some(b) => (skb::stat(c, STAT_NH_BACKUP), Some((nh.backup_id, b))),
            }
        } else {
            (c, Some((nh_id, nh)))
        },
    }
}

/// Resolve a nexthop id into `(effective id, nexthop)`, failing over to its
/// `backup_id` when the primary's egress link is down. The effective id
/// matters: encapsulations are keyed by nexthop id, so the backup's is found
/// under the backup's id.
pub fn resolve_nh(t: &Tables, c: &mut Tc, nh_id: u32) -> (r: Option<(u32, NextHop)>)
    ensures
        (final(c)@, r) == resolved(t, old(c)@, nh_id),
{
    reveal(resolved);
    let nh: NextHop = match t.nexthops.get(&nh_id) {
        Some(n) => n,
        None => {
            return None;
        },
    };
    if nh.backup_id != 0 && t.link_down.has(&nh.oif) {
        return match t.nexthops.get(&nh.backup_id) {
            Some(b) => {
                c.stat_inc(STAT_NH_BACKUP);
                Some((nh.backup_id, b))
            },
            None => None,
        };
    }
    Some((nh_id, nh))
}

/// The group member a hash selects.
pub open spec fn ecmp(t: &Tables, group_id: u32, h: u32) -> Option<u32> {
    match t.nhgroup@.get(group_id) {
        Some(count) if count != 0 => t.nhgroup_member@.get(
            NhGroupKey { group_id, slot: h % count },
        ),
        _ => None,
    }
}

/// Resolve a nexthop-group member by hashing the flow onto `0..count`.
pub fn ecmp_member(t: &Tables, group_id: u32, h: u32) -> (r: Option<u32>)
    ensures
        r == ecmp(t, group_id, h),
{
    match t.nhgroup.get(&group_id) {
        Some(count) => if count == 0 {
            None
        } else {
            t.nhgroup_member.get(&NhGroupKey { group_id, slot: h % count })
        },
        None => None,
    }
}

/// Per-flow hash of an IPv4 packet: addresses, protocol, and ports where the
/// protocol has them.
pub open spec fn hash4(s: Seq<u8>, src: u32, dst: u32) -> u32 {
    let proto: u8 = if s.len() > 23 { s[23] } else { 0 };
    let h = src ^ hash::rotl16(dst) ^ (proto as u32);
    hash::fmix(
        if (proto == IPPROTO_TCP || proto == IPPROTO_UDP) && s.len() >= 38 {
            h ^ bytes::le32(s, 34)
        } else {
            h
        },
    )
}

/// The words of an address, folded.
pub open spec fn fold_words(a: Seq<u8>) -> u32 {
    bytes::le32(a, 0) ^ bytes::le32(a, 4) ^ bytes::le32(a, 8) ^ bytes::le32(a, 12)
}

/// Per-flow hash of an IPv6 packet.
pub open spec fn hash6(s: Seq<u8>, src: [u8; 16], dst: [u8; 16]) -> u32 {
    let nexthdr: u8 = if s.len() > 20 { s[20] } else { 0 };
    let h = fold_words(src@) ^ hash::rotl16(fold_words(dst@)) ^ (nexthdr as u32);
    hash::fmix(
        if (nexthdr == IPPROTO_TCP || nexthdr == IPPROTO_UDP) && s.len() >= 58 {
            h ^ bytes::le32(s, 54)
        } else {
            h
        },
    )
}

/// Per-flow hash for ECMP member selection (consistent within a
/// flow/direction).
pub fn flow_hash_v4(d: &Vec<u8>, src: u32, dst: u32) -> (r: u32)
    ensures
        r == hash4(d@, src, dst),
{
    let proto: u8 = match bytes::ld8(d, 23) {
        Ok(p) => p,
        Err(_) => 0,
    };
    let mut h: u32 = src ^ hash::rotate16(dst) ^ (proto as u32);
    if proto == IPPROTO_TCP || proto == IPPROTO_UDP {
        match bytes::ld_le32(d, 34) {
            Ok(ports) => {
                h = h ^ ports;
            },
            Err(_) => {},
        }
    }
    hash::fmix32(h)
}

fn word_at(a: &[u8; 16], i: usize) -> (r: u32)
    requires
        i + 4 <= 16,
    ensures
        r == bytes::le32(a@, i as int),
{
    (a[i + 3] as u32) * 0x100_0000 + (a[i + 2] as u32) * 0x1_0000 + (a[i + 1] as u32) * 256
        + a[i] as u32
}

fn folded(a: &[u8; 16]) -> (r: u32)
    ensures
        r == fold_words(a@),
{
    word_at(a, 0) ^ word_at(a, 4) ^ word_at(a, 8) ^ word_at(a, 12)
}

/// Per-flow hash for IPv6 ECMP member selection.
pub fn flow_hash_v6(d: &Vec<u8>, src: &[u8; 16], dst: &[u8; 16]) -> (r: u32)
    ensures
        r == hash6(d@, *src, *dst),
{
    let nexthdr: u8 = match bytes::ld8(d, 20) {
        Ok(p) => p,
        Err(_) => 0,
    };
    let mut h: u32 = folded(src) ^ hash::rotate16(folded(dst)) ^ (nexthdr as u32);
    if nexthdr == IPPROTO_TCP || nexthdr == IPPROTO_UDP {
        match bytes::ld_le32(d, 54) {
            Ok(ports) => {
                h = h ^ ports;
            },
            Err(_) => {},
        }
    }
    hash::fmix32(h)
}

// ------------------------------ metadata ------------------------------------

/// The value of XDP→TC metadata tagged `magic` by this instance.
pub open spec fn meta_value(t: &Tables, meta: Option<CradleXdpMeta>, magic: u32) -> Option<u32> {
    match meta {
        Some(m) if m.magic == magic ^ t.meta_cookie => Some(m.vrf_id),
        _ => None,
    }
}

/// The value of XDP→TC metadata tagged `magic` by this instance.
pub fn tc_meta(t: &Tables, meta: &Option<CradleXdpMeta>, magic: u32) -> (r: Option<u32>)
    ensures
        r == meta_value(t, *meta, magic),
{
    match meta {
        Some(m) => if m.magic == magic ^ t.meta_cookie {
            Some(m.vrf_id)
        } else {
            None
        },
        None => None,
    }
}

/// As [`meta_value`], 0 when there is none.
pub open spec fn meta_or_zero(t: &Tables, meta: Option<CradleXdpMeta>, magic: u32) -> u32 {
    match meta_value(t, meta, magic) {
        Some(v) => v,
        None => 0,
    }
}

/// The metadata value tagged `magic`, 0 when there is none.
pub fn tc_meta_or_zero(t: &Tables, meta: &Option<CradleXdpMeta>, magic: u32) -> (r: u32)
    ensures
        r == meta_or_zero(t, *meta, magic),
{
    match tc_meta(t, meta, magic) {
        Some(v) => v,
        None => 0,
    }
}

// ----------------------------- L2 resolution --------------------------------

/// A nexthop's egress Ethernet addresses: the neighbor's MAC and the egress
/// port's, or `None` on a miss of either.
pub open spec fn l2_of(t: &Tables, nh: NextHop) -> Option<([u8; 6], [u8; 6])> {
    let dst = if nh.flags & NH_F_V6 != 0 {
        t.neigh6@.get(Neigh6Key { ifindex: nh.oif, addr: nh.gateway_v6 })
    } else {
        t.neigh4@.get(Neigh4Key { ifindex: nh.oif, addr: nh.gateway_v4 })
    };
    match (dst, t.ports@.get(nh.oif)) {
        (Some(e), Some(p)) => Some((e.mac, p.mac)),
        _ => None,
    }
}

/// The Ethernet addresses toward an IPv4 neighbor out of a port, or `None` on a
/// miss of either.
pub open spec fn link4_of(t: &Tables, oif: u32, addr: u32) -> Option<([u8; 6], [u8; 6])> {
    match (t.neigh4@.get(Neigh4Key { ifindex: oif, addr }), t.ports@.get(oif)) {
        (Some(e), Some(p)) => Some((e.mac, p.mac)),
        _ => None,
    }
}

/// Resolve the Ethernet addresses toward an IPv4 neighbor out of a port.
pub fn resolve_link4(t: &Tables, oif: u32, addr: u32) -> (r: Option<([u8; 6], [u8; 6])>)
    ensures
        r == link4_of(t, oif, addr),
{
    match (t.neigh4.get(&Neigh4Key { ifindex: oif, addr }), t.ports.get(&oif)) {
        (Some(e), Some(p)) => Some((e.mac, p.mac)),
        _ => None,
    }
}

/// Resolve a nexthop's egress Ethernet header from the control-plane neighbor
/// and port state: `(dst_mac, src_mac)`, or `None` on a miss.
pub fn resolve_l2(t: &Tables, nh: &NextHop) -> (r: Option<([u8; 6], [u8; 6])>)
    ensures
        r == l2_of(t, *nh),
{
    let neigh = if nh.flags & NH_F_V6 != 0 {
        t.neigh6.get(&Neigh6Key { ifindex: nh.oif, addr: nh.gateway_v6 })
    } else {
        t.neigh4.get(&Neigh4Key { ifindex: nh.oif, addr: nh.gateway_v4 })
    };
    match (neigh, t.ports.get(&nh.oif)) {
        (Some(e), Some(p)) => Some((e.mac, p.mac)),
        _ => None,
    }
}

/// Outcome of sending the frame to a nexthop: a fresh Ethernet header and a
/// redirect, or the untouched frame to the host stack on a neighbor miss.
#[verifier::opaque]
pub open spec fn xmitted(t: &Tables, c: TcView, nh: NextHop, ethertype: u16) -> (TcView, TcAct) {
    match l2_of(t, nh) {
        None => (c, TcAct::Pipe),
        Some((dst, src)) => (
            skb::with_data(c, bytes::eth_hdr(dst, src, ethertype) + c.data.skip(14)),
            TcAct::Redirect(nh.oif),
        ),
    }
}

/// Explicit L2 rewrite + redirect for a frame whose egress EtherType is
/// `ethertype`. Used wherever the kernel could not build the header from the
/// packet's protocol: MPLS and imposed outer headers. A neighbor/port miss
/// punts to the host.
pub(crate) fn l2_xmit(t: &Tables, c: &mut Tc, nh: &NextHop, ethertype: u16) -> (r: TcAct)
    requires
        old(c)@.data.len() >= 14,
    ensures
        (final(c)@, r) == xmitted(t, old(c)@, *nh, ethertype),
{
    reveal(xmitted);
    let (dst_mac, src_mac) = match resolve_l2(t, nh) {
        Some(m) => m,
        None => {
            return TcAct::Pipe;
        },
    };
    let mut eth: Vec<u8> = Vec::new();
    bytes::put_eth(&mut eth, &dst_mac, &src_mac, ethertype);
    let ghost before = c@.data;
    c.store(0, eth.as_slice());
    assert(c@.data =~= bytes::eth_hdr(dst_mac, src_mac, ethertype) + before.skip(14));
    TcAct::Redirect(nh.oif)
}

// -------------------------------- laws --------------------------------------

/// VRFs are separate: a route found in a VRF is one of that VRF, never of
/// another.
pub proof fn routes_stay_in_their_vrf(
    t: &Tables,
    c: TcView,
    vrf: u32,
    d4: [u8; 4],
    d6: [u8; 16],
)
    requires
        vrf != 0,
        forall|i: int| 0 <= i < t.fib4_vrf@.len() ==> (#[trigger] t.fib4_vrf@[i]).1 >= 32,
        forall|i: int| 0 <= i < t.fib6_vrf@.len() ==> (#[trigger] t.fib6_vrf@[i]).1 >= 32,
    ensures
        route4(t, c, vrf, d4).1 matches Some(fe) ==> exists|i: int|
            0 <= i < t.fib4_vrf@.len() && (#[trigger] t.fib4_vrf@[i]).0.take(4)
                == bytes::le32_bytes(vrf) && t.fib4_vrf@[i].2 == fe,
        route6(t, c, vrf, d6).1 matches Some(fe) ==> exists|i: int|
            0 <= i < t.fib6_vrf@.len() && (#[trigger] t.fib6_vrf@[i]).0.take(4)
                == bytes::le32_bytes(vrf) && t.fib6_vrf@[i].2 == fe,
{
    reveal(route4);
    reveal(route6);
    if let Some(fe) = route4(t, c, vrf, d4).1 {
        let _ = scoped_match(t.fib4_vrf@, vrf, d4@);
    }
    if let Some(fe) = route6(t, c, vrf, d6).1 {
        let _ = scoped_match(t.fib6_vrf@, vrf, d6@);
    }
}

proof fn scoped_match(s: Seq<(Seq<u8>, int, FibEntry)>, vrf: u32, addr: Seq<u8>) -> (i: int)
    requires
        forall|i: int| 0 <= i < s.len() ==> (#[trigger] s[i]).1 >= 32,
        lpm::matched(s, tables::scoped(vrf, addr)) is Some,
    ensures
        0 <= i < s.len(),
        s[i].0.take(4) == bytes::le32_bytes(vrf),
        lpm::matched(s, tables::scoped(vrf, addr)) == Some(s[i].2),
{
    let key = tables::scoped(vrf, addr);
    lpm::longest_prefix_wins(s, key);
    let b = lpm::best(s, key)->0;
    let i = choose|i: int|
        0 <= i < s.len() && lpm::covers(#[trigger] s[i].0, s[i].1, key) && b == (s[i].1, s[i].2);
    let n = s[i].1 / 8;
    assert(s[i].0.take(4) =~= s[i].0.take(n).take(4));
    assert(key.take(n).take(4) =~= bytes::le32_bytes(vrf));
    i
}

/// Fast reroute: with the primary's link down and a backup configured, the
/// nexthop used is the backup's, under the backup's id.
pub proof fn link_down_uses_backup(t: &Tables, c: TcView, nh_id: u32, nh: NextHop, b: NextHop)
    requires
        t.nexthops@.get(nh_id) == Some(nh),
        nh.backup_id != 0,
        t.link_down@.contains_key(nh.oif),
        t.nexthops@.get(nh.backup_id) == Some(b),
    ensures
        resolved(t, c, nh_id).1 == Some((nh.backup_id, b)),
{
    reveal(resolved);
}

/// Metadata another instance wrote is ignored: a value tagged under a
/// different cookie reads as none.
pub proof fn foreign_metadata_is_ignored(t: &Tables, magic: u32, cookie: u32, value: u32)
    requires
        cookie != t.meta_cookie,
    ensures
        meta_value(
            t,
            Some(CradleXdpMeta { magic: magic ^ cookie, vrf_id: value }),
            magic,
        ) is None,
{
    let own = t.meta_cookie;
    assert(magic ^ cookie != magic ^ own) by (bit_vector)
        requires
            cookie != own,
    ;
}

/// What the XDP stage tags is read back under its own magic, and under no other.
pub proof fn tag_is_read_back(t: &Tables, x: XdpView, magic: u32, other: u32, value: u32)
    requires
        frame::tagged(t, x, magic, value).1 == XdpAct::Pass,
    ensures
        ({
            let meta = frame::tagged(t, x, magic, value).0.meta;
            &&& meta_value(t, meta, magic) == Some(value)
            &&& other != magic ==> meta_value(t, meta, other) is None
        }),
{
    let own = t.meta_cookie;
    assert(other != magic ==> magic ^ own != other ^ own) by (bit_vector);
}

/// Packets of one flow hash alike: the member depends on the addresses, the
/// protocol and, where it has them, the ports only.
pub proof fn same_flow_same_hash(a: Seq<u8>, b: Seq<u8>)
    requires
        a.len() >= 34,
        b.len() >= 34,
        a[23] == b[23],
        forall|i: int| 26 <= i < 34 ==> a[i] == b[i],
        a[23] == IPPROTO_TCP || a[23] == IPPROTO_UDP ==> {
            &&& a.len() >= 38 <==> b.len() >= 38
            &&& forall|i: int| 34 <= i < 38 ==> a[i] == b[i]
        },
    ensures
        hash4(a, bytes::le32(a, 26), bytes::le32(a, 30)) == hash4(
            b,
            bytes::le32(b, 26),
            bytes::le32(b, 30),
        ),
{
}

/// The IPv6 form of [`same_flow_same_hash`].
pub proof fn same_flow_same_hash_v6(a: Seq<u8>, b: Seq<u8>)
    requires
        a.len() >= 54,
        b.len() >= 54,
        a[20] == b[20],
        forall|i: int| 22 <= i < 54 ==> a[i] == b[i],
        a[20] == IPPROTO_TCP || a[20] == IPPROTO_UDP ==> {
            &&& a.len() >= 58 <==> b.len() >= 58
            &&& forall|i: int| 54 <= i < 58 ==> a[i] == b[i]
        },
    ensures
        hash6(a, bytes::oct16(a, 22), bytes::oct16(a, 38)) == hash6(
            b,
            bytes::oct16(b, 22),
            bytes::oct16(b, 38),
        ),
{
    assert(bytes::oct16(a, 22) =~= bytes::oct16(b, 22));
    assert(bytes::oct16(a, 38) =~= bytes::oct16(b, 38));
}

} // verus!
