//! L3 forwarding in the TC stage: IPv4, IPv6 and single-label MPLS swaps.
//!
//! The stage is entered by EtherType, so the frame holds its Ethernet header.

use vstd::prelude::*;
use crate::bytes;
use crate::fib;
use crate::impose;
use crate::lpm;
use crate::policy;
use crate::skb;
use crate::skb::{CsumFix, Tc, TcAct, TcView};
use crate::tables::Tables;
use crate::types::{
    FibEntry, MplsEntry, NextHop, FIB_F_BLACKHOLE, FIB_F_CONNECTED, FIB_F_ECMP, FIB_F_LOCAL,
    FLOW_DIR_EGRESS, FLOW_DIR_INGRESS, FLOW_FORWARDED, MPLS_OP_SWAP, NH_F_GTP, NH_F_MPLS,
    NH_F_SRV6, NH_F_VXLAN, STAT_DROP, STAT_L3V4_FORWARD, STAT_L3V6_FORWARD, STAT_L3_LOCAL,
    STAT_MPLS_SWAP, XDP_META_MAGIC, XDP_META_MAGIC_DX,
};
use crate::wire::{
    ETH_P_IP, ETH_P_IPV6, ETH_P_MPLS_UC, IP6_DST_OFF, IP6_HOP_OFF, IP6_SRC_OFF, IP_DST_OFF,
    IP_SRC_OFF, IP_TTL_OFF, MPLS_LSE_OFF,
};
use crate::words;

verus! {

// -------------------------------- IPv4 --------------------------------------

/// Outcome of a plain IPv4 forward: the TTL charged, its checksum patch
/// asked for, and the kernel left to resolve the neighbor — the gateway, or
/// the destination itself on a connected route. An expiring packet goes to
/// the host stack, which answers it.
#[verifier::opaque]
pub open spec fn plain4(c: TcView, nh: NextHop, dst: [u8; 4], from_ep: u32) -> (TcView, TcAct) {
    let s = c.data;
    if s[22] <= 1 {
        (c, TcAct::Pipe)
    } else {
        let word = bytes::le16(s, 22);
        let c1 = TcView {
            data: s.update(22, (s[22] - 1) as u8),
            fixes: c.fixes.push(
                CsumFix {
                    l4: false,
                    off: 24,
                    from: word as u64,
                    to: (word - 1) as u64,
                    flags: 2,
                },
            ),
            ..c
        };
        let c2 = if from_ep != 0 {
            policy::emitted(
                skb::stat(c1, STAT_L3V4_FORWARD),
                FLOW_FORWARDED,
                FLOW_DIR_EGRESS,
                0,
                0,
            )
        } else {
            policy::emitted(
                skb::stat(c1, STAT_L3V4_FORWARD),
                FLOW_FORWARDED,
                FLOW_DIR_INGRESS,
                nh.oif,
                0,
            )
        };
        (c2, TcAct::Neigh4 { oif: nh.oif, nh4: gateway4(nh, dst) })
    }
}

/// The nexthop as a route reaches it: a connected route has no gateway, so that
/// the neighbor is the packet's destination.
pub open spec fn reached(nh: NextHop, fe: FibEntry) -> NextHop {
    if fe.flags & FIB_F_CONNECTED != 0 {
        NextHop { gateway_v4: 0, gateway_v6: bytes::zeros16(), ..nh }
    } else {
        nh
    }
}

fn reach(nh: &NextHop, fe: &FibEntry) -> (r: NextHop)
    ensures
        r == reached(*nh, *fe),
{
    if fe.flags & FIB_F_CONNECTED != 0 {
        NextHop { gateway_v4: 0, gateway_v6: bytes::zero16(), ..*nh }
    } else {
        *nh
    }
}

/// The octets of the neighbor a packet to `dst` is sent to.
pub open spec fn gateway4(nh: NextHop, dst: [u8; 4]) -> [u8; 4] {
    if nh.gateway_v4 != 0 {
        bytes::oct4(bytes::be32_bytes(nh.gateway_v4), 0)
    } else {
        dst
    }
}

/// Outcome of sending an IPv4 packet to its nexthop: by the encapsulation the
/// nexthop imposes, else a plain forward.
#[verifier::opaque]
pub open spec fn sent4(
    t: &Tables,
    c: TcView,
    nh_id: u32,
    nh: NextHop,
    fe: FibEntry,
    dst: [u8; 4],
    from_ep: u32,
) -> (TcView, Result<TcAct, ()>) {
    let ttl = c.data[22];
    if nh.flags & NH_F_SRV6 != 0 {
        if ttl <= 1 {
            (c, Ok(TcAct::Pipe))
        } else {
            impose::srv6_encapped(t, c, nh_id, nh, ETH_P_IP)
        }
    } else if nh.flags & NH_F_GTP != 0 {
        impose::gtp_encapped(t, c, nh_id, nh)
    } else if nh.flags & NH_F_VXLAN != 0 {
        impose::vxlan_l3_encapped(t, c, nh_id, nh, ETH_P_IP)
    } else if nh.flags & NH_F_MPLS != 0 && nh.num_labels > 0 {
        if ttl <= 1 {
            (c, Ok(TcAct::Pipe))
        } else {
            impose::labelled(t, c, nh, ttl)
        }
    } else {
        impose::done(plain4(c, reached(nh, fe), dst, from_ep))
    }
}

/// Outcome of forwarding an IPv4 packet by a route.
#[verifier::opaque]
pub open spec fn by_route4(t: &Tables, c: TcView, fe: FibEntry, dst: [u8; 4], from_ep: u32) -> (
    TcView,
    Result<TcAct, ()>,
) {
    if fe.flags & FIB_F_BLACKHOLE != 0 {
        (skb::stat(c, STAT_DROP), Ok(TcAct::Shot))
    } else if fe.flags & FIB_F_LOCAL != 0 {
        (skb::stat(c, STAT_L3_LOCAL), Ok(TcAct::Pipe))
    } else {
        let id = if fe.flags & FIB_F_ECMP != 0 {
            fib::ecmp(
                t,
                fe.nexthop_id,
                fib::hash4(c.data, bytes::le32(c.data, 26), bytes::le32(dst@, 0)),
            )
        } else {
            Some(fe.nexthop_id)
        };
        match id {
            None => (c, Ok(TcAct::Pipe)),
            Some(id) => {
                let (c1, r) = fib::resolved(t, c, id);
                match r {
                    None => (c1, Err(())),
                    Some((nh_id, nh)) => sent4(t, c1, nh_id, nh, fe, dst, from_ep),
                }
            },
        }
    }
}

/// The VRF a lookup is made in: the port's binding wins, else the context a
/// decapsulation attached.
pub open spec fn lookup_vrf(t: &Tables, c: TcView, port_vrf: u32) -> u32 {
    if port_vrf != 0 {
        port_vrf
    } else {
        fib::meta_or_zero(t, c.meta, XDP_META_MAGIC)
    }
}

/// Outcome of forwarding an IPv4 packet: a cross-connect hand-off, else
/// egress policy, the route lookup and the route.
#[verifier::opaque]
pub open spec fn forwarded4(t: &Tables, c: TcView, port_vrf: u32, from_ep: u32) -> (
    TcView,
    Result<TcAct, ()>,
) {
    let dx = fib::meta_or_zero(t, c.meta, XDP_META_MAGIC_DX);
    if dx != 0 {
        let (c1, r) = fib::resolved(t, c, dx);
        match r {
            Some((_, nh)) => impose::done(fib::xmitted(t, c1, nh, ETH_P_IP)),
            None => (c1, Ok(TcAct::Pipe)),
        }
    } else {
        let (c1, drop) = policy::egress4(t, c, from_ep, port_vrf);
        if drop {
            (c1, Ok(TcAct::Shot))
        } else if c1.data.len() < 34 {
            (c1, Err(()))
        } else {
            let dst = bytes::oct4(c1.data, 30);
            let (c2, fe) = fib::route4(t, c1, lookup_vrf(t, c1, port_vrf), dst);
            match fe {
                None => (c2, Ok(TcAct::Pipe)),
                Some(fe) => by_route4(t, c2, fe, dst, from_ep),
            }
        }
    }
}

fn forward_plain4(c: &mut Tc, nh: &NextHop, dst: [u8; 4], from_ep: u32) -> (r: TcAct)
    requires
        old(c)@.data.len() >= 34,
    ensures
        (final(c)@, r) == plain4(old(c)@, *nh, dst, from_ep),
{
    reveal(plain4);
    let ttl: u8 = c.data[22];
    if ttl <= 1 {
        return TcAct::Pipe;
    }
    let old_word: u16 = (c.data[23] as u16) * 256 + c.data[22] as u16;
    let new_word: u16 = old_word - 1;
    let word = bytes::to_le16(new_word);
    let ghost s = c@.data;
    c.store(IP_TTL_OFF, word.as_slice());
    assert(c@.data =~= s.update(22, (s[22] - 1) as u8));
    let _ = c.csum_replace(
        CsumFix { l4: false, off: 24, from: old_word as u64, to: new_word as u64, flags: 2 },
    );
    let nh_octets: [u8; 4] = if nh.gateway_v4 != 0 {
        let b = bytes::to_be32(nh.gateway_v4);
        assert(b =~= bytes::oct4(bytes::be32_bytes(nh.gateway_v4), 0));
        b
    } else {
        dst
    };
    c.stat_inc(STAT_L3V4_FORWARD);
    if from_ep != 0 {
        policy::emit_flow_v4(c, FLOW_FORWARDED, FLOW_DIR_EGRESS, 0, 0);
    } else {
        policy::emit_flow_v4(c, FLOW_FORWARDED, FLOW_DIR_INGRESS, nh.oif, 0);
    }
    TcAct::Neigh4 { oif: nh.oif, nh4: nh_octets }
}

fn send_v4(
    t: &Tables,
    c: &mut Tc,
    nh_id: u32,
    nh: &NextHop,
    fe: &FibEntry,
    dst: [u8; 4],
    from_ep: u32,
) -> (r: Result<TcAct, ()>)
    requires
        old(c)@.data.len() >= 34,
    ensures
        (final(c)@, r) == sent4(t, old(c)@, nh_id, *nh, *fe, dst, from_ep),
{
    reveal(sent4);
    let ttl: u8 = c.data[22];
    if nh.flags & NH_F_SRV6 != 0 {
        if ttl <= 1 {
            return Ok(TcAct::Pipe);
        }
        return impose::srv6_encap(t, c, nh_id, nh, ETH_P_IP);
    }
    if nh.flags & NH_F_GTP != 0 {
        return impose::gtp_encap(t, c, nh_id, nh);
    }
    if nh.flags & NH_F_VXLAN != 0 {
        return impose::vxlan_l3_encap(t, c, nh_id, nh, ETH_P_IP);
    }
    if nh.flags & NH_F_MPLS != 0 && nh.num_labels > 0 {
        if ttl <= 1 {
            return Ok(TcAct::Pipe);
        }
        return impose::mpls_push(t, c, nh, ttl);
    }
    Ok(forward_plain4(c, &reach(nh, fe), dst, from_ep))
}

fn route_v4(t: &Tables, c: &mut Tc, fe: FibEntry, dst: [u8; 4], from_ep: u32) -> (r: Result<
    TcAct,
    (),
>)
    requires
        old(c)@.data.len() >= 34,
    ensures
        (final(c)@, r) == by_route4(t, old(c)@, fe, dst, from_ep),
{
    reveal(by_route4);
    if fe.flags & FIB_F_BLACKHOLE != 0 {
        c.stat_inc(STAT_DROP);
        return Ok(TcAct::Shot);
    }
    if fe.flags & FIB_F_LOCAL != 0 {
        c.stat_inc(STAT_L3_LOCAL);
        return Ok(TcAct::Pipe);
    }
    let nh_id: u32 = if fe.flags & FIB_F_ECMP != 0 {
        let src: u32 = bytes::ld_le32(&c.data, IP_SRC_OFF)?;
        let dst_word: u32 = bytes::from_le4(&dst);
        let h: u32 = fib::flow_hash_v4(&c.data, src, dst_word);
        match fib::ecmp_member(t, fe.nexthop_id, h) {
            Some(id) => id,
            None => {
                return Ok(TcAct::Pipe);
            },
        }
    } else {
        fe.nexthop_id
    };
    proof {
        reveal(fib::resolved);
    }
    match fib::resolve_nh(t, c, nh_id) {
        Some((id, nh)) => send_v4(t, c, id, &nh, &fe, dst, from_ep),
        None => Err(()),
    }
}

/// Forward an IPv4 packet.
pub(crate) fn l3_forward_v4(t: &Tables, c: &mut Tc, port_vrf: u32, from_ep: u32) -> (r: Result<TcAct, ()>)
    requires
        old(c)@.data.len() >= 14,
    ensures
        (final(c)@, r) == forwarded4(t, old(c)@, port_vrf, from_ep),
{
    reveal(forwarded4);
    let dx_nh: u32 = fib::tc_meta_or_zero(t, &c.meta, XDP_META_MAGIC_DX);
    if dx_nh != 0 {
        proof {
            reveal(fib::resolved);
        }
        return match fib::resolve_nh(t, c, dx_nh) {
            Some((_, nh)) => Ok(fib::l2_xmit(t, c, &nh, ETH_P_IP)),
            None => Ok(TcAct::Pipe),
        };
    }
    if policy::egress_policy_v4(t, c, from_ep, port_vrf) {
        return Ok(TcAct::Shot);
    }
    let dst: [u8; 4] = bytes::ld4(&c.data, IP_DST_OFF)?;
    let vrf_id: u32 = if port_vrf != 0 {
        port_vrf
    } else {
        fib::tc_meta_or_zero(t, &c.meta, XDP_META_MAGIC)
    };
    proof {
        reveal(fib::route4);
    }
    match fib::fib4_lookup(t, c, vrf_id, dst) {
        Some(fe) => route_v4(t, c, fe, dst, from_ep),
        None => Ok(TcAct::Pipe),
    }
}

// -------------------------------- IPv6 --------------------------------------

/// Outcome of a plain IPv6 forward: the hop limit charged (there is no header
/// checksum) and the kernel left to resolve the neighbor.
#[verifier::opaque]
pub open spec fn plain6(c: TcView, nh: NextHop, dst: [u8; 16]) -> (TcView, TcAct) {
    let s = c.data;
    if s[21] <= 1 {
        (c, TcAct::Pipe)
    } else {
        (
            skb::stat(
                skb::with_data(c, s.update(21, (s[21] - 1) as u8)),
                STAT_L3V6_FORWARD,
            ),
            TcAct::Neigh6 { oif: nh.oif, nh6: gateway6(nh, dst) },
        )
    }
}

/// The neighbor a packet to `dst` is sent to.
pub open spec fn gateway6(nh: NextHop, dst: [u8; 16]) -> [u8; 16] {
    if nh.gateway_v6 != bytes::zeros16() {
        nh.gateway_v6
    } else {
        dst
    }
}

/// Outcome of sending an IPv6 packet to its nexthop.
#[verifier::opaque]
pub open spec fn sent6(
    t: &Tables,
    c: TcView,
    nh_id: u32,
    nh: NextHop,
    fe: FibEntry,
    dst: [u8; 16],
) -> (TcView, Result<TcAct, ()>) {
    let hop = c.data[21];
    if nh.flags & NH_F_SRV6 != 0 {
        if hop <= 1 {
            (c, Ok(TcAct::Pipe))
        } else {
            impose::srv6_encapped(t, c, nh_id, nh, ETH_P_IPV6)
        }
    } else if nh.flags & NH_F_GTP != 0 {
        impose::gtp_encapped(t, c, nh_id, nh)
    } else if nh.flags & NH_F_VXLAN != 0 {
        impose::vxlan_l3_encapped(t, c, nh_id, nh, ETH_P_IPV6)
    } else if nh.flags & NH_F_MPLS != 0 && nh.num_labels > 0 {
        if hop <= 1 {
            (c, Ok(TcAct::Pipe))
        } else {
            impose::labelled(t, c, nh, hop)
        }
    } else {
        impose::done(plain6(c, reached(nh, fe), dst))
    }
}

/// Outcome of forwarding an IPv6 packet by a route.
#[verifier::opaque]
pub open spec fn by_route6(t: &Tables, c: TcView, fe: FibEntry, dst: [u8; 16]) -> (
    TcView,
    Result<TcAct, ()>,
) {
    if fe.flags & FIB_F_BLACKHOLE != 0 {
        (skb::stat(c, STAT_DROP), Ok(TcAct::Shot))
    } else if fe.flags & FIB_F_LOCAL != 0 {
        (skb::stat(c, STAT_L3_LOCAL), Ok(TcAct::Pipe))
    } else {
        let id = if fe.flags & FIB_F_ECMP != 0 {
            fib::ecmp(t, fe.nexthop_id, fib::hash6(c.data, bytes::oct16(c.data, 22), dst))
        } else {
            Some(fe.nexthop_id)
        };
        match id {
            None => (c, Ok(TcAct::Pipe)),
            Some(id) => {
                let (c1, r) = fib::resolved(t, c, id);
                match r {
                    None => (c1, Err(())),
                    Some((nh_id, nh)) => sent6(t, c1, nh_id, nh, fe, dst),
                }
            },
        }
    }
}

/// Outcome of forwarding an IPv6 packet. A local SID pre-empts the FIB: the
/// packet goes to the host stack rather than being forwarded by its outer
/// destination.
#[verifier::opaque]
pub open spec fn forwarded6(t: &Tables, c: TcView, port_vrf: u32, from_ep: u32) -> (
    TcView,
    Result<TcAct, ()>,
) {
    let dx = fib::meta_or_zero(t, c.meta, XDP_META_MAGIC_DX);
    if dx != 0 {
        let (c1, r) = fib::resolved(t, c, dx);
        match r {
            Some((_, nh)) => impose::done(fib::xmitted(t, c1, nh, ETH_P_IPV6)),
            None => (c1, Ok(TcAct::Pipe)),
        }
    } else {
        let (c1, drop) = policy::egress6(t, c, from_ep, port_vrf);
        if drop {
            (c1, Ok(TcAct::Shot))
        } else if c1.data.len() < 54 {
            (c1, Err(()))
        } else {
            let dst = bytes::oct16(c1.data, 38);
            if lpm::matched(t.srv6_localsid@, dst@) is Some {
                (c1, Ok(TcAct::Pipe))
            } else {
                let (c2, fe) = fib::route6(t, c1, lookup_vrf(t, c1, port_vrf), dst);
                match fe {
                    None => (c2, Ok(TcAct::Pipe)),
                    Some(fe) => by_route6(t, c2, fe, dst),
                }
            }
        }
    }
}

fn forward_plain6(c: &mut Tc, nh: &NextHop, dst: [u8; 16]) -> (r: TcAct)
    requires
        old(c)@.data.len() >= 54,
    ensures
        (final(c)@, r) == plain6(old(c)@, *nh, dst),
{
    reveal(plain6);
    let hop: u8 = c.data[21];
    if hop <= 1 {
        return TcAct::Pipe;
    }
    let new_hop: [u8; 1] = [hop - 1];
    let ghost s = c@.data;
    c.store(IP6_HOP_OFF, new_hop.as_slice());
    assert(c@.data =~= s.update(21, (s[21] - 1) as u8));
    let nh6: [u8; 16] = if !bytes::same16(&nh.gateway_v6, &bytes::zero16()) {
        nh.gateway_v6
    } else {
        dst
    };
    c.stat_inc(STAT_L3V6_FORWARD);
    TcAct::Neigh6 { oif: nh.oif, nh6 }
}

fn send_v6(
    t: &Tables,
    c: &mut Tc,
    nh_id: u32,
    nh: &NextHop,
    fe: &FibEntry,
    dst: [u8; 16],
) -> (r: Result<TcAct, ()>)
    requires
        old(c)@.data.len() >= 54,
    ensures
        (final(c)@, r) == sent6(t, old(c)@, nh_id, *nh, *fe, dst),
{
    reveal(sent6);
    let hop: u8 = c.data[21];
    if nh.flags & NH_F_SRV6 != 0 {
        if hop <= 1 {
            return Ok(TcAct::Pipe);
        }
        return impose::srv6_encap(t, c, nh_id, nh, ETH_P_IPV6);
    }
    if nh.flags & NH_F_GTP != 0 {
        return impose::gtp_encap(t, c, nh_id, nh);
    }
    if nh.flags & NH_F_VXLAN != 0 {
        return impose::vxlan_l3_encap(t, c, nh_id, nh, ETH_P_IPV6);
    }
    if nh.flags & NH_F_MPLS != 0 && nh.num_labels > 0 {
        if hop <= 1 {
            return Ok(TcAct::Pipe);
        }
        return impose::mpls_push(t, c, nh, hop);
    }
    Ok(forward_plain6(c, &reach(nh, fe), dst))
}

fn route_v6(t: &Tables, c: &mut Tc, fe: FibEntry, dst: [u8; 16]) -> (r: Result<TcAct, ()>)
    requires
        old(c)@.data.len() >= 54,
    ensures
        (final(c)@, r) == by_route6(t, old(c)@, fe, dst),
{
    reveal(by_route6);
    if fe.flags & FIB_F_BLACKHOLE != 0 {
        c.stat_inc(STAT_DROP);
        return Ok(TcAct::Shot);
    }
    if fe.flags & FIB_F_LOCAL != 0 {
        c.stat_inc(STAT_L3_LOCAL);
        return Ok(TcAct::Pipe);
    }
    let nh_id: u32 = if fe.flags & FIB_F_ECMP != 0 {
        let src: [u8; 16] = bytes::ld16(&c.data, IP6_SRC_OFF)?;
        let h: u32 = fib::flow_hash_v6(&c.data, &src, &dst);
        match fib::ecmp_member(t, fe.nexthop_id, h) {
            Some(id) => id,
            None => {
                return Ok(TcAct::Pipe);
            },
        }
    } else {
        fe.nexthop_id
    };
    proof {
        reveal(fib::resolved);
    }
    match fib::resolve_nh(t, c, nh_id) {
        Some((id, nh)) => send_v6(t, c, id, &nh, &fe, dst),
        None => Err(()),
    }
}

/// Forward an IPv6 packet.
pub(crate) fn l3_forward_v6(t: &Tables, c: &mut Tc, port_vrf: u32, from_ep: u32) -> (r: Result<TcAct, ()>)
    requires
        old(c)@.data.len() >= 14,
    ensures
        (final(c)@, r) == forwarded6(t, old(c)@, port_vrf, from_ep),
{
    reveal(forwarded6);
    let dx_nh: u32 = fib::tc_meta_or_zero(t, &c.meta, XDP_META_MAGIC_DX);
    if dx_nh != 0 {
        proof {
            reveal(fib::resolved);
        }
        return match fib::resolve_nh(t, c, dx_nh) {
            Some((_, nh)) => Ok(fib::l2_xmit(t, c, &nh, ETH_P_IPV6)),
            None => Ok(TcAct::Pipe),
        };
    }
    if policy::egress_policy_v6(t, c, from_ep, port_vrf) {
        return Ok(TcAct::Shot);
    }
    let dst: [u8; 16] = bytes::ld16(&c.data, IP6_DST_OFF)?;
    if t.srv6_localsid.get(dst.as_slice()).is_some() {
        return Ok(TcAct::Pipe);
    }
    let vrf_id: u32 = if port_vrf != 0 {
        port_vrf
    } else {
        fib::tc_meta_or_zero(t, &c.meta, XDP_META_MAGIC)
    };
    proof {
        reveal(fib::route6);
    }
    match fib::fib6_lookup(t, c, vrf_id, dst) {
        Some(fe) => route_v6(t, c, fe, dst),
        None => Ok(TcAct::Pipe),
    }
}

// -------------------------------- MPLS --------------------------------------

/// Outcome of forwarding an MPLS frame in TC: a single-label swap in place,
/// everything else left to the host stack.
#[verifier::opaque]
pub open spec fn swapped(t: &Tables, c: TcView) -> (TcView, Result<TcAct, ()>) {
    if c.data.len() < 18 {
        (c, Err(()))
    } else {
        let (label, tc, s, ttl) = words::lse_fields(bytes::be32(c.data, 14));
        if ttl <= 1 {
            (c, Ok(TcAct::Pipe))
        } else {
            match t.mpls_fib@.get(label) {
                None => (c, Ok(TcAct::Pipe)),
                Some(ent) => match t.nexthops@.get(ent.nexthop_id) {
                    None => (c, Err(())),
                    Some(nh) => if ent.op == MPLS_OP_SWAP && nh.num_labels == 1 {
                        let lse = words::lse_value(
                            nh.labels[0] as int,
                            tc as int,
                            s as int,
                            ttl - 1,
                        ) as u32;
                        let c1 = skb::with_data(
                            c,
                            bytes::splice(c.data, 14, bytes::be32_bytes(lse)),
                        );
                        impose::done(
                            fib::xmitted(t, skb::stat(c1, STAT_MPLS_SWAP), nh, ETH_P_MPLS_UC),
                        )
                    } else {
                        (c, Ok(TcAct::Pipe))
                    },
                },
            }
        }
    }
}

/// Forward an MPLS frame: look up the top label in the incoming-label map and
/// swap it in place. Operations that resize the frame belong to the XDP
/// stage; a frame reaching here for those punts, as do unknown labels and TTL
/// expiry.
pub fn mpls_forward(t: &Tables, c: &mut Tc) -> (r: Result<TcAct, ()>)
    ensures
        (final(c)@, r) == swapped(t, old(c)@),
{
    reveal(swapped);
    let lse: u32 = bytes::ld_be32(&c.data, MPLS_LSE_OFF)?;
    let (label, tc, s, ttl) = words::mpls_lse_unpack(lse);
    if ttl <= 1 {
        return Ok(TcAct::Pipe);
    }
    let ent: MplsEntry = match t.mpls_fib.get(&label) {
        Some(e) => e,
        None => {
            return Ok(TcAct::Pipe);
        },
    };
    let nh: NextHop = match t.nexthops.get(&ent.nexthop_id) {
        Some(n) => n,
        None => {
            return Err(());
        },
    };
    if ent.op == MPLS_OP_SWAP && nh.num_labels == 1 {
        let new_lse = bytes::to_be32(words::mpls_lse(nh.labels[0], tc, s, ttl - 1));
        c.store(MPLS_LSE_OFF, new_lse.as_slice());
        c.stat_inc(STAT_MPLS_SWAP);
        Ok(fib::l2_xmit(t, c, &nh, ETH_P_MPLS_UC))
    } else {
        Ok(TcAct::Pipe)
    }
}

// ------------------------------- dispatch -----------------------------------

/// Outcome of L3 forwarding, by EtherType; ARP and the rest go to the stack.
pub open spec fn forwarded(t: &Tables, c: TcView, port_vrf: u32, from_ep: u32) -> (
    TcView,
    Result<TcAct, ()>,
) {
    if c.data.len() < 14 {
        (c, Err(()))
    } else {
        let et = bytes::be16(c.data, 12);
        if et == ETH_P_IP {
            forwarded4(t, c, port_vrf, from_ep)
        } else if et == ETH_P_IPV6 {
            forwarded6(t, c, port_vrf, from_ep)
        } else if et == ETH_P_MPLS_UC {
            swapped(t, c)
        } else {
            (c, Ok(TcAct::Pipe))
        }
    }
}

/// Forward a frame of a routed port.
pub fn l3_forward(t: &Tables, c: &mut Tc, port_vrf: u32, from_ep: u32) -> (r: Result<TcAct, ()>)
    ensures
        (final(c)@, r) == forwarded(t, old(c)@, port_vrf, from_ep),
{
    let ethertype: u16 = bytes::ld_be16(&c.data, 12)?;
    if ethertype == ETH_P_IP {
        l3_forward_v4(t, c, port_vrf, from_ep)
    } else if ethertype == ETH_P_IPV6 {
        l3_forward_v6(t, c, port_vrf, from_ep)
    } else if ethertype == ETH_P_MPLS_UC {
        mpls_forward(t, c)
    } else {
        Ok(TcAct::Pipe)
    }
}

// -------------------------------- laws --------------------------------------

/// Forwarding charges a hop: a plainly forwarded IPv4 packet had a TTL above
/// 1 and leaves with one less, every other byte unchanged.
pub proof fn forward_charges_ttl(c: TcView, nh: NextHop, dst: [u8; 4], from_ep: u32)
    requires
        c.data.len() >= 34,
        plain4(c, nh, dst, from_ep).1 != TcAct::Pipe,
    ensures
        c.data[22] > 1,
        plain4(c, nh, dst, from_ep).0.data == c.data.update(22, (c.data[22] - 1) as u8),
{
    reveal(plain4);
    reveal(policy::emitted);
}

/// The IPv6 form: one hop charged, every other byte unchanged.
pub proof fn forward_charges_hop_limit(c: TcView, nh: NextHop, dst: [u8; 16])
    requires
        c.data.len() >= 54,
        plain6(c, nh, dst).1 != TcAct::Pipe,
    ensures
        c.data[21] > 1,
        plain6(c, nh, dst).0.data == c.data.update(21, (c.data[21] - 1) as u8),
{
    reveal(plain6);
}

/// A blackhole route drops, whatever its nexthop.
pub proof fn blackhole_drops(t: &Tables, c: TcView, fe: FibEntry, dst: [u8; 4], from_ep: u32)
    requires
        fe.flags & FIB_F_BLACKHOLE != 0,
    ensures
        by_route4(t, c, fe, dst, from_ep) == (
            skb::stat(c, STAT_DROP),
            Ok::<TcAct, ()>(TcAct::Shot),
        ),
{
    reveal(by_route4);
}

/// A blackhole route drops IPv6 packets too.
pub proof fn blackhole_drops_v6(t: &Tables, c: TcView, fe: FibEntry, dst: [u8; 16])
    requires
        fe.flags & FIB_F_BLACKHOLE != 0,
    ensures
        by_route6(t, c, fe, dst) == (skb::stat(c, STAT_DROP), Ok::<TcAct, ()>(TcAct::Shot)),
{
    reveal(by_route6);
}

/// Egress policy precedes routing: a packet its endpoint's policy drops is
/// dropped whether or not a route exists.
pub proof fn egress_drop_precedes_routing(t: &Tables, c: TcView, port_vrf: u32, from_ep: u32)
    requires
        fib::meta_or_zero(t, c.meta, XDP_META_MAGIC_DX) == 0,
    ensures
        policy::egress4(t, c, from_ep, port_vrf).1 ==> forwarded4(t, c, port_vrf, from_ep).1
            == Ok::<TcAct, ()>(TcAct::Shot),
        policy::egress6(t, c, from_ep, port_vrf).1 ==> forwarded6(t, c, port_vrf, from_ep).1
            == Ok::<TcAct, ()>(TcAct::Shot),
{
    reveal(forwarded4);
    reveal(forwarded6);
}

/// The port's VRF binding wins over decapsulation metadata.
pub proof fn port_vrf_wins(t: &Tables, c: TcView, port_vrf: u32)
    requires
        port_vrf != 0,
    ensures
        lookup_vrf(t, c, port_vrf) == port_vrf,
{
}

/// A connected route sends to the destination itself, whatever gateway its
/// nexthop names.
pub proof fn connected_route_has_no_gateway(nh: NextHop, fe: FibEntry, d4: [u8; 4], d6: [u8; 16])
    requires
        fe.flags & FIB_F_CONNECTED != 0,
    ensures
        gateway4(reached(nh, fe), d4) == d4,
        gateway6(reached(nh, fe), d6) == d6,
{
}

} // verus!
