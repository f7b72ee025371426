//! Impositions of the TC stage: MPLS push, GTP-U, VXLAN L3 and SRv6
//! encapsulation, and SRv6 insertion.

use vstd::prelude::*;
use crate::bytes;
use crate::checksum;
use crate::fib;
use crate::headers;
use crate::lpm;
use crate::skb;
use crate::skb::{Tc, TcAct, TcView};
use crate::tables::Tables;
use crate::types::{
    GtpEncap, NextHop, Srv6Encap, VxlanEncap, FIB_F_BLACKHOLE, FIB_F_ECMP, FIB_F_LOCAL, MAX_LABELS,
    MAX_SEGS, MPLS_PIPE_TTL, NH_F_MPLS_PIPE, NH_F_SRV6, SRV6_ENCAP_MODE_INSERT, STAT_GTP_ENCAP,
    STAT_MPLS_PUSH, STAT_SRV6_ENCAP, STAT_SRV6_HINSERT, STAT_VXLAN_ENCAP,
};
use crate::wire::{
    ETH_P_IP, ETH_P_IPV6, ETH_P_MPLS_UC, ETH_TYPE_OFF, GTP_PORT, IP6_DST_OFF, IP6_PAYLOAD_LEN_OFF,
    IPPROTO_IPIP, IPPROTO_IPV6, IPPROTO_ROUTING, VXLAN_PORT,
};

verus! {

/// A verdict that always comes.
pub open spec fn done(x: (TcView, TcAct)) -> (TcView, Result<TcAct, ()>) {
    (x.0, Ok(x.1))
}

// --------------------------------- MPLS -------------------------------------

/// Outcome of imposing a nexthop's label stack on an IP packet whose TTL is
/// `ttl`.
#[verifier::opaque]
pub open spec fn labelled(t: &Tables, c: TcView, nh: NextHop, ttl: u8) -> (
    TcView,
    Result<TcAct, ()>,
) {
    let n = nh.num_labels as int;
    let seed = if nh.flags & NH_F_MPLS_PIPE != 0 { MPLS_PIPE_TTL } else { ttl };
    if n == 0 || n > MAX_LABELS {
        (c, Ok(TcAct::Pipe))
    } else if 4 * n > c.room {
        (c, Err(()))
    } else {
        let c1 = skb::grown(c, 14, headers::label_stack(nh.labels, n, 1, seed, n));
        let c2 = skb::with_data(
            c1,
            bytes::splice(c1.data, ETH_TYPE_OFF as int, bytes::be16_bytes(ETH_P_MPLS_UC)),
        );
        done(fib::xmitted(t, skb::stat(c2, STAT_MPLS_PUSH), nh, ETH_P_MPLS_UC))
    }
}

/// Impose the nexthop's out-label stack on an IP packet (ingress LER) and
/// egress it as MPLS. TTL model (RFC 3443): pipe seeds the label TTL with a
/// fixed 255 so the LSP hop count stays hidden from the payload; uniform (the
/// default) seeds it from the inner IP TTL.
pub(crate) fn mpls_push(t: &Tables, c: &mut Tc, nh: &NextHop, ttl: u8) -> (r: Result<TcAct, ()>)
    requires
        old(c)@.data.len() >= 14,
    ensures
        (final(c)@, r) == labelled(t, old(c)@, *nh, ttl),
{
    reveal(labelled);
    let n: usize = nh.num_labels as usize;
    if n == 0 || n > MAX_LABELS {
        return Ok(TcAct::Pipe);
    }
    let seed_ttl: u8 = if nh.flags & NH_F_MPLS_PIPE != 0 {
        MPLS_PIPE_TTL
    } else {
        ttl
    };
    let stack = headers::make_labels(&nh.labels, n, 1, seed_ttl);
    c.grow(14, stack)?;
    let et = bytes::to_be16(ETH_P_MPLS_UC);
    c.store(ETH_TYPE_OFF, et.as_slice());
    c.stat_inc(STAT_MPLS_PUSH);
    Ok(fib::l2_xmit(t, c, nh, ETH_P_MPLS_UC))
}

// --------------------------------- GTP-U ------------------------------------

/// The outer headers of a GTP-U encapsulation of an inner packet of
/// `inner` bytes.
pub open spec fn gtp_outer(enc: GtpEncap, inner: int) -> Seq<u8> {
    checksum::ipv4_outer(bytes::wrap16(inner + 36), enc.src, enc.dst) + headers::udp_hdr(
        GTP_PORT,
        GTP_PORT,
        bytes::wrap16(inner + 16),
    ) + headers::gtp_hdr(bytes::wrap16(inner), enc.teid)
}

/// Outcome of a GTP-U imposition.
#[verifier::opaque]
pub open spec fn gtp_encapped(t: &Tables, c: TcView, nh_id: u32, nh: NextHop) -> (
    TcView,
    Result<TcAct, ()>,
) {
    match t.gtp_encap@.get(nh_id) {
        None => (c, Ok(TcAct::Pipe)),
        Some(enc) => if 36 > c.room {
            (c, Err(()))
        } else {
            let c1 = skb::grown(c, 14, gtp_outer(enc, c.data.len() - 14));
            done(fib::xmitted(t, skb::stat(c1, STAT_GTP_ENCAP), nh, ETH_P_IP))
        },
    }
}

/// `GTP4.E` downlink encap: wrap the inner packet in outer IPv4 + UDP(2152) +
/// an 8-byte GTP-U G-PDU header, then egress via the nexthop's adjacency. UDP
/// checksum left 0 (optional over IPv4).
pub(crate) fn gtp_encap(t: &Tables, c: &mut Tc, nh_id: u32, nh: &NextHop) -> (r: Result<TcAct, ()>)
    requires
        old(c)@.data.len() >= 14,
    ensures
        (final(c)@, r) == gtp_encapped(t, old(c)@, nh_id, *nh),
{
    reveal(gtp_encapped);
    let enc: GtpEncap = match t.gtp_encap.get(&nh_id) {
        Some(e) => e,
        None => {
            return Ok(TcAct::Pipe);
        },
    };
    let len: usize = c.data.len();
    let mut hdr: Vec<u8> = Vec::new();
    checksum::put_ipv4_outer(&mut hdr, bytes::len16(len, 14, 36), enc.src, enc.dst);
    headers::put_udp(&mut hdr, GTP_PORT, GTP_PORT, bytes::len16(len, 14, 16));
    headers::put_gtp(&mut hdr, bytes::len16(len, 14, 0), &enc.teid);
    assert(hdr@ =~= gtp_outer(enc, len - 14));
    c.grow(14, hdr)?;
    c.stat_inc(STAT_GTP_ENCAP);
    Ok(fib::l2_xmit(t, c, nh, ETH_P_IP))
}

// --------------------------------- VXLAN ------------------------------------

/// The headers a symmetric-IRB encapsulation puts between the outer Ethernet
/// header and a routed inner packet of `inner` bytes: outer IPv4, UDP, VXLAN
/// and a fresh inner Ethernet header.
pub open spec fn vxlan_l3_outer(
    src: [u8; 4],
    enc: VxlanEncap,
    local_rmac: [u8; 6],
    inner_et: u16,
    inner: int,
) -> Seq<u8> {
    checksum::ipv4_outer(bytes::wrap16(inner + 50), src, enc.vtep) + headers::udp_hdr(
        VXLAN_PORT,
        VXLAN_PORT,
        bytes::wrap16(inner + 30),
    ) + headers::vxlan_hdr(enc.l3vni) + bytes::eth_hdr(enc.rmac, local_rmac, inner_et)
}

/// Outcome of a symmetric-IRB imposition.
#[verifier::opaque]
pub open spec fn vxlan_l3_encapped(
    t: &Tables,
    c: TcView,
    nh_id: u32,
    nh: NextHop,
    inner_et: u16,
) -> (TcView, Result<TcAct, ()>) {
    match t.vxlan_encap@.get(nh_id) {
        None => (c, Ok(TcAct::Pipe)),
        Some(enc) => match t.vni_info@.get(enc.l3vni) {
            None => (c, Ok(TcAct::Pipe)),
            Some(info) => if t.vxlan_src == [0u8, 0u8, 0u8, 0u8] {
                (c, Ok(TcAct::Pipe))
            } else if 50 > c.room {
                (c, Err(()))
            } else {
                let hdr = vxlan_l3_outer(t.vxlan_src, enc, info.rmac, inner_et, c.data.len() - 14);
                done(
                    fib::xmitted(
                        t,
                        skb::stat(skb::grown(c, 14, hdr), STAT_VXLAN_ENCAP),
                        nh,
                        ETH_P_IP,
                    ),
                )
            },
        },
    }
}

/// EVPN symmetric IRB (RFC 9135): VXLAN-encapsulate a *routed* inner packet
/// toward the remote PE's VTEP with an L3VNI, giving it a fresh inner Ethernet
/// header — dst = the remote PE's router MAC, src = this PE's router MAC for
/// the L3VNI. The pre-existing Ethernet header is reused as the outer one and
/// rewritten on transmit.
pub(crate) fn vxlan_l3_encap(t: &Tables, c: &mut Tc, nh_id: u32, nh: &NextHop, inner_et: u16) -> (r:
    Result<TcAct, ()>)
    requires
        old(c)@.data.len() >= 14,
    ensures
        (final(c)@, r) == vxlan_l3_encapped(t, old(c)@, nh_id, *nh, inner_et),
{
    reveal(vxlan_l3_encapped);
    let enc: VxlanEncap = match t.vxlan_encap.get(&nh_id) {
        Some(e) => e,
        None => {
            return Ok(TcAct::Pipe);
        },
    };
    let local_rmac: [u8; 6] = match t.vni_info.get(&enc.l3vni) {
        Some(i) => i.rmac,
        None => {
            return Ok(TcAct::Pipe);
        },
    };
    let none: [u8; 4] = [0u8, 0u8, 0u8, 0u8];
    if bytes::same4(&t.vxlan_src, &none) {
        return Ok(TcAct::Pipe);
    }
    let len: usize = c.data.len();
    let mut hdr: Vec<u8> = Vec::new();
    checksum::put_ipv4_outer(&mut hdr, bytes::len16(len, 14, 50), t.vxlan_src, enc.vtep);
    headers::put_udp(&mut hdr, VXLAN_PORT, VXLAN_PORT, bytes::len16(len, 14, 30));
    headers::put_vxlan(&mut hdr, enc.l3vni);
    bytes::put_eth(&mut hdr, &enc.rmac, &local_rmac, inner_et);
    assert(hdr@ =~= vxlan_l3_outer(t.vxlan_src, enc, local_rmac, inner_et, len - 14));
    c.grow(14, hdr)?;
    c.stat_inc(STAT_VXLAN_ENCAP);
    Ok(fib::l2_xmit(t, c, nh, ETH_P_IP))
}

// --------------------------------- SRv6 -------------------------------------

/// The next-header value of an inner packet.
pub open spec fn inner_proto(ethertype: u16) -> u8 {
    if ethertype == ETH_P_IPV6 {
        IPPROTO_IPV6
    } else {
        IPPROTO_IPIP
    }
}

/// Whether a segment list has a usable length.
pub open spec fn usable(enc: Srv6Encap) -> bool {
    1 <= enc.num_segs <= MAX_SEGS
}

/// One H.Encaps.Red layer: the outer IPv6 header (+SRH) between the Ethernet
/// header and the packet.
#[verifier::opaque]
pub open spec fn hencapped(t: &Tables, c: TcView, enc: Srv6Encap, ethertype: u16) -> (
    TcView,
    Result<(), ()>,
) {
    let n = enc.num_segs as int;
    let srh = headers::red_srh_len(n);
    if 40 + srh > c.room {
        (c, Err(()))
    } else {
        let hdr = headers::encaps_red(
            bytes::wrap16(c.data.len() - 14 + srh),
            inner_proto(ethertype),
            t.srv6_encap_src,
            enc.segs,
            n,
        );
        (skb::grown(c, 14, hdr), Ok(()))
    }
}

/// Write one H.Encaps layer: grow room at the MAC boundary and store the
/// outer IPv6 header (DA = `segs[0]`) plus, for multi-SID lists, the SRH
/// carrying `segs[1..]` reversed.
pub(crate) fn apply_hencap(t: &Tables, c: &mut Tc, enc: &Srv6Encap, inner_ethertype: u16) -> (r: Result<
    (),
    (),
>)
    requires
        old(c)@.data.len() >= 14,
        usable(*enc),
    ensures
        (final(c)@, r) == hencapped(t, old(c)@, *enc, inner_ethertype),
{
    reveal(hencapped);
    let n: usize = enc.num_segs as usize;
    let proto: u8 = if inner_ethertype == ETH_P_IPV6 {
        IPPROTO_IPV6
    } else {
        IPPROTO_IPIP
    };
    let srh_len: u16 = if n == 1 {
        0
    } else {
        8 + 16 * (n as u16 - 1)
    };
    let payload_len: u16 = bytes::len16(c.data.len(), 14, srh_len);
    let hdr = headers::make_encaps_red(payload_len, proto, &t.srv6_encap_src, &enc.segs, n);
    proof {
        headers::header_lengths(payload_len, proto, t.srv6_encap_src, enc.segs, n as int);
    }
    c.grow(14, hdr)?;
    Ok(())
}

/// Outcome of H.Insert on an IPv6 packet: the hop limit charged, an SRH after
/// the base header with the original destination as its last segment, and the
/// first repair segment as the new destination.
#[verifier::opaque]
pub open spec fn inserted6(t: &Tables, c: TcView, enc: Srv6Encap, nh: NextHop) -> (
    TcView,
    Result<TcAct, ()>,
) {
    let s = c.data;
    let n = enc.num_segs as int;
    if s.len() < 22 {
        (c, Err(()))
    } else if s[21] <= 1 {
        (c, Ok(TcAct::Pipe))
    } else if s.len() < 54 {
        (c, Err(()))
    } else if 8 + 16 * (n + 1) > c.room {
        (c, Err(()))
    } else {
        let data = s.take(18) + bytes::be16_bytes(
            bytes::wrap16(bytes::be16(s, 18) + 8 + 16 * (n + 1)),
        ) + seq![IPPROTO_ROUTING, (s[21] - 1) as u8] + s.subrange(22, 38) + enc.segs[0]@
            + headers::srh_hdr(s[20], n + 1, n) + s.subrange(38, 54) + headers::rev_segs(
            enc.segs,
            0,
            n,
        ) + s.skip(54);
        let c1 = TcView { data, room: (c.room - (8 + 16 * (n + 1))) as usize, ..c };
        done(fib::xmitted(t, skb::stat(c1, STAT_SRV6_HINSERT), nh, ETH_P_IPV6))
    }
}

/// SRv6 H.Insert (TI-LFA repair): insert an SRH into the *existing* IPv6
/// packet — the original destination becomes the SRH's final segment, the
/// repair segments ride above it reversed, and the DA is rewritten to the
/// first repair segment. At the repair path's end the SRH walk restores the
/// original destination. Decrements the hop limit (this is a forward).
pub(crate) fn srv6_insert(t: &Tables, c: &mut Tc, enc: &Srv6Encap, nh: &NextHop) -> (r: Result<TcAct, ()>)
    requires
        usable(*enc),
    ensures
        (final(c)@, r) == inserted6(t, old(c)@, *enc, *nh),
{
    reveal(inserted6);
    let n: usize = enc.num_segs as usize;
    let hop: u8 = bytes::ld8(&c.data, 21)?;
    if hop <= 1 {
        return Ok(TcAct::Pipe);
    }
    let orig_da: [u8; 16] = bytes::ld16(&c.data, IP6_DST_OFF)?;
    let orig_nh: u8 = bytes::ld8(&c.data, 20)?;
    let payload_len: u16 = bytes::ld_be16(&c.data, IP6_PAYLOAD_LEN_OFF)?;
    let srh_len: u16 = 8 + 16 * (n as u16 + 1);
    let mut srh: Vec<u8> = Vec::new();
    headers::put_srh(&mut srh, orig_nh, n as u8 + 1, n as u8);
    bytes::put(&mut srh, orig_da.as_slice());
    headers::put_segs(&mut srh, &enc.segs, 0, n);
    let ghost s = c@.data;
    proof {
        headers::rev_segs_len(enc.segs, 0, n as int);
        assert(orig_da@ =~= s.subrange(38, 54));
    }
    c.grow(54, srh)?;
    let mut fields: Vec<u8> = Vec::new();
    bytes::put_be16(&mut fields, payload_len.wrapping_add(srh_len));
    fields.push(IPPROTO_ROUTING);
    fields.push(hop - 1);
    c.store(IP6_PAYLOAD_LEN_OFF, fields.as_slice());
    c.store(IP6_DST_OFF, enc.segs[0].as_slice());
    proof {
        let len_field = bytes::be16_bytes(
            bytes::wrap16(bytes::be16(s, 18) + 8 + 16 * (n + 1)),
        );
        assert(payload_len.wrapping_add(srh_len) == bytes::wrap16(
            bytes::be16(s, 18) + 8 + 16 * (n + 1),
        ));
        assert(c@.data =~= s.take(18) + len_field + seq![IPPROTO_ROUTING, (s[21] - 1) as u8]
            + s.subrange(22, 38) + enc.segs[0]@ + headers::srh_hdr(s[20], n + 1, n as int)
            + s.subrange(38, 54) + headers::rev_segs(enc.segs, 0, n as int) + s.skip(54));
    }
    c.stat_inc(STAT_SRV6_HINSERT);
    Ok(fib::l2_xmit(t, c, nh, ETH_P_IPV6))
}

/// The segment list a route to `seg` imposes in its turn, if it does.
pub open spec fn second_layer(t: &Tables, c: TcView, seg: [u8; 16]) -> (
    TcView,
    Option<(NextHop, Srv6Encap)>,
) {
    match lpm::matched(t.fib6@, seg@) {
        Some(f) if f.flags & (FIB_F_LOCAL | FIB_F_BLACKHOLE | FIB_F_ECMP) == 0 => {
            let (c1, r) = fib::resolved(t, c, f.nexthop_id);
            match r {
                Some((id, nh)) if nh.flags & NH_F_SRV6 != 0 => match t.srv6_encap@.get(id) {
                    Some(e) if e.mode != SRV6_ENCAP_MODE_INSERT && usable(e) => (
                        c1,
                        Some((nh, e)),
                    ),
                    _ => (c1, None),
                },
                _ => (c1, None),
            }
        },
        _ => (c, None),
    }
}

/// Outcome of an SRv6 imposition: H.Insert, or one H.Encaps layer and — when
/// its destination itself resolves to an H.Encaps route — a second one, sent
/// to that route's nexthop.
#[verifier::opaque]
pub open spec fn srv6_encapped(
    t: &Tables,
    c: TcView,
    nh_id: u32,
    nh: NextHop,
    ethertype: u16,
) -> (TcView, Result<TcAct, ()>) {
    match t.srv6_encap@.get(nh_id) {
        None => (c, Ok(TcAct::Pipe)),
        Some(enc) => if !usable(enc) {
            (c, Ok(TcAct::Pipe))
        } else if enc.mode == SRV6_ENCAP_MODE_INSERT {
            if ethertype != ETH_P_IPV6 {
                (c, Ok(TcAct::Pipe))
            } else {
                inserted6(t, c, enc, nh)
            }
        } else {
            let (c1, r1) = hencapped(t, c, enc, ethertype);
            if r1 is Err {
                (c1, Err(()))
            } else {
                let (c2, more) = second_layer(t, skb::stat(c1, STAT_SRV6_ENCAP), enc.segs[0]);
                match more {
                    None => done(fib::xmitted(t, c2, nh, ETH_P_IPV6)),
                    Some((nh2, enc2)) => {
                        let (c3, r3) = hencapped(t, c2, enc2, ETH_P_IPV6);
                        if r3 is Err {
                            (c3, Err(()))
                        } else {
                            done(
                                fib::xmitted(t, skb::stat(c3, STAT_SRV6_ENCAP), nh2, ETH_P_IPV6),
                            )
                        }
                    },
                }
            }
        },
    }
}

fn find_second_layer(t: &Tables, c: &mut Tc, seg: &[u8; 16]) -> (r: Option<(NextHop, Srv6Encap)>)
    ensures
        (final(c)@, r) == second_layer(t, old(c)@, *seg),
{
    match t.fib6.get(seg.as_slice()) {
        Some(f) => {
            if f.flags & (FIB_F_LOCAL | FIB_F_BLACKHOLE | FIB_F_ECMP) != 0 {
                return None;
            }
            match fib::resolve_nh(t, c, f.nexthop_id) {
                Some((id, nh)) => {
                    if nh.flags & NH_F_SRV6 == 0 {
                        return None;
                    }
                    match t.srv6_encap.get(&id) {
                        Some(e) => {
                            let n: usize = e.num_segs as usize;
                            if e.mode != SRV6_ENCAP_MODE_INSERT && n >= 1 && n <= MAX_SEGS {
                                Some((nh, e))
                            } else {
                                None
                            }
                        },
                        None => None,
                    }
                },
                None => None,
            }
        },
        None => None,
    }
}

/// SRv6 imposition: impose an outer IPv6 header (+SRH) toward the first
/// segment and forward to the underlay nexthop. When the new outer DA itself
/// resolves to an H.Encaps route — the egress-protection retained repair —
/// the second layer is stacked and the packet leaves via that route's nexthop.
pub(crate) fn srv6_encap(t: &Tables, c: &mut Tc, nh_id: u32, nh: &NextHop, inner_ethertype: u16) -> (r:
    Result<TcAct, ()>)
    requires
        old(c)@.data.len() >= 14,
    ensures
        (final(c)@, r) == srv6_encapped(t, old(c)@, nh_id, *nh, inner_ethertype),
{
    reveal(srv6_encapped);
    let enc: Srv6Encap = match t.srv6_encap.get(&nh_id) {
        Some(e) => e,
        None => {
            return Ok(TcAct::Pipe);
        },
    };
    let n: usize = enc.num_segs as usize;
    if n == 0 || n > MAX_SEGS {
        return Ok(TcAct::Pipe);
    }
    if enc.mode == SRV6_ENCAP_MODE_INSERT {
        if inner_ethertype != ETH_P_IPV6 {
            return Ok(TcAct::Pipe);
        }
        return srv6_insert(t, c, &enc, nh);
    }
    apply_hencap(t, c, &enc, inner_ethertype)?;
    proof {
        reveal(hencapped);
        reveal(fib::resolved);
    }
    c.stat_inc(STAT_SRV6_ENCAP);
    match find_second_layer(t, c, &enc.segs[0]) {
        Some((nh2, enc2)) => {
            apply_hencap(t, c, &enc2, ETH_P_IPV6)?;
            c.stat_inc(STAT_SRV6_ENCAP);
            Ok(fib::l2_xmit(t, c, &nh2, ETH_P_IPV6))
        },
        None => Ok(fib::l2_xmit(t, c, nh, ETH_P_IPV6)),
    }
}

} // verus!
