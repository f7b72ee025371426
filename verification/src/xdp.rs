//! The XDP programs: the overlay stage ahead of the TC pipeline, and the
//! dedicated plain-IPv4 forwarder.

use vstd::prelude::*;
use crate::bfd;
use crate::bytes;
use crate::checksum;
use crate::endpoint;
use crate::endpoint::Step;
use crate::fib;
use crate::frame;
use crate::frame::{Xdp, XdpAct, XdpView};
use crate::label;
use crate::overlay;
use crate::sids;
use crate::tables::Tables;
use crate::types::{
    Dx2vKey, FdbEntry, FibWord, NextHop, ReplTarget, FDB_F_REMOTE, FIB_F_BLACKHOLE, FIB_F_CONNECTED,
    FIB_F_ECMP, FIB_F_LOCAL, MAX_LABELS, NH_F_GTP, NH_F_MPLS, NH_F_SRV6, NH_F_VXLAN, PORT_F_L2,
    REPL_KIND_VXLAN, STAT_SRV6_L2_BUM, STAT_SRV6_L2_ENCAP, STAT_VXLAN_FLOOD, STAT_XDP_L3_FWD,
};
use crate::wire::{
    BFD_CTRL_PORT, BFD_ECHO_PORT, ETH_P_8021Q, ETH_P_IP, ETH_P_IPV6, ETH_P_MPLS_UC, ETH_TYPE_OFF,
    GTP_PORT, IP6_HOP_OFF, IP6_L4_OFF, IP6_NEXTHDR_OFF, IPPROTO_UDP, IP_DST_OFF, IP_PROTO_OFF,
    IP_TTL_OFF, IP_VER_IHL_OFF, L4_OFF, VXLAN_PORT,
};
use crate::words;

verus! {

// ------------------------------ UDP dispatch ---------------------------------

/// Outcome for an IPv4 packet: by the UDP destination port of an option-less
/// packet; everything else is handed up.
#[verifier::opaque]
pub open spec fn udp4_staged(t: &Tables, x: XdpView) -> Step {
    let s = x.data;
    if s.len() < 15 {
        (x, Err(()))
    } else if s[14] % 16 != 5 {
        endpoint::pass(x)
    } else if s.len() < 24 {
        (x, Err(()))
    } else if s[23] != IPPROTO_UDP {
        endpoint::pass(x)
    } else if s.len() < 38 {
        (x, Err(()))
    } else {
        let dport = bytes::be16(s, 36);
        if dport == GTP_PORT {
            overlay::gtp_staged(t, x)
        } else if dport == VXLAN_PORT {
            overlay::vxlan_staged(t, x)
        } else if dport == BFD_ECHO_PORT {
            bfd::reflected4(t, x)
        } else if dport == BFD_CTRL_PORT {
            endpoint::pass(bfd::observed(x, IP_TTL_OFF as int, bfd::CTRL_OFF as int).0)
        } else {
            endpoint::pass(x)
        }
    }
}

/// Route an IPv4 packet to the UDP handler owning its destination port: the
/// GTP-U and VXLAN decapsulations, BFD Echo and BFD control. No-options IPv4
/// only; everything else passes to the TC L3 stage untouched.
pub fn try_udp4_xdp(t: &Tables, x: &mut Xdp) -> (r: Result<XdpAct, ()>)
    ensures
        (final(x)@, r) == udp4_staged(t, old(x)@),
{
    reveal(udp4_staged);
    let ver_ihl: u8 = bytes::ld8(&x.data, IP_VER_IHL_OFF)?;
    if ver_ihl % 16 != 5 {
        return Ok(XdpAct::Pass);
    }
    let proto: u8 = bytes::ld8(&x.data, IP_PROTO_OFF)?;
    if proto != IPPROTO_UDP {
        return Ok(XdpAct::Pass);
    }
    let dport: u16 = bytes::ld_be16(&x.data, L4_OFF + 2)?;
    if dport == GTP_PORT {
        overlay::try_gtp_xdp(t, x)
    } else if dport == VXLAN_PORT {
        overlay::try_vxlan_xdp(t, x)
    } else if dport == BFD_ECHO_PORT {
        bfd::reflect_v4(t, x)
    } else if dport == BFD_CTRL_PORT {
        bfd::observe_ctrl_v4(x);
        Ok(XdpAct::Pass)
    } else {
        Ok(XdpAct::Pass)
    }
}

/// Outcome of BFD over IPv6: `None` for a packet that is no BFD.
#[verifier::opaque]
pub open spec fn bfd6_staged(t: &Tables, x: XdpView) -> (XdpView, Result<Option<XdpAct>, ()>) {
    let s = x.data;
    if s.len() < 21 {
        (x, Err(()))
    } else if s[20] != IPPROTO_UDP {
        (x, Ok(None))
    } else if s.len() < 58 {
        (x, Err(()))
    } else if bytes::be16(s, 56) == BFD_ECHO_PORT {
        let (x1, r) = bfd::reflected6(t, x);
        (
            x1,
            match r {
                Ok(a) => Ok(Some(a)),
                Err(_) => Err(()),
            },
        )
    } else if bytes::be16(s, 56) == BFD_CTRL_PORT {
        (
            bfd::observed(x, IP6_HOP_OFF as int, bfd::CTRL6_OFF as int).0,
            Ok(Some(XdpAct::Pass)),
        )
    } else {
        (x, Ok(None))
    }
}

/// BFD over IPv6 on a base header (no extension headers): `Some(action)` when
/// the frame is BFD Echo (reflect) or control (observe + pass), `None` when it
/// isn't ours so the caller falls through to the SRv6 handler.
pub fn try_bfd6(t: &Tables, x: &mut Xdp) -> (r: Result<Option<XdpAct>, ()>)
    ensures
        (final(x)@, r) == bfd6_staged(t, old(x)@),
{
    reveal(bfd6_staged);
    let nexthdr: u8 = bytes::ld8(&x.data, IP6_NEXTHDR_OFF)?;
    if nexthdr != IPPROTO_UDP {
        return Ok(None);
    }
    let dport: u16 = bytes::ld_be16(&x.data, IP6_L4_OFF + 2)?;
    if dport == BFD_ECHO_PORT {
        let a = bfd::reflect_v6(t, x)?;
        Ok(Some(a))
    } else if dport == BFD_CTRL_PORT {
        bfd::observe_ctrl_v6(x);
        Ok(Some(XdpAct::Pass))
    } else {
        Ok(None)
    }
}

// ----------------------------- overlay dispatch ------------------------------

/// An overlay target reached by the route to it.
pub open spec fn routed_entry(addr: [u8; 16]) -> FdbEntry {
    FdbEntry { oif: 0, flags: FDB_F_REMOTE, remote_sid: addr, last_seen: 0 }
}

/// Outcome for a copy in a replication slot: encapsulated toward the slot's
/// remote PE.
pub open spec fn slot_staged(t: &Tables, x: XdpView, tgt: ReplTarget) -> Step {
    if tgt.kind == REPL_KIND_VXLAN {
        overlay::vxlan_l2_encapped(t, x, routed_entry(tgt.addr), tgt.vni, STAT_VXLAN_FLOOD)
    } else {
        overlay::srv6_l2_encapped(t, x, routed_entry(tgt.addr), STAT_SRV6_L2_BUM)
    }
}

/// The VLAN-scoped cross-connect of a tagged frame: `Err` when the tag is cut
/// off.
pub open spec fn vlan_circuit(t: &Tables, s: Seq<u8>, iif: u32) -> Result<Option<[u8; 16]>, ()> {
    if bytes::be16(s, 12) != ETH_P_8021Q {
        Ok(None)
    } else if s.len() < 16 {
        Err(())
    } else {
        Ok(
            t.xconnect_vlan@.get(
                Dx2vKey {
                    table: iif,
                    vid: (bytes::be16(s, 14) % 0x1000) as u16,
                    _pad: [0u8, 0u8],
                },
            ),
        )
    }
}

/// Outcome for a frame that is bound to no circuit or bridge, by EtherType.
pub open spec fn ethertype_staged(t: &Tables, x: XdpView) -> Step {
    let et = bytes::be16(x.data, 12);
    if et == ETH_P_MPLS_UC {
        label::mpls_staged(t, x, MAX_LABELS + 1)
    } else if et == ETH_P_IPV6 {
        let (x1, r) = bfd6_staged(t, x);
        match r {
            Err(_) => (x1, Err(())),
            Ok(Some(a)) => (x1, Ok(a)),
            Ok(None) => sids::srv6_staged(t, x1),
        }
    } else if et == ETH_P_IP {
        udp4_staged(t, x)
    } else {
        endpoint::pass(x)
    }
}

/// Outcome of the XDP stage. By ingress interface first — a replication slot,
/// a cross-connected circuit (by VLAN, then whole port), a bridged port — then
/// by EtherType.
#[verifier::opaque]
pub open spec fn staged(t: &Tables, x: XdpView) -> Step {
    match t.repl_sid@.get(x.iif) {
        Some(tgt) => slot_staged(t, x, tgt),
        None => if x.data.len() < 14 {
            (x, Err(()))
        } else {
            match vlan_circuit(t, x.data, x.iif) {
                Err(_) => (x, Err(())),
                Ok(Some(sid)) => overlay::srv6_l2_encapped(
                    t,
                    x,
                    routed_entry(sid),
                    STAT_SRV6_L2_ENCAP,
                ),
                Ok(None) => match t.xconnect@.get(x.iif) {
                    Some(sid) => overlay::srv6_l2_encapped(
                        t,
                        x,
                        routed_entry(sid),
                        STAT_SRV6_L2_ENCAP,
                    ),
                    None => match t.ports@.get(x.iif) {
                        Some(p) if p.flags & PORT_F_L2 != 0 => overlay::evpn_staged(t, x, p.vlan),
                        _ => ethertype_staged(t, x),
                    },
                },
            }
        },
    }
}

fn make_entry(addr: [u8; 16]) -> (r: FdbEntry)
    ensures
        r == routed_entry(addr),
{
    FdbEntry { oif: 0, flags: FDB_F_REMOTE, remote_sid: addr, last_seen: 0 }
}

fn find_vlan_circuit(t: &Tables, d: &Vec<u8>, iif: u32) -> (r: Result<Option<[u8; 16]>, ()>)
    requires
        d@.len() >= 14,
    ensures
        r == vlan_circuit(t, d@, iif),
{
    let et: u16 = bytes::ld_be16(d, ETH_TYPE_OFF)?;
    if et != ETH_P_8021Q {
        return Ok(None);
    }
    let tci: u16 = bytes::ld_be16(d, 14)?;
    let key = Dx2vKey { table: iif, vid: tci % 0x1000, _pad: [0u8, 0u8] };
    Ok(t.xconnect_vlan.get(&key))
}

fn stage_by_ethertype(t: &Tables, x: &mut Xdp) -> (r: Result<XdpAct, ()>)
    requires
        old(x)@.data.len() >= 14,
    ensures
        (final(x)@, r) == ethertype_staged(t, old(x)@),
{
    let et: u16 = bytes::ld_be16(&x.data, ETH_TYPE_OFF)?;
    if et == ETH_P_MPLS_UC {
        label::try_mpls_xdp(t, x)
    } else if et == ETH_P_IPV6 {
        match try_bfd6(t, x)? {
            Some(action) => Ok(action),
            None => sids::try_srv6_xdp(t, x),
        }
    } else if et == ETH_P_IP {
        try_udp4_xdp(t, x)
    } else {
        Ok(XdpAct::Pass)
    }
}

/// The XDP stage hosts what resizes frames the TC stage cannot resize or would
/// mis-forward: L2 overlay encapsulation, MPLS pops and multi-label swaps, and
/// the tunnel decapsulations.
pub fn try_xdp(t: &Tables, x: &mut Xdp) -> (r: Result<XdpAct, ()>)
    ensures
        (final(x)@, r) == staged(t, old(x)@),
{
    reveal(staged);
    let iif: u32 = x.iif;
    match t.repl_sid.get(&iif) {
        Some(tgt) => {
            let ent = make_entry(tgt.addr);
            return if tgt.kind == REPL_KIND_VXLAN {
                overlay::l2_vxlan_encap(t, x, &ent, tgt.vni, STAT_VXLAN_FLOOD)
            } else {
                overlay::l2_srv6_encap(t, x, &ent, STAT_SRV6_L2_BUM)
            };
        },
        None => {},
    }
    if x.data.len() < 14 {
        return Err(());
    }
    match find_vlan_circuit(t, &x.data, iif)? {
        Some(sid) => {
            return overlay::l2_srv6_encap(t, x, &make_entry(sid), STAT_SRV6_L2_ENCAP);
        },
        None => {},
    }
    match t.xconnect.get(&iif) {
        Some(sid) => {
            return overlay::l2_srv6_encap(t, x, &make_entry(sid), STAT_SRV6_L2_ENCAP);
        },
        None => {},
    }
    match t.ports.get(&iif) {
        Some(p) => {
            if p.flags & PORT_F_L2 != 0 {
                return overlay::l2_evpn_xdp(t, x, p.vlan);
            }
        },
        None => {},
    }
    stage_by_ethertype(t, x)
}

/// A verdict, "hand up" when there is none.
pub open spec fn or_pass(r: Result<XdpAct, ()>) -> XdpAct {
    match r {
        Ok(a) => a,
        Err(_) => XdpAct::Pass,
    }
}

/// The XDP program: a frame the stage cannot read is handed up.
pub fn cradle_xdp(t: &Tables, x: &mut Xdp) -> (r: XdpAct)
    ensures
        final(x)@ == staged(t, old(x)@).0,
        r == or_pass(staged(t, old(x)@).1),
{
    match try_xdp(t, x) {
        Ok(a) => a,
        Err(_) => XdpAct::Pass,
    }
}

// --------------------------- plain IPv4 forwarder ----------------------------

/// Whether a slot's route is a plain unicast forward.
pub open spec fn plain_route(flags: u32) -> bool {
    flags & (FIB_F_BLACKHOLE | FIB_F_LOCAL | FIB_F_ECMP) == 0
}

/// The Ethernet addresses of a plain forward to `dst`: toward the nexthop's
/// gateway or, on a connected route, toward `dst` itself.
pub open spec fn plain_l2(t: &Tables, nh: NextHop, flags: u32, dst: [u8; 4]) -> Option<
    ([u8; 6], [u8; 6]),
> {
    if flags & FIB_F_CONNECTED != 0 {
        fib::link4_of(t, nh.oif, bytes::be32(dst@, 0))
    } else {
        fib::l2_of(t, nh)
    }
}

/// The nexthop of a plain forward to `dst` with its Ethernet addresses.
pub open spec fn plain_nexthop(t: &Tables, dst: [u8; 4]) -> Option<(NextHop, [u8; 6], [u8; 6])> {
    match fib::dir24(t, dst) {
        Some((w, _)) if plain_route(words::fibw_fields(w).1) => match t.nexthops@.get(
            words::fibw_fields(w).0,
        ) {
            Some(nh) if nh.flags & (NH_F_MPLS | NH_F_SRV6 | NH_F_GTP | NH_F_VXLAN) == 0 => {
                match plain_l2(t, nh, words::fibw_fields(w).1, dst) {
                    Some((d, s)) => Some((nh, d, s)),
                    None => None,
                }
            },
            _ => None,
        },
        _ => None,
    }
}

/// The frame of a plain forward: new Ethernet addresses, one hop charged and
/// the header checksum updated.
pub open spec fn plain_frame(s: Seq<u8>, dst: [u8; 6], src: [u8; 6]) -> Seq<u8> {
    let old_word = bytes::be16(s, 22);
    let hc = checksum::csum16_updated(bytes::be16(s, 24), old_word, (old_word - 256) as u16);
    bytes::splice(
        dst@ + src@ + s.update(22, (s[22] - 1) as u8).skip(12),
        24,
        bytes::be16_bytes(hc),
    )
}

/// Outcome of the plain IPv4 forwarder.
#[verifier::opaque]
pub open spec fn xdp_forwarded4(t: &Tables, x: XdpView) -> Step {
    let s = x.data;
    if s.len() < 34 {
        (x, Err(()))
    } else {
        match plain_nexthop(t, bytes::oct4(s, 30)) {
            None => endpoint::pass(x),
            Some((nh, dst, src)) => if s[22] <= 1 {
                endpoint::pass(x)
            } else {
                (
                    frame::stat(
                        frame::with_data(x, plain_frame(s, dst, src)),
                        STAT_XDP_L3_FWD,
                    ),
                    Ok(XdpAct::Redirect(nh.oif)),
                )
            },
        }
    }
}

fn find_plain_nexthop(t: &Tables, dst: [u8; 4]) -> (r: Option<(NextHop, [u8; 6], [u8; 6])>)
    ensures
        r == plain_nexthop(t, dst),
{
    let w: u32 = match fib::dir24_lookup(t, dst) {
        Some((w, _)) => w,
        None => {
            return None;
        },
    };
    let (nexthop_id, flags) = words::fibw_unpack(w);
    if flags & (FIB_F_BLACKHOLE | FIB_F_LOCAL | FIB_F_ECMP) != 0 {
        return None;
    }
    match t.nexthops.get(&nexthop_id) {
        Some(nh) => {
            if nh.flags & (NH_F_MPLS | NH_F_SRV6 | NH_F_GTP | NH_F_VXLAN) != 0 {
                return None;
            }
            let link = if flags & FIB_F_CONNECTED != 0 {
                fib::resolve_link4(t, nh.oif, bytes::from_be4(&dst))
            } else {
                fib::resolve_l2(t, &nh)
            };
            match link {
                Some((d, s)) => Some((nh, d, s)),
                None => None,
            }
        },
        None => None,
    }
}

/// Forward a plain IPv4 packet entirely in XDP: DIR-24-8 lookup, nexthop and
/// neighbor resolution, a TTL decrement with an incremental IPv4 checksum
/// (RFC 1624), Ethernet rewrite, and redirect. Anything that isn't a plain
/// unicast forward (encap nexthop, local/blackhole/ECMP route, neighbor miss,
/// TTL<=1) passes so the kernel stack handles it. Works for any IHL.
pub fn xdp_l3_forward_v4(t: &Tables, x: &mut Xdp) -> (r: Result<XdpAct, ()>)
    ensures
        (final(x)@, r) == xdp_forwarded4(t, old(x)@),
{
    reveal(xdp_forwarded4);
    let ghost s = x@.data;
    let dst: [u8; 4] = bytes::ld4(&x.data, IP_DST_OFF)?;
    let (nh, dst_mac, src_mac) = match find_plain_nexthop(t, dst) {
        Some(n) => n,
        None => {
            return Ok(XdpAct::Pass);
        },
    };
    let old_word: u16 = bytes::ld_be16(&x.data, IP_TTL_OFF)?;
    if old_word / 256 <= 1 {
        return Ok(XdpAct::Pass);
    }
    let new_word: u16 = old_word - 256;
    let hc: u16 = bytes::ld_be16(&x.data, 24)?;
    let new_hc = bytes::to_be16(checksum::csum16_update(hc, old_word, new_word));
    let ttl: u8 = x.data[22];
    x.store8(IP_TTL_OFF, ttl - 1);
    x.store(24, new_hc.as_slice());
    x.store(0, dst_mac.as_slice());
    x.store(6, src_mac.as_slice());
    assert(x@.data =~= plain_frame(s, dst_mac, src_mac));
    x.stat_inc(STAT_XDP_L3_FWD);
    Ok(XdpAct::Redirect(nh.oif))
}

/// The dedicated, minimal XDP program for plain IPv4 L3 forwarding: everything
/// else (ARP, IPv6, non-plain routes) is passed to the kernel stack.
pub fn cradle_xdp_l3(t: &Tables, x: &mut Xdp) -> (r: XdpAct)
    ensures
        ({
            let plain = old(x)@.data.len() >= 14 && bytes::be16(old(x)@.data, 12) == ETH_P_IP;
            if plain {
                final(x)@ == xdp_forwarded4(t, old(x)@).0 && r == or_pass(
                    xdp_forwarded4(t, old(x)@).1,
                )
            } else {
                final(x)@ == old(x)@ && r == XdpAct::Pass
            }
        }),
{
    match bytes::ld_be16(&x.data, ETH_TYPE_OFF) {
        Ok(et) => {
            if et != ETH_P_IP {
                return XdpAct::Pass;
            }
        },
        Err(_) => {
            return XdpAct::Pass;
        },
    }
    match xdp_l3_forward_v4(t, x) {
        Ok(a) => a,
        Err(_) => XdpAct::Pass,
    }
}

// -------------------------------- laws --------------------------------------

/// A plainly forwarded frame keeps a valid header: its TTL is one less, and a
/// header sum that was a multiple of `0xffff` stays one (`rest` is the sum of
/// the words other than TTL/protocol and checksum).
pub proof fn plain_forward_keeps_checksum(s: Seq<u8>, dst: [u8; 6], src: [u8; 6], rest: int)
    requires
        s.len() >= 34,
        s[22] > 1,
        (rest + bytes::be16(s, 22) + bytes::be16(s, 24)) % 0xffff == 0,
    ensures
        ({
            let d = plain_frame(s, dst, src);
            &&& d[22] == s[22] - 1
            &&& (rest + bytes::be16(d, 22) + bytes::be16(d, 24)) % 0xffff == 0
        }),
{
    let old_word = bytes::be16(s, 22);
    let new_word = (old_word - 256) as u16;
    let hc = checksum::csum16_updated(bytes::be16(s, 24), old_word, new_word);
    checksum::csum16_update_keeps_valid(rest, bytes::be16(s, 24), old_word, new_word);
    let d = plain_frame(s, dst, src);
    let b = bytes::be16_bytes(hc);
    bytes::be16_round_trip(hc);
    assert(d[24] == b[0] && d[25] == b[1]);
    assert(d[22] == s[22] - 1 && d[23] == s[23]);
}

/// A connected route sends to the destination itself: the frame goes to the
/// neighbor under the packet's own destination, whatever gateway the nexthop
/// names, and up where there is none.
pub proof fn connected_route_finds_destination(
    t: &Tables,
    x: XdpView,
    w: FibWord,
    counter: u32,
    nh: NextHop,
)
    requires
        x.data.len() >= 34,
        fib::dir24(t, bytes::oct4(x.data, 30)) == Some((w, counter)),
        plain_route(words::fibw_fields(w).1),
        words::fibw_fields(w).1 & FIB_F_CONNECTED != 0,
        t.nexthops@.get(words::fibw_fields(w).0) == Some(nh),
        nh.flags & (NH_F_MPLS | NH_F_SRV6 | NH_F_GTP | NH_F_VXLAN) == 0,
        x.data[22] > 1,
    ensures
        ({
            let (x1, r) = xdp_forwarded4(t, x);
            match fib::link4_of(t, nh.oif, bytes::be32(x.data, 30)) {
                Some((dst, src)) => {
                    &&& r == Ok::<XdpAct, ()>(XdpAct::Redirect(nh.oif))
                    &&& x1.data == plain_frame(x.data, dst, src)
                },
                None => (x1, r) == endpoint::pass(x),
            }
        }),
{
    reveal(xdp_forwarded4);
    assert(bytes::be32(bytes::oct4(x.data, 30)@, 0) == bytes::be32(x.data, 30));
}

/// A VPWS circuit never bridges: a frame from a bound circuit (and no
/// replication slot) is encapsulated toward its remote SID, its VLAN tag's
/// binding before the port's, whatever the port's mode, and learns nothing.
pub proof fn circuit_never_learns(t: &Tables, x: XdpView, sid: [u8; 16])
    requires
        !t.repl_sid@.contains_key(x.iif),
        x.data.len() >= 14,
        vlan_circuit(t, x.data, x.iif) == Ok::<Option<[u8; 16]>, ()>(Some(sid)) || (vlan_circuit(
            t,
            x.data,
            x.iif,
        ) == Ok::<Option<[u8; 16]>, ()>(None) && t.xconnect@.get(x.iif) == Some(sid)),
    ensures
        staged(t, x).0.fdb == x.fdb,
        staged(t, x) == overlay::srv6_l2_encapped(t, x, routed_entry(sid), STAT_SRV6_L2_ENCAP),
{
    reveal(staged);
    reveal(overlay::srv6_l2_encapped);
}

} // verus!
