//! Overlays of the XDP stage: EVPN encapsulation of L2 frames (MAC-in-SRv6
//! and VXLAN), and the VXLAN and GTP-U tunnel decapsulations.

use vstd::prelude::*;
use crate::bytes;
use crate::checksum;
use crate::endpoint;
use crate::endpoint::Step;
use crate::fib;
use crate::frame;
use crate::frame::{Xdp, XdpAct, XdpView};
use crate::headers;
use crate::impose;
use crate::lpm;
use crate::tables::Tables;
use crate::types::{
    FdbEntry, FdbKey, FibEntry, GtpEncap, GtpPdr, GtpPdrKey, NextHop, VniInfo, FDB_F_REMOTE,
    FDB_F_VXLAN, FIB_F_BLACKHOLE, FIB_F_ECMP, FIB_F_LOCAL, STAT_DROP, STAT_GTP_DECAP,
    STAT_SRV6_L2_BUM, STAT_SRV6_L2_ENCAP, STAT_VXLAN_DECAP, STAT_VXLAN_ENCAP, STAT_VXLAN_FLOOD,
    VNI_F_L3, XDP_META_MAGIC, XDP_META_MAGIC_L2,
};
use crate::wire::{
    ETH_DST_OFF, ETH_P_IP, ETH_P_IPV6, ETH_SRC_OFF, GTP_INNER_OFF, GTP_PORT, IPPROTO_ETHERNET,
    IPPROTO_UDP, IP_DST_OFF, IP_PROTO_OFF, IP_VER_IHL_OFF, L4_OFF, VXLAN_ENCAP_HDR_LEN,
    VXLAN_HDR_OFF, VXLAN_PORT,
};

verus! {

// ------------------------------ underlay -------------------------------------

/// The underlay nexthop id of an overlay entry: its own, or that of the route
/// to the remote endpoint when that is a plain unicast route.
pub open spec fn underlay_id(own: u32, route: Option<FibEntry>) -> Option<u32> {
    if own != 0 {
        Some(own)
    } else {
        match route {
            Some(f) if f.flags & (FIB_F_ECMP | FIB_F_BLACKHOLE | FIB_F_LOCAL) == 0 => Some(
                f.nexthop_id,
            ),
            _ => None,
        }
    }
}

/// The underlay nexthop of an overlay entry with its Ethernet addresses.
pub open spec fn underlay(t: &Tables, own: u32, route: Option<FibEntry>) -> Option<
    (NextHop, [u8; 6], [u8; 6]),
> {
    match underlay_id(own, route) {
        None => None,
        Some(id) => match t.nexthops@.get(id) {
            None => None,
            Some(nh) => match fib::l2_of(t, nh) {
                None => None,
                Some((dst, src)) => Some((nh, dst, src)),
            },
        },
    }
}

fn find_underlay(t: &Tables, own: u32, route: Option<FibEntry>) -> (r: Option<
    (NextHop, [u8; 6], [u8; 6]),
>)
    ensures
        r == underlay(t, own, route),
{
    let id: u32 = if own != 0 {
        own
    } else {
        match route {
            Some(f) => {
                if f.flags & (FIB_F_ECMP | FIB_F_BLACKHOLE | FIB_F_LOCAL) != 0 {
                    return None;
                }
                f.nexthop_id
            },
            None => {
                return None;
            },
        }
    };
    match t.nexthops.get(&id) {
        Some(nh) => match fib::resolve_l2(t, &nh) {
            Some((dst, src)) => Some((nh, dst, src)),
            None => None,
        },
        None => None,
    }
}

// ------------------------------ MAC-in-SRv6 ----------------------------------

/// The outer headers of a MAC-in-SRv6 frame over an inner frame of `inner`
/// bytes.
pub open spec fn srv6_l2_outer(
    dst: [u8; 6],
    src: [u8; 6],
    src6: [u8; 16],
    sid: [u8; 16],
    inner: int,
) -> Seq<u8> {
    bytes::eth_hdr(dst, src, ETH_P_IPV6) + headers::ip6_hdr(
        bytes::wrap16(inner),
        IPPROTO_ETHERNET,
        64,
        src6,
        sid,
    )
}

/// Outcome of a MAC-in-SRv6 encapsulation: handed up untouched while the
/// underlay does not resolve.
#[verifier::opaque]
pub open spec fn srv6_l2_encapped(t: &Tables, x: XdpView, ent: FdbEntry, idx: u32) -> Step {
    match underlay(t, ent.oif, lpm::matched(t.fib6@, ent.remote_sid@)) {
        None => endpoint::pass(x),
        Some((nh, dst, src)) => if 54 > x.headroom {
            (x, Err(()))
        } else {
            let hdr = srv6_l2_outer(
                dst,
                src,
                t.srv6_encap_src,
                ent.remote_sid,
                x.data.len() as int,
            );
            (
                frame::stat(frame::fronted(x, 0, hdr), idx),
                Ok(XdpAct::Redirect(nh.oif)),
            )
        },
    }
}

/// MAC-in-SRv6 encap: prepend an outer Ethernet + outer IPv6 header
/// (`next_header = 143`, DA = the remote service SID) and redirect out the
/// underlay adjacency — an explicit nexthop id, or the route to the SID. The
/// inner frame is preserved untouched as the IPv6 payload.
pub fn l2_srv6_encap(t: &Tables, x: &mut Xdp, ent: &FdbEntry, idx: u32) -> (r: Result<XdpAct, ()>)
    ensures
        (final(x)@, r) == srv6_l2_encapped(t, old(x)@, *ent, idx),
{
    reveal(srv6_l2_encapped);
    let (nh, dst_mac, src_mac) = match find_underlay(
        t,
        ent.oif,
        t.fib6.get(ent.remote_sid.as_slice()),
    ) {
        Some(u) => u,
        None => {
            return Ok(XdpAct::Pass);
        },
    };
    let inner_len: u16 = bytes::len16(x.data.len(), 0, 0);
    let mut hdr: Vec<u8> = Vec::new();
    bytes::put_eth(&mut hdr, &dst_mac, &src_mac, ETH_P_IPV6);
    headers::put_ip6(
        &mut hdr,
        inner_len,
        IPPROTO_ETHERNET,
        64,
        &t.srv6_encap_src,
        &ent.remote_sid,
    );
    assert(hdr@ =~= srv6_l2_outer(
        dst_mac,
        src_mac,
        t.srv6_encap_src,
        ent.remote_sid,
        x@.data.len() as int,
    ));
    if !x.grow_front(0, hdr) {
        return Err(());
    }
    x.stat_inc(idx);
    Ok(XdpAct::Redirect(nh.oif))
}

// --------------------------------- VXLAN -------------------------------------

/// The VTEP IPv4 of a v4-mapped overlay target.
pub open spec fn vtep_of(a: [u8; 16]) -> [u8; 4] {
    [a[12], a[13], a[14], a[15]]
}

/// UDP source port of a VXLAN frame: the dynamic range, by the inner MACs,
/// for underlay multipath entropy.
pub open spec fn entropy_port(s: Seq<u8>) -> u16 {
    (0xC000 + ((s[0] ^ s[6]) + (s[5] ^ s[11]) * 256) % 0x4000) as u16
}

/// The outer headers of a VXLAN frame over an inner frame of `inner` bytes.
pub open spec fn vxlan_outer(
    dst: [u8; 6],
    src: [u8; 6],
    src4: [u8; 4],
    vtep: [u8; 4],
    sport: u16,
    vni: u32,
    inner: int,
) -> Seq<u8> {
    bytes::eth_hdr(dst, src, ETH_P_IP) + checksum::ipv4_outer(bytes::wrap16(inner + 36), src4, vtep)
        + headers::udp_hdr(sport, VXLAN_PORT, bytes::wrap16(inner + 16)) + headers::vxlan_hdr(vni)
}

/// Outcome of a VXLAN encapsulation.
#[verifier::opaque]
pub open spec fn vxlan_l2_encapped(
    t: &Tables,
    x: XdpView,
    ent: FdbEntry,
    vni: u32,
    idx: u32,
) -> Step {
    let vtep = vtep_of(ent.remote_sid);
    match underlay(t, ent.oif, lpm::matched(t.fib4@, vtep@)) {
        None => endpoint::pass(x),
        Some((nh, dst, src)) => if t.vxlan_src == [0u8, 0u8, 0u8, 0u8] {
            endpoint::pass(x)
        } else if x.data.len() < 12 || 50 > x.headroom {
            (x, Err(()))
        } else {
            let hdr = vxlan_outer(
                dst,
                src,
                t.vxlan_src,
                vtep,
                entropy_port(x.data),
                vni,
                x.data.len() as int,
            );
            (
                frame::stat(frame::fronted(x, 0, hdr), idx),
                Ok(XdpAct::Redirect(nh.oif)),
            )
        },
    }
}

fn local_vtep(t: &Tables) -> (r: bool)
    ensures
        r == (t.vxlan_src != [0u8, 0u8, 0u8, 0u8]),
{
    let none: [u8; 4] = [0u8, 0u8, 0u8, 0u8];
    !bytes::same4(&t.vxlan_src, &none)
}

/// VXLAN encap (RFC 7348): prepend outer Ethernet + IPv4 + UDP(4789) + VXLAN
/// carrying `vni`, toward the remote VTEP the entry names, and redirect out
/// the underlay adjacency. The whole inner frame rides as the VXLAN payload.
/// UDP checksum 0 (optional over IPv4).
pub fn l2_vxlan_encap(t: &Tables, x: &mut Xdp, ent: &FdbEntry, vni: u32, idx: u32) -> (r: Result<
    XdpAct,
    (),
>)
    ensures
        (final(x)@, r) == vxlan_l2_encapped(t, old(x)@, *ent, vni, idx),
{
    reveal(vxlan_l2_encapped);
    let vtep: [u8; 4] = [
        ent.remote_sid[12],
        ent.remote_sid[13],
        ent.remote_sid[14],
        ent.remote_sid[15],
    ];
    assert(vtep =~= vtep_of(ent.remote_sid));
    let (nh, dst_mac, src_mac) = match find_underlay(t, ent.oif, t.fib4.get(vtep.as_slice())) {
        Some(u) => u,
        None => {
            return Ok(XdpAct::Pass);
        },
    };
    if !local_vtep(t) {
        return Ok(XdpAct::Pass);
    }
    let e0: u8 = bytes::ld8(&x.data, 0)? ^ bytes::ld8(&x.data, 6)?;
    let e1: u8 = bytes::ld8(&x.data, 5)? ^ bytes::ld8(&x.data, 11)?;
    let sport: u16 = 0xC000 + (e0 as u16 + (e1 as u16) * 256) % 0x4000;
    let len: usize = x.data.len();
    let mut hdr: Vec<u8> = Vec::new();
    bytes::put_eth(&mut hdr, &dst_mac, &src_mac, ETH_P_IP);
    checksum::put_ipv4_outer(&mut hdr, bytes::len16(len, 0, 36), t.vxlan_src, vtep);
    headers::put_udp(&mut hdr, sport, VXLAN_PORT, bytes::len16(len, 0, 16));
    headers::put_vxlan(&mut hdr, vni);
    assert(hdr@ =~= vxlan_outer(dst_mac, src_mac, t.vxlan_src, vtep, sport, vni, len as int));
    if !x.grow_front(0, hdr) {
        return Err(());
    }
    x.stat_inc(idx);
    Ok(XdpAct::Redirect(nh.oif))
}

// ----------------------------- EVPN dispatch ---------------------------------

/// The bridge domain's BUM tunnel: its all-ones-MAC overlay entry.
pub open spec fn bum_tunnel(fdb: Map<FdbKey, FdbEntry>, bd: u16) -> Option<FdbEntry> {
    match fdb.get(FdbKey { mac: [0xffu8, 0xffu8, 0xffu8, 0xffu8, 0xffu8, 0xffu8], vlan: bd }) {
        Some(e) if e.flags & FDB_F_REMOTE != 0 => Some(e),
        _ => None,
    }
}

/// The overlay entry a frame to `dst` takes and whether it is a flood: group
/// addresses and unknown stations go to the BUM tunnel, a known remote station
/// to its own target; `None` for a local station or a domain without overlay.
pub open spec fn overlay_target(fdb: Map<FdbKey, FdbEntry>, bd: u16, dst: [u8; 6]) -> Option<
    (FdbEntry, bool),
> {
    let bum = match bum_tunnel(fdb, bd) {
        Some(e) => Some((e, true)),
        None => None,
    };
    if dst[0] % 2 != 0 {
        bum
    } else {
        match fdb.get(FdbKey { mac: dst, vlan: bd }) {
            Some(e) => if e.flags & FDB_F_REMOTE == 0 {
                None
            } else {
                Some((e, false))
            },
            None => bum,
        }
    }
}

/// Outcome of tunnelling a frame by its entry's overlay.
#[verifier::opaque]
pub open spec fn tunnelled(t: &Tables, x: XdpView, ent: FdbEntry, bd: u16, bum: bool) -> Step {
    if ent.flags & FDB_F_VXLAN != 0 {
        match t.vlan_vni@.get(bd) {
            None => endpoint::pass(x),
            Some(vni) => vxlan_l2_encapped(
                t,
                x,
                ent,
                vni,
                if bum { STAT_VXLAN_FLOOD } else { STAT_VXLAN_ENCAP },
            ),
        }
    } else {
        srv6_l2_encapped(
            t,
            x,
            ent,
            if bum { STAT_SRV6_L2_BUM } else { STAT_SRV6_L2_ENCAP },
        )
    }
}

/// `x` after learning the source of its frame in `bd` (group addresses are
/// never learned).
pub open spec fn learned(x: XdpView, bd: u16) -> XdpView {
    let src = bytes::oct6(x.data, 6);
    if src[0] % 2 == 0 {
        XdpView {
            fdb: x.fdb.insert(
                FdbKey { mac: src, vlan: bd },
                FdbEntry {
                    oif: x.iif,
                    flags: 0,
                    remote_sid: bytes::zeros16(),
                    last_seen: x.now,
                },
            ),
            ..x
        }
    } else {
        x
    }
}

/// Outcome of the EVPN ingress of an L2 port: the source learned, overlay
/// destinations tunnelled, everything else handed up to the bridge.
#[verifier::opaque]
pub open spec fn evpn_staged(t: &Tables, x: XdpView, bd: u16) -> Step {
    if x.data.len() < 12 {
        (x, Err(()))
    } else {
        let x1 = learned(x, bd);
        match overlay_target(x1.fdb, bd, bytes::oct6(x.data, 0)) {
            None => endpoint::pass(x1),
            Some((ent, bum)) => tunnelled(t, x1, ent, bd, bum),
        }
    }
}

/// The bridge domain's BUM tunnel: the all-ones-MAC FDB entry pointing at the
/// remote flood target. `None` when the domain has no overlay BUM tunnel.
pub fn l2_evpn_bum_tunnel(x: &Xdp, bd: u16) -> (r: Option<FdbEntry>)
    ensures
        r == bum_tunnel(x@.fdb, bd),
{
    let mac: [u8; 6] = [0xffu8, 0xffu8, 0xffu8, 0xffu8, 0xffu8, 0xffu8];
    match x.fdb.get(&FdbKey { mac, vlan: bd }) {
        Some(e) => if e.flags & FDB_F_REMOTE != 0 {
            Some(e)
        } else {
            None
        },
        None => None,
    }
}

/// Tunnel an L2 frame toward the remote PE its FDB entry names, by the
/// entry's overlay flavor: VXLAN (the VNI from the bridge domain's binding) or
/// MAC-in-SRv6. `bum` selects the flood-vs-unicast counter.
pub fn l2_overlay_encap(t: &Tables, x: &mut Xdp, ent: &FdbEntry, bd: u16, bum: bool) -> (r: Result<
    XdpAct,
    (),
>)
    ensures
        (final(x)@, r) == tunnelled(t, old(x)@, *ent, bd, bum),
{
    reveal(tunnelled);
    if ent.flags & FDB_F_VXLAN != 0 {
        match t.vlan_vni.get(&bd) {
            Some(vni) => {
                let idx: u32 = if bum {
                    STAT_VXLAN_FLOOD
                } else {
                    STAT_VXLAN_ENCAP
                };
                l2_vxlan_encap(t, x, ent, vni, idx)
            },
            None => Ok(XdpAct::Pass),
        }
    } else {
        let idx: u32 = if bum {
            STAT_SRV6_L2_BUM
        } else {
            STAT_SRV6_L2_ENCAP
        };
        l2_srv6_encap(t, x, ent, idx)
    }
}

fn find_overlay_target(x: &Xdp, bd: u16, dst: [u8; 6]) -> (r: Option<(FdbEntry, bool)>)
    ensures
        r == overlay_target(x@.fdb, bd, dst),
{
    if dst[0] % 2 == 0 {
        match x.fdb.get(&FdbKey { mac: dst, vlan: bd }) {
            Some(e) => {
                if e.flags & FDB_F_REMOTE == 0 {
                    return None;
                }
                return Some((e, false));
            },
            None => {},
        }
    }
    match l2_evpn_bum_tunnel(x, bd) {
        Some(e) => Some((e, true)),
        None => None,
    }
}

/// EVPN ingress of an L2 port. Learns the source MAC first (frames on a local
/// L2 port belong to local stations). Then, by destination: BUM —
/// broadcast/multicast *and unknown unicast* — is tunneled via the all-ones
/// entry; a known-remote unicast toward its own target. Everything else passes
/// to the TC bridge.
pub fn l2_evpn_xdp(t: &Tables, x: &mut Xdp, bd: u16) -> (r: Result<XdpAct, ()>)
    ensures
        (final(x)@, r) == evpn_staged(t, old(x)@, bd),
{
    reveal(evpn_staged);
    let src: [u8; 6] = bytes::ld6(&x.data, ETH_SRC_OFF)?;
    let dst: [u8; 6] = bytes::ld6(&x.data, ETH_DST_OFF)?;
    if src[0] % 2 == 0 {
        let iif: u32 = x.iif;
        let now: u64 = x.now;
        x.fdb.put(
            FdbKey { mac: src, vlan: bd },
            FdbEntry { oif: iif, flags: 0, remote_sid: bytes::zero16(), last_seen: now },
        );
    }
    match find_overlay_target(x, bd, dst) {
        Some((ent, bum)) => l2_overlay_encap(t, x, &ent, bd, bum),
        None => Ok(XdpAct::Pass),
    }
}

// --------------------------------- GTP-U -------------------------------------

/// The EtherType of a packet by its IP version nibble.
pub open spec fn version_ethertype(b: u8) -> Option<u16> {
    if b / 16 == 4 {
        Some(ETH_P_IP)
    } else if b / 16 == 6 {
        Some(ETH_P_IPV6)
    } else {
        None
    }
}

/// The EtherType of a packet by its IP version nibble.
pub fn ethertype_by_version(b: u8) -> (r: Option<u16>)
    ensures
        r == version_ethertype(b),
{
    if b / 16 == 4 {
        Some(ETH_P_IP)
    } else if b / 16 == 6 {
        Some(ETH_P_IPV6)
    } else {
        None
    }
}

/// The decapsulation rule a received G-PDU matches: plain G-PDU (no optional
/// fields) over option-less IPv4 and UDP 2152, by local endpoint and TEID.
pub open spec fn gtp_rule(t: &Tables, s: Seq<u8>) -> Result<Option<GtpPdr>, ()> {
    if s.len() < 15 {
        Err(())
    } else if s[14] % 16 != 5 {
        Ok(None)
    } else if s.len() < 24 {
        Err(())
    } else if s[23] != IPPROTO_UDP {
        Ok(None)
    } else if s.len() < 38 {
        Err(())
    } else if bytes::be16(s, 36) != GTP_PORT {
        Ok(None)
    } else if s.len() < 44 {
        Err(())
    } else if s[42] % 8 != 0 || s[43] != 0xff {
        Ok(None)
    } else if s.len() < 50 {
        Err(())
    } else {
        Ok(t.gtp_pdr@.get(GtpPdrKey { dst: bytes::oct4(s, 30), teid: bytes::oct4(s, 46) }))
    }
}

/// Outcome of the GTP-U decapsulation.
#[verifier::opaque]
pub open spec fn gtp_staged(t: &Tables, x: XdpView) -> Step {
    let s = x.data;
    match gtp_rule(t, s) {
        Err(_) => (x, Err(())),
        Ok(None) => endpoint::pass(x),
        Ok(Some(pdr)) => if s.len() < 51 {
            (x, Err(()))
        } else {
            match version_ethertype(s[50]) {
                None => endpoint::discard(x),
                Some(et) => {
                    let x1 = frame::stat(
                        frame::with_data(x, s.take(12) + bytes::be16_bytes(et) + s.skip(50)),
                        STAT_GTP_DECAP,
                    );
                    endpoint::in_table(t, x1, pdr.vrf_id)
                },
            }
        },
    }
}

fn find_gtp_rule(t: &Tables, d: &Vec<u8>) -> (r: Result<Option<GtpPdr>, ()>)
    ensures
        r == gtp_rule(t, d@),
{
    let ver_ihl: u8 = bytes::ld8(d, IP_VER_IHL_OFF)?;
    if ver_ihl % 16 != 5 {
        return Ok(None);
    }
    let proto: u8 = bytes::ld8(d, IP_PROTO_OFF)?;
    if proto != IPPROTO_UDP {
        return Ok(None);
    }
    let dport: u16 = bytes::ld_be16(d, L4_OFF + 2)?;
    if dport != GTP_PORT {
        return Ok(None);
    }
    let gflags: u8 = bytes::ld8(d, L4_OFF + 8)?;
    let mtype: u8 = bytes::ld8(d, L4_OFF + 9)?;
    if gflags % 8 != 0 || mtype != 0xff {
        return Ok(None);
    }
    let dst: [u8; 4] = bytes::ld4(d, IP_DST_OFF)?;
    let teid: [u8; 4] = bytes::ld4(d, L4_OFF + 12)?;
    Ok(t.gtp_pdr.get(&GtpPdrKey { dst, teid }))
}

/// GTP-U tunnel decap: match a received G-PDU on its (local outer dst, TEID),
/// strip the 36-byte outer IPv4+UDP+GTP-U, and hand the inner packet to the TC
/// FIB stage, routed in the rule's VRF. A non-matching packet passes for
/// normal forwarding.
pub fn try_gtp_xdp(t: &Tables, x: &mut Xdp) -> (r: Result<XdpAct, ()>)
    ensures
        (final(x)@, r) == gtp_staged(t, old(x)@),
{
    reveal(gtp_staged);
    let ghost s = x@.data;
    let pdr: GtpPdr = match find_gtp_rule(t, &x.data)? {
        Some(p) => p,
        None => {
            return Ok(XdpAct::Pass);
        },
    };
    let version: u8 = bytes::ld8(&x.data, GTP_INNER_OFF)?;
    let et: u16 = match ethertype_by_version(version) {
        Some(e) => e,
        None => {
            x.stat_inc(STAT_DROP);
            return Ok(XdpAct::Drop);
        },
    };
    endpoint::decap_head(x, 36, et)?;
    x.stat_inc(STAT_GTP_DECAP);
    if pdr.vrf_id != 0 {
        return Ok(x.tag(t, XDP_META_MAGIC, pdr.vrf_id));
    }
    Ok(XdpAct::Pass)
}

// ------------------------------ VXLAN decap ----------------------------------

/// The VNI binding of a VXLAN frame addressed to the local VTEP.
pub open spec fn vxlan_binding(t: &Tables, s: Seq<u8>) -> Result<Option<VniInfo>, ()> {
    if t.vxlan_src == [0u8, 0u8, 0u8, 0u8] {
        Ok(None)
    } else if s.len() < 34 {
        Err(())
    } else if bytes::oct4(s, 30) != t.vxlan_src {
        Ok(None)
    } else if s.len() < 43 {
        Err(())
    } else if (s[42] / 8) % 2 == 0 {
        Ok(None)
    } else if s.len() < 50 {
        Err(())
    } else {
        Ok(t.vni_info@.get((bytes::be32(s, 46) / 256) as u32))
    }
}

/// Outcome of the VXLAN decapsulation: the inner frame in front, an L3VNI's
/// routed in its VRF, an L2VNI's bridged in its domain.
#[verifier::opaque]
pub open spec fn vxlan_staged(t: &Tables, x: XdpView) -> Step {
    match vxlan_binding(t, x.data) {
        Err(_) => (x, Err(())),
        Ok(None) => endpoint::pass(x),
        Ok(Some(info)) => if x.data.len() < 64 {
            (x, Err(()))
        } else {
            let x1 = frame::stat(frame::with_data(x, x.data.skip(50)), STAT_VXLAN_DECAP);
            if info.flags & VNI_F_L3 != 0 {
                endpoint::hand_up(t, x1, XDP_META_MAGIC, info.vrf_id)
            } else {
                endpoint::hand_up(t, x1, XDP_META_MAGIC_L2, info.vlan as u32)
            }
        },
    }
}

fn find_vxlan_binding(t: &Tables, d: &Vec<u8>) -> (r: Result<Option<VniInfo>, ()>)
    ensures
        r == vxlan_binding(t, d@),
{
    if !local_vtep(t) {
        return Ok(None);
    }
    let dst: [u8; 4] = bytes::ld4(d, IP_DST_OFF)?;
    if !bytes::same4(&dst, &t.vxlan_src) {
        return Ok(None);
    }
    let flags: u8 = bytes::ld8(d, VXLAN_HDR_OFF)?;
    if (flags / 8) % 2 == 0 {
        return Ok(None);
    }
    let vni: u32 = bytes::ld_be32(d, VXLAN_HDR_OFF + 4)? / 256;
    Ok(t.vni_info.get(&vni))
}

/// VXLAN decap (RFC 7348): a VXLAN frame addressed to the local VTEP is
/// stripped of its 50-byte outer encapsulation — the inner Ethernet frame
/// moves to the front intact — and its VNI's bridge domain (or VRF) rides to
/// the TC stage as metadata. Anything not ours — a *transit* VXLAN packet, an
/// unknown VNI — passes untouched.
pub fn try_vxlan_xdp(t: &Tables, x: &mut Xdp) -> (r: Result<XdpAct, ()>)
    ensures
        (final(x)@, r) == vxlan_staged(t, old(x)@),
{
    reveal(vxlan_staged);
    let info: VniInfo = match find_vxlan_binding(t, &x.data)? {
        Some(i) => i,
        None => {
            return Ok(XdpAct::Pass);
        },
    };
    if !x.shrink_front(VXLAN_ENCAP_HDR_LEN) {
        return Err(());
    }
    x.stat_inc(STAT_VXLAN_DECAP);
    if info.flags & VNI_F_L3 != 0 {
        Ok(x.tag(t, XDP_META_MAGIC, info.vrf_id))
    } else {
        Ok(x.tag(t, XDP_META_MAGIC_L2, info.vlan as u32))
    }
}

// -------------------------------- laws --------------------------------------

/// VXLAN carries frames intact: what a remote VTEP strips from an
/// encapsulated frame is the frame that was encapsulated.
pub proof fn vxlan_decap_undoes_encap(
    dst: [u8; 6],
    src: [u8; 6],
    src4: [u8; 4],
    vtep: [u8; 4],
    sport: u16,
    vni: u32,
    inner: Seq<u8>,
)
    ensures
        (vxlan_outer(dst, src, src4, vtep, sport, vni, inner.len() as int) + inner).skip(50)
            == inner,
{
    let hdr = vxlan_outer(dst, src, src4, vtep, sport, vni, inner.len() as int);
    assert(hdr.len() == 50);
    assert((hdr + inner).skip(50) =~= inner);
}

/// The receiving VTEP recognises what the sender imposed: the frame is
/// addressed to it, carries a valid VNI flag, and selects the binding of the
/// sender's (24-bit) VNI.
#[verifier::spinoff_prover]
#[verifier::rlimit(60)]
pub proof fn vxlan_encap_selects_binding(
    t: &Tables,
    dst: [u8; 6],
    src: [u8; 6],
    src4: [u8; 4],
    sport: u16,
    vni: u32,
    inner: Seq<u8>,
)
    requires
        vni < 0x100_0000,
        t.vxlan_src != [0u8, 0u8, 0u8, 0u8],
    ensures
        vxlan_binding(
            t,
            vxlan_outer(dst, src, src4, t.vxlan_src, sport, vni, inner.len() as int) + inner,
        ) == Ok::<Option<VniInfo>, ()>(t.vni_info@.get(vni)),
{
    let s = vxlan_outer(dst, src, src4, t.vxlan_src, sport, vni, inner.len() as int) + inner;
    let word = bytes::be32_bytes(((vni * 256) % 0x1_0000_0000) as u32);
    bytes::be32_round_trip(((vni * 256) % 0x1_0000_0000) as u32);
    assert(s[46] == word[0] && s[47] == word[1] && s[48] == word[2] && s[49] == word[3]);
    assert(bytes::be32(s, 46) == vni * 256);
    assert(s[42] == 0x08);
    assert(bytes::oct4(s, 30) =~= t.vxlan_src);
}

/// MAC-in-SRv6 carries frames intact: an `End.DT2U` at the far end strips 54
/// bytes and has the frame that was encapsulated.
pub proof fn srv6_l2_decap_undoes_encap(
    dst: [u8; 6],
    src: [u8; 6],
    src6: [u8; 16],
    sid: [u8; 16],
    inner: Seq<u8>,
)
    ensures
        ({
            let s = srv6_l2_outer(dst, src, src6, sid, inner.len() as int) + inner;
            &&& s.skip(54) == inner
            &&& s[20] == IPPROTO_ETHERNET
            &&& s.subrange(38, 54) == sid@
        }),
{
    let hdr = srv6_l2_outer(dst, src, src6, sid, inner.len() as int);
    assert(hdr.len() == 54);
    assert((hdr + inner).skip(54) =~= inner);
    assert((hdr + inner).subrange(38, 54) =~= sid@);
}

/// GTP-U carries packets intact: a G-PDU received by the peer that has a rule
/// for its endpoint and TEID is decapsulated to the inner packet, routed in
/// the rule's table.
pub proof fn gtp_decap_undoes_encap(
    t: &Tables,
    x: XdpView,
    enc: GtpEncap,
    eth: Seq<u8>,
    inner: Seq<u8>,
    pdr: GtpPdr,
    et: u16,
)
    requires
        eth.len() == 14,
        inner.len() > 0,
        version_ethertype(inner[0]) == Some(et),
        x.data == eth + impose::gtp_outer(enc, inner.len() as int) + inner,
        t.gtp_pdr@.get(GtpPdrKey { dst: enc.dst, teid: enc.teid }) == Some(pdr),
    ensures
        gtp_staged(t, x) == endpoint::in_table(
            t,
            frame::stat(
                frame::with_data(x, eth.take(12) + bytes::be16_bytes(et) + inner),
                STAT_GTP_DECAP,
            ),
            pdr.vrf_id,
        ),
{
    reveal(gtp_staged);
    let s = x.data;
    assert(impose::gtp_outer(enc, inner.len() as int).len() == 36);
    assert(s[14] == 0x45 && s[23] == 17 && s[42] == 0x30 && s[43] == 0xff);
    let port = bytes::be16_bytes(GTP_PORT);
    bytes::be16_round_trip(GTP_PORT);
    assert(s[36] == port[0] && s[37] == port[1]);
    assert(bytes::oct4(s, 30) =~= enc.dst);
    assert(bytes::oct4(s, 46) =~= enc.teid);
    assert(s[50] == inner[0]);
    assert(s.take(12) =~= eth.take(12));
    assert(s.skip(50) =~= inner);
}

} // verus!
