//! What routing is for: laws that say, in terms of the tables and the packet,
//! where the L3 stage sends a packet and what it changes in it.

use vstd::prelude::*;
use crate::bytes;
use crate::fib;
use crate::impose;
use crate::l3;
use crate::lpm;
use crate::policy;
use crate::skb::{CsumFix, TcAct, TcView};
use crate::tables::Tables;
use crate::types::{
    CradleXdpMeta, FibEntry, MplsEntry, Neigh4Key, Neigh6Key, NeighEntry, NextHop, NhGroupKey,
    PortConfig, DPC_FIB4_DIR24, EP_F_EGRESS, FIBW_ID_MASK, FIBW_TBL8, FIBW_VALID, FIB_F_BLACKHOLE,
    FIB_F_CONNECTED, FIB_F_ECMP, FIB_F_LOCAL, FLOW_DIR_EGRESS, FLOW_DIR_INGRESS, FLOW_FORWARDED,
    MPLS_OP_SWAP, NH_F_GTP, NH_F_MPLS, NH_F_SRV6, NH_F_V6, NH_F_VXLAN, STAT_DROP,
    STAT_FIB4_DEFAULT, STAT_FIB4_TBL24_HIT, STAT_FIB4_TBL8_HIT, STAT_FIB4_VRF_HIT,
    STAT_FIB6_VRF_HIT, STAT_L3V4_FORWARD, STAT_L3V6_FORWARD, STAT_L3_LOCAL, STAT_MPLS_SWAP,
    STAT_NH_BACKUP, XDP_META_MAGIC, XDP_META_MAGIC_DX,
};
use crate::wire::{ETH_P_IP, ETH_P_IPV6, ETH_P_MPLS_UC};
use crate::words;

verus! {

// ------------------------------- nexthops -----------------------------------

/// A known nexthop whose egress interface is up is used under its own id,
/// whether or not it has a backup, and nothing is counted.
pub proof fn working_nexthop_is_used(t: &Tables, c: TcView, nh_id: u32, nh: NextHop)
    requires
        t.nexthops@.get(nh_id) == Some(nh),
        !t.link_down@.contains_key(nh.oif) || nh.backup_id == 0,
    ensures
        fib::resolved(t, c, nh_id) == (c, Some((nh_id, nh))),
{
    reveal(fib::resolved);
}

/// A protected nexthop whose egress interface is down gives way to its backup,
/// under the backup's id and counted; without a known backup there is none. An
/// unknown nexthop resolves to nothing.
pub proof fn failed_nexthop_gives_way(t: &Tables, c: TcView, nh_id: u32)
    ensures
        t.nexthops@.get(nh_id) matches Some(nh) ==> nh.backup_id != 0 && t.link_down@.contains_key(
            nh.oif,
        ) ==> ({
            let (c1, r) = fib::resolved(t, c, nh_id);
            match t.nexthops@.get(nh.backup_id) {
                Some(b) => r == Some((nh.backup_id, b)) && c1 == (TcView {
                    stats: c.stats.push(STAT_NH_BACKUP),
                    ..c
                }),
                None => r is None && c1 == c,
            }
        }),
        t.nexthops@.get(nh_id) is None ==> fib::resolved(t, c, nh_id) == (
            c,
            None::<(u32, NextHop)>,
        ),
{
    reveal(fib::resolved);
}

/// A group hands a flow to the member at the flow's hash modulo the number of
/// members, so that equal hashes go the same way; an empty group or an unknown
/// member hands it to none.
pub proof fn group_spreads_by_hash(t: &Tables, group_id: u32, h: u32, count: u32)
    ensures
        t.nhgroup@.get(group_id) == Some(count) && count != 0 ==> fib::ecmp(t, group_id, h)
            == t.nhgroup_member@.get(NhGroupKey { group_id, slot: h % count }),
        t.nhgroup@.get(group_id) is None || t.nhgroup@.get(group_id) == Some(0u32) ==> fib::ecmp(
            t,
            group_id,
            h,
        ) is None,
{
}

/// A nexthop's Ethernet addresses are the MAC of its gateway's neighbor entry on
/// its interface, by its own family, and the interface's own MAC; a miss of
/// either leaves none.
pub proof fn neighbor_is_the_gateways(
    t: &Tables,
    nh: NextHop,
    e: NeighEntry,
    p: PortConfig,
)
    ensures
        nh.flags & NH_F_V6 == 0 && t.neigh4@.get(
            Neigh4Key { ifindex: nh.oif, addr: nh.gateway_v4 },
        ) == Some(e) && t.ports@.get(nh.oif) == Some(p) ==> fib::l2_of(t, nh) == Some(
            (e.mac, p.mac),
        ),
        nh.flags & NH_F_V6 != 0 && t.neigh6@.get(
            Neigh6Key { ifindex: nh.oif, addr: nh.gateway_v6 },
        ) == Some(e) && t.ports@.get(nh.oif) == Some(p) ==> fib::l2_of(t, nh) == Some(
            (e.mac, p.mac),
        ),
        nh.flags & NH_F_V6 == 0 && !t.neigh4@.contains_key(
            Neigh4Key { ifindex: nh.oif, addr: nh.gateway_v4 },
        ) ==> fib::l2_of(t, nh) is None,
        nh.flags & NH_F_V6 != 0 && !t.neigh6@.contains_key(
            Neigh6Key { ifindex: nh.oif, addr: nh.gateway_v6 },
        ) ==> fib::l2_of(t, nh) is None,
        !t.ports@.contains_key(nh.oif) ==> fib::l2_of(t, nh) is None,
{
}

/// The same of a neighbor asked for by its own address.
pub proof fn neighbor_is_found(t: &Tables, oif: u32, addr: u32, e: NeighEntry, p: PortConfig)
    ensures
        t.neigh4@.get(Neigh4Key { ifindex: oif, addr }) == Some(e) && t.ports@.get(oif) == Some(p)
            ==> fib::link4_of(t, oif, addr) == Some((e.mac, p.mac)),
        !t.neigh4@.contains_key(Neigh4Key { ifindex: oif, addr }) || !t.ports@.contains_key(oif)
            ==> fib::link4_of(t, oif, addr) is None,
{
}

/// A frame sent to a nexthop has fresh Ethernet addresses and EtherType, and is
/// else as it was; where the neighbor is unknown it goes to the host untouched.
pub proof fn sent_frame_has_fresh_addresses(
    t: &Tables,
    c: TcView,
    nh: NextHop,
    et: u16,
    dst: [u8; 6],
    src: [u8; 6],
)
    requires
        c.data.len() >= 14,
    ensures
        fib::l2_of(t, nh) == Some((dst, src)) ==> ({
            let (c1, a) = fib::xmitted(t, c, nh, et);
            &&& a == TcAct::Redirect(nh.oif)
            &&& c1 == (TcView { data: c1.data, ..c })
            &&& c1.data.len() == c.data.len()
            &&& forall|i: int| 0 <= i < 6 ==> c1.data[i] == dst[i]
            &&& forall|i: int| 6 <= i < 12 ==> c1.data[i] == src[i - 6]
            &&& bytes::be16(c1.data, 12) == et
            &&& forall|i: int| 14 <= i < c.data.len() ==> c1.data[i] == c.data[i]
        }),
        fib::l2_of(t, nh) is None ==> fib::xmitted(t, c, nh, et) == (c, TcAct::Pipe),
{
    reveal(fib::xmitted);
    bytes::be16_round_trip(et);
    if fib::l2_of(t, nh) == Some((dst, src)) {
        let d = fib::xmitted(t, c, nh, et).0.data;
        let b = bytes::be16_bytes(et);
        assert(d[12] == b[0] && d[13] == b[1]);
    }
}

// -------------------------------- lookups -----------------------------------

/// An IPv4 route is looked up in the VRF's routes behind its id where there is a
/// VRF, and counted if found; else, unless the flat tables are on, among the
/// global routes.
pub proof fn route4_comes_from_its_table(t: &Tables, c: TcView, vrf: u32, dst: [u8; 4])
    ensures
        vrf != 0 ==> ({
            let m = lpm::matched(
                t.fib4_vrf@,
                seq![
                    (vrf % 256) as u8,
                    ((vrf / 256) % 256) as u8,
                    ((vrf / 0x1_0000) % 256) as u8,
                    (vrf / 0x100_0000) as u8,
                    dst[0],
                    dst[1],
                    dst[2],
                    dst[3],
                ],
            );
            &&& fib::route4(t, c, vrf, dst).1 == m
            &&& m is Some ==> fib::route4(t, c, vrf, dst).0 == (TcView {
                stats: c.stats.push(STAT_FIB4_VRF_HIT),
                ..c
            })
            &&& m is None ==> fib::route4(t, c, vrf, dst).0 == c
        }),
        vrf == 0 && t.dp_config & DPC_FIB4_DIR24 == 0 ==> fib::route4(t, c, vrf, dst) == (
            c,
            lpm::matched(t.fib4@, dst@),
        ),
{
    reveal(fib::route4);
    assert(crate::tables::scoped(vrf, dst@) =~= seq![
        (vrf % 256) as u8,
        ((vrf / 256) % 256) as u8,
        ((vrf / 0x1_0000) % 256) as u8,
        (vrf / 0x100_0000) as u8,
        dst[0],
        dst[1],
        dst[2],
        dst[3],
    ]);
}

/// An IPv6 route is looked up in the VRF's routes where there is a VRF, else
/// among the global routes.
pub proof fn route6_comes_from_its_table(t: &Tables, c: TcView, vrf: u32, dst: [u8; 16])
    ensures
        vrf != 0 ==> ({
            let m = lpm::matched(
                t.fib6_vrf@,
                seq![
                    (vrf % 256) as u8,
                    ((vrf / 256) % 256) as u8,
                    ((vrf / 0x1_0000) % 256) as u8,
                    (vrf / 0x100_0000) as u8,
                ] + dst@,
            );
            &&& fib::route6(t, c, vrf, dst).1 == m
            &&& m is Some ==> fib::route6(t, c, vrf, dst).0 == (TcView {
                stats: c.stats.push(STAT_FIB6_VRF_HIT),
                ..c
            })
            &&& m is None ==> fib::route6(t, c, vrf, dst).0 == c
        }),
        vrf == 0 ==> fib::route6(t, c, vrf, dst) == (c, lpm::matched(t.fib6@, dst@)),
{
    reveal(fib::route6);
}

/// The flat tables hold a route by the first three octets of the destination;
/// where that slot points at a group, by the last octet within the group; an
/// empty slot of either leaves the default route. Each is counted by its kind.
pub proof fn flat_tables_are_indexed(t: &Tables, dst: [u8; 4])
    ensures
        ({
            let i = dst[0] * 0x1_0000 + dst[1] * 256 + dst[2];
            let fallback = if t.default4 & FIBW_VALID != 0 {
                Some((t.default4, STAT_FIB4_DEFAULT))
            } else {
                None
            };
            &&& i >= t.tbl24@.len() ==> fib::dir24(t, dst) is None
            &&& i < t.tbl24@.len() && t.tbl24@[i] & FIBW_TBL8 == 0 ==> fib::dir24(t, dst) == (
            if t.tbl24@[i] & FIBW_VALID != 0 {
                Some((t.tbl24@[i], STAT_FIB4_TBL24_HIT))
            } else {
                fallback
            })
            &&& i < t.tbl24@.len() && t.tbl24@[i] & FIBW_TBL8 != 0 ==> ({
                let j = (t.tbl24@[i] & FIBW_ID_MASK) * 256 + dst[3];
                j < 0x1_0000_0000 ==> {
                    &&& j >= t.tbl8@.len() ==> fib::dir24(t, dst) is None
                    &&& j < t.tbl8@.len() ==> fib::dir24(t, dst) == (if t.tbl8@[j] & FIBW_VALID
                        != 0 {
                        Some((t.tbl8@[j], STAT_FIB4_TBL8_HIT))
                    } else {
                        fallback
                    })
                }
            })
        }),
{
}

/// With the flat tables on, the global route is the one that their slot packs.
pub proof fn flat_route_is_unpacked(t: &Tables, c: TcView, dst: [u8; 4], nh_id: u32, flags: u32, counter: u32)
    requires
        t.dp_config & DPC_FIB4_DIR24 != 0,
        nh_id < 0x400_0000,
        flags < 16,
        fib::dir24(t, dst) == Some(
            (words::fibw_entry_value(nh_id as int, flags as int) as u32, counter),
        ),
    ensures
        fib::route4(t, c, 0, dst) == (
            TcView { stats: c.stats.push(counter), ..c },
            Some(FibEntry { nexthop_id: nh_id, flags }),
        ),
{
    reveal(fib::route4);
    words::fibw_round_trip(nh_id, flags);
}

/// With the flat tables on and no slot for the destination there is no route.
pub proof fn flat_miss_is_no_route(t: &Tables, c: TcView, dst: [u8; 4])
    requires
        t.dp_config & DPC_FIB4_DIR24 != 0,
        fib::dir24(t, dst) is None,
    ensures
        fib::route4(t, c, 0, dst) == (c, None::<FibEntry>),
{
    reveal(fib::route4);
}

/// A lookup is made in the VRF of the port; a port without one looks up in what
/// a decapsulation tagged the packet with, and an untagged packet globally.
pub proof fn vrf_is_the_ports_or_the_tags(t: &Tables, c: TcView, port_vrf: u32, vrf: u32)
    ensures
        port_vrf != 0 ==> l3::lookup_vrf(t, c, port_vrf) == port_vrf,
        c.meta == Some(CradleXdpMeta { magic: XDP_META_MAGIC ^ t.meta_cookie, vrf_id: vrf })
            ==> l3::lookup_vrf(t, c, 0) == vrf,
        c.meta is None ==> l3::lookup_vrf(t, c, 0) == 0,
{
}

// ------------------------------- forwarding ---------------------------------

/// Whether the endpoint that sent a packet is under egress policy.
pub open spec fn egress_enforced(t: &Tables, from_ep: u32) -> bool {
    from_ep != 0 && match t.ep_policy@.get(from_ep) {
        Some(f) => f & EP_F_EGRESS != 0,
        None => false,
    }
}

/// Whether a nexthop imposes nothing on a packet.
pub open spec fn bare(nh: NextHop) -> bool {
    &&& nh.flags & NH_F_SRV6 == 0
    &&& nh.flags & NH_F_GTP == 0
    &&& nh.flags & NH_F_VXLAN == 0
    &&& nh.flags & NH_F_MPLS == 0 || nh.num_labels == 0
}

/// A packet not bound to a circuit, and not under egress policy, is forwarded by
/// the route of its destination; without a route it goes to the host untouched.
pub proof fn destination_decides(
    t: &Tables,
    c: TcView,
    port_vrf: u32,
    from_ep: u32,
    d4: [u8; 4],
    d6: [u8; 16],
)
    requires
        fib::meta_or_zero(t, c.meta, XDP_META_MAGIC_DX) == 0,
        !egress_enforced(t, from_ep),
    ensures
        c.data.len() >= 34 && d4@ == c.data.subrange(30, 34) ==> ({
            let (c1, fe) = fib::route4(t, c, l3::lookup_vrf(t, c, port_vrf), d4);
            l3::forwarded4(t, c, port_vrf, from_ep) == match fe {
                Some(fe) => l3::by_route4(t, c1, fe, d4, from_ep),
                None => (c1, Ok(TcAct::Pipe)),
            }
        }),
        c.data.len() >= 54 && d6@ == c.data.subrange(38, 54) && lpm::matched(
            t.srv6_localsid@,
            d6@,
        ) is None ==> ({
            let (c1, fe) = fib::route6(t, c, l3::lookup_vrf(t, c, port_vrf), d6);
            l3::forwarded6(t, c, port_vrf, from_ep) == match fe {
                Some(fe) => l3::by_route6(t, c1, fe, d6),
                None => (c1, Ok(TcAct::Pipe)),
            }
        }),
{
    reveal(l3::forwarded4);
    reveal(l3::forwarded6);
    if c.data.len() >= 34 && d4@ == c.data.subrange(30, 34) {
        assert(bytes::oct4(c.data, 30) =~= d4);
    }
    if c.data.len() >= 54 && d6@ == c.data.subrange(38, 54) {
        assert(bytes::oct16(c.data, 38) =~= d6);
    }
}

/// A packet to one of this node's own SIDs goes to the host, whatever routes
/// there are.
pub proof fn own_sid_goes_up(t: &Tables, c: TcView, port_vrf: u32, from_ep: u32)
    requires
        fib::meta_or_zero(t, c.meta, XDP_META_MAGIC_DX) == 0,
        !egress_enforced(t, from_ep),
        c.data.len() >= 54,
        lpm::matched(t.srv6_localsid@, c.data.subrange(38, 54)) is Some,
    ensures
        l3::forwarded6(t, c, port_vrf, from_ep) == (c, Ok::<TcAct, ()>(TcAct::Pipe)),
{
    reveal(l3::forwarded6);
    assert(bytes::oct16(c.data, 38)@ =~= c.data.subrange(38, 54));
}

/// A packet bound to a circuit leaves through it, whatever its destination, the
/// policy and its remaining hops, with nothing but its Ethernet header changed.
pub proof fn circuit_precedes_routing(
    t: &Tables,
    c: TcView,
    port_vrf: u32,
    from_ep: u32,
    nh_id: u32,
    nh: NextHop,
)
    requires
        nh_id != 0,
        c.meta == Some(CradleXdpMeta { magic: XDP_META_MAGIC_DX ^ t.meta_cookie, vrf_id: nh_id }),
        t.nexthops@.get(nh_id) == Some(nh),
        nh.backup_id == 0 || !t.link_down@.contains_key(nh.oif),
    ensures
        l3::forwarded4(t, c, port_vrf, from_ep) == (
            fib::xmitted(t, c, nh, ETH_P_IP).0,
            Ok::<TcAct, ()>(fib::xmitted(t, c, nh, ETH_P_IP).1),
        ),
        l3::forwarded6(t, c, port_vrf, from_ep) == (
            fib::xmitted(t, c, nh, ETH_P_IPV6).0,
            Ok::<TcAct, ()>(fib::xmitted(t, c, nh, ETH_P_IPV6).1),
        ),
{
    reveal(l3::forwarded4);
    reveal(l3::forwarded6);
    working_nexthop_is_used(t, c, nh_id, nh);
}

/// A blackhole route drops and counts; a local one hands the packet to the host
/// and counts it; neither changes the packet. A blackhole comes first.
pub proof fn route_may_end_here(
    t: &Tables,
    c: TcView,
    fe: FibEntry,
    d4: [u8; 4],
    d6: [u8; 16],
    from_ep: u32,
)
    ensures
        fe.flags & FIB_F_BLACKHOLE != 0 ==> {
            &&& l3::by_route4(t, c, fe, d4, from_ep) == (
                TcView { stats: c.stats.push(STAT_DROP), ..c },
                Ok::<TcAct, ()>(TcAct::Shot),
            )
            &&& l3::by_route6(t, c, fe, d6) == l3::by_route4(t, c, fe, d4, from_ep)
        },
        fe.flags & FIB_F_BLACKHOLE == 0 && fe.flags & FIB_F_LOCAL != 0 ==> {
            &&& l3::by_route4(t, c, fe, d4, from_ep) == (
                TcView { stats: c.stats.push(STAT_L3_LOCAL), ..c },
                Ok::<TcAct, ()>(TcAct::Pipe),
            )
            &&& l3::by_route6(t, c, fe, d6) == l3::by_route4(t, c, fe, d4, from_ep)
        },
{
    reveal(l3::by_route4);
    reveal(l3::by_route6);
}

/// A route leads to its own nexthop, or, as a group's, to the member that the
/// flow's hash selects; a group without one leaves the packet to the host.
pub proof fn route_leads_to_its_nexthop(
    t: &Tables,
    c: TcView,
    fe: FibEntry,
    d4: [u8; 4],
    d6: [u8; 16],
    from_ep: u32,
    id4: u32,
    id6: u32,
    nh: NextHop,
)
    requires
        c.data.len() >= 34,
        fe.flags & FIB_F_BLACKHOLE == 0,
        fe.flags & FIB_F_LOCAL == 0,
        fe.flags & FIB_F_ECMP == 0 ==> id4 == fe.nexthop_id && id6 == fe.nexthop_id,
        fe.flags & FIB_F_ECMP != 0 ==> fib::ecmp(
            t,
            fe.nexthop_id,
            fib::hash4(c.data, bytes::le32(c.data, 26), bytes::le32(d4@, 0)),
        ) == Some(id4),
        fe.flags & FIB_F_ECMP != 0 ==> fib::ecmp(
            t,
            fe.nexthop_id,
            fib::hash6(c.data, bytes::oct16(c.data, 22), d6),
        ) == Some(id6),
    ensures
        t.nexthops@.get(id4) == Some(nh) && (nh.backup_id == 0 || !t.link_down@.contains_key(
            nh.oif,
        )) ==> l3::by_route4(t, c, fe, d4, from_ep) == l3::sent4(t, c, id4, nh, fe, d4, from_ep),
        t.nexthops@.get(id6) == Some(nh) && (nh.backup_id == 0 || !t.link_down@.contains_key(
            nh.oif,
        )) ==> l3::by_route6(t, c, fe, d6) == l3::sent6(t, c, id6, nh, fe, d6),
        t.nexthops@.get(id4) is None ==> l3::by_route4(t, c, fe, d4, from_ep) == (
            c,
            Err::<TcAct, ()>(()),
        ),
        t.nexthops@.get(id6) is None ==> l3::by_route6(t, c, fe, d6) == (c, Err::<TcAct, ()>(())),
{
    reveal(l3::by_route4);
    reveal(l3::by_route6);
    reveal(fib::resolved);
}

/// A failed protected nexthop's traffic takes the backup, and is handled by the
/// backup's own nexthop and id.
pub proof fn rerouted_packet_takes_the_backup(
    t: &Tables,
    c: TcView,
    fe: FibEntry,
    d4: [u8; 4],
    d6: [u8; 16],
    from_ep: u32,
    nh: NextHop,
    b: NextHop,
)
    requires
        fe.flags & FIB_F_BLACKHOLE == 0,
        fe.flags & FIB_F_LOCAL == 0,
        fe.flags & FIB_F_ECMP == 0,
        t.nexthops@.get(fe.nexthop_id) == Some(nh),
        nh.backup_id != 0,
        t.link_down@.contains_key(nh.oif),
        t.nexthops@.get(nh.backup_id) == Some(b),
    ensures
        ({
            let c1 = TcView { stats: c.stats.push(STAT_NH_BACKUP), ..c };
            &&& l3::by_route4(t, c, fe, d4, from_ep) == l3::sent4(
                t,
                c1,
                nh.backup_id,
                b,
                fe,
                d4,
                from_ep,
            )
            &&& l3::by_route6(t, c, fe, d6) == l3::sent6(t, c1, nh.backup_id, b, fe, d6)
        }),
{
    reveal(l3::by_route4);
    reveal(l3::by_route6);
    reveal(fib::resolved);
}

/// A nexthop's flags say what is imposed on a packet: SRv6 before GTP-U before
/// VXLAN before labels. SRv6 and labels leave an expiring packet to the host.
pub proof fn nexthop_decides_the_encapsulation(
    t: &Tables,
    c: TcView,
    nh_id: u32,
    nh: NextHop,
    fe: FibEntry,
    d4: [u8; 4],
    d6: [u8; 16],
    from_ep: u32,
)
    requires
        c.data.len() >= 34,
    ensures
        nh.flags & NH_F_SRV6 != 0 ==> {
            &&& l3::sent4(t, c, nh_id, nh, fe, d4, from_ep) == (if c.data[22] <= 1 {
                (c, Ok(TcAct::Pipe))
            } else {
                impose::srv6_encapped(t, c, nh_id, nh, ETH_P_IP)
            })
            &&& l3::sent6(t, c, nh_id, nh, fe, d6) == (if c.data[21] <= 1 {
                (c, Ok(TcAct::Pipe))
            } else {
                impose::srv6_encapped(t, c, nh_id, nh, ETH_P_IPV6)
            })
        },
        nh.flags & NH_F_SRV6 == 0 && nh.flags & NH_F_GTP != 0 ==> {
            &&& l3::sent4(t, c, nh_id, nh, fe, d4, from_ep) == impose::gtp_encapped(
                t,
                c,
                nh_id,
                nh,
            )
            &&& l3::sent6(t, c, nh_id, nh, fe, d6) == impose::gtp_encapped(t, c, nh_id, nh)
        },
        nh.flags & NH_F_SRV6 == 0 && nh.flags & NH_F_GTP == 0 && nh.flags & NH_F_VXLAN != 0 ==> {
            &&& l3::sent4(t, c, nh_id, nh, fe, d4, from_ep) == impose::vxlan_l3_encapped(
                t,
                c,
                nh_id,
                nh,
                ETH_P_IP,
            )
            &&& l3::sent6(t, c, nh_id, nh, fe, d6) == impose::vxlan_l3_encapped(
                t,
                c,
                nh_id,
                nh,
                ETH_P_IPV6,
            )
        },
        nh.flags & NH_F_SRV6 == 0 && nh.flags & NH_F_GTP == 0 && nh.flags & NH_F_VXLAN == 0
            && nh.flags & NH_F_MPLS != 0 && nh.num_labels > 0 ==> {
            &&& l3::sent4(t, c, nh_id, nh, fe, d4, from_ep) == (if c.data[22] <= 1 {
                (c, Ok(TcAct::Pipe))
            } else {
                impose::labelled(t, c, nh, c.data[22])
            })
            &&& l3::sent6(t, c, nh_id, nh, fe, d6) == (if c.data[21] <= 1 {
                (c, Ok(TcAct::Pipe))
            } else {
                impose::labelled(t, c, nh, c.data[21])
            })
        },
{
    reveal(l3::sent4);
    reveal(l3::sent6);
}

/// A plainly forwarded IPv4 packet leaves with one hop less and the checksum
/// patch for it, counted and reported, and with nothing else changed: toward
/// the nexthop's gateway, or toward its own destination where there is none or
/// the route is a connected one. An expiring packet goes to the host untouched.
pub proof fn plain_packet_goes_to_the_gateway(
    t: &Tables,
    c: TcView,
    nh_id: u32,
    nh: NextHop,
    fe: FibEntry,
    dst: [u8; 4],
    from_ep: u32,
)
    requires
        c.data.len() >= 34,
        bare(nh),
    ensures
        c.data[22] <= 1 ==> l3::sent4(t, c, nh_id, nh, fe, dst, from_ep) == (
            c,
            Ok::<TcAct, ()>(TcAct::Pipe),
        ),
        c.data[22] > 1 ==> ({
            let (c1, r) = l3::sent4(t, c, nh_id, nh, fe, dst, from_ep);
            let s = c.data;
            let was = s[23] * 256 + s[22];
            &&& c1 == (TcView {
                data: s.update(22, (s[22] - 1) as u8),
                fixes: c.fixes.push(
                    CsumFix {
                        l4: false,
                        off: 24,
                        from: was as u64,
                        to: (was - 1) as u64,
                        flags: 2,
                    },
                ),
                stats: c.stats.push(STAT_L3V4_FORWARD),
                flows: c1.flows,
                ..c
            })
            &&& c.flows.len() >= c.flow_cap ==> c1.flows == c.flows
            &&& c.flows.len() < c.flow_cap ==> {
                &&& c1.flows.len() == c.flows.len() + 1
                &&& c1.flows.take(c.flows.len() as int) == c.flows
                &&& c1.flows.last().verdict == FLOW_FORWARDED
                &&& c1.flows.last().time_ns == c.now
                &&& c1.flows.last().ep_ifindex == if from_ep != 0 { 0 } else { nh.oif }
                &&& c1.flows.last().dir == if from_ep != 0 {
                    FLOW_DIR_EGRESS
                } else {
                    FLOW_DIR_INGRESS
                }
                &&& c1.flows.last().peer_identity == 0
            }
            &&& r matches Ok(TcAct::Neigh4 { oif, nh4 }) && {
                &&& oif == nh.oif
                &&& fe.flags & FIB_F_CONNECTED != 0 || nh.gateway_v4 == 0 ==> nh4 == dst
                &&& fe.flags & FIB_F_CONNECTED == 0 && nh.gateway_v4 != 0 ==> bytes::be32(nh4@, 0)
                    == nh.gateway_v4
            }
        }),
{
    reveal(l3::sent4);
    reveal(l3::plain4);
    reveal(policy::emitted);
    bytes::be32_round_trip(nh.gateway_v4);
    let b = bytes::be32_bytes(nh.gateway_v4);
    let o = bytes::oct4(b, 0);
    assert(o[0] == b[0] && o[1] == b[1] && o[2] == b[2] && o[3] == b[3]);
    let c1 = l3::sent4(t, c, nh_id, nh, fe, dst, from_ep).0;
    if c.data[22] > 1 && c.flows.len() < c.flow_cap {
        assert(c1.flows.take(c.flows.len() as int) =~= c.flows);
    }
}

/// The IPv6 form: one hop less and nothing else changed.
pub proof fn plain_packet6_goes_to_the_gateway(
    t: &Tables,
    c: TcView,
    nh_id: u32,
    nh: NextHop,
    fe: FibEntry,
    dst: [u8; 16],
)
    requires
        c.data.len() >= 54,
        bare(nh),
    ensures
        c.data[21] <= 1 ==> l3::sent6(t, c, nh_id, nh, fe, dst) == (
            c,
            Ok::<TcAct, ()>(TcAct::Pipe),
        ),
        c.data[21] > 1 ==> ({
            let (c1, r) = l3::sent6(t, c, nh_id, nh, fe, dst);
            &&& c1 == (TcView {
                data: c.data.update(21, (c.data[21] - 1) as u8),
                stats: c.stats.push(STAT_L3V6_FORWARD),
                ..c
            })
            &&& r matches Ok(TcAct::Neigh6 { oif, nh6 }) && {
                &&& oif == nh.oif
                &&& fe.flags & FIB_F_CONNECTED != 0 || (forall|i: int|
                    0 <= i < 16 ==> nh.gateway_v6[i] == 0) ==> nh6 == dst
                &&& fe.flags & FIB_F_CONNECTED == 0 && (exists|i: int|
                    0 <= i < 16 && nh.gateway_v6[i] != 0) ==> nh6 == nh.gateway_v6
            }
        }),
{
    reveal(l3::sent6);
    reveal(l3::plain6);
    let z = bytes::zeros16();
    if forall|i: int| 0 <= i < 16 ==> nh.gateway_v6[i] == 0 {
        assert(nh.gateway_v6 =~= z);
    }
}

/// A frame is forwarded by its EtherType: IPv4, IPv6 and MPLS each by their own
/// rules; ARP and every other goes to the host untouched.
pub proof fn ethertype_decides(t: &Tables, c: TcView, port_vrf: u32, from_ep: u32)
    requires
        c.data.len() >= 14,
    ensures
        ({
            let et = c.data[12] * 256 + c.data[13];
            l3::forwarded(t, c, port_vrf, from_ep) == (if et == 0x0800 {
                l3::forwarded4(t, c, port_vrf, from_ep)
            } else if et == 0x86dd {
                l3::forwarded6(t, c, port_vrf, from_ep)
            } else if et == 0x8847 {
                l3::swapped(t, c)
            } else {
                (c, Ok(TcAct::Pipe))
            })
        }),
{
}

/// A label with a single new one is swapped in place: the traffic class and the
/// bottom mark stay, one hop is charged, and the frame leaves to the nexthop.
/// An expiring or unknown label leaves the frame to the host.
pub proof fn label_is_swapped(
    t: &Tables,
    c: TcView,
    label: u32,
    tc: u8,
    s: u8,
    ttl: u8,
    ent: MplsEntry,
    nh: NextHop,
)
    requires
        c.data.len() >= 18,
        label < 0x10_0000,
        tc < 8,
        s < 2,
        bytes::be32(c.data, 14) == label * 0x1000 + tc * 0x200 + s * 0x100 + ttl,
    ensures
        ttl <= 1 || !t.mpls_fib@.contains_key(label) ==> l3::swapped(t, c) == (
            c,
            Ok::<TcAct, ()>(TcAct::Pipe),
        ),
        ttl > 1 && t.mpls_fib@.get(label) == Some(ent) && t.nexthops@.get(ent.nexthop_id) == Some(
            nh,
        ) && (ent.op != MPLS_OP_SWAP || nh.num_labels != 1) ==> l3::swapped(t, c) == (
            c,
            Ok::<TcAct, ()>(TcAct::Pipe),
        ),
        ttl > 1 && t.mpls_fib@.get(label) == Some(ent) && t.nexthops@.get(ent.nexthop_id) == Some(
            nh,
        ) && ent.op == MPLS_OP_SWAP && nh.num_labels == 1 && nh.labels[0] < 0x10_0000 ==> ({
            let (c1, r) = l3::swapped(t, c);
            match fib::l2_of(t, nh) {
                Some((dst, src)) => {
                    &&& r == Ok::<TcAct, ()>(TcAct::Redirect(nh.oif))
                    &&& c1.data.len() == c.data.len()
                    &&& bytes::be32(c1.data, 14) == nh.labels[0] * 0x1000 + tc * 0x200 + s * 0x100
                        + ttl - 1
                    &&& forall|i: int| 0 <= i < 6 ==> c1.data[i] == dst[i]
                    &&& forall|i: int| 6 <= i < 12 ==> c1.data[i] == src[i - 6]
                    &&& bytes::be16(c1.data, 12) == 0x8847
                    &&& forall|i: int| 18 <= i < c.data.len() ==> c1.data[i] == c.data[i]
                    &&& c1.stats == c.stats.push(STAT_MPLS_SWAP)
                },
                None => r == Ok::<TcAct, ()>(TcAct::Pipe),
            }
        }),
{
    reveal(l3::swapped);
    reveal(fib::xmitted);
    words::lse_round_trip(label, tc, s, ttl);
    if ttl > 1 && nh.labels[0] < 0x10_0000 {
        let v = (nh.labels[0] * 0x1000 + tc * 0x200 + s * 0x100 + ttl - 1) as u32;
        let b = bytes::be32_bytes(v);
        bytes::be32_round_trip(v);
        bytes::be16_round_trip(ETH_P_MPLS_UC);
        let e = bytes::be16_bytes(ETH_P_MPLS_UC);
        let d = l3::swapped(t, c).0.data;
        if t.mpls_fib@.get(label) == Some(ent) && t.nexthops@.get(ent.nexthop_id) == Some(nh)
            && ent.op == MPLS_OP_SWAP && nh.num_labels == 1 && fib::l2_of(t, nh) is Some {
            assert(d[14] == b[0] && d[15] == b[1] && d[16] == b[2] && d[17] == b[3]);
            assert(d[12] == e[0] && d[13] == e[1]);
        }
    }
}

} // verus!
