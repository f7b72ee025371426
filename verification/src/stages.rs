//! What the frame stages decide: laws on bridging, replication, overlays, failure
//! detection and plain forwarding, in terms of the frame and the tables.

use vstd::prelude::*;
use crate::bfd;
use crate::bytes;
use crate::carriers;
use crate::checksum;
use crate::fib;
use crate::frame::{DetectState, TimerKind, TimerStart, XdpAct, XdpView};
use crate::hash;
use crate::headers;
use crate::l2;
use crate::label;
use crate::lpm;
use crate::overlay;
use crate::segments;
use crate::sids;
use crate::skb::{TcAct, TcView};
use crate::tables::Tables;
use crate::types::{
    CradleXdpMeta, Dx2vKey, FdbEntry, FdbKey, FibEntry, GtpPdr, GtpPdrKey, L2MemberKey,
    NextHop, PortConfig, ReplBranch, ReplSeg, ReplTarget, VniInfo, FDB_F_LOCAL, FDB_F_REMOTE,
    FDB_F_VXLAN, FIB_F_BLACKHOLE, FIB_F_CONNECTED, FIB_F_ECMP, FIB_F_LOCAL, NH_F_GTP, NH_F_MPLS,
    NH_F_SRV6, NH_F_VXLAN, PORT_F_L2, REPL_BRANCH_LOCAL, REPL_KIND_VXLAN, STAT_DROP, STAT_GTP_DECAP,
    STAT_L2_FLOOD, STAT_L2_FORWARD, STAT_SRV6_L2_BUM, STAT_SRV6_L2_ENCAP, STAT_SRV6_REPLICATE,
    STAT_VXLAN_DECAP, STAT_VXLAN_ENCAP, STAT_VXLAN_FLOOD, STAT_XDP_L3_FWD, VNI_F_L3,
    XDP_META_MAGIC, XDP_META_MAGIC_L2,
};
use crate::words;
use crate::xdp;

verus! {

// --------------------------------- bridging ---------------------------------

/// The entry of a station seen on a port: plain, on that port, seen now.
pub open spec fn seen_on(port: u32, now: u64) -> FdbEntry {
    FdbEntry {
        oif: port,
        flags: 0,
        remote_sid: [0u8, 0u8, 0u8, 0u8, 0u8, 0u8, 0u8, 0u8, 0u8, 0u8, 0u8, 0u8, 0u8, 0u8, 0u8, 0u8],
        last_seen: now,
    }
}

/// A bridge learns the sender on its port, unless the frame came from the overlay.
/// A frame to a group, to an unknown station or to one of the overlay is flooded;
/// one to the node itself goes up; one back out of its own port is dropped; any
/// other goes to the station's port.
pub proof fn bridge_switches(
    t: &Tables,
    c: TcView,
    iif: u32,
    vlan: u16,
    from_overlay: bool,
    e: FdbEntry,
)
    requires
        c.data.len() >= 12,
    ensures
        ({
            let dst = bytes::oct6(c.data, 0);
            let c1 = TcView {
                fdb: if from_overlay {
                    c.fdb
                } else {
                    c.fdb.insert(FdbKey { mac: bytes::oct6(c.data, 6), vlan }, seen_on(iif, c.now))
                },
                ..c
            };
            let known = c1.fdb.get(FdbKey { mac: dst, vlan });
            let group = c.data[0] % 2 == 1;
            let r = l2::switched(t, c, iif, vlan, from_overlay);
            &&& group || known is None || (known == Some(e) && e.flags & FDB_F_LOCAL == 0 && e.flags
                & FDB_F_REMOTE != 0) ==> r == (
                l2::flooded(t, c1, iif, vlan, from_overlay),
                Ok::<TcAct, ()>(TcAct::Shot),
            )
            &&& !group && known == Some(e) ==> {
                &&& e.flags & FDB_F_LOCAL != 0 ==> r == (c1, Ok::<TcAct, ()>(TcAct::Pipe))
                &&& e.flags & FDB_F_LOCAL == 0 && e.flags & FDB_F_REMOTE == 0 && e.oif == iif ==> r
                    == (c1, Ok::<TcAct, ()>(TcAct::Shot))
                &&& e.flags & FDB_F_LOCAL == 0 && e.flags & FDB_F_REMOTE == 0 && e.oif != iif ==> r
                    == (
                    TcView { stats: c1.stats.push(STAT_L2_FORWARD), ..c1 },
                    Ok::<TcAct, ()>(TcAct::Redirect(e.oif)),
                )
            }
        }),
{
    reveal(l2::switched);
}

/// A flood is counted, and copies the frame as it is to the ports it goes to, in
/// the order of the members; it changes nothing else.
pub proof fn flood_copies_the_frame(t: &Tables, c: TcView, iif: u32, vlan: u16, local: bool)
    ensures
        ({
            let c1 = l2::flooded(t, c, iif, vlan, local);
            let n = match t.l2_count@.get(vlan) {
                Some(n) => if n < 64 {
                    n as int
                } else {
                    64
                },
                None => 0,
            };
            let ports = l2::flood_ports(t, iif, vlan, local, n);
            &&& c1 == (TcView {
                copies: c1.copies,
                stats: c.stats.push(STAT_L2_FLOOD),
                ..c
            })
            &&& c1.copies.len() == c.copies.len() + ports.len()
            &&& c1.copies.take(c.copies.len() as int) == c.copies
            &&& forall|i: int|
                0 <= i < ports.len() ==> #[trigger] c1.copies[c.copies.len() + i] == (
                    ports[i],
                    c.data,
                )
        }),
{
    reveal(l2::flooded);
    let c1 = l2::flooded(t, c, iif, vlan, local);
    assert(c1.copies.take(c.copies.len() as int) =~= c.copies);
}

/// A member port is flooded to unless the frame came in on it, or, for a frame of
/// the overlay, it leads back into the overlay; an empty slot adds nothing.
pub proof fn flood_goes_to_other_members(
    t: &Tables,
    iif: u32,
    vlan: u16,
    local: bool,
    k: int,
    oif: u32,
)
    requires
        0 <= k < 0x1_0000,
    ensures
        ({
            let head = l2::flood_ports(t, iif, vlan, local, k);
            let all = l2::flood_ports(t, iif, vlan, local, k + 1);
            let slot = t.l2_members@.get(L2MemberKey { vlan, slot: k as u16 });
            &&& k == 0 ==> head.len() == 0
            &&& slot is None ==> all == head
            &&& slot == Some(oif) && (oif == iif || (local && t.repl_sid@.contains_key(oif))) ==> all
                == head
            &&& slot == Some(oif) && oif != iif && (!local || !t.repl_sid@.contains_key(oif)) ==> all
                == head.push(oif)
        }),
{
}

// -------------------------------- replication -------------------------------

/// A replicated packet is copied to every branch of its segment, with one hop
/// less, and ends here. One for no such segment, or with too few hops, just ends.
pub proof fn packet_is_replicated(t: &Tables, c: TcView, rs: ReplSeg)
    requires
        c.data.len() >= 54,
    ensures
        ({
            let seg = t.repl_seg@.get(bytes::oct16(c.data, 38));
            let hops = c.data[21];
            let r = l2::replicated(t, c);
            let n = if rs.n_branches < 8 {
                rs.n_branches as int
            } else {
                8
            };
            let c1 = l2::branches_served(
                t,
                TcView { data: c.data.update(21, (hops - 1) as u8), ..c },
                rs,
                n,
            );
            &&& seg is None || (seg == Some(rs) && (hops <= 1 || hops < rs.hop_limit_threshold)) ==> r
                == (c, Ok::<TcAct, ()>(TcAct::Shot))
            &&& seg == Some(rs) && hops > 1 && hops >= rs.hop_limit_threshold ==> r == (
                TcView { stats: c1.stats.push(STAT_SRV6_REPLICATE), ..c1 },
                Ok::<TcAct, ()>(TcAct::Shot),
            )
        }),
{
    reveal(l2::replicated);
}

/// Branches are served one after the other.
pub proof fn branches_are_served_in_turn(t: &Tables, c: TcView, rs: ReplSeg, k: int)
    ensures
        k <= 0 ==> l2::branches_served(t, c, rs, k) == c,
        k > 0 ==> l2::branches_served(t, c, rs, k) == l2::branch_served(
            t,
            l2::branches_served(t, c, rs, k - 1),
            rs.branches[k - 1],
        ),
{
}

/// A branch's copy is addressed to the branch's segment. A local one leaves on the
/// branch's port as it is; a remote one leaves for the nexthop in use, the
/// branch's own or that of the single-nexthop route to its segment, with link
/// addresses for it; without one there is no copy.
pub proof fn branch_gets_its_copy(
    t: &Tables,
    c: TcView,
    br: ReplBranch,
    f: FibEntry,
    id: u32,
    nh: NextHop,
    dst: [u8; 6],
    src: [u8; 6],
)
    requires
        c.data.len() >= 54,
    ensures
        ({
            let d = c.data.take(38) + br.sid@ + c.data.skip(54);
            let c1 = TcView { data: d, ..c };
            let r = l2::branch_served(t, c, br);
            let m = lpm::matched(t.fib6@, br.sid@);
            let single = m == Some(f) && f.flags & (FIB_F_ECMP | FIB_F_BLACKHOLE | FIB_F_LOCAL)
                == 0;
            let via = if br.nexthop_id != 0 {
                br.nexthop_id
            } else {
                f.nexthop_id
            };
            let remote = br.flags & REPL_BRANCH_LOCAL == 0;
            let (c2, in_use) = fib::resolved(t, c1, via);
            &&& !remote ==> r == (TcView { copies: c.copies.push((br.local_oif, d)), ..c1 })
            &&& remote && (br.nexthop_id != 0 || single) && in_use == Some((id, nh)) && fib::l2_of(
                t,
                nh,
            ) == Some((dst, src)) ==> {
                let out = dst@ + src@ + seq![0x86u8, 0xddu8] + d.skip(14);
                r == (TcView { data: out, copies: c2.copies.push((nh.oif, out)), ..c2 })
            }
            &&& remote && (br.nexthop_id != 0 || single) && (in_use is None || (in_use == Some(
                (id, nh),
            ) && fib::l2_of(t, nh) is None)) ==> r == c2
            &&& remote && br.nexthop_id == 0 && (m is None || (m == Some(f) && !single)) ==> r == c1
        }),
{
    assert(bytes::be16_bytes(0x86dd) =~= seq![0x86u8, 0xddu8]);
    assert(38 + br.sid@.len() == 54);
    reveal(fib::resolved);
}

// --------------------------------- overlays ---------------------------------

/// A tunnel's underlay is the nexthop it names, else that of the single-nexthop
/// route to its end, and is usable only with the neighbor known.
pub proof fn underlay_is_named_or_routed(
    t: &Tables,
    own: u32,
    f: FibEntry,
    nh: NextHop,
    dst: [u8; 6],
    src: [u8; 6],
)
    ensures
        own != 0 && t.nexthops@.get(own) == Some(nh) && fib::l2_of(t, nh) == Some((dst, src))
            ==> overlay::underlay(t, own, Some(f)) == Some((nh, dst, src)) && overlay::underlay(
            t,
            own,
            None,
        ) == Some((nh, dst, src)),
        own == 0 && f.flags & (FIB_F_ECMP | FIB_F_BLACKHOLE | FIB_F_LOCAL) == 0 && t.nexthops@.get(
            f.nexthop_id,
        ) == Some(nh) && fib::l2_of(t, nh) == Some((dst, src)) ==> overlay::underlay(
            t,
            own,
            Some(f),
        ) == Some((nh, dst, src)),
        own == 0 ==> overlay::underlay(t, own, None) is None,
        own == 0 && f.flags & (FIB_F_ECMP | FIB_F_BLACKHOLE | FIB_F_LOCAL) != 0
            ==> overlay::underlay(t, own, Some(f)) is None,
        own != 0 && t.nexthops@.get(own) is None ==> overlay::underlay(t, own, Some(f)) is None,
        own != 0 && t.nexthops@.get(own) == Some(nh) && fib::l2_of(t, nh) is None
            ==> overlay::underlay(t, own, Some(f)) is None,
{
}

/// A frame leaves for a remote bridge whole, behind outer headers to the remote
/// segment; without an underlay it is left alone.
pub proof fn frame_leaves_for_its_segment(
    t: &Tables,
    x: XdpView,
    ent: FdbEntry,
    idx: u32,
    nh: NextHop,
    dst: [u8; 6],
    src: [u8; 6],
)
    requires
        x.data.len() < 0x1_0000,
    ensures
        ({
            let u = overlay::underlay(t, ent.oif, lpm::matched(t.fib6@, ent.remote_sid@));
            let r = overlay::srv6_l2_encapped(t, x, ent, idx);
            &&& u is None ==> r == (x, Ok::<XdpAct, ()>(XdpAct::Pass))
            &&& u == Some((nh, dst, src)) && x.headroom < 54 ==> r == (x, Err::<XdpAct, ()>(()))
            &&& u == Some((nh, dst, src)) && x.headroom >= 54 ==> r == (
                XdpView {
                    data: dst@ + src@ + seq![0x86u8, 0xddu8] + headers::ip6_hdr(
                        x.data.len() as u16,
                        143,
                        64,
                        t.srv6_encap_src,
                        ent.remote_sid,
                    ) + x.data,
                    headroom: (x.headroom - 54) as usize,
                    stats: x.stats.push(idx),
                    ..x
                },
                Ok::<XdpAct, ()>(XdpAct::Redirect(nh.oif)),
            )
        }),
{
    reveal(overlay::srv6_l2_encapped);
    assert(bytes::be16_bytes(0x86dd) =~= seq![0x86u8, 0xddu8]);
    assert(x.data.skip(0) =~= x.data);
    let inner = x.data.len() as int;
    assert(bytes::wrap16(inner) == inner);
    let h = overlay::srv6_l2_outer(dst, src, t.srv6_encap_src, ent.remote_sid, inner);
    assert(h.len() == 54) by {
        carriers::outer6_layout(inner as u16, 143, 64, t.srv6_encap_src, ent.remote_sid);
        carriers::frame_header_layout(dst, src, 0x86dd);
    }
}

/// The port that a tunnelled frame leaves from: among the ephemeral ones, by the
/// first and last bytes of its addresses, so that both ways of a conversation
/// between two stations leave from the same.
pub proof fn source_port_tells_conversations(s: Seq<u8>, d: Seq<u8>)
    requires
        s.len() >= 12,
        d.len() >= 12,
    ensures
        overlay::entropy_port(s) >= 0xc000,
        overlay::entropy_port(s) == 0xc000 + ((s[0] ^ s[6]) + 256 * (s[5] ^ s[11])) % 0x4000,
        d.subrange(0, 6) == s.subrange(6, 12) && d.subrange(6, 12) == s.subrange(0, 6)
            ==> overlay::entropy_port(d) == overlay::entropy_port(s),
{
    if d.subrange(0, 6) == s.subrange(6, 12) && d.subrange(6, 12) == s.subrange(0, 6) {
        assert(d[0] == d.subrange(0, 6)[0] && d[5] == d.subrange(0, 6)[5]);
        assert(d[6] == d.subrange(6, 12)[0] && d[11] == d.subrange(6, 12)[5]);
        assert(s[0] == s.subrange(0, 6)[0] && s[5] == s.subrange(0, 6)[5]);
        assert(s[6] == s.subrange(6, 12)[0] && s[11] == s.subrange(6, 12)[5]);
        let (a, b, e, f) = (s[0], s[6], s[5], s[11]);
        assert(a ^ b == b ^ a && e ^ f == f ^ e) by (bit_vector);
    }
}

/// A frame leaves for a remote VXLAN bridge whole, behind outer headers to its end
/// with the network it belongs to; without an underlay, or an end of the node's
/// own, it is left alone.
pub proof fn frame_leaves_in_its_network(
    t: &Tables,
    x: XdpView,
    ent: FdbEntry,
    vni: u32,
    idx: u32,
    nh: NextHop,
    dst: [u8; 6],
    src: [u8; 6],
)
    requires
        12 <= x.data.len() < 0x1_0000 - 36,
    ensures
        ({
            let end = [
                ent.remote_sid[12],
                ent.remote_sid[13],
                ent.remote_sid[14],
                ent.remote_sid[15],
            ];
            let u = overlay::underlay(t, ent.oif, lpm::matched(t.fib4@, end@));
            let r = overlay::vxlan_l2_encapped(t, x, ent, vni, idx);
            let n = x.data.len() as int;
            let on = u == Some((nh, dst, src)) && t.vxlan_src != [0u8, 0u8, 0u8, 0u8];
            &&& u is None || t.vxlan_src == [0u8, 0u8, 0u8, 0u8] ==> r == (
                x,
                Ok::<XdpAct, ()>(XdpAct::Pass),
            )
            &&& on && x.headroom < 50 ==> r == (x, Err::<XdpAct, ()>(()))
            &&& on && x.headroom >= 50 ==> r == (
                XdpView {
                    data: dst@ + src@ + seq![0x08u8, 0x00u8] + checksum::ipv4_outer(
                        (n + 36) as u16,
                        t.vxlan_src,
                        end,
                    ) + headers::udp_hdr(overlay::entropy_port(x.data), 4789, (n + 16) as u16)
                        + headers::vxlan_hdr(vni) + x.data,
                    headroom: (x.headroom - 50) as usize,
                    stats: x.stats.push(idx),
                    ..x
                },
                Ok::<XdpAct, ()>(XdpAct::Redirect(nh.oif)),
            )
        }),
{
    reveal(overlay::vxlan_l2_encapped);
    let end = overlay::vtep_of(ent.remote_sid);
    let n = x.data.len() as int;
    assert(bytes::be16_bytes(0x0800) =~= seq![0x08u8, 0x00u8]);
    assert(x.data.skip(0) =~= x.data);
    assert(bytes::wrap16(n + 36) == n + 36 && bytes::wrap16(n + 16) == n + 16);
    let h = overlay::vxlan_outer(
        dst,
        src,
        t.vxlan_src,
        end,
        overlay::entropy_port(x.data),
        vni,
        n,
    );
    assert(h.len() == 50) by {
        carriers::outer4_layout((n + 36) as u16, t.vxlan_src, end);
        carriers::frame_header_layout(dst, src, 0x0800);
        carriers::tunnel_header_layout(
            overlay::entropy_port(x.data),
            4789,
            (n + 16) as u16,
            end,
            vni,
        );
    }
}

/// An overlay bridge learns every sender that is no group. A frame to a remote
/// station leaves through its tunnel; one to a group or to an unknown station
/// leaves through the domain's own tunnel, where it has one; all others go up.
pub proof fn overlay_bridge_tunnels(
    t: &Tables,
    x: XdpView,
    bd: u16,
    e: FdbEntry,
    own: FdbEntry,
)
    requires
        x.data.len() >= 12,
    ensures
        ({
            let s = x.data;
            let x1 = if s[6] % 2 == 0 {
                XdpView {
                    fdb: x.fdb.insert(
                        FdbKey { mac: bytes::oct6(s, 6), vlan: bd },
                        seen_on(x.iif, x.now),
                    ),
                    ..x
                }
            } else {
                x
            };
            let group = s[0] % 2 == 1;
            let known = x1.fdb.get(FdbKey { mac: bytes::oct6(s, 0), vlan: bd });
            let all = x1.fdb.get(
                FdbKey { mac: [0xffu8, 0xffu8, 0xffu8, 0xffu8, 0xffu8, 0xffu8], vlan: bd },
            );
            let r = overlay::evpn_staged(t, x, bd);
            &&& !group && known == Some(e) && e.flags & FDB_F_REMOTE != 0 ==> r
                == overlay::tunnelled(t, x1, e, bd, false)
            &&& !group && known == Some(e) && e.flags & FDB_F_REMOTE == 0 ==> r == (
                x1,
                Ok::<XdpAct, ()>(XdpAct::Pass),
            )
            &&& (group || known is None) && all == Some(own) && own.flags & FDB_F_REMOTE != 0 ==> r
                == overlay::tunnelled(t, x1, own, bd, true)
            &&& (group || known is None) && (all is None || (all == Some(own) && own.flags
                & FDB_F_REMOTE == 0)) ==> r == (x1, Ok::<XdpAct, ()>(XdpAct::Pass))
        }),
{
    reveal(overlay::evpn_staged);
}

/// A tunnel is of the kind its entry says: VXLAN in the domain's network, left
/// alone without one, else segment routing; floods are counted apart.
pub proof fn tunnel_is_of_its_kind(t: &Tables, x: XdpView, ent: FdbEntry, bd: u16, bum: bool, vni: u32)
    ensures
        ent.flags & FDB_F_VXLAN == 0 ==> overlay::tunnelled(t, x, ent, bd, bum)
            == overlay::srv6_l2_encapped(
            t,
            x,
            ent,
            if bum {
                STAT_SRV6_L2_BUM
            } else {
                STAT_SRV6_L2_ENCAP
            },
        ),
        ent.flags & FDB_F_VXLAN != 0 && t.vlan_vni@.get(bd) == Some(vni) ==> overlay::tunnelled(
            t,
            x,
            ent,
            bd,
            bum,
        ) == overlay::vxlan_l2_encapped(
            t,
            x,
            ent,
            vni,
            if bum {
                STAT_VXLAN_FLOOD
            } else {
                STAT_VXLAN_ENCAP
            },
        ),
        ent.flags & FDB_F_VXLAN != 0 && t.vlan_vni@.get(bd) is None ==> overlay::tunnelled(
            t,
            x,
            ent,
            bd,
            bum,
        ) == (x, Ok::<XdpAct, ()>(XdpAct::Pass)),
{
    reveal(overlay::tunnelled);
}

/// A user packet of a known GTP-U tunnel is uncovered and handed up for the
/// tunnel's table; one of no known tunnel goes up untouched, and what is inside
/// and neither IPv4 nor IPv6 is dropped.
pub proof fn gtp_tunnel_is_left(t: &Tables, x: XdpView, pdr: GtpPdr)
    requires
        x.data.len() >= 64,
        x.data[14] % 16 == 5,
        x.data[23] == 17,
        x.data[36] * 256 + x.data[37] == 2152,
    ensures
        ({
            let s = x.data;
            let user = s[42] % 8 == 0 && s[43] == 0xff;
            let rule = t.gtp_pdr@.get(
                GtpPdrKey { dst: bytes::oct4(s, 30), teid: bytes::oct4(s, 46) },
            );
            let (x1, r) = overlay::gtp_staged(t, x);
            let et: int = if s[50] / 16 == 4 {
                0x0800
            } else {
                0x86dd
            };
            let known = s[50] / 16 == 4 || s[50] / 16 == 6;
            let mine = user && rule == Some(pdr);
            &&& !user || rule is None ==> x1 == x && r == Ok::<XdpAct, ()>(XdpAct::Pass)
            &&& mine && !known ==> x1 == (XdpView { stats: x.stats.push(STAT_DROP), ..x }) && r
                == Ok::<XdpAct, ()>(XdpAct::Drop)
            &&& mine && known && (pdr.vrf_id == 0 || x.meta_room) ==> {
                &&& segments::inside(s, x1.data, 36, et)
                &&& x1 == (XdpView {
                    data: x1.data,
                    headroom: x1.headroom,
                    stats: x.stats.push(STAT_GTP_DECAP),
                    meta: if pdr.vrf_id == 0 {
                        x.meta
                    } else {
                        Some(
                            CradleXdpMeta {
                                magic: XDP_META_MAGIC ^ t.meta_cookie,
                                vrf_id: pdr.vrf_id,
                            },
                        )
                    },
                    ..x
                })
                &&& r == Ok::<XdpAct, ()>(XdpAct::Pass)
            }
            &&& mine && known && pdr.vrf_id != 0 && !x.meta_room ==> r == Ok::<XdpAct, ()>(
                XdpAct::Drop,
            )
        }),
{
    reveal(overlay::gtp_staged);
    bytes::be16_round_trip(0x0800);
    bytes::be16_round_trip(0x86dd);
    let d = overlay::gtp_staged(t, x).0.data;
    if d.len() == x.data.len() - 36 {
        assert forall|i: int| 14 <= i < d.len() implies #[trigger] d[i] == x.data[i + 36] by {}
    }
}

/// A frame of a known VXLAN network that came to this node's end is uncovered and
/// handed up: for the network's table, or for its bridge domain. Others go up
/// untouched.
pub proof fn vxlan_tunnel_is_left(t: &Tables, x: XdpView, info: VniInfo)
    requires
        x.data.len() >= 64,
    ensures
        ({
            let s = x.data;
            let mine = t.vxlan_src != [0u8, 0u8, 0u8, 0u8] && bytes::oct4(s, 30) == t.vxlan_src && (
            s[42] / 8) % 2 == 1;
            let bound = t.vni_info@.get(((s[46] * 256 + s[47]) * 256 + s[48]) as u32);
            let (x1, r) = overlay::vxlan_staged(t, x);
            &&& !mine || bound is None ==> x1 == x && r == Ok::<XdpAct, ()>(XdpAct::Pass)
            &&& mine && bound == Some(info) && x.meta_room ==> {
                &&& x1.data == s.skip(50)
                &&& x1 == (XdpView {
                    data: x1.data,
                    headroom: x1.headroom,
                    stats: x.stats.push(STAT_VXLAN_DECAP),
                    meta: if info.flags & VNI_F_L3 != 0 {
                        Some(
                            CradleXdpMeta {
                                magic: XDP_META_MAGIC ^ t.meta_cookie,
                                vrf_id: info.vrf_id,
                            },
                        )
                    } else {
                        Some(
                            CradleXdpMeta {
                                magic: XDP_META_MAGIC_L2 ^ t.meta_cookie,
                                vrf_id: info.vlan as u32,
                            },
                        )
                    },
                    ..x
                })
                &&& r == Ok::<XdpAct, ()>(XdpAct::Pass)
            }
            &&& mine && bound == Some(info) && !x.meta_room ==> r == Ok::<XdpAct, ()>(XdpAct::Drop)
        }),
{
    reveal(overlay::vxlan_staged);
    let s = x.data;
    assert(bytes::be32(s, 46) / 256 == (s[46] * 256 + s[47]) * 256 + s[48]);
}

// ----------------------------- failure detection ----------------------------

/// A neighbor's echo is sent back to it: between its link addresses swapped, with
/// one hop less; over IPv4 the checksum follows, over IPv6 the addresses are
/// swapped too. One without hops left is not.
pub proof fn echo_is_sent_back(t: &Tables, x: XdpView)
    requires
        x.data.len() >= 54,
    ensures
        ({
            let s = x.data;
            let (x1, r) = bfd::reflected4(t, x);
            let d = x1.data;
            let own = t.our_local_ips@.contains_key(bytes::be32(s, 26));
            &&& !own && s[22] == 0 ==> x1 == x && r is Err
            &&& !own && s[22] > 0 ==> {
                &&& r == Ok::<XdpAct, ()>(XdpAct::Tx)
                &&& d.len() == s.len()
                &&& forall|i: int| 0 <= i < 6 ==> #[trigger] d[i] == s[i + 6]
                &&& forall|i: int| 6 <= i < 12 ==> #[trigger] d[i] == s[i - 6]
                &&& d[22] == s[22] - 1
                &&& ((d[24] * 256 + d[25]) - (s[24] * 256 + s[25]) - 256) % 0xffff == 0
                &&& forall|i: int|
                    12 <= i < d.len() && i != 22 && i != 24 && i != 25 ==> #[trigger] d[i] == s[i]
                &&& x1 == (XdpView { data: d, ..x })
            }
        }),
        ({
            let s = x.data;
            let (x1, r) = bfd::reflected6(t, x);
            let d = x1.data;
            let own = t.our_local_ips_v6@.contains_key(bytes::oct16(s, 22));
            &&& !own && s[21] == 0 ==> x1 == x && r is Err
            &&& !own && s[21] > 0 ==> {
                &&& r == Ok::<XdpAct, ()>(XdpAct::Tx)
                &&& d.len() == s.len()
                &&& forall|i: int| 0 <= i < 6 ==> #[trigger] d[i] == s[i + 6]
                &&& forall|i: int| 6 <= i < 12 ==> #[trigger] d[i] == s[i - 6]
                &&& d[21] == s[21] - 1
                &&& forall|i: int| 22 <= i < 38 ==> #[trigger] d[i] == s[i + 16]
                &&& forall|i: int| 38 <= i < 54 ==> #[trigger] d[i] == s[i - 16]
                &&& forall|i: int|
                    (12 <= i < 21 || 54 <= i < d.len()) ==> #[trigger] d[i] == s[i]
                &&& x1 == (XdpView { data: d, ..x })
            }
        }),
{
    reveal(bfd::reflected4);
    reveal(bfd::reflected6);
    bytes::be16_round_trip(bfd::csum_after_decrement(bytes::be16(x.data, 24)));
}

/// One's own echo that came back renews the session it names, if it carries the
/// mark of an echo, and ends here.
pub proof fn own_echo_renews_its_session(t: &Tables, x: XdpView)
    requires
        x.data.len() >= 70,
    ensures
        ({
            let s = x.data;
            let own = t.our_local_ips@.contains_key(bytes::be32(s, 26));
            let marked = s[42] == 0x7a && s[43] == 0x62 && s[44] == 0x66 && s[45] == 0x64;
            let r = bfd::reflected4(t, x);
            &&& own && marked ==> r == (
                bfd::session_kicked(x, TimerKind::Echo, bytes::be32(s, 46)),
                Ok::<XdpAct, ()>(XdpAct::Drop),
            )
            &&& own && !marked ==> r == (x, Ok::<XdpAct, ()>(XdpAct::Drop))
        }),
        ({
            let s = x.data;
            let own = t.our_local_ips_v6@.contains_key(bytes::oct16(s, 22));
            let marked = s[62] == 0x7a && s[63] == 0x62 && s[64] == 0x66 && s[65] == 0x64;
            let r = bfd::reflected6(t, x);
            &&& own && marked ==> r == (
                bfd::session_kicked(x, TimerKind::Echo, bytes::be32(s, 66)),
                Ok::<XdpAct, ()>(XdpAct::Drop),
            )
            &&& own && !marked ==> r == (x, Ok::<XdpAct, ()>(XdpAct::Drop))
        }),
{
    reveal(bfd::reflected4);
    reveal(bfd::reflected6);
}

/// A renewed session is up: its timer starts anew with its own detection time, and
/// once timers work it counts as armed. A session that is not known stays so, and
/// the other kind's sessions are not touched.
pub proof fn session_is_renewed(x: XdpView, discr: u32, st: DetectState)
    ensures
        ({
            let next = DetectState {
                down: 0,
                armed: if st.armed == 0 && x.timer_init {
                    1
                } else {
                    st.armed
                },
                ..st
            };
            &&& x.echo.get(discr) is None ==> bfd::session_kicked(x, TimerKind::Echo, discr) == x
            &&& x.control.get(discr) is None ==> bfd::session_kicked(x, TimerKind::Control, discr)
                == x
            &&& x.echo.get(discr) == Some(st) ==> bfd::session_kicked(x, TimerKind::Echo, discr)
                == (XdpView {
                echo: x.echo.insert(discr, next),
                timers: x.timers.push(
                    TimerStart { kind: TimerKind::Echo, discr, delay_ns: st.detect_ns },
                ),
                ..x
            })
            &&& x.control.get(discr) == Some(st) ==> bfd::session_kicked(
                x,
                TimerKind::Control,
                discr,
            ) == (XdpView {
                control: x.control.insert(discr, next),
                timers: x.timers.push(
                    TimerStart { kind: TimerKind::Control, discr, delay_ns: st.detect_ns },
                ),
                ..x
            })
        }),
{
}

/// A control packet renews the session it names, if it came straight from a
/// neighbor, is of the first version and names one; it always goes on.
pub proof fn control_packet_renews_its_session(x: XdpView, ttl_off: int, off: int)
    requires
        0 <= ttl_off < x.data.len(),
        0 <= off,
        off + 12 <= x.data.len(),
    ensures
        ({
            let s = x.data;
            let named = ((s[off + 8] * 256 + s[off + 9]) * 256 + s[off + 10]) * 256 + s[off + 11];
            let counts = s[ttl_off] == 255 && s[off] / 32 == 1 && named != 0;
            &&& counts ==> bfd::observed(x, ttl_off, off).0 == bfd::session_kicked(
                x,
                TimerKind::Control,
                named as u32,
            )
            &&& !counts ==> bfd::observed(x, ttl_off, off).0 == x
        }),
{
}

// -------------------------------- the stages --------------------------------

/// What a frame's port stands for comes first: a replication slot's frame leaves
/// for the slot's target, a circuit's for its segment, the VLAN's before the
/// port's, a bridge port's is bridged; else the frame's type decides.
pub proof fn port_comes_before_type(
    t: &Tables,
    x: XdpView,
    tgt: ReplTarget,
    sid: [u8; 16],
    port: PortConfig,
)
    requires
        x.data.len() >= 16,
    ensures
        ({
            let s = x.data;
            let vlan = if s[12] * 256 + s[13] == 0x8100 {
                t.xconnect_vlan@.get(
                    Dx2vKey {
                        table: x.iif,
                        vid: ((s[14] * 256 + s[15]) % 4096) as u16,
                        _pad: [0u8, 0u8],
                    },
                )
            } else {
                None
            };
            let slot = t.repl_sid@.get(x.iif);
            let circuit = t.xconnect@.get(x.iif);
            let to = FdbEntry { oif: 0, flags: FDB_F_REMOTE, remote_sid: sid, last_seen: 0 };
            let r = xdp::staged(t, x);
            &&& slot == Some(tgt) ==> {
                let end = FdbEntry {
                    oif: 0,
                    flags: FDB_F_REMOTE,
                    remote_sid: tgt.addr,
                    last_seen: 0,
                };
                &&& tgt.kind == REPL_KIND_VXLAN ==> r == overlay::vxlan_l2_encapped(
                    t,
                    x,
                    end,
                    tgt.vni,
                    STAT_VXLAN_FLOOD,
                )
                &&& tgt.kind != REPL_KIND_VXLAN ==> r == overlay::srv6_l2_encapped(
                    t,
                    x,
                    end,
                    STAT_SRV6_L2_BUM,
                )
            }
            &&& slot is None && (vlan == Some(sid) || (vlan is None && circuit == Some(sid))) ==> r
                == overlay::srv6_l2_encapped(t, x, to, STAT_SRV6_L2_ENCAP)
            &&& slot is None && vlan is None && circuit is None && t.ports@.get(x.iif) == Some(port)
                && port.flags & PORT_F_L2 != 0 ==> r == overlay::evpn_staged(t, x, port.vlan)
            &&& slot is None && vlan is None && circuit is None && (t.ports@.get(x.iif) is None || (
            t.ports@.get(x.iif) == Some(port) && port.flags & PORT_F_L2 == 0)) ==> r
                == xdp::ethertype_staged(t, x)
        }),
{
    reveal(xdp::staged);
}

/// A labelled frame is handled by its labels, an IPv6 one by failure detection and
/// else by its segment, an IPv4 one by its UDP port; any other goes up.
pub proof fn type_decides(t: &Tables, x: XdpView)
    requires
        x.data.len() >= 14,
    ensures
        ({
            let s = x.data;
            let et = s[12] * 256 + s[13];
            let r = xdp::ethertype_staged(t, x);
            let (x1, b) = xdp::bfd6_staged(t, x);
            &&& et == 0x8847 ==> r == label::mpls_staged(t, x, 4)
            &&& et == 0x86dd && b == Ok::<Option<XdpAct>, ()>(None) ==> r == sids::srv6_staged(
                t,
                x1,
            )
            &&& et == 0x86dd && b is Err ==> r == (x1, Err::<XdpAct, ()>(()))
            &&& et == 0x86dd ==> match b {
                Ok(Some(a)) => r == (x1, Ok::<XdpAct, ()>(a)),
                _ => true,
            }
            &&& et == 0x0800 ==> r == xdp::udp4_staged(t, x)
            &&& et != 0x8847 && et != 0x86dd && et != 0x0800 ==> r == (
                x,
                Ok::<XdpAct, ()>(XdpAct::Pass),
            )
        }),
{
}

/// A UDP packet's destination port decides who handles it; what is no plain UDP,
/// and what is for no handler, goes up untouched.
pub proof fn port_decides(t: &Tables, x: XdpView)
    requires
        x.data.len() >= 58,
    ensures
        ({
            let s = x.data;
            let r = xdp::udp4_staged(t, x);
            let udp = s[14] % 16 == 5 && s[23] == 17;
            let port = s[36] * 256 + s[37];
            &&& udp && port == 2152 ==> r == overlay::gtp_staged(t, x)
            &&& udp && port == 4789 ==> r == overlay::vxlan_staged(t, x)
            &&& udp && port == 3785 ==> r == bfd::reflected4(t, x)
            &&& udp && port == 3784 ==> r == (
                bfd::observed(x, 22, 42).0,
                Ok::<XdpAct, ()>(XdpAct::Pass),
            )
            &&& !udp || (port != 2152 && port != 4789 && port != 3785 && port != 3784) ==> r == (
                x,
                Ok::<XdpAct, ()>(XdpAct::Pass),
            )
        }),
        ({
            let s = x.data;
            let (x1, r) = xdp::bfd6_staged(t, x);
            let port = s[56] * 256 + s[57];
            let back = bfd::reflected6(t, x);
            &&& s[20] == 17 && port == 3785 ==> x1 == back.0 && (back.1 matches Ok(a) ==> r == Ok::<
                Option<XdpAct>,
                (),
            >(Some(a))) && (back.1 is Err ==> r is Err)
            &&& s[20] == 17 && port == 3784 ==> x1 == bfd::observed(x, 21, 62).0 && r == Ok::<
                Option<XdpAct>,
                (),
            >(Some(XdpAct::Pass))
            &&& s[20] != 17 || (port != 3785 && port != 3784) ==> x1 == x && r == Ok::<
                Option<XdpAct>,
                (),
            >(None)
        }),
{
    reveal(xdp::udp4_staged);
    reveal(xdp::bfd6_staged);
}

/// What fails goes up.
pub proof fn failure_goes_up(a: XdpAct)
    ensures
        xdp::or_pass(Ok(a)) == a,
        xdp::or_pass(Err(())) == XdpAct::Pass,
{
}

// ------------------------------ plain forwarding ----------------------------

/// Whether `d` is `s` forwarded: with new link addresses, one hop less and a
/// checksum that follows.
pub open spec fn hopped4(s: Seq<u8>, d: Seq<u8>, dst: [u8; 6], src: [u8; 6]) -> bool {
    &&& d.len() == s.len()
    &&& forall|i: int| 0 <= i < 6 ==> #[trigger] d[i] == dst[i]
    &&& forall|i: int| 6 <= i < 12 ==> #[trigger] d[i] == src[i - 6]
    &&& d[22] == s[22] - 1
    &&& ((d[24] * 256 + d[25]) - (s[24] * 256 + s[25]) - 256) % 0xffff == 0
    &&& forall|i: int| 12 <= i < d.len() && i != 22 && i != 24 && i != 25 ==> #[trigger] d[i] == s[i]
}

/// A packet with hops left whose slot is of a plain unicast route to a plain
/// nexthop, with the neighbor known (the gateway, or on a connected route the
/// destination itself), leaves for it straight away. Any other goes up untouched.
pub proof fn plain_packet_is_forwarded(
    t: &Tables,
    x: XdpView,
    w: u32,
    counter: u32,
    nh: NextHop,
    dst: [u8; 6],
    src: [u8; 6],
)
    requires
        x.data.len() >= 34,
    ensures
        ({
            let s = x.data;
            let to = bytes::oct4(s, 30);
            let slot = fib::dir24(t, to);
            let (id, flags) = words::fibw_fields(w);
            let plain = slot == Some((w, counter)) && flags & (FIB_F_BLACKHOLE | FIB_F_LOCAL
                | FIB_F_ECMP) == 0;
            let bare = t.nexthops@.get(id) == Some(nh) && nh.flags & (NH_F_MPLS | NH_F_SRV6
                | NH_F_GTP | NH_F_VXLAN) == 0;
            let link = if flags & FIB_F_CONNECTED != 0 {
                fib::link4_of(t, nh.oif, bytes::be32(s, 30))
            } else {
                fib::l2_of(t, nh)
            };
            let (x1, r) = xdp::xdp_forwarded4(t, x);
            &&& slot is None || (slot == Some((w, counter)) && (!plain || t.nexthops@.get(id) is None
                || (t.nexthops@.get(id) == Some(nh) && (!bare || link is None)))) || s[22] <= 1 ==> x1
                == x && r == Ok::<XdpAct, ()>(XdpAct::Pass)
            &&& plain && bare && link == Some((dst, src)) && s[22] > 1 ==> {
                &&& hopped4(s, x1.data, dst, src)
                &&& x1 == (XdpView { data: x1.data, stats: x.stats.push(STAT_XDP_L3_FWD), ..x })
                &&& r == Ok::<XdpAct, ()>(XdpAct::Redirect(nh.oif))
            }
        }),
{
    reveal(xdp::xdp_forwarded4);
    let s = x.data;
    let to = bytes::oct4(s, 30);
    assert(to@[0] == s[30] && to@[1] == s[31] && to@[2] == s[32] && to@[3] == s[33]);
    assert(bytes::be32(to@, 0) == bytes::be32(s, 30));
    if s[22] > 1 {
        let old = bytes::be16(s, 22);
        let hc = bytes::be16(s, 24);
        let new = (old - 256) as u16;
        carriers::checksum_follows_its_word(hc, old, new);
        let r = checksum::csum16_updated(hc, old, new);
        bytes::be16_round_trip(r);
        let d = xdp::plain_frame(s, dst, src);
        assert(d[24] * 256 + d[25] == r);
    }
}

// ----------------------------- prefixes and hashes --------------------------

/// The bit of a key at a place, counted from the most significant of its first
/// byte.
pub open spec fn bit_at(key: Seq<u8>, place: int) -> bool {
    let b = key[place / 8];
    let k = place % 8;
    if k == 0 {
        (b / 128) % 2 == 1
    } else if k == 1 {
        (b / 64) % 2 == 1
    } else if k == 2 {
        (b / 32) % 2 == 1
    } else if k == 3 {
        (b / 16) % 2 == 1
    } else if k == 4 {
        (b / 8) % 2 == 1
    } else if k == 5 {
        (b / 4) % 2 == 1
    } else if k == 6 {
        (b / 2) % 2 == 1
    } else {
        b % 2 == 1
    }
}

/// A prefix covers the keys that are as long and have its bits, all of them.
pub proof fn prefix_covers_its_bits(prefix: Seq<u8>, bits: int, key: Seq<u8>)
    requires
        0 <= bits <= 8 * prefix.len(),
        bits <= 8 * key.len(),
    ensures
        lpm::covers(prefix, bits, key) <==> forall|j: int|
            0 <= j < bits ==> #[trigger] bit_at(prefix, j) == bit_at(key, j),
{
    let n = bits / 8;
    let k = bits % 8;
    if lpm::covers(prefix, bits, key) {
        assert forall|j: int| 0 <= j < bits implies #[trigger] bit_at(prefix, j) == bit_at(
            key,
            j,
        ) by {
            if j < 8 * n {
                assert(prefix.take(n)[j / 8] == prefix[j / 8]);
                assert(key.take(n)[j / 8] == key[j / 8]);
            } else {
                assert(j / 8 == n);
                top_bits_are_bits(prefix[n], key[n], k);
                assert(bit_at(seq![prefix[n]], j % 8) == bit_at(prefix, j));
                assert(bit_at(seq![key[n]], j % 8) == bit_at(key, j));
            }
        }
    }
    if forall|j: int| 0 <= j < bits ==> #[trigger] bit_at(prefix, j) == bit_at(key, j) {
        assert forall|i: int| 0 <= i < n implies prefix[i] == key[i] by {
            top_bits_are_bits(prefix[i], key[i], 8);
            assert forall|j: int| 0 <= j < 8 implies #[trigger] bit_at(seq![prefix[i]], j)
                == bit_at(seq![key[i]], j) by {
                assert((8 * i + j) / 8 == i && (8 * i + j) % 8 == j);
                assert(bit_at(prefix, 8 * i + j) == bit_at(key, 8 * i + j));
            }
        }
        assert(prefix.take(n) =~= key.take(n));
        if k != 0 {
            top_bits_are_bits(prefix[n], key[n], k);
            assert forall|j: int| 0 <= j < k implies #[trigger] bit_at(seq![prefix[n]], j)
                == bit_at(seq![key[n]], j) by {
                assert((8 * n + j) / 8 == n && (8 * n + j) % 8 == j);
                assert(bit_at(prefix, 8 * n + j) == bit_at(key, 8 * n + j));
            }
        }
    }
}

#[verifier::spinoff_prover]
proof fn top_bits_are_bits(a: u8, b: u8, k: int)
    requires
        0 <= k <= 8,
    ensures
        lpm::top_bits(a, k) == lpm::top_bits(b, k) <==> forall|j: int|
            0 <= j < k ==> #[trigger] bit_at(seq![a], j) == bit_at(seq![b], j),
{
    let (s, t) = (seq![a], seq![b]);
    assert(s[0] == a && t[0] == b);
    halves(a);
    halves(b);
    if forall|j: int| 0 <= j < k ==> #[trigger] bit_at(s, j) == bit_at(t, j) {
        if k >= 1 {
            assert(bit_at(s, 0) == bit_at(t, 0));
        }
        if k >= 2 {
            assert(bit_at(s, 1) == bit_at(t, 1));
        }
        if k >= 3 {
            assert(bit_at(s, 2) == bit_at(t, 2));
        }
        if k >= 4 {
            assert(bit_at(s, 3) == bit_at(t, 3));
        }
        if k >= 5 {
            assert(bit_at(s, 4) == bit_at(t, 4));
        }
        if k >= 6 {
            assert(bit_at(s, 5) == bit_at(t, 5));
        }
        if k >= 7 {
            assert(bit_at(s, 6) == bit_at(t, 6));
        }
        if k >= 8 {
            assert(bit_at(s, 7) == bit_at(t, 7));
        }
    }
}

#[verifier::spinoff_prover]
proof fn halves(a: u8)
    ensures
        a / 128 == (a / 128) % 2,
        a / 64 == 2 * (a / 128) + (a / 64) % 2,
        a / 32 == 2 * (a / 64) + (a / 32) % 2,
        a / 16 == 2 * (a / 32) + (a / 16) % 2,
        a / 8 == 2 * (a / 16) + (a / 8) % 2,
        a / 4 == 2 * (a / 8) + (a / 4) % 2,
        a / 2 == 2 * (a / 4) + (a / 2) % 2,
        a == 2 * (a / 2) + a % 2,
{
}

/// A flow's spread is that of its addresses, the destination turned by half a
/// word, its protocol and, for TCP and UDP, its ports: each of them counts.
pub proof fn spread_counts_the_flow(s: Seq<u8>, src: u32, dst: u32, a6: [u8; 16], b6: [u8; 16])
    requires
        s.len() >= 58,
    ensures
        ({
            let ports = if s[23] == 6 || s[23] == 17 {
                bytes::le32(s, 34)
            } else {
                0
            };
            let turned = ((dst % 0x1_0000) * 0x1_0000 + dst / 0x1_0000) as u32;
            fib::hash4(s, src, dst) == hash::fmix(src ^ turned ^ (s[23] as u32) ^ ports)
        }),
        ({
            let ports = if s[20] == 6 || s[20] == 17 {
                bytes::le32(s, 54)
            } else {
                0
            };
            let a = bytes::le32(a6@, 0) ^ bytes::le32(a6@, 4) ^ bytes::le32(a6@, 8) ^ bytes::le32(
                a6@,
                12,
            );
            let b = bytes::le32(b6@, 0) ^ bytes::le32(b6@, 4) ^ bytes::le32(b6@, 8) ^ bytes::le32(
                b6@,
                12,
            );
            let turned = ((b % 0x1_0000) * 0x1_0000 + b / 0x1_0000) as u32;
            fib::hash6(s, a6, b6) == hash::fmix(a ^ turned ^ (s[20] as u32) ^ ports)
        }),
{
    let p4 = src ^ hash::rotl16(dst) ^ (s[23] as u32);
    let p6 = fib::fold_words(a6@) ^ hash::rotl16(fib::fold_words(b6@)) ^ (s[20] as u32);
    assert(p4 ^ 0u32 == p4 && p6 ^ 0u32 == p6) by (bit_vector);
}

} // verus!
