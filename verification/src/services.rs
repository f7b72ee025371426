//! What the NAT stage is for: laws that say, in terms of the packet and the
//! tables, which flows are translated, to what, and what is remembered of them.

use vstd::prelude::*;
use crate::bytes;
use crate::l4;
use crate::lpm;
use crate::policy;
use crate::policy::{Flow4, Flow6};
use crate::skb::{CsumFix, TcView};
use crate::tables::Tables;
use crate::types::{
    AffinityKey, AffinityVal, BackendKey, CtEntry, CtEntry6, CtKey, CtKey6, ServiceInfo,
    ServiceKey, ServiceKey6, CT_F_DNAT, CT_F_SNAT, FLOW_DIR_EGRESS, FLOW_DIR_INGRESS,
    FLOW_TRANSLATED, STAT_L4_DNAT, STAT_L4_SNAT, STAT_MASQ, SVC_F_AFFINITY,
};

verus! {

// ---------------------------------- flows -----------------------------------

/// A packet has an IPv4 flow exactly if it is TCP or UDP behind a header without
/// options: its addresses and ports as they stand in the packet. Any other
/// packet has none, and one cut short is an error.
pub proof fn flow4_is_the_five_tuple(s: Seq<u8>)
    ensures
        s.len() >= 38 && s[14] % 16 == 5 && (s[23] == 6 || s[23] == 17) ==> (policy::ip4_flow(
            s,
        ) matches Ok(Some(f)) && {
            &&& bytes::le32_bytes(f.src) == s.subrange(26, 30)
            &&& bytes::le32_bytes(f.dst) == s.subrange(30, 34)
            &&& bytes::le16_bytes(f.sport) == s.subrange(34, 36)
            &&& bytes::le16_bytes(f.dport) == s.subrange(36, 38)
            &&& f.proto == s[23]
        }),
        s.len() >= 24 && (s[14] % 16 != 5 || (s[23] != 6 && s[23] != 17)) ==> policy::ip4_flow(s)
            == Ok::<Option<Flow4>, ()>(None),
        s.len() < 15 ==> policy::ip4_flow(s) is Err,
        15 <= s.len() < 38 && s[14] % 16 == 5 && (s.len() < 24 || s[23] == 6 || s[23] == 17)
            ==> policy::ip4_flow(s) is Err,
{
    if s.len() >= 38 {
        bytes::le_read_back(s[26], s[27], s[28], s[29]);
        bytes::le_read_back(s[30], s[31], s[32], s[33]);
        bytes::le_read_back(s[34], s[35], 0, 0);
        bytes::le_read_back(s[36], s[37], 0, 0);
        assert(s.subrange(26, 30) =~= seq![s[26], s[27], s[28], s[29]]);
        assert(s.subrange(30, 34) =~= seq![s[30], s[31], s[32], s[33]]);
        assert(s.subrange(34, 36) =~= seq![s[34], s[35]]);
        assert(s.subrange(36, 38) =~= seq![s[36], s[37]]);
    }
}

/// The IPv6 form: TCP or UDP right behind the base header.
pub proof fn flow6_is_the_five_tuple(s: Seq<u8>)
    ensures
        s.len() >= 58 && (s[20] == 6 || s[20] == 17) ==> (policy::ip6_flow(s) matches Ok(Some(f))
            && {
            &&& f.src@ == s.subrange(22, 38)
            &&& f.dst@ == s.subrange(38, 54)
            &&& bytes::le16_bytes(f.sport) == s.subrange(54, 56)
            &&& bytes::le16_bytes(f.dport) == s.subrange(56, 58)
            &&& f.proto == s[20]
        }),
        s.len() >= 21 && s[20] != 6 && s[20] != 17 ==> policy::ip6_flow(s) == Ok::<
            Option<Flow6>,
            (),
        >(None),
        s.len() < 21 || (s.len() < 58 && (s[20] == 6 || s[20] == 17)) ==> policy::ip6_flow(
            s,
        ) is Err,
{
    if s.len() >= 58 {
        bytes::le_read_back(s[54], s[55], 0, 0);
        bytes::le_read_back(s[56], s[57], 0, 0);
        assert(s.subrange(54, 56) =~= seq![s[54], s[55]]);
        assert(s.subrange(56, 58) =~= seq![s[56], s[57]]);
        assert(bytes::oct16(s, 22)@ =~= s.subrange(22, 38));
        assert(bytes::oct16(s, 38)@ =~= s.subrange(38, 54));
    }
}

/// Connections are told apart by all five parts of their tuple: two flows have
/// one key only if they are the same flow.
pub proof fn keys_tell_flows_apart(f: Flow4, g: Flow4, f6: Flow6, g6: Flow6)
    ensures
        policy::ct_key(f) == policy::ct_key(g) <==> f.src == g.src && f.dst == g.dst && f.sport
            == g.sport && f.dport == g.dport && f.proto == g.proto,
        policy::ct_key(f).src == f.src && policy::ct_key(f).dst == f.dst,
        policy::ct_key(f).src_port == f.sport && policy::ct_key(f).dst_port == f.dport,
        policy::ct_key6(f6) == policy::ct_key6(g6) <==> f6.src == g6.src && f6.dst == g6.dst
            && f6.sport == g6.sport && f6.dport == g6.dport && f6.proto == g6.proto,
        policy::ct_key6(f6).src == f6.src && policy::ct_key6(f6).dst == f6.dst,
        policy::ct_key6(f6).src_port == f6.sport && policy::ct_key6(f6).dst_port == f6.dport,
{
}

/// Turning a flow round swaps its ends and keeps its protocol; turning it round
/// twice gives it back.
pub proof fn reverse_swaps_ends(f: Flow4, f6: Flow6)
    ensures
        policy::reverse(f) == (Flow4 {
            src: f.dst,
            dst: f.src,
            sport: f.dport,
            dport: f.sport,
            proto: f.proto,
        }),
        policy::reverse6(f6) == (Flow6 {
            src: f6.dst,
            dst: f6.src,
            sport: f6.dport,
            dport: f6.sport,
            proto: f6.proto,
        }),
        policy::reverse(policy::reverse(f)) == f,
        policy::reverse6(policy::reverse6(f6)) == f6,
{
}

// --------------------------------- rewrites ---------------------------------

/// Where the L4 checksum of a packet stands: behind 16 bytes of a TCP header or
/// 6 of a UDP one.
pub open spec fn csum_at(l4: int, proto: u8) -> int {
    if proto == 6 {
        l4 + 16
    } else {
        l4 + 6
    }
}

/// Rewriting an end of a flow writes that address and that port, asks for the
/// header's patch and for the two of the L4 checksum, and counts it; every other
/// byte and all that is remembered stay. A UDP checksum of zero is to stay zero.
pub proof fn rewrite_is_local(c: TcView, f: Flow4, ip: u32, port: u16)
    requires
        f.proto == 6 || f.proto == 17,
        c.data.len() >= csum_at(34, f.proto) + 2,
    ensures
        ({
            let (d, r) = l4::dnatted(c, f, ip, port);
            let off = csum_at(34, f.proto) as u32;
            let zero = if f.proto == 17 { 0x20u64 } else { 0u64 };
            &&& r is Ok
            &&& d == (TcView {
                data: d.data,
                stats: c.stats.push(STAT_L4_DNAT),
                fixes: c.fixes.push(
                    CsumFix { l4: false, off: 24, from: f.dst as u64, to: ip as u64, flags: 4 },
                ).push(
                    CsumFix {
                        l4: true,
                        off,
                        from: f.dst as u64,
                        to: ip as u64,
                        flags: (0x14 + zero) as u64,
                    },
                ).push(
                    CsumFix {
                        l4: true,
                        off,
                        from: f.dport as u64,
                        to: port as u64,
                        flags: (2 + zero) as u64,
                    },
                ),
                ..c
            })
            &&& d.data.len() == c.data.len()
            &&& d.data.subrange(30, 34) == bytes::le32_bytes(ip)
            &&& d.data.subrange(36, 38) == bytes::le16_bytes(port)
            &&& forall|i: int|
                0 <= i < c.data.len() && !(30 <= i < 34) && !(36 <= i < 38) ==> d.data[i]
                    == c.data[i]
        }),
        ({
            let (d, r) = l4::snatted(c, f, ip, port);
            let off = csum_at(34, f.proto) as u32;
            let zero = if f.proto == 17 { 0x20u64 } else { 0u64 };
            &&& r is Ok
            &&& d == (TcView {
                data: d.data,
                stats: c.stats.push(STAT_L4_SNAT),
                fixes: c.fixes.push(
                    CsumFix { l4: false, off: 24, from: f.src as u64, to: ip as u64, flags: 4 },
                ).push(
                    CsumFix {
                        l4: true,
                        off,
                        from: f.src as u64,
                        to: ip as u64,
                        flags: (0x14 + zero) as u64,
                    },
                ).push(
                    CsumFix {
                        l4: true,
                        off,
                        from: f.sport as u64,
                        to: port as u64,
                        flags: (2 + zero) as u64,
                    },
                ),
                ..c
            })
            &&& d.data.len() == c.data.len()
            &&& d.data.subrange(26, 30) == bytes::le32_bytes(ip)
            &&& d.data.subrange(34, 36) == bytes::le16_bytes(port)
            &&& forall|i: int|
                0 <= i < c.data.len() && !(26 <= i < 30) && !(34 <= i < 36) ==> d.data[i]
                    == c.data[i]
        }),
{
    reveal(l4::dnatted);
    reveal(l4::snatted);
    let d = l4::dnatted(c, f, ip, port).0.data;
    let s = l4::snatted(c, f, ip, port).0.data;
    assert(d.subrange(30, 34) =~= bytes::le32_bytes(ip));
    assert(d.subrange(36, 38) =~= bytes::le16_bytes(port));
    assert(s.subrange(26, 30) =~= bytes::le32_bytes(ip));
    assert(s.subrange(34, 36) =~= bytes::le16_bytes(port));
}

/// The IPv6 form: the address's four words and the port are patched into the L4
/// checksum; there is no header checksum.
pub proof fn rewrite6_is_local(c: TcView, f: Flow6, ip: [u8; 16], port: u16)
    requires
        f.proto == 6 || f.proto == 17,
        c.data.len() >= csum_at(54, f.proto) + 2,
    ensures
        ({
            let (d, r) = l4::dnatted6(c, f, ip, port);
            &&& r is Ok
            &&& d == (TcView {
                data: d.data,
                stats: c.stats.push(STAT_L4_DNAT),
                fixes: d.fixes,
                ..c
            })
            &&& patches_of(c, d, f.proto, f.dst, ip, f.dport, port)
            &&& d.data.len() == c.data.len()
            &&& d.data.subrange(38, 54) == ip@
            &&& d.data.subrange(56, 58) == bytes::le16_bytes(port)
            &&& forall|i: int|
                0 <= i < c.data.len() && !(38 <= i < 54) && !(56 <= i < 58) ==> d.data[i]
                    == c.data[i]
        }),
        ({
            let (d, r) = l4::snatted6(c, f, ip, port);
            &&& r is Ok
            &&& d == (TcView {
                data: d.data,
                stats: c.stats.push(STAT_L4_SNAT),
                fixes: d.fixes,
                ..c
            })
            &&& patches_of(c, d, f.proto, f.src, ip, f.sport, port)
            &&& d.data.len() == c.data.len()
            &&& d.data.subrange(22, 38) == ip@
            &&& d.data.subrange(54, 56) == bytes::le16_bytes(port)
            &&& forall|i: int|
                0 <= i < c.data.len() && !(22 <= i < 38) && !(54 <= i < 56) ==> d.data[i]
                    == c.data[i]
        }),
{
    reveal(l4::dnatted6);
    reveal(l4::snatted6);
    let dv = l4::dnatted6(c, f, ip, port).0;
    let sv = l4::snatted6(c, f, ip, port).0;
    let (d, s) = (dv.data, sv.data);
    assert(d.subrange(38, 54) =~= ip@);
    assert(d.subrange(56, 58) =~= bytes::le16_bytes(port));
    assert(s.subrange(22, 38) =~= ip@);
    assert(s.subrange(54, 56) =~= bytes::le16_bytes(port));
    assert(dv.fixes.take(c.fixes.len() as int) =~= c.fixes);
    assert(sv.fixes.take(c.fixes.len() as int) =~= c.fixes);
}

/// Whether a run asks for the five patches of an address and a port.
pub open spec fn patches_of(
    c: TcView,
    d: TcView,
    proto: u8,
    from: [u8; 16],
    to: [u8; 16],
    port: u16,
    new_port: u16,
) -> bool {
    let n = c.fixes.len() as int;
    let zero = if proto == 17 { 0x20u64 } else { 0u64 };
    &&& d.fixes.len() == n + 5
    &&& d.fixes.take(n) == c.fixes
    &&& forall|k: int|
        0 <= k < 4 ==> {
            &&& (#[trigger] d.fixes[n + k]).l4
            &&& d.fixes[n + k].off == csum_at(54, proto)
            &&& d.fixes[n + k].from == bytes::le32(from@, 4 * k)
            &&& d.fixes[n + k].to == bytes::le32(to@, 4 * k)
            &&& d.fixes[n + k].flags == 0x14
        }
    &&& d.fixes[n + 4].l4
    &&& d.fixes[n + 4].off == csum_at(54, proto)
    &&& d.fixes[n + 4].from == port
    &&& d.fixes[n + 4].to == new_port
    &&& d.fixes[n + 4].flags == 2 + zero
}

// -------------------------------- new flows ---------------------------------

/// What is neither known, nor to a service, nor a pod's flow to an outside
/// address is left alone: bytes, patches and connections stay as they are.
pub proof fn other_flows_are_left_alone(t: &Tables, c: TcView, masq_src: bool, f: Flow4)
    requires
        policy::ip4_flow(c.data) == Ok::<Option<Flow4>, ()>(Some(f)),
        !c.ct.contains_key(
            CtKey {
                src: f.src,
                dst: f.dst,
                src_port: f.sport,
                dst_port: f.dport,
                proto: f.proto,
                _pad: [0u8, 0u8, 0u8],
            },
        ),
        !t.services@.contains_key(
            ServiceKey { vip: f.dst, port: f.dport, proto: f.proto, _pad: 0 },
        ),
        !masq_src || t.masq_node == 0 || lpm::matched(
            t.non_masq@,
            c.data.subrange(30, 34),
        ) is Some,
    ensures
        l4::natted4(t, c, masq_src) == (c, Ok::<(), ()>(())),
{
    reveal(l4::natted4);
    reveal(l4::masqueraded);
    assert(bytes::oct4(c.data, 30)@ =~= c.data.subrange(30, 34));
}

/// A packet without a flow is left alone.
pub proof fn flowless_packet_is_left_alone(t: &Tables, c: TcView, masq_src: bool)
    ensures
        policy::ip4_flow(c.data) == Ok::<Option<Flow4>, ()>(None) ==> {
            &&& l4::natted4(t, c, masq_src) == (c, Ok::<(), ()>(()))
            &&& l4::egress_unnatted(c).0 == c
        },
        policy::ip4_flow(c.data) is Err ==> {
            &&& l4::natted4(t, c, masq_src) == (c, Err::<(), ()>(()))
            &&& l4::egress_unnatted(c).0 == c
        },
        policy::ip6_flow(c.data) == Ok::<Option<Flow6>, ()>(None) ==> l4::natted6(t, c) == (
            c,
            Ok::<(), ()>(()),
        ),
        policy::ip6_flow(c.data) is Err ==> l4::natted6(t, c) == (c, Err::<(), ()>(())),
{
    reveal(l4::natted4);
    reveal(l4::natted6);
    reveal(l4::egress_unnatted);
}

/// A pod's new flow to an outside address leaves from the node's, its port kept.
/// Remembered are its own translation and that of its replies, and the flow is
/// reported.
pub proof fn pods_flow_leaves_from_the_node(t: &Tables, c: TcView, f: Flow4)
    requires
        policy::ip4_flow(c.data) == Ok::<Option<Flow4>, ()>(Some(f)),
        !c.ct.contains_key(policy::ct_key(f)),
        !t.services@.contains_key(
            ServiceKey { vip: f.dst, port: f.dport, proto: f.proto, _pad: 0 },
        ),
        t.masq_node != 0,
        lpm::matched(t.non_masq@, c.data.subrange(30, 34)) is None,
        c.data.len() >= csum_at(34, f.proto) + 2,
    ensures
        ({
            let out = CtEntry {
                rev_addr: t.masq_node,
                rev_port: f.sport,
                flags: CT_F_SNAT,
                last_seen: c.now,
            };
            let back = CtEntry {
                rev_addr: f.src,
                rev_port: f.sport,
                flags: CT_F_DNAT,
                last_seen: c.now,
            };
            let reply = CtKey {
                src: f.dst,
                dst: t.masq_node,
                src_port: f.dport,
                dst_port: f.sport,
                proto: f.proto,
                _pad: [0u8, 0u8, 0u8],
            };
            let c1 = policy::emitted(
                TcView { ct: c.ct.insert(policy::ct_key(f), out).insert(reply, back), ..c },
                FLOW_TRANSLATED,
                FLOW_DIR_EGRESS,
                0,
                0,
            );
            let (c2, r) = l4::snatted(c1, f, t.masq_node, f.sport);
            l4::natted4(t, c, true) == (
                TcView { stats: c2.stats.push(STAT_MASQ), ..c2 },
                Ok::<(), ()>(()),
            )
        }),
{
    reveal(l4::natted4);
    reveal(l4::masqueraded);
    reveal(policy::emitted);
    assert(bytes::oct4(c.data, 30)@ =~= c.data.subrange(30, 34));
    reveal(l4::snatted);
}

/// A new flow to a service goes to the backend in the picked slot. Remembered are
/// its own translation and that of the backend's replies, and the flow is
/// reported. A service without backends, or without one in the slot, translates
/// nothing and remembers no connection.
pub proof fn service_flow_goes_to_a_backend(
    t: &Tables,
    c: TcView,
    masq_src: bool,
    f: Flow4,
    svc: ServiceInfo,
)
    requires
        policy::ip4_flow(c.data) == Ok::<Option<Flow4>, ()>(Some(f)),
        !c.ct.contains_key(policy::ct_key(f)),
        t.services@.get(ServiceKey { vip: f.dst, port: f.dport, proto: f.proto, _pad: 0 }) == Some(
            svc,
        ),
    ensures
        svc.backend_count == 0 ==> l4::natted4(t, c, masq_src) == (c, Ok::<(), ()>(())),
        svc.backend_count != 0 ==> ({
            let slot = l4::picked(c, svc, f.src);
            let c1 = l4::pick_recorded(c, svc, f.src);
            match t.backends@.get(BackendKey { svc_id: svc.svc_id, slot, _pad: 0 }) {
                None => l4::natted4(t, c, masq_src) == (c1, Ok::<(), ()>(())),
                Some(be) => {
                    let fwd = CtEntry {
                        rev_addr: be.addr,
                        rev_port: be.port,
                        flags: CT_F_DNAT,
                        last_seen: c.now,
                    };
                    let rev = CtEntry {
                        rev_addr: f.dst,
                        rev_port: f.dport,
                        flags: CT_F_SNAT,
                        last_seen: c.now,
                    };
                    let reply = CtKey {
                        src: be.addr,
                        dst: f.src,
                        src_port: be.port,
                        dst_port: f.sport,
                        proto: f.proto,
                        _pad: [0u8, 0u8, 0u8],
                    };
                    l4::natted4(t, c, masq_src) == l4::dnatted(
                        policy::emitted(
                            TcView {
                                ct: c.ct.insert(policy::ct_key(f), fwd).insert(reply, rev),
                                ..c1
                            },
                            FLOW_TRANSLATED,
                            FLOW_DIR_INGRESS,
                            0,
                            0,
                        ),
                        f,
                        be.addr,
                        be.port,
                    )
                },
            }
        }),
{
    reveal(l4::natted4);
    reveal(l4::balanced);
}

/// The slot of a new flow is the random number modulo the number of backends,
/// unless the service has affinity and remembers a slot of this client that is
/// still in range and was used within three hours. With affinity the pick is
/// remembered as used now; without it nothing is remembered.
pub proof fn slot_is_random_or_remembered(c: TcView, svc: ServiceInfo, client: u32)
    requires
        svc.backend_count > 0,
    ensures
        ({
            let key = AffinityKey { svc_id: svc.svc_id, client };
            let fresh = (c.rand % svc.backend_count as u32) as u16;
            let slot = l4::picked(c, svc, client);
            &&& svc.flags & SVC_F_AFFINITY == 0 ==> slot == fresh && l4::pick_recorded(
                c,
                svc,
                client,
            ) == c
            &&& svc.flags & SVC_F_AFFINITY != 0 ==> {
                &&& l4::pick_recorded(c, svc, client) == (TcView {
                    affinity: c.affinity.insert(
                        key,
                        AffinityVal { slot, _pad: 0, last_ns: c.now },
                    ),
                    ..c
                })
                &&& !c.affinity.contains_key(key) ==> slot == fresh
                &&& c.affinity.get(key) matches Some(a) ==> {
                    &&& a.slot < svc.backend_count && a.last_ns <= c.now && c.now - a.last_ns
                        < 10_800_000_000_000 ==> slot == a.slot
                    &&& a.slot >= svc.backend_count ==> slot == fresh
                    &&& a.last_ns <= c.now && c.now - a.last_ns >= 10_800_000_000_000 ==> slot
                        == fresh
                }
            }
        }),
{
}

// ------------------------------- known flows --------------------------------

/// A packet of a known flow gets the remembered translation: of its destination
/// if the connection was translated forward, else of its source; and the
/// connection is dated by the packet. No service, no masquerade counts.
pub proof fn known_flow_is_translated(
    t: &Tables,
    c: TcView,
    masq_src: bool,
    f: Flow4,
    e: CtEntry,
)
    requires
        policy::ip4_flow(c.data) == Ok::<Option<Flow4>, ()>(Some(f)),
        c.ct.get(policy::ct_key(f)) == Some(e),
    ensures
        ({
            let c1 = TcView {
                ct: c.ct.insert(policy::ct_key(f), CtEntry { last_seen: c.now, ..e }),
                ..c
            };
            &&& e.flags & CT_F_DNAT != 0 ==> l4::natted4(t, c, masq_src) == l4::dnatted(
                c1,
                f,
                e.rev_addr,
                e.rev_port,
            )
            &&& e.flags & CT_F_DNAT == 0 && e.flags & CT_F_SNAT != 0 ==> l4::natted4(
                t,
                c,
                masq_src,
            ) == l4::snatted(c1, f, e.rev_addr, e.rev_port)
            &&& e.flags & CT_F_DNAT == 0 && e.flags & CT_F_SNAT == 0 ==> l4::natted4(
                t,
                c,
                masq_src,
            ) == (c1, Ok::<(), ()>(()))
        }),
{
    reveal(l4::natted4);
}

/// On its way out a packet is translated only if its flow is remembered as the
/// reply of a service: then its source is. Everything else passes unchanged, and
/// so does what is not IPv4.
pub proof fn only_replies_are_translated_on_the_way_out(c: TcView, f: Flow4)
    ensures
        c.data.len() >= 14 && c.data[12] * 256 + c.data[13] != 0x0800 ==> l4::egress_unnatted(c)
            == (c, Ok::<(), ()>(())),
        c.data.len() >= 14 && c.data[12] * 256 + c.data[13] == 0x0800 && policy::ip4_flow(c.data)
            == Ok::<Option<Flow4>, ()>(Some(f)) ==> match c.ct.get(policy::ct_key(f)) {
            None => l4::egress_unnatted(c) == (c, Ok::<(), ()>(())),
            Some(e) => if e.flags & CT_F_SNAT == 0 {
                l4::egress_unnatted(c) == (c, Ok::<(), ()>(()))
            } else {
                l4::egress_unnatted(c) == l4::snatted(
                    TcView {
                        ct: c.ct.insert(policy::ct_key(f), CtEntry { last_seen: c.now, ..e }),
                        ..c
                    },
                    f,
                    e.rev_addr,
                    e.rev_port,
                )
            },
        },
{
    reveal(l4::egress_unnatted);
}

/// The NAT stage works on IPv4 and IPv6 packets, each by its own rules, and
/// leaves every other frame alone.
pub proof fn nat_goes_by_ethertype(t: &Tables, c: TcView, masq_src: bool)
    requires
        c.data.len() >= 14,
    ensures
        ({
            let et = c.data[12] * 256 + c.data[13];
            l4::natted(t, c, masq_src) == (if et == 0x0800 {
                l4::natted4(t, c, masq_src)
            } else if et == 0x86dd {
                l4::natted6(t, c)
            } else {
                (c, Ok(()))
            })
        }),
{
}

// ----------------------------------- IPv6 -----------------------------------

/// An IPv6 packet of a known flow gets the remembered translation.
pub proof fn known_flow6_is_translated(t: &Tables, c: TcView, f: Flow6, e: CtEntry6)
    requires
        policy::ip6_flow(c.data) == Ok::<Option<Flow6>, ()>(Some(f)),
        c.ct6.get(policy::ct_key6(f)) == Some(e),
    ensures
        ({
            let c1 = TcView {
                ct6: c.ct6.insert(policy::ct_key6(f), CtEntry6 { last_seen: c.now, ..e }),
                ..c
            };
            &&& e.flags & CT_F_DNAT != 0 ==> l4::natted6(t, c) == l4::dnatted6(
                c1,
                f,
                e.rev_addr,
                e.rev_port,
            )
            &&& e.flags & CT_F_DNAT == 0 && e.flags & CT_F_SNAT != 0 ==> l4::natted6(t, c)
                == l4::snatted6(c1, f, e.rev_addr, e.rev_port)
            &&& e.flags & CT_F_DNAT == 0 && e.flags & CT_F_SNAT == 0 ==> l4::natted6(t, c) == (
                c1,
                Ok::<(), ()>(()),
            )
        }),
{
    reveal(l4::natted6);
}

/// A new IPv6 flow goes to a random backend of its service; a flow to no service
/// is left alone.
pub proof fn service_flow6_goes_to_a_backend(t: &Tables, c: TcView, f: Flow6)
    requires
        policy::ip6_flow(c.data) == Ok::<Option<Flow6>, ()>(Some(f)),
        !c.ct6.contains_key(policy::ct_key6(f)),
    ensures
        match t.services6@.get(ServiceKey6 { vip: f.dst, port: f.dport, proto: f.proto, _pad: 0 }) {
            None => l4::natted6(t, c) == (c, Ok::<(), ()>(())),
            Some(svc) => if svc.backend_count == 0 {
                l4::natted6(t, c) == (c, Ok::<(), ()>(()))
            } else {
                let slot = (c.rand % svc.backend_count as u32) as u16;
                match t.backends6@.get(BackendKey { svc_id: svc.svc_id, slot, _pad: 0 }) {
                    None => l4::natted6(t, c) == (c, Ok::<(), ()>(())),
                    Some(be) => {
                        let fwd = CtEntry6 {
                            rev_addr: be.addr,
                            rev_port: be.port,
                            flags: CT_F_DNAT,
                            last_seen: c.now,
                        };
                        let rev = CtEntry6 {
                            rev_addr: f.dst,
                            rev_port: f.dport,
                            flags: CT_F_SNAT,
                            last_seen: c.now,
                        };
                        let reply = CtKey6 {
                            src: be.addr,
                            dst: f.src,
                            src_port: be.port,
                            dst_port: f.sport,
                            proto: f.proto,
                            _pad: [0u8, 0u8, 0u8],
                        };
                        l4::natted6(t, c) == l4::dnatted6(
                            TcView {
                                ct6: c.ct6.insert(policy::ct_key6(f), fwd).insert(reply, rev),
                                ..c
                            },
                            f,
                            be.addr,
                            be.port,
                        )
                    },
                }
            },
        },
{
    reveal(l4::natted6);
}

} // verus!
