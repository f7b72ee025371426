//! What policy and the TC pipeline are for: laws that say, in terms of the
//! packet, the rules and the ports, what is let through and what is remembered.

use vstd::prelude::*;
use crate::bytes;
use crate::fib;
use crate::impose;
use crate::l2;
use crate::l3;
use crate::l4;
use crate::lpm;
use crate::policy;
use crate::policy::{Flow4, Flow6};
use crate::skb::{TcAct, TcView};
use crate::tables::Tables;
use crate::tc;
use crate::types::{
    CradleXdpMeta, FibEntry, NextHop, PolicyKey, PortConfig, ServiceKey, VrfId6Key, VrfIdKey,
    DPC_L3_ONLY, EP_F_AUDIT, EP_F_EGRESS, EP_F_GEN, EP_F_INGRESS, FLOW_AUDITED, FLOW_DIR_EGRESS,
    FLOW_DIR_INGRESS, FLOW_DROPPED, PCT_INBOUND, PCT_POD_INITIATED, POLICY_DENY, PORT_F_ENDPOINT,
    PORT_F_L2, PORT_F_L3, STAT_L7_REDIRECT, STAT_POLICY_AUDIT, STAT_POLICY_DROP,
    XDP_META_MAGIC_DX2, XDP_META_MAGIC_L2, XDP_META_MAGIC_REPL,
};
use crate::wire::{ETH_P_IP, ETH_P_IPV6};

verus! {

// ---------------------------------- rules -----------------------------------

/// Whether a rule is meant for a packet: for its endpoint in the direction and
/// generation asked about, and, as far as the rule names them, for its peer, its
/// protocol and its port.
pub open spec fn meant_for(
    k: PolicyKey,
    ep: u32,
    identity: u32,
    proto: u8,
    port: u16,
    dir: u8,
) -> bool {
    &&& k.ep == ep && k.dir == dir
    &&& k.identity != 0 ==> k.identity == identity
    &&& k.proto != 0 ==> k.proto == proto
    &&& k.port != 0 ==> k.port == port
}

/// A rule counts exactly for the packets it is meant for. One that denies such a
/// packet denies it whatever else there is; without any the packet is denied;
/// and one meant for other packets changes nothing.
pub proof fn rule_counts_for_its_packets(
    rules: Map<PolicyKey, u8>,
    ep: u32,
    identity: u32,
    proto: u8,
    port: u16,
    dir: u8,
    k: PolicyKey,
    v: u8,
)
    ensures
        meant_for(k, ep, identity, proto, port, dir) && v == POLICY_DENY ==> policy::rules_deny(
            rules.insert(k, v),
            ep,
            identity,
            proto,
            port,
            dir,
        ),
        meant_for(k, ep, identity, proto, port, dir) && v != POLICY_DENY && !rules.contains_key(k)
            ==> policy::rules_deny(rules.insert(k, v), ep, identity, proto, port, dir) == exists|
            d: PolicyKey,
        | #[trigger]
            rules.get(d) == Some(POLICY_DENY) && meant_for(d, ep, identity, proto, port, dir),
        !meant_for(k, ep, identity, proto, port, dir) ==> policy::rules_deny(
            rules.insert(k, v),
            ep,
            identity,
            proto,
            port,
            dir,
        ) == policy::rules_deny(rules, ep, identity, proto, port, dir),
        (forall|d: PolicyKey|
            meant_for(d, ep, identity, proto, port, dir) ==> !#[trigger] rules.contains_key(d))
            ==> policy::rules_deny(rules, ep, identity, proto, port, dir),
{
    let after = rules.insert(k, v);
    assert forall|d: PolicyKey| #[trigger]
        policy::covers(d, ep, identity, proto, port, dir) == meant_for(
            d,
            ep,
            identity,
            proto,
            port,
            dir,
        ) by {}
    if policy::covers(k, ep, identity, proto, port, dir) {
        assert(after.contains_key(k) && after.get(k) == Some(v));
        if v != POLICY_DENY && !rules.contains_key(k) {
            if policy::rules_deny(after, ep, identity, proto, port, dir) {
                let d = choose|d: PolicyKey| #[trigger]
                    policy::covers(d, ep, identity, proto, port, dir) && after.get(d) == Some(
                        POLICY_DENY,
                    );
                assert(rules.get(d) == Some(POLICY_DENY));
            }
            if exists|d: PolicyKey| #[trigger]
                rules.get(d) == Some(POLICY_DENY) && meant_for(
                    d,
                    ep,
                    identity,
                    proto,
                    port,
                    dir,
                ) {
                let d = choose|d: PolicyKey| #[trigger]
                    rules.get(d) == Some(POLICY_DENY) && meant_for(
                        d,
                        ep,
                        identity,
                        proto,
                        port,
                        dir,
                    );
                assert(after.get(d) == Some(POLICY_DENY));
                assert(policy::covers(d, ep, identity, proto, port, dir));
            }
        }
    } else {
        assert forall|d: PolicyKey| #[trigger]
            policy::covers(d, ep, identity, proto, port, dir) implies after.get(d) == rules.get(d)
            && after.contains_key(d) == rules.contains_key(d) by {}
        if policy::rules_deny(rules, ep, identity, proto, port, dir) && exists|d: PolicyKey|
         #[trigger]
            policy::covers(d, ep, identity, proto, port, dir) && rules.get(d) == Some(POLICY_DENY) {
            let d = choose|d: PolicyKey| #[trigger]
                policy::covers(d, ep, identity, proto, port, dir) && rules.get(d) == Some(
                    POLICY_DENY,
                );
            assert(after.get(d) == Some(POLICY_DENY));
        }
    }
}

/// A peer's identity is that bound to its address in the VRF, else that of the
/// longest range around it there, else the world's.
pub proof fn identity_is_the_most_exact(t: &Tables, vrf: u32, peer: u32, peer6: [u8; 16], id: u32)
    ensures
        t.identity@.get(VrfIdKey { vrf_id: vrf, addr: peer }) == Some(id)
            ==> policy::peer_identity(t, vrf, peer) == id,
        t.identity@.get(VrfIdKey { vrf_id: vrf, addr: peer }) is None
            ==> policy::peer_identity(t, vrf, peer) == match lpm::matched(
            t.cidr_id@,
            bytes::le32_bytes(vrf) + bytes::le32_bytes(peer),
        ) {
            Some(range) => range,
            None => 2,
        },
        t.identity6@.get(VrfId6Key { vrf_id: vrf, addr: peer6 }) == Some(id)
            ==> policy::peer_identity6(t, vrf, peer6) == id,
        t.identity6@.get(VrfId6Key { vrf_id: vrf, addr: peer6 }) is None
            ==> policy::peer_identity6(t, vrf, peer6) == match lpm::matched(
            t.cidr_id6@,
            bytes::le32_bytes(vrf) + peer6@,
        ) {
            Some(range) => range,
            None => 2,
        },
{
}

/// A verdict judges a packet by its addresses and protocol, and by its ports
/// where it has them and they are where a plain header leaves them; a packet cut
/// short cannot be judged.
pub proof fn verdict_reads_the_packet(s: Seq<u8>)
    ensures
        s.len() < 34 ==> policy::judged4(s) is Err,
        s.len() >= 38 ==> (policy::judged4(s) matches Ok(f) && {
            &&& f.src == bytes::le32(s, 26) && f.dst == bytes::le32(s, 30) && f.proto == s[23]
            &&& (s[23] == 6 || s[23] == 17) && s[14] % 16 == 5 ==> f.sport == bytes::le16(s, 34)
                && f.dport == bytes::le16(s, 36)
            &&& !((s[23] == 6 || s[23] == 17) && s[14] % 16 == 5) ==> f.sport == 0 && f.dport == 0
        }),
        34 <= s.len() < 38 ==> (policy::judged4(s) is Err <==> (s[23] == 6 || s[23] == 17)
            && s[14] % 16 == 5),
        s.len() < 54 ==> policy::judged6(s) is Err,
        s.len() >= 58 ==> (policy::judged6(s) matches Ok(f) && {
            &&& f.src@ == s.subrange(22, 38) && f.dst@ == s.subrange(38, 54) && f.proto == s[20]
            &&& s[20] == 6 || s[20] == 17 ==> f.sport == bytes::le16(s, 54) && f.dport
                == bytes::le16(s, 56)
            &&& s[20] != 6 && s[20] != 17 ==> f.sport == 0 && f.dport == 0
        }),
        54 <= s.len() < 58 ==> (policy::judged6(s) is Err <==> s[20] == 6 || s[20] == 17),
{
    if s.len() >= 58 {
        assert(bytes::oct16(s, 22)@ =~= s.subrange(22, 38));
        assert(bytes::oct16(s, 38)@ =~= s.subrange(38, 54));
    }
}

/// A packet is let through without asking the rules if its reverse is remembered;
/// else the rules decide about its peer, at the other end of its direction, by
/// its protocol and destination port.
pub proof fn rules_decide_about_the_peer(
    t: &Tables,
    c: TcView,
    ep: u32,
    dir: u8,
    vrf: u32,
    f: Flow4,
    f6: Flow6,
)
    ensures
        policy::judged4(c.data) == Ok::<Flow4, ()>(f) && c.pct.contains_key(
            policy::ct_key(policy::reverse(f)),
        ) ==> policy::denied4(t, c, ep, dir, vrf) == (c, Ok::<bool, ()>(false)),
        policy::judged4(c.data) == Ok::<Flow4, ()>(f) && !c.pct.contains_key(
            policy::ct_key(policy::reverse(f)),
        ) ==> ({
            let id = policy::peer_identity(t, vrf, if dir & 1 != 0 { f.dst } else { f.src });
            policy::denied4(t, c, ep, dir, vrf) == (
                TcView { peer_id: id, ..c },
                Ok::<bool, ()>(policy::rules_deny(t.policy@, ep, id, f.proto, f.dport, dir)),
            )
        }),
        policy::judged4(c.data) is Err ==> policy::denied4(t, c, ep, dir, vrf) == (
            c,
            Err::<bool, ()>(()),
        ),
        policy::judged6(c.data) == Ok::<Flow6, ()>(f6) && c.pct6.contains_key(
            policy::ct_key6(policy::reverse6(f6)),
        ) ==> policy::denied6(t, c, ep, dir, vrf) == (c, Ok::<bool, ()>(false)),
        policy::judged6(c.data) == Ok::<Flow6, ()>(f6) && !c.pct6.contains_key(
            policy::ct_key6(policy::reverse6(f6)),
        ) ==> ({
            let id = policy::peer_identity6(t, vrf, if dir & 1 != 0 { f6.dst } else { f6.src });
            policy::denied6(t, c, ep, dir, vrf) == (
                TcView { peer_id: id, ..c },
                Ok::<bool, ()>(policy::rules_deny(t.policy@, ep, id, f6.proto, f6.dport, dir)),
            )
        }),
        policy::judged6(c.data) is Err ==> policy::denied6(t, c, ep, dir, vrf) == (
            c,
            Err::<bool, ()>(()),
        ),
{
    reveal(policy::denied4);
    reveal(policy::denied6);
}

/// The rules asked are those of the endpoint's active generation.
pub proof fn active_generation_is_asked(ep_flags: u8, dir: u8)
    requires
        dir < 2,
    ensures
        ep_flags & EP_F_GEN == 0 ==> policy::dir_gen_of(ep_flags, dir) == dir,
        ep_flags & EP_F_GEN != 0 ==> policy::dir_gen_of(ep_flags, dir) == dir + 2,
{
    assert(dir < 2 ==> dir | 0u8 == dir && dir | 2u8 == dir + 2) by (bit_vector);
}

/// A packet that the verdict lets through passes uncounted; one that it does not,
/// or cannot judge, is counted, reported and dropped, or, of an audited
/// endpoint, counted and reported as such and let through.
pub proof fn denied_packets_are_dropped(
    t: &Tables,
    c: TcView,
    ep: u32,
    f: u8,
    dir: u8,
    flow_dir: u8,
    vrf: u32,
)
    ensures
        ({
            let (c1, v) = policy::denied4(t, c, ep, policy::dir_gen_of(f, dir), vrf);
            policy::enforced4(t, c, ep, f, dir, flow_dir, vrf) == (if v == Ok::<bool, ()>(false) {
                (c1, false)
            } else if f & EP_F_AUDIT != 0 {
                (
                    policy::emitted(
                        TcView { stats: c1.stats.push(STAT_POLICY_AUDIT), ..c1 },
                        FLOW_AUDITED,
                        flow_dir,
                        ep,
                        c1.peer_id,
                    ),
                    false,
                )
            } else {
                (
                    policy::emitted(
                        TcView { stats: c1.stats.push(STAT_POLICY_DROP), ..c1 },
                        FLOW_DROPPED,
                        flow_dir,
                        ep,
                        c1.peer_id,
                    ),
                    true,
                )
            })
        }),
        ({
            let (c1, v) = policy::denied6(t, c, ep, policy::dir_gen_of(f, dir), vrf);
            policy::enforced6(t, c, ep, f, dir, vrf) == (if v == Ok::<bool, ()>(false) {
                (c1, false)
            } else if f & EP_F_AUDIT != 0 {
                (TcView { stats: c1.stats.push(STAT_POLICY_AUDIT), ..c1 }, false)
            } else {
                (TcView { stats: c1.stats.push(STAT_POLICY_DROP), ..c1 }, true)
            })
        }),
{
    reveal(policy::enforced4);
    reveal(policy::enforced6);
}

/// What a pod sends is judged where its endpoint is under egress policy, and by
/// the rules of that direction; everything else leaves unjudged.
pub proof fn egress_policy_is_the_senders(t: &Tables, c: TcView, from_ep: u32, vrf: u32, f: u8)
    ensures
        from_ep != 0 && t.ep_policy@.get(from_ep) == Some(f) && f & EP_F_EGRESS != 0 ==> {
            &&& policy::egress4(t, c, from_ep, vrf) == policy::enforced4(
                t,
                c,
                from_ep,
                f,
                1,
                FLOW_DIR_EGRESS,
                vrf,
            )
            &&& policy::egress6(t, c, from_ep, vrf) == policy::enforced6(t, c, from_ep, f, 1, vrf)
        },
        from_ep == 0 || !t.ep_policy@.contains_key(from_ep) || (t.ep_policy@.get(from_ep) == Some(f)
            && f & EP_F_EGRESS == 0) ==> {
            &&& policy::egress4(t, c, from_ep, vrf) == (c, false)
            &&& policy::egress6(t, c, from_ep, vrf) == (c, false)
        },
{
}

/// What is delivered to a pod is judged where its endpoint is under ingress
/// policy, in the VRF of its port; and what is let in of a pod under egress
/// policy is remembered, so that the pod may answer.
pub proof fn ingress_policy_is_the_receivers(t: &Tables, c: TcView, f: u8, vrf: u32)
    requires
        t.ep_policy@.get(c.ifindex) == Some(f),
        c.data.len() >= 14,
        t.ports@.get(c.ifindex) matches Some(p) ==> p.vrf_id == vrf,
        t.ports@.get(c.ifindex) is None ==> vrf == 0,
    ensures
        ({
            let et = c.data[12] * 256 + c.data[13];
            let (c1, drop) = if f & EP_F_INGRESS == 0 {
                (c, false)
            } else if et == 0x0800 {
                policy::enforced4(t, c, c.ifindex, f, 0, FLOW_DIR_INGRESS, vrf)
            } else {
                policy::enforced6(t, c, c.ifindex, f, 0, vrf)
            };
            let (c2, r) = policy::ingress_policed(t, c);
            &&& et != 0x0800 && et != 0x86dd ==> c2 == c && r == Ok::<TcAct, ()>(TcAct::Pipe)
            &&& (et == 0x0800 || et == 0x86dd) && drop ==> c2 == c1 && r == Ok::<TcAct, ()>(
                TcAct::Shot,
            )
            &&& (et == 0x0800 || et == 0x86dd) && !drop ==> {
                &&& r == Ok::<TcAct, ()>(TcAct::Pipe)
                &&& f & EP_F_EGRESS == 0 ==> c2 == c1
                &&& f & EP_F_EGRESS != 0 && et == 0x0800 ==> c2 == policy::track4(
                    c1,
                    PCT_INBOUND,
                ).0
                &&& f & EP_F_EGRESS != 0 && et == 0x86dd ==> c2 == policy::track6(
                    c1,
                    PCT_INBOUND,
                ).0
            }
        }),
{
    reveal(policy::ingress_policed);
}

/// Tracking remembers the flow of a packet of its family under the flow's own
/// key, and changes nothing else; a packet without a flow is not remembered.
pub proof fn tracking_remembers_the_flow(c: TcView, val: u8, f: Flow4, f6: Flow6)
    requires
        c.data.len() >= 14,
    ensures
        ({
            let et = c.data[12] * 256 + c.data[13];
            &&& et == 0x0800 && policy::ip4_flow(c.data) == Ok::<Option<Flow4>, ()>(Some(f))
                ==> policy::track4(c, val).0 == (TcView {
                pct: c.pct.insert(policy::ct_key(f), val),
                ..c
            })
            &&& et != 0x0800 || !(policy::ip4_flow(c.data) matches Ok(Some(_)))
                ==> policy::track4(c, val).0 == c
            &&& et == 0x86dd && policy::ip6_flow(c.data) == Ok::<Option<Flow6>, ()>(Some(f6))
                ==> policy::track6(c, val).0 == (TcView {
                pct6: c.pct6.insert(policy::ct_key6(f6), val),
                ..c
            })
            &&& et != 0x86dd || !(policy::ip6_flow(c.data) matches Ok(Some(_)))
                ==> policy::track6(c, val).0 == c
        }),
{
    reveal(policy::track4);
    reveal(policy::track6);
}

/// A report tells the packet: its time, addresses and protocol, its ports where
/// it has them, and what it was called with. None is made when the ring is full
/// or the header incomplete; and a report changes nothing else.
pub proof fn report_tells_the_packet(c: TcView, verdict: u8, dir: u8, ep: u32, peer: u32)
    ensures
        ({
            let c1 = policy::emitted(c, verdict, dir, ep, peer);
            let s = c.data;
            &&& c1 == (TcView { flows: c1.flows, ..c })
            &&& s.len() < 34 || c.flows.len() >= c.flow_cap ==> c1.flows == c.flows
            &&& s.len() >= 34 && c.flows.len() < c.flow_cap ==> {
                let r = c1.flows.last();
                let ports = (s[23] == 6 || s[23] == 17) && s[14] % 16 == 5;
                &&& c1.flows == c.flows.push(r)
                &&& r.time_ns == c.now && r.ep_ifindex == ep && r.verdict == verdict
                &&& r.dir == dir && r.peer_identity == peer && r.proto == s[23]
                &&& r.saddr@ == s.subrange(26, 30) && r.daddr@ == s.subrange(30, 34)
                &&& ports && s.len() >= 38 ==> r.sport == bytes::le16(s, 34) && r.dport
                    == bytes::le16(s, 36)
                &&& !ports ==> r.sport == 0 && r.dport == 0
            }
        }),
{
    reveal(policy::emitted);
    let c1 = policy::emitted(c, verdict, dir, ep, peer);
    if c.data.len() >= 34 && c.flows.len() < c.flow_cap {
        assert(c1.flows.last().saddr@ =~= c.data.subrange(26, 30));
        assert(c1.flows.last().daddr@ =~= c.data.subrange(30, 34));
        assert(c1.flows =~= c.flows.push(c1.flows.last()));
    }
}

/// A pod without a policy receives everything, untouched and untracked; and what
/// fails on the way goes up.
pub proof fn unpoliced_pod_receives_everything(t: &Tables, c: TcView, a: TcAct)
    requires
        c.data.len() >= 14,
    ensures
        t.ep_policy@.get(c.ifindex) is None ==> policy::ingress_policed(t, c) == (
            c,
            Ok::<TcAct, ()>(TcAct::Pipe),
        ),
        tc::or_pipe(Ok(a)) == a,
        tc::or_pipe(Err(())) == TcAct::Pipe,
{
    reveal(policy::ingress_policed);
}

// -------------------------------- the pipeline ------------------------------

/// Whether a TCP packet is to be steered to the proxy: it is to a service marked
/// for it.
pub open spec fn for_the_proxy(t: &Tables, s: Seq<u8>, f: Flow4) -> bool {
    &&& s.len() >= 14 && s[12] * 256 + s[13] == 0x0800
    &&& policy::ip4_flow(s) == Ok::<Option<Flow4>, ()>(Some(f))
    &&& f.proto == 6
    &&& t.l7_services@.contains_key(
        ServiceKey { vip: f.dst, port: f.dport, proto: f.proto, _pad: 0 },
    )
}

/// A packet for the proxy is delivered to its open connection, else to the
/// proxy's listener, and counted; without either, or if it cannot be assigned,
/// it goes on untouched, as does every other packet.
pub proof fn proxy_gets_its_packets(t: &Tables, c: TcView, f: Flow4)
    ensures
        for_the_proxy(t, c.data, f) && c.sock.assign && (c.sock.listener || (
        c.sock.conn matches Some(state) && state != 10)) ==> tc::l7_steered(t, c) == (
            TcView { stats: c.stats.push(STAT_L7_REDIRECT), ..c },
            Some(TcAct::Deliver),
        ),
        !c.sock.assign || (!c.sock.listener && (c.sock.conn matches Some(state) ==> state == 10))
            || (forall|g: Flow4| !#[trigger] for_the_proxy(t, c.data, g)) ==> tc::l7_steered(t, c)
            == (c, None::<TcAct>),
{
    reveal(tc::l7_steered);
    if tc::steered(t, c.data) is Some {
        assert(for_the_proxy(t, c.data, tc::steered(t, c.data)->0));
    }
    if for_the_proxy(t, c.data, f) {
        assert(tc::steered(t, c.data) == Some(f));
    }
}

/// The sockets asked for are the packet's own connection and the proxy's
/// listener at the packet's destination.
pub proof fn proxy_sockets_are_the_packets(f: Flow4)
    ensures
        tc::lookups(f).0 == (tc::SockTuple {
            saddr: f.src,
            daddr: f.dst,
            sport: f.sport,
            dport: f.dport,
        }),
        tc::lookups(f).1.saddr == 0 && tc::lookups(f).1.sport == 0,
        tc::lookups(f).1.daddr == f.dst,
{
}

/// What the XDP stage handed over comes first: a circuit's frame leaves on it, a
/// bridge domain's is switched there as one from the overlay, a replicated one
/// is fanned out. Else the port's mode decides: bridged, routed, or neither.
pub proof fn handover_precedes_the_port(t: &Tables, c: TcView, value: u32, port: PortConfig)
    ensures
        value != 0 && c.meta == Some(
            CradleXdpMeta { magic: XDP_META_MAGIC_DX2 ^ t.meta_cookie, vrf_id: value },
        ) ==> tc::piped(t, c) == (c, Ok::<TcAct, ()>(TcAct::Redirect(value))),
        value < 0x1_0000 && c.meta == Some(
            CradleXdpMeta { magic: XDP_META_MAGIC_L2 ^ t.meta_cookie, vrf_id: value },
        ) ==> tc::piped(t, c) == l2::switched(t, c, c.iif, value as u16, true),
        c.meta == Some(
            CradleXdpMeta { magic: XDP_META_MAGIC_REPL ^ t.meta_cookie, vrf_id: value },
        ) ==> tc::piped(t, c) == l2::replicated(t, c),
        c.meta is None && t.ports@.get(c.iif) is None ==> tc::piped(t, c) == (
            c,
            Ok::<TcAct, ()>(TcAct::Pipe),
        ),
        c.meta is None && t.ports@.get(c.iif) == Some(port) ==> tc::piped(t, c) == (if port.flags
            & PORT_F_L2 != 0 {
            l2::switched(t, c, c.iif, port.vlan, false)
        } else if port.flags & PORT_F_L3 != 0 {
            tc::routed(t, c, port)
        } else {
            (c, Ok(TcAct::Pipe))
        }),
{
    reveal(tc::piped);
    let k = t.meta_cookie;
    assert(XDP_META_MAGIC_DX2 ^ k != XDP_META_MAGIC_REPL ^ k && XDP_META_MAGIC_L2 ^ k
        != XDP_META_MAGIC_REPL ^ k && XDP_META_MAGIC_DX2 ^ k != XDP_META_MAGIC_L2 ^ k) by {
        magics_differ(k);
    }
}

proof fn magics_differ(k: u32)
    ensures
        XDP_META_MAGIC_DX2 ^ k != XDP_META_MAGIC_REPL ^ k,
        XDP_META_MAGIC_L2 ^ k != XDP_META_MAGIC_REPL ^ k,
        XDP_META_MAGIC_DX2 ^ k != XDP_META_MAGIC_L2 ^ k,
{
    let (a, b, c) = (XDP_META_MAGIC_DX2, XDP_META_MAGIC_REPL, XDP_META_MAGIC_L2);
    assert(a ^ k != b ^ k && c ^ k != b ^ k && a ^ k != c ^ k) by (bit_vector)
        requires
            a != b,
            c != b,
            a != c,
    ;
}

/// A routed port's packet that is not for the proxy is translated, then
/// forwarded in the port's VRF. A pod's is tracked first, may be masqueraded,
/// and is judged as the pod's; another's is none of these.
pub proof fn routed_packet_is_translated_and_forwarded(t: &Tables, c: TcView, port: PortConfig)
    requires
        t.dp_config & DPC_L3_ONLY == 0,
        tc::l7_steered(t, c).1 is None,
    ensures
        port.flags & PORT_F_ENDPOINT == 0 ==> tc::routed(t, c, port) == l3::forwarded(
            t,
            l4::natted(t, c, false).0,
            port.vrf_id,
            0,
        ),
        port.flags & PORT_F_ENDPOINT != 0 ==> tc::routed(t, c, port) == l3::forwarded(
            t,
            l4::natted(
                t,
                policy::track6(policy::track4(c, PCT_POD_INITIATED).0, PCT_POD_INITIATED).0,
                true,
            ).0,
            port.vrf_id,
            c.iif,
        ),
{
    reveal(tc::l7_steered);
}

/// In the L3-only mode a routed port's packet is forwarded as it came; a packet
/// for the proxy ends there.
pub proof fn routing_may_be_all(t: &Tables, c: TcView, port: PortConfig)
    ensures
        t.dp_config & DPC_L3_ONLY != 0 ==> tc::routed(t, c, port) == l3::forwarded(
            t,
            c,
            port.vrf_id,
            0,
        ),
        t.dp_config & DPC_L3_ONLY == 0 ==> (tc::l7_steered(t, c).1 matches Some(a) ==> tc::routed(
            t,
            c,
            port,
        ) == (tc::l7_steered(t, c).0, Ok::<TcAct, ()>(a))),
{
}

proof fn imposing_keeps_tracks(t: &Tables, c: TcView, nh_id: u32, nh: NextHop, et: u16, ttl: u8)
    ensures
        impose::srv6_encapped(t, c, nh_id, nh, et).0.pct == c.pct,
        impose::srv6_encapped(t, c, nh_id, nh, et).0.pct6 == c.pct6,
        impose::gtp_encapped(t, c, nh_id, nh).0.pct == c.pct,
        impose::gtp_encapped(t, c, nh_id, nh).0.pct6 == c.pct6,
        impose::vxlan_l3_encapped(t, c, nh_id, nh, et).0.pct == c.pct,
        impose::vxlan_l3_encapped(t, c, nh_id, nh, et).0.pct6 == c.pct6,
        impose::labelled(t, c, nh, ttl).0.pct == c.pct,
        impose::labelled(t, c, nh, ttl).0.pct6 == c.pct6,
{
    reveal(impose::srv6_encapped);
    reveal(impose::inserted6);
    reveal(impose::hencapped);
    reveal(impose::gtp_encapped);
    reveal(impose::vxlan_l3_encapped);
    reveal(impose::labelled);
    reveal(fib::xmitted);
    reveal(fib::resolved);
}

proof fn judging_keeps_tracks(t: &Tables, c: TcView, from_ep: u32, vrf: u32)
    ensures
        policy::egress4(t, c, from_ep, vrf).0.pct == c.pct,
        policy::egress4(t, c, from_ep, vrf).0.pct6 == c.pct6,
        policy::egress6(t, c, from_ep, vrf).0.pct == c.pct,
        policy::egress6(t, c, from_ep, vrf).0.pct6 == c.pct6,
{
    reveal(policy::enforced4);
    reveal(policy::enforced6);
    reveal(policy::denied4);
    reveal(policy::denied6);
    reveal(policy::emitted);
}

proof fn looking_up_keeps_tracks(t: &Tables, c: TcView, vrf: u32, d4: [u8; 4], d6: [u8; 16])
    ensures
        fib::route4(t, c, vrf, d4).0.pct == c.pct,
        fib::route4(t, c, vrf, d4).0.pct6 == c.pct6,
        fib::route6(t, c, vrf, d6).0.pct == c.pct,
        fib::route6(t, c, vrf, d6).0.pct6 == c.pct6,
{
    reveal(fib::route4);
    reveal(fib::route6);
}

proof fn resolving_keeps_tracks(t: &Tables, c: TcView, id: u32, nh: NextHop, et: u16)
    ensures
        fib::resolved(t, c, id).0.pct == c.pct,
        fib::resolved(t, c, id).0.pct6 == c.pct6,
        fib::xmitted(t, c, nh, et).0.pct == c.pct,
        fib::xmitted(t, c, nh, et).0.pct6 == c.pct6,
{
    reveal(fib::resolved);
    reveal(fib::xmitted);
}

proof fn sending4_keeps_tracks(
    t: &Tables,
    c: TcView,
    id: u32,
    nh: NextHop,
    fe: FibEntry,
    d: [u8; 4],
    from_ep: u32,
)
    ensures
        l3::sent4(t, c, id, nh, fe, d, from_ep).0.pct == c.pct,
        l3::sent4(t, c, id, nh, fe, d, from_ep).0.pct6 == c.pct6,
{
    imposing_keeps_tracks(t, c, id, nh, ETH_P_IP, c.data[22]);
    reveal(l3::sent4);
    reveal(l3::plain4);
    reveal(policy::emitted);
    reveal(fib::xmitted);
}

proof fn sending6_keeps_tracks(
    t: &Tables,
    c: TcView,
    id: u32,
    nh: NextHop,
    fe: FibEntry,
    d: [u8; 16],
)
    ensures
        l3::sent6(t, c, id, nh, fe, d).0.pct == c.pct,
        l3::sent6(t, c, id, nh, fe, d).0.pct6 == c.pct6,
{
    imposing_keeps_tracks(t, c, id, nh, ETH_P_IPV6, c.data[21]);
    reveal(l3::sent6);
    reveal(l3::plain6);
    reveal(fib::xmitted);
}

/// Forwarding forgets nothing: what is tracked stays tracked.
pub proof fn forwarding_keeps_tracks(t: &Tables, c: TcView, port_vrf: u32, from_ep: u32)
    ensures
        l3::forwarded(t, c, port_vrf, from_ep).0.pct == c.pct,
        l3::forwarded(t, c, port_vrf, from_ep).0.pct6 == c.pct6,
{
    assert forall|c: TcView, id: u32, nh: NextHop, fe: FibEntry, d: [u8; 4]|
        (#[trigger] l3::sent4(t, c, id, nh, fe, d, from_ep)).0.pct == c.pct && l3::sent4(
            t,
            c,
            id,
            nh,
            fe,
            d,
            from_ep,
        ).0.pct6 == c.pct6 by {
        sending4_keeps_tracks(t, c, id, nh, fe, d, from_ep);
    }
    assert forall|c: TcView, id: u32, nh: NextHop, fe: FibEntry, d: [u8; 16]|
        (#[trigger] l3::sent6(t, c, id, nh, fe, d)).0.pct == c.pct && l3::sent6(
            t,
            c,
            id,
            nh,
            fe,
            d,
        ).0.pct6 == c.pct6 by {
        sending6_keeps_tracks(t, c, id, nh, fe, d);
    }
    assert forall|c: TcView, id: u32| (#[trigger] fib::resolved(t, c, id)).0.pct == c.pct
        && fib::resolved(t, c, id).0.pct6 == c.pct6 by {
        resolving_keeps_tracks(t, c, id, arbitrary(), 0);
    }
    assert forall|c: TcView, nh: NextHop, et: u16|
        (#[trigger] fib::xmitted(t, c, nh, et)).0.pct == c.pct && fib::xmitted(
            t,
            c,
            nh,
            et,
        ).0.pct6 == c.pct6 by {
        resolving_keeps_tracks(t, c, 0, nh, et);
    }
    assert forall|c: TcView, vrf: u32, d: [u8; 4]|
        (#[trigger] fib::route4(t, c, vrf, d)).0.pct == c.pct && fib::route4(t, c, vrf, d).0.pct6
            == c.pct6 by {
        looking_up_keeps_tracks(t, c, vrf, d, arbitrary());
    }
    assert forall|c: TcView, vrf: u32, d: [u8; 16]|
        (#[trigger] fib::route6(t, c, vrf, d)).0.pct == c.pct && fib::route6(t, c, vrf, d).0.pct6
            == c.pct6 by {
        looking_up_keeps_tracks(t, c, vrf, arbitrary(), d);
    }
    judging_keeps_tracks(t, c, from_ep, port_vrf);
    if c.data.len() >= 14 {
        let et = bytes::be16(c.data, 12);
        if et == ETH_P_IP {
            assert(l3::forwarded4(t, c, port_vrf, from_ep).0.pct == c.pct && l3::forwarded4(
                t,
                c,
                port_vrf,
                from_ep,
            ).0.pct6 == c.pct6) by {
                reveal(l3::by_route4);
                reveal(l3::forwarded4);
            }
        } else if et == ETH_P_IPV6 {
            assert(l3::forwarded6(t, c, port_vrf, from_ep).0.pct == c.pct && l3::forwarded6(
                t,
                c,
                port_vrf,
                from_ep,
            ).0.pct6 == c.pct6) by {
                reveal(l3::by_route6);
                reveal(l3::forwarded6);
            }
        } else {
            reveal(l3::swapped);
        }
    }
}

/// Translating forgets nothing either.
pub proof fn translating_keeps_tracks(t: &Tables, c: TcView, masq_src: bool)
    ensures
        l4::natted(t, c, masq_src).0.pct == c.pct,
        l4::natted(t, c, masq_src).0.pct6 == c.pct6,
{
    reveal(l4::natted4);
    reveal(l4::natted6);
    reveal(l4::balanced);
    reveal(l4::masqueraded);
    reveal(l4::dnatted);
    reveal(l4::snatted);
    reveal(l4::dnatted6);
    reveal(l4::snatted6);
    reveal(policy::emitted);
}

/// What a pod opens is remembered as it sent it, before any translation: after
/// the ingress program the flow's own key is tracked.
pub proof fn pods_own_flows_are_remembered(
    t: &Tables,
    c: TcView,
    port: PortConfig,
    f: Flow4,
    f6: Flow6,
)
    requires
        c.meta is None,
        t.ports@.get(c.iif) == Some(port),
        port.flags & PORT_F_L2 == 0,
        port.flags & PORT_F_L3 != 0,
        port.flags & PORT_F_ENDPOINT != 0,
        t.dp_config & DPC_L3_ONLY == 0,
        tc::l7_steered(t, c).1 is None,
        c.data.len() >= 14,
    ensures
        c.data[12] * 256 + c.data[13] == 0x0800 && policy::ip4_flow(c.data) == Ok::<
            Option<Flow4>,
            (),
        >(Some(f)) ==> tc::piped(t, c).0.pct.contains_key(policy::ct_key(f)),
        c.data[12] * 256 + c.data[13] == 0x86dd && policy::ip6_flow(c.data) == Ok::<
            Option<Flow6>,
            (),
        >(Some(f6)) ==> tc::piped(t, c).0.pct6.contains_key(policy::ct_key6(f6)),
{
    handover_precedes_the_port(t, c, 0, port);
    routed_packet_is_translated_and_forwarded(t, c, port);
    tracking_remembers_the_flow(c, PCT_POD_INITIATED, f, f6);
    let c1 = policy::track4(c, PCT_POD_INITIATED).0;
    let c2 = policy::track6(c1, PCT_POD_INITIATED).0;
    assert(c1.data == c.data && c2.pct == c1.pct) by {
        reveal(policy::track4);
        reveal(policy::track6);
    }
    tracking_remembers_the_flow(c1, PCT_POD_INITIATED, f, f6);
    translating_keeps_tracks(t, c2, true);
    forwarding_keeps_tracks(t, l4::natted(t, c2, true).0, port.vrf_id, c.iif);
}

/// A pod's own flows are answered: whatever the rules of its endpoint say, a
/// packet back of a flow that the pod opened is let in.
pub proof fn pods_own_flows_are_answered(
    t: &Tables,
    t2: &Tables,
    c: TcView,
    port: PortConfig,
    f: Flow4,
    f6: Flow6,
    later: TcView,
)
    requires
        c.meta is None,
        t.ports@.get(c.iif) == Some(port),
        port.flags & PORT_F_L2 == 0,
        port.flags & PORT_F_L3 != 0,
        port.flags & PORT_F_ENDPOINT != 0,
        t.dp_config & DPC_L3_ONLY == 0,
        tc::l7_steered(t, c).1 is None,
        c.data.len() >= 14,
        later.pct == tc::piped(t, c).0.pct,
        later.pct6 == tc::piped(t, c).0.pct6,
        later.data.len() >= 14,
    ensures
        c.data[12] * 256 + c.data[13] == 0x0800 && policy::ip4_flow(c.data) == Ok::<
            Option<Flow4>,
            (),
        >(Some(f)) && later.data[12] * 256 + later.data[13] == 0x0800 && policy::ip4_flow(
            later.data,
        ) == Ok::<Option<Flow4>, ()>(Some(policy::reverse(f))) ==> policy::ingress_policed(
            t2,
            later,
        ).1 == Ok::<TcAct, ()>(TcAct::Pipe),
        c.data[12] * 256 + c.data[13] == 0x86dd && policy::ip6_flow(c.data) == Ok::<
            Option<Flow6>,
            (),
        >(Some(f6)) && later.data[12] * 256 + later.data[13] == 0x86dd && policy::ip6_flow(
            later.data,
        ) == Ok::<Option<Flow6>, ()>(Some(policy::reverse6(f6))) ==> policy::ingress_policed(
            t2,
            later,
        ).1 == Ok::<TcAct, ()>(TcAct::Pipe),
{
    pods_own_flows_are_remembered(t, c, port, f, f6);
    reveal(policy::ingress_policed);
    reveal(policy::enforced4);
    reveal(policy::enforced6);
    reveal(policy::denied4);
    reveal(policy::denied6);
    assert(policy::reverse(policy::reverse(f)) == f);
    assert(policy::reverse6(policy::reverse6(f6)) == f6);
}

} // verus!
