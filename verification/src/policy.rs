//! Network policy: flow tracking, the rule verdict, and enforcement at
//! delivery and at pod egress.

use vstd::prelude::*;
use crate::bytes;
use crate::lpm;
use crate::skb;
use crate::skb::{Tc, TcAct, TcView};
use crate::tables;
use crate::tables::Tables;
use crate::types::{
    CtKey, CtKey6, FlowRecord, PolicyKey, VrfId6Key, VrfIdKey, EP_F_AUDIT, EP_F_EGRESS, EP_F_GEN,
    EP_F_INGRESS, FLOW_AUDITED, FLOW_DIR_EGRESS, FLOW_DIR_INGRESS, FLOW_DROPPED, IDENTITY_WORLD,
    PCT_INBOUND, POLICY_DENY, POLICY_DIR_EGRESS, POLICY_DIR_INGRESS, POLICY_KEY_GEN,
    STAT_POLICY_AUDIT, STAT_POLICY_DROP,
};
use crate::wire::{ETH_P_IP, ETH_P_IPV6, IPPROTO_TCP, IPPROTO_UDP};

verus! {

/// A TCP or UDP flow over IPv4, addresses and ports in memory order.
#[derive(Clone, Copy, Debug, PartialEq, Eq)]
pub struct Flow4 {
    pub src: u32,
    pub dst: u32,
    pub sport: u16,
    pub dport: u16,
    pub proto: u8,
}

/// A TCP or UDP flow over IPv6.
#[derive(Clone, Copy, Debug, PartialEq, Eq)]
pub struct Flow6 {
    pub src: [u8; 16],
    pub dst: [u8; 16],
    pub sport: u16,
    pub dport: u16,
    pub proto: u8,
}

/// Whether the protocol has ports.
pub open spec fn has_ports(proto: u8) -> bool {
    proto == IPPROTO_TCP || proto == IPPROTO_UDP
}

/// The flow of an IPv4 packet: `Ok(None)` with IP options or a protocol other
/// than TCP/UDP, `Err` when truncated.
pub open spec fn ip4_flow(s: Seq<u8>) -> Result<Option<Flow4>, ()> {
    if s.len() < 15 {
        Err(())
    } else if s[14] % 16 != 5 {
        Ok(None)
    } else if s.len() < 24 {
        Err(())
    } else if !has_ports(s[23]) {
        Ok(None)
    } else if s.len() < 38 {
        Err(())
    } else {
        Ok(
            Some(
                Flow4 {
                    src: bytes::le32(s, 26),
                    dst: bytes::le32(s, 30),
                    sport: bytes::le16(s, 34),
                    dport: bytes::le16(s, 36),
                    proto: s[23],
                },
            ),
        )
    }
}

/// The flow of an IPv6 packet (base header only): `Ok(None)` for a protocol
/// other than TCP/UDP, `Err` when truncated.
pub open spec fn ip6_flow(s: Seq<u8>) -> Result<Option<Flow6>, ()> {
    if s.len() < 21 {
        Err(())
    } else if !has_ports(s[20]) {
        Ok(None)
    } else if s.len() < 58 {
        Err(())
    } else {
        Ok(
            Some(
                Flow6 {
                    src: bytes::oct16(s, 22),
                    dst: bytes::oct16(s, 38),
                    sport: bytes::le16(s, 54),
                    dport: bytes::le16(s, 56),
                    proto: s[20],
                },
            ),
        )
    }
}

/// Conntrack key of a flow.
pub open spec fn ct_key(f: Flow4) -> CtKey {
    CtKey {
        src: f.src,
        dst: f.dst,
        src_port: f.sport,
        dst_port: f.dport,
        proto: f.proto,
        _pad: [0u8, 0u8, 0u8],
    }
}

/// Conntrack key of a flow.
pub open spec fn ct_key6(f: Flow6) -> CtKey6 {
    CtKey6 {
        src: f.src,
        dst: f.dst,
        src_port: f.sport,
        dst_port: f.dport,
        proto: f.proto,
        _pad: [0u8, 0u8, 0u8],
    }
}

/// The flow seen from its other end.
pub open spec fn reverse(f: Flow4) -> Flow4 {
    Flow4 { src: f.dst, dst: f.src, sport: f.dport, dport: f.sport, ..f }
}

/// The flow seen from its other end.
pub open spec fn reverse6(f: Flow6) -> Flow6 {
    Flow6 { src: f.dst, dst: f.src, sport: f.dport, dport: f.sport, ..f }
}

/// Reads the flow of an IPv4 packet.
pub fn parse_flow4(d: &Vec<u8>) -> (r: Result<Option<Flow4>, ()>)
    ensures
        r == ip4_flow(d@),
{
    let ver_ihl: u8 = bytes::ld8(d, 14)?;
    if ver_ihl % 16 != 5 {
        return Ok(None);
    }
    let proto: u8 = bytes::ld8(d, 23)?;
    if proto != IPPROTO_TCP && proto != IPPROTO_UDP {
        return Ok(None);
    }
    let src: u32 = bytes::ld_le32(d, 26)?;
    let dst: u32 = bytes::ld_le32(d, 30)?;
    let sport: u16 = bytes::ld_le16(d, 34)?;
    let dport: u16 = bytes::ld_le16(d, 36)?;
    Ok(Some(Flow4 { src, dst, sport, dport, proto }))
}

/// Reads the flow of an IPv6 packet.
pub fn parse_flow6(d: &Vec<u8>) -> (r: Result<Option<Flow6>, ()>)
    ensures
        r == ip6_flow(d@),
{
    let proto: u8 = bytes::ld8(d, 20)?;
    if proto != IPPROTO_TCP && proto != IPPROTO_UDP {
        return Ok(None);
    }
    let src: [u8; 16] = bytes::ld16(d, 22)?;
    let dst: [u8; 16] = bytes::ld16(d, 38)?;
    let sport: u16 = bytes::ld_le16(d, 54)?;
    let dport: u16 = bytes::ld_le16(d, 56)?;
    Ok(Some(Flow6 { src, dst, sport, dport, proto }))
}

/// The conntrack key of a flow.
pub fn key_of(f: Flow4) -> (r: CtKey)
    ensures
        r == ct_key(f),
{
    CtKey {
        src: f.src,
        dst: f.dst,
        src_port: f.sport,
        dst_port: f.dport,
        proto: f.proto,
        _pad: [0u8, 0u8, 0u8],
    }
}

/// The conntrack key of a flow.
pub fn key_of6(f: Flow6) -> (r: CtKey6)
    ensures
        r == ct_key6(f),
{
    CtKey6 {
        src: f.src,
        dst: f.dst,
        src_port: f.sport,
        dst_port: f.dport,
        proto: f.proto,
        _pad: [0u8, 0u8, 0u8],
    }
}

// ------------------------------ tracking -----------------------------------

/// Outcome of recording an IPv4 flow.
#[verifier::opaque]
pub open spec fn track4(c: TcView, val: u8) -> (TcView, Result<(), ()>) {
    if c.data.len() < 14 {
        (c, Err(()))
    } else if bytes::be16(c.data, 12) != ETH_P_IP {
        (c, Ok(()))
    } else {
        match ip4_flow(c.data) {
            Err(_) => (c, Err(())),
            Ok(None) => (c, Ok(())),
            Ok(Some(f)) => (TcView { pct: c.pct.insert(ct_key(f), val), ..c }, Ok(())),
        }
    }
}

/// Outcome of recording an IPv6 flow.
#[verifier::opaque]
pub open spec fn track6(c: TcView, val: u8) -> (TcView, Result<(), ()>) {
    if c.data.len() < 14 {
        (c, Err(()))
    } else if bytes::be16(c.data, 12) != ETH_P_IPV6 {
        (c, Ok(()))
    } else {
        match ip6_flow(c.data) {
            Err(_) => (c, Err(())),
            Ok(None) => (c, Ok(())),
            Ok(Some(f)) => (TcView { pct6: c.pct6.insert(ct_key6(f), val), ..c }, Ok(())),
        }
    }
}

/// Record a flow 5-tuple in `pct` — policy is stateful, so a recorded flow's
/// replies bypass the reverse direction's rules. Called with
/// `PCT_POD_INITIATED` on endpoint ingress before NAT (the pre-translation
/// tuple is what the reply matches), and with `PCT_INBOUND` at delivery to an
/// egress-enforced endpoint.
pub fn pct_track(c: &mut Tc, val: u8) -> (r: Result<(), ()>)
    ensures
        (final(c)@, r) == track4(old(c)@, val),
{
    reveal(track4);
    let ethertype: u16 = bytes::ld_be16(&c.data, 12)?;
    if ethertype != ETH_P_IP {
        return Ok(());
    }
    match parse_flow4(&c.data)? {
        Some(f) => {
            c.pct.put(key_of(f), val);
        },
        None => {},
    }
    Ok(())
}

/// v6 sibling of [`pct_track`].
pub fn pct_track6(c: &mut Tc, val: u8) -> (r: Result<(), ()>)
    ensures
        (final(c)@, r) == track6(old(c)@, val),
{
    reveal(track6);
    let ethertype: u16 = bytes::ld_be16(&c.data, 12)?;
    if ethertype != ETH_P_IPV6 {
        return Ok(());
    }
    match parse_flow6(&c.data)? {
        Some(f) => {
            c.pct6.put(key_of6(f), val);
        },
        None => {},
    }
    Ok(())
}

// ------------------------------- verdict -----------------------------------

/// The `PolicyKey.dir` byte for an enforcement check: the direction bit plus
/// the endpoint's active A/B generation.
pub open spec fn dir_gen_of(ep_flags: u8, dir: u8) -> u8 {
    dir | (if ep_flags & EP_F_GEN != 0 { POLICY_KEY_GEN } else { 0u8 })
}

/// The `PolicyKey.dir` byte for an enforcement check: the direction bit plus
/// the endpoint's active A/B generation (`EP_F_GEN` → `POLICY_KEY_GEN`).
pub fn dir_gen(ep_flags: u8, dir: u8) -> (r: u8)
    ensures
        r == dir_gen_of(ep_flags, dir),
{
    dir | (if ep_flags & EP_F_GEN != 0 {
        POLICY_KEY_GEN
    } else {
        0u8
    })
}

/// Whether a rule speaks of a packet: it is one of the endpoint and direction,
/// and its identity, protocol and port are each the packet's or 0 (any).
pub open spec fn covers(
    k: PolicyKey,
    ep: u32,
    identity: u32,
    proto: u8,
    port: u16,
    dir: u8,
) -> bool {
    &&& k.ep == ep
    &&& k.dir == dir
    &&& k.identity == identity || k.identity == 0
    &&& k.proto == proto || k.proto == 0
    &&& k.port == port || k.port == 0
}

/// A deny at any specificity wins over any allow; without an allow the packet
/// is denied.
pub open spec fn rules_deny(
    rules: Map<PolicyKey, u8>,
    ep: u32,
    identity: u32,
    proto: u8,
    port: u16,
    dir: u8,
) -> bool {
    ||| exists|k: PolicyKey| #[trigger]
        covers(k, ep, identity, proto, port, dir) && rules.get(k) == Some(POLICY_DENY)
    ||| forall|k: PolicyKey| #[trigger]
        covers(k, ep, identity, proto, port, dir) ==> !rules.contains_key(k)
}

/// The rules that speak of a packet, most specific first: each of identity,
/// protocol and port as it is or wildcarded.
spec fn probes(ep: u32, identity: u32, proto: u8, port: u16, dir: u8) -> Seq<PolicyKey> {
    seq![
        PolicyKey { ep, identity, port, proto, dir },
        PolicyKey { ep, identity, port, proto: 0, dir },
        PolicyKey { ep, identity, port: 0, proto, dir },
        PolicyKey { ep, identity, port: 0, proto: 0, dir },
        PolicyKey { ep, identity: 0, port, proto, dir },
        PolicyKey { ep, identity: 0, port, proto: 0, dir },
        PolicyKey { ep, identity: 0, port: 0, proto, dir },
        PolicyKey { ep, identity: 0, port: 0, proto: 0, dir },
    ]
}

proof fn probes_cover(k: PolicyKey, ep: u32, identity: u32, proto: u8, port: u16, dir: u8)
    ensures
        covers(k, ep, identity, proto, port, dir) <==> probes(
            ep,
            identity,
            proto,
            port,
            dir,
        ).contains(k),
{
    let ks = probes(ep, identity, proto, port, dir);
    if covers(k, ep, identity, proto, port, dir) {
        let i: int = (if k.identity == identity { 0int } else { 4 }) + (if k.port == port {
            0int
        } else {
            2
        }) + (if k.proto == proto { 0int } else { 1 });
        assert(ks[i] == k);
    }
}

/// Identity of an IPv4 peer: its exact binding, else its CIDR's, else world.
pub open spec fn peer_identity(t: &Tables, vrf: u32, peer: u32) -> u32 {
    match t.identity@.get(VrfIdKey { vrf_id: vrf, addr: peer }) {
        Some(id) => id,
        None => match lpm::matched(t.cidr_id@, tables::scoped(vrf, bytes::le32_bytes(peer))) {
            Some(id) => id,
            None => IDENTITY_WORLD,
        },
    }
}

/// Identity of an IPv6 peer.
pub open spec fn peer_identity6(t: &Tables, vrf: u32, peer: [u8; 16]) -> u32 {
    match t.identity6@.get(VrfId6Key { vrf_id: vrf, addr: peer }) {
        Some(id) => id,
        None => match lpm::matched(t.cidr_id6@, tables::scoped(vrf, peer@)) {
            Some(id) => id,
            None => IDENTITY_WORLD,
        },
    }
}

/// The 5-tuple a verdict judges: ports are 0 for a protocol without them or
/// behind IP options; `Err` when truncated.
pub open spec fn judged4(s: Seq<u8>) -> Result<Flow4, ()> {
    if s.len() < 34 {
        Err(())
    } else if has_ports(s[23]) && s[14] % 16 == 5 {
        if s.len() < 38 {
            Err(())
        } else {
            Ok(
                Flow4 {
                    src: bytes::le32(s, 26),
                    dst: bytes::le32(s, 30),
                    sport: bytes::le16(s, 34),
                    dport: bytes::le16(s, 36),
                    proto: s[23],
                },
            )
        }
    } else {
        Ok(
            Flow4 {
                src: bytes::le32(s, 26),
                dst: bytes::le32(s, 30),
                sport: 0,
                dport: 0,
                proto: s[23],
            },
        )
    }
}

/// v6 sibling of [`judged4`].
pub open spec fn judged6(s: Seq<u8>) -> Result<Flow6, ()> {
    if s.len() < 54 || (has_ports(s[20]) && s.len() < 58) {
        Err(())
    } else {
        Ok(
            Flow6 {
                src: bytes::oct16(s, 22),
                dst: bytes::oct16(s, 38),
                sport: if has_ports(s[20]) { bytes::le16(s, 54) } else { 0 },
                dport: if has_ports(s[20]) { bytes::le16(s, 56) } else { 0 },
                proto: s[20],
            },
        )
    }
}

/// Verdict for an IPv4 packet at endpoint `ep` (`Ok(true)` = denied).
#[verifier::opaque]
pub open spec fn denied4(t: &Tables, c: TcView, ep: u32, dir: u8, vrf: u32) -> (
    TcView,
    Result<bool, ()>,
) {
    match judged4(c.data) {
        Err(_) => (c, Err(())),
        Ok(f) => if c.pct.contains_key(ct_key(reverse(f))) {
            (c, Ok(false))
        } else {
            let peer = if dir & POLICY_DIR_EGRESS != 0 { f.dst } else { f.src };
            let id = peer_identity(t, vrf, peer);
            (
                TcView { peer_id: id, ..c },
                Ok(rules_deny(t.policy@, ep, id, f.proto, f.dport, dir)),
            )
        },
    }
}

/// Verdict for an IPv6 packet at endpoint `ep` (`Ok(true)` = denied).
#[verifier::opaque]
pub open spec fn denied6(t: &Tables, c: TcView, ep: u32, dir: u8, vrf: u32) -> (
    TcView,
    Result<bool, ()>,
) {
    match judged6(c.data) {
        Err(_) => (c, Err(())),
        Ok(f) => if c.pct6.contains_key(ct_key6(reverse6(f))) {
            (c, Ok(false))
        } else {
            let peer = if dir & POLICY_DIR_EGRESS != 0 { f.dst } else { f.src };
            let id = peer_identity6(t, vrf, peer);
            (
                TcView { peer_id: id, ..c },
                Ok(rules_deny(t.policy@, ep, id, f.proto, f.dport, dir)),
            )
        },
    }
}

/// Walk every rule pattern: a deny at any specificity wins over any allow, so
/// there is no early exit on allow.
fn probe_rules(t: &Tables, ep: u32, identity: u32, proto: u8, port: u16, dir: u8) -> (r: bool)
    ensures
        r == rules_deny(t.policy@, ep, identity, proto, port, dir),
{
    let keys: [PolicyKey; 8] = [
        PolicyKey { ep, identity, port, proto, dir },
        PolicyKey { ep, identity, port, proto: 0, dir },
        PolicyKey { ep, identity, port: 0, proto, dir },
        PolicyKey { ep, identity, port: 0, proto: 0, dir },
        PolicyKey { ep, identity: 0, port, proto, dir },
        PolicyKey { ep, identity: 0, port, proto: 0, dir },
        PolicyKey { ep, identity: 0, port: 0, proto, dir },
        PolicyKey { ep, identity: 0, port: 0, proto: 0, dir },
    ];
    let ghost ks = probes(ep, identity, proto, port, dir);
    assert(keys@ =~= ks);
    assert forall|k: PolicyKey| #[trigger]
        covers(k, ep, identity, proto, port, dir) <==> ks.contains(k) by {
        probes_cover(k, ep, identity, proto, port, dir);
    }
    let mut allowed: bool = false;
    let mut i: usize = 0;
    while i < 8
        invariant
            i <= 8,
            keys@ == ks,
            ks.len() == 8,
            forall|k: PolicyKey| #[trigger]
                covers(k, ep, identity, proto, port, dir) <==> ks.contains(k),
            forall|j: int| 0 <= j < i ==> t.policy@.get(#[trigger] ks[j]) != Some(POLICY_DENY),
            allowed == !(forall|j: int| 0 <= j < i ==> !t.policy@.contains_key(#[trigger] ks[j])),
        decreases 8 - i,
    {
        assert(keys@[i as int] == ks[i as int]);
        assert(ks.contains(ks[i as int]));
        assert(covers(ks[i as int], ep, identity, proto, port, dir));
        match t.policy.get(&keys[i]) {
            Some(v) => {
                if v == POLICY_DENY {
                    return true;
                }
                allowed = true;
                assert(t.policy@.contains_key(ks[i as int]));
            },
            None => {},
        }
        i += 1;
    }
    assert forall|k: PolicyKey| #[trigger]
        covers(k, ep, identity, proto, port, dir) implies t.policy@.get(k) != Some(POLICY_DENY)
        && (!allowed ==> !t.policy@.contains_key(k)) by {
        let j = choose|j: int| 0 <= j < ks.len() && ks[j] == k;
        assert(t.policy@.get(ks[j]) != Some(POLICY_DENY));
    }
    proof {
        if allowed {
            let j = choose|j: int| 0 <= j < 8 && t.policy@.contains_key(#[trigger] ks[j]);
            assert(ks.contains(ks[j]));
            assert(covers(ks[j], ep, identity, proto, port, dir));
        }
    }
    !allowed
}

/// Policy verdict for the enforced endpoint veth `ep`: false = allow. `dir`
/// selects the rule direction and which address is the peer: ingress checks
/// the packet's source identity, egress its destination identity. Replies to
/// flows recorded in the opposite direction pass; otherwise the rules are
/// probed most-specific-first with wildcard fallback. Runs post-NAT, so
/// verdicts apply to the real peer, not a service VIP.
pub fn policy_denied(t: &Tables, c: &mut Tc, ep: u32, dir: u8, vrf: u32) -> (r: Result<bool, ()>)
    ensures
        (final(c)@, r) == denied4(t, old(c)@, ep, dir, vrf),
{
    reveal(denied4);
    let proto: u8 = bytes::ld8(&c.data, 23)?;
    let src: u32 = bytes::ld_le32(&c.data, 26)?;
    let dst: u32 = bytes::ld_le32(&c.data, 30)?;
    let ver_ihl: u8 = bytes::ld8(&c.data, 14)?;
    let (sport, dport): (u16, u16) = if (proto == IPPROTO_TCP || proto == IPPROTO_UDP) && ver_ihl
        % 16 == 5 {
        (bytes::ld_le16(&c.data, 34)?, bytes::ld_le16(&c.data, 36)?)
    } else {
        (0, 0)
    };
    let back = key_of(Flow4 { src: dst, dst: src, sport: dport, dport: sport, proto });
    if c.pct.has(&back) {
        return Ok(false);
    }
    let peer: u32 = if dir & POLICY_DIR_EGRESS != 0 {
        dst
    } else {
        src
    };
    let identity: u32 = match t.identity.get(&VrfIdKey { vrf_id: vrf, addr: peer }) {
        Some(id) => id,
        None => {
            let octets = bytes::to_le32(peer);
            let key = tables::scoped_key(vrf, octets.as_slice());
            match t.cidr_id.get(key.as_slice()) {
                Some(id) => id,
                None => IDENTITY_WORLD,
            }
        },
    };
    c.peer_id = identity;
    Ok(probe_rules(t, ep, identity, proto, dport, dir))
}

/// v6 sibling of [`policy_denied`] — same rules (identities are
/// address-family-agnostic), v6 peer resolution and conntrack.
pub fn policy_denied_v6(t: &Tables, c: &mut Tc, ep: u32, dir: u8, vrf: u32) -> (r: Result<
    bool,
    (),
>)
    ensures
        (final(c)@, r) == denied6(t, old(c)@, ep, dir, vrf),
{
    reveal(denied6);
    let proto: u8 = bytes::ld8(&c.data, 20)?;
    let (sport, dport): (u16, u16) = if proto == IPPROTO_TCP || proto == IPPROTO_UDP {
        (bytes::ld_le16(&c.data, 54)?, bytes::ld_le16(&c.data, 56)?)
    } else {
        (0, 0)
    };
    let dst: [u8; 16] = bytes::ld16(&c.data, 38)?;
    let src: [u8; 16] = bytes::ld16(&c.data, 22)?;
    let back = key_of6(Flow6 { src: dst, dst: src, sport: dport, dport: sport, proto });
    if c.pct6.has(&back) {
        return Ok(false);
    }
    let peer: [u8; 16] = if dir & POLICY_DIR_EGRESS != 0 {
        dst
    } else {
        src
    };
    let identity: u32 = match t.identity6.get(&VrfId6Key { vrf_id: vrf, addr: peer }) {
        Some(id) => id,
        None => {
            let key = tables::scoped_key(vrf, peer.as_slice());
            match t.cidr_id6.get(key.as_slice()) {
                Some(id) => id,
                None => IDENTITY_WORLD,
            }
        },
    };
    c.peer_id = identity;
    Ok(probe_rules(t, ep, identity, proto, dport, dir))
}

// ------------------------------ flow records --------------------------------

/// The flow record of the current IPv4 packet.
pub open spec fn flow_record(c: TcView, verdict: u8, dir: u8, ep: u32, peer: u32) -> FlowRecord {
    let s = c.data;
    let ports = has_ports(s[23]) && s[14] % 16 == 5;
    FlowRecord {
        time_ns: c.now,
        ep_ifindex: ep,
        saddr: bytes::oct4(s, 26),
        daddr: bytes::oct4(s, 30),
        sport: if ports && s.len() >= 36 { bytes::le16(s, 34) } else { 0 },
        dport: if ports && s.len() >= 38 { bytes::le16(s, 36) } else { 0 },
        proto: s[23],
        verdict,
        dir,
        _pad: 0,
        peer_identity: peer,
    }
}

/// `c` after a flow record was offered to the ring: none for a packet without
/// a full IPv4 header, and none when the ring is full.
#[verifier::opaque]
pub open spec fn emitted(c: TcView, verdict: u8, dir: u8, ep: u32, peer: u32) -> TcView {
    if c.data.len() < 34 || c.flows.len() >= c.flow_cap {
        c
    } else {
        TcView { flows: c.flows.push(flow_record(c, verdict, dir, ep, peer)), ..c }
    }
}

fn or_zero(x: Result<u16, ()>) -> (r: u16)
    ensures
        r == (match x {
            Ok(v) => v,
            Err(_) => 0,
        }),
{
    match x {
        Ok(v) => v,
        Err(_) => 0,
    }
}

/// Emit a flow event for the current IPv4 packet (best-effort). `dir` is
/// `FLOW_DIR_*`; `ep` is the local endpoint veth ifindex (0 = none). Never
/// affects forwarding.
pub fn emit_flow_v4(c: &mut Tc, verdict: u8, dir: u8, ep: u32, peer_identity: u32)
    ensures
        final(c)@ == emitted(old(c)@, verdict, dir, ep, peer_identity),
{
    reveal(emitted);
    let (saddr, daddr, proto, ver_ihl) = match (
        bytes::ld4(&c.data, 26),
        bytes::ld4(&c.data, 30),
        bytes::ld8(&c.data, 23),
        bytes::ld8(&c.data, 14),
    ) {
        (Ok(s), Ok(d), Ok(p), Ok(v)) => (s, d, p, v),
        _ => {
            return ;
        },
    };
    let (sport, dport): (u16, u16) = if (proto == IPPROTO_TCP || proto == IPPROTO_UDP) && ver_ihl
        % 16 == 5 {
        (or_zero(bytes::ld_le16(&c.data, 34)), or_zero(bytes::ld_le16(&c.data, 36)))
    } else {
        (0, 0)
    };
    if c.flows.len() >= c.flow_cap {
        return ;
    }
    c.flows.push(
        FlowRecord {
            time_ns: c.now,
            ep_ifindex: ep,
            saddr,
            daddr,
            sport,
            dport,
            proto,
            verdict,
            dir,
            _pad: 0,
            peer_identity,
        },
    );
}

// ------------------------------ enforcement ---------------------------------

/// Whether a verdict denies: an unreadable packet is denied.
pub open spec fn is_denied(v: Result<bool, ()>) -> bool {
    v != Ok::<bool, ()>(false)
}

/// Enforcement of one direction on an IPv4 packet: `true` = drop. A denied
/// packet is counted and reported; in audit mode it is let through.
#[verifier::opaque]
pub open spec fn enforced4(
    t: &Tables,
    c: TcView,
    ep: u32,
    ep_flags: u8,
    dir: u8,
    flow_dir: u8,
    vrf: u32,
) -> (TcView, bool) {
    let (c1, v) = denied4(t, c, ep, dir_gen_of(ep_flags, dir), vrf);
    if !is_denied(v) {
        (c1, false)
    } else if ep_flags & EP_F_AUDIT != 0 {
        (
            emitted(skb::stat(c1, STAT_POLICY_AUDIT), FLOW_AUDITED, flow_dir, ep, c1.peer_id),
            false,
        )
    } else {
        (emitted(skb::stat(c1, STAT_POLICY_DROP), FLOW_DROPPED, flow_dir, ep, c1.peer_id), true)
    }
}

/// Enforcement of one direction on an IPv6 packet: `true` = drop.
#[verifier::opaque]
pub open spec fn enforced6(t: &Tables, c: TcView, ep: u32, ep_flags: u8, dir: u8, vrf: u32) -> (
    TcView,
    bool,
) {
    let (c1, v) = denied6(t, c, ep, dir_gen_of(ep_flags, dir), vrf);
    if !is_denied(v) {
        (c1, false)
    } else if ep_flags & EP_F_AUDIT != 0 {
        (skb::stat(c1, STAT_POLICY_AUDIT), false)
    } else {
        (skb::stat(c1, STAT_POLICY_DROP), true)
    }
}

fn verdict_denies(v: Result<bool, ()>) -> (r: bool)
    ensures
        r == is_denied(v),
{
    match v {
        Ok(d) => d,
        Err(_) => true,
    }
}

/// Enforce one direction on an IPv4 packet; `true` = drop.
pub fn enforce_v4(
    t: &Tables,
    c: &mut Tc,
    ep: u32,
    ep_flags: u8,
    dir: u8,
    flow_dir: u8,
    vrf: u32,
) -> (drop: bool)
    ensures
        (final(c)@, drop) == enforced4(t, old(c)@, ep, ep_flags, dir, flow_dir, vrf),
{
    reveal(enforced4);
    let v = policy_denied(t, c, ep, dir_gen(ep_flags, dir), vrf);
    if !verdict_denies(v) {
        return false;
    }
    let peer: u32 = c.peer_id;
    if ep_flags & EP_F_AUDIT != 0 {
        c.stat_inc(STAT_POLICY_AUDIT);
        emit_flow_v4(c, FLOW_AUDITED, flow_dir, ep, peer);
        false
    } else {
        c.stat_inc(STAT_POLICY_DROP);
        emit_flow_v4(c, FLOW_DROPPED, flow_dir, ep, peer);
        true
    }
}

/// Enforce one direction on an IPv6 packet; `true` = drop. (IPv6 flows are
/// not exported.)
pub fn enforce_v6(t: &Tables, c: &mut Tc, ep: u32, ep_flags: u8, dir: u8, vrf: u32) -> (drop: bool)
    ensures
        (final(c)@, drop) == enforced6(t, old(c)@, ep, ep_flags, dir, vrf),
{
    reveal(enforced6);
    let v = policy_denied_v6(t, c, ep, dir_gen(ep_flags, dir), vrf);
    if !verdict_denies(v) {
        return false;
    }
    if ep_flags & EP_F_AUDIT != 0 {
        c.stat_inc(STAT_POLICY_AUDIT);
        false
    } else {
        c.stat_inc(STAT_POLICY_DROP);
        true
    }
}

/// Egress enforcement of an IPv4 packet initiated by endpoint `from_ep`
/// (0 = none): `true` = drop.
pub open spec fn egress4(t: &Tables, c: TcView, from_ep: u32, vrf: u32) -> (TcView, bool) {
    match t.ep_policy@.get(from_ep) {
        Some(f) if from_ep != 0 && f & EP_F_EGRESS != 0 => enforced4(
            t,
            c,
            from_ep,
            f,
            POLICY_DIR_EGRESS,
            FLOW_DIR_EGRESS,
            vrf,
        ),
        _ => (c, false),
    }
}

/// Egress enforcement of an IPv6 packet initiated by endpoint `from_ep`.
pub open spec fn egress6(t: &Tables, c: TcView, from_ep: u32, vrf: u32) -> (TcView, bool) {
    match t.ep_policy@.get(from_ep) {
        Some(f) if from_ep != 0 && f & EP_F_EGRESS != 0 => enforced6(
            t,
            c,
            from_ep,
            f,
            POLICY_DIR_EGRESS,
            vrf,
        ),
        _ => (c, false),
    }
}

/// Enforce egress policy on an IPv4 packet; `true` = drop.
pub fn egress_policy_v4(t: &Tables, c: &mut Tc, from_ep: u32, vrf: u32) -> (drop: bool)
    ensures
        (final(c)@, drop) == egress4(t, old(c)@, from_ep, vrf),
{
    if from_ep == 0 {
        return false;
    }
    match t.ep_policy.get(&from_ep) {
        Some(f) => {
            if f & EP_F_EGRESS != 0 {
                enforce_v4(t, c, from_ep, f, POLICY_DIR_EGRESS, FLOW_DIR_EGRESS, vrf)
            } else {
                false
            }
        },
        None => false,
    }
}

/// Enforce egress policy on an IPv6 packet; `true` = drop.
pub fn egress_policy_v6(t: &Tables, c: &mut Tc, from_ep: u32, vrf: u32) -> (drop: bool)
    ensures
        (final(c)@, drop) == egress6(t, old(c)@, from_ep, vrf),
{
    if from_ep == 0 {
        return false;
    }
    match t.ep_policy.get(&from_ep) {
        Some(f) => {
            if f & EP_F_EGRESS != 0 {
                enforce_v6(t, c, from_ep, f, POLICY_DIR_EGRESS, vrf)
            } else {
                false
            }
        },
        None => false,
    }
}

/// The VRF of a port (0 when it is not configured).
pub open spec fn port_vrf(t: &Tables, oif: u32) -> u32 {
    match t.ports@.get(oif) {
        Some(p) => p.vrf_id,
        None => 0,
    }
}

/// Ingress enforcement and inbound tracking at delivery of an IPv4 packet.
pub open spec fn delivered4(t: &Tables, c: TcView, oif: u32, f: u8, vrf: u32) -> (TcView, TcAct) {
    let (c1, drop) = if f & EP_F_INGRESS != 0 {
        enforced4(t, c, oif, f, POLICY_DIR_INGRESS, FLOW_DIR_INGRESS, vrf)
    } else {
        (c, false)
    };
    if drop {
        (c1, TcAct::Shot)
    } else if f & EP_F_EGRESS != 0 {
        (track4(c1, PCT_INBOUND).0, TcAct::Pipe)
    } else {
        (c1, TcAct::Pipe)
    }
}

/// Ingress enforcement and inbound tracking at delivery of an IPv6 packet.
pub open spec fn delivered6(t: &Tables, c: TcView, oif: u32, f: u8, vrf: u32) -> (TcView, TcAct) {
    let (c1, drop) = if f & EP_F_INGRESS != 0 {
        enforced6(t, c, oif, f, POLICY_DIR_INGRESS, vrf)
    } else {
        (c, false)
    };
    if drop {
        (c1, TcAct::Shot)
    } else if f & EP_F_EGRESS != 0 {
        (track6(c1, PCT_INBOUND).0, TcAct::Pipe)
    } else {
        (c1, TcAct::Pipe)
    }
}

/// The ingress-policy stage: nothing happens at an interface that is no
/// enforced endpoint.
#[verifier::opaque]
pub open spec fn ingress_policed(t: &Tables, c: TcView) -> (TcView, Result<TcAct, ()>) {
    match t.ep_policy@.get(c.ifindex) {
        None => (c, Ok(TcAct::Pipe)),
        Some(f) => if c.data.len() < 14 {
            (c, Err(()))
        } else if bytes::be16(c.data, 12) == ETH_P_IP {
            let (c1, a) = delivered4(t, c, c.ifindex, f, port_vrf(t, c.ifindex));
            (c1, Ok(a))
        } else if bytes::be16(c.data, 12) == ETH_P_IPV6 {
            let (c1, a) = delivered6(t, c, c.ifindex, f, port_vrf(t, c.ifindex));
            (c1, Ok(a))
        } else {
            (c, Ok(TcAct::Pipe))
        },
    }
}

/// Ingress-direction policy verdict + inbound-flow tracking for an enforced
/// endpoint, keyed by the packet's egress device (the pod's host-veth).
pub fn ingress_policy(t: &Tables, c: &mut Tc) -> (r: Result<TcAct, ()>)
    ensures
        (final(c)@, r) == ingress_policed(t, old(c)@),
{
    reveal(ingress_policed);
    let oif: u32 = c.ifindex;
    let ep_flags: u8 = match t.ep_policy.get(&oif) {
        Some(f) => f,
        None => {
            return Ok(TcAct::Pipe);
        },
    };
    let vrf: u32 = match t.ports.get(&oif) {
        Some(p) => p.vrf_id,
        None => 0,
    };
    let ethertype: u16 = bytes::ld_be16(&c.data, 12)?;
    if ethertype == ETH_P_IP {
        if ep_flags & EP_F_INGRESS != 0 {
            if enforce_v4(t, c, oif, ep_flags, POLICY_DIR_INGRESS, FLOW_DIR_INGRESS, vrf) {
                return Ok(TcAct::Shot);
            }
        }
        if ep_flags & EP_F_EGRESS != 0 {
            let _ = pct_track(c, PCT_INBOUND);
        }
    } else if ethertype == ETH_P_IPV6 {
        if ep_flags & EP_F_INGRESS != 0 {
            if enforce_v6(t, c, oif, ep_flags, POLICY_DIR_INGRESS, vrf) {
                return Ok(TcAct::Shot);
            }
        }
        if ep_flags & EP_F_EGRESS != 0 {
            let _ = pct_track6(c, PCT_INBOUND);
        }
    }
    Ok(TcAct::Pipe)
}

// -------------------------------- laws --------------------------------------

/// Deny wins at any specificity: whatever else the rules hold, a deny rule
/// that speaks of the packet denies it.
pub proof fn deny_wins(
    rules: Map<PolicyKey, u8>,
    ep: u32,
    identity: u32,
    proto: u8,
    port: u16,
    dir: u8,
    k: PolicyKey,
)
    requires
        covers(k, ep, identity, proto, port, dir),
        rules.get(k) == Some(POLICY_DENY),
    ensures
        rules_deny(rules, ep, identity, proto, port, dir),
{
}

/// Without a deny, any rule that speaks of the packet admits it.
pub proof fn allow_admits(
    rules: Map<PolicyKey, u8>,
    ep: u32,
    identity: u32,
    proto: u8,
    port: u16,
    dir: u8,
    k: PolicyKey,
)
    requires
        covers(k, ep, identity, proto, port, dir),
        rules.contains_key(k),
        forall|d: PolicyKey| #[trigger]
            covers(d, ep, identity, proto, port, dir) ==> rules.get(d) != Some(POLICY_DENY),
    ensures
        !rules_deny(rules, ep, identity, proto, port, dir),
{
}

/// The verdict rests on the rules of the endpoint in the direction and
/// generation asked about: a rule set differing elsewhere gives the same.
pub proof fn other_rules_do_not_count(
    rules: Map<PolicyKey, u8>,
    other: Map<PolicyKey, u8>,
    ep: u32,
    identity: u32,
    proto: u8,
    port: u16,
    dir: u8,
)
    requires
        forall|k: PolicyKey|
            k.ep == ep && k.dir == dir ==> #[trigger] rules.get(k) == other.get(k),
    ensures
        rules_deny(rules, ep, identity, proto, port, dir) == rules_deny(
            other,
            ep,
            identity,
            proto,
            port,
            dir,
        ),
{
    assert forall|k: PolicyKey| #[trigger] covers(k, ep, identity, proto, port, dir) implies (
    rules.get(k) == other.get(k) && rules.contains_key(k) == other.contains_key(k)) by {
        assert(rules.get(k) == other.get(k));
    }
}

/// The generations and directions of an endpoint are apart: rules filled into
/// the inactive generation have keys that no check of the active one asks
/// about.
pub proof fn generations_are_apart(f: u8, g: u8, dir: u8, other: u8)
    requires
        dir == POLICY_DIR_INGRESS || dir == POLICY_DIR_EGRESS,
        other == POLICY_DIR_INGRESS || other == POLICY_DIR_EGRESS,
    ensures
        dir_gen_of(f, dir) == dir_gen_of(g, other) <==> dir == other && (f & EP_F_GEN != 0) == (g
            & EP_F_GEN != 0),
{
    assert(0u8 | 2u8 == 2 && 1u8 | 2u8 == 3 && 0u8 | 0u8 == 0 && 1u8 | 0u8 == 1) by (bit_vector);
}

/// An enforced endpoint without rules is closed: with no rule for the
/// endpoint and direction, every packet that is no reply is denied.
pub proof fn default_deny(t: &Tables, c: TcView, ep: u32, dir: u8, vrf: u32)
    requires
        forall|k: PolicyKey| #[trigger] t.policy@.contains_key(k) ==> k.ep != ep || k.dir != dir,
    ensures
        (judged4(c.data) matches Ok(f) ==> !c.pct.contains_key(ct_key(reverse(f)))) ==> is_denied(
            denied4(t, c, ep, dir, vrf).1,
        ),
        (judged6(c.data) matches Ok(f) ==> !c.pct6.contains_key(ct_key6(reverse6(f))))
            ==> is_denied(denied6(t, c, ep, dir, vrf).1),
{
    reveal(denied4);
    reveal(denied6);
}

/// Replies bypass policy: once a flow is recorded, the packets of its reverse
/// flow are admitted whatever the rules say.
pub proof fn recorded_replies_pass(t: &Tables, c: TcView, reply: Seq<u8>, val: u8, ep: u32, dir: u8, vrf: u32)
    requires
        c.data.len() >= 14,
        bytes::be16(c.data, 12) == ETH_P_IP,
        ip4_flow(c.data) matches Ok(Some(f)) && judged4(reply) == Ok::<Flow4, ()>(reverse(f)),
    ensures
        denied4(t, skb::with_data(track4(c, val).0, reply), ep, dir, vrf).1 == Ok::<bool, ()>(
            false,
        ),
{
    reveal(track4);
    reveal(denied4);
}

/// The IPv6 form of [`recorded_replies_pass`].
pub proof fn recorded_replies_pass_v6(t: &Tables, c: TcView, reply: Seq<u8>, val: u8, ep: u32, dir: u8, vrf: u32)
    requires
        c.data.len() >= 14,
        bytes::be16(c.data, 12) == ETH_P_IPV6,
        ip6_flow(c.data) matches Ok(Some(f)) && judged6(reply) == Ok::<Flow6, ()>(reverse6(f)),
    ensures
        denied6(t, skb::with_data(track6(c, val).0, reply), ep, dir, vrf).1 == Ok::<bool, ()>(
            false,
        ),
{
    reveal(track6);
    reveal(denied6);
}

/// An interface without an endpoint policy is open: the stage neither drops
/// nor changes anything.
pub proof fn default_allow(t: &Tables, c: TcView)
    requires
        !t.ep_policy@.contains_key(c.ifindex),
    ensures
        ingress_policed(t, c) == (c, Ok::<TcAct, ()>(TcAct::Pipe)),
{
    reveal(ingress_policed);
}

/// An endpoint in audit mode never loses a packet to policy.
pub proof fn audit_never_drops(t: &Tables, c: TcView, ep: u32, f: u8, dir: u8, flow_dir: u8, vrf: u32)
    requires
        f & EP_F_AUDIT != 0,
    ensures
        !enforced4(t, c, ep, f, dir, flow_dir, vrf).1,
        !enforced6(t, c, ep, f, dir, vrf).1,
{
    reveal(enforced4);
    reveal(enforced6);
}

/// Enforcing a direction leaves the packet as it was.
pub proof fn enforcement_keeps_packet(
    t: &Tables,
    c: TcView,
    ep: u32,
    f: u8,
    dir: u8,
    flow_dir: u8,
    vrf: u32,
)
    ensures
        enforced4(t, c, ep, f, dir, flow_dir, vrf).0.data == c.data,
        enforced6(t, c, ep, f, dir, vrf).0.data == c.data,
{
    assert(denied4(t, c, ep, dir_gen_of(f, dir), vrf).0.data == c.data) by {
        reveal(denied4);
    }
    assert(denied6(t, c, ep, dir_gen_of(f, dir), vrf).0.data == c.data) by {
        reveal(denied6);
    }
    reveal(emitted);
    reveal(enforced4);
    reveal(enforced6);
}

/// Policy never rewrites a packet.
pub proof fn ingress_policy_keeps_packet(t: &Tables, c: TcView)
    ensures
        ingress_policed(t, c).0.data == c.data,
{
    reveal(ingress_policed);
    match t.ep_policy@.get(c.ifindex) {
        Some(f) => {
            let vrf = port_vrf(t, c.ifindex);
            enforcement_keeps_packet(t, c, c.ifindex, f, POLICY_DIR_INGRESS, FLOW_DIR_INGRESS, vrf);
            reveal(track4);
            reveal(track6);
        },
        None => {},
    }
}

} // verus!
