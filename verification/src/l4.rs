//! L4 NAT: service load balancing with connection tracking, reverse
//! translation, session affinity, and egress masquerade.

use vstd::prelude::*;
use crate::bytes;
use crate::lpm;
use crate::policy;
use crate::policy::{Flow4, Flow6};
use crate::skb;
use crate::skb::{CsumFix, Tc, TcView};
use crate::tables::Tables;
use crate::types::{
    AffinityKey, AffinityVal, Backend, BackendKey, Backend6, CtEntry, CtEntry6, ServiceInfo,
    ServiceKey, ServiceKey6, AFFINITY_TIMEOUT_NS, CT_F_DNAT, CT_F_SNAT, FLOW_DIR_EGRESS,
    FLOW_DIR_INGRESS, FLOW_TRANSLATED, STAT_L4_DNAT, STAT_L4_SNAT, STAT_MASQ, SVC_F_AFFINITY,
};
use crate::wire::{
    BPF_F_MARK_MANGLED_0, BPF_F_PSEUDO_HDR, ETH_P_IP, ETH_P_IPV6, IP6_DST_OFF, IP6_L4_OFF,
    IP6_SRC_OFF, IPPROTO_TCP, IPPROTO_UDP, IP_DST_OFF, IP_SRC_OFF, L4_OFF,
};

verus! {

// ---------------------------- address rewrite -------------------------------

/// Offset of the L4 checksum in its header: TCP at 16, UDP at 6.
pub open spec fn csum_in_l4(proto: u8) -> int {
    if proto == IPPROTO_TCP {
        16
    } else {
        6
    }
}

/// A zero UDP checksum means "none" and must stay zero.
pub open spec fn mangled(proto: u8) -> u64 {
    if proto == IPPROTO_UDP {
        BPF_F_MARK_MANGLED_0
    } else {
        0
    }
}

/// Outcome of rewriting an IPv4 address (at `addr_off`) and its port (at
/// `port_off`): three checksum patches, then the two fields. A packet too
/// short for its L4 checksum fails after the header-checksum patch.
pub open spec fn translated(
    c: TcView,
    addr_off: int,
    port_off: int,
    idx: u32,
    proto: u8,
    old_ip: u32,
    old_port: u16,
    new_ip: u32,
    new_port: u16,
) -> (TcView, Result<(), ()>) {
    let off = L4_OFF + csum_in_l4(proto);
    let m = mangled(proto);
    let hdr = c.fixes.push(
        CsumFix { l4: false, off: 24, from: old_ip as u64, to: new_ip as u64, flags: 4 },
    );
    if c.data.len() < off + 2 {
        (TcView { fixes: hdr, ..c }, Err(()))
    } else {
        (
            skb::stat(
                TcView {
                    fixes: hdr.push(
                        CsumFix {
                            l4: true,
                            off: off as u32,
                            from: old_ip as u64,
                            to: new_ip as u64,
                            flags: (BPF_F_PSEUDO_HDR + m + 4) as u64,
                        },
                    ).push(
                        CsumFix {
                            l4: true,
                            off: off as u32,
                            from: old_port as u64,
                            to: new_port as u64,
                            flags: (m + 2) as u64,
                        },
                    ),
                    data: bytes::splice(
                        bytes::splice(c.data, addr_off, bytes::le32_bytes(new_ip)),
                        port_off,
                        bytes::le16_bytes(new_port),
                    ),
                    ..c
                },
                idx,
            ),
            Ok(()),
        )
    }
}

/// Rewriting the destination of flow `f` to `(ip, port)`.
#[verifier::opaque]
pub open spec fn dnatted(c: TcView, f: Flow4, ip: u32, port: u16) -> (TcView, Result<(), ()>) {
    translated(
        c,
        IP_DST_OFF as int,
        L4_OFF + 2,
        STAT_L4_DNAT,
        f.proto,
        f.dst,
        f.dport,
        ip,
        port,
    )
}

/// Rewriting the source of flow `f` to `(ip, port)`.
#[verifier::opaque]
pub open spec fn snatted(c: TcView, f: Flow4, ip: u32, port: u16) -> (TcView, Result<(), ()>) {
    translated(
        c,
        IP_SRC_OFF as int,
        L4_OFF as int,
        STAT_L4_SNAT,
        f.proto,
        f.src,
        f.sport,
        ip,
        port,
    )
}

/// Offset of the L4 checksum of an IPv4 packet.
pub fn l4_csum_off(proto: u8) -> (r: usize)
    ensures
        r == L4_OFF + csum_in_l4(proto),
{
    L4_OFF + (if proto == IPPROTO_TCP {
        16
    } else {
        6
    })
}

fn mangled_flag(proto: u8) -> (r: u64)
    ensures
        r == mangled(proto),
        r <= 32,
{
    if proto == IPPROTO_UDP {
        BPF_F_MARK_MANGLED_0
    } else {
        0
    }
}

fn translate(
    c: &mut Tc,
    addr_off: usize,
    port_off: usize,
    idx: u32,
    proto: u8,
    old_ip: u32,
    old_port: u16,
    new_ip: u32,
    new_port: u16,
) -> (r: Result<(), ()>)
    requires
        old(c)@.data.len() >= 38,
        addr_off + 4 <= 38,
        port_off + 2 <= 38,
    ensures
        (final(c)@, r) == translated(
            old(c)@,
            addr_off as int,
            port_off as int,
            idx,
            proto,
            old_ip,
            old_port,
            new_ip,
            new_port,
        ),
{
    let off: u32 = l4_csum_off(proto) as u32;
    let m: u64 = mangled_flag(proto);
    c.csum_replace(
        CsumFix { l4: false, off: 24, from: old_ip as u64, to: new_ip as u64, flags: 4 },
    )?;
    c.csum_replace(
        CsumFix {
            l4: true,
            off,
            from: old_ip as u64,
            to: new_ip as u64,
            flags: BPF_F_PSEUDO_HDR + m + 4,
        },
    )?;
    c.csum_replace(
        CsumFix { l4: true, off, from: old_port as u64, to: new_port as u64, flags: m + 2 },
    )?;
    let ip = bytes::to_le32(new_ip);
    let port = bytes::to_le16(new_port);
    c.store(addr_off, ip.as_slice());
    c.store(port_off, port.as_slice());
    c.stat_inc(idx);
    Ok(())
}

/// Rewrite the destination address+port and fix the IPv4 and L4 checksums.
pub(crate) fn dnat(c: &mut Tc, f: Flow4, new_ip: u32, new_port: u16) -> (r: Result<(), ()>)
    requires
        old(c)@.data.len() >= 38,
    ensures
        (final(c)@, r) == dnatted(old(c)@, f, new_ip, new_port),
{
    reveal(dnatted);
    translate(
        c,
        IP_DST_OFF,
        L4_OFF + 2,
        STAT_L4_DNAT,
        f.proto,
        f.dst,
        f.dport,
        new_ip,
        new_port,
    )
}

/// Rewrite the source address+port and fix the IPv4 and L4 checksums.
pub(crate) fn snat(c: &mut Tc, f: Flow4, new_ip: u32, new_port: u16) -> (r: Result<(), ()>)
    requires
        old(c)@.data.len() >= 38,
    ensures
        (final(c)@, r) == snatted(old(c)@, f, new_ip, new_port),
{
    reveal(snatted);
    translate(
        c,
        IP_SRC_OFF,
        L4_OFF,
        STAT_L4_SNAT,
        f.proto,
        f.src,
        f.sport,
        new_ip,
        new_port,
    )
}

// -------------------------------- IPv4 --------------------------------------

/// Outcome of masquerading a new flow: a pod's flow to a destination outside
/// the exempt CIDRs leaves from the node's address, its source port kept.
#[verifier::opaque]
pub open spec fn masqueraded(t: &Tables, c: TcView, masq_src: bool, f: Flow4) -> (
    TcView,
    Result<(), ()>,
) {
    if !masq_src || t.masq_node == 0 || lpm::matched(
        t.non_masq@,
        bytes::oct4(c.data, IP_DST_OFF as int)@,
    ) is Some {
        (c, Ok(()))
    } else {
        let node = t.masq_node;
        let out = CtEntry {
            rev_addr: node,
            rev_port: f.sport,
            flags: CT_F_SNAT,
            last_seen: c.now,
        };
        let back = CtEntry {
            rev_addr: f.src,
            rev_port: f.sport,
            flags: CT_F_DNAT,
            last_seen: c.now,
        };
        let reply = Flow4 {
            src: f.dst,
            dst: node,
            sport: f.dport,
            dport: f.sport,
            proto: f.proto,
        };
        let c1 = TcView {
            ct: c.ct.insert(policy::ct_key(f), out).insert(policy::ct_key(reply), back),
            ..c
        };
        let c2 = policy::emitted(c1, FLOW_TRANSLATED, FLOW_DIR_EGRESS, 0, 0);
        let (c3, r) = snatted(c2, f, node, f.sport);
        if r is Ok {
            (skb::stat(c3, STAT_MASQ), Ok(()))
        } else {
            (c3, r)
        }
    }
}

/// Egress masquerade: a new pod flow (`masq_src`) to a destination outside
/// the cluster is SNAT'd to the node's uplink IP (source port preserved). Two
/// conntrack entries fold the reverse into the established branch: the reply
/// arriving on the uplink un-DNATs back to the pod, and a retransmit re-SNATs
/// identically.
pub(crate) fn masq_v4(t: &Tables, c: &mut Tc, masq_src: bool, f: Flow4) -> (r: Result<(), ()>)
    requires
        old(c)@.data.len() >= 38,
    ensures
        (final(c)@, r) == masqueraded(t, old(c)@, masq_src, f),
{
    reveal(masqueraded);
    if !masq_src || t.masq_node == 0 {
        return Ok(());
    }
    let node: u32 = t.masq_node;
    let dst_bytes: [u8; 4] = bytes::ld4(&c.data, IP_DST_OFF)?;
    if t.non_masq.get(dst_bytes.as_slice()).is_some() {
        return Ok(());
    }
    let now: u64 = c.now;
    c.ct.put(
        policy::key_of(f),
        CtEntry { rev_addr: node, rev_port: f.sport, flags: CT_F_SNAT, last_seen: now },
    );
    let reply = Flow4 { src: f.dst, dst: node, sport: f.dport, dport: f.sport, proto: f.proto };
    c.ct.put(
        policy::key_of(reply),
        CtEntry { rev_addr: f.src, rev_port: f.sport, flags: CT_F_DNAT, last_seen: now },
    );
    policy::emit_flow_v4(c, FLOW_TRANSLATED, FLOW_DIR_EGRESS, 0, 0);
    proof {
        reveal(policy::emitted);
    }
    snat(c, f, node, f.sport)?;
    c.stat_inc(STAT_MASQ);
    Ok(())
}

/// Affinity key of a client.
pub open spec fn affinity_key(svc: ServiceInfo, client: u32) -> AffinityKey {
    AffinityKey { svc_id: svc.svc_id, client }
}

/// Whether an affinity entry still pins its slot at `now`.
pub open spec fn sticky(a: AffinityVal, now: u64, svc: ServiceInfo) -> bool {
    (now - a.last_ns) % 0x1_0000_0000_0000_0000 < AFFINITY_TIMEOUT_NS && a.slot < svc.backend_count
}

/// The backend slot a new flow gets: the client's sticky slot when the service
/// has affinity and the entry is live, else a random one.
pub open spec fn picked(c: TcView, svc: ServiceInfo, client: u32) -> u16 {
    match c.affinity.get(affinity_key(svc, client)) {
        Some(a) if svc.flags & SVC_F_AFFINITY != 0 && sticky(a, c.now, svc) => a.slot,
        _ => (c.rand % svc.backend_count as u32) as u16,
    }
}

/// `c` after the pick was recorded.
pub open spec fn pick_recorded(c: TcView, svc: ServiceInfo, client: u32) -> TcView {
    if svc.flags & SVC_F_AFFINITY != 0 {
        TcView {
            affinity: c.affinity.insert(
                affinity_key(svc, client),
                AffinityVal { slot: picked(c, svc, client), _pad: 0, last_ns: c.now },
            ),
            ..c
        }
    } else {
        c
    }
}

/// `c` with the two conntrack entries of flow `f` sent to `be`: forward
/// rewrites the destination to the backend, reverse the source to the VIP.
pub open spec fn connected(c: TcView, f: Flow4, be: Backend) -> TcView {
    let fwd = CtEntry {
        rev_addr: be.addr,
        rev_port: be.port,
        flags: CT_F_DNAT,
        last_seen: c.now,
    };
    let rev = CtEntry { rev_addr: f.dst, rev_port: f.dport, flags: CT_F_SNAT, last_seen: c.now };
    TcView {
        ct: c.ct.insert(policy::ct_key(f), fwd).insert(policy::ct_key(back_flow(f, be)), rev),
        ..c
    }
}

/// The flow of the backend's replies to `f`.
pub open spec fn back_flow(f: Flow4, be: Backend) -> Flow4 {
    Flow4 { src: be.addr, dst: f.src, sport: be.port, dport: f.sport, proto: f.proto }
}

/// Backend slot key.
pub open spec fn backend_key(svc: ServiceInfo, slot: u16) -> BackendKey {
    BackendKey { svc_id: svc.svc_id, slot, _pad: 0 }
}

/// Service key of a flow's destination.
pub open spec fn service_key(f: Flow4) -> ServiceKey {
    ServiceKey { vip: f.dst, port: f.dport, proto: f.proto, _pad: 0 }
}

/// Outcome of balancing a new flow over a service's backends.
#[verifier::opaque]
pub open spec fn balanced(t: &Tables, c: TcView, svc: ServiceInfo, f: Flow4) -> (
    TcView,
    Result<(), ()>,
) {
    if svc.backend_count == 0 {
        (c, Ok(()))
    } else {
        let slot = picked(c, svc, f.src);
        let c1 = pick_recorded(c, svc, f.src);
        match t.backends@.get(backend_key(svc, slot)) {
            None => (c1, Ok(())),
            Some(be) => dnatted(
                policy::emitted(connected(c1, f, be), FLOW_TRANSLATED, FLOW_DIR_INGRESS, 0, 0),
                f,
                be.addr,
                be.port,
            ),
        }
    }
}

/// `c` with the entry `e` of flow `f` seen now.
pub open spec fn seen(c: TcView, f: Flow4, e: CtEntry) -> TcView {
    TcView { ct: c.ct.insert(policy::ct_key(f), CtEntry { last_seen: c.now, ..e }), ..c }
}

/// Outcome of the IPv4 NAT stage: an established flow gets its recorded
/// translation, a new flow to a service is balanced, any other new flow may
/// be masqueraded.
#[verifier::opaque]
pub open spec fn natted4(t: &Tables, c: TcView, masq_src: bool) -> (TcView, Result<(), ()>) {
    match policy::ip4_flow(c.data) {
        Err(_) => (c, Err(())),
        Ok(None) => (c, Ok(())),
        Ok(Some(f)) => match c.ct.get(policy::ct_key(f)) {
            Some(e) => {
                let c1 = seen(c, f, e);
                if e.flags & CT_F_DNAT != 0 {
                    dnatted(c1, f, e.rev_addr, e.rev_port)
                } else if e.flags & CT_F_SNAT != 0 {
                    snatted(c1, f, e.rev_addr, e.rev_port)
                } else {
                    (c1, Ok(()))
                }
            },
            None => match t.services@.get(service_key(f)) {
                None => masqueraded(t, c, masq_src, f),
                Some(svc) => balanced(t, c, svc, f),
            },
        },
    }
}

fn is_sticky(a: &AffinityVal, now: u64, svc: &ServiceInfo) -> (r: bool)
    ensures
        r == sticky(*a, now, *svc),
{
    now.wrapping_sub(a.last_ns) < AFFINITY_TIMEOUT_NS && a.slot < svc.backend_count
}

fn random_slot(rand: u32, svc: &ServiceInfo) -> (r: u16)
    requires
        svc.backend_count > 0,
    ensures
        r == (rand % svc.backend_count as u32) as u16,
{
    (rand % svc.backend_count as u32) as u16
}

/// Pick a backend slot: random, unless the service has ClientIP affinity —
/// then reuse this client's sticky slot (refreshing its timestamp) if it is
/// live and still in range, else pick fresh and record it.
pub(crate) fn pick_backend(c: &mut Tc, svc: &ServiceInfo, client: u32) -> (slot: u16)
    requires
        svc.backend_count > 0,
    ensures
        slot == picked(old(c)@, *svc, client),
        final(c)@ == pick_recorded(old(c)@, *svc, client),
{
    if svc.flags & SVC_F_AFFINITY != 0 {
        let akey = AffinityKey { svc_id: svc.svc_id, client };
        let slot: u16 = match c.affinity.get(&akey) {
            Some(a) => if is_sticky(&a, c.now, svc) {
                a.slot
            } else {
                random_slot(c.rand, svc)
            },
            None => random_slot(c.rand, svc),
        };
        let now: u64 = c.now;
        c.affinity.put(akey, AffinityVal { slot, _pad: 0, last_ns: now });
        slot
    } else {
        random_slot(c.rand, svc)
    }
}

fn balance(t: &Tables, c: &mut Tc, svc: ServiceInfo, f: Flow4) -> (r: Result<(), ()>)
    requires
        old(c)@.data.len() >= 38,
    ensures
        (final(c)@, r) == balanced(t, old(c)@, svc, f),
{
    reveal(balanced);
    if svc.backend_count == 0 {
        return Ok(());
    }
    let slot: u16 = pick_backend(c, &svc, f.src);
    let be: Backend = match t.backends.get(&BackendKey { svc_id: svc.svc_id, slot, _pad: 0 }) {
        Some(b) => b,
        None => {
            return Ok(());
        },
    };
    let now: u64 = c.now;
    c.ct.put(
        policy::key_of(f),
        CtEntry { rev_addr: be.addr, rev_port: be.port, flags: CT_F_DNAT, last_seen: now },
    );
    let rflow = Flow4 {
        src: be.addr,
        dst: f.src,
        sport: be.port,
        dport: f.sport,
        proto: f.proto,
    };
    c.ct.put(
        policy::key_of(rflow),
        CtEntry { rev_addr: f.dst, rev_port: f.dport, flags: CT_F_SNAT, last_seen: now },
    );
    policy::emit_flow_v4(c, FLOW_TRANSLATED, FLOW_DIR_INGRESS, 0, 0);
    proof {
        reveal(policy::emitted);
    }
    dnat(c, f, be.addr, be.port)
}

/// The IPv4 NAT stage.
pub fn l4_nat_v4(t: &Tables, c: &mut Tc, masq_src: bool) -> (r: Result<(), ()>)
    ensures
        (final(c)@, r) == natted4(t, old(c)@, masq_src),
{
    reveal(natted4);
    let f: Flow4 = match policy::parse_flow4(&c.data)? {
        Some(f) => f,
        None => {
            return Ok(());
        },
    };
    match c.ct.get(&policy::key_of(f)) {
        Some(e) => {
            let now: u64 = c.now;
            c.ct.put(policy::key_of(f), CtEntry { last_seen: now, ..e });
            if e.flags & CT_F_DNAT != 0 {
                dnat(c, f, e.rev_addr, e.rev_port)
            } else if e.flags & CT_F_SNAT != 0 {
                snat(c, f, e.rev_addr, e.rev_port)
            } else {
                Ok(())
            }
        },
        None => match t.services.get(
            &ServiceKey { vip: f.dst, port: f.dport, proto: f.proto, _pad: 0 },
        ) {
            None => masq_v4(t, c, masq_src, f),
            Some(svc) => balance(t, c, svc, f),
        },
    }
}

/// Outcome of the egress reverse translation.
#[verifier::opaque]
pub open spec fn egress_unnatted(c: TcView) -> (TcView, Result<(), ()>) {
    if c.data.len() < 14 {
        (c, Err(()))
    } else if bytes::be16(c.data, 12) != ETH_P_IP {
        (c, Ok(()))
    } else {
        match policy::ip4_flow(c.data) {
            Err(_) => (c, Err(())),
            Ok(None) => (c, Ok(())),
            Ok(Some(f)) => match c.ct.get(policy::ct_key(f)) {
                Some(e) if e.flags & CT_F_SNAT != 0 => snatted(
                    seen(c, f, e),
                    f,
                    e.rev_addr,
                    e.rev_port,
                ),
                _ => (c, Ok(())),
            },
        }
    }
}

/// Egress reverse-NAT: a service reply from a host-network / node-local
/// backend leaves without crossing an ingress hook, so its source is still
/// the backend address. If its 5-tuple hits a reverse entry the source is
/// rewritten back to the VIP here.
pub fn egress_reverse_snat(c: &mut Tc) -> (r: Result<(), ()>)
    ensures
        (final(c)@, r) == egress_unnatted(old(c)@),
{
    reveal(egress_unnatted);
    let ethertype: u16 = bytes::ld_be16(&c.data, 12)?;
    if ethertype != ETH_P_IP {
        return Ok(());
    }
    match policy::parse_flow4(&c.data)? {
        Some(f) => {
            match c.ct.get(&policy::key_of(f)) {
                Some(e) => {
                    if e.flags & CT_F_SNAT != 0 {
                        let now: u64 = c.now;
                        c.ct.put(policy::key_of(f), CtEntry { last_seen: now, ..e });
                        snat(c, f, e.rev_addr, e.rev_port)
                    } else {
                        Ok(())
                    }
                },
                None => Ok(()),
            }
        },
        None => Ok(()),
    }
}

// -------------------------------- IPv6 --------------------------------------

/// The checksum patches of a 16-byte address change (four pseudo-header
/// words) plus a port change.
pub open spec fn v6_fixes(
    off: int,
    proto: u8,
    old_ip: [u8; 16],
    new_ip: [u8; 16],
    old_port: u16,
    new_port: u16,
) -> Seq<CsumFix> {
    let word = |i: int|
        CsumFix {
            l4: true,
            off: off as u32,
            from: bytes::le32(old_ip@, i) as u64,
            to: bytes::le32(new_ip@, i) as u64,
            flags: (BPF_F_PSEUDO_HDR + 4) as u64,
        };
    seq![
        word(0),
        word(4),
        word(8),
        word(12),
        CsumFix {
            l4: true,
            off: off as u32,
            from: old_port as u64,
            to: new_port as u64,
            flags: (mangled(proto) + 2) as u64,
        },
    ]
}

/// Outcome of rewriting an IPv6 address and its port.
pub open spec fn translated6(
    c: TcView,
    addr_off: int,
    port_off: int,
    idx: u32,
    proto: u8,
    old_ip: [u8; 16],
    new_ip: [u8; 16],
    old_port: u16,
    new_port: u16,
) -> (TcView, Result<(), ()>) {
    let off = IP6_L4_OFF + csum_in_l4(proto);
    if c.data.len() < off + 2 {
        (c, Err(()))
    } else {
        (
            skb::stat(
                TcView {
                    fixes: c.fixes + v6_fixes(off, proto, old_ip, new_ip, old_port, new_port),
                    data: bytes::splice(
                        bytes::splice(c.data, addr_off, new_ip@),
                        port_off,
                        bytes::le16_bytes(new_port),
                    ),
                    ..c
                },
                idx,
            ),
            Ok(()),
        )
    }
}

/// Rewriting the destination of flow `f` to `(ip, port)`.
#[verifier::opaque]
pub open spec fn dnatted6(c: TcView, f: Flow6, ip: [u8; 16], port: u16) -> (
    TcView,
    Result<(), ()>,
) {
    translated6(
        c,
        IP6_DST_OFF as int,
        IP6_L4_OFF + 2,
        STAT_L4_DNAT,
        f.proto,
        f.dst,
        ip,
        f.dport,
        port,
    )
}

/// Rewriting the source of flow `f` to `(ip, port)`.
#[verifier::opaque]
pub open spec fn snatted6(c: TcView, f: Flow6, ip: [u8; 16], port: u16) -> (
    TcView,
    Result<(), ()>,
) {
    translated6(
        c,
        IP6_SRC_OFF as int,
        IP6_L4_OFF as int,
        STAT_L4_SNAT,
        f.proto,
        f.src,
        ip,
        f.sport,
        port,
    )
}

/// The memory-order word at `i` of an address.
fn addr_word(a: &[u8; 16], i: usize) -> (r: u64)
    requires
        i + 4 <= 16,
    ensures
        r == bytes::le32(a@, i as int),
{
    (a[i + 3] as u64) * 0x100_0000 + (a[i + 2] as u64) * 0x1_0000 + (a[i + 1] as u64) * 256
        + a[i] as u64
}

/// Patch the L4 checksum for a 16-byte address change plus a port change —
/// the delta of whichever fields changed, regardless of src vs dst.
pub fn v6_csum_fixup(
    c: &mut Tc,
    proto: u8,
    old_ip: &[u8; 16],
    new_ip: &[u8; 16],
    old_port: u16,
    new_port: u16,
) -> (r: Result<(), ()>)
    ensures
        ({
            let off = IP6_L4_OFF + csum_in_l4(proto);
            if old(c)@.data.len() < off + 2 {
                r is Err && final(c)@ == old(c)@
            } else {
                r is Ok && final(c)@ == (TcView {
                    fixes: old(c)@.fixes + v6_fixes(
                        off,
                        proto,
                        *old_ip,
                        *new_ip,
                        old_port,
                        new_port,
                    ),
                    ..old(c)@
                })
            }
        }),
{
    let off: u32 = IP6_L4_OFF as u32 + (if proto == IPPROTO_TCP {
        16
    } else {
        6
    });
    let m: u64 = mangled_flag(proto);
    let flags: u64 = BPF_F_PSEUDO_HDR + 4;
    c.csum_replace(
        CsumFix { l4: true, off, from: addr_word(old_ip, 0), to: addr_word(new_ip, 0), flags },
    )?;
    c.csum_replace(
        CsumFix { l4: true, off, from: addr_word(old_ip, 4), to: addr_word(new_ip, 4), flags },
    )?;
    c.csum_replace(
        CsumFix { l4: true, off, from: addr_word(old_ip, 8), to: addr_word(new_ip, 8), flags },
    )?;
    c.csum_replace(
        CsumFix { l4: true, off, from: addr_word(old_ip, 12), to: addr_word(new_ip, 12), flags },
    )?;
    c.csum_replace(
        CsumFix { l4: true, off, from: old_port as u64, to: new_port as u64, flags: m + 2 },
    )?;
    assert(c@.fixes =~= old(c)@.fixes + v6_fixes(
        off as int,
        proto,
        *old_ip,
        *new_ip,
        old_port,
        new_port,
    ));
    Ok(())
}

/// Rewrite the IPv6 destination address+port and fix the L4 checksum (IPv6
/// has no header checksum; the pseudo-header covers the address).
pub(crate) fn dnat6(c: &mut Tc, f: &Flow6, new_ip: &[u8; 16], new_port: u16) -> (r: Result<(), ()>)
    requires
        old(c)@.data.len() >= 58,
    ensures
        (final(c)@, r) == dnatted6(old(c)@, *f, *new_ip, new_port),
{
    reveal(dnatted6);
    v6_csum_fixup(c, f.proto, &f.dst, new_ip, f.dport, new_port)?;
    let port = bytes::to_le16(new_port);
    c.store(IP6_DST_OFF, new_ip.as_slice());
    c.store(IP6_L4_OFF + 2, port.as_slice());
    c.stat_inc(STAT_L4_DNAT);
    Ok(())
}

/// Rewrite the IPv6 source address+port and fix the L4 checksum.
pub(crate) fn snat6(c: &mut Tc, f: &Flow6, new_ip: &[u8; 16], new_port: u16) -> (r: Result<(), ()>)
    requires
        old(c)@.data.len() >= 58,
    ensures
        (final(c)@, r) == snatted6(old(c)@, *f, *new_ip, new_port),
{
    reveal(snatted6);
    v6_csum_fixup(c, f.proto, &f.src, new_ip, f.sport, new_port)?;
    let port = bytes::to_le16(new_port);
    c.store(IP6_SRC_OFF, new_ip.as_slice());
    c.store(IP6_L4_OFF, port.as_slice());
    c.stat_inc(STAT_L4_SNAT);
    Ok(())
}

/// The flow of the backend's replies to `f`.
pub open spec fn back_flow6(f: Flow6, be: Backend6) -> Flow6 {
    Flow6 { src: be.addr, dst: f.src, sport: be.port, dport: f.sport, proto: f.proto }
}

/// `c` with the two conntrack entries of flow `f` sent to `be`.
pub open spec fn connected6(c: TcView, f: Flow6, be: Backend6) -> TcView {
    let fwd = CtEntry6 {
        rev_addr: be.addr,
        rev_port: be.port,
        flags: CT_F_DNAT,
        last_seen: c.now,
    };
    let rev = CtEntry6 { rev_addr: f.dst, rev_port: f.dport, flags: CT_F_SNAT, last_seen: c.now };
    TcView {
        ct6: c.ct6.insert(policy::ct_key6(f), fwd).insert(policy::ct_key6(back_flow6(f, be)), rev),
        ..c
    }
}

/// Service key of a flow's destination.
pub open spec fn service_key6(f: Flow6) -> ServiceKey6 {
    ServiceKey6 { vip: f.dst, port: f.dport, proto: f.proto, _pad: 0 }
}

/// `c` with the entry `e` of flow `f` seen now.
pub open spec fn seen6(c: TcView, f: Flow6, e: CtEntry6) -> TcView {
    TcView { ct6: c.ct6.insert(policy::ct_key6(f), CtEntry6 { last_seen: c.now, ..e }), ..c }
}

/// Outcome of the IPv6 NAT stage.
#[verifier::opaque]
pub open spec fn natted6(t: &Tables, c: TcView) -> (TcView, Result<(), ()>) {
    match policy::ip6_flow(c.data) {
        Err(_) => (c, Err(())),
        Ok(None) => (c, Ok(())),
        Ok(Some(f)) => match c.ct6.get(policy::ct_key6(f)) {
            Some(e) => {
                let c1 = seen6(c, f, e);
                if e.flags & CT_F_DNAT != 0 {
                    dnatted6(c1, f, e.rev_addr, e.rev_port)
                } else if e.flags & CT_F_SNAT != 0 {
                    snatted6(c1, f, e.rev_addr, e.rev_port)
                } else {
                    (c1, Ok(()))
                }
            },
            None => match t.services6@.get(service_key6(f)) {
                Some(svc) if svc.backend_count != 0 => match t.backends6@.get(
                    backend_key(svc, (c.rand % svc.backend_count as u32) as u16),
                ) {
                    Some(be) => dnatted6(connected6(c, f, be), f, be.addr, be.port),
                    None => (c, Ok(())),
                },
                _ => (c, Ok(())),
            },
        },
    }
}

/// The IPv6 NAT stage.
pub fn l4_nat_v6(t: &Tables, c: &mut Tc) -> (r: Result<(), ()>)
    ensures
        (final(c)@, r) == natted6(t, old(c)@),
{
    reveal(natted6);
    let f: Flow6 = match policy::parse_flow6(&c.data)? {
        Some(f) => f,
        None => {
            return Ok(());
        },
    };
    match c.ct6.get(&policy::key_of6(f)) {
        Some(e) => {
            let now: u64 = c.now;
            c.ct6.put(policy::key_of6(f), CtEntry6 { last_seen: now, ..e });
            return if e.flags & CT_F_DNAT != 0 {
                dnat6(c, &f, &e.rev_addr, e.rev_port)
            } else if e.flags & CT_F_SNAT != 0 {
                snat6(c, &f, &e.rev_addr, e.rev_port)
            } else {
                Ok(())
            };
        },
        None => {},
    }
    let svc: ServiceInfo = match t.services6.get(
        &ServiceKey6 { vip: f.dst, port: f.dport, proto: f.proto, _pad: 0 },
    ) {
        Some(s) => s,
        None => {
            return Ok(());
        },
    };
    if svc.backend_count == 0 {
        return Ok(());
    }
    let slot: u16 = random_slot(c.rand, &svc);
    let be: Backend6 = match t.backends6.get(&BackendKey { svc_id: svc.svc_id, slot, _pad: 0 }) {
        Some(b) => b,
        None => {
            return Ok(());
        },
    };
    let now: u64 = c.now;
    c.ct6.put(
        policy::key_of6(f),
        CtEntry6 { rev_addr: be.addr, rev_port: be.port, flags: CT_F_DNAT, last_seen: now },
    );
    let rflow = Flow6 {
        src: be.addr,
        dst: f.src,
        sport: be.port,
        dport: f.sport,
        proto: f.proto,
    };
    c.ct6.put(
        policy::key_of6(rflow),
        CtEntry6 { rev_addr: f.dst, rev_port: f.dport, flags: CT_F_SNAT, last_seen: now },
    );
    dnat6(c, &f, &be.addr, be.port)
}

/// Outcome of the NAT stage, by EtherType.
pub open spec fn natted(t: &Tables, c: TcView, masq_src: bool) -> (TcView, Result<(), ()>) {
    if c.data.len() < 14 {
        (c, Err(()))
    } else if bytes::be16(c.data, 12) == ETH_P_IP {
        natted4(t, c, masq_src)
    } else if bytes::be16(c.data, 12) == ETH_P_IPV6 {
        natted6(t, c)
    } else {
        (c, Ok(()))
    }
}

/// L4 NAT is a best-effort pre-routing stage; it rewrites the packet in place
/// so routing then targets the real endpoint. (Masquerade is IPv4-only.)
pub fn l4_nat(t: &Tables, c: &mut Tc, masq_src: bool) -> (r: Result<(), ()>)
    ensures
        (final(c)@, r) == natted(t, old(c)@, masq_src),
{
    let ethertype: u16 = bytes::ld_be16(&c.data, 12)?;
    if ethertype == ETH_P_IP {
        l4_nat_v4(t, c, masq_src)
    } else if ethertype == ETH_P_IPV6 {
        l4_nat_v6(t, c)
    } else {
        Ok(())
    }
}

// -------------------------------- laws --------------------------------------

/// Destination NAT changes the flow's destination and nothing else of it; it
/// succeeds whenever the packet holds its L4 checksum.
pub proof fn dnat_rewrites_destination(c: TcView, f: Flow4, ip: u32, port: u16)
    requires
        policy::ip4_flow(c.data) == Ok::<Option<Flow4>, ()>(Some(f)),
        c.data.len() >= L4_OFF + csum_in_l4(f.proto) + 2,
    ensures
        ({
            let (c1, r) = dnatted(c, f, ip, port);
            &&& r is Ok
            &&& policy::ip4_flow(c1.data) == Ok::<Option<Flow4>, ()>(
                Some(Flow4 { dst: ip, dport: port, ..f }),
            )
            &&& c1.data.len() == c.data.len()
            &&& c1.ct == c.ct
        }),
{
    reveal(dnatted);
    let d = bytes::splice(
        bytes::splice(c.data, 30, bytes::le32_bytes(ip)),
        36,
        bytes::le16_bytes(port),
    );
    bytes::be32_round_trip(ip);
    bytes::be16_round_trip(port);
    assert(d[30] == bytes::le32_bytes(ip)[0] && d[31] == bytes::le32_bytes(ip)[1] && d[32]
        == bytes::le32_bytes(ip)[2] && d[33] == bytes::le32_bytes(ip)[3]);
    assert(d[36] == bytes::le16_bytes(port)[0] && d[37] == bytes::le16_bytes(port)[1]);
}

/// Source NAT changes the flow's source and nothing else of it.
pub proof fn snat_rewrites_source(c: TcView, f: Flow4, ip: u32, port: u16)
    requires
        policy::ip4_flow(c.data) == Ok::<Option<Flow4>, ()>(Some(f)),
        c.data.len() >= L4_OFF + csum_in_l4(f.proto) + 2,
    ensures
        ({
            let (c1, r) = snatted(c, f, ip, port);
            &&& r is Ok
            &&& policy::ip4_flow(c1.data) == Ok::<Option<Flow4>, ()>(
                Some(Flow4 { src: ip, sport: port, ..f }),
            )
            &&& c1.data.len() == c.data.len()
            &&& c1.ct == c.ct
        }),
{
    reveal(snatted);
    let d = bytes::splice(
        bytes::splice(c.data, 26, bytes::le32_bytes(ip)),
        34,
        bytes::le16_bytes(port),
    );
    bytes::be32_round_trip(ip);
    bytes::be16_round_trip(port);
    assert(d[26] == bytes::le32_bytes(ip)[0] && d[27] == bytes::le32_bytes(ip)[1] && d[28]
        == bytes::le32_bytes(ip)[2] && d[29] == bytes::le32_bytes(ip)[3]);
    assert(d[34] == bytes::le16_bytes(port)[0] && d[35] == bytes::le16_bytes(port)[1]);
}

/// A picked slot is one of the service's.
pub proof fn picked_slot_in_range(c: TcView, svc: ServiceInfo, client: u32)
    requires
        svc.backend_count > 0,
    ensures
        picked(c, svc, client) < svc.backend_count,
{
}

/// ClientIP affinity: after a client's flow was placed, its next flow to the
/// service within the timeout gets the same slot, whatever the random number.
pub proof fn affinity_sticks(c: TcView, svc: ServiceInfo, client: u32, later: TcView)
    requires
        svc.backend_count > 0,
        svc.flags & SVC_F_AFFINITY != 0,
        later.affinity.get(affinity_key(svc, client)) == pick_recorded(
            c,
            svc,
            client,
        ).affinity.get(affinity_key(svc, client)),
        (later.now - c.now) % 0x1_0000_0000_0000_0000 < AFFINITY_TIMEOUT_NS,
    ensures
        picked(later, svc, client) == picked(c, svc, client),
{
    picked_slot_in_range(c, svc, client);
}

/// A service flow is undone on the way back: once a client's packet was sent
/// to a backend, the backend's reply leaves with the VIP and service port as
/// its source.
pub proof fn reply_leaves_as_vip(
    t: &Tables,
    c: TcView,
    f: Flow4,
    svc: ServiceInfo,
    be: Backend,
    reply: Seq<u8>,
    m1: bool,
    m2: bool,
)
    requires
        policy::ip4_flow(c.data) == Ok::<Option<Flow4>, ()>(Some(f)),
        !c.ct.contains_key(policy::ct_key(f)),
        t.services@.get(service_key(f)) == Some(svc),
        svc.backend_count > 0,
        t.backends@.get(backend_key(svc, picked(c, svc, f.src))) == Some(be),
        policy::ip4_flow(reply) == Ok::<Option<Flow4>, ()>(Some(back_flow(f, be))),
        reply.len() >= L4_OFF + csum_in_l4(f.proto) + 2,
    ensures
        ({
            let (c2, r) = natted4(t, skb::with_data(natted4(t, c, m1).0, reply), m2);
            &&& r is Ok
            &&& policy::ip4_flow(c2.data) == Ok::<Option<Flow4>, ()>(
                Some(Flow4 { src: f.dst, sport: f.dport, ..back_flow(f, be) }),
            )
        }),
{
    reveal(natted4);
    reveal(balanced);
    let c1 = natted4(t, c, m1).0;
    assert(c1.ct == connected(pick_recorded(c, svc, f.src), f, be).ct) by {
        reveal(dnatted);
        reveal(policy::emitted);
    }
    let g = back_flow(f, be);
    let back = skb::with_data(c1, reply);
    let e = back.ct[policy::ct_key(g)];
    assert(e.flags == CT_F_SNAT && e.rev_addr == f.dst && e.rev_port == f.dport);
    assert(CT_F_SNAT & CT_F_DNAT == 0 && CT_F_SNAT & CT_F_SNAT != 0) by {
        assert(2u16 & 1u16 == 0 && 2u16 & 2u16 != 0) by (bit_vector);
    }
    snat_rewrites_source(seen(back, g, e), g, f.dst, f.dport);
}

/// A connection keeps its backend: a further packet of the flow goes where
/// the first went, even after the service's backends changed.
pub proof fn established_flow_keeps_backend(
    t: &Tables,
    t2: &Tables,
    c: TcView,
    f: Flow4,
    svc: ServiceInfo,
    be: Backend,
    next: Seq<u8>,
    m1: bool,
    m2: bool,
)
    requires
        policy::ip4_flow(c.data) == Ok::<Option<Flow4>, ()>(Some(f)),
        !c.ct.contains_key(policy::ct_key(f)),
        t.services@.get(service_key(f)) == Some(svc),
        svc.backend_count > 0,
        t.backends@.get(backend_key(svc, picked(c, svc, f.src))) == Some(be),
        policy::ip4_flow(next) == Ok::<Option<Flow4>, ()>(Some(f)),
        next.len() >= L4_OFF + csum_in_l4(f.proto) + 2,
    ensures
        ({
            let (c2, r) = natted4(t2, skb::with_data(natted4(t, c, m1).0, next), m2);
            &&& r is Ok
            &&& policy::ip4_flow(c2.data) == Ok::<Option<Flow4>, ()>(
                Some(Flow4 { dst: be.addr, dport: be.port, ..f }),
            )
        }),
{
    reveal(natted4);
    reveal(balanced);
    let c1 = natted4(t, c, m1).0;
    assert(c1.ct == connected(pick_recorded(c, svc, f.src), f, be).ct) by {
        reveal(dnatted);
        reveal(policy::emitted);
    }
    let again = skb::with_data(c1, next);
    let e = again.ct[policy::ct_key(f)];
    assert(CT_F_DNAT & CT_F_DNAT != 0 && CT_F_SNAT & CT_F_DNAT == 0 && CT_F_SNAT & CT_F_SNAT != 0)
        by {
        assert(1u16 & 1u16 != 0 && 2u16 & 1u16 == 0 && 2u16 & 2u16 != 0) by (bit_vector);
    }
    if back_flow(f, be) == f {
        // The flow is its own reverse: either rewrite leaves it as it is.
        snat_rewrites_source(seen(again, f, e), f, f.dst, f.dport);
    } else {
        assert(policy::ct_key(f) != policy::ct_key(back_flow(f, be)));
        dnat_rewrites_destination(seen(again, f, e), f, be.addr, be.port);
    }
}

/// Masquerade is undone on the way back: the reply to the node's address is
/// delivered to the pod.
pub proof fn masquerade_reply_reaches_pod(
    t: &Tables,
    c: TcView,
    f: Flow4,
    reply: Seq<u8>,
    m: bool,
)
    requires
        policy::ip4_flow(c.data) == Ok::<Option<Flow4>, ()>(Some(f)),
        !c.ct.contains_key(policy::ct_key(f)),
        !t.services@.contains_key(service_key(f)),
        t.masq_node != 0,
        lpm::matched(t.non_masq@, bytes::oct4(c.data, 30)@) is None,
        policy::ip4_flow(reply) == Ok::<Option<Flow4>, ()>(
            Some(
                Flow4 {
                    src: f.dst,
                    dst: t.masq_node,
                    sport: f.dport,
                    dport: f.sport,
                    proto: f.proto,
                },
            ),
        ),
        reply.len() >= L4_OFF + csum_in_l4(f.proto) + 2,
    ensures
        ({
            let (c2, r) = natted4(t, skb::with_data(natted4(t, c, true).0, reply), m);
            &&& r is Ok
            &&& policy::ip4_flow(c2.data) == Ok::<Option<Flow4>, ()>(
                Some(policy::reverse(f)),
            )
        }),
{
    reveal(natted4);
    reveal(masqueraded);
    let c1 = natted4(t, c, true).0;
    let g = Flow4 { src: f.dst, dst: t.masq_node, sport: f.dport, dport: f.sport, proto: f.proto };
    assert(c1.ct.get(policy::ct_key(g)) == Some(
        CtEntry { rev_addr: f.src, rev_port: f.sport, flags: CT_F_DNAT, last_seen: c.now },
    )) by {
        reveal(snatted);
        reveal(policy::emitted);
    }
    assert(CT_F_DNAT & CT_F_DNAT != 0) by {
        assert(1u16 & 1u16 != 0) by (bit_vector);
    }
    let back = skb::with_data(c1, reply);
    dnat_rewrites_destination(
        seen(back, g, back.ct[policy::ct_key(g)]),
        g,
        f.src,
        f.sport,
    );
}

/// A masqueraded flow keeps leaving from the node's address: a further packet of
/// it is translated as the first was, even after what is exempt changed.
pub proof fn masqueraded_flow_keeps_node(
    t: &Tables,
    t2: &Tables,
    c: TcView,
    f: Flow4,
    next: Seq<u8>,
    m: bool,
)
    requires
        policy::ip4_flow(c.data) == Ok::<Option<Flow4>, ()>(Some(f)),
        !c.ct.contains_key(policy::ct_key(f)),
        !t.services@.contains_key(service_key(f)),
        t.masq_node != 0,
        lpm::matched(t.non_masq@, bytes::oct4(c.data, 30)@) is None,
        policy::ip4_flow(next) == Ok::<Option<Flow4>, ()>(Some(f)),
        next.len() >= L4_OFF + csum_in_l4(f.proto) + 2,
    ensures
        ({
            let (c2, r) = natted4(t2, skb::with_data(natted4(t, c, true).0, next), m);
            &&& r is Ok
            &&& policy::ip4_flow(c2.data) == Ok::<Option<Flow4>, ()>(
                Some(Flow4 { src: t.masq_node, ..f }),
            )
        }),
{
    reveal(natted4);
    reveal(masqueraded);
    let c1 = natted4(t, c, true).0;
    let node = t.masq_node;
    let g = Flow4 { src: f.dst, dst: node, sport: f.dport, dport: f.sport, proto: f.proto };
    let out = CtEntry { rev_addr: node, rev_port: f.sport, flags: CT_F_SNAT, last_seen: c.now };
    let back = CtEntry { rev_addr: f.src, rev_port: f.sport, flags: CT_F_DNAT, last_seen: c.now };
    assert(c1.ct == c.ct.insert(policy::ct_key(f), out).insert(policy::ct_key(g), back)) by {
        reveal(snatted);
        reveal(policy::emitted);
    }
    let again = skb::with_data(c1, next);
    let e = again.ct[policy::ct_key(f)];
    assert(CT_F_DNAT & CT_F_DNAT != 0 && CT_F_SNAT & CT_F_DNAT == 0 && CT_F_SNAT & CT_F_SNAT != 0)
        by {
        assert(1u16 & 1u16 != 0 && 2u16 & 1u16 == 0 && 2u16 & 2u16 != 0) by (bit_vector);
    }
    if g == f {
        // The flow is its own reverse: either rewrite leaves it as it is.
        dnat_rewrites_destination(seen(again, f, e), f, f.src, f.sport);
    } else {
        assert(policy::ct_key(f) != policy::ct_key(g));
        snat_rewrites_source(seen(again, f, e), f, node, f.sport);
    }
}

proof fn source_rewritten_to_itself(d: Seq<u8>)
    requires
        d.len() >= 36,
    ensures
        bytes::splice(
            bytes::splice(d, 26, bytes::le32_bytes(bytes::le32(d, 26))),
            34,
            bytes::le16_bytes(bytes::le16(d, 34)),
        ) == d,
{
    bytes::le_read_back(d[26], d[27], d[28], d[29]);
    bytes::le_read_back(d[34], d[35], 0, 0);
    let a = bytes::le32_bytes(bytes::le32(d, 26));
    let p = bytes::le16_bytes(bytes::le16(d, 34));
    assert(a =~= d.subrange(26, 30));
    assert(p =~= d.subrange(34, 36));
    assert(d.take(26) + d.subrange(26, 30) + d.skip(30) =~= d);
    assert(d.take(34) + d.subrange(34, 36) + d.skip(36) =~= d);
}

/// A reply is translated once: what the ingress hook turned back to the VIP
/// the egress hook does not change. It leaves it alone altogether, unless the
/// backend is the VIP itself. (A source translation recorded beforehand for
/// packets from the VIP to the client is excepted.)
pub proof fn reply_is_translated_once(
    t: &Tables,
    c: TcView,
    f: Flow4,
    svc: ServiceInfo,
    be: Backend,
    reply: Seq<u8>,
    m1: bool,
    m2: bool,
)
    requires
        policy::ip4_flow(c.data) == Ok::<Option<Flow4>, ()>(Some(f)),
        !c.ct.contains_key(policy::ct_key(f)),
        c.ct.get(policy::ct_key(policy::reverse(f))) matches Some(e) ==> e.flags & CT_F_SNAT == 0,
        t.services@.get(service_key(f)) == Some(svc),
        svc.backend_count > 0,
        t.backends@.get(backend_key(svc, picked(c, svc, f.src))) == Some(be),
        policy::ip4_flow(reply) == Ok::<Option<Flow4>, ()>(Some(back_flow(f, be))),
        reply.len() >= L4_OFF + csum_in_l4(f.proto) + 2,
    ensures
        ({
            let c2 = natted4(t, skb::with_data(natted4(t, c, m1).0, reply), m2).0;
            &&& egress_unnatted(c2).0.data == c2.data
            &&& back_flow(f, be) != policy::reverse(f) ==> egress_unnatted(c2) == (
                c2,
                Ok::<(), ()>(()),
            )
        }),
{
    reveal(natted4);
    reveal(balanced);
    reveal(egress_unnatted);
    let c1 = natted4(t, c, m1).0;
    assert(c1.ct == connected(pick_recorded(c, svc, f.src), f, be).ct) by {
        reveal(dnatted);
        reveal(policy::emitted);
    }
    let g = back_flow(f, be);
    let back = skb::with_data(c1, reply);
    let e = back.ct[policy::ct_key(g)];
    assert(e.flags == CT_F_SNAT && e.rev_addr == f.dst && e.rev_port == f.dport);
    assert(CT_F_SNAT & CT_F_DNAT == 0 && CT_F_SNAT & CT_F_SNAT != 0 && CT_F_DNAT & CT_F_SNAT
        == 0) by {
        assert(2u16 & 1u16 == 0 && 2u16 & 2u16 != 0 && 1u16 & 2u16 == 0) by (bit_vector);
    }
    snat_rewrites_source(seen(back, g, e), g, f.dst, f.dport);
    let c2 = natted4(t, back, m2).0;
    let h = policy::reverse(f);
    assert(policy::ip4_flow(c2.data) == Ok::<Option<Flow4>, ()>(Some(h)));
    if g == h {
        reveal(snatted);
        source_rewritten_to_itself(c2.data);
    } else {
        assert(policy::ct_key(h) != policy::ct_key(g));
        assert(policy::ct_key(h) == policy::ct_key(f) ==> h == f);
    }
}

/// A node-local backend's reply leaves with the VIP and service port as its
/// source too, though it crosses no ingress hook: the egress hook rewrites it.
pub proof fn local_reply_leaves_as_vip(
    t: &Tables,
    c: TcView,
    f: Flow4,
    svc: ServiceInfo,
    be: Backend,
    reply: Seq<u8>,
    m: bool,
)
    requires
        policy::ip4_flow(c.data) == Ok::<Option<Flow4>, ()>(Some(f)),
        !c.ct.contains_key(policy::ct_key(f)),
        t.services@.get(service_key(f)) == Some(svc),
        svc.backend_count > 0,
        t.backends@.get(backend_key(svc, picked(c, svc, f.src))) == Some(be),
        policy::ip4_flow(reply) == Ok::<Option<Flow4>, ()>(Some(back_flow(f, be))),
        bytes::be16(reply, 12) == ETH_P_IP,
        reply.len() >= L4_OFF + csum_in_l4(f.proto) + 2,
    ensures
        ({
            let (c2, r) = egress_unnatted(skb::with_data(natted4(t, c, m).0, reply));
            &&& r is Ok
            &&& policy::ip4_flow(c2.data) == Ok::<Option<Flow4>, ()>(
                Some(Flow4 { src: f.dst, sport: f.dport, ..back_flow(f, be) }),
            )
        }),
{
    reveal(natted4);
    reveal(balanced);
    reveal(egress_unnatted);
    let c1 = natted4(t, c, m).0;
    assert(c1.ct == connected(pick_recorded(c, svc, f.src), f, be).ct) by {
        reveal(dnatted);
        reveal(policy::emitted);
    }
    let g = back_flow(f, be);
    let back = skb::with_data(c1, reply);
    let e = back.ct[policy::ct_key(g)];
    assert(e.flags == CT_F_SNAT);
    assert(CT_F_SNAT & CT_F_SNAT != 0) by {
        assert(2u16 & 2u16 != 0) by (bit_vector);
    }
    snat_rewrites_source(seen(back, g, e), g, f.dst, f.dport);
}

/// Destination NAT of an IPv6 flow changes its destination and nothing else of
/// it.
pub proof fn dnat6_rewrites_destination(c: TcView, f: Flow6, ip: [u8; 16], port: u16)
    requires
        policy::ip6_flow(c.data) == Ok::<Option<Flow6>, ()>(Some(f)),
        c.data.len() >= IP6_L4_OFF + csum_in_l4(f.proto) + 2,
    ensures
        ({
            let (c1, r) = dnatted6(c, f, ip, port);
            &&& r is Ok
            &&& policy::ip6_flow(c1.data) == Ok::<Option<Flow6>, ()>(
                Some(Flow6 { dst: ip, dport: port, ..f }),
            )
            &&& c1.data.len() == c.data.len()
            &&& c1.ct6 == c.ct6
        }),
{
    reveal(dnatted6);
    let d = bytes::splice(bytes::splice(c.data, 38, ip@), 56, bytes::le16_bytes(port));
    bytes::be16_round_trip(port);
    assert(d[56] == bytes::le16_bytes(port)[0] && d[57] == bytes::le16_bytes(port)[1]);
    assert(bytes::oct16(d, 38) =~= ip);
    assert(bytes::oct16(d, 22) =~= bytes::oct16(c.data, 22));
}

/// Source NAT of an IPv6 flow changes its source and nothing else of it.
pub proof fn snat6_rewrites_source(c: TcView, f: Flow6, ip: [u8; 16], port: u16)
    requires
        policy::ip6_flow(c.data) == Ok::<Option<Flow6>, ()>(Some(f)),
        c.data.len() >= IP6_L4_OFF + csum_in_l4(f.proto) + 2,
    ensures
        ({
            let (c1, r) = snatted6(c, f, ip, port);
            &&& r is Ok
            &&& policy::ip6_flow(c1.data) == Ok::<Option<Flow6>, ()>(
                Some(Flow6 { src: ip, sport: port, ..f }),
            )
            &&& c1.data.len() == c.data.len()
            &&& c1.ct6 == c.ct6
        }),
{
    reveal(snatted6);
    let d = bytes::splice(bytes::splice(c.data, 22, ip@), 54, bytes::le16_bytes(port));
    bytes::be16_round_trip(port);
    assert(d[54] == bytes::le16_bytes(port)[0] && d[55] == bytes::le16_bytes(port)[1]);
    assert(bytes::oct16(d, 22) =~= ip);
    assert(bytes::oct16(d, 38) =~= bytes::oct16(c.data, 38));
}

/// An IPv6 service flow is undone on the way back: the backend's reply leaves
/// with the VIP and service port as its source.
pub proof fn reply6_leaves_as_vip(
    t: &Tables,
    c: TcView,
    f: Flow6,
    svc: ServiceInfo,
    be: Backend6,
    reply: Seq<u8>,
)
    requires
        policy::ip6_flow(c.data) == Ok::<Option<Flow6>, ()>(Some(f)),
        !c.ct6.contains_key(policy::ct_key6(f)),
        t.services6@.get(service_key6(f)) == Some(svc),
        svc.backend_count > 0,
        t.backends6@.get(backend_key(svc, (c.rand % svc.backend_count as u32) as u16)) == Some(be),
        policy::ip6_flow(reply) == Ok::<Option<Flow6>, ()>(Some(back_flow6(f, be))),
        reply.len() >= IP6_L4_OFF + csum_in_l4(f.proto) + 2,
    ensures
        ({
            let (c2, r) = natted6(t, skb::with_data(natted6(t, c).0, reply));
            &&& r is Ok
            &&& policy::ip6_flow(c2.data) == Ok::<Option<Flow6>, ()>(
                Some(Flow6 { src: f.dst, sport: f.dport, ..back_flow6(f, be) }),
            )
        }),
{
    reveal(natted6);
    let c1 = natted6(t, c).0;
    assert(c1.ct6 == connected6(c, f, be).ct6) by {
        reveal(dnatted6);
    }
    let g = back_flow6(f, be);
    let back = skb::with_data(c1, reply);
    let e = back.ct6[policy::ct_key6(g)];
    assert(e.flags == CT_F_SNAT && e.rev_addr == f.dst && e.rev_port == f.dport);
    assert(CT_F_SNAT & CT_F_DNAT == 0 && CT_F_SNAT & CT_F_SNAT != 0) by {
        assert(2u16 & 1u16 == 0 && 2u16 & 2u16 != 0) by (bit_vector);
    }
    snat6_rewrites_source(seen6(back, g, e), g, f.dst, f.dport);
}

/// An IPv6 connection keeps its backend, even after the service's backends
/// changed.
pub proof fn established_flow6_keeps_backend(
    t: &Tables,
    t2: &Tables,
    c: TcView,
    f: Flow6,
    svc: ServiceInfo,
    be: Backend6,
    next: Seq<u8>,
)
    requires
        policy::ip6_flow(c.data) == Ok::<Option<Flow6>, ()>(Some(f)),
        !c.ct6.contains_key(policy::ct_key6(f)),
        t.services6@.get(service_key6(f)) == Some(svc),
        svc.backend_count > 0,
        t.backends6@.get(backend_key(svc, (c.rand % svc.backend_count as u32) as u16)) == Some(be),
        policy::ip6_flow(next) == Ok::<Option<Flow6>, ()>(Some(f)),
        next.len() >= IP6_L4_OFF + csum_in_l4(f.proto) + 2,
    ensures
        ({
            let (c2, r) = natted6(t2, skb::with_data(natted6(t, c).0, next));
            &&& r is Ok
            &&& policy::ip6_flow(c2.data) == Ok::<Option<Flow6>, ()>(
                Some(Flow6 { dst: be.addr, dport: be.port, ..f }),
            )
        }),
{
    reveal(natted6);
    let c1 = natted6(t, c).0;
    assert(c1.ct6 == connected6(c, f, be).ct6) by {
        reveal(dnatted6);
    }
    let again = skb::with_data(c1, next);
    let e = again.ct6[policy::ct_key6(f)];
    assert(CT_F_DNAT & CT_F_DNAT != 0 && CT_F_SNAT & CT_F_DNAT == 0 && CT_F_SNAT & CT_F_SNAT != 0)
        by {
        assert(1u16 & 1u16 != 0 && 2u16 & 1u16 == 0 && 2u16 & 2u16 != 0) by (bit_vector);
    }
    if back_flow6(f, be) == f {
        // The flow is its own reverse: either rewrite leaves it as it is.
        snat6_rewrites_source(seen6(again, f, e), f, f.dst, f.dport);
    } else {
        assert(policy::ct_key6(f) != policy::ct_key6(back_flow6(f, be)));
        dnat6_rewrites_destination(seen6(again, f, e), f, be.addr, be.port);
    }
}

} // verus!
