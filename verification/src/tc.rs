//! The TC programs: the ingress pipeline of a managed port and the egress
//! stage of its peers.
//!
//! The ingress port's mode selects the path: an L2 port learns and bridges; a
//! routed port runs the L7 steer, flow tracking and NAT, then routes.

use vstd::prelude::*;
use crate::bytes;
use crate::fib;
use crate::l2;
use crate::l3;
use crate::l4;
use crate::policy;
use crate::skb;
use crate::skb::{Tc, TcAct, TcView};
use crate::tables::Tables;
use crate::types::{
    PortConfig, ServiceKey, DPC_L3_ONLY, L7_PROXY_PORT, PCT_POD_INITIATED, PORT_F_ENDPOINT,
    PORT_F_L2, PORT_F_L3, STAT_L7_REDIRECT, XDP_META_MAGIC_DX2, XDP_META_MAGIC_L2,
    XDP_META_MAGIC_REPL,
};
use crate::wire::{ETH_P_IP, IPPROTO_TCP};

verus! {

// --------------------------------- L7 ---------------------------------------

/// State of a listening TCP socket.
pub const TCP_LISTEN: u32 = 10;

/// The 4-tuple of a socket lookup, in memory order.
#[derive(Clone, Copy, Debug, PartialEq, Eq)]
pub struct SockTuple {
    pub saddr: u32,
    pub daddr: u32,
    pub sport: u16,
    pub dport: u16,
}

/// The flow of a packet the L7 stage steers: TCP to an L7-marked service.
pub open spec fn steered(t: &Tables, s: Seq<u8>) -> Option<policy::Flow4> {
    if s.len() < 14 || bytes::be16(s, 12) != ETH_P_IP {
        None
    } else {
        match policy::ip4_flow(s) {
            Ok(Some(f)) if f.proto == IPPROTO_TCP && t.l7_services@.contains_key(
                l4::service_key(f),
            ) => Some(f),
            _ => None,
        }
    }
}

/// The two lookups made for a steered flow: its own connection, then the
/// proxy's wildcard listener on the destination address.
pub open spec fn lookups(f: policy::Flow4) -> (SockTuple, SockTuple) {
    (
        SockTuple { saddr: f.src, daddr: f.dst, sport: f.sport, dport: f.dport },
        SockTuple {
            saddr: 0,
            daddr: f.dst,
            sport: 0,
            dport: bytes::le16(bytes::be16_bytes(L7_PROXY_PORT), 0),
        },
    )
}

fn steered_flow(t: &Tables, d: &Vec<u8>) -> (r: Option<policy::Flow4>)
    ensures
        r == steered(t, d@),
{
    match bytes::ld_be16(d, 12) {
        Ok(et) => {
            if et != ETH_P_IP {
                return None;
            }
        },
        Err(_) => {
            return None;
        },
    }
    match policy::parse_flow4(d) {
        Ok(Some(f)) => {
            if f.proto != IPPROTO_TCP {
                return None;
            }
            let key = ServiceKey { vip: f.dst, port: f.dport, proto: f.proto, _pad: 0 };
            if t.l7_services.has(&key) {
                Some(f)
            } else {
                None
            }
        },
        _ => None,
    }
}

/// The socket lookups the L7 stage needs answered for a packet: the
/// established proxy connection and the proxy's listener. `None` when the
/// packet is not steered.
pub fn l7_lookups(t: &Tables, d: &Vec<u8>) -> (r: Option<(SockTuple, SockTuple)>)
    ensures
        r == (match steered(t, d@) {
            Some(f) => Some(lookups(f)),
            None => None,
        }),
{
    match steered_flow(t, d) {
        Some(f) => {
            let p: u16 = L7_PROXY_PORT;
            let conn = SockTuple { saddr: f.src, daddr: f.dst, sport: f.sport, dport: f.dport };
            let wire: u16 = (p % 256) * 256 + p / 256;
            let lst = SockTuple { saddr: 0, daddr: f.dst, sport: 0, dport: wire };
            Some((conn, lst))
        },
        None => None,
    }
}

/// Outcome of the L7 steer: an established proxy connection is reused, else
/// the listener takes the packet; without either, or when the packet cannot
/// be assigned, it falls through to routing.
#[verifier::opaque]
pub open spec fn l7_steered(t: &Tables, c: TcView) -> (TcView, Option<TcAct>) {
    let connected = match c.sock.conn {
        Some(state) => state != TCP_LISTEN,
        None => false,
    };
    if steered(t, c.data) is Some && (connected || c.sock.listener) && c.sock.assign {
        (skb::stat(c, STAT_L7_REDIRECT), Some(TcAct::Deliver))
    } else {
        (c, None)
    }
}

/// Steer an L7-marked TCP flow to the user-space transparent proxy.
/// `Some(Deliver)` when the packet was assigned to a local socket, else
/// `None` (fall through to routing). For an established proxy connection the
/// packet's own 4-tuple resolves the socket; a fresh SYN finds the proxy's
/// wildcard listener.
pub fn l7_redirect(t: &Tables, c: &mut Tc) -> (r: Option<TcAct>)
    ensures
        (final(c)@, r) == l7_steered(t, old(c)@),
{
    reveal(l7_steered);
    if steered_flow(t, &c.data).is_none() {
        return None;
    }
    match c.sock.conn {
        Some(state) => {
            if state != TCP_LISTEN {
                if c.sock.assign {
                    c.stat_inc(STAT_L7_REDIRECT);
                    return Some(TcAct::Deliver);
                }
                return None;
            }
        },
        None => {},
    }
    if !c.sock.listener {
        return None;
    }
    if c.sock.assign {
        c.stat_inc(STAT_L7_REDIRECT);
        return Some(TcAct::Deliver);
    }
    None
}

// ------------------------------- pipeline -----------------------------------

/// Flow tracking and NAT of a routed port's packet; both are best-effort.
pub open spec fn prepared(t: &Tables, c: TcView, endpoint: bool) -> TcView {
    let c1 = if endpoint {
        policy::track6(policy::track4(c, PCT_POD_INITIATED).0, PCT_POD_INITIATED).0
    } else {
        c
    };
    l4::natted(t, c1, endpoint).0
}

/// Outcome of a routed port's pipeline: L7 steer, tracking and NAT, routing —
/// or routing alone in L3-only mode. A pod's packet carries its endpoint for
/// egress policy.
pub open spec fn routed(t: &Tables, c: TcView, port: PortConfig) -> (TcView, Result<TcAct, ()>) {
    if t.dp_config & DPC_L3_ONLY != 0 {
        l3::forwarded(t, c, port.vrf_id, 0)
    } else {
        let (c1, act) = l7_steered(t, c);
        match act {
            Some(a) => (c1, Ok(a)),
            None => {
                let endpoint = port.flags & PORT_F_ENDPOINT != 0;
                l3::forwarded(
                    t,
                    prepared(t, c1, endpoint),
                    port.vrf_id,
                    if endpoint { c.iif } else { 0 },
                )
            },
        }
    }
}

/// Outcome of the ingress pipeline. What the XDP stage handed over comes
/// first: an attachment circuit to emit on, a bridge domain to switch in, a
/// replication to fan out; then the port's mode decides.
#[verifier::opaque]
pub open spec fn piped(t: &Tables, c: TcView) -> (TcView, Result<TcAct, ()>) {
    let ac = fib::meta_or_zero(t, c.meta, XDP_META_MAGIC_DX2);
    if ac != 0 {
        (c, Ok(TcAct::Redirect(ac)))
    } else if fib::meta_value(t, c.meta, XDP_META_MAGIC_L2) is Some {
        let bd = fib::meta_or_zero(t, c.meta, XDP_META_MAGIC_L2);
        l2::switched(t, c, c.iif, (bd % 0x1_0000) as u16, true)
    } else if fib::meta_value(t, c.meta, XDP_META_MAGIC_REPL) is Some {
        l2::replicated(t, c)
    } else {
        match t.ports@.get(c.iif) {
            None => (c, Ok(TcAct::Pipe)),
            Some(port) => if port.flags & PORT_F_L2 != 0 {
                l2::switched(t, c, c.iif, port.vlan, false)
            } else if port.flags & PORT_F_L3 != 0 {
                routed(t, c, port)
            } else {
                (c, Ok(TcAct::Pipe))
            },
        }
    }
}

fn route_port(t: &Tables, c: &mut Tc, port: &PortConfig) -> (r: Result<TcAct, ()>)
    ensures
        (final(c)@, r) == routed(t, old(c)@, *port),
{
    let iif: u32 = c.iif;
    if t.dpc(DPC_L3_ONLY) {
        return l3::l3_forward(t, c, port.vrf_id, 0);
    }
    match l7_redirect(t, c) {
        Some(act) => {
            return Ok(act);
        },
        None => {},
    }
    let endpoint: bool = port.flags & PORT_F_ENDPOINT != 0;
    if endpoint {
        // Each tracker no-ops on the other family's EtherType.
        let _ = policy::pct_track(c, PCT_POD_INITIATED);
        let _ = policy::pct_track6(c, PCT_POD_INITIATED);
    }
    let _ = l4::l4_nat(t, c, endpoint);
    let from_ep: u32 = if endpoint {
        iif
    } else {
        0
    };
    l3::l3_forward(t, c, port.vrf_id, from_ep)
}

/// The ingress pipeline.
pub fn try_main(t: &Tables, c: &mut Tc) -> (r: Result<TcAct, ()>)
    ensures
        (final(c)@, r) == piped(t, old(c)@),
{
    reveal(piped);
    let iif: u32 = c.iif;
    let dx2_oif: u32 = fib::tc_meta_or_zero(t, &c.meta, XDP_META_MAGIC_DX2);
    if dx2_oif != 0 {
        return Ok(TcAct::Redirect(dx2_oif));
    }
    match fib::tc_meta(t, &c.meta, XDP_META_MAGIC_L2) {
        Some(bd) => {
            assert(bd as u16 == bd % 0x1_0000) by (bit_vector);
            return l2::l2_switch(t, c, iif, bd as u16, true);
        },
        None => {},
    }
    if fib::tc_meta(t, &c.meta, XDP_META_MAGIC_REPL).is_some() {
        return l2::srv6_replicate(t, c);
    }
    let port: PortConfig = match t.ports.get(&iif) {
        Some(p) => p,
        None => {
            return Ok(TcAct::Pipe);
        },
    };
    if port.flags & PORT_F_L2 != 0 {
        l2::l2_switch(t, c, iif, port.vlan, false)
    } else if port.flags & PORT_F_L3 != 0 {
        route_port(t, c, &port)
    } else {
        Ok(TcAct::Pipe)
    }
}

/// A verdict, the host stack when there is none.
pub open spec fn or_pipe(r: Result<TcAct, ()>) -> TcAct {
    match r {
        Ok(a) => a,
        Err(_) => TcAct::Pipe,
    }
}

fn verdict_or_pipe(r: Result<TcAct, ()>) -> (a: TcAct)
    ensures
        a == or_pipe(r),
{
    match r {
        Ok(a) => a,
        Err(_) => TcAct::Pipe,
    }
}

/// The TC ingress program: a packet the pipeline cannot read goes to the host
/// stack.
pub fn cradle_tc(t: &Tables, c: &mut Tc) -> (r: TcAct)
    ensures
        final(c)@ == piped(t, old(c)@).0,
        r == or_pipe(piped(t, old(c)@).1),
{
    let v = try_main(t, c);
    verdict_or_pipe(v)
}

/// The TC egress program: reverse translation of node-local service replies,
/// then ingress policy at delivery — the egress hook of a pod's host-veth sees
/// every packet entering the pod, post-NAT.
pub fn cradle_egress(t: &Tables, c: &mut Tc) -> (r: TcAct)
    ensures
        ({
            let (c1, v) = policy::ingress_policed(t, l4::egress_unnatted(old(c)@).0);
            final(c)@ == c1 && r == or_pipe(v)
        }),
{
    let _ = l4::egress_reverse_snat(c);
    let v = policy::ingress_policy(t, c);
    verdict_or_pipe(v)
}

// -------------------------------- laws --------------------------------------

/// An unmanaged port is left alone: without a port entry, and with nothing that
/// this instance's XDP stage handed over, the packet reaches the host stack
/// unchanged.
pub proof fn unmanaged_port_passes(t: &Tables, c: TcView)
    requires
        fib::meta_or_zero(t, c.meta, XDP_META_MAGIC_DX2) == 0,
        fib::meta_value(t, c.meta, XDP_META_MAGIC_L2) is None,
        fib::meta_value(t, c.meta, XDP_META_MAGIC_REPL) is None,
        !t.ports@.contains_key(c.iif),
    ensures
        piped(t, c) == (c, Ok::<TcAct, ()>(TcAct::Pipe)),
{
    reveal(piped);
}

/// A decapsulated L2 frame is bridged in the domain its SID named, whatever
/// the underlay port's own type.
pub proof fn overlay_frame_is_bridged(t: &Tables, c: TcView, bd: u16)
    requires
        c.meta == Some(
            crate::types::CradleXdpMeta {
                magic: XDP_META_MAGIC_L2 ^ t.meta_cookie,
                vrf_id: bd as u32,
            },
        ),
    ensures
        piped(t, c) == l2::switched(t, c, c.iif, bd, true),
{
    reveal(piped);
    let k = t.meta_cookie;
    assert(0xC7AD_1E02u32 ^ k != 0xC7AD_1E04u32 ^ k) by (bit_vector);
}

/// In L3-only mode NAT, tracking, L7 and egress policy are skipped: a routed
/// port's packet is forwarded as it came.
pub proof fn l3_only_skips_services(t: &Tables, c: TcView, port: PortConfig)
    requires
        t.dp_config & DPC_L3_ONLY != 0,
    ensures
        routed(t, c, port) == l3::forwarded(t, c, port.vrf_id, 0),
{
}

} // verus!
