//! MPLS operations of the XDP stage: everything that changes a frame's
//! length. Pops shrink it — chained local pops resolve in one pass — and
//! multi-label swaps grow it and complete here.

use vstd::prelude::*;
use crate::bytes;
use crate::checksum;
use crate::endpoint;
use crate::endpoint::Step;
use crate::fib;
use crate::frame;
use crate::frame::{Xdp, XdpAct, XdpView};
use crate::headers;
use crate::overlay;
use crate::tables::Tables;
use crate::types::{
    MplsEntry, NextHop, MAX_LABELS, MPLS_E_TTL_UNIFORM, MPLS_OP_POP, MPLS_OP_POP_L3, MPLS_OP_SWAP,
    STAT_DROP, STAT_MPLS_POP, STAT_MPLS_SWAP, XDP_META_MAGIC,
};
use crate::wire::{ETH_P_IP, ETH_P_IPV6, ETH_P_MPLS_UC, ETH_TYPE_OFF, IP6_HOP_OFF, MPLS_LSE_OFF};
use crate::words;

verus! {

/// The EtherType a pop would expose; `None` when the payload is no IP packet.
pub open spec fn exposed(s: Seq<u8>) -> Option<u16> {
    if s.len() < 19 {
        None
    } else {
        overlay::version_ethertype(s[18])
    }
}

/// The frame without its top label stack entry.
pub open spec fn popped(x: XdpView, ethertype: u16) -> XdpView {
    frame::stat(
        frame::with_data(
            x,
            x.data.take(12) + bytes::be16_bytes(ethertype) + x.data.skip(18),
        ),
        STAT_MPLS_POP,
    )
}

/// Outcome of writing a TTL into the exposed IP header (the uniform model):
/// IPv4 with its checksum updated, IPv6 the hop limit; a still-labelled frame
/// is left alone.
pub open spec fn uniform(x: XdpView, ethertype: u16, ttl: u8) -> (XdpView, Result<(), ()>) {
    let s = x.data;
    if ethertype == ETH_P_IP {
        if s.len() < 24 {
            (x, Err(()))
        } else if s[22] == ttl {
            (x, Ok(()))
        } else if s.len() < 26 {
            (x, Err(()))
        } else {
            let old_word = bytes::be16(s, 22);
            let new_word = (ttl * 256 + s[23]) as u16;
            (
                frame::with_data(
                    x,
                    bytes::splice(
                        s.update(22, ttl),
                        24,
                        bytes::be16_bytes(
                            checksum::csum16_updated(bytes::be16(s, 24), old_word, new_word),
                        ),
                    ),
                ),
                Ok(()),
            )
        }
    } else if ethertype == ETH_P_IPV6 {
        if s.len() < 22 {
            (x, Err(()))
        } else {
            (frame::with_data(x, s.update(21, ttl)), Ok(()))
        }
    } else {
        (x, Ok(()))
    }
}

/// Outcome of popping the bottom label for local routing.
#[verifier::opaque]
pub open spec fn decapped_local(t: &Tables, x: XdpView, vrf_id: u32, ttl: u8, uni: bool) -> Step {
    match exposed(x.data) {
        None => endpoint::discard(x),
        Some(et) => {
            let x1 = popped(x, et);
            let (x2, r) = if uni {
                uniform(x1, et, ttl)
            } else {
                (x1, Ok(()))
            };
            if r is Err {
                (x2, Err(()))
            } else {
                endpoint::in_table(t, x2, vrf_id)
            }
        },
    }
}

/// Outcome of popping one label and forwarding the rest to the nexthop.
#[verifier::opaque]
pub open spec fn popped_forward(
    t: &Tables,
    x: XdpView,
    nh: NextHop,
    s: u8,
    ttl: u8,
    uni: bool,
) -> Step {
    match fib::l2_of(t, nh) {
        None => endpoint::pass(x),
        Some((dst, src)) => {
            let et = if s == 0 {
                Some(ETH_P_MPLS_UC)
            } else {
                exposed(x.data)
            };
            match et {
                None => endpoint::discard(x),
                Some(et) => {
                    let x1 = popped(x, et);
                    let (x2, r) = if uni && s == 1 {
                        uniform(x1, et, (ttl - 1) as u8)
                    } else {
                        (x1, Ok(()))
                    };
                    if r is Err {
                        (x2, Err(()))
                    } else {
                        (
                            frame::with_data(x2, dst@ + src@ + x2.data.skip(12)),
                            Ok(XdpAct::Redirect(nh.oif)),
                        )
                    }
                },
            }
        },
    }
}

/// Outcome of swapping the top label for a stack of more than one.
#[verifier::opaque]
pub open spec fn grow_swapped(t: &Tables, x: XdpView, nh: NextHop, s: u8, ttl: u8) -> Step {
    let n = nh.num_labels as int;
    if n < 2 || n > MAX_LABELS {
        endpoint::pass(x)
    } else {
        match fib::l2_of(t, nh) {
            None => endpoint::pass(x),
            Some((dst, src)) => if 4 * (n - 1) > x.headroom {
                endpoint::pass(x)
            } else {
                (
                    frame::stat(
                        frame::fronted(
                            x,
                            18,
                            bytes::eth_hdr(dst, src, ETH_P_MPLS_UC) + headers::label_stack(
                                nh.labels,
                                n,
                                s,
                                (ttl - 1) as u8,
                                n,
                            ),
                        ),
                        STAT_MPLS_SWAP,
                    ),
                    Ok(XdpAct::Redirect(nh.oif)),
                )
            },
        }
    }
}

/// What one label asks for: a verdict, or — a local label under another —
/// another round after the pop.
pub open spec fn label_round(t: &Tables, x: XdpView) -> (XdpView, Option<Result<XdpAct, ()>>) {
    let d = x.data;
    if d.len() < 14 {
        (x, Some(Err(())))
    } else if bytes::be16(d, 12) != ETH_P_MPLS_UC {
        (x, Some(Ok(XdpAct::Pass)))
    } else if d.len() < 18 {
        (x, Some(Err(())))
    } else {
        let (label, _tc, s, ttl) = words::lse_fields(bytes::be32(d, 14));
        match t.mpls_fib@.get(label) {
            Some(ent) if ttl > 1 => match t.nexthops@.get(ent.nexthop_id) {
                None => (x, Some(Ok(XdpAct::Pass))),
                Some(nh) => label_op(t, x, ent, nh, s, ttl),
            },
            _ => (x, Some(Ok(XdpAct::Pass))),
        }
    }
}

/// The operation of a label's entry: an explicit decapsulation; a pop toward
/// a real nexthop; a local pop; a multi-label swap. Single-label swaps and
/// mismatched operations are handed up.
pub open spec fn label_op(t: &Tables, x: XdpView, ent: MplsEntry, nh: NextHop, s: u8, ttl: u8) -> (
    XdpView,
    Option<Result<XdpAct, ()>>,
) {
    let uni = ent.flags & MPLS_E_TTL_UNIFORM != 0;
    let pops = (ent.op == MPLS_OP_SWAP || ent.op == MPLS_OP_POP) && nh.num_labels == 0;
    if ent.op == MPLS_OP_POP_L3 && s == 1 {
        finished(decapped_local(t, x, ent.vrf_id, ttl, uni))
    } else if pops && nh.oif != 0 {
        finished(popped_forward(t, x, nh, s, ttl, uni))
    } else if pops {
        if s == 1 {
            finished(decapped_local(t, x, ent.vrf_id, ttl, uni))
        } else {
            (popped(x, ETH_P_MPLS_UC), None)
        }
    } else if ent.op == MPLS_OP_SWAP && nh.num_labels > 1 {
        finished(grow_swapped(t, x, nh, s, ttl))
    } else {
        (x, Some(Ok(XdpAct::Pass)))
    }
}

/// A step that ends the run.
pub open spec fn finished(s: Step) -> (XdpView, Option<Result<XdpAct, ()>>) {
    (s.0, Some(s.1))
}

/// Outcome of the MPLS stage in at most `rounds` labels.
pub open spec fn mpls_staged(t: &Tables, x: XdpView, rounds: int) -> Step
    decreases rounds,
{
    if rounds <= 0 {
        endpoint::pass(x)
    } else {
        let (x1, r) = label_round(t, x);
        match r {
            Some(v) => (x1, v),
            None => mpls_staged(t, x1, rounds - 1),
        }
    }
}

/// EtherType the pop would expose, from the payload's version nibble.
pub fn popped_ethertype(d: &Vec<u8>) -> (r: Option<u16>)
    ensures
        r == exposed(d@),
{
    match bytes::ld8(d, MPLS_LSE_OFF + 4) {
        Ok(b) => overlay::ethertype_by_version(b),
        Err(_) => None,
    }
}

/// Remove the top label stack entry: move the 12 Ethernet address bytes over
/// it, write the EtherType the pop exposes, then trim the 4 leading bytes.
pub(crate) fn pop_head(x: &mut Xdp, new_ethertype: u16)
    requires
        old(x)@.data.len() >= 18,
    ensures
        final(x)@ == popped(old(x)@, new_ethertype),
{
    let ghost s = x@.data;
    let et = bytes::to_be16(new_ethertype);
    let mut rest = x.data.split_off(18);
    x.data.truncate(12);
    bytes::put(&mut x.data, et.as_slice());
    x.data.append(&mut rest);
    x.regain(4);
    assert(x@.data =~= s.take(12) + bytes::be16_bytes(new_ethertype) + s.skip(18));
    x.stat_inc(STAT_MPLS_POP);
}

/// Uniform-model disposition (RFC 3443): write `ttl` into the IP header a pop
/// just exposed. `et` selects the family — IPv4 gets an incremental header
/// checksum fixup, IPv6 only the hop-limit byte; anything else no-ops.
pub fn mpls_uniform_to_ip(x: &mut Xdp, et: u16, ttl: u8) -> (r: Result<(), ()>)
    ensures
        (final(x)@, r) == uniform(old(x)@, et, ttl),
{
    if et == ETH_P_IP {
        let old_word: u16 = bytes::ld_be16(&x.data, 22)?;
        let new_word: u16 = (ttl as u16) * 256 + old_word % 256;
        if new_word == old_word {
            return Ok(());
        }
        let hc: u16 = bytes::ld_be16(&x.data, 24)?;
        let new_hc = bytes::to_be16(checksum::csum16_update(hc, old_word, new_word));
        x.store8(22, ttl);
        x.store(24, new_hc.as_slice());
    } else if et == ETH_P_IPV6 {
        let _hop: u8 = bytes::ld8(&x.data, IP6_HOP_OFF)?;
        x.store8(IP6_HOP_OFF, ttl);
    }
    Ok(())
}

/// Pop the bottom-of-stack label to IP for *local* routing. A VRF-scoped
/// decap (L3VPN) attaches the VRF id as metadata — failure to attach drops
/// rather than mis-routing a VPN packet in the global table. The uniform model
/// copies the popped label's TTL into the IP header; the TC FIB stage applies
/// the onward-hop decrement.
pub(crate) fn pop_decap_local(t: &Tables, x: &mut Xdp, vrf_id: u32, ttl: u8, uni: bool) -> (r: Result<
    XdpAct,
    (),
>)
    requires
        old(x)@.data.len() >= 18,
    ensures
        (final(x)@, r) == decapped_local(t, old(x)@, vrf_id, ttl, uni),
{
    reveal(decapped_local);
    let et: u16 = match popped_ethertype(&x.data) {
        Some(e) => e,
        None => {
            x.stat_inc(STAT_DROP);
            return Ok(XdpAct::Drop);
        },
    };
    pop_head(x, et);
    if uni {
        mpls_uniform_to_ip(x, et, ttl)?;
    }
    if vrf_id != 0 {
        return Ok(x.tag(t, XDP_META_MAGIC, vrf_id));
    }
    Ok(XdpAct::Pass)
}

/// PHP: pop one label and forward the remaining frame — still-MPLS or the
/// exposed IP — via the nexthop. Pipe-model TTL (default): nothing inner is
/// touched. Uniform: when the pop exposes IP, the popped label's TTL less one
/// is copied into the IP header (this path stands in for the IP FIB
/// decrement). A neighbor miss punts with the frame untouched.
pub(crate) fn pop_and_forward(t: &Tables, x: &mut Xdp, nh: &NextHop, s: u8, ttl: u8, uni: bool) -> (r:
    Result<XdpAct, ()>)
    requires
        old(x)@.data.len() >= 18,
        ttl >= 1,
    ensures
        (final(x)@, r) == popped_forward(t, old(x)@, *nh, s, ttl, uni),
{
    reveal(popped_forward);
    let (dst_mac, src_mac) = match fib::resolve_l2(t, nh) {
        Some(m) => m,
        None => {
            return Ok(XdpAct::Pass);
        },
    };
    let et: u16 = if s == 0 {
        ETH_P_MPLS_UC
    } else {
        match popped_ethertype(&x.data) {
            Some(e) => e,
            None => {
                x.stat_inc(STAT_DROP);
                return Ok(XdpAct::Drop);
            },
        }
    };
    pop_head(x, et);
    if uni && s == 1 {
        mpls_uniform_to_ip(x, et, ttl - 1)?;
    }
    let ghost d = x@.data;
    x.store(0, dst_mac.as_slice());
    x.store(6, src_mac.as_slice());
    assert(x@.data =~= dst_mac@ + src_mac@ + d.skip(12));
    Ok(XdpAct::Redirect(nh.oif))
}

/// SR transit: pop the incoming label and impose the nexthop's multi-label
/// stack. The frame grows at the head, the Ethernet header is rebuilt from the
/// control-plane neighbor/port state, and the frame is redirected out. The
/// bottom-of-stack bit goes only on the innermost imposed entry, and only if
/// the incoming label had it.
pub(crate) fn grow_swap(t: &Tables, x: &mut Xdp, nh: &NextHop, s_in: u8, ttl_in: u8) -> (r: Result<
    XdpAct,
    (),
>)
    requires
        old(x)@.data.len() >= 18,
        ttl_in >= 1,
    ensures
        (final(x)@, r) == grow_swapped(t, old(x)@, *nh, s_in, ttl_in),
{
    reveal(grow_swapped);
    let n: usize = nh.num_labels as usize;
    if n < 2 || n > MAX_LABELS {
        return Ok(XdpAct::Pass);
    }
    let (dst_mac, src_mac) = match fib::resolve_l2(t, nh) {
        Some(m) => m,
        None => {
            return Ok(XdpAct::Pass);
        },
    };
    let mut hdr: Vec<u8> = Vec::new();
    bytes::put_eth(&mut hdr, &dst_mac, &src_mac, ETH_P_MPLS_UC);
    let mut stack = headers::make_labels(&nh.labels, n, s_in, ttl_in - 1);
    hdr.append(&mut stack);
    assert(hdr@ =~= bytes::eth_hdr(dst_mac, src_mac, ETH_P_MPLS_UC) + headers::label_stack(
        nh.labels,
        n as int,
        s_in,
        (ttl_in - 1) as u8,
        n as int,
    ));
    if !x.grow_front(18, hdr) {
        return Ok(XdpAct::Pass);
    }
    x.stat_inc(STAT_MPLS_SWAP);
    Ok(XdpAct::Redirect(nh.oif))
}

fn run_label(t: &Tables, x: &mut Xdp) -> (r: Option<Result<XdpAct, ()>>)
    ensures
        (final(x)@, r) == label_round(t, old(x)@),
{
    let ethertype: u16 = match bytes::ld_be16(&x.data, ETH_TYPE_OFF) {
        Ok(e) => e,
        Err(_) => {
            return Some(Err(()));
        },
    };
    if ethertype != ETH_P_MPLS_UC {
        return Some(Ok(XdpAct::Pass));
    }
    let lse: u32 = match bytes::ld_be32(&x.data, MPLS_LSE_OFF) {
        Ok(l) => l,
        Err(_) => {
            return Some(Err(()));
        },
    };
    let (label, _tc, s, ttl) = words::mpls_lse_unpack(lse);
    if ttl <= 1 {
        return Some(Ok(XdpAct::Pass));
    }
    let ent: MplsEntry = match t.mpls_fib.get(&label) {
        Some(e) => e,
        None => {
            return Some(Ok(XdpAct::Pass));
        },
    };
    let nh: NextHop = match t.nexthops.get(&ent.nexthop_id) {
        Some(n) => n,
        None => {
            return Some(Ok(XdpAct::Pass));
        },
    };
    let uni: bool = ent.flags & MPLS_E_TTL_UNIFORM != 0;
    let pops: bool = (ent.op == MPLS_OP_SWAP || ent.op == MPLS_OP_POP) && nh.num_labels == 0;
    if ent.op == MPLS_OP_POP_L3 && s == 1 {
        return Some(pop_decap_local(t, x, ent.vrf_id, ttl, uni));
    }
    // A pop with a *real* nexthop: the labels underneath belong to the next
    // hop (label spaces are per-node) and must never be looked up here.
    if pops && nh.oif != 0 {
        return Some(pop_and_forward(t, x, &nh, s, ttl, uni));
    }
    if pops {
        if s == 1 {
            return Some(pop_decap_local(t, x, ent.vrf_id, ttl, uni));
        }
        pop_head(x, ETH_P_MPLS_UC);
        return None;
    }
    if ent.op == MPLS_OP_SWAP && nh.num_labels > 1 {
        return Some(grow_swap(t, x, &nh, s, ttl));
    }
    Some(Ok(XdpAct::Pass))
}

/// The MPLS stage: only *local* label chains loop (nexthop-less pops: this
/// node owns the label underneath). Everything else exits directly.
pub fn try_mpls_xdp(t: &Tables, x: &mut Xdp) -> (r: Result<XdpAct, ()>)
    ensures
        (final(x)@, r) == mpls_staged(t, old(x)@, MAX_LABELS + 1),
{
    let mut left: usize = MAX_LABELS + 1;
    while left > 0
        invariant
            left <= MAX_LABELS + 1,
            mpls_staged(t, old(x)@, MAX_LABELS + 1) == mpls_staged(t, x@, left as int),
        decreases left,
    {
        match run_label(t, x) {
            Some(v) => {
                return v;
            },
            None => {},
        }
        left -= 1;
    }
    Ok(XdpAct::Pass)
}

// -------------------------------- laws --------------------------------------

/// A pop undoes a push: popping a single imposed label exposes the frame the
/// label was imposed on — its Ethernet addresses, its EtherType and its
/// packet.
pub proof fn pop_undoes_push(x: XdpView, eth: Seq<u8>, lse: Seq<u8>, inner: Seq<u8>, et: u16)
    requires
        eth.len() == 14,
        lse.len() == 4,
        x.data == eth + lse + inner,
    ensures
        popped(x, et).data == eth.take(12) + bytes::be16_bytes(et) + inner,
{
    assert(x.data.take(12) =~= eth.take(12));
    assert(x.data.skip(18) =~= inner);
}

/// An expiring label is never acted on: with TTL 0 or 1 the frame goes up
/// untouched.
pub proof fn expiring_label_passes(t: &Tables, x: XdpView, rounds: int)
    requires
        rounds > 0,
        x.data.len() >= 18,
        bytes::be16(x.data, 12) == ETH_P_MPLS_UC,
        words::lse_fields(bytes::be32(x.data, 14)).3 <= 1,
    ensures
        mpls_staged(t, x, rounds) == endpoint::pass(x),
{
}

/// The uniform model keeps a valid IPv4 header valid: with `rest` the sum of
/// the words other than TTL/protocol and checksum, a sum that is a multiple of
/// `0xffff` stays one.
pub proof fn uniform_keeps_checksum(x: XdpView, ttl: u8, rest: int)
    requires
        x.data.len() >= 34,
        (rest + bytes::be16(x.data, 22) + bytes::be16(x.data, 24)) % 0xffff == 0,
    ensures
        ({
            let d = uniform(x, ETH_P_IP, ttl).0.data;
            (rest + bytes::be16(d, 22) + bytes::be16(d, 24)) % 0xffff == 0
        }),
{
    let s = x.data;
    if s[22] != ttl {
        let old_word = bytes::be16(s, 22);
        let new_word = (ttl * 256 + s[23]) as u16;
        let hc = checksum::csum16_updated(bytes::be16(s, 24), old_word, new_word);
        checksum::csum16_update_keeps_valid(rest, bytes::be16(s, 24), old_word, new_word);
        let d = uniform(x, ETH_P_IP, ttl).0.data;
        let b = bytes::be16_bytes(hc);
        bytes::be16_round_trip(hc);
        assert(d[24] == b[0] && d[25] == b[1]);
        assert(d[22] == ttl && d[23] == s[23]);
    }
}

} // verus!
