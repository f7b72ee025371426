//! SRv6 endpoint behaviors of the XDP stage (RFC 8986, RFC 9800): segment
//! walks, flavors, decapsulations, cross-connects, micro-SIDs, binding SIDs
//! and egress protection.
//!
//! Every behavior runs on a frame whose IPv6 destination matched a local SID,
//! so the frame holds at least the Ethernet and IPv6 base headers.

use vstd::prelude::*;
use crate::bytes;
use crate::fib;
use crate::frame;
use crate::frame::{Xdp, XdpAct, XdpView};
use crate::lpm;
use crate::tables;
use crate::tables::Tables;
use crate::types::{
    Dx2vKey, LocalSid, MirrorEntry, NextHop, MAX_SEGS, SRV6_BH_END_DT4, SRV6_BH_END_DT46,
    SRV6_BH_END_DT6, SRV6_BH_END_DX2, SRV6_BH_END_DX4, SRV6_BH_END_DX6, SRV6_BH_END_T,
    SRV6_BH_END_X, SRV6_BH_UA, SRV6_BH_UALIB, SRV6_BH_UN, SRV6_FLAVOR_PSP, SRV6_FLAVOR_USD,
    SRV6_FLAVOR_USP, STAT_DROP, STAT_SRV6_DX, STAT_SRV6_DX2, STAT_SRV6_END, STAT_SRV6_ENDM,
    STAT_SRV6_ENDT, STAT_SRV6_L2_DECAP, STAT_SRV6_PSP, STAT_SRV6_USD, STAT_SRV6_USID,
    STAT_SRV6_USP, XDP_META_MAGIC, XDP_META_MAGIC_DX, XDP_META_MAGIC_DX2, XDP_META_MAGIC_L2,
    XDP_META_MAGIC_REPL,
};
use crate::wire::{
    ETH_P_8021Q, ETH_P_IP, ETH_P_IPV6, IP6_DST_OFF, IP6_HDR_LEN, IP6_HOP_OFF, IP6_NEXTHDR_OFF,
    IP6_PAYLOAD_LEN_OFF, IPPROTO_ETHERNET, IPPROTO_IPIP, IPPROTO_IPV6, IPPROTO_ROUTING, SRH_OFF,
    SRH_SEGLIST_OFF, SRH_SL_OFF,
};

verus! {

/// A run's state and verdict.
pub type Step = (XdpView, Result<XdpAct, ()>);

/// The frame handed up as it is.
pub open spec fn pass(x: XdpView) -> Step {
    (x, Ok(XdpAct::Pass))
}

/// The frame dropped and counted.
pub open spec fn discard(x: XdpView) -> Step {
    (frame::stat(x, STAT_DROP), Ok(XdpAct::Drop))
}

/// Handing up with metadata, always with a verdict.
pub open spec fn hand_up(t: &Tables, x: XdpView, magic: u32, value: u32) -> Step {
    let (x1, a) = frame::tagged(t, x, magic, value);
    (x1, Ok(a))
}

/// A decapsulated packet handed up for routing in `vrf_id` (0 = global, no
/// metadata).
pub open spec fn in_table(t: &Tables, x: XdpView, vrf_id: u32) -> Step {
    if vrf_id != 0 {
        hand_up(t, x, XDP_META_MAGIC, vrf_id)
    } else {
        pass(x)
    }
}

// --------------------------- resizing the frame ------------------------------

/// Outcome of removing `strip` bytes of outer headers after the Ethernet
/// addresses and giving the inner packet its EtherType. A frame that ends
/// within the new Ethernet header fails, one cut inside its EtherType after
/// the addresses were moved.
pub open spec fn decapped(x: XdpView, strip: int, ethertype: u16) -> (XdpView, Result<(), ()>) {
    let s = x.data;
    if s.len() < strip + 12 {
        (x, Err(()))
    } else if s.len() < strip + 14 {
        (frame::with_data(x, bytes::splice(s, strip, s.take(12))), Err(()))
    } else {
        (
            frame::with_data(
                x,
                s.take(12) + bytes::be16_bytes(ethertype) + s.skip(strip + 14),
            ),
            Ok(()),
        )
    }
}

/// Remove `strip` bytes of outer header(s) between the Ethernet header and
/// the inner packet: slide the 12 Ethernet address bytes forward over them,
/// write the inner EtherType, then trim `strip` leading bytes.
pub(crate) fn decap_head(x: &mut Xdp, strip: usize, new_ethertype: u16) -> (r: Result<(), ()>)
    requires
        old(x)@.data.len() >= 14,
        strip <= 0x1000,
    ensures
        (final(x)@, r) == decapped(old(x)@, strip as int, new_ethertype),
{
    let ghost s = x@.data;
    let a: [u8; 6] = bytes::ld6(&x.data, 0)?;
    let b: [u8; 6] = bytes::ld6(&x.data, 6)?;
    if !bytes::fits(&x.data, strip, 12) {
        return Err(());
    }
    let mut macs: Vec<u8> = Vec::new();
    bytes::put(&mut macs, a.as_slice());
    bytes::put(&mut macs, b.as_slice());
    assert(macs@ =~= s.take(12));
    x.store(strip, macs.as_slice());
    if !bytes::fits(&x.data, strip + 12, 2) {
        return Err(());
    }
    let et = bytes::to_be16(new_ethertype);
    x.store(strip + 12, et.as_slice());
    let ok: bool = x.shrink_front(strip);
    assert(x@.data =~= s.take(12) + bytes::be16_bytes(new_ethertype) + s.skip(strip + 14));
    Ok(())
}

/// Bytes of an SRH with extension length `ext`.
pub open spec fn srh_bytes(ext: u8) -> int {
    8 * (ext + 1)
}

/// Outcome of removing the SRH that follows the base header: next header and
/// payload length patched, the headers closed up. An SRH that reaches past
/// the frame fails after the patch.
pub open spec fn srh_popped(x: XdpView) -> (XdpView, Result<(), ()>) {
    let s = x.data;
    if s.len() < 56 || s[55] > 12 || bytes::be16(s, 18) < srh_bytes(s[55]) {
        (x, Err(()))
    } else {
        let n = srh_bytes(s[55]);
        let patched = bytes::splice(
            s,
            18,
            bytes::be16_bytes((bytes::be16(s, 18) - n) as u16) + seq![s[54]],
        );
        if s.len() < n + 54 {
            (frame::with_data(x, patched), Err(()))
        } else {
            (frame::with_data(x, patched.take(54) + s.skip(54 + n)), Ok(()))
        }
    }
}

/// Pop the SRH from an IPv6 packet whose Routing header immediately follows
/// the base header (the PSP/USP flavors): patch the base header's
/// next_header / payload_len, then slide the Ethernet + IPv6 headers forward
/// over the SRH.
pub fn pop_srh(x: &mut Xdp) -> (r: Result<(), ()>)
    ensures
        (final(x)@, r) == srh_popped(old(x)@),
{
    let ghost s = x@.data;
    let srh_nh: u8 = bytes::ld8(&x.data, SRH_OFF)?;
    let ext_len: u8 = bytes::ld8(&x.data, SRH_OFF + 1)?;
    if ext_len > 12 {
        return Err(());
    }
    let srh_len: u16 = 8 * (ext_len as u16 + 1);
    let payload_len: u16 = bytes::ld_be16(&x.data, IP6_PAYLOAD_LEN_OFF)?;
    if payload_len < srh_len {
        return Err(());
    }
    let mut fields: Vec<u8> = Vec::new();
    bytes::put_be16(&mut fields, payload_len - srh_len);
    fields.push(srh_nh);
    assert(fields@ =~= bytes::be16_bytes((payload_len - srh_len) as u16) + seq![s[54]]);
    x.store(IP6_PAYLOAD_LEN_OFF, fields.as_slice());
    let ghost patched = x@.data;
    if !bytes::fits(&x.data, srh_len as usize, 54) {
        return Err(());
    }
    let mut rest = x.data.split_off(54 + srh_len as usize);
    x.data.truncate(54);
    x.data.append(&mut rest);
    x.regain(srh_len as usize);
    assert(x@.data =~= patched.take(54) + s.skip(54 + srh_len as int));
    Ok(())
}

/// The EtherType of an inner protocol that is IP.
pub open spec fn inner_ethertype(proto: u8) -> Option<u16> {
    if proto == IPPROTO_IPIP {
        Some(ETH_P_IP)
    } else if proto == IPPROTO_IPV6 {
        Some(ETH_P_IPV6)
    } else {
        None
    }
}

fn ethertype_of(proto: u8) -> (r: Option<u16>)
    ensures
        r == inner_ethertype(proto),
{
    if proto == IPPROTO_IPIP {
        Some(ETH_P_IP)
    } else if proto == IPPROTO_IPV6 {
        Some(ETH_P_IPV6)
    } else {
        None
    }
}

/// The inner packet behind the outer header, or behind one exhausted SRH: its
/// protocol and the bytes to strip. `Ok(None)` behind a live or oversized
/// SRH, `Err` when truncated.
pub open spec fn inner_of(s: Seq<u8>) -> Result<Option<(u8, int)>, ()> {
    if s[20] != IPPROTO_ROUTING {
        Ok(Some((s[20], 40)))
    } else if s.len() < 58 {
        Err(())
    } else if s[57] != 0 || s[55] > 12 {
        Ok(None)
    } else {
        Ok(Some((s[54], 40 + srh_bytes(s[55]))))
    }
}

fn reach_inner(d: &Vec<u8>) -> (r: Result<Option<(u8, usize)>, ()>)
    requires
        d@.len() >= 54,
    ensures
        inner_of(d@) == (match r {
            Ok(Some((p, n))) => Ok(Some((p, n as int))),
            Ok(None) => Ok(None),
            Err(_) => Err(()),
        }),
        r matches Ok(Some((_, n))) ==> 40 <= n <= 144,
{
    let outer_nh: u8 = d[20];
    if outer_nh != IPPROTO_ROUTING {
        return Ok(Some((outer_nh, IP6_HDR_LEN)));
    }
    let srh_nh: u8 = bytes::ld8(d, SRH_OFF)?;
    let ext_len: u8 = bytes::ld8(d, SRH_OFF + 1)?;
    let sl: u8 = bytes::ld8(d, SRH_SL_OFF)?;
    if sl != 0 || ext_len > 12 {
        return Ok(None);
    }
    Ok(Some((srh_nh, IP6_HDR_LEN + 8 * (ext_len as usize + 1))))
}

// ------------------------------- forwarding ----------------------------------

/// Outcome of forwarding out of a cross-connect adjacency: the hop limit
/// charged and the Ethernet addresses rewritten. An unresolved adjacency or an
/// expiring packet is handed up.
#[verifier::opaque]
pub open spec fn adjacency(t: &Tables, x: XdpView, nexthop_id: u32) -> Step {
    match t.nexthops@.get(nexthop_id) {
        None => pass(x),
        Some(nh) => match fib::l2_of(t, nh) {
            None => pass(x),
            Some((dst, src)) => if x.data[21] <= 1 {
                pass(x)
            } else {
                (
                    frame::with_data(
                        x,
                        dst@ + src@ + x.data.update(21, (x.data[21] - 1) as u8).skip(12),
                    ),
                    Ok(XdpAct::Redirect(nh.oif)),
                )
            },
        },
    }
}

/// Forward the (rewritten) IPv6 packet out an SRv6 cross-connect adjacency:
/// resolve the nexthop's L2, decrement the outer hop limit (this path skips
/// the TC forward), rewrite the Ethernet header, and redirect.
pub(crate) fn srv6_forward_adjacency(t: &Tables, x: &mut Xdp, nexthop_id: u32) -> (r: Result<XdpAct, ()>)
    requires
        old(x)@.data.len() >= 54,
    ensures
        (final(x)@, r) == adjacency(t, old(x)@, nexthop_id),
{
    reveal(adjacency);
    let nh: NextHop = match t.nexthops.get(&nexthop_id) {
        Some(n) => n,
        None => {
            return Ok(XdpAct::Pass);
        },
    };
    let (dst_mac, src_mac) = match fib::resolve_l2(t, &nh) {
        Some(m) => m,
        None => {
            return Ok(XdpAct::Pass);
        },
    };
    let hop: u8 = bytes::ld8(&x.data, IP6_HOP_OFF)?;
    if hop <= 1 {
        return Ok(XdpAct::Pass);
    }
    let ghost s = x@.data;
    x.store8(IP6_HOP_OFF, hop - 1);
    x.store(0, dst_mac.as_slice());
    x.store(6, src_mac.as_slice());
    assert(x@.data =~= dst_mac@ + src_mac@ + s.update(21, (s[21] - 1) as u8).skip(12));
    Ok(XdpAct::Redirect(nh.oif))
}

/// Outcome of scoping the upcoming TC forward to the SID's table: `End.T`,
/// and a `uN` with a table; every other SID hands the frame up plainly.
pub open spec fn table_scoped(t: &Tables, x: XdpView, sid: LocalSid) -> Step {
    if sid.vrf_id == 0 || !(sid.behavior == SRV6_BH_END_T || sid.behavior == SRV6_BH_UN) {
        pass(x)
    } else {
        let (x1, a) = frame::tagged(t, x, XDP_META_MAGIC, sid.vrf_id);
        (
            if a == XdpAct::Pass {
                frame::stat(x1, STAT_SRV6_ENDT)
            } else {
                x1
            },
            Ok(a),
        )
    }
}

/// RFC 8986 §4.3 S15.1 — scope the upcoming TC forward to the SID's table.
pub fn endt_meta(t: &Tables, x: &mut Xdp, sid: &LocalSid) -> (r: Result<XdpAct, ()>)
    ensures
        (final(x)@, r) == table_scoped(t, old(x)@, *sid),
{
    if sid.vrf_id == 0 || !(sid.behavior == SRV6_BH_END_T || sid.behavior == SRV6_BH_UN) {
        return Ok(XdpAct::Pass);
    }
    match x.tag(t, XDP_META_MAGIC, sid.vrf_id) {
        XdpAct::Pass => {
            x.stat_inc(STAT_SRV6_ENDT);
            Ok(XdpAct::Pass)
        },
        a => Ok(a),
    }
}

// ---------------------------------- End --------------------------------------

/// Whether the ultimate-segment flavors apply: not to adjacency SIDs.
pub open spec fn ultimate_ok(sid: LocalSid) -> bool {
    !(sid.behavior == SRV6_BH_END_X || sid.behavior == SRV6_BH_UA || sid.behavior
        == SRV6_BH_UALIB)
}

/// Decapsulating at the ultimate segment (USD), then the SID's table.
pub open spec fn usd_decapped(t: &Tables, x: XdpView, sid: LocalSid, strip: int, et: u16) -> Step {
    let (x1, r) = decapped(x, strip, et);
    if r is Err {
        (x1, Err(()))
    } else {
        table_scoped(t, frame::stat(x1, STAT_SRV6_USD), sid)
    }
}

/// The SRH removed and counted under `idx`, then `next`.
pub open spec fn popped_then(x: XdpView, idx: u32) -> (XdpView, Result<(), ()>) {
    let (x1, r) = srh_popped(x);
    if r is Err {
        (x1, Err(()))
    } else {
        (frame::stat(x1, idx), Ok(()))
    }
}

/// Segments Left decremented and the new active segment as destination.
pub open spec fn walked(s: Seq<u8>, new_sl: int) -> Seq<u8> {
    bytes::splice(
        s.update(57, new_sl as u8),
        38,
        bytes::oct16(s, 62 + 16 * new_sl)@,
    )
}

/// Outcome of `End` at the last segment (`Segments Left` already 0).
pub open spec fn ended_ultimate(t: &Tables, x: XdpView, sid: LocalSid) -> Step {
    let s = x.data;
    if s[55] > 12 {
        pass(x)
    } else if sid.flavors & SRV6_FLAVOR_USD != 0 && ultimate_ok(sid) && inner_ethertype(
        s[54],
    ) is Some {
        usd_decapped(t, x, sid, 40 + srh_bytes(s[55]), inner_ethertype(s[54])->0)
    } else if sid.flavors & SRV6_FLAVOR_USP != 0 && ultimate_ok(sid) {
        let (x1, r) = popped_then(x, STAT_SRV6_USP);
        (x1, if r is Ok { Ok(XdpAct::Pass) } else { Err(()) })
    } else {
        pass(x)
    }
}

/// Outcome of `End` once the walk was made: forwarded by the new destination,
/// in the SID's table or out of its adjacency.
pub open spec fn ended_forward(t: &Tables, x: XdpView, sid: LocalSid) -> Step {
    if sid.behavior == SRV6_BH_END_X || sid.behavior == SRV6_BH_UA {
        adjacency(t, x, sid.nexthop_id)
    } else {
        table_scoped(t, x, sid)
    }
}

/// Outcome of `End` / `End.X` / `uA` / `End.T`.
#[verifier::opaque]
pub open spec fn ended(t: &Tables, x: XdpView, sid: LocalSid) -> Step {
    let s = x.data;
    if s[20] != IPPROTO_ROUTING {
        if sid.flavors & SRV6_FLAVOR_USD != 0 && ultimate_ok(sid) && inner_ethertype(
            s[20],
        ) is Some {
            usd_decapped(t, x, sid, 40, inner_ethertype(s[20])->0)
        } else {
            pass(x)
        }
    } else if s.len() < 58 {
        (x, Err(()))
    } else if s[57] == 0 {
        ended_ultimate(t, x, sid)
    } else if s[57] > MAX_SEGS {
        pass(x)
    } else if s.len() < 62 + 16 * s[57] {
        (x, Err(()))
    } else {
        let new_sl = s[57] - 1;
        let x1 = frame::stat(frame::with_data(x, walked(s, new_sl)), STAT_SRV6_END);
        if new_sl == 0 && sid.flavors & SRV6_FLAVOR_PSP != 0 {
            let (x2, r) = popped_then(x1, STAT_SRV6_PSP);
            if r is Err {
                (x2, Err(()))
            } else {
                ended_forward(t, x2, sid)
            }
        } else {
            ended_forward(t, x1, sid)
        }
    }
}

/// A popped frame still holds its base headers.
proof fn popped_len(x: XdpView)
    requires
        x.data.len() >= 54,
    ensures
        srh_popped(x).0.data.len() >= 54,
{
}

fn walk(x: &mut Xdp, new_sl: u8)
    requires
        new_sl < 8,
        old(x)@.data.len() >= 62 + 16 * (new_sl + 1),
    ensures
        final(x)@ == frame::with_data(old(x)@, walked(old(x)@.data, new_sl as int)),
{
    let ghost s = x@.data;
    let o: usize = SRH_SEGLIST_OFF + 16 * new_sl as usize;
    match bytes::ld16(&x.data, o) {
        Ok(seg) => {
            x.store8(SRH_SL_OFF, new_sl);
            x.store(IP6_DST_OFF, seg.as_slice());
        },
        Err(_) => {},
    }
}

fn end_ultimate(t: &Tables, x: &mut Xdp, sid: &LocalSid) -> (r: Result<XdpAct, ()>)
    requires
        old(x)@.data.len() >= 58,
    ensures
        (final(x)@, r) == ended_ultimate(t, old(x)@, *sid),
{
    let ult_ok: bool = !(sid.behavior == SRV6_BH_END_X || sid.behavior == SRV6_BH_UA
        || sid.behavior == SRV6_BH_UALIB);
    let ext_len: u8 = bytes::ld8(&x.data, SRH_OFF + 1)?;
    if ext_len > 12 {
        return Ok(XdpAct::Pass);
    }
    if sid.flavors & SRV6_FLAVOR_USD != 0 && ult_ok {
        let srh_nh: u8 = bytes::ld8(&x.data, SRH_OFF)?;
        match ethertype_of(srh_nh) {
            Some(et) => {
                decap_head(x, IP6_HDR_LEN + 8 * (ext_len as usize + 1), et)?;
                x.stat_inc(STAT_SRV6_USD);
                return endt_meta(t, x, sid);
            },
            None => {},  // non-IP payload — fall through to USP

        }
    }
    if sid.flavors & SRV6_FLAVOR_USP != 0 && ult_ok {
        pop_srh(x)?;
        x.stat_inc(STAT_SRV6_USP);
    }
    Ok(XdpAct::Pass)
}

/// SRv6 `End` / `End.X` transit: walk the SRH — decrement Segments Left and
/// copy the next segment into the DA — then forward. `End` hands the rewritten
/// packet to the TC FIB stage; `End.X` forwards straight out the SID's
/// adjacency.
///
/// Flavors (RFC 8986 §4.16): PSP pops the SRH when this node's decrement
/// exhausts it; USP pops an already-exhausted SRH before local delivery; USD
/// decapsulates the outer IPv6 (+SRH) at the ultimate segment and forwards the
/// inner packet. USP/USD act on End/uN only.
pub(crate) fn srv6_end(t: &Tables, x: &mut Xdp, sid: &LocalSid) -> (r: Result<XdpAct, ()>)
    requires
        old(x)@.data.len() >= 54,
    ensures
        (final(x)@, r) == ended(t, old(x)@, *sid),
{
    reveal(ended);
    let ult_ok: bool = !(sid.behavior == SRV6_BH_END_X || sid.behavior == SRV6_BH_UA
        || sid.behavior == SRV6_BH_UALIB);
    let outer_nh: u8 = bytes::ld8(&x.data, IP6_NEXTHDR_OFF)?;
    if outer_nh != IPPROTO_ROUTING {
        if sid.flavors & SRV6_FLAVOR_USD != 0 && ult_ok {
            return match ethertype_of(outer_nh) {
                Some(et) => {
                    decap_head(x, IP6_HDR_LEN, et)?;
                    x.stat_inc(STAT_SRV6_USD);
                    endt_meta(t, x, sid)
                },
                None => Ok(XdpAct::Pass),
            };
        }
        return Ok(XdpAct::Pass);
    }
    let sl: u8 = bytes::ld8(&x.data, SRH_SL_OFF)?;
    if sl == 0 {
        return end_ultimate(t, x, sid);
    }
    if sl as usize > MAX_SEGS {
        return Ok(XdpAct::Pass);
    }
    let new_sl: u8 = sl - 1;
    if !bytes::fits(&x.data, SRH_SEGLIST_OFF + 16 * new_sl as usize, 16) {
        return Err(());
    }
    walk(x, new_sl);
    x.stat_inc(STAT_SRV6_END);
    if new_sl == 0 && sid.flavors & SRV6_FLAVOR_PSP != 0 {
        proof {
            popped_len(x@);
        }
        pop_srh(x)?;
        x.stat_inc(STAT_SRV6_PSP);
    }
    if sid.behavior == SRV6_BH_END_X || sid.behavior == SRV6_BH_UA {
        return srv6_forward_adjacency(t, x, sid.nexthop_id);
    }
    endt_meta(t, x, sid)
}

// ------------------------------ End.DT4/6/46 ---------------------------------

/// The EtherType a `DT` behavior gives an inner protocol; `None` when the
/// family does not match.
pub open spec fn dt_ethertype(proto: u8, behavior: u8) -> Option<u16> {
    if proto == IPPROTO_IPIP && (behavior == SRV6_BH_END_DT4 || behavior == SRV6_BH_END_DT46) {
        Some(ETH_P_IP)
    } else if proto == IPPROTO_IPV6 && (behavior == SRV6_BH_END_DT6 || behavior
        == SRV6_BH_END_DT46) {
        Some(ETH_P_IPV6)
    } else {
        None
    }
}

fn dt_family(proto: u8, behavior: u8) -> (r: Option<u16>)
    ensures
        r == dt_ethertype(proto, behavior),
{
    if proto == IPPROTO_IPIP && (behavior == SRV6_BH_END_DT4 || behavior == SRV6_BH_END_DT46) {
        Some(ETH_P_IP)
    } else if proto == IPPROTO_IPV6 && (behavior == SRV6_BH_END_DT6 || behavior
        == SRV6_BH_END_DT46) {
        Some(ETH_P_IPV6)
    } else {
        None
    }
}

/// Outcome of a `DT` decapsulation into a table: counted under `idx`, handed
/// up in `vrf_id` (0 = global, no metadata).
pub open spec fn table_decapped(t: &Tables, x: XdpView, behavior: u8, vrf_id: u32, idx: u32) -> Step {
    match inner_of(x.data) {
        Err(_) => (x, Err(())),
        Ok(None) => pass(x),
        Ok(Some((proto, strip))) => match dt_ethertype(proto, behavior) {
            None => discard(x),
            Some(et) => {
                let (x1, r) = decapped(x, strip, et);
                if r is Err {
                    (x1, Err(()))
                } else {
                    in_table(t, frame::stat(x1, idx), vrf_id)
                }
            },
        },
    }
}

/// Decapsulate into a table: strip the outer IPv6 header (and one exhausted
/// SRH), check the inner family against the behavior, and hand the inner
/// packet up with the VRF as metadata.
pub(crate) fn decap_to_table(t: &Tables, x: &mut Xdp, behavior: u8, vrf_id: u32, idx: u32) -> (r: Result<
    XdpAct,
    (),
>)
    requires
        old(x)@.data.len() >= 54,
    ensures
        (final(x)@, r) == table_decapped(t, old(x)@, behavior, vrf_id, idx),
{
    let (proto, strip) = match reach_inner(&x.data)? {
        Some(p) => p,
        None => {
            return Ok(XdpAct::Pass);
        },
    };
    let et: u16 = match dt_family(proto, behavior) {
        Some(e) => e,
        None => {
            x.stat_inc(STAT_DROP);
            return Ok(XdpAct::Drop);
        },
    };
    decap_head(x, strip, et)?;
    x.stat_inc(idx);
    if vrf_id != 0 {
        return Ok(x.tag(t, XDP_META_MAGIC, vrf_id));
    }
    Ok(XdpAct::Pass)
}

// -------------------------------- End.DX4/6 ----------------------------------

/// The EtherType a `DX` behavior gives an inner protocol.
pub open spec fn dx_ethertype(proto: u8, behavior: u8) -> Option<u16> {
    if proto == IPPROTO_IPIP && behavior == SRV6_BH_END_DX4 {
        Some(ETH_P_IP)
    } else if proto == IPPROTO_IPV6 && behavior == SRV6_BH_END_DX6 {
        Some(ETH_P_IPV6)
    } else {
        None
    }
}

/// Outcome of `End.DX4` / `End.DX6`.
#[verifier::opaque]
pub open spec fn dx_decapped(t: &Tables, x: XdpView, sid: LocalSid) -> Step {
    match inner_of(x.data) {
        Err(_) => (x, Err(())),
        Ok(None) => pass(x),
        Ok(Some((proto, strip))) => match dx_ethertype(proto, sid.behavior) {
            None => discard(x),
            Some(et) => if !t.nexthops@.contains_key(sid.nexthop_id) {
                pass(x)
            } else {
                let (x1, r) = decapped(x, strip, et);
                if r is Err {
                    (x1, Err(()))
                } else {
                    let (x2, a) = frame::tagged(t, x1, XDP_META_MAGIC_DX, sid.nexthop_id);
                    (
                        if a == XdpAct::Pass {
                            frame::stat(x2, STAT_SRV6_DX)
                        } else {
                            x2
                        },
                        Ok(a),
                    )
                }
            },
        },
    }
}

/// SRv6 `End.DX4` / `End.DX6` — decapsulation and cross-connect: the per-CE
/// VPN egress. The adjacency is checked BEFORE any packet mutation: an
/// unresolved nexthop must not leak a decapsulated packet into the main FIB.
/// The cross-connect finishes at the TC stage, which gets the adjacency in
/// DX-typed metadata — no FIB lookup and no hop charged.
pub(crate) fn srv6_dx(t: &Tables, x: &mut Xdp, sid: &LocalSid) -> (r: Result<XdpAct, ()>)
    requires
        old(x)@.data.len() >= 54,
    ensures
        (final(x)@, r) == dx_decapped(t, old(x)@, *sid),
{
    reveal(dx_decapped);
    let (proto, strip) = match reach_inner(&x.data)? {
        Some(p) => p,
        None => {
            return Ok(XdpAct::Pass);
        },
    };
    let et: u16 = if proto == IPPROTO_IPIP && sid.behavior == SRV6_BH_END_DX4 {
        ETH_P_IP
    } else if proto == IPPROTO_IPV6 && sid.behavior == SRV6_BH_END_DX6 {
        ETH_P_IPV6
    } else {
        x.stat_inc(STAT_DROP);
        return Ok(XdpAct::Drop);
    };
    if !t.nexthops.has(&sid.nexthop_id) {
        return Ok(XdpAct::Pass);
    }
    decap_head(x, strip, et)?;
    match x.tag(t, XDP_META_MAGIC_DX, sid.nexthop_id) {
        XdpAct::Pass => {
            x.stat_inc(STAT_SRV6_DX);
            Ok(XdpAct::Pass)
        },
        a => Ok(a),
    }
}

// ---------------------------- L2 decapsulations ------------------------------

/// The attachment circuit an inner frame goes to: the SID's own for `DX2`,
/// by the inner VLAN for `DX2V`. `Ok(None)` when there is none, `Err` when
/// truncated.
pub open spec fn circuit_of(t: &Tables, s: Seq<u8>, sid: LocalSid) -> Result<Option<u32>, ()> {
    if sid.behavior == SRV6_BH_END_DX2 {
        Ok(Some(sid.vrf_id))
    } else if s.len() < 68 {
        Err(())
    } else if bytes::be16(s, 66) != ETH_P_8021Q {
        Ok(None)
    } else if s.len() < 70 {
        Err(())
    } else {
        Ok(
            t.dx2v@.get(
                Dx2vKey {
                    table: sid.vrf_id,
                    vid: (bytes::be16(s, 68) % 0x1000) as u16,
                    _pad: [0u8, 0u8],
                },
            ),
        )
    }
}

/// Outcome of `End.DX2` / `End.DX2V`: the inner Ethernet frame exposed and
/// pinned to its attachment circuit.
#[verifier::opaque]
pub open spec fn dx2_decapped(t: &Tables, x: XdpView, sid: LocalSid) -> Step {
    if x.data[20] != IPPROTO_ETHERNET {
        pass(x)
    } else {
        match circuit_of(t, x.data, sid) {
            Err(_) => (x, Err(())),
            Ok(None) => pass(x),
            Ok(Some(oif)) => if oif == 0 {
                pass(x)
            } else if x.data.len() < 68 {
                (x, Err(()))
            } else {
                hand_up(
                    t,
                    frame::stat(frame::with_data(x, x.data.skip(54)), STAT_SRV6_DX2),
                    XDP_META_MAGIC_DX2,
                    oif,
                )
            },
        }
    }
}

/// SRv6 `End.DX2` / `End.DX2V` — decapsulation and L2 cross-connect: the EVPN
/// VPWS (E-Line) egress. Strip the outer Ethernet + IPv6, then emit the inner
/// Ethernet frame RAW on the attachment circuit: no FDB, no learning, no MAC
/// rewrite. DX2V reads the inner frame's 802.1Q VID and selects the AC from
/// the VLAN table; the tag stays on the frame. The emit finishes at the TC
/// stage via DX2-typed metadata.
pub(crate) fn srv6_dx2(t: &Tables, x: &mut Xdp, sid: &LocalSid) -> (r: Result<XdpAct, ()>)
    requires
        old(x)@.data.len() >= 54,
    ensures
        (final(x)@, r) == dx2_decapped(t, old(x)@, *sid),
{
    reveal(dx2_decapped);
    let outer_nh: u8 = bytes::ld8(&x.data, IP6_NEXTHDR_OFF)?;
    if outer_nh != IPPROTO_ETHERNET {
        return Ok(XdpAct::Pass);
    }
    let oif: u32 = if sid.behavior == SRV6_BH_END_DX2 {
        sid.vrf_id
    } else {
        let inner_et: u16 = bytes::ld_be16(&x.data, 66)?;
        if inner_et != ETH_P_8021Q {
            return Ok(XdpAct::Pass);
        }
        let tci: u16 = bytes::ld_be16(&x.data, 68)?;
        let key = Dx2vKey { table: sid.vrf_id, vid: tci % 0x1000, _pad: [0u8, 0u8] };
        match t.dx2v.get(&key) {
            Some(o) => o,
            None => {
                return Ok(XdpAct::Pass);
            },
        }
    };
    if oif == 0 {
        return Ok(XdpAct::Pass);
    }
    if !x.shrink_front(54) {
        return Err(());
    }
    x.stat_inc(STAT_SRV6_DX2);
    Ok(x.tag(t, XDP_META_MAGIC_DX2, oif))
}

/// Outcome of `End.DT2U` / `End.DT2M`.
#[verifier::opaque]
pub open spec fn dt2_decapped(t: &Tables, x: XdpView, sid: LocalSid) -> Step {
    if x.data[20] != IPPROTO_ETHERNET {
        pass(x)
    } else if x.data.len() < 68 {
        (x, Err(()))
    } else {
        hand_up(
            t,
            frame::stat(frame::with_data(x, x.data.skip(54)), STAT_SRV6_L2_DECAP),
            XDP_META_MAGIC_L2,
            sid.vrf_id,
        )
    }
}

/// SRv6 `End.DT2U`/`End.DT2M` (EVPN over SRv6): strip the outer Ethernet and
/// outer IPv6 header so the inner Ethernet frame becomes the L2 frame, and tag
/// the SID's bridge domain so the TC stage bridges it — a unicast inner MAC is
/// forwarded, a broadcast/multicast one is flooded.
pub(crate) fn srv6_dt2u(t: &Tables, x: &mut Xdp, sid: &LocalSid) -> (r: Result<XdpAct, ()>)
    requires
        old(x)@.data.len() >= 54,
    ensures
        (final(x)@, r) == dt2_decapped(t, old(x)@, *sid),
{
    reveal(dt2_decapped);
    let outer_nh: u8 = bytes::ld8(&x.data, IP6_NEXTHDR_OFF)?;
    if outer_nh != IPPROTO_ETHERNET {
        return Ok(XdpAct::Pass);
    }
    if !x.shrink_front(54) {
        return Err(());
    }
    x.stat_inc(STAT_SRV6_L2_DECAP);
    Ok(x.tag(t, XDP_META_MAGIC_L2, sid.vrf_id))
}

/// `End.Replicate`: the frame is left untouched and tagged for the TC
/// fan-out.
pub fn replicate_meta(t: &Tables, x: &mut Xdp) -> (r: Result<XdpAct, ()>)
    ensures
        (final(x)@, r) == hand_up(t, old(x)@, XDP_META_MAGIC_REPL, 0),
{
    Ok(x.tag(t, XDP_META_MAGIC_REPL, 0))
}

// ---------------------------------- End.M ------------------------------------

/// Outcome of `End.M`: the repair encapsulation removed and, when the exposed
/// destination is mirrored, the failed egress's own decapsulation reproduced.
#[verifier::opaque]
pub open spec fn mirrored(t: &Tables, x: XdpView, sid: LocalSid) -> Step {
    match inner_of(x.data) {
        Err(_) => (x, Err(())),
        Ok(None) => pass(x),
        Ok(Some((proto, strip))) => if proto != IPPROTO_IPV6 {
            pass(x)
        } else if x.data.len() < strip + 54 {
            (x, Err(()))
        } else {
            match lpm::matched(
                t.mirror@,
                tables::scoped(sid.vrf_id, bytes::oct16(x.data, strip + 38)@),
            ) {
                None => pass(x),
                Some(m) => table_decapped(
                    t,
                    decapped(x, strip, ETH_P_IPV6).0,
                    m.behavior,
                    m.vrf_id,
                    STAT_SRV6_ENDM,
                ),
            }
        },
    }
}

/// SRv6 `End.M` — the egress-protection mirror: the exposed packet is the
/// original service packet, still addressed to the failed PE's service SID.
/// Reproduce that PE's behavior locally: strip the repair encap, look the
/// exposed destination up in the mirror context, and on a DT-style hit run the
/// service decap into the local VRF — two decaps in one pass.
pub(crate) fn srv6_endm(t: &Tables, x: &mut Xdp, sid: &LocalSid) -> (r: Result<XdpAct, ()>)
    requires
        old(x)@.data.len() >= 54,
    ensures
        (final(x)@, r) == mirrored(t, old(x)@, *sid),
{
    reveal(mirrored);
    let (proto, strip) = match reach_inner(&x.data)? {
        Some(p) => p,
        None => {
            return Ok(XdpAct::Pass);
        },
    };
    if proto != IPPROTO_IPV6 {
        return Ok(XdpAct::Pass);
    }
    let exposed_da: [u8; 16] = bytes::ld16(&x.data, strip + IP6_DST_OFF)?;
    let key = tables::scoped_key(sid.vrf_id, exposed_da.as_slice());
    let ment: MirrorEntry = match t.mirror.get(key.as_slice()) {
        Some(m) => m,
        None => {
            return Ok(XdpAct::Pass);
        },
    };
    decap_head(x, strip, ETH_P_IPV6)?;
    decap_to_table(t, x, ment.behavior, ment.vrf_id, STAT_SRV6_ENDM)
}

// ------------------------------- micro-SIDs ----------------------------------

/// The destination after one NEXT-C-SID shift: the bytes after the block move
/// up by one micro-SID and zeros fill the tail. Only 16-bit micro-SIDs behind
/// a 16-, 32- or 48-bit block are handled.
pub open spec fn shifted(da: Seq<u8>, block_bits: u8, node_bits: u8) -> Option<Seq<u8>> {
    if node_bits == 16 && (block_bits == 16 || block_bits == 32 || block_bits == 48) {
        let b = block_bits as int / 8;
        Some(da.take(b) + da.skip(b + 2) + seq![0u8, 0u8])
    } else {
        None
    }
}

/// Outcome of shifting the micro-SID container in the destination.
pub open spec fn usid_shifted(x: XdpView, sid: LocalSid) -> (XdpView, bool) {
    match shifted(x.data.subrange(38, 54), sid.block_bits, sid.node_bits) {
        None => (x, false),
        Some(da) => (
            frame::stat(
                frame::with_data(x, bytes::splice(x.data, 38, da)),
                STAT_SRV6_USID,
            ),
            true,
        ),
    }
}

/// Shift the uSID container in the IPv6 DA left by one micro-SID: slide the
/// address bytes after the locator block up, exposing the next micro-SID right
/// after the block and zero-filling the tail. `true` if the shift was applied.
pub(crate) fn srv6_usid_shift(x: &mut Xdp, sid: &LocalSid) -> (r: bool)
    requires
        old(x)@.data.len() >= 54,
    ensures
        (final(x)@, r) == usid_shifted(old(x)@, *sid),
{
    if sid.node_bits != 16 || !(sid.block_bits == 16 || sid.block_bits == 32 || sid.block_bits
        == 48) {
        return false;
    }
    let ghost da = x@.data.subrange(38, 54);
    let b: usize = (sid.block_bits / 8) as usize;
    let mut nda: Vec<u8> = Vec::new();
    let mut i: usize = 0;
    while i < 14
        invariant
            i <= 14,
            b <= 6,
            x@.data.len() >= 54,
            da == x@.data.subrange(38, 54),
            nda@ == (da.take(b as int) + da.skip(b + 2)).take(i as int),
        decreases 14 - i,
    {
        let j: usize = if i < b {
            i
        } else {
            i + 2
        };
        nda.push(x.data[IP6_DST_OFF + j]);
        i += 1;
        assert(nda@ =~= (da.take(b as int) + da.skip(b + 2)).take(i as int));
    }
    nda.push(0);
    nda.push(0);
    assert(nda@ =~= da.take(b as int) + da.skip(b + 2) + seq![0u8, 0u8]);
    x.store(IP6_DST_OFF, nda.as_slice());
    x.stat_inc(STAT_SRV6_USID);
    true
}

/// Whether the micro-SID that a shift would expose is zero: the container is
/// exhausted.
pub open spec fn carrier_ends(da: Seq<u8>, sid: LocalSid) -> bool {
    let next = sid.block_bits as int / 8 + sid.node_bits as int / 8;
    next + 2 <= 16 && da[next] == 0 && da[next + 1] == 0
}

fn carrier_exhausted(d: &Vec<u8>, sid: &LocalSid) -> (r: bool)
    requires
        d@.len() >= 54,
    ensures
        r == carrier_ends(d@.subrange(38, 54), *sid),
{
    let next: usize = (sid.block_bits / 8) as usize + (sid.node_bits / 8) as usize;
    next + 2 <= 16 && d[IP6_DST_OFF + next] == 0 && d[IP6_DST_OFF + next + 1] == 0
}

/// Outcome of `uALib`: at the end of the carrier an `End.X` walk, else a
/// shift and the adjacency.
#[verifier::opaque]
pub open spec fn ua_forwarded(t: &Tables, x: XdpView, sid: LocalSid) -> Step {
    if carrier_ends(x.data.subrange(38, 54), sid) {
        ended(t, x, LocalSid { behavior: SRV6_BH_UA, ..sid })
    } else {
        let (x1, done) = usid_shifted(x, sid);
        if done {
            adjacency(t, x1, sid.nexthop_id)
        } else {
            pass(x1)
        }
    }
}

/// Outcome of `uN`: at the end of the carrier an `End` walk, else a shift —
/// and when that exposes one of this node's own adjacency micro-SIDs, that
/// one's forward.
#[verifier::opaque]
pub open spec fn un_forwarded(t: &Tables, x: XdpView, sid: LocalSid) -> Step {
    if carrier_ends(x.data.subrange(38, 54), sid) {
        ended(t, x, sid)
    } else {
        let x1 = usid_shifted(x, sid).0;
        match lpm::matched(t.srv6_localsid@, x1.data.subrange(38, 54)) {
            Some(next) if next.behavior == SRV6_BH_UALIB => ua_forwarded(t, x1, next),
            _ => pass(x1),
        }
    }
}

proof fn shift_keeps_len(x: XdpView, sid: LocalSid)
    requires
        x.data.len() >= 54,
    ensures
        usid_shifted(x, sid).0.data.len() == x.data.len(),
{
}

/// SRv6 uSID `uA` / `uALib` (NEXT-C-SID adjacency): shift the container, then
/// forward straight out the SID's cross-connect adjacency. At the end of the
/// carrier behave as classic End.X.
pub(crate) fn srv6_ua(t: &Tables, x: &mut Xdp, sid: &LocalSid) -> (r: Result<XdpAct, ()>)
    requires
        old(x)@.data.len() >= 54,
    ensures
        (final(x)@, r) == ua_forwarded(t, old(x)@, *sid),
{
    reveal(ua_forwarded);
    if carrier_exhausted(&x.data, sid) {
        let mut end: LocalSid = *sid;
        end.behavior = SRV6_BH_UA;
        return srv6_end(t, x, &end);
    }
    proof {
        shift_keeps_len(x@, *sid);
    }
    if !srv6_usid_shift(x, sid) {
        return Ok(XdpAct::Pass);
    }
    srv6_forward_adjacency(t, x, sid.nexthop_id)
}

/// SRv6 uSID `uN` (NEXT-C-SID node transit): shift the container and forward
/// by the new DA. At the end of the carrier behave as plain End. The shift may
/// expose one of THIS node's own adjacency micro-SIDs, so the new DA is
/// re-matched once.
pub(crate) fn srv6_un(t: &Tables, x: &mut Xdp, sid: &LocalSid) -> (r: Result<XdpAct, ()>)
    requires
        old(x)@.data.len() >= 54,
    ensures
        (final(x)@, r) == un_forwarded(t, old(x)@, *sid),
{
    reveal(un_forwarded);
    if carrier_exhausted(&x.data, sid) {
        return srv6_end(t, x, sid);
    }
    proof {
        shift_keeps_len(x@, *sid);
    }
    let _ = srv6_usid_shift(x, sid);
    let nda: [u8; 16] = bytes::ld16(&x.data, IP6_DST_OFF)?;
    assert(nda@ =~= x@.data.subrange(38, 54));
    match t.srv6_localsid.get(nda.as_slice()) {
        Some(next) => {
            if next.behavior == SRV6_BH_UALIB {
                return srv6_ua(t, x, &next);
            }
        },
        None => {},
    }
    Ok(XdpAct::Pass)
}

} // verus!
