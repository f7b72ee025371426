//! The local-SID dispatch of the XDP stage, and the binding SID.

use vstd::prelude::*;
use crate::bytes;
use crate::csid;
use crate::endpoint;
use crate::endpoint::Step;
use crate::frame;
use crate::frame::{Xdp, XdpAct, XdpView};
use crate::headers;
use crate::lpm;
use crate::tables::Tables;
use crate::types::{
    LocalSid, Srv6Encap, MAX_SEGS, SRV6_BH_END, SRV6_BH_END_B6, SRV6_BH_END_DT2M, SRV6_BH_END_DT2U,
    SRV6_BH_END_DT4, SRV6_BH_END_DT46, SRV6_BH_END_DT6, SRV6_BH_END_DX2, SRV6_BH_END_DX2V,
    SRV6_BH_END_DX4, SRV6_BH_END_DX6, SRV6_BH_END_M, SRV6_BH_END_REP, SRV6_BH_END_REPLICATE,
    SRV6_BH_END_T, SRV6_BH_END_X, SRV6_BH_END_X_REP, SRV6_BH_UA, SRV6_BH_UALIB, SRV6_BH_UN,
    SRV6_ENCAP_MODE_INSERT, STAT_SRV6_B6, STAT_SRV6_DECAP, XDP_META_MAGIC_REPL,
};
use crate::wire::{
    ETH_P_IPV6, IP6_DST_OFF, IP6_HOP_OFF, IP6_NEXTHDR_OFF, IPPROTO_IPV6, IPPROTO_ROUTING,
    SRH_LAST_ENTRY_OFF, SRH_OFF, SRH_SEGLIST_OFF, SRH_SL_OFF,
};

verus! {

// ------------------------------ End.B6.Encaps --------------------------------

/// Whether a received SRH can be walked: a live list of sane geometry
/// (`Err` when truncated).
pub open spec fn walkable(s: Seq<u8>) -> Result<bool, ()> {
    if s[20] != IPPROTO_ROUTING {
        Ok(false)
    } else if s.len() < 56 {
        Err(())
    } else if !(2 <= s[55] <= 12) {
        Ok(false)
    } else if s.len() < 58 {
        Err(())
    } else if s[57] == 0 || s[57] > MAX_SEGS {
        Ok(false)
    } else if s.len() < 59 {
        Err(())
    } else {
        Ok(s[58] <= s[55] as int / 2 - 1 && s[57] <= s[58] + 1 && s[21] > 1)
    }
}

/// The bound policy's segment list, when it can be imposed.
pub open spec fn bound_policy(t: &Tables, sid: LocalSid) -> Option<Srv6Encap> {
    match t.srv6_encap@.get(sid.nexthop_id) {
        Some(e) if 1 <= e.num_segs <= MAX_SEGS && e.mode != SRV6_ENCAP_MODE_INSERT => Some(e),
        _ => None,
    }
}

/// The new front of a bound frame: the Ethernet addresses and the policy's
/// outer headers over an inner packet of `inner` bytes.
pub open spec fn bound_front(t: &Tables, s: Seq<u8>, enc: Srv6Encap, inner: int) -> Seq<u8> {
    let n = enc.num_segs as int;
    s.take(12) + bytes::be16_bytes(ETH_P_IPV6) + headers::encaps_red(
        bytes::wrap16(inner + headers::red_srh_len(n)),
        IPPROTO_IPV6,
        t.srv6_encap_src,
        enc.segs,
        n,
    )
}

/// Outcome of `End.B6.Encaps`: the End steps on the received SRH, then the
/// policy's outer headers. Without headroom the walked packet continues
/// un-bound.
#[verifier::opaque]
pub open spec fn bound(t: &Tables, x: XdpView, sid: LocalSid) -> Step {
    let s = x.data;
    match walkable(s) {
        Err(_) => (x, Err(())),
        Ok(false) => endpoint::pass(x),
        Ok(true) => match bound_policy(t, sid) {
            None => endpoint::pass(x),
            Some(enc) => if s.len() < 62 + 16 * s[57] {
                (x, Err(()))
            } else {
                let d = endpoint::walked(s.update(21, (s[21] - 1) as u8), s[57] - 1);
                let x1 = frame::with_data(x, d);
                let n = enc.num_segs as int;
                if 40 + headers::red_srh_len(n) > x.headroom {
                    endpoint::pass(x1)
                } else {
                    endpoint::pass(
                        frame::stat(
                            frame::fronted(x1, 14, bound_front(t, d, enc, s.len() - 14)),
                            STAT_SRV6_B6,
                        ),
                    )
                }
            },
        },
    }
}

fn is_walkable(d: &Vec<u8>) -> (r: Result<bool, ()>)
    requires
        d@.len() >= 54,
    ensures
        r == walkable(d@),
        r == Ok::<bool, ()>(true) ==> d@.len() >= 59 && 1 <= d@[57] <= MAX_SEGS && d@[21] > 1,
{
    let outer_nh: u8 = bytes::ld8(d, IP6_NEXTHDR_OFF)?;
    if outer_nh != IPPROTO_ROUTING {
        return Ok(false);
    }
    let ext_len: u8 = bytes::ld8(d, SRH_OFF + 1)?;
    if ext_len < 2 || ext_len > 12 {
        return Ok(false);
    }
    let sl: u8 = bytes::ld8(d, SRH_SL_OFF)?;
    if sl == 0 || sl as usize > MAX_SEGS {
        return Ok(false);
    }
    let last_entry: u8 = bytes::ld8(d, SRH_LAST_ENTRY_OFF)?;
    let max_le: u8 = ext_len / 2 - 1;
    if last_entry > max_le || sl > last_entry + 1 {
        return Ok(false);
    }
    let hop: u8 = bytes::ld8(d, IP6_HOP_OFF)?;
    Ok(hop > 1)
}

/// SRv6 `End.B6.Encaps` — the Binding SID (RFC 8986 §4.13). Run the End steps
/// on the received SRH (hop-limit check + decrement, SL--, inner DA from
/// Segment List[new SL]) and then push a new outer IPv6 (+SRH) carrying the
/// bound SR Policy's segment list, in the Reduced form (§4.14). SL == 0 and
/// no-SRH arrivals go to the stack. The policy is validated before any packet
/// mutation.
pub(crate) fn srv6_b6_encaps(t: &Tables, x: &mut Xdp, sid: &LocalSid) -> (r: Result<XdpAct, ()>)
    requires
        old(x)@.data.len() >= 54,
    ensures
        (final(x)@, r) == bound(t, old(x)@, *sid),
{
    reveal(bound);
    if !is_walkable(&x.data)? {
        return Ok(XdpAct::Pass);
    }
    let enc: Srv6Encap = match t.srv6_encap.get(&sid.nexthop_id) {
        Some(e) => e,
        None => {
            return Ok(XdpAct::Pass);
        },
    };
    let n: usize = enc.num_segs as usize;
    if n == 0 || n > MAX_SEGS || enc.mode == SRV6_ENCAP_MODE_INSERT {
        return Ok(XdpAct::Pass);
    }
    let ghost s = x@.data;
    let new_sl: u8 = x.data[57] - 1;
    let hop: u8 = x.data[21];
    let o: usize = SRH_SEGLIST_OFF + 16 * new_sl as usize;
    let next_seg: [u8; 16] = bytes::ld16(&x.data, o)?;
    x.store8(IP6_HOP_OFF, hop - 1);
    x.store8(SRH_SL_OFF, new_sl);
    x.store(IP6_DST_OFF, next_seg.as_slice());
    let ghost d = x@.data;
    proof {
        assert(next_seg =~= bytes::oct16(s.update(21, (s[21] - 1) as u8), 62 + 16 * new_sl));
        assert(d =~= endpoint::walked(s.update(21, (s[21] - 1) as u8), s[57] - 1));
    }
    let srh_len: u16 = if n == 1 {
        0
    } else {
        8 + 16 * (n as u16 - 1)
    };
    let payload_len: u16 = bytes::len16(x.data.len(), 14, srh_len);
    let mut hdr: Vec<u8> = Vec::new();
    let a: [u8; 6] = bytes::ld6(&x.data, 0)?;
    let b: [u8; 6] = bytes::ld6(&x.data, 6)?;
    bytes::put_eth(&mut hdr, &a, &b, ETH_P_IPV6);
    let mut outer = headers::make_encaps_red(
        payload_len,
        IPPROTO_IPV6,
        &t.srv6_encap_src,
        &enc.segs,
        n,
    );
    proof {
        headers::header_lengths(
            payload_len,
            IPPROTO_IPV6,
            t.srv6_encap_src,
            enc.segs,
            n as int,
        );
    }
    hdr.append(&mut outer);
    assert(hdr@ =~= bound_front(t, d, enc, s.len() - 14));
    if !x.grow_front(14, hdr) {
        return Ok(XdpAct::Pass);
    }
    x.stat_inc(STAT_SRV6_B6);
    Ok(XdpAct::Pass)
}

// ------------------------------- dispatch ------------------------------------

/// Outcome of the behavior of a matched SID.
#[verifier::opaque]
pub open spec fn behaved(t: &Tables, x: XdpView, sid: LocalSid) -> Step {
    let b = sid.behavior;
    if b == SRV6_BH_END || b == SRV6_BH_END_X || b == SRV6_BH_UA || b == SRV6_BH_END_T {
        endpoint::ended(t, x, sid)
    } else if b == SRV6_BH_UN {
        endpoint::un_forwarded(t, x, sid)
    } else if b == SRV6_BH_UALIB {
        endpoint::ua_forwarded(t, x, sid)
    } else if b == SRV6_BH_END_REP || b == SRV6_BH_END_X_REP {
        csid::replaced(t, x, sid)
    } else if b == SRV6_BH_END_REPLICATE {
        endpoint::hand_up(t, x, XDP_META_MAGIC_REPL, 0)
    } else if b == SRV6_BH_END_DX4 || b == SRV6_BH_END_DX6 {
        endpoint::dx_decapped(t, x, sid)
    } else if b == SRV6_BH_END_DX2 || b == SRV6_BH_END_DX2V {
        endpoint::dx2_decapped(t, x, sid)
    } else if b == SRV6_BH_END_B6 {
        bound(t, x, sid)
    } else if b == SRV6_BH_END_DT2U || b == SRV6_BH_END_DT2M {
        endpoint::dt2_decapped(t, x, sid)
    } else if b == SRV6_BH_END_M {
        endpoint::mirrored(t, x, sid)
    } else if b == SRV6_BH_END_DT4 || b == SRV6_BH_END_DT6 || b == SRV6_BH_END_DT46 {
        endpoint::table_decapped(t, x, b, sid.vrf_id, STAT_SRV6_DECAP)
    } else {
        endpoint::pass(x)
    }
}

/// Outcome of the SRv6 stage: the behavior of the local SID the destination
/// matches; every other packet is handed up for normal forwarding.
#[verifier::opaque]
pub open spec fn srv6_staged(t: &Tables, x: XdpView) -> Step {
    if x.data.len() < 54 {
        (x, Err(()))
    } else {
        match lpm::matched(t.srv6_localsid@, bytes::oct16(x.data, 38)@) {
            None => endpoint::pass(x),
            Some(sid) => behaved(t, x, sid),
        }
    }
}

fn behave(t: &Tables, x: &mut Xdp, sid: &LocalSid) -> (r: Result<XdpAct, ()>)
    requires
        old(x)@.data.len() >= 54,
    ensures
        (final(x)@, r) == behaved(t, old(x)@, *sid),
{
    reveal(behaved);
    let b: u8 = sid.behavior;
    // uA is classic End.X at /128 (adjacency, SRH walk); uALib is the
    // compressed carrier form (shift + adjacency).
    if b == SRV6_BH_END || b == SRV6_BH_END_X || b == SRV6_BH_UA || b == SRV6_BH_END_T {
        endpoint::srv6_end(t, x, sid)
    } else if b == SRV6_BH_UN {
        endpoint::srv6_un(t, x, sid)
    } else if b == SRV6_BH_UALIB {
        endpoint::srv6_ua(t, x, sid)
    } else if b == SRV6_BH_END_REP || b == SRV6_BH_END_X_REP {
        csid::srv6_replace(t, x, sid)
    } else if b == SRV6_BH_END_REPLICATE {
        endpoint::replicate_meta(t, x)
    } else if b == SRV6_BH_END_DX4 || b == SRV6_BH_END_DX6 {
        endpoint::srv6_dx(t, x, sid)
    } else if b == SRV6_BH_END_DX2 || b == SRV6_BH_END_DX2V {
        endpoint::srv6_dx2(t, x, sid)
    } else if b == SRV6_BH_END_B6 {
        srv6_b6_encaps(t, x, sid)
    } else if b == SRV6_BH_END_DT2U || b == SRV6_BH_END_DT2M {
        endpoint::srv6_dt2u(t, x, sid)
    } else if b == SRV6_BH_END_M {
        endpoint::srv6_endm(t, x, sid)
    } else if b == SRV6_BH_END_DT4 || b == SRV6_BH_END_DT6 || b == SRV6_BH_END_DT46 {
        endpoint::decap_to_table(t, x, b, sid.vrf_id, STAT_SRV6_DECAP)
    } else {
        Ok(XdpAct::Pass)
    }
}

/// The SRv6 stage: run the behavior of the local SID the outer IPv6
/// destination matches.
pub fn try_srv6_xdp(t: &Tables, x: &mut Xdp) -> (r: Result<XdpAct, ()>)
    ensures
        (final(x)@, r) == srv6_staged(t, old(x)@),
{
    reveal(srv6_staged);
    let dst: [u8; 16] = bytes::ld16(&x.data, IP6_DST_OFF)?;
    match t.srv6_localsid.get(dst.as_slice()) {
        Some(sid) => behave(t, x, &sid),
        None => Ok(XdpAct::Pass),
    }
}

// -------------------------------- laws --------------------------------------

/// A packet to no local SID is not touched.
pub proof fn transit_is_untouched(t: &Tables, x: XdpView)
    requires
        x.data.len() >= 54,
        lpm::matched(t.srv6_localsid@, bytes::oct16(x.data, 38)@) is None,
    ensures
        srv6_staged(t, x) == endpoint::pass(x),
{
    reveal(srv6_staged);
}

/// Decapsulation undoes encapsulation: removing the outer header (and SRH) of
/// an H.Encaps.Red layer gives the inner packet back, behind the frame's
/// Ethernet addresses and the inner EtherType.
pub proof fn decap_undoes_encap(
    x: XdpView,
    eth: Seq<u8>,
    inner: Seq<u8>,
    payload_len: u16,
    proto: u8,
    src: [u8; 16],
    segs: [[u8; 16]; MAX_SEGS],
    n: int,
    ethertype: u16,
)
    requires
        eth.len() == 14,
        1 <= n <= MAX_SEGS,
        x.data == eth + headers::encaps_red(payload_len, proto, src, segs, n) + inner,
    ensures
        endpoint::decapped(x, 40 + headers::red_srh_len(n), ethertype) == (
            frame::with_data(x, eth.take(12) + bytes::be16_bytes(ethertype) + inner),
            Ok::<(), ()>(()),
        ),
{
    headers::header_lengths(payload_len, proto, src, segs, n);
    let strip = 40 + headers::red_srh_len(n);
    assert(x.data.skip(strip + 14) =~= inner);
    assert(x.data.take(12) =~= eth.take(12));
}

/// The End walk follows the segment list: with `Segments Left` `sl`, the new
/// destination is list entry `sl - 1` and the counter is one less.
pub proof fn end_takes_next_segment(s: Seq<u8>, sl: int)
    requires
        1 <= sl <= MAX_SEGS,
        s.len() >= 62 + 16 * sl,
    ensures
        endpoint::walked(s, sl - 1)[57] == sl - 1,
        endpoint::walked(s, sl - 1).subrange(38, 54) == s.subrange(
            62 + 16 * (sl - 1),
            62 + 16 * sl,
        ),
        endpoint::walked(s, sl - 1).len() == s.len(),
{
    assert(endpoint::walked(s, sl - 1).subrange(38, 54) =~= s.subrange(
        62 + 16 * (sl - 1),
        62 + 16 * sl,
    ));
}

/// A shifted micro-SID container keeps its block and length, and the next
/// micro-SID becomes the active one.
pub proof fn shift_activates_next(da: Seq<u8>, block_bits: u8)
    requires
        da.len() == 16,
        block_bits == 16 || block_bits == 32 || block_bits == 48,
    ensures
        ({
            let b = block_bits as int / 8;
            let n = endpoint::shifted(da, block_bits, 16)->0;
            &&& endpoint::shifted(da, block_bits, 16) is Some
            &&& n.len() == 16
            &&& n.take(b) == da.take(b)
            &&& n.subrange(b, b + 2) == da.subrange(b + 2, b + 4)
        }),
{
    let b = block_bits as int / 8;
    let n = endpoint::shifted(da, block_bits, 16)->0;
    assert(n.take(b) =~= da.take(b));
    assert(n.subrange(b, b + 2) =~= da.subrange(b + 2, b + 4));
}

} // verus!
