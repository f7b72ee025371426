//! SRv6 `End` / `End.X` with REPLACE-C-SID (RFC 9800 §4.2).
//!
//! The destination is Block | C-SID | Argument, the argument's last bits
//! indexing the active C-SID within the packed container at
//! `Segment List[SL]`.

use vstd::prelude::*;
use crate::bytes;
use crate::endpoint;
use crate::endpoint::Step;
use crate::frame;
use crate::frame::{Xdp, XdpAct, XdpView};
use crate::lpm;
use crate::tables::Tables;
use crate::types::{
    LocalSid, MAX_SEGS, SRV6_BH_END_REP, SRV6_BH_END_X_REP, SRV6_FLAVOR_PSP, SRV6_FLAVOR_USD,
    SRV6_FLAVOR_USP, STAT_SRV6_PSP, STAT_SRV6_REPLACE, STAT_SRV6_USD, STAT_SRV6_USP,
};
use crate::wire::{
    IP6_DST_OFF, IP6_HDR_LEN, IP6_NEXTHDR_OFF, IPPROTO_IPIP, IPPROTO_IPV6, IPPROTO_ROUTING,
    SRH_LAST_ENTRY_OFF, SRH_OFF, SRH_SEGLIST_OFF, SRH_SL_OFF,
};
use crate::wire::{ETH_P_IP, ETH_P_IPV6};

verus! {

/// Outcome of one pass: a final verdict, or "the rewritten destination may be
/// served by this same node — look it up and run again".
#[derive(Clone, Copy, Debug, PartialEq, Eq)]
pub enum ReplaceStep {
    Act(XdpAct),
    Redispatch,
}

/// State and outcome of one pass.
pub type Pass = (XdpView, Result<ReplaceStep, ()>);

/// A pass that ends with the frame handed up.
pub open spec fn up(x: XdpView) -> Pass {
    (x, Ok(ReplaceStep::Act(XdpAct::Pass)))
}

/// A behavior's outcome as that of a pass.
pub open spec fn acted(s: Step) -> Pass {
    (
        s.0,
        match s.1 {
            Ok(a) => Ok(ReplaceStep::Act(a)),
            Err(_) => Err(()),
        },
    )
}

/// C-SID positions per container: 4 of 32 bits or 8 of 16 bits; 0 for any
/// other width.
pub open spec fn positions(sid: LocalSid) -> int {
    let bits = sid.node_bits + sid.fun_bits;
    if bits == 32 {
        4
    } else if bits == 16 {
        8
    } else {
        0
    }
}

/// Whether the SID's geometry is handled: a known C-SID width, a byte-aligned
/// block, and the C-SID clear of the index bits in the last byte.
pub open spec fn handled(sid: LocalSid) -> bool {
    &&& positions(sid) != 0
    &&& sid.block_bits % 8 == 0
    &&& sid.block_bits + sid.node_bits + sid.fun_bits <= 120
}

/// The C-SID at position `pos` of the container `Segment List[idx]`, for `k`
/// positions per container; `Err` past the frame.
pub open spec fn csid_at(s: Seq<u8>, idx: int, pos: int, k: int) -> Result<u32, ()> {
    let entry = 62 + 16 * idx;
    if k == 4 {
        if s.len() < entry + 4 * pos + 4 {
            Err(())
        } else {
            Ok(bytes::be32(s, entry + 4 * pos))
        }
    } else {
        if s.len() < entry + 2 * pos + 2 {
            Err(())
        } else {
            Ok(bytes::be16(s, entry + 2 * pos) as u32)
        }
    }
}

/// The wire form of a C-SID.
pub open spec fn csid_bytes(csid: u32, k: int) -> Seq<u8> {
    if k == 4 {
        bytes::be32_bytes(csid)
    } else {
        bytes::be16_bytes(csid as u16)
    }
}

/// The frame with the C-SID bits of its destination rewritten and the index
/// argument set to `nidx`; block and the rest of the argument stay.
pub open spec fn rewritten(s: Seq<u8>, sid: LocalSid, csid: u32, nidx: int) -> Seq<u8> {
    let k = positions(sid);
    bytes::splice(s, 38 + sid.block_bits as int / 8, csid_bytes(csid, k)).update(
        53,
        (s[53] - s[53] % (k as u8) + nidx) as u8,
    )
}

/// The SRH removed after a rewrite when `pop` holds (`Err` is a truncated
/// container), then the SID's forward.
pub open spec fn finish(t: &Tables, x: XdpView, sid: LocalSid, pop: Result<bool, ()>) -> Pass {
    match pop {
        Err(_) => (x, Err(())),
        Ok(p) => {
            let (x1, r) = if p {
                endpoint::popped_then(x, STAT_SRV6_PSP)
            } else {
                (x, Ok(()))
            };
            if r is Err {
                (x1, Err(()))
            } else if sid.behavior == SRV6_BH_END_X_REP {
                acted(endpoint::adjacency(t, x1, sid.nexthop_id))
            } else {
                up(x1)
            }
        },
    }
}

/// Whether position `pos` of the last container is zero padding.
pub open spec fn is_padding(s: Seq<u8>, pos: int, k: int) -> Result<bool, ()> {
    match csid_at(s, 0, pos, k) {
        Ok(v) => Ok(v == 0),
        Err(_) => Err(()),
    }
}

/// Outcome at the ultimate segment: USD first, then USP, then plain delivery —
/// `End` only.
#[verifier::opaque]
pub open spec fn delivered(x: XdpView, sid: LocalSid) -> Pass {
    let s = x.data;
    let end = sid.behavior != SRV6_BH_END_X_REP;
    if sid.flavors & SRV6_FLAVOR_USD != 0 && end && endpoint::inner_ethertype(s[54]) is Some {
        let (x1, r) = endpoint::decapped(
            x,
            40 + endpoint::srh_bytes(s[55]),
            endpoint::inner_ethertype(s[54])->0,
        );
        if r is Err {
            (x1, Err(()))
        } else {
            up(frame::stat(x1, STAT_SRV6_USD))
        }
    } else if sid.flavors & SRV6_FLAVOR_USP != 0 && end {
        let (x1, r) = endpoint::popped_then(x, STAT_SRV6_USP);
        if r is Err {
            (x1, Err(()))
        } else {
            up(x1)
        }
    } else {
        up(x)
    }
}

/// Outcome of loading the next list entry as the whole destination: a zero
/// position ends the container early.
#[verifier::opaque]
pub open spec fn loaded(x: XdpView, sid: LocalSid) -> Pass {
    let s = x.data;
    if s[57] == 0 {
        up(x)
    } else if s.len() < 62 + 16 * s[57] {
        (x, Err(()))
    } else {
        let x1 = frame::stat(
            frame::with_data(x, endpoint::walked(s, s[57] - 1)),
            STAT_SRV6_REPLACE,
        );
        if s[57] == 1 && sid.flavors & SRV6_FLAVOR_PSP != 0 {
            let (x2, r) = endpoint::popped_then(x1, STAT_SRV6_PSP);
            if r is Err {
                (x2, Err(()))
            } else {
                (x2, Ok(ReplaceStep::Redispatch))
            }
        } else {
            (x1, Ok(ReplaceStep::Redispatch))
        }
    }
}

/// Outcome of consuming the next position of the current container (index
/// `idx` not 0).
#[verifier::opaque]
pub open spec fn next_position(t: &Tables, x: XdpView, sid: LocalSid, idx: int) -> Pass {
    let s = x.data;
    let k = positions(sid);
    let sl = s[57] as int;
    if s[58] > s[55] as int / 2 - 1 || sl > s[58] {
        up(x)
    } else {
        match csid_at(s, sl, idx - 1, k) {
            Err(_) => (x, Err(())),
            Ok(csid) => if csid == 0 {
                loaded(x, sid)
            } else {
                let x1 = frame::stat(
                    frame::with_data(x, rewritten(s, sid, csid, idx - 1)),
                    STAT_SRV6_REPLACE,
                );
                finish(
                    t,
                    x1,
                    sid,
                    if sl == 0 && sid.flavors & SRV6_FLAVOR_PSP != 0 {
                        if idx == 1 {
                            Ok(true)
                        } else {
                            is_padding(x1.data, idx - 2, k)
                        }
                    } else {
                        Ok(false)
                    },
                )
            },
        }
    }
}

/// Outcome of advancing to the next container (index 0): restart at its last
/// position.
#[verifier::opaque]
pub open spec fn next_container(t: &Tables, x: XdpView, sid: LocalSid) -> Pass {
    let s = x.data;
    let k = positions(sid);
    let sl = s[57] as int;
    if s[58] > s[55] as int / 2 - 1 || sl > s[58] + 1 || sl == 0 {
        up(x)
    } else {
        match csid_at(s, sl - 1, k - 1, k) {
            Err(_) => (x, Err(())),
            Ok(csid) => {
                let x1 = frame::stat(
                    frame::with_data(
                        x,
                        rewritten(s.update(57, (sl - 1) as u8), sid, csid, k - 1),
                    ),
                    STAT_SRV6_REPLACE,
                );
                finish(
                    t,
                    x1,
                    sid,
                    if sl == 1 && sid.flavors & SRV6_FLAVOR_PSP != 0 {
                        is_padding(x1.data, k - 2, k)
                    } else {
                        Ok(false)
                    },
                )
            },
        }
    }
}

/// Whether the destination holds the last C-SID of the last container.
pub open spec fn at_ultimate(s: Seq<u8>, idx: int, k: int) -> Result<bool, ()> {
    if s[57] != 0 {
        Ok(false)
    } else if idx == 0 {
        Ok(true)
    } else if s[55] < 2 {
        Ok(false)
    } else {
        is_padding(s, idx - 1, k)
    }
}

/// Outcome of one REPLACE-C-SID pass.
#[verifier::opaque]
pub open spec fn replaced_once(t: &Tables, x: XdpView, sid: LocalSid) -> Pass {
    let s = x.data;
    let k = positions(sid);
    if !handled(sid) {
        up(x)
    } else if s[20] != IPPROTO_ROUTING {
        if sid.flavors & SRV6_FLAVOR_USD != 0 && sid.behavior != SRV6_BH_END_X_REP
            && endpoint::inner_ethertype(s[20]) is Some {
            let (x1, r) = endpoint::decapped(x, 40, endpoint::inner_ethertype(s[20])->0);
            if r is Err {
                (x1, Err(()))
            } else {
                up(frame::stat(x1, STAT_SRV6_USD))
            }
        } else {
            up(x)
        }
    } else if s.len() < 56 {
        (x, Err(()))
    } else if s[55] > 12 {
        up(x)
    } else if s.len() < 58 {
        (x, Err(()))
    } else {
        let idx = s[53] as int % k;
        match at_ultimate(s, idx, k) {
            Err(_) => (x, Err(())),
            Ok(true) => delivered(x, sid),
            Ok(false) => if s[55] < 2 || s[57] > MAX_SEGS {
                up(x)
            } else if s.len() < 59 {
                (x, Err(()))
            } else if idx != 0 {
                next_position(t, x, sid, idx)
            } else {
                next_container(t, x, sid)
            },
        }
    }
}

/// Outcome of the behavior: at most one re-dispatch to another
/// REPLACE-C-SID of this node.
#[verifier::opaque]
pub open spec fn replaced(t: &Tables, x: XdpView, sid: LocalSid) -> Step {
    let (x1, r) = replaced_once(t, x, sid);
    match r {
        Err(_) => (x1, Err(())),
        Ok(ReplaceStep::Act(a)) => (x1, Ok(a)),
        Ok(ReplaceStep::Redispatch) => match lpm::matched(
            t.srv6_localsid@,
            x1.data.subrange(38, 54),
        ) {
            Some(n) if n.behavior == SRV6_BH_END_REP || n.behavior == SRV6_BH_END_X_REP => {
                let (x2, r2) = replaced_once(t, x1, n);
                match r2 {
                    Err(_) => (x2, Err(())),
                    Ok(ReplaceStep::Act(a)) => (x2, Ok(a)),
                    Ok(ReplaceStep::Redispatch) => second_redispatch(t, x2, n),
                }
            },
            _ => served_elsewhere(t, x1, sid),
        },
    }
}

/// The loaded SID is not served here: finish this SID's forward.
pub open spec fn served_elsewhere(t: &Tables, x: XdpView, sid: LocalSid) -> Step {
    if sid.behavior == SRV6_BH_END_X_REP {
        endpoint::adjacency(t, x, sid.nexthop_id)
    } else {
        endpoint::pass(x)
    }
}

/// After the second pass no third is made: a SID served here is handed up,
/// another is forwarded.
pub open spec fn second_redispatch(t: &Tables, x: XdpView, sid: LocalSid) -> Step {
    match lpm::matched(t.srv6_localsid@, x.data.subrange(38, 54)) {
        Some(n) if n.behavior == SRV6_BH_END_REP || n.behavior == SRV6_BH_END_X_REP => {
            endpoint::pass(x)
        },
        _ => served_elsewhere(t, x, sid),
    }
}

/// Read the C-SID at position `pos` of the packed container
/// `Segment List[sl_idx]`; 16-bit C-SIDs zero-extend.
pub(crate) fn replace_pos(d: &Vec<u8>, sl_idx: u8, pos: u8, k: u8) -> (r: Result<u32, ()>)
    requires
        sl_idx < 8,
        pos < k,
        k == 4 || k == 8,
    ensures
        r == csid_at(d@, sl_idx as int, pos as int, k as int),
{
    let entry: usize = SRH_SEGLIST_OFF + 16 * sl_idx as usize;
    if k == 4 {
        bytes::ld_be32(d, entry + 4 * pos as usize)
    } else {
        match bytes::ld_be16(d, entry + 2 * pos as usize) {
            Ok(v) => Ok(v as u32),
            Err(_) => Err(()),
        }
    }
}

fn padding_at(d: &Vec<u8>, pos: u8, k: u8) -> (r: Result<bool, ()>)
    requires
        pos < k,
        k == 4 || k == 8,
    ensures
        r == is_padding(d@, pos as int, k as int),
{
    match replace_pos(d, 0, pos, k) {
        Ok(v) => Ok(v == 0),
        Err(_) => Err(()),
    }
}

/// Write a C-SID into the DA bits after the block and set the index argument —
/// Block and the rest of the Argument stay.
pub(crate) fn write_csid(x: &mut Xdp, sid: &LocalSid, csid: u32, nidx: u8, k: u8)
    requires
        old(x)@.data.len() >= 54,
        handled(*sid),
        k == positions(*sid),
        nidx < k,
    ensures
        final(x)@ == frame::with_data(
            old(x)@,
            rewritten(old(x)@.data, *sid, csid, nidx as int),
        ),
{
    let off: usize = IP6_DST_OFF + (sid.block_bits / 8) as usize;
    let da15: u8 = x.data[53];
    if k == 4 {
        let b = bytes::to_be32(csid);
        x.store(off, b.as_slice());
    } else {
        let b = bytes::to_be16(csid as u16);
        x.store(off, b.as_slice());
    }
    x.store8(53, da15 - da15 % k + nidx);
}

fn deliver(x: &mut Xdp, sid: &LocalSid) -> (r: Result<ReplaceStep, ()>)
    requires
        old(x)@.data.len() >= 58,
        old(x)@.data[55] <= 12,
    ensures
        (final(x)@, r) == delivered(old(x)@, *sid),
        r != Ok::<ReplaceStep, ()>(ReplaceStep::Redispatch),
{
    reveal(delivered);
    let end: bool = sid.behavior != SRV6_BH_END_X_REP;
    if sid.flavors & SRV6_FLAVOR_USD != 0 && end {
        let srh_nh: u8 = x.data[54];
        let ext_len: u8 = x.data[55];
        let strip: usize = IP6_HDR_LEN + 8 * (ext_len as usize + 1);
        if srh_nh == IPPROTO_IPIP {
            endpoint::decap_head(x, strip, ETH_P_IP)?;
            x.stat_inc(STAT_SRV6_USD);
            return Ok(ReplaceStep::Act(XdpAct::Pass));
        }
        if srh_nh == IPPROTO_IPV6 {
            endpoint::decap_head(x, strip, ETH_P_IPV6)?;
            x.stat_inc(STAT_SRV6_USD);
            return Ok(ReplaceStep::Act(XdpAct::Pass));
        }
    }
    if sid.flavors & SRV6_FLAVOR_USP != 0 && end {
        endpoint::pop_srh(x)?;
        x.stat_inc(STAT_SRV6_USP);
    }
    Ok(ReplaceStep::Act(XdpAct::Pass))
}

fn finish_pass(t: &Tables, x: &mut Xdp, sid: &LocalSid, pop: bool) -> (r: Result<ReplaceStep, ()>)
    requires
        old(x)@.data.len() >= 54,
    ensures
        (final(x)@, r) == finish(t, old(x)@, *sid, Ok(pop)),
{
    if pop {
        endpoint::pop_srh(x)?;
        x.stat_inc(STAT_SRV6_PSP);
    }
    if sid.behavior == SRV6_BH_END_X_REP {
        let a = endpoint::srv6_forward_adjacency(t, x, sid.nexthop_id)?;
        return Ok(ReplaceStep::Act(a));
    }
    Ok(ReplaceStep::Act(XdpAct::Pass))
}

fn load_next(x: &mut Xdp, sid: &LocalSid) -> (r: Result<ReplaceStep, ()>)
    requires
        old(x)@.data.len() >= 59,
        old(x)@.data[57] <= MAX_SEGS,
    ensures
        (final(x)@, r) == loaded(old(x)@, *sid),
        r is Ok ==> final(x)@.data.len() >= 54,
{
    reveal(loaded);
    let sl: u8 = x.data[57];
    if sl == 0 {
        return Ok(ReplaceStep::Act(XdpAct::Pass));
    }
    let new_sl: u8 = sl - 1;
    let o: usize = SRH_SEGLIST_OFF + 16 * new_sl as usize;
    let seg: [u8; 16] = bytes::ld16(&x.data, o)?;
    x.store8(SRH_SL_OFF, new_sl);
    x.store(IP6_DST_OFF, seg.as_slice());
    x.stat_inc(STAT_SRV6_REPLACE);
    if new_sl == 0 && sid.flavors & SRV6_FLAVOR_PSP != 0 {
        endpoint::pop_srh(x)?;
        x.stat_inc(STAT_SRV6_PSP);
    }
    Ok(ReplaceStep::Redispatch)
}

fn take_position(t: &Tables, x: &mut Xdp, sid: &LocalSid, idx: u8, k: u8) -> (r: Result<
    ReplaceStep,
    (),
>)
    requires
        old(x)@.data.len() >= 59,
        handled(*sid),
        k == positions(*sid),
        0 < idx < k,
        2 <= old(x)@.data[55] <= 12,
        old(x)@.data[57] <= MAX_SEGS,
    ensures
        (final(x)@, r) == next_position(t, old(x)@, *sid, idx as int),
        r == Ok::<ReplaceStep, ()>(ReplaceStep::Redispatch) ==> final(x)@.data.len() >= 54,
{
    reveal(next_position);
    let ext_len: u8 = x.data[55];
    let sl: u8 = x.data[57];
    let last_entry: u8 = x.data[SRH_LAST_ENTRY_OFF];
    let max_le: u8 = ext_len / 2 - 1;
    if last_entry > max_le || sl > last_entry {
        return Ok(ReplaceStep::Act(XdpAct::Pass));
    }
    let nidx: u8 = idx - 1;
    let csid: u32 = replace_pos(&x.data, sl, nidx, k)?;
    if csid == 0 {
        return load_next(x, sid);
    }
    write_csid(x, sid, csid, nidx, k);
    x.stat_inc(STAT_SRV6_REPLACE);
    let pop: bool = if sl == 0 && sid.flavors & SRV6_FLAVOR_PSP != 0 {
        if nidx == 0 {
            true
        } else {
            padding_at(&x.data, nidx - 1, k)?
        }
    } else {
        false
    };
    finish_pass(t, x, sid, pop)
}

fn take_container(t: &Tables, x: &mut Xdp, sid: &LocalSid, k: u8) -> (r: Result<ReplaceStep, ()>)
    requires
        old(x)@.data.len() >= 59,
        handled(*sid),
        k == positions(*sid),
        2 <= old(x)@.data[55] <= 12,
        old(x)@.data[57] <= MAX_SEGS,
    ensures
        (final(x)@, r) == next_container(t, old(x)@, *sid),
        r != Ok::<ReplaceStep, ()>(ReplaceStep::Redispatch),
{
    reveal(next_container);
    let ext_len: u8 = x.data[55];
    let sl: u8 = x.data[57];
    let last_entry: u8 = x.data[SRH_LAST_ENTRY_OFF];
    let max_le: u8 = ext_len / 2 - 1;
    if last_entry > max_le || sl > last_entry + 1 || sl == 0 {
        return Ok(ReplaceStep::Act(XdpAct::Pass));
    }
    let new_sl: u8 = sl - 1;
    let nidx: u8 = k - 1;
    let csid: u32 = replace_pos(&x.data, new_sl, nidx, k)?;
    x.store8(SRH_SL_OFF, new_sl);
    write_csid(x, sid, csid, nidx, k);
    x.stat_inc(STAT_SRV6_REPLACE);
    let pop: bool = if new_sl == 0 && sid.flavors & SRV6_FLAVOR_PSP != 0 {
        padding_at(&x.data, nidx - 1, k)?
    } else {
        false
    };
    finish_pass(t, x, sid, pop)
}

/// A single REPLACE-C-SID endpoint pass — see [`srv6_replace`].
pub(crate) fn srv6_replace_once(t: &Tables, x: &mut Xdp, sid: &LocalSid) -> (r: Result<ReplaceStep, ()>)
    requires
        old(x)@.data.len() >= 54,
    ensures
        (final(x)@, r) == replaced_once(t, old(x)@, *sid),
        r == Ok::<ReplaceStep, ()>(ReplaceStep::Redispatch) ==> final(x)@.data.len() >= 54,
{
    reveal(replaced_once);
    let bits: u16 = sid.node_bits as u16 + sid.fun_bits as u16;
    let k: u8 = if bits == 32 {
        4
    } else if bits == 16 {
        8
    } else {
        return Ok(ReplaceStep::Act(XdpAct::Pass));
    };
    if sid.block_bits % 8 != 0 || sid.block_bits as u16 + bits > 120 {
        return Ok(ReplaceStep::Act(XdpAct::Pass));
    }
    let outer_nh: u8 = bytes::ld8(&x.data, IP6_NEXTHDR_OFF)?;
    if outer_nh != IPPROTO_ROUTING {
        if sid.flavors & SRV6_FLAVOR_USD != 0 && sid.behavior != SRV6_BH_END_X_REP {
            if outer_nh == IPPROTO_IPIP {
                endpoint::decap_head(x, IP6_HDR_LEN, ETH_P_IP)?;
                x.stat_inc(STAT_SRV6_USD);
            } else if outer_nh == IPPROTO_IPV6 {
                endpoint::decap_head(x, IP6_HDR_LEN, ETH_P_IPV6)?;
                x.stat_inc(STAT_SRV6_USD);
            }
        }
        return Ok(ReplaceStep::Act(XdpAct::Pass));
    }
    let ext_len: u8 = bytes::ld8(&x.data, SRH_OFF + 1)?;
    if ext_len > 12 {
        return Ok(ReplaceStep::Act(XdpAct::Pass));
    }
    let sl: u8 = bytes::ld8(&x.data, SRH_SL_OFF)?;
    let idx: u8 = bytes::ld8(&x.data, 53)? % k;
    let ultimate: bool = if sl != 0 {
        false
    } else if idx == 0 {
        true
    } else if ext_len < 2 {
        false
    } else {
        padding_at(&x.data, idx - 1, k)?
    };
    if ultimate {
        return deliver(x, sid);
    }
    if ext_len < 2 || sl as usize > MAX_SEGS {
        return Ok(ReplaceStep::Act(XdpAct::Pass));
    }
    if x.data.len() < 59 {
        return Err(());
    }
    if idx != 0 {
        take_position(t, x, sid, idx, k)
    } else {
        take_container(t, x, sid, k)
    }
}

fn is_replace(behavior: u8) -> (r: bool)
    ensures
        r == (behavior == SRV6_BH_END_REP || behavior == SRV6_BH_END_X_REP),
{
    behavior == SRV6_BH_END_REP || behavior == SRV6_BH_END_X_REP
}

fn serve_elsewhere(t: &Tables, x: &mut Xdp, sid: &LocalSid) -> (r: Result<XdpAct, ()>)
    requires
        old(x)@.data.len() >= 54,
    ensures
        (final(x)@, r) == served_elsewhere(t, old(x)@, *sid),
{
    if sid.behavior == SRV6_BH_END_X_REP {
        return endpoint::srv6_forward_adjacency(t, x, sid.nexthop_id);
    }
    Ok(XdpAct::Pass)
}

fn own_sid(t: &Tables, d: &Vec<u8>) -> (r: Option<LocalSid>)
    requires
        d@.len() >= 54,
    ensures
        r == lpm::matched(t.srv6_localsid@, d@.subrange(38, 54)),
{
    match bytes::ld16(d, IP6_DST_OFF) {
        Ok(da) => {
            assert(da@ =~= d@.subrange(38, 54));
            t.srv6_localsid.get(da.as_slice())
        },
        Err(_) => None,
    }
}

/// SRv6 `End` / `End.X` with REPLACE-C-SID. Non-zero index: decrement it and
/// rewrite only the C-SID bits of the DA from the container; a zero position
/// there means the container ended early and the *next* list entry — a full
/// 128-bit SID — becomes the DA wholesale. Index zero: advance to the next
/// container. PSP composes at both rewrite points (last C-SID of the last
/// container — position 0 or zero padding next); USP/USD apply at the ultimate
/// segment, End only. Malformed geometry or bounds hand the frame up.
///
/// The full-DA load can land on a SID of this very node, so it re-dispatches
/// once.
pub(crate) fn srv6_replace(t: &Tables, x: &mut Xdp, sid: &LocalSid) -> (r: Result<XdpAct, ()>)
    requires
        old(x)@.data.len() >= 54,
    ensures
        (final(x)@, r) == replaced(t, old(x)@, *sid),
{
    reveal(replaced);
    match srv6_replace_once(t, x, sid)? {
        ReplaceStep::Act(a) => Ok(a),
        ReplaceStep::Redispatch => {
            match own_sid(t, &x.data) {
                Some(n) => {
                    if !is_replace(n.behavior) {
                        return serve_elsewhere(t, x, sid);
                    }
                    match srv6_replace_once(t, x, &n)? {
                        ReplaceStep::Act(a) => Ok(a),
                        ReplaceStep::Redispatch => {
                            match own_sid(t, &x.data) {
                                Some(m) => {
                                    if is_replace(m.behavior) {
                                        Ok(XdpAct::Pass)
                                    } else {
                                        serve_elsewhere(t, x, &n)
                                    }
                                },
                                None => serve_elsewhere(t, x, &n),
                            }
                        },
                    }
                },
                None => serve_elsewhere(t, x, sid),
            }
        },
    }
}

// -------------------------------- laws --------------------------------------

/// A rewrite touches only the C-SID and the index: the block, the rest of the
/// argument, and every byte outside the destination stay.
pub proof fn rewrite_keeps_block(s: Seq<u8>, sid: LocalSid, csid: u32, nidx: int)
    requires
        s.len() >= 54,
        handled(sid),
        0 <= nidx < positions(sid),
    ensures
        ({
            let d = rewritten(s, sid, csid, nidx);
            let from = 38 + sid.block_bits as int / 8;
            let to = from + (if positions(sid) == 4 { 4int } else { 2 });
            &&& d.len() == s.len()
            &&& forall|i: int|
                0 <= i < s.len() && !(from <= i < to) && i != 53 ==> #[trigger] d[i] == s[i]
            &&& d[53] as int / positions(sid) == s[53] as int / positions(sid)
            &&& d[53] as int % positions(sid) == nidx
        }),
{
}

/// Whether the destination of `s` names `csid` as the active C-SID of `sid` and
/// the index `nidx`, under the block of `was` and with the rest of its argument.
pub open spec fn activated(was: Seq<u8>, s: Seq<u8>, sid: LocalSid, csid: u32, nidx: int) -> bool {
    let k = positions(sid);
    let from = 38 + sid.block_bits as int / 8;
    &&& s.len() >= 54
    &&& if k == 4 {
        bytes::be32(s, from) == csid
    } else {
        bytes::be16(s, from) == csid
    }
    &&& s[53] as int % k == nidx
    &&& s[53] as int / k == was[53] as int / k
    &&& forall|i: int| 38 <= i < from ==> #[trigger] s[i] == was[i]
}

proof fn rewrite_activates(s: Seq<u8>, sid: LocalSid, csid: u32, nidx: int)
    requires
        s.len() >= 54,
        handled(sid),
        0 <= nidx < positions(sid),
        positions(sid) == 8 ==> csid < 0x1_0000,
    ensures
        activated(s, rewritten(s, sid, csid, nidx), sid, csid, nidx),
{
    let d = rewritten(s, sid, csid, nidx);
    let from = 38 + sid.block_bits as int / 8;
    rewrite_keeps_block(s, sid, csid, nidx);
    if positions(sid) == 4 {
        let b = bytes::be32_bytes(csid);
        bytes::be32_round_trip(csid);
        assert(d[from] == b[0] && d[from + 1] == b[1] && d[from + 2] == b[2] && d[from + 3]
            == b[3]);
    } else {
        let b = bytes::be16_bytes(csid as u16);
        bytes::be16_round_trip(csid as u16);
        assert(d[from] == b[0] && d[from + 1] == b[1]);
    }
}

/// What follows a rewrite, the removal of the SRH and the forward, keeps the
/// destination.
proof fn finish_keeps_destination(t: &Tables, x: XdpView, sid: LocalSid, pop: Result<bool, ()>)
    requires
        x.data.len() >= 54,
    ensures
        ({
            let (x1, r) = finish(t, x, sid, pop);
            &&& x1.data.len() >= 54
            &&& forall|i: int| 38 <= i < 54 ==> #[trigger] x1.data[i] == x.data[i]
            &&& r != Ok::<ReplaceStep, ()>(ReplaceStep::Redispatch)
            &&& pop == Ok::<bool, ()>(false) ==> r is Ok
        }),
{
    reveal(endpoint::adjacency);
}

/// A pass with a non-zero index activates the next C-SID of the container:
/// where the position below the index holds a non-zero C-SID, it stands after
/// the block of the new destination, and the index is one less. The pass
/// succeeds unless it is to remove an SRH that does not fit the frame.
pub proof fn position_becomes_active(t: &Tables, x: XdpView, sid: LocalSid, csid: u32)
    requires
        handled(sid),
        x.data.len() >= 59,
        x.data[20] == IPPROTO_ROUTING,
        2 <= x.data[55] <= 12,
        x.data[57] <= x.data[58] <= x.data[55] as int / 2 - 1,
        x.data[53] as int % positions(sid) != 0,
        csid_at(
            x.data,
            x.data[57] as int,
            x.data[53] as int % positions(sid) - 1,
            positions(sid),
        ) == Ok::<u32, ()>(csid),
        csid != 0,
    ensures
        ({
            let (x1, r) = replaced_once(t, x, sid);
            &&& activated(x.data, x1.data, sid, csid, x.data[53] as int % positions(sid) - 1)
            &&& r != Ok::<ReplaceStep, ()>(ReplaceStep::Redispatch)
            &&& x.data[57] != 0 || sid.flavors & SRV6_FLAVOR_PSP == 0 ==> r is Ok
        }),
{
    reveal(replaced_once);
    reveal(next_position);
    let s = x.data;
    let k = positions(sid);
    let idx = s[53] as int % k;
    let x1 = frame::stat(frame::with_data(x, rewritten(s, sid, csid, idx - 1)), STAT_SRV6_REPLACE);
    rewrite_activates(s, sid, csid, idx - 1);
    let pop = if s[57] == 0 && sid.flavors & SRV6_FLAVOR_PSP != 0 {
        if idx == 1 {
            Ok(true)
        } else {
            is_padding(x1.data, idx - 2, k)
        }
    } else {
        Ok(false)
    };
    finish_keeps_destination(t, x1, sid, pop);
}

/// A pass with index zero goes on with the next container: the C-SID at its
/// last position stands after the block of the new destination, and the index
/// is that position.
pub proof fn container_becomes_active(t: &Tables, x: XdpView, sid: LocalSid, csid: u32)
    requires
        handled(sid),
        x.data.len() >= 59,
        x.data[20] == IPPROTO_ROUTING,
        2 <= x.data[55] <= 12,
        x.data[58] <= x.data[55] as int / 2 - 1,
        0 < x.data[57] <= x.data[58] + 1,
        x.data[53] as int % positions(sid) == 0,
        csid_at(x.data, x.data[57] - 1, positions(sid) - 1, positions(sid)) == Ok::<u32, ()>(csid),
    ensures
        ({
            let (x1, r) = replaced_once(t, x, sid);
            &&& activated(x.data, x1.data, sid, csid, positions(sid) - 1)
            &&& r != Ok::<ReplaceStep, ()>(ReplaceStep::Redispatch)
            &&& x.data[57] != 1 || sid.flavors & SRV6_FLAVOR_PSP == 0 ==> r is Ok
        }),
{
    reveal(replaced_once);
    reveal(next_container);
    let s = x.data;
    let k = positions(sid);
    let m = s.update(57, (s[57] - 1) as u8);
    let x1 = frame::stat(frame::with_data(x, rewritten(m, sid, csid, k - 1)), STAT_SRV6_REPLACE);
    rewrite_activates(m, sid, csid, k - 1);
    let pop = if s[57] == 1 && sid.flavors & SRV6_FLAVOR_PSP != 0 {
        is_padding(x1.data, k - 2, k)
    } else {
        Ok(false)
    };
    finish_keeps_destination(t, x1, sid, pop);
}

} // verus!
