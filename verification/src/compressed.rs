//! What compressed segment lists do: laws that say, byte by byte, which segment of
//! a container comes next and what the packet then is.

use vstd::prelude::*;
use crate::bytes;
use crate::csid;
use crate::csid::ReplaceStep;
use crate::endpoint;
use crate::frame::{XdpAct, XdpView};
use crate::lpm;
use crate::segments;
use crate::tables::Tables;
use crate::types::{
    LocalSid, SRV6_BH_END_REP, SRV6_BH_END_X_REP, SRV6_FLAVOR_PSP, SRV6_FLAVOR_USD, SRV6_FLAVOR_USP,
    STAT_SRV6_PSP, STAT_SRV6_REPLACE, STAT_SRV6_USD, STAT_SRV6_USP,
};

verus! {

/// How many bytes a compressed segment of this geometry takes: node and function
/// bits together, which make two or four bytes; other geometries have none.
pub open spec fn width(sid: LocalSid) -> int {
    if sid.node_bits + sid.fun_bits == 32 {
        4
    } else if sid.node_bits + sid.fun_bits == 16 {
        2
    } else {
        0
    }
}

/// How many of them fit into a container of sixteen bytes.
pub open spec fn places(sid: LocalSid) -> int {
    if width(sid) == 4 {
        4
    } else {
        8
    }
}

/// Whether segments of this geometry can be replaced: they are of a known width,
/// follow whole bytes of block, and leave the last byte of the destination free.
pub open spec fn replaceable(sid: LocalSid) -> bool {
    &&& width(sid) != 0
    &&& sid.block_bits % 8 == 0
    &&& sid.block_bits + sid.node_bits + sid.fun_bits <= 120
}

/// Where in the packet the segment at a place of a list's entry starts.
pub open spec fn place(sid: LocalSid, entry: int, at: int) -> int {
    62 + 16 * entry + width(sid) * at
}

/// Whether the segment at a place is padding: all its bytes are zero.
pub open spec fn padding(s: Seq<u8>, sid: LocalSid, entry: int, at: int) -> bool {
    let o = place(sid, entry, at);
    s[o] == 0 && s[o + 1] == 0 && (width(sid) == 4 ==> s[o + 2] == 0 && s[o + 3] == 0)
}

/// A container of sixteen bytes holds as many segments as fit, and is told to be
/// replaceable by its geometry.
pub proof fn container_is_full(sid: LocalSid)
    ensures
        width(sid) != 0 ==> csid::positions(sid) == places(sid) && places(sid) * width(sid) == 16,
        width(sid) == 0 ==> csid::positions(sid) == 0,
        csid::handled(sid) == replaceable(sid),
{
}

/// Reading a container takes the bytes at the place, or fails beyond the packet.
pub proof fn segment_is_read_from_its_place(s: Seq<u8>, sid: LocalSid, entry: int, at: int)
    requires
        width(sid) != 0,
        0 <= entry,
        0 <= at < places(sid),
    ensures
        ({
            let o = place(sid, entry, at);
            let r = csid::csid_at(s, entry, at, csid::positions(sid));
            &&& s.len() < o + width(sid) ==> r is Err
            &&& s.len() >= o + width(sid) && width(sid) == 4 ==> r == Ok::<u32, ()>(
                (((s[o] * 256 + s[o + 1]) * 256 + s[o + 2]) * 256 + s[o + 3]) as u32,
            )
            &&& s.len() >= o + width(sid) && width(sid) == 2 ==> r == Ok::<u32, ()>(
                (s[o] * 256 + s[o + 1]) as u32,
            )
            &&& s.len() >= o + width(sid) ==> (r == Ok::<u32, ()>(0) <==> padding(
                s,
                sid,
                entry,
                at,
            ))
        }),
{
}

/// Whether `d` is `s` with the segment at a place active: its bytes follow the
/// block in the destination, whose last byte counts the place; nothing else
/// changes but the segments left.
pub open spec fn at_place(
    s: Seq<u8>,
    d: Seq<u8>,
    sid: LocalSid,
    entry: int,
    at: int,
    left: int,
) -> bool {
    let o = place(sid, entry, at);
    let b = 38 + sid.block_bits / 8;
    let w = width(sid);
    &&& d.len() == s.len()
    &&& forall|i: int| 0 <= i < w ==> #[trigger] d[b + i] == s[o + i]
    &&& d[53] == s[53] - s[53] as int % places(sid) + at
    &&& d[57] == left
    &&& forall|i: int|
        0 <= i < d.len() && !(b <= i < b + w) && i != 53 && i != 57 ==> #[trigger] d[i] == s[i]
}

proof fn rewriting_moves(s: Seq<u8>, sid: LocalSid, entry: int, at: int, csid: u32)
    requires
        replaceable(sid),
        s.len() >= 62,
        0 <= entry,
        0 <= at < places(sid),
        csid::csid_at(s, entry, at, csid::positions(sid)) == Ok::<u32, ()>(csid),
    ensures
        at_place(s, csid::rewritten(s, sid, csid, at), sid, entry, at, s[57] as int),
{
    let k = csid::positions(sid);
    let w = width(sid);
    let b = 38 + sid.block_bits / 8;
    let o = place(sid, entry, at);
    let d = csid::rewritten(s, sid, csid, at);
    let c = csid::csid_bytes(csid, k);
    let m = s[53] % (k as u8);
    assert(places(sid) == k);
    assert(b + w <= 53);
    if k == 4 {
        bytes::be32_round_trip(csid);
        four_bytes(s[o], s[o + 1], s[o + 2], s[o + 3], csid);
        assert(c.len() == 4);
        assert(c[0] == s[o] && c[1] == s[o + 1] && c[2] == s[o + 2] && c[3] == s[o + 3]);
    } else {
        assert(csid == s[o] * 256 + s[o + 1]);
        assert(c.len() == 2);
        assert(c[0] == s[o] && c[1] == s[o + 1]);
    }
    let mid = bytes::splice(s, b as int, c);
    assert(mid.len() == s.len());
    assert forall|i: int| 0 <= i < w implies #[trigger] d[b + i] == s[o + i] by {
        assert(mid[b + i] == c[i]);
    }
    assert(0 <= m < k && s[53] - m + at <= 255) by {
        assert(s[53] as int == k * (s[53] as int / k) + m);
    }
    assert forall|i: int|
        0 <= i < d.len() && !(b <= i < b + w) && i != 53 && i != 57 implies #[trigger] d[i] == s[i] by {
        assert(mid[i] == s[i]);
    }
    assert(mid[57] == s[57]);
}

#[verifier::spinoff_prover]
proof fn four_bytes(a: u8, b: u8, c: u8, d: u8, v: u32)
    requires
        v == a * 0x100_0000 + b * 0x1_0000 + c * 256 + d,
    ensures
        bytes::be32_bytes(v)[0] == a,
        bytes::be32_bytes(v)[1] == b,
        bytes::be32_bytes(v)[2] == c,
        bytes::be32_bytes(v)[3] == d,
{
}

/// Whether the list of a packet can be used: its header is not longer than can be
/// walked, and the entries it counts are all there.
pub open spec fn list_fits(s: Seq<u8>) -> bool {
    &&& s.len() >= 62 && s[20] == 43
    &&& 2 <= s[55] <= 12
    &&& s[57] <= 6
    &&& s[58] <= s[55] / 2 - 1
}

/// The place counted by the destination's last byte.
pub open spec fn counted(s: Seq<u8>, sid: LocalSid) -> int {
    s[53] as int % places(sid)
}

/// Within a container the segment before the counted place comes next, with the
/// place counted down; a plain segment hands the packet up, and an adjacency
/// sends it straight on.
pub proof fn next_in_container(t: &Tables, x: XdpView, sid: LocalSid)
    requires
        replaceable(sid),
        list_fits(x.data),
        counted(x.data, sid) > 0,
        x.data[57] <= x.data[58],
        x.data[57] > 0,
        x.data.len() >= place(sid, x.data[57] as int, counted(x.data, sid)),
        !padding(x.data, sid, x.data[57] as int, counted(x.data, sid) - 1),
    ensures
        ({
            let s = x.data;
            let at = counted(s, sid) - 1;
            let (y, r) = csid::replaced_once(t, x, sid);
            exists|x1: XdpView|
                {
                    &&& #[trigger] at_place(s, x1.data, sid, s[57] as int, at, s[57] as int)
                    &&& x1 == (XdpView {
                        data: x1.data,
                        stats: x.stats.push(STAT_SRV6_REPLACE),
                        ..x
                    })
                    &&& sid.behavior != SRV6_BH_END_X_REP ==> y == x1 && r == Ok::<
                        ReplaceStep,
                        (),
                    >(ReplaceStep::Act(XdpAct::Pass))
                    &&& sid.behavior == SRV6_BH_END_X_REP ==> y == endpoint::adjacency(
                        t,
                        x1,
                        sid.nexthop_id,
                    ).0 && (endpoint::adjacency(t, x1, sid.nexthop_id).1 matches Ok(a) ==> r == Ok::<
                        ReplaceStep,
                        (),
                    >(ReplaceStep::Act(a)))
                }
        }),
{
    reveal(csid::replaced_once);
    reveal(csid::next_position);
    let s = x.data;
    let idx = counted(s, sid);
    let k = csid::positions(sid);
    container_is_full(sid);
    assert(places(sid) == k);
    segment_is_read_from_its_place(s, sid, s[57] as int, idx - 1);
    let o = place(sid, s[57] as int, idx - 1);
    assert(s.len() >= o + width(sid)) by (nonlinear_arith)
        requires
            s.len() >= 62 + 16 * s[57] + width(sid) * idx,
            o == 62 + 16 * s[57] + width(sid) * (idx - 1),
    ;
    let csid = csid::csid_at(s, s[57] as int, idx - 1, k)->Ok_0;
    rewriting_moves(s, sid, s[57] as int, idx - 1, csid);
    let x1 = XdpView {
        data: csid::rewritten(s, sid, csid, idx - 1),
        stats: x.stats.push(STAT_SRV6_REPLACE),
        ..x
    };
    assert(at_place(s, x1.data, sid, s[57] as int, idx - 1, s[57] as int));
}

/// Behind the first place of a container comes the last place of the next one,
/// with one container less left.
pub proof fn next_container_follows(t: &Tables, x: XdpView, sid: LocalSid)
    requires
        replaceable(sid),
        list_fits(x.data),
        counted(x.data, sid) == 0,
        1 < x.data[57] <= x.data[58] + 1,
        x.data.len() >= 62 + 16 * x.data[57],
    ensures
        ({
            let s = x.data;
            let at = places(sid) - 1;
            let (y, r) = csid::replaced_once(t, x, sid);
            exists|x1: XdpView|
                {
                    &&& #[trigger] at_place(s, x1.data, sid, s[57] - 1, at, s[57] - 1)
                    &&& x1 == (XdpView {
                        data: x1.data,
                        stats: x.stats.push(STAT_SRV6_REPLACE),
                        ..x
                    })
                    &&& sid.behavior != SRV6_BH_END_X_REP ==> y == x1 && r == Ok::<
                        ReplaceStep,
                        (),
                    >(ReplaceStep::Act(XdpAct::Pass))
                    &&& sid.behavior == SRV6_BH_END_X_REP ==> y == endpoint::adjacency(
                        t,
                        x1,
                        sid.nexthop_id,
                    ).0
                }
        }),
{
    reveal(csid::replaced_once);
    reveal(csid::next_container);
    let s = x.data;
    let k = csid::positions(sid);
    let w = width(sid);
    container_is_full(sid);
    assert(places(sid) == k);
    let u = s.update(57, (s[57] - 1) as u8);
    let entry = s[57] - 1;
    segment_is_read_from_its_place(s, sid, entry, k - 1);
    let o = place(sid, entry, k - 1);
    assert(o + w == 62 + 16 * s[57]) by (nonlinear_arith)
        requires
            o == 62 + 16 * (s[57] - 1) + w * (k - 1),
            k * w == 16,
    ;
    let csid = csid::csid_at(s, entry, k - 1, k)->Ok_0;
    assert(csid::csid_at(u, entry, k - 1, k) == Ok::<u32, ()>(csid));
    rewriting_moves(u, sid, entry, k - 1, csid);
    let x1 = XdpView {
        data: csid::rewritten(u, sid, csid, k - 1),
        stats: x.stats.push(STAT_SRV6_REPLACE),
        ..x
    };
    let b = 38 + sid.block_bits / 8;
    assert forall|i: int| 0 <= i < w implies #[trigger] x1.data[b + i] == s[o + i] by {
        assert(u[o + i] == s[o + i]);
    }
    assert(at_place(s, x1.data, sid, entry, k - 1, entry));
}

/// Padding ends a container: the next entry of the list becomes the destination,
/// whole, and is looked up anew.
pub proof fn padding_ends_the_container(t: &Tables, x: XdpView, sid: LocalSid)
    requires
        replaceable(sid),
        list_fits(x.data),
        counted(x.data, sid) > 0,
        1 < x.data[57] <= x.data[58],
        x.data.len() >= place(sid, x.data[57] as int, counted(x.data, sid)),
        padding(x.data, sid, x.data[57] as int, counted(x.data, sid) - 1),
    ensures
        ({
            let (y, r) = csid::replaced_once(t, x, sid);
            &&& segments::advanced(x.data, y.data)
            &&& y == (XdpView { data: y.data, stats: x.stats.push(STAT_SRV6_REPLACE), ..x })
            &&& r == Ok::<ReplaceStep, ()>(ReplaceStep::Redispatch)
        }),
{
    reveal(csid::replaced_once);
    reveal(csid::next_position);
    reveal(csid::loaded);
    let s = x.data;
    let idx = counted(s, sid);
    let k = csid::positions(sid);
    container_is_full(sid);
    assert(places(sid) == k);
    segment_is_read_from_its_place(s, sid, s[57] as int, idx - 1);
    let o = place(sid, s[57] as int, idx - 1);
    assert(s.len() >= o + width(sid) && s.len() >= 62 + 16 * s[57]) by (nonlinear_arith)
        requires
            s.len() >= 62 + 16 * s[57] + width(sid) * idx,
            o == 62 + 16 * s[57] + width(sid) * (idx - 1),
            idx > 0,
            width(sid) >= 0,
    ;
    let sl = s[57] as int;
    assert(endpoint::walked(s, sl - 1).len() == s.len());
    let e = 62 + 16 * (sl - 1);
    assert forall|i: int| 38 <= i < 54 implies #[trigger] endpoint::walked(s, sl - 1)[i] == s[e + i
        - 38] by {
        assert(endpoint::walked(s, sl - 1)[i] == bytes::oct16(s, e)@[i - 38]);
    }
}

/// At the last place of the last container the packet is delivered: uncovered or
/// without its routing header, as the segment may, else as it is; an adjacency
/// does neither.
pub proof fn last_place_delivers(t: &Tables, x: XdpView, sid: LocalSid)
    requires
        replaceable(sid),
        x.data.len() >= 62,
        x.data[20] == 43,
        x.data[55] <= 12,
        x.data[57] == 0,
        counted(x.data, sid) == 0,
        x.data[18] * 256 + x.data[19] >= 8 * x.data[55] + 8,
        x.data.len() >= 62 + 8 * x.data[55],
    ensures
        ({
            let s = x.data;
            let n = 8 * s[55] + 8;
            let (y, r) = csid::replaced_once(t, x, sid);
            let plain = sid.behavior != SRV6_BH_END_X_REP;
            let usd = plain && sid.flavors & SRV6_FLAVOR_USD != 0 && (s[54] == 4 || s[54] == 41);
            let usp = plain && sid.flavors & SRV6_FLAVOR_USP != 0;
            &&& r == Ok::<ReplaceStep, ()>(ReplaceStep::Act(XdpAct::Pass))
            &&& usd ==> segments::inside(
                s,
                y.data,
                40 + n,
                if s[54] == 4 {
                    0x0800
                } else {
                    0x86dd
                },
            ) && y.stats == x.stats.push(STAT_SRV6_USD)
            &&& !usd && usp ==> segments::without_srh(s, y.data, n) && y.stats == x.stats.push(
                STAT_SRV6_USP,
            )
            &&& !usd && !usp ==> y == x
        }),
{
    reveal(csid::replaced_once);
    reveal(csid::delivered);
    container_is_full(sid);
    assert(places(sid) == csid::positions(sid));
    let n = 8 * x.data[55] + 8;
    segments::popped_header_is_gone(x);
    segments::decapsulation_uncovers(x, 40 + n, 0x0800);
    segments::decapsulation_uncovers(x, 40 + n, 0x86dd);
}

/// A geometry that cannot be replaced, and a packet without a routing header or
/// with one that is too long, is left alone, but that what such a segment may
/// uncover it uncovers.
pub proof fn unreplaceable_packet_is_left_alone(t: &Tables, x: XdpView, sid: LocalSid)
    requires
        x.data.len() >= 56,
    ensures
        ({
            let s = x.data;
            let (y, r) = csid::replaced_once(t, x, sid);
            let usd = sid.flavors & SRV6_FLAVOR_USD != 0 && sid.behavior != SRV6_BH_END_X_REP && (
            s[20] == 4 || s[20] == 41);
            &&& !replaceable(sid) || (s[20] != 43 && !usd) || (s[20] == 43 && s[55] > 12) ==> y == x
                && r == Ok::<ReplaceStep, ()>(ReplaceStep::Act(XdpAct::Pass))
            &&& replaceable(sid) && s[20] != 43 && usd ==> segments::inside(
                s,
                y.data,
                40,
                if s[20] == 4 {
                    0x0800
                } else {
                    0x86dd
                },
            ) && y.stats == x.stats.push(STAT_SRV6_USD) && r == Ok::<ReplaceStep, ()>(
                ReplaceStep::Act(XdpAct::Pass),
            )
        }),
{
    reveal(csid::replaced_once);
    container_is_full(sid);
    segments::decapsulation_uncovers(x, 40, 0x0800);
    segments::decapsulation_uncovers(x, 40, 0x86dd);
}

/// A destination that is looked up anew and is again a compressed segment of this
/// node is served once more; for another's, the packet goes on as its segment
/// says: up, or over the adjacency.
pub proof fn new_destination_is_served(t: &Tables, x: XdpView, sid: LocalSid, next: LocalSid)
    ensures
        ({
            let (x1, r1) = csid::replaced_once(t, x, sid);
            let out = csid::replaced(t, x, sid);
            let m = lpm::matched(t.srv6_localsid@, x1.data.subrange(38, 54));
            let again = next.behavior == SRV6_BH_END_REP || next.behavior == SRV6_BH_END_X_REP;
            let anew = r1 == Ok::<ReplaceStep, ()>(ReplaceStep::Redispatch);
            let (x2, r2) = csid::replaced_once(t, x1, next);
            &&& r1 is Err ==> out == (x1, Err::<XdpAct, ()>(()))
            &&& match r1 {
                Ok(ReplaceStep::Act(a)) => out == (x1, Ok::<XdpAct, ()>(a)),
                _ => true,
            }
            &&& anew && (m is None || (m == Some(next) && !again)) && sid.behavior
                == SRV6_BH_END_X_REP ==> out == endpoint::adjacency(t, x1, sid.nexthop_id)
            &&& anew && (m is None || (m == Some(next) && !again)) && sid.behavior
                != SRV6_BH_END_X_REP ==> out == (x1, Ok::<XdpAct, ()>(XdpAct::Pass))
            &&& anew && m == Some(next) && again && r2 is Err ==> out == (x2, Err::<XdpAct, ()>(()))
            &&& anew && m == Some(next) && again ==> match r2 {
                Ok(ReplaceStep::Act(a)) => out == (x2, Ok::<XdpAct, ()>(a)),
                _ => true,
            }
        }),
{
    reveal(csid::replaced);
}

/// In the last container, too, the segment before the counted place comes next;
/// with the penultimate pop, the routing header goes when no segment is left
/// behind it: at the first place, or where the place before is padding.
pub proof fn last_container_counts_down(t: &Tables, x: XdpView, sid: LocalSid)
    requires
        replaceable(sid),
        list_fits(x.data),
        counted(x.data, sid) > 0,
        x.data[57] == 0,
        x.data.len() >= 78,
        !padding(x.data, sid, 0, counted(x.data, sid) - 1),
        sid.behavior != SRV6_BH_END_X_REP,
        x.data[18] * 256 + x.data[19] >= 8 * x.data[55] + 8,
        x.data.len() >= 62 + 8 * x.data[55],
    ensures
        ({
            let s = x.data;
            let at = counted(s, sid) - 1;
            let pops = sid.flavors & SRV6_FLAVOR_PSP != 0 && (at == 0 || padding(
                s,
                sid,
                0,
                at - 1,
            ));
            let (y, r) = csid::replaced_once(t, x, sid);
            exists|x1: XdpView|
                {
                    &&& #[trigger] at_place(s, x1.data, sid, 0, at, 0)
                    &&& x1 == (XdpView {
                        data: x1.data,
                        stats: x.stats.push(STAT_SRV6_REPLACE),
                        ..x
                    })
                    &&& !pops ==> y == x1
                    &&& pops ==> segments::without_srh(x1.data, y.data, 8 * s[55] + 8) && y.stats
                        == x1.stats.push(STAT_SRV6_PSP)
                    &&& r == Ok::<ReplaceStep, ()>(ReplaceStep::Act(XdpAct::Pass))
                }
        }),
{
    reveal(csid::replaced_once);
    reveal(csid::next_position);
    let s = x.data;
    let idx = counted(s, sid);
    let k = csid::positions(sid);
    let w = width(sid);
    container_is_full(sid);
    assert(places(sid) == k);
    assert(0 < idx < k);
    segment_is_read_from_its_place(s, sid, 0, idx - 1);
    let o = place(sid, 0, idx - 1);
    assert(o + w <= 78) by (nonlinear_arith)
        requires
            o == 62 + 16 * 0 + w * (idx - 1),
            0 < idx < k,
            k * w == 16,
            w > 0,
    ;
    let csid = csid::csid_at(s, 0, idx - 1, k)->Ok_0;
    rewriting_moves(s, sid, 0, idx - 1, csid);
    let x1 = XdpView {
        data: csid::rewritten(s, sid, csid, idx - 1),
        stats: x.stats.push(STAT_SRV6_REPLACE),
        ..x
    };
    let d = x1.data;
    assert(at_place(s, d, sid, 0, idx - 1, 0));
    if idx > 1 {
        segment_is_read_from_its_place(d, sid, 0, idx - 2);
        let q = place(sid, 0, idx - 2);
        assert(62 <= q && q + w <= 78) by (nonlinear_arith)
            requires
                q == 62 + 16 * 0 + w * (idx - 2),
                1 < idx < k,
                k * w == 16,
                w > 0,
        ;
        assert(d[q] == s[q] && d[q + 1] == s[q + 1]);
        if w == 4 {
            assert(d[q + 2] == s[q + 2] && d[q + 3] == s[q + 3]);
        }
        assert(padding(d, sid, 0, idx - 2) == padding(s, sid, 0, idx - 2));
    }
    assert(d[55] == s[55] && d[18] == s[18] && d[19] == s[19] && d[54] == s[54]);
    segments::popped_header_is_gone(x1);
}

/// A destination that is looked up anew twice and is again a compressed segment of
/// this node goes up; for another's, the packet goes on as the second segment says.
pub proof fn second_lookup_is_the_last(
    t: &Tables,
    x: XdpView,
    sid: LocalSid,
    next: LocalSid,
    last: LocalSid,
)
    requires
        csid::replaced_once(t, x, sid).1 == Ok::<ReplaceStep, ()>(ReplaceStep::Redispatch),
        lpm::matched(
            t.srv6_localsid@,
            csid::replaced_once(t, x, sid).0.data.subrange(38, 54),
        ) == Some(next),
        next.behavior == SRV6_BH_END_REP || next.behavior == SRV6_BH_END_X_REP,
        csid::replaced_once(t, csid::replaced_once(t, x, sid).0, next).1 == Ok::<ReplaceStep, ()>(
            ReplaceStep::Redispatch,
        ),
    ensures
        ({
            let x2 = csid::replaced_once(t, csid::replaced_once(t, x, sid).0, next).0;
            let m = lpm::matched(t.srv6_localsid@, x2.data.subrange(38, 54));
            let out = csid::replaced(t, x, sid);
            let again = last.behavior == SRV6_BH_END_REP || last.behavior == SRV6_BH_END_X_REP;
            &&& m == Some(last) && again ==> out == (x2, Ok::<XdpAct, ()>(XdpAct::Pass))
            &&& (m is None || (m == Some(last) && !again)) && next.behavior == SRV6_BH_END_REP ==> out
                == (x2, Ok::<XdpAct, ()>(XdpAct::Pass))
            &&& (m is None || (m == Some(last) && !again)) && next.behavior == SRV6_BH_END_X_REP
                ==> out == endpoint::adjacency(t, x2, next.nexthop_id)
        }),
{
    reveal(csid::replaced);
}

/// Where padding ends the container before the last entry, the penultimate pop
/// takes the routing header off that entry; without it the header stays.
pub proof fn padding_before_the_last_entry_pops(t: &Tables, x: XdpView, sid: LocalSid)
    requires
        replaceable(sid),
        list_fits(x.data),
        counted(x.data, sid) > 0,
        x.data[57] == 1,
        x.data[58] >= 1,
        x.data.len() >= place(sid, 1, counted(x.data, sid)),
        padding(x.data, sid, 1, counted(x.data, sid) - 1),
        x.data[18] * 256 + x.data[19] >= 8 * x.data[55] + 8,
        x.data.len() >= 62 + 8 * x.data[55],
    ensures
        ({
            let w = endpoint::walked(x.data, 0);
            let (y, r) = csid::replaced_once(t, x, sid);
            let pops = sid.flavors & SRV6_FLAVOR_PSP != 0;
            &&& segments::advanced(x.data, w)
            &&& r == Ok::<ReplaceStep, ()>(ReplaceStep::Redispatch)
            &&& !pops ==> y == (XdpView {
                data: w,
                stats: x.stats.push(STAT_SRV6_REPLACE),
                ..x
            })
            &&& pops ==> segments::without_srh(w, y.data, 8 * x.data[55] + 8) && y.stats
                == x.stats.push(STAT_SRV6_REPLACE).push(STAT_SRV6_PSP)
        }),
{
    reveal(csid::replaced_once);
    reveal(csid::next_position);
    reveal(csid::loaded);
    let s = x.data;
    let idx = counted(s, sid);
    let k = csid::positions(sid);
    container_is_full(sid);
    assert(places(sid) == k);
    segment_is_read_from_its_place(s, sid, 1, idx - 1);
    let o = place(sid, 1, idx - 1);
    assert(s.len() >= o + width(sid) && s.len() >= 78) by (nonlinear_arith)
        requires
            s.len() >= 62 + 16 * 1 + width(sid) * idx,
            o == 62 + 16 * 1 + width(sid) * (idx - 1),
            idx > 0,
            width(sid) >= 0,
    ;
    let w = endpoint::walked(s, 0);
    assert(w.len() == s.len());
    assert forall|i: int| 38 <= i < 54 implies #[trigger] w[i] == s[62 + i - 38] by {
        assert(w[i] == bytes::oct16(s, 62)@[i - 38]);
    }
    let x1 = XdpView { data: w, stats: x.stats.push(STAT_SRV6_REPLACE), ..x };
    segments::popped_header_is_gone(x1);
}

/// After a penultimate pop, too, an adjacency sends the packet straight on.
pub proof fn popped_adjacency_sends_on(t: &Tables, x: XdpView, sid: LocalSid, pop: bool)
    requires
        sid.behavior == SRV6_BH_END_X_REP,
    ensures
        ({
            let x1 = if pop {
                XdpView {
                    stats: x.stats.push(STAT_SRV6_PSP),
                    ..endpoint::srh_popped(x).0
                }
            } else {
                x
            };
            let (y, r) = csid::finish(t, x, sid, Ok(pop));
            let out = endpoint::adjacency(t, x1, sid.nexthop_id);
            !pop || endpoint::srh_popped(x).1 is Ok ==> y == out.0 && (out.1 matches Ok(a) ==> r
                == Ok::<ReplaceStep, ()>(ReplaceStep::Act(a)))
        }),
{
    popped_stats(x);
}

proof fn popped_stats(x: XdpView)
    ensures
        endpoint::srh_popped(x).0.stats == x.stats,
{
}

} // verus!
