//! What segment endpoints do to a packet: laws that say, byte by byte, what each
//! behavior makes of it and where it goes.

use vstd::prelude::*;
use crate::bytes;
use crate::csid;
use crate::endpoint;
use crate::fib;
use crate::frame;
use crate::frame::{XdpAct, XdpView};
use crate::headers;
use crate::lpm;
use crate::sids;
use crate::tables::Tables;
use crate::types::{
    CradleXdpMeta, Dx2vKey, LocalSid, NextHop, Srv6Encap, SRV6_BH_END, SRV6_BH_END_B6,
    SRV6_BH_END_DT2M, SRV6_BH_END_DT2U, SRV6_BH_END_DT4, SRV6_BH_END_DT46, SRV6_BH_END_DT6,
    SRV6_BH_END_DX2, SRV6_BH_END_DX2V, SRV6_BH_END_DX4, SRV6_BH_END_DX6, SRV6_BH_END_M,
    SRV6_BH_END_REP, SRV6_BH_END_REPLICATE, SRV6_BH_END_T, SRV6_BH_END_X, SRV6_BH_END_X_REP,
    SRV6_BH_UA, SRV6_BH_UALIB, SRV6_BH_UN, SRV6_ENCAP_MODE_INSERT, SRV6_FLAVOR_PSP,
    SRV6_FLAVOR_USD, SRV6_FLAVOR_USP, STAT_DROP, STAT_SRV6_B6, STAT_SRV6_DECAP, STAT_SRV6_DX,
    STAT_SRV6_DX2, STAT_SRV6_END, STAT_SRV6_ENDM, STAT_SRV6_ENDT, STAT_SRV6_L2_DECAP,
    STAT_SRV6_PSP, STAT_SRV6_USD, STAT_SRV6_USID, STAT_SRV6_USP, XDP_META_MAGIC, XDP_META_MAGIC_DX,
    XDP_META_MAGIC_DX2, XDP_META_MAGIC_L2, XDP_META_MAGIC_REPL,
};

verus! {

// -------------------------------- the pieces --------------------------------

/// A tagged packet carries its tag up, closed with the cookie; without room for
/// one it is dropped and counted.
pub proof fn tag_travels_with_the_packet(t: &Tables, x: XdpView, magic: u32, value: u32)
    ensures
        x.meta_room ==> frame::tagged(t, x, magic, value) == (
            XdpView {
                meta: Some(CradleXdpMeta { magic: magic ^ t.meta_cookie, vrf_id: value }),
                ..x
            },
            XdpAct::Pass,
        ),
        !x.meta_room ==> frame::tagged(t, x, magic, value) == (
            XdpView { stats: x.stats.push(STAT_DROP), ..x },
            XdpAct::Drop,
        ),
{
}

/// Whether `d` is the packet inside `s` behind `strip` bytes of headers, with the
/// addresses of the frame around it and its own ethertype.
pub open spec fn inside(s: Seq<u8>, d: Seq<u8>, strip: int, ethertype: int) -> bool {
    &&& d.len() == s.len() - strip
    &&& forall|i: int| 0 <= i < 12 ==> #[trigger] d[i] == s[i]
    &&& d[12] * 256 + d[13] == ethertype
    &&& forall|i: int| 14 <= i < d.len() ==> #[trigger] d[i] == s[i + strip]
}

/// Taking headers off leaves the packet that was inside; what is too short for
/// that is an error.
pub proof fn decapsulation_uncovers(x: XdpView, strip: int, et: u16)
    requires
        strip > 0,
    ensures
        x.data.len() >= strip + 14 ==> {
            let (x1, r) = endpoint::decapped(x, strip, et);
            &&& r is Ok
            &&& inside(x.data, x1.data, strip, et as int)
            &&& x1 == (XdpView { data: x1.data, headroom: x1.headroom, ..x })
        },
        x.data.len() < strip + 14 ==> endpoint::decapped(x, strip, et).1 is Err,
{
    if x.data.len() >= strip + 14 {
        let d = endpoint::decapped(x, strip, et).0.data;
        bytes::be16_round_trip(et);
        assert forall|i: int| 14 <= i < d.len() implies #[trigger] d[i] == x.data[i + strip] by {}
    }
}

/// Whether `d` is `s` without its segment routing header, which is `n` bytes long.
pub open spec fn without_srh(s: Seq<u8>, d: Seq<u8>, n: int) -> bool {
    &&& d.len() == s.len() - n
    &&& forall|i: int| 0 <= i < 18 ==> #[trigger] d[i] == s[i]
    &&& d[18] * 256 + d[19] == s[18] * 256 + s[19] - n
    &&& d[20] == s[54]
    &&& forall|i: int| 21 <= i < 54 ==> #[trigger] d[i] == s[i]
    &&& forall|i: int| 54 <= i < d.len() ==> #[trigger] d[i] == s[i + n]
}

/// A popped segment routing header leaves no trace: the payload length shrinks by
/// it, the next header becomes its next header, and all else stays.
pub proof fn popped_header_is_gone(x: XdpView)
    ensures
        ({
            let s = x.data;
            let n = 8 * s[55] + 8;
            let fits = s.len() >= 56 && s[55] <= 12 && s[18] * 256 + s[19] >= n && s.len() >= 54 + n;
            let (x1, r) = endpoint::srh_popped(x);
            &&& fits ==> r is Ok && without_srh(s, x1.data, n) && x1 == (XdpView {
                data: x1.data,
                headroom: x1.headroom,
                ..x
            })
            &&& !fits ==> r is Err
        }),
{
    let s = x.data;
    let n = 8 * s[55] + 8;
    if s.len() >= 56 && s[55] <= 12 && s[18] * 256 + s[19] >= n && s.len() >= 54 + n {
        let d = endpoint::srh_popped(x).0.data;
        bytes::be16_round_trip((bytes::be16(s, 18) - n) as u16);
        assert forall|i: int| 54 <= i < d.len() implies #[trigger] d[i] == s[i + n] by {}
    }
}

/// Whether `d` is `s` sent on: with new link addresses and one hop less.
pub open spec fn sent_on(s: Seq<u8>, d: Seq<u8>, dst: [u8; 6], src: [u8; 6]) -> bool {
    &&& d.len() == s.len()
    &&& forall|i: int| 0 <= i < 6 ==> #[trigger] d[i] == dst[i]
    &&& forall|i: int| 6 <= i < 12 ==> #[trigger] d[i] == src[i - 6]
    &&& d[21] == s[21] - 1
    &&& forall|i: int| 12 <= i < d.len() && i != 21 ==> #[trigger] d[i] == s[i]
}

/// An adjacency sends the packet straight out of its nexthop's interface; a
/// packet without hops left, or without a neighbor known, goes up untouched.
pub proof fn adjacency_sends_on(t: &Tables, x: XdpView, id: u32, nh: NextHop)
    requires
        x.data.len() >= 54,
    ensures
        t.nexthops@.get(id) is None ==> endpoint::adjacency(t, x, id) == (
            x,
            Ok::<XdpAct, ()>(XdpAct::Pass),
        ),
        t.nexthops@.get(id) == Some(nh) ==> match fib::l2_of(t, nh) {
            Some((dst, src)) => x.data[21] > 1 ==> {
                let (x1, r) = endpoint::adjacency(t, x, id);
                &&& sent_on(x.data, x1.data, dst, src)
                &&& x1 == (XdpView { data: x1.data, ..x })
                &&& r == Ok::<XdpAct, ()>(XdpAct::Redirect(nh.oif))
            },
            None => true,
        },
        t.nexthops@.get(id) == Some(nh) && (fib::l2_of(t, nh) is None || x.data[21] <= 1)
            ==> endpoint::adjacency(t, x, id) == (x, Ok::<XdpAct, ()>(XdpAct::Pass)),
{
    reveal(endpoint::adjacency);
}

// --------------------------------- micro SIDs -------------------------------

/// Whether `d` is `s` with the micro SID behind a block of `b` bytes consumed: the
/// rest of the destination moves up by its two bytes and two zero bytes follow.
pub open spec fn consumed(s: Seq<u8>, d: Seq<u8>, b: int) -> bool {
    &&& d.len() == s.len()
    &&& forall|i: int| 0 <= i < 38 + b ==> #[trigger] d[i] == s[i]
    &&& forall|i: int| 38 + b <= i < 52 ==> #[trigger] d[i] == s[i + 2]
    &&& d[52] == 0 && d[53] == 0
    &&& forall|i: int| 54 <= i < d.len() ==> #[trigger] d[i] == s[i]
}

/// A shift consumes the active micro SID, and changes nothing else; a geometry
/// that is not of whole micro SIDs is left alone.
pub proof fn shift_consumes_the_active_sid(x: XdpView, sid: LocalSid)
    requires
        x.data.len() >= 54,
    ensures
        sid.node_bits == 16 && (sid.block_bits == 16 || sid.block_bits == 32 || sid.block_bits
            == 48) ==> {
            let (x1, done) = endpoint::usid_shifted(x, sid);
            &&& done
            &&& consumed(x.data, x1.data, sid.block_bits as int / 8)
            &&& x1 == (XdpView { data: x1.data, stats: x.stats.push(STAT_SRV6_USID), ..x })
        },
        !(sid.node_bits == 16 && (sid.block_bits == 16 || sid.block_bits == 32 || sid.block_bits
            == 48)) ==> endpoint::usid_shifted(x, sid) == (x, false),
{
    if sid.node_bits == 16 && (sid.block_bits == 16 || sid.block_bits == 32 || sid.block_bits
        == 48) {
        let b = sid.block_bits as int / 8;
        let s = x.data;
        let da = s.subrange(38, 54);
        let n = endpoint::shifted(da, sid.block_bits, sid.node_bits)->0;
        let d = endpoint::usid_shifted(x, sid).0.data;
        assert(n.len() == 16);
        assert forall|i: int| 0 <= i < 38 + b implies #[trigger] d[i] == s[i] by {
            if i >= 38 {
                assert(d[i] == n[i - 38]);
                assert(n[i - 38] == da[i - 38]);
            }
        }
        assert forall|i: int| 38 + b <= i < 52 implies #[trigger] d[i] == s[i + 2] by {
            assert(d[i] == n[i - 38]);
            assert(n[i - 38] == da[i - 38 + 2]);
        }
        assert(d[52] == n[14] && d[53] == n[15]);
        assert forall|i: int| 54 <= i < d.len() implies #[trigger] d[i] == s[i] by {}
    }
}

/// The end of a carrier is told by the two bytes behind the active micro SID.
pub open spec fn last_of_carrier(s: Seq<u8>, sid: LocalSid) -> bool {
    let next = 38 + sid.block_bits as int / 8 + sid.node_bits as int / 8;
    next <= 52 && s[next] == 0 && s[next + 1] == 0
}

/// A node's micro SID that is not the last is consumed and the packet goes up,
/// unless the next one is an adjacency of this node; the last ends as a segment.
pub proof fn node_sid_hands_to_the_next(t: &Tables, x: XdpView, sid: LocalSid)
    requires
        x.data.len() >= 54,
        lpm::matched(t.srv6_localsid@, x.data.subrange(38, 54)) == Some(sid),
        sid.behavior == SRV6_BH_UN,
        sid.node_bits == 16,
        sid.block_bits == 16 || sid.block_bits == 32 || sid.block_bits == 48,
    ensures
        last_of_carrier(x.data, sid) ==> sids::srv6_staged(t, x) == endpoint::ended(t, x, sid),
        !last_of_carrier(x.data, sid) ==> {
            let x1 = endpoint::usid_shifted(x, sid).0;
            &&& consumed(x.data, x1.data, sid.block_bits as int / 8)
            &&& match lpm::matched(t.srv6_localsid@, x1.data.subrange(38, 54)) {
                Some(next) => if next.behavior == SRV6_BH_UALIB {
                    sids::srv6_staged(t, x) == endpoint::ua_forwarded(t, x1, next)
                } else {
                    sids::srv6_staged(t, x) == (x1, Ok::<XdpAct, ()>(XdpAct::Pass))
                },
                None => sids::srv6_staged(t, x) == (x1, Ok::<XdpAct, ()>(XdpAct::Pass)),
            }
        },
{
    reveal(sids::srv6_staged);
    reveal(sids::behaved);
    reveal(endpoint::un_forwarded);
    assert(bytes::oct16(x.data, 38)@ =~= x.data.subrange(38, 54));
    shift_consumes_the_active_sid(x, sid);
}

/// An adjacency's micro SID that is not the last is consumed and the packet sent
/// straight on; the last ends as an adjacency segment.
pub proof fn adjacency_sid_sends_on(t: &Tables, x: XdpView, sid: LocalSid)
    requires
        x.data.len() >= 54,
    ensures
        last_of_carrier(x.data, sid) ==> endpoint::ua_forwarded(t, x, sid) == endpoint::ended(
            t,
            x,
            LocalSid { behavior: SRV6_BH_UA, ..sid },
        ),
        !last_of_carrier(x.data, sid) && sid.node_bits == 16 && (sid.block_bits == 16
            || sid.block_bits == 32 || sid.block_bits == 48) ==> {
            let x1 = endpoint::usid_shifted(x, sid).0;
            &&& consumed(x.data, x1.data, sid.block_bits as int / 8)
            &&& endpoint::ua_forwarded(t, x, sid) == endpoint::adjacency(t, x1, sid.nexthop_id)
        },
        !last_of_carrier(x.data, sid) && !(sid.node_bits == 16 && (sid.block_bits == 16
            || sid.block_bits == 32 || sid.block_bits == 48)) ==> endpoint::ua_forwarded(t, x, sid)
            == (x, Ok::<XdpAct, ()>(XdpAct::Pass)),
{
    reveal(endpoint::ua_forwarded);
    shift_consumes_the_active_sid(x, sid);
}

// ------------------------------ walking segments ----------------------------

/// Whether `d` is `s` at its next segment: one segment less is left, and the
/// destination is the entry of the list that the new count points at.
pub open spec fn advanced(s: Seq<u8>, d: Seq<u8>) -> bool {
    &&& d.len() == s.len()
    &&& d[57] == s[57] - 1
    &&& forall|i: int| 38 <= i < 54 ==> #[trigger] d[i] == s[62 + 16 * (s[57] - 1) + i - 38]
    &&& forall|i: int|
        0 <= i < d.len() && i != 57 && !(38 <= i < 54) ==> #[trigger] d[i] == s[i]
}

/// Whether a packet has a segment to go to: its routing header has one left, not
/// more than can be walked, and holds it.
pub open spec fn has_next(s: Seq<u8>) -> bool {
    &&& s.len() >= 58 && s[20] == 43
    &&& 1 <= s[57] <= 6
    &&& s.len() >= 62 + 16 * s[57]
}

proof fn walking_advances(s: Seq<u8>)
    requires
        has_next(s),
    ensures
        advanced(s, endpoint::walked(s, s[57] - 1)),
{
    let e = 62 + 16 * (s[57] - 1);
    assert forall|i: int| 38 <= i < 54 implies #[trigger] endpoint::walked(s, s[57] - 1)[i] == s[e
        + i - 38] by {
        assert(endpoint::walked(s, s[57] - 1)[i] == bytes::oct16(s, e)@[i - 38]);
    }
}

/// The plain endpoint takes the packet to its next segment and hands it up to be
/// routed there; an adjacency segment sends it straight on; a table segment
/// hands it up with its table.
pub proof fn endpoint_takes_the_next_segment(t: &Tables, x: XdpView, sid: LocalSid)
    requires
        has_next(x.data),
        x.data[57] > 1 || sid.flavors & SRV6_FLAVOR_PSP == 0,
    ensures
        ({
            let x1 = XdpView {
                data: endpoint::walked(x.data, x.data[57] - 1),
                stats: x.stats.push(STAT_SRV6_END),
                ..x
            };
            let r = endpoint::ended(t, x, sid);
            let b = sid.behavior;
            &&& advanced(x.data, x1.data)
            &&& b == SRV6_BH_END_X || b == SRV6_BH_UA ==> r == endpoint::adjacency(
                t,
                x1,
                sid.nexthop_id,
            )
            &&& (b == SRV6_BH_END_T || b == SRV6_BH_UN) && sid.vrf_id != 0 && x.meta_room ==> r == (
                XdpView {
                    meta: Some(
                        CradleXdpMeta { magic: XDP_META_MAGIC ^ t.meta_cookie, vrf_id: sid.vrf_id },
                    ),
                    stats: x1.stats.push(STAT_SRV6_ENDT),
                    ..x1
                },
                Ok::<XdpAct, ()>(XdpAct::Pass),
            )
            &&& (b == SRV6_BH_END_T || b == SRV6_BH_UN) && sid.vrf_id != 0 && !x.meta_room ==> r
                == (
                XdpView { stats: x1.stats.push(STAT_DROP), ..x1 },
                Ok::<XdpAct, ()>(XdpAct::Drop),
            )
            &&& b == SRV6_BH_END || ((b == SRV6_BH_END_T || b == SRV6_BH_UN) && sid.vrf_id == 0)
                ==> r == (x1, Ok::<XdpAct, ()>(XdpAct::Pass))
        }),
{
    reveal(endpoint::ended);
    walking_advances(x.data);
}

/// With the penultimate pop, the endpoint before the last takes the packet to its
/// last segment and the routing header off, and sends it on as above.
pub proof fn penultimate_endpoint_pops(t: &Tables, x: XdpView, sid: LocalSid)
    requires
        has_next(x.data),
        x.data[57] == 1,
        sid.flavors & SRV6_FLAVOR_PSP != 0,
        sid.behavior == SRV6_BH_END,
        x.data[55] <= 12,
        x.data[18] * 256 + x.data[19] >= 8 * x.data[55] + 8,
        x.data.len() >= 62 + 8 * x.data[55],
    ensures
        ({
            let (x1, r) = endpoint::ended(t, x, sid);
            let w = endpoint::walked(x.data, 0);
            &&& advanced(x.data, w)
            &&& without_srh(w, x1.data, 8 * x.data[55] + 8)
            &&& r == Ok::<XdpAct, ()>(XdpAct::Pass)
            &&& x1.stats == x.stats.push(STAT_SRV6_END).push(STAT_SRV6_PSP)
            &&& x1.meta == x.meta
        }),
{
    reveal(endpoint::ended);
    walking_advances(x.data);
    let x0 = XdpView {
        data: endpoint::walked(x.data, 0),
        stats: x.stats.push(STAT_SRV6_END),
        ..x
    };
    popped_header_is_gone(x0);
}

/// At the last segment, the ultimate decapsulation uncovers the packet inside,
/// the ultimate pop takes the routing header off, and without either the packet
/// goes up as it is. An adjacency segment does neither.
pub proof fn ultimate_endpoint_delivers(t: &Tables, x: XdpView, sid: LocalSid)
    requires
        x.data.len() >= 58,
        x.data[20] == 43,
        x.data[57] == 0,
        x.data[55] <= 12,
        x.data[18] * 256 + x.data[19] >= 8 * x.data[55] + 8,
        x.data.len() >= 62 + 8 * x.data[55],
    ensures
        ({
            let s = x.data;
            let n = 8 * s[55] + 8;
            let (x1, r) = endpoint::ended(t, x, sid);
            let plain = sid.behavior == SRV6_BH_END;
            let across = sid.behavior == SRV6_BH_END_X || sid.behavior == SRV6_BH_UA;
            let usd = sid.flavors & SRV6_FLAVOR_USD != 0;
            let usp = sid.flavors & SRV6_FLAVOR_USP != 0;
            &&& plain && usd && s[54] == 4 ==> r == Ok::<XdpAct, ()>(XdpAct::Pass) && inside(
                s,
                x1.data,
                40 + n,
                0x0800,
            ) && x1.stats == x.stats.push(STAT_SRV6_USD)
            &&& plain && usd && s[54] == 41 ==> r == Ok::<XdpAct, ()>(XdpAct::Pass) && inside(
                s,
                x1.data,
                40 + n,
                0x86dd,
            ) && x1.stats == x.stats.push(STAT_SRV6_USD)
            &&& plain && usp && (!usd || (s[54] != 4 && s[54] != 41)) ==> r == Ok::<XdpAct, ()>(
                XdpAct::Pass,
            ) && without_srh(s, x1.data, n) && x1.stats == x.stats.push(STAT_SRV6_USP)
            &&& across || (!usp && !usd) ==> x1 == x && r == Ok::<XdpAct, ()>(XdpAct::Pass)
        }),
{
    reveal(endpoint::ended);
    let n = 8 * x.data[55] + 8;
    popped_header_is_gone(x);
    decapsulation_uncovers(x, 40 + n, 0x0800);
    decapsulation_uncovers(x, 40 + n, 0x86dd);
}

/// A packet that came without a routing header is decapsulated where the segment
/// may; else it goes up as it is.
pub proof fn headerless_packet_is_delivered(t: &Tables, x: XdpView, sid: LocalSid)
    requires
        x.data.len() >= 54,
        x.data[20] != 43,
    ensures
        ({
            let s = x.data;
            let (x1, r) = endpoint::ended(t, x, sid);
            let usd = sid.flavors & SRV6_FLAVOR_USD != 0 && (s[20] == 4 || s[20] == 41);
            &&& sid.behavior == SRV6_BH_END && usd ==> r == Ok::<XdpAct, ()>(XdpAct::Pass)
                && inside(
                s,
                x1.data,
                40,
                if s[20] == 4 {
                    0x0800
                } else {
                    0x86dd
                },
            ) && x1.stats == x.stats.push(STAT_SRV6_USD)
            &&& !usd || sid.behavior == SRV6_BH_END_X || sid.behavior == SRV6_BH_UA ==> x1 == x && r
                == Ok::<XdpAct, ()>(XdpAct::Pass)
        }),
{
    reveal(endpoint::ended);
    decapsulation_uncovers(x, 40, 0x0800);
    decapsulation_uncovers(x, 40, 0x86dd);
}

/// A list that cannot be walked goes up untouched, and one cut short is an error.
pub proof fn unwalkable_list_is_left_alone(t: &Tables, x: XdpView, sid: LocalSid)
    requires
        x.data.len() >= 54,
        x.data[20] == 43,
    ensures
        x.data.len() < 58 ==> endpoint::ended(t, x, sid) == (x, Err::<XdpAct, ()>(())),
        x.data.len() >= 58 && x.data[57] > 6 ==> endpoint::ended(t, x, sid) == (
            x,
            Ok::<XdpAct, ()>(XdpAct::Pass),
        ),
        x.data.len() >= 58 && 1 <= x.data[57] <= 6 && x.data.len() < 62 + 16 * x.data[57]
            ==> endpoint::ended(t, x, sid) == (x, Err::<XdpAct, ()>(())),
{
    reveal(endpoint::ended);
}

/// Room that headers took comes back when they go: the space in front of the
/// packet grows by what was taken off, and with nothing taken off it stays.
pub proof fn headers_leave_room(x: XdpView, strip: int, et: u16)
    requires
        0 < strip,
        x.data.len() >= strip + 14,
        x.headroom + x.data.len() <= usize::MAX,
    ensures
        endpoint::decapped(x, strip, et).0.headroom == x.headroom + strip,
        ({
            let (x1, r) = endpoint::srh_popped(x);
            r is Ok ==> x1.headroom == x.headroom + 8 * x.data[55] + 8
        }),
        frame::with_data(x, x.data.update(0, 0)).headroom == x.headroom,
{
    popped_header_is_gone(x);
}

/// With the penultimate pop, each kind of segment then does as it does without:
/// an adjacency sends the packet straight on, a table segment hands it up with its
/// table, and a plain one hands it up.
pub proof fn popped_packet_goes_its_way(t: &Tables, x: XdpView, sid: LocalSid)
    requires
        has_next(x.data),
        x.data[57] == 1,
        sid.flavors & SRV6_FLAVOR_PSP != 0,
        x.data[55] <= 12,
        x.data[18] * 256 + x.data[19] >= 8 * x.data[55] + 8,
        x.data.len() >= 62 + 8 * x.data[55],
    ensures
        ({
            let w = XdpView {
                data: endpoint::walked(x.data, 0),
                stats: x.stats.push(STAT_SRV6_END),
                ..x
            };
            let p = endpoint::srh_popped(w).0;
            let x1 = XdpView { stats: w.stats.push(STAT_SRV6_PSP), ..p };
            let r = endpoint::ended(t, x, sid);
            let b = sid.behavior;
            let table = (b == SRV6_BH_END_T || b == SRV6_BH_UN) && sid.vrf_id != 0;
            &&& without_srh(w.data, x1.data, 8 * x.data[55] + 8)
            &&& b == SRV6_BH_END_X || b == SRV6_BH_UA ==> r == endpoint::adjacency(
                t,
                x1,
                sid.nexthop_id,
            )
            &&& table && x.meta_room ==> r == (
                XdpView {
                    meta: Some(
                        CradleXdpMeta { magic: XDP_META_MAGIC ^ t.meta_cookie, vrf_id: sid.vrf_id },
                    ),
                    stats: x1.stats.push(STAT_SRV6_ENDT),
                    ..x1
                },
                Ok::<XdpAct, ()>(XdpAct::Pass),
            )
            &&& b == SRV6_BH_END || ((b == SRV6_BH_END_T || b == SRV6_BH_UN) && sid.vrf_id == 0)
                ==> r == (x1, Ok::<XdpAct, ()>(XdpAct::Pass))
        }),
{
    reveal(endpoint::ended);
    walking_advances(x.data);
    let w = XdpView {
        data: endpoint::walked(x.data, 0),
        stats: x.stats.push(STAT_SRV6_END),
        ..x
    };
    popped_header_is_gone(w);
}

/// A table segment that uncovers a packet at the last segment hands it up with its
/// table; the ultimate pop is made by table segments too.
pub proof fn table_segment_delivers(t: &Tables, x: XdpView, sid: LocalSid)
    requires
        x.data.len() >= 58,
        x.data[20] == 43,
        x.data[57] == 0,
        x.data[55] <= 12,
        x.data[18] * 256 + x.data[19] >= 8 * x.data[55] + 8,
        x.data.len() >= 62 + 8 * x.data[55],
        sid.behavior == SRV6_BH_END_T || sid.behavior == SRV6_BH_UN,
    ensures
        ({
            let s = x.data;
            let n = 8 * s[55] + 8;
            let (x1, r) = endpoint::ended(t, x, sid);
            let usd = sid.flavors & SRV6_FLAVOR_USD != 0 && (s[54] == 4 || s[54] == 41);
            let usp = sid.flavors & SRV6_FLAVOR_USP != 0;
            &&& usd && sid.vrf_id != 0 && x.meta_room ==> {
                &&& r == Ok::<XdpAct, ()>(XdpAct::Pass)
                &&& inside(
                    s,
                    x1.data,
                    40 + n,
                    if s[54] == 4 {
                        0x0800
                    } else {
                        0x86dd
                    },
                )
                &&& x1.meta == Some(
                    CradleXdpMeta { magic: XDP_META_MAGIC ^ t.meta_cookie, vrf_id: sid.vrf_id },
                )
                &&& x1.stats == x.stats.push(STAT_SRV6_USD).push(STAT_SRV6_ENDT)
            }
            &&& !usd && usp ==> r == Ok::<XdpAct, ()>(XdpAct::Pass) && without_srh(s, x1.data, n)
                && x1.meta == x.meta && x1.stats == x.stats.push(STAT_SRV6_USP)
            &&& !usd && !usp ==> x1 == x && r == Ok::<XdpAct, ()>(XdpAct::Pass)
        }),
{
    reveal(endpoint::ended);
    let n = 8 * x.data[55] + 8;
    popped_header_is_gone(x);
    decapsulation_uncovers(x, 40 + n, 0x0800);
    decapsulation_uncovers(x, 40 + n, 0x86dd);
}

// ------------------------------- decapsulation ------------------------------

/// Where the packet inside starts, and of what protocol it is: behind the outer
/// header, or behind a routing header with no segment left.
pub open spec fn payload(s: Seq<u8>, proto: u8, strip: int) -> bool {
    ||| s[20] != 43 && proto == s[20] && strip == 40
    ||| s[20] == 43 && s.len() >= 58 && s[57] == 0 && s[55] <= 12 && proto == s[54] && strip == 48
        + 8 * s[55]
}

/// Whether a packet has not reached its last segment, or its list is longer than
/// can be read.
pub open spec fn not_there_yet(s: Seq<u8>) -> bool {
    s[20] == 43 && s.len() >= 58 && (s[57] != 0 || s[55] > 12)
}

proof fn payload_is_inner(s: Seq<u8>, proto: u8, strip: int)
    requires
        s.len() >= 54,
    ensures
        payload(s, proto, strip) <==> endpoint::inner_of(s) == Ok::<Option<(u8, int)>, ()>(
            Some((proto, strip)),
        ),
        not_there_yet(s) <==> endpoint::inner_of(s) == Ok::<Option<(u8, int)>, ()>(None),
{
}

/// The ethertype of what a segment that decapsulates into a table may carry:
/// IPv4, IPv6 or both.
pub open spec fn carried_ethertype(behavior: u8, proto: u8) -> int {
    if proto == 4 && (behavior == SRV6_BH_END_DT4 || behavior == SRV6_BH_END_DT46) {
        0x0800
    } else if proto == 41 && (behavior == SRV6_BH_END_DT6 || behavior == SRV6_BH_END_DT46) {
        0x86dd
    } else {
        0
    }
}

/// A table segment uncovers the packet inside and hands it up for its table; of a
/// protocol that is not the segment's, it is dropped and counted; one that is
/// not at its last segment goes up untouched.
pub proof fn table_segment_decapsulates(
    t: &Tables,
    x: XdpView,
    behavior: u8,
    vrf: u32,
    idx: u32,
    proto: u8,
    strip: int,
)
    requires
        x.data.len() >= 54,
    ensures
        ({
            let s = x.data;
            let et = carried_ethertype(behavior, proto);
            let (x1, r) = endpoint::table_decapped(t, x, behavior, vrf, idx);
            &&& not_there_yet(s) ==> x1 == x && r == Ok::<XdpAct, ()>(XdpAct::Pass)
            &&& payload(s, proto, strip) && et == 0 ==> x1 == (XdpView {
                stats: x.stats.push(STAT_DROP),
                ..x
            }) && r == Ok::<XdpAct, ()>(XdpAct::Drop)
            &&& payload(s, proto, strip) && et != 0 && s.len() < strip + 14 ==> r is Err
            &&& payload(s, proto, strip) && et != 0 && s.len() >= strip + 14 && vrf == 0 ==> {
                &&& inside(s, x1.data, strip, et)
                &&& x1 == (XdpView {
                    data: x1.data,
                    headroom: x1.headroom,
                    stats: x.stats.push(idx),
                    ..x
                })
                &&& r == Ok::<XdpAct, ()>(XdpAct::Pass)
            }
            &&& payload(s, proto, strip) && et != 0 && s.len() >= strip + 14 && vrf != 0
                && x.meta_room ==> {
                &&& inside(s, x1.data, strip, et)
                &&& x1 == (XdpView {
                    data: x1.data,
                    headroom: x1.headroom,
                    stats: x.stats.push(idx),
                    meta: Some(
                        CradleXdpMeta { magic: XDP_META_MAGIC ^ t.meta_cookie, vrf_id: vrf },
                    ),
                    ..x
                })
                &&& r == Ok::<XdpAct, ()>(XdpAct::Pass)
            }
            &&& payload(s, proto, strip) && et != 0 && s.len() >= strip + 14 && vrf != 0
                && !x.meta_room ==> r == Ok::<XdpAct, ()>(XdpAct::Drop)
        }),
{
    payload_is_inner(x.data, proto, strip);
    if strip > 0 {
        decapsulation_uncovers(x, strip, 0x0800);
        decapsulation_uncovers(x, strip, 0x86dd);
    }
}

/// A cross-connect uncovers the packet inside and hands it up for its nexthop;
/// of the other protocol, it is dropped and counted; without its nexthop it is
/// left alone.
pub proof fn cross_connect_decapsulates(t: &Tables, x: XdpView, sid: LocalSid, proto: u8, strip: int)
    requires
        x.data.len() >= 54,
        sid.behavior == SRV6_BH_END_DX4 || sid.behavior == SRV6_BH_END_DX6,
    ensures
        ({
            let s = x.data;
            let mine = if sid.behavior == SRV6_BH_END_DX4 {
                proto == 4
            } else {
                proto == 41
            };
            let et = if sid.behavior == SRV6_BH_END_DX4 {
                0x0800
            } else {
                0x86dd
            };
            let known = t.nexthops@.contains_key(sid.nexthop_id);
            let (x1, r) = endpoint::dx_decapped(t, x, sid);
            &&& not_there_yet(s) || (payload(s, proto, strip) && mine && !known) ==> x1 == x && r
                == Ok::<XdpAct, ()>(XdpAct::Pass)
            &&& payload(s, proto, strip) && !mine ==> x1 == (XdpView {
                stats: x.stats.push(STAT_DROP),
                ..x
            }) && r == Ok::<XdpAct, ()>(XdpAct::Drop)
            &&& payload(s, proto, strip) && mine && known && s.len() < strip + 14 ==> r is Err
            &&& payload(s, proto, strip) && mine && known && s.len() >= strip + 14 && x.meta_room
                ==> {
                &&& inside(s, x1.data, strip, et)
                &&& x1 == (XdpView {
                    data: x1.data,
                    headroom: x1.headroom,
                    stats: x.stats.push(STAT_SRV6_DX),
                    meta: Some(
                        CradleXdpMeta {
                            magic: XDP_META_MAGIC_DX ^ t.meta_cookie,
                            vrf_id: sid.nexthop_id,
                        },
                    ),
                    ..x
                })
                &&& r == Ok::<XdpAct, ()>(XdpAct::Pass)
            }
            &&& payload(s, proto, strip) && mine && known && s.len() >= strip + 14 && !x.meta_room
                ==> r == Ok::<XdpAct, ()>(XdpAct::Drop)
        }),
{
    reveal(endpoint::dx_decapped);
    payload_is_inner(x.data, proto, strip);
    if strip > 0 {
        decapsulation_uncovers(x, strip, 0x0800);
        decapsulation_uncovers(x, strip, 0x86dd);
    }
}

/// Whether `d` is the frame carried whole behind the outer headers of `s`.
pub open spec fn carried_frame(s: Seq<u8>, d: Seq<u8>) -> bool {
    &&& d.len() == s.len() - 54
    &&& forall|i: int| 0 <= i < d.len() ==> #[trigger] d[i] == s[i + 54]
}

/// A circuit segment uncovers the frame inside and hands it up for its circuit:
/// the segment's own, or that of the frame's VLAN in the segment's table. What
/// carries no frame, or a frame of no circuit, goes up untouched.
pub proof fn circuit_segment_decapsulates(t: &Tables, x: XdpView, sid: LocalSid)
    requires
        x.data.len() >= 70,
        sid.behavior == SRV6_BH_END_DX2 || sid.behavior == SRV6_BH_END_DX2V,
    ensures
        ({
            let s = x.data;
            let circuit = if sid.behavior == SRV6_BH_END_DX2 {
                sid.vrf_id
            } else if s[66] * 256 + s[67] != 0x8100 {
                0
            } else {
                match t.dx2v@.get(
                    Dx2vKey {
                        table: sid.vrf_id,
                        vid: ((s[68] * 256 + s[69]) % 4096) as u16,
                        _pad: [0u8, 0u8],
                    },
                ) {
                    Some(oif) => oif,
                    None => 0,
                }
            };
            let (x1, r) = endpoint::dx2_decapped(t, x, sid);
            &&& s[20] != 143 || circuit == 0 ==> x1 == x && r == Ok::<XdpAct, ()>(XdpAct::Pass)
            &&& s[20] == 143 && circuit != 0 && x.meta_room ==> {
                &&& carried_frame(s, x1.data)
                &&& x1 == (XdpView {
                    data: x1.data,
                    headroom: x1.headroom,
                    stats: x.stats.push(STAT_SRV6_DX2),
                    meta: Some(
                        CradleXdpMeta {
                            magic: XDP_META_MAGIC_DX2 ^ t.meta_cookie,
                            vrf_id: circuit,
                        },
                    ),
                    ..x
                })
                &&& r == Ok::<XdpAct, ()>(XdpAct::Pass)
            }
            &&& s[20] == 143 && circuit != 0 && !x.meta_room ==> r == Ok::<XdpAct, ()>(XdpAct::Drop)
        }),
{
    reveal(endpoint::dx2_decapped);
}

/// A bridging segment uncovers the frame inside and hands it up for its domain;
/// what carries no frame goes up untouched.
pub proof fn bridge_segment_decapsulates(t: &Tables, x: XdpView, sid: LocalSid)
    requires
        x.data.len() >= 54,
    ensures
        ({
            let (x1, r) = endpoint::dt2_decapped(t, x, sid);
            &&& x.data[20] != 143 ==> x1 == x && r == Ok::<XdpAct, ()>(XdpAct::Pass)
            &&& x.data[20] == 143 && x.data.len() < 68 ==> x1 == x && r is Err
            &&& x.data[20] == 143 && x.data.len() >= 68 && x.meta_room ==> {
                &&& carried_frame(x.data, x1.data)
                &&& x1 == (XdpView {
                    data: x1.data,
                    headroom: x1.headroom,
                    stats: x.stats.push(STAT_SRV6_L2_DECAP),
                    meta: Some(
                        CradleXdpMeta {
                            magic: XDP_META_MAGIC_L2 ^ t.meta_cookie,
                            vrf_id: sid.vrf_id,
                        },
                    ),
                    ..x
                })
                &&& r == Ok::<XdpAct, ()>(XdpAct::Pass)
            }
            &&& x.data[20] == 143 && x.data.len() >= 68 && !x.meta_room ==> r == Ok::<XdpAct, ()>(
                XdpAct::Drop,
            )
        }),
{
    reveal(endpoint::dt2_decapped);
}

/// A mirror segment uncovers a packet for a segment of the node it stands in for,
/// and ends it as that node's segment would; what has no mirrored segment inside
/// goes up untouched.
pub proof fn mirror_stands_in(t: &Tables, x: XdpView, sid: LocalSid, proto: u8, strip: int)
    requires
        x.data.len() >= 54,
        payload(x.data, proto, strip),
        x.data.len() >= strip + 54,
    ensures
        ({
            let s = x.data;
            let inner = XdpView {
                data: s.take(12) + seq![0x86u8, 0xddu8] + s.skip(strip + 14),
                headroom: endpoint::decapped(x, strip, 0x86dd).0.headroom,
                ..x
            };
            let m = lpm::matched(
                t.mirror@,
                bytes::le32_bytes(sid.vrf_id) + s.subrange(strip + 38, strip + 54),
            );
            let r = endpoint::mirrored(t, x, sid);
            &&& proto != 41 || m is None ==> r == (x, Ok::<XdpAct, ()>(XdpAct::Pass))
            &&& proto == 41 ==> match m {
                Some(e) => r == endpoint::table_decapped(
                    t,
                    inner,
                    e.behavior,
                    e.vrf_id,
                    STAT_SRV6_ENDM,
                ),
                None => true,
            }
        }),
{
    reveal(endpoint::mirrored);
    payload_is_inner(x.data, proto, strip);
    assert(bytes::oct16(x.data, strip + 38)@ =~= x.data.subrange(strip + 38, strip + 54));
    assert(bytes::be16_bytes(0x86dd) =~= seq![0x86u8, 0xddu8]);
}

// ---------------------------------- binding ---------------------------------

/// Whether a packet may be bound to another policy: it is at a segment of a list
/// that can be walked and has hops left.
pub open spec fn bindable(s: Seq<u8>) -> bool {
    &&& s.len() >= 59 && s[20] == 43
    &&& 2 <= s[55] <= 12
    &&& 1 <= s[57] <= 6
    &&& s[58] <= s[55] / 2 - 1
    &&& s[57] <= s[58] + 1
    &&& s[21] > 1
}

/// A binding segment takes the packet to its next segment with one hop less, and
/// puts the bound policy's headers in front; the packet then goes up to be routed
/// by them.
pub proof fn binding_puts_its_policy_in_front(t: &Tables, x: XdpView, sid: LocalSid, enc: Srv6Encap)
    requires
        bindable(x.data),
        has_next(x.data),
        t.srv6_encap@.get(sid.nexthop_id) == Some(enc),
        1 <= enc.num_segs <= 6,
        enc.mode != SRV6_ENCAP_MODE_INSERT,
    ensures
        ({
            let s = x.data;
            let n = enc.num_segs as int;
            let more = if n == 1 {
                40
            } else {
                48 + 16 * (n - 1)
            };
            let (x1, r) = sids::bound(t, x, sid);
            let d = x1.data;
            let w = endpoint::walked(s.update(21, (s[21] - 1) as u8), s[57] - 1);
            &&& advanced(s.update(21, (s[21] - 1) as u8), w)
            &&& r == Ok::<XdpAct, ()>(XdpAct::Pass)
            &&& more > x.headroom ==> d == w
            &&& more <= x.headroom ==> {
                &&& d.len() == s.len() + more
                &&& forall|i: int| 0 <= i < 12 ==> #[trigger] d[i] == s[i]
                &&& d[12] == 0x86 && d[13] == 0xdd
                &&& d.subrange(14, 14 + more) == headers::encaps_red(
                    bytes::wrap16(s.len() - 14 + more - 40),
                    41,
                    t.srv6_encap_src,
                    enc.segs,
                    n,
                )
                &&& forall|i: int| 14 <= i < s.len() ==> #[trigger] d[i + more] == w[i]
                &&& x1.stats == x.stats.push(STAT_SRV6_B6)
            }
        }),
{
    reveal(sids::bound);
    let s = x.data;
    let n = enc.num_segs as int;
    let u = s.update(21, (s[21] - 1) as u8);
    walking_advances(u);
    let w = endpoint::walked(u, s[57] - 1);
    headers::header_lengths(
        bytes::wrap16(s.len() - 14 + headers::red_srh_len(n)),
        41,
        t.srv6_encap_src,
        enc.segs,
        n,
    );
    if 40 + headers::red_srh_len(n) <= x.headroom {
        let more = 40 + headers::red_srh_len(n);
        let front = sids::bound_front(t, w, enc, s.len() - 14);
        let d = sids::bound(t, x, sid).0.data;
        assert(d =~= front + w.skip(14));
        assert(front.len() == 14 + more);
        let e = headers::encaps_red(
            bytes::wrap16(s.len() - 14 + more - 40),
            41,
            t.srv6_encap_src,
            enc.segs,
            n,
        );
        assert(front =~= w.take(12) + seq![0x86u8, 0xddu8] + e);
        assert(d.subrange(14, 14 + more) =~= e);
        assert forall|i: int| 14 <= i < s.len() implies #[trigger] d[i + more] == w[i] by {}
    }
}

/// What may not be bound, or has no policy to be bound to, goes up untouched.
pub proof fn unbindable_packet_is_left_alone(t: &Tables, x: XdpView, sid: LocalSid)
    requires
        x.data.len() >= 59,
    ensures
        !bindable(x.data) || !t.srv6_encap@.contains_key(sid.nexthop_id) ==> sids::bound(t, x, sid)
            == (x, Ok::<XdpAct, ()>(XdpAct::Pass)),
        t.srv6_encap@.get(sid.nexthop_id) matches Some(e) ==> e.mode == SRV6_ENCAP_MODE_INSERT
            || e.num_segs == 0 || e.num_segs > 6 ==> sids::bound(t, x, sid) == (
            x,
            Ok::<XdpAct, ()>(XdpAct::Pass),
        ),
{
    reveal(sids::bound);
}

// -------------------------------- the stage ---------------------------------

/// The behavior of the most exact local segment decides what becomes of the
/// packet; one for no local segment goes up untouched.
pub proof fn segment_decides(t: &Tables, x: XdpView, sid: LocalSid)
    requires
        x.data.len() >= 54,
    ensures
        ({
            let m = lpm::matched(t.srv6_localsid@, x.data.subrange(38, 54));
            let r = sids::srv6_staged(t, x);
            let b = sid.behavior;
            &&& m is None ==> r == (x, Ok::<XdpAct, ()>(XdpAct::Pass))
            &&& m == Some(sid) ==> {
                &&& b == SRV6_BH_END || b == SRV6_BH_END_X || b == SRV6_BH_UA || b == SRV6_BH_END_T
                    ==> r == endpoint::ended(t, x, sid)
                &&& b == SRV6_BH_UN ==> r == endpoint::un_forwarded(t, x, sid)
                &&& b == SRV6_BH_UALIB ==> r == endpoint::ua_forwarded(t, x, sid)
                &&& b == SRV6_BH_END_REP || b == SRV6_BH_END_X_REP ==> r == csid::replaced(
                    t,
                    x,
                    sid,
                )
                &&& b == SRV6_BH_END_REPLICATE && x.meta_room ==> r == (
                    XdpView {
                        meta: Some(
                            CradleXdpMeta {
                                magic: XDP_META_MAGIC_REPL ^ t.meta_cookie,
                                vrf_id: 0,
                            },
                        ),
                        ..x
                    },
                    Ok::<XdpAct, ()>(XdpAct::Pass),
                )
                &&& b == SRV6_BH_END_DX4 || b == SRV6_BH_END_DX6 ==> r == endpoint::dx_decapped(
                    t,
                    x,
                    sid,
                )
                &&& b == SRV6_BH_END_DX2 || b == SRV6_BH_END_DX2V ==> r == endpoint::dx2_decapped(
                    t,
                    x,
                    sid,
                )
                &&& b == SRV6_BH_END_B6 ==> r == sids::bound(t, x, sid)
                &&& b == SRV6_BH_END_DT2U || b == SRV6_BH_END_DT2M ==> r == endpoint::dt2_decapped(
                    t,
                    x,
                    sid,
                )
                &&& b == SRV6_BH_END_M ==> r == endpoint::mirrored(t, x, sid)
                &&& b == SRV6_BH_END_DT4 || b == SRV6_BH_END_DT6 || b == SRV6_BH_END_DT46 ==> r
                    == endpoint::table_decapped(t, x, b, sid.vrf_id, STAT_SRV6_DECAP)
                &&& b > SRV6_BH_END_REPLICATE ==> r == (x, Ok::<XdpAct, ()>(XdpAct::Pass))
            }
        }),
{
    reveal(sids::srv6_staged);
    reveal(sids::behaved);
    assert(bytes::oct16(x.data, 38)@ =~= x.data.subrange(38, 54));
}

} // verus!
