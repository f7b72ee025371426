//! What one node puts into a tunnel, another takes out: laws that tie a
//! sender's imposition to the receiver's decapsulation, each over the tables
//! of its own node.

use vstd::prelude::*;
use crate::bytes;
use crate::endpoint;
use crate::endpoint::Step;
use crate::fib;
use crate::frame;
use crate::frame::{XdpAct, XdpView};
use crate::headers;
use crate::impose;
use crate::label;
use crate::lpm;
use crate::overlay;
use crate::sids;
use crate::skb::{TcAct, TcView};
use crate::tables::Tables;
use crate::types::{
    Dx2vKey, FdbEntry, GtpEncap, GtpPdr, GtpPdrKey, LocalSid, MplsEntry, NextHop, Srv6Encap,
    VniInfo, VxlanEncap, MAX_LABELS, MAX_SEGS, MPLS_E_TTL_UNIFORM, MPLS_OP_POP, MPLS_OP_POP_L3,
    MPLS_OP_SWAP, MPLS_PIPE_TTL, NH_F_MPLS_PIPE, SRV6_BH_END, SRV6_BH_END_DT2M,
    SRV6_BH_END_DT2U, SRV6_BH_END_DX2, SRV6_BH_END_DX2V, SRV6_BH_END_T, SRV6_BH_END_X,
    SRV6_BH_UA, SRV6_ENCAP_MODE_INSERT, SRV6_FLAVOR_PSP, STAT_GTP_DECAP, STAT_MPLS_POP,
    STAT_SRV6_DECAP, STAT_SRV6_DX, STAT_SRV6_DX2, STAT_SRV6_END, STAT_SRV6_L2_DECAP,
    STAT_SRV6_PSP, STAT_VXLAN_DECAP, VNI_F_L3, XDP_META_MAGIC, XDP_META_MAGIC_DX,
    XDP_META_MAGIC_DX2, XDP_META_MAGIC_L2,
};
use crate::wire::{
    ETH_P_8021Q, ETH_P_IP, ETH_P_IPV6, ETH_P_MPLS_UC, ETH_TYPE_OFF, IPPROTO_IPV6,
    IPPROTO_ROUTING, VXLAN_PORT,
};
use crate::words;

verus! {

// --------------------------------- GTP-U ------------------------------------

/// A packet sent into a GTP-U tunnel comes out of it unchanged: the peer with
/// a rule for the tunnel's endpoint and TEID has the inner packet, and routes
/// it in the rule's table.
pub proof fn gtp_delivers(
    near: &Tables,
    far: &Tables,
    c: TcView,
    c1: TcView,
    nh_id: u32,
    nh: NextHop,
    enc: GtpEncap,
    pdr: GtpPdr,
    et: u16,
    x: XdpView,
)
    requires
        c.data.len() > 14,
        overlay::version_ethertype(c.data[14]) == Some(et),
        near.gtp_encap@.get(nh_id) == Some(enc),
        impose::gtp_encapped(near, c, nh_id, nh) == (
            c1,
            Ok::<TcAct, ()>(TcAct::Redirect(nh.oif)),
        ),
        far.gtp_pdr@.get(GtpPdrKey { dst: enc.dst, teid: enc.teid }) == Some(pdr),
        x.data == c1.data,
    ensures
        overlay::gtp_staged(far, x) == endpoint::in_table(
            far,
            frame::stat(
                frame::with_data(
                    x,
                    x.data.take(12) + bytes::be16_bytes(et) + c.data.skip(14),
                ),
                STAT_GTP_DECAP,
            ),
            pdr.vrf_id,
        ),
{
    reveal(impose::gtp_encapped);
    reveal(fib::xmitted);
    let (dst, src) = fib::l2_of(near, nh)->0;
    let eth = bytes::eth_hdr(dst, src, ETH_P_IP);
    let inner = c.data.skip(14);
    let outer = impose::gtp_outer(enc, c.data.len() - 14);
    assert(outer.len() == 36);
    assert(bytes::inserted(c.data, 14, outer).skip(14) =~= outer + inner);
    assert(x.data =~= eth + outer + inner);
    assert(x.data.take(12) =~= eth.take(12));
    overlay::gtp_decap_undoes_encap(far, x, enc, eth, inner, pdr, et);
}

// --------------------------------- VXLAN ------------------------------------

/// What a VTEP does with an inner frame of a VNI it has bound.
pub open spec fn vxlan_received(t: &Tables, x: XdpView, inner: Seq<u8>, info: VniInfo) -> (
    XdpView,
    Result<XdpAct, ()>,
) {
    let x1 = frame::stat(frame::with_data(x, inner), STAT_VXLAN_DECAP);
    if info.flags & VNI_F_L3 != 0 {
        endpoint::hand_up(t, x1, XDP_META_MAGIC, info.vrf_id)
    } else {
        endpoint::hand_up(t, x1, XDP_META_MAGIC_L2, info.vlan as u32)
    }
}

/// A bridged frame sent into a VXLAN tunnel comes out of it unchanged: the
/// VTEP it is addressed to has the frame, in what its VNI is bound to.
pub proof fn vxlan_delivers_frame(
    near: &Tables,
    far: &Tables,
    x: XdpView,
    x1: XdpView,
    ent: FdbEntry,
    vni: u32,
    idx: u32,
    oif: u32,
    info: VniInfo,
    y: XdpView,
)
    requires
        x.data.len() >= 14,
        vni < 0x100_0000,
        overlay::vxlan_l2_encapped(near, x, ent, vni, idx) == (
            x1,
            Ok::<XdpAct, ()>(XdpAct::Redirect(oif)),
        ),
        far.vxlan_src == overlay::vtep_of(ent.remote_sid),
        far.vxlan_src != [0u8, 0u8, 0u8, 0u8],
        far.vni_info@.get(vni) == Some(info),
        y.data == x1.data,
    ensures
        overlay::vxlan_staged(far, y) == vxlan_received(far, y, x.data, info),
{
    reveal(overlay::vxlan_l2_encapped);
    reveal(overlay::vxlan_staged);
    let (_, dst, src) = overlay::underlay(
        near,
        ent.oif,
        lpm::matched(near.fib4@, overlay::vtep_of(ent.remote_sid)@),
    )->0;
    let sport = overlay::entropy_port(x.data);
    let n = x.data.len() as int;
    assert(x.data.skip(0) =~= x.data);
    overlay::vxlan_encap_selects_binding(far, dst, src, near.vxlan_src, sport, vni, x.data);
    overlay::vxlan_decap_undoes_encap(dst, src, near.vxlan_src, far.vxlan_src, sport, vni, x.data);
    let hdr = overlay::vxlan_outer(dst, src, near.vxlan_src, far.vxlan_src, sport, vni, n);
    assert(y.data == hdr + x.data);
}

/// A routed packet sent into a VXLAN tunnel comes out of it unchanged, behind
/// an Ethernet header from the sender's router MAC to the receiver's.
pub proof fn vxlan_delivers_packet(
    near: &Tables,
    far: &Tables,
    c: TcView,
    c1: TcView,
    nh_id: u32,
    nh: NextHop,
    et: u16,
    enc: VxlanEncap,
    own: VniInfo,
    info: VniInfo,
    x: XdpView,
)
    requires
        c.data.len() >= 14,
        enc.l3vni < 0x100_0000,
        near.vxlan_encap@.get(nh_id) == Some(enc),
        near.vni_info@.get(enc.l3vni) == Some(own),
        impose::vxlan_l3_encapped(near, c, nh_id, nh, et) == (
            c1,
            Ok::<TcAct, ()>(TcAct::Redirect(nh.oif)),
        ),
        far.vxlan_src == enc.vtep,
        far.vxlan_src != [0u8, 0u8, 0u8, 0u8],
        far.vni_info@.get(enc.l3vni) == Some(info),
        x.data == c1.data,
    ensures
        overlay::vxlan_staged(far, x) == vxlan_received(
            far,
            x,
            bytes::eth_hdr(enc.rmac, own.rmac, et) + c.data.skip(14),
            info,
        ),
{
    reveal(impose::vxlan_l3_encapped);
    reveal(fib::xmitted);
    reveal(overlay::vxlan_staged);
    let (dst, src) = fib::l2_of(near, nh)->0;
    let n = c.data.len() - 14;
    let hdr = impose::vxlan_l3_outer(near.vxlan_src, enc, own.rmac, et, n);
    let inner = bytes::eth_hdr(enc.rmac, own.rmac, et) + c.data.skip(14);
    assert(hdr.len() == 50);
    assert(bytes::inserted(c.data, 14, hdr).skip(14) =~= hdr + c.data.skip(14));
    let outer = overlay::vxlan_outer(
        dst,
        src,
        near.vxlan_src,
        far.vxlan_src,
        VXLAN_PORT,
        enc.l3vni,
        inner.len() as int,
    );
    assert(x.data =~= outer + inner);
    overlay::vxlan_encap_selects_binding(
        far,
        dst,
        src,
        near.vxlan_src,
        VXLAN_PORT,
        enc.l3vni,
        inner,
    );
    overlay::vxlan_decap_undoes_encap(
        dst,
        src,
        near.vxlan_src,
        far.vxlan_src,
        VXLAN_PORT,
        enc.l3vni,
        inner,
    );
}

// ------------------------------ MAC-in-SRv6 ---------------------------------

/// A frame sent MAC-in-SRv6 to an `End.DT2U` / `End.DT2M` SID comes out
/// unchanged, in the SID's bridge domain; to an `End.DX2` SID, on its circuit; to
/// an `End.DX2V` SID, on the circuit of its VLAN tag.
pub proof fn srv6_l2_delivers_frame(
    near: &Tables,
    far: &Tables,
    x: XdpView,
    x1: XdpView,
    ent: FdbEntry,
    idx: u32,
    oif: u32,
    sid: LocalSid,
    y: XdpView,
)
    requires
        x.data.len() >= 14,
        overlay::srv6_l2_encapped(near, x, ent, idx) == (
            x1,
            Ok::<XdpAct, ()>(XdpAct::Redirect(oif)),
        ),
        lpm::matched(far.srv6_localsid@, ent.remote_sid@) == Some(sid),
        y.data == x1.data,
    ensures
        sid.behavior == SRV6_BH_END_DT2U || sid.behavior == SRV6_BH_END_DT2M ==> sids::srv6_staged(
            far,
            y,
        ) == endpoint::hand_up(
            far,
            frame::stat(frame::with_data(y, x.data), STAT_SRV6_L2_DECAP),
            XDP_META_MAGIC_L2,
            sid.vrf_id,
        ),
        sid.behavior == SRV6_BH_END_DX2 && sid.vrf_id != 0 ==> sids::srv6_staged(far, y)
            == endpoint::hand_up(
            far,
            frame::stat(frame::with_data(y, x.data), STAT_SRV6_DX2),
            XDP_META_MAGIC_DX2,
            sid.vrf_id,
        ),
        sid.behavior == SRV6_BH_END_DX2V && x.data.len() >= 16 && bytes::be16(x.data, 12)
            == ETH_P_8021Q ==> match far.dx2v@.get(
            Dx2vKey {
                table: sid.vrf_id,
                vid: (bytes::be16(x.data, 14) % 0x1000) as u16,
                _pad: [0u8, 0u8],
            },
        ) {
            Some(circuit) => circuit != 0 ==> sids::srv6_staged(far, y) == endpoint::hand_up(
                far,
                frame::stat(frame::with_data(y, x.data), STAT_SRV6_DX2),
                XDP_META_MAGIC_DX2,
                circuit,
            ),
            None => true,
        },
{
    reveal(overlay::srv6_l2_encapped);
    reveal(sids::srv6_staged);
    reveal(sids::behaved);
    reveal(endpoint::dt2_decapped);
    reveal(endpoint::dx2_decapped);
    let (_, dst, src) = overlay::underlay(
        near,
        ent.oif,
        lpm::matched(near.fib6@, ent.remote_sid@),
    )->0;
    let hdr = overlay::srv6_l2_outer(
        dst,
        src,
        near.srv6_encap_src,
        ent.remote_sid,
        x.data.len() as int,
    );
    assert(x.data.skip(0) =~= x.data);
    assert(y.data == hdr + x.data);
    overlay::srv6_l2_decap_undoes_encap(dst, src, near.srv6_encap_src, ent.remote_sid, x.data);
    assert(bytes::oct16(y.data, 38)@ =~= y.data.subrange(38, 54));
    assert(forall|i: int| 0 <= i < x.data.len() ==> y.data[54 + i] == x.data[i]);
}

// ---------------------------------- MPLS ------------------------------------

/// A packet behind the labels of a stack from place `i` on.
#[verifier::opaque]
pub open spec fn stacked(
    eth: Seq<u8>,
    labels: [u32; MAX_LABELS],
    n: int,
    i: int,
    ttl: u8,
    inner: Seq<u8>,
) -> Seq<u8>
    decreases n - i,
{
    if i >= n {
        eth + inner
    } else {
        eth + entry(labels, n, i, ttl) + stacked(eth, labels, n, i + 1, ttl, inner).skip(
            eth.len() as int,
        )
    }
}

/// Entry `i` of an imposed stack.
pub open spec fn entry(labels: [u32; MAX_LABELS], n: int, i: int, ttl: u8) -> Seq<u8> {
    bytes::be32_bytes(
        words::lse_value(
            labels[i] as int,
            0,
            if i == n - 1 {
                1
            } else {
                0
            },
            ttl as int,
        ) as u32,
    )
}

proof fn stack_is_stacked(
    eth: Seq<u8>,
    labels: [u32; MAX_LABELS],
    n: int,
    ttl: u8,
    inner: Seq<u8>,
)
    requires
        1 <= n <= MAX_LABELS,
    ensures
        eth + headers::label_stack(labels, n, 1, ttl, n) + inner == stacked(
            eth,
            labels,
            n,
            0,
            ttl,
            inner,
        ),
{
    reveal(stacked);
    reveal_with_fuel(stacked, 5);
    reveal_with_fuel(headers::label_stack, 5);
    assert(eth + headers::label_stack(labels, n, 1, ttl, n) + inner =~= stacked(
        eth,
        labels,
        n,
        0,
        ttl,
        inner,
    ));
}

/// Whether a node pops a label for itself: the label's entry has no nexthop to
/// forward to and nothing to impose.
pub open spec fn pops_label(t: &Tables, label: u32) -> bool {
    match t.mpls_fib@.get(label) {
        Some(e) => (e.op == MPLS_OP_POP || e.op == MPLS_OP_SWAP) && match t.nexthops@.get(
            e.nexthop_id,
        ) {
            Some(nh) => nh.num_labels == 0 && nh.oif == 0,
            None => false,
        },
        None => false,
    }
}

/// Whether a node delivers what a bottom label carries: it pops the label for
/// itself, or decapsulates outright.
pub open spec fn delivers_label(t: &Tables, label: u32) -> bool {
    pops_label(t, label) || match t.mpls_fib@.get(label) {
        Some(e) => e.op == MPLS_OP_POP_L3 && t.nexthops@.contains_key(e.nexthop_id),
        None => false,
    }
}

/// What the bottom label's pop leaves: the packet in the entry's table, with the
/// label's TTL in its header under the uniform model.
pub open spec fn left_by(t: &Tables, x: XdpView, ent: MplsEntry, et: u16, ttl: u8) -> Step {
    let (x1, r) = if ent.flags & MPLS_E_TTL_UNIFORM != 0 {
        label::uniform(x, et, ttl)
    } else {
        (x, Ok(()))
    };
    if r is Err {
        (x1, Err(()))
    } else {
        endpoint::in_table(t, x1, ent.vrf_id)
    }
}

/// The TTL that an imposed stack starts with.
pub open spec fn seed_ttl(nh: NextHop, ttl: u8) -> u8 {
    if nh.flags & NH_F_MPLS_PIPE != 0 {
        MPLS_PIPE_TTL
    } else {
        ttl
    }
}

/// `x` with `n` pops counted.
pub open spec fn pops(x: XdpView, n: int) -> XdpView
    decreases n,
{
    if n <= 0 {
        x
    } else {
        pops(frame::stat(x, STAT_MPLS_POP), n - 1)
    }
}

proof fn stacked_layout(
    eth: Seq<u8>,
    labels: [u32; MAX_LABELS],
    n: int,
    i: int,
    ttl: u8,
    inner: Seq<u8>,
)
    requires
        0 <= i < n <= MAX_LABELS,
        labels[i] < 0x10_0000,
        eth.len() == 14,
        eth.skip(12) == bytes::be16_bytes(ETH_P_MPLS_UC),
    ensures
        ({
            let s = stacked(eth, labels, n, i, ttl, inner);
            let bos = if i == n - 1 { 1u8 } else { 0u8 };
            &&& s.len() >= 18
            &&& s.take(14) == eth
            &&& bytes::be16(s, 12) == ETH_P_MPLS_UC
            &&& words::lse_fields(bytes::be32(s, 14)) == (labels[i], 0u8, bos, ttl)
            &&& s.take(12) + bytes::be16_bytes(ETH_P_MPLS_UC) + s.skip(18) == stacked(
                eth,
                labels,
                n,
                i + 1,
                ttl,
                inner,
            )
        }),
{
    reveal(stacked);
    let s = stacked(eth, labels, n, i, ttl, inner);
    let rest = stacked(eth, labels, n, i + 1, ttl, inner);
    let bos = if i == n - 1 { 1u8 } else { 0u8 };
    let word = words::lse_value(labels[i] as int, 0, bos as int, ttl as int) as u32;
    let b = bytes::be32_bytes(word);
    bytes::be32_round_trip(word);
    words::lse_round_trip(labels[i], 0, bos, ttl);
    assert(entry(labels, n, i, ttl) == b);
    stacked_head(eth, labels, n, i + 1, ttl, inner);
    assert(s[14] == b[0] && s[15] == b[1] && s[16] == b[2] && s[17] == b[3]);
    bytes::be16_round_trip(ETH_P_MPLS_UC);
    let tag = bytes::be16_bytes(ETH_P_MPLS_UC);
    assert(eth.skip(12)[0] == tag[0] && eth.skip(12)[1] == tag[1]);
    assert(s[12] == tag[0] && s[13] == tag[1]);
    assert(s.take(14) =~= eth);
    assert(eth =~= eth.take(12) + eth.skip(12));
    assert(s.skip(18) =~= rest.skip(14));
    assert(rest =~= eth + rest.skip(14));
    assert(s.take(12) + tag + s.skip(18) =~= rest);
}

proof fn stacked_head(
    eth: Seq<u8>,
    labels: [u32; MAX_LABELS],
    n: int,
    i: int,
    ttl: u8,
    inner: Seq<u8>,
)
    ensures
        stacked(eth, labels, n, i, ttl, inner).len() >= eth.len() + inner.len(),
        stacked(eth, labels, n, i, ttl, inner).take(eth.len() as int) == eth,
    decreases n - i,
{
    reveal(stacked);
    if i < n {
        stacked_head(eth, labels, n, i + 1, ttl, inner);
    }
    assert(stacked(eth, labels, n, i, ttl, inner).take(eth.len() as int) =~= eth);
}

proof fn pops_from(
    t: &Tables,
    x: XdpView,
    eth: Seq<u8>,
    labels: [u32; MAX_LABELS],
    n: int,
    i: int,
    ttl: u8,
    inner: Seq<u8>,
    et: u16,
    rounds: int,
)
    requires
        0 <= i < n <= MAX_LABELS,
        rounds >= n - i,
        eth.len() == 14,
        eth.skip(12) == bytes::be16_bytes(ETH_P_MPLS_UC),
        inner.len() > 0,
        overlay::version_ethertype(inner[0]) == Some(et),
        ttl > 1,
        forall|k: int| 0 <= k < n ==> #[trigger] labels[k] < 0x10_0000,
        forall|k: int| 0 <= k < n - 1 ==> pops_label(t, #[trigger] labels[k]),
        delivers_label(t, labels[n - 1]),
        x.data == stacked(eth, labels, n, i, ttl, inner),
    ensures
        label::mpls_staged(t, x, rounds) == left_by(
            t,
            frame::with_data(
                pops(x, n - i),
                eth.take(12) + bytes::be16_bytes(et) + inner,
            ),
            t.mpls_fib@[labels[n - 1]],
            et,
            ttl,
        ),
    decreases n - i,
{
    if i == n - 1 {
        bottom_label_pops(t, x, eth, labels, n, ttl, inner, et, rounds);
    } else {
        let x1 = label::popped(x, ETH_P_MPLS_UC);
        assert(pops_label(t, labels[i]));
        upper_label_pops(t, x, eth, labels, n, i, ttl, inner, rounds);
        pops_from(t, x1, eth, labels, n, i + 1, ttl, inner, et, rounds - 1);
        pops_data(frame::stat(x, STAT_MPLS_POP), x1.data, n - i - 1);
        stacked_head(eth, labels, n, i + 1, ttl, inner);
        stacked_head(eth, labels, n, i, ttl, inner);
        stacked_layout(eth, labels, n, i, ttl, inner);
        assert(frame::with_data(pops(x1, n - i - 1), eth.take(12) + bytes::be16_bytes(et) + inner)
            =~= frame::with_data(pops(x, n - i), eth.take(12) + bytes::be16_bytes(et) + inner));
    }
}

proof fn bottom_label_pops(
    t: &Tables,
    x: XdpView,
    eth: Seq<u8>,
    labels: [u32; MAX_LABELS],
    n: int,
    ttl: u8,
    inner: Seq<u8>,
    et: u16,
    rounds: int,
)
    requires
        1 <= n <= MAX_LABELS,
        rounds >= 1,
        eth.len() == 14,
        eth.skip(12) == bytes::be16_bytes(ETH_P_MPLS_UC),
        inner.len() > 0,
        overlay::version_ethertype(inner[0]) == Some(et),
        ttl > 1,
        labels[n - 1] < 0x10_0000,
        delivers_label(t, labels[n - 1]),
        x.data == stacked(eth, labels, n, n - 1, ttl, inner),
    ensures
        label::mpls_staged(t, x, rounds) == left_by(
            t,
            frame::with_data(pops(x, 1), eth.take(12) + bytes::be16_bytes(et) + inner),
            t.mpls_fib@[labels[n - 1]],
            et,
            ttl,
        ),
{
    reveal(label::decapped_local);
    stacked_layout(eth, labels, n, n - 1, ttl, inner);
    let s = x.data;
    assert(s == eth + entry(labels, n, n - 1, ttl) + inner) by {
        reveal_with_fuel(stacked, 2);
        assert(stacked(eth, labels, n, n, ttl, inner).skip(14) =~= inner);
    }
    assert(s[18] == inner[0]);
    assert(s.skip(18) =~= inner);
    assert(s.take(12) =~= eth.take(12));
    reveal_with_fuel(pops, 2);
    assert(label::popped(x, et) =~= frame::with_data(
        pops(x, 1),
        eth.take(12) + bytes::be16_bytes(et) + inner,
    ));
    let ent = t.mpls_fib@[labels[n - 1]];
    assert(label::label_round(t, x) == label::finished(
        label::decapped_local(
            t,
            x,
            ent.vrf_id,
            ttl,
            ent.flags & MPLS_E_TTL_UNIFORM != 0,
        ),
    ));
}

proof fn upper_label_pops(
    t: &Tables,
    x: XdpView,
    eth: Seq<u8>,
    labels: [u32; MAX_LABELS],
    n: int,
    i: int,
    ttl: u8,
    inner: Seq<u8>,
    rounds: int,
)
    requires
        0 <= i < n - 1,
        n <= MAX_LABELS,
        rounds >= 1,
        eth.len() == 14,
        eth.skip(12) == bytes::be16_bytes(ETH_P_MPLS_UC),
        ttl > 1,
        labels[i] < 0x10_0000,
        pops_label(t, labels[i]),
        x.data == stacked(eth, labels, n, i, ttl, inner),
    ensures
        label::mpls_staged(t, x, rounds) == label::mpls_staged(
            t,
            label::popped(x, ETH_P_MPLS_UC),
            rounds - 1,
        ),
        label::popped(x, ETH_P_MPLS_UC).data == stacked(eth, labels, n, i + 1, ttl, inner),
{
    stacked_layout(eth, labels, n, i, ttl, inner);
    assert(label::label_round(t, x) == (
        label::popped(x, ETH_P_MPLS_UC),
        None::<Result<XdpAct, ()>>,
    ));
}

/// Counting pops does not look at the frame.
proof fn pops_data(x: XdpView, d: Seq<u8>, n: int)
    ensures
        pops(frame::with_data(x, d), n) == frame::with_data(pops(x, n), d),
        pops(x, n).data == x.data,
        pops(x, n).headroom == x.headroom,
    decreases n,
{
    if n > 0 {
        pops_data(frame::stat(x, STAT_MPLS_POP), d, n - 1);
        assert(frame::stat(frame::with_data(x, d), STAT_MPLS_POP) == frame::with_data(
            frame::stat(x, STAT_MPLS_POP),
            d,
        ));
    }
}

/// A packet sent behind a label stack comes out of it: the node that owns every
/// label of the stack pops them all in one pass and has the packet, in the
/// bottom label's table. Under the pipe model it is unchanged; under the
/// uniform one the labels' TTL is written into it.
pub proof fn mpls_delivers(
    near: &Tables,
    far: &Tables,
    c: TcView,
    c1: TcView,
    nh: NextHop,
    ttl: u8,
    et: u16,
    x: XdpView,
)
    requires
        c.data.len() > 14,
        overlay::version_ethertype(c.data[14]) == Some(et),
        1 <= nh.num_labels <= MAX_LABELS,
        impose::labelled(near, c, nh, ttl) == (c1, Ok::<TcAct, ()>(TcAct::Redirect(nh.oif))),
        seed_ttl(nh, ttl) > 1,
        forall|k: int| 0 <= k < nh.num_labels ==> #[trigger] nh.labels[k] < 0x10_0000,
        forall|k: int| 0 <= k < nh.num_labels - 1 ==> pops_label(far, #[trigger] nh.labels[k]),
        delivers_label(far, nh.labels[nh.num_labels - 1]),
        x.data == c1.data,
    ensures
        label::mpls_staged(far, x, MAX_LABELS + 1) == left_by(
            far,
            frame::with_data(
                pops(x, nh.num_labels as int),
                x.data.take(12) + bytes::be16_bytes(et) + c.data.skip(14),
            ),
            far.mpls_fib@[nh.labels[nh.num_labels - 1]],
            et,
            seed_ttl(nh, ttl),
        ),
{
    reveal(impose::labelled);
    reveal(fib::xmitted);
    let n = nh.num_labels as int;
    let seed = seed_ttl(nh, ttl);
    let (dst, src) = fib::l2_of(near, nh)->0;
    let eth = bytes::eth_hdr(dst, src, ETH_P_MPLS_UC);
    let inner = c.data.skip(14);
    let stack = headers::label_stack(nh.labels, n, 1, seed, n);
    let grown = bytes::inserted(c.data, 14, stack);
    let tagged = bytes::splice(grown, ETH_TYPE_OFF as int, bytes::be16_bytes(ETH_P_MPLS_UC));
    assert(grown.skip(14) =~= stack + inner);
    assert(tagged.skip(14) =~= grown.skip(14));
    assert(x.data =~= eth + stack + inner);
    assert(eth.skip(12) =~= bytes::be16_bytes(ETH_P_MPLS_UC));
    assert(x.data.take(12) =~= eth.take(12));
    stack_is_stacked(eth, nh.labels, n, seed, inner);
    pops_from(far, x, eth, nh.labels, n, 0, seed, inner, et, MAX_LABELS + 1);
}

// ------------------------------- IP in SRv6 ---------------------------------

/// A packet on its way through a segment list of `n` segments with `sl` of
/// them left behind the active one: the outer header is addressed to the
/// active segment; a single segment needs no SRH.
#[verifier::opaque]
pub open spec fn carried(
    eth: Seq<u8>,
    hop: u8,
    payload_len: u16,
    proto: u8,
    src: [u8; 16],
    segs: [[u8; 16]; MAX_SEGS],
    n: int,
    sl: int,
    inner: Seq<u8>,
) -> Seq<u8> {
    if n == 1 {
        eth + headers::ip6_hdr(payload_len, proto, hop, src, segs[0]) + inner
    } else {
        eth + headers::ip6_hdr(payload_len, IPPROTO_ROUTING, hop, src, segs[n - 1 - sl])
            + headers::srh_hdr(proto, n - 1, sl) + headers::rev_segs(segs, 1, n) + inner
    }
}

/// An H.Encaps headend sends the packet on its way: the whole list ahead, the
/// packet inside unchanged.
pub proof fn headend_sends(
    near: &Tables,
    c: TcView,
    c1: TcView,
    nh_id: u32,
    nh: NextHop,
    et: u16,
    enc: Srv6Encap,
)
    requires
        c.data.len() >= 14,
        near.srv6_encap@.get(nh_id) == Some(enc),
        impose::usable(enc),
        enc.mode != SRV6_ENCAP_MODE_INSERT,
        impose::second_layer(near, c, enc.segs[0]).1 is None,
        impose::srv6_encapped(near, c, nh_id, nh, et) == (
            c1,
            Ok::<TcAct, ()>(TcAct::Redirect(nh.oif)),
        ),
    ensures
        c1.data == carried(
            c1.data.take(14),
            64,
            bytes::wrap16(c.data.len() - 14 + headers::red_srh_len(enc.num_segs as int)),
            impose::inner_proto(et),
            near.srv6_encap_src,
            enc.segs,
            enc.num_segs as int,
            enc.num_segs - 1,
            c.data.skip(14),
        ),
{
    reveal(impose::srv6_encapped);
    reveal(impose::hencapped);
    reveal(fib::xmitted);
    reveal(fib::resolved);
    reveal(carried);
    let n = enc.num_segs as int;
    let plen = bytes::wrap16(c.data.len() - 14 + headers::red_srh_len(n));
    let proto = impose::inner_proto(et);
    let hdr = headers::encaps_red(plen, proto, near.srv6_encap_src, enc.segs, n);
    headers::header_lengths(plen, proto, near.srv6_encap_src, enc.segs, n);
    let (dst, src) = fib::l2_of(near, nh)->0;
    let eth = bytes::eth_hdr(dst, src, ETH_P_IPV6);
    assert(bytes::inserted(c.data, 14, hdr).skip(14) =~= hdr + c.data.skip(14));
    assert(c1.data =~= eth + hdr + c.data.skip(14));
    assert(c1.data.take(14) =~= eth);
    assert(c1.data =~= carried(
        eth,
        64,
        plen,
        proto,
        near.srv6_encap_src,
        enc.segs,
        n,
        n - 1,
        c.data.skip(14),
    ));
}

/// A headend whose first segment is itself reached through a list (a repair
/// path) sends the carried packet on its way through that list.
pub proof fn protected_headend_sends(
    near: &Tables,
    c: TcView,
    c1: TcView,
    nh_id: u32,
    nh: NextHop,
    et: u16,
    enc: Srv6Encap,
    nh2: NextHop,
    enc2: Srv6Encap,
)
    requires
        c.data.len() >= 14,
        near.srv6_encap@.get(nh_id) == Some(enc),
        impose::usable(enc),
        enc.mode != SRV6_ENCAP_MODE_INSERT,
        impose::second_layer(near, c, enc.segs[0]).1 == Some((nh2, enc2)),
        impose::srv6_encapped(near, c, nh_id, nh, et) == (
            c1,
            Ok::<TcAct, ()>(TcAct::Redirect(nh2.oif)),
        ),
    ensures
        ({
            let n = enc.num_segs as int;
            let n2 = enc2.num_segs as int;
            let inner = carried(
                c.data.take(14),
                64,
                bytes::wrap16(c.data.len() - 14 + headers::red_srh_len(n)),
                impose::inner_proto(et),
                near.srv6_encap_src,
                enc.segs,
                n,
                n - 1,
                c.data.skip(14),
            ).skip(14);
            c1.data == carried(
                c1.data.take(14),
                64,
                bytes::wrap16(inner.len() + headers::red_srh_len(n2)),
                IPPROTO_IPV6,
                near.srv6_encap_src,
                enc2.segs,
                n2,
                n2 - 1,
                inner,
            )
        }),
{
    reveal(impose::srv6_encapped);
    reveal(impose::hencapped);
    reveal(fib::xmitted);
    reveal(fib::resolved);
    reveal(carried);
    let n = enc.num_segs as int;
    let n2 = enc2.num_segs as int;
    let plen = bytes::wrap16(c.data.len() - 14 + headers::red_srh_len(n));
    let proto = impose::inner_proto(et);
    let hdr = headers::encaps_red(plen, proto, near.srv6_encap_src, enc.segs, n);
    headers::header_lengths(plen, proto, near.srv6_encap_src, enc.segs, n);
    let d1 = bytes::inserted(c.data, 14, hdr);
    let inner = d1.skip(14);
    assert(inner =~= hdr + c.data.skip(14));
    assert(carried(
        c.data.take(14),
        64,
        plen,
        proto,
        near.srv6_encap_src,
        enc.segs,
        n,
        n - 1,
        c.data.skip(14),
    ).skip(14) =~= inner);
    let plen2 = bytes::wrap16(d1.len() - 14 + headers::red_srh_len(n2));
    let hdr2 = headers::encaps_red(plen2, IPPROTO_IPV6, near.srv6_encap_src, enc2.segs, n2);
    headers::header_lengths(plen2, IPPROTO_IPV6, near.srv6_encap_src, enc2.segs, n2);
    assert(bytes::inserted(d1, 14, hdr2).skip(14) =~= hdr2 + inner);
    let (dst, src) = fib::l2_of(near, nh2)->0;
    let eth = bytes::eth_hdr(dst, src, ETH_P_IPV6);
    assert(c1.data =~= eth + hdr2 + inner);
    assert(c1.data.take(14) =~= eth);
    assert(c1.data =~= carried(
        eth,
        64,
        plen2,
        IPPROTO_IPV6,
        near.srv6_encap_src,
        enc2.segs,
        n2,
        n2 - 1,
        inner,
    ));
}

/// Where the parts of a carried packet lie.
proof fn carried_layout(
    eth: Seq<u8>,
    hop: u8,
    payload_len: u16,
    proto: u8,
    src: [u8; 16],
    segs: [[u8; 16]; MAX_SEGS],
    n: int,
    sl: int,
    inner: Seq<u8>,
)
    requires
        eth.len() == 14,
        1 <= n <= MAX_SEGS,
        0 <= sl < n,
        n == 1 ==> sl == 0,
    ensures
        ({
            let s = carried(eth, hop, payload_len, proto, src, segs, n, sl, inner);
            &&& s.len() == 54 + headers::red_srh_len(n) + inner.len()
            &&& s.take(12) == eth.take(12)
            &&& s.subrange(38, 54) == segs[n - 1 - sl]@
            &&& s.skip(54 + headers::red_srh_len(n)) == inner
            &&& n == 1 ==> s[20] == proto
            &&& n > 1 ==> s[20] == IPPROTO_ROUTING && s[54] == proto && s[55] == 2 * (n - 1)
                && s[57] == sl
        }),
{
    reveal(carried);
    let s = carried(eth, hop, payload_len, proto, src, segs, n, sl, inner);
    headers::rev_segs_len(segs, 1, n);
    let ip = headers::ip6_hdr(
        payload_len,
        if n == 1 { proto } else { IPPROTO_ROUTING },
        hop,
        src,
        segs[n - 1 - sl],
    );
    assert(ip.len() == 40);
    assert(ip.subrange(24, 40) =~= segs[n - 1 - sl]@);
    assert(s.take(12) =~= eth.take(12));
    assert(s.skip(54 + headers::red_srh_len(n)) =~= inner);
    assert(s.subrange(14, 54) =~= ip);
    assert(s.subrange(38, 54) =~= ip.subrange(24, 40));
    assert(s[20] == ip[6]);
}

/// Entry `i` of a carried packet's list.
proof fn carried_entry(
    eth: Seq<u8>,
    hop: u8,
    payload_len: u16,
    proto: u8,
    src: [u8; 16],
    segs: [[u8; 16]; MAX_SEGS],
    n: int,
    sl: int,
    inner: Seq<u8>,
    i: int,
)
    requires
        eth.len() == 14,
        1 < n <= MAX_SEGS,
        0 <= i < n - 1,
    ensures
        carried(eth, hop, payload_len, proto, src, segs, n, sl, inner).subrange(
            62 + 16 * i,
            78 + 16 * i,
        ) == segs[n - 1 - i]@,
{
    reveal(carried);
    let s = carried(eth, hop, payload_len, proto, src, segs, n, sl, inner);
    let list = headers::rev_segs(segs, 1, n);
    headers::rev_segs_len(segs, 1, n);
    headers::rev_segs_entry(segs, 1, n, i);
    assert(s.subrange(62, 62 + 16 * (n - 1)) =~= list);
    assert(s.subrange(62 + 16 * i, 78 + 16 * i) =~= list.subrange(16 * i, 16 * i + 16));
}

/// What precedes the active segment of a carried packet.
spec fn front(eth: Seq<u8>, hop: u8, payload_len: u16, src: [u8; 16]) -> Seq<u8> {
    eth + seq![0x60u8, 0u8, 0u8, 0u8] + bytes::be16_bytes(payload_len) + seq![IPPROTO_ROUTING, hop]
        + src@
}

/// What follows the segment counter of a carried packet.
spec fn back(segs: [[u8; 16]; MAX_SEGS], n: int, inner: Seq<u8>) -> Seq<u8> {
    seq![(n - 2) as u8, 0u8, 0u8, 0u8] + headers::rev_segs(segs, 1, n) + inner
}

/// A carried packet around its active segment and its counter.
spec fn parts(front: Seq<u8>, seg: Seq<u8>, proto: u8, n: int, sl: int, back: Seq<u8>) -> Seq<u8> {
    front + seg + seq![proto, (2 * (n - 1)) as u8, 4u8] + seq![sl as u8] + back
}

proof fn carried_parts(
    eth: Seq<u8>,
    hop: u8,
    payload_len: u16,
    proto: u8,
    src: [u8; 16],
    segs: [[u8; 16]; MAX_SEGS],
    n: int,
    sl: int,
    inner: Seq<u8>,
)
    requires
        eth.len() == 14,
        1 < n <= MAX_SEGS,
        0 <= sl < n,
    ensures
        carried(eth, hop, payload_len, proto, src, segs, n, sl, inner) == parts(
            front(eth, hop, payload_len, src),
            segs[n - 1 - sl]@,
            proto,
            n,
            sl,
            back(segs, n, inner),
        ),
{
    reveal(carried);
    assert(carried(eth, hop, payload_len, proto, src, segs, n, sl, inner) =~= parts(
        front(eth, hop, payload_len, src),
        segs[n - 1 - sl]@,
        proto,
        n,
        sl,
        back(segs, n, inner),
    ));
}

proof fn parts_walk(
    f: Seq<u8>,
    seg: Seq<u8>,
    next: Seq<u8>,
    proto: u8,
    n: int,
    sl: int,
    b: Seq<u8>,
)
    requires
        f.len() == 38,
        seg.len() == 16,
        next.len() == 16,
        0 < sl < 8,
        b.len() >= 4 + 16 * sl,
        parts(f, seg, proto, n, sl, b).subrange(62 + 16 * (sl - 1), 78 + 16 * (sl - 1)) == next,
    ensures
        endpoint::walked(parts(f, seg, proto, n, sl, b), sl - 1) == parts(
            f,
            next,
            proto,
            n,
            sl - 1,
            b,
        ),
{
    let s = parts(f, seg, proto, n, sl, b);
    let got = bytes::oct16(s, 62 + 16 * (sl - 1));
    assert(got@ =~= s.subrange(62 + 16 * (sl - 1), 78 + 16 * (sl - 1)));
    assert(endpoint::walked(s, sl - 1) =~= parts(f, next, proto, n, sl - 1, b));
}

/// Walking a carried packet's list takes it to the next segment.
proof fn carried_walks(
    eth: Seq<u8>,
    hop: u8,
    payload_len: u16,
    proto: u8,
    src: [u8; 16],
    segs: [[u8; 16]; MAX_SEGS],
    n: int,
    sl: int,
    inner: Seq<u8>,
)
    requires
        eth.len() == 14,
        1 < n <= MAX_SEGS,
        0 < sl < n,
    ensures
        endpoint::walked(
            carried(eth, hop, payload_len, proto, src, segs, n, sl, inner),
            sl - 1,
        ) == carried(eth, hop, payload_len, proto, src, segs, n, sl - 1, inner),
{
    carried_parts(eth, hop, payload_len, proto, src, segs, n, sl, inner);
    carried_parts(eth, hop, payload_len, proto, src, segs, n, sl - 1, inner);
    carried_entry(eth, hop, payload_len, proto, src, segs, n, sl, inner, sl - 1);
    headers::rev_segs_len(segs, 1, n);
    parts_walk(
        front(eth, hop, payload_len, src),
        segs[n - 1 - sl]@,
        segs[n - sl]@,
        proto,
        n,
        sl,
        back(segs, n, inner),
    );
}

/// Whether a SID walks the segment list: `End`, `End.X`, `uA` or `End.T`.
pub open spec fn walks(behavior: u8) -> bool {
    behavior == SRV6_BH_END || behavior == SRV6_BH_END_X || behavior == SRV6_BH_UA || behavior
        == SRV6_BH_END_T
}

/// A transit segment without the penultimate pop takes the packet one segment
/// further and leaves all else as it was. What follows is the SID's forward:
/// of `End`, by the packet's new destination.
pub proof fn segment_advances(
    t: &Tables,
    x: XdpView,
    sid: LocalSid,
    eth: Seq<u8>,
    hop: u8,
    payload_len: u16,
    proto: u8,
    src: [u8; 16],
    segs: [[u8; 16]; MAX_SEGS],
    n: int,
    sl: int,
    inner: Seq<u8>,
)
    requires
        eth.len() == 14,
        1 < n <= MAX_SEGS,
        0 < sl < n,
        x.data == carried(eth, hop, payload_len, proto, src, segs, n, sl, inner),
        lpm::matched(t.srv6_localsid@, segs[n - 1 - sl]@) == Some(sid),
        walks(sid.behavior),
        sl > 1 || sid.flavors & SRV6_FLAVOR_PSP == 0,
    ensures
        ({
            let x1 = frame::stat(
                frame::with_data(
                    x,
                    carried(eth, hop, payload_len, proto, src, segs, n, sl - 1, inner),
                ),
                STAT_SRV6_END,
            );
            &&& sids::srv6_staged(t, x) == endpoint::ended_forward(t, x1, sid)
            &&& sid.behavior == SRV6_BH_END ==> sids::srv6_staged(t, x) == endpoint::pass(x1)
        }),
{
    reveal(sids::srv6_staged);
    reveal(sids::behaved);
    reveal(endpoint::ended);
    carried_layout(eth, hop, payload_len, proto, src, segs, n, sl, inner);
    carried_walks(eth, hop, payload_len, proto, src, segs, n, sl, inner);
    assert(bytes::oct16(x.data, 38)@ =~= x.data.subrange(38, 54));
}

/// The penultimate segment with the PSP flavor takes the packet to the last
/// segment and its SRH away: what is left is a packet to that segment alone. What
/// follows is the SID's forward.
pub proof fn penultimate_segment_pops(
    t: &Tables,
    x: XdpView,
    sid: LocalSid,
    eth: Seq<u8>,
    hop: u8,
    payload_len: u16,
    proto: u8,
    src: [u8; 16],
    segs: [[u8; 16]; MAX_SEGS],
    n: int,
    inner: Seq<u8>,
    last: [[u8; 16]; MAX_SEGS],
)
    requires
        eth.len() == 14,
        1 < n <= MAX_SEGS,
        payload_len >= headers::red_srh_len(n),
        x.data == carried(eth, hop, payload_len, proto, src, segs, n, 1, inner),
        lpm::matched(t.srv6_localsid@, segs[n - 2]@) == Some(sid),
        walks(sid.behavior),
        sid.flavors & SRV6_FLAVOR_PSP != 0,
        last[0] == segs[n - 1],
    ensures
        ({
            let left = (payload_len - headers::red_srh_len(n)) as u16;
            let x1 = frame::stat(
                frame::stat(
                    frame::with_data(
                        x,
                        carried(eth, hop, left, proto, src, last, 1, 0, inner),
                    ),
                    STAT_SRV6_END,
                ),
                STAT_SRV6_PSP,
            );
            &&& sids::srv6_staged(t, x) == endpoint::ended_forward(t, x1, sid)
            &&& sid.behavior == SRV6_BH_END ==> sids::srv6_staged(t, x) == endpoint::pass(x1)
        }),
{
    reveal(sids::srv6_staged);
    reveal(sids::behaved);
    reveal(endpoint::ended);
    carried_layout(eth, hop, payload_len, proto, src, segs, n, 1, inner);
    carried_layout(eth, hop, payload_len, proto, src, segs, n, 0, inner);
    carried_walks(eth, hop, payload_len, proto, src, segs, n, 1, inner);
    carried_pops(eth, hop, payload_len, proto, src, segs, n, inner, last);
    assert(bytes::oct16(x.data, 38)@ =~= x.data.subrange(38, 54));
    let d = carried(eth, hop, payload_len, proto, src, segs, n, 0, inner);
    assert(endpoint::walked(x.data, 0) == d);
}

proof fn carried_pops(
    eth: Seq<u8>,
    hop: u8,
    payload_len: u16,
    proto: u8,
    src: [u8; 16],
    segs: [[u8; 16]; MAX_SEGS],
    n: int,
    inner: Seq<u8>,
    last: [[u8; 16]; MAX_SEGS],
)
    requires
        eth.len() == 14,
        1 < n <= MAX_SEGS,
        payload_len >= headers::red_srh_len(n),
        last[0] == segs[n - 1],
    ensures
        ({
            let d = carried(eth, hop, payload_len, proto, src, segs, n, 0, inner);
            let left = (payload_len - headers::red_srh_len(n)) as u16;
            &&& bytes::be16(d, 18) == payload_len
            &&& bytes::splice(d, 18, bytes::be16_bytes(left) + seq![proto]).take(54) + inner
                == carried(eth, hop, left, proto, src, last, 1, 0, inner)
        }),
{
    carried_parts(eth, hop, payload_len, proto, src, segs, n, 0, inner);
    let d = carried(eth, hop, payload_len, proto, src, segs, n, 0, inner);
    let left = (payload_len - headers::red_srh_len(n)) as u16;
    let f = front(eth, hop, payload_len, src);
    bytes::be16_round_trip(payload_len);
    let b = bytes::be16_bytes(payload_len);
    assert(d[18] == b[0] && d[19] == b[1]);
    reveal(carried);
    assert(bytes::splice(d, 18, bytes::be16_bytes(left) + seq![proto]).take(54) =~= eth
        + headers::ip6_hdr(left, proto, hop, src, last[0]));
}

/// The last segment delivers the packet: an `End.DT4` / `End.DT6` /
/// `End.DT46` of the packet's family has what the headend sent, unchanged, and
/// routes it in its table.
pub proof fn last_segment_delivers(
    t: &Tables,
    x: XdpView,
    sid: LocalSid,
    eth: Seq<u8>,
    hop: u8,
    payload_len: u16,
    proto: u8,
    src: [u8; 16],
    segs: [[u8; 16]; MAX_SEGS],
    n: int,
    inner: Seq<u8>,
    et: u16,
)
    requires
        eth.len() == 14,
        1 <= n <= MAX_SEGS,
        x.data == carried(eth, hop, payload_len, proto, src, segs, n, 0, inner),
        lpm::matched(t.srv6_localsid@, segs[n - 1]@) == Some(sid),
        endpoint::dt_ethertype(proto, sid.behavior) == Some(et),
    ensures
        sids::srv6_staged(t, x) == endpoint::in_table(
            t,
            frame::stat(
                frame::with_data(x, eth.take(12) + bytes::be16_bytes(et) + inner),
                STAT_SRV6_DECAP,
            ),
            sid.vrf_id,
        ),
{
    reveal(sids::srv6_staged);
    reveal(sids::behaved);
    carried_layout(eth, hop, payload_len, proto, src, segs, n, 0, inner);
    assert(bytes::oct16(x.data, 38)@ =~= x.data.subrange(38, 54));
}

/// The last segment hands the packet to a customer: an `End.DX4` / `End.DX6` of
/// the packet's family has what the headend sent, unchanged, for the adjacency
/// it is bound to.
pub proof fn last_segment_hands_over(
    t: &Tables,
    x: XdpView,
    sid: LocalSid,
    eth: Seq<u8>,
    hop: u8,
    payload_len: u16,
    proto: u8,
    src: [u8; 16],
    segs: [[u8; 16]; MAX_SEGS],
    n: int,
    inner: Seq<u8>,
    et: u16,
)
    requires
        eth.len() == 14,
        1 <= n <= MAX_SEGS,
        x.data == carried(eth, hop, payload_len, proto, src, segs, n, 0, inner),
        lpm::matched(t.srv6_localsid@, segs[n - 1]@) == Some(sid),
        endpoint::dx_ethertype(proto, sid.behavior) == Some(et),
        t.nexthops@.contains_key(sid.nexthop_id),
    ensures
        ({
            let out = frame::with_data(x, eth.take(12) + bytes::be16_bytes(et) + inner);
            let (x1, a) = frame::tagged(t, out, XDP_META_MAGIC_DX, sid.nexthop_id);
            sids::srv6_staged(t, x) == (
                if a == XdpAct::Pass {
                    frame::stat(x1, STAT_SRV6_DX)
                } else {
                    x1
                },
                Ok::<XdpAct, ()>(a),
            )
        }),
{
    reveal(sids::srv6_staged);
    reveal(sids::behaved);
    reveal(endpoint::dx_decapped);
    carried_layout(eth, hop, payload_len, proto, src, segs, n, 0, inner);
    assert(bytes::oct16(x.data, 38)@ =~= x.data.subrange(38, 54));
}

/// An IPv6 packet with an SRH inserted behind its base header, cut at the
/// fields that an insertion, a walk and a pop write.
#[verifier::opaque]
spec fn cut6(
    eth: Seq<u8>,
    flow: Seq<u8>,
    len: Seq<u8>,
    next: u8,
    hop: u8,
    src: Seq<u8>,
    dst: Seq<u8>,
    rest: Seq<u8>,
) -> Seq<u8> {
    eth + flow + len + seq![next, hop] + src + dst + rest
}

/// The inserted SRH with its list.
#[verifier::opaque]
spec fn inserted_srh(next: u8, n: int, sl: int, list: Seq<u8>) -> Seq<u8> {
    headers::srh_hdr(next, n + 1, sl) + list
}

proof fn cut6_walks(
    eth: Seq<u8>,
    flow: Seq<u8>,
    len: Seq<u8>,
    next: u8,
    hop: u8,
    src: Seq<u8>,
    dst: Seq<u8>,
    n: int,
    list: Seq<u8>,
    tail: Seq<u8>,
    k: int,
)
    requires
        eth.len() == 14,
        flow.len() == 4,
        len.len() == 2,
        src.len() == 16,
        dst.len() == 16,
        1 <= n <= MAX_SEGS,
        0 <= k <= n,
        list.len() == 16 * (n + 1),
    ensures
        forall|sl: int|
            0 <= sl <= n ==> #[trigger] endpoint::walked(
                cut6(eth, flow, len, 43, hop, src, dst, inserted_srh(next, n, sl, list) + tail),
                k,
            ) == cut6(
                eth,
                flow,
                len,
                43,
                hop,
                src,
                list.subrange(16 * k, 16 * k + 16),
                inserted_srh(next, n, k, list) + tail,
            ),
{
    assert forall|sl: int| 0 <= sl <= n implies #[trigger] endpoint::walked(
        cut6(eth, flow, len, 43, hop, src, dst, inserted_srh(next, n, sl, list) + tail),
        k,
    ) == cut6(
        eth,
        flow,
        len,
        43,
        hop,
        src,
        list.subrange(16 * k, 16 * k + 16),
        inserted_srh(next, n, k, list) + tail,
    ) by {
        reveal(cut6);
        reveal(inserted_srh);
        let s = cut6(eth, flow, len, 43, hop, src, dst, inserted_srh(next, n, sl, list) + tail);
        let seg = bytes::oct16(s, 62 + 16 * k);
        assert(seg@ =~= list.subrange(16 * k, 16 * k + 16));
        assert(endpoint::walked(s, k) =~= cut6(
            eth,
            flow,
            len,
            43,
            hop,
            src,
            list.subrange(16 * k, 16 * k + 16),
            inserted_srh(next, n, k, list) + tail,
        ));
    }
}

proof fn cut6_pops(
    x: XdpView,
    eth: Seq<u8>,
    flow: Seq<u8>,
    len: u16,
    next: u8,
    hop: u8,
    src: Seq<u8>,
    dst: Seq<u8>,
    n: int,
    list: Seq<u8>,
    tail: Seq<u8>,
)
    requires
        eth.len() == 14,
        flow.len() == 4,
        src.len() == 16,
        dst.len() == 16,
        1 <= n < MAX_SEGS,
        list.len() == 16 * (n + 1),
        len + 8 + 16 * (n + 1) <= 0xffff,
        x.data == cut6(
            eth,
            flow,
            bytes::be16_bytes((len + 8 + 16 * (n + 1)) as u16),
            43,
            hop,
            src,
            dst,
            inserted_srh(next, n, 0, list) + tail,
        ),
    ensures
        endpoint::srh_popped(x) == (
            frame::with_data(
                x,
                cut6(eth, flow, bytes::be16_bytes(len), next, hop, src, dst, tail),
            ),
            Ok::<(), ()>(()),
        ),
{
    reveal(cut6);
    reveal(inserted_srh);
    let s = x.data;
    let total = (len + 8 + 16 * (n + 1)) as u16;
    let b = bytes::be16_bytes(total);
    bytes::be16_round_trip(total);
    assert(s[18] == b[0] && s[19] == b[1]);
    assert(s[54] == next && s[55] == 2 * (n + 1));
    let k = endpoint::srh_bytes(s[55]);
    assert(k == 8 + 16 * (n + 1));
    assert(s.skip(54 + k) =~= tail);
    let patched = bytes::splice(s, 18, bytes::be16_bytes(len) + seq![next]);
    assert(patched.take(54) =~= eth + flow + bytes::be16_bytes(len) + seq![next, hop] + src + dst);
    assert(patched.take(54) + s.skip(54 + k) =~= cut6(
        eth,
        flow,
        bytes::be16_bytes(len),
        next,
        hop,
        src,
        dst,
        tail,
    ));
}

proof fn inserted_is_cut(t: &Tables, c: TcView, c1: TcView, enc: Srv6Encap, nh: NextHop)
    requires
        impose::usable(enc),
        impose::inserted6(t, c, enc, nh) == (c1, Ok::<TcAct, ()>(TcAct::Redirect(nh.oif))),
    ensures
        c.data.len() >= 54,
        c.data[21] > 1,
        c1.data.len() >= 14,
        ({
            let s = c.data;
            let n = enc.num_segs as int;
            c1.data == cut6(
                c1.data.take(14),
                s.subrange(14, 18),
                bytes::be16_bytes(bytes::wrap16(bytes::be16(s, 18) + 8 + 16 * (n + 1))),
                43,
                (s[21] - 1) as u8,
                s.subrange(22, 38),
                enc.segs[0]@,
                inserted_srh(s[20], n, n, s.subrange(38, 54) + headers::rev_segs(enc.segs, 0, n))
                    + s.skip(54),
            )
        }),
{
    reveal(impose::inserted6);
    reveal(fib::xmitted);
    reveal(cut6);
    reveal(inserted_srh);
    let s = c.data;
    let n = enc.num_segs as int;
    let (dst, src) = fib::l2_of(t, nh)->0;
    let eth = bytes::eth_hdr(dst, src, ETH_P_IPV6);
    let len = bytes::be16_bytes(bytes::wrap16(bytes::be16(s, 18) + 8 + 16 * (n + 1)));
    let list = s.subrange(38, 54) + headers::rev_segs(enc.segs, 0, n);
    assert(c1.data.take(14) =~= eth);
    assert(c1.data =~= cut6(
        eth,
        s.subrange(14, 18),
        len,
        43,
        (s[21] - 1) as u8,
        s.subrange(22, 38),
        enc.segs[0]@,
        inserted_srh(s[20], n, n, list) + s.skip(54),
    ));
}

/// A repair path is transparent: walking an inserted list to its end restores
/// the packet's destination, whatever was walked before; and the pop there
/// (of an SRH short enough to be popped) restores the packet, one hop charged.
pub proof fn repair_is_transparent(
    t: &Tables,
    c: TcView,
    c1: TcView,
    enc: Srv6Encap,
    nh: NextHop,
    x: XdpView,
    k: int,
)
    requires
        impose::usable(enc),
        impose::inserted6(t, c, enc, nh) == (c1, Ok::<TcAct, ()>(TcAct::Redirect(nh.oif))),
        0 <= k <= enc.num_segs,
    ensures
        ({
            let last = endpoint::walked(c1.data, 0);
            &&& last.subrange(38, 54) == c.data.subrange(38, 54)
            &&& endpoint::walked(endpoint::walked(c1.data, k), 0) == last
            &&& x.data == last && enc.num_segs < MAX_SEGS && bytes::be16(c.data, 18) + 8 + 16 * (
            enc.num_segs + 1) <= 0xffff ==> endpoint::srh_popped(x) == (
                frame::with_data(
                    x,
                    c1.data.take(14) + c.data.skip(14).update(7, (c.data[21] - 1) as u8),
                ),
                Ok::<(), ()>(()),
            )
        }),
{
    let s = c.data;
    let n = enc.num_segs as int;
    let flow = s.subrange(14, 18);
    let total = bytes::wrap16(bytes::be16(s, 18) + 8 + 16 * (n + 1));
    let len = bytes::be16_bytes(total);
    let from = s.subrange(22, 38);
    let da = s.subrange(38, 54);
    let list = da + headers::rev_segs(enc.segs, 0, n);
    let tail = s.skip(54);
    let hop = (s[21] - 1) as u8;
    let eth = c1.data.take(14);
    headers::rev_segs_len(enc.segs, 0, n);
    inserted_is_cut(t, c, c1, enc, nh);
    cut6_walks(eth, flow, len, s[20], hop, from, enc.segs[0]@, n, list, tail, 0);
    cut6_walks(eth, flow, len, s[20], hop, from, enc.segs[0]@, n, list, tail, k);
    let seg = list.subrange(16 * k, 16 * k + 16);
    cut6_walks(eth, flow, len, s[20], hop, from, seg, n, list, tail, 0);
    assert(list.subrange(0, 16) =~= da);
    let last = endpoint::walked(c1.data, 0);
    assert(last == cut6(eth, flow, len, 43, hop, from, da, inserted_srh(s[20], n, 0, list) + tail));
    assert(last.subrange(38, 54) =~= da) by {
        reveal(cut6);
    }
    if x.data == last && n < MAX_SEGS && bytes::be16(s, 18) + 8 + 16 * (n + 1) <= 0xffff {
        let b = bytes::be16_bytes(bytes::be16(s, 18));
        cut6_pops(x, eth, flow, bytes::be16(s, 18), s[20], hop, from, da, n, list, tail);
        assert(cut6(eth, flow, b, s[20], hop, from, da, tail) == eth + s.skip(14).update(7, hop))
            by {
            reveal(cut6);
            assert(b[0] == s[18] && b[1] == s[19]);
            assert(cut6(eth, flow, b, s[20], hop, from, da, tail) =~= eth + s.skip(14).update(
                7,
                hop,
            ));
        }
    }
}

/// A binding SID takes the packet to its next segment and sends it on its way
/// through the policy's list, the received list and packet inside unchanged.
pub proof fn binding_sends(
    t: &Tables,
    x: XdpView,
    sid: LocalSid,
    enc: Srv6Encap,
)
    requires
        x.data.len() >= 54,
        sids::walkable(x.data) == Ok::<bool, ()>(true),
        sids::bound_policy(t, sid) == Some(enc),
        x.data.len() >= 62 + 16 * x.data[57],
        40 + headers::red_srh_len(enc.num_segs as int) <= x.headroom,
    ensures
        ({
            let s = x.data;
            let n = enc.num_segs as int;
            let inner = endpoint::walked(s.update(21, (s[21] - 1) as u8), s[57] - 1).skip(14);
            let r = sids::bound(t, x, sid);
            &&& r.1 == Ok::<XdpAct, ()>(XdpAct::Pass)
            &&& r.0.data == carried(
                s.take(12) + bytes::be16_bytes(ETH_P_IPV6),
                64,
                bytes::wrap16(s.len() - 14 + headers::red_srh_len(n)),
                IPPROTO_IPV6,
                t.srv6_encap_src,
                enc.segs,
                n,
                n - 1,
                inner,
            )
        }),
{
    reveal(sids::bound);
    reveal(carried);
    let s = x.data;
    let n = enc.num_segs as int;
    let d = endpoint::walked(s.update(21, (s[21] - 1) as u8), s[57] - 1);
    assert(d.take(12) =~= s.take(12));
    let r = sids::bound(t, x, sid);
    assert(r.0.data =~= carried(
        s.take(12) + bytes::be16_bytes(ETH_P_IPV6),
        64,
        bytes::wrap16(s.len() - 14 + headers::red_srh_len(n)),
        IPPROTO_IPV6,
        t.srv6_encap_src,
        enc.segs,
        n,
        n - 1,
        d.skip(14),
    ));
}

} // verus!
