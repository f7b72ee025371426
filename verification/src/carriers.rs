//! What is put around a packet: laws that say, byte by byte, what the headers of
//! each encapsulation hold, and where the packet lies behind them.

use vstd::prelude::*;
use crate::bytes;
use crate::checksum;
use crate::fib;
use crate::frame::{XdpAct, XdpView};
use crate::headers;
use crate::impose;
use crate::label;
use crate::lpm;
use crate::skb::{TcAct, TcView};
use crate::tables::Tables;
use crate::types::{
    CradleXdpMeta, FibEntry, GtpEncap, MplsEntry, NextHop, Srv6Encap, VniInfo, VxlanEncap,
    FIB_F_BLACKHOLE, FIB_F_ECMP, FIB_F_LOCAL, MAX_LABELS, MAX_SEGS, MPLS_E_TTL_UNIFORM,
    MPLS_OP_POP, MPLS_OP_POP_L3, MPLS_OP_SWAP, NH_F_MPLS_PIPE, NH_F_SRV6, SRV6_ENCAP_MODE_INSERT,
    STAT_DROP, STAT_GTP_ENCAP, STAT_MPLS_POP, STAT_MPLS_PUSH, STAT_MPLS_SWAP, STAT_SRV6_ENCAP,
    STAT_SRV6_HINSERT, STAT_VXLAN_ENCAP, XDP_META_MAGIC,
};
use crate::words;

verus! {

// ---------------------------------- headers ---------------------------------

/// Numbers on the wire are read with the most significant byte first, host
/// numbers with the least significant first, and both are written as read.
pub proof fn byte_order_is_kept(s: Seq<u8>, o: int, v: u16, w: u32)
    requires
        0 <= o,
        o + 4 <= s.len(),
    ensures
        bytes::be16(s, o) == s[o] * 256 + s[o + 1],
        bytes::le16(s, o) == s[o + 1] * 256 + s[o],
        bytes::be32(s, o) == ((s[o] * 256 + s[o + 1]) * 256 + s[o + 2]) * 256 + s[o + 3],
        bytes::le32(s, o) == ((s[o + 3] * 256 + s[o + 2]) * 256 + s[o + 1]) * 256 + s[o],
        bytes::be16_bytes(v).len() == 2,
        bytes::be16_bytes(v)[0] * 256 + bytes::be16_bytes(v)[1] == v,
        bytes::be32_bytes(w).len() == 4,
        ({
            let b = bytes::be32_bytes(w);
            ((b[0] * 256 + b[1]) * 256 + b[2]) * 256 + b[3] == w
        }),
        bytes::le16_bytes(v).len() == 2,
        bytes::le16_bytes(v)[1] * 256 + bytes::le16_bytes(v)[0] == v,
        bytes::le32_bytes(w).len() == 4,
        ({
            let b = bytes::le32_bytes(w);
            ((b[3] * 256 + b[2]) * 256 + b[1]) * 256 + b[0] == w
        }),
{
}

/// A frame's header holds its destination, its source and its type.
pub proof fn frame_header_layout(dst: [u8; 6], src: [u8; 6], et: u16)
    ensures
        ({
            let h = bytes::eth_hdr(dst, src, et);
            &&& h.len() == 14
            &&& forall|i: int| 0 <= i < 6 ==> #[trigger] h[i] == dst[i]
            &&& forall|i: int| 6 <= i < 12 ==> #[trigger] h[i] == src[i - 6]
            &&& h[12] * 256 + h[13] == et
        }),
{
    bytes::be16_round_trip(et);
}

/// An outer IPv4 header is plain, carries UDP, lives for sixty-four hops and holds
/// its length and addresses.
pub proof fn outer4_layout(total: u16, src: [u8; 4], dst: [u8; 4])
    ensures
        ({
            let h = checksum::ipv4_outer(total, src, dst);
            &&& h.len() == 20
            &&& h[0] == 0x45 && h[1] == 0
            &&& h[2] * 256 + h[3] == total
            &&& h[4] == 0 && h[5] == 0 && h[6] == 0 && h[7] == 0
            &&& h[8] == 64 && h[9] == 17
            &&& forall|i: int| 12 <= i < 16 ==> #[trigger] h[i] == src[i - 12]
            &&& forall|i: int| 16 <= i < 20 ==> #[trigger] h[i] == dst[i - 16]
        }),
{
    bytes::be16_round_trip(total);
}

/// The ten words of an outer IPv4 header add up, carries folded in, to all ones.
#[verifier::spinoff_prover]
pub proof fn outer4_sums_up(total: u16, src: [u8; 4], dst: [u8; 4])
    ensures
        ({
            let h = checksum::ipv4_outer(total, src, dst);
            let sum = (h[0] + h[2] + h[4] + h[6] + h[8] + h[10] + h[12] + h[14] + h[16] + h[18])
                * 256 + h[1] + h[3] + h[5] + h[7] + h[9] + h[11] + h[13] + h[15] + h[17] + h[19];
            sum > 0 && sum % 0xffff == 0
        }),
{
    bytes::be16_round_trip(total);
    let h = checksum::ipv4_outer(total, src, dst);
    let c = checksum::ipv4_outer_csum(total, src, dst);
    bytes::be16_round_trip(c);
    let sum = checksum::ipv4_outer_sum(total, src, dst);
    let q = (sum - 1) / 0xffff;
    assert(sum + c == q * 0xffff + 0xffff);
    assert(h[10] * 256 + h[11] == c);
    assert(h[12] == src[0] && h[13] == src[1] && h[14] == src[2] && h[15] == src[3]);
    assert(h[16] == dst[0] && h[17] == dst[1] && h[18] == dst[2] && h[19] == dst[3]);
    let all = (h[0] + h[2] + h[4] + h[6] + h[8] + h[10] + h[12] + h[14] + h[16] + h[18]) * 256
        + h[1] + h[3] + h[5] + h[7] + h[9] + h[11] + h[13] + h[15] + h[17] + h[19];
    assert(all == sum + c);
    assert(all == (q + 1) * 0xffff);
}

/// A checksum follows the word that changed: what it covers adds up as before.
pub proof fn checksum_follows_its_word(hc: u16, old: u16, new: u16)
    ensures
        ({
            let r = checksum::csum16_updated(hc, old, new);
            (r + new - hc - old) % 0xffff == 0
        }),
{
    let x = (0xffff - hc) + (0xffff - old) + new;
    let f = checksum::fold(x);
    assert(0 <= f <= 0xffff);
    let q = if x == 0 {
        0
    } else {
        (x - 1) / 0xffff
    };
    assert(x == q * 0xffff + f);
    let r = checksum::csum16_updated(hc, old, new);
    assert(r == 0xffff - f);
    assert(r + new - hc - old == (q - 1) * 0xffff);
}

/// A UDP header holds its ports and length and no checksum; a GTP-U header is of a
/// plain user packet and holds its length and tunnel; a VXLAN header says that it
/// holds a network and holds it.
pub proof fn tunnel_header_layout(sport: u16, dport: u16, len: u16, teid: [u8; 4], vni: u32)
    ensures
        ({
            let u = headers::udp_hdr(sport, dport, len);
            &&& u.len() == 8
            &&& u[0] * 256 + u[1] == sport && u[2] * 256 + u[3] == dport
            &&& u[4] * 256 + u[5] == len
            &&& u[6] == 0 && u[7] == 0
        }),
        ({
            let g = headers::gtp_hdr(len, teid);
            &&& g.len() == 8
            &&& g[0] == 0x30 && g[1] == 0xff
            &&& g[2] * 256 + g[3] == len
            &&& forall|i: int| 4 <= i < 8 ==> #[trigger] g[i] == teid[i - 4]
        }),
        ({
            let v = headers::vxlan_hdr(vni);
            &&& v.len() == 8
            &&& v[0] == 8 && v[1] == 0 && v[2] == 0 && v[3] == 0
            &&& (v[4] * 256 + v[5]) * 256 + v[6] == vni % 0x100_0000
            &&& v[7] == 0
        }),
{
    bytes::be16_round_trip(sport);
    bytes::be16_round_trip(dport);
    bytes::be16_round_trip(len);
}

/// An outer IPv6 header holds its length, what follows it, its hops and addresses.
pub proof fn outer6_layout(len: u16, next: u8, hop: u8, src: [u8; 16], dst: [u8; 16])
    ensures
        ({
            let h = headers::ip6_hdr(len, next, hop, src, dst);
            &&& h.len() == 40
            &&& h[0] == 0x60 && h[1] == 0 && h[2] == 0 && h[3] == 0
            &&& h[4] * 256 + h[5] == len
            &&& h[6] == next && h[7] == hop
            &&& forall|i: int| 8 <= i < 24 ==> #[trigger] h[i] == src[i - 8]
            &&& forall|i: int| 24 <= i < 40 ==> #[trigger] h[i] == dst[i - 24]
        }),
{
    bytes::be16_round_trip(len);
}

/// A policy of one segment is carried in the destination alone. One of more has a
/// routing header: the destination is the first segment, which the list leaves
/// out, and the others stand in it last first, all of them left.
pub proof fn policy_header_layout(
    len: u16,
    inner: u8,
    src: [u8; 16],
    segs: [[u8; 16]; MAX_SEGS],
    n: int,
    k: int,
)
    requires
        1 <= n <= 6,
        1 <= k < n || n == 1,
    ensures
        ({
            let h = headers::encaps_red(len, inner, src, segs, n);
            &&& n == 1 ==> h == headers::ip6_hdr(len, inner, 64, src, segs[0])
            &&& n > 1 ==> {
                &&& h.len() == 40 + 8 + 16 * (n - 1)
                &&& h.take(40) == headers::ip6_hdr(len, 43, 64, src, segs[0])
                &&& h[40] == inner && h[41] == 2 * (n - 1) && h[42] == 4
                &&& h[43] == n - 1 && h[44] == n - 2
                &&& h[45] == 0 && h[46] == 0 && h[47] == 0
                &&& h.subrange(48 + 16 * (n - 1 - k), 64 + 16 * (n - 1 - k)) == segs[k]@
            }
        }),
{
    if n > 1 {
        let h = headers::encaps_red(len, inner, src, segs, n);
        headers::header_lengths(len, inner, src, segs, n);
        headers::rev_segs_len(segs, 1, n);
        headers::rev_segs_entry(segs, 1, n, n - 1 - k);
        assert(h.take(40) =~= headers::ip6_hdr(len, 43, 64, src, segs[0]));
        assert(h.subrange(48 + 16 * (n - 1 - k), 64 + 16 * (n - 1 - k)) =~= headers::rev_segs(
            segs,
            1,
            n,
        ).subrange(16 * (n - 1 - k), 16 * (n - 1 - k) + 16));
    }
}

/// A label on the wire: twenty bits of label, three of class, one that marks the
/// bottom of the stack, and eight of time to live, in this order.
pub proof fn label_layout(lse: u32, label: u32, tc: u8, s: u8, ttl: u8)
    requires
        label < 0x10_0000,
        tc < 8,
        s < 2,
    ensures
        ({
            let b = bytes::be32_bytes(lse);
            let (l, c, bos, t) = words::lse_fields(lse);
            &&& l == b[0] * 4096 + b[1] * 16 + b[2] / 16
            &&& c == (b[2] / 2) % 8
            &&& bos == b[2] % 2
            &&& t == b[3]
        }),
        words::lse_value(label as int, tc as int, s as int, ttl as int) == label * 4096 + tc * 512
            + s * 256 + ttl,
{
    let b = bytes::be32_bytes(lse);
    let (b0, b1, b2, b3) = (b[0] as int, b[1] as int, b[2] as int, b[3] as int);
    bytes::be32_round_trip(lse);
    fields_of_bytes(lse, b0, b1, b2, b3);
}

#[verifier::spinoff_prover]
proof fn fields_of_bytes(lse: u32, b0: int, b1: int, b2: int, b3: int)
    requires
        0 <= b0 < 256 && 0 <= b1 < 256 && 0 <= b2 < 256 && 0 <= b3 < 256,
        lse == b0 * 0x100_0000 + b1 * 0x1_0000 + b2 * 256 + b3,
    ensures
        words::lse_fields(lse).0 == b0 * 4096 + b1 * 16 + b2 / 16,
        words::lse_fields(lse).1 == (b2 / 2) % 8,
        words::lse_fields(lse).2 == b2 % 2,
        words::lse_fields(lse).3 == b3,
{
    let high = b0 * 0x1_0000 + b1 * 256 + b2;
    assert(lse / 256 == high && lse % 256 == b3);
    assert(high % 2 == b2 % 2);
    let half = b0 * 0x8000 + b1 * 128 + b2 / 2;
    assert(lse / 512 == half);
    assert(half % 8 == (b2 / 2) % 8);
    assert(lse / 4096 == b0 * 4096 + b1 * 16 + b2 / 16);
}

/// A pushed stack holds its labels in order, each with the given time to live, and
/// marks the last as the bottom where it is to be one.
pub proof fn stack_layout(
    labels: [u32; MAX_LABELS],
    n: int,
    bos: u8,
    ttl: u8,
    k: int,
    i: int,
)
    requires
        0 <= i < k <= n <= 3,
        labels[i] < 0x10_0000,
        bos < 2,
    ensures
        ({
            let h = headers::label_stack(labels, n, bos, ttl, k);
            let e = h.subrange(4 * i, 4 * i + 4);
            &&& h.len() == 4 * k
            &&& e[0] * 4096 + e[1] * 16 + e[2] / 16 == labels[i]
            &&& (e[2] / 2) % 8 == 0
            &&& i == n - 1 ==> e[2] % 2 == bos
            &&& i < n - 1 ==> e[2] % 2 == 0
            &&& e[3] == ttl
        }),
    decreases k,
{
    let h = headers::label_stack(labels, n, bos, ttl, k);
    stack_len(labels, n, bos, ttl, k);
    stack_len(labels, n, bos, ttl, k - 1);
    if i < k - 1 {
        stack_layout(labels, n, bos, ttl, k - 1, i);
        assert(h.subrange(4 * i, 4 * i + 4) =~= headers::label_stack(
            labels,
            n,
            bos,
            ttl,
            k - 1,
        ).subrange(4 * i, 4 * i + 4));
    } else {
        let b: u8 = if k == n {
            bos
        } else {
            0
        };
        let v = words::lse_value(labels[i] as int, 0, b as int, ttl as int);
        words::lse_round_trip(labels[i], 0, b, ttl);
        label_layout(v as u32, labels[i], 0, b, ttl);
        assert(h.subrange(4 * i, 4 * i + 4) =~= bytes::be32_bytes(v as u32));
    }
}

proof fn stack_len(labels: [u32; MAX_LABELS], n: int, bos: u8, ttl: u8, k: int)
    requires
        0 <= k,
    ensures
        headers::label_stack(labels, n, bos, ttl, k).len() == 4 * k,
    decreases k,
{
    if k > 0 {
        stack_len(labels, n, bos, ttl, k - 1);
    }
}

// -------------------------------- imposition --------------------------------

/// A label path's packet leaves under the path's labels, the last marked as the
/// bottom, with the packet's time to live, or the longest under the pipe model;
/// without labels, or with more than can be pushed, it is left alone.
pub proof fn path_pushes_its_labels(t: &Tables, c: TcView, nh: NextHop, ttl: u8)
    requires
        c.data.len() >= 14,
    ensures
        nh.num_labels == 0 || nh.num_labels > 3 ==> impose::labelled(t, c, nh, ttl) == (
            c,
            Ok::<TcAct, ()>(TcAct::Pipe),
        ),
        1 <= nh.num_labels <= 3 && 4 * nh.num_labels > c.room ==> impose::labelled(t, c, nh, ttl)
            == (c, Err::<TcAct, ()>(())),
        1 <= nh.num_labels <= 3 && 4 * nh.num_labels <= c.room ==> {
            let n = nh.num_labels as int;
            let seed: u8 = if nh.flags & NH_F_MPLS_PIPE != 0 {
                255
            } else {
                ttl
            };
            let c1 = TcView {
                data: c.data.take(12) + seq![0x88u8, 0x47u8] + headers::label_stack(
                    nh.labels,
                    n,
                    1,
                    seed,
                    n,
                ) + c.data.skip(14),
                room: (c.room - 4 * n) as usize,
                stats: c.stats.push(STAT_MPLS_PUSH),
                ..c
            };
            let out = fib::xmitted(t, c1, nh, 0x8847);
            impose::labelled(t, c, nh, ttl) == (out.0, Ok::<TcAct, ()>(out.1))
        },
{
    reveal(impose::labelled);
    let n = nh.num_labels as int;
    if 1 <= n <= 3 && 4 * n <= c.room {
        let seed: u8 = if nh.flags & NH_F_MPLS_PIPE != 0 {
            255
        } else {
            ttl
        };
        let stack = headers::label_stack(nh.labels, n, 1, seed, n);
        stack_len(nh.labels, n, 1, seed, n);
        let d = bytes::inserted(c.data, 14, stack);
        assert(bytes::be16_bytes(0x8847) =~= seq![0x88u8, 0x47u8]);
        assert(bytes::splice(d, 12, bytes::be16_bytes(0x8847)) =~= c.data.take(12) + seq![
            0x88u8,
            0x47u8,
        ] + stack + c.data.skip(14));
    }
}

/// A GTP-U tunnel's packet leaves inside it: behind outer headers between the
/// tunnel's ends that are as long as what they carry. Without a tunnel it is left
/// alone.
pub proof fn gtp_tunnel_carries(t: &Tables, c: TcView, id: u32, nh: NextHop, enc: GtpEncap)
    requires
        14 <= c.data.len() < 0x1_0000 - 36,
    ensures
        t.gtp_encap@.get(id) is None ==> impose::gtp_encapped(t, c, id, nh) == (
            c,
            Ok::<TcAct, ()>(TcAct::Pipe),
        ),
        t.gtp_encap@.get(id) == Some(enc) && c.room < 36 ==> impose::gtp_encapped(t, c, id, nh) == (
            c,
            Err::<TcAct, ()>(()),
        ),
        t.gtp_encap@.get(id) == Some(enc) && c.room >= 36 ==> {
            let inner = c.data.len() - 14;
            let c1 = TcView {
                data: c.data.take(14) + checksum::ipv4_outer(
                    (inner + 36) as u16,
                    enc.src,
                    enc.dst,
                ) + headers::udp_hdr(2152, 2152, (inner + 16) as u16) + headers::gtp_hdr(
                    inner as u16,
                    enc.teid,
                ) + c.data.skip(14),
                room: (c.room - 36) as usize,
                stats: c.stats.push(STAT_GTP_ENCAP),
                ..c
            };
            let out = fib::xmitted(t, c1, nh, 0x0800);
            impose::gtp_encapped(t, c, id, nh) == (out.0, Ok::<TcAct, ()>(out.1))
        },
{
    reveal(impose::gtp_encapped);
    if t.gtp_encap@.get(id) == Some(enc) && c.room >= 36 {
        let inner = c.data.len() - 14;
        let a = checksum::ipv4_outer((inner + 36) as u16, enc.src, enc.dst);
        let b = headers::udp_hdr(2152, 2152, (inner + 16) as u16);
        let g = headers::gtp_hdr(inner as u16, enc.teid);
        assert(bytes::wrap16(inner + 36) == inner + 36 && bytes::wrap16(inner + 16) == inner + 16
            && bytes::wrap16(inner) == inner);
        assert(impose::gtp_outer(enc, inner) == a + b + g);
        assert(a.len() == 20 && b.len() == 8 && g.len() == 8) by {
            outer4_layout((inner + 36) as u16, enc.src, enc.dst);
            tunnel_header_layout(2152, 2152, (inner + 16) as u16, enc.teid, 0);
            tunnel_header_layout(2152, 2152, inner as u16, enc.teid, 0);
        }
        put_in_between(c.data, a, b, g);
    }
}

proof fn put_in_between(s: Seq<u8>, a: Seq<u8>, b: Seq<u8>, c: Seq<u8>)
    requires
        s.len() >= 14,
    ensures
        bytes::inserted(s, 14, a + b + c) == s.take(14) + a + b + c + s.skip(14),
{
    assert(bytes::inserted(s, 14, a + b + c) =~= s.take(14) + a + b + c + s.skip(14));
}

/// A VXLAN path's packet leaves inside the remote router's network: behind outer
/// headers between the tunnel's ends and a frame header between the routers. It
/// is left alone where the path, the network or the node's own end is unknown.
pub proof fn vxlan_path_carries(
    t: &Tables,
    c: TcView,
    id: u32,
    nh: NextHop,
    et: u16,
    enc: VxlanEncap,
    info: VniInfo,
)
    requires
        14 <= c.data.len() < 0x1_0000 - 50,
    ensures
        ({
            let r = impose::vxlan_l3_encapped(t, c, id, nh, et);
            let known = t.vxlan_encap@.get(id) == Some(enc) && t.vni_info@.get(enc.l3vni) == Some(
                info,
            );
            &&& t.vxlan_encap@.get(id) is None || (t.vxlan_encap@.get(id) == Some(enc)
                && t.vni_info@.get(enc.l3vni) is None) || (known && t.vxlan_src == [
                0u8,
                0u8,
                0u8,
                0u8,
            ]) ==> r == (c, Ok::<TcAct, ()>(TcAct::Pipe))
            &&& known && t.vxlan_src != [0u8, 0u8, 0u8, 0u8] && c.room < 50 ==> r == (
                c,
                Err::<TcAct, ()>(()),
            )
            &&& known && t.vxlan_src != [0u8, 0u8, 0u8, 0u8] && c.room >= 50 ==> {
                let inner = c.data.len() - 14;
                let c1 = TcView {
                    data: c.data.take(14) + checksum::ipv4_outer(
                        (inner + 50) as u16,
                        t.vxlan_src,
                        enc.vtep,
                    ) + headers::udp_hdr(4789, 4789, (inner + 30) as u16) + headers::vxlan_hdr(
                        enc.l3vni,
                    ) + bytes::eth_hdr(enc.rmac, info.rmac, et) + c.data.skip(14),
                    room: (c.room - 50) as usize,
                    stats: c.stats.push(STAT_VXLAN_ENCAP),
                    ..c
                };
                let out = fib::xmitted(t, c1, nh, 0x0800);
                r == (out.0, Ok::<TcAct, ()>(out.1))
            }
        }),
{
    reveal(impose::vxlan_l3_encapped);
    if t.vxlan_encap@.get(id) == Some(enc) && t.vni_info@.get(enc.l3vni) == Some(info)
        && t.vxlan_src != [0u8, 0u8, 0u8, 0u8] && c.room >= 50 {
        let inner = c.data.len() - 14;
        outer4_layout((inner + 50) as u16, t.vxlan_src, enc.vtep);
        tunnel_header_layout(4789, 4789, (inner + 30) as u16, t.vxlan_src, enc.l3vni);
        frame_header_layout(enc.rmac, info.rmac, et);
        assert(bytes::inserted(
            c.data,
            14,
            impose::vxlan_l3_outer(t.vxlan_src, enc, info.rmac, et, inner),
        ) =~= c.data.take(14) + checksum::ipv4_outer((inner + 50) as u16, t.vxlan_src, enc.vtep)
            + headers::udp_hdr(4789, 4789, (inner + 30) as u16) + headers::vxlan_hdr(enc.l3vni)
            + bytes::eth_hdr(enc.rmac, info.rmac, et) + c.data.skip(14));
    }
}

/// The packet under a policy's headers: between the frame's header and the packet
/// as it came.
pub open spec fn under_policy(
    t: &Tables,
    c: TcView,
    enc: Srv6Encap,
    proto: u8,
    n: int,
    extra: int,
) -> TcView {
    TcView {
        data: c.data.take(14) + headers::encaps_red(
            (c.data.len() - 14 + extra - 40) as u16,
            proto,
            t.srv6_encap_src,
            enc.segs,
            n,
        ) + c.data.skip(14),
        room: (c.room - extra) as usize,
        ..c
    }
}

/// How many bytes a policy of `n` segments puts in front.
pub open spec fn policy_bytes(n: int) -> int {
    if n == 1 {
        40
    } else {
        48 + 16 * (n - 1)
    }
}

/// An encapsulation puts the policy's headers in front of the packet, or, without
/// room for them, fails and leaves it alone.
pub proof fn policy_encapsulates(t: &Tables, c: TcView, enc: Srv6Encap, et: u16)
    requires
        1 <= enc.num_segs <= 6,
        14 <= c.data.len() < 0x1_0000 - 200,
    ensures
        ({
            let n = enc.num_segs as int;
            let r = impose::hencapped(t, c, enc, et);
            let proto: u8 = if et == 0x86dd {
                41
            } else {
                4
            };
            &&& policy_bytes(n) > c.room ==> r == (c, Err::<(), ()>(()))
            &&& policy_bytes(n) <= c.room ==> r == (
                under_policy(t, c, enc, proto, n, policy_bytes(n)),
                Ok::<(), ()>(()),
            )
        }),
{
    reveal(impose::hencapped);
    let n = enc.num_segs as int;
    let proto: u8 = if et == 0x86dd {
        41
    } else {
        4
    };
    let len = (c.data.len() - 14 + policy_bytes(n) - 40) as u16;
    headers::header_lengths(len, proto, t.srv6_encap_src, enc.segs, n);
    assert(bytes::wrap16(c.data.len() - 14 + headers::red_srh_len(n)) == len);
}

/// A segment path's packet leaves under its policy, and under a second one where
/// the first segment is itself reached through a policy. Without a usable policy
/// it is left alone; an insertion is only made into IPv6.
pub proof fn segment_path_encapsulates(
    t: &Tables,
    c: TcView,
    id: u32,
    nh: NextHop,
    et: u16,
    enc: Srv6Encap,
)
    requires
        t.srv6_encap@.get(id) == Some(enc),
    ensures
        ({
            let r = impose::srv6_encapped(t, c, id, nh, et);
            let (c1, e1) = impose::hencapped(t, c, enc, et);
            let (c2, more) = impose::second_layer(
                t,
                TcView { stats: c1.stats.push(STAT_SRV6_ENCAP), ..c1 },
                enc.segs[0],
            );
            let outer = enc.mode != SRV6_ENCAP_MODE_INSERT && 1 <= enc.num_segs <= 6;
            &&& enc.num_segs == 0 || enc.num_segs > 6 ==> r == (c, Ok::<TcAct, ()>(TcAct::Pipe))
            &&& enc.mode == SRV6_ENCAP_MODE_INSERT && 1 <= enc.num_segs <= 6 && et == 0x86dd ==> r
                == impose::inserted6(t, c, enc, nh)
            &&& enc.mode == SRV6_ENCAP_MODE_INSERT && et != 0x86dd ==> r == (
                c,
                Ok::<TcAct, ()>(TcAct::Pipe),
            )
            &&& outer && e1 is Err ==> r == (c1, Err::<TcAct, ()>(()))
            &&& outer && e1 is Ok && more is None ==> {
                let out = fib::xmitted(t, c2, nh, 0x86dd);
                r == (out.0, Ok::<TcAct, ()>(out.1))
            }
            &&& outer && e1 is Ok ==> match more {
                Some((nh2, enc2)) => {
                    let (c3, e3) = impose::hencapped(t, c2, enc2, 0x86dd);
                    let out = fib::xmitted(
                        t,
                        TcView { stats: c3.stats.push(STAT_SRV6_ENCAP), ..c3 },
                        nh2,
                        0x86dd,
                    );
                    &&& e3 is Err ==> r == (c3, Err::<TcAct, ()>(()))
                    &&& e3 is Ok ==> r == (out.0, Ok::<TcAct, ()>(out.1))
                },
                None => true,
            }
        }),
{
    reveal(impose::srv6_encapped);
}

/// A path without a policy leaves its packet alone.
pub proof fn path_without_policy_is_left_alone(
    t: &Tables,
    c: TcView,
    id: u32,
    nh: NextHop,
    et: u16,
)
    requires
        t.srv6_encap@.get(id) is None,
    ensures
        impose::srv6_encapped(t, c, id, nh, et) == (c, Ok::<TcAct, ()>(TcAct::Pipe)),
{
    reveal(impose::srv6_encapped);
}

/// The second policy is that of the nexthop in use of the route to the segment,
/// where that route is to a single nexthop, the nexthop imposes segments, and its
/// policy is a usable one that encapsulates.
pub proof fn second_policy_is_the_segments_route(
    t: &Tables,
    c: TcView,
    seg: [u8; 16],
    f: FibEntry,
    id: u32,
    nh: NextHop,
    e: Srv6Encap,
)
    ensures
        ({
            let r = impose::second_layer(t, c, seg);
            let m = lpm::matched(t.fib6@, seg@);
            let single = m == Some(f) && f.flags & (FIB_F_LOCAL | FIB_F_BLACKHOLE | FIB_F_ECMP)
                == 0;
            let (c1, in_use) = fib::resolved(t, c, f.nexthop_id);
            let policy = in_use == Some((id, nh)) && nh.flags & NH_F_SRV6 != 0
                && t.srv6_encap@.get(id) == Some(e);
            &&& m is None || (m == Some(f) && !single) ==> r == (c, None::<(NextHop, Srv6Encap)>)
            &&& single && policy && e.mode != SRV6_ENCAP_MODE_INSERT && 1 <= e.num_segs <= 6 ==> r
                == (c1, Some((nh, e)))
            &&& single && (in_use is None || (in_use == Some((id, nh)) && (nh.flags & NH_F_SRV6 == 0
                || t.srv6_encap@.get(id) is None)) || (policy && (e.mode == SRV6_ENCAP_MODE_INSERT
                || e.num_segs == 0 || e.num_segs > 6))) ==> r == (
                c1,
                None::<(NextHop, Srv6Encap)>,
            )
        }),
{
}

/// An insertion puts a routing header between the packet's own header and its
/// payload: the destination becomes the policy's first segment, and the list
/// ends in the destination that the packet had. The packet has one hop less.
pub proof fn insertion_keeps_the_packet(t: &Tables, c: TcView, enc: Srv6Encap, nh: NextHop, k: int)
    requires
        1 <= enc.num_segs <= 6,
        54 <= c.data.len() < 0x1_0000,
        c.data[21] > 1,
        8 + 16 * (enc.num_segs + 1) <= c.room,
        c.data[18] * 256 + c.data[19] + 200 < 0x1_0000,
        0 <= k < enc.num_segs,
    ensures
        ({
            let s = c.data;
            let n = enc.num_segs as int;
            let more = 8 + 16 * (n + 1);
            exists|c1: TcView|
                {
                    let d = c1.data;
                    &&& c1 == (TcView {
                        data: d,
                        room: (c.room - more) as usize,
                        stats: c.stats.push(STAT_SRV6_HINSERT),
                        ..c
                    })
                    &&& impose::inserted6(t, c, enc, nh) == (
                        (#[trigger] fib::xmitted(t, c1, nh, 0x86dd)).0,
                        Ok::<TcAct, ()>(fib::xmitted(t, c1, nh, 0x86dd).1),
                    )
                    &&& d.len() == s.len() + more
                    &&& d.take(18) == s.take(18)
                    &&& d[18] * 256 + d[19] == s[18] * 256 + s[19] + more
                    &&& d[20] == 43 && d[21] == s[21] - 1
                    &&& d.subrange(22, 38) == s.subrange(22, 38)
                    &&& d.subrange(38, 54) == enc.segs[0]@
                    &&& d[54] == s[20] && d[55] == 2 * (n + 1) && d[56] == 4
                    &&& d[57] == n && d[58] == n
                    &&& d[59] == 0 && d[60] == 0 && d[61] == 0
                    &&& d.subrange(62, 78) == s.subrange(38, 54)
                    &&& d.subrange(78 + 16 * (n - 1 - k), 94 + 16 * (n - 1 - k)) == enc.segs[k]@
                    &&& d.skip(54 + more) == s.skip(54)
                }
        }),
{
    reveal(impose::inserted6);
    let s = c.data;
    let n = enc.num_segs as int;
    let more = 8 + 16 * (n + 1);
    headers::rev_segs_len(enc.segs, 0, n);
    headers::rev_segs_entry(enc.segs, 0, n, n - 1 - k);
    let len = bytes::wrap16(bytes::be16(s, 18) + more);
    bytes::be16_round_trip(len);
    let a = s.take(18) + bytes::be16_bytes(len) + seq![43u8, (s[21] - 1) as u8] + s.subrange(22, 38)
        + enc.segs[0]@;
    let b = a + headers::srh_hdr(s[20], n + 1, n) + s.subrange(38, 54);
    let e = b + headers::rev_segs(enc.segs, 0, n);
    let d = e + s.skip(54);
    let c1 = TcView {
        data: d,
        room: (c.room - more) as usize,
        stats: c.stats.push(STAT_SRV6_HINSERT),
        ..c
    };
    assert(a.len() == 54 && b.len() == 78 && e.len() == 54 + more);
    assert(d.take(18) =~= s.take(18));
    assert(d.subrange(22, 38) =~= s.subrange(22, 38));
    assert(d.subrange(38, 54) =~= enc.segs[0]@);
    assert(d.subrange(62, 78) =~= s.subrange(38, 54));
    assert(d.subrange(78 + 16 * (n - 1 - k), 94 + 16 * (n - 1 - k)) =~= headers::rev_segs(
        enc.segs,
        0,
        n,
    ).subrange(16 * (n - 1 - k), 16 * (n - 1 - k) + 16));
    assert(d.skip(54 + more) =~= s.skip(54));
    let out = fib::xmitted(t, c1, nh, 0x86dd);
    assert(impose::inserted6(t, c, enc, nh) == (out.0, Ok::<TcAct, ()>(out.1)));
}

// ----------------------------------- labels ---------------------------------

/// Whether `d` is `s` without its top label, under the type `et`.
pub open spec fn unlabelled(s: Seq<u8>, d: Seq<u8>, et: int) -> bool {
    &&& d.len() == s.len() - 4
    &&& forall|i: int| 0 <= i < 12 ==> #[trigger] d[i] == s[i]
    &&& d[12] * 256 + d[13] == et
    &&& forall|i: int| 14 <= i < d.len() ==> #[trigger] d[i] == s[i + 4]
}

/// A pop takes the top label off and is counted.
pub proof fn pop_takes_the_top_label(x: XdpView, et: u16)
    requires
        x.data.len() >= 18,
    ensures
        ({
            let x1 = label::popped(x, et);
            &&& unlabelled(x.data, x1.data, et as int)
            &&& x1 == (XdpView {
                data: x1.data,
                headroom: x1.headroom,
                stats: x.stats.push(STAT_MPLS_POP),
                ..x
            })
        }),
{
    bytes::be16_round_trip(et);
}

/// What lies under the last label is told by its version.
pub proof fn payload_is_told_by_its_version(s: Seq<u8>)
    ensures
        s.len() < 19 ==> label::exposed(s) is None,
        s.len() >= 19 && s[18] / 16 == 4 ==> label::exposed(s) == Some(0x0800u16),
        s.len() >= 19 && s[18] / 16 == 6 ==> label::exposed(s) == Some(0x86ddu16),
        s.len() >= 19 && s[18] / 16 != 4 && s[18] / 16 != 6 ==> label::exposed(s) is None,
{
}

/// Under the uniform model the label's time to live goes down into the packet, the
/// IPv4 checksum with it, and nothing else changes.
pub proof fn uniform_ttl_goes_down(x: XdpView, ttl: u8)
    requires
        x.data.len() >= 34,
    ensures
        ({
            let s = x.data;
            let (x1, r) = label::uniform(x, 0x0800, ttl);
            let d = x1.data;
            &&& r is Ok && d.len() == s.len()
            &&& d[22] == ttl
            &&& ((d[24] * 256 + d[25]) + ttl * 256 - (s[24] * 256 + s[25]) - s[22] * 256) % 0xffff
                == 0
            &&& forall|i: int|
                0 <= i < d.len() && i != 22 && i != 24 && i != 25 ==> #[trigger] d[i] == s[i]
            &&& x1 == (XdpView { data: d, ..x })
        }),
        ({
            let (x1, r) = label::uniform(x, 0x86dd, ttl);
            r is Ok && x1 == (XdpView { data: x.data.update(21, ttl), ..x })
        }),
{
    let s = x.data;
    let old = bytes::be16(s, 22);
    let new = (ttl * 256 + s[23]) as u16;
    let hc = bytes::be16(s, 24);
    checksum_follows_its_word(hc, old, new);
    let r = checksum::csum16_updated(hc, old, new);
    bytes::be16_round_trip(r);
    if s[22] == ttl {
        assert((hc + ttl * 256 - hc - s[22] * 256) == 0);
    }
}

/// A label that ends here uncovers the packet and hands it up for its table; what
/// is neither IPv4 nor IPv6 is dropped and counted.
pub proof fn last_label_ends_here(t: &Tables, x: XdpView, vrf: u32, ttl: u8, uni: bool)
    requires
        x.data.len() >= 38,
    ensures
        ({
            let s = x.data;
            let et: u16 = if s[18] / 16 == 4 {
                0x0800
            } else {
                0x86dd
            };
            let known = s[18] / 16 == 4 || s[18] / 16 == 6;
            let x1 = if uni {
                label::uniform(label::popped(x, et), et, ttl).0
            } else {
                label::popped(x, et)
            };
            let r = label::decapped_local(t, x, vrf, ttl, uni);
            &&& !known ==> r == (
                XdpView { stats: x.stats.push(STAT_DROP), ..x },
                Ok::<XdpAct, ()>(XdpAct::Drop),
            )
            &&& known && vrf == 0 ==> r == (x1, Ok::<XdpAct, ()>(XdpAct::Pass))
            &&& known && vrf != 0 && x.meta_room ==> r == (
                XdpView {
                    meta: Some(
                        CradleXdpMeta { magic: XDP_META_MAGIC ^ t.meta_cookie, vrf_id: vrf },
                    ),
                    ..x1
                },
                Ok::<XdpAct, ()>(XdpAct::Pass),
            )
            &&& known && vrf != 0 && !x.meta_room ==> r.1 == Ok::<XdpAct, ()>(XdpAct::Drop)
        }),
{
    reveal(label::decapped_local);
}

/// A label that ends before the last router is taken off and what is under it sent
/// on to the neighbor: the next label, or, under the bottom one, the packet.
pub proof fn penultimate_label_is_popped(
    t: &Tables,
    x: XdpView,
    nh: NextHop,
    s: u8,
    ttl: u8,
    uni: bool,
)
    requires
        x.data.len() >= 38,
        s < 2,
        ttl > 1,
    ensures
        ({
            let d = x.data;
            let r = label::popped_forward(t, x, nh, s, ttl, uni);
            let et: u16 = if s == 0 {
                0x8847
            } else if d[18] / 16 == 4 {
                0x0800
            } else {
                0x86dd
            };
            let known = s == 0 || d[18] / 16 == 4 || d[18] / 16 == 6;
            let x1 = if uni && s == 1 {
                label::uniform(label::popped(x, et), et, (ttl - 1) as u8).0
            } else {
                label::popped(x, et)
            };
            match fib::l2_of(t, nh) {
                None => r == (x, Ok::<XdpAct, ()>(XdpAct::Pass)),
                Some((dst, src)) => {
                    &&& !known ==> r == (
                        XdpView { stats: x.stats.push(STAT_DROP), ..x },
                        Ok::<XdpAct, ()>(XdpAct::Drop),
                    )
                    &&& known ==> r == (
                        XdpView { data: dst@ + src@ + x1.data.skip(12), ..x1 },
                        Ok::<XdpAct, ()>(XdpAct::Redirect(nh.oif)),
                    )
                },
            }
        }),
{
    reveal(label::popped_forward);
}

/// A swap for several labels replaces the top label by them, with one hop less and
/// the bottom marked as it was, and sends the frame to the neighbor.
pub proof fn swap_may_grow_the_stack(t: &Tables, x: XdpView, nh: NextHop, s: u8, ttl: u8)
    requires
        x.data.len() >= 18,
        s < 2,
        ttl > 1,
    ensures
        ({
            let n = nh.num_labels as int;
            let r = label::grow_swapped(t, x, nh, s, ttl);
            &&& n < 2 || n > 3 || fib::l2_of(t, nh) is None || 4 * (n - 1) > x.headroom ==> r == (
                x,
                Ok::<XdpAct, ()>(XdpAct::Pass),
            )
            &&& 2 <= n <= 3 && 4 * (n - 1) <= x.headroom ==> match fib::l2_of(t, nh) {
                Some((dst, src)) => r == (
                    XdpView {
                        data: dst@ + src@ + seq![0x88u8, 0x47u8] + headers::label_stack(
                            nh.labels,
                            n,
                            s,
                            (ttl - 1) as u8,
                            n,
                        ) + x.data.skip(18),
                        headroom: (x.headroom - 4 * (n - 1)) as usize,
                        stats: x.stats.push(STAT_MPLS_SWAP),
                        ..x
                    },
                    Ok::<XdpAct, ()>(XdpAct::Redirect(nh.oif)),
                ),
                None => true,
            }
        }),
{
    reveal(label::grow_swapped);
    let n = nh.num_labels as int;
    if 2 <= n <= 3 {
        stack_len(nh.labels, n, s, (ttl - 1) as u8, n);
        assert(bytes::be16_bytes(0x8847) =~= seq![0x88u8, 0x47u8]);
    }
}

/// What becomes of a labelled frame is decided by its top label: a label of no
/// entry or nexthop, and one without hops left, goes up untouched. One that ends
/// here is taken off, and the next decides if it was not the last.
pub proof fn top_label_decides(t: &Tables, x: XdpView, ent: MplsEntry, nh: NextHop)
    requires
        x.data.len() >= 18,
        x.data[12] * 256 + x.data[13] == 0x8847,
    ensures
        ({
            let d = x.data;
            let top = (d[14] * 4096 + d[15] * 16 + d[16] / 16) as u32;
            let s = (d[16] % 2) as u8;
            let ttl = d[17];
            let uni = ent.flags & MPLS_E_TTL_UNIFORM != 0;
            let (x1, r) = label::label_round(t, x);
            let hit = t.mpls_fib@.get(top) == Some(ent) && ttl > 1 && t.nexthops@.get(
                ent.nexthop_id,
            ) == Some(nh);
            let ends = (ent.op == MPLS_OP_SWAP || ent.op == MPLS_OP_POP) && nh.num_labels == 0;
            let here = label::decapped_local(t, x, ent.vrf_id, ttl, uni);
            let on = label::popped_forward(t, x, nh, s, ttl, uni);
            let grow = label::grow_swapped(t, x, nh, s, ttl);
            &&& t.mpls_fib@.get(top) is None || ttl <= 1 || (t.mpls_fib@.get(top) == Some(ent)
                && t.nexthops@.get(ent.nexthop_id) is None) ==> x1 == x && r == Some(
                Ok::<XdpAct, ()>(XdpAct::Pass),
            )
            &&& hit && ent.op == MPLS_OP_POP_L3 && s == 1 ==> x1 == here.0 && r == Some(here.1)
            &&& hit && ent.op == MPLS_OP_POP_L3 && s == 0 ==> x1 == x && r == Some(
                Ok::<XdpAct, ()>(XdpAct::Pass),
            )
            &&& hit && ends && nh.oif != 0 ==> x1 == on.0 && r == Some(on.1)
            &&& hit && ends && nh.oif == 0 && s == 1 ==> x1 == here.0 && r == Some(here.1)
            &&& hit && ends && nh.oif == 0 && s == 0 ==> x1 == label::popped(x, 0x8847) && r is None
            &&& hit && ent.op == MPLS_OP_SWAP && nh.num_labels > 1 ==> x1 == grow.0 && r == Some(
                grow.1,
            )
            &&& hit && ent.op == MPLS_OP_SWAP && nh.num_labels == 1 ==> x1 == x && r == Some(
                Ok::<XdpAct, ()>(XdpAct::Pass),
            )
        }),
{
    let d = x.data;
    fields_of_bytes(
        bytes::be32(d, 14),
        d[14] as int,
        d[15] as int,
        d[16] as int,
        d[17] as int,
    );
}

/// Labels are taken off one after the other, as long as they end here and others
/// lie under them, but not more often than the given number of rounds.
pub proof fn labels_end_one_by_one(t: &Tables, x: XdpView, rounds: int)
    ensures
        rounds <= 0 ==> label::mpls_staged(t, x, rounds) == (x, Ok::<XdpAct, ()>(XdpAct::Pass)),
        rounds > 0 ==> match label::label_round(t, x).1 {
            Some(r) => label::mpls_staged(t, x, rounds) == (label::label_round(t, x).0, r),
            None => label::mpls_staged(t, x, rounds) == label::mpls_staged(
                t,
                label::label_round(t, x).0,
                rounds - 1,
            ),
        },
{
}

} // verus!
