//! The outer headers the stages impose: IPv6, SRH, UDP, GTP-U, VXLAN and MPLS
//! label stacks.

use vstd::prelude::*;
use crate::bytes;
use crate::types::{MAX_LABELS, MAX_SEGS};
use crate::words;

verus! {

/// An IPv6 base header (traffic class and flow label 0).
pub open spec fn ip6_hdr(
    payload_len: u16,
    next_header: u8,
    hop: u8,
    src: [u8; 16],
    dst: [u8; 16],
) -> Seq<u8> {
    seq![0x60u8, 0u8, 0u8, 0u8] + bytes::be16_bytes(payload_len) + seq![next_header, hop] + src@
        + dst@
}

/// Fixed part of an SRH (routing type 4) over `entries` segments.
pub open spec fn srh_hdr(next_header: u8, entries: int, segments_left: int) -> Seq<u8> {
    seq![
        next_header,
        (2 * entries) as u8,
        4u8,
        segments_left as u8,
        (entries - 1) as u8,
        0u8,
        0u8,
        0u8,
    ]
}

/// Segments `lo..hi`, last first — the order of an SRH segment list.
pub open spec fn rev_segs(segs: [[u8; 16]; MAX_SEGS], lo: int, hi: int) -> Seq<u8>
    decreases hi - lo,
{
    if lo >= hi {
        Seq::empty()
    } else {
        rev_segs(segs, lo + 1, hi) + segs[lo]@
    }
}

/// Length of the SRH a reduced encapsulation of `n` segments carries: none
/// for a single segment, else all but the first.
pub open spec fn red_srh_len(n: int) -> int {
    if n == 1 {
        0
    } else {
        8 + 16 * (n - 1)
    }
}

/// Outer headers of H.Encaps.Red: an IPv6 header to the first segment and,
/// for more than one, an SRH with the rest. `payload_len` is that of the
/// outer header.
pub open spec fn encaps_red(
    payload_len: u16,
    inner_proto: u8,
    src: [u8; 16],
    segs: [[u8; 16]; MAX_SEGS],
    n: int,
) -> Seq<u8> {
    if n == 1 {
        ip6_hdr(payload_len, inner_proto, 64, src, segs[0])
    } else {
        ip6_hdr(payload_len, 43, 64, src, segs[0]) + srh_hdr(inner_proto, n - 1, n - 1) + rev_segs(
            segs,
            1,
            n,
        )
    }
}

/// A UDP header with checksum 0.
pub open spec fn udp_hdr(sport: u16, dport: u16, len: u16) -> Seq<u8> {
    bytes::be16_bytes(sport) + bytes::be16_bytes(dport) + bytes::be16_bytes(len) + seq![0u8, 0u8]
}

/// A GTP-U G-PDU header without optional fields.
pub open spec fn gtp_hdr(len: u16, teid: [u8; 4]) -> Seq<u8> {
    seq![0x30u8, 0xffu8] + bytes::be16_bytes(len) + teid@
}

/// A VXLAN header: I flag, VNI in the upper 24 bits of the second word.
pub open spec fn vxlan_hdr(vni: u32) -> Seq<u8> {
    seq![0x08u8, 0u8, 0u8, 0u8] + bytes::be32_bytes(((vni * 256) % 0x1_0000_0000) as u32)
}

/// The first `k` entries of an imposed label stack of depth `n`: TC 0, the
/// bottom-of-stack bit only on the innermost.
pub open spec fn label_stack(
    labels: [u32; MAX_LABELS],
    n: int,
    bos: u8,
    ttl: u8,
    k: int,
) -> Seq<u8>
    decreases k,
{
    if k <= 0 {
        Seq::empty()
    } else {
        label_stack(labels, n, bos, ttl, k - 1) + bytes::be32_bytes(
            words::lse_value(
                labels[k - 1] as int,
                0,
                if k == n {
                    bos as int
                } else {
                    0
                },
                ttl as int,
            ) as u32,
        )
    }
}

/// Append an IPv6 base header.
pub fn put_ip6(
    v: &mut Vec<u8>,
    payload_len: u16,
    next_header: u8,
    hop: u8,
    src: &[u8; 16],
    dst: &[u8; 16],
)
    ensures
        final(v)@ == old(v)@ + ip6_hdr(payload_len, next_header, hop, *src, *dst),
{
    v.push(0x60);
    v.push(0);
    v.push(0);
    v.push(0);
    bytes::put_be16(v, payload_len);
    v.push(next_header);
    v.push(hop);
    bytes::put(v, src.as_slice());
    bytes::put(v, dst.as_slice());
    assert(v@ =~= old(v)@ + ip6_hdr(payload_len, next_header, hop, *src, *dst));
}

/// Append the fixed part of an SRH.
pub(crate) fn put_srh(v: &mut Vec<u8>, next_header: u8, entries: u8, segments_left: u8)
    requires
        1 <= entries <= 8,
    ensures
        final(v)@ == old(v)@ + srh_hdr(next_header, entries as int, segments_left as int),
{
    v.push(next_header);
    v.push(2 * entries);
    v.push(4);
    v.push(segments_left);
    v.push(entries - 1);
    v.push(0);
    v.push(0);
    v.push(0);
    assert(v@ =~= old(v)@ + srh_hdr(next_header, entries as int, segments_left as int));
}

/// Append segments `lo..hi`, last first.
pub(crate) fn put_segs(v: &mut Vec<u8>, segs: &[[u8; 16]; MAX_SEGS], lo: usize, hi: usize)
    requires
        lo <= hi <= MAX_SEGS,
    ensures
        final(v)@ == old(v)@ + rev_segs(*segs, lo as int, hi as int),
{
    let mut j: usize = hi;
    assert(v@ =~= old(v)@ + rev_segs(*segs, j as int, hi as int));
    while j > lo
        invariant
            lo <= j <= hi <= MAX_SEGS,
            v@ == old(v)@ + rev_segs(*segs, j as int, hi as int),
        decreases j,
    {
        j -= 1;
        bytes::put(v, segs[j].as_slice());
        assert(v@ =~= old(v)@ + rev_segs(*segs, j as int, hi as int));
    }
}

/// The outer headers of H.Encaps.Red.
pub(crate) fn make_encaps_red(
    payload_len: u16,
    inner_proto: u8,
    src: &[u8; 16],
    segs: &[[u8; 16]; MAX_SEGS],
    n: usize,
) -> (r: Vec<u8>)
    requires
        1 <= n <= MAX_SEGS,
    ensures
        r@ == encaps_red(payload_len, inner_proto, *src, *segs, n as int),
{
    let mut v: Vec<u8> = Vec::new();
    if n == 1 {
        put_ip6(&mut v, payload_len, inner_proto, 64, src, &segs[0]);
    } else {
        put_ip6(&mut v, payload_len, 43, 64, src, &segs[0]);
        put_srh(&mut v, inner_proto, n as u8 - 1, n as u8 - 1);
        put_segs(&mut v, segs, 1, n);
    }
    assert(v@ =~= encaps_red(payload_len, inner_proto, *src, *segs, n as int));
    v
}

/// Append a UDP header with checksum 0.
pub fn put_udp(v: &mut Vec<u8>, sport: u16, dport: u16, len: u16)
    ensures
        final(v)@ == old(v)@ + udp_hdr(sport, dport, len),
{
    bytes::put_be16(v, sport);
    bytes::put_be16(v, dport);
    bytes::put_be16(v, len);
    v.push(0);
    v.push(0);
    assert(v@ =~= old(v)@ + udp_hdr(sport, dport, len));
}

/// Append a GTP-U G-PDU header.
pub fn put_gtp(v: &mut Vec<u8>, len: u16, teid: &[u8; 4])
    ensures
        final(v)@ == old(v)@ + gtp_hdr(len, *teid),
{
    v.push(0x30);
    v.push(0xff);
    bytes::put_be16(v, len);
    bytes::put(v, teid.as_slice());
    assert(v@ =~= old(v)@ + gtp_hdr(len, *teid));
}

/// Append a VXLAN header.
pub fn put_vxlan(v: &mut Vec<u8>, vni: u32)
    ensures
        final(v)@ == old(v)@ + vxlan_hdr(vni),
{
    v.push(0x08);
    v.push(0);
    v.push(0);
    v.push(0);
    bytes::put_be32(v, vni.wrapping_mul(256));
    assert(v@ =~= old(v)@ + vxlan_hdr(vni));
}

/// An imposed label stack of depth `n`.
pub(crate) fn make_labels(labels: &[u32; MAX_LABELS], n: usize, bos: u8, ttl: u8) -> (r: Vec<u8>)
    requires
        n <= MAX_LABELS,
    ensures
        r@ == label_stack(*labels, n as int, bos, ttl, n as int),
        r@.len() == 4 * n,
{
    let mut v: Vec<u8> = Vec::new();
    let mut i: usize = 0;
    while i < n
        invariant
            i <= n <= MAX_LABELS,
            v@ == label_stack(*labels, n as int, bos, ttl, i as int),
            v@.len() == 4 * i,
        decreases n - i,
    {
        let s: u8 = if i == n - 1 {
            bos
        } else {
            0
        };
        let lse: u32 = words::mpls_lse(labels[i], 0, s, ttl);
        bytes::put_be32(&mut v, lse);
        i += 1;
    }
    v
}

/// The lengths of the imposed headers.
pub proof fn header_lengths(
    payload_len: u16,
    inner_proto: u8,
    src: [u8; 16],
    segs: [[u8; 16]; MAX_SEGS],
    n: int,
)
    requires
        1 <= n <= MAX_SEGS,
    ensures
        encaps_red(payload_len, inner_proto, src, segs, n).len() == 40 + red_srh_len(n),
{
    rev_segs_len(segs, 1, n);
}

/// The length of a reversed segment list.
pub proof fn rev_segs_len(segs: [[u8; 16]; MAX_SEGS], lo: int, hi: int)
    requires
        lo <= hi,
    ensures
        rev_segs(segs, lo, hi).len() == 16 * (hi - lo),
    decreases hi - lo,
{
    if lo < hi {
        rev_segs_len(segs, lo + 1, hi);
    }
}

/// Entry `i` of the segment list of `lo..hi` is segment `hi - 1 - i`.
pub proof fn rev_segs_entry(segs: [[u8; 16]; MAX_SEGS], lo: int, hi: int, i: int)
    requires
        lo <= hi,
        0 <= i < hi - lo,
    ensures
        rev_segs(segs, lo, hi).subrange(16 * i, 16 * i + 16) == segs[hi - 1 - i]@,
    decreases hi - lo,
{
    rev_segs_len(segs, lo + 1, hi);
    rev_segs_len(segs, lo, hi);
    let tail = rev_segs(segs, lo + 1, hi);
    if i == hi - lo - 1 {
        assert(rev_segs(segs, lo, hi).subrange(16 * i, 16 * i + 16) =~= segs[lo]@);
    } else {
        rev_segs_entry(segs, lo + 1, hi, i);
        assert(rev_segs(segs, lo, hi).subrange(16 * i, 16 * i + 16) =~= tail.subrange(
            16 * i,
            16 * i + 16,
        ));
    }
}

} // verus!
