//! What checksum patches add up to.
//!
//! A rewritten packet asks the kernel to patch its checksums rather than
//! summing it again. The laws here say that what is asked for is exactly what
//! the rewrite changed, so that a checksum that verified before verifies after
//! the patches. Sums are taken modulo `0xffff`, as one's-complement addition
//! does, over 16-bit words in memory order.

use vstd::prelude::*;
use crate::bytes;
use crate::l3;
use crate::l4;
use crate::policy;
use crate::policy::{Flow4, Flow6};
use crate::skb::{CsumFix, TcView};
use crate::tables::Tables;
use crate::types::{NextHop, STAT_L4_SNAT};
use crate::wire::{IP6_L4_OFF, L4_OFF};

verus! {

/// Sum of the 16-bit words of a byte string; an odd byte at the end counts as a
/// word padded with zero.
pub open spec fn words(s: Seq<u8>) -> int
    decreases s.len(),
{
    if s.len() == 0 {
        0
    } else if s.len() == 1 {
        s[0] as int
    } else {
        bytes::le16(s, 0) + words(s.skip(2))
    }
}

/// Whether two sums are the same in one's-complement addition.
pub open spec fn congruent(a: int, b: int) -> bool {
    (a - b) % 0xffff == 0
}

/// Whether the words under a checksum, the checksum itself among them, verify.
pub open spec fn verifies(sum: int) -> bool {
    congruent(sum, 0)
}

/// What the patches of one kind change in a sum: the L4 checksum's, or the IPv4
/// header's.
pub open spec fn asked(fixes: Seq<CsumFix>, l4: bool) -> int
    decreases fixes.len(),
{
    if fixes.len() == 0 {
        0
    } else {
        let f = fixes.last();
        asked(fixes.drop_last(), l4) + (if f.l4 == l4 {
            f.to - f.from
        } else {
            0
        })
    }
}

/// Whether `after` is the checksum `before` once patched for a sum that changed
/// by `delta`: the words then sum to what they summed to before.
pub open spec fn patched(before: u16, after: u16, delta: int) -> bool {
    congruent(after as int, before - delta)
}

/// The sum under the IPv4 header checksum of a packet without options.
pub open spec fn header_sum(s: Seq<u8>) -> int {
    words(s.subrange(14, 34))
}

/// The sum under the L4 checksum of an IPv4 packet whose segment reaches to
/// `end`: the addresses, the rest of the pseudo-header (protocol and length),
/// the segment.
pub open spec fn segment_sum4(s: Seq<u8>, end: int, rest: int) -> int {
    words(s.subrange(26, 34)) + rest + words(s.subrange(34, end))
}

/// The sum under the L4 checksum of an IPv6 packet.
pub open spec fn segment_sum6(s: Seq<u8>, end: int, rest: int) -> int {
    words(s.subrange(22, 54)) + rest + words(s.subrange(54, end))
}

proof fn words_concat(x: Seq<u8>, y: Seq<u8>)
    requires
        x.len() % 2 == 0,
    ensures
        words(x + y) == words(x) + words(y),
    decreases x.len(),
{
    if x.len() == 0 {
        assert(x + y =~= y);
    } else {
        words_concat(x.skip(2), y);
        assert((x + y).skip(2) =~= x.skip(2) + y);
        assert(bytes::le16(x + y, 0) == bytes::le16(x, 0));
    }
}

proof fn words_spliced(s: Seq<u8>, a: int, e: int, o: int, b: Seq<u8>)
    requires
        0 <= a <= o,
        o + b.len() <= e <= s.len(),
        (o - a) % 2 == 0,
        b.len() % 2 == 0,
    ensures
        words(bytes::splice(s, o, b).subrange(a, e)) == words(s.subrange(a, e)) - words(
            s.subrange(o, o + b.len()),
        ) + words(b),
        bytes::splice(s, o, b).len() == s.len(),
{
    let p = s.subrange(a, o);
    let q = s.subrange(o, o + b.len());
    let r = s.subrange(o + b.len(), e);
    assert(s.subrange(a, e) =~= p + (q + r));
    assert(bytes::splice(s, o, b).subrange(a, e) =~= p + (b + r));
    words_concat(p, q + r);
    words_concat(p, b + r);
    words_concat(q, r);
    words_concat(b, r);
}

proof fn words_elsewhere(s: Seq<u8>, a: int, e: int, o: int, b: Seq<u8>)
    requires
        0 <= a <= e <= s.len(),
        0 <= o,
        o + b.len() <= s.len(),
        e <= o || o + b.len() <= a,
    ensures
        words(bytes::splice(s, o, b).subrange(a, e)) == words(s.subrange(a, e)),
        bytes::splice(s, o, b).len() == s.len(),
{
    assert(bytes::splice(s, o, b).subrange(a, e) =~= s.subrange(a, e));
}

proof fn one_word(s: Seq<u8>, o: int)
    requires
        0 <= o,
        o + 2 <= s.len(),
    ensures
        words(s.subrange(o, o + 2)) == bytes::le16(s, o),
{
    let w = s.subrange(o, o + 2);
    assert(w.skip(2).len() == 0);
    assert(bytes::le16(w, 0) == bytes::le16(s, o));
    assert(words(w) == bytes::le16(w, 0) + words(w.skip(2)));
}

/// A 32-bit value counts as its two words.
proof fn two_words(s: Seq<u8>, o: int)
    requires
        0 <= o,
        o + 4 <= s.len(),
    ensures
        congruent(words(s.subrange(o, o + 4)), bytes::le32(s, o) as int),
{
    one_word(s, o);
    one_word(s, o + 2);
    assert(s.subrange(o, o + 4) =~= s.subrange(o, o + 2) + s.subrange(o + 2, o + 4));
    words_concat(s.subrange(o, o + 2), s.subrange(o + 2, o + 4));
    let (lo, hi) = (bytes::le16(s, o) as int, bytes::le16(s, o + 2) as int);
    assert(bytes::le32(s, o) == hi * 0x1_0000 + lo);
    assert(lo + hi - bytes::le32(s, o) == -hi * 0xffff);
}

proof fn value_words(v: u32)
    ensures
        bytes::le32_bytes(v).len() == 4,
        congruent(words(bytes::le32_bytes(v)), v as int),
{
    let b = bytes::le32_bytes(v);
    bytes::be32_round_trip(v);
    assert(bytes::le32(b, 0) == v);
    two_words(b, 0);
    assert(b.subrange(0, 4) =~= b);
}

proof fn value_word(v: u16)
    ensures
        bytes::le16_bytes(v).len() == 2,
        words(bytes::le16_bytes(v)) == v,
{
    let b = bytes::le16_bytes(v);
    bytes::be16_round_trip(v);
    one_word(b, 0);
    assert(b.subrange(0, 2) =~= b);
}

/// Writing a checksum changes its sum by what the checksum changed.
proof fn checksum_written(s: Seq<u8>, a: int, e: int, o: int, c: u16)
    requires
        0 <= a <= o,
        o + 2 <= e <= s.len(),
        (o - a) % 2 == 0,
    ensures
        words(bytes::splice(s, o, bytes::le16_bytes(c)).subrange(a, e)) == words(
            s.subrange(a, e),
        ) - bytes::le16(s, o) + c,
{
    value_word(c);
    one_word(s, o);
    words_spliced(s, a, e, o, bytes::le16_bytes(c));
}

// -------------------------------- IPv4 --------------------------------------

/// What rewriting an IPv4 address and its port changes in the two sums.
proof fn rewrite_adds_up(
    s: Seq<u8>,
    addr_off: int,
    port_off: int,
    ip: u32,
    port: u16,
    end: int,
    rest: int,
)
    requires
        addr_off == 26 || addr_off == 30,
        port_off == 34 || port_off == 36,
        38 <= end <= s.len(),
    ensures
        ({
            let d = bytes::splice(
                bytes::splice(s, addr_off, bytes::le32_bytes(ip)),
                port_off,
                bytes::le16_bytes(port),
            );
            let addr = ip - bytes::le32(s, addr_off);
            &&& congruent(header_sum(d), header_sum(s) + addr)
            &&& congruent(
                segment_sum4(d, end, rest),
                segment_sum4(s, end, rest) + addr + (port - bytes::le16(s, port_off)),
            )
        }),
{
    let b = bytes::le32_bytes(ip);
    let w = bytes::le16_bytes(port);
    let m = bytes::splice(s, addr_off, b);
    value_words(ip);
    value_word(port);
    two_words(s, addr_off);
    one_word(s, port_off);
    words_spliced(s, 14, 34, addr_off, b);
    words_spliced(s, 26, 34, addr_off, b);
    words_elsewhere(s, 34, end, addr_off, b);
    words_elsewhere(s, port_off, port_off + 2, addr_off, b);
    words_elsewhere(m, 14, 34, port_off, w);
    words_elsewhere(m, 26, 34, port_off, w);
    words_spliced(m, 34, end, port_off, w);
}

/// Whether a run asks for patches that make up for what it changed in an IPv4
/// packet whose segment reaches to `end`.
pub open spec fn adds_up4(c: TcView, c1: TcView, end: int, rest: int) -> bool {
    let more = c1.fixes.skip(c.fixes.len() as int);
    &&& c.fixes.len() <= c1.fixes.len()
    &&& c1.fixes.take(c.fixes.len() as int) == c.fixes
    &&& c1.data.len() == c.data.len()
    &&& bytes::le16(c1.data, 24) == bytes::le16(c.data, 24)
    &&& congruent(header_sum(c1.data), header_sum(c.data) + asked(more, false))
    &&& congruent(
        segment_sum4(c1.data, end, rest),
        segment_sum4(c.data, end, rest) + asked(more, true),
    )
}

proof fn translated_adds_up(
    c: TcView,
    addr_off: int,
    port_off: int,
    idx: u32,
    proto: u8,
    ip: u32,
    port: u16,
    end: int,
    rest: int,
)
    requires
        addr_off == 26 || addr_off == 30,
        port_off == 34 || port_off == 36,
        L4_OFF + l4::csum_in_l4(proto) + 2 <= end <= c.data.len(),
    ensures
        ({
            let (c1, r) = l4::translated(
                c,
                addr_off,
                port_off,
                idx,
                proto,
                bytes::le32(c.data, addr_off),
                bytes::le16(c.data, port_off),
                ip,
                port,
            );
            &&& r is Ok
            &&& adds_up4(c, c1, end, rest)
            &&& bytes::le16(c1.data, L4_OFF + l4::csum_in_l4(proto)) == bytes::le16(
                c.data,
                L4_OFF + l4::csum_in_l4(proto),
            )
        }),
{
    let c1 = l4::translated(
        c,
        addr_off,
        port_off,
        idx,
        proto,
        bytes::le32(c.data, addr_off),
        bytes::le16(c.data, port_off),
        ip,
        port,
    ).0;
    let n = c.fixes.len() as int;
    let more = c1.fixes.skip(n);
    rewrite_adds_up(c.data, addr_off, port_off, ip, port, end, rest);
    assert(c1.fixes.take(n) =~= c.fixes);
    assert(more =~= seq![c1.fixes[n], c1.fixes[n + 1], c1.fixes[n + 2]]);
    assert(more.drop_last() =~= seq![more[0], more[1]]);
    assert(more.drop_last().drop_last() =~= seq![more[0]]);
    assert(more.drop_last().drop_last().drop_last() =~= Seq::<CsumFix>::empty());
    reveal_with_fuel(asked, 4);
}

proof fn untouched_adds_up(c: TcView, c1: TcView, end: int, rest: int)
    requires
        c1.data == c.data,
        c1.fixes == c.fixes,
    ensures
        adds_up4(c, c1, end, rest),
{
    assert(c1.fixes.take(c.fixes.len() as int) =~= c.fixes);
    assert(c1.fixes.skip(c.fixes.len() as int) =~= Seq::<CsumFix>::empty());
}

/// The IPv4 NAT stage asks for exactly the checksum patches that its rewrite
/// calls for, whether it balances, masquerades or follows a known flow.
pub proof fn nat4_adds_up(t: &Tables, c: TcView, masq_src: bool, f: Flow4, end: int, rest: int)
    requires
        policy::ip4_flow(c.data) == Ok::<Option<Flow4>, ()>(Some(f)),
        L4_OFF + l4::csum_in_l4(f.proto) + 2 <= end <= c.data.len(),
    ensures
        ({
            let (c1, r) = l4::natted4(t, c, masq_src);
            &&& r is Ok
            &&& adds_up4(c, c1, end, rest)
            &&& bytes::le16(c1.data, L4_OFF + l4::csum_in_l4(f.proto)) == bytes::le16(
                c.data,
                L4_OFF + l4::csum_in_l4(f.proto),
            )
        }),
{
    reveal(l4::natted4);
    reveal(l4::balanced);
    reveal(l4::masqueraded);
    reveal(l4::dnatted);
    reveal(l4::snatted);
    reveal(policy::emitted);
    let c1 = l4::natted4(t, c, masq_src).0;
    if c1.data == c.data && c1.fixes == c.fixes {
        untouched_adds_up(c, c1, end, rest);
    }
    assert forall|c0: TcView, idx: u32, ip: u32, port: u16|
        c0.data == c.data && c0.fixes == c.fixes implies ({
        let r = #[trigger] l4::translated(c0, 30, 36, idx, f.proto, f.dst, f.dport, ip, port);
        &&& r.1 is Ok
        &&& adds_up4(c, r.0, end, rest)
        &&& bytes::le16(r.0.data, L4_OFF + l4::csum_in_l4(f.proto)) == bytes::le16(
            c.data,
            L4_OFF + l4::csum_in_l4(f.proto),
        )
    }) by {
        translated_adds_up(c0, 30, 36, idx, f.proto, ip, port, end, rest);
    }
    assert forall|c0: TcView, idx: u32, ip: u32, port: u16|
        c0.data == c.data && c0.fixes == c.fixes implies ({
        let r = #[trigger] l4::translated(c0, 26, 34, idx, f.proto, f.src, f.sport, ip, port);
        &&& r.1 is Ok
        &&& adds_up4(c, r.0, end, rest)
        &&& bytes::le16(r.0.data, L4_OFF + l4::csum_in_l4(f.proto)) == bytes::le16(
            c.data,
            L4_OFF + l4::csum_in_l4(f.proto),
        )
    }) by {
        translated_adds_up(c0, 26, 34, idx, f.proto, ip, port, end, rest);
    }
}

/// The packet with its two checksums replaced.
pub open spec fn sealed4(s: Seq<u8>, proto: u8, header: u16, segment: u16) -> Seq<u8> {
    bytes::splice(
        bytes::splice(s, 24, bytes::le16_bytes(header)),
        L4_OFF + l4::csum_in_l4(proto),
        bytes::le16_bytes(segment),
    )
}

/// Translated packets keep valid checksums: once the kernel has applied the
/// patches asked for, the IPv4 header verifies if it verified before, and so
/// does the TCP or UDP checksum.
pub proof fn nat4_keeps_checksums(
    t: &Tables,
    c: TcView,
    masq_src: bool,
    f: Flow4,
    end: int,
    rest: int,
    header: u16,
    segment: u16,
)
    requires
        policy::ip4_flow(c.data) == Ok::<Option<Flow4>, ()>(Some(f)),
        L4_OFF + l4::csum_in_l4(f.proto) + 2 <= end <= c.data.len(),
        ({
            let more = l4::natted4(t, c, masq_src).0.fixes.skip(c.fixes.len() as int);
            &&& patched(bytes::le16(c.data, 24), header, asked(more, false))
            &&& patched(
                bytes::le16(c.data, L4_OFF + l4::csum_in_l4(f.proto)),
                segment,
                asked(more, true),
            )
        }),
    ensures
        ({
            let done = sealed4(l4::natted4(t, c, masq_src).0.data, f.proto, header, segment);
            &&& verifies(header_sum(c.data)) ==> verifies(header_sum(done))
            &&& verifies(segment_sum4(c.data, end, rest)) ==> verifies(
                segment_sum4(done, end, rest),
            )
        }),
{
    nat4_adds_up(t, c, masq_src, f, end, rest);
    seal_keeps(c, l4::natted4(t, c, masq_src).0, f.proto, end, rest, header, segment);
}

proof fn seal_keeps(
    c: TcView,
    c1: TcView,
    proto: u8,
    end: int,
    rest: int,
    header: u16,
    segment: u16,
)
    requires
        L4_OFF + l4::csum_in_l4(proto) + 2 <= end <= c.data.len(),
        adds_up4(c, c1, end, rest),
        bytes::le16(c1.data, L4_OFF + l4::csum_in_l4(proto)) == bytes::le16(
            c.data,
            L4_OFF + l4::csum_in_l4(proto),
        ),
        patched(
            bytes::le16(c.data, 24),
            header,
            asked(c1.fixes.skip(c.fixes.len() as int), false),
        ),
        patched(
            bytes::le16(c.data, L4_OFF + l4::csum_in_l4(proto)),
            segment,
            asked(c1.fixes.skip(c.fixes.len() as int), true),
        ),
    ensures
        ({
            let done = sealed4(c1.data, proto, header, segment);
            &&& verifies(header_sum(c.data)) ==> verifies(header_sum(done))
            &&& verifies(segment_sum4(c.data, end, rest)) ==> verifies(
                segment_sum4(done, end, rest),
            )
        }),
{
    let off = L4_OFF + l4::csum_in_l4(proto);
    let (h, k) = (bytes::le16_bytes(header), bytes::le16_bytes(segment));
    let d = c1.data;
    let m = bytes::splice(d, 24, h);
    value_word(header);
    value_word(segment);
    checksum_written(d, 14, 34, 24, header);
    words_elsewhere(d, 26, 34, 24, h);
    words_elsewhere(d, 34, end, 24, h);
    words_elsewhere(d, off, off + 2, 24, h);
    one_word(d, off);
    one_word(m, off);
    words_elsewhere(m, 14, 34, off, k);
    words_elsewhere(m, 26, 34, off, k);
    checksum_written(m, 34, end, off, segment);
}

/// The egress translation asks for exactly the patches that it calls for, and
/// so keeps valid checksums.
pub proof fn egress_keeps_checksums(
    c: TcView,
    f: Flow4,
    end: int,
    rest: int,
    header: u16,
    segment: u16,
)
    requires
        policy::ip4_flow(c.data) == Ok::<Option<Flow4>, ()>(Some(f)),
        L4_OFF + l4::csum_in_l4(f.proto) + 2 <= end <= c.data.len(),
        ({
            let more = l4::egress_unnatted(c).0.fixes.skip(c.fixes.len() as int);
            &&& patched(bytes::le16(c.data, 24), header, asked(more, false))
            &&& patched(
                bytes::le16(c.data, L4_OFF + l4::csum_in_l4(f.proto)),
                segment,
                asked(more, true),
            )
        }),
    ensures
        ({
            let (c1, r) = l4::egress_unnatted(c);
            let done = sealed4(c1.data, f.proto, header, segment);
            &&& r is Ok
            &&& adds_up4(c, c1, end, rest)
            &&& verifies(header_sum(c.data)) ==> verifies(header_sum(done))
            &&& verifies(segment_sum4(c.data, end, rest)) ==> verifies(
                segment_sum4(done, end, rest),
            )
        }),
{
    reveal(l4::egress_unnatted);
    reveal(l4::snatted);
    let c1 = l4::egress_unnatted(c).0;
    match c.ct.get(policy::ct_key(f)) {
        Some(e) => {
            translated_adds_up(
                l4::seen(c, f, e),
                26,
                34,
                STAT_L4_SNAT,
                f.proto,
                e.rev_addr,
                e.rev_port,
                end,
                rest,
            );
        },
        None => {},
    }
    if c1.data == c.data && c1.fixes == c.fixes {
        untouched_adds_up(c, c1, end, rest);
    }
    seal_keeps(c, c1, f.proto, end, rest, header, segment);
}

/// A forwarded IPv4 packet keeps a valid header: the patch that a plain forward
/// asks for is what charging the TTL changed.
pub proof fn forward_keeps_header(
    c: TcView,
    nh: NextHop,
    dst: [u8; 4],
    from_ep: u32,
    header: u16,
)
    requires
        c.data.len() >= 34,
        patched(
            bytes::le16(c.data, 24),
            header,
            asked(l3::plain4(c, nh, dst, from_ep).0.fixes.skip(c.fixes.len() as int), false),
        ),
    ensures
        ({
            let c1 = l3::plain4(c, nh, dst, from_ep).0;
            let done = bytes::splice(c1.data, 24, bytes::le16_bytes(header));
            verifies(header_sum(c.data)) ==> verifies(header_sum(done))
        }),
{
    reveal(l3::plain4);
    reveal(policy::emitted);
    let s = c.data;
    let c1 = l3::plain4(c, nh, dst, from_ep).0;
    let n = c.fixes.len() as int;
    let more = c1.fixes.skip(n);
    checksum_written(c1.data, 14, 34, 24, header);
    if s[22] > 1 {
        let d = s.update(22, (s[22] - 1) as u8);
        let w = seq![(s[22] - 1) as u8, s[23]];
        assert(d =~= bytes::splice(s, 22, w));
        words_spliced(s, 14, 34, 22, w);
        one_word(s, 22);
        one_word(w, 0);
        assert(w.subrange(0, 2) =~= w);
        assert(more =~= seq![c1.fixes[n]]);
        assert(more.drop_last() =~= Seq::<CsumFix>::empty());
        reveal_with_fuel(asked, 2);
    } else {
        assert(more =~= Seq::<CsumFix>::empty());
    }
}

// -------------------------------- IPv6 --------------------------------------

/// An address counts as its four 32-bit words.
proof fn address_words(s: Seq<u8>, o: int)
    requires
        0 <= o,
        o + 16 <= s.len(),
    ensures
        congruent(
            words(s.subrange(o, o + 16)),
            bytes::le32(s, o) + bytes::le32(s, o + 4) + bytes::le32(s, o + 8) + bytes::le32(
                s,
                o + 12,
            ),
        ),
{
    eight_bytes(s, o);
    eight_bytes(s, o + 8);
    let (a, b) = (s.subrange(o, o + 8), s.subrange(o + 8, o + 16));
    assert(s.subrange(o, o + 16) =~= a + b);
    words_concat(a, b);
}

proof fn eight_bytes(s: Seq<u8>, o: int)
    requires
        0 <= o,
        o + 8 <= s.len(),
    ensures
        congruent(words(s.subrange(o, o + 8)), bytes::le32(s, o) + bytes::le32(s, o + 4)),
{
    two_words(s, o);
    two_words(s, o + 4);
    let (a, b) = (s.subrange(o, o + 4), s.subrange(o + 4, o + 8));
    assert(s.subrange(o, o + 8) =~= a + b);
    words_concat(a, b);
}

/// Whether a run asks for patches that make up for what it changed in an IPv6
/// packet whose segment reaches to `end`.
pub open spec fn adds_up6(c: TcView, c1: TcView, end: int, rest: int) -> bool {
    let more = c1.fixes.skip(c.fixes.len() as int);
    &&& c.fixes.len() <= c1.fixes.len()
    &&& c1.fixes.take(c.fixes.len() as int) == c.fixes
    &&& c1.data.len() == c.data.len()
    &&& asked(more, false) == 0
    &&& congruent(
        segment_sum6(c1.data, end, rest),
        segment_sum6(c.data, end, rest) + asked(more, true),
    )
}

proof fn fixes6_asked(
    off: int,
    proto: u8,
    old_ip: [u8; 16],
    new_ip: [u8; 16],
    old_port: u16,
    new_port: u16,
)
    ensures
        ({
            let x = l4::v6_fixes(off, proto, old_ip, new_ip, old_port, new_port);
            &&& asked(x, false) == 0
            &&& asked(x, true) == bytes::le32(new_ip@, 0) - bytes::le32(old_ip@, 0) + bytes::le32(
                new_ip@,
                4,
            ) - bytes::le32(old_ip@, 4) + bytes::le32(new_ip@, 8) - bytes::le32(old_ip@, 8)
                + bytes::le32(new_ip@, 12) - bytes::le32(old_ip@, 12) + new_port - old_port
        }),
{
    let x = l4::v6_fixes(off, proto, old_ip, new_ip, old_port, new_port);
    let x1 = x.drop_last();
    let x2 = x1.drop_last();
    let x3 = x2.drop_last();
    let x4 = x3.drop_last();
    assert(x4.drop_last() =~= Seq::<CsumFix>::empty());
    let none = Seq::<CsumFix>::empty();
    assert(asked(none, true) == 0 && asked(none, false) == 0);
    assert(x4.last() == x[0] && x3.last() == x[1] && x2.last() == x[2] && x1.last() == x[3]);
    assert(asked(x4, true) == asked(none, true) + (x[0].to - x[0].from));
    assert(asked(x4, false) == asked(none, false));
    assert(asked(x3, true) == asked(x4, true) + (x[1].to - x[1].from) && asked(x3, false) == 0);
    assert(asked(x2, true) == asked(x3, true) + (x[2].to - x[2].from) && asked(x2, false) == 0);
    assert(asked(x1, true) == asked(x2, true) + (x[3].to - x[3].from) && asked(x1, false) == 0);
    assert(asked(x, true) == asked(x1, true) + (x[4].to - x[4].from) && asked(x, false) == 0);
}

/// The sum of the four words of an address.
spec fn quad(s: Seq<u8>, o: int) -> int {
    bytes::le32(s, o) + bytes::le32(s, o + 4) + bytes::le32(s, o + 8) + bytes::le32(s, o + 12)
}

proof fn quad_kept(s: Seq<u8>, o: int)
    requires
        0 <= o,
        o + 16 <= s.len(),
    ensures
        quad(bytes::oct16(s, o)@, 0) == quad(s, o),
{
    let a = bytes::oct16(s, o)@;
    assert(forall|i: int| 0 <= i < 16 ==> a[i] == s[o + i]);
}

proof fn rewrite6_adds_up(
    s: Seq<u8>,
    addr_off: int,
    port_off: int,
    ip: [u8; 16],
    port: u16,
    end: int,
    rest: int,
)
    requires
        addr_off == 22 || addr_off == 38,
        port_off == 54 || port_off == 56,
        port_off + 2 <= end <= s.len(),
    ensures
        congruent(
            segment_sum6(
                bytes::splice(bytes::splice(s, addr_off, ip@), port_off, bytes::le16_bytes(port)),
                end,
                rest,
            ),
            segment_sum6(s, end, rest) + quad(ip@, 0) - quad(s, addr_off) + port - bytes::le16(
                s,
                port_off,
            ),
        ),
        bytes::splice(
            bytes::splice(s, addr_off, ip@),
            port_off,
            bytes::le16_bytes(port),
        ).len() == s.len(),
{
    let w = bytes::le16_bytes(port);
    let m = bytes::splice(s, addr_off, ip@);
    value_word(port);
    one_word(s, port_off);
    address_words(s, addr_off);
    address_words(ip@, 0);
    assert(ip@.subrange(0, 16) =~= ip@);
    words_spliced(s, 22, 54, addr_off, ip@);
    words_elsewhere(s, 54, end, addr_off, ip@);
    words_elsewhere(s, port_off, port_off + 2, addr_off, ip@);
    words_elsewhere(m, 22, 54, port_off, w);
    words_spliced(m, 54, end, port_off, w);
}

proof fn translated6_adds_up(
    c: TcView,
    addr_off: int,
    port_off: int,
    idx: u32,
    proto: u8,
    ip: [u8; 16],
    port: u16,
    end: int,
    rest: int,
)
    requires
        addr_off == 22 || addr_off == 38,
        port_off == 54 || port_off == 56,
        IP6_L4_OFF + l4::csum_in_l4(proto) + 2 <= end <= c.data.len(),
    ensures
        ({
            let (c1, r) = l4::translated6(
                c,
                addr_off,
                port_off,
                idx,
                proto,
                bytes::oct16(c.data, addr_off),
                ip,
                bytes::le16(c.data, port_off),
                port,
            );
            &&& r is Ok
            &&& adds_up6(c, c1, end, rest)
            &&& bytes::le16(c1.data, IP6_L4_OFF + l4::csum_in_l4(proto)) == bytes::le16(
                c.data,
                IP6_L4_OFF + l4::csum_in_l4(proto),
            )
        }),
{
    let s = c.data;
    let was = bytes::oct16(s, addr_off);
    let c1 = l4::translated6(
        c,
        addr_off,
        port_off,
        idx,
        proto,
        was,
        ip,
        bytes::le16(s, port_off),
        port,
    ).0;
    let n = c.fixes.len() as int;
    assert(c1.fixes.take(n) =~= c.fixes);
    assert(c1.fixes.skip(n) =~= l4::v6_fixes(
        IP6_L4_OFF + l4::csum_in_l4(proto),
        proto,
        was,
        ip,
        bytes::le16(s, port_off),
        port,
    ));
    fixes6_asked(
        IP6_L4_OFF + l4::csum_in_l4(proto),
        proto,
        was,
        ip,
        bytes::le16(s, port_off),
        port,
    );
    quad_kept(s, addr_off);
    rewrite6_adds_up(s, addr_off, port_off, ip, port, end, rest);
}

proof fn untouched_adds_up6(c: TcView, c1: TcView, end: int, rest: int)
    requires
        c1.data == c.data,
        c1.fixes == c.fixes,
    ensures
        adds_up6(c, c1, end, rest),
{
    assert(c1.fixes.take(c.fixes.len() as int) =~= c.fixes);
    assert(c1.fixes.skip(c.fixes.len() as int) =~= Seq::<CsumFix>::empty());
}

/// The IPv6 NAT stage asks for exactly the patches that its rewrite calls for.
/// Once the kernel has applied them, the TCP or UDP checksum verifies if it
/// verified before.
pub proof fn nat6_keeps_checksums(
    t: &Tables,
    c: TcView,
    f: Flow6,
    end: int,
    rest: int,
    segment: u16,
)
    requires
        policy::ip6_flow(c.data) == Ok::<Option<Flow6>, ()>(Some(f)),
        IP6_L4_OFF + l4::csum_in_l4(f.proto) + 2 <= end <= c.data.len(),
        patched(
            bytes::le16(c.data, IP6_L4_OFF + l4::csum_in_l4(f.proto)),
            segment,
            asked(l4::natted6(t, c).0.fixes.skip(c.fixes.len() as int), true),
        ),
    ensures
        ({
            let (c1, r) = l4::natted6(t, c);
            let done = bytes::splice(
                c1.data,
                IP6_L4_OFF + l4::csum_in_l4(f.proto),
                bytes::le16_bytes(segment),
            );
            &&& r is Ok
            &&& adds_up6(c, c1, end, rest)
            &&& verifies(segment_sum6(c.data, end, rest)) ==> verifies(
                segment_sum6(done, end, rest),
            )
        }),
{
    nat6_adds_up(t, c, f, end, rest);
    let off = IP6_L4_OFF + l4::csum_in_l4(f.proto);
    let d = l4::natted6(t, c).0.data;
    value_word(segment);
    words_elsewhere(d, 22, 54, off, bytes::le16_bytes(segment));
    checksum_written(d, 54, end, off, segment);
}

proof fn nat6_adds_up(t: &Tables, c: TcView, f: Flow6, end: int, rest: int)
    requires
        policy::ip6_flow(c.data) == Ok::<Option<Flow6>, ()>(Some(f)),
        IP6_L4_OFF + l4::csum_in_l4(f.proto) + 2 <= end <= c.data.len(),
    ensures
        ({
            let (c1, r) = l4::natted6(t, c);
            &&& r is Ok
            &&& adds_up6(c, c1, end, rest)
            &&& bytes::le16(c1.data, IP6_L4_OFF + l4::csum_in_l4(f.proto)) == bytes::le16(
                c.data,
                IP6_L4_OFF + l4::csum_in_l4(f.proto),
            )
        }),
{
    reveal(l4::natted6);
    reveal(l4::dnatted6);
    reveal(l4::snatted6);
    let c1 = l4::natted6(t, c).0;
    if c1.data == c.data && c1.fixes == c.fixes {
        untouched_adds_up6(c, c1, end, rest);
    }
    assert forall|c0: TcView, idx: u32, ip: [u8; 16], port: u16|
        c0.data == c.data && c0.fixes == c.fixes implies ({
        let r = #[trigger] l4::translated6(c0, 38, 56, idx, f.proto, f.dst, ip, f.dport, port);
        &&& r.1 is Ok
        &&& adds_up6(c, r.0, end, rest)
        &&& bytes::le16(r.0.data, IP6_L4_OFF + l4::csum_in_l4(f.proto)) == bytes::le16(
            c.data,
            IP6_L4_OFF + l4::csum_in_l4(f.proto),
        )
    }) by {
        translated6_adds_up(c0, 38, 56, idx, f.proto, ip, port, end, rest);
    }
    assert forall|c0: TcView, idx: u32, ip: [u8; 16], port: u16|
        c0.data == c.data && c0.fixes == c.fixes implies ({
        let r = #[trigger] l4::translated6(c0, 22, 54, idx, f.proto, f.src, ip, f.sport, port);
        &&& r.1 is Ok
        &&& adds_up6(c, r.0, end, rest)
        &&& bytes::le16(r.0.data, IP6_L4_OFF + l4::csum_in_l4(f.proto)) == bytes::le16(
            c.data,
            IP6_L4_OFF + l4::csum_in_l4(f.proto),
        )
    }) by {
        translated6_adds_up(c0, 22, 54, idx, f.proto, ip, port, end, rest);
    }
}

} // verus!
