//! One's-complement header checksums (RFC 1071 / 1141 / 1624).

use vstd::prelude::*;
use crate::bytes;

verus! {

/// The one's-complement 16-bit reduction of a sum: end-around carries added
/// until the sum fits (zero only for zero).
pub open spec fn fold(x: int) -> int {
    if x == 0 {
        0
    } else {
        (x - 1) % 0xffff + 1
    }
}

/// RFC 1624: the checksum after a covered word changes from `old` to `new`.
pub open spec fn csum16_updated(hc: u16, old: u16, new: u16) -> u16 {
    (0xffff - fold((0xffff - hc) + (0xffff - old) + new)) as u16
}

/// Sum of the words of the outer IPv4 header an encapsulation writes, its
/// checksum field left out: version/IHL/TOS `0x4500`, the total length,
/// TTL 64 / protocol UDP, and the two addresses.
pub open spec fn ipv4_outer_sum(total_len: u16, src: [u8; 4], dst: [u8; 4]) -> int {
    0x4500 + total_len + 0x4011 + bytes::be16(src@, 0) + bytes::be16(src@, 2) + bytes::be16(dst@, 0)
        + bytes::be16(dst@, 2)
}

/// Checksum of that header.
pub open spec fn ipv4_outer_csum(total_len: u16, src: [u8; 4], dst: [u8; 4]) -> u16 {
    (0xffff - fold(ipv4_outer_sum(total_len, src, dst))) as u16
}

/// The outer IPv4 header (no options, TTL 64, UDP, id and fragment 0).
pub open spec fn ipv4_outer(total_len: u16, src: [u8; 4], dst: [u8; 4]) -> Seq<u8> {
    seq![0x45u8, 0u8] + bytes::be16_bytes(total_len) + seq![0u8, 0u8, 0u8, 0u8, 64u8, 17u8]
        + bytes::be16_bytes(ipv4_outer_csum(total_len, src, dst)) + src@ + dst@
}

/// Two end-around carries reduce any sum below `0xffff_0000`.
fn fold2(sum: u32) -> (r: u16)
    requires
        sum < 0xffff_0000,
    ensures
        r == fold(sum as int),
{
    assert(sum & 0xffff == sum % 0x1_0000 && sum >> 16u32 == sum / 0x1_0000) by (bit_vector);
    let once: u32 = (sum & 0xffff) + (sum >> 16);
    assert(once & 0xffff == once % 0x1_0000 && once >> 16u32 == once / 0x1_0000) by (bit_vector);
    let twice: u32 = (once & 0xffff) + (once >> 16);
    let ghost (h, l) = (sum / 0x1_0000, sum % 0x1_0000);
    assert(sum == h * 0xffff + (h + l));
    assert(once == h + l);
    if once == 0 {
        assert(sum == 0);
    } else {
        let ghost carry = once / 0x1_0000;
        assert(carry == 0 || carry == 1);
        assert(once == carry * 0xffff + twice);
        assert(1 <= twice <= 0xffff);
        assert((sum - 1) == (h + carry) * 0xffff + (twice - 1));
        assert((sum - 1) % 0xffff == twice - 1);
    }
    twice as u16
}

fn complement(x: u16) -> (r: u16)
    ensures
        r == 0xffff - x,
{
    assert(!x == 0xffff - x) by (bit_vector);
    !x
}

/// RFC 1624 incremental one's-complement checksum update: given the current
/// header checksum `hc` and a 16-bit word changing from `old` to `new` (all in
/// host order), return the adjusted checksum. `HC' = ~(~HC + ~old + new)`.
pub fn csum16_update(hc: u16, old: u16, new: u16) -> (r: u16)
    ensures
        r == csum16_updated(hc, old, new),
{
    let sum: u32 = complement(hc) as u32 + complement(old) as u32 + new as u32;
    complement(fold2(sum))
}

/// One's-complement checksum of the outer IPv4 header a UDP encapsulation
/// writes: the fixed words (`0x4500` = version/IHL/TOS, `0x4011` = TTL 64 /
/// proto UDP) plus the total length and the src/dst address words.
pub fn ipv4_hdr_csum(total_len: u16, src: [u8; 4], dst: [u8; 4]) -> (r: u16)
    ensures
        r == ipv4_outer_csum(total_len, src, dst),
{
    let mut sum: u32 = 0x4500 + total_len as u32 + 0x4011;
    sum += (src[0] as u32) * 256 + src[1] as u32;
    sum += (src[2] as u32) * 256 + src[3] as u32;
    sum += (dst[0] as u32) * 256 + dst[1] as u32;
    sum += (dst[2] as u32) * 256 + dst[3] as u32;
    complement(fold2(sum))
}

/// Append the outer IPv4 header.
pub fn put_ipv4_outer(v: &mut Vec<u8>, total_len: u16, src: [u8; 4], dst: [u8; 4])
    ensures
        final(v)@ == old(v)@ + ipv4_outer(total_len, src, dst),
{
    let csum: u16 = ipv4_hdr_csum(total_len, src, dst);
    v.push(0x45);
    v.push(0);
    bytes::put_be16(v, total_len);
    v.push(0);
    v.push(0);
    v.push(0);
    v.push(0);
    v.push(64);
    v.push(17);
    bytes::put_be16(v, csum);
    bytes::put(v, src.as_slice());
    bytes::put(v, dst.as_slice());
    assert(v@ =~= old(v)@ + ipv4_outer(total_len, src, dst));
}

/// Sum of the 16-bit words of a byte string.
pub open spec fn word_sum(s: Seq<u8>) -> int
    decreases s.len(),
{
    if s.len() < 2 {
        0
    } else {
        bytes::be16(s, 0) + word_sum(s.skip(2))
    }
}

/// A checksum over words summing to `rest + old` stays valid when `old`
/// becomes `new` and the checksum is updated incrementally.
pub proof fn csum16_update_keeps_valid(rest: int, hc: u16, old: u16, new: u16)
    requires
        (rest + old + hc) % 0xffff == 0,
    ensures
        (rest + new + csum16_updated(hc, old, new)) % 0xffff == 0,
{
    let sum = (0xffff - hc) + (0xffff - old) + new;
    assert((sum - fold(sum)) % 0xffff == 0) by {
        if sum != 0 {
            let q = (sum - 1) / 0xffff;
            assert(sum - fold(sum) == q * 0xffff);
        }
    }
    let k = (rest + old + hc) / 0xffff;
    let q = (sum - fold(sum)) / 0xffff;
    assert(rest + new + (0xffff - fold(sum)) == (k + q - 1) * 0xffff);
}

/// The header an encapsulation writes verifies: its ten words, checksum
/// included, reduce to `0xffff`.
pub proof fn ipv4_outer_verifies(total_len: u16, src: [u8; 4], dst: [u8; 4])
    ensures
        ipv4_outer(total_len, src, dst).len() == 20,
        fold(word_sum(ipv4_outer(total_len, src, dst))) == 0xffff,
{
    let h = ipv4_outer(total_len, src, dst);
    reveal_with_fuel(word_sum, 12);
    assert(h.skip(2).skip(2) =~= h.skip(4));
    assert(h.skip(4).skip(2) =~= h.skip(6));
    assert(h.skip(6).skip(2) =~= h.skip(8));
    assert(h.skip(8).skip(2) =~= h.skip(10));
    assert(h.skip(10).skip(2) =~= h.skip(12));
    assert(h.skip(12).skip(2) =~= h.skip(14));
    assert(h.skip(14).skip(2) =~= h.skip(16));
    assert(h.skip(16).skip(2) =~= h.skip(18));
    assert(h.skip(18).skip(2) =~= h.skip(20));
    let c = ipv4_outer_csum(total_len, src, dst);
    let sum = ipv4_outer_sum(total_len, src, dst);
    assert(word_sum(h) == sum + c);
    let q = (sum - 1) / 0xffff;
    assert(sum + c == q * 0xffff + 0xffff);
    assert((sum + c - 1) == q * 0xffff + 0xfffe);
    assert((sum + c - 1) % 0xffff == 0xfffe);
}

} // verus!
