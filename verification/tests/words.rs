use cradle::types::{
    FIBW_FLAGS_MASK, FIBW_ID_MASK, FIBW_TBL8, FIBW_VALID, FIB_F_BLACKHOLE, FIB_F_CONNECTED,
    FIB_F_ECMP, FIB_F_LOCAL,
};
use cradle::words::{fibw_entry, fibw_group, fibw_unpack, mpls_lse, mpls_lse_unpack};

#[test]
fn lse_round_trip() {
    for (label, tc, s, ttl) in [
        (16, 0, 1, 64),
        (0xf_ffff, 7, 1, 255),
        (0, 0, 0, 0),
        (17, 3, 0, 1),
    ] {
        let lse = mpls_lse(label, tc, s, ttl);
        assert_eq!(mpls_lse_unpack(lse), (label, tc, s, ttl));
    }
}

#[test]
fn fibw_round_trip() {
    for (nh, flags) in [
        (0, 0),
        (1, FIB_F_LOCAL),
        (0x3ff_ffff, 0xf),
        (42, FIB_F_ECMP),
    ] {
        let w = fibw_entry(nh, flags);
        assert_ne!(w & FIBW_VALID, 0);
        assert_eq!(w & FIBW_TBL8, 0);
        assert_eq!(fibw_unpack(w), (nh, flags));
    }
    let g = fibw_group(4095);
    assert_ne!(g & FIBW_VALID, 0);
    assert_ne!(g & FIBW_TBL8, 0);
    assert_eq!(g & FIBW_ID_MASK, 4095);
    // All current FIB_F_* flags fit the 4-bit field.
    assert_eq!(
        (FIB_F_BLACKHOLE | FIB_F_LOCAL | FIB_F_CONNECTED | FIB_F_ECMP) & !FIBW_FLAGS_MASK,
        0
    );
    // Zero is the invalid word: VALID is a real, non-zero bit.
    assert_ne!(FIBW_VALID, 0);
}

#[test]
fn lse_wire_layout() {
    // RFC 3032: label 16, TC 0, S 1, TTL 64 => 0x00 01 01 40 on the wire.
    assert_eq!(
        mpls_lse(16, 0, 1, 64).to_be_bytes(),
        [0x00, 0x01, 0x01, 0x40]
    );
    // Label field is masked to 20 bits.
    assert_eq!(mpls_lse(0x1f_ffff, 0, 0, 0) >> 12, 0xf_ffff);
}

#[test]
fn fib_words_are_exact() {
    assert_eq!(fibw_entry(42, FIB_F_ECMP), 0x8000_0000 | (8 << 26) | 42);
    // An id or flags beyond their fields are cut to them.
    assert_eq!(fibw_unpack(fibw_entry(0x0400_0001, 0x12)), (1, 2));
    assert_eq!(fibw_group(7), 0xc000_0007);
}
