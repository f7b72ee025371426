//! BFD Echo reflector and expiration watchdog.
//!
//! BFD Echo (RFC 5880 / RFC 5881) is a stateless hairpin: a peer sends an Echo
//! frame crafted so that our forwarding plane loops it back, and the peer
//! alone times the round trip. The reflect swaps the Ethernet addresses,
//! decrements the TTL or Hop Limit (the loop is a hop) and sends the frame
//! back. IPv6 Echo is peer-addressed, so its addresses are swapped too.
//!
//! An inbound Echo sourced from one of our own addresses is our frame
//! returning: it re-arms the session's timer and is dropped, never
//! re-reflected. Control packets are only observed (RFC 5880 §6.8.4).

use vstd::prelude::*;
use crate::bytes;
use crate::frame;
use crate::frame::{DetectState, TimerKind, TimerStart, Xdp, XdpAct, XdpView};
use crate::tables::Tables;
use crate::wire::{IP6_HOP_OFF, IP6_SRC_OFF, IP_SRC_OFF, IP_TTL_OFF};

verus! {

/// ASCII "zbfd" — tags our own Echo payload.
pub const ECHO_MAGIC: u32 = 0x7a62_6664;

/// TTL / Hop Limit required on a received single-hop control packet (GTSM).
pub const CTRL_TTL: u8 = 255;

/// BFD protocol version.
pub const BFD_VERSION: u8 = 1;

/// Echo payload `{ magic, discr, .. }` after the IPv4 / IPv6 UDP header.
pub const PL_MAGIC_OFF: usize = 42;
pub const PL6_MAGIC_OFF: usize = 62;

/// Control header after the IPv4 / IPv6 UDP header.
pub const CTRL_OFF: usize = 42;
pub const CTRL6_OFF: usize = 62;

// ----------------------------- frame edits ----------------------------------

/// The header checksum after a TTL decrement (RFC 1141): one more in the high
/// byte, with end-around carry.
pub open spec fn csum_after_decrement(hc: u16) -> u16 {
    if hc + 0x100 > 0xffff {
        (hc + 0x100 - 0xffff) as u16
    } else {
        (hc + 0x100) as u16
    }
}

/// Outcome of decrementing the IPv4 TTL.
pub open spec fn ttl_decremented(x: XdpView) -> (XdpView, Result<(), ()>) {
    if x.data.len() < 26 || x.data[22] == 0 {
        (x, Err(()))
    } else {
        (
            frame::with_data(
                x,
                bytes::splice(
                    x.data.update(22, (x.data[22] - 1) as u8),
                    24,
                    bytes::be16_bytes(csum_after_decrement(bytes::be16(x.data, 24))),
                ),
            ),
            Ok(()),
        )
    }
}

/// Outcome of decrementing the IPv6 Hop Limit.
pub open spec fn hop_decremented(x: XdpView) -> (XdpView, Result<(), ()>) {
    if x.data.len() < 22 || x.data[21] == 0 {
        (x, Err(()))
    } else {
        (frame::with_data(x, x.data.update(21, (x.data[21] - 1) as u8)), Ok(()))
    }
}

/// A frame with its Ethernet addresses swapped.
pub open spec fn macs_swapped(s: Seq<u8>) -> Seq<u8> {
    s.subrange(6, 12) + s.take(6) + s.skip(12)
}

/// A frame with its IPv6 addresses swapped.
pub open spec fn ip6_swapped(s: Seq<u8>) -> Seq<u8> {
    s.take(22) + s.subrange(38, 54) + s.subrange(22, 38) + s.skip(54)
}

/// Decrement the IPv4 TTL by one and patch the header checksum. Fails on a
/// truncated header or TTL 0.
pub fn decrement_ttl(x: &mut Xdp) -> (r: Result<(), ()>)
    ensures
        (final(x)@, r) == ttl_decremented(old(x)@),
{
    let hc: u16 = bytes::ld_be16(&x.data, 24)?;
    let ttl: u8 = bytes::ld8(&x.data, IP_TTL_OFF)?;
    if ttl == 0 {
        return Err(());
    }
    x.store8(IP_TTL_OFF, ttl - 1);
    let mut sum: u32 = hc as u32 + 0x100;
    if sum > 0xffff {
        sum = sum - 0xffff;
    }
    let wire = bytes::to_be16(sum as u16);
    x.store(24, wire.as_slice());
    Ok(())
}

/// Decrement the IPv6 Hop Limit by one. Fails on a truncated header or Hop
/// Limit 0.
pub fn decrement_hop_limit(x: &mut Xdp) -> (r: Result<(), ()>)
    ensures
        (final(x)@, r) == hop_decremented(old(x)@),
{
    let hl: u8 = bytes::ld8(&x.data, IP6_HOP_OFF)?;
    if hl == 0 {
        return Err(());
    }
    x.store8(IP6_HOP_OFF, hl - 1);
    Ok(())
}

/// Swap the Ethernet source/destination MAC in place.
pub fn swap_macs(x: &mut Xdp) -> (r: Result<(), ()>)
    ensures
        (final(x)@, r) == (if old(x)@.data.len() < 14 {
            (old(x)@, Err(()))
        } else {
            (frame::with_data(old(x)@, macs_swapped(old(x)@.data)), Ok(()))
        }),
{
    if x.data.len() < 14 {
        return Err(());
    }
    let dst: [u8; 6] = bytes::ld6(&x.data, 0)?;
    let src: [u8; 6] = bytes::ld6(&x.data, 6)?;
    x.store(0, src.as_slice());
    x.store(6, dst.as_slice());
    assert(x@.data =~= macs_swapped(old(x)@.data));
    Ok(())
}

/// Swap the IPv6 source/destination in place. No checksum fix-up: the UDP
/// pseudo-header sum is invariant.
pub fn swap_ip6(x: &mut Xdp) -> (r: Result<(), ()>)
    ensures
        (final(x)@, r) == (if old(x)@.data.len() < 54 {
            (old(x)@, Err(()))
        } else {
            (frame::with_data(old(x)@, ip6_swapped(old(x)@.data)), Ok(()))
        }),
{
    let dst: [u8; 16] = bytes::ld16(&x.data, 38)?;
    let src: [u8; 16] = bytes::ld16(&x.data, 22)?;
    x.store(22, dst.as_slice());
    x.store(38, src.as_slice());
    assert(x@.data =~= ip6_swapped(old(x)@.data));
    Ok(())
}

// -------------------------------- timers ------------------------------------

/// A session's state after a tracked packet: armed when the kernel
/// initialised the timer, and no longer down.
pub open spec fn kicked(st: DetectState, timer_init: bool) -> DetectState {
    DetectState {
        armed: if st.armed == 0 && timer_init { 1 } else { st.armed },
        down: 0,
        ..st
    }
}

/// `x` after a tracked packet of a session: its state renewed and its timer
/// restarted. Unknown sessions are not tracked.
pub open spec fn session_kicked(x: XdpView, kind: TimerKind, discr: u32) -> XdpView {
    let sessions = match kind {
        TimerKind::Echo => x.echo,
        TimerKind::Control => x.control,
    };
    match sessions.get(discr) {
        None => x,
        Some(st) => {
            let next = sessions.insert(discr, kicked(st, x.timer_init));
            let start = TimerStart { kind, discr, delay_ns: st.detect_ns };
            match kind {
                TimerKind::Echo => XdpView { echo: next, timers: x.timers.push(start), ..x },
                TimerKind::Control => XdpView { control: next, timers: x.timers.push(start), ..x },
            }
        },
    }
}

/// A tracked packet arrived: arm (first time) or re-arm the timer.
pub fn kick_timer(st: DetectState, timer_init: bool) -> (r: DetectState)
    ensures
        r == kicked(st, timer_init),
{
    DetectState {
        detect_ns: st.detect_ns,
        armed: if st.armed == 0 && timer_init {
            1
        } else {
            st.armed
        },
        down: 0,
    }
}

/// The timer fired: tracked packets stopped. One-shot — the next observed
/// packet re-arms it.
pub fn detect_timeout(st: DetectState) -> (r: DetectState)
    ensures
        r == (DetectState { down: 1, ..st }),
{
    DetectState { detect_ns: st.detect_ns, armed: st.armed, down: 1 }
}

fn kick_session(x: &mut Xdp, kind: TimerKind, discr: u32)
    ensures
        final(x)@ == session_kicked(old(x)@, kind, discr),
{
    let found = match kind {
        TimerKind::Echo => x.echo.get(&discr),
        TimerKind::Control => x.control.get(&discr),
    };
    match found {
        Some(st) => {
            let next = kick_timer(st, x.timer_init);
            match kind {
                TimerKind::Echo => {
                    x.echo.put(discr, next);
                },
                TimerKind::Control => {
                    x.control.put(discr, next);
                },
            }
            x.timers.push(TimerStart { kind, discr, delay_ns: st.detect_ns });
        },
        None => {},
    }
}

/// Outcome of our own Echo coming back, its payload at `off`.
pub open spec fn returned(x: XdpView, off: int) -> (XdpView, Result<(), ()>) {
    if x.data.len() < off + 4 {
        (x, Err(()))
    } else if bytes::be32(x.data, off) != ECHO_MAGIC {
        (x, Ok(()))
    } else if x.data.len() < off + 8 {
        (x, Err(()))
    } else {
        (session_kicked(x, TimerKind::Echo, bytes::be32(x.data, off + 4)), Ok(()))
    }
}

/// Our own Echo, looped back by the peer, arrived. Verify the payload magic,
/// then arm/re-arm the per-session detection timer.
pub(crate) fn record_return(x: &mut Xdp, magic_off: usize) -> (r: Result<(), ()>)
    requires
        magic_off <= 62,
    ensures
        (final(x)@, r) == returned(old(x)@, magic_off as int),
{
    if bytes::ld_be32(&x.data, magic_off)? != ECHO_MAGIC {
        return Ok(());
    }
    let discr: u32 = bytes::ld_be32(&x.data, magic_off + 4)?;
    kick_session(x, TimerKind::Echo, discr);
    Ok(())
}

/// Outcome of observing a control packet whose TTL is at `ttl_off` and whose
/// BFD header is at `ctrl_off`: GTSM, version and a non-zero discriminator
/// are required.
pub open spec fn observed(x: XdpView, ttl_off: int, ctrl_off: int) -> (XdpView, Result<(), ()>) {
    let s = x.data;
    if s.len() <= ttl_off {
        (x, Err(()))
    } else if s[ttl_off] != CTRL_TTL {
        (x, Ok(()))
    } else if s.len() <= ctrl_off {
        (x, Err(()))
    } else if s[ctrl_off] / 32 != BFD_VERSION {
        (x, Ok(()))
    } else if s.len() < ctrl_off + 12 {
        (x, Err(()))
    } else if bytes::be32(s, ctrl_off + 8) == 0 {
        (x, Ok(()))
    } else {
        (session_kicked(x, TimerKind::Control, bytes::be32(s, ctrl_off + 8)), Ok(()))
    }
}

/// A BFD *control* packet is passing through: re-arm the session's expiration
/// watchdog. Observation only — the caller always passes the packet.
pub(crate) fn observe_control(x: &mut Xdp, ttl_off: usize, ctrl_off: usize) -> (r: Result<(), ()>)
    requires
        ctrl_off <= 62,
    ensures
        (final(x)@, r) == observed(old(x)@, ttl_off as int, ctrl_off as int),
{
    if bytes::ld8(&x.data, ttl_off)? != CTRL_TTL {
        return Ok(());
    }
    if bytes::ld8(&x.data, ctrl_off)? / 32 != BFD_VERSION {
        return Ok(());
    }
    let discr: u32 = bytes::ld_be32(&x.data, ctrl_off + 8)?;
    if discr == 0 {
        return Ok(());
    }
    kick_session(x, TimerKind::Control, discr);
    Ok(())
}

// -------------------------------- entries -----------------------------------

/// Outcome of an IPv4 Echo.
#[verifier::opaque]
pub open spec fn reflected4(t: &Tables, x: XdpView) -> (XdpView, Result<XdpAct, ()>) {
    if x.data.len() < 30 {
        (x, Err(()))
    } else if t.our_local_ips@.contains_key(bytes::be32(x.data, 26)) {
        let (x1, r) = returned(x, PL_MAGIC_OFF as int);
        (x1, if r is Ok { Ok(XdpAct::Drop) } else { Err(()) })
    } else {
        let (x1, r) = ttl_decremented(x);
        if r is Err {
            (x1, Err(()))
        } else {
            (frame::with_data(x1, macs_swapped(x1.data)), Ok(XdpAct::Tx))
        }
    }
}

/// Outcome of an IPv6 Echo.
#[verifier::opaque]
pub open spec fn reflected6(t: &Tables, x: XdpView) -> (XdpView, Result<XdpAct, ()>) {
    if x.data.len() < 38 {
        (x, Err(()))
    } else if t.our_local_ips_v6@.contains_key(bytes::oct16(x.data, 22)) {
        let (x1, r) = returned(x, PL6_MAGIC_OFF as int);
        (x1, if r is Ok { Ok(XdpAct::Drop) } else { Err(()) })
    } else {
        let (x1, r) = hop_decremented(x);
        if r is Err || x1.data.len() < 54 {
            (x1, Err(()))
        } else {
            (
                frame::with_data(x1, macs_swapped(ip6_swapped(x1.data))),
                Ok(XdpAct::Tx),
            )
        }
    }
}

/// BFD Echo over IPv4. Our own looped-back Echo feeds the detector and is
/// dropped; a peer's Echo is reflected.
pub fn reflect_v4(t: &Tables, x: &mut Xdp) -> (r: Result<XdpAct, ()>)
    ensures
        (final(x)@, r) == reflected4(t, old(x)@),
{
    reveal(reflected4);
    let src_ip: u32 = bytes::ld_be32(&x.data, IP_SRC_OFF)?;
    if t.our_local_ips.has(&src_ip) {
        record_return(x, PL_MAGIC_OFF)?;
        return Ok(XdpAct::Drop);
    }
    decrement_ttl(x)?;
    swap_macs(x)?;
    Ok(XdpAct::Tx)
}

/// BFD control over IPv4: feed the expiration watchdog. The caller passes the
/// frame regardless.
pub fn observe_ctrl_v4(x: &mut Xdp)
    ensures
        final(x)@ == observed(old(x)@, IP_TTL_OFF as int, CTRL_OFF as int).0,
{
    let _ = observe_control(x, IP_TTL_OFF, CTRL_OFF);
}

/// BFD Echo over IPv6. Our own looped-back Echo feeds the detector and is
/// dropped; a peer's Echo is reflected with the IPv6 src/dst swap.
pub fn reflect_v6(t: &Tables, x: &mut Xdp) -> (r: Result<XdpAct, ()>)
    ensures
        (final(x)@, r) == reflected6(t, old(x)@),
{
    reveal(reflected6);
    let src: [u8; 16] = bytes::ld16(&x.data, IP6_SRC_OFF)?;
    if t.our_local_ips_v6.has(&src) {
        record_return(x, PL6_MAGIC_OFF)?;
        return Ok(XdpAct::Drop);
    }
    decrement_hop_limit(x)?;
    swap_ip6(x)?;
    swap_macs(x)?;
    Ok(XdpAct::Tx)
}

/// BFD control over IPv6: feed the expiration watchdog (Hop Limit takes the
/// GTSM role). The caller passes the frame.
pub fn observe_ctrl_v6(x: &mut Xdp)
    ensures
        final(x)@ == observed(old(x)@, IP6_HOP_OFF as int, CTRL6_OFF as int).0,
{
    let _ = observe_control(x, IP6_HOP_OFF, CTRL6_OFF);
}

// -------------------------------- laws --------------------------------------

/// Reflecting swaps who is who: swapping the addresses twice gives the frame
/// back.
pub proof fn swaps_are_involutions(s: Seq<u8>)
    requires
        s.len() >= 54,
    ensures
        macs_swapped(macs_swapped(s)) == s,
        ip6_swapped(ip6_swapped(s)) == s,
{
    assert(macs_swapped(macs_swapped(s)) =~= s);
    assert(ip6_swapped(ip6_swapped(s)) =~= s);
}

/// The checksum stays valid when the TTL goes down by one: a header whose
/// words sum to a multiple of `0xffff` still does. `rest` is the sum of the
/// other words, `word` that of TTL and protocol.
pub proof fn decrement_keeps_checksum(rest: int, word: int, hc: u16)
    requires
        (rest + word + hc) % 0xffff == 0,
    ensures
        (rest + (word - 0x100) + csum_after_decrement(hc)) % 0xffff == 0,
{
    let k = (rest + word + hc) / 0xffff;
    if hc + 0x100 > 0xffff {
        assert(rest + (word - 0x100) + csum_after_decrement(hc) == (k - 1) * 0xffff);
    } else {
        assert(rest + (word - 0x100) + csum_after_decrement(hc) == k * 0xffff);
    }
}

/// A reflected Echo, of either family, had a hop left, leaves with one less and
/// is not one of ours.
pub proof fn reflected_echo_is_charged(t: &Tables, x: XdpView)
    ensures
        reflected4(t, x).1 == Ok::<XdpAct, ()>(XdpAct::Tx) ==> {
            &&& x.data[22] > 0
            &&& reflected4(t, x).0.data[22] == x.data[22] - 1
            &&& !t.our_local_ips@.contains_key(bytes::be32(x.data, 26))
        },
        reflected6(t, x).1 == Ok::<XdpAct, ()>(XdpAct::Tx) ==> {
            &&& x.data[21] > 0
            &&& reflected6(t, x).0.data[21] == x.data[21] - 1
            &&& !t.our_local_ips_v6@.contains_key(bytes::oct16(x.data, 22))
        },
{
    reveal(reflected4);
    reveal(reflected6);
}

/// Our own Echo is never reflected: a frame from one of our addresses, of
/// either family, is not sent back.
pub proof fn own_echo_is_not_reflected(t: &Tables, x: XdpView)
    ensures
        t.our_local_ips@.contains_key(bytes::be32(x.data, 26)) ==> reflected4(t, x).1 != Ok::<
            XdpAct,
            (),
        >(XdpAct::Tx),
        t.our_local_ips_v6@.contains_key(bytes::oct16(x.data, 22)) ==> reflected6(t, x).1 != Ok::<
            XdpAct,
            (),
        >(XdpAct::Tx),
{
    reveal(reflected4);
    reveal(reflected6);
}

/// The watchdog only watches: a control packet's frame is never changed.
pub proof fn observation_keeps_frame(x: XdpView, ttl_off: int, ctrl_off: int)
    ensures
        observed(x, ttl_off, ctrl_off).0.data == x.data,
{
}

/// A control packet that passes the checks clears the session's down mark and
/// restarts its timer with the session's own delay.
pub proof fn control_renews_session(
    x: XdpView,
    ttl_off: int,
    off: int,
    discr: u32,
    st: DetectState,
)
    requires
        0 <= ttl_off < x.data.len(),
        0 <= off,
        off + 12 <= x.data.len(),
        x.data[ttl_off] == CTRL_TTL,
        x.data[off] / 32 == BFD_VERSION,
        bytes::be32(x.data, off + 8) == discr,
        discr != 0,
        x.control.get(discr) == Some(st),
    ensures
        observed(x, ttl_off, off).0.control[discr].down == 0,
        observed(x, ttl_off, off).0.timers == x.timers.push(
            TimerStart { kind: TimerKind::Control, discr, delay_ns: st.detect_ns },
        ),
{
}

/// A returning Echo clears the session's down mark and restarts its timer
/// with the session's own delay.
pub proof fn return_renews_session(x: XdpView, off: int, discr: u32, st: DetectState)
    requires
        x.data.len() >= off + 8,
        off >= 0,
        bytes::be32(x.data, off) == ECHO_MAGIC,
        bytes::be32(x.data, off + 4) == discr,
        x.echo.get(discr) == Some(st),
    ensures
        returned(x, off).0.echo[discr].down == 0,
        returned(x, off).0.timers == x.timers.push(
            TimerStart { kind: TimerKind::Echo, discr, delay_ns: st.detect_ns },
        ),
{
}

} // verus!
