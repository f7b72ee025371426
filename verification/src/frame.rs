//! The frame and state an XDP hook works on.
//!
//! As for the TC hook, what the kernel decides is an input of the run — the
//! headroom, whether metadata can be attached, whether a timer can be
//! initialised — and what the run asks of it is an output.

use vstd::prelude::*;
use crate::bytes;
use crate::table::Table;
use crate::tables::Tables;
use crate::types::{CradleXdpMeta, FdbEntry, FdbKey, STAT_DROP};

verus! {

/// An XDP verdict.
#[derive(Clone, Copy, Debug, PartialEq, Eq)]
pub enum XdpAct {
    /// Hand the frame up.
    Pass,
    Drop,
    /// Send back out of the interface it came in on.
    Tx,
    /// Send out of an interface.
    Redirect(u32),
}

/// Per-session detection state, keyed by our local BFD discriminator. One
/// layout serves both Echo-return timing and control-packet expiration. The
/// timer itself is the kernel's.
#[derive(Clone, Copy, Debug, PartialEq, Eq)]
pub struct DetectState {
    /// Re-arm delay in nanoseconds; set when the session is armed.
    pub detect_ns: u64,
    /// 0 until the timer was initialised, then 1.
    pub armed: u8,
    /// Set to 1 by the timer when tracked packets stopped; polled and cleared
    /// by user space.
    pub down: u8,
}

/// Which session timer a request is for.
#[derive(Clone, Copy, Debug, PartialEq, Eq)]
pub enum TimerKind {
    Echo,
    Control,
}

/// A request to (re)start a session's one-shot timer.
#[derive(Clone, Copy, Debug, PartialEq, Eq)]
pub struct TimerStart {
    pub kind: TimerKind,
    pub discr: u32,
    pub delay_ns: u64,
}

/// One run of an XDP hook.
pub struct Xdp {
    pub data: Vec<u8>,
    /// Bytes by which the frame can grow at its front.
    pub headroom: usize,
    /// Metadata attached to the frame.
    pub meta: Option<CradleXdpMeta>,
    /// Whether the kernel lets metadata be attached.
    pub meta_room: bool,
    /// Interface the frame came in on.
    pub iif: u32,
    pub now: u64,
    pub fdb: Table<FdbKey, FdbEntry>,
    /// Echo-return detection state per originating session.
    pub echo: Table<u32, DetectState>,
    /// Control-packet expiration state per Up session.
    pub control: Table<u32, DetectState>,
    /// Whether the kernel initialises a timer when asked to.
    pub timer_init: bool,
    /// Timers started, in order.
    pub timers: Vec<TimerStart>,
    /// Counters bumped, in order.
    pub stats: Vec<u32>,
}

/// What an [`Xdp`] holds.
#[verifier::ext_equal]
pub struct XdpView {
    pub data: Seq<u8>,
    pub headroom: usize,
    pub meta: Option<CradleXdpMeta>,
    pub meta_room: bool,
    pub iif: u32,
    pub now: u64,
    pub fdb: Map<FdbKey, FdbEntry>,
    pub echo: Map<u32, DetectState>,
    pub control: Map<u32, DetectState>,
    pub timer_init: bool,
    pub timers: Seq<TimerStart>,
    pub stats: Seq<u32>,
}

impl View for Xdp {
    type V = XdpView;

    open spec fn view(&self) -> XdpView {
        XdpView {
            data: self.data@,
            headroom: self.headroom,
            meta: self.meta,
            meta_room: self.meta_room,
            iif: self.iif,
            now: self.now,
            fdb: self.fdb@,
            echo: self.echo@,
            control: self.control@,
            timer_init: self.timer_init,
            timers: self.timers@,
            stats: self.stats@,
        }
    }
}

/// `x` after bumping counter `idx`.
pub open spec fn stat(x: XdpView, idx: u32) -> XdpView {
    XdpView { stats: x.stats.push(idx), ..x }
}

/// Headroom `h` with `n` bytes more. A frame and its headroom share one
/// buffer, so that a real sum fits a machine word.
pub open spec fn roomier(h: usize, n: int) -> usize {
    if h + n > usize::MAX {
        usize::MAX
    } else {
        (h + n) as usize
    }
}

/// `x` with its frame replaced by one no longer. What the frame loses at its
/// front is headroom again.
pub open spec fn with_data(x: XdpView, data: Seq<u8>) -> XdpView {
    XdpView { data, headroom: roomier(x.headroom, x.data.len() - data.len()), ..x }
}

/// `x` with its first `k` bytes replaced by `hdr`, the headroom the growth
/// took spent.
pub open spec fn fronted(x: XdpView, k: int, hdr: Seq<u8>) -> XdpView {
    XdpView {
        data: hdr + x.data.skip(k),
        headroom: (x.headroom - (hdr.len() - k)) as usize,
        ..x
    }
}

/// Outcome of handing a frame up with metadata: dropped and counted when the
/// metadata cannot be attached, rather than mis-handled without it.
pub open spec fn tagged(t: &Tables, x: XdpView, magic: u32, value: u32) -> (XdpView, XdpAct) {
    if x.meta_room {
        (
            XdpView {
                meta: Some(CradleXdpMeta { magic: magic ^ t.meta_cookie, vrf_id: value }),
                ..x
            },
            XdpAct::Pass,
        )
    } else {
        (stat(x, STAT_DROP), XdpAct::Drop)
    }
}

impl Xdp {
    /// A run over `data` with no state and nothing asked yet.
    pub fn new(data: Vec<u8>) -> (r: Self)
        ensures
            r@ == (XdpView {
                data: data@,
                headroom: 0,
                meta: None,
                meta_room: false,
                iif: 0,
                now: 0,
                fdb: Map::empty(),
                echo: Map::empty(),
                control: Map::empty(),
                timer_init: false,
                timers: Seq::empty(),
                stats: Seq::empty(),
            }),
    {
        Xdp {
            data,
            headroom: 0,
            meta: None,
            meta_room: false,
            iif: 0,
            now: 0,
            fdb: Table::new(),
            echo: Table::new(),
            control: Table::new(),
            timer_init: false,
            timers: Vec::new(),
            stats: Vec::new(),
        }
    }

    /// Bump a counter.
    pub fn stat_inc(&mut self, idx: u32)
        ensures
            final(self)@ == stat(old(self)@, idx),
    {
        self.stats.push(idx);
    }

    /// Replace the bytes from `o` on by `b`.
    pub(crate) fn store(&mut self, o: usize, b: &[u8])
        requires
            o + b@.len() <= old(self)@.data.len(),
        ensures
            final(self)@ == with_data(old(self)@, bytes::splice(old(self)@.data, o as int, b@)),
    {
        bytes::overwrite(&mut self.data, o, b);
    }

    /// Set the byte at `o`.
    pub(crate) fn store8(&mut self, o: usize, b: u8)
        requires
            o < old(self)@.data.len(),
        ensures
            final(self)@ == with_data(old(self)@, old(self)@.data.update(o as int, b)),
    {
        self.data.set(o, b);
    }

    /// Replace the first `k` bytes by the longer `hdr`. `false`, the frame
    /// untouched, when the headroom does not suffice.
    pub(crate) fn grow_front(&mut self, k: usize, hdr: Vec<u8>) -> (ok: bool)
        requires
            k <= old(self)@.data.len(),
            k <= hdr@.len(),
        ensures
            ok == (hdr@.len() - k <= old(self)@.headroom),
            ok ==> final(self)@ == fronted(old(self)@, k as int, hdr@),
            !ok ==> final(self)@ == old(self)@,
    {
        let more: usize = hdr.len() - k;
        if more > self.headroom {
            return false;
        }
        self.headroom = self.headroom - more;
        let mut rest = self.data.split_off(k);
        self.data = hdr;
        self.data.append(&mut rest);
        true
    }

    /// Give back the headroom of `n` bytes dropped at the front.
    pub(crate) fn regain(&mut self, n: usize)
        ensures
            final(self)@ == (XdpView {
                headroom: roomier(old(self)@.headroom, n as int),
                ..old(self)@
            }),
    {
        self.headroom = if self.headroom > usize::MAX - n {
            usize::MAX
        } else {
            self.headroom + n
        };
    }

    /// Drop the first `n` bytes, which become headroom. `false`, the frame
    /// untouched, when less than an Ethernet header would be left.
    pub fn shrink_front(&mut self, n: usize) -> (ok: bool)
        ensures
            ok == (n + 14 <= old(self)@.data.len()),
            ok ==> final(self)@ == with_data(old(self)@, old(self)@.data.skip(n as int)),
            !ok ==> final(self)@ == old(self)@,
    {
        if !bytes::fits(&self.data, n, 14) {
            return false;
        }
        bytes::drop_front(&mut self.data, n);
        self.regain(n);
        true
    }

    /// Hand the frame up with metadata.
    pub fn tag(&mut self, t: &Tables, magic: u32, value: u32) -> (r: XdpAct)
        ensures
            (final(self)@, r) == tagged(t, old(self)@, magic, value),
    {
        if !self.meta_room {
            self.stat_inc(STAT_DROP);
            return XdpAct::Drop;
        }
        self.meta = Some(CradleXdpMeta { magic: magic ^ t.meta_cookie, vrf_id: value });
        XdpAct::Pass
    }
}

/// Room taken for headers comes back when they are removed again.
pub proof fn room_comes_back(x: XdpView, k: int, hdr: Seq<u8>)
    requires
        0 <= k <= x.data.len(),
        k <= hdr.len(),
        hdr.len() - k <= x.headroom,
    ensures
        with_data(fronted(x, k, hdr), x.data) == x,
{
}

} // verus!
