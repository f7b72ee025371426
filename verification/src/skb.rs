//! The packet and flow state a TC hook works on.
//!
//! What the kernel decides is an input of the run: how far the packet may
//! still grow, the clock, a random number, the socket lookups, the room in
//! the flow ring. What the run asks of the kernel is an output: counter
//! bumps, flow records, checksum patches and frame copies, in order.

use vstd::prelude::*;
use crate::bytes;
use crate::table::Table;
use crate::types::{
    AffinityKey, AffinityVal, CradleXdpMeta, CtEntry, CtEntry6, CtKey, CtKey6, FdbEntry, FdbKey,
    FlowRecord,
};

verus! {

/// A TC verdict.
#[derive(Clone, Copy, Debug, PartialEq, Eq)]
pub enum TcAct {
    /// Deliver locally.
    Deliver,
    /// Leave the packet to the host stack.
    Pipe,
    /// Drop.
    Shot,
    /// Send out of an interface as it is.
    Redirect(u32),
    /// Send out of an interface; the kernel resolves the IPv4 neighbor.
    Neigh4 { oif: u32, nh4: [u8; 4] },
    /// Send out of an interface; the kernel resolves the IPv6 neighbor.
    Neigh6 { oif: u32, nh6: [u8; 16] },
}

/// A checksum patch: replace the contribution of `from` by that of `to` in
/// the checksum at `off`. `l4` selects `bpf_l4_csum_replace` over
/// `bpf_l3_csum_replace`; `flags` are the helper's, the size in its low bits.
#[derive(Clone, Copy, Debug, PartialEq, Eq)]
pub struct CsumFix {
    pub l4: bool,
    pub off: u32,
    pub from: u64,
    pub to: u64,
    pub flags: u64,
}

/// A copy of the frame sent out of `oif`.
#[derive(Clone, Debug, PartialEq, Eq)]
pub struct FrameCopy {
    pub oif: u32,
    pub frame: Vec<u8>,
}

/// What the socket lookups of the L7 stage found, and whether the packet
/// could be assigned to the socket.
#[derive(Clone, Copy, Debug, PartialEq, Eq)]
pub struct SockAnswers {
    /// State of the socket matching the packet's own 4-tuple.
    pub conn: Option<u32>,
    /// Whether the proxy's wildcard listener exists.
    pub listener: bool,
    /// Whether `bpf_sk_assign` succeeds.
    pub assign: bool,
}

/// One run of a TC hook.
pub struct Tc {
    pub data: Vec<u8>,
    /// Bytes by which the kernel still lets the packet grow.
    pub room: usize,
    /// Metadata the XDP stage attached.
    pub meta: Option<CradleXdpMeta>,
    /// Interface the packet came in on.
    pub iif: u32,
    /// Interface the hook runs on.
    pub ifindex: u32,
    pub now: u64,
    pub rand: u32,
    pub sock: SockAnswers,
    /// Flow records the ring still takes in this run.
    pub flow_cap: usize,
    /// The peer identity the last policy verdict resolved.
    pub peer_id: u32,
    pub fdb: Table<FdbKey, FdbEntry>,
    pub ct: Table<CtKey, CtEntry>,
    pub ct6: Table<CtKey6, CtEntry6>,
    pub affinity: Table<AffinityKey, AffinityVal>,
    /// Policy conntrack (`PCT_*` values).
    pub pct: Table<CtKey, u8>,
    pub pct6: Table<CtKey6, u8>,
    /// Counters bumped, in order.
    pub stats: Vec<u32>,
    pub flows: Vec<FlowRecord>,
    pub fixes: Vec<CsumFix>,
    pub copies: Vec<FrameCopy>,
}

/// What a [`Tc`] holds.
#[verifier::ext_equal]
pub struct TcView {
    pub data: Seq<u8>,
    pub room: usize,
    pub meta: Option<CradleXdpMeta>,
    pub iif: u32,
    pub ifindex: u32,
    pub now: u64,
    pub rand: u32,
    pub sock: SockAnswers,
    pub flow_cap: usize,
    pub peer_id: u32,
    pub fdb: Map<FdbKey, FdbEntry>,
    pub ct: Map<CtKey, CtEntry>,
    pub ct6: Map<CtKey6, CtEntry6>,
    pub affinity: Map<AffinityKey, AffinityVal>,
    pub pct: Map<CtKey, u8>,
    pub pct6: Map<CtKey6, u8>,
    pub stats: Seq<u32>,
    pub flows: Seq<FlowRecord>,
    pub fixes: Seq<CsumFix>,
    pub copies: Seq<(u32, Seq<u8>)>,
}

/// The frame copies as plain values.
pub open spec fn copies_view(s: Seq<FrameCopy>) -> Seq<(u32, Seq<u8>)> {
    s.map_values(|c: FrameCopy| (c.oif, c.frame@))
}

impl View for Tc {
    type V = TcView;

    open spec fn view(&self) -> TcView {
        TcView {
            data: self.data@,
            room: self.room,
            meta: self.meta,
            iif: self.iif,
            ifindex: self.ifindex,
            now: self.now,
            rand: self.rand,
            sock: self.sock,
            flow_cap: self.flow_cap,
            peer_id: self.peer_id,
            fdb: self.fdb@,
            ct: self.ct@,
            ct6: self.ct6@,
            affinity: self.affinity@,
            pct: self.pct@,
            pct6: self.pct6@,
            stats: self.stats@,
            flows: self.flows@,
            fixes: self.fixes@,
            copies: copies_view(self.copies@),
        }
    }
}

/// `c` after bumping counter `idx`.
pub open spec fn stat(c: TcView, idx: u32) -> TcView {
    TcView { stats: c.stats.push(idx), ..c }
}

/// `c` with its packet replaced.
pub open spec fn with_data(c: TcView, data: Seq<u8>) -> TcView {
    TcView { data, ..c }
}

/// `c` after sending a copy of its frame out of `oif`.
pub open spec fn cloned_to(c: TcView, oif: u32) -> TcView {
    TcView { copies: c.copies.push((oif, c.data)), ..c }
}

/// `c` after `hdr` was inserted at `at`, the room it took spent.
pub open spec fn grown(c: TcView, at: int, hdr: Seq<u8>) -> TcView {
    TcView {
        data: bytes::inserted(c.data, at, hdr),
        room: (c.room - hdr.len()) as usize,
        ..c
    }
}

impl Tc {
    /// A run over `data` with no flow state and nothing asked yet.
    pub fn new(data: Vec<u8>) -> (r: Self)
        ensures
            r@ == (TcView {
                data: data@,
                room: 0,
                meta: None,
                iif: 0,
                ifindex: 0,
                now: 0,
                rand: 0,
                sock: (SockAnswers { conn: None, listener: false, assign: false }),
                flow_cap: 0,
                peer_id: 0,
                fdb: Map::empty(),
                ct: Map::empty(),
                ct6: Map::empty(),
                affinity: Map::empty(),
                pct: Map::empty(),
                pct6: Map::empty(),
                stats: Seq::empty(),
                flows: Seq::empty(),
                fixes: Seq::empty(),
                copies: Seq::empty(),
            }),
    {
        Tc {
            data,
            room: 0,
            meta: None,
            iif: 0,
            ifindex: 0,
            now: 0,
            rand: 0,
            sock: SockAnswers { conn: None, listener: false, assign: false },
            flow_cap: 0,
            peer_id: 0,
            fdb: Table::new(),
            ct: Table::new(),
            ct6: Table::new(),
            affinity: Table::new(),
            pct: Table::new(),
            pct6: Table::new(),
            stats: Vec::new(),
            flows: Vec::new(),
            fixes: Vec::new(),
            copies: Vec::new(),
        }
    }

    /// Bump a counter.
    pub fn stat_inc(&mut self, idx: u32)
        ensures
            final(self)@ == stat(old(self)@, idx),
    {
        self.stats.push(idx);
    }

    /// Send a copy of the frame out of `oif`.
    pub fn clone_redirect(&mut self, oif: u32)
        ensures
            final(self)@ == cloned_to(old(self)@, oif),
    {
        let frame = self.data.clone();
        assert(frame@ =~= self.data@);
        self.copies.push(FrameCopy { oif, frame });
        assert(self@.copies =~= old(self)@.copies.push((oif, old(self)@.data)));
    }

    /// Replace the bytes from `o` on by `b`.
    pub(crate) fn store(&mut self, o: usize, b: &[u8])
        requires
            o + b@.len() <= old(self)@.data.len(),
        ensures
            final(self)@ == with_data(old(self)@, bytes::splice(old(self)@.data, o as int, b@)),
    {
        bytes::overwrite(&mut self.data, o, b);
    }

    /// Open room at `at` and write `hdr` there. Fails, the packet untouched,
    /// when the kernel does not let it grow that far.
    pub(crate) fn grow(&mut self, at: usize, hdr: Vec<u8>) -> (r: Result<(), ()>)
        requires
            at <= old(self)@.data.len(),
        ensures
            hdr@.len() <= old(self)@.room ==> r is Ok && final(self)@ == grown(
                old(self)@,
                at as int,
                hdr@,
            ),
            hdr@.len() > old(self)@.room ==> r is Err && final(self)@ == old(self)@,
    {
        if hdr.len() > self.room {
            return Err(());
        }
        self.room = self.room - hdr.len();
        bytes::insert_at(&mut self.data, at, hdr);
        Ok(())
    }

    /// Ask for a checksum patch. Fails when the checksum lies outside the
    /// packet.
    pub fn csum_replace(&mut self, fix: CsumFix) -> (r: Result<(), ()>)
        ensures
            fix.off + 2 <= old(self)@.data.len() ==> r is Ok && final(self)@ == (TcView {
                fixes: old(self)@.fixes.push(fix),
                ..old(self)@
            }),
            fix.off + 2 > old(self)@.data.len() ==> r is Err && final(self)@ == old(self)@,
    {
        if !bytes::fits(&self.data, fix.off as usize, 2) {
            return Err(());
        }
        self.fixes.push(fix);
        Ok(())
    }
}

} // verus!
