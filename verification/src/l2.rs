//! L2 switching in the TC stage: learning, forwarding and flooding within a
//! bridge domain, and the fan-out of SRv6 Replication segments.

use vstd::prelude::*;
use crate::bytes;
use crate::fib;
use crate::lpm;
use crate::skb;
use crate::skb::{Tc, TcAct, TcView};
use crate::tables::Tables;
use crate::types::{
    FdbEntry, FdbKey, L2MemberKey, NextHop, ReplBranch, ReplSeg, FDB_F_LOCAL, FDB_F_REMOTE,
    FIB_F_BLACKHOLE, FIB_F_ECMP, FIB_F_LOCAL, MAX_REPL_BRANCHES, REPL_BRANCH_LOCAL,
    STAT_L2_FLOOD, STAT_L2_FORWARD, STAT_SRV6_REPLICATE,
};
use crate::wire::{
    ETH_DST_OFF, ETH_P_IPV6, ETH_SRC_OFF, IP6_DST_OFF, IP6_HOP_OFF, MAX_L2_MEMBERS,
};

verus! {

// ------------------------------- flooding -----------------------------------

/// Whether a member port gets a flooded copy: never the ingress port, and for
/// a frame that already crossed the overlay no replication slot either.
pub open spec fn floods_to(t: &Tables, oif: u32, iif: u32, local_only: bool) -> bool {
    oif != iif && !(local_only && t.repl_sid@.contains_key(oif))
}

/// The ports flooded to among the first `k` member slots of a domain.
pub open spec fn flood_ports(t: &Tables, iif: u32, vlan: u16, local_only: bool, k: int) -> Seq<u32>
    decreases k,
{
    if k <= 0 {
        Seq::empty()
    } else {
        let head = flood_ports(t, iif, vlan, local_only, k - 1);
        match t.l2_members@.get(L2MemberKey { vlan, slot: (k - 1) as u16 }) {
            Some(oif) if floods_to(t, oif, iif, local_only) => head.push(oif),
            _ => head,
        }
    }
}

/// Number of member slots walked: the domain's count, capped.
pub open spec fn member_slots(t: &Tables, vlan: u16) -> int {
    match t.l2_count@.get(vlan) {
        Some(n) => if n < MAX_L2_MEMBERS { n as int } else { MAX_L2_MEMBERS as int },
        None => 0,
    }
}

/// `c` after its frame was copied to each of `ports`, in order.
pub open spec fn copied_to(c: TcView, ports: Seq<u32>) -> TcView {
    TcView { copies: c.copies + ports.map_values(|p: u32| (p, c.data)), ..c }
}

/// Outcome of a flood: one copy per member port, the original dropped.
#[verifier::opaque]
pub open spec fn flooded(t: &Tables, c: TcView, iif: u32, vlan: u16, local_only: bool) -> TcView {
    copied_to(
        skb::stat(c, STAT_L2_FLOOD),
        flood_ports(t, iif, vlan, local_only, member_slots(t, vlan)),
    )
}

/// Clone the frame to every member of `vlan` except the ingress port.
/// `local_only` additionally skips BUM replication slots — EVPN split
/// horizon: a frame that already crossed the overlay must never be flooded
/// back into it.
pub fn flood(t: &Tables, c: &mut Tc, iif: u32, vlan: u16, local_only: bool) -> (r: TcAct)
    ensures
        final(c)@ == flooded(t, old(c)@, iif, vlan, local_only),
        r == TcAct::Shot,
{
    reveal(flooded);
    c.stat_inc(STAT_L2_FLOOD);
    let ghost base = c@;
    let count: u32 = match t.l2_count.get(&vlan) {
        Some(n) => n,
        None => 0,
    };
    let mut slot: u16 = 0;
    assert(c@ =~= copied_to(base, flood_ports(t, iif, vlan, local_only, 0)));
    while slot < MAX_L2_MEMBERS && (slot as u32) < count
        invariant
            slot <= MAX_L2_MEMBERS,
            slot <= count,
            c@ == copied_to(base, flood_ports(t, iif, vlan, local_only, slot as int)),
        decreases MAX_L2_MEMBERS - slot,
    {
        let ghost ports = flood_ports(t, iif, vlan, local_only, slot as int);
        match t.l2_members.get(&L2MemberKey { vlan, slot }) {
            Some(oif) => {
                if oif != iif && !(local_only && t.repl_sid.has(&oif)) {
                    c.clone_redirect(oif);
                    assert(c@ =~= copied_to(base, ports.push(oif)));
                }
            },
            None => {},
        }
        slot += 1;
    }
    TcAct::Shot
}

// ------------------------------- switching ----------------------------------

/// A locally learned entry.
pub open spec fn learned_entry(iif: u32, now: u64) -> FdbEntry {
    FdbEntry { oif: iif, flags: 0, remote_sid: bytes::zeros16(), last_seen: now }
}

/// Outcome of bridging a frame in domain `vlan`: the source is learned unless
/// the frame came over the overlay; group addresses, unknown and overlay
/// destinations flood; one of our own goes to the host stack; any other known
/// one is forwarded, never back to its port.
#[verifier::opaque]
pub open spec fn switched(t: &Tables, c: TcView, iif: u32, vlan: u16, from_overlay: bool) -> (
    TcView,
    Result<TcAct, ()>,
) {
    if c.data.len() < 6 || (!from_overlay && c.data.len() < 12) {
        (c, Err(()))
    } else {
        let dst = bytes::oct6(c.data, 0);
        let c1 = if from_overlay {
            c
        } else {
            TcView {
                fdb: c.fdb.insert(
                    FdbKey { mac: bytes::oct6(c.data, 6), vlan },
                    learned_entry(iif, c.now),
                ),
                ..c
            }
        };
        let flood = (flooded(t, c1, iif, vlan, from_overlay), Ok::<TcAct, ()>(TcAct::Shot));
        if dst[0] % 2 != 0 {
            flood
        } else {
            match c1.fdb.get(FdbKey { mac: dst, vlan }) {
                None => flood,
                Some(e) => if e.flags & FDB_F_LOCAL != 0 {
                    (c1, Ok(TcAct::Pipe))
                } else if e.flags & FDB_F_REMOTE != 0 {
                    flood
                } else if e.oif == iif {
                    (c1, Ok(TcAct::Shot))
                } else {
                    (skb::stat(c1, STAT_L2_FORWARD), Ok(TcAct::Redirect(e.oif)))
                },
            }
        }
    }
}

/// Bridge a frame in domain `vlan`. `from_overlay` marks a frame that arrived
/// encapsulated: its source MAC is a remote station, not on the underlay port
/// it arrived through, and flooding it back toward the overlay's replication
/// slots would loop it, so both are suppressed. An overlay MAC that reaches
/// this stage floods rather than using the entry's `oif`, which is a nexthop
/// id. A MAC of ours is handed up.
pub fn l2_switch(t: &Tables, c: &mut Tc, iif: u32, vlan: u16, from_overlay: bool) -> (r: Result<
    TcAct,
    (),
>)
    ensures
        (final(c)@, r) == switched(t, old(c)@, iif, vlan, from_overlay),
{
    reveal(switched);
    let dst: [u8; 6] = bytes::ld6(&c.data, ETH_DST_OFF)?;
    if !from_overlay {
        let src: [u8; 6] = bytes::ld6(&c.data, ETH_SRC_OFF)?;
        let now: u64 = c.now;
        c.fdb.put(
            FdbKey { mac: src, vlan },
            FdbEntry { oif: iif, flags: 0, remote_sid: bytes::zero16(), last_seen: now },
        );
    }
    if dst[0] % 2 != 0 {
        return Ok(flood(t, c, iif, vlan, from_overlay));
    }
    match c.fdb.get(&FdbKey { mac: dst, vlan }) {
        Some(e) => {
            if e.flags & FDB_F_LOCAL != 0 {
                return Ok(TcAct::Pipe);
            }
            if e.flags & FDB_F_REMOTE != 0 {
                return Ok(flood(t, c, iif, vlan, from_overlay));
            }
            if e.oif == iif {
                Ok(TcAct::Shot)
            } else {
                c.stat_inc(STAT_L2_FORWARD);
                Ok(TcAct::Redirect(e.oif))
            }
        },
        None => Ok(flood(t, c, iif, vlan, from_overlay)),
    }
}

// ----------------------------- End.Replicate --------------------------------

/// The nexthop id of a branch: its own, or that of the route to its SID when
/// that is a plain unicast route.
pub open spec fn branch_nh(t: &Tables, br: ReplBranch) -> Option<u32> {
    if br.nexthop_id != 0 {
        Some(br.nexthop_id)
    } else {
        match lpm::matched(t.fib6@, br.sid@) {
            Some(f) if f.flags & (FIB_F_ECMP | FIB_F_BLACKHOLE | FIB_F_LOCAL) == 0 => Some(
                f.nexthop_id,
            ),
            _ => None,
        }
    }
}

/// Outcome of forwarding a copy to a remote branch: nothing when its
/// adjacency does not resolve.
pub open spec fn remote_copied(t: &Tables, c: TcView, br: ReplBranch) -> TcView {
    match branch_nh(t, br) {
        None => c,
        Some(id) => {
            let (c1, r) = fib::resolved(t, c, id);
            match r {
                None => c1,
                Some((_, nh)) => match fib::l2_of(t, nh) {
                    None => c1,
                    Some((dst, src)) => skb::cloned_to(
                        skb::with_data(
                            c1,
                            bytes::eth_hdr(dst, src, ETH_P_IPV6) + c1.data.skip(14),
                        ),
                        nh.oif,
                    ),
                },
            }
        },
    }
}

/// Outcome of serving one branch: the outer destination becomes the branch's
/// SID, and a copy goes to its leaf veth or its underlay adjacency.
pub open spec fn branch_served(t: &Tables, c: TcView, br: ReplBranch) -> TcView {
    let c1 = skb::with_data(c, bytes::splice(c.data, IP6_DST_OFF as int, br.sid@));
    if br.flags & REPL_BRANCH_LOCAL != 0 {
        skb::cloned_to(c1, br.local_oif)
    } else {
        remote_copied(t, c1, br)
    }
}

/// Outcome of serving the first `k` branches.
pub open spec fn branches_served(t: &Tables, c: TcView, rs: ReplSeg, k: int) -> TcView
    decreases k,
{
    if k <= 0 {
        c
    } else {
        branch_served(t, branches_served(t, c, rs, k - 1), rs.branches[k - 1])
    }
}

/// Number of branches served.
pub open spec fn branch_count(rs: ReplSeg) -> int {
    if rs.n_branches < MAX_REPL_BRANCHES {
        rs.n_branches as int
    } else {
        MAX_REPL_BRANCHES as int
    }
}

/// Outcome of `End.Replicate`: the hop limit charged once, one copy per
/// branch, the original dropped. Without state, or with the hop limit at its
/// end, the packet is dropped.
#[verifier::opaque]
pub open spec fn replicated(t: &Tables, c: TcView) -> (TcView, Result<TcAct, ()>) {
    if c.data.len() < 54 {
        (c, Err(()))
    } else {
        match t.repl_seg@.get(bytes::oct16(c.data, 38)) {
            None => (c, Ok(TcAct::Shot)),
            Some(rs) => {
                let hl = c.data[21];
                if hl <= 1 || hl < rs.hop_limit_threshold {
                    (c, Ok(TcAct::Shot))
                } else {
                    let c1 = skb::with_data(c, c.data.update(21, (hl - 1) as u8));
                    (
                        skb::stat(
                            branches_served(t, c1, rs, branch_count(rs)),
                            STAT_SRV6_REPLICATE,
                        ),
                        Ok(TcAct::Shot),
                    )
                }
            },
        }
    }
}

/// Forward one remote `End.Replicate` branch: resolve the underlay adjacency
/// (an explicit `nexthop_id`, or a FIB6 lookup on the branch SID), rewrite the
/// outer Ethernet toward it, and send one copy out. The outer IPv6 DA is
/// already the branch's SID.
pub(crate) fn repl_clone_remote(t: &Tables, c: &mut Tc, br: &ReplBranch)
    requires
        old(c)@.data.len() >= 54,
    ensures
        final(c)@ == remote_copied(t, old(c)@, *br),
        final(c)@.data.len() == old(c)@.data.len(),
{
    let nh_id: u32 = if br.nexthop_id != 0 {
        br.nexthop_id
    } else {
        match t.fib6.get(br.sid.as_slice()) {
            Some(f) => {
                if f.flags & (FIB_F_ECMP | FIB_F_BLACKHOLE | FIB_F_LOCAL) != 0 {
                    return ;
                }
                f.nexthop_id
            },
            None => {
                return ;
            },
        }
    };
    proof {
        reveal(fib::resolved);
    }
    let nh: NextHop = match fib::resolve_nh(t, c, nh_id) {
        Some((_, nh)) => nh,
        None => {
            return ;
        },
    };
    match fib::resolve_l2(t, &nh) {
        Some((dst_mac, src_mac)) => {
            let mut eth: Vec<u8> = Vec::new();
            bytes::put_eth(&mut eth, &dst_mac, &src_mac, ETH_P_IPV6);
            let ghost before = c@.data;
            c.store(0, eth.as_slice());
            assert(c@.data =~= bytes::eth_hdr(dst_mac, src_mac, ETH_P_IPV6) + before.skip(14));
            c.clone_redirect(nh.oif);
        },
        None => {},
    }
}

/// `End.Replicate` (RFC 9524): fan the frame out to the Replication segment's
/// downstream branches. The frame is still fully SRv6-encapsulated and its
/// outer DA is this node's Replication SID; each copy is steered to its
/// branch's downstream SID — a local (Bud) branch toward the leaf veth, a
/// remote one over the underlay. The Hop Limit is decremented once (all
/// copies inherit it) and the original is dropped.
pub fn srv6_replicate(t: &Tables, c: &mut Tc) -> (r: Result<TcAct, ()>)
    ensures
        (final(c)@, r) == replicated(t, old(c)@),
{
    reveal(replicated);
    let da: [u8; 16] = bytes::ld16(&c.data, IP6_DST_OFF)?;
    let rs: ReplSeg = match t.repl_seg.get(&da) {
        Some(r) => r,
        None => {
            return Ok(TcAct::Shot);
        },
    };
    let hl: u8 = bytes::ld8(&c.data, IP6_HOP_OFF)?;
    if hl <= 1 || hl < rs.hop_limit_threshold {
        return Ok(TcAct::Shot);
    }
    let new_hl: [u8; 1] = [hl - 1];
    let ghost s = c@.data;
    c.store(IP6_HOP_OFF, new_hl.as_slice());
    assert(c@.data =~= s.update(21, (hl - 1) as u8));
    let ghost base = c@;
    let n: u32 = rs.n_branches;
    let mut slot: usize = 0;
    while slot < MAX_REPL_BRANCHES && (slot as u32) < n
        invariant
            slot <= MAX_REPL_BRANCHES,
            slot <= n,
            n == rs.n_branches,
            c@ == branches_served(t, base, rs, slot as int),
            c@.data.len() >= 54,
        decreases MAX_REPL_BRANCHES - slot,
    {
        let br: ReplBranch = rs.branches[slot];
        c.store(IP6_DST_OFF, br.sid.as_slice());
        if br.flags & REPL_BRANCH_LOCAL != 0 {
            c.clone_redirect(br.local_oif);
        } else {
            repl_clone_remote(t, c, &br);
        }
        slot += 1;
    }
    c.stat_inc(STAT_SRV6_REPLICATE);
    Ok(TcAct::Shot)
}

// -------------------------------- laws --------------------------------------

/// No flooded copy goes back out of the ingress port.
pub proof fn flood_excludes_ingress(
    t: &Tables,
    iif: u32,
    vlan: u16,
    local_only: bool,
    k: int,
)
    ensures
        !flood_ports(t, iif, vlan, local_only, k).contains(iif),
    decreases k,
{
    if k > 0 {
        flood_excludes_ingress(t, iif, vlan, local_only, k - 1);
    }
}

/// Split horizon: a frame that came over the overlay is never flooded to a
/// replication slot.
pub proof fn flood_split_horizon(t: &Tables, iif: u32, vlan: u16, k: int)
    ensures
        forall|i: int|
            0 <= i < flood_ports(t, iif, vlan, true, k).len() ==> !t.repl_sid@.contains_key(
                #[trigger] flood_ports(t, iif, vlan, true, k)[i],
            ),
    decreases k,
{
    if k > 0 {
        flood_split_horizon(t, iif, vlan, k - 1);
        let head = flood_ports(t, iif, vlan, true, k - 1);
        let all = flood_ports(t, iif, vlan, true, k);
        assert forall|i: int| 0 <= i < all.len() implies !t.repl_sid@.contains_key(
            #[trigger] all[i],
        ) by {
            if i < head.len() {
                assert(all[i] == head[i]);
            }
        }
    }
}

/// Every member that may get a copy does: the port in a walked slot is
/// flooded to unless it is the ingress port or excluded by split horizon.
pub proof fn flood_reaches_members(
    t: &Tables,
    iif: u32,
    vlan: u16,
    local_only: bool,
    k: int,
    slot: int,
    oif: u32,
)
    requires
        0 <= slot < k <= 0x1_0000,
        t.l2_members@.get(L2MemberKey { vlan, slot: slot as u16 }) == Some(oif),
        floods_to(t, oif, iif, local_only),
    ensures
        flood_ports(t, iif, vlan, local_only, k).contains(oif),
    decreases k,
{
    let all = flood_ports(t, iif, vlan, local_only, k);
    let head = flood_ports(t, iif, vlan, local_only, k - 1);
    if slot == k - 1 {
        assert(all.last() == oif);
    } else {
        flood_reaches_members(t, iif, vlan, local_only, k - 1, slot, oif);
        let i = choose|i: int| 0 <= i < head.len() && head[i] == oif;
        assert(all[i] == oif);
    }
}

/// The bridge learns: after a frame from a local station, a frame to that
/// station arriving on another port, or over the overlay, is sent out of the
/// station's port.
pub proof fn learned_station_is_reached(
    t: &Tables,
    c: TcView,
    iif: u32,
    vlan: u16,
    reply: Seq<u8>,
    other: u32,
    from_overlay: bool,
)
    requires
        c.data.len() >= 12,
        c.data[6] % 2 == 0,
        reply.len() >= 12,
        bytes::oct6(reply, 0) == bytes::oct6(c.data, 6),
        from_overlay || bytes::oct6(reply, 6) != bytes::oct6(c.data, 6),
        other != iif,
    ensures
        switched(
            t,
            skb::with_data(switched(t, c, iif, vlan, false).0, reply),
            other,
            vlan,
            from_overlay,
        ).1 == Ok::<TcAct, ()>(TcAct::Redirect(iif)),
{
    reveal(switched);
    reveal(flooded);
    let c1 = switched(t, c, iif, vlan, false).0;
    let key = FdbKey { mac: bytes::oct6(c.data, 6), vlan };
    assert(c1.fdb.get(key) == Some(learned_entry(iif, c.now)));
    assert(bytes::oct6(reply, 0)@[0] == bytes::oct6(c.data, 6)@[0]);
    assert(0u32 & FDB_F_REMOTE == 0 && 0u32 & FDB_F_LOCAL == 0) by {
        assert(0u32 & 2u32 == 0 && 0u32 & 1u32 == 0) by (bit_vector);
    }
}

/// A frame is never sent back out of the port it came in on.
pub proof fn switch_never_hairpins(
    t: &Tables,
    c: TcView,
    iif: u32,
    vlan: u16,
    from_overlay: bool,
)
    ensures
        switched(t, c, iif, vlan, from_overlay).1 != Ok::<TcAct, ()>(TcAct::Redirect(iif)),
{
    reveal(switched);
}

/// Overlay frames are not learned.
pub proof fn overlay_frames_are_not_learned(t: &Tables, c: TcView, iif: u32, vlan: u16)
    ensures
        switched(t, c, iif, vlan, true).0.fdb == c.fdb,
{
    reveal(switched);
    reveal(flooded);
}

} // verus!
