//! The data-plane contract: plain-old-data table keys and values shared by the
//! packet stages and by whoever fills their tables.
//!
//! Addresses and ports read off a packet are kept in "memory order": an IPv4
//! address is the `u32` whose little-endian bytes are the network octets, and
//! a port is the two wire bytes read as a little-endian `u16`. Longest-prefix
//! keys use the octets directly.

use vstd::prelude::*;

verus! {


// ============================ L3: routing / FIB ============================

/// Longest-prefix-match result: a route pointing at a nexthop.
///
/// Stored in an LPM trie keyed by destination prefix (`u32` for IPv4,
/// `[u8; 16]` for IPv6, both in network byte order).
#[derive(Clone, Copy, Debug, PartialEq, Eq)]
pub struct FibEntry {
    /// Index into the `NEXTHOPS` map.
    pub nexthop_id: u32,
    /// `FIB_F_*` flags.
    pub flags: u32,
}

pub const FIB_F_BLACKHOLE: u32 = 0x1;
/// Destination is local — punt to the host stack instead of forwarding.
pub const FIB_F_LOCAL: u32 = 0x2;
/// On-link / connected route — resolve the neighbor by the packet's
/// destination address rather than a gateway.
pub const FIB_F_CONNECTED: u32 = 0x4;
/// Multipath: `FibEntry.nexthop_id` is a *group* id (into the nexthop-group
/// maps), not a single nexthop. The data plane hashes the flow to pick a member.
pub const FIB_F_ECMP: u32 = 0x8;

// ------------------------- DIR-24-8 packed FIB word ------------------------

/// Packed DIR-24-8 slot — `FibEntry` compressed into 4 bytes so `TBL24`
/// stays at 64 MiB. Layout (bit 31 .. bit 0):
///
/// ```text
///   [31]     FIBW_VALID
///   [30]     FIBW_TBL8    — low bits are a TBL8 group index, not a nexthop
///   [29:26]  flags        — FIB_F_* (4 bits)
///   [25:0]   nexthop_id (or group index when FIBW_TBL8)
/// ```
pub type FibWord = u32;

pub const FIBW_VALID: u32 = 0x80000000;
pub const FIBW_TBL8: u32 = 0x40000000;
pub const FIBW_FLAGS_SHIFT: u32 = 26;
pub const FIBW_FLAGS_MASK: u32 = 0xf;
pub const FIBW_ID_MASK: u32 = 0x3ff_ffff;




/// Number of `TBL8` groups sized at load time in dir24 mode (each group is
/// 256 `FibWord` slots). One group is consumed per /24 that contains a
/// longer-than-/24 route.
pub const DIR24_TBL8_GROUPS: u32 = 4096;

/// `DP_CONFIG[0]` bits — datapath configuration word, written by user space.
/// Bit 0: the DIR-24-8 v4 engine is active (else the LPM trie).
pub const DPC_FIB4_DIR24: u32 = 0x1;
/// `DP_CONFIG[0]` bit 1: plain L3 forwarding only — the TC stage skips the L7,
/// NAT, conntrack and egress-policy steps.
pub const DPC_L3_ONLY: u32 = 0x2;

/// Member of a nexthop group, keyed by `(group_id, slot)` with a dense slot
/// index `0..count`. The value is a nexthop id (into the per-nexthop map).
/// The member count per group lives in a separate `group_id -> count` map.
#[derive(Clone, Copy, Debug, PartialEq, Eq)]
pub struct NhGroupKey {
    pub group_id: u32,
    pub slot: u32,
}

/// A single nexthop. Keyed by `nexthop_id`.
#[derive(Clone, Copy, Debug, PartialEq, Eq)]
pub struct NextHop {
    /// Gateway IPv4 (`u32::from_be_bytes(octets)`; `0` means on-link).
    pub gateway_v4: u32,
    /// Gateway IPv6 (network byte order).
    pub gateway_v6: [u8; 16],
    /// Output interface index.
    pub oif: u32,
    /// `NH_F_*` flags.
    pub flags: u32,
    /// MPLS out-label stack, index 0 = top/outermost. For a transit swap the
    /// swap value is `labels[0]`; for imposition the whole stack is
    /// pushed. Values are bare 20-bit labels (no TC/S/TTL bits).
    pub labels: [u32; MAX_LABELS],
    /// Number of valid entries in `labels`; 0 = no label operation.
    pub num_labels: u8,
    pub _pad: [u8; 3],
    /// Fast-reroute: the nexthop to use when this one's `oif` is down
    /// (`LINK_DOWN`), typically carrying a TI-LFA SRv6 repair (segs +
    /// `SRV6_ENCAP_MODE_INSERT`). 0 = unprotected.
    pub backup_id: u32,
}

pub const NH_F_V6: u32 = 0x1;
pub const NH_F_ONLINK: u32 = 0x2;
/// Nexthop imposes/swaps an MPLS label stack (`labels`/`num_labels`).
pub const NH_F_MPLS: u32 = 0x4;
/// Nexthop imposes an SRv6 encap (`SRV6_ENCAP[nexthop_id]`).
pub const NH_F_SRV6: u32 = 0x8;
/// Nexthop imposes a GTP-U encap (`GTP_ENCAP[nexthop_id]`) — outer IPv4 + UDP
/// (2152) + GTP-U(TEID) around the packet (draft-ietf-dmm-srv6-mobile-uplane
/// `GTP4.E`, the downlink toward a gNB / peer UPF).
pub const NH_F_GTP: u32 = 0x10;
/// Nexthop imposes a VXLAN L3 encap (`VXLAN_ENCAP[nexthop_id]`, symmetric IRB).
pub const NH_F_VXLAN: u32 = 0x20;
/// Pipe TTL model for label imposition: seed the label TTL with
/// `MPLS_PIPE_TTL` instead of the inner IP TTL.
pub const NH_F_MPLS_PIPE: u32 = 0x40;

/// Maximum out-label stack depth (bounds the datapath's parse/push loops for
/// the verifier). Covers SR-MPLS depths seen in practice; deeper is rejected
/// by the control plane.
pub const MAX_LABELS: usize = 3;

/// Neighbor (L2 resolution) key for IPv4: (interface, gateway/dst address).
#[derive(Clone, Copy, Debug, PartialEq, Eq)]
pub struct Neigh4Key {
    pub ifindex: u32,
    pub addr: u32,
}

/// Neighbor (L2 resolution) key for IPv6: (interface, gateway/dst address).
#[derive(Clone, Copy, Debug, PartialEq, Eq)]
pub struct Neigh6Key {
    pub ifindex: u32,
    pub addr: [u8; 16],
}

/// Per-VRF IPv4 LPM key: the VRF id prefixes the address, so one trie holds
/// every VRF table — a route `addr/len` in VRF `v` is inserted with
/// `prefix_len = 32 + len` (the VRF bits always match exactly).
#[derive(Clone, Copy, Debug, PartialEq, Eq)]
pub struct Vrf4Key {
    pub vrf_id: u32,
    pub addr: [u8; 4],
}

/// XDP→TC metadata: VRF context attached by the XDP MPLS stage when a
/// VPN-label decap selects a VRF table (`bpf_xdp_adjust_meta`; TC reads the
/// `data_meta..data` window). `magic` guards against foreign metadata.
#[derive(Clone, Copy, Debug, PartialEq, Eq)]
pub struct CradleXdpMeta {
    pub magic: u32,
    /// L3 decap (`XDP_META_MAGIC`): the VRF table for the inner IP lookup.
    /// L2 decap (`XDP_META_MAGIC_L2`): the bridge domain for the inner frame.
    pub vrf_id: u32,
}

/// L3 (`End.DT4/6/46`) decap: TC routes the inner IP packet in `vrf_id`.
pub const XDP_META_MAGIC: u32 = 0xC7AD_1E01;
/// L2 (`End.DT2U`) decap: TC bridges the inner Ethernet frame in `vrf_id`
/// (reused as the bridge domain), regardless of the underlay port's type.
pub const XDP_META_MAGIC_L2: u32 = 0xC7AD_1E02;
/// DX cross-connect metadata: `vrf_id` carries the *nexthop id* the TC
/// stage must forward the decapped packet to — no FIB lookup (End.DX4/DX6,
/// RFC 8986 §4.5/§4.4). XDP can't `bpf_redirect` toward a CE veth whose
/// peer runs no NAPI, so the skb-path TC redirect finishes the job.
pub const XDP_META_MAGIC_DX: u32 = 0xC7AD_1E03;
/// DX2 cross-connect metadata: `vrf_id` carries the *AC ifindex* the TC
/// stage must emit the decapped Ethernet frame out of — raw, no MAC
/// rewrite (End.DX2/DX2V, RFC 8986 §4.9/§4.10).
pub const XDP_META_MAGIC_DX2: u32 = 0xC7AD_1E04;
/// `End.Replicate` metadata: TC clones the still-encapsulated frame to the
/// segment's downstream branches.
pub const XDP_META_MAGIC_REPL: u32 = 0xC7AD_1E05;

/// Neighbor entry: the resolved destination MAC.
#[derive(Clone, Copy, Debug, PartialEq, Eq)]
pub struct NeighEntry {
    pub mac: [u8; 6],
    pub state: u8,
    pub _pad: u8,
}

pub const NEIGH_STATE_REACHABLE: u8 = 1;

// ============================== MPLS: label FIB =============================

/// Incoming-label map (ILM) entry: the operation applied to a frame whose top
/// label matched the `MPLS_FIB` key (the 20-bit label value in a `u32`).
///
/// Deliberately small — the out-label stack lives on the nexthop
/// (`NextHop.labels`), so one labeled nexthop is shared by every ILM entry
/// and IP route imposing the same stack.
#[derive(Clone, Copy, Debug, PartialEq, Eq)]
pub struct MplsEntry {
    /// Index into the `NEXTHOPS` map. For `MPLS_OP_SWAP` the nexthop's
    /// `labels[0]` is the swap value.
    pub nexthop_id: u32,
    /// VRF/table id for `MPLS_OP_POP_L3` disposition (0 = global).
    pub vrf_id: u32,
    /// `MPLS_OP_*`.
    pub op: u8,
    /// `MPLS_E_*` flags.
    pub flags: u8,
    pub _pad: [u8; 2],
}

/// Uniform TTL model (RFC 3443): a pop that exposes IP copies the label's TTL
/// into the IP header.
pub const MPLS_E_TTL_UNIFORM: u8 = 0x1;
/// Outer label TTL seeded by a pipe-model imposition (`NH_F_MPLS_PIPE`).
pub const MPLS_PIPE_TTL: u8 = 255;

/// Pop the incoming label, impose the nexthop's out-label stack, stay MPLS.
pub const MPLS_OP_SWAP: u8 = 0;
/// Pop to IP and forward (PHP-to-IP / L3VPN egress).
pub const MPLS_OP_POP_L3: u8 = 1;
/// Pop one label, forward the remaining (still labeled) stack.
pub const MPLS_OP_POP: u8 = 2;

// ============================== SRv6 =======================================

/// Local SID table entry (`SRV6_LOCALSID`, LPM by the IPv6 destination):
/// the behavior this node executes when a packet's DA matches the SID.
#[derive(Clone, Copy, Debug, PartialEq, Eq)]
pub struct LocalSid {
    /// `SRV6_BH_*` behavior.
    pub behavior: u8,
    /// `SRV6_FLAVOR_*` bitmask (RFC 8986 §4.16). PSP applies to
    /// End/End.X/uN/uA; USP/USD are honored for End/uN only (the End.X
    /// variants would need an adjacency-forward decap — not implemented).
    pub flavors: u8,
    pub _pad: [u8; 2],
    /// VRF/table id for `End.DT4/DT6/DT46` (0 = global).
    pub vrf_id: u32,
    /// Nexthop id for `End.X` / `uA` (adjacency cross-connect); 0 otherwise.
    pub nexthop_id: u32,
    /// uSID locator-block / node bit lengths (NEXT-C-SID shift).
    pub block_bits: u8,
    pub node_bits: u8,
    /// Function bit length. Only REPLACE-C-SID reads it: the replaced C-SID
    /// is `node_bits + fun_bits` wide (RFC 9800 LNFL, 16 or 32).
    pub fun_bits: u8,
    pub _pad2: [u8; 1],
}

// Endpoint behaviors (RFC 8986 + NEXT-C-SID / REPLACE-C-SID).
pub const SRV6_BH_END: u8 = 0;
pub const SRV6_BH_END_X: u8 = 1;
pub const SRV6_BH_END_DT4: u8 = 2;
pub const SRV6_BH_END_DT6: u8 = 3;
pub const SRV6_BH_END_DT46: u8 = 4;
/// `End.B6.Encaps` (RFC 8986 §4.13): the SRv6 Binding SID. Run the End walk
/// on the received SRH, then push a new outer IPv6 (+SRH) carrying the bound
/// SR Policy's segment list — `nexthop_id` points at the `SRV6_ENCAP` entry
/// holding it. Emits the Reduced form (§4.14) like `apply_hencap`.
pub const SRV6_BH_END_B6: u8 = 5;
pub const SRV6_BH_UN: u8 = 6;
/// `uA`: classic End.X adjacency at /128 (no NEXT-C-SID shift).
pub const SRV6_BH_UA: u8 = 7;
/// `uALib`: the compressed-carrier adjacency form — shift the uSID container,
/// then forward out the cross-connect adjacency (matched at a block+function
/// prefix, mid-carrier after a uN shift).
pub const SRV6_BH_UALIB: u8 = 8;
/// `End.DT2U`: decapsulate + unicast L2 (EVPN-over-SRv6) — the SID's `vrf_id`
/// carries the bridge domain the inner Ethernet frame is switched in.
pub const SRV6_BH_END_DT2U: u8 = 9;
/// `End.DT2M`: decapsulate + BUM L2 flood (EVPN-over-SRv6).
pub const SRV6_BH_END_DT2M: u8 = 10;
/// `End.M`: the egress-protection mirror (draft-ietf-rtgwg-srv6-egress-
/// protection). Decapsulate, then look the exposed packet's destination —
/// the *failed* egress PE's service SID — up in the mirror-context table
/// (`vrf_id` = the context id) via the `MIRROR` trie, reproducing that
/// egress's decap locally.
pub const SRV6_BH_END_M: u8 = 11;
/// `End with REPLACE-C-SID` (RFC 9800 §4.2.1): rewrite only the C-SID bits
/// of the DA from the packed container at `Segment List[SL]`, driven by the
/// index argument in the DA's last bits. Matched at a block+C-SID prefix.
pub const SRV6_BH_END_REP: u8 = 12;
/// `End.X with REPLACE-C-SID` (RFC 9800 §4.2.2): as `End` with REPLACE-C-SID,
/// then forward out the SID's cross-connect adjacency.
pub const SRV6_BH_END_X_REP: u8 = 13;
/// `End.T` (RFC 8986 §4.3): the End walk, then the egress lookup scoped to
/// the SID's table (`vrf_id`) via the XDP→TC metadata channel. A `uN` whose
/// `vrf_id` is set behaves the same at end-of-carrier — that is zebra's uT.
pub const SRV6_BH_END_T: u8 = 14;
/// `End.DX4` (RFC 8986 §4.5): decapsulate and cross-connect the inner IPv4
/// packet straight to the SID's adjacency (`nexthop_id`) — the per-CE VPN
/// form; no FIB lookup, no TTL decrement (the tunnel charged it at ingress).
pub const SRV6_BH_END_DX4: u8 = 15;
/// `End.DX6` (RFC 8986 §4.4): as `End.DX4` for an inner IPv6 packet.
pub const SRV6_BH_END_DX6: u8 = 16;
/// `End.DX2` (RFC 8986 §4.9): decapsulate and emit the inner **Ethernet
/// frame** raw out the attachment circuit — `vrf_id` carries the AC
/// ifindex. The EVPN VPWS (E-Line) egress; no FDB, no learning, no MAC
/// rewrite.
pub const SRV6_BH_END_DX2: u8 = 17;
/// `End.DX2V` (RFC 8986 §4.10): as `End.DX2`, but the inner frame's
/// 802.1Q VID selects the AC via the `DX2V` table — `vrf_id` is the
/// VLAN-table id.
pub const SRV6_BH_END_DX2V: u8 = 18;
/// `End.Replicate` (RFC 9524): clone the packet to the downstream branches of
/// the Replication segment the SID names (`REPL_SEG`).
pub const SRV6_BH_END_REPLICATE: u8 = 19;

/// SRv6 endpoint flavors (RFC 8986 §4.16), OR-able in `LocalSid::flavors`.
/// PSP: pop the SRH at the penultimate segment (this node's decrement hits
/// `SL == 0`), handing the last hop a clean packet.
pub const SRV6_FLAVOR_PSP: u8 = 1;
/// USP: pop the exhausted SRH (`SL == 0` on arrival) before local delivery.
pub const SRV6_FLAVOR_USP: u8 = 2;
/// USD: decapsulate the outer IPv6 (+SRH) at the ultimate segment and
/// forward the inner packet (main-table lookup).
pub const SRV6_FLAVOR_USD: u8 = 4;

/// Mirror-context LPM key (`MIRROR`): the protected egress's SID space,
/// scoped by the End.M SID's context id — a route `addr/len` in context
/// `c` is inserted with `prefix_len = 32 + len` (like `Vrf6Key`).
#[derive(Clone, Copy, Debug, PartialEq, Eq)]
pub struct MirrorKey {
    pub ctx: u32,
    pub addr: [u8; 16],
}

/// Mirror-context entry: how to reproduce the failed egress's behavior —
/// a DT-style decap into a local table.
#[derive(Clone, Copy, Debug, PartialEq, Eq)]
pub struct MirrorEntry {
    /// `SRV6_BH_END_DT4/DT6/DT46` semantics applied to the exposed packet.
    pub behavior: u8,
    pub _pad: [u8; 3],
    /// Local VRF table the inner packet is looked up in.
    pub vrf_id: u32,
}

/// `DX2V` VLAN-table key (RFC 8986 §4.10): the End.DX2V SID's table id
/// (`LocalSid::vrf_id`) plus the inner frame's 802.1Q VID.
#[derive(Clone, Copy, Debug, PartialEq, Eq, Hash)]
pub struct Dx2vKey {
    pub table: u32,
    pub vid: u16,
    pub _pad: [u8; 2],
}

/// Maximum SIDs in an imposed segment list (bounds the encap/SRH loops).
pub const MAX_SEGS: usize = 6;

/// Segment list imposed by an `NH_F_SRV6` nexthop (`SRV6_ENCAP`, keyed by
/// nexthop id — SIDs are 16 bytes, too big to inline on `NextHop`).
#[derive(Clone, Copy, Debug, PartialEq, Eq)]
pub struct Srv6Encap {
    /// 1 = reduced single-SID (no SRH); >1 = SRH carried.
    pub num_segs: u8,
    /// `SRV6_ENCAP_MODE_*`: how the segments are imposed.
    pub mode: u8,
    pub _pad: [u8; 2],
    /// `[0]` = first SID = the outer destination.
    pub segs: [[u8; 16]; MAX_SEGS],
}

/// H.Encaps / H.Encaps.Red — outer IPv6 (+SRH when >1 seg) around the packet.
pub const SRV6_ENCAP_MODE_ENCAPS: u8 = 0;
/// H.Insert — insert an SRH into the *existing* IPv6 packet: the original
/// destination rides as the SRH's final segment and takes over at SL 0
/// (TI-LFA repair; RFC 8986 §5.2 deprecated-but-deployed form). v6-only.
pub const SRV6_ENCAP_MODE_INSERT: u8 = 2;

/// GTP-U tunnel imposed by an `NH_F_GTP` nexthop (`GTP_ENCAP`, keyed by nexthop
/// id — the side table to `NEXTHOPS`, mirroring `Srv6Encap`). The downlink
/// `GTP4.E` behaviour wraps the (v4 or v6) inner packet in an outer IPv4 header,
/// UDP dport 2152, and an 8-byte GTP-U G-PDU header carrying `teid`. Addresses
/// and TEID are stored as their on-wire bytes so the datapath writes them
/// directly (no endianness juggling).
#[derive(Clone, Copy, Debug, PartialEq, Eq)]
pub struct GtpEncap {
    /// Outer IPv4 source — the local N3/N9 tunnel address (wire bytes).
    pub src: [u8; 4],
    /// Outer IPv4 destination — the peer (gNB / peer UPF) tunnel address.
    pub dst: [u8; 4],
    /// GTP-U TEID, big-endian wire bytes.
    pub teid: [u8; 4],
    /// QFI for a PDU Session Container extension header; 0 = none (the MVP
    /// writes a plain G-PDU and ignores this).
    pub qfi: u8,
    pub _pad: [u8; 3],
}

/// GTP-U decap match (a PDR), keyed exactly by the local tunnel endpoint +
/// TEID a received G-PDU carries — the `GTP_PDR` hash probed in XDP before the
/// FIB, mirroring the role of `SRV6_LOCALSID`. The `H.M.GTP4.D`-style uplink:
/// a G-PDU on `(dst, teid)` is stripped and the inner packet forwarded in
/// `vrf_id`.
#[derive(Clone, Copy, Debug, PartialEq, Eq)]
pub struct GtpPdrKey {
    /// Local outer IPv4 destination the G-PDU arrived on (wire bytes).
    pub dst: [u8; 4],
    /// GTP-U TEID, big-endian wire bytes (as read off the packet).
    pub teid: [u8; 4],
}

/// The action bound to a [`GtpPdrKey`]: forward the decapped inner packet in
/// this VRF table (0 = global), handed to TC via `CradleXdpMeta` exactly like
/// an `End.DT*` decap.
#[derive(Clone, Copy, Debug, PartialEq, Eq)]
pub struct GtpPdr {
    pub vrf_id: u32,
}

/// EVPN/VXLAN L2VNI binding — the decap direction of the VNI ↔ bridge-domain
/// mapping (`VNI_INFO[vni]`; the encap direction is the `VLAN_VNI` map). A
/// received VXLAN frame's VNI selects the bridge domain its inner Ethernet
/// frame is switched in; an L3VNI (symmetric IRB) routes it in `vrf_id`.
#[derive(Clone, Copy, Debug, PartialEq, Eq)]
pub struct VniInfo {
    /// Access bridge domain of this L2VNI.
    pub vlan: u16,
    /// `VNI_F_*` flags.
    pub flags: u16,
    /// VRF table an L3VNI's inner packets are routed in.
    pub vrf_id: u32,
    /// This PE's router MAC for the L3VNI.
    pub rmac: [u8; 6],
    pub _pad: [u8; 2],
}

/// The VNI is an L3VNI: route the inner packet in `vrf_id` instead of
/// bridging the inner frame.
pub const VNI_F_L3: u16 = 0x1;

/// Symmetric-IRB VXLAN encapsulation imposed by an `NH_F_VXLAN` nexthop
/// (`VXLAN_ENCAP`, keyed by nexthop id).
#[derive(Clone, Copy, Debug, PartialEq, Eq)]
pub struct VxlanEncap {
    /// Remote VTEP IPv4, wire bytes.
    pub vtep: [u8; 4],
    /// L3VNI stamped into the VXLAN header.
    pub l3vni: u32,
    /// The remote PE's router MAC (inner destination MAC).
    pub rmac: [u8; 6],
    pub _pad: [u8; 2],
}

/// A BUM ingress-replication slot's target — the remote PE one flooded copy
/// is tunneled toward, by overlay kind (the `REPL_SID` map's value).
#[derive(Clone, Copy, Debug, PartialEq, Eq)]
pub struct ReplTarget {
    /// `REPL_KIND_*`. The zero value is SRv6, preserving the pre-`ReplTarget`
    /// semantic of the map.
    pub kind: u32,
    /// L2VNI stamped into the outer header (`REPL_KIND_VXLAN` only; 0 for
    /// SRv6, where the remote SID implies the bridge domain).
    pub vni: u32,
    /// `REPL_KIND_SRV6`: the remote `End.DT2M` SID. `REPL_KIND_VXLAN`: the
    /// remote VTEP IPv4, v4-mapped (bytes 12..16 are the wire address).
    pub addr: [u8; 16],
}

/// [`ReplTarget::addr`] is a remote `End.DT2M` SID (MAC-in-SRv6 per copy).
pub const REPL_KIND_SRV6: u32 = 0;
/// [`ReplTarget::addr`] is a remote VTEP IPv4 (VXLAN per copy, `vni` set).
pub const REPL_KIND_VXLAN: u32 = 1;

/// Maximum downstream branches of a Replication segment.
pub const MAX_REPL_BRANCHES: usize = 8;

/// One downstream branch of a Replication segment (RFC 9524).
#[derive(Clone, Copy, Debug, PartialEq, Eq)]
pub struct ReplBranch {
    /// Downstream Replication-SID the copy is steered to.
    pub sid: [u8; 16],
    /// Underlay nexthop id (0 = resolve by a FIB6 lookup on `sid`).
    pub nexthop_id: u32,
    /// Leaf veth of a local (Bud) branch.
    pub local_oif: u32,
    /// `REPL_BRANCH_*` flags.
    pub flags: u32,
}

/// The branch delivers locally: clone toward `local_oif` untouched.
pub const REPL_BRANCH_LOCAL: u32 = 0x1;

/// A Replication segment (`REPL_SEG`, keyed by the local Replication SID).
#[derive(Clone, Copy, Debug, PartialEq, Eq)]
pub struct ReplSeg {
    /// Valid entries of `branches`.
    pub n_branches: u32,
    /// Packets whose Hop Limit is below this are discarded.
    pub hop_limit_threshold: u8,
    pub _pad: [u8; 3],
    pub branches: [ReplBranch; MAX_REPL_BRANCHES],
}

/// Per-VRF IPv6 LPM key — the v6 mirror of `Vrf4Key`: a route `addr/len` in
/// VRF `v` is inserted with `prefix_len = 32 + len`.
#[derive(Clone, Copy, Debug, PartialEq, Eq)]
pub struct Vrf6Key {
    pub vrf_id: u32,
    pub addr: [u8; 16],
}



// ============================ L2: switching / FDB ==========================

/// Forwarding-database key: destination MAC within a VLAN/bridge domain.
#[derive(Clone, Copy, Debug, PartialEq, Eq)]
pub struct FdbKey {
    pub mac: [u8; 6],
    pub vlan: u16,
}

#[derive(Clone, Copy, Debug, PartialEq, Eq)]
pub struct FdbEntry {
    /// Local egress ifindex; for an `FDB_F_REMOTE` entry this is instead the
    /// underlay nexthop id used to reach `remote_sid`.
    pub oif: u32,
    pub flags: u32,
    /// EVPN-over-SRv6 overlay target: the remote PE's `End.DT2U` service SID
    /// this MAC sits behind (`FDB_F_REMOTE` only; zero otherwise).
    pub remote_sid: [u8; 16],
    /// `bpf_ktime_get_ns()` of the last frame that learned/refreshed this
    /// entry (local learns only; 0 on control-plane-installed entries).
    /// The user-space aging sweep expires idle local entries against it.
    pub last_seen: u64,
}

/// This MAC is one of ours — punt the frame up to L3 / the host stack.
pub const FDB_F_LOCAL: u32 = 0x1;
/// This MAC is behind an SRv6 overlay: `remote_sid` is its `End.DT2U` SID and
/// `oif` is the underlay nexthop id (EVPN over SRv6).
pub const FDB_F_REMOTE: u32 = 0x2;
/// This MAC is behind a VXLAN overlay (set together with `FDB_F_REMOTE`):
/// `remote_sid` holds the remote VTEP's IPv4 v4-mapped (`::ffff:a.b.c.d` —
/// bytes 12..16 are the wire address) and `oif` is the underlay nexthop id
/// (0 = resolve by FIB4 lookup on the VTEP).
pub const FDB_F_VXLAN: u32 = 0x4;

/// Membership of an L2 (VLAN/bridge) domain — enumerates the ports a BUM or
/// unknown-unicast frame is flooded to. Keyed by `(vlan, slot)` where `slot` is
/// a dense index `0..count` (the count is held in a separate per-VLAN map).
#[derive(Clone, Copy, Debug, PartialEq, Eq)]
pub struct L2MemberKey {
    pub vlan: u16,
    pub slot: u16,
}

/// Per-port configuration (keyed by ifindex), shared by the L2 and L3 stages.
#[derive(Clone, Copy, Debug, PartialEq, Eq)]
pub struct PortConfig {
    /// This interface's MAC — used as the source MAC when the L3 stage forwards
    /// a packet *out* of this port.
    pub mac: [u8; 6],
    /// Access/PVID VLAN for L2 ports.
    pub vlan: u16,
    /// `PORT_F_*` flags.
    pub flags: u32,
    /// VRF table this L3 port belongs to (0 = global): ingress lookups use
    /// the per-VRF FIB instead of the global one.
    pub vrf_id: u32,
}

/// Participate in L2 switching.
pub const PORT_F_L2: u32 = 0x1;
/// Routed (L3) port.
pub const PORT_F_L3: u32 = 0x2;
/// A pod endpoint's host-side veth: packets arriving here are pod egress —
/// tracked in `PCT` so replies pass ingress policy (stateful semantics).
pub const PORT_F_ENDPOINT: u32 = 0x4;

// ============================ network policy ===============================

/// Reserved identity: the node itself (kubelet probes etc.). Follows
/// Cilium's reserved numbering.
pub const IDENTITY_HOST: u32 = 1;
/// Reserved identity: any source with no `IDENTITY` entry.
pub const IDENTITY_WORLD: u32 = 2;

/// Policy rule direction: traffic delivered *to* the endpoint.
pub const POLICY_DIR_INGRESS: u8 = 0;
/// Policy rule direction: traffic initiated *by* the endpoint.
pub const POLICY_DIR_EGRESS: u8 = 1;
/// `PolicyKey.dir` bit 1: the rule's A/B generation. Policy replacement
/// inserts the new rule set under the flipped generation, then atomically
/// switches the endpoint via the `EP_F_GEN` bit — packets never see a
/// half-replaced table.
pub const POLICY_KEY_GEN: u8 = 0x2;

/// `EP_POLICY` value bit: enforce ingress rules for this endpoint.
pub const EP_F_INGRESS: u8 = 0x1;
/// `EP_POLICY` value bit: enforce egress rules for this endpoint.
pub const EP_F_EGRESS: u8 = 0x2;
/// `EP_POLICY` value bit: audit mode — denied verdicts are counted and
/// reported (Hubble) but the packet is forwarded.
pub const EP_F_AUDIT: u8 = 0x4;
/// `EP_POLICY` value bit: the endpoint's active rule generation
/// (`POLICY_KEY_GEN` in the keys that apply).
pub const EP_F_GEN: u8 = 0x8;

/// `PCT` value: flow initiated by the local pod (recorded at pod egress,
/// pre-NAT) — its replies bypass the pod's ingress policy.
pub const PCT_POD_INITIATED: u8 = 1;
/// `PCT` value: admitted flow initiated from outside the pod (recorded at
/// ingress delivery, post-NAT) — its replies bypass the pod's egress policy.
pub const PCT_INBOUND: u8 = 2;

/// VRF-scoped identity key: tenants may reuse addresses, so "who is
/// talking" is `(vrf, ip)`.
/// VRF 0 is the global table — single-tenant deployments never see another.
#[derive(Clone, Copy, Debug, PartialEq, Eq)]
pub struct VrfIdKey {
    pub vrf_id: u32,
    /// IPv4, map-encoded (memory order).
    pub addr: u32,
}

/// v6 sibling of `VrfIdKey`.
#[derive(Clone, Copy, Debug, PartialEq, Eq)]
pub struct VrfId6Key {
    pub vrf_id: u32,
    pub addr: [u8; 16],
}

/// `POLICY` value: allow the matched traffic.
pub const POLICY_ALLOW: u8 = 1;
/// `POLICY` value: deny the matched traffic. Deny wins over allow at *any*
/// specificity (Cilium deny-rule semantics): the verdict walks all probes,
/// returns denied on the first deny hit, and otherwise allows iff some
/// probe hit an allow.
pub const POLICY_DENY: u8 = 2;

/// Policy allow-rule key: `(endpoint oif, peer identity, proto, dport,
/// direction)`. The peer is the source for ingress rules and the destination
/// for egress rules. `identity`, `proto`, and `port` may each be 0 =
/// wildcard; the datapath probes most-specific-first.
/// Present in `POLICY` ⇒ allow.
#[derive(Clone, Copy, Debug, PartialEq, Eq, Hash)]
pub struct PolicyKey {
    /// The enforced endpoint: the pod's host-side veth ifindex.
    pub ep: u32,
    /// Peer identity (label-set hash; 1 = host, 2 = world, 0 = any).
    pub identity: u32,
    /// Destination L4 port, network byte order (0 = any).
    pub port: u16,
    /// IP protocol (0 = any).
    pub proto: u8,
    /// Bit 0: `POLICY_DIR_*`; bit 1: `POLICY_KEY_GEN` (A/B generation).
    pub dir: u8,
}

// ======================= L4: load balancing / conntrack ====================

/// Service frontend (VIP:port/proto).
#[derive(Clone, Copy, Debug, PartialEq, Eq)]
pub struct ServiceKey {
    /// VIP, memory order (as loaded off the wire).
    pub vip: u32,
    /// Port, network byte order.
    pub port: u16,
    /// IP protocol (TCP/UDP).
    pub proto: u8,
    pub _pad: u8,
}

#[derive(Clone, Copy, Debug, PartialEq, Eq)]
pub struct ServiceInfo {
    pub backend_count: u16,
    /// `LB_ALGO_*`.
    pub lb_algo: u8,
    pub flags: u8,
    /// Namespaces the backend slots in the `BACKENDS` map.
    pub svc_id: u32,
}

pub const LB_ALGO_RANDOM: u8 = 0;
pub const LB_ALGO_MAGLEV: u8 = 1;

/// `ServiceInfo.flags`: `sessionAffinity: ClientIP` — a client sticks to one
/// backend (see `AFFINITY`).
pub const SVC_F_AFFINITY: u8 = 0x1;

/// Session-affinity map key: (service, client IPv4).
#[derive(Clone, Copy, Debug, PartialEq, Eq)]
pub struct AffinityKey {
    pub svc_id: u32,
    /// Client IPv4, map-encoded.
    pub client: u32,
}

/// Session-affinity value: the sticky backend slot + last-use timestamp.
#[derive(Clone, Copy, Debug, PartialEq, Eq)]
pub struct AffinityVal {
    pub slot: u16,
    pub _pad: u16,
    pub last_ns: u64,
}

/// ClientIP affinity idle timeout (Kubernetes default 10800s = 3h), in ns.
pub const AFFINITY_TIMEOUT_NS: u64 = 10_800_000_000_000;

/// Backend slot key: (svc_id, slot).
#[derive(Clone, Copy, Debug, PartialEq, Eq)]
pub struct BackendKey {
    pub svc_id: u32,
    pub slot: u16,
    pub _pad: u16,
}

#[derive(Clone, Copy, Debug, PartialEq, Eq)]
pub struct Backend {
    pub addr: u32,
    pub port: u16,
    pub flags: u16,
}

/// Connection-tracking key: a normalised IPv4 5-tuple.
#[derive(Clone, Copy, Debug, PartialEq, Eq)]
pub struct CtKey {
    pub src: u32,
    pub dst: u32,
    pub src_port: u16,
    pub dst_port: u16,
    pub proto: u8,
    pub _pad: [u8; 3],
}

#[derive(Clone, Copy, Debug, PartialEq, Eq)]
pub struct CtEntry {
    /// Reverse-NAT / chosen-backend target.
    pub rev_addr: u32,
    pub rev_port: u16,
    /// `CT_F_*`.
    pub flags: u16,
    /// `bpf_ktime_get_ns()` of last packet.
    pub last_seen: u64,
}

/// Rewrite the destination to `(rev_addr, rev_port)` (forward / DNAT direction).
pub const CT_F_DNAT: u16 = 0x1;
/// Rewrite the source to `(rev_addr, rev_port)` (reverse / SNAT direction).
pub const CT_F_SNAT: u16 = 0x2;

// --- L4 IPv6 (mirrors the IPv4 types with 16-byte addresses) ---

/// IPv6 service frontend (VIP:port/proto).
#[derive(Clone, Copy, Debug, PartialEq, Eq)]
pub struct ServiceKey6 {
    pub vip: [u8; 16],
    pub port: u16,
    pub proto: u8,
    pub _pad: u8,
}

#[derive(Clone, Copy, Debug, PartialEq, Eq)]
pub struct Backend6 {
    pub addr: [u8; 16],
    pub port: u16,
    pub flags: u16,
}

/// Connection-tracking key: a normalised IPv6 5-tuple. (Reuses `ServiceInfo`
/// and `BackendKey` from the v4 types — those are address-family agnostic.)
#[derive(Clone, Copy, Debug, PartialEq, Eq)]
pub struct CtKey6 {
    pub src: [u8; 16],
    pub dst: [u8; 16],
    pub src_port: u16,
    pub dst_port: u16,
    pub proto: u8,
    pub _pad: [u8; 3],
}

#[derive(Clone, Copy, Debug, PartialEq, Eq)]
pub struct CtEntry6 {
    pub rev_addr: [u8; 16],
    pub rev_port: u16,
    /// `CT_F_*`.
    pub flags: u16,
    pub last_seen: u64,
}

// ============================ observability stats ==========================

// Indices into the per-CPU `STATS` array (u64 packet counters), bumped at each
// datapath decision point.
pub const STAT_L2_FORWARD: u32 = 0;
pub const STAT_L2_FLOOD: u32 = 1;
pub const STAT_L3V4_FORWARD: u32 = 2;
pub const STAT_L3V6_FORWARD: u32 = 3;
pub const STAT_L3_LOCAL: u32 = 4;
pub const STAT_L4_DNAT: u32 = 5;
pub const STAT_L4_SNAT: u32 = 6;
pub const STAT_DROP: u32 = 7;
pub const STAT_L7_REDIRECT: u32 = 8;
pub const STAT_MPLS_SWAP: u32 = 9;
pub const STAT_MPLS_POP: u32 = 10;
/// Label stack imposed (ingress LER push).
pub const STAT_MPLS_PUSH: u32 = 11;
/// DIR-24-8: resolved in one `TBL24` lookup.
pub const STAT_FIB4_TBL24_HIT: u32 = 12;
/// DIR-24-8: resolved through a `TBL8` group (two lookups).
pub const STAT_FIB4_TBL8_HIT: u32 = 13;
/// DIR-24-8: fell through to the `DEFAULT4` route.
pub const STAT_FIB4_DEFAULT: u32 = 14;
/// Resolved in a per-VRF FIB table.
pub const STAT_FIB4_VRF_HIT: u32 = 15;
/// SRv6: outer IPv6 imposed (ingress PE, H.Encaps).
pub const STAT_SRV6_ENCAP: u32 = 16;
/// SRv6: End.DT* decapsulation (egress PE).
pub const STAT_SRV6_DECAP: u32 = 17;
/// Resolved in a per-VRF IPv6 FIB table.
pub const STAT_FIB6_VRF_HIT: u32 = 18;
/// SRv6: End / End.X segment transit (Segments Left walk).
pub const STAT_SRV6_END: u32 = 19;
/// SRv6 uSID: uN NEXT-C-SID transit (micro-SID container shift).
pub const STAT_SRV6_USID: u32 = 20;
/// EVPN over SRv6: MAC-in-SRv6 L2 encapsulation (ingress PE).
pub const STAT_SRV6_L2_ENCAP: u32 = 21;
/// EVPN over SRv6: `End.DT2U`/`End.DT2M` L2 decapsulation (egress PE).
pub const STAT_SRV6_L2_DECAP: u32 = 22;
/// EVPN over SRv6: BUM (broadcast/multicast/unknown) MAC-in-SRv6 encap toward
/// the bridge domain's `End.DT2M` SID (ingress PE).
pub const STAT_SRV6_L2_BUM: u32 = 23;
/// FDB entries expired by the user-space aging sweep (idle local MACs).
pub const STAT_FDB_AGED: u32 = 24;
/// SRv6 H.Insert impositions (TI-LFA repair onto the backup path).
pub const STAT_SRV6_HINSERT: u32 = 25;
/// Forwards that switched to a backup nexthop (primary's link down).
pub const STAT_NH_BACKUP: u32 = 26;
/// `End.M` mirror decaps (egress protection served on the protector).
pub const STAT_SRV6_ENDM: u32 = 27;
/// PSP flavor pops (SRH removed at the penultimate segment).
pub const STAT_SRV6_PSP: u32 = 28;
/// USP flavor pops (exhausted SRH removed before local delivery).
pub const STAT_SRV6_USP: u32 = 29;
/// USD flavor decaps (outer IPv6+SRH removed, inner forwarded).
pub const STAT_SRV6_USD: u32 = 30;
/// REPLACE-C-SID transits (C-SID rewrite or container-to-container advance).
pub const STAT_SRV6_REPLACE: u32 = 31;
/// End.B6.Encaps binds (inner End walk + policy encapsulation pushed).
pub const STAT_SRV6_B6: u32 = 32;
/// End.T table-scoped forwards (the End walk's lookup moved to table T).
pub const STAT_SRV6_ENDT: u32 = 33;
/// End.DX4/DX6 decap + cross-connect forwards (per-CE VPN egress).
pub const STAT_SRV6_DX: u32 = 34;
/// GTP-U encaps (`GTP4.E`: outer IPv4+UDP+GTP-U imposed on a downlink packet).
pub const STAT_GTP_ENCAP: u32 = 35;
/// GTP-U decaps (`H.M.GTP4.D`: a G-PDU stripped, inner forwarded in its VRF).
pub const STAT_GTP_DECAP: u32 = 36;
/// End.DX2/DX2V decaps (EVPN VPWS egress — frame emitted raw on the AC).
pub const STAT_SRV6_DX2: u32 = 37;
/// Ingress network-policy drops (enforced endpoint, no PCT/POLICY match).
pub const STAT_POLICY_DROP: u32 = 38;
/// Egress masquerade: a pod→outside-the-cluster flow SNAT'd to the node IP.
pub const STAT_MASQ: u32 = 39;
/// Policy verdicts that would have dropped but the endpoint is in audit
/// mode (`EP_F_AUDIT`) — the packet was forwarded.
pub const STAT_POLICY_AUDIT: u32 = 40;
/// EVPN/VXLAN: outer Eth+IPv4+UDP+VXLAN imposed on an L2 frame (ingress VTEP).
pub const STAT_VXLAN_ENCAP: u32 = 41;
/// EVPN/VXLAN: outer encapsulation stripped, inner frame bridged (egress VTEP).
pub const STAT_VXLAN_DECAP: u32 = 42;
/// EVPN/VXLAN: BUM (broadcast/multicast/unknown) frame VXLAN-encapsulated
/// toward a remote VTEP (sentinel tunnel or ingress-replication copy).
pub const STAT_VXLAN_FLOOD: u32 = 43;
/// SRv6 `End.Replicate` fan-outs (RFC 9524).
pub const STAT_SRV6_REPLICATE: u32 = 44;
/// Plain IPv4 forwards completed in XDP (the L3-only program).
pub const STAT_XDP_L3_FWD: u32 = 45;
/// Number of stat slots (the `STATS` map's `max_entries`).
pub const STAT_MAX: u32 = 46;

// ====================== Hubble flow events ==================================

/// Flow verdicts, mapped in user space to the Hubble `Verdict` enum.
pub const FLOW_FORWARDED: u8 = 1;
pub const FLOW_DROPPED: u8 = 2;
pub const FLOW_TRANSLATED: u8 = 3;
/// Denied by policy but forwarded — the endpoint is in audit mode.
pub const FLOW_AUDITED: u8 = 4;

/// Traffic direction (Hubble `TrafficDirection`).
pub const FLOW_DIR_UNKNOWN: u8 = 0;
pub const FLOW_DIR_INGRESS: u8 = 1;
pub const FLOW_DIR_EGRESS: u8 = 2;

/// A datapath flow event pushed onto the `FLOWS` ring buffer at a forwarding
/// verdict point (H1 = IPv4). User space enriches it into a Hubble `Flow`.
/// `saddr`/`daddr` are the network-order octets as loaded; `sport`/`dport`
/// are network-order 16-bit (user space applies `u16::from_be`).
#[derive(Clone, Copy, Debug, PartialEq, Eq)]
pub struct FlowRecord {
    /// `bpf_ktime_get_ns()` when the verdict was reached.
    pub time_ns: u64,
    /// The local pod endpoint's host-veth ifindex (0 = none) — enrichment key.
    pub ep_ifindex: u32,
    pub saddr: [u8; 4],
    pub daddr: [u8; 4],
    pub sport: u16,
    pub dport: u16,
    pub proto: u8,
    /// `FLOW_FORWARDED` / `FLOW_DROPPED` / `FLOW_TRANSLATED` / `FLOW_AUDITED`.
    pub verdict: u8,
    /// `FLOW_DIR_*`.
    pub dir: u8,
    pub _pad: u8,
    /// Policy verdicts (`FLOW_DROPPED`/`FLOW_AUDITED` from the policy
    /// engine): the peer identity the rules were matched against (source
    /// identity for ingress, destination for egress). 0 = not a policy
    /// verdict / unknown.
    pub peer_identity: u32,
}

// ============================== L7 proxy ===================================

/// TCP port the user-space L7 proxy listens on (transparently). The eBPF
/// datapath steers L7-marked service flows to this local listener via
/// `bpf_sk_assign`.
pub const L7_PROXY_PORT: u16 = 18000;

} // verus!
