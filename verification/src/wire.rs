//! Frame offsets, EtherTypes, protocol numbers and ports of the headers the
//! stages read and write.

use vstd::prelude::*;

verus! {

pub const ETH_P_IP: u16 = 0x0800;
pub const ETH_P_IPV6: u16 = 0x86dd;
pub const ETH_P_MPLS_UC: u16 = 0x8847;
/// 802.1Q tagged frame.
pub const ETH_P_8021Q: u16 = 0x8100;

pub const ETH_DST_OFF: usize = 0;
pub const ETH_SRC_OFF: usize = 6;
pub const ETH_TYPE_OFF: usize = 12;

pub const IP_VER_IHL_OFF: usize = 14;
pub const IP_TTL_OFF: usize = 22;
pub const IP_PROTO_OFF: usize = 23;
pub const IP_CSUM_OFF: usize = 24;
pub const IP_SRC_OFF: usize = 26;
pub const IP_DST_OFF: usize = 30;
/// L4 header start, assuming no IPv4 options (IHL == 5).
pub const L4_OFF: usize = 34;

pub const IP6_PAYLOAD_LEN_OFF: usize = 18;
pub const IP6_NEXTHDR_OFF: usize = 20;
pub const IP6_HOP_OFF: usize = 21;
pub const IP6_SRC_OFF: usize = 22;
pub const IP6_DST_OFF: usize = 38;
/// L4 header start for IPv6, assuming no extension headers.
pub const IP6_L4_OFF: usize = 54;
pub const IP6_HDR_LEN: usize = 40;

/// Outer SRH start.
pub const SRH_OFF: usize = 54;
/// Segments Left byte.
pub const SRH_SL_OFF: usize = 57;
/// Last Entry byte.
pub const SRH_LAST_ENTRY_OFF: usize = 58;
/// First segment entry.
pub const SRH_SEGLIST_OFF: usize = 62;

/// Offset of the top MPLS label stack entry.
pub const MPLS_LSE_OFF: usize = 14;

/// Inner IPv4.
pub const IPPROTO_IPIP: u8 = 4;
pub const IPPROTO_TCP: u8 = 6;
pub const IPPROTO_UDP: u8 = 17;
/// Inner IPv6.
pub const IPPROTO_IPV6: u8 = 41;
/// IPv6 Routing header (the SRH is type 4).
pub const IPPROTO_ROUTING: u8 = 43;
/// Inner Ethernet frame (EVPN over SRv6).
pub const IPPROTO_ETHERNET: u8 = 143;

/// GTP-U over UDP port (3GPP TS 29.281).
pub const GTP_PORT: u16 = 2152;
/// Bytes a `GTP4.E` encap pushes: outer IPv4(20) + UDP(8) + GTP-U G-PDU(8).
pub const GTP_ENCAP_HDR_LEN: usize = 36;
/// Offset of the inner packet in a received no-options G-PDU.
pub const GTP_INNER_OFF: usize = 50;
/// VXLAN over UDP port (RFC 7348).
pub const VXLAN_PORT: u16 = 4789;
/// Bytes a VXLAN encap pushes: outer Eth(14) + IPv4(20) + UDP(8) + VXLAN(8).
pub const VXLAN_ENCAP_HDR_LEN: usize = 50;
/// Offset of the VXLAN header in a received no-options VXLAN frame.
pub const VXLAN_HDR_OFF: usize = 42;
/// BFD Echo (RFC 5881) destination port: reflected.
pub const BFD_ECHO_PORT: u16 = 3785;
/// BFD single-hop control destination port: observed and passed.
pub const BFD_CTRL_PORT: u16 = 3784;

/// `bpf_l4_csum_replace` flag: the change is in the pseudo-header.
pub const BPF_F_PSEUDO_HDR: u64 = 16;
/// `bpf_l4_csum_replace` flag: a zero checksum stays zero (UDP).
pub const BPF_F_MARK_MANGLED_0: u64 = 32;

/// Upper bound on flood fan-out per VLAN.
pub const MAX_L2_MEMBERS: u16 = 64;

} // verus!
