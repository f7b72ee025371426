//! The configuration tables the packet stages read. The control plane fills
//! them; the stages never write them.

use vstd::prelude::*;
use crate::bytes;
use crate::lpm::Lpm;
use crate::table::{Key, Table};
use crate::types::{
    AffinityKey, Backend, Backend6, BackendKey, CtKey, CtKey6, Dx2vKey, FdbKey, FibEntry, FibWord,
    GtpEncap, GtpPdr, GtpPdrKey, L2MemberKey, LocalSid, MirrorEntry, MplsEntry, Neigh4Key,
    Neigh6Key, NeighEntry, NextHop, NhGroupKey, PolicyKey, PortConfig, ReplSeg, ReplTarget,
    ServiceInfo, ServiceKey, ServiceKey6, Srv6Encap, VniInfo, VrfId6Key, VrfIdKey, VxlanEncap,
};

verus! {

/// Every read-only table of the data plane.
pub struct Tables {
    /// Per-port configuration, by ifindex.
    pub ports: Table<u32, PortConfig>,
    pub fib4: Lpm<FibEntry>,
    pub fib6: Lpm<FibEntry>,
    /// Per-VRF routes: keys are the VRF id (memory order) then the address.
    pub fib4_vrf: Lpm<FibEntry>,
    pub fib6_vrf: Lpm<FibEntry>,
    /// Local SIDs, probed before the IPv6 FIB.
    pub srv6_localsid: Lpm<LocalSid>,
    /// Segment lists by nexthop id.
    pub srv6_encap: Table<u32, Srv6Encap>,
    /// Source address of imposed outer IPv6 headers.
    pub srv6_encap_src: [u8; 16],
    pub gtp_encap: Table<u32, GtpEncap>,
    pub gtp_pdr: Table<GtpPdrKey, GtpPdr>,
    /// Encap direction: the VNI of a bridge domain.
    pub vlan_vni: Table<u16, u32>,
    /// Decap direction: the bridge domain or VRF of a VNI.
    pub vni_info: Table<u32, VniInfo>,
    /// Local VTEP IPv4, wire bytes; all-zero = VXLAN unconfigured.
    pub vxlan_src: [u8; 4],
    pub vxlan_encap: Table<u32, VxlanEncap>,
    /// Per-instance cookie folded into the XDP→TC metadata magic: metadata
    /// inherited from another instance fails the check and is ignored.
    pub meta_cookie: u32,
    /// DIR-24-8 engine: one slot per /24, group slots, the default route.
    pub tbl24: Vec<FibWord>,
    pub tbl8: Vec<FibWord>,
    pub default4: FibWord,
    /// `DPC_*` bits.
    pub dp_config: u32,
    pub nexthops: Table<u32, NextHop>,
    /// Links that are down (present = down).
    pub link_down: Table<u32, u8>,
    /// Member count of a nexthop group.
    pub nhgroup: Table<u32, u32>,
    pub nhgroup_member: Table<NhGroupKey, u32>,
    pub neigh4: Table<Neigh4Key, NeighEntry>,
    pub neigh6: Table<Neigh6Key, NeighEntry>,
    /// Incoming-label map, by the 20-bit top label.
    pub mpls_fib: Table<u32, MplsEntry>,
    /// BUM ingress-replication slots, by either veth end's ifindex.
    pub repl_sid: Table<u32, ReplTarget>,
    /// Replication segments, by local Replication SID.
    pub repl_seg: Table<[u8; 16], ReplSeg>,
    /// VPWS attachment circuits: AC ifindex to remote service SID.
    pub xconnect: Table<u32, [u8; 16]>,
    /// VLAN-scoped attachment circuits: (AC ifindex, VID) to remote SID.
    pub xconnect_vlan: Table<Dx2vKey, [u8; 16]>,
    /// `End.DX2V` VLAN table: (table id, VID) to AC ifindex.
    pub dx2v: Table<Dx2vKey, u32>,
    /// Mirror contexts: keys are the context id (memory order) then the SID.
    pub mirror: Lpm<MirrorEntry>,
    pub l2_members: Table<L2MemberKey, u32>,
    pub l2_count: Table<u16, u32>,
    pub services: Table<ServiceKey, ServiceInfo>,
    pub backends: Table<BackendKey, Backend>,
    pub services6: Table<ServiceKey6, ServiceInfo>,
    pub backends6: Table<BackendKey, Backend6>,
    /// Services steered to the user-space proxy.
    pub l7_services: Table<ServiceKey, u8>,
    /// Peer identities: exact bindings, then CIDR bindings.
    pub identity: Table<VrfIdKey, u32>,
    pub cidr_id: Lpm<u32>,
    pub identity6: Table<VrfId6Key, u32>,
    pub cidr_id6: Lpm<u32>,
    /// Enforced endpoints: `EP_F_*` bits by host-veth ifindex.
    pub ep_policy: Table<u32, u8>,
    pub policy: Table<PolicyKey, u8>,
    /// This node's uplink IPv4 (memory order); 0 = masquerade disabled.
    pub masq_node: u32,
    /// CIDRs never masqueraded.
    pub non_masq: Lpm<u8>,
    /// Addresses of the sessions for which this node originates BFD Echo.
    pub our_local_ips: Table<u32, u8>,
    pub our_local_ips_v6: Table<[u8; 16], u8>,
}

/// Longest-prefix key of an address scoped by a VRF or context id.
pub open spec fn scoped(id: u32, addr: Seq<u8>) -> Seq<u8> {
    bytes::le32_bytes(id) + addr
}

/// Longest-prefix key of an address scoped by a VRF or context id.
pub fn scoped_key(id: u32, addr: &[u8]) -> (r: Vec<u8>)
    ensures
        r@ == scoped(id, addr@),
{
    let mut v: Vec<u8> = Vec::new();
    let head = bytes::to_le32(id);
    bytes::put(&mut v, head.as_slice());
    bytes::put(&mut v, addr);
    assert(v@ =~= scoped(id, addr@));
    v
}

impl Tables {
    /// Tables with nothing configured.
    pub fn new() -> (r: Self)
        ensures
            r.ports@ == Map::<u32, PortConfig>::empty(),
            r.fib4@.len() == 0,
            r.fib6@.len() == 0,
            r.fib4_vrf@.len() == 0,
            r.fib6_vrf@.len() == 0,
            r.srv6_localsid@.len() == 0,
            r.srv6_encap@ == Map::<u32, Srv6Encap>::empty(),
            r.srv6_encap_src@ == Seq::new(16, |i: int| 0u8),
            r.gtp_encap@ == Map::<u32, GtpEncap>::empty(),
            r.gtp_pdr@ == Map::<GtpPdrKey, GtpPdr>::empty(),
            r.vlan_vni@ == Map::<u16, u32>::empty(),
            r.vni_info@ == Map::<u32, VniInfo>::empty(),
            r.vxlan_src@ == Seq::new(4, |i: int| 0u8),
            r.vxlan_encap@ == Map::<u32, VxlanEncap>::empty(),
            r.meta_cookie == 0,
            r.tbl24@.len() == 0,
            r.tbl8@.len() == 0,
            r.default4 == 0,
            r.dp_config == 0,
            r.nexthops@ == Map::<u32, NextHop>::empty(),
            r.link_down@ == Map::<u32, u8>::empty(),
            r.nhgroup@ == Map::<u32, u32>::empty(),
            r.nhgroup_member@ == Map::<NhGroupKey, u32>::empty(),
            r.neigh4@ == Map::<Neigh4Key, NeighEntry>::empty(),
            r.neigh6@ == Map::<Neigh6Key, NeighEntry>::empty(),
            r.mpls_fib@ == Map::<u32, MplsEntry>::empty(),
            r.repl_sid@ == Map::<u32, ReplTarget>::empty(),
            r.repl_seg@ == Map::<[u8; 16], ReplSeg>::empty(),
            r.xconnect@ == Map::<u32, [u8; 16]>::empty(),
            r.xconnect_vlan@ == Map::<Dx2vKey, [u8; 16]>::empty(),
            r.dx2v@ == Map::<Dx2vKey, u32>::empty(),
            r.mirror@.len() == 0,
            r.l2_members@ == Map::<L2MemberKey, u32>::empty(),
            r.l2_count@ == Map::<u16, u32>::empty(),
            r.services@ == Map::<ServiceKey, ServiceInfo>::empty(),
            r.backends@ == Map::<BackendKey, Backend>::empty(),
            r.services6@ == Map::<ServiceKey6, ServiceInfo>::empty(),
            r.backends6@ == Map::<BackendKey, Backend6>::empty(),
            r.l7_services@ == Map::<ServiceKey, u8>::empty(),
            r.identity@ == Map::<VrfIdKey, u32>::empty(),
            r.cidr_id@.len() == 0,
            r.identity6@ == Map::<VrfId6Key, u32>::empty(),
            r.cidr_id6@.len() == 0,
            r.ep_policy@ == Map::<u32, u8>::empty(),
            r.policy@ == Map::<PolicyKey, u8>::empty(),
            r.masq_node == 0,
            r.non_masq@.len() == 0,
            r.our_local_ips@ == Map::<u32, u8>::empty(),
            r.our_local_ips_v6@ == Map::<[u8; 16], u8>::empty(),
    {
        Tables {
            ports: Table::new(),
            fib4: Lpm::new(),
            fib6: Lpm::new(),
            fib4_vrf: Lpm::new(),
            fib6_vrf: Lpm::new(),
            srv6_localsid: Lpm::new(),
            srv6_encap: Table::new(),
            srv6_encap_src: [0u8; 16],
            gtp_encap: Table::new(),
            gtp_pdr: Table::new(),
            vlan_vni: Table::new(),
            vni_info: Table::new(),
            vxlan_src: [0u8; 4],
            vxlan_encap: Table::new(),
            meta_cookie: 0,
            tbl24: Vec::new(),
            tbl8: Vec::new(),
            default4: 0,
            dp_config: 0,
            nexthops: Table::new(),
            link_down: Table::new(),
            nhgroup: Table::new(),
            nhgroup_member: Table::new(),
            neigh4: Table::new(),
            neigh6: Table::new(),
            mpls_fib: Table::new(),
            repl_sid: Table::new(),
            repl_seg: Table::new(),
            xconnect: Table::new(),
            xconnect_vlan: Table::new(),
            dx2v: Table::new(),
            mirror: Lpm::new(),
            l2_members: Table::new(),
            l2_count: Table::new(),
            services: Table::new(),
            backends: Table::new(),
            services6: Table::new(),
            backends6: Table::new(),
            l7_services: Table::new(),
            identity: Table::new(),
            cidr_id: Lpm::new(),
            identity6: Table::new(),
            cidr_id6: Lpm::new(),
            ep_policy: Table::new(),
            policy: Table::new(),
            masq_node: 0,
            non_masq: Lpm::new(),
            our_local_ips: Table::new(),
            our_local_ips_v6: Table::new(),
        }
    }

    /// Test a datapath-config bit (e.g. `DPC_L3_ONLY`).
    pub fn dpc(&self, flag: u32) -> (r: bool)
        ensures
            r == (self.dp_config & flag != 0),
    {
        self.dp_config & flag != 0
    }
}

impl Key for FdbKey {
    fn same(&self, other: &Self) -> (r: bool) {
        self.vlan == other.vlan && bytes::same6(&self.mac, &other.mac)
    }
}

impl Key for GtpPdrKey {
    fn same(&self, other: &Self) -> (r: bool) {
        bytes::same4(&self.dst, &other.dst) && bytes::same4(&self.teid, &other.teid)
    }
}

impl Key for NhGroupKey {
    fn same(&self, other: &Self) -> (r: bool) {
        self.group_id == other.group_id && self.slot == other.slot
    }
}

impl Key for Neigh4Key {
    fn same(&self, other: &Self) -> (r: bool) {
        self.ifindex == other.ifindex && self.addr == other.addr
    }
}

impl Key for Neigh6Key {
    fn same(&self, other: &Self) -> (r: bool) {
        self.ifindex == other.ifindex && bytes::same16(&self.addr, &other.addr)
    }
}

impl Key for Dx2vKey {
    fn same(&self, other: &Self) -> (r: bool) {
        self.table == other.table && self.vid == other.vid && bytes::same2(&self._pad, &other._pad)
    }
}

impl Key for L2MemberKey {
    fn same(&self, other: &Self) -> (r: bool) {
        self.vlan == other.vlan && self.slot == other.slot
    }
}

impl Key for ServiceKey {
    fn same(&self, other: &Self) -> (r: bool) {
        self.vip == other.vip && self.port == other.port && self.proto == other.proto && self._pad
            == other._pad
    }
}

impl Key for ServiceKey6 {
    fn same(&self, other: &Self) -> (r: bool) {
        bytes::same16(&self.vip, &other.vip) && self.port == other.port && self.proto
            == other.proto && self._pad == other._pad
    }
}

impl Key for BackendKey {
    fn same(&self, other: &Self) -> (r: bool) {
        self.svc_id == other.svc_id && self.slot == other.slot && self._pad == other._pad
    }
}

impl Key for AffinityKey {
    fn same(&self, other: &Self) -> (r: bool) {
        self.svc_id == other.svc_id && self.client == other.client
    }
}

impl Key for VrfIdKey {
    fn same(&self, other: &Self) -> (r: bool) {
        self.vrf_id == other.vrf_id && self.addr == other.addr
    }
}

impl Key for VrfId6Key {
    fn same(&self, other: &Self) -> (r: bool) {
        self.vrf_id == other.vrf_id && bytes::same16(&self.addr, &other.addr)
    }
}

impl Key for PolicyKey {
    fn same(&self, other: &Self) -> (r: bool) {
        self.ep == other.ep && self.identity == other.identity && self.port == other.port
            && self.proto == other.proto && self.dir == other.dir
    }
}

impl Key for CtKey {
    fn same(&self, other: &Self) -> (r: bool) {
        self.src == other.src && self.dst == other.dst && self.src_port == other.src_port
            && self.dst_port == other.dst_port && self.proto == other.proto && bytes::same3(
            &self._pad,
            &other._pad,
        )
    }
}

impl Key for CtKey6 {
    fn same(&self, other: &Self) -> (r: bool) {
        bytes::same16(&self.src, &other.src) && bytes::same16(&self.dst, &other.dst)
            && self.src_port == other.src_port && self.dst_port == other.dst_port && self.proto
            == other.proto && bytes::same3(&self._pad, &other._pad)
    }
}

} // verus!
