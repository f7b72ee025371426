use cradle::bfd::detect_timeout;
use cradle::bytes::{ld_be16, ld_be32, to_be16, to_be32};
use cradle::fib::{dir24_lookup, ecmp_member, flow_hash_v4, flow_hash_v6, resolve_l2, resolve_nh};
use cradle::frame::{DetectState, TimerKind, TimerStart, Xdp, XdpAct};
use cradle::skb::{CsumFix, Tc, TcAct};
use cradle::tables::Tables;
use cradle::tc::{cradle_egress, cradle_tc, l7_lookups};
use cradle::types::{
    Backend, Backend6, BackendKey, CradleXdpMeta, CtKey, CtKey6, Dx2vKey, FdbEntry, FdbKey,
    FibEntry, GtpEncap, GtpPdr, GtpPdrKey, L2MemberKey, LocalSid, MirrorEntry, MplsEntry,
    Neigh4Key, Neigh6Key, NeighEntry, NextHop, NhGroupKey, PolicyKey, PortConfig, ReplBranch,
    ReplSeg, ReplTarget, ServiceInfo, ServiceKey, ServiceKey6, Srv6Encap, VniInfo, VrfIdKey,
    VxlanEncap, DPC_FIB4_DIR24, DPC_L3_ONLY, EP_F_AUDIT, EP_F_EGRESS, EP_F_GEN, EP_F_INGRESS,
    FDB_F_LOCAL, FDB_F_REMOTE, FDB_F_VXLAN, FIBW_TBL8, FIB_F_BLACKHOLE, FIB_F_CONNECTED,
    FIB_F_ECMP, FIB_F_LOCAL, FLOW_AUDITED, FLOW_DIR_EGRESS, FLOW_DROPPED, FLOW_FORWARDED,
    IDENTITY_WORLD, MPLS_E_TTL_UNIFORM, MPLS_OP_POP, MPLS_OP_POP_L3, MPLS_OP_SWAP, NH_F_GTP,
    NH_F_MPLS, NH_F_SRV6, NH_F_V6, NH_F_VXLAN, PCT_POD_INITIATED, POLICY_ALLOW, POLICY_DENY,
    POLICY_DIR_EGRESS, POLICY_DIR_INGRESS, POLICY_KEY_GEN, PORT_F_ENDPOINT, PORT_F_L2,
    PORT_F_L3, REPL_BRANCH_LOCAL, REPL_KIND_SRV6, SRV6_BH_END, SRV6_BH_END_DT2U,
    SRV6_BH_END_DT4, SRV6_BH_END_DX2, SRV6_BH_END_DX2V, SRV6_BH_END_DX4, SRV6_BH_END_B6,
    SRV6_BH_END_M, SRV6_BH_END_REP, SRV6_BH_END_REPLICATE, SRV6_BH_END_T, SRV6_BH_END_X,
    SRV6_BH_UN, SRV6_ENCAP_MODE_INSERT, SRV6_FLAVOR_PSP, SRV6_FLAVOR_USD, STAT_DROP,
    STAT_FIB4_DEFAULT, STAT_FIB4_TBL24_HIT, STAT_FIB4_TBL8_HIT, STAT_GTP_DECAP, STAT_GTP_ENCAP,
    STAT_L2_FLOOD, STAT_L2_FORWARD, STAT_L3V4_FORWARD, STAT_L3V6_FORWARD, STAT_L3_LOCAL,
    STAT_L4_DNAT, STAT_L4_SNAT, STAT_L7_REDIRECT, STAT_MASQ, STAT_MPLS_POP, STAT_MPLS_PUSH,
    STAT_MPLS_SWAP, STAT_NH_BACKUP, STAT_POLICY_AUDIT, STAT_POLICY_DROP, STAT_SRV6_B6,
    STAT_SRV6_DECAP, STAT_SRV6_DX2, STAT_SRV6_ENCAP, STAT_SRV6_END, STAT_SRV6_ENDM,
    STAT_SRV6_HINSERT, STAT_SRV6_L2_DECAP, STAT_SRV6_L2_ENCAP, STAT_SRV6_PSP, STAT_SRV6_REPLACE,
    STAT_SRV6_REPLICATE, STAT_SRV6_USD, STAT_SRV6_USID, STAT_VXLAN_DECAP, STAT_VXLAN_ENCAP,
    STAT_XDP_L3_FWD, SVC_F_AFFINITY, VNI_F_L3, XDP_META_MAGIC, XDP_META_MAGIC_DX,
    XDP_META_MAGIC_DX2, XDP_META_MAGIC_L2, XDP_META_MAGIC_REPL,
};
use cradle::words::{fibw_entry, fibw_group, mpls_lse};
use cradle::xdp::{cradle_xdp, cradle_xdp_l3};

// -------------------------------------------------------------------- frames

const MAC_A: [u8; 6] = [2, 0, 0, 0, 0, 0xa];
const MAC_B: [u8; 6] = [2, 0, 0, 0, 0, 0xb];
const MAC_GW: [u8; 6] = [2, 0, 0, 0, 0, 0x1];
const MAC_OUT: [u8; 6] = [2, 0, 0, 0, 0, 0x2];

fn eth(dst: [u8; 6], src: [u8; 6], et: u16) -> Vec<u8> {
    let mut v = dst.to_vec();
    v.extend_from_slice(&src);
    v.extend_from_slice(&et.to_be_bytes());
    v
}

/// Ones'-complement sum of the 16-bit words.
fn ones_sum(b: &[u8]) -> u16 {
    let mut s: u32 = 0;
    let mut i = 0;
    while i < b.len() {
        let hi = b[i] as u32;
        let lo = if i + 1 < b.len() { b[i + 1] as u32 } else { 0 };
        s += hi * 256 + lo;
        i += 2;
    }
    while s > 0xffff {
        s = (s & 0xffff) + (s >> 16);
    }
    s as u16
}

fn ip4(src: [u8; 4], dst: [u8; 4], proto: u8, ttl: u8, payload: &[u8]) -> Vec<u8> {
    let len = 20 + payload.len() as u16;
    let mut h = vec![0x45, 0, (len >> 8) as u8, len as u8, 0, 0, 0, 0, ttl, proto, 0, 0];
    h.extend_from_slice(&src);
    h.extend_from_slice(&dst);
    let c = !ones_sum(&h);
    h[10] = (c >> 8) as u8;
    h[11] = c as u8;
    h.extend_from_slice(payload);
    h
}

fn ip6(src: [u8; 16], dst: [u8; 16], nh: u8, hop: u8, payload: &[u8]) -> Vec<u8> {
    let len = payload.len() as u16;
    let mut h = vec![0x60, 0, 0, 0, (len >> 8) as u8, len as u8, nh, hop];
    h.extend_from_slice(&src);
    h.extend_from_slice(&dst);
    h.extend_from_slice(payload);
    h
}

fn udp(sport: u16, dport: u16, payload: &[u8]) -> Vec<u8> {
    let mut v = sport.to_be_bytes().to_vec();
    v.extend_from_slice(&dport.to_be_bytes());
    v.extend_from_slice(&(8 + payload.len() as u16).to_be_bytes());
    v.extend_from_slice(&[0, 0]);
    v.extend_from_slice(payload);
    v
}

fn tcp(sport: u16, dport: u16) -> Vec<u8> {
    let mut v = sport.to_be_bytes().to_vec();
    v.extend_from_slice(&dport.to_be_bytes());
    v.extend_from_slice(&[0; 16]);
    v
}

fn cat(a: &[u8], b: &[u8]) -> Vec<u8> {
    let mut v = a.to_vec();
    v.extend_from_slice(b);
    v
}

fn v4_frame(src: [u8; 4], dst: [u8; 4], ttl: u8, proto: u8, l4: &[u8]) -> Vec<u8> {
    cat(&eth(MAC_A, MAC_B, 0x0800), &ip4(src, dst, proto, ttl, l4))
}

fn addr6(last: u8) -> [u8; 16] {
    let mut a = [0u8; 16];
    a[0] = 0xfd;
    a[15] = last;
    a
}

const CLIENT: [u8; 4] = [192, 168, 0, 9];
const SERVER: [u8; 4] = [10, 0, 2, 7];
const VIP: [u8; 4] = [10, 96, 0, 10];
const NODE: [u8; 4] = [172, 18, 0, 2];

fn word(a: [u8; 4]) -> u32 {
    u32::from_le_bytes(a)
}

fn wire_port(p: u16) -> u16 {
    u16::from_le_bytes(p.to_be_bytes())
}

fn nexthop(oif: u32) -> NextHop {
    NextHop {
        gateway_v4: 0,
        gateway_v6: [0; 16],
        oif,
        flags: 0,
        labels: [0; 3],
        num_labels: 0,
        _pad: [0; 3],
        backup_id: 0,
    }
}

fn port(flags: u32, vlan: u16, mac: [u8; 6]) -> PortConfig {
    PortConfig { mac, vlan, flags, vrf_id: 0 }
}

/// Interface 1 is routed, 2 is the way out; everything goes to nexthop 5.
fn routed() -> Tables {
    let mut t = Tables::new();
    t.ports.put(1, port(PORT_F_L3, 0, MAC_A));
    t.ports.put(2, port(PORT_F_L3, 0, MAC_OUT));
    t.fib4.put(vec![0, 0, 0, 0], 0, FibEntry { nexthop_id: 5, flags: 0 });
    t.fib6.put(vec![0; 16], 0, FibEntry { nexthop_id: 6, flags: 0 });
    let mut nh = nexthop(2);
    nh.gateway_v4 = 0x0a00_0001;
    t.nexthops.put(5, nh);
    let mut nh6 = nexthop(2);
    nh6.flags = NH_F_V6;
    nh6.gateway_v6 = addr6(1);
    t.nexthops.put(6, nh6);
    let gw = NeighEntry { mac: MAC_GW, state: 1, _pad: 0 };
    t.neigh4.put(Neigh4Key { ifindex: 2, addr: 0x0a00_0001 }, gw);
    t.neigh6.put(Neigh6Key { ifindex: 2, addr: addr6(1) }, gw);
    t
}

fn tc_on(iif: u32, data: Vec<u8>) -> Tc {
    let mut c = Tc::new(data);
    c.iif = iif;
    c.ifindex = iif;
    c.room = 256;
    c
}

fn xdp_on(iif: u32, data: Vec<u8>) -> Xdp {
    let mut x = Xdp::new(data);
    x.iif = iif;
    x.headroom = 256;
    x.meta_room = true;
    x
}

#[test]
fn network_order_reads_back() {
    let v = to_be32(0x0102_0304).to_vec();
    assert_eq!(v, vec![1, 2, 3, 4]);
    assert_eq!(ld_be32(&v, 0), Ok(0x0102_0304));
    assert_eq!(ld_be16(&to_be16(0xabcd).to_vec(), 0), Ok(0xabcd));
    assert_eq!(ld_be16(&v, 3), Err(()));
}

// ------------------------------------------------------------------- routing

#[test]
fn routed_packet_is_charged_and_sent() {
    let t = routed();
    let frame = v4_frame(CLIENT, SERVER, 64, 17, &udp(1000, 2000, &[]));
    let mut c = tc_on(1, frame.clone());
    c.flow_cap = 4;
    assert_eq!(cradle_tc(&t, &mut c), TcAct::Neigh4 { oif: 2, nh4: [10, 0, 0, 1] });
    let mut want = frame;
    want[22] = 63;
    assert_eq!(c.data, want);
    // TTL and protocol as one memory-order word.
    assert_eq!(
        c.fixes,
        vec![CsumFix { l4: false, off: 24, from: 17 * 256 + 64, to: 17 * 256 + 63, flags: 2 }]
    );
    assert_eq!(c.stats, vec![STAT_L3V4_FORWARD]);
    assert_eq!(c.flows.len(), 1);
    assert_eq!(c.flows[0].saddr, CLIENT);
    assert_eq!(c.flows[0].daddr, SERVER);
    assert_eq!((c.flows[0].sport, c.flows[0].dport), (wire_port(1000), wire_port(2000)));
    assert_eq!(c.flows[0].verdict, FLOW_FORWARDED);
    assert_eq!(c.flows[0].ep_ifindex, 2);
}

#[test]
fn connected_route_sends_to_the_destination() {
    let mut t = routed();
    t.fib4.put(vec![10, 0, 2, 0], 24, FibEntry { nexthop_id: 7, flags: 0 });
    t.nexthops.put(7, nexthop(2));
    let mut c = tc_on(1, v4_frame(CLIENT, SERVER, 64, 1, &[0; 8]));
    assert_eq!(cradle_tc(&t, &mut c), TcAct::Neigh4 { oif: 2, nh4: SERVER });
    // A route marked as connected ignores its nexthop's gateway.
    t.fib4.put(vec![10, 0, 2, 0], 24, FibEntry { nexthop_id: 5, flags: FIB_F_CONNECTED });
    let mut c = tc_on(1, v4_frame(CLIENT, SERVER, 64, 1, &[0; 8]));
    assert_eq!(cradle_tc(&t, &mut c), TcAct::Neigh4 { oif: 2, nh4: SERVER });
    t.fib6.put(vec![0; 16], 0, FibEntry { nexthop_id: 6, flags: FIB_F_CONNECTED });
    let v6 = cat(&eth(MAC_A, MAC_B, 0x86dd), &ip6(addr6(9), addr6(7), 59, 64, &[]));
    let mut c = tc_on(1, v6);
    assert_eq!(cradle_tc(&t, &mut c), TcAct::Neigh6 { oif: 2, nh6: addr6(7) });
}

#[test]
fn xdp_sends_a_connected_route_to_the_destination() {
    let mut t = routed();
    t.tbl24 = vec![0; 0x0a_0003];
    t.tbl24[0x0a_0002] = fibw_entry(5, FIB_F_CONNECTED);
    let frame = v4_frame(CLIENT, SERVER, 64, 17, &udp(1, 2, &[]));
    // The gateway's neighbor does not count.
    let mut x = xdp_on(1, frame.clone());
    assert_eq!(cradle_xdp_l3(&t, &mut x), XdpAct::Pass);
    assert_eq!(x.data, frame);
    // The destination's does.
    let peer = NeighEntry { mac: MAC_B, state: 1, _pad: 0 };
    t.neigh4.put(Neigh4Key { ifindex: 2, addr: u32::from_be_bytes(SERVER) }, peer);
    let mut x = xdp_on(1, frame.clone());
    assert_eq!(cradle_xdp_l3(&t, &mut x), XdpAct::Redirect(2));
    assert_eq!(x.data[0..6], MAC_B);
    assert_eq!(x.data[6..12], MAC_OUT);
    assert_eq!(x.data[22], 63);
    assert_eq!(ones_sum(&x.data[14..34]), 0xffff);
    // Without the mark the gateway is asked for.
    t.tbl24[0x0a_0002] = fibw_entry(5, 0);
    let mut x = xdp_on(1, frame);
    assert_eq!(cradle_xdp_l3(&t, &mut x), XdpAct::Redirect(2));
    assert_eq!(x.data[0..6], MAC_GW);
}

#[test]
fn routes_that_do_not_forward() {
    let mut t = routed();
    t.fib4.put(vec![10, 0, 2, 7], 32, FibEntry { nexthop_id: 5, flags: FIB_F_BLACKHOLE });
    t.fib4.put(vec![10, 0, 3, 0], 24, FibEntry { nexthop_id: 0, flags: FIB_F_LOCAL });
    let mut c = tc_on(1, v4_frame(CLIENT, SERVER, 64, 1, &[0; 8]));
    assert_eq!(cradle_tc(&t, &mut c), TcAct::Shot);
    assert_eq!(c.stats, vec![STAT_DROP]);
    let mut c = tc_on(1, v4_frame(CLIENT, [10, 0, 3, 1], 64, 1, &[0; 8]));
    assert_eq!(cradle_tc(&t, &mut c), TcAct::Pipe);
    assert_eq!(c.stats, vec![STAT_L3_LOCAL]);
    // An expiring packet is left to the host, untouched.
    let dying = v4_frame(CLIENT, [9, 9, 9, 9], 1, 1, &[0; 8]);
    let mut c = tc_on(1, dying.clone());
    assert_eq!(cradle_tc(&t, &mut c), TcAct::Pipe);
    assert_eq!(c.data, dying);
    // No route, an unmanaged port, a truncated packet: the host's.
    let empty = Tables::new();
    let mut c = tc_on(1, v4_frame(CLIENT, SERVER, 64, 1, &[0; 8]));
    assert_eq!(cradle_tc(&empty, &mut c), TcAct::Pipe);
    let mut c = tc_on(1, eth(MAC_A, MAC_B, 0x0800));
    assert_eq!(cradle_tc(&t, &mut c), TcAct::Pipe);
    let mut c = tc_on(1, vec![1, 2, 3]);
    assert_eq!(cradle_tc(&t, &mut c), TcAct::Pipe);
}

#[test]
fn longest_prefix_is_taken() {
    let mut t = routed();
    for (p, bits, id) in [([10, 0, 0, 0], 8, 10), ([10, 0, 2, 0], 23, 11), ([10, 0, 2, 4], 30, 12)] {
        t.fib4.put(p.to_vec(), bits, FibEntry { nexthop_id: id, flags: 0 });
        t.nexthops.put(id, nexthop(id));
    }
    let oif = |dst: [u8; 4]| {
        let mut c = tc_on(1, v4_frame(CLIENT, dst, 64, 1, &[0; 8]));
        match cradle_tc(&t, &mut c) {
            TcAct::Neigh4 { oif, .. } => oif,
            _ => 0,
        }
    };
    assert_eq!(oif([10, 0, 2, 7]), 12);
    assert_eq!(oif([10, 0, 3, 1]), 11);
    assert_eq!(oif([10, 9, 9, 9]), 10);
    assert_eq!(oif([11, 0, 0, 1]), 2);
}

#[test]
fn vrf_comes_from_port_or_decapsulation() {
    let mut t = routed();
    t.meta_cookie = 0x55;
    let key = |vrf: u32| cat(&vrf.to_le_bytes(), &[0, 0, 0, 0]);
    t.fib4_vrf.put(key(7), 32, FibEntry { nexthop_id: 8, flags: 0 });
    t.nexthops.put(8, nexthop(9));
    let mut c = tc_on(1, v4_frame(CLIENT, SERVER, 64, 1, &[0; 8]));
    c.meta = Some(CradleXdpMeta { magic: XDP_META_MAGIC ^ 0x55, vrf_id: 7 });
    assert_eq!(cradle_tc(&t, &mut c), TcAct::Neigh4 { oif: 9, nh4: SERVER });
    // Another instance's metadata is ignored.
    let mut c = tc_on(1, v4_frame(CLIENT, SERVER, 64, 1, &[0; 8]));
    c.meta = Some(CradleXdpMeta { magic: XDP_META_MAGIC ^ 0x66, vrf_id: 7 });
    assert_eq!(cradle_tc(&t, &mut c), TcAct::Neigh4 { oif: 2, nh4: [10, 0, 0, 1] });
    // A port's own binding wins.
    let mut p = port(PORT_F_L3, 0, MAC_A);
    p.vrf_id = 7;
    t.ports.put(1, p);
    let mut c = tc_on(1, v4_frame(CLIENT, SERVER, 64, 1, &[0; 8]));
    assert_eq!(cradle_tc(&t, &mut c), TcAct::Neigh4 { oif: 9, nh4: SERVER });
    // A VRF sees neither another's routes nor the global ones.
    p.vrf_id = 8;
    t.ports.put(1, p);
    let mut c = tc_on(1, v4_frame(CLIENT, SERVER, 64, 1, &[0; 8]));
    assert_eq!(cradle_tc(&t, &mut c), TcAct::Pipe);
}

#[test]
fn dir24_tables_are_walked() {
    let mut t = Tables::new();
    t.tbl24 = vec![0, fibw_entry(4, 0), fibw_group(1), fibw_group(0)];
    t.tbl8 = vec![0; 512];
    t.tbl8[256 + 9] = fibw_entry(5, 0);
    assert_eq!(dir24_lookup(&t, [0, 0, 1, 77]), Some((fibw_entry(4, 0), STAT_FIB4_TBL24_HIT)));
    assert_eq!(dir24_lookup(&t, [0, 0, 2, 9]), Some((fibw_entry(5, 0), STAT_FIB4_TBL8_HIT)));
    assert_eq!(dir24_lookup(&t, [0, 0, 2, 8]), None);
    assert_eq!(dir24_lookup(&t, [0, 0, 0, 1]), None);
    t.default4 = fibw_entry(6, 0);
    assert_eq!(dir24_lookup(&t, [0, 0, 0, 1]), Some((fibw_entry(6, 0), STAT_FIB4_DEFAULT)));
    assert_ne!(t.tbl24[2] & FIBW_TBL8, 0);
    // The engine serves the lookup when it is switched on.
    t.dp_config = DPC_FIB4_DIR24;
    t.ports.put(1, port(PORT_F_L3, 0, MAC_A));
    t.nexthops.put(4, nexthop(2));
    let mut c = tc_on(1, v4_frame(CLIENT, [0, 0, 1, 77], 64, 1, &[0; 8]));
    assert_eq!(cradle_tc(&t, &mut c), TcAct::Neigh4 { oif: 2, nh4: [0, 0, 1, 77] });
    assert_eq!(c.stats, vec![STAT_FIB4_TBL24_HIT, STAT_L3V4_FORWARD]);
}

#[test]
fn equal_paths_keep_a_flow_together() {
    let mut t = routed();
    t.fib4.put(vec![10, 0, 0, 0], 8, FibEntry { nexthop_id: 70, flags: FIB_F_ECMP });
    t.nhgroup.put(70, 2);
    for s in 0..2u32 {
        t.nhgroup_member.put(NhGroupKey { group_id: 70, slot: s }, 80 + s);
        t.nexthops.put(80 + s, nexthop(100 + s));
    }
    let oif = |sport: u16| {
        let mut c = tc_on(1, v4_frame(CLIENT, SERVER, 64, 17, &udp(sport, 53, &[])));
        match cradle_tc(&t, &mut c) {
            TcAct::Neigh4 { oif, .. } => oif,
            _ => 0,
        }
    };
    let mut seen = vec![];
    for sport in 1000..1064 {
        let o = oif(sport);
        assert_eq!(o, oif(sport));
        assert!(o == 100 || o == 101);
        seen.push(o);
    }
    assert!(seen.contains(&100) && seen.contains(&101));
    // The member is the flow's hash, by the number of members.
    let f = v4_frame(CLIENT, SERVER, 64, 17, &udp(1000, 53, &[]));
    let h = flow_hash_v4(&f, word(CLIENT), word(SERVER));
    assert_eq!(h, 0x7aa0_7ab0);
    assert_eq!(ecmp_member(&t, 70, h), Some(80 + h % 2));
    assert_eq!(ecmp_member(&t, 71, h), None);
    // A protocol without ports is hashed by its addresses alone.
    let ping = |byte: u8| flow_hash_v4(
        &v4_frame(CLIENT, SERVER, 64, 1, &[byte; 8]),
        word(CLIENT),
        word(SERVER),
    );
    assert_eq!(ping(0), ping(9));
    // An IPv6 flow's hash takes neither the hop limit nor the payload in.
    for (hop, payload) in [(64, 0), (9, 7)] {
        let l4 = udp(1000, 53, &[payload]);
        let f6 = cat(&eth(MAC_A, MAC_B, 0x86dd), &ip6(addr6(9), addr6(7), 17, hop, &l4));
        assert_eq!(flow_hash_v6(&f6, &addr6(9), &addr6(7)), 0x3fab_5eda);
    }
}

#[test]
fn failed_link_uses_the_backup() {
    let mut t = routed();
    let mut nh = nexthop(2);
    nh.backup_id = 8;
    t.nexthops.put(5, nh);
    t.nexthops.put(8, nexthop(3));
    t.link_down.put(2, 1);
    let mut c = tc_on(1, v4_frame(CLIENT, SERVER, 64, 1, &[0; 8]));
    assert_eq!(cradle_tc(&t, &mut c), TcAct::Neigh4 { oif: 3, nh4: SERVER });
    assert_eq!(c.stats, vec![STAT_NH_BACKUP, STAT_L3V4_FORWARD]);
    let mut c = Tc::new(vec![]);
    assert_eq!(resolve_nh(&t, &mut c, 999), None);
}

#[test]
fn ipv6_is_forwarded() {
    let t = routed();
    let frame = cat(&eth(MAC_A, MAC_B, 0x86dd), &ip6(addr6(9), addr6(20), 17, 64, &udp(1, 2, &[])));
    let mut c = tc_on(1, frame.clone());
    assert_eq!(cradle_tc(&t, &mut c), TcAct::Neigh6 { oif: 2, nh6: addr6(1) });
    let mut want = frame.clone();
    want[21] = 63;
    assert_eq!(c.data, want);
    assert_eq!(c.stats, vec![STAT_L3V6_FORWARD]);
    let mut dying = frame;
    dying[21] = 1;
    let mut c = tc_on(1, dying.clone());
    assert_eq!(cradle_tc(&t, &mut c), TcAct::Pipe);
    assert_eq!(c.data, dying);
}

#[test]
fn xdp_forwards_plain_ipv4() {
    let mut t = routed();
    t.default4 = fibw_entry(5, 0);
    t.tbl24 = vec![0; 0x0a_0003];
    let frame = v4_frame(CLIENT, SERVER, 64, 17, &udp(1, 2, &[]));
    let mut x = xdp_on(1, frame.clone());
    assert_eq!(cradle_xdp_l3(&t, &mut x), XdpAct::Redirect(2));
    assert_eq!(x.stats, vec![STAT_XDP_L3_FWD]);
    assert_eq!(x.data[0..6], MAC_GW);
    assert_eq!(x.data[6..12], MAC_OUT);
    assert_eq!(x.data[22], 63);
    // The header checksum still verifies.
    assert_eq!(ones_sum(&x.data[14..34]), 0xffff);
    assert_eq!(x.data[34..], frame[34..]);
    // Expiring packets, other EtherTypes and encapsulating nexthops pass.
    let mut x = xdp_on(1, v4_frame(CLIENT, SERVER, 1, 17, &udp(1, 2, &[])));
    assert_eq!(cradle_xdp_l3(&t, &mut x), XdpAct::Pass);
    let mut x = xdp_on(1, eth(MAC_A, MAC_B, 0x0806));
    assert_eq!(cradle_xdp_l3(&t, &mut x), XdpAct::Pass);
    let mut nh = nexthop(2);
    nh.gateway_v4 = 0x0a00_0001;
    nh.flags = NH_F_MPLS;
    t.nexthops.put(5, nh);
    let mut x = xdp_on(1, frame.clone());
    assert_eq!(cradle_xdp_l3(&t, &mut x), XdpAct::Pass);
    assert_eq!(x.data, frame);
}

#[test]
fn neighbors_resolve_to_addresses() {
    let t = routed();
    let nh = t.nexthops.get(&5).unwrap();
    assert_eq!(resolve_l2(&t, &nh), Some((MAC_GW, MAC_OUT)));
    assert_eq!(resolve_l2(&t, &nexthop(2)), None);
}

// ----------------------------------------------------------------- switching

fn bridged() -> Tables {
    let mut t = Tables::new();
    for i in 1..4u32 {
        t.ports.put(i, port(PORT_F_L2, 10, MAC_OUT));
        t.l2_members.put(L2MemberKey { vlan: 10, slot: (i - 1) as u16 }, i);
    }
    t.l2_count.put(10, 3);
    t
}

#[test]
fn switch_learns_floods_and_forwards() {
    let t = bridged();
    let frame = cat(&eth(MAC_A, MAC_B, 0x1234), &[0; 20]);
    let mut c = tc_on(1, frame.clone());
    c.now = 99;
    // Unknown destination: one copy per other member, the original dropped.
    assert_eq!(cradle_tc(&t, &mut c), TcAct::Shot);
    assert_eq!(c.copies.iter().map(|k| k.oif).collect::<Vec<u32>>(), vec![2, 3]);
    assert!(c.copies.iter().all(|k| k.frame == frame));
    assert_eq!(c.stats, vec![STAT_L2_FLOOD]);
    let e = c.fdb.get(&FdbKey { mac: MAC_B, vlan: 10 }).unwrap();
    assert_eq!((e.oif, e.last_seen, e.flags), (1, 99, 0));
    // The answer is forwarded to where the source was learned.
    c.data = cat(&eth(MAC_B, MAC_A, 0x1234), &[0; 20]);
    c.iif = 3;
    c.copies.clear();
    c.stats.clear();
    assert_eq!(cradle_tc(&t, &mut c), TcAct::Redirect(1));
    assert_eq!(c.stats, vec![STAT_L2_FORWARD]);
    assert!(c.copies.is_empty());
    // So is one that comes over the overlay.
    c.meta = Some(CradleXdpMeta { magic: XDP_META_MAGIC_L2, vrf_id: 10 });
    assert_eq!(cradle_tc(&t, &mut c), TcAct::Redirect(1));
    c.meta = None;
    // Never back out of the port it came in on.
    c.data = cat(&eth(MAC_A, MAC_B, 0x1234), &[0; 20]);
    c.iif = 3;
    assert_eq!(cradle_tc(&t, &mut c), TcAct::Shot);
    assert!(c.copies.is_empty());
    // Group addresses always flood.
    c.data = cat(&eth([0xff; 6], MAC_B, 0x1234), &[0; 20]);
    assert_eq!(cradle_tc(&t, &mut c), TcAct::Shot);
    assert_eq!(c.copies.len(), 2);
}

#[test]
fn frames_to_the_bridge_itself_go_to_the_host() {
    let t = bridged();
    let frame = cat(&eth(MAC_A, MAC_B, 0x1234), &[0; 20]);
    let mut c = tc_on(1, frame.clone());
    let own = FdbEntry { oif: 2, flags: FDB_F_LOCAL, remote_sid: [0; 16], last_seen: 0 };
    c.fdb.put(FdbKey { mac: MAC_A, vlan: 10 }, own);
    assert_eq!(cradle_tc(&t, &mut c), TcAct::Pipe);
    assert_eq!(c.data, frame);
    assert!(c.copies.is_empty());
}

#[test]
fn overlay_frames_split_the_horizon() {
    let mut t = bridged();
    t.repl_sid.put(2, ReplTarget { kind: REPL_KIND_SRV6, vni: 0, addr: addr6(5) });
    let mut c = tc_on(1, cat(&eth([0xff; 6], MAC_B, 0x1234), &[0; 20]));
    c.meta = Some(CradleXdpMeta { magic: XDP_META_MAGIC_L2, vrf_id: 10 });
    assert_eq!(cradle_tc(&t, &mut c), TcAct::Shot);
    // Neither the ingress port nor the replication slot gets a copy.
    assert_eq!(c.copies.iter().map(|k| k.oif).collect::<Vec<u32>>(), vec![3]);
    // The remote station is not learned on the underlay port.
    assert!(c.fdb.get(&FdbKey { mac: MAC_B, vlan: 10 }).is_none());
}

// ------------------------------------------------------------ load balancing

fn balanced(affinity: bool) -> Tables {
    let mut t = routed();
    t.services.put(
        ServiceKey { vip: word(VIP), port: wire_port(80), proto: 6, _pad: 0 },
        ServiceInfo {
            backend_count: 2,
            lb_algo: 0,
            flags: if affinity { SVC_F_AFFINITY } else { 0 },
            svc_id: 77,
        },
    );
    for s in 0..2u16 {
        t.backends.put(
            BackendKey { svc_id: 77, slot: s, _pad: 0 },
            Backend { addr: word([10, 244, 0, 2 + s as u8]), port: wire_port(8080), flags: 0 },
        );
    }
    t
}

#[test]
fn service_flow_reaches_a_backend_and_returns_as_the_vip() {
    let t = balanced(false);
    let mut c = tc_on(1, v4_frame(CLIENT, VIP, 64, 6, &tcp(5555, 80)));
    c.rand = 3;
    cradle_tc(&t, &mut c);
    assert_eq!(c.data[30..34], [10, 244, 0, 3]);
    assert_eq!(c.data[36..38], 8080u16.to_be_bytes());
    assert_eq!(c.stats[0], STAT_L4_DNAT);
    // Header address, pseudo-header address, port: three patches.
    assert_eq!(
        c.fixes[0..3],
        [
            CsumFix {
                l4: false,
                off: 24,
                from: word(VIP) as u64,
                to: word([10, 244, 0, 3]) as u64,
                flags: 4
            },
            CsumFix {
                l4: true,
                off: 50,
                from: word(VIP) as u64,
                to: word([10, 244, 0, 3]) as u64,
                flags: 0x14
            },
            CsumFix {
                l4: true,
                off: 50,
                from: wire_port(80) as u64,
                to: wire_port(8080) as u64,
                flags: 2
            },
        ]
    );
    // An established flow keeps its backend, whatever the dice say.
    c.data = v4_frame(CLIENT, VIP, 64, 6, &tcp(5555, 80));
    c.rand = 0;
    cradle_tc(&t, &mut c);
    assert_eq!(c.data[30..34], [10, 244, 0, 3]);
    // The reply leaves as the VIP.
    c.data = v4_frame([10, 244, 0, 3], CLIENT, 64, 6, &tcp(8080, 5555));
    c.stats.clear();
    cradle_tc(&t, &mut c);
    assert_eq!(c.data[26..30], VIP);
    assert_eq!(c.data[34..36], 80u16.to_be_bytes());
    assert_eq!(c.stats[0], STAT_L4_SNAT);
    // It is not translated a second time on its way out.
    let once = c.data.clone();
    cradle_egress(&t, &mut c);
    assert_eq!(c.data, once);
    // So does that of a node-local backend, at egress.
    c.data = v4_frame([10, 244, 0, 3], CLIENT, 64, 6, &tcp(8080, 5555));
    cradle_egress(&t, &mut c);
    assert_eq!(c.data[26..30], VIP);
}

#[test]
fn connections_are_dated_by_their_last_packet() {
    let t = balanced(false);
    let key = |src: [u8; 4], dst: [u8; 4], sport: u16, dport: u16| CtKey {
        src: word(src),
        dst: word(dst),
        src_port: wire_port(sport),
        dst_port: wire_port(dport),
        proto: 6,
        _pad: [0; 3],
    };
    let out = key(CLIENT, VIP, 5555, 80);
    let back = key([10, 244, 0, 2], CLIENT, 8080, 5555);
    let mut c = tc_on(1, v4_frame(CLIENT, VIP, 64, 6, &tcp(5555, 80)));
    c.now = 100;
    cradle_tc(&t, &mut c);
    let seen = |c: &Tc| (c.ct.get(&out).unwrap().last_seen, c.ct.get(&back).unwrap().last_seen);
    assert_eq!(seen(&c), (100, 100));
    c.data = v4_frame(CLIENT, VIP, 64, 6, &tcp(5555, 80));
    c.now = 250;
    cradle_tc(&t, &mut c);
    assert_eq!(seen(&c), (250, 100));
    c.data = v4_frame([10, 244, 0, 2], CLIENT, 64, 6, &tcp(8080, 5555));
    c.now = 300;
    cradle_tc(&t, &mut c);
    assert_eq!(seen(&c), (250, 300));
    c.data = v4_frame([10, 244, 0, 2], CLIENT, 64, 6, &tcp(8080, 5555));
    c.now = 400;
    cradle_egress(&t, &mut c);
    assert_eq!(seen(&c), (250, 400));
    assert_eq!(c.ct.get(&out).unwrap().rev_addr, word([10, 244, 0, 2]));
}

/// What the kernel does with a checksum patch, in memory order.
fn apply_fix(d: &mut [u8], fix: &CsumFix) {
    let o = fix.off as usize;
    let c = u16::from_le_bytes([d[o], d[o + 1]]) as u64;
    let mut s = (0xffff - c) + (0xffff_ffff_ffff - fix.from % 0xffff) + fix.to;
    s -= 0xffff_ffff_ffff % 0xffff;
    while s > 0xffff {
        s = (s & 0xffff) + (s >> 16);
    }
    let b = (0xffff - s as u16).to_le_bytes();
    d[o] = b[0];
    d[o + 1] = b[1];
}

/// Ones'-complement sum under the L4 checksum of an IPv4 packet.
fn l4_sum4(d: &[u8]) -> u16 {
    let mut v = d[26..34].to_vec();
    v.extend_from_slice(&[0, d[23]]);
    v.extend_from_slice(&((d.len() - 34) as u16).to_be_bytes());
    v.extend_from_slice(&d[34..]);
    ones_sum(&v)
}

#[test]
fn patches_keep_checksums_valid() {
    let t = balanced(false);
    let mut frame = v4_frame(CLIENT, VIP, 64, 6, &cat(&tcp(5555, 80), b"odd"));
    let sum = !l4_sum4(&frame);
    frame[50..52].copy_from_slice(&sum.to_be_bytes());
    assert_eq!(l4_sum4(&frame), 0xffff);
    let mut c = tc_on(1, frame);
    // Translation to the backend, and the charged TTL.
    cradle_tc(&t, &mut c);
    assert_eq!(c.fixes.len(), 4);
    let mut d = c.data.clone();
    for fix in &c.fixes {
        apply_fix(&mut d, fix);
    }
    assert_eq!(d[22], 63);
    assert_eq!(d[30..34], [10, 244, 0, 2]);
    assert_eq!(ones_sum(&d[14..34]), 0xffff);
    assert_eq!(l4_sum4(&d), 0xffff);
    // The reply, translated back at egress.
    let mut reply = v4_frame([10, 244, 0, 2], CLIENT, 64, 6, &tcp(8080, 5555));
    let sum = !l4_sum4(&reply);
    reply[50..52].copy_from_slice(&sum.to_be_bytes());
    c.data = reply;
    c.fixes.clear();
    cradle_egress(&t, &mut c);
    assert_eq!(c.fixes.len(), 3);
    let mut d = c.data.clone();
    for fix in &c.fixes {
        apply_fix(&mut d, fix);
    }
    assert_eq!(d[26..30], VIP);
    assert_eq!(ones_sum(&d[14..34]), 0xffff);
    assert_eq!(l4_sum4(&d), 0xffff);
}

#[test]
fn affinity_pins_the_client() {
    let t = balanced(true);
    let mut c = tc_on(1, v4_frame(CLIENT, VIP, 64, 6, &tcp(1, 80)));
    c.rand = 1;
    c.now = 1000;
    cradle_tc(&t, &mut c);
    assert_eq!(c.data[30..34], [10, 244, 0, 3]);
    // Another flow of the client, other dice.
    c.data = v4_frame(CLIENT, VIP, 64, 6, &tcp(2, 80));
    c.rand = 0;
    cradle_tc(&t, &mut c);
    assert_eq!(c.data[30..34], [10, 244, 0, 3]);
    // After three hours the pin is gone.
    c.data = v4_frame(CLIENT, VIP, 64, 6, &tcp(3, 80));
    c.now = 1000 + 10_800_000_000_000;
    cradle_tc(&t, &mut c);
    assert_eq!(c.data[30..34], [10, 244, 0, 2]);
}

#[test]
fn services_without_backends_are_left_alone() {
    let mut t = balanced(false);
    t.services.put(
        ServiceKey { vip: word(VIP), port: wire_port(80), proto: 6, _pad: 0 },
        ServiceInfo { backend_count: 0, lb_algo: 0, flags: 0, svc_id: 77 },
    );
    let mut c = tc_on(1, v4_frame(CLIENT, VIP, 64, 6, &tcp(5555, 80)));
    cradle_tc(&t, &mut c);
    assert_eq!(c.data[30..34], VIP);
    // In the forwarding-only mode services are not looked at.
    let mut t = balanced(false);
    t.dp_config = DPC_L3_ONLY;
    let mut c = tc_on(1, v4_frame(CLIENT, VIP, 64, 6, &tcp(5555, 80)));
    cradle_tc(&t, &mut c);
    assert_eq!(c.data[30..34], VIP);
    assert_eq!(c.stats, vec![STAT_L3V4_FORWARD]);
}

#[test]
fn pods_are_masqueraded_and_answered() {
    let mut t = routed();
    t.masq_node = word(NODE);
    t.non_masq.put(vec![10, 0, 0, 0], 8, 1);
    t.ports.put(1, port(PORT_F_L3 | PORT_F_ENDPOINT, 0, MAC_A));
    let pod = [10, 244, 0, 2];
    let mut c = tc_on(1, v4_frame(pod, [8, 8, 8, 8], 64, 17, &udp(4000, 53, &[])));
    cradle_tc(&t, &mut c);
    assert_eq!(c.data[26..30], NODE);
    assert_eq!(c.data[34..36], 4000u16.to_be_bytes());
    assert_eq!(c.stats[0..2], [STAT_L4_SNAT, STAT_MASQ]);
    // The reply on the uplink reaches the pod.
    c.data = v4_frame([8, 8, 8, 8], NODE, 64, 17, &udp(53, 4000, &[]));
    c.iif = 2;
    cradle_tc(&t, &mut c);
    assert_eq!(c.data[30..34], pod);
    // The flow keeps its translation, whatever becomes exempt.
    t.non_masq.put(vec![8, 8, 8, 8], 32, 1);
    c.data = v4_frame(pod, [8, 8, 8, 8], 64, 17, &udp(4000, 53, &[]));
    c.iif = 1;
    cradle_tc(&t, &mut c);
    assert_eq!(c.data[26..30], NODE);
    // Exempt destinations keep the pod's address.
    let mut c = tc_on(1, v4_frame(pod, [10, 9, 9, 9], 64, 17, &udp(4000, 53, &[])));
    cradle_tc(&t, &mut c);
    assert_eq!(c.data[26..30], pod);
}

#[test]
fn ipv6_services_are_balanced() {
    let mut t = routed();
    t.services6.put(
        ServiceKey6 { vip: addr6(80), port: wire_port(80), proto: 17, _pad: 0 },
        ServiceInfo { backend_count: 1, lb_algo: 0, flags: 0, svc_id: 5 },
    );
    t.backends6.put(
        BackendKey { svc_id: 5, slot: 0, _pad: 0 },
        Backend6 { addr: addr6(33), port: wire_port(8080), flags: 0 },
    );
    let f = cat(&eth(MAC_A, MAC_B, 0x86dd), &ip6(addr6(9), addr6(80), 17, 64, &udp(7, 80, &[])));
    let mut c = tc_on(1, f);
    cradle_tc(&t, &mut c);
    assert_eq!(c.data[38..54], addr6(33));
    assert_eq!(c.data[56..58], 8080u16.to_be_bytes());
    assert_eq!(c.stats[0], STAT_L4_DNAT);
    assert_eq!(c.fixes.len(), 5);
    // What the patches change is what the address and the port changed.
    let asked: u64 = c.fixes.iter().map(|f| f.to + 0x1_0000 * 0xffff - f.from).sum();
    let mut was = 0x1_0000u64 * 0xffff;
    for (x, y) in addr6(80).chunks(2).zip(addr6(33).chunks(2)) {
        was = was + u16::from_le_bytes([y[0], y[1]]) as u64
            - u16::from_le_bytes([x[0], x[1]]) as u64;
    }
    was = was + wire_port(8080) as u64 - wire_port(80) as u64;
    assert_eq!(asked % 0xffff, was % 0xffff);
    c.data = cat(&eth(MAC_A, MAC_B, 0x86dd), &ip6(addr6(33), addr6(9), 17, 64, &udp(8080, 7, &[])));
    cradle_tc(&t, &mut c);
    assert_eq!(c.data[22..38], addr6(80));
}

#[test]
fn proxied_services_are_steered() {
    let mut t = routed();
    let key = ServiceKey { vip: word(VIP), port: wire_port(80), proto: 6, _pad: 0 };
    t.l7_services.put(key, 1);
    let frame = v4_frame(CLIENT, VIP, 64, 6, &tcp(5555, 80));
    assert!(l7_lookups(&t, &frame).is_some());
    let run = |conn: Option<u32>, listener: bool, assign: bool| {
        let mut c = tc_on(1, frame.clone());
        c.sock.conn = conn;
        c.sock.listener = listener;
        c.sock.assign = assign;
        let a = cradle_tc(&t, &mut c);
        (a == TcAct::Deliver, c.stats.contains(&STAT_L7_REDIRECT))
    };
    assert_eq!(run(Some(1), false, true), (true, true));
    assert_eq!(run(None, true, true), (true, true));
    // A listening socket is no connection; without the proxy it is routed.
    assert_eq!(run(Some(10), false, true), (false, false));
    assert_eq!(run(None, true, false), (false, false));
    let other = v4_frame(CLIENT, SERVER, 64, 6, &tcp(5555, 80));
    assert!(l7_lookups(&t, &other).is_none());
}

// -------------------------------------------------------------------- policy

fn rule(ep: u32, identity: u32, proto: u8, port: u16, dir: u8) -> PolicyKey {
    PolicyKey { ep, identity, port: wire_port(port), proto, dir }
}

fn deliver(t: &Tables, c: &mut Tc) -> TcAct {
    cradle_egress(t, c)
}

#[test]
fn ingress_policy_decides_at_delivery() {
    let mut t = routed();
    let packet = || {
        let mut c = tc_on(4, v4_frame(CLIENT, [10, 244, 0, 2], 64, 6, &tcp(999, 80)));
        c.flow_cap = 2;
        c
    };
    // Not enforced: allowed.
    let mut c = packet();
    assert_eq!(deliver(&t, &mut c), TcAct::Pipe);
    // Enforced without a rule: dropped.
    t.ep_policy.put(4, EP_F_INGRESS);
    let mut c = packet();
    assert_eq!(deliver(&t, &mut c), TcAct::Shot);
    assert_eq!(c.stats, vec![STAT_POLICY_DROP]);
    assert_eq!(c.flows[0].verdict, FLOW_DROPPED);
    assert_eq!(c.flows[0].peer_identity, IDENTITY_WORLD);
    // An allow of the peer's identity admits it.
    t.identity.put(VrfIdKey { vrf_id: 0, addr: word(CLIENT) }, 300);
    t.policy.put(rule(4, 300, 6, 80, POLICY_DIR_INGRESS), POLICY_ALLOW);
    let mut c = packet();
    assert_eq!(deliver(&t, &mut c), TcAct::Pipe);
    // A deny at any specificity wins.
    t.policy.put(rule(4, 0, 0, 0, POLICY_DIR_INGRESS), POLICY_DENY);
    let mut c = packet();
    assert_eq!(deliver(&t, &mut c), TcAct::Shot);
    // Audited endpoints count, and drop nothing.
    t.ep_policy.put(4, EP_F_INGRESS | EP_F_AUDIT);
    let mut c = packet();
    assert_eq!(deliver(&t, &mut c), TcAct::Pipe);
    assert!(c.stats.contains(&STAT_POLICY_AUDIT));
    assert_eq!(c.flows[0].verdict, FLOW_AUDITED);
}

#[test]
fn a_port_rule_of_any_protocol_counts() {
    let mut t = routed();
    t.ep_policy.put(4, EP_F_INGRESS);
    t.identity.put(VrfIdKey { vrf_id: 0, addr: word(CLIENT) }, 300);
    let packet = |dport: u16| tc_on(4, v4_frame(CLIENT, [10, 244, 0, 2], 64, 6, &tcp(999, dport)));
    // An allow of the port alone, for the peer and for any peer.
    t.policy.put(rule(4, 300, 0, 80, POLICY_DIR_INGRESS), POLICY_ALLOW);
    t.policy.put(rule(4, 0, 0, 81, POLICY_DIR_INGRESS), POLICY_ALLOW);
    assert_eq!(deliver(&t, &mut packet(80)), TcAct::Pipe);
    assert_eq!(deliver(&t, &mut packet(81)), TcAct::Pipe);
    assert_eq!(deliver(&t, &mut packet(82)), TcAct::Shot);
    // A deny of the port alone wins over an allow of everything.
    t.policy.put(rule(4, 0, 0, 0, POLICY_DIR_INGRESS), POLICY_ALLOW);
    t.policy.put(rule(4, 300, 0, 80, POLICY_DIR_INGRESS), POLICY_DENY);
    t.policy.put(rule(4, 0, 0, 81, POLICY_DIR_INGRESS), POLICY_DENY);
    assert_eq!(deliver(&t, &mut packet(80)), TcAct::Shot);
    assert_eq!(deliver(&t, &mut packet(81)), TcAct::Shot);
    assert_eq!(deliver(&t, &mut packet(82)), TcAct::Pipe);
}

#[test]
fn replies_to_the_pod_pass() {
    let mut t = routed();
    t.ep_policy.put(4, EP_F_INGRESS);
    let mut c = tc_on(4, v4_frame(CLIENT, [10, 244, 0, 2], 64, 6, &tcp(80, 999)));
    let key = CtKey {
        src: word([10, 244, 0, 2]),
        dst: word(CLIENT),
        src_port: wire_port(999),
        dst_port: wire_port(80),
        proto: 6,
        _pad: [0; 3],
    };
    c.pct.put(key, PCT_POD_INITIATED);
    assert_eq!(deliver(&t, &mut c), TcAct::Pipe);
    let mut c = tc_on(4, v4_frame(CLIENT, [10, 244, 0, 2], 64, 6, &tcp(81, 999)));
    c.pct.put(key, PCT_POD_INITIATED);
    assert_eq!(deliver(&t, &mut c), TcAct::Shot);
}

#[test]
fn ipv6_replies_to_the_pod_pass() {
    let mut t = routed();
    t.ep_policy.put(4, EP_F_INGRESS);
    let frame = |sport: u16| {
        let p = ip6(addr6(9), addr6(20), 17, 64, &udp(sport, 999, &[]));
        cat(&eth(MAC_A, MAC_B, 0x86dd), &p)
    };
    let key = CtKey6 {
        src: addr6(20),
        dst: addr6(9),
        src_port: wire_port(999),
        dst_port: wire_port(80),
        proto: 17,
        _pad: [0; 3],
    };
    let mut c = tc_on(4, frame(80));
    c.pct6.put(key, PCT_POD_INITIATED);
    assert_eq!(deliver(&t, &mut c), TcAct::Pipe);
    let mut c = tc_on(4, frame(81));
    c.pct6.put(key, PCT_POD_INITIATED);
    assert_eq!(deliver(&t, &mut c), TcAct::Shot);
}

#[test]
fn generations_select_the_rules() {
    let mut t = routed();
    t.policy.put(rule(4, 0, 0, 0, POLICY_DIR_INGRESS | POLICY_KEY_GEN), POLICY_ALLOW);
    let mut c = tc_on(4, v4_frame(CLIENT, [10, 244, 0, 2], 64, 6, &tcp(1, 2)));
    t.ep_policy.put(4, EP_F_INGRESS);
    assert_eq!(deliver(&t, &mut c), TcAct::Shot);
    t.ep_policy.put(4, EP_F_INGRESS | EP_F_GEN);
    let mut c = tc_on(4, v4_frame(CLIENT, [10, 244, 0, 2], 64, 6, &tcp(1, 2)));
    assert_eq!(deliver(&t, &mut c), TcAct::Pipe);
}

#[test]
fn egress_policy_precedes_routing() {
    let mut t = routed();
    t.ports.put(1, port(PORT_F_L3 | PORT_F_ENDPOINT, 0, MAC_A));
    t.ep_policy.put(1, EP_F_EGRESS);
    let mut c = tc_on(1, v4_frame([10, 244, 0, 2], SERVER, 64, 6, &tcp(1, 443)));
    c.flow_cap = 1;
    assert_eq!(cradle_tc(&t, &mut c), TcAct::Shot);
    assert_eq!(c.flows[0].dir, FLOW_DIR_EGRESS);
    // A CIDR's identity is the fallback for the peer.
    let key = cat(&0u32.to_le_bytes(), &[10, 0, 0, 0]);
    t.cidr_id.put(key, 40, 900);
    t.policy.put(rule(1, 900, 6, 443, POLICY_DIR_EGRESS), POLICY_ALLOW);
    let mut c = tc_on(1, v4_frame([10, 244, 0, 2], SERVER, 64, 6, &tcp(1, 443)));
    assert_eq!(cradle_tc(&t, &mut c), TcAct::Neigh4 { oif: 2, nh4: [10, 0, 0, 1] });
    // The endpoint is closed to IPv6 packets too, though they have a route.
    let six = || cat(&eth(MAC_A, MAC_B, 0x86dd), &ip6(addr6(9), addr6(7), 6, 64, &tcp(1, 443)));
    let mut c = tc_on(1, six());
    assert_eq!(cradle_tc(&t, &mut c), TcAct::Shot);
    t.policy.put(rule(1, 0, 6, 443, POLICY_DIR_EGRESS), POLICY_ALLOW);
    let mut c = tc_on(1, six());
    assert_eq!(cradle_tc(&t, &mut c), TcAct::Neigh6 { oif: 2, nh6: addr6(1) });
}

// --------------------------------------------------------------------- mpls

#[test]
fn labels_are_pushed_and_popped() {
    let mut t = routed();
    let mut nh = t.nexthops.get(&5).unwrap();
    nh.flags = NH_F_MPLS;
    nh.labels = [16, 17, 0];
    nh.num_labels = 2;
    t.nexthops.put(5, nh);
    let packet = ip4(CLIENT, SERVER, 17, 64, &udp(1, 2, &[]));
    let mut c = tc_on(1, cat(&eth(MAC_A, MAC_B, 0x0800), &packet));
    assert_eq!(cradle_tc(&t, &mut c), TcAct::Redirect(2));
    assert_eq!(c.stats, vec![STAT_MPLS_PUSH]);
    let mut want = eth(MAC_GW, MAC_OUT, 0x8847);
    want.extend_from_slice(&mpls_lse(16, 0, 0, 64).to_be_bytes());
    want.extend_from_slice(&mpls_lse(17, 0, 1, 64).to_be_bytes());
    want.extend_from_slice(&packet);
    assert_eq!(c.data, want);
    // The far end pops both and has the packet back.
    let mut far = Tables::new();
    far.nexthops.put(1, nexthop(0));
    for l in [16, 17] {
        far.mpls_fib.put(
            l,
            MplsEntry { nexthop_id: 1, vrf_id: 0, op: MPLS_OP_POP, flags: 0, _pad: [0; 2] },
        );
    }
    let mut x = xdp_on(1, c.data.clone());
    assert_eq!(cradle_xdp(&far, &mut x), XdpAct::Pass);
    assert_eq!(x.data[14..], packet[..]);
    assert_eq!(x.data[12..14], [8, 0]);
    assert_eq!(x.stats, vec![STAT_MPLS_POP, STAT_MPLS_POP]);
}

#[test]
fn vpn_label_selects_the_vrf() {
    let mut t = Tables::new();
    t.meta_cookie = 9;
    t.nexthops.put(1, nexthop(0));
    t.mpls_fib.put(
        100,
        MplsEntry { nexthop_id: 1, vrf_id: 7, op: MPLS_OP_POP_L3, flags: 0, _pad: [0; 2] },
    );
    let packet = ip4(CLIENT, SERVER, 17, 64, &udp(1, 2, &[]));
    let mut f = eth(MAC_A, MAC_B, 0x8847);
    f.extend_from_slice(&mpls_lse(100, 0, 1, 30).to_be_bytes());
    f.extend_from_slice(&packet);
    let mut x = xdp_on(1, f.clone());
    assert_eq!(cradle_xdp(&t, &mut x), XdpAct::Pass);
    assert_eq!(x.meta, Some(CradleXdpMeta { magic: XDP_META_MAGIC ^ 9, vrf_id: 7 }));
    assert_eq!(x.data[14..], packet[..]);
    // Without room for the metadata the frame is dropped.
    let mut x = xdp_on(1, f.clone());
    x.meta_room = false;
    assert_eq!(cradle_xdp(&t, &mut x), XdpAct::Drop);
    // An expiring label is handed up.
    let mut dying = f;
    dying[17] = 1;
    let mut x = xdp_on(1, dying.clone());
    assert_eq!(cradle_xdp(&t, &mut x), XdpAct::Pass);
    assert_eq!(x.data, dying);
}

#[test]
fn uniform_pop_carries_the_ttl() {
    let mut t = Tables::new();
    t.nexthops.put(1, nexthop(0));
    t.mpls_fib.put(
        100,
        MplsEntry {
            nexthop_id: 1,
            vrf_id: 0,
            op: MPLS_OP_POP_L3,
            flags: MPLS_E_TTL_UNIFORM,
            _pad: [0; 2],
        },
    );
    let packet = ip4(CLIENT, SERVER, 17, 64, &udp(1, 2, &[]));
    let mut f = eth(MAC_A, MAC_B, 0x8847);
    f.extend_from_slice(&mpls_lse(100, 0, 1, 30).to_be_bytes());
    f.extend_from_slice(&packet);
    let mut x = xdp_on(1, f.clone());
    assert_eq!(cradle_xdp(&t, &mut x), XdpAct::Pass);
    // Delivered here, the hop is still to be charged.
    assert_eq!(x.data[22], 30);
    assert_eq!(ones_sum(&x.data[14..34]), 0xffff);
    // Forwarded by the pop itself, it is charged.
    let mut t = routed();
    t.mpls_fib.put(
        100,
        MplsEntry {
            nexthop_id: 5,
            vrf_id: 0,
            op: MPLS_OP_POP,
            flags: MPLS_E_TTL_UNIFORM,
            _pad: [0; 2],
        },
    );
    let mut x = xdp_on(1, f);
    assert_eq!(cradle_xdp(&t, &mut x), XdpAct::Redirect(2));
    assert_eq!(x.data[22], 29);
    assert_eq!(ones_sum(&x.data[14..34]), 0xffff);
}

#[test]
fn popped_bytes_are_headroom_again() {
    // Two labels are popped here; the third is swapped for three.
    let mut t = routed();
    t.nexthops.put(1, nexthop(0));
    for l in [16, 17] {
        t.mpls_fib.put(
            l,
            MplsEntry { nexthop_id: 1, vrf_id: 0, op: MPLS_OP_POP, flags: 0, _pad: [0; 2] },
        );
    }
    let mut nh = t.nexthops.get(&5).unwrap();
    nh.flags = NH_F_MPLS;
    nh.labels = [50, 51, 52];
    nh.num_labels = 3;
    t.nexthops.put(5, nh);
    t.mpls_fib.put(
        18,
        MplsEntry { nexthop_id: 5, vrf_id: 0, op: MPLS_OP_SWAP, flags: 0, _pad: [0; 2] },
    );
    let packet = ip4(CLIENT, SERVER, 17, 64, &udp(1, 2, &[]));
    let mut f = eth(MAC_A, MAC_B, 0x8847);
    for (l, s) in [(16, 0), (17, 0), (18, 1)] {
        f.extend_from_slice(&mpls_lse(l, 0, s, 30).to_be_bytes());
    }
    f.extend_from_slice(&packet);
    let mut x = xdp_on(1, f);
    x.headroom = 0;
    assert_eq!(cradle_xdp(&t, &mut x), XdpAct::Redirect(2));
    assert_eq!(x.stats, vec![STAT_MPLS_POP, STAT_MPLS_POP, STAT_MPLS_SWAP]);
    assert_eq!(x.data[14..18], mpls_lse(50, 0, 0, 29).to_be_bytes());
    assert_eq!(x.data[22..26], mpls_lse(52, 0, 1, 29).to_be_bytes());
    assert_eq!(x.data[26..], packet[..]);
    assert_eq!(x.headroom, 0);
    // A decapsulation gives back what it strips.
    let sender = srv6_sender(&[addr6(0x50)], 0);
    let mut c = tc_on(1, cat(&eth(MAC_A, MAC_B, 0x0800), &packet));
    cradle_tc(&sender, &mut c);
    let mut x = xdp_on(1, c.data.clone());
    cradle_xdp(&serving(sid(SRV6_BH_END_DT4), 0x50), &mut x);
    assert_eq!(x.stats, vec![STAT_SRV6_DECAP]);
    assert_eq!(x.headroom, 256 + 40);
    let mut x = Xdp::new(vec![0; 20]);
    x.headroom = usize::MAX - 1;
    assert!(x.shrink_front(6));
    assert_eq!((x.data.len(), x.headroom), (14, usize::MAX));
    assert!(!x.shrink_front(1));
}

#[test]
fn labels_are_swapped_and_php_popped() {
    let mut t = routed();
    let mut nh = t.nexthops.get(&5).unwrap();
    nh.flags = NH_F_MPLS;
    nh.labels = [99, 0, 0];
    nh.num_labels = 1;
    t.nexthops.put(5, nh);
    t.mpls_fib.put(
        16,
        MplsEntry { nexthop_id: 5, vrf_id: 0, op: MPLS_OP_SWAP, flags: 0, _pad: [0; 2] },
    );
    let packet = ip4(CLIENT, SERVER, 17, 64, &udp(1, 2, &[]));
    let mut f = eth(MAC_A, MAC_B, 0x8847);
    f.extend_from_slice(&mpls_lse(16, 3, 1, 30).to_be_bytes());
    f.extend_from_slice(&packet);
    let mut c = tc_on(1, f.clone());
    assert_eq!(cradle_tc(&t, &mut c), TcAct::Redirect(2));
    assert_eq!(c.stats, vec![STAT_MPLS_SWAP]);
    assert_eq!(c.data[14..18], mpls_lse(99, 3, 1, 29).to_be_bytes());
    // A pop towards a plain nexthop sends the packet on.
    t.mpls_fib.put(
        16,
        MplsEntry { nexthop_id: 9, vrf_id: 0, op: MPLS_OP_POP, flags: 0, _pad: [0; 2] },
    );
    let mut plain = nexthop(2);
    plain.gateway_v4 = 0x0a00_0001;
    t.nexthops.put(9, plain);
    let mut x = xdp_on(1, f);
    assert_eq!(cradle_xdp(&t, &mut x), XdpAct::Redirect(2));
    assert_eq!(x.data[0..14], eth(MAC_GW, MAC_OUT, 0x0800)[..]);
    assert_eq!(x.data[14..], packet[..]);
}

// ---------------------------------------------------------------------- srv6

fn sid(behavior: u8) -> LocalSid {
    LocalSid {
        behavior,
        flavors: 0,
        _pad: [0; 2],
        vrf_id: 0,
        nexthop_id: 0,
        block_bits: 32,
        node_bits: 16,
        fun_bits: 0,
        _pad2: [0; 1],
    }
}

fn serving(behavior: LocalSid, last: u8) -> Tables {
    let mut t = routed();
    t.srv6_localsid.put(addr6(last).to_vec(), 128, behavior);
    t
}

fn encap_list(segs: &[[u8; 16]], mode: u8) -> Srv6Encap {
    let mut e = Srv6Encap { num_segs: segs.len() as u8, mode, _pad: [0; 2], segs: [[0; 16]; 6] };
    for (i, s) in segs.iter().enumerate() {
        e.segs[i] = *s;
    }
    e
}

/// IPv4 and the station fd00::14 go through the policy; the segments
/// themselves are reached by the plain default route.
fn srv6_sender(segs: &[[u8; 16]], mode: u8) -> Tables {
    let mut t = routed();
    t.srv6_encap_src = addr6(0xee);
    t.fib6.put(addr6(20).to_vec(), 128, FibEntry { nexthop_id: 5, flags: 0 });
    t.srv6_encap.put(5, encap_list(segs, mode));
    let mut nh = t.nexthops.get(&6).unwrap();
    nh.flags = NH_F_SRV6 | NH_F_V6;
    t.nexthops.put(5, nh);
    t
}

#[test]
fn encapsulated_packet_is_delivered_in_its_vrf() {
    let t = srv6_sender(&[addr6(0x50)], 0);
    let packet = ip4(CLIENT, SERVER, 17, 64, &udp(1, 2, &[]));
    let mut c = tc_on(1, cat(&eth(MAC_A, MAC_B, 0x0800), &packet));
    assert_eq!(cradle_tc(&t, &mut c), TcAct::Redirect(2));
    assert_eq!(c.stats, vec![STAT_SRV6_ENCAP]);
    assert_eq!(c.data[12..14], [0x86, 0xdd]);
    assert_eq!(c.data[20], 4);
    assert_eq!(c.data[22..38], addr6(0xee));
    assert_eq!(c.data[38..54], addr6(0x50));
    let mut dt = sid(SRV6_BH_END_DT4);
    dt.vrf_id = 12;
    let far = serving(dt, 0x50);
    let mut x = xdp_on(1, c.data.clone());
    assert_eq!(cradle_xdp(&far, &mut x), XdpAct::Pass);
    assert_eq!(x.stats, vec![STAT_SRV6_DECAP]);
    assert_eq!(x.data[12..14], [8, 0]);
    let inner = x.data[14..].to_vec();
    assert_eq!(inner[..8], packet[..8]);
    assert_eq!(inner[12..], packet[12..]);
    assert_eq!(x.meta, Some(CradleXdpMeta { magic: XDP_META_MAGIC, vrf_id: 12 }));
    // Transit packets are untouched.
    let mut x = xdp_on(1, c.data.clone());
    assert_eq!(cradle_xdp(&serving(sid(SRV6_BH_END), 0x51), &mut x), XdpAct::Pass);
    assert_eq!(x.data, c.data);
}

#[test]
fn segment_list_is_walked() {
    let segs = [addr6(0x50), addr6(0x51), addr6(0x52)];
    let t = srv6_sender(&segs, 0);
    let packet = ip4(CLIENT, SERVER, 17, 64, &udp(1, 2, &[]));
    let mut c = tc_on(1, cat(&eth(MAC_A, MAC_B, 0x0800), &packet));
    cradle_tc(&t, &mut c);
    // Reduced: the first segment is the destination and not in the list.
    assert_eq!(c.data[20], 43);
    assert_eq!(c.data[38..54], addr6(0x50));
    assert_eq!(c.data[54..58], [4, 4, 4, 2]);
    assert_eq!(c.data[62..78], addr6(0x52));
    assert_eq!(c.data[78..94], addr6(0x51));
    let mut x = xdp_on(1, c.data.clone());
    assert_eq!(cradle_xdp(&serving(sid(SRV6_BH_END), 0x50), &mut x), XdpAct::Pass);
    assert_eq!(x.stats, vec![STAT_SRV6_END]);
    assert_eq!(x.data[38..54], addr6(0x51));
    assert_eq!(x.data[57], 1);
    // The penultimate segment pops the header.
    let mut psp = sid(SRV6_BH_END);
    psp.flavors = SRV6_FLAVOR_PSP;
    let mut y = xdp_on(1, x.data.clone());
    assert_eq!(cradle_xdp(&serving(psp, 0x51), &mut y), XdpAct::Pass);
    assert_eq!(y.stats, vec![STAT_SRV6_END, STAT_SRV6_PSP]);
    assert_eq!(y.data[38..54], addr6(0x52));
    assert_eq!(y.data[20], 4);
    assert_eq!(y.data[54..], packet[..]);
    // An adjacency SID sends straight out.
    let mut ex = sid(SRV6_BH_END_X);
    ex.nexthop_id = 6;
    let mut z = xdp_on(1, x.data.clone());
    assert_eq!(cradle_xdp(&serving(ex, 0x51), &mut z), XdpAct::Redirect(2));
    assert_eq!(z.data[0..12], eth(MAC_GW, MAC_OUT, 0)[0..12]);
    // End.T scopes the lookup.
    let mut et = sid(SRV6_BH_END_T);
    et.vrf_id = 3;
    let mut w = xdp_on(1, x.data.clone());
    assert_eq!(cradle_xdp(&serving(et, 0x51), &mut w), XdpAct::Pass);
    assert_eq!(w.meta, Some(CradleXdpMeta { magic: XDP_META_MAGIC, vrf_id: 3 }));
}

#[test]
fn ultimate_segment_decapsulates() {
    let t = srv6_sender(&[addr6(0x50)], 0);
    let packet = ip4(CLIENT, SERVER, 17, 64, &udp(1, 2, &[]));
    let mut c = tc_on(1, cat(&eth(MAC_A, MAC_B, 0x0800), &packet));
    cradle_tc(&t, &mut c);
    let mut usd = sid(SRV6_BH_END);
    usd.flavors = SRV6_FLAVOR_USD;
    let mut x = xdp_on(1, c.data.clone());
    assert_eq!(cradle_xdp(&serving(usd, 0x50), &mut x), XdpAct::Pass);
    assert_eq!(x.stats, vec![STAT_SRV6_USD]);
    assert_eq!(x.data[14..], packet[..]);
}

#[test]
fn insertion_keeps_the_destination_last() {
    let t = srv6_sender(&[addr6(0x50), addr6(0x51)], SRV6_ENCAP_MODE_INSERT);
    let packet = ip6(addr6(9), addr6(20), 17, 64, &udp(1, 2, &[]));
    let mut c = tc_on(1, cat(&eth(MAC_A, MAC_B, 0x86dd), &packet));
    assert_eq!(cradle_tc(&t, &mut c), TcAct::Redirect(2));
    assert_eq!(c.stats, vec![STAT_SRV6_HINSERT]);
    assert_eq!(c.data[38..54], addr6(0x50));
    assert_eq!(c.data[20], 43);
    assert_eq!(c.data[54], 17);
    // Last entry of the list: the original destination.
    assert_eq!(c.data[62..78], addr6(20));
    // The repair path ends with the packet as it was, one hop charged.
    let mut x = xdp_on(1, c.data.clone());
    assert_eq!(cradle_xdp(&serving(sid(SRV6_BH_END), 0x50), &mut x), XdpAct::Pass);
    let mut psp = sid(SRV6_BH_END);
    psp.flavors = SRV6_FLAVOR_PSP;
    let mut y = xdp_on(1, x.data.clone());
    assert_eq!(cradle_xdp(&serving(psp, 0x51), &mut y), XdpAct::Pass);
    let mut want = packet;
    want[7] = 63;
    assert_eq!(y.data[14..], want[..]);
}

#[test]
fn compressed_segments_shift() {
    let mut t = routed();
    let un = sid(SRV6_BH_UN);
    let mut carrier = [0u8; 16];
    carrier[0..8].copy_from_slice(&[0xfc, 0, 0, 1, 0x00, 0x0a, 0x00, 0x0b]);
    t.srv6_localsid.put(carrier.to_vec(), 48, un);
    let f = cat(&eth(MAC_A, MAC_B, 0x86dd), &ip6(addr6(9), carrier, 17, 64, &udp(1, 2, &[])));
    let mut x = xdp_on(1, f);
    assert_eq!(cradle_xdp(&t, &mut x), XdpAct::Pass);
    assert_eq!(x.stats, vec![STAT_SRV6_USID]);
    let mut want = [0u8; 16];
    want[0..6].copy_from_slice(&[0xfc, 0, 0, 1, 0x00, 0x0b]);
    assert_eq!(x.data[38..54], want);
}

#[test]
fn replaced_segments_advance() {
    // Block of 48 bits, node and function of 16 each: 32-bit positions.
    let mut rep = sid(SRV6_BH_END_REP);
    rep.block_bits = 48;
    rep.node_bits = 16;
    rep.fun_bits = 16;
    let mut t = routed();
    let mut active = [0u8; 16];
    active[0..6].copy_from_slice(&[0xfc, 0, 0, 1, 0, 2]);
    active[6..10].copy_from_slice(&[0, 7, 0, 1]);
    active[15] = 1;
    t.srv6_localsid.put(active.to_vec(), 80, rep);
    // One container of four positions.
    let mut container = [0u8; 16];
    container[0..4].copy_from_slice(&[0, 9, 0, 4]);
    let mut srh = vec![17, 4, 4, 1, 1, 0, 0, 0];
    srh.extend_from_slice(&addr6(0x70));
    srh.extend_from_slice(&container);
    let payload = cat(&srh, &udp(1, 2, &[]));
    let f = cat(&eth(MAC_A, MAC_B, 0x86dd), &ip6(addr6(9), active, 43, 64, &payload));
    let mut x = xdp_on(1, f.clone());
    assert_eq!(cradle_xdp(&t, &mut x), XdpAct::Pass);
    assert_eq!(x.stats, vec![STAT_SRV6_REPLACE]);
    // The block stays; the active C-SID and the index change.
    let mut want = f;
    want[44..48].copy_from_slice(&[0, 9, 0, 4]);
    want[53] = 0;
    assert_eq!(x.data, want);
    // The index used up, the last position of the next container follows.
    let mut spent = want;
    spent[44..48].copy_from_slice(&[0, 7, 0, 1]);
    spent[74..78].copy_from_slice(&[0, 5, 0, 6]);
    let mut x = xdp_on(1, spent.clone());
    assert_eq!(cradle_xdp(&t, &mut x), XdpAct::Pass);
    let mut want = spent;
    want[44..48].copy_from_slice(&[0, 5, 0, 6]);
    want[53] = 3;
    want[57] = 0;
    assert_eq!(x.data, want);
}

#[test]
fn cross_connects_hand_over() {
    // End.DX4: the inner packet goes to the circuit's neighbor.
    let t = srv6_sender(&[addr6(0x50)], 0);
    let packet = ip4(CLIENT, SERVER, 17, 64, &udp(1, 2, &[]));
    let mut c = tc_on(1, cat(&eth(MAC_A, MAC_B, 0x0800), &packet));
    cradle_tc(&t, &mut c);
    let mut dx = sid(SRV6_BH_END_DX4);
    dx.nexthop_id = 5;
    let far = serving(dx, 0x50);
    let mut x = xdp_on(1, c.data.clone());
    assert_eq!(cradle_xdp(&far, &mut x), XdpAct::Pass);
    assert_eq!(x.meta, Some(CradleXdpMeta { magic: XDP_META_MAGIC_DX, vrf_id: 5 }));
    let mut d = tc_on(1, x.data.clone());
    d.meta = x.meta;
    assert_eq!(cradle_tc(&far, &mut d), TcAct::Redirect(2));
    assert_eq!(d.data[0..14], eth(MAC_GW, MAC_OUT, 0x0800)[..]);
}

#[test]
fn circuits_carry_frames_intact() {
    let mut t = routed();
    t.srv6_encap_src = addr6(0xee);
    t.xconnect.put(7, addr6(0x60));
    t.xconnect_vlan.put(Dx2vKey { table: 8, vid: 100, _pad: [0; 2] }, addr6(0x61));
    let frame = cat(&eth(MAC_A, MAC_B, 0x1234), &[5; 40]);
    let mut x = xdp_on(7, frame.clone());
    assert_eq!(cradle_xdp(&t, &mut x), XdpAct::Redirect(2));
    assert_eq!(x.stats, vec![STAT_SRV6_L2_ENCAP]);
    assert_eq!(x.data[20], 143);
    // A circuit learns nothing.
    assert!(x.fdb.get(&FdbKey { mac: MAC_B, vlan: 0 }).is_none());
    assert_eq!(x.data[38..54], addr6(0x60));
    assert_eq!(x.data[54..], frame[..]);
    // The far end emits it on its circuit.
    let mut dx2 = sid(SRV6_BH_END_DX2);
    dx2.vrf_id = 33;
    let far = serving(dx2, 0x60);
    let mut y = xdp_on(1, x.data.clone());
    assert_eq!(cradle_xdp(&far, &mut y), XdpAct::Pass);
    assert_eq!(y.data, frame);
    assert_eq!(y.stats, vec![STAT_SRV6_DX2]);
    assert_eq!(y.meta, Some(CradleXdpMeta { magic: XDP_META_MAGIC_DX2, vrf_id: 33 }));
    let mut c = tc_on(1, y.data.clone());
    c.meta = y.meta;
    assert_eq!(cradle_tc(&far, &mut c), TcAct::Redirect(33));
    // A tagged frame takes its VLAN's circuit, and demuxes by it.
    let tagged = cat(&eth(MAC_A, MAC_B, 0x8100), &[0, 100, 8, 0, 1, 2, 3, 4]);
    let mut x = xdp_on(8, tagged.clone());
    assert_eq!(cradle_xdp(&t, &mut x), XdpAct::Redirect(2));
    assert_eq!(x.data[38..54], addr6(0x61));
    let mut v = sid(SRV6_BH_END_DX2V);
    v.vrf_id = 4;
    let mut far = serving(v, 0x61);
    far.dx2v.put(Dx2vKey { table: 4, vid: 100, _pad: [0; 2] }, 44);
    let mut y = xdp_on(1, x.data.clone());
    assert_eq!(cradle_xdp(&far, &mut y), XdpAct::Pass);
    assert_eq!(y.data, tagged);
    assert_eq!(y.meta, Some(CradleXdpMeta { magic: XDP_META_MAGIC_DX2, vrf_id: 44 }));
}

#[test]
fn bridged_frames_cross_the_srv6_overlay() {
    let mut t = routed();
    t.srv6_encap_src = addr6(0xee);
    t.ports.put(7, port(PORT_F_L2, 10, MAC_OUT));
    let frame = cat(&eth(MAC_A, MAC_B, 0x1234), &[5; 40]);
    let mut x = xdp_on(7, frame.clone());
    x.fdb.put(
        FdbKey { mac: MAC_A, vlan: 10 },
        FdbEntry { oif: 6, flags: FDB_F_REMOTE, remote_sid: addr6(0x62), last_seen: 0 },
    );
    x.now = 5;
    assert_eq!(cradle_xdp(&t, &mut x), XdpAct::Redirect(2));
    assert_eq!(x.stats, vec![STAT_SRV6_L2_ENCAP]);
    assert_eq!(x.data[54..], frame[..]);
    let far = serving(
        {
            let mut s = sid(SRV6_BH_END_DT2U);
            s.vrf_id = 10;
            s
        },
        0x62,
    );
    let mut y = xdp_on(1, x.data.clone());
    assert_eq!(cradle_xdp(&far, &mut y), XdpAct::Pass);
    assert_eq!(y.data, frame);
    assert_eq!(y.stats, vec![STAT_SRV6_L2_DECAP]);
    assert_eq!(y.meta, Some(CradleXdpMeta { magic: XDP_META_MAGIC_L2, vrf_id: 10 }));
}

#[test]
fn mirror_context_serves_the_protected_sid() {
    // The mirror SID's own header carries the protected node's packet.
    let inner = ip4(CLIENT, SERVER, 17, 64, &udp(1, 2, &[]));
    let protected = ip6(addr6(9), addr6(0x71), 4, 64, &inner);
    let f = cat(&eth(MAC_A, MAC_B, 0x86dd), &ip6(addr6(8), addr6(0x70), 41, 64, &protected));
    let mut m = sid(SRV6_BH_END_M);
    m.vrf_id = 2;
    let mut t = serving(m, 0x70);
    t.mirror.put(
        cat(&2u32.to_le_bytes(), &addr6(0x71)),
        160,
        MirrorEntry { behavior: SRV6_BH_END_DT4, _pad: [0; 3], vrf_id: 21 },
    );
    let mut x = xdp_on(1, f);
    assert_eq!(cradle_xdp(&t, &mut x), XdpAct::Pass);
    assert!(x.stats.contains(&STAT_SRV6_ENDM));
    assert_eq!(x.data[14..], inner[..]);
    assert_eq!(x.meta, Some(CradleXdpMeta { magic: XDP_META_MAGIC, vrf_id: 21 }));
}

#[test]
fn replication_fans_out() {
    let mut t = serving(sid(SRV6_BH_END_REPLICATE), 0x80);
    let none = ReplBranch { sid: [0; 16], nexthop_id: 0, local_oif: 0, flags: 0 };
    let mut seg = ReplSeg {
        n_branches: 2,
        hop_limit_threshold: 2,
        _pad: [0; 3],
        branches: [none; 8],
    };
    seg.branches[0] = ReplBranch { sid: addr6(0x81), nexthop_id: 6, local_oif: 0, flags: 0 };
    seg.branches[1] =
        ReplBranch { sid: addr6(0x82), nexthop_id: 0, local_oif: 55, flags: REPL_BRANCH_LOCAL };
    t.repl_seg.put(addr6(0x80), seg);
    let f = cat(&eth(MAC_A, MAC_B, 0x86dd), &ip6(addr6(9), addr6(0x80), 17, 64, &udp(1, 2, &[])));
    let mut x = xdp_on(1, f);
    assert_eq!(cradle_xdp(&t, &mut x), XdpAct::Pass);
    assert_eq!(x.meta.unwrap().magic, XDP_META_MAGIC_REPL);
    let mut c = tc_on(1, x.data.clone());
    c.meta = x.meta;
    assert_eq!(cradle_tc(&t, &mut c), TcAct::Shot);
    assert!(c.stats.contains(&STAT_SRV6_REPLICATE));
    assert_eq!(c.copies.iter().map(|k| k.oif).collect::<Vec<u32>>(), vec![2, 55]);
    assert_eq!(c.copies[0].frame[38..54], addr6(0x81));
    assert_eq!(c.copies[1].frame[38..54], addr6(0x82));
}

#[test]
fn binding_sid_imposes_its_policy() {
    let mut b6 = sid(SRV6_BH_END_B6);
    b6.nexthop_id = 9;
    let mut t = serving(b6, 0x50);
    t.srv6_encap_src = addr6(0xee);
    t.srv6_encap.put(9, encap_list(&[addr6(0x90), addr6(0x91)], 0));
    let mut srh = vec![17, 2, 4, 1, 0, 0, 0, 0];
    srh.extend_from_slice(&addr6(0x51));
    let packet = ip6(addr6(9), addr6(0x50), 43, 64, &cat(&srh, &udp(1, 2, &[])));
    let f = cat(&eth(MAC_A, MAC_B, 0x86dd), &packet);
    let mut x = xdp_on(1, f.clone());
    assert_eq!(cradle_xdp(&t, &mut x), XdpAct::Pass);
    assert_eq!(x.stats, vec![STAT_SRV6_B6]);
    // The received packet, walked and charged, rides inside.
    let mut inner = packet;
    inner[7] = 63;
    inner[24..40].copy_from_slice(&addr6(0x51));
    inner[43] = 0;
    let mut want = vec![41, 2, 4, 1, 0, 0, 0, 0];
    want.extend_from_slice(&addr6(0x91));
    want.extend_from_slice(&inner);
    let want = cat(&eth(MAC_A, MAC_B, 0x86dd), &ip6(addr6(0xee), addr6(0x90), 43, 64, &want));
    assert_eq!(x.data, want);
    // Without headroom the walked packet continues un-bound.
    let mut x = xdp_on(1, f);
    x.headroom = 10;
    assert_eq!(cradle_xdp(&t, &mut x), XdpAct::Pass);
    assert_eq!(x.data[14..], inner[..]);
    assert!(x.stats.is_empty());
}

#[test]
fn repair_list_wraps_the_policy() {
    let mut t = srv6_sender(&[addr6(0x50)], 0);
    // The segment itself is reached through a list.
    t.fib6.put(addr6(0x50).to_vec(), 128, FibEntry { nexthop_id: 7, flags: 0 });
    let mut nh = t.nexthops.get(&6).unwrap();
    nh.flags = NH_F_SRV6 | NH_F_V6;
    t.nexthops.put(7, nh);
    t.srv6_encap.put(7, encap_list(&[addr6(0x77)], 0));
    let packet = ip4(CLIENT, SERVER, 17, 64, &udp(1, 2, &[]));
    let mut c = tc_on(1, cat(&eth(MAC_A, MAC_B, 0x0800), &packet));
    assert_eq!(cradle_tc(&t, &mut c), TcAct::Redirect(2));
    assert_eq!(c.stats, vec![STAT_SRV6_ENCAP, STAT_SRV6_ENCAP]);
    let first = ip6(addr6(0xee), addr6(0x50), 4, 64, &packet);
    let outer = ip6(addr6(0xee), addr6(0x77), 41, 64, &first);
    assert_eq!(c.data, cat(&eth(MAC_GW, MAC_OUT, 0x86dd), &outer));
}

// ------------------------------------------------------------------ overlays

#[test]
fn gtp_tunnel_carries_packets_intact() {
    let mut t = routed();
    let mut nh = t.nexthops.get(&5).unwrap();
    nh.flags = NH_F_GTP;
    t.nexthops.put(5, nh);
    t.gtp_encap.put(
        5,
        GtpEncap { src: NODE, dst: [10, 1, 1, 1], teid: [0, 0, 0, 9], qfi: 0, _pad: [0; 3] },
    );
    let packet = ip4(CLIENT, SERVER, 17, 64, &udp(1, 2, &[]));
    let mut c = tc_on(1, cat(&eth(MAC_A, MAC_B, 0x0800), &packet));
    assert_eq!(cradle_tc(&t, &mut c), TcAct::Redirect(2));
    assert_eq!(c.stats, vec![STAT_GTP_ENCAP]);
    assert_eq!(ones_sum(&c.data[14..34]), 0xffff);
    assert_eq!(c.data[36..38], 2152u16.to_be_bytes());
    assert_eq!(c.data[46..50], [0, 0, 0, 9]);
    let mut far = routed();
    far.gtp_pdr.put(
        GtpPdrKey { dst: [10, 1, 1, 1], teid: [0, 0, 0, 9] },
        GtpPdr { vrf_id: 0 },
    );
    let mut x = xdp_on(1, c.data.clone());
    assert_eq!(cradle_xdp(&far, &mut x), XdpAct::Pass);
    assert_eq!(x.stats, vec![STAT_GTP_DECAP]);
    assert_eq!(x.data[14..], packet[..]);
    // An unknown tunnel passes untouched.
    let mut x = xdp_on(1, c.data.clone());
    assert_eq!(cradle_xdp(&routed(), &mut x), XdpAct::Pass);
    assert_eq!(x.data, c.data);
}

#[test]
fn vxlan_carries_frames_intact() {
    let mut t = routed();
    t.vxlan_src = NODE;
    t.vlan_vni.put(10, 5000);
    t.ports.put(7, port(PORT_F_L2, 10, MAC_OUT));
    let mut vtep = [0u8; 16];
    vtep[12..16].copy_from_slice(&[10, 1, 1, 1]);
    let frame = cat(&eth(MAC_A, MAC_B, 0x1234), &[5; 40]);
    let mut x = xdp_on(7, frame.clone());
    x.fdb.put(
        FdbKey { mac: MAC_A, vlan: 10 },
        FdbEntry { oif: 5, flags: FDB_F_REMOTE | FDB_F_VXLAN, remote_sid: vtep, last_seen: 0 },
    );
    assert_eq!(cradle_xdp(&t, &mut x), XdpAct::Redirect(2));
    assert_eq!(x.stats, vec![STAT_VXLAN_ENCAP]);
    assert_eq!(x.data[30..34], [10, 1, 1, 1]);
    assert_eq!(x.data[36..38], 4789u16.to_be_bytes());
    assert_eq!(x.data[46..50], (5000u32 << 8).to_be_bytes());
    assert_eq!(x.data[50..], frame[..]);
    let mut far = routed();
    far.vxlan_src = [10, 1, 1, 1];
    far.vni_info.put(5000, VniInfo { vlan: 20, flags: 0, vrf_id: 0, rmac: [0; 6], _pad: [0; 2] });
    let mut y = xdp_on(1, x.data.clone());
    assert_eq!(cradle_xdp(&far, &mut y), XdpAct::Pass);
    assert_eq!(y.stats, vec![STAT_VXLAN_DECAP]);
    assert_eq!(y.data, frame);
    assert_eq!(y.meta, Some(CradleXdpMeta { magic: XDP_META_MAGIC_L2, vrf_id: 20 }));
    // A transit packet passes untouched.
    far.vxlan_src = [10, 1, 1, 2];
    let mut y = xdp_on(1, x.data.clone());
    assert_eq!(cradle_xdp(&far, &mut y), XdpAct::Pass);
    assert_eq!(y.data, x.data);
}

#[test]
fn vxlan_routes_between_subnets() {
    let mut t = routed();
    t.vxlan_src = NODE;
    let mut nh = t.nexthops.get(&5).unwrap();
    nh.flags = NH_F_VXLAN;
    t.nexthops.put(5, nh);
    t.vxlan_encap.put(
        5,
        VxlanEncap { vtep: [10, 1, 1, 1], l3vni: 900, rmac: MAC_B, _pad: [0; 2] },
    );
    t.vni_info.put(
        900,
        VniInfo { vlan: 0, flags: VNI_F_L3, vrf_id: 6, rmac: MAC_A, _pad: [0; 2] },
    );
    let packet = ip4(CLIENT, SERVER, 17, 64, &udp(1, 2, &[]));
    let mut c = tc_on(1, cat(&eth(MAC_A, MAC_B, 0x0800), &packet));
    assert_eq!(cradle_tc(&t, &mut c), TcAct::Redirect(2));
    assert_eq!(c.data[46..50], (900u32 << 8).to_be_bytes());
    // The inner frame is addressed to the remote router.
    assert_eq!(c.data[50..56], MAC_B);
    let mut far = routed();
    far.vxlan_src = [10, 1, 1, 1];
    far.vni_info.put(
        900,
        VniInfo { vlan: 0, flags: VNI_F_L3, vrf_id: 6, rmac: MAC_B, _pad: [0; 2] },
    );
    let mut y = xdp_on(1, c.data.clone());
    assert_eq!(cradle_xdp(&far, &mut y), XdpAct::Pass);
    assert_eq!(y.meta, Some(CradleXdpMeta { magic: XDP_META_MAGIC, vrf_id: 6 }));
    assert_eq!(y.data[14..], packet[..]);
}

// ----------------------------------------------------------------------- bfd

fn echo(src: [u8; 4], magic: u32, discr: u32) -> Vec<u8> {
    let mut p = magic.to_be_bytes().to_vec();
    p.extend_from_slice(&discr.to_be_bytes());
    v4_frame(src, SERVER, 255, 17, &udp(49152, 3785, &p))
}

#[test]
fn peer_echo_is_reflected() {
    let t = routed();
    let f = echo(CLIENT, 0x7a62_6664, 7);
    let mut x = xdp_on(1, f.clone());
    assert_eq!(cradle_xdp(&t, &mut x), XdpAct::Tx);
    assert_eq!(x.data[0..6], f[6..12]);
    assert_eq!(x.data[6..12], f[0..6]);
    assert_eq!(x.data[22], 254);
    assert_eq!(ones_sum(&x.data[14..34]), 0xffff);
    let mut six = cat(
        &eth(MAC_A, MAC_B, 0x86dd),
        &ip6(addr6(9), addr6(20), 17, 255, &udp(49152, 3785, &[0; 8])),
    );
    let mut x = xdp_on(1, six.clone());
    assert_eq!(cradle_xdp(&t, &mut x), XdpAct::Tx);
    assert_eq!(x.data[22..38], addr6(20));
    assert_eq!(x.data[38..54], addr6(9));
    assert_eq!(x.data[21], 254);
    // An exhausted echo is not.
    six[21] = 0;
    let mut x = xdp_on(1, six.clone());
    assert_eq!(cradle_xdp(&t, &mut x), XdpAct::Pass);
    assert_eq!(x.data, six);
}

#[test]
fn own_echo_feeds_the_detector() {
    let mut t = routed();
    t.our_local_ips.put(u32::from_be_bytes(CLIENT), 1);
    let down = DetectState { detect_ns: 900, armed: 0, down: 1 };
    let mut x = xdp_on(1, echo(CLIENT, 0x7a62_6664, 7));
    x.echo.put(7, down);
    x.timer_init = true;
    assert_eq!(cradle_xdp(&t, &mut x), XdpAct::Drop);
    assert_eq!(x.echo.get(&7), Some(DetectState { detect_ns: 900, armed: 1, down: 0 }));
    assert_eq!(x.timers, vec![TimerStart { kind: TimerKind::Echo, discr: 7, delay_ns: 900 }]);
    // So does an IPv6 one, by its own table.
    let payload = cat(&0x7a62_6664u32.to_be_bytes(), &8u32.to_be_bytes());
    let six = cat(
        &eth(MAC_A, MAC_B, 0x86dd),
        &ip6(addr6(9), addr6(20), 17, 255, &udp(49152, 3785, &payload)),
    );
    let mut x = xdp_on(1, six.clone());
    assert_eq!(cradle_xdp(&t, &mut x), XdpAct::Tx);
    t.our_local_ips_v6.put(addr6(9), 1);
    let mut x = xdp_on(1, six);
    x.echo.put(8, down);
    assert_eq!(cradle_xdp(&t, &mut x), XdpAct::Drop);
    assert_eq!(x.timers, vec![TimerStart { kind: TimerKind::Echo, discr: 8, delay_ns: 900 }]);
    // The detector fires when the echoes stop.
    assert_eq!(
        detect_timeout(DetectState { detect_ns: 900, armed: 1, down: 0 }),
        DetectState { detect_ns: 900, armed: 1, down: 1 }
    );
    // A wrong magic is dropped without a trace.
    let mut x = xdp_on(1, echo(CLIENT, 1, 7));
    x.echo.put(7, down);
    assert_eq!(cradle_xdp(&t, &mut x), XdpAct::Drop);
    assert!(x.timers.is_empty());
    assert_eq!(x.echo.get(&7), Some(down));
}

#[test]
fn control_packets_are_observed() {
    let t = routed();
    let mut ctrl = vec![0x20, 0xc0, 3, 24, 0, 0, 0, 1, 0, 0, 0, 5];
    ctrl.extend_from_slice(&[0; 12]);
    let st = DetectState { detect_ns: 77, armed: 1, down: 1 };
    let run = |f: Vec<u8>| {
        let mut x = xdp_on(1, f.clone());
        x.control.put(5, st);
        assert_eq!(cradle_xdp(&t, &mut x), XdpAct::Pass);
        assert_eq!(x.data, f);
        x.timers
    };
    let good = v4_frame(CLIENT, SERVER, 255, 17, &udp(49152, 3784, &ctrl));
    assert_eq!(
        run(good),
        vec![TimerStart { kind: TimerKind::Control, discr: 5, delay_ns: 77 }]
    );
    // A packet that crossed a router, another version, no discriminator.
    assert!(run(v4_frame(CLIENT, SERVER, 254, 17, &udp(49152, 3784, &ctrl))).is_empty());
    let mut v0 = ctrl.clone();
    v0[0] = 0;
    assert!(run(v4_frame(CLIENT, SERVER, 255, 17, &udp(49152, 3784, &v0))).is_empty());
    let mut zero = ctrl;
    zero[11] = 0;
    assert!(run(v4_frame(CLIENT, SERVER, 255, 17, &udp(49152, 3784, &zero))).is_empty());
}
