//! Pure mapping from Kubernetes objects to the desired service state.
//!
//! The desired state is `(vip, port, proto) → backend set`. A Service
//! contributes one entry per TCP/UDP port when it has an IPv4 ClusterIP
//! (headless and ExternalName services are skipped — nothing to DNAT);
//! backends come from the Service's IPv4 EndpointSlices, keeping every ready
//! endpoint, pod-backed and host-network alike. Target ports resolve the
//! EndpointSlice way: the slice port whose *name* equals the service port's
//! name carries the number.

use vstd::prelude::*;
use crate::digits;
use crate::hash;
use crate::objects::{
    Endpoint, EndpointPortView, EndpointSlice, EndpointSliceView, EndpointView, Service,
    ServicePort, ServicePortView, ServiceSpec, ServiceSpecView, ServiceView,
};
use crate::ordmap::{OrdMap, OrdSet};
use crate::text;

verus! {

pub const TCP: u8 = 6;
pub const UDP: u8 = 17;

/// A service key: (VIP, port, IP proto).
pub type Key = (u32, u16, u8);

/// Desired state: service key → service.
pub type Desired = OrdMap<Key, Svc>;

/// A programmed service: its backend set + ClientIP session affinity.
pub struct Svc {
    pub backends: OrdSet<(u32, u16)>,
    pub affinity: bool,
}

/// What a `Svc` holds.
#[verifier::ext_equal]
pub struct SvcView {
    pub backends: Set<(u32, u16)>,
    pub affinity: bool,
}

impl View for Svc {
    type V = SvcView;

    open spec fn view(&self) -> SvcView {
        SvcView { backends: self.backends@, affinity: self.affinity }
    }
}

impl Clone for Svc {
    fn clone(&self) -> (r: Self)
        ensures
            r@ == self@,
    {
        Svc { backends: self.backends.clone(), affinity: self.affinity }
    }
}

impl Svc {
    /// Whether the two services are the same.
    pub fn same(&self, other: &Svc) -> (r: bool)
        ensures
            r == (self@ == other@),
    {
        self.backends.same(&other.backends) && self.affinity == other.affinity
    }
}

/// The protocol's name.
pub fn proto_str(proto: u8) -> (r: &'static str)
    ensures
        r@ == (if proto == UDP {
            "udp"@
        } else {
            "tcp"@
        }),
{
    if proto == UDP {
        "udp"
    } else {
        "tcp"
    }
}

/// The canonical `vip:port/proto` text of a key.
pub open spec fn key_text(key: Key) -> Seq<char> {
    digits::ip4_text(key.0) + ":"@ + digits::dec(key.1 as int) + "/"@ + digits::dec(key.2 as int)
}

/// The backend-slot namespace of a key: the hash of its text, never zero.
pub open spec fn svc_id_spec(key: Key) -> u32 {
    let h = hash::fnv32(hash::FNV32_BASIS, vstd::utf8::encode_utf8(key_text(key)));
    if h < 1 {
        1
    } else {
        h
    }
}

/// Stable nonzero backend-slot namespace for a service key (FNV-1a/32 of the
/// canonical `vip:port/proto` string).
pub fn svc_id(key: &Key) -> (r: u32)
    ensures
        r == svc_id_spec(*key),
{
    let mut s = digits::fmt_ip4(key.0);
    s.append(":");
    s.append(digits::fmt_u32(key.1 as u32).as_str());
    s.append("/");
    s.append(digits::fmt_u32(key.2 as u32).as_str());
    let h: u32 = hash::fnv1a32(hash::FNV32_BASIS, s.as_str().as_bytes());
    if h < 1 {
        1
    } else {
        h
    }
}

/// The protocol a port names: TCP if none, nothing if unsupported.
pub open spec fn named_proto(p: Option<Seq<char>>) -> Option<u8> {
    match p {
        None => Some(TCP),
        Some(s) => if s == "TCP"@ {
            Some(TCP)
        } else if s == "UDP"@ {
            Some(UDP)
        } else {
            None
        },
    }
}

/// The protocol a port names.
pub fn parse_proto(p: &Option<String>) -> (r: Option<u8>)
    ensures
        r == named_proto(text::opt(*p)),
{
    match p {
        None => Some(TCP),
        Some(s) => if text::same(s.as_str(), "TCP") {
            Some(TCP)
        } else if text::same(s.as_str(), "UDP") {
            Some(UDP)
        } else {
            None
        },
    }
}

/// Normalized port-name equality: `None` and `""` both mean "unnamed".
pub fn name_eq(a: &Option<String>, b: &Option<String>) -> (r: bool)
    ensures
        r == (text::or_empty(text::opt(*a)) == text::or_empty(text::opt(*b))),
{
    let x = text::text_of(a);
    let y = text::text_of(b);
    text::same(x.as_str(), y.as_str())
}

/// A port number that fits.
pub open spec fn port_value(p: int) -> Option<u16> {
    if 0 <= p <= 65535 {
        Some(p as u16)
    } else {
        None
    }
}

fn to_port(p: i32) -> (r: Option<u16>)
    ensures
        r == port_value(p as int),
{
    if 0 <= p && p <= 65535 {
        Some(p as u16)
    } else {
        None
    }
}

// ----------------------------------------------------------------- backends

/// Whether the slice port stands for the service port.
pub open spec fn port_fits(ep: EndpointPortView, name: Option<Seq<char>>, proto: u8) -> bool {
    text::or_empty(ep.name) == text::or_empty(name) && named_proto(ep.protocol) == Some(proto)
}

/// The target port of a service port: that of the first fitting slice port.
pub open spec fn target_in(
    ports: Seq<EndpointPortView>,
    name: Option<Seq<char>>,
    proto: u8,
) -> Option<u16>
    decreases ports.len(),
{
    if ports.len() == 0 {
        None
    } else if port_fits(ports[0], name, proto) {
        match ports[0].port {
            Some(p) => port_value(p as int),
            None => None,
        }
    } else {
        target_in(ports.skip(1), name, proto)
    }
}

/// The target port of a service port in a slice.
pub open spec fn target_of(
    slice: EndpointSliceView,
    name: Option<Seq<char>>,
    proto: u8,
) -> Option<u16> {
    match slice.ports {
        Some(ports) => target_in(ports, name, proto),
        None => None,
    }
}

fn target_port(slice: &EndpointSlice, name: &Option<String>, proto: u8) -> (r: Option<u16>)
    ensures
        r == target_of(slice@, text::opt(*name), proto),
{
    let ports = match &slice.ports {
        Some(p) => p,
        None => {
            return None;
        },
    };
    let ghost all = text::views(ports@);
    let ghost want = text::opt(*name);
    let mut i: usize = 0;
    assert(all.skip(0) =~= all);
    while i < ports.len()
        invariant
            i <= ports@.len(),
            all == text::views(ports@),
            want == text::opt(*name),
            slice@.ports == Some(all),
            target_in(all, want, proto) == target_in(all.skip(i as int), want, proto),
        decreases ports@.len() - i,
    {
        proof {
            assert(all.skip(i as int)[0] == ports@[i as int]@);
            assert(all.skip(i as int).skip(1) =~= all.skip(i + 1));
        }
        if name_eq(&ports[i].name, name) {
            if let Some(p) = parse_proto(&ports[i].protocol) {
                if p == proto {
                    return match ports[i].port {
                        Some(n) => to_port(n),
                        None => None,
                    };
                }
            }
        }
        i += 1;
    }
    None
}

/// Whether `b` is an address of the endpoint at the target port.
pub open spec fn endpoint_has(ep: EndpointView, target: u16, b: (u32, u16)) -> bool {
    &&& ep.ready != Some(false)
    &&& b.1 == target
    &&& exists|k: int|
        0 <= k < ep.addresses.len() && digits::ip4_value(#[trigger] ep.addresses[k]) == Some(b.0)
}

/// Whether the slice gives the service port the backend `b`.
pub open spec fn slice_has(
    slice: EndpointSliceView,
    name: Option<Seq<char>>,
    proto: u8,
    b: (u32, u16),
) -> bool {
    &&& target_of(slice, name, proto) is Some
    &&& slice.endpoints is Some
    &&& exists|j: int|
        0 <= j < slice.endpoints->0.len() && endpoint_has(
            #[trigger] slice.endpoints->0[j],
            target_of(slice, name, proto)->0,
            b,
        )
}

/// Whether the slice belongs to the service: its namespace, IPv4 addresses,
/// and the service's name in its label.
pub open spec fn slice_of(slice: EndpointSliceView, ns: Seq<char>, name: Seq<char>) -> bool {
    &&& slice.namespace == Some(ns)
    &&& slice.address_type == "IPv4"@
    &&& slice.labels.contains_key("kubernetes.io/service-name"@)
    &&& slice.labels["kubernetes.io/service-name"@] == name
}

/// The backends of a service port.
pub open spec fn backends_of(
    slices: Seq<EndpointSliceView>,
    ns: Seq<char>,
    name: Seq<char>,
    port_name: Option<Seq<char>>,
    proto: u8,
) -> Set<(u32, u16)> {
    Set::new(
        |b: (u32, u16)|
            exists|i: int|
                0 <= i < slices.len() && slice_of(#[trigger] slices[i], ns, name) && slice_has(
                    slices[i],
                    port_name,
                    proto,
                    b,
                ),
    )
}

/// Add the addresses of one endpoint.
fn add_endpoint(out: &mut OrdSet<(u32, u16)>, ep: &Endpoint, target: u16)
    ensures
        forall|b: (u32, u16)| #[trigger]
            final(out)@.contains(b) <==> old(out)@.contains(b) || endpoint_has(ep@, target, b),
{
    if let Some(ready) = ep.ready {
        if !ready {
            return;
        }
    }
    let ghost before = out@;
    let ghost all = text::views(ep.addresses@);
    let mut k: usize = 0;
    while k < ep.addresses.len()
        invariant
            k <= ep.addresses@.len(),
            all == text::views(ep.addresses@),
            forall|b: (u32, u16)| #[trigger]
                out@.contains(b) <==> before.contains(b) || (b.1 == target && exists|j: int|
                    0 <= j < k && digits::ip4_value(#[trigger] all[j]) == Some(b.0)),
        decreases ep.addresses@.len() - k,
    {
        let ghost prev = out@;
        let ghost text = ep.addresses@[k as int]@;
        if let Some(ip) = digits::parse_ip4(ep.addresses[k].as_str()) {
            out.insert((ip, target));
        }
        proof {
            assert(all[k as int] == text);
            assert forall|b: (u32, u16)| #[trigger] out@.contains(b) <==> before.contains(b) || (
            b.1 == target && exists|j: int|
                0 <= j < k + 1 && digits::ip4_value(#[trigger] all[j]) == Some(b.0)) by {
                assert(out@.contains(b) <==> prev.contains(b) || (digits::ip4_value(text)
                    == Some(b.0) && b.1 == target));
                if exists|j: int|
                    0 <= j < k && digits::ip4_value(#[trigger] all[j]) == Some(b.0) {
                    let j = choose|j: int|
                        0 <= j < k && digits::ip4_value(#[trigger] all[j]) == Some(b.0);
                    assert(digits::ip4_value(all[j]) == Some(b.0));
                }
            }
        }
        k += 1;
    }
}

/// Add the endpoints of one slice.
fn add_slice(
    out: &mut OrdSet<(u32, u16)>,
    slice: &EndpointSlice,
    name: &Option<String>,
    proto: u8,
)
    ensures
        forall|b: (u32, u16)| #[trigger]
            final(out)@.contains(b) <==> old(out)@.contains(b) || slice_has(
                slice@,
                text::opt(*name),
                proto,
                b,
            ),
{
    let target: u16 = match target_port(slice, name, proto) {
        Some(t) => t,
        None => {
            return;
        },
    };
    let eps = match &slice.endpoints {
        Some(e) => e,
        None => {
            return;
        },
    };
    let ghost before = out@;
    let ghost all = text::views(eps@);
    let mut j: usize = 0;
    while j < eps.len()
        invariant
            j <= eps@.len(),
            all == text::views(eps@),
            forall|b: (u32, u16)| #[trigger]
                out@.contains(b) <==> before.contains(b) || exists|i: int|
                    0 <= i < j && endpoint_has(#[trigger] all[i], target, b),
        decreases eps@.len() - j,
    {
        let ghost prev = out@;
        add_endpoint(out, &eps[j], target);
        proof {
            assert(all[j as int] == eps@[j as int]@);
            assert forall|b: (u32, u16)| #[trigger] out@.contains(b) <==> before.contains(b)
                || exists|i: int|
                0 <= i < j + 1 && endpoint_has(#[trigger] all[i], target, b) by {
                assert(out@.contains(b) <==> prev.contains(b) || endpoint_has(
                    all[j as int],
                    target,
                    b,
                ));
                if exists|i: int| 0 <= i < j && endpoint_has(#[trigger] all[i], target, b) {
                    let i = choose|i: int|
                        0 <= i < j && endpoint_has(#[trigger] all[i], target, b);
                    assert(endpoint_has(all[i], target, b));
                }
            }
        }
        j += 1;
    }
    proof {
        assert(slice@.endpoints == Some(all));
        assert(target_of(slice@, text::opt(*name), proto) == Some(target));
        assert forall|b: (u32, u16)| #[trigger] out@.contains(b) <==> before.contains(b)
            || slice_has(slice@, text::opt(*name), proto, b) by {
            let eps = slice@.endpoints->0;
            assert(eps == all);
            if slice_has(slice@, text::opt(*name), proto, b) {
                let i = choose|i: int|
                    0 <= i < eps.len() && endpoint_has(#[trigger] eps[i], target, b);
                assert(endpoint_has(all[i], target, b));
            }
            if exists|i: int| 0 <= i < all.len() && endpoint_has(#[trigger] all[i], target, b) {
                let i = choose|i: int|
                    0 <= i < all.len() && endpoint_has(#[trigger] all[i], target, b);
                assert(endpoint_has(eps[i], target, b));
            }
        }
    }
}

/// Whether the slice belongs to the service.
fn slice_belongs(slice: &EndpointSlice, ns: &str, name: &str) -> (r: bool)
    ensures
        r == slice_of(slice@, ns@, name@),
{
    if !text::holds(&slice.namespace, ns) || !text::same(slice.address_type.as_str(), "IPv4") {
        return false;
    }
    match slice.labels.get(&"kubernetes.io/service-name".to_owned()) {
        Some(v) => text::same(v.as_str(), name),
        None => false,
    }
}

/// The backends of a service port.
fn service_backends(
    slices: &[EndpointSlice],
    ns: &str,
    name: &str,
    port_name: &Option<String>,
    proto: u8,
) -> (r: OrdSet<(u32, u16)>)
    ensures
        r@ == backends_of(text::views(slices@), ns@, name@, text::opt(*port_name), proto),
{
    let mut out: OrdSet<(u32, u16)> = OrdSet::new();
    let ghost all = text::views(slices@);
    let ghost pn = text::opt(*port_name);
    let mut i: usize = 0;
    while i < slices.len()
        invariant
            i <= slices@.len(),
            all == text::views(slices@),
            pn == text::opt(*port_name),
            forall|b: (u32, u16)| #[trigger]
                out@.contains(b) <==> exists|j: int|
                    0 <= j < i && slice_of(#[trigger] all[j], ns@, name@) && slice_has(
                        all[j],
                        pn,
                        proto,
                        b,
                    ),
        decreases slices@.len() - i,
    {
        let ghost prev = out@;
        if slice_belongs(&slices[i], ns, name) {
            add_slice(&mut out, &slices[i], port_name, proto);
        }
        proof {
            assert(all[i as int] == slices@[i as int]@);
            assert forall|b: (u32, u16)| #[trigger] out@.contains(b) <==> exists|j: int|
                0 <= j < i + 1 && slice_of(#[trigger] all[j], ns@, name@) && slice_has(
                    all[j],
                    pn,
                    proto,
                    b,
                ) by {
                assert(out@.contains(b) <==> prev.contains(b) || (slice_of(
                    all[i as int],
                    ns@,
                    name@,
                ) && slice_has(all[i as int], pn, proto, b)));
                if prev.contains(b) {
                    let j = choose|j: int|
                        0 <= j < i && slice_of(#[trigger] all[j], ns@, name@) && slice_has(
                            all[j],
                            pn,
                            proto,
                            b,
                        );
                    assert(slice_of(all[j], ns@, name@));
                }
            }
        }
        i += 1;
    }
    assert(out@ =~= backends_of(all, ns@, name@, pn, proto));
    out
}

// ------------------------------------------------------------------ desired

/// The VIP of a service: its IPv4 ClusterIP, unless it is an ExternalName.
pub open spec fn vip_of(spec: ServiceSpecView) -> Option<u32> {
    if spec.type_ == Some("ExternalName"@) {
        None
    } else {
        match spec.cluster_ip {
            Some(ip) => digits::ip4_value(ip),
            None => None,
        }
    }
}

fn service_vip(spec: &ServiceSpec) -> (r: Option<u32>)
    ensures
        r == vip_of(spec@),
{
    if text::holds(&spec.type_, "ExternalName") {
        return None;
    }
    match &spec.cluster_ip {
        Some(ip) => digits::parse_ip4(ip.as_str()),
        None => None,
    }
}

/// Namespace of a service object; the default one if it names none.
pub open spec fn namespace_of(svc: ServiceView) -> Seq<char> {
    match svc.namespace {
        Some(ns) => ns,
        None => "default"@,
    }
}

/// What one service port adds: its service at the VIP, and at the node's
/// address if it has a node port and the address is known. Nothing for an
/// unsupported protocol, an impossible port, or an empty backend set.
pub open spec fn with_port(
    m: Map<Key, SvcView>,
    svc: ServiceView,
    sp: ServicePortView,
    vip: u32,
    slices: Seq<EndpointSliceView>,
    node_ip: Option<u32>,
) -> Map<Key, SvcView> {
    match (named_proto(sp.protocol), port_value(sp.port as int)) {
        (Some(proto), Some(port)) => {
            let backends = backends_of(
                slices,
                namespace_of(svc),
                text::or_empty(svc.name),
                sp.name,
                proto,
            );
            let s = SvcView {
                backends,
                affinity: svc.spec->0.session_affinity == Some("ClientIP"@),
            };
            if port == 0 || backends == Set::<(u32, u16)>::empty() {
                m
            } else {
                let np = match sp.node_port {
                    Some(p) => port_value(p as int),
                    None => None,
                };
                let n = match (node_ip, np) {
                    (Some(node), Some(p)) if p != 0 => m.insert((node, p, proto), s),
                    _ => m,
                };
                n.insert((vip, port, proto), s)
            }
        },
        _ => m,
    }
}

/// What the ports of a service add, in order.
pub open spec fn with_ports(
    m: Map<Key, SvcView>,
    svc: ServiceView,
    ports: Seq<ServicePortView>,
    vip: u32,
    slices: Seq<EndpointSliceView>,
    node_ip: Option<u32>,
) -> Map<Key, SvcView>
    decreases ports.len(),
{
    if ports.len() == 0 {
        m
    } else {
        with_port(
            with_ports(m, svc, ports.drop_last(), vip, slices, node_ip),
            svc,
            ports.last(),
            vip,
            slices,
            node_ip,
        )
    }
}

/// What a service adds: nothing without a VIP.
pub open spec fn with_service(
    m: Map<Key, SvcView>,
    svc: ServiceView,
    slices: Seq<EndpointSliceView>,
    node_ip: Option<u32>,
) -> Map<Key, SvcView> {
    match svc.spec {
        Some(spec) => match (vip_of(spec), spec.ports) {
            (Some(vip), Some(ports)) => with_ports(m, svc, ports, vip, slices, node_ip),
            _ => m,
        },
        None => m,
    }
}

/// The desired state; a later service replaces an earlier one at its key.
pub open spec fn desired(
    services: Seq<ServiceView>,
    slices: Seq<EndpointSliceView>,
    node_ip: Option<u32>,
) -> Map<Key, SvcView>
    decreases services.len(),
{
    if services.len() == 0 {
        Map::empty()
    } else {
        with_service(
            desired(services.drop_last(), slices, node_ip),
            services.last(),
            slices,
            node_ip,
        )
    }
}

/// Add what one service port asks for.
fn add_port(
    out: &mut Desired,
    svc: &Service,
    spec: &ServiceSpec,
    sp: &ServicePort,
    vip: u32,
    slices: &[EndpointSlice],
    node_ip: Option<u32>,
)
    requires
        svc@.spec == Some(spec@),
    ensures
        final(out)@ == with_port(old(out)@, svc@, sp@, vip, text::views(slices@), node_ip),
{
    let proto: u8 = match parse_proto(&sp.protocol) {
        Some(p) => p,
        None => {
            return;
        },
    };
    let port: u16 = match to_port(sp.port) {
        Some(p) => p,
        None => {
            return;
        },
    };
    if port == 0 {
        return;
    }
    let ns = match &svc.namespace {
        Some(ns) => ns.clone(),
        None => "default".to_owned(),
    };
    let name = text::text_of(&svc.name);
    let backends = service_backends(slices, ns.as_str(), name.as_str(), &sp.name, proto);
    let n: usize = backends.len();
    if n == 0 {
        assert(backends@ =~= Set::<(u32, u16)>::empty()) by {
            assert forall|b: (u32, u16)| !backends@.contains(b) by {
                assert(!backends.listing().contains(b));
            }
        }
        return;
    }
    proof {
        assert(backends.listing().contains(backends.listing()[0]));
        assert(backends@.contains(backends.listing()[0]));
    }
    let affinity = text::holds(&spec.session_affinity, "ClientIP");
    let s = Svc { backends, affinity };
    if let Some(node) = node_ip {
        if let Some(p) = sp.node_port {
            if let Some(np) = to_port(p) {
                if np != 0 {
                    out.insert((node, np, proto), s.clone());
                }
            }
        }
    }
    out.insert((vip, port, proto), s);
}

/// Add what one service asks for.
fn add_service(
    out: &mut Desired,
    svc: &Service,
    slices: &[EndpointSlice],
    node_ip: Option<u32>,
)
    ensures
        final(out)@ == with_service(old(out)@, svc@, text::views(slices@), node_ip),
{
    let spec = match &svc.spec {
        Some(s) => s,
        None => {
            return;
        },
    };
    let vip: u32 = match service_vip(spec) {
        Some(v) => v,
        None => {
            return;
        },
    };
    let ports = match &spec.ports {
        Some(p) => p,
        None => {
            return;
        },
    };
    let ghost before = out@;
    let ghost all = text::views(ports@);
    let ghost sl = text::views(slices@);
    let mut i: usize = 0;
    assert(all.take(0).len() == 0);
    while i < ports.len()
        invariant
            i <= ports@.len(),
            all == text::views(ports@),
            sl == text::views(slices@),
            svc@.spec == Some(spec@),
            out@ == with_ports(before, svc@, all.take(i as int), vip, sl, node_ip),
        decreases ports@.len() - i,
    {
        proof {
            assert(all.take(i + 1).drop_last() =~= all.take(i as int));
            assert(all.take(i + 1).last() == ports@[i as int]@);
        }
        add_port(out, svc, spec, &ports[i], vip, slices, node_ip);
        i += 1;
    }
    assert(all.take(i as int) =~= all);
}

/// The desired state of the listed services.
pub fn build_desired(
    services: &[Service],
    slices: &[EndpointSlice],
    node_ip: Option<u32>,
) -> (r: Desired)
    ensures
        r@ == desired(text::views(services@), text::views(slices@), node_ip),
{
    let mut out: Desired = OrdMap::new();
    let ghost all = text::views(services@);
    let ghost sl = text::views(slices@);
    let mut i: usize = 0;
    assert(all.take(0).len() == 0);
    while i < services.len()
        invariant
            i <= services@.len(),
            all == text::views(services@),
            sl == text::views(slices@),
            out@ == desired(all.take(i as int), sl, node_ip),
        decreases services@.len() - i,
    {
        proof {
            assert(all.take(i + 1).drop_last() =~= all.take(i as int));
            assert(all.take(i + 1).last() == services@[i as int]@);
        }
        add_service(&mut out, &services[i], slices, node_ip);
        i += 1;
    }
    assert(all.take(i as int) =~= all);
    out
}

// --------------------------------------------------------------------- laws

/// The backend-slot namespace of a service is never zero.
pub proof fn svc_id_is_nonzero(key: Key)
    ensures
        svc_id_spec(key) != 0,
{
}

/// A headless or ExternalName service adds nothing.
pub proof fn service_without_vip_is_skipped(
    services: Seq<ServiceView>,
    svc: ServiceView,
    slices: Seq<EndpointSliceView>,
    node_ip: Option<u32>,
)
    requires
        svc.spec is None || vip_of(svc.spec->0) is None,
    ensures
        desired(services.push(svc), slices, node_ip) == desired(services, slices, node_ip),
{
    assert(services.push(svc).drop_last() =~= services);
}

/// The words a headless service carries in place of an address are no VIP.
pub proof fn headless_has_no_vip(spec: ServiceSpecView)
    requires
        spec.cluster_ip == Some("None"@) || spec.cluster_ip == Some(""@) || spec.cluster_ip is None,
    ensures
        vip_of(spec) is None,
{
    reveal_strlit("None");
    reveal_strlit("");
    assert forall|ip: u32| "None"@ != #[trigger] digits::ip4_text(ip) && ""@ != digits::ip4_text(
        ip,
    ) by {
        digits::ip4_text_has_dots(ip);
    }
}

/// An endpoint that is not ready is no backend.
pub proof fn unready_endpoint_is_no_backend(ep: EndpointView, target: u16, b: (u32, u16))
    requires
        ep.ready == Some(false),
    ensures
        !endpoint_has(ep, target, b),
{
}

/// Every programmed service has a backend, a supported protocol and a port.
pub proof fn desired_services_are_usable(
    services: Seq<ServiceView>,
    slices: Seq<EndpointSliceView>,
    node_ip: Option<u32>,
    key: Key,
)
    requires
        desired(services, slices, node_ip).contains_key(key),
    ensures
        desired(services, slices, node_ip)[key].backends != Set::<(u32, u16)>::empty(),
        key.1 != 0,
        key.2 == TCP || key.2 == UDP,
    decreases services.len(),
{
    if services.len() > 0 {
        let m = desired(services.drop_last(), slices, node_ip);
        if m.contains_key(key) {
            desired_services_are_usable(services.drop_last(), slices, node_ip, key);
        }
        let svc = services.last();
        if svc.spec is Some && vip_of(svc.spec->0) is Some && svc.spec->0.ports is Some {
            ports_are_usable(m, svc, svc.spec->0.ports->0, vip_of(svc.spec->0)->0, slices, node_ip, key);
        }
    }
}

proof fn ports_are_usable(
    m: Map<Key, SvcView>,
    svc: ServiceView,
    ports: Seq<ServicePortView>,
    vip: u32,
    slices: Seq<EndpointSliceView>,
    node_ip: Option<u32>,
    key: Key,
)
    requires
        m.contains_key(key) ==> m[key].backends != Set::<(u32, u16)>::empty() && key.1 != 0 && (
        key.2 == TCP || key.2 == UDP),
    ensures
        ({
            let n = with_ports(m, svc, ports, vip, slices, node_ip);
            n.contains_key(key) ==> n[key].backends != Set::<(u32, u16)>::empty() && key.1 != 0 && (
            key.2 == TCP || key.2 == UDP)
        }),
    decreases ports.len(),
{
    if ports.len() > 0 {
        ports_are_usable(m, svc, ports.drop_last(), vip, slices, node_ip, key);
    }
}

/// A node port exposes the same service on the node's own address.
pub proof fn node_port_mirrors_cluster_ip(
    m: Map<Key, SvcView>,
    svc: ServiceView,
    sp: ServicePortView,
    vip: u32,
    slices: Seq<EndpointSliceView>,
    node: u32,
    proto: u8,
    port: u16,
    np: u16,
)
    requires
        named_proto(sp.protocol) == Some(proto),
        sp.port == port,
        port != 0,
        sp.node_port == Some(np as i32),
        np != 0,
        backends_of(slices, namespace_of(svc), text::or_empty(svc.name), sp.name, proto) != Set::<
            (u32, u16),
        >::empty(),
    ensures
        ({
            let n = with_port(m, svc, sp, vip, slices, Some(node));
            &&& n.contains_key((vip, port, proto))
            &&& n.contains_key((node, np, proto))
            &&& n[(node, np, proto)] == n[(vip, port, proto)]
        }),
{
}

/// The backends of a service port do not depend on the order of the slices, or
/// on how often one is listed.
proof fn backends_in_any_order(
    a: Seq<EndpointSliceView>,
    b: Seq<EndpointSliceView>,
    ns: Seq<char>,
    name: Seq<char>,
    port_name: Option<Seq<char>>,
    proto: u8,
)
    requires
        forall|x: EndpointSliceView|
            slice_of(x, ns, name) ==> (a.contains(x) <==> #[trigger] b.contains(x)),
    ensures
        backends_of(a, ns, name, port_name, proto) == backends_of(b, ns, name, port_name, proto),
{
    let (s, t) = (
        backends_of(a, ns, name, port_name, proto),
        backends_of(b, ns, name, port_name, proto),
    );
    assert forall|x: (u32, u16)| s.contains(x) <==> t.contains(x) by {
        if s.contains(x) {
            let i = choose|i: int|
                0 <= i < a.len() && slice_of(#[trigger] a[i], ns, name) && slice_has(
                    a[i],
                    port_name,
                    proto,
                    x,
                );
            assert(a.contains(a[i]));
            assert(b.contains(a[i]));
            let j = choose|j: int| 0 <= j < b.len() && b[j] == a[i];
            assert(slice_of(b[j], ns, name));
        }
        if t.contains(x) {
            let i = choose|i: int|
                0 <= i < b.len() && slice_of(#[trigger] b[i], ns, name) && slice_has(
                    b[i],
                    port_name,
                    proto,
                    x,
                );
            assert(b.contains(b[i]));
            assert(a.contains(b[i]));
            let j = choose|j: int| 0 <= j < a.len() && a[j] == b[i];
            assert(slice_of(a[j], ns, name));
        }
    }
    assert(s =~= t);
}

proof fn ports_in_any_order(
    m: Map<Key, SvcView>,
    svc: ServiceView,
    ports: Seq<ServicePortView>,
    vip: u32,
    a: Seq<EndpointSliceView>,
    b: Seq<EndpointSliceView>,
    node_ip: Option<u32>,
)
    requires
        forall|x: EndpointSliceView|
            slice_of(x, namespace_of(svc), text::or_empty(svc.name)) ==> (a.contains(x)
                <==> #[trigger] b.contains(x)),
    ensures
        with_ports(m, svc, ports, vip, a, node_ip) == with_ports(m, svc, ports, vip, b, node_ip),
    decreases ports.len(),
{
    if ports.len() > 0 {
        ports_in_any_order(m, svc, ports.drop_last(), vip, a, b, node_ip);
        let sp = ports.last();
        if let Some(proto) = named_proto(sp.protocol) {
            backends_in_any_order(
                a,
                b,
                namespace_of(svc),
                text::or_empty(svc.name),
                sp.name,
                proto,
            );
        }
    }
}

/// Whether the service reads the slice: it has a VIP and ports, and the slice is
/// one of its own.
pub open spec fn reads(svc: ServiceView, x: EndpointSliceView) -> bool {
    &&& svc.spec matches Some(spec)
    &&& vip_of(spec) is Some
    &&& spec.ports is Some
    &&& slice_of(x, namespace_of(svc), text::or_empty(svc.name))
}

/// Whether one of the services reads the slice.
pub open spec fn is_read(services: Seq<ServiceView>, x: EndpointSliceView) -> bool {
    exists|i: int| 0 <= i < services.len() && reads(#[trigger] services[i], x)
}

/// The desired state depends on which endpoint slices there are for the services
/// to read, and not on their order, on how often one is listed, or on what
/// other slices there are.
pub proof fn slices_in_any_order(
    services: Seq<ServiceView>,
    a: Seq<EndpointSliceView>,
    b: Seq<EndpointSliceView>,
    node_ip: Option<u32>,
)
    requires
        forall|x: EndpointSliceView|
            is_read(services, x) ==> (a.contains(x) <==> #[trigger] b.contains(x)),
    ensures
        desired(services, a, node_ip) == desired(services, b, node_ip),
    decreases services.len(),
{
    if services.len() > 0 {
        let head = services.drop_last();
        let svc = services.last();
        assert(services[services.len() - 1] == svc);
        assert forall|x: EndpointSliceView| is_read(head, x) implies (a.contains(x)
            <==> #[trigger] b.contains(x)) by {
            let i = choose|i: int| 0 <= i < head.len() && reads(#[trigger] head[i], x);
            assert(reads(services[i], x));
        }
        slices_in_any_order(head, a, b, node_ip);
        let m = desired(head, a, node_ip);
        if let Some(spec) = svc.spec {
            if let Some(vip) = vip_of(spec) {
                if let Some(ports) = spec.ports {
                    assert forall|x: EndpointSliceView|
                        slice_of(x, namespace_of(svc), text::or_empty(svc.name)) implies (
                    a.contains(x) <==> #[trigger] b.contains(x)) by {
                        assert(reads(services[services.len() - 1], x));
                    }
                    ports_in_any_order(m, svc, ports, vip, a, b, node_ip);
                }
            }
        }
    }
}

/// A slice that no service reads changes nothing, wherever it is listed.
pub proof fn unread_slice_changes_nothing(
    services: Seq<ServiceView>,
    slices: Seq<EndpointSliceView>,
    i: int,
    node_ip: Option<u32>,
)
    requires
        0 <= i < slices.len(),
        !is_read(services, slices[i]),
    ensures
        desired(services, slices.remove(i), node_ip) == desired(services, slices, node_ip),
{
    let rest = slices.remove(i);
    assert forall|x: EndpointSliceView| is_read(services, x) implies (rest.contains(x)
        <==> #[trigger] slices.contains(x)) by {
        if slices.contains(x) {
            let j = choose|j: int| 0 <= j < slices.len() && slices[j] == x;
            assert(rest[if j < i { j } else { j - 1 }] == x);
        }
        if rest.contains(x) {
            let j = choose|j: int| 0 <= j < rest.len() && rest[j] == x;
            assert(slices[if j < i { j } else { j + 1 }] == x);
        }
    }
    slices_in_any_order(services, rest, slices, node_ip);
}

} // verus!
