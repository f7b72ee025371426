//! What the cluster's objects become: laws that say, in terms of services, slices,
//! endpoints and label sets, which services are programmed and how identities and
//! published objects follow from pods.

use vstd::prelude::*;
use crate::digits;
use crate::identity;
use crate::objects::{
    CidListingView, EndpointPortView, EndpointSliceView, ServicePortView, ServiceSpecView,
    ServiceView,
};
use crate::sync;
use crate::sync::{Key, SvcView};

verus! {

// --------------------------------- services ---------------------------------

/// The number of a named protocol that can be balanced: TCP, which is also meant
/// where none is named, and UDP.
pub open spec fn balanced(p: Option<Seq<char>>) -> Option<u8> {
    if p is None || p == Some("TCP"@) {
        Some(6)
    } else if p == Some("UDP"@) {
        Some(17)
    } else {
        None
    }
}

/// Only TCP and UDP are balanced, and only ports of sixteen bits exist.
pub proof fn protocols_and_ports_are_read(p: Option<Seq<char>>, n: int)
    ensures
        sync::named_proto(p) == balanced(p),
        0 <= n < 0x1_0000 ==> sync::port_value(n) == Some(n as u16),
        n < 0 || n >= 0x1_0000 ==> sync::port_value(n) is None,
{
    reveal_strlit("TCP");
    reveal_strlit("UDP");
    assert("TCP"@[0] != "UDP"@[0]);
}

/// Whether two port names are the same; an absent one is as an empty one.
pub open spec fn same_name(a: Option<Seq<char>>, b: Option<Seq<char>>) -> bool {
    ||| a == b
    ||| a is None && b == Some(Seq::<char>::empty())
    ||| b is None && a == Some(Seq::<char>::empty())
}

/// The target of a service port in a slice is the port of the first entry that has
/// its name and protocol; without such an entry, or with one that gives no usable
/// port, there is none.
pub proof fn target_is_the_first_fitting_port(
    ports: Seq<EndpointPortView>,
    name: Option<Seq<char>>,
    proto: u8,
    at: int,
)
    requires
        0 <= at <= ports.len(),
        forall|i: int|
            0 <= i < at ==> !(same_name((#[trigger] ports[i]).name, name) && balanced(
                ports[i].protocol,
            ) == Some(proto)),
        at < ports.len() ==> same_name(ports[at].name, name) && balanced(ports[at].protocol)
            == Some(proto),
    ensures
        at == ports.len() ==> sync::target_in(ports, name, proto) is None,
        at < ports.len() ==> match ports[at].port {
            Some(p) => if 0 <= p < 0x1_0000 {
                sync::target_in(ports, name, proto) == Some(p as u16)
            } else {
                sync::target_in(ports, name, proto) is None
            },
            None => sync::target_in(ports, name, proto) is None,
        },
    decreases at,
{
    if ports.len() > 0 {
        protocols_and_ports_are_read(ports[0].protocol, 0);
        fitting_is_same(ports[0], name, proto);
        if at > 0 {
            let rest = ports.skip(1);
            assert(!(same_name(ports[0].name, name) && balanced(ports[0].protocol) == Some(proto)));
            assert forall|i: int| 0 <= i < at - 1 implies !(same_name(
                (#[trigger] rest[i]).name,
                name,
            ) && balanced(rest[i].protocol) == Some(proto)) by {
                assert(rest[i] == ports[i + 1]);
            }
            target_is_the_first_fitting_port(rest, name, proto, at - 1);
        }
    }
}

proof fn fitting_is_same(p: EndpointPortView, name: Option<Seq<char>>, proto: u8)
    ensures
        sync::port_fits(p, name, proto) == (same_name(p.name, name) && balanced(p.protocol)
            == Some(proto)),
{
    protocols_and_ports_are_read(p.protocol, 0);
    assert(Seq::<char>::empty() =~= Seq::<char>::empty());
}

/// Whether a slice is one of a service's: of its namespace, of IPv4, and labelled
/// with its name.
pub open spec fn belongs(slice: EndpointSliceView, ns: Seq<char>, name: Seq<char>) -> bool {
    &&& slice.namespace == Some(ns)
    &&& slice.address_type == "IPv4"@
    &&& slice.labels.get("kubernetes.io/service-name"@) == Some(name)
}

/// A service's backends are the addresses of the endpoints of its slices that are
/// not unready, each at the slice's target of the port; and nothing else.
pub proof fn backends_are_the_ready_endpoints(
    slices: Seq<EndpointSliceView>,
    ns: Seq<char>,
    name: Seq<char>,
    port_name: Option<Seq<char>>,
    proto: u8,
    addr: u32,
    port: u16,
)
    ensures
        sync::backends_of(slices, ns, name, port_name, proto).contains((addr, port)) <==> exists|
            i: int,
            j: int,
            k: int,
        |
            {
                &&& 0 <= i < slices.len() && belongs(slices[i], ns, name)
                &&& slices[i].ports is Some && sync::target_in(
                    slices[i].ports->0,
                    port_name,
                    proto,
                ) == Some(port)
                &&& slices[i].endpoints is Some && 0 <= j < slices[i].endpoints->0.len()
                &&& slices[i].endpoints->0[j].ready != Some(false)
                &&& 0 <= k < slices[i].endpoints->0[j].addresses.len()
                &&& #[trigger] digits::ip4_value(slices[i].endpoints->0[j].addresses[k]) == Some(
                    addr,
                )
            },
{
    let b = (addr, port);
    if sync::backends_of(slices, ns, name, port_name, proto).contains(b) {
        let i = choose|i: int|
            0 <= i < slices.len() && sync::slice_of(#[trigger] slices[i], ns, name)
                && sync::slice_has(slices[i], port_name, proto, b);
        let t = sync::target_of(slices[i], port_name, proto)->0;
        let j = choose|j: int|
            0 <= j < slices[i].endpoints->0.len() && sync::endpoint_has(
                #[trigger] slices[i].endpoints->0[j],
                t,
                b,
            );
        let ep = slices[i].endpoints->0[j];
        let k = choose|k: int|
            0 <= k < ep.addresses.len() && digits::ip4_value(#[trigger] ep.addresses[k]) == Some(
                addr,
            );
        assert(digits::ip4_value(slices[i].endpoints->0[j].addresses[k]) == Some(addr));
        assert(belongs(slices[i], ns, name));
    }
    assert forall|i: int, j: int, k: int|
        {
            &&& 0 <= i < slices.len() && belongs(slices[i], ns, name)
            &&& slices[i].ports is Some && sync::target_in(slices[i].ports->0, port_name, proto)
                == Some(port)
            &&& slices[i].endpoints is Some && 0 <= j < slices[i].endpoints->0.len()
            &&& slices[i].endpoints->0[j].ready != Some(false)
            &&& 0 <= k < slices[i].endpoints->0[j].addresses.len()
            &&& #[trigger] digits::ip4_value(slices[i].endpoints->0[j].addresses[k]) == Some(addr)
        } implies sync::backends_of(slices, ns, name, port_name, proto).contains(b) by {
        let ep = slices[i].endpoints->0[j];
        assert(digits::ip4_value(ep.addresses[k]) == Some(addr));
        assert(sync::endpoint_has(slices[i].endpoints->0[j], port, b));
        assert(sync::slice_has(slices[i], port_name, proto, b));
        assert(sync::slice_of(slices[i], ns, name));
    }
}

/// A service's address is its cluster address, where that is one; an external name
/// has none. Its namespace is its own, else the default one.
pub proof fn service_has_its_address(spec: ServiceSpecView, svc: ServiceView)
    ensures
        spec.type_ == Some("ExternalName"@) || spec.cluster_ip is None ==> sync::vip_of(
            spec,
        ) is None,
        spec.type_ != Some("ExternalName"@) ==> (spec.cluster_ip matches Some(ip) ==> sync::vip_of(
            spec,
        ) == digits::ip4_value(ip)),
        svc.namespace matches Some(ns) ==> sync::namespace_of(svc) == ns,
        svc.namespace is None ==> sync::namespace_of(svc) == "default"@,
{
}

/// A service port is programmed at the cluster address, and, where it has a node
/// port and the node an address, there too; both lead to the same backends and
/// keep clients on them where the service says so. A port that cannot be
/// balanced or has no backends is not programmed. No other key changes.
pub proof fn service_port_is_programmed(
    m: Map<Key, SvcView>,
    svc: ServiceView,
    sp: ServicePortView,
    vip: u32,
    slices: Seq<EndpointSliceView>,
    node_ip: Option<u32>,
    proto: u8,
    key: Key,
)
    requires
        svc.spec is Some,
        balanced(sp.protocol) == Some(proto),
    ensures
        ({
            let name = match svc.name {
                Some(n) => n,
                None => Seq::empty(),
            };
            let backends = sync::backends_of(
                slices,
                sync::namespace_of(svc),
                name,
                sp.name,
                proto,
            );
            let s = SvcView {
                backends,
                affinity: svc.spec->0.session_affinity == Some("ClientIP"@),
            };
            let r = sync::with_port(m, svc, sp, vip, slices, node_ip);
            let usable = 0 < sp.port < 0x1_0000 && backends != Set::<(u32, u16)>::empty();
            let at_vip = (vip, sp.port as u16, proto);
            let at_node = (node_ip->0, sp.node_port->0 as u16, proto);
            let on_node = node_ip is Some && sp.node_port is Some && 0 < sp.node_port->0 < 0x1_0000;
            &&& !usable ==> r == m
            &&& usable ==> r.get(at_vip) == Some(s)
            &&& usable && on_node ==> r.get(at_node) == Some(s)
            &&& usable && key != at_vip && !(on_node && key == at_node) ==> r.get(key) == m.get(key)
        }),
{
    protocols_and_ports_are_read(sp.protocol, sp.port as int);
    if sp.node_port is Some {
        protocols_and_ports_are_read(sp.protocol, sp.node_port->0 as int);
    }
}

/// What is neither TCP nor UDP is not programmed.
pub proof fn other_protocols_are_not_programmed(
    m: Map<Key, SvcView>,
    svc: ServiceView,
    sp: ServicePortView,
    vip: u32,
    slices: Seq<EndpointSliceView>,
    node_ip: Option<u32>,
)
    requires
        balanced(sp.protocol) is None,
    ensures
        sync::with_port(m, svc, sp, vip, slices, node_ip) == m,
{
    protocols_and_ports_are_read(sp.protocol, sp.port as int);
}

/// All ports of all services with an address are programmed, in their order; a
/// service without one is passed over.
pub proof fn services_are_programmed_in_turn(
    services: Seq<ServiceView>,
    svc: ServiceView,
    slices: Seq<EndpointSliceView>,
    node_ip: Option<u32>,
    ports: Seq<ServicePortView>,
    sp: ServicePortView,
    m: Map<Key, SvcView>,
    vip: u32,
)
    ensures
        sync::desired(Seq::empty(), slices, node_ip) == Map::<Key, SvcView>::empty(),
        ({
            let before = sync::desired(services, slices, node_ip);
            let after = sync::desired(services.push(svc), slices, node_ip);
            &&& svc.spec is None ==> after == before
            &&& svc.spec matches Some(spec) ==> {
                &&& sync::vip_of(spec) is None || spec.ports is None ==> after == before
                &&& sync::vip_of(spec) is Some && spec.ports is Some ==> after == sync::with_ports(
                    before,
                    svc,
                    spec.ports->0,
                    sync::vip_of(spec)->0,
                    slices,
                    node_ip,
                )
            }
        }),
        sync::with_ports(m, svc, Seq::empty(), vip, slices, node_ip) == m,
        sync::with_ports(m, svc, ports.push(sp), vip, slices, node_ip) == sync::with_port(
            sync::with_ports(m, svc, ports, vip, slices, node_ip),
            svc,
            sp,
            vip,
            slices,
            node_ip,
        ),
{
    assert(services.push(svc).drop_last() =~= services);
    assert(ports.push(sp).drop_last() =~= ports);
}

// -------------------------------- identities --------------------------------

/// A recorded label set holds each label of the pod under its cluster name, the
/// pod's namespace under its own, and nothing else.
pub proof fn record_holds_the_labels(
    ns: Seq<char>,
    labels: Map<Seq<char>, Seq<char>>,
    k: Seq<char>,
    q: Seq<char>,
)
    ensures
        ({
            let r = identity::security(ns, labels);
            let own = "io.kubernetes.pod.namespace"@;
            &&& r.get("k8s:io.kubernetes.pod.namespace"@) == Some(ns)
            &&& labels.contains_key(k) && k != own ==> r.get("k8s:"@ + k) == Some(labels[k])
            &&& labels.contains_key(own) ==> r.get("pod:io.kubernetes.pod.namespace"@) == Some(
                labels[own],
            )
            &&& r.contains_key(q) ==> q == "k8s:io.kubernetes.pod.namespace"@ || (q
                == "pod:io.kubernetes.pod.namespace"@ && labels.contains_key(own)) || exists|
                l: Seq<char>,
            |
                labels.contains_key(l) && q == #[trigger] ("k8s:"@ + l)
        }),
{
    reveal_strlit("k8s:");
    reveal_strlit("io.kubernetes.pod.namespace");
    reveal_strlit("k8s:io.kubernetes.pod.namespace");
    reveal_strlit("pod:io.kubernetes.pod.namespace");
    let r = identity::security(ns, labels);
    let own = "io.kubernetes.pod.namespace"@;
    let at = "k8s:io.kubernetes.pod.namespace"@;
    let pod = "pod:io.kubernetes.pod.namespace"@;
    assert(at[0] != pod[0]);
    assert(at =~= "k8s:"@ + own);
    let named = "k8s:"@ + k;
    assert(named.skip(4) =~= k);
    assert(named[0] == at[0]);
    assert("k8s:"@.is_prefix_of(named));
    if k != own {
        if named == at {
            assert(k =~= at.skip(4));
            assert(at.skip(4) =~= own);
        }
    }
    if r.contains_key(q) && q != at && q != pod {
        let l = q.skip(4);
        assert(q =~= "k8s:"@ + l);
        assert(labels.contains_key(l));
    }
}

/// A label set's key lists its namespace and then its labels, in the order of their
/// names, each as a name and a value.
pub proof fn key_lists_the_labels(ns: Seq<char>, labels: Map<Seq<char>, Seq<char>>, i: int)
    ensures
        ({
            let l = crate::ordmap::listing_of::<String, Seq<char>>(labels);
            let t = identity::label_texts(ns, labels);
            &&& t.len() == l.len() + 1
            &&& t[0] == "k8s:io.kubernetes.pod.namespace="@ + ns
            &&& 0 <= i < l.len() ==> t[i + 1] == "k8s:"@ + l[i].0 + "="@ + l[i].1
            &&& identity::key_text(ns, labels) == crate::text::joined(t, ";"@)
        }),
{
}

/// A listed record whose name is a number of thirty-two bits is adopted under its
/// labels' key, and numbers go on above the greatest; other records are ignored,
/// and without any the first identity is two hundred and fifty-six.
pub proof fn listed_record_is_adopted(cids: Seq<CidListingView>, c: CidListingView)
    ensures
        ({
            let none = identity::adopted(Seq::empty());
            let before = identity::adopted(cids);
            let after = identity::adopted(cids.push(c));
            &&& none.table == Map::<Seq<char>, u32>::empty() && none.max_id + 1 == 256
            &&& match digits::spelled(c.name, 0xffff_ffff) {
                None => after == before,
                Some(id) => {
                    &&& after.table == before.table.insert(
                        identity::record_key(c.labels),
                        id as u32,
                    )
                    &&& after.max_id == if id as u32 > before.max_id {
                        id as u32
                    } else {
                        before.max_id
                    }
                },
            }
        }),
{
    assert(cids.push(c).drop_last() =~= cids);
}

/// An unused record gathers one strike a round, up to the greatest number; a used
/// or vanished one has none. It is deleted when its strikes reach the grace, and
/// then forgotten.
pub proof fn unused_record_gathers_strikes(
    cids: Set<u32>,
    in_use: Set<u32>,
    strikes: Map<u32, u32>,
    grace: u32,
    id: u32,
)
    ensures
        ({
            let next = identity::gc_strikes(cids, in_use, strikes, grace);
            let gone = identity::gc_deleted(cids, in_use, strikes, grace);
            let unused = cids.contains(id) && !in_use.contains(id);
            let n = if !strikes.contains_key(id) {
                1
            } else if strikes[id] < 0xffff_ffff {
                strikes[id] + 1
            } else {
                0xffff_ffff
            };
            &&& !unused ==> !next.contains_key(id) && !gone.contains(id)
            &&& unused && n < grace ==> next.contains_key(id) && next[id] == n && !gone.contains(id)
            &&& unused && n >= grace ==> !next.contains_key(id) && gone.contains(id)
        }),
{
}

// ----------------------------------- texts ----------------------------------

/// A number is spelled in digits, without leading zeros, and reads as itself: each
/// digit counts ten times the next. A plus sign in front does not count.
pub proof fn spelling_is_decimal(s: Seq<char>, d: char, n: int, max: int)
    ensures
        digits::number(Seq::empty()) == 0,
        digits::number(s.push(d)) == 10 * digits::number(s) + (d as int - '0' as int),
        0 <= n < 10 ==> digits::dec(n).len() == 1 && digits::dec(n)[0] as int == '0' as int + n,
        n >= 10 ==> digits::dec(n) == digits::dec(n / 10) + digits::dec(n % 10),
        s.len() == 0 ==> digits::spelled(s, max) is None,
        s.len() > 0 && s[0] != '+' && (forall|i: int|
            0 <= i < s.len() ==> '0' <= #[trigger] s[i] <= '9') ==> (digits::number(s) <= max
            ==> digits::spelled(s, max) == Some(digits::number(s))) && (digits::number(s) > max
            ==> digits::spelled(s, max) is None),
        s.len() > 0 && s[0] != '+' && (exists|i: int|
            0 <= i < s.len() && !('0' <= #[trigger] s[i] <= '9')) ==> digits::spelled(s, max) is None,
        s.len() > 0 && s[0] == '+' && s.skip(1).len() > 0 && s[1] != '+' ==> digits::spelled(s, max)
            == digits::spelled(s.skip(1), max),
{
    assert(s.push(d).drop_last() =~= s);
    if s.len() > 0 && s[0] != '+' && (exists|i: int|
        0 <= i < s.len() && !('0' <= #[trigger] s[i] <= '9')) {
        let i = choose|i: int| 0 <= i < s.len() && !('0' <= #[trigger] s[i] <= '9');
        assert(!digits::is_digit(s[i]));
    }
    if n >= 10 {
        assert(digits::dec(n % 10) =~= seq![digits::digit(n % 10)]);
        assert(digits::dec(n) =~= digits::dec(n / 10) + digits::dec(n % 10));
    }
}

/// An address is written as its four bytes, the most significant first, with dots
/// between.
pub proof fn address_is_dotted(a: u8, b: u8, c: u8, d: u8)
    ensures
        digits::ip4_text((((a * 256 + b) * 256 + c) * 256 + d) as u32) == digits::dec(a as int)
            + seq!['.'] + digits::dec(b as int) + seq!['.'] + digits::dec(c as int) + seq!['.']
            + digits::dec(d as int),
{
    let ip = (((a * 256 + b) * 256 + c) * 256 + d) as u32;
    assert(ip == ((a * 256 + b) * 256 + c) * 256 + d);
    assert(ip as int / 0x100 == (a * 256 + b) * 256 + c);
    assert(ip as int / 0x1_0000 == a * 256 + b);
    assert(ip as int / 0x100_0000 == a);
}

} // verus!
