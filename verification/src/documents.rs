//! What is written for others: laws that say what the published objects and the
//! answers of an attachment hold.

use vstd::prelude::*;
use crate::cep;
use crate::cep::CepIdentityView;
use crate::cni;
use crate::cni::{CniEnvView, CodedView, NetConfView, Verb};
use crate::digits;
use crate::hash;
use crate::identity;
use crate::json::Doc;
use crate::messages::CniEndpointView;
use crate::ordmap;
use crate::text;

verus! {

/// Whether a document is an object that holds a value under a name.
pub open spec fn has(d: Doc, name: Seq<char>, v: Doc) -> bool {
    d matches Doc::Object(m) && m.contains((name, v))
}

/// How many members an object has, or elements a list.
pub open spec fn size(d: Doc) -> nat {
    match d {
        Doc::Object(m) => m.len(),
        Doc::List(l) => l.len(),
        _ => 0,
    }
}

/// An endpoint's object is named after its pod, labelled with its node, and tells
/// its interface, its readiness, its address, the node's where it is known, and
/// its identity where it has one.
pub proof fn endpoint_object_tells_the_pod(
    node: Seq<char>,
    node_ip: Seq<char>,
    ep: CniEndpointView,
    id: Option<CepIdentityView>,
)
    ensures
        ({
            let d = cep::cep_doc(node, node_ip, ep, id);
            let status = cep::status_doc(node_ip, ep, id);
            let net = cep::networking_doc(ep.ip, node_ip);
            &&& has(d, "apiVersion"@, Doc::Text("cilium.io/v2"@))
            &&& has(d, "kind"@, Doc::Text("CiliumEndpoint"@))
            &&& has(d, "status"@, status)
            &&& exists|meta: Doc| #[trigger]
                has(d, "metadata"@, meta) && has(meta, "name"@, Doc::Text(ep.pod_name)) && has(
                    meta,
                    "namespace"@,
                    Doc::Text(ep.pod_namespace),
                ) && has(meta, "labels"@, cep::node_labels_doc(node))
            &&& has(status, "id"@, Doc::Number(ep.host_ifindex))
            &&& has(status, "state"@, Doc::Text("ready"@))
            &&& has(status, "networking"@, net)
            &&& id is None ==> size(status) == 3
            &&& id matches Some(v) ==> size(status) == 4 && has(
                status,
                "identity"@,
                cep::identity_doc(v),
            )
            &&& exists|list: Seq<Doc>| #[trigger]
                has(net, "addressing"@, Doc::List(list)) && list.len() == 1 && has(
                    list[0],
                    "ipv4"@,
                    Doc::Text(ep.ip),
                )
            &&& node_ip.len() == 0 ==> size(net) == 1
            &&& node_ip.len() > 0 ==> has(net, "node"@, Doc::Text(node_ip))
        }),
{
    let d = cep::cep_doc(node, node_ip, ep, id);
    let m = d->Object_0;
    let status = cep::status_doc(node_ip, ep, id);
    let net = cep::networking_doc(ep.ip, node_ip);
    assert(m[0] == ("apiVersion"@, Doc::Text("cilium.io/v2"@)));
    assert(m[1] == ("kind"@, Doc::Text("CiliumEndpoint"@)));
    let meta = m[2].1;
    let mm = meta->Object_0;
    assert(mm[0] == ("name"@, Doc::Text(ep.pod_name)));
    assert(mm[1] == ("namespace"@, Doc::Text(ep.pod_namespace)));
    assert(mm[2] == ("labels"@, cep::node_labels_doc(node)));
    assert(m[2] == ("metadata"@, meta));
    assert(has(d, "metadata"@, meta));
    assert(m[3] == ("status"@, status));
    let s = status->Object_0;
    assert(s[0] == ("id"@, Doc::Number(ep.host_ifindex)));
    assert(s[1] == ("state"@, Doc::Text("ready"@)));
    assert(s[2] == ("networking"@, net));
    if id is Some {
        assert(s[3] == ("identity"@, cep::identity_doc(id->0)));
    }
    let n = net->Object_0;
    let list = seq![Doc::Object(seq![("ipv4"@, Doc::Text(ep.ip))])];
    assert(n[0] == ("addressing"@, Doc::List(list)));
    assert(has(net, "addressing"@, Doc::List(list)));
    assert(list[0]->Object_0[0] == ("ipv4"@, Doc::Text(ep.ip)));
    if node_ip.len() > 0 {
        assert(n[1] == ("node"@, Doc::Text(node_ip)));
    }
}

/// An identity is told by its number and its labels; an object's node label by the
/// node's name.
pub proof fn identity_is_told(id: CepIdentityView, node: Seq<char>, i: int)
    ensures
        has(cep::identity_doc(id), "id"@, Doc::Number(id.id)),
        exists|list: Seq<Doc>| #[trigger]
            has(cep::identity_doc(id), "labels"@, Doc::List(list)) && list.len() == id.labels.len()
                && (0 <= i < list.len() ==> list[i] == Doc::Text(id.labels[i])),
        size(cep::node_labels_doc(node)) == 1,
        exists|name: Seq<char>| #[trigger] has(cep::node_labels_doc(node), name, Doc::Text(node)),
{
    let m = cep::identity_doc(id)->Object_0;
    assert(m[0] == ("id"@, Doc::Number(id.id)));
    let list = Seq::new(id.labels.len(), |i: int| Doc::Text(id.labels[i]));
    assert(m[1] == ("labels"@, Doc::List(list)));
    assert(has(cep::identity_doc(id), "labels"@, Doc::List(list)));
    let n = cep::node_labels_doc(node)->Object_0;
    assert(n[0].1 == Doc::Text(node));
    assert(has(cep::node_labels_doc(node), n[0].0, Doc::Text(node)));
}

/// A node's object is named after it and tells its address and its range, each as
/// a list that is empty where it is not known.
pub proof fn node_object_tells_the_node(node: Seq<char>, node_ip: Seq<char>, range: Seq<char>)
    ensures
        ({
            let d = cep::node_doc(node, node_ip, range);
            let addrs = cep::addresses_doc(node_ip);
            let ranges = cep::ranges_doc(range);
            &&& has(d, "kind"@, Doc::Text("CiliumNode"@))
            &&& exists|meta: Doc| #[trigger]
                has(d, "metadata"@, meta) && has(meta, "name"@, Doc::Text(node)) && has(
                    meta,
                    "labels"@,
                    cep::node_labels_doc(node),
                )
            &&& exists|spec: Doc| #[trigger]
                has(d, "spec"@, spec) && has(spec, "addresses"@, addrs) && has(
                    spec,
                    "ipam"@,
                    Doc::Object(seq![("podCIDRs"@, ranges)]),
                )
            &&& node_ip.len() == 0 ==> addrs == Doc::List(Seq::empty())
            &&& node_ip.len() > 0 ==> (addrs matches Doc::List(l) && l.len() == 1 && has(
                l[0],
                "type"@,
                Doc::Text("InternalIP"@),
            ) && has(l[0], "ip"@, Doc::Text(node_ip)))
            &&& range.len() == 0 ==> ranges == Doc::List(Seq::empty())
            &&& range.len() > 0 ==> ranges == Doc::List(seq![Doc::Text(range)])
        }),
{
    let d = cep::node_doc(node, node_ip, range);
    let m = d->Object_0;
    assert(m[1] == ("kind"@, Doc::Text("CiliumNode"@)));
    let meta = m[2].1;
    assert(m[2] == ("metadata"@, meta));
    assert(meta->Object_0[0] == ("name"@, Doc::Text(node)));
    assert(meta->Object_0[1] == ("labels"@, cep::node_labels_doc(node)));
    assert(has(d, "metadata"@, meta));
    let spec = m[3].1;
    assert(m[3] == ("spec"@, spec));
    assert(spec->Object_0[0] == ("addresses"@, cep::addresses_doc(node_ip)));
    assert(spec->Object_0[1] == (
        "ipam"@,
        Doc::Object(seq![("podCIDRs"@, cep::ranges_doc(range))]),
    ));
    assert(has(d, "spec"@, spec));
    if node_ip.len() > 0 {
        let l = cep::addresses_doc(node_ip)->List_0;
        assert(l[0]->Object_0[0] == ("type"@, Doc::Text("InternalIP"@)));
        assert(l[0]->Object_0[1] == ("ip"@, Doc::Text(node_ip)));
    }
}

/// An identity's record is named by its number and holds the label set, in the
/// order of its names.
pub proof fn identity_record_holds_the_set(
    id: u32,
    ns: Seq<char>,
    labels: Map<Seq<char>, Seq<char>>,
    i: int,
)
    ensures
        ({
            let d = cep::cid_doc(id, ns, labels);
            let set = cep::labels_doc(identity::security(ns, labels));
            let l = ordmap::listing_of::<String, Seq<char>>(identity::security(ns, labels));
            &&& has(d, "kind"@, Doc::Text("CiliumIdentity"@))
            &&& has(
                d,
                "metadata"@,
                Doc::Object(seq![("name"@, Doc::Text(digits::dec(id as int)))]),
            )
            &&& has(d, "security-labels"@, set)
            &&& size(set) == l.len()
            &&& 0 <= i < l.len() ==> has(set, l[i].0, Doc::Text(l[i].1))
        }),
{
    let m = cep::cid_doc(id, ns, labels)->Object_0;
    assert(m[1] == ("kind"@, Doc::Text("CiliumIdentity"@)));
    assert(m[2] == (
        "metadata"@,
        Doc::Object(seq![("name"@, Doc::Text(digits::dec(id as int)))]),
    ));
    let set = cep::labels_doc(identity::security(ns, labels));
    assert(m[3] == ("security-labels"@, set));
    let l = ordmap::listing_of::<String, Seq<char>>(identity::security(ns, labels));
    if 0 <= i < l.len() {
        assert(set->Object_0[i] == (l[i].0, Doc::Text(l[i].1)));
    }
}

/// Every endpoint with a pod is published under the pod's name, with the identity
/// known of it; an endpoint of no pod adds nothing, and no other object changes.
pub proof fn endpoints_are_published(
    node: Seq<char>,
    node_ip: Seq<char>,
    eps: Seq<CniEndpointView>,
    ep: CniEndpointView,
    ids: Map<(Seq<char>, Seq<char>), CepIdentityView>,
    other: (Seq<char>, Seq<char>),
)
    ensures
        ({
            let before = cep::desired_docs(node, node_ip, eps, ids);
            let after = cep::desired_docs(node, node_ip, eps.push(ep), ids);
            let key = (ep.pod_namespace, ep.pod_name);
            let of_pod = ep.pod_name.len() > 0 && ep.pod_namespace.len() > 0;
            &&& of_pod ==> after.get(key) == Some(cep::cep_doc(node, node_ip, ep, ids.get(key)))
            &&& !of_pod || other != key ==> after.get(other) == before.get(other)
        }),
{
    assert(eps.push(ep).drop_last() =~= eps);
}

/// A result lists the two interfaces of the pair, the addresses with the gateway of
/// their family, and a default route for each.
pub proof fn result_tells_the_attachment(
    env: CniEnvView,
    conf: NetConfView,
    ip: u32,
    ip6: Option<Seq<char>>,
    host_mac: Seq<char>,
    pod_mac: Seq<char>,
)
    ensures
        ({
            let d = cni::add_doc(env, conf, ip, ip6, host_mac, pod_mac);
            let ifs = cni::interfaces_of(
                cni::host_if_text(env.container_id, env.ifname),
                host_mac,
                env.ifname,
                pod_mac,
                env.netns,
            );
            let ips = cni::ips_of(ip, ip6);
            let routes = cni::routes_of(ip6);
            &&& has(d, "cniVersion"@, Doc::Text(conf.cni_version))
            &&& has(d, "interfaces"@, Doc::List(ifs))
            &&& has(d, "ips"@, Doc::List(ips))
            &&& has(d, "routes"@, Doc::List(routes))
            &&& ifs.len() == 2
            &&& has(
                ifs[0],
                "name"@,
                Doc::Text(cni::host_if_text(env.container_id, env.ifname)),
            ) && has(ifs[0], "mac"@, Doc::Text(host_mac))
            &&& has(ifs[1], "name"@, Doc::Text(env.ifname)) && has(
                ifs[1],
                "mac"@,
                Doc::Text(pod_mac),
            ) && has(ifs[1], "sandbox"@, Doc::Text(env.netns))
            &&& ips.len() == routes.len() && ips.len() == if ip6 is Some {
                2nat
            } else {
                1nat
            }
            &&& has(ips[0], "address"@, Doc::Text(digits::ip4_text(ip) + "/32"@)) && has(
                ips[0],
                "gateway"@,
                Doc::Text("169.254.1.1"@),
            ) && has(ips[0], "interface"@, Doc::Number(1))
            &&& has(routes[0], "dst"@, Doc::Text("0.0.0.0/0"@)) && has(
                routes[0],
                "gw"@,
                Doc::Text("169.254.1.1"@),
            )
            &&& ip6 matches Some(a) ==> has(ips[1], "address"@, Doc::Text(a + "/128"@)) && has(
                ips[1],
                "gateway"@,
                Doc::Text(cni::POD_GW6@),
            ) && has(routes[1], "dst"@, Doc::Text("::/0"@)) && has(
                routes[1],
                "gw"@,
                Doc::Text(cni::POD_GW6@),
            )
        }),
{
    let m = cni::add_doc(env, conf, ip, ip6, host_mac, pod_mac)->Object_0;
    let host_if = cni::host_if_text(env.container_id, env.ifname);
    let ifs = cni::interfaces_of(host_if, host_mac, env.ifname, pod_mac, env.netns);
    let ips = cni::ips_of(ip, ip6);
    let routes = cni::routes_of(ip6);
    assert(m[0] == ("cniVersion"@, Doc::Text(conf.cni_version)));
    assert(m[1] == ("interfaces"@, Doc::List(ifs)));
    assert(m[2] == ("ips"@, Doc::List(ips)));
    assert(m[3] == ("routes"@, Doc::List(routes)));
    assert(ifs[0]->Object_0[0] == ("name"@, Doc::Text(host_if)));
    assert(ifs[0]->Object_0[1] == ("mac"@, Doc::Text(host_mac)));
    assert(ifs[1]->Object_0[0] == ("name"@, Doc::Text(env.ifname)));
    assert(ifs[1]->Object_0[1] == ("mac"@, Doc::Text(pod_mac)));
    assert(ifs[1]->Object_0[2] == ("sandbox"@, Doc::Text(env.netns)));
    assert(ips[0]->Object_0[0] == ("address"@, Doc::Text(digits::ip4_text(ip) + "/32"@)));
    assert(ips[0]->Object_0[1] == ("gateway"@, Doc::Text("169.254.1.1"@)));
    assert(ips[0]->Object_0[2] == ("interface"@, Doc::Number(1)));
    assert(routes[0]->Object_0[0] == ("dst"@, Doc::Text("0.0.0.0/0"@)));
    assert(routes[0]->Object_0[1] == ("gw"@, Doc::Text("169.254.1.1"@)));
    if ip6 is Some {
        assert(ips[1]->Object_0[0] == ("address"@, Doc::Text(ip6->0 + "/128"@)));
        assert(ips[1]->Object_0[1] == ("gateway"@, Doc::Text(cni::POD_GW6@)));
        assert(routes[1]->Object_0[0] == ("dst"@, Doc::Text("::/0"@)));
        assert(routes[1]->Object_0[1] == ("gw"@, Doc::Text(cni::POD_GW6@)));
    }
}

/// An error is told by its code, its message and its details, in the version asked
/// with; an answer about versions names both that are spoken.
pub proof fn answers_are_told(version: Seq<char>, e: CodedView, details: Seq<char>)
    ensures
        has(cni::error_doc(version, e, details), "cniVersion"@, Doc::Text(version)),
        has(cni::error_doc(version, e, details), "code"@, Doc::Number(e.code)),
        has(cni::error_doc(version, e, details), "msg"@, Doc::Text(e.msg)),
        has(cni::error_doc(version, e, details), "details"@, Doc::Text(details)),
        has(cni::version_doc(version), "cniVersion"@, Doc::Text(version)),
        has(
            cni::version_doc(version),
            "supportedVersions"@,
            Doc::List(seq![Doc::Text("1.0.0"@), Doc::Text("1.1.0"@)]),
        ),
        cni::version_for(Some(version)) == version,
        cni::version_for(None) == "1.1.0"@,
{
    let m = cni::error_doc(version, e, details)->Object_0;
    assert(m[0] == ("cniVersion"@, Doc::Text(version)));
    assert(m[1] == ("code"@, Doc::Number(e.code)));
    assert(m[2] == ("msg"@, Doc::Text(e.msg)));
    assert(m[3] == ("details"@, Doc::Text(details)));
    let v = cni::version_doc(version)->Object_0;
    assert(v[0] == ("cniVersion"@, Doc::Text(version)));
    assert(v[1] == (
        "supportedVersions"@,
        Doc::List(seq![Doc::Text("1.0.0"@), Doc::Text("1.1.0"@)]),
    ));
}

/// A link's hardware address is the word behind the first one that announces it.
pub proof fn hardware_address_is_read(w: Seq<Seq<char>>, at: int)
    requires
        0 <= at,
        at + 1 < w.len(),
        w[at] == "link/ether"@,
        forall|i: int| 0 <= i < at ==> #[trigger] w[i] != "link/ether"@,
    ensures
        cni::ether_in(w) == Some(w[at + 1]),
    decreases at,
{
    if at > 0 {
        assert(w[0] != "link/ether"@);
        let rest = w.skip(1);
        assert forall|i: int| 0 <= i < at - 1 implies #[trigger] rest[i] != "link/ether"@ by {
            assert(rest[i] == w[i + 1]);
        }
        hardware_address_is_read(rest, at - 1);
    }
}

/// Texts are ordered as words in a book: by their first different character, and a
/// beginning comes before the whole.
pub proof fn texts_are_ordered(a: Seq<char>, b: Seq<char>, at: int)
    requires
        0 <= at <= a.len(),
        at <= b.len(),
        a.take(at) == b.take(at),
    ensures
        at == b.len() ==> !ordmap::text_lt(a, b),
        at == a.len() && at < b.len() ==> ordmap::text_lt(a, b),
        at < a.len() && at < b.len() && a[at] != b[at] ==> ordmap::text_lt(a, b) == (a[at]
            < b[at]),
    decreases at,
{
    if at > 0 {
        assert(a.take(at)[0] == a[0] && b.take(at)[0] == b[0]);
        assert(a.skip(1).take(at - 1) =~= a.take(at).skip(1));
        assert(b.skip(1).take(at - 1) =~= b.take(at).skip(1));
        texts_are_ordered(a.skip(1), b.skip(1), at - 1);
    }
}

/// A hash starts from its basis and takes in one byte after the other, first by
/// exclusive or, then by its prime.
pub proof fn hash_takes_in_bytes(h: u32, s: Seq<u8>, b: u8)
    ensures
        hash::fnv32(h, Seq::empty()) == h,
        hash::fnv32(h, s.push(b)) == ((hash::fnv32(h, s) ^ (b as u32)) * 0x0100_0193)
            % 0x1_0000_0000,
        hash::fnv64(Seq::empty()) == 0xcbf2_9ce4_8422_2325,
        hash::fnv64(s.push(b)) == ((hash::fnv64(s) ^ (b as u64)) * 0x0000_0100_0000_01b3)
            % 0x1_0000_0000_0000_0000,
{
    assert(s.push(b).drop_last() =~= s);
}

/// A pair's names are those of its container and interface: the node's end by the
/// ten last hexadecimal digits of their hash, the passing one by that of the name.
pub proof fn pair_is_named_by_its_owner(container: Seq<char>, ifname: Seq<char>, host: Seq<char>)
    ensures
        cni::host_if_text(container, ifname) == "crdl"@ + digits::hex(
            hash::fnv64(vstd::utf8::encode_utf8(container + "/"@ + ifname)) as int,
            10,
        ),
        cni::temp_if_text(host) == "tmp"@ + digits::hex(
            hash::fnv64(vstd::utf8::encode_utf8(host)) as int,
            10,
        ),
{
}

/// A command names its verb, and nothing else does.
pub proof fn command_names_its_verb(c: Seq<char>)
    ensures
        cni::verb_of(c) == Some(Verb::Add) <==> c == "ADD"@,
        cni::verb_of(c) == Some(Verb::Del) <==> c == "DEL"@,
        cni::verb_of(c) == Some(Verb::Check) <==> c == "CHECK"@,
        cni::verb_of(c) == Some(Verb::Status) <==> c == "STATUS"@,
        cni::verb_of(c) == Some(Verb::Gc) <==> c == "GC"@,
        cni::verb_of(c) == Some(Verb::Version) <==> c == "VERSION"@,
{
    reveal_strlit("ADD");
    reveal_strlit("DEL");
    reveal_strlit("CHECK");
    reveal_strlit("STATUS");
    reveal_strlit("GC");
    reveal_strlit("VERSION");
    assert("ADD"@[0] != "DEL"@[0]);
    assert("ADD"@.len() == 3 && "DEL"@.len() == 3 && "CHECK"@.len() == 5 && "STATUS"@.len() == 6
        && "GC"@.len() == 2 && "VERSION"@.len() == 7);
}

/// A call's environment is what its variables say, with the pod's name and
/// namespace from its arguments.
pub proof fn environment_is_read(vars: cni::EnvVars, need_netns: bool)
    ensures
        ({
            let id = text::opt(vars.container_id);
            let ns = text::opt(vars.netns);
            let ifname = text::opt(vars.ifname);
            let args = text::split(
                match text::opt(vars.args) {
                    Some(a) => a,
                    None => Seq::empty(),
                },
                ';',
            );
            let r = cni::env_spec(vars, need_netns);
            let no_id = !(id matches Some(v) && v.len() > 0);
            let no_ns = need_netns && !(ns matches Some(v) && v.len() > 0);
            let no_if = !(ifname matches Some(v) && v.len() > 0);
            &&& r is Ok <==> !no_id && !no_ns && !no_if
            &&& r matches Ok(e) ==> e.container_id == id->0 && e.ifname == ifname->0 && e.netns
                == (match ns {
                Some(v) => v,
                None => Seq::empty(),
            }) && e.pod_name == cni::value_in(args, "K8S_POD_NAME"@) && e.pod_namespace
                == cni::value_in(args, "K8S_POD_NAMESPACE"@)
            &&& no_id ==> (r matches Err(e) && e.msg == "required env "@ + "CNI_CONTAINERID"@
                + " missing"@)
            &&& !no_id && no_ns ==> (r matches Err(e) && e.msg == "required env "@ + "CNI_NETNS"@
                + " missing"@)
            &&& !no_id && !no_ns && no_if ==> (r matches Err(e) && e.msg == "required env "@
                + "CNI_IFNAME"@ + " missing"@)
        }),
{
}

} // verus!
