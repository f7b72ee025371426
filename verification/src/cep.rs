//! CiliumEndpoint, CiliumNode and CiliumIdentity objects.
//!
//! One `CiliumEndpoint` per pod the node carries, taken from the daemon's
//! endpoint store, and a `CiliumNode` for the node. The objects are labeled
//! with the node, which scopes the sweep of those that have gone stale.

use vstd::prelude::*;
use crate::digits;
use crate::identity;
use crate::identity::Alloc;
use crate::json;
use crate::json::{Doc, Json};
use crate::messages::{CniEndpoint, CniEndpointView};
use crate::netpol;
use crate::objects::{Labels, Pod, PodView};
use crate::ordmap;
use crate::ordmap::OrdMap;
use crate::text;

verus! {

/// Label scoping the objects this node's publisher owns.
pub const NODE_LABEL: &'static str = "cradle.io/node";

/// The selector of the objects that `node` owns.
pub fn node_selector(node: &str) -> (r: String)
    ensures
        r@ == NODE_LABEL@ + "="@ + node@,
{
    let mut r = NODE_LABEL.to_owned();
    r.append("=");
    r.append(node);
    r
}

/// `{ "cradle.io/node": node }`.
pub open spec fn node_labels_doc(node: Seq<char>) -> Doc {
    Doc::Object(seq![(NODE_LABEL@, Doc::Text(node))])
}

fn node_labels(node: &str) -> (r: Json)
    ensures
        r@ == node_labels_doc(node@),
{
    let mut m: Vec<(String, Json)> = Vec::new();
    assert(text::views(m@) =~= Seq::empty());
    json::put(&mut m, NODE_LABEL, json::text_value(node));
    assert(text::views(m@) =~= seq![(NODE_LABEL@, Doc::Text(node@))]);
    json::object(m)
}

/// The networking status: the pod's address, and the node's if it is known.
pub open spec fn networking_doc(ip: Seq<char>, node_ip: Seq<char>) -> Doc {
    let addressing = (
        "addressing"@,
        Doc::List(seq![Doc::Object(seq![("ipv4"@, Doc::Text(ip))])]),
    );
    if node_ip.len() == 0 {
        Doc::Object(seq![addressing])
    } else {
        Doc::Object(seq![addressing, ("node"@, Doc::Text(node_ip))])
    }
}

fn networking(ip: &str, node_ip: &str) -> (r: Json)
    ensures
        r@ == networking_doc(ip@, node_ip@),
{
    let mut a: Vec<(String, Json)> = Vec::new();
    assert(text::views(a@) =~= Seq::empty());
    json::put(&mut a, "ipv4", json::text_value(ip));
    assert(text::views(a@) =~= seq![("ipv4"@, Doc::Text(ip@))]);
    let mut l: Vec<Json> = Vec::new();
    l.push(json::object(a));
    assert(text::views(l@) =~= seq![Doc::Object(seq![("ipv4"@, Doc::Text(ip@))])]);
    let mut m: Vec<(String, Json)> = Vec::new();
    assert(text::views(m@) =~= Seq::empty());
    json::put(&mut m, "addressing", json::list(l));
    if !node_ip.is_empty() {
        json::put(&mut m, "node", json::text_value(node_ip));
    }
    let r = json::object(m);
    assert(r@->Object_0 =~= networking_doc(ip@, node_ip@)->Object_0);
    r
}

/// The identity of an endpoint: its number and its label set.
pub struct CepIdentity {
    pub id: u32,
    pub labels: Vec<String>,
}

/// What a `CepIdentity` holds.
#[verifier::ext_equal]
pub struct CepIdentityView {
    pub id: u32,
    pub labels: Seq<Seq<char>>,
}

impl View for CepIdentity {
    type V = CepIdentityView;

    open spec fn view(&self) -> CepIdentityView {
        CepIdentityView { id: self.id, labels: text::views(self.labels@) }
    }
}

/// The identity of an endpoint as an object.
pub open spec fn identity_doc(id: CepIdentityView) -> Doc {
    Doc::Object(
        seq![
            ("id"@, Doc::Number(id.id)),
            (
                "labels"@,
                Doc::List(Seq::new(id.labels.len(), |i: int| Doc::Text(id.labels[i]))),
            ),
        ],
    )
}

fn identity_object(id: &CepIdentity) -> (r: Json)
    ensures
        r@ == identity_doc(id@),
{
    let ghost all = Seq::new(id@.labels.len(), |i: int| Doc::Text(id@.labels[i]));
    let mut l: Vec<Json> = Vec::new();
    let mut i: usize = 0;
    assert(text::views(l@) =~= all.take(0));
    while i < id.labels.len()
        invariant
            i <= id.labels@.len(),
            all == Seq::new(id@.labels.len(), |i: int| Doc::Text(id@.labels[i])),
            text::views(l@) == all.take(i as int),
        decreases id.labels@.len() - i,
    {
        let ghost before = text::views(l@);
        let one = json::text_value(id.labels[i].as_str());
        assert(one@ == all[i as int]);
        l.push(one);
        assert(text::views(l@) =~= before.push(all[i as int]));
        assert(all.take(i + 1) =~= all.take(i as int).push(all[i as int]));
        i += 1;
    }
    assert(all.take(i as int) =~= all);
    let mut m: Vec<(String, Json)> = Vec::new();
    assert(text::views(m@) =~= Seq::empty());
    json::put(&mut m, "id", Json::Number(id.id));
    json::put(&mut m, "labels", json::list(l));
    let r = json::object(m);
    assert(r@->Object_0 =~= identity_doc(id@)->Object_0);
    r
}

/// The status of a pod attachment; the identity is left out where it is not
/// known.
pub open spec fn status_doc(
    node_ip: Seq<char>,
    ep: CniEndpointView,
    id: Option<CepIdentityView>,
) -> Doc {
    let base = seq![
        ("id"@, Doc::Number(ep.host_ifindex)),
        ("state"@, Doc::Text("ready"@)),
        ("networking"@, networking_doc(ep.ip, node_ip)),
    ];
    match id {
        Some(v) => Doc::Object(base.push(("identity"@, identity_doc(v)))),
        None => Doc::Object(base),
    }
}

/// The CiliumEndpoint object of a pod attachment.
pub open spec fn cep_doc(
    node: Seq<char>,
    node_ip: Seq<char>,
    ep: CniEndpointView,
    id: Option<CepIdentityView>,
) -> Doc {
    Doc::Object(
        seq![
            ("apiVersion"@, Doc::Text("cilium.io/v2"@)),
            ("kind"@, Doc::Text("CiliumEndpoint"@)),
            (
                "metadata"@,
                Doc::Object(
                    seq![
                        ("name"@, Doc::Text(ep.pod_name)),
                        ("namespace"@, Doc::Text(ep.pod_namespace)),
                        ("labels"@, node_labels_doc(node)),
                    ],
                ),
            ),
            ("status"@, status_doc(node_ip, ep, id)),
        ],
    )
}

/// Build the CiliumEndpoint object for an endpoint. Only the fields tooling
/// reads are filled: the state, the addressing, the node, and the endpoint id
/// (the host ifindex — stable while the veth lives).
pub fn cep_object(node: &str, node_ip: &str, ep: &CniEndpoint) -> (r: Json)
    ensures
        r@ == cep_doc(node@, node_ip@, ep@, None),
{
    identified_cep(node, node_ip, ep, None)
}

/// The CiliumEndpoint object with the endpoint's security identity, where it
/// is known.
pub fn identified_cep(
    node: &str,
    node_ip: &str,
    ep: &CniEndpoint,
    id: Option<&CepIdentity>,
) -> (r: Json)
    ensures
        r@ == cep_doc(node@, node_ip@, ep@, text::opt(id)),
{
    let mut meta: Vec<(String, Json)> = Vec::new();
    assert(text::views(meta@) =~= Seq::empty());
    json::put(&mut meta, "name", json::text_value(ep.pod_name.as_str()));
    json::put(&mut meta, "namespace", json::text_value(ep.pod_namespace.as_str()));
    json::put(&mut meta, "labels", node_labels(node));
    assert(text::views(meta@) =~= seq![
        ("name"@, Doc::Text(ep@.pod_name)),
        ("namespace"@, Doc::Text(ep@.pod_namespace)),
        ("labels"@, node_labels_doc(node@)),
    ]);
    let mut status: Vec<(String, Json)> = Vec::new();
    assert(text::views(status@) =~= Seq::empty());
    json::put(&mut status, "id", Json::Number(ep.host_ifindex));
    json::put(&mut status, "state", json::text_value("ready"));
    json::put(&mut status, "networking", networking(ep.ip.as_str(), node_ip));
    match id {
        Some(v) => {
            json::put(&mut status, "identity", identity_object(v));
        },
        None => {},
    }
    assert(text::views(status@) =~= status_doc(node_ip@, ep@, text::opt(id))->Object_0);
    let mut m: Vec<(String, Json)> = Vec::new();
    assert(text::views(m@) =~= Seq::empty());
    json::put(&mut m, "apiVersion", json::text_value("cilium.io/v2"));
    json::put(&mut m, "kind", json::text_value("CiliumEndpoint"));
    json::put(&mut m, "metadata", json::object(meta));
    json::put(&mut m, "status", json::object(status));
    let r = json::object(m);
    assert(r@->Object_0 =~= cep_doc(node@, node_ip@, ep@, text::opt(id))->Object_0);
    r
}

/// The addresses of a node object.
pub open spec fn addresses_doc(node_ip: Seq<char>) -> Doc {
    if node_ip.len() == 0 {
        Doc::List(Seq::empty())
    } else {
        Doc::List(
            seq![
                Doc::Object(
                    seq![("type"@, Doc::Text("InternalIP"@)), ("ip"@, Doc::Text(node_ip))],
                ),
            ],
        )
    }
}

fn addresses(node_ip: &str) -> (r: Json)
    ensures
        r@ == addresses_doc(node_ip@),
{
    let mut l: Vec<Json> = Vec::new();
    if !node_ip.is_empty() {
        let mut a: Vec<(String, Json)> = Vec::new();
        assert(text::views(a@) =~= Seq::empty());
        json::put(&mut a, "type", json::text_value("InternalIP"));
        json::put(&mut a, "ip", json::text_value(node_ip));
        assert(text::views(a@) =~= seq![
            ("type"@, Doc::Text("InternalIP"@)),
            ("ip"@, Doc::Text(node_ip@)),
        ]);
        l.push(json::object(a));
    }
    let r = json::list(l);
    assert(r@->List_0 =~= addresses_doc(node_ip@)->List_0);
    r
}

/// The pod ranges of a node object.
pub open spec fn ranges_doc(pod_cidr: Seq<char>) -> Doc {
    if pod_cidr.len() == 0 {
        Doc::List(Seq::empty())
    } else {
        Doc::List(seq![Doc::Text(pod_cidr)])
    }
}

fn ranges(pod_cidr: &str) -> (r: Json)
    ensures
        r@ == ranges_doc(pod_cidr@),
{
    let mut l: Vec<Json> = Vec::new();
    if !pod_cidr.is_empty() {
        l.push(json::text_value(pod_cidr));
    }
    let r = json::list(l);
    assert(r@->List_0 =~= ranges_doc(pod_cidr@)->List_0);
    r
}

/// The CiliumNode object of a node.
pub open spec fn node_doc(node: Seq<char>, node_ip: Seq<char>, pod_cidr: Seq<char>) -> Doc {
    Doc::Object(
        seq![
            ("apiVersion"@, Doc::Text("cilium.io/v2"@)),
            ("kind"@, Doc::Text("CiliumNode"@)),
            (
                "metadata"@,
                Doc::Object(
                    seq![("name"@, Doc::Text(node)), ("labels"@, node_labels_doc(node))],
                ),
            ),
            (
                "spec"@,
                Doc::Object(
                    seq![
                        ("addresses"@, addresses_doc(node_ip)),
                        (
                            "ipam"@,
                            Doc::Object(seq![("podCIDRs"@, ranges_doc(pod_cidr))]),
                        ),
                    ],
                ),
            ),
        ],
    )
}

/// Build this node's CiliumNode object.
pub fn cilium_node_object(node: &str, node_ip: &str, pod_cidr: &str) -> (r: Json)
    ensures
        r@ == node_doc(node@, node_ip@, pod_cidr@),
{
    let mut meta: Vec<(String, Json)> = Vec::new();
    assert(text::views(meta@) =~= Seq::empty());
    json::put(&mut meta, "name", json::text_value(node));
    json::put(&mut meta, "labels", node_labels(node));
    assert(text::views(meta@) =~= seq![
        ("name"@, Doc::Text(node@)),
        ("labels"@, node_labels_doc(node@)),
    ]);
    let mut ipam: Vec<(String, Json)> = Vec::new();
    assert(text::views(ipam@) =~= Seq::empty());
    json::put(&mut ipam, "podCIDRs", ranges(pod_cidr));
    assert(text::views(ipam@) =~= seq![("podCIDRs"@, ranges_doc(pod_cidr@))]);
    let mut spec: Vec<(String, Json)> = Vec::new();
    assert(text::views(spec@) =~= Seq::empty());
    json::put(&mut spec, "addresses", addresses(node_ip));
    json::put(&mut spec, "ipam", json::object(ipam));
    assert(text::views(spec@) =~= seq![
        ("addresses"@, addresses_doc(node_ip@)),
        ("ipam"@, Doc::Object(seq![("podCIDRs"@, ranges_doc(pod_cidr@))])),
    ]);
    let mut m: Vec<(String, Json)> = Vec::new();
    assert(text::views(m@) =~= Seq::empty());
    json::put(&mut m, "apiVersion", json::text_value("cilium.io/v2"));
    json::put(&mut m, "kind", json::text_value("CiliumNode"));
    json::put(&mut m, "metadata", json::object(meta));
    json::put(&mut m, "spec", json::object(spec));
    let r = json::object(m);
    assert(r@->Object_0 =~= node_doc(node@, node_ip@, pod_cidr@)->Object_0);
    r
}

// ------------------------------------------------------------- publication

/// The objects to publish, by namespace and name: those of the endpoints that
/// belong to a pod, with the identities that `ids` holds; the last endpoint of
/// a pod decides.
pub open spec fn desired_docs(
    node: Seq<char>,
    node_ip: Seq<char>,
    eps: Seq<CniEndpointView>,
    ids: Map<(Seq<char>, Seq<char>), CepIdentityView>,
) -> Map<(Seq<char>, Seq<char>), Doc>
    decreases eps.len(),
{
    if eps.len() == 0 {
        Map::empty()
    } else {
        let m = desired_docs(node, node_ip, eps.drop_last(), ids);
        let ep = eps.last();
        let key = (ep.pod_namespace, ep.pod_name);
        if ep.pod_name.len() > 0 && ep.pod_namespace.len() > 0 {
            m.insert(key, cep_doc(node, node_ip, ep, ids.get(key)))
        } else {
            m
        }
    }
}

/// The desired CiliumEndpoint set for this node: `(namespace, name) → object`.
/// Only endpoints with a Kubernetes pod identity are published.
pub fn desired_ceps(node: &str, node_ip: &str, endpoints: &[CniEndpoint]) -> (r: OrdMap<
    (String, String),
    Json,
>)
    ensures
        r@ == desired_docs(node@, node_ip@, text::views(endpoints@), Map::empty()),
{
    let none: OrdMap<(String, String), CepIdentity> = OrdMap::new();
    identified_ceps(node, node_ip, endpoints, &none)
}

/// The desired set, each object with the identity that `identities` holds for
/// its pod.
pub fn identified_ceps(
    node: &str,
    node_ip: &str,
    endpoints: &[CniEndpoint],
    identities: &OrdMap<(String, String), CepIdentity>,
) -> (r: OrdMap<(String, String), Json>)
    ensures
        r@ == desired_docs(node@, node_ip@, text::views(endpoints@), identities@),
{
    let mut out: OrdMap<(String, String), Json> = OrdMap::new();
    let ghost all = text::views(endpoints@);
    let mut i: usize = 0;
    assert(all.take(0).len() == 0);
    while i < endpoints.len()
        invariant
            i <= endpoints@.len(),
            all == text::views(endpoints@),
            out@ == desired_docs(node@, node_ip@, all.take(i as int), identities@),
        decreases endpoints@.len() - i,
    {
        proof {
            assert(all.take(i + 1).drop_last() =~= all.take(i as int));
            assert(all.take(i + 1).last() == endpoints@[i as int]@);
        }
        let ep = &endpoints[i];
        if !ep.pod_name.as_str().is_empty() && !ep.pod_namespace.as_str().is_empty() {
            let key = (ep.pod_namespace.clone(), ep.pod_name.clone());
            let obj = identified_cep(node, node_ip, ep, identities.get(&key));
            out.insert(key, obj);
        }
        i += 1;
    }
    assert(all.take(i as int) =~= all);
    out
}

/// The listed objects without a backing endpoint, in their order.
pub open spec fn stale_of(
    desired: Map<(Seq<char>, Seq<char>), Doc>,
    listed: Seq<(Seq<char>, Seq<char>)>,
) -> Seq<(Seq<char>, Seq<char>)>
    decreases listed.len(),
{
    if listed.len() == 0 {
        Seq::empty()
    } else {
        let head = stale_of(desired, listed.drop_last());
        if desired.contains_key(listed.last()) {
            head
        } else {
            head.push(listed.last())
        }
    }
}

/// The listed objects to sweep: those no longer desired.
pub fn stale_ceps(
    desired: &OrdMap<(String, String), Json>,
    listed: &[(String, String)],
) -> (r: Vec<(String, String)>)
    ensures
        text::views(r@) == stale_of(desired@, text::views(listed@)),
{
    let mut out: Vec<(String, String)> = Vec::new();
    let ghost all = text::views(listed@);
    let mut i: usize = 0;
    assert(text::views(out@) =~= stale_of(desired@, all.take(0)));
    while i < listed.len()
        invariant
            i <= listed@.len(),
            all == text::views(listed@),
            text::views(out@) == stale_of(desired@, all.take(i as int)),
        decreases listed@.len() - i,
    {
        proof {
            assert(all.take(i + 1).drop_last() =~= all.take(i as int));
            assert(all.take(i + 1).last() == listed@[i as int]@);
        }
        if !desired.has(&listed[i]) {
            let key = (listed[i].0.clone(), listed[i].1.clone());
            let ghost before = text::views(out@);
            out.push(key);
            assert(text::views(out@) =~= before.push(listed@[i as int]@));
        }
        i += 1;
    }
    assert(all.take(i as int) =~= all);
    out
}

/// One publication round: the objects to upsert, and the node's own. Between
/// the two the stale objects are swept.
pub struct Publication {
    pub ceps: OrdMap<(String, String), Json>,
    pub node: Json,
}

/// Compute one publication round.
pub fn publish(
    node: &str,
    node_ip: &str,
    pod_cidr: &str,
    endpoints: &[CniEndpoint],
    identities: &OrdMap<(String, String), CepIdentity>,
) -> (r: Publication)
    ensures
        r.ceps@ == desired_docs(node@, node_ip@, text::views(endpoints@), identities@),
        r.node@ == node_doc(node@, node_ip@, pod_cidr@),
{
    Publication {
        ceps: identified_ceps(node, node_ip, endpoints, identities),
        node: cilium_node_object(node, node_ip, pod_cidr),
    }
}

/// What is swept is exactly what is listed and not desired: a published
/// object is never swept.
pub proof fn sweep_takes_only_stale(
    desired: Map<(Seq<char>, Seq<char>), Doc>,
    listed: Seq<(Seq<char>, Seq<char>)>,
    key: (Seq<char>, Seq<char>),
)
    ensures
        stale_of(desired, listed).contains(key) <==> listed.contains(key)
            && !desired.contains_key(key),
    decreases listed.len(),
{
    if listed.len() > 0 {
        let head = listed.drop_last();
        let s = stale_of(desired, head);
        let t = stale_of(desired, listed);
        sweep_takes_only_stale(desired, head, key);
        assert(listed[listed.len() - 1] == listed.last());
        if listed.contains(key) && key != listed.last() {
            let i = choose|i: int| 0 <= i < listed.len() && listed[i] == key;
            assert(head[i] == key);
        }
        if head.contains(key) {
            let i = choose|i: int| 0 <= i < head.len() && head[i] == key;
            assert(listed[i] == key);
        }
        if !desired.contains_key(listed.last()) {
            assert(t[t.len() - 1] == listed.last());
            if s.contains(key) {
                let i = choose|i: int| 0 <= i < s.len() && s[i] == key;
                assert(t[i] == key);
            }
            if t.contains(key) && key != listed.last() {
                let i = choose|i: int| 0 <= i < t.len() && t[i] == key;
                assert(s[i] == key);
            }
        }
    }
}

/// What is published is the endpoints of pods: an object stands for an endpoint
/// of the pod of its namespace and name, and every such endpoint has one. An
/// endpoint without a pod is not published.
pub proof fn pod_endpoints_are_published(
    node: Seq<char>,
    node_ip: Seq<char>,
    eps: Seq<CniEndpointView>,
    ids: Map<(Seq<char>, Seq<char>), CepIdentityView>,
    key: (Seq<char>, Seq<char>),
)
    ensures
        desired_docs(node, node_ip, eps, ids).contains_key(key) <==> {
            &&& key.0.len() > 0
            &&& key.1.len() > 0
            &&& exists|i: int|
                0 <= i < eps.len() && (#[trigger] eps[i]).pod_namespace == key.0 && eps[i].pod_name
                    == key.1
        },
    decreases eps.len(),
{
    if eps.len() > 0 {
        let head = eps.drop_last();
        assert(eps[eps.len() - 1] == eps.last());
        pod_endpoints_are_published(node, node_ip, head, ids, key);
        if exists|i: int|
            0 <= i < head.len() && (#[trigger] head[i]).pod_namespace == key.0 && head[i].pod_name
                == key.1 {
            let i = choose|i: int|
                0 <= i < head.len() && (#[trigger] head[i]).pod_namespace == key.0
                    && head[i].pod_name == key.1;
            assert(eps[i] == head[i]);
        }
        if exists|i: int|
            0 <= i < eps.len() && (#[trigger] eps[i]).pod_namespace == key.0 && eps[i].pod_name
                == key.1 {
            let i = choose|i: int|
                0 <= i < eps.len() && (#[trigger] eps[i]).pod_namespace == key.0 && eps[i].pod_name
                    == key.1;
            if i < head.len() {
                assert(head[i] == eps[i]);
            }
        }
    }
}

// --------------------------------------------------------------- identities

/// Whether the pod of that namespace and name is among `pods`.
pub open spec fn pod_seen(pods: Seq<PodView>, ns: Seq<char>, name: Seq<char>) -> bool {
    exists|i: int|
        0 <= i < pods.len() && (#[trigger] pods[i]).namespace == Some(ns) && pods[i].name == name
}

/// The identities of the endpoints whose pod is seen.
pub open spec fn cep_identities_spec(
    pods: Seq<PodView>,
    alloc: Map<Seq<char>, u32>,
    eps: Seq<CniEndpointView>,
) -> Map<(Seq<char>, Seq<char>), CepIdentityView>
    decreases eps.len(),
{
    if eps.len() == 0 {
        Map::empty()
    } else {
        let m = cep_identities_spec(pods, alloc, eps.drop_last());
        let ep = eps.last();
        let labels = netpol::pod_labels(pods, ep.pod_namespace, ep.pod_name);
        if ep.pod_name.len() > 0 && ep.pod_namespace.len() > 0 && pod_seen(
            pods,
            ep.pod_namespace,
            ep.pod_name,
        ) {
            m.insert(
                (ep.pod_namespace, ep.pod_name),
                CepIdentityView {
                    id: identity::resolved(alloc, ep.pod_namespace, labels),
                    labels: identity::label_texts(ep.pod_namespace, labels),
                },
            )
        } else {
            m
        }
    }
}

/// Resolve each Kubernetes endpoint's security identity (id + label list).
/// An endpoint whose pod is not seen has none.
pub fn build_cep_identities(
    pods: &[Pod],
    alloc: &Alloc,
    endpoints: &[CniEndpoint],
) -> (r: OrdMap<(String, String), CepIdentity>)
    ensures
        r@ == cep_identities_spec(text::views(pods@), alloc@, text::views(endpoints@)),
{
    let mut out: OrdMap<(String, String), CepIdentity> = OrdMap::new();
    let ghost all = text::views(endpoints@);
    let ghost ps = text::views(pods@);
    let mut i: usize = 0;
    assert(all.take(0).len() == 0);
    while i < endpoints.len()
        invariant
            i <= endpoints@.len(),
            all == text::views(endpoints@),
            ps == text::views(pods@),
            out@ == cep_identities_spec(ps, alloc@, all.take(i as int)),
        decreases endpoints@.len() - i,
    {
        proof {
            assert(all.take(i + 1).drop_last() =~= all.take(i as int));
            assert(all.take(i + 1).last() == endpoints@[i as int]@);
        }
        let ep = &endpoints[i];
        let ns = ep.pod_namespace.as_str();
        let name = ep.pod_name.as_str();
        if !name.is_empty() && !ns.is_empty() {
            match netpol::find_pod(pods, ns, name) {
                Some(k) => {
                    assert(ps[k as int] == pods@[k as int]@);
                    let id: u32 = alloc.resolve(ns, &pods[k].labels);
                    let labels = identity::label_list(ns, &pods[k].labels);
                    out.insert(
                        (ep.pod_namespace.clone(), ep.pod_name.clone()),
                        CepIdentity { id, labels },
                    );
                },
                None => {
                    assert forall|j: int| 0 <= j < ps.len() implies !((#[trigger] ps[j]).namespace
                        == Some(ns@) && ps[j].name == name@) by {
                        assert(ps[j] == pods@[j]@);
                    }
                },
            }
        }
        i += 1;
    }
    assert(all.take(i as int) =~= all);
    out
}

/// A label set as an object, by key.
pub open spec fn labels_doc(labels: Map<Seq<char>, Seq<char>>) -> Doc {
    let l = ordmap::listing_of::<String, Seq<char>>(labels);
    Doc::Object(Seq::new(l.len(), |i: int| (l[i].0, Doc::Text(l[i].1))))
}

fn labels_object(labels: &Labels) -> (r: Json)
    ensures
        r@ == labels_doc(labels@),
{
    let n: usize = labels.len();
    let ghost l = labels.listing();
    let ghost all = Seq::new(l.len(), |i: int| (l[i].0, Doc::Text(l[i].1)));
    let mut m: Vec<(String, Json)> = Vec::new();
    let mut i: usize = 0;
    assert(text::views(m@) =~= all.take(0));
    while i < n
        invariant
            i <= n,
            n == l.len(),
            l == labels.listing(),
            all == Seq::new(l.len(), |i: int| (l[i].0, Doc::Text(l[i].1))),
            text::views(m@) == all.take(i as int),
        decreases n - i,
    {
        json::put(&mut m, labels.key(i).as_str(), json::text_value(labels.value(i).as_str()));
        assert(all.take(i + 1) =~= all.take(i as int).push(all[i as int]));
        i += 1;
    }
    assert(all.take(n as int) =~= all);
    json::object(m)
}

/// The CiliumIdentity object: its name is the number, its labels the set.
pub open spec fn cid_doc(id: u32, ns: Seq<char>, labels: Map<Seq<char>, Seq<char>>) -> Doc {
    Doc::Object(
        seq![
            ("apiVersion"@, Doc::Text("cilium.io/v2"@)),
            ("kind"@, Doc::Text("CiliumIdentity"@)),
            ("metadata"@, Doc::Object(seq![("name"@, Doc::Text(digits::dec(id as int)))])),
            ("security-labels"@, labels_doc(identity::security(ns, labels))),
        ],
    )
}

/// Build the CiliumIdentity object that records an identity.
pub fn cid_object(id: u32, namespace: &str, labels: &Labels) -> (r: Json)
    ensures
        r@ == cid_doc(id, namespace@, labels@),
{
    let mut meta: Vec<(String, Json)> = Vec::new();
    assert(text::views(meta@) =~= Seq::empty());
    json::put(&mut meta, "name", json::text_value(digits::fmt_u32(id).as_str()));
    assert(text::views(meta@) =~= seq![("name"@, Doc::Text(digits::dec(id as int)))]);
    let security = identity::security_labels(namespace, labels);
    let mut m: Vec<(String, Json)> = Vec::new();
    assert(text::views(m@) =~= Seq::empty());
    json::put(&mut m, "apiVersion", json::text_value("cilium.io/v2"));
    json::put(&mut m, "kind", json::text_value("CiliumIdentity"));
    json::put(&mut m, "metadata", json::object(meta));
    json::put(&mut m, "security-labels", labels_object(&security));
    let r = json::object(m);
    assert(r@->Object_0 =~= cid_doc(id, namespace@, labels@)->Object_0);
    r
}

} // verus!
