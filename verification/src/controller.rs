//! The decisions of the node controller: which services to program and remove,
//! which policy each endpoint gets, and the CNI configuration of the node.

use vstd::prelude::*;
use crate::cnp;
use crate::cnp::{Cnp, CnpView};
use crate::digits;
use crate::identity::Alloc;
use crate::json;
use crate::json::{Doc, Json};
use crate::messages::{
    Backend, BackendView, CidrIdentity, CidrIdentityView, CniEndpoint, CniEndpointView,
    EndpointPolicy, EndpointPolicyView, Identity, IdentityView, PolicyRule, ServiceAdd,
    ServiceAddView, ServiceDel, ServiceDelView,
};
use crate::netpol;
use crate::objects::{
    Labels, Namespace, NamespaceView, NetworkPolicy, NetworkPolicyView, Node, NodeAddress,
    NodeAddressView, NodeView, Pod, PodView,
};
use crate::ordmap;
use crate::ordmap::OrdMap;
use crate::sync;
use crate::sync::{Desired, Key, Svc, SvcView};
use crate::text;

verus! {

/// The URI a daemon endpoint is reached at: `unix:` endpoints as they stand,
/// others over HTTP without their `tcp:` prefix.
pub open spec fn uri_of(ep: Seq<char>) -> Seq<char> {
    if "unix:"@.is_prefix_of(ep) {
        ep
    } else if "tcp:"@.is_prefix_of(ep) {
        "http://"@ + ep.skip("tcp:"@.len() as int)
    } else {
        "http://"@ + ep
    }
}

/// The URI a daemon endpoint (`unix:/path`, `tcp:host:port` or `host:port`) is
/// reached at.
pub fn connect_uri(ep: &str) -> (r: String)
    ensures
        r@ == uri_of(ep@),
{
    if let Some(rest) = text::strip(ep, "unix:") {
        assert("unix:"@.is_prefix_of("unix:"@ + rest@)) by {
            assert(("unix:"@ + rest@).subrange(0, "unix:"@.len() as int) =~= "unix:"@);
        }
        return ep.to_owned();
    }
    let mut r = "http://".to_owned();
    match text::strip(ep, "tcp:") {
        Some(rest) => {
            assert("tcp:"@.is_prefix_of(ep@)) by {
                assert(ep@.subrange(0, "tcp:"@.len() as int) =~= "tcp:"@);
            }
            assert(ep@.skip("tcp:"@.len() as int) =~= rest@);
            r.append(rest);
        },
        None => {
            r.append(ep);
        },
    }
    r
}

/// The period of the full resync, at least five seconds.
pub fn resync_period(secs: u64) -> (r: u64)
    ensures
        r == (if secs < 5 {
            5
        } else {
            secs
        }),
{
    if secs < 5 {
        5
    } else {
        secs
    }
}

// --------------------------------------------------------------------- node

/// The address of the first entry of type InternalIP.
pub open spec fn internal_ip(addrs: Seq<NodeAddressView>) -> Option<Seq<char>>
    decreases addrs.len(),
{
    if addrs.len() == 0 {
        None
    } else if addrs[0].type_ == "InternalIP"@ {
        Some(addrs[0].address)
    } else {
        internal_ip(addrs.skip(1))
    }
}

fn find_internal(addrs: &Vec<NodeAddress>) -> (r: Option<String>)
    ensures
        text::opt(r) == internal_ip(text::views(addrs@)),
{
    let ghost all = text::views(addrs@);
    let mut i: usize = 0;
    assert(all.skip(0) =~= all);
    while i < addrs.len()
        invariant
            i <= addrs@.len(),
            all == text::views(addrs@),
            internal_ip(all) == internal_ip(all.skip(i as int)),
        decreases addrs@.len() - i,
    {
        proof {
            assert(all.skip(i as int)[0] == addrs@[i as int]@);
            assert(all.skip(i as int).skip(1) =~= all.skip(i + 1));
        }
        if text::same(addrs[i].type_.as_str(), "InternalIP") {
            return Some(addrs[i].address.clone());
        }
        i += 1;
    }
    None
}

/// This node's InternalIP (for NodePort frontends), or None if unknown.
pub fn node_internal_ip(node: &Node) -> (r: Option<u32>)
    ensures
        r == (match internal_ip(node@.addresses) {
            Some(a) => digits::ip4_value(a),
            None => None,
        }),
{
    match find_internal(&node.addresses) {
        Some(a) => digits::parse_ip4(a.as_str()),
        None => None,
    }
}

/// This node's InternalIP as text; empty if unknown.
pub fn node_address(node: &Node) -> (r: String)
    ensures
        r@ == text::or_empty(internal_ip(node@.addresses)),
{
    let a = find_internal(&node.addresses);
    text::text_of(&a)
}

/// The first range that holds the character `c`.
pub open spec fn first_with(ranges: Seq<Seq<char>>, c: char) -> Option<Seq<char>>
    decreases ranges.len(),
{
    if ranges.len() == 0 {
        None
    } else if ranges[0].contains(c) {
        Some(ranges[0])
    } else {
        first_with(ranges.skip(1), c)
    }
}

fn find_with(ranges: &Vec<String>, c: char) -> (r: Option<String>)
    ensures
        text::opt(r) == first_with(text::views(ranges@), c),
{
    let ghost all = text::views(ranges@);
    let mut i: usize = 0;
    assert(all.skip(0) =~= all);
    while i < ranges.len()
        invariant
            i <= ranges@.len(),
            all == text::views(ranges@),
            first_with(all, c) == first_with(all.skip(i as int), c),
        decreases ranges@.len() - i,
    {
        proof {
            assert(all.skip(i as int)[0] == ranges@[i as int]@);
            assert(all.skip(i as int).skip(1) =~= all.skip(i + 1));
        }
        if text::has_char(ranges[i].as_str(), c) {
            return Some(ranges[i].clone());
        }
        i += 1;
    }
    None
}

/// The IPv4 pod range: the first dotted one of the list, else the single one.
pub open spec fn range4(node: NodeView) -> Option<Seq<char>> {
    match first_with(node.pod_cidrs, '.') {
        Some(c) => Some(c),
        None => match node.pod_cidr {
            Some(c) if c.contains('.') => Some(c),
            _ => None,
        },
    }
}

/// The IPv4 pod range of the node, once it is assigned.
pub fn pod_range4(node: &Node) -> (r: Option<String>)
    ensures
        text::opt(r) == range4(node@),
{
    let listed = find_with(&node.pod_cidrs, '.');
    if listed.is_some() {
        return listed;
    }
    match &node.pod_cidr {
        Some(c) => if text::has_char(c.as_str(), '.') {
            Some(c.clone())
        } else {
            None
        },
        None => None,
    }
}

/// The address-management section of the CNI configuration.
pub open spec fn ipam_doc(cidr: Seq<char>, cidr6: Option<Seq<char>>) -> Doc {
    let head = seq![("type"@, Doc::Text("cradle"@)), ("subnet"@, Doc::Text(cidr))];
    match cidr6 {
        Some(c6) => Doc::Object(head.push(("subnet6"@, Doc::Text(c6)))),
        None => Doc::Object(head),
    }
}

fn ipam_section(cidr: &str, cidr6: &Option<String>) -> (r: Json)
    ensures
        r@ == ipam_doc(cidr@, text::opt(*cidr6)),
{
    let mut m: Vec<(String, Json)> = Vec::new();
    assert(text::views(m@) =~= Seq::empty());
    json::put(&mut m, "type", json::text_value("cradle"));
    json::put(&mut m, "subnet", json::text_value(cidr));
    assert(text::views(m@) =~= seq![
        ("type"@, Doc::Text("cradle"@)),
        ("subnet"@, Doc::Text(cidr@)),
    ]);
    if let Some(c6) = cidr6 {
        json::put(&mut m, "subnet6", json::text_value(c6.as_str()));
    }
    json::object(m)
}

/// The CNI configuration list of the node: none before its IPv4 pod range is
/// assigned. An IPv6 range makes it dual-stack.
pub open spec fn conf_doc(node: NodeView, grpc: Seq<char>) -> Option<Doc> {
    match range4(node) {
        None => None,
        Some(cidr) => Some(
            Doc::Object(
                seq![
                    ("cniVersion"@, Doc::Text("1.0.0"@)),
                    ("name"@, Doc::Text("cradle"@)),
                    (
                        "plugins"@,
                        Doc::List(
                            seq![
                                Doc::Object(
                                    seq![
                                        ("type"@, Doc::Text("cradle-cni"@)),
                                        ("grpcEndpoint"@, Doc::Text(grpc)),
                                        (
                                            "nodeIP"@,
                                            Doc::Text(
                                                text::or_empty(internal_ip(node.addresses)),
                                            ),
                                        ),
                                        (
                                            "capabilities"@,
                                            Doc::Object(seq![("portMappings"@, Doc::Bool(true))]),
                                        ),
                                        ("ipam"@, ipam_doc(cidr, first_with(node.pod_cidrs, ':'))),
                                    ],
                                ),
                            ],
                        ),
                    ),
                ],
            ),
        ),
    }
}

/// Render the CNI configuration list of the node, once its podCIDR is known.
pub fn render_cni_conf(node: &Node, grpc: &str) -> (r: Option<Json>)
    ensures
        text::opt(r) == conf_doc(node@, grpc@),
{
    let cidr = match pod_range4(node) {
        Some(c) => c,
        None => {
            return None;
        },
    };
    let cidr6 = find_with(&node.pod_cidrs, ':');
    let node_ip = node_address(node);
    let mut caps: Vec<(String, Json)> = Vec::new();
    assert(text::views(caps@) =~= Seq::empty());
    json::put(&mut caps, "portMappings", Json::Bool(true));
    assert(text::views(caps@) =~= seq![("portMappings"@, Doc::Bool(true))]);
    let mut p: Vec<(String, Json)> = Vec::new();
    assert(text::views(p@) =~= Seq::empty());
    json::put(&mut p, "type", json::text_value("cradle-cni"));
    json::put(&mut p, "grpcEndpoint", json::text_value(grpc));
    json::put(&mut p, "nodeIP", json::text_value(node_ip.as_str()));
    json::put(&mut p, "capabilities", json::object(caps));
    json::put(&mut p, "ipam", ipam_section(cidr.as_str(), &cidr6));
    let ghost plugin = seq![
        ("type"@, Doc::Text("cradle-cni"@)),
        ("grpcEndpoint"@, Doc::Text(grpc@)),
        ("nodeIP"@, Doc::Text(text::or_empty(internal_ip(node@.addresses)))),
        ("capabilities"@, Doc::Object(seq![("portMappings"@, Doc::Bool(true))])),
        ("ipam"@, ipam_doc(cidr@, first_with(node@.pod_cidrs, ':'))),
    ];
    assert(text::views(p@) =~= plugin);
    let mut l: Vec<Json> = Vec::new();
    l.push(json::object(p));
    assert(text::views(l@) =~= seq![Doc::Object(plugin)]);
    let mut m: Vec<(String, Json)> = Vec::new();
    assert(text::views(m@) =~= Seq::empty());
    json::put(&mut m, "cniVersion", json::text_value("1.0.0"));
    json::put(&mut m, "name", json::text_value("cradle"));
    json::put(&mut m, "plugins", json::list(l));
    let r = json::object(m);
    assert(r@->Object_0 =~= conf_doc(node@, grpc@)->0->Object_0);
    Some(r)
}

// ----------------------------------------------------------------- services

/// The keys of the listing whose service differs from what is programmed.
pub open spec fn changed_in(p: Map<Key, SvcView>, l: Seq<(Key, SvcView)>) -> Seq<Key>
    decreases l.len(),
{
    if l.len() == 0 {
        Seq::empty()
    } else {
        let head = changed_in(p, l.drop_last());
        let e = l.last();
        if p.contains_key(e.0) && p[e.0] == e.1 {
            head
        } else {
            head.push(e.0)
        }
    }
}

/// The keys to program: the desired services that differ from what is
/// programmed, in key order.
pub open spec fn changed_keys(p: Map<Key, SvcView>, d: Map<Key, SvcView>) -> Seq<Key> {
    changed_in(p, ordmap::listing_of::<Key, SvcView>(d))
}

/// The keys of the listing that are not desired.
pub open spec fn stale_in(d: Map<Key, SvcView>, l: Seq<(Key, SvcView)>) -> Seq<Key>
    decreases l.len(),
{
    if l.len() == 0 {
        Seq::empty()
    } else {
        let head = stale_in(d, l.drop_last());
        if d.contains_key(l.last().0) {
            head
        } else {
            head.push(l.last().0)
        }
    }
}

/// The keys to remove: what is programmed and not desired, in key order.
pub open spec fn stale_keys(p: Map<Key, SvcView>, d: Map<Key, SvcView>) -> Seq<Key> {
    stale_in(d, ordmap::listing_of::<Key, SvcView>(p))
}

/// The services as the daemon has acknowledged them.
pub struct Programmed {
    services: Desired,
}

impl View for Programmed {
    type V = Map<Key, SvcView>;

    closed spec fn view(&self) -> Map<Key, SvcView> {
        self.services@
    }
}

impl Programmed {
    /// Nothing programmed.
    pub fn new() -> (r: Self)
        ensures
            r@ == Map::<Key, SvcView>::empty(),
    {
        Programmed { services: OrdMap::new() }
    }

    /// Forget what was programmed: everything is pushed again, so that a
    /// daemon restarted with empty tables converges.
    pub fn forget(&mut self)
        ensures
            final(self)@ == Map::<Key, SvcView>::empty(),
    {
        self.services = OrdMap::new();
    }

    /// The keys to program towards `desired`.
    pub fn changed(&self, desired: &Desired) -> (r: Vec<Key>)
        ensures
            r@ == changed_keys(self@, desired@),
    {
        let n: usize = desired.len();
        let ghost l = desired.listing();
        let mut out: Vec<Key> = Vec::new();
        let mut i: usize = 0;
        assert(l.take(0).len() == 0);
        while i < n
            invariant
                i <= n,
                n == l.len(),
                l == desired.listing(),
                out@ == changed_in(self@, l.take(i as int)),
            decreases n - i,
        {
            proof {
                assert(l.take(i + 1).drop_last() =~= l.take(i as int));
                assert(l.take(i + 1).last() == l[i as int]);
            }
            let key: Key = *desired.key(i);
            let same = match self.services.get(&key) {
                Some(s) => s.same(desired.value(i)),
                None => false,
            };
            if !same {
                out.push(key);
            }
            i += 1;
        }
        assert(l.take(n as int) =~= l);
        out
    }

    /// The keys to remove towards `desired`.
    pub fn stale(&self, desired: &Desired) -> (r: Vec<Key>)
        ensures
            r@ == stale_keys(self@, desired@),
    {
        let n: usize = self.services.len();
        let ghost l = self.services.listing();
        let mut out: Vec<Key> = Vec::new();
        let mut i: usize = 0;
        assert(l.take(0).len() == 0);
        while i < n
            invariant
                i <= n,
                n == l.len(),
                l == self.services.listing(),
                out@ == stale_in(desired@, l.take(i as int)),
            decreases n - i,
        {
            proof {
                assert(l.take(i + 1).drop_last() =~= l.take(i as int));
                assert(l.take(i + 1).last() == l[i as int]);
            }
            let key: Key = *self.services.key(i);
            if !desired.has(&key) {
                out.push(key);
            }
            i += 1;
        }
        assert(l.take(n as int) =~= l);
        out
    }

    /// Note that the daemon has taken the service.
    pub fn added(&mut self, key: Key, svc: &Svc)
        ensures
            final(self)@ == old(self)@.insert(key, svc@),
    {
        self.services.insert(key, svc.clone());
    }

    /// Note that the daemon has dropped the service.
    pub fn removed(&mut self, key: Key)
        ensures
            final(self)@ == old(self)@.remove(key),
    {
        self.services.remove(&key);
    }
}

/// The backends of a service message, by address and port.
pub open spec fn backend_views(l: Seq<(u32, u16)>) -> Seq<BackendView> {
    Seq::new(
        l.len(),
        |i: int| BackendView { ip: digits::ip4_text(l[i].0), port: l[i].1 as u32 },
    )
}

/// The name of a service's protocol.
pub open spec fn proto_name(proto: u8) -> Seq<char> {
    if proto == sync::UDP {
        "udp"@
    } else {
        "tcp"@
    }
}

/// The message that programs a service.
pub fn add_message(key: &Key, svc: &Svc) -> (r: ServiceAdd)
    ensures
        r@ == add_view(*key, svc@),
{
    let n: usize = svc.backends.len();
    let ghost l = svc.backends.listing();
    let ghost all = backend_views(l);
    let mut backends: Vec<Backend> = Vec::new();
    let mut i: usize = 0;
    assert(text::views(backends@) =~= all.take(0));
    while i < n
        invariant
            i <= n,
            n == l.len(),
            l == svc.backends.listing(),
            all == backend_views(l),
            text::views(backends@) == all.take(i as int),
        decreases n - i,
    {
        let b: (u32, u16) = *svc.backends.item(i);
        let ghost before = text::views(backends@);
        let one = Backend { ip: digits::fmt_ip4(b.0), port: b.1 as u32 };
        assert(one@ =~= all[i as int]);
        backends.push(one);
        assert(text::views(backends@) =~= before.push(all[i as int]));
        assert(all.take(i + 1) =~= all.take(i as int).push(all[i as int]));
        i += 1;
    }
    assert(all.take(n as int) =~= all);
    ServiceAdd {
        svc_id: sync::svc_id(key),
        vip: digits::fmt_ip4(key.0),
        port: key.1 as u32,
        proto: sync::proto_str(key.2).to_owned(),
        affinity: svc.affinity,
        backends,
    }
}

/// The message that removes a service.
pub fn del_message(key: &Key) -> (r: ServiceDel)
    ensures
        r@ == del_view(*key),
{
    ServiceDel {
        vip: digits::fmt_ip4(key.0),
        port: key.1 as u32,
        proto: sync::proto_str(key.2).to_owned(),
    }
}

/// The messages of a round: first the changed services, then the stale ones,
/// each in key order, with the key to note once the daemon has answered.
pub struct ApplyPlan {
    pub adds: Vec<(Key, ServiceAdd)>,
    pub dels: Vec<(Key, ServiceDel)>,
}

/// The message that programs the service at `key`.
pub open spec fn add_view(key: Key, svc: SvcView) -> ServiceAddView {
    ServiceAddView {
        svc_id: sync::svc_id_spec(key),
        vip: digits::ip4_text(key.0),
        port: key.1 as u32,
        proto: proto_name(key.2),
        affinity: svc.affinity,
        backends: backend_views(ordmap::items_of::<(u32, u16)>(svc.backends)),
    }
}

/// The message that removes the service at `key`.
pub open spec fn del_view(key: Key) -> ServiceDelView {
    ServiceDelView {
        vip: digits::ip4_text(key.0),
        port: key.1 as u32,
        proto: proto_name(key.2),
    }
}

/// A key that is to be programmed is desired.
proof fn changed_is_desired(p: Map<Key, SvcView>, wanted: Seq<(Key, SvcView)>, i: int)
    requires
        ordmap::ascending::<Key, SvcView>(wanted),
        0 <= i < changed_in(p, wanted).len(),
    ensures
        ordmap::mapping(wanted).contains_key(changed_in(p, wanted)[i]),
{
    let k = changed_in(p, wanted)[i];
    assert(changed_in(p, wanted).contains(k));
    changed_has(p, wanted, k);
    let j = choose|j: int|
        0 <= j < wanted.len() && (#[trigger] wanted[j]).0 == k && !(p.contains_key(k) && p[k]
            == wanted[j].1);
    ordmap::lookup_entry::<Key, SvcView>(wanted, j);
}

/// The difference between what is programmed and what is desired, as messages.
pub fn apply(programmed: &Programmed, desired: &Desired) -> (r: ApplyPlan)
    ensures
        r.adds@.len() == changed_keys(programmed@, desired@).len(),
        forall|i: int|
            0 <= i < r.adds@.len() ==> {
                let k = changed_keys(programmed@, desired@)[i];
                &&& (#[trigger] r.adds@[i]).0 == k
                &&& r.adds@[i].1@ == add_view(k, desired@[k])
            },
        r.dels@.len() == stale_keys(programmed@, desired@).len(),
        forall|i: int|
            0 <= i < r.dels@.len() ==> {
                let k = stale_keys(programmed@, desired@)[i];
                &&& (#[trigger] r.dels@[i]).0 == k
                &&& r.dels@[i].1@ == del_view(k)
            },
{
    let keys = programmed.changed(desired);
    let _n: usize = desired.len();
    let ghost wanted = desired.listing();
    let mut adds: Vec<(Key, ServiceAdd)> = Vec::new();
    let mut i: usize = 0;
    while i < keys.len()
        invariant
            i <= keys@.len(),
            keys@ == changed_keys(programmed@, desired@),
            wanted == desired.listing(),
            wanted == ordmap::listing_of::<Key, SvcView>(desired@),
            ordmap::ascending::<Key, SvcView>(wanted),
            adds@.len() == i,
            forall|j: int|
                0 <= j < i ==> (#[trigger] adds@[j]).0 == keys@[j] && adds@[j].1@ == add_view(
                    keys@[j],
                    desired@[keys@[j]],
                ),
        decreases keys@.len() - i,
    {
        let key: Key = keys[i];
        proof {
            changed_is_desired(programmed@, wanted, i as int);
        }
        if let Some(svc) = desired.get(&key) {
            adds.push((key, add_message(&key, svc)));
        }
        i += 1;
    }
    let gone = programmed.stale(desired);
    let mut dels: Vec<(Key, ServiceDel)> = Vec::new();
    let mut j: usize = 0;
    while j < gone.len()
        invariant
            j <= gone@.len(),
            dels@.len() == j,
            forall|k: int|
                0 <= k < j ==> (#[trigger] dels@[k]).0 == gone@[k] && dels@[k].1@ == del_view(
                    gone@[k],
                ),
        decreases gone@.len() - j,
    {
        let key: Key = gone[j];
        dels.push((key, del_message(&key)));
        j += 1;
    }
    ApplyPlan { adds, dels }
}

/// What is programmed once the daemon has taken the desired services at `keys`.
pub open spec fn after_adds(p: Map<Key, SvcView>, d: Map<Key, SvcView>, keys: Seq<Key>) -> Map<
    Key,
    SvcView,
>
    decreases keys.len(),
{
    if keys.len() == 0 {
        p
    } else {
        after_adds(p, d, keys.drop_last()).insert(keys.last(), d[keys.last()])
    }
}

/// What is programmed once the daemon has dropped the services at `keys`.
pub open spec fn after_dels(p: Map<Key, SvcView>, keys: Seq<Key>) -> Map<Key, SvcView>
    decreases keys.len(),
{
    if keys.len() == 0 {
        p
    } else {
        after_dels(p, keys.drop_last()).remove(keys.last())
    }
}

/// A key is to be programmed iff its service differs from what is programmed.
proof fn changed_has(p: Map<Key, SvcView>, l: Seq<(Key, SvcView)>, k: Key)
    ensures
        changed_in(p, l).contains(k) <==> exists|i: int|
            0 <= i < l.len() && (#[trigger] l[i]).0 == k && !(p.contains_key(k) && p[k] == l[i].1),
    decreases l.len(),
{
    if l.len() > 0 {
        let head = changed_in(p, l.drop_last());
        let all = changed_in(p, l);
        let e = l.last();
        changed_has(p, l.drop_last(), k);
        assert(l[l.len() - 1] == e);
        if head.contains(k) {
            let i = choose|i: int|
                0 <= i < l.drop_last().len() && (#[trigger] l.drop_last()[i]).0 == k && !(
                p.contains_key(k) && p[k] == l.drop_last()[i].1);
            assert(l[i].0 == k);
            let j = choose|j: int| 0 <= j < head.len() && head[j] == k;
            assert(all[j] == k);
        }
        if !(p.contains_key(e.0) && p[e.0] == e.1) {
            assert(all[all.len() - 1] == e.0);
        }
        if exists|i: int|
            0 <= i < l.len() && (#[trigger] l[i]).0 == k && !(p.contains_key(k) && p[k] == l[i].1) {
            let i = choose|i: int|
                0 <= i < l.len() && (#[trigger] l[i]).0 == k && !(p.contains_key(k) && p[k]
                    == l[i].1);
            if i < l.len() - 1 {
                assert(l.drop_last()[i] == l[i]);
            }
        }
        if all.contains(k) && !head.contains(k) {
            let j = choose|j: int| 0 <= j < all.len() && all[j] == k;
            if j < head.len() {
                assert(head[j] == k);
            }
        }
    }
}

/// A key is to be removed iff it is listed and not desired.
proof fn stale_has(d: Map<Key, SvcView>, l: Seq<(Key, SvcView)>, k: Key)
    ensures
        stale_in(d, l).contains(k) <==> !d.contains_key(k) && ordmap::lookup(l, k) is Some,
    decreases l.len(),
{
    if l.len() > 0 {
        let head = stale_in(d, l.drop_last());
        let all = stale_in(d, l);
        stale_has(d, l.drop_last(), k);
        if head.contains(k) {
            let j = choose|j: int| 0 <= j < head.len() && head[j] == k;
            assert(all[j] == k);
        }
        if !d.contains_key(l.last().0) {
            assert(all[all.len() - 1] == l.last().0);
        }
        if all.contains(k) && !head.contains(k) {
            let j = choose|j: int| 0 <= j < all.len() && all[j] == k;
            if j < head.len() {
                assert(head[j] == k);
            }
        }
    }
}

proof fn after_adds_get(p: Map<Key, SvcView>, d: Map<Key, SvcView>, keys: Seq<Key>, k: Key)
    ensures
        after_adds(p, d, keys).contains_key(k) <==> p.contains_key(k) || keys.contains(k),
        keys.contains(k) ==> after_adds(p, d, keys)[k] == d[k],
        !keys.contains(k) && p.contains_key(k) ==> after_adds(p, d, keys)[k] == p[k],
    decreases keys.len(),
{
    if keys.len() > 0 {
        let head = keys.drop_last();
        after_adds_get(p, d, head, k);
        assert(keys[keys.len() - 1] == keys.last());
        if head.contains(k) {
            let j = choose|j: int| 0 <= j < head.len() && head[j] == k;
            assert(keys[j] == k);
        }
        if keys.contains(k) && k != keys.last() {
            let j = choose|j: int| 0 <= j < keys.len() && keys[j] == k;
            assert(head[j] == k);
        }
    }
}

proof fn after_dels_get(p: Map<Key, SvcView>, keys: Seq<Key>, k: Key)
    ensures
        after_dels(p, keys).contains_key(k) <==> p.contains_key(k) && !keys.contains(k),
        after_dels(p, keys).contains_key(k) ==> after_dels(p, keys)[k] == p[k],
    decreases keys.len(),
{
    if keys.len() > 0 {
        let head = keys.drop_last();
        after_dels_get(p, head, k);
        assert(keys[keys.len() - 1] == keys.last());
        if head.contains(k) {
            let j = choose|j: int| 0 <= j < head.len() && head[j] == k;
            assert(keys[j] == k);
        }
        if keys.contains(k) && k != keys.last() {
            let j = choose|j: int| 0 <= j < keys.len() && keys[j] == k;
            assert(head[j] == k);
        }
    }
}

/// What is programmed can be listed in key order, as a round does.
pub proof fn programmed_is_listed(p: Programmed)
    ensures
        p@.dom().finite(),
        ordmap::ascending::<Key, SvcView>(ordmap::listing_of::<Key, SvcView>(p@)),
        ordmap::mapping(ordmap::listing_of::<Key, SvcView>(p@)) == p@,
{
    ordmap::mapping_finite(p.services.listing());
    ordmap::finite_is_listed::<Key, SvcView>(p@);
}

/// So can what is desired.
pub proof fn desired_is_listed(d: Desired)
    ensures
        d@.dom().finite(),
        ordmap::ascending::<Key, SvcView>(ordmap::listing_of::<Key, SvcView>(d@)),
        ordmap::mapping(ordmap::listing_of::<Key, SvcView>(d@)) == d@,
{
    ordmap::mapping_finite(d.listing());
    ordmap::finite_is_listed::<Key, SvcView>(d@);
}

/// A completed round converges: once the daemon has taken every changed
/// service and dropped every stale one, what is programmed is what is desired.
pub proof fn completed_round_converges(p: Programmed, d: Desired)
    ensures
        after_dels(after_adds(p@, d@, changed_keys(p@, d@)), stale_keys(p@, d@)) == d@,
{
    programmed_is_listed(p);
    desired_is_listed(d);
    round_converges(
        ordmap::listing_of::<Key, SvcView>(d@),
        ordmap::listing_of::<Key, SvcView>(p@),
    );
}

/// The same of listings: `wanted` lists the desired services, `listed` the
/// programmed ones.
proof fn round_converges(
    wanted: Seq<(Key, SvcView)>,
    listed: Seq<(Key, SvcView)>,
)
    requires
        ordmap::ascending::<Key, SvcView>(wanted),
        ordmap::ascending::<Key, SvcView>(listed),
    ensures
        ({
            let d = ordmap::mapping(wanted);
            let p = ordmap::mapping(listed);
            after_dels(after_adds(p, d, changed_keys(p, d)), stale_keys(p, d)) == d
        }),
{
    let d = ordmap::mapping(wanted);
    let p = ordmap::mapping(listed);
    let keys = changed_keys(p, d);
    let q = after_adds(p, d, keys);
    let gone = stale_keys(p, d);
    ordmap::one_listing::<Key, SvcView>(wanted, ordmap::listing_of::<Key, SvcView>(d));
    ordmap::one_listing::<Key, SvcView>(listed, ordmap::listing_of::<Key, SvcView>(p));
    let end = after_dels(q, gone);
    assert forall|k: Key| #[trigger] end.contains_key(k) == d.contains_key(k) && (d.contains_key(k)
        ==> end[k] == d[k]) by {
        changed_has(p, wanted, k);
        after_adds_get(p, d, keys, k);
        stale_has(d, listed, k);
        after_dels_get(q, gone, k);
        assert(p.contains_key(k) == (ordmap::lookup(listed, k) is Some));
        if d.contains_key(k) {
            let i = ordmap::lookup_found(wanted, k);
            assert(d[k] == wanted[i].1);
        } else if keys.contains(k) {
            let i = choose|i: int|
                0 <= i < wanted.len() && (#[trigger] wanted[i]).0 == k && !(p.contains_key(k)
                    && p[k] == wanted[i].1);
            ordmap::lookup_entry::<Key, SvcView>(wanted, i);
            assert(false);
        }
    }
    assert(end =~= d);
}

/// Nothing is pushed when what is programmed is what is desired.
pub proof fn settled_state_is_left_alone(p: Programmed, d: Desired)
    requires
        p@ == d@,
    ensures
        changed_keys(p@, d@).len() == 0,
        stale_keys(p@, d@).len() == 0,
{
    desired_is_listed(d);
    settled_listing(ordmap::listing_of::<Key, SvcView>(d@));
}

proof fn settled_listing(wanted: Seq<(Key, SvcView)>)
    requires
        ordmap::ascending::<Key, SvcView>(wanted),
    ensures
        changed_keys(ordmap::mapping(wanted), ordmap::mapping(wanted)).len() == 0,
        stale_keys(ordmap::mapping(wanted), ordmap::mapping(wanted)).len() == 0,
{
    let d = ordmap::mapping(wanted);
    ordmap::one_listing::<Key, SvcView>(wanted, ordmap::listing_of::<Key, SvcView>(d));
    let keys = changed_in(d, wanted);
    if keys.len() > 0 {
        let k = keys[0];
        assert(keys.contains(k));
        changed_has(d, wanted, k);
        let i = choose|i: int|
            0 <= i < wanted.len() && (#[trigger] wanted[i]).0 == k && !(d.contains_key(k) && d[k]
                == wanted[i].1);
        ordmap::lookup_entry::<Key, SvcView>(wanted, i);
    }
    let gone = stale_in(d, wanted);
    if gone.len() > 0 {
        assert(gone.contains(gone[0]));
        stale_has(d, wanted, gone[0]);
    }
}

/// Once what is programmed is forgotten, on a reconnect or a resync, the round
/// pushes every desired service, and drops none.
pub proof fn forgotten_state_is_pushed_again(p: Programmed, d: Desired, k: Key)
    requires
        p@ == Map::<Key, SvcView>::empty(),
    ensures
        changed_keys(p@, d@).contains(k) <==> d@.contains_key(k),
        stale_keys(p@, d@).len() == 0,
{
    desired_is_listed(d);
    programmed_is_listed(p);
    let wanted = ordmap::listing_of::<Key, SvcView>(d@);
    let listed = ordmap::listing_of::<Key, SvcView>(p@);
    changed_has(p@, wanted, k);
    if d@.contains_key(k) {
        let i = ordmap::lookup_found(wanted, k);
        assert(wanted[i].0 == k);
    } else if changed_keys(p@, d@).contains(k) {
        let i = choose|i: int|
            0 <= i < wanted.len() && (#[trigger] wanted[i]).0 == k && !(p@.contains_key(k) && p@[k]
                == wanted[i].1);
        ordmap::lookup_entry::<Key, SvcView>(wanted, i);
    }
    let gone = stale_in(d@, listed);
    if gone.len() > 0 {
        assert(gone.contains(gone[0]));
        stale_has(d@, listed, gone[0]);
        assert(ordmap::mapping(listed).contains_key(gone[0]));
    }
}

/// A round broken off after the first `n` services resumes where it stopped:
/// the next one pushes exactly the rest.
pub proof fn broken_round_resumes(p: Programmed, d: Desired, n: int)
    requires
        0 <= n <= changed_keys(p@, d@).len(),
    ensures
        ({
            let keys = changed_keys(p@, d@);
            changed_keys(after_adds(p@, d@, keys.take(n)), d@) == keys.skip(n)
        }),
{
    desired_is_listed(d);
    broken_listing_resumes(p@, ordmap::listing_of::<Key, SvcView>(d@), n);
}

proof fn broken_listing_resumes(p: Map<Key, SvcView>, wanted: Seq<(Key, SvcView)>, n: int)
    requires
        ordmap::ascending::<Key, SvcView>(wanted),
        0 <= n <= changed_keys(p, ordmap::mapping(wanted)).len(),
    ensures
        ({
            let d = ordmap::mapping(wanted);
            let keys = changed_keys(p, d);
            changed_keys(after_adds(p, d, keys.take(n)), d) == keys.skip(n)
        }),
{
    let d = ordmap::mapping(wanted);
    ordmap::one_listing::<Key, SvcView>(wanted, ordmap::listing_of::<Key, SvcView>(d));
    let keys = changed_in(p, wanted);
    resume_prefix(p, wanted, n, wanted.len() as int);
    assert(wanted.take(wanted.len() as int) =~= wanted);
}

/// The changed keys of a listing's prefix are a prefix of the changed keys.
proof fn changed_prefix(p: Map<Key, SvcView>, l: Seq<(Key, SvcView)>, i: int)
    requires
        0 <= i <= l.len(),
    ensures
        changed_in(p, l.take(i)).len() <= changed_in(p, l).len(),
        changed_in(p, l.take(i)) == changed_in(p, l).take(changed_in(p, l.take(i)).len() as int),
        changed_in(p, l.take(i)).len() <= i,
    decreases l.len(),
{
    if i == l.len() {
        assert(l.take(i) =~= l);
        if l.len() > 0 {
            changed_prefix(p, l.drop_last(), i - 1);
            assert(l.drop_last().take(i - 1) =~= l.drop_last());
        }
        assert(changed_in(p, l).take(changed_in(p, l).len() as int) =~= changed_in(p, l));
    } else {
        changed_prefix(p, l.drop_last(), i);
        assert(l.drop_last().take(i) =~= l.take(i));
        let h = changed_in(p, l.drop_last());
        let m = changed_in(p, l.take(i)).len() as int;
        assert(changed_in(p, l).take(m) =~= h.take(m));
    }
}

/// Distinct places of a listing give distinct changed keys.
proof fn changed_rises(p: Map<Key, SvcView>, l: Seq<(Key, SvcView)>)
    requires
        ordmap::ascending::<Key, SvcView>(l),
    ensures
        forall|a: int, b: int|
            0 <= a < b < changed_in(p, l).len() ==> changed_in(p, l)[a] != changed_in(p, l)[b],
    decreases l.len(),
{
    if l.len() > 0 {
        let h = l.drop_last();
        assert(ordmap::ascending::<Key, SvcView>(h));
        changed_rises(p, h);
        let c = changed_in(p, h);
        assert forall|a: int| 0 <= a < c.len() implies c[a] != l.last().0 by {
            assert(c.contains(c[a]));
            changed_has(p, h, c[a]);
            let i = choose|i: int|
                0 <= i < h.len() && (#[trigger] h[i]).0 == c[a] && !(p.contains_key(c[a])
                    && p[c[a]] == h[i].1);
            assert(l[i].0 == c[a]);
            assert(<Key as ordmap::SortKey>::lt(l[i].0, l[l.len() - 1].0));
        }
    }
}

proof fn resume_prefix(p: Map<Key, SvcView>, l: Seq<(Key, SvcView)>, n: int, i: int)
    requires
        ordmap::ascending::<Key, SvcView>(l),
        0 <= n <= changed_in(p, l).len(),
        0 <= i <= l.len(),
    ensures
        ({
            let d = ordmap::mapping(l);
            let keys = changed_in(p, l);
            let q = after_adds(p, d, keys.take(n));
            let m = changed_in(p, l.take(i)).len() as int;
            changed_in(q, l.take(i)) == (if m <= n {
                Seq::empty()
            } else {
                keys.subrange(n, m)
            })
        }),
    decreases i,
{
    let d = ordmap::mapping(l);
    let keys = changed_in(p, l);
    let done = keys.take(n);
    let q = after_adds(p, d, done);
    if i > 0 {
        resume_prefix(p, l, n, i - 1);
        changed_prefix(p, l, i - 1);
        changed_prefix(p, l, i);
        changed_rises(p, l);
        let e = l[i - 1];
        let h = changed_in(p, l.take(i - 1));
        let m = h.len() as int;
        assert(l.take(i).drop_last() =~= l.take(i - 1));
        assert(l.take(i).last() == e);
        ordmap::lookup_entry::<Key, SvcView>(l, i - 1);
        assert(d.contains_key(e.0) && d[e.0] == e.1);
        after_adds_get(p, d, done, e.0);
        if !(p.contains_key(e.0) && p[e.0] == e.1) {
            let c = changed_in(p, l.take(i));
            assert(c == h.push(e.0));
            assert(keys.take(m + 1)[m] == e.0);
            assert(keys[m] == e.0);
            if m < n {
                assert(done[m] == e.0);
                assert(done.contains(e.0));
            } else {
                if done.contains(e.0) {
                    let j = choose|j: int| 0 <= j < done.len() && done[j] == e.0;
                    assert(keys[j] == e.0);
                    assert(false);
                }
                assert(keys.subrange(n, m + 1) =~= keys.subrange(n, m).push(e.0));
            }
            if m == n {
                assert(keys.subrange(n, m) =~= Seq::empty());
                assert(changed_in(q, l.take(i)) =~= keys.subrange(n, m + 1));
            }
        }
    }
}

// ------------------------------------------------------------------ policies

/// The merged policy of an endpoint: the other policies' rules join on top, and
/// a direction that only they select lets the node in first.
pub open spec fn merged(np: EndpointPolicyView, r: cnp::EndpointRules) -> EndpointPolicyView {
    EndpointPolicyView {
        enforce: np.enforce || r.any_in,
        rules: if r.any_in {
            if np.enforce {
                np.rules + r.ingress
            } else {
                np.rules + seq![netpol::host_rule_spec()] + r.ingress
            }
        } else {
            np.rules
        },
        enforce_egress: np.enforce_egress || r.any_eg,
        egress_rules: if r.any_eg {
            if np.enforce_egress {
                np.egress_rules + r.egress
            } else {
                np.egress_rules + seq![netpol::host_rule_spec()] + r.egress
            }
        } else {
            np.egress_rules
        },
        ..np
    }
}

/// The policy under an enforcement mode. `never`: enforcement off. `always`:
/// every endpoint is enforced both ways; a direction that nothing selects is
/// closed to all but the node.
pub open spec fn under_mode(p: EndpointPolicyView, mode: Seq<char>) -> EndpointPolicyView {
    if mode == "never"@ {
        EndpointPolicyView {
            enforce: false,
            rules: Seq::empty(),
            enforce_egress: false,
            egress_rules: Seq::empty(),
            ..p
        }
    } else if mode == "always"@ {
        EndpointPolicyView {
            enforce: true,
            rules: if p.enforce {
                p.rules
            } else {
                seq![netpol::host_rule_spec()]
            },
            enforce_egress: true,
            egress_rules: if p.enforce_egress {
                p.egress_rules
            } else {
                seq![netpol::host_rule_spec()]
            },
            ..p
        }
    } else {
        p
    }
}

/// The policy of one endpoint, of both kinds of policies and under the mode.
pub open spec fn policy_of(
    ep: CniEndpointView,
    policies: Seq<NetworkPolicyView>,
    pods: Seq<PodView>,
    namespaces: Seq<NamespaceView>,
    mode: Seq<char>,
    alloc: Map<Seq<char>, u32>,
    cnps: Seq<CnpView>,
) -> EndpointPolicyView {
    under_mode(
        merged(
            netpol::endpoint_policy_spec(ep, policies, pods, namespaces, alloc),
            cnp::endpoint_rules_spec(
                cnps,
                ep.pod_namespace,
                netpol::pod_labels(pods, ep.pod_namespace, ep.pod_name),
                pods,
                alloc,
            ),
        ),
        mode,
    )
}

fn host_alone() -> (r: Vec<PolicyRule>)
    ensures
        r@ == seq![netpol::host_rule_spec()],
{
    let mut r: Vec<PolicyRule> = Vec::new();
    r.push(netpol::host_rule());
    assert(r@ =~= seq![netpol::host_rule_spec()]);
    r
}

/// The policy to push for one endpoint.
pub fn merged_policy(
    ep: &CniEndpoint,
    policies: &[NetworkPolicy],
    pods: &[Pod],
    namespaces: &[Namespace],
    mode: &str,
    alloc: &Alloc,
    cnps: &[Cnp],
) -> (r: EndpointPolicy)
    ensures
        r@ == policy_of(
            ep@,
            text::views(policies@),
            text::views(pods@),
            text::views(namespaces@),
            mode@,
            alloc@,
            text::views(cnps@),
        ),
{
    let mut p = netpol::endpoint_policy(ep, policies, pods, namespaces, alloc);
    let ghost np = p@;
    let none: Labels = OrdMap::new();
    let ns = ep.pod_namespace.as_str();
    let labels = match netpol::find_pod(pods, ns, ep.pod_name.as_str()) {
        Some(i) => &pods[i].labels,
        None => &none,
    };
    let (mut cnp_in, mut cnp_eg, any_in, any_eg) = cnp::endpoint_rules(
        cnps,
        ns,
        labels,
        pods,
        alloc,
    );
    let ghost rules = cnp::endpoint_rules_spec(
        text::views(cnps@),
        ep@.pod_namespace,
        netpol::pod_labels(text::views(pods@), ep@.pod_namespace, ep@.pod_name),
        text::views(pods@),
        alloc@,
    );
    if any_in {
        if !p.enforce {
            p.enforce = true;
            p.rules.push(netpol::host_rule());
            assert(p.rules@ =~= np.rules + seq![netpol::host_rule_spec()]);
        }
        p.rules.append(&mut cnp_in);
    }
    if any_eg {
        if !p.enforce_egress {
            p.enforce_egress = true;
            p.egress_rules.push(netpol::host_rule());
            assert(p.egress_rules@ =~= np.egress_rules + seq![netpol::host_rule_spec()]);
        }
        p.egress_rules.append(&mut cnp_eg);
    }
    assert(p@ =~= merged(np, rules));
    if text::same(mode, "never") {
        p.enforce = false;
        p.enforce_egress = false;
        p.rules = Vec::new();
        p.egress_rules = Vec::new();
    } else if text::same(mode, "always") {
        if !p.enforce {
            p.enforce = true;
            p.rules = host_alone();
        }
        if !p.enforce_egress {
            p.enforce_egress = true;
            p.egress_rules = host_alone();
        }
    }
    assert(p@ =~= under_mode(merged(np, rules), mode@));
    p
}

/// The range bindings of a round: the current ones are set, then those of the
/// last round whose range has vanished are taken back.
pub open spec fn set_ranges(cidrs: Seq<(Seq<char>, u32)>) -> Seq<CidrIdentityView> {
    Seq::new(
        cidrs.len(),
        |i: int|
            CidrIdentityView { cidr: cidrs[i].0, identity: cidrs[i].1, del: false, vrf_id: 0 },
    )
}

/// Whether the range has a binding.
pub open spec fn has_range(cidrs: Seq<(Seq<char>, u32)>, cidr: Seq<char>) -> bool {
    exists|i: int| 0 <= i < cidrs.len() && (#[trigger] cidrs[i]).0 == cidr
}

/// The bindings of the last round whose range has vanished.
pub open spec fn vanished(
    last: Seq<(Seq<char>, u32)>,
    cidrs: Seq<(Seq<char>, u32)>,
) -> Seq<CidrIdentityView>
    decreases last.len(),
{
    if last.len() == 0 {
        Seq::empty()
    } else {
        let head = vanished(last.drop_last(), cidrs);
        let e = last.last();
        if has_range(cidrs, e.0) {
            head
        } else {
            head.push(CidrIdentityView { cidr: e.0, identity: e.1, del: true, vrf_id: 0 })
        }
    }
}

fn range_bound(cidrs: &[(String, u32)], cidr: &str) -> (r: bool)
    ensures
        r == has_range(text::views(cidrs@), cidr@),
{
    let ghost all = text::views(cidrs@);
    let mut i: usize = 0;
    while i < cidrs.len()
        invariant
            i <= cidrs@.len(),
            all == text::views(cidrs@),
            forall|j: int| 0 <= j < i ==> (#[trigger] all[j]).0 != cidr@,
        decreases cidrs@.len() - i,
    {
        assert(all[i as int].0 == cidrs@[i as int].0@);
        if text::same(cidrs[i].0.as_str(), cidr) {
            return true;
        }
        i += 1;
    }
    false
}

/// The range bindings to push: set the current ones, delete the vanished ones.
pub fn cidr_calls(cidrs: &[(String, u32)], last: &[(String, u32)]) -> (r: Vec<CidrIdentity>)
    ensures
        text::views(r@) == set_ranges(text::views(cidrs@)) + vanished(
            text::views(last@),
            text::views(cidrs@),
        ),
{
    let ghost cur = text::views(cidrs@);
    let ghost old_ones = text::views(last@);
    let ghost sets = set_ranges(cur);
    let mut out: Vec<CidrIdentity> = Vec::new();
    let mut i: usize = 0;
    assert(text::views(out@) =~= sets.take(0));
    while i < cidrs.len()
        invariant
            i <= cidrs@.len(),
            cur == text::views(cidrs@),
            sets == set_ranges(cur),
            text::views(out@) == sets.take(i as int),
        decreases cidrs@.len() - i,
    {
        let ghost before = text::views(out@);
        let one = CidrIdentity {
            cidr: cidrs[i].0.clone(),
            identity: cidrs[i].1,
            del: false,
            vrf_id: 0,
        };
        assert(one@ =~= sets[i as int]);
        out.push(one);
        assert(text::views(out@) =~= before.push(sets[i as int]));
        assert(sets.take(i + 1) =~= sets.take(i as int).push(sets[i as int]));
        i += 1;
    }
    assert(sets.take(i as int) =~= sets);
    let mut j: usize = 0;
    assert(sets + vanished(old_ones.take(0), cur) =~= sets);
    while j < last.len()
        invariant
            j <= last@.len(),
            cur == text::views(cidrs@),
            old_ones == text::views(last@),
            text::views(out@) == sets + vanished(old_ones.take(j as int), cur),
        decreases last@.len() - j,
    {
        proof {
            assert(old_ones.take(j + 1).drop_last() =~= old_ones.take(j as int));
            assert(old_ones.take(j + 1).last() == last@[j as int]@);
        }
        if !range_bound(cidrs, last[j].0.as_str()) {
            let ghost before = text::views(out@);
            let one = CidrIdentity {
                cidr: last[j].0.clone(),
                identity: last[j].1,
                del: true,
                vrf_id: 0,
            };
            let ghost v = one@;
            out.push(one);
            assert(text::views(out@) =~= before.push(v));
            assert(text::views(out@) =~= sets + vanished(old_ones.take(j + 1), cur));
        }
        j += 1;
    }
    assert(old_ones.take(j as int) =~= old_ones);
    out
}

/// The address bindings as messages.
pub open spec fn identity_views(b: Seq<(Seq<char>, u32)>) -> Seq<IdentityView> {
    Seq::new(b.len(), |i: int| IdentityView { ip: b[i].0, identity: b[i].1, vrf_id: 0 })
}

/// The policies of the endpoints that belong to a pod, in their order.
pub open spec fn policies_of(
    eps: Seq<CniEndpointView>,
    policies: Seq<NetworkPolicyView>,
    pods: Seq<PodView>,
    namespaces: Seq<NamespaceView>,
    mode: Seq<char>,
    alloc: Map<Seq<char>, u32>,
    cnps: Seq<CnpView>,
) -> Seq<EndpointPolicyView>
    decreases eps.len(),
{
    if eps.len() == 0 {
        Seq::empty()
    } else {
        let head = policies_of(eps.drop_last(), policies, pods, namespaces, mode, alloc, cnps);
        if eps.last().pod_name.len() == 0 {
            head
        } else {
            head.push(policy_of(eps.last(), policies, pods, namespaces, mode, alloc, cnps))
        }
    }
}

/// One round of policy: what is pushed to the daemon, in this order. The range
/// bindings count as pushed once the daemon has taken them all.
pub struct PolicyPush {
    pub identities: Vec<Identity>,
    pub cidrs: Vec<CidrIdentity>,
    pub policies: Vec<EndpointPolicy>,
}

/// Compute one round of policy for this node's endpoints.
pub fn push_policy(
    pods: &[Pod],
    namespaces: &[Namespace],
    policies: &[NetworkPolicy],
    endpoints: &[CniEndpoint],
    cidrs: &[(String, u32)],
    last_cidrs: &[(String, u32)],
    mode: &str,
    alloc: &Alloc,
    cnps: &[Cnp],
) -> (r: PolicyPush)
    ensures
        text::views(r.identities@) == identity_views(
            netpol::bindings(text::views(pods@), alloc@),
        ),
        text::views(r.cidrs@) == set_ranges(text::views(cidrs@)) + vanished(
            text::views(last_cidrs@),
            text::views(cidrs@),
        ),
        text::views(r.policies@) == policies_of(
            text::views(endpoints@),
            text::views(policies@),
            text::views(pods@),
            text::views(namespaces@),
            mode@,
            alloc@,
            text::views(cnps@),
        ),
{
    let bound = netpol::identities(pods, alloc);
    let ghost b = text::views(bound@);
    let ghost ids = identity_views(b);
    let mut identities: Vec<Identity> = Vec::new();
    let mut i: usize = 0;
    assert(text::views(identities@) =~= ids.take(0));
    while i < bound.len()
        invariant
            i <= bound@.len(),
            b == text::views(bound@),
            ids == identity_views(b),
            text::views(identities@) == ids.take(i as int),
        decreases bound@.len() - i,
    {
        let ghost before = text::views(identities@);
        let one = Identity { ip: bound[i].0.clone(), identity: bound[i].1, vrf_id: 0 };
        assert(one@ =~= ids[i as int]);
        identities.push(one);
        assert(text::views(identities@) =~= before.push(ids[i as int]));
        assert(ids.take(i + 1) =~= ids.take(i as int).push(ids[i as int]));
        i += 1;
    }
    assert(ids.take(i as int) =~= ids);
    let ranges = cidr_calls(cidrs, last_cidrs);
    let ghost (all, np, ps, ns, cs) = (
        text::views(endpoints@),
        text::views(policies@),
        text::views(pods@),
        text::views(namespaces@),
        text::views(cnps@),
    );
    let mut out: Vec<EndpointPolicy> = Vec::new();
    let mut j: usize = 0;
    assert(text::views(out@) =~= policies_of(all.take(0), np, ps, ns, mode@, alloc@, cs));
    while j < endpoints.len()
        invariant
            j <= endpoints@.len(),
            all == text::views(endpoints@),
            np == text::views(policies@),
            ps == text::views(pods@),
            ns == text::views(namespaces@),
            cs == text::views(cnps@),
            text::views(out@) == policies_of(
                all.take(j as int),
                np,
                ps,
                ns,
                mode@,
                alloc@,
                cs,
            ),
        decreases endpoints@.len() - j,
    {
        proof {
            assert(all.take(j + 1).drop_last() =~= all.take(j as int));
            assert(all.take(j + 1).last() == endpoints@[j as int]@);
        }
        if !endpoints[j].pod_name.as_str().is_empty() {
            let one = merged_policy(
                &endpoints[j],
                policies,
                pods,
                namespaces,
                mode,
                alloc,
                cnps,
            );
            let ghost before = text::views(out@);
            let ghost v = one@;
            out.push(one);
            assert(text::views(out@) =~= before.push(v));
        }
        j += 1;
    }
    assert(all.take(j as int) =~= all);
    PolicyPush { identities, cidrs: ranges, policies: out }
}

/// A direction that only a Cilium policy closes still lets the node through,
/// and one that no Cilium policy closes keeps what the network policies say.
pub proof fn merged_policy_admits_node(np: EndpointPolicyView, r: cnp::EndpointRules)
    ensures
        r.any_in && !np.enforce ==> merged(np, r).enforce && merged(np, r).rules.contains(
            netpol::host_rule_spec(),
        ),
        r.any_eg && !np.enforce_egress ==> merged(np, r).enforce_egress && merged(
            np,
            r,
        ).egress_rules.contains(netpol::host_rule_spec()),
        !r.any_in ==> merged(np, r).enforce == np.enforce && merged(np, r).rules == np.rules,
        !r.any_eg ==> merged(np, r).enforce_egress == np.enforce_egress && merged(
            np,
            r,
        ).egress_rules == np.egress_rules,
{
    let m = merged(np, r);
    if r.any_in && !np.enforce {
        assert(m.rules[np.rules.len() as int] == netpol::host_rule_spec());
    }
    if r.any_eg && !np.enforce_egress {
        assert(m.egress_rules[np.egress_rules.len() as int] == netpol::host_rule_spec());
    }
}

/// With enforcement off no endpoint is enforced, and none gets a rule.
pub proof fn never_enforces(p: EndpointPolicyView)
    ensures
        !under_mode(p, "never"@).enforce,
        !under_mode(p, "never"@).enforce_egress,
        under_mode(p, "never"@).rules.len() == 0,
        under_mode(p, "never"@).egress_rules.len() == 0,
{
}

/// In the `always` mode every endpoint is enforced in both directions: one
/// that nothing selects lets only the node through, a selected one keeps its
/// rules.
pub proof fn always_enforces(p: EndpointPolicyView)
    ensures
        under_mode(p, "always"@).enforce,
        under_mode(p, "always"@).enforce_egress,
        under_mode(p, "always"@).rules == (if p.enforce {
            p.rules
        } else {
            seq![netpol::host_rule_spec()]
        }),
        under_mode(p, "always"@).egress_rules == (if p.enforce_egress {
            p.egress_rules
        } else {
            seq![netpol::host_rule_spec()]
        }),
{
    reveal_strlit("never");
    reveal_strlit("always");
    assert("never"@.len() != "always"@.len());
}

/// In any other mode the policy is what the policies ask for.
pub proof fn default_mode_changes_nothing(p: EndpointPolicyView, mode: Seq<char>)
    requires
        mode != "never"@,
        mode != "always"@,
    ensures
        under_mode(p, mode) == p,
{
}

/// A range still bound is never taken back.
pub proof fn current_range_is_kept(
    last: Seq<(Seq<char>, u32)>,
    cidrs: Seq<(Seq<char>, u32)>,
    i: int,
)
    requires
        0 <= i < vanished(last, cidrs).len(),
    ensures
        vanished(last, cidrs)[i].del,
        !has_range(cidrs, vanished(last, cidrs)[i].cidr),
    decreases last.len(),
{
    if last.len() > 0 {
        let head = vanished(last.drop_last(), cidrs);
        if i < head.len() {
            current_range_is_kept(last.drop_last(), cidrs, i);
        }
    }
}

} // verus!
