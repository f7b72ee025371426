//! Network policies as identity rules.
//!
//! Every pod address is bound to the identity of its namespace and labels.
//! For each local endpoint the policies whose pod selector matches are united
//! into allow rules on the source identity, protocol and port; a pod that no
//! policy selects is not enforced. The node itself is always allowed.

use vstd::prelude::*;
use crate::hash;
use crate::identity;
use crate::identity::Alloc;
use crate::messages::{CniEndpoint, CniEndpointView, EndpointPolicy, EndpointPolicyView, PolicyRule};
use crate::objects::{
    IngressRule, IngressRuleView, LabelSelector, LabelSelectorView, Labels, Namespace,
    NamespaceView, NetworkPolicy, NetworkPolicyView, Peer, PeerView, Pod, PodView, PolicyPort,
    PolicyPortView,
};
use crate::ordmap;
use crate::text;

verus! {

/// The node itself (kubelet health probes).
pub const IDENTITY_HOST: u32 = 1;
/// Everything outside the cluster.
pub const IDENTITY_WORLD: u32 = 2;

/// The bytes one label adds to the hashed text.
pub open spec fn label_bytes(e: (Seq<char>, Seq<char>)) -> Seq<u8> {
    vstd::utf8::encode_utf8(e.0) + seq![0x3du8] + vstd::utf8::encode_utf8(e.1) + seq![0x3bu8]
}

/// The bytes of the labels, by key: `key=value;` for each.
pub open spec fn labels_bytes(l: Seq<(Seq<char>, Seq<char>)>) -> Seq<u8>
    decreases l.len(),
{
    if l.len() == 0 {
        Seq::empty()
    } else {
        labels_bytes(l.drop_last()) + label_bytes(l.last())
    }
}

/// The hash identity: FNV-1a over the namespace, a zero byte and the labels by
/// key, kept clear of the reserved identities.
pub open spec fn hash_identity(ns: Seq<char>, labels: Map<Seq<char>, Seq<char>>) -> u32 {
    let l = ordmap::listing_of::<String, Seq<char>>(labels);
    let h = hash::fnv32(
        hash::FNV32_BASIS,
        vstd::utf8::encode_utf8(ns) + seq![0u8] + labels_bytes(l),
    );
    if h < 3 {
        3
    } else {
        h
    }
}

/// Stable identity for a `(namespace, labels)` pair.
pub fn identity(namespace: &str, labels: &Labels) -> (r: u32)
    ensures
        r == hash_identity(namespace@, labels@),
{
    let n: usize = labels.len();
    let ghost l = labels.listing();
    let ghost head = vstd::utf8::encode_utf8(namespace@) + seq![0u8];
    let zero: [u8; 1] = [0u8];
    let eq: [u8; 1] = [0x3du8];
    let end: [u8; 1] = [0x3bu8];
    let mut h: u32 = hash::fnv1a32(hash::FNV32_BASIS, namespace.as_bytes());
    h = hash::fnv1a32(h, zero.as_slice());
    proof {
        assert(zero@ =~= seq![0u8]);
        assert(eq@ =~= seq![0x3du8]);
        assert(end@ =~= seq![0x3bu8]);
        hash::fnv32_concat(hash::FNV32_BASIS, vstd::utf8::encode_utf8(namespace@), seq![0u8]);
        assert(head + labels_bytes(l.take(0)) =~= head);
    }
    let mut i: usize = 0;
    while i < n
        invariant
            i <= n,
            n == l.len(),
            l == labels.listing(),
            eq@ == seq![0x3du8],
            end@ == seq![0x3bu8],
            h == hash::fnv32(hash::FNV32_BASIS, head + labels_bytes(l.take(i as int))),
        decreases n - i,
    {
        let ghost done = head + labels_bytes(l.take(i as int));
        let ghost k = vstd::utf8::encode_utf8(l[i as int].0);
        let ghost v = vstd::utf8::encode_utf8(l[i as int].1);
        h = hash::fnv1a32(h, labels.key(i).as_str().as_bytes());
        h = hash::fnv1a32(h, eq.as_slice());
        h = hash::fnv1a32(h, labels.value(i).as_str().as_bytes());
        h = hash::fnv1a32(h, end.as_slice());
        proof {
            hash::fnv32_concat(hash::FNV32_BASIS, done, k);
            hash::fnv32_concat(hash::FNV32_BASIS, done + k, seq![0x3du8]);
            hash::fnv32_concat(hash::FNV32_BASIS, done + k + seq![0x3du8], v);
            hash::fnv32_concat(hash::FNV32_BASIS, done + k + seq![0x3du8] + v, seq![0x3bu8]);
            assert(l.take(i + 1).drop_last() =~= l.take(i as int));
            assert(done + k + seq![0x3du8] + v + seq![0x3bu8] =~= head + labels_bytes(
                l.take(i + 1),
            ));
        }
        i += 1;
    }
    assert(l.take(n as int) =~= l);
    if h < 3 {
        3
    } else {
        h
    }
}

/// A hash identity is never a reserved one.
pub proof fn hash_identity_is_not_reserved(ns: Seq<char>, labels: Map<Seq<char>, Seq<char>>)
    ensures
        hash_identity(ns, labels) >= 3,
        hash_identity(ns, labels) != IDENTITY_HOST,
        hash_identity(ns, labels) != IDENTITY_WORLD,
{
}

// ---------------------------------------------------------------- selectors

/// Whether `labels` has every label of `wanted`.
pub open spec fn has_labels(
    wanted: Map<Seq<char>, Seq<char>>,
    labels: Map<Seq<char>, Seq<char>>,
) -> bool {
    wanted.submap_of(labels)
}

/// Whether `labels` has every label of `wanted`.
pub fn labels_match(wanted: &Labels, labels: &Labels) -> (r: bool)
    ensures
        r == has_labels(wanted@, labels@),
{
    let n: usize = wanted.len();
    let ghost l = wanted.listing();
    let mut i: usize = 0;
    while i < n
        invariant
            i <= n,
            n == l.len(),
            l == wanted.listing(),
            ordmap::ascending::<String, Seq<char>>(l),
            forall|j: int|
                0 <= j < i ==> labels@.contains_key((#[trigger] l[j]).0) && labels@[l[j].0]
                    == l[j].1,
        decreases n - i,
    {
        let k = wanted.key(i);
        let v = wanted.value(i);
        let fits = match labels.get(k) {
            Some(w) => text::same(w.as_str(), v.as_str()),
            None => false,
        };
        if !fits {
            proof {
                ordmap::lookup_entry::<String, Seq<char>>(l, i as int);
                assert(wanted@.dom().contains(l[i as int].0));
                assert(wanted@[l[i as int].0] == l[i as int].1);
            }
            return false;
        }
        i += 1;
    }
    proof {
        assert forall|k: Seq<char>| #[trigger] wanted@.dom().contains(k) implies labels@.dom().contains(
            k,
        ) && wanted@[k] == labels@[k] by {
            let j = ordmap::lookup_found(l, k);
            assert(l[j].0 == k);
        }
    }
    true
}

/// Whether the selector takes `labels`. No selector takes everything; one with
/// match expressions takes nothing, so that they never over-allow.
pub open spec fn selects(
    selector: Option<LabelSelectorView>,
    labels: Map<Seq<char>, Seq<char>>,
) -> bool {
    match selector {
        None => true,
        Some(s) => !s.has_expressions && match s.match_labels {
            None => true,
            Some(wanted) => has_labels(wanted, labels),
        },
    }
}

/// Does `selector` (matchLabels only) match `labels`? An empty selector
/// matches everything.
pub fn selector_matches(selector: &Option<LabelSelector>, labels: &Labels) -> (r: bool)
    ensures
        r == selects(text::opt(*selector), labels@),
{
    match selector {
        None => true,
        Some(s) => {
            if s.has_expressions {
                return false;
            }
            match &s.match_labels {
                None => true,
                Some(wanted) => labels_match(wanted, labels),
            }
        },
    }
}

// -------------------------------------------------------------------- peers

/// Whether the peer draws pods from the namespace `ns`.
pub open spec fn draws_from(
    peer: PeerView,
    policy_ns: Seq<char>,
    namespaces: Seq<NamespaceView>,
    ns: Seq<char>,
) -> bool {
    if peer.namespace_selector is Some {
        exists|i: int|
            0 <= i < namespaces.len() && (#[trigger] namespaces[i]).name == ns && selects(
                peer.namespace_selector,
                namespaces[i].labels,
            )
    } else {
        ns == policy_ns
    }
}

/// Whether the peer draws pods from the namespace `ns`.
fn peer_draws_from(peer: &Peer, policy_ns: &str, namespaces: &[Namespace], ns: &str) -> (r: bool)
    ensures
        r == draws_from(peer@, policy_ns@, text::views(namespaces@), ns@),
{
    let ghost all = text::views(namespaces@);
    if peer.namespace_selector.is_none() {
        return text::same(ns, policy_ns);
    }
    let mut i: usize = 0;
    while i < namespaces.len()
        invariant
            i <= namespaces@.len(),
            all == text::views(namespaces@),
            peer@.namespace_selector is Some,
            forall|j: int|
                0 <= j < i ==> !((#[trigger] all[j]).name == ns@ && selects(
                    peer@.namespace_selector,
                    all[j].labels,
                )),
        decreases namespaces@.len() - i,
    {
        assert(all[i as int] == namespaces@[i as int]@);
        if text::same(namespaces[i].name.as_str(), ns) && selector_matches(
            &peer.namespace_selector,
            &namespaces[i].labels,
        ) {
            return true;
        }
        i += 1;
    }
    false
}

/// Whether the peer admits the pod. Address-block peers admit none.
pub open spec fn admits(
    peer: PeerView,
    policy_ns: Seq<char>,
    namespaces: Seq<NamespaceView>,
    pod: PodView,
) -> bool {
    &&& !peer.has_ip_block
    &&& draws_from(peer, policy_ns, namespaces, text::or_empty(pod.namespace))
    &&& selects(peer.pod_selector, pod.labels)
}

/// The identities of the pods the peer admits, in the order of the pods.
pub open spec fn admitted(
    peer: PeerView,
    policy_ns: Seq<char>,
    pods: Seq<PodView>,
    namespaces: Seq<NamespaceView>,
    alloc: Map<Seq<char>, u32>,
) -> Seq<u32>
    decreases pods.len(),
{
    if pods.len() == 0 {
        Seq::empty()
    } else {
        let ids = admitted(peer, policy_ns, pods.drop_last(), namespaces, alloc);
        let p = pods.last();
        if admits(peer, policy_ns, namespaces, p) {
            ids.push(identity::resolved(alloc, text::or_empty(p.namespace), p.labels))
        } else {
            ids
        }
    }
}

/// Resolve one ingress `from` peer to the source identities it admits.
pub fn peer_identities(
    peer: &Peer,
    policy_ns: &str,
    pods: &[Pod],
    namespaces: &[Namespace],
    alloc: &Alloc,
) -> (r: Vec<u32>)
    ensures
        r@ == admitted(peer@, policy_ns@, text::views(pods@), text::views(namespaces@), alloc@),
{
    let mut ids: Vec<u32> = Vec::new();
    let ghost all = text::views(pods@);
    let mut i: usize = 0;
    assert(all.take(0).len() == 0);
    while i < pods.len()
        invariant
            i <= pods@.len(),
            all == text::views(pods@),
            ids@ == admitted(
                peer@,
                policy_ns@,
                all.take(i as int),
                text::views(namespaces@),
                alloc@,
            ),
        decreases pods@.len() - i,
    {
        proof {
            assert(all.take(i + 1).drop_last() =~= all.take(i as int));
            assert(all.take(i + 1).last() == pods@[i as int]@);
        }
        let ns = text::text_of(&pods[i].namespace);
        if !peer.has_ip_block && peer_draws_from(peer, policy_ns, namespaces, ns.as_str())
            && selector_matches(&peer.pod_selector, &pods[i].labels) {
            ids.push(alloc.resolve(ns.as_str(), &pods[i].labels));
        }
        i += 1;
    }
    assert(all.take(i as int) =~= all);
    ids
}

/// The identities that the peers admit, peer by peer.
pub open spec fn admitted_by_all(
    peers: Seq<PeerView>,
    policy_ns: Seq<char>,
    pods: Seq<PodView>,
    namespaces: Seq<NamespaceView>,
    alloc: Map<Seq<char>, u32>,
) -> Seq<u32>
    decreases peers.len(),
{
    if peers.len() == 0 {
        Seq::empty()
    } else {
        admitted_by_all(peers.drop_last(), policy_ns, pods, namespaces, alloc) + admitted(
            peers.last(),
            policy_ns,
            pods,
            namespaces,
            alloc,
        )
    }
}

/// The sources of a rule: any (identity 0) without peers, else what they admit.
pub open spec fn sources(
    rule: IngressRuleView,
    policy_ns: Seq<char>,
    pods: Seq<PodView>,
    namespaces: Seq<NamespaceView>,
    alloc: Map<Seq<char>, u32>,
) -> Seq<u32> {
    match rule.from {
        Some(peers) if peers.len() > 0 => admitted_by_all(
            peers,
            policy_ns,
            pods,
            namespaces,
            alloc,
        ),
        _ => seq![0u32],
    }
}

fn rule_sources(
    rule: &IngressRule,
    policy_ns: &str,
    pods: &[Pod],
    namespaces: &[Namespace],
    alloc: &Alloc,
) -> (r: Vec<u32>)
    ensures
        r@ == sources(rule@, policy_ns@, text::views(pods@), text::views(namespaces@), alloc@),
{
    let mut ids: Vec<u32> = Vec::new();
    if let Some(peers) = &rule.from {
        if peers.len() > 0 {
            let ghost all = text::views(peers@);
            let mut i: usize = 0;
            assert(all.take(0).len() == 0);
            while i < peers.len()
                invariant
                    i <= peers@.len(),
                    all == text::views(peers@),
                    ids@ == admitted_by_all(
                        all.take(i as int),
                        policy_ns@,
                        text::views(pods@),
                        text::views(namespaces@),
                        alloc@,
                    ),
                decreases peers@.len() - i,
            {
                proof {
                    assert(all.take(i + 1).drop_last() =~= all.take(i as int));
                    assert(all.take(i + 1).last() == peers@[i as int]@);
                }
                let mut more = peer_identities(&peers[i], policy_ns, pods, namespaces, alloc);
                ids.append(&mut more);
                i += 1;
            }
            assert(all.take(i as int) =~= all);
            return ids;
        }
    }
    ids.push(0);
    assert(ids@ =~= seq![0u32]);
    ids
}

// -------------------------------------------------------------------- ports

/// The protocol number of a policy port: TCP unless it names another; SCTP is
/// a wildcard.
pub open spec fn proto_of(p: Option<Seq<char>>) -> u8 {
    if p == Some("UDP"@) {
        17
    } else if p == Some("SCTP"@) {
        0
    } else {
        6
    }
}

/// The protocol number of a policy port.
pub fn proto_num(p: &Option<String>) -> (r: u8)
    ensures
        r == proto_of(text::opt(*p)),
{
    if text::holds(p, "UDP") {
        17
    } else if text::holds(p, "SCTP") {
        0
    } else {
        6
    }
}

/// Protocol and number of a policy port; a named or impossible port is any.
pub open spec fn port_of(p: PolicyPortView) -> (u8, u16) {
    (
        proto_of(p.protocol),
        match p.number {
            Some(n) if 0 <= n <= 65535 => n as u16,
            _ => 0,
        },
    )
}

/// The ports of a rule: any (0, 0) if it names none.
pub open spec fn ports_of(ports: Option<Seq<PolicyPortView>>) -> Seq<(u8, u16)> {
    match ports {
        Some(p) if p.len() > 0 => Seq::new(p.len(), |i: int| port_of(p[i])),
        _ => seq![(0u8, 0u16)],
    }
}

fn port_pairs(ports: &Option<Vec<PolicyPort>>) -> (r: Vec<(u8, u16)>)
    ensures
        r@ == ports_of(text::opt_views(*ports)),
{
    let mut out: Vec<(u8, u16)> = Vec::new();
    if let Some(p) = ports {
        if p.len() > 0 {
            let ghost all = text::views(p@);
            let mut i: usize = 0;
            while i < p.len()
                invariant
                    i <= p@.len(),
                    all == text::views(p@),
                    out@.len() == i,
                    forall|j: int| 0 <= j < i ==> out@[j] == port_of(all[j]),
                decreases p@.len() - i,
            {
                assert(all[i as int] == p@[i as int]@);
                let number: u16 = match p[i].number {
                    Some(n) => if 0 <= n && n <= 65535 {
                        n as u16
                    } else {
                        0
                    },
                    None => 0,
                };
                out.push((proto_num(&p[i].protocol), number));
                i += 1;
            }
            assert(out@ =~= ports_of(text::opt_views(*ports)));
            return out;
        }
    }
    out.push((0, 0));
    assert(out@ =~= seq![(0u8, 0u16)]);
    out
}

// -------------------------------------------------------------------- rules

/// Every port for one identity.
pub open spec fn with_ports(id: u32, ports: Seq<(u8, u16)>) -> Seq<(u32, u8, u16)> {
    Seq::new(ports.len(), |i: int| (id, ports[i].0, ports[i].1))
}

/// Every port for every identity.
pub open spec fn crossed(ids: Seq<u32>, ports: Seq<(u8, u16)>) -> Seq<(u32, u8, u16)>
    decreases ids.len(),
{
    if ids.len() == 0 {
        Seq::empty()
    } else {
        crossed(ids.drop_last(), ports) + with_ports(ids.last(), ports)
    }
}

/// Every port for every identity.
pub fn cross(ids: &Vec<u32>, ports: &Vec<(u8, u16)>) -> (r: Vec<(u32, u8, u16)>)
    ensures
        r@ == crossed(ids@, ports@),
{
    let mut out: Vec<(u32, u8, u16)> = Vec::new();
    let mut i: usize = 0;
    assert(ids@.take(0).len() == 0);
    while i < ids.len()
        invariant
            i <= ids@.len(),
            out@ == crossed(ids@.take(i as int), ports@),
        decreases ids@.len() - i,
    {
        let ghost before = out@;
        let id: u32 = ids[i];
        let mut j: usize = 0;
        assert(with_ports(id, ports@).take(0) =~= Seq::empty());
        while j < ports.len()
            invariant
                j <= ports@.len(),
                out@ == before + with_ports(id, ports@).take(j as int),
            decreases ports@.len() - j,
        {
            let ghost w = with_ports(id, ports@);
            out.push((id, ports[j].0, ports[j].1));
            proof {
                assert(w.take(j + 1) =~= w.take(j as int).push(w[j as int]));
                assert(out@ =~= before + w.take(j + 1));
            }
            j += 1;
        }
        proof {
            assert(with_ports(id, ports@).take(j as int) =~= with_ports(id, ports@));
            assert(ids@.take(i + 1).drop_last() =~= ids@.take(i as int));
        }
        i += 1;
    }
    assert(ids@.take(i as int) =~= ids@);
    out
}

/// The `(identity, proto, port)` allow tuples of one ingress rule.
pub open spec fn tuples(
    rule: IngressRuleView,
    policy_ns: Seq<char>,
    pods: Seq<PodView>,
    namespaces: Seq<NamespaceView>,
    alloc: Map<Seq<char>, u32>,
) -> Seq<(u32, u8, u16)> {
    crossed(sources(rule, policy_ns, pods, namespaces, alloc), ports_of(rule.ports))
}

/// Expand one ingress rule to `(identity, proto, port)` allow tuples.
pub fn rule_tuples(
    rule: &IngressRule,
    policy_ns: &str,
    pods: &[Pod],
    namespaces: &[Namespace],
    alloc: &Alloc,
) -> (r: Vec<(u32, u8, u16)>)
    ensures
        r@ == tuples(rule@, policy_ns@, text::views(pods@), text::views(namespaces@), alloc@),
{
    let ids = rule_sources(rule, policy_ns, pods, namespaces, alloc);
    let ports = port_pairs(&rule.ports);
    cross(&ids, &ports)
}

/// A tuple as a policy rule.
pub open spec fn as_rule(t: (u32, u8, u16), deny: bool) -> PolicyRule {
    PolicyRule { identity: t.0, proto: t.1 as u32, port: t.2 as u32, deny }
}

/// The tuples as policy rules.
pub open spec fn as_rules(t: Seq<(u32, u8, u16)>, deny: bool) -> Seq<PolicyRule> {
    Seq::new(t.len(), |i: int| as_rule(t[i], deny))
}

/// Append the tuples as policy rules.
pub fn push_rules(out: &mut Vec<PolicyRule>, t: &Vec<(u32, u8, u16)>, deny: bool)
    ensures
        final(out)@ == old(out)@ + as_rules(t@, deny),
{
    let ghost before = out@;
    let ghost all = as_rules(t@, deny);
    let mut i: usize = 0;
    assert(before + all.take(0) =~= before);
    while i < t.len()
        invariant
            i <= t@.len(),
            all == as_rules(t@, deny),
            out@ == before + all.take(i as int),
        decreases t@.len() - i,
    {
        out.push(
            PolicyRule {
                identity: t[i].0,
                proto: t[i].1 as u32,
                port: t[i].2 as u32,
                deny,
            },
        );
        assert(all.take(i + 1) =~= all.take(i as int).push(all[i as int]));
        assert(out@ =~= before + all.take(i + 1));
        i += 1;
    }
    assert(all.take(i as int) =~= all);
}

/// The rules of a list of ingress rules.
pub open spec fn ingress_rules(
    rules: Seq<IngressRuleView>,
    policy_ns: Seq<char>,
    pods: Seq<PodView>,
    namespaces: Seq<NamespaceView>,
    alloc: Map<Seq<char>, u32>,
) -> Seq<PolicyRule>
    decreases rules.len(),
{
    if rules.len() == 0 {
        Seq::empty()
    } else {
        ingress_rules(rules.drop_last(), policy_ns, pods, namespaces, alloc) + as_rules(
            tuples(rules.last(), policy_ns, pods, namespaces, alloc),
            false,
        )
    }
}

fn push_ingress(
    out: &mut Vec<PolicyRule>,
    rules: &Vec<IngressRule>,
    policy_ns: &str,
    pods: &[Pod],
    namespaces: &[Namespace],
    alloc: &Alloc,
)
    ensures
        final(out)@ == old(out)@ + ingress_rules(
            text::views(rules@),
            policy_ns@,
            text::views(pods@),
            text::views(namespaces@),
            alloc@,
        ),
{
    let ghost before = out@;
    let ghost all = text::views(rules@);
    let ghost (p, n) = (text::views(pods@), text::views(namespaces@));
    let mut i: usize = 0;
    assert(before + ingress_rules(all.take(0), policy_ns@, p, n, alloc@) =~= before);
    while i < rules.len()
        invariant
            i <= rules@.len(),
            all == text::views(rules@),
            p == text::views(pods@),
            n == text::views(namespaces@),
            out@ == before + ingress_rules(all.take(i as int), policy_ns@, p, n, alloc@),
        decreases rules@.len() - i,
    {
        proof {
            assert(all.take(i + 1).drop_last() =~= all.take(i as int));
            assert(all.take(i + 1).last() == rules@[i as int]@);
        }
        let t = rule_tuples(&rules[i], policy_ns, pods, namespaces, alloc);
        push_rules(out, &t, false);
        assert(out@ =~= before + ingress_rules(all.take(i + 1), policy_ns@, p, n, alloc@));
        i += 1;
    }
    assert(all.take(i as int) =~= all);
}

// ---------------------------------------------------------------- endpoints

/// The labels of the first pod of that namespace and name; none if unseen.
pub open spec fn pod_labels(pods: Seq<PodView>, ns: Seq<char>, name: Seq<char>) -> Map<
    Seq<char>,
    Seq<char>,
>
    decreases pods.len(),
{
    if pods.len() == 0 {
        Map::empty()
    } else if pods[0].namespace == Some(ns) && pods[0].name == name {
        pods[0].labels
    } else {
        pod_labels(pods.skip(1), ns, name)
    }
}

/// Where the pod of that namespace and name first stands.
pub fn find_pod(pods: &[Pod], ns: &str, name: &str) -> (r: Option<usize>)
    ensures
        match r {
            Some(i) => {
                &&& i < pods@.len()
                &&& pods@[i as int]@.namespace == Some(ns@)
                &&& pods@[i as int]@.name == name@
                &&& pod_labels(text::views(pods@), ns@, name@) == pods@[i as int]@.labels
            },
            None => {
                &&& forall|j: int|
                    0 <= j < pods@.len() ==> !((#[trigger] pods@[j])@.namespace == Some(ns@)
                        && pods@[j]@.name == name@)
                &&& pod_labels(text::views(pods@), ns@, name@) == Map::<
                    Seq<char>,
                    Seq<char>,
                >::empty()
            },
        },
{
    let ghost all = text::views(pods@);
    let mut i: usize = 0;
    assert(all.skip(0) =~= all);
    while i < pods.len()
        invariant
            i <= pods@.len(),
            all == text::views(pods@),
            pod_labels(all, ns@, name@) == pod_labels(all.skip(i as int), ns@, name@),
            forall|j: int|
                0 <= j < i ==> !((#[trigger] pods@[j])@.namespace == Some(ns@) && pods@[j]@.name
                    == name@),
        decreases pods@.len() - i,
    {
        proof {
            assert(all.skip(i as int)[0] == pods@[i as int]@);
            assert(all.skip(i as int).skip(1) =~= all.skip(i + 1));
        }
        if text::holds(&pods[i].namespace, ns) && text::same(pods[i].name.as_str(), name) {
            return Some(i);
        }
        i += 1;
    }
    None
}

/// Whether the policy enforces ingress on a pod of namespace `ns` with
/// `labels`. Without policy types a policy enforces ingress.
pub open spec fn enforces(
    np: NetworkPolicyView,
    ns: Seq<char>,
    labels: Map<Seq<char>, Seq<char>>,
) -> bool {
    np.namespace == Some(ns) && match np.spec {
        None => false,
        Some(s) => (match s.policy_types {
            None => true,
            Some(t) => t.contains("Ingress"@),
        }) && selects(s.pod_selector, labels),
    }
}

fn names_ingress(types: &Option<Vec<String>>) -> (r: bool)
    ensures
        r == (match text::opt_views(*types) {
            None => true,
            Some(t) => t.contains("Ingress"@),
        }),
{
    match types {
        None => true,
        Some(t) => {
            let ghost all = text::views(t@);
            let mut i: usize = 0;
            while i < t.len()
                invariant
                    i <= t@.len(),
                    all == text::views(t@),
                    text::opt_views(*types) == Some(all),
                    forall|j: int| 0 <= j < i ==> all[j] != "Ingress"@,
                decreases t@.len() - i,
            {
                assert(all[i as int] == t@[i as int]@);
                if text::same(t[i].as_str(), "Ingress") {
                    return true;
                }
                i += 1;
            }
            false
        },
    }
}

fn policy_enforces(np: &NetworkPolicy, ns: &str, labels: &Labels) -> (r: bool)
    ensures
        r == enforces(np@, ns@, labels@),
{
    if !text::holds(&np.namespace, ns) {
        return false;
    }
    match &np.spec {
        None => false,
        Some(s) => names_ingress(&s.policy_types) && selector_matches(&s.pod_selector, labels),
    }
}

/// The rules of the policies that enforce ingress on the pod, in their order.
pub open spec fn selected_rules(
    policies: Seq<NetworkPolicyView>,
    ns: Seq<char>,
    labels: Map<Seq<char>, Seq<char>>,
    pods: Seq<PodView>,
    namespaces: Seq<NamespaceView>,
    alloc: Map<Seq<char>, u32>,
) -> Seq<PolicyRule>
    decreases policies.len(),
{
    if policies.len() == 0 {
        Seq::empty()
    } else {
        let head = selected_rules(policies.drop_last(), ns, labels, pods, namespaces, alloc);
        let np = policies.last();
        if enforces(np, ns, labels) {
            match np.spec->0.ingress {
                Some(rules) => head + ingress_rules(rules, ns, pods, namespaces, alloc),
                None => head,
            }
        } else {
            head
        }
    }
}

/// The rule that lets the node in.
pub open spec fn host_rule_spec() -> PolicyRule {
    PolicyRule { identity: IDENTITY_HOST, proto: 0, port: 0, deny: false }
}

/// The rule that lets the node in.
pub fn host_rule() -> (r: PolicyRule)
    ensures
        r == host_rule_spec(),
{
    PolicyRule { identity: IDENTITY_HOST, proto: 0, port: 0, deny: false }
}

/// The ingress policy of a local endpoint. No selecting policy: not enforced.
/// Else the node is let in, and what the selecting policies allow.
pub open spec fn endpoint_policy_spec(
    ep: CniEndpointView,
    policies: Seq<NetworkPolicyView>,
    pods: Seq<PodView>,
    namespaces: Seq<NamespaceView>,
    alloc: Map<Seq<char>, u32>,
) -> EndpointPolicyView {
    let ns = ep.pod_namespace;
    let labels = pod_labels(pods, ns, ep.pod_name);
    let enforce = exists|i: int|
        0 <= i < policies.len() && enforces(#[trigger] policies[i], ns, labels);
    EndpointPolicyView {
        host_if: Seq::empty(),
        pod_namespace: ns,
        pod_name: ep.pod_name,
        enforce,
        rules: if enforce {
            seq![host_rule_spec()] + selected_rules(policies, ns, labels, pods, namespaces, alloc)
        } else {
            Seq::empty()
        },
        enforce_egress: false,
        egress_rules: Seq::empty(),
    }
}

/// Compute the policy of one local endpoint.
pub fn endpoint_policy(
    ep: &CniEndpoint,
    policies: &[NetworkPolicy],
    pods: &[Pod],
    namespaces: &[Namespace],
    alloc: &Alloc,
) -> (r: EndpointPolicy)
    ensures
        r@ == endpoint_policy_spec(
            ep@,
            text::views(policies@),
            text::views(pods@),
            text::views(namespaces@),
            alloc@,
        ),
{
    let ghost (all, p, n) = (
        text::views(policies@),
        text::views(pods@),
        text::views(namespaces@),
    );
    let ns = ep.pod_namespace.as_str();
    let none: Labels = ordmap::OrdMap::new();
    let labels = match find_pod(pods, ns, ep.pod_name.as_str()) {
        Some(i) => &pods[i].labels,
        None => &none,
    };
    let mut enforce = false;
    let mut rules: Vec<PolicyRule> = Vec::new();
    rules.push(host_rule());
    let ghost host = seq![host_rule_spec()];
    let mut i: usize = 0;
    assert(rules@ =~= host + selected_rules(all.take(0), ns@, labels@, p, n, alloc@));
    while i < policies.len()
        invariant
            i <= policies@.len(),
            all == text::views(policies@),
            p == text::views(pods@),
            n == text::views(namespaces@),
            ns@ == ep@.pod_namespace,
            labels@ == pod_labels(p, ep@.pod_namespace, ep@.pod_name),
            rules@ == host + selected_rules(all.take(i as int), ns@, labels@, p, n, alloc@),
            enforce == exists|j: int|
                0 <= j < i && enforces(#[trigger] all[j], ns@, labels@),
        decreases policies@.len() - i,
    {
        let ghost before = rules@;
        proof {
            assert(all.take(i + 1).drop_last() =~= all.take(i as int));
            assert(all.take(i + 1).last() == policies@[i as int]@);
            assert(all[i as int] == policies@[i as int]@);
        }
        if policy_enforces(&policies[i], ns, labels) {
            enforce = true;
            if let Some(spec) = &policies[i].spec {
                if let Some(ingress) = &spec.ingress {
                    push_ingress(&mut rules, ingress, ns, pods, namespaces, alloc);
                }
            }
            assert(all[i as int] == policies@[i as int]@);
            assert(rules@ =~= host + selected_rules(all.take(i + 1), ns@, labels@, p, n, alloc@));
        }
        i += 1;
    }
    assert(all.take(i as int) =~= all);
    if !enforce {
        rules = Vec::new();
    }
    let r = EndpointPolicy {
        host_if: String::new(),
        pod_namespace: ep.pod_namespace.clone(),
        pod_name: ep.pod_name.clone(),
        enforce,
        rules,
        enforce_egress: false,
        egress_rules: Vec::new(),
    };
    assert(r@ =~= endpoint_policy_spec(ep@, all, p, n, alloc@));
    r
}

/// The address bindings of the pods that have an address.
pub open spec fn bindings(pods: Seq<PodView>, alloc: Map<Seq<char>, u32>) -> Seq<(Seq<char>, u32)>
    decreases pods.len(),
{
    if pods.len() == 0 {
        Seq::empty()
    } else {
        let head = bindings(pods.drop_last(), alloc);
        let p = pods.last();
        match p.ip {
            Some(ip) => head.push(
                (ip, identity::resolved(alloc, text::or_empty(p.namespace), p.labels)),
            ),
            None => head,
        }
    }
}

/// All pod-IP → identity bindings currently derivable.
pub fn identities(pods: &[Pod], alloc: &Alloc) -> (r: Vec<(String, u32)>)
    ensures
        text::views(r@) == bindings(text::views(pods@), alloc@),
{
    let mut out: Vec<(String, u32)> = Vec::new();
    let ghost all = text::views(pods@);
    let mut i: usize = 0;
    assert(text::views(out@) =~= bindings(all.take(0), alloc@));
    while i < pods.len()
        invariant
            i <= pods@.len(),
            all == text::views(pods@),
            text::views(out@) == bindings(all.take(i as int), alloc@),
        decreases pods@.len() - i,
    {
        proof {
            assert(all.take(i + 1).drop_last() =~= all.take(i as int));
            assert(all.take(i + 1).last() == pods@[i as int]@);
        }
        if let Some(ip) = &pods[i].ip {
            let ns = text::text_of(&pods[i].namespace);
            let id: u32 = alloc.resolve(ns.as_str(), &pods[i].labels);
            let ghost before = text::views(out@);
            out.push((ip.clone(), id));
            assert(text::views(out@) =~= before.push((ip@, id)));
        }
        i += 1;
    }
    assert(all.take(i as int) =~= all);
    out
}

// --------------------------------------------------------------------- laws

/// Network policies close the ingress direction only: whatever they say, egress
/// stays open.
pub proof fn egress_stays_open(
    ep: CniEndpointView,
    policies: Seq<NetworkPolicyView>,
    pods: Seq<PodView>,
    namespaces: Seq<NamespaceView>,
    alloc: Map<Seq<char>, u32>,
)
    ensures
        !endpoint_policy_spec(ep, policies, pods, namespaces, alloc).enforce_egress,
        endpoint_policy_spec(ep, policies, pods, namespaces, alloc).egress_rules.len() == 0,
{
}

/// A pod that no policy selects is not enforced: default allow.
pub proof fn unselected_pod_is_open(
    ep: CniEndpointView,
    policies: Seq<NetworkPolicyView>,
    pods: Seq<PodView>,
    namespaces: Seq<NamespaceView>,
    alloc: Map<Seq<char>, u32>,
)
    requires
        forall|i: int|
            0 <= i < policies.len() ==> !enforces(
                #[trigger] policies[i],
                ep.pod_namespace,
                pod_labels(pods, ep.pod_namespace, ep.pod_name),
            ),
    ensures
        !endpoint_policy_spec(ep, policies, pods, namespaces, alloc).enforce,
        endpoint_policy_spec(ep, policies, pods, namespaces, alloc).rules.len() == 0,
{
}

/// An enforced pod always lets the node in.
pub proof fn enforced_pod_admits_node(
    ep: CniEndpointView,
    policies: Seq<NetworkPolicyView>,
    pods: Seq<PodView>,
    namespaces: Seq<NamespaceView>,
    alloc: Map<Seq<char>, u32>,
)
    requires
        endpoint_policy_spec(ep, policies, pods, namespaces, alloc).enforce,
    ensures
        endpoint_policy_spec(ep, policies, pods, namespaces, alloc).rules[0] == host_rule_spec(),
{
}

/// A policy of another namespace never enforces on the pod.
pub proof fn other_namespace_never_enforces(
    np: NetworkPolicyView,
    ns: Seq<char>,
    labels: Map<Seq<char>, Seq<char>>,
)
    requires
        np.namespace != Some(ns),
    ensures
        !enforces(np, ns, labels),
{
}

/// An address-block peer admits no pod.
pub proof fn address_block_admits_no_pod(
    peer: PeerView,
    policy_ns: Seq<char>,
    pods: Seq<PodView>,
    namespaces: Seq<NamespaceView>,
    alloc: Map<Seq<char>, u32>,
)
    requires
        peer.has_ip_block,
    ensures
        admitted(peer, policy_ns, pods, namespaces, alloc).len() == 0,
    decreases pods.len(),
{
    if pods.len() > 0 {
        address_block_admits_no_pod(peer, policy_ns, pods.drop_last(), namespaces, alloc);
    }
}

/// A peer with match expressions in either selector admits no pod: what is not
/// supported never over-allows.
pub proof fn expressions_admit_no_pod(
    peer: PeerView,
    policy_ns: Seq<char>,
    pods: Seq<PodView>,
    namespaces: Seq<NamespaceView>,
    alloc: Map<Seq<char>, u32>,
)
    requires
        (peer.pod_selector matches Some(s) && s.has_expressions) || (
        peer.namespace_selector matches Some(s) && s.has_expressions),
    ensures
        admitted(peer, policy_ns, pods, namespaces, alloc).len() == 0,
    decreases pods.len(),
{
    if pods.len() > 0 {
        expressions_admit_no_pod(peer, policy_ns, pods.drop_last(), namespaces, alloc);
    }
}

} // verus!
