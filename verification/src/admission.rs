//! Whom policies admit: laws that say, in terms of pods, labels, namespaces and
//! ports, which rules a policy becomes.

use vstd::prelude::*;
use crate::cnp;
use crate::cnp::{CnpView, PortRuleView, PortView, RuleView, SelectorView};
use crate::digits;
use crate::identity;
use crate::messages::{CniEndpointView, PolicyRule};
use crate::netpol;
use crate::objects::{
    IngressRuleView, LabelSelectorView, NamespaceView, NetworkPolicyView, PeerView,
    PodView, PolicyPortView,
};

verus! {

/// Whether `labels` has every label that is asked for, with its value.
pub open spec fn carries(
    wanted: Map<Seq<char>, Seq<char>>,
    labels: Map<Seq<char>, Seq<char>>,
) -> bool {
    forall|k: Seq<char>| #[trigger]
        wanted.contains_key(k) ==> labels.contains_key(k) && labels[k] == wanted[k]
}

/// Whether `labels` satisfies a selector: an absent one always; one by labels if
/// it carries them; one by expressions never.
pub open spec fn fits(
    selector: Option<LabelSelectorView>,
    labels: Map<Seq<char>, Seq<char>>,
) -> bool {
    selector matches Some(s) ==> !s.has_expressions && (s.match_labels matches Some(wanted)
        ==> carries(wanted, labels))
}

/// The name of a pod's namespace; empty where it has none.
pub open spec fn home(pod: PodView) -> Seq<char> {
    match pod.namespace {
        Some(ns) => ns,
        None => Seq::empty(),
    }
}

/// Whether the peer of a policy of `policy_ns` stands for a pod: it is no address
/// block, the pod's namespace fits its namespace selector (without one: is the
/// policy's own), and the pod fits its pod selector.
pub open spec fn stands_for(
    peer: PeerView,
    policy_ns: Seq<char>,
    namespaces: Seq<NamespaceView>,
    pod: PodView,
) -> bool {
    &&& !peer.has_ip_block
    &&& fits(peer.pod_selector, pod.labels)
    &&& peer.namespace_selector is None ==> home(pod) == policy_ns
    &&& peer.namespace_selector is Some ==> exists|i: int|
        0 <= i < namespaces.len() && (#[trigger] namespaces[i]).name == home(pod) && fits(
            peer.namespace_selector,
            namespaces[i].labels,
        )
}

proof fn admits_stands_for(
    peer: PeerView,
    policy_ns: Seq<char>,
    namespaces: Seq<NamespaceView>,
    pod: PodView,
)
    ensures
        netpol::admits(peer, policy_ns, namespaces, pod) == stands_for(
            peer,
            policy_ns,
            namespaces,
            pod,
        ),
{
    assert forall|sel: Option<LabelSelectorView>, l: Map<Seq<char>, Seq<char>>|
        netpol::selects(sel, l) == fits(sel, l) by {
        selects_fits(sel, l);
    }
    if peer.namespace_selector is Some {
        if stands_for(peer, policy_ns, namespaces, pod) {
            let i = choose|i: int|
                0 <= i < namespaces.len() && (#[trigger] namespaces[i]).name == home(pod) && fits(
                    peer.namespace_selector,
                    namespaces[i].labels,
                );
            selects_fits(peer.namespace_selector, namespaces[i].labels);
            assert(namespaces[i].name == home(pod));
        }
        if netpol::admits(peer, policy_ns, namespaces, pod) {
            let i = choose|i: int|
                0 <= i < namespaces.len() && (#[trigger] namespaces[i]).name == home(pod)
                    && netpol::selects(peer.namespace_selector, namespaces[i].labels);
            selects_fits(peer.namespace_selector, namespaces[i].labels);
            assert(namespaces[i].name == home(pod));
        }
    }
    selects_fits(peer.pod_selector, pod.labels);
}

proof fn selects_fits(sel: Option<LabelSelectorView>, l: Map<Seq<char>, Seq<char>>)
    ensures
        netpol::selects(sel, l) == fits(sel, l),
{
    if sel is Some && sel->0.match_labels is Some {
        labels_carried(sel->0.match_labels->0, l);
    }
}

proof fn labels_carried(wanted: Map<Seq<char>, Seq<char>>, l: Map<Seq<char>, Seq<char>>)
    ensures
        netpol::has_labels(wanted, l) == carries(wanted, l),
{
    if carries(wanted, l) {
        assert forall|k: Seq<char>| #[trigger] wanted.dom().contains(k) implies l.dom().contains(k)
            && wanted[k] == l[k] by {
            assert(wanted.contains_key(k));
        }
        assert(wanted.submap_of(l));
    }
    if wanted.submap_of(l) {
        assert forall|k: Seq<char>| #[trigger] wanted.contains_key(k) implies l.contains_key(k)
            && l[k] == wanted[k] by {
            assert(wanted.dom().contains(k));
        }
    }
}

/// The identities that a peer admits are those of the pods it stands for: each
/// one, and no other.
pub proof fn peer_admits_its_pods(
    peer: PeerView,
    policy_ns: Seq<char>,
    pods: Seq<PodView>,
    namespaces: Seq<NamespaceView>,
    alloc: Map<Seq<char>, u32>,
    id: u32,
)
    ensures
        netpol::admitted(peer, policy_ns, pods, namespaces, alloc).contains(id) <==> exists|i: int|
            0 <= i < pods.len() && stands_for(peer, policy_ns, namespaces, #[trigger] pods[i])
                && id == identity::resolved(alloc, home(pods[i]), pods[i].labels),
    decreases pods.len(),
{
    let all = netpol::admitted(peer, policy_ns, pods, namespaces, alloc);
    if pods.len() > 0 {
        let rest = pods.drop_last();
        let n = pods.len() - 1;
        peer_admits_its_pods(peer, policy_ns, rest, namespaces, alloc, id);
        admits_stands_for(peer, policy_ns, namespaces, pods.last());
        let head = netpol::admitted(peer, policy_ns, rest, namespaces, alloc);
        let last = identity::resolved(alloc, home(pods.last()), pods.last().labels);
        if head.contains(id) {
            let k = head.index_of(id);
            assert(all[k] == id);
            let i = choose|i: int|
                0 <= i < rest.len() && stands_for(peer, policy_ns, namespaces, #[trigger] rest[i])
                    && id == identity::resolved(alloc, home(rest[i]), rest[i].labels);
            assert(pods[i] == rest[i]);
        }
        if stands_for(peer, policy_ns, namespaces, pods.last()) {
            assert(all == head.push(last));
            assert(all[head.len() as int] == last);
            assert(pods[n] == pods.last());
        }
        if all.contains(id) && !head.contains(id) {
            let k = all.index_of(id);
            assert(k < head.len() ==> head[k] == id);
        }
        assert forall|i: int|
            0 <= i < pods.len() && stands_for(peer, policy_ns, namespaces, #[trigger] pods[i]) && id
                == identity::resolved(alloc, home(pods[i]), pods[i].labels) implies all.contains(
            id,
        ) by {
            if i < n {
                assert(rest[i] == pods[i]);
            }
        }
    }
}

/// A pod that a peer does not stand for changes nothing of what the peer admits,
/// wherever in the list it appears.
pub proof fn other_pods_change_nothing(
    peer: PeerView,
    policy_ns: Seq<char>,
    pods: Seq<PodView>,
    namespaces: Seq<NamespaceView>,
    alloc: Map<Seq<char>, u32>,
    at: int,
    pod: PodView,
)
    requires
        0 <= at <= pods.len(),
        !stands_for(peer, policy_ns, namespaces, pod),
    ensures
        netpol::admitted(peer, policy_ns, pods.insert(at, pod), namespaces, alloc)
            == netpol::admitted(peer, policy_ns, pods, namespaces, alloc),
    decreases pods.len(),
{
    let more = pods.insert(at, pod);
    admits_stands_for(peer, policy_ns, namespaces, pod);
    if at == pods.len() {
        assert(more.drop_last() =~= pods);
        assert(more.last() == pod);
    } else {
        other_pods_change_nothing(
            peer,
            policy_ns,
            pods.drop_last(),
            namespaces,
            alloc,
            at,
            pod,
        );
        assert(more.drop_last() =~= pods.drop_last().insert(at, pod));
        assert(more.last() == pods.last());
    }
}

/// Whether a rule lets in a pod's identity, or, with no peers named, anyone's.
pub open spec fn lets_in(
    rule: IngressRuleView,
    policy_ns: Seq<char>,
    pods: Seq<PodView>,
    namespaces: Seq<NamespaceView>,
    alloc: Map<Seq<char>, u32>,
    id: u32,
) -> bool {
    match rule.from {
        None => id == 0,
        Some(peers) => if peers.len() == 0 {
            id == 0
        } else {
            exists|k: int, i: int|
                0 <= k < peers.len() && 0 <= i < pods.len() && stands_for(
                    #[trigger] peers[k],
                    policy_ns,
                    namespaces,
                    #[trigger] pods[i],
                ) && id == identity::resolved(alloc, home(pods[i]), pods[i].labels)
        },
    }
}

proof fn peers_admit(
    peers: Seq<PeerView>,
    policy_ns: Seq<char>,
    pods: Seq<PodView>,
    namespaces: Seq<NamespaceView>,
    alloc: Map<Seq<char>, u32>,
    id: u32,
)
    ensures
        netpol::admitted_by_all(peers, policy_ns, pods, namespaces, alloc).contains(id)
            <==> exists|k: int, i: int|
            0 <= k < peers.len() && 0 <= i < pods.len() && stands_for(
                #[trigger] peers[k],
                policy_ns,
                namespaces,
                #[trigger] pods[i],
            ) && id == identity::resolved(alloc, home(pods[i]), pods[i].labels),
    decreases peers.len(),
{
    let all = netpol::admitted_by_all(peers, policy_ns, pods, namespaces, alloc);
    if peers.len() > 0 {
        let rest = peers.drop_last();
        let n = peers.len() - 1;
        peers_admit(rest, policy_ns, pods, namespaces, alloc, id);
        peer_admits_its_pods(peers.last(), policy_ns, pods, namespaces, alloc, id);
        let head = netpol::admitted_by_all(rest, policy_ns, pods, namespaces, alloc);
        let tail = netpol::admitted(peers.last(), policy_ns, pods, namespaces, alloc);
        concat_members(head, tail, id);
        assert(all == head + tail);
        if head.contains(id) {
            let (k, i) = choose|k: int, i: int|
                0 <= k < rest.len() && 0 <= i < pods.len() && stands_for(
                    #[trigger] rest[k],
                    policy_ns,
                    namespaces,
                    #[trigger] pods[i],
                ) && id == identity::resolved(alloc, home(pods[i]), pods[i].labels);
            assert(peers[k] == rest[k]);
        }
        if tail.contains(id) {
            assert(peers[n] == peers.last());
        }
        assert forall|k: int, i: int|
            0 <= k < peers.len() && 0 <= i < pods.len() && stands_for(
                #[trigger] peers[k],
                policy_ns,
                namespaces,
                #[trigger] pods[i],
            ) && id == identity::resolved(alloc, home(pods[i]), pods[i].labels) implies all.contains(
            id,
        ) by {
            if k < n {
                assert(rest[k] == peers[k]);
            } else {
                assert(peers[k] == peers.last());
            }
        }
    }
}

proof fn concat_members<T>(a: Seq<T>, b: Seq<T>, x: T)
    ensures
        (a + b).contains(x) <==> a.contains(x) || b.contains(x),
{
    if a.contains(x) {
        assert((a + b)[a.index_of(x)] == x);
    }
    if b.contains(x) {
        assert((a + b)[a.len() + b.index_of(x)] == x);
    }
    if (a + b).contains(x) {
        let k = (a + b).index_of(x);
        if k < a.len() {
            assert(a[k] == x);
        } else {
            assert(b[k - a.len()] == x);
        }
    }
}

/// A rule's sources are the identities it lets in; without peers, anyone.
pub proof fn rule_lets_in_its_peers(
    rule: IngressRuleView,
    policy_ns: Seq<char>,
    pods: Seq<PodView>,
    namespaces: Seq<NamespaceView>,
    alloc: Map<Seq<char>, u32>,
    id: u32,
)
    ensures
        netpol::sources(rule, policy_ns, pods, namespaces, alloc).contains(id) <==> lets_in(
            rule,
            policy_ns,
            pods,
            namespaces,
            alloc,
            id,
        ),
{
    match rule.from {
        Some(peers) if peers.len() > 0 => {
            peers_admit(peers, policy_ns, pods, namespaces, alloc, id);
        },
        _ => {
            assert(seq![0u32][0] == 0u32);
        },
    }
}

/// Whether a rule opens a port of a protocol: one that it lists (any port where
/// the entry gives none or none that fits, TCP where it names no other protocol;
/// SCTP stands for any protocol), or, listing none, everything.
pub open spec fn opens(ports: Option<Seq<PolicyPortView>>, proto: u8, port: u16) -> bool {
    match ports {
        None => proto == 0 && port == 0,
        Some(list) => if list.len() == 0 {
            proto == 0 && port == 0
        } else {
            exists|i: int|
                0 <= i < list.len() && {
                    let p = #[trigger] list[i];
                    &&& p.protocol == Some("UDP"@) ==> proto == 17
                    &&& p.protocol == Some("SCTP"@) ==> proto == 0
                    &&& p.protocol != Some("UDP"@) && p.protocol != Some("SCTP"@) ==> proto == 6
                    &&& match p.number {
                        Some(n) => if 0 <= n < 0x1_0000 {
                            port == n
                        } else {
                            port == 0
                        },
                        None => port == 0,
                    }
                }
        },
    }
}

/// A rule's ports are those it opens.
pub proof fn rule_opens_its_ports(ports: Option<Seq<PolicyPortView>>, proto: u8, port: u16)
    ensures
        netpol::ports_of(ports).contains((proto, port)) <==> opens(ports, proto, port),
{
    reveal_strlit("UDP");
    reveal_strlit("SCTP");
    assert("UDP"@.len() != "SCTP"@.len());
    let s = netpol::ports_of(ports);
    match ports {
        Some(list) if list.len() > 0 => {
            if s.contains((proto, port)) {
                let i = s.index_of((proto, port));
                assert(netpol::port_of(list[i]) == (proto, port));
            }
            if opens(ports, proto, port) {
                let i = choose|i: int|
                    0 <= i < list.len() && {
                        let p = #[trigger] list[i];
                        &&& p.protocol == Some("UDP"@) ==> proto == 17
                        &&& p.protocol == Some("SCTP"@) ==> proto == 0
                        &&& p.protocol != Some("UDP"@) && p.protocol != Some("SCTP"@) ==> proto == 6
                        &&& match p.number {
                            Some(n) => if 0 <= n < 0x1_0000 {
                                port == n
                            } else {
                                port == 0
                            },
                            None => port == 0,
                        }
                    };
                assert(s[i] == (proto, port));
            }
        },
        _ => {
            assert(s[0] == (0u8, 0u16));
        },
    }
}

proof fn crossing_pairs_all(ids: Seq<u32>, ports: Seq<(u8, u16)>, id: u32, proto: u8, port: u16)
    ensures
        netpol::crossed(ids, ports).contains((id, proto, port)) <==> ids.contains(id)
            && ports.contains((proto, port)),
    decreases ids.len(),
{
    if ids.len() > 0 {
        let rest = ids.drop_last();
        crossing_pairs_all(rest, ports, id, proto, port);
        let head = netpol::crossed(rest, ports);
        let tail = netpol::with_ports(ids.last(), ports);
        concat_members(head, tail, (id, proto, port));
        if tail.contains((id, proto, port)) {
            let k = tail.index_of((id, proto, port));
            assert(ports[k] == (proto, port));
            assert(ids[ids.len() - 1] == id);
        }
        if rest.contains(id) {
            assert(ids[rest.index_of(id)] == id);
        }
        if ids.contains(id) && ports.contains((proto, port)) {
            let k = ids.index_of(id);
            if k < rest.len() {
                assert(rest[k] == id);
            } else {
                let j = ports.index_of((proto, port));
                assert(tail[j] == (id, proto, port));
            }
        }
    }
}

/// A rule becomes one entry for each source it lets in and each port it opens.
pub proof fn rule_pairs_sources_with_ports(
    rule: IngressRuleView,
    policy_ns: Seq<char>,
    pods: Seq<PodView>,
    namespaces: Seq<NamespaceView>,
    alloc: Map<Seq<char>, u32>,
    id: u32,
    proto: u8,
    port: u16,
)
    ensures
        netpol::tuples(rule, policy_ns, pods, namespaces, alloc).contains((id, proto, port))
            <==> lets_in(rule, policy_ns, pods, namespaces, alloc, id) && opens(
            rule.ports,
            proto,
            port,
        ),
{
    rule_lets_in_its_peers(rule, policy_ns, pods, namespaces, alloc, id);
    rule_opens_its_ports(rule.ports, proto, port);
    crossing_pairs_all(
        netpol::sources(rule, policy_ns, pods, namespaces, alloc),
        netpol::ports_of(rule.ports),
        id,
        proto,
        port,
    );
}

/// The entry that admits `id` to a port of a protocol.
pub open spec fn entry(id: u32, proto: u8, port: u16, deny: bool) -> PolicyRule {
    PolicyRule { identity: id, proto: proto as u32, port: port as u32, deny }
}

proof fn entries_are_tuples(t: Seq<(u32, u8, u16)>, deny: bool, id: u32, proto: u8, port: u16)
    ensures
        netpol::as_rules(t, deny).contains(entry(id, proto, port, deny)) <==> t.contains(
            (id, proto, port),
        ),
        !netpol::as_rules(t, deny).contains(entry(id, proto, port, !deny)),
{
    let r = netpol::as_rules(t, deny);
    if r.contains(entry(id, proto, port, deny)) {
        let k = r.index_of(entry(id, proto, port, deny));
        assert(t[k] == (id, proto, port));
    }
    if t.contains((id, proto, port)) {
        let k = t.index_of((id, proto, port));
        assert(r[k] == entry(id, proto, port, deny));
    }
}

proof fn rules_become_entries(
    rules: Seq<IngressRuleView>,
    ns: Seq<char>,
    pods: Seq<PodView>,
    namespaces: Seq<NamespaceView>,
    alloc: Map<Seq<char>, u32>,
    id: u32,
    proto: u8,
    port: u16,
)
    ensures
        netpol::ingress_rules(rules, ns, pods, namespaces, alloc).contains(
            entry(id, proto, port, false),
        ) <==> exists|q: int|
            0 <= q < rules.len() && lets_in(
                #[trigger] rules[q],
                ns,
                pods,
                namespaces,
                alloc,
                id,
            ) && opens(rules[q].ports, proto, port),
    decreases rules.len(),
{
    if rules.len() > 0 {
        let rest = rules.drop_last();
        let n = rules.len() - 1;
        rules_become_entries(rest, ns, pods, namespaces, alloc, id, proto, port);
        let t = netpol::tuples(rules.last(), ns, pods, namespaces, alloc);
        let e = entry(id, proto, port, false);
        rule_pairs_sources_with_ports(rules.last(), ns, pods, namespaces, alloc, id, proto, port);
        entries_are_tuples(t, false, id, proto, port);
        concat_members(
            netpol::ingress_rules(rest, ns, pods, namespaces, alloc),
            netpol::as_rules(t, false),
            e,
        );
        assert(rules[n] == rules.last());
        if netpol::ingress_rules(rest, ns, pods, namespaces, alloc).contains(e) {
            let q = choose|q: int|
                0 <= q < rest.len() && lets_in(
                    #[trigger] rest[q],
                    ns,
                    pods,
                    namespaces,
                    alloc,
                    id,
                ) && opens(rest[q].ports, proto, port);
            assert(rules[q] == rest[q]);
        }
        assert forall|q: int|
            0 <= q < rules.len() && lets_in(
                #[trigger] rules[q],
                ns,
                pods,
                namespaces,
                alloc,
                id,
            ) && opens(rules[q].ports, proto, port) implies netpol::ingress_rules(
            rules,
            ns,
            pods,
            namespaces,
            alloc,
        ).contains(e) by {
            if q < n {
                assert(rest[q] == rules[q]);
            }
        }
    }
}

/// Whether a policy is in force on a pod: it is of the pod's namespace, is about
/// ingress (every policy is that does not say otherwise) and selects the pod.
pub open spec fn in_force(
    np: NetworkPolicyView,
    ns: Seq<char>,
    labels: Map<Seq<char>, Seq<char>>,
) -> bool {
    &&& np.namespace == Some(ns)
    &&& np.spec matches Some(s) && (s.policy_types matches Some(t) ==> t.contains("Ingress"@))
        && fits(s.pod_selector, labels)
}

/// Whether a policy's own rules admit `id` to a port.
pub open spec fn policy_admits(
    np: NetworkPolicyView,
    ns: Seq<char>,
    pods: Seq<PodView>,
    namespaces: Seq<NamespaceView>,
    alloc: Map<Seq<char>, u32>,
    id: u32,
    proto: u8,
    port: u16,
) -> bool {
    np.spec matches Some(s) && s.ingress matches Some(rules) && exists|q: int|
        0 <= q < rules.len() && lets_in(#[trigger] rules[q], ns, pods, namespaces, alloc, id)
            && opens(rules[q].ports, proto, port)
}

proof fn enforces_in_force(
    np: NetworkPolicyView,
    ns: Seq<char>,
    labels: Map<Seq<char>, Seq<char>>,
)
    ensures
        netpol::enforces(np, ns, labels) == in_force(np, ns, labels),
{
    if np.spec is Some {
        selects_fits(np.spec->0.pod_selector, labels);
    }
}

proof fn policies_become_entries(
    policies: Seq<NetworkPolicyView>,
    ns: Seq<char>,
    labels: Map<Seq<char>, Seq<char>>,
    pods: Seq<PodView>,
    namespaces: Seq<NamespaceView>,
    alloc: Map<Seq<char>, u32>,
    id: u32,
    proto: u8,
    port: u16,
)
    ensures
        netpol::selected_rules(policies, ns, labels, pods, namespaces, alloc).contains(
            entry(id, proto, port, false),
        ) <==> exists|p: int|
            0 <= p < policies.len() && in_force(#[trigger] policies[p], ns, labels)
                && policy_admits(policies[p], ns, pods, namespaces, alloc, id, proto, port),
    decreases policies.len(),
{
    if policies.len() > 0 {
        let rest = policies.drop_last();
        let np = policies.last();
        let n = policies.len() - 1;
        let e = entry(id, proto, port, false);
        policies_become_entries(rest, ns, labels, pods, namespaces, alloc, id, proto, port);
        enforces_in_force(np, ns, labels);
        let head = netpol::selected_rules(rest, ns, labels, pods, namespaces, alloc);
        let all = netpol::selected_rules(policies, ns, labels, pods, namespaces, alloc);
        assert(policies[n] == np);
        if in_force(np, ns, labels) && np.spec->0.ingress is Some {
            let rules = np.spec->0.ingress->0;
            rules_become_entries(rules, ns, pods, namespaces, alloc, id, proto, port);
            concat_members(
                head,
                netpol::ingress_rules(rules, ns, pods, namespaces, alloc),
                e,
            );
        }
        if head.contains(e) {
            let p = choose|p: int|
                0 <= p < rest.len() && in_force(#[trigger] rest[p], ns, labels) && policy_admits(
                    rest[p],
                    ns,
                    pods,
                    namespaces,
                    alloc,
                    id,
                    proto,
                    port,
                );
            assert(policies[p] == rest[p]);
        }
        assert forall|p: int|
            0 <= p < policies.len() && in_force(#[trigger] policies[p], ns, labels)
                && policy_admits(
                policies[p],
                ns,
                pods,
                namespaces,
                alloc,
                id,
                proto,
                port,
            ) implies all.contains(e) by {
            if p < n {
                assert(rest[p] == policies[p]);
            }
        }
    }
}

/// A pod's policy is enforced if some policy is in force on it. Then it admits the
/// node to everything, and whom the policies in force admit, to what they open;
/// nobody else.
pub proof fn endpoint_admits_by_its_policies(
    ep: CniEndpointView,
    policies: Seq<NetworkPolicyView>,
    pods: Seq<PodView>,
    namespaces: Seq<NamespaceView>,
    alloc: Map<Seq<char>, u32>,
    id: u32,
    proto: u8,
    port: u16,
)
    ensures
        ({
            let labels = netpol::pod_labels(pods, ep.pod_namespace, ep.pod_name);
            let r = netpol::endpoint_policy_spec(ep, policies, pods, namespaces, alloc);
            &&& r.pod_namespace == ep.pod_namespace && r.pod_name == ep.pod_name
            &&& r.enforce <==> exists|p: int|
                0 <= p < policies.len() && in_force(
                    #[trigger] policies[p],
                    ep.pod_namespace,
                    labels,
                )
            &&& r.rules.contains(entry(id, proto, port, false)) <==> r.enforce && ((id == 1 && proto
                == 0 && port == 0) || exists|p: int|
                0 <= p < policies.len() && in_force(
                    #[trigger] policies[p],
                    ep.pod_namespace,
                    labels,
                ) && policy_admits(
                    policies[p],
                    ep.pod_namespace,
                    pods,
                    namespaces,
                    alloc,
                    id,
                    proto,
                    port,
                ))
        }),
{
    let ns = ep.pod_namespace;
    let labels = netpol::pod_labels(pods, ns, ep.pod_name);
    let r = netpol::endpoint_policy_spec(ep, policies, pods, namespaces, alloc);
    assert forall|p: int| 0 <= p < policies.len() implies netpol::enforces(
        #[trigger] policies[p],
        ns,
        labels,
    ) == in_force(policies[p], ns, labels) by {
        enforces_in_force(policies[p], ns, labels);
    }
    policies_become_entries(policies, ns, labels, pods, namespaces, alloc, id, proto, port);
    let e = entry(id, proto, port, false);
    if r.enforce {
        let host = seq![netpol::host_rule_spec()];
        concat_members(
            host,
            netpol::selected_rules(policies, ns, labels, pods, namespaces, alloc),
            e,
        );
        assert(host[0] == netpol::host_rule_spec());
        assert(host.contains(e) <==> e == host[0]);
    }
}

/// The labels of a pod are those of the first listed pod of its namespace and
/// name; a pod that is not listed has none.
pub proof fn labels_are_the_pods(pods: Seq<PodView>, ns: Seq<char>, name: Seq<char>, at: int)
    requires
        0 <= at <= pods.len(),
        forall|i: int|
            0 <= i < at ==> (#[trigger] pods[i]).namespace != Some(ns) || pods[i].name != name,
        at < pods.len() ==> pods[at].namespace == Some(ns) && pods[at].name == name,
    ensures
        at < pods.len() ==> netpol::pod_labels(pods, ns, name) == pods[at].labels,
        at == pods.len() ==> netpol::pod_labels(pods, ns, name) == Map::<
            Seq<char>,
            Seq<char>,
        >::empty(),
    decreases at,
{
    if at > 0 {
        let rest = pods.skip(1);
        assert(pods[0].namespace != Some(ns) || pods[0].name != name);
        assert forall|i: int| 0 <= i < at - 1 implies (#[trigger] rest[i]).namespace != Some(ns)
            || rest[i].name != name by {
            assert(rest[i] == pods[i + 1]);
        }
        labels_are_the_pods(rest, ns, name, at - 1);
    }
}

/// Each pod with an address binds it to the identity of its labels, and nothing
/// else is bound.
pub proof fn pods_bind_their_addresses(
    pods: Seq<PodView>,
    alloc: Map<Seq<char>, u32>,
    ip: Seq<char>,
    id: u32,
)
    ensures
        netpol::bindings(pods, alloc).contains((ip, id)) <==> exists|i: int|
            0 <= i < pods.len() && (#[trigger] pods[i]).ip == Some(ip) && id == identity::resolved(
                alloc,
                home(pods[i]),
                pods[i].labels,
            ),
    decreases pods.len(),
{
    let all = netpol::bindings(pods, alloc);
    if pods.len() > 0 {
        let rest = pods.drop_last();
        let n = pods.len() - 1;
        pods_bind_their_addresses(rest, alloc, ip, id);
        let head = netpol::bindings(rest, alloc);
        let p = pods.last();
        assert(pods[n] == p);
        let last = (p.ip->0, identity::resolved(alloc, home(p), p.labels));
        if p.ip is Some {
            concat_members(head, seq![last], (ip, id));
            assert(head.push(last) =~= head + seq![last]);
            assert(seq![last][0] == last);
        }
        if head.contains((ip, id)) {
            let i = choose|i: int|
                0 <= i < rest.len() && (#[trigger] rest[i]).ip == Some(ip) && id
                    == identity::resolved(alloc, home(rest[i]), rest[i].labels);
            assert(pods[i] == rest[i]);
        }
        assert forall|i: int|
            0 <= i < pods.len() && (#[trigger] pods[i]).ip == Some(ip) && id == identity::resolved(
                alloc,
                home(pods[i]),
                pods[i].labels,
            ) implies all.contains((ip, id)) by {
            if i < n {
                assert(rest[i] == pods[i]);
            }
        }
    }
}

// ------------------------------ Cilium policies -----------------------------

/// Whether the peers of a rule include an identity: one of a pod of the policy's
/// namespace with the labels of some selector; or one that some entity stands
/// for; or, with neither, the wildcard.
pub open spec fn includes(
    selectors: Seq<SelectorView>,
    entities: Seq<Seq<char>>,
    ns: Seq<char>,
    pods: Seq<PodView>,
    alloc: Map<Seq<char>, u32>,
    id: u32,
) -> bool {
    ||| selectors.len() == 0 && entities.len() == 0 && id == 0
    ||| exists|i: int, j: int|
        0 <= i < selectors.len() && 0 <= j < pods.len() && carries(
            (#[trigger] selectors[i]).match_labels,
            (#[trigger] pods[j]).labels,
        ) && home(pods[j]) == ns && id == identity::resolved(alloc, ns, pods[j].labels)
    ||| entities.contains("all"@) && id == 0
    ||| entities.contains("host"@) && id == 1
    ||| entities.contains("world"@) && id == 2
    ||| entities.contains("cluster"@) && (id == 1 || exists|k: Seq<char>| #[trigger]
        alloc.contains_key(k) && alloc[k] == id)
}

/// A rule's peers are exactly those that its selectors and entities include.
pub proof fn peers_are_selected_or_named(
    selectors: Seq<SelectorView>,
    entities: Seq<Seq<char>>,
    ns: Seq<char>,
    pods: Seq<PodView>,
    alloc: Map<Seq<char>, u32>,
    id: u32,
)
    ensures
        cnp::peer_set(selectors, entities, ns, pods, alloc).contains(id) <==> includes(
            selectors,
            entities,
            ns,
            pods,
            alloc,
            id,
        ),
{
    assert forall|i: int, j: int|
        0 <= i < selectors.len() && 0 <= j < pods.len() implies netpol::has_labels(
        (#[trigger] selectors[i]).match_labels,
        (#[trigger] pods[j]).labels,
    ) == carries(selectors[i].match_labels, pods[j].labels) by {
        labels_carried(selectors[i].match_labels, pods[j].labels);
    }
    assert(alloc.values().contains(id) <==> exists|k: Seq<char>| #[trigger]
        alloc.contains_key(k) && alloc[k] == id) by {
        if exists|k: Seq<char>| #[trigger] alloc.contains_key(k) && alloc[k] == id {
            let k = choose|k: Seq<char>| #[trigger] alloc.contains_key(k) && alloc[k] == id;
            assert(alloc.dom().contains(k) && alloc[k] == id);
        }
    }
    if includes(selectors, entities, ns, pods, alloc, id) {
        if entities.contains("all"@) && id == 0 {
            let i = entities.index_of("all"@);
            assert(cnp::entity_has(entities[i], alloc, id));
        }
        if entities.contains("host"@) && id == 1 {
            let i = entities.index_of("host"@);
            assert(cnp::entity_has(entities[i], alloc, id));
        }
        if entities.contains("world"@) && id == 2 {
            let i = entities.index_of("world"@);
            assert(cnp::entity_has(entities[i], alloc, id));
        }
        if entities.contains("cluster"@) && (id == 1 || alloc.values().contains(id)) {
            let i = entities.index_of("cluster"@);
            assert(cnp::entity_has(entities[i], alloc, id));
        }
        if exists|i: int, j: int|
            0 <= i < selectors.len() && 0 <= j < pods.len() && carries(
                (#[trigger] selectors[i]).match_labels,
                (#[trigger] pods[j]).labels,
            ) && home(pods[j]) == ns && id == identity::resolved(alloc, ns, pods[j].labels) {
            let (i, j) = choose|i: int, j: int|
                0 <= i < selectors.len() && 0 <= j < pods.len() && carries(
                    (#[trigger] selectors[i]).match_labels,
                    (#[trigger] pods[j]).labels,
                ) && home(pods[j]) == ns && id == identity::resolved(alloc, ns, pods[j].labels);
            assert(netpol::has_labels(selectors[i].match_labels, pods[j].labels));
            assert(cnp::selected_id(selectors, ns, pods, alloc, id));
        }
    }
    if cnp::selected_id(selectors, ns, pods, alloc, id) {
        let (i, j) = choose|i: int, j: int|
            {
                &&& 0 <= i < selectors.len()
                &&& 0 <= j < pods.len()
                &&& crate::text::or_empty((#[trigger] pods[j]).namespace) == ns
                &&& netpol::has_labels((#[trigger] selectors[i]).match_labels, pods[j].labels)
                &&& id == identity::resolved(alloc, ns, pods[j].labels)
            };
        assert(carries(selectors[i].match_labels, pods[j].labels));
    }
}

/// A listed port is of UDP, of any protocol, or of TCP where neither is named;
/// and a port that is no number of sixteen bits stands for every port.
pub proof fn listed_port_is_read(p: PortView)
    ensures
        p.protocol == "UDP"@ ==> cnp::port_of(p).0 == 17,
        p.protocol == "ANY"@ ==> cnp::port_of(p).0 == 0,
        p.protocol != "UDP"@ && p.protocol != "ANY"@ ==> cnp::port_of(p).0 == 6,
        match digits::spelled(p.port, 65535) {
            Some(n) => cnp::port_of(p).1 == n as u16,
            None => cnp::port_of(p).1 == 0,
        },
{
    reveal_strlit("UDP");
    reveal_strlit("ANY");
    assert("UDP"@[0] != "ANY"@[0]);
}

/// A rule's ports are those of all its port lists; with none listed, every port of
/// every protocol.
pub proof fn rule_has_all_listed_ports(rule: RuleView, proto: u8, port: u16)
    ensures
        (exists|g: int, i: int|
            0 <= g < rule.to_ports.len() && 0 <= i < rule.to_ports[g].ports.len()
                && #[trigger] cnp::port_of(rule.to_ports[g].ports[i]) == (proto, port))
            ==> cnp::ports_of(rule).contains((proto, port)),
        cnp::ports_of(rule).contains((proto, port)) ==> (exists|g: int, i: int|
            0 <= g < rule.to_ports.len() && 0 <= i < rule.to_ports[g].ports.len()
                && #[trigger] cnp::port_of(rule.to_ports[g].ports[i]) == (proto, port)) || (proto
            == 0 && port == 0 && forall|g: int|
            0 <= g < rule.to_ports.len() ==> (#[trigger] rule.to_ports[g]).ports.len() == 0),
        (forall|g: int|
            0 <= g < rule.to_ports.len() ==> (#[trigger] rule.to_ports[g]).ports.len() == 0)
            ==> cnp::ports_of(rule) == seq![(0u8, 0u16)],
{
    let p = cnp::listed_ports(rule.to_ports);
    listed_ports_members(rule.to_ports, proto, port);
    if p.len() == 0 {
        assert(seq![(0u8, 0u16)][0] == (0u8, 0u16));
        assert forall|g: int| 0 <= g < rule.to_ports.len() implies (
        #[trigger] rule.to_ports[g]).ports.len() == 0 by {
            no_listed_ports(rule.to_ports, g);
        }
    } else {
        some_listed_ports(rule.to_ports);
    }
}

proof fn listed_ports_members(groups: Seq<PortRuleView>, proto: u8, port: u16)
    ensures
        cnp::listed_ports(groups).contains((proto, port)) <==> exists|g: int, i: int|
            0 <= g < groups.len() && 0 <= i < groups[g].ports.len() && #[trigger] cnp::port_of(
                groups[g].ports[i],
            ) == (proto, port),
    decreases groups.len(),
{
    if groups.len() > 0 {
        let rest = groups.drop_last();
        let n = groups.len() - 1;
        listed_ports_members(rest, proto, port);
        let last = groups.last().ports;
        let tail = Seq::new(last.len(), |i: int| cnp::port_of(last[i]));
        concat_members(cnp::listed_ports(rest), tail, (proto, port));
        assert(groups[n] == groups.last());
        if tail.contains((proto, port)) {
            let i = tail.index_of((proto, port));
            assert(cnp::port_of(groups[n].ports[i]) == (proto, port));
        }
        if cnp::listed_ports(rest).contains((proto, port)) {
            let (g, i) = choose|g: int, i: int|
                0 <= g < rest.len() && 0 <= i < rest[g].ports.len() && #[trigger] cnp::port_of(
                    rest[g].ports[i],
                ) == (proto, port);
            assert(cnp::port_of(groups[g].ports[i]) == (proto, port));
        }
        assert forall|g: int, i: int|
            0 <= g < groups.len() && 0 <= i < groups[g].ports.len() && #[trigger] cnp::port_of(
                groups[g].ports[i],
            ) == (proto, port) implies cnp::listed_ports(groups).contains((proto, port)) by {
            if g < n {
                assert(rest[g] == groups[g]);
                assert(cnp::port_of(rest[g].ports[i]) == (proto, port));
            } else {
                assert(tail[i] == (proto, port));
            }
        }
    }
}

proof fn no_listed_ports(groups: Seq<PortRuleView>, g: int)
    requires
        cnp::listed_ports(groups).len() == 0,
        0 <= g < groups.len(),
    ensures
        groups[g].ports.len() == 0,
    decreases groups.len(),
{
    if g < groups.len() - 1 {
        no_listed_ports(groups.drop_last(), g);
    }
}

proof fn some_listed_ports(groups: Seq<PortRuleView>)
    requires
        cnp::listed_ports(groups).len() > 0,
    ensures
        exists|g: int| 0 <= g < groups.len() && (#[trigger] groups[g]).ports.len() > 0,
    decreases groups.len(),
{
    let rest = groups.drop_last();
    if groups.last().ports.len() > 0 {
        assert(groups[groups.len() - 1].ports.len() > 0);
    } else {
        some_listed_ports(rest);
        let g = choose|g: int| 0 <= g < rest.len() && (#[trigger] rest[g]).ports.len() > 0;
        assert(groups[g].ports.len() > 0);
    }
}

/// Whether a list of rules names an identity with a port: one of them includes it
/// among its peers, from the side that the direction asks about, and has the port.
pub open spec fn names(
    rules: Seq<RuleView>,
    inbound: bool,
    ns: Seq<char>,
    pods: Seq<PodView>,
    alloc: Map<Seq<char>, u32>,
    id: u32,
    proto: u8,
    port: u16,
) -> bool {
    exists|q: int|
        0 <= q < rules.len() && cnp::ports_of(#[trigger] rules[q]).contains((proto, port)) && if inbound {
            includes(rules[q].from_endpoints, rules[q].from_entities, ns, pods, alloc, id)
        } else {
            includes(rules[q].to_endpoints, rules[q].to_entities, ns, pods, alloc, id)
        }
}

/// A list of rules becomes one entry for each peer and port of each of its rules,
/// allowing or denying as the list does.
pub proof fn rules_pair_peers_with_ports(
    rules: Seq<RuleView>,
    inbound: bool,
    deny: bool,
    ns: Seq<char>,
    pods: Seq<PodView>,
    alloc: Map<Seq<char>, u32>,
    id: u32,
    proto: u8,
    port: u16,
)
    ensures
        cnp::expanded(rules, inbound, deny, ns, pods, alloc).contains(entry(id, proto, port, deny))
            <==> names(rules, inbound, ns, pods, alloc, id, proto, port),
        !cnp::expanded(rules, inbound, deny, ns, pods, alloc).contains(
            entry(id, proto, port, !deny),
        ),
    decreases rules.len(),
{
    if rules.len() > 0 {
        let rest = rules.drop_last();
        let n = rules.len() - 1;
        let r = rules.last();
        rules_pair_peers_with_ports(rest, inbound, deny, ns, pods, alloc, id, proto, port);
        let ids = cnp::rule_ids(r, inbound, ns, pods, alloc);
        let set = if inbound {
            cnp::peer_set(r.from_endpoints, r.from_entities, ns, pods, alloc)
        } else {
            cnp::peer_set(r.to_endpoints, r.to_entities, ns, pods, alloc)
        };
        identity::sorted_ids_members(set);
        if inbound {
            peers_are_selected_or_named(r.from_endpoints, r.from_entities, ns, pods, alloc, id);
        } else {
            peers_are_selected_or_named(r.to_endpoints, r.to_entities, ns, pods, alloc, id);
        }
        let t = netpol::crossed(ids, cnp::ports_of(r));
        crossing_pairs_all(ids, cnp::ports_of(r), id, proto, port);
        entries_are_tuples(t, deny, id, proto, port);
        let head = cnp::expanded(rest, inbound, deny, ns, pods, alloc);
        concat_members(head, netpol::as_rules(t, deny), entry(id, proto, port, deny));
        concat_members(head, netpol::as_rules(t, deny), entry(id, proto, port, !deny));
        assert(rules[n] == r);
        if names(rest, inbound, ns, pods, alloc, id, proto, port) {
            let q = choose|q: int|
                0 <= q < rest.len() && cnp::ports_of(#[trigger] rest[q]).contains((proto, port))
                    && if inbound {
                    includes(rest[q].from_endpoints, rest[q].from_entities, ns, pods, alloc, id)
                } else {
                    includes(rest[q].to_endpoints, rest[q].to_entities, ns, pods, alloc, id)
                };
            assert(rules[q] == rest[q]);
        }
        if names(rules, inbound, ns, pods, alloc, id, proto, port) {
            let q = choose|q: int|
                0 <= q < rules.len() && cnp::ports_of(#[trigger] rules[q]).contains((proto, port))
                    && if inbound {
                    includes(rules[q].from_endpoints, rules[q].from_entities, ns, pods, alloc, id)
                } else {
                    includes(rules[q].to_endpoints, rules[q].to_entities, ns, pods, alloc, id)
                };
            if q < n {
                assert(rest[q] == rules[q]);
            }
        }
    }
}

/// Whether a policy is about a pod: it is of the pod's namespace and the pod has
/// the labels that it selects.
pub open spec fn is_about(c: CnpView, ns: Seq<char>, labels: Map<Seq<char>, Seq<char>>) -> bool {
    c.namespace == ns && carries(c.spec.endpoint_selector.match_labels, labels)
}

/// A pod's entries are those of the policies about it, inbound ones from their
/// ingress lists, outbound ones from their egress lists, allowing ones from the
/// plain lists and denying ones from the deny lists. A direction is enforced if
/// some policy about the pod has a rule for it.
pub proof fn policies_about_a_pod_decide(
    cnps: Seq<CnpView>,
    ns: Seq<char>,
    labels: Map<Seq<char>, Seq<char>>,
    pods: Seq<PodView>,
    alloc: Map<Seq<char>, u32>,
    id: u32,
    proto: u8,
    port: u16,
)
    ensures
        ({
            let r = cnp::endpoint_rules_spec(cnps, ns, labels, pods, alloc);
            &&& r.ingress.contains(entry(id, proto, port, false)) <==> exists|k: int|
                0 <= k < cnps.len() && is_about(#[trigger] cnps[k], ns, labels) && names(
                    cnps[k].spec.ingress,
                    true,
                    ns,
                    pods,
                    alloc,
                    id,
                    proto,
                    port,
                )
            &&& r.ingress.contains(entry(id, proto, port, true)) <==> exists|k: int|
                0 <= k < cnps.len() && is_about(#[trigger] cnps[k], ns, labels) && names(
                    cnps[k].spec.ingress_deny,
                    true,
                    ns,
                    pods,
                    alloc,
                    id,
                    proto,
                    port,
                )
            &&& r.egress.contains(entry(id, proto, port, false)) <==> exists|k: int|
                0 <= k < cnps.len() && is_about(#[trigger] cnps[k], ns, labels) && names(
                    cnps[k].spec.egress,
                    false,
                    ns,
                    pods,
                    alloc,
                    id,
                    proto,
                    port,
                )
            &&& r.egress.contains(entry(id, proto, port, true)) <==> exists|k: int|
                0 <= k < cnps.len() && is_about(#[trigger] cnps[k], ns, labels) && names(
                    cnps[k].spec.egress_deny,
                    false,
                    ns,
                    pods,
                    alloc,
                    id,
                    proto,
                    port,
                )
            &&& r.any_in <==> exists|k: int|
                0 <= k < cnps.len() && is_about(#[trigger] cnps[k], ns, labels)
                    && cnps[k].spec.ingress.len() + cnps[k].spec.ingress_deny.len() > 0
            &&& r.any_eg <==> exists|k: int|
                0 <= k < cnps.len() && is_about(#[trigger] cnps[k], ns, labels)
                    && cnps[k].spec.egress.len() + cnps[k].spec.egress_deny.len() > 0
        }),
    decreases cnps.len(),
{
    if cnps.len() > 0 {
        let rest = cnps.drop_last();
        let n = cnps.len() - 1;
        let s = cnps.last().spec;
        let allow = entry(id, proto, port, false);
        let deny = entry(id, proto, port, true);
        policies_about_a_pod_decide(rest, ns, labels, pods, alloc, id, proto, port);
        labels_carried(s.endpoint_selector.match_labels, labels);
        rules_pair_peers_with_ports(s.ingress, true, false, ns, pods, alloc, id, proto, port);
        rules_pair_peers_with_ports(s.ingress_deny, true, true, ns, pods, alloc, id, proto, port);
        rules_pair_peers_with_ports(s.egress, false, false, ns, pods, alloc, id, proto, port);
        rules_pair_peers_with_ports(s.egress_deny, false, true, ns, pods, alloc, id, proto, port);
        let head = cnp::endpoint_rules_spec(rest, ns, labels, pods, alloc);
        let ia = cnp::expanded(s.ingress, true, false, ns, pods, alloc);
        let id_ = cnp::expanded(s.ingress_deny, true, true, ns, pods, alloc);
        let ea = cnp::expanded(s.egress, false, false, ns, pods, alloc);
        let ed = cnp::expanded(s.egress_deny, false, true, ns, pods, alloc);
        concat_members(head.ingress, ia, allow);
        concat_members(head.ingress, ia, deny);
        concat_members(head.ingress + ia, id_, allow);
        concat_members(head.ingress + ia, id_, deny);
        concat_members(head.egress, ea, allow);
        concat_members(head.egress, ea, deny);
        concat_members(head.egress + ea, ed, allow);
        concat_members(head.egress + ea, ed, deny);
        assert(cnps[n] == cnps.last());
        assert forall|k: int| 0 <= k < n implies #[trigger] cnps[k] == rest[k] by {}
        assert forall|k: int| 0 <= k < n implies #[trigger] rest[k] == cnps[k] by {}
    }
}

} // verus!
