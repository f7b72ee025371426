//! Cilium network policies as identity rules: the layer-3 and layer-4 subset.
//!
//! Endpoint selectors by labels, ingress and egress rules with peers and
//! ports, and their deny siblings. Entities: `all` is the wildcard peer, `host`
//! and `world` the reserved identities, `cluster` the host and every allocated
//! identity; any other entity is skipped.

use vstd::prelude::*;
use crate::digits;
use crate::identity;
use crate::identity::Alloc;
use crate::messages::PolicyRule;
use crate::netpol;
use crate::netpol::{IDENTITY_HOST, IDENTITY_WORLD};
use crate::objects::{Labels, Pod, PodView};
use crate::text;

verus! {

/// The rule sets of a policy and the pods it selects.
pub struct CnpSpec {
    pub endpoint_selector: Selector,
    pub ingress: Vec<Rule>,
    pub egress: Vec<Rule>,
    pub ingress_deny: Vec<Rule>,
    pub egress_deny: Vec<Rule>,
}

/// What a `CnpSpec` holds.
#[verifier::ext_equal]
pub struct CnpSpecView {
    pub endpoint_selector: SelectorView,
    pub ingress: Seq<RuleView>,
    pub egress: Seq<RuleView>,
    pub ingress_deny: Seq<RuleView>,
    pub egress_deny: Seq<RuleView>,
}

impl View for CnpSpec {
    type V = CnpSpecView;

    open spec fn view(&self) -> CnpSpecView {
        CnpSpecView {
            endpoint_selector: self.endpoint_selector@,
            ingress: text::views(self.ingress@),
            egress: text::views(self.egress@),
            ingress_deny: text::views(self.ingress_deny@),
            egress_deny: text::views(self.egress_deny@),
        }
    }
}

/// Selects by labels; the empty selector takes everything.
pub struct Selector {
    pub match_labels: Labels,
}

/// What a `Selector` holds.
#[verifier::ext_equal]
pub struct SelectorView {
    pub match_labels: Map<Seq<char>, Seq<char>>,
}

impl View for Selector {
    type V = SelectorView;

    open spec fn view(&self) -> SelectorView {
        SelectorView {
            match_labels: self.match_labels@,
        }
    }
}

/// One rule: its peers and its ports.
pub struct Rule {
    pub from_endpoints: Vec<Selector>,
    pub to_endpoints: Vec<Selector>,
    pub from_entities: Vec<String>,
    pub to_entities: Vec<String>,
    pub to_ports: Vec<PortRule>,
}

/// What a `Rule` holds.
#[verifier::ext_equal]
pub struct RuleView {
    pub from_endpoints: Seq<SelectorView>,
    pub to_endpoints: Seq<SelectorView>,
    pub from_entities: Seq<Seq<char>>,
    pub to_entities: Seq<Seq<char>>,
    pub to_ports: Seq<PortRuleView>,
}

impl View for Rule {
    type V = RuleView;

    open spec fn view(&self) -> RuleView {
        RuleView {
            from_endpoints: text::views(self.from_endpoints@),
            to_endpoints: text::views(self.to_endpoints@),
            from_entities: text::views(self.from_entities@),
            to_entities: text::views(self.to_entities@),
            to_ports: text::views(self.to_ports@),
        }
    }
}

/// A group of ports.
pub struct PortRule {
    pub ports: Vec<Port>,
}

/// What a `PortRule` holds.
#[verifier::ext_equal]
pub struct PortRuleView {
    pub ports: Seq<PortView>,
}

impl View for PortRule {
    type V = PortRuleView;

    open spec fn view(&self) -> PortRuleView {
        PortRuleView {
            ports: text::views(self.ports@),
        }
    }
}

/// A port and its protocol, both as text.
pub struct Port {
    pub port: String,
    pub protocol: String,
}

/// What a `Port` holds.
#[verifier::ext_equal]
pub struct PortView {
    pub port: Seq<char>,
    pub protocol: Seq<char>,
}

impl View for Port {
    type V = PortView;

    open spec fn view(&self) -> PortView {
        PortView {
            port: self.port@,
            protocol: self.protocol@,
        }
    }
}

/// A parsed policy: its namespace, endpoint selector and rule sets.
pub struct Cnp {
    pub namespace: String,
    pub spec: CnpSpec,
}

/// What a `Cnp` holds.
#[verifier::ext_equal]
pub struct CnpView {
    pub namespace: Seq<char>,
    pub spec: CnpSpecView,
}

impl View for Cnp {
    type V = CnpView;

    open spec fn view(&self) -> CnpView {
        CnpView {
            namespace: self.namespace@,
            spec: self.spec@,
        }
    }
}

/// Whether the selector takes `labels`.
pub fn selector_matches(sel: &Selector, labels: &Labels) -> (r: bool)
    ensures
        r == netpol::has_labels(sel@.match_labels, labels@),
{
    netpol::labels_match(&sel.match_labels, labels)
}

// -------------------------------------------------------------------- peers

/// Whether one of the selectors takes a pod of the namespace that has `id`.
pub open spec fn selected_id(
    peers: Seq<SelectorView>,
    policy_ns: Seq<char>,
    pods: Seq<PodView>,
    alloc: Map<Seq<char>, u32>,
    id: u32,
) -> bool {
    exists|i: int, j: int|
        {
            &&& 0 <= i < peers.len()
            &&& 0 <= j < pods.len()
            &&& text::or_empty((#[trigger] pods[j]).namespace) == policy_ns
            &&& netpol::has_labels((#[trigger] peers[i]).match_labels, pods[j].labels)
            &&& id == identity::resolved(alloc, policy_ns, pods[j].labels)
        }
}

/// Whether the entity stands for `id`.
pub open spec fn entity_has(entity: Seq<char>, alloc: Map<Seq<char>, u32>, id: u32) -> bool {
    ||| entity == "all"@ && id == 0
    ||| entity == "host"@ && id == IDENTITY_HOST
    ||| entity == "world"@ && id == IDENTITY_WORLD
    ||| entity == "cluster"@ && (id == IDENTITY_HOST || alloc.values().contains(id))
}

/// The identities of a rule's peers: those of the selected pods of the
/// namespace, those of the entities, and the wildcard if it names no peer.
pub open spec fn peer_set(
    peers: Seq<SelectorView>,
    entities: Seq<Seq<char>>,
    policy_ns: Seq<char>,
    pods: Seq<PodView>,
    alloc: Map<Seq<char>, u32>,
) -> Set<u32> {
    Set::new(
        |id: u32|
            {
                ||| selected_id(peers, policy_ns, pods, alloc, id)
                ||| exists|i: int|
                    0 <= i < entities.len() && entity_has(#[trigger] entities[i], alloc, id)
                ||| peers.len() == 0 && entities.len() == 0 && id == 0
            },
    )
}

/// Add the identities of the pods that one selector takes.
fn add_selected(
    ids: &mut Vec<u32>,
    sel: &Selector,
    policy_ns: &str,
    pods: &[Pod],
    alloc: &Alloc,
)
    requires
        identity::ids_ascend(old(ids)@),
    ensures
        identity::ids_ascend(final(ids)@),
        forall|id: u32| #[trigger]
            final(ids)@.contains(id) <==> old(ids)@.contains(id) || selected_id(
                seq![sel@],
                policy_ns@,
                text::views(pods@),
                alloc@,
                id,
            ),
{
    let ghost before = ids@;
    let ghost all = text::views(pods@);
    let ghost one = seq![sel@];
    let mut i: usize = 0;
    while i < pods.len()
        invariant
            i <= pods@.len(),
            all == text::views(pods@),
            one == seq![sel@],
            identity::ids_ascend(ids@),
            forall|id: u32| #[trigger]
                ids@.contains(id) <==> before.contains(id) || selected_id(
                    one,
                    policy_ns@,
                    all.take(i as int),
                    alloc@,
                    id,
                ),
        decreases pods@.len() - i,
    {
        let ghost prev = ids@;
        let ghost head = all.take(i as int);
        let ghost next = all.take(i + 1);
        let ghost p = pods@[i as int]@;
        let ns = text::text_of(&pods[i].namespace);
        if text::same(ns.as_str(), policy_ns) && selector_matches(sel, &pods[i].labels) {
            let id: u32 = alloc.resolve(ns.as_str(), &pods[i].labels);
            identity::add_id(ids, id);
        }
        proof {
            assert(next[i as int] == p);
            assert(forall|j: int| 0 <= j < i ==> next[j] == head[j]);
            assert(one[0] == sel@);
            assert forall|id: u32| #[trigger] ids@.contains(id) <==> before.contains(id)
                || selected_id(one, policy_ns@, next, alloc@, id) by {
                let hit = text::or_empty(p.namespace) == policy_ns@ && netpol::has_labels(
                    sel@.match_labels,
                    p.labels,
                ) && id == identity::resolved(alloc@, policy_ns@, p.labels);
                assert(ids@.contains(id) <==> prev.contains(id) || hit);
                if selected_id(one, policy_ns@, head, alloc@, id) {
                    let (a, b) = choose|a: int, b: int|
                        {
                            &&& 0 <= a < one.len()
                            &&& 0 <= b < head.len()
                            &&& text::or_empty((#[trigger] head[b]).namespace) == policy_ns@
                            &&& netpol::has_labels(
                                (#[trigger] one[a]).match_labels,
                                head[b].labels,
                            )
                            &&& id == identity::resolved(alloc@, policy_ns@, head[b].labels)
                        };
                    assert(next[b] == head[b] && one[a] == one[a]);
                }
                if selected_id(one, policy_ns@, next, alloc@, id) {
                    let (a, b) = choose|a: int, b: int|
                        {
                            &&& 0 <= a < one.len()
                            &&& 0 <= b < next.len()
                            &&& text::or_empty((#[trigger] next[b]).namespace) == policy_ns@
                            &&& netpol::has_labels(
                                (#[trigger] one[a]).match_labels,
                                next[b].labels,
                            )
                            &&& id == identity::resolved(alloc@, policy_ns@, next[b].labels)
                        };
                    if b < i {
                        assert(head[b] == next[b] && one[a] == one[a]);
                        assert(selected_id(one, policy_ns@, head, alloc@, id));
                    }
                }
            }
        }
        i += 1;
    }
    assert(all.take(i as int) =~= all);
}

/// Add the identities of one entity.
fn add_entity(ids: &mut Vec<u32>, entity: &str, alloc: &Alloc)
    requires
        identity::ids_ascend(old(ids)@),
    ensures
        identity::ids_ascend(final(ids)@),
        forall|id: u32| #[trigger]
            final(ids)@.contains(id) <==> old(ids)@.contains(id) || entity_has(
                entity@,
                alloc@,
                id,
            ),
{
    proof {
        reveal_strlit("all");
        reveal_strlit("host");
        reveal_strlit("world");
        reveal_strlit("cluster");
        assert("all"@.len() == 3 && "host"@.len() == 4 && "world"@.len() == 5 && "cluster"@.len()
            == 7);
    }
    if text::same(entity, "all") {
        identity::add_id(ids, 0);
    } else if text::same(entity, "host") {
        identity::add_id(ids, IDENTITY_HOST);
    } else if text::same(entity, "world") {
        identity::add_id(ids, IDENTITY_WORLD);
    } else if text::same(entity, "cluster") {
        identity::add_id(ids, IDENTITY_HOST);
        let ghost before = ids@;
        let every = alloc.all_ids();
        let mut i: usize = 0;
        while i < every.len()
            invariant
                i <= every@.len(),
                identity::ids_ascend(ids@),
                forall|id: u32| #[trigger]
                    ids@.contains(id) <==> before.contains(id) || every@.take(i as int).contains(
                        id,
                    ),
            decreases every@.len() - i,
        {
            let ghost prev = ids@;
            let ghost head = every@.take(i as int);
            identity::add_id(ids, every[i]);
            proof {
                let next = every@.take(i + 1);
                assert(next =~= head.push(every@[i as int]));
                assert forall|id: u32| #[trigger] ids@.contains(id) <==> before.contains(id)
                    || next.contains(id) by {
                    if head.contains(id) {
                        let k = choose|k: int| 0 <= k < head.len() && head[k] == id;
                        assert(next[k] == id);
                    }
                    assert(next[i as int] == every@[i as int]);
                    if next.contains(id) && id != every@[i as int] {
                        let k = choose|k: int| 0 <= k < next.len() && next[k] == id;
                        assert(head[k] == id);
                    }
                    assert(prev.contains(id) <==> before.contains(id) || head.contains(id));
                }
            }
            i += 1;
        }
        assert(every@.take(i as int) =~= every@);
    }
}

/// Peer identity set of one rule: selector peers resolve through the allocator
/// over the known pods of the namespace; entities expand. Without selectors
/// and entities the rule takes any peer.
pub fn peer_ids(
    peers: &Vec<Selector>,
    entities: &Vec<String>,
    policy_ns: &str,
    pods: &[Pod],
    alloc: &Alloc,
) -> (r: Vec<u32>)
    ensures
        r@ == identity::sorted_ids(
            peer_set(
                text::views(peers@),
                text::views(entities@),
                policy_ns@,
                text::views(pods@),
                alloc@,
            ),
        ),
        identity::ids_ascend(r@),
        forall|id: u32| #[trigger]
            r@.contains(id) <==> peer_set(
                text::views(peers@),
                text::views(entities@),
                policy_ns@,
                text::views(pods@),
                alloc@,
            ).contains(id),
{
    let ghost (ps, es, all) = (text::views(peers@), text::views(entities@), text::views(pods@));
    let mut ids: Vec<u32> = Vec::new();
    let mut i: usize = 0;
    assert forall|id: u32| !selected_id(ps.take(0), policy_ns@, all, alloc@, id) by {
        assert(ps.take(0).len() == 0);
    }
    while i < peers.len()
        invariant
            i <= peers@.len(),
            ps == text::views(peers@),
            all == text::views(pods@),
            identity::ids_ascend(ids@),
            forall|id: u32| #[trigger]
                ids@.contains(id) <==> selected_id(
                    ps.take(i as int),
                    policy_ns@,
                    all,
                    alloc@,
                    id,
                ),
        decreases peers@.len() - i,
    {
        let ghost prev = ids@;
        add_selected(&mut ids, &peers[i], policy_ns, pods, alloc);
        proof {
            assert forall|id: u32| #[trigger] ids@.contains(id) <==> selected_id(
                ps.take(i + 1),
                policy_ns@,
                all,
                alloc@,
                id,
            ) by {
                assert(prev.contains(id) <==> selected_id(
                    ps.take(i as int),
                    policy_ns@,
                    all,
                    alloc@,
                    id,
                ));
                assert(ps[i as int] == peers@[i as int]@);
                selected_id_push(ps, i as int, policy_ns@, all, alloc@, id);
            }
        }
        i += 1;
    }
    assert(ps.take(i as int) =~= ps);
    let ghost picked = ids@;
    let mut k: usize = 0;
    while k < entities.len()
        invariant
            k <= entities@.len(),
            es == text::views(entities@),
            identity::ids_ascend(ids@),
            forall|id: u32| #[trigger]
                ids@.contains(id) <==> picked.contains(id) || exists|j: int|
                    0 <= j < k && entity_has(#[trigger] es[j], alloc@, id),
        decreases entities@.len() - k,
    {
        let ghost prev = ids@;
        add_entity(&mut ids, entities[k].as_str(), alloc);
        proof {
            assert(es[k as int] == entities@[k as int]@);
            assert forall|id: u32| #[trigger] ids@.contains(id) <==> picked.contains(id)
                || exists|j: int| 0 <= j < k + 1 && entity_has(#[trigger] es[j], alloc@, id) by {
                assert(prev.contains(id) <==> picked.contains(id) || exists|j: int|
                    0 <= j < k && entity_has(#[trigger] es[j], alloc@, id));
                if exists|j: int| 0 <= j < k && entity_has(#[trigger] es[j], alloc@, id) {
                    let j = choose|j: int| 0 <= j < k && entity_has(#[trigger] es[j], alloc@, id);
                    assert(entity_has(es[j], alloc@, id));
                }
            }
        }
        k += 1;
    }
    if peers.len() == 0 && entities.len() == 0 {
        identity::add_id(&mut ids, 0);
    }
    proof {
        let want = peer_set(ps, es, policy_ns@, all, alloc@);
        assert forall|id: u32| #[trigger] ids@.contains(id) <==> want.contains(id) by {
            assert(picked.contains(id) <==> selected_id(ps, policy_ns@, all, alloc@, id));
        }
        identity::is_sorted_ids(ids@, want);
    }
    ids
}

/// One selector more.
proof fn selected_id_push(
    ps: Seq<SelectorView>,
    i: int,
    policy_ns: Seq<char>,
    pods: Seq<PodView>,
    alloc: Map<Seq<char>, u32>,
    id: u32,
)
    requires
        0 <= i < ps.len(),
    ensures
        selected_id(ps.take(i + 1), policy_ns, pods, alloc, id) <==> selected_id(
            ps.take(i),
            policy_ns,
            pods,
            alloc,
            id,
        ) || selected_id(seq![ps[i]], policy_ns, pods, alloc, id),
{
    let head = ps.take(i);
    let next = ps.take(i + 1);
    let one = seq![ps[i]];
    if selected_id(next, policy_ns, pods, alloc, id) {
        let (a, b) = choose|a: int, b: int|
            {
                &&& 0 <= a < next.len()
                &&& 0 <= b < pods.len()
                &&& text::or_empty((#[trigger] pods[b]).namespace) == policy_ns
                &&& netpol::has_labels((#[trigger] next[a]).match_labels, pods[b].labels)
                &&& id == identity::resolved(alloc, policy_ns, pods[b].labels)
            };
        if a < i {
            assert(head[a] == next[a]);
        } else {
            assert(one[0] == next[a]);
        }
    }
    if selected_id(head, policy_ns, pods, alloc, id) {
        let (a, b) = choose|a: int, b: int|
            {
                &&& 0 <= a < head.len()
                &&& 0 <= b < pods.len()
                &&& text::or_empty((#[trigger] pods[b]).namespace) == policy_ns
                &&& netpol::has_labels((#[trigger] head[a]).match_labels, pods[b].labels)
                &&& id == identity::resolved(alloc, policy_ns, pods[b].labels)
            };
        assert(next[a] == head[a]);
    }
    if selected_id(one, policy_ns, pods, alloc, id) {
        let (a, b) = choose|a: int, b: int|
            {
                &&& 0 <= a < one.len()
                &&& 0 <= b < pods.len()
                &&& text::or_empty((#[trigger] pods[b]).namespace) == policy_ns
                &&& netpol::has_labels((#[trigger] one[a]).match_labels, pods[b].labels)
                &&& id == identity::resolved(alloc, policy_ns, pods[b].labels)
            };
        assert(next[i] == one[a]);
    }
}

/// The source peers of a rule: selectors and entities.
pub fn from_peers(r: &Rule) -> (p: (&Vec<Selector>, &Vec<String>))
    ensures
        text::views(p.0@) == r@.from_endpoints,
        text::views(p.1@) == r@.from_entities,
{
    (&r.from_endpoints, &r.from_entities)
}

/// The destination peers of a rule: selectors and entities.
pub fn to_peers(r: &Rule) -> (p: (&Vec<Selector>, &Vec<String>))
    ensures
        text::views(p.0@) == r@.to_endpoints,
        text::views(p.1@) == r@.to_entities,
{
    (&r.to_endpoints, &r.to_entities)
}

// -------------------------------------------------------------------- ports

/// Protocol and number of a port; an unreadable number is any port.
pub open spec fn port_of(p: PortView) -> (u8, u16) {
    (
        if p.protocol == "UDP"@ {
            17
        } else if p.protocol == "ANY"@ {
            0
        } else {
            6
        },
        match digits::spelled(p.port, u16::MAX as int) {
            Some(n) => n as u16,
            None => 0,
        },
    )
}

/// The ports of the groups, in order.
pub open spec fn listed_ports(groups: Seq<PortRuleView>) -> Seq<(u8, u16)>
    decreases groups.len(),
{
    if groups.len() == 0 {
        Seq::empty()
    } else {
        let g = groups.last().ports;
        listed_ports(groups.drop_last()) + Seq::new(g.len(), |i: int| port_of(g[i]))
    }
}

/// The ports of a rule: any (0, 0) if it lists none.
pub open spec fn ports_of(rule: RuleView) -> Seq<(u8, u16)> {
    let p = listed_ports(rule.to_ports);
    if p.len() == 0 {
        seq![(0u8, 0u16)]
    } else {
        p
    }
}

fn port_pair(p: &Port) -> (r: (u8, u16))
    ensures
        r == port_of(p@),
{
    let proto: u8 = if text::same(p.protocol.as_str(), "UDP") {
        17
    } else if text::same(p.protocol.as_str(), "ANY") {
        0
    } else {
        6
    };
    let port: u16 = match digits::parse_number(p.port.as_str(), 65535) {
        Some(n) => n as u16,
        None => 0,
    };
    (proto, port)
}

/// The `(proto, port)` pairs of a rule.
pub fn rule_ports(rule: &Rule) -> (r: Vec<(u8, u16)>)
    ensures
        r@ == ports_of(rule@),
{
    let mut out: Vec<(u8, u16)> = Vec::new();
    let ghost all = text::views(rule.to_ports@);
    let mut i: usize = 0;
    assert(out@ =~= listed_ports(all.take(0)));
    while i < rule.to_ports.len()
        invariant
            i <= rule.to_ports@.len(),
            all == text::views(rule.to_ports@),
            out@ == listed_ports(all.take(i as int)),
        decreases rule.to_ports@.len() - i,
    {
        let ghost before = out@;
        let group = &rule.to_ports[i].ports;
        let ghost g = text::views(group@);
        let ghost ports = Seq::new(g.len(), |i: int| port_of(g[i]));
        proof {
            assert(all.take(i + 1).drop_last() =~= all.take(i as int));
            assert(all.take(i + 1).last().ports == g);
            assert(before + ports.take(0) =~= before);
        }
        let mut j: usize = 0;
        while j < group.len()
            invariant
                j <= group@.len(),
                g == text::views(group@),
                ports == Seq::new(g.len(), |i: int| port_of(g[i])),
                out@ == before + ports.take(j as int),
            decreases group@.len() - j,
        {
            assert(g[j as int] == group@[j as int]@);
            out.push(port_pair(&group[j]));
            assert(ports.take(j + 1) =~= ports.take(j as int).push(ports[j as int]));
            assert(out@ =~= before + ports.take(j + 1));
            j += 1;
        }
        assert(ports.take(j as int) =~= ports);
        i += 1;
    }
    assert(all.take(i as int) =~= all);
    if out.len() == 0 {
        out.push((0, 0));
        assert(out@ =~= seq![(0u8, 0u16)]);
    }
    out
}

// -------------------------------------------------------------------- rules

/// The peer identities of a rule for one direction.
pub open spec fn rule_ids(
    rule: RuleView,
    inbound: bool,
    ns: Seq<char>,
    pods: Seq<PodView>,
    alloc: Map<Seq<char>, u32>,
) -> Seq<u32> {
    if inbound {
        identity::sorted_ids(
            peer_set(rule.from_endpoints, rule.from_entities, ns, pods, alloc),
        )
    } else {
        identity::sorted_ids(peer_set(rule.to_endpoints, rule.to_entities, ns, pods, alloc))
    }
}

/// The policy rules of a rule list: every port for every peer identity.
pub open spec fn expanded(
    rules: Seq<RuleView>,
    inbound: bool,
    deny: bool,
    ns: Seq<char>,
    pods: Seq<PodView>,
    alloc: Map<Seq<char>, u32>,
) -> Seq<PolicyRule>
    decreases rules.len(),
{
    if rules.len() == 0 {
        Seq::empty()
    } else {
        expanded(rules.drop_last(), inbound, deny, ns, pods, alloc) + netpol::as_rules(
            netpol::crossed(
                rule_ids(rules.last(), inbound, ns, pods, alloc),
                ports_of(rules.last()),
            ),
            deny,
        )
    }
}

fn expand(
    out: &mut Vec<PolicyRule>,
    rules: &Vec<Rule>,
    inbound: bool,
    deny: bool,
    ns: &str,
    pods: &[Pod],
    alloc: &Alloc,
)
    ensures
        final(out)@ == old(out)@ + expanded(
            text::views(rules@),
            inbound,
            deny,
            ns@,
            text::views(pods@),
            alloc@,
        ),
{
    let ghost before = out@;
    let ghost all = text::views(rules@);
    let ghost p = text::views(pods@);
    let mut i: usize = 0;
    assert(before + expanded(all.take(0), inbound, deny, ns@, p, alloc@) =~= before);
    while i < rules.len()
        invariant
            i <= rules@.len(),
            all == text::views(rules@),
            p == text::views(pods@),
            out@ == before + expanded(all.take(i as int), inbound, deny, ns@, p, alloc@),
        decreases rules@.len() - i,
    {
        proof {
            assert(all.take(i + 1).drop_last() =~= all.take(i as int));
            assert(all.take(i + 1).last() == rules@[i as int]@);
        }
        let (peers, entities) = if inbound {
            from_peers(&rules[i])
        } else {
            to_peers(&rules[i])
        };
        let ids = peer_ids(peers, entities, ns, pods, alloc);
        let ports = rule_ports(&rules[i]);
        let t = netpol::cross(&ids, &ports);
        netpol::push_rules(out, &t, deny);
        assert(out@ =~= before + expanded(all.take(i + 1), inbound, deny, ns@, p, alloc@));
        i += 1;
    }
    assert(all.take(i as int) =~= all);
}

/// Whether the policy selects a pod of `ns` with `labels`.
pub open spec fn applies(cnp: CnpView, ns: Seq<char>, labels: Map<Seq<char>, Seq<char>>) -> bool {
    cnp.namespace == ns && netpol::has_labels(cnp.spec.endpoint_selector.match_labels, labels)
}

/// What the policies ask for one pod: ingress and egress rules, and whether a
/// policy selected the pod in each direction.
#[verifier::ext_equal]
pub struct EndpointRules {
    pub ingress: Seq<PolicyRule>,
    pub egress: Seq<PolicyRule>,
    pub any_in: bool,
    pub any_eg: bool,
}

/// The rules of the policies that select the pod, allows before denies.
pub open spec fn endpoint_rules_spec(
    cnps: Seq<CnpView>,
    ns: Seq<char>,
    labels: Map<Seq<char>, Seq<char>>,
    pods: Seq<PodView>,
    alloc: Map<Seq<char>, u32>,
) -> EndpointRules
    decreases cnps.len(),
{
    if cnps.len() == 0 {
        EndpointRules {
            ingress: Seq::empty(),
            egress: Seq::empty(),
            any_in: false,
            any_eg: false,
        }
    } else {
        let head = endpoint_rules_spec(cnps.drop_last(), ns, labels, pods, alloc);
        let spec = cnps.last().spec;
        if applies(cnps.last(), ns, labels) {
            EndpointRules {
                ingress: head.ingress + expanded(spec.ingress, true, false, ns, pods, alloc)
                    + expanded(spec.ingress_deny, true, true, ns, pods, alloc),
                egress: head.egress + expanded(spec.egress, false, false, ns, pods, alloc)
                    + expanded(spec.egress_deny, false, true, ns, pods, alloc),
                any_in: head.any_in || spec.ingress.len() > 0 || spec.ingress_deny.len() > 0,
                any_eg: head.any_eg || spec.egress.len() > 0 || spec.egress_deny.len() > 0,
            }
        } else {
            head
        }
    }
}

/// Expand the policies that select `pod_labels` in `ns` into policy rules.
/// Returns (ingress, egress) rule lists — deny rules carry `deny: true` — plus
/// whether any policy selected the pod per direction.
pub fn endpoint_rules(
    cnps: &[Cnp],
    ns: &str,
    pod_labels: &Labels,
    pods: &[Pod],
    alloc: &Alloc,
) -> (r: (Vec<PolicyRule>, Vec<PolicyRule>, bool, bool))
    ensures
        (EndpointRules { ingress: r.0@, egress: r.1@, any_in: r.2, any_eg: r.3 })
            == endpoint_rules_spec(
            text::views(cnps@),
            ns@,
            pod_labels@,
            text::views(pods@),
            alloc@,
        ),
{
    let mut ingress: Vec<PolicyRule> = Vec::new();
    let mut egress: Vec<PolicyRule> = Vec::new();
    let mut any_in = false;
    let mut any_eg = false;
    let ghost all = text::views(cnps@);
    let ghost p = text::views(pods@);
    let mut i: usize = 0;
    assert(ingress@ =~= Seq::empty() && egress@ =~= Seq::empty());
    assert(all.take(0).len() == 0);
    while i < cnps.len()
        invariant
            i <= cnps@.len(),
            all == text::views(cnps@),
            p == text::views(pods@),
            (EndpointRules { ingress: ingress@, egress: egress@, any_in, any_eg })
                == endpoint_rules_spec(all.take(i as int), ns@, pod_labels@, p, alloc@),
        decreases cnps@.len() - i,
    {
        let ghost head = endpoint_rules_spec(all.take(i as int), ns@, pod_labels@, p, alloc@);
        proof {
            assert(all.take(i + 1).drop_last() =~= all.take(i as int));
            assert(all.take(i + 1).last() == cnps@[i as int]@);
        }
        if text::same(cnps[i].namespace.as_str(), ns) && selector_matches(
            &cnps[i].spec.endpoint_selector,
            pod_labels,
        ) {
            let spec = &cnps[i].spec;
            if spec.ingress.len() > 0 || spec.ingress_deny.len() > 0 {
                any_in = true;
                expand(&mut ingress, &spec.ingress, true, false, ns, pods, alloc);
                expand(&mut ingress, &spec.ingress_deny, true, true, ns, pods, alloc);
            }
            if spec.egress.len() > 0 || spec.egress_deny.len() > 0 {
                any_eg = true;
                expand(&mut egress, &spec.egress, false, false, ns, pods, alloc);
                expand(&mut egress, &spec.egress_deny, false, true, ns, pods, alloc);
            }
            proof {
                let next = endpoint_rules_spec(all.take(i + 1), ns@, pod_labels@, p, alloc@);
                assert(ingress@ =~= next.ingress);
                assert(egress@ =~= next.egress);
            }
        }
        i += 1;
    }
    assert(all.take(i as int) =~= all);
    (ingress, egress, any_in, any_eg)
}

// --------------------------------------------------------------------- laws

/// A pod that no policy selects gets no rule.
pub proof fn unselected_pod_gets_no_rule(
    cnps: Seq<CnpView>,
    ns: Seq<char>,
    labels: Map<Seq<char>, Seq<char>>,
    pods: Seq<PodView>,
    alloc: Map<Seq<char>, u32>,
)
    requires
        forall|i: int| 0 <= i < cnps.len() ==> !applies(#[trigger] cnps[i], ns, labels),
    ensures
        ({
            let r = endpoint_rules_spec(cnps, ns, labels, pods, alloc);
            r.ingress.len() == 0 && r.egress.len() == 0 && !r.any_in && !r.any_eg
        }),
    decreases cnps.len(),
{
    if cnps.len() > 0 {
        let head = cnps.drop_last();
        assert forall|i: int| 0 <= i < head.len() implies !applies(
            #[trigger] head[i],
            ns,
            labels,
        ) by {
            assert(head[i] == cnps[i]);
        }
        assert(cnps[cnps.len() - 1] == cnps.last());
        unselected_pod_gets_no_rule(head, ns, labels, pods, alloc);
    }
}

/// The `cluster` entity without an allocator is the node alone.
pub proof fn cluster_without_allocator_is_host(id: u32)
    ensures
        entity_has("cluster"@, Map::empty(), id) <==> id == IDENTITY_HOST,
{
    reveal_strlit("all");
    reveal_strlit("host");
    reveal_strlit("world");
    reveal_strlit("cluster");
    assert("all"@.len() == 3 && "host"@.len() == 4 && "world"@.len() == 5 && "cluster"@.len() == 7);
}

/// A rule without peers takes any peer, and nothing but the wildcard.
pub proof fn rule_without_peers_is_wildcard(
    ns: Seq<char>,
    pods: Seq<PodView>,
    alloc: Map<Seq<char>, u32>,
)
    ensures
        identity::sorted_ids(peer_set(Seq::empty(), Seq::empty(), ns, pods, alloc)) == seq![0u32],
{
    let want = peer_set(Seq::empty(), Seq::empty(), ns, pods, alloc);
    let one = seq![0u32];
    assert forall|x: u32| #[trigger] one.contains(x) <==> want.contains(x) by {
        assert(one[0] == 0);
    }
    identity::is_sorted_ids(one, want);
}

/// The rules of two policy lists are those of the one, then those of the other:
/// the policies add up, and a pod is under policy where either list puts it.
pub proof fn policies_add_up(
    a: Seq<CnpView>,
    b: Seq<CnpView>,
    ns: Seq<char>,
    labels: Map<Seq<char>, Seq<char>>,
    pods: Seq<PodView>,
    alloc: Map<Seq<char>, u32>,
)
    ensures
        ({
            let x = endpoint_rules_spec(a, ns, labels, pods, alloc);
            let y = endpoint_rules_spec(b, ns, labels, pods, alloc);
            endpoint_rules_spec(a + b, ns, labels, pods, alloc) == (EndpointRules {
                ingress: x.ingress + y.ingress,
                egress: x.egress + y.egress,
                any_in: x.any_in || y.any_in,
                any_eg: x.any_eg || y.any_eg,
            })
        }),
    decreases b.len(),
{
    let x = endpoint_rules_spec(a, ns, labels, pods, alloc);
    let y = endpoint_rules_spec(b, ns, labels, pods, alloc);
    let all = endpoint_rules_spec(a + b, ns, labels, pods, alloc);
    if b.len() == 0 {
        assert(a + b =~= a);
        assert(x.ingress + y.ingress =~= x.ingress);
        assert(x.egress + y.egress =~= x.egress);
    } else {
        policies_add_up(a, b.drop_last(), ns, labels, pods, alloc);
        assert((a + b).drop_last() =~= a + b.drop_last());
        assert((a + b).last() == b.last());
        assert(all.ingress =~= x.ingress + y.ingress);
        assert(all.egress =~= x.egress + y.egress);
    }
}

} // verus!
