use cradle::cep::{
    build_cep_identities, cep_object, cid_object, cilium_node_object, desired_ceps, node_selector,
    publish, stale_ceps, NODE_LABEL,
};
use cradle::cnp::{
    endpoint_rules, peer_ids, rule_ports, Cnp, CnpSpec, Port, PortRule, Rule, Selector,
};
use cradle::controller::{
    apply, cidr_calls, connect_uri, merged_policy, node_address, node_internal_ip, pod_range4,
    push_policy, render_cni_conf, resync_period, Programmed,
};
use cradle::identity::{
    cid_ids, cid_key, gc_plan, labels_key, security_labels, Alloc, Ledger, FIRST_ID, GC_GRACE,
};
use cradle::json::Json;
use cradle::messages::{CniEndpoint, PolicyRule};
use cradle::netpol::{
    endpoint_policy, identities, identity, proto_num, rule_tuples, selector_matches,
    IDENTITY_HOST, IDENTITY_WORLD,
};
use cradle::objects::{
    CidListing, Endpoint, EndpointPort, EndpointSlice, IngressRule, LabelSelector, Labels,
    Namespace, NetworkPolicy, Node, NodeAddress, Peer, Pod, PolicyPort, PolicySpec, Service,
    ServicePort, ServiceSpec,
};
use cradle::ordmap::OrdMap;
use cradle::rounds::{
    next_policy_step, next_publish_step, next_sync_step, PolicyStep, PublishStep, SyncStep,
};
use cradle::sync::{
    build_desired, name_eq, parse_proto, proto_str, svc_id, Key, Svc, TCP, UDP,
};
use cradle::digits::{fmt_hex, fmt_ip4, fmt_u32, parse_ip4, parse_number};

fn labels(pairs: &[(&str, &str)]) -> Labels {
    let mut l: Labels = OrdMap::new();
    for (k, v) in pairs {
        l.insert(k.to_string(), v.to_string());
    }
    l
}

fn ip(s: &str) -> u32 {
    parse_ip4(s).unwrap()
}

fn text(j: Option<&Json>) -> &str {
    j.unwrap().as_text().unwrap()
}

// ---------------------------------------------------------------- identities

#[test]
fn resolve_prefers_allocation_over_hash() {
    let labels = labels(&[("app", "web")]);
    let empty = Alloc::new();
    let hash = empty.resolve("default", &labels);
    assert!(hash >= 3);
    let mut table = OrdMap::new();
    table.insert(labels_key("default", &labels), 256);
    let alloc = Alloc(table);
    assert_eq!(alloc.resolve("default", &labels), 256);
    assert_eq!(alloc.all_ids(), vec![256]);
}

#[test]
fn identity_stable_and_order_independent() {
    let a = identity("default", &labels(&[("app", "web"), ("tier", "fe")]));
    let b = identity("default", &labels(&[("tier", "fe"), ("app", "web")]));
    assert_eq!(a, b);
    assert_ne!(
        a,
        identity("other", &labels(&[("app", "web"), ("tier", "fe")]))
    );
    assert!(a >= 3);
}

#[test]
fn identity_is_the_hash_of_its_text() {
    // FNV-1a/32 over "a\0" and "a\0b=c;".
    let mut h: u32 = 0x811c_9dc5;
    for b in [b'a', 0] {
        h = (h ^ b as u32).wrapping_mul(0x0100_0193);
    }
    assert_eq!(identity("a", &labels(&[])), h);
    for b in *b"b=c;" {
        h = (h ^ b as u32).wrapping_mul(0x0100_0193);
    }
    assert_eq!(identity("a", &labels(&[("b", "c")])), h);
}

#[test]
fn label_keys_are_exact() {
    let l = labels(&[("tier", "fe"), ("app", "web")]);
    assert_eq!(
        labels_key("default", &l),
        "k8s:io.kubernetes.pod.namespace=default;k8s:app=web;k8s:tier=fe"
    );
    assert_eq!(labels_key("x", &labels(&[])), "k8s:io.kubernetes.pod.namespace=x");
    let s = security_labels("default", &l);
    assert_eq!(s.len(), 3);
    assert_eq!(
        cid_key(&s),
        "k8s:app=web;k8s:io.kubernetes.pod.namespace=default;k8s:tier=fe"
    );
    // A label of the namespace key's own name does not stand in for it.
    let odd = security_labels("default", &labels(&[("io.kubernetes.pod.namespace", "other")]));
    assert_eq!(
        cid_key(&odd),
        "k8s:io.kubernetes.pod.namespace=default;pod:io.kubernetes.pod.namespace=other"
    );
    assert_ne!(cid_key(&odd), cid_key(&security_labels("other", &labels(&[]))));
}

#[test]
fn label_sets_have_keys_of_their_own() {
    let sets = [
        ("a", labels(&[])),
        ("b", labels(&[])),
        ("a", labels(&[("k", "v")])),
        ("a", labels(&[("k", "")])),
        ("a", labels(&[("k", "v=w")])),
        ("a", labels(&[("k", "v"), ("l", "w")])),
        ("a", labels(&[("io.kubernetes.pod.namespace", "b")])),
        ("b", labels(&[("io.kubernetes.pod.namespace", "a")])),
    ];
    for (i, (n, l)) in sets.iter().enumerate() {
        for (m, k) in &sets[..i] {
            assert_ne!(labels_key(n, l), labels_key(m, k));
            assert_ne!(cid_key(&security_labels(n, l)), cid_key(&security_labels(m, k)));
        }
    }
}

#[test]
fn allocation_tables_start_empty_and_copy() {
    let empty = Alloc::default();
    assert!(empty.all_ids().is_empty());
    let mut table = OrdMap::new();
    table.insert(labels_key("default", &labels(&[("app", "web")])), 256);
    table.insert(labels_key("default", &labels(&[("app", "db")])), 300);
    let alloc = Alloc(table);
    let copy = alloc.clone();
    assert_eq!(copy.all_ids(), vec![256, 300]);
    assert_eq!(copy.resolve("default", &labels(&[("app", "db")])), 300);
}

fn pod(ns: Option<&str>, name: &str, pairs: &[(&str, &str)], addr: Option<&str>) -> Pod {
    Pod {
        namespace: ns.map(String::from),
        name: name.to_string(),
        labels: labels(pairs),
        ip: addr.map(String::from),
    }
}

#[test]
fn ledger_adopts_and_allocates() {
    let web = labels(&[("app", "web")]);
    let cids = vec![
        CidListing {
            name: "300".to_string(),
            labels: security_labels("default", &web),
        },
        CidListing {
            name: "not-a-number".to_string(),
            labels: labels(&[]),
        },
    ];
    let mut ledger = Ledger::adopt(&cids);
    assert_eq!(ledger.max_id(), 300);
    // The adopted set needs no identity.
    assert_eq!(ledger.want("default", &web), None);
    // A new set takes the next number; a failed creation leaves it.
    let db = labels(&[("app", "db")]);
    assert_eq!(ledger.want("default", &db), Some(301));
    ledger.settle("default", &db, false);
    assert_eq!(ledger.want("default", &db), Some(301));
    ledger.settle("default", &db, true);
    assert_eq!(ledger.want("default", &db), None);
    let pods = vec![
        pod(Some("default"), "w", &[("app", "web")], None),
        pod(Some("default"), "d", &[("app", "db")], None),
        pod(Some("default"), "x", &[("app", "cache")], None),
    ];
    let alloc = ledger.table_for(&pods);
    assert_eq!(alloc.resolve("default", &web), 300);
    assert_eq!(alloc.resolve("default", &db), 301);
    assert_eq!(alloc.all_ids(), vec![300, 301]);
    // A set without a record falls back to the hash.
    let cache = labels(&[("app", "cache")]);
    assert_eq!(alloc.resolve("default", &cache), identity("default", &cache));
}

#[test]
fn identities_are_given_out_in_order() {
    let pods: Vec<Pod> = ["a", "b", "a", "c", "d"]
        .iter()
        .map(|v| pod(Some("default"), v, &[("app", v)], None))
        .collect();
    // The creation for "b" fails: its number goes to "c".
    let mut ledger = Ledger::adopt(&[]);
    let mut asked = Vec::new();
    for p in &pods {
        if let Some(id) = ledger.want("default", &p.labels) {
            asked.push(id);
            ledger.settle("default", &p.labels, p.name != "b");
        }
    }
    assert_eq!(asked, vec![256, 257, 257, 258]);
    let alloc = ledger.table_for(&pods);
    assert_eq!(alloc.all_ids(), vec![256, 257, 258]);
    let at = |v: &str| alloc.resolve("default", &labels(&[("app", v)]));
    assert_eq!((at("a"), at("c"), at("d")), (256, 257, 258));
    assert_eq!(at("b"), identity("default", &labels(&[("app", "b")])));
    assert_eq!(ledger.want("default", &labels(&[("app", "b")])), Some(259));
}

#[test]
fn unreferenced_identities_are_collected_after_their_grace() {
    let listed: Vec<CidListing> = ["300", "256", "x", "300"]
        .iter()
        .map(|n| CidListing { name: n.to_string(), labels: labels(&[]) })
        .collect();
    let ids = cid_ids(&listed);
    assert_eq!(ids, vec![256, 300]);
    assert_eq!(GC_GRACE, 3);
    let none = OrdMap::new();
    let (one, gone) = gc_plan(&ids, &[300], &none, GC_GRACE);
    assert_eq!((one.get(&256), one.get(&300)), (Some(&1), None));
    assert!(gone.is_empty());
    let (two, gone) = gc_plan(&ids, &[], &one, GC_GRACE);
    assert_eq!((two.get(&256), two.get(&300)), (Some(&2), Some(&1)));
    assert!(gone.is_empty());
    let (three, gone) = gc_plan(&ids, &[], &two, GC_GRACE);
    assert_eq!(gone, vec![256]);
    assert_eq!((three.get(&256), three.get(&300)), (None, Some(&2)));
    // Referenced again, an identity starts afresh.
    let (four, gone) = gc_plan(&[300], &[300], &three, GC_GRACE);
    assert!(gone.is_empty() && four.is_empty());
    // Without grace the first round sweeps.
    assert_eq!(gc_plan(&[300, 256], &[], &none, 0).1, vec![256, 300]);
    let mut full = OrdMap::new();
    full.insert(256, u32::MAX);
    assert_eq!(gc_plan(&[256], &[], &full, GC_GRACE).1, vec![256]);
}

#[test]
fn empty_ledger_starts_at_the_first_identity() {
    let ledger = Ledger::adopt(&[]);
    assert_eq!(ledger.want("default", &labels(&[])), Some(FIRST_ID));
    // A record in the reserved range does not lower the next number.
    let low = Ledger::adopt(&[CidListing {
        name: "+7".to_string(),
        labels: labels(&[]),
    }]);
    assert_eq!(low.max_id(), 255);
}

// ------------------------------------------------------------------ policies

#[test]
fn selector_matchlabels() {
    let l = labels(&[("app", "web")]);
    assert!(selector_matches(&None, &l));
    assert!(selector_matches(
        &Some(LabelSelector {
            match_labels: Some(labels(&[("app", "web")])),
            has_expressions: false,
        }),
        &l
    ));
    assert!(!selector_matches(
        &Some(LabelSelector {
            match_labels: Some(labels(&[("app", "db")])),
            has_expressions: false,
        }),
        &l
    ));
}

#[test]
fn expressions_never_match() {
    let l = labels(&[("app", "web")]);
    assert!(!selector_matches(
        &Some(LabelSelector {
            match_labels: None,
            has_expressions: true,
        }),
        &l
    ));
    assert!(selector_matches(
        &Some(LabelSelector {
            match_labels: None,
            has_expressions: false,
        }),
        &l
    ));
}

fn by_label(k: &str, v: &str) -> Option<LabelSelector> {
    Some(LabelSelector {
        match_labels: Some(labels(&[(k, v)])),
        has_expressions: false,
    })
}

fn attached(ns: &str, name: &str) -> CniEndpoint {
    CniEndpoint {
        container_id: "c".to_string(),
        ifname: "eth0".to_string(),
        netns: String::new(),
        host_if: "lxc1".to_string(),
        host_ifindex: 9,
        ip: "10.244.0.2".to_string(),
        ip6: String::new(),
        vrf_id: 0,
        pod_name: name.to_string(),
        pod_namespace: ns.to_string(),
        chained: false,
    }
}

fn web_policy() -> NetworkPolicy {
    NetworkPolicy {
        namespace: Some("default".to_string()),
        spec: Some(PolicySpec {
            policy_types: None,
            pod_selector: by_label("app", "web"),
            ingress: Some(vec![IngressRule {
                from: Some(vec![Peer {
                    has_ip_block: false,
                    namespace_selector: None,
                    pod_selector: by_label("app", "client"),
                }]),
                ports: Some(vec![
                    PolicyPort {
                        number: Some(80),
                        protocol: None,
                    },
                    PolicyPort {
                        number: None,
                        protocol: Some("UDP".to_string()),
                    },
                ]),
            }]),
        }),
    }
}

#[test]
fn network_policy_becomes_identity_rules() {
    let pods = vec![
        pod(Some("default"), "web-1", &[("app", "web")], Some("10.244.0.2")),
        pod(Some("default"), "cl-1", &[("app", "client")], Some("10.244.0.3")),
        pod(Some("other"), "cl-2", &[("app", "client")], None),
    ];
    let alloc = Alloc::new();
    let policies = vec![web_policy()];
    let p = endpoint_policy(&attached("default", "web-1"), &policies, &pods, &[], &alloc);
    let client = identity("default", &labels(&[("app", "client")]));
    assert!(p.enforce);
    assert_eq!(
        p.rules,
        vec![
            PolicyRule { identity: IDENTITY_HOST, proto: 0, port: 0, deny: false },
            PolicyRule { identity: client, proto: 6, port: 80, deny: false },
            PolicyRule { identity: client, proto: 17, port: 0, deny: false },
        ]
    );
    assert!(!p.enforce_egress && p.egress_rules.is_empty());
    assert_eq!(p.host_if, "");
    assert_eq!(p.pod_name, "web-1");
    assert_eq!(p.pod_namespace, "default");
    // A pod no policy selects is left open; so is one of another namespace.
    let q = endpoint_policy(&attached("default", "cl-1"), &policies, &pods, &[], &alloc);
    assert!(!q.enforce && q.rules.is_empty());
    let o = endpoint_policy(&attached("other", "cl-2"), &policies, &pods, &[], &alloc);
    assert!(!o.enforce);
    // The address bindings cover the pods that have one.
    assert_eq!(
        identities(&pods, &alloc),
        vec![
            ("10.244.0.2".to_string(), identity("default", &labels(&[("app", "web")]))),
            ("10.244.0.3".to_string(), client),
        ]
    );
}

#[test]
fn egress_only_policy_does_not_enforce_ingress() {
    let mut np = web_policy();
    np.spec.as_mut().unwrap().policy_types = Some(vec!["Egress".to_string()]);
    let pods = vec![pod(Some("default"), "web-1", &[("app", "web")], None)];
    let p = endpoint_policy(&attached("default", "web-1"), &[np], &pods, &[], &Alloc::new());
    assert!(!p.enforce);
    let mut both = web_policy();
    both.spec.as_mut().unwrap().policy_types =
        Some(vec!["Egress".to_string(), "Ingress".to_string()]);
    let q = endpoint_policy(&attached("default", "web-1"), &[both], &pods, &[], &Alloc::new());
    assert!(q.enforce);
}

#[test]
fn peers_and_ports_expand() {
    let pods = vec![
        pod(Some("a"), "p", &[("x", "1")], None),
        pod(Some("b"), "q", &[("x", "1")], None),
    ];
    let namespaces = vec![
        Namespace { name: "a".to_string(), labels: labels(&[("env", "dev")]) },
        Namespace { name: "b".to_string(), labels: labels(&[("env", "prod")]) },
    ];
    let alloc = Alloc::new();
    let rule = |from: Option<Vec<Peer>>, ports: Option<Vec<PolicyPort>>| IngressRule { from, ports };
    // No peers, no ports: any.
    let any = rule_tuples(&rule(None, None), "a", &pods, &namespaces, &alloc);
    assert_eq!(any, vec![(0, 0, 0)]);
    let any2 = rule_tuples(&rule(Some(vec![]), Some(vec![])), "a", &pods, &namespaces, &alloc);
    assert_eq!(any2, vec![(0, 0, 0)]);
    // A namespace selector draws from the namespaces it takes.
    let prod = Peer {
        has_ip_block: false,
        namespace_selector: by_label("env", "prod"),
        pod_selector: None,
    };
    let b_id = identity("b", &labels(&[("x", "1")]));
    assert_eq!(
        rule_tuples(&rule(Some(vec![prod]), None), "a", &pods, &namespaces, &alloc),
        vec![(b_id, 0, 0)]
    );
    // An address block admits no pod.
    let block = Peer {
        has_ip_block: true,
        namespace_selector: None,
        pod_selector: None,
    };
    assert!(rule_tuples(&rule(Some(vec![block]), None), "a", &pods, &namespaces, &alloc).is_empty());
    // An impossible port is any port.
    let odd = Some(vec![PolicyPort { number: Some(70000), protocol: Some("SCTP".to_string()) }]);
    assert_eq!(
        rule_tuples(&rule(None, odd), "a", &pods, &namespaces, &alloc),
        vec![(0, 0, 0)]
    );
    assert_eq!(proto_num(&None), 6);
    assert_eq!(proto_num(&Some("UDP".to_string())), 17);
    assert_eq!(proto_num(&Some("SCTP".to_string())), 0);
}

fn no_rule() -> Rule {
    Rule {
        from_endpoints: vec![],
        to_endpoints: vec![],
        from_entities: vec![],
        to_entities: vec![],
        to_ports: vec![],
    }
}

fn selecting(k: &str, v: &str) -> CnpSpec {
    CnpSpec {
        endpoint_selector: Selector { match_labels: labels(&[(k, v)]) },
        ingress: vec![],
        egress: vec![],
        ingress_deny: vec![],
        egress_deny: vec![],
    }
}

fn tcp80() -> Vec<PortRule> {
    vec![PortRule {
        ports: vec![Port { port: "80".to_string(), protocol: "TCP".to_string() }],
    }]
}

#[test]
fn deny_and_entities_expand() {
    let mut spec = selecting("app", "web");
    let mut allow = no_rule();
    allow.from_entities = vec!["world".to_string()];
    allow.to_ports = tcp80();
    spec.ingress = vec![allow];
    let mut deny = no_rule();
    deny.from_entities = vec!["host".to_string()];
    spec.ingress_deny = vec![deny];
    let cnps = vec![Cnp {
        namespace: "default".into(),
        spec,
    }];
    let (ing, eg, any_in, any_eg) = endpoint_rules(
        &cnps,
        "default",
        &labels(&[("app", "web")]),
        &[],
        &Alloc::new(),
    );
    assert!(any_in && !any_eg && eg.is_empty());
    assert!(ing
        .iter()
        .any(|r| r.identity == IDENTITY_WORLD && r.proto == 6 && r.port == 80 && !r.deny));
    assert!(ing.iter().any(|r| r.identity == IDENTITY_HOST && r.deny));
}

#[test]
fn policies_of_two_lists_add_up() {
    let web = labels(&[("app", "web")]);
    let listed = |entity: &str, ingress: bool| {
        let mut rule = no_rule();
        rule.from_entities = vec![entity.to_string()];
        rule.to_entities = vec![entity.to_string()];
        let mut spec = selecting("app", "web");
        if ingress {
            spec.ingress = vec![rule];
        } else {
            spec.egress_deny = vec![rule];
        }
        Cnp { namespace: "default".into(), spec }
    };
    let of = |cnps: &[Cnp]| endpoint_rules(cnps, "default", &web, &[], &Alloc::new());
    let x = of(&[listed("host", true)]);
    let y = of(&[listed("world", true), listed("host", false)]);
    let both = of(&[listed("host", true), listed("world", true), listed("host", false)]);
    assert_eq!(both.0, [x.0, y.0].concat());
    assert_eq!(both.1, [x.1, y.1].concat());
    assert_eq!((both.2, both.3), (x.2 || y.2, x.3 || y.3));
    assert_eq!((both.0.len(), both.1.len()), (2, 1));
}

#[test]
fn non_matching_selector_is_skipped() {
    let mut spec = selecting("app", "db");
    spec.ingress = vec![no_rule()];
    let cnps = vec![Cnp {
        namespace: "default".into(),
        spec,
    }];
    let (ing, _, any_in, _) = endpoint_rules(
        &cnps,
        "default",
        &labels(&[("app", "web")]),
        &[],
        &Alloc::new(),
    );
    assert!(!any_in && ing.is_empty());
}

#[test]
fn entities_and_selectors_give_sorted_ids() {
    let mut table = OrdMap::new();
    table.insert("a".to_string(), 300);
    table.insert("b".to_string(), 256);
    table.insert("c".to_string(), 300);
    let alloc = Alloc(table);
    let e = |v: &[&str]| v.iter().map(|s| s.to_string()).collect::<Vec<String>>();
    let ids = |p: &Vec<Selector>, v: &[&str], pods: &[Pod]| {
        peer_ids(p, &e(v), "default", pods, &alloc)
    };
    assert_eq!(ids(&vec![], &[], &[]), vec![0]);
    assert_eq!(ids(&vec![], &["cluster", "world"], &[]), vec![1, 2, 256, 300]);
    assert_eq!(ids(&vec![], &["all"], &[]), vec![0]);
    assert!(ids(&vec![], &["kube-apiserver"], &[]).is_empty());
    // Without the allocator the cluster is the node alone.
    assert_eq!(
        peer_ids(&vec![], &e(&["cluster"]), "default", &[], &Alloc::new()),
        vec![1]
    );
    // Selectors take the pods of the namespace alone.
    let pods = vec![
        pod(Some("default"), "a", &[("app", "x")], None),
        pod(Some("default"), "b", &[("app", "x")], None),
        pod(Some("other"), "c", &[("app", "x")], None),
    ];
    let all = vec![Selector { match_labels: labels(&[("app", "x")]) }];
    assert_eq!(ids(&all, &[], &pods), vec![identity("default", &labels(&[("app", "x")]))]);
}

#[test]
fn cnp_ports_parse() {
    let mut r = no_rule();
    assert_eq!(rule_ports(&r), vec![(0, 0)]);
    let p = |port: &str, protocol: &str| Port {
        port: port.to_string(),
        protocol: protocol.to_string(),
    };
    r.to_ports = vec![
        PortRule { ports: vec![p("53", "UDP"), p("+80", "")] },
        PortRule { ports: vec![p("http", "ANY"), p("70000", "TCP")] },
    ];
    assert_eq!(rule_ports(&r), vec![(17, 53), (6, 80), (0, 0), (6, 0)]);
}

#[test]
fn policies_merge_under_each_mode() {
    let pods = vec![pod(Some("default"), "web-1", &[("app", "web")], None)];
    let alloc = Alloc::new();
    let mut spec = selecting("app", "web");
    let mut out = no_rule();
    out.to_entities = vec!["world".to_string()];
    spec.egress = vec![out];
    let cnps = vec![Cnp { namespace: "default".to_string(), spec }];
    let ep = attached("default", "web-1");
    let host = PolicyRule { identity: IDENTITY_HOST, proto: 0, port: 0, deny: false };
    let world = PolicyRule { identity: IDENTITY_WORLD, proto: 0, port: 0, deny: false };
    // A direction only a Cilium policy selects gets the implicit host allow.
    let p = merged_policy(&ep, &[], &pods, &[], "default", &alloc, &cnps);
    assert!(!p.enforce && p.rules.is_empty());
    assert!(p.enforce_egress);
    assert_eq!(p.egress_rules, vec![host, world]);
    let n = merged_policy(&ep, &[], &pods, &[], "never", &alloc, &cnps);
    assert!(!n.enforce_egress && n.egress_rules.is_empty());
    // `always` closes the directions that nothing selects, and keeps the others.
    let a = merged_policy(&ep, &[], &pods, &[], "always", &alloc, &cnps);
    assert!(a.enforce && a.enforce_egress);
    assert_eq!(a.rules, vec![host]);
    assert_eq!(a.egress_rules, vec![host, world]);
    let c = merged_policy(&ep, &[], &pods, &[], "always", &alloc, &[]);
    assert!(c.enforce && c.enforce_egress);
    assert_eq!(c.rules, vec![host]);
    assert_eq!(c.egress_rules, vec![host]);
}

#[test]
fn policy_round_is_pushed_in_order() {
    let pods = vec![pod(None, "p", &[], Some("10.0.0.1"))];
    let eps = vec![attached("default", ""), attached("default", "web")];
    let pair = |c: &str, id: u32| (c.to_string(), id);
    let now = vec![pair("10.0.0.0/8", 7)];
    let last = vec![pair("10.0.0.0/8", 6), pair("192.168.0.0/16", 5)];
    let r = push_policy(&pods, &[], &[], &eps, &now, &last, "default", &Alloc::new(), &[]);
    assert_eq!(r.identities.len(), 1);
    assert_eq!(r.identities[0].ip, "10.0.0.1");
    assert_eq!(r.identities[0].identity, identity("", &labels(&[])));
    assert_eq!(r.cidrs.len(), 2);
    assert!(!r.cidrs[0].del && r.cidrs[0].cidr == "10.0.0.0/8" && r.cidrs[0].identity == 7);
    assert!(r.cidrs[1].del && r.cidrs[1].cidr == "192.168.0.0/16" && r.cidrs[1].identity == 5);
    // Endpoints without a pod are skipped.
    assert_eq!(r.policies.len(), 1);
    assert_eq!(r.policies[0].pod_name, "web");
    assert!(cidr_calls(&[], &[]).is_empty());
}

// ------------------------------------------------------------------ services

fn service(
    ns: &str,
    name: &str,
    cluster_ip: &str,
    ports: Vec<ServicePort>,
    type_: Option<&str>,
) -> Service {
    Service {
        namespace: Some(ns.into()),
        name: Some(name.into()),
        spec: Some(ServiceSpec {
            cluster_ip: Some(cluster_ip.into()),
            ports: Some(ports),
            type_: type_.map(String::from),
            session_affinity: None,
        }),
    }
}

fn sport(name: Option<&str>, port: i32, proto: &str) -> ServicePort {
    ServicePort {
        name: name.map(String::from),
        port,
        protocol: Some(proto.into()),
        node_port: None,
    }
}

fn endpoint(addr: &str, ready: Option<bool>, _kind: Option<&str>) -> Endpoint {
    Endpoint {
        addresses: vec![addr.into()],
        ready,
    }
}

fn slice(
    ns: &str,
    svc: &str,
    endpoints: Vec<Endpoint>,
    ports: Vec<(Option<&str>, i32)>,
) -> EndpointSlice {
    EndpointSlice {
        namespace: Some(ns.into()),
        labels: labels(&[("kubernetes.io/service-name", svc)]),
        address_type: "IPv4".into(),
        endpoints: Some(endpoints),
        ports: Some(
            ports
                .into_iter()
                .map(|(name, port)| EndpointPort {
                    name: name.map(String::from),
                    port: Some(port),
                    protocol: Some("TCP".into()),
                })
                .collect(),
        ),
    }
}

#[test]
fn maps_ready_pod_backends() {
    let svcs = vec![service(
        "default",
        "web",
        "10.96.0.10",
        vec![sport(None, 80, "TCP")],
        None,
    )];
    let slices = vec![slice(
        "default",
        "web",
        vec![
            endpoint("10.244.0.2", Some(true), Some("Pod")),
            endpoint("10.244.0.3", None, Some("Pod")), // ready unset counts as ready
        ],
        vec![(None, 8080)],
    )];
    let desired = build_desired(&svcs, &slices, None);
    let key = (ip("10.96.0.10"), 80u16, TCP);
    let backends = &desired.get(&key).unwrap().backends;
    assert_eq!(backends.len(), 2);
    assert!(backends.has(&(ip("10.244.0.2"), 8080)));
}

#[test]
fn slices_count_in_any_order() {
    let svcs = vec![service(
        "default",
        "web",
        "10.96.0.10",
        vec![sport(None, 80, "TCP")],
        None,
    )];
    let one = || {
        slice(
            "default",
            "web",
            vec![endpoint("10.244.0.2", Some(true), Some("Pod"))],
            vec![(None, 8080)],
        )
    };
    let two = || {
        slice(
            "default",
            "web",
            vec![endpoint("10.244.0.3", Some(true), Some("Pod"))],
            vec![(None, 9090)],
        )
    };
    let key = (ip("10.96.0.10"), 80u16, TCP);
    let a = build_desired(&svcs, &[one(), two()], None);
    let b = build_desired(&svcs, &[two(), one(), two()], None);
    assert_eq!((a.len(), b.len()), (1, 1));
    assert!(a.get(&key).unwrap().same(b.get(&key).unwrap()));
    assert_eq!(a.get(&key).unwrap().backends.len(), 2);
    // A slice of another service, or of another namespace, changes nothing.
    let other = |ns: &str, name: &str| {
        let ready = vec![endpoint("10.244.0.9", Some(true), Some("Pod"))];
        slice(ns, name, ready, vec![(None, 8080)])
    };
    let all = [other("default", "db"), one(), other("prod", "web"), two()];
    let c = build_desired(&svcs, &all, None);
    assert_eq!(c.len(), 1);
    assert!(a.get(&key).unwrap().same(c.get(&key).unwrap()));
}

#[test]
fn nodeport_adds_a_node_ip_frontend() {
    let mut sp = sport(None, 80, "TCP");
    sp.node_port = Some(31000);
    let svcs = vec![service(
        "default",
        "web",
        "10.96.0.10",
        vec![sp],
        Some("NodePort"),
    )];
    let slices = vec![slice(
        "default",
        "web",
        vec![endpoint("10.244.0.2", Some(true), Some("Pod"))],
        vec![(None, 8080)],
    )];
    let node = ip("172.18.0.2");
    let desired = build_desired(&svcs, &slices, Some(node));
    // ClusterIP frontend + node-IP:nodePort frontend, same backend.
    let cluster = &desired.get(&(ip("10.96.0.10"), 80, TCP)).unwrap().backends;
    let np = &desired.get(&(node, 31000, TCP)).unwrap().backends;
    assert!(cluster.same(np));
    // A ClientIP-affinity service carries the flag through both frontends.
    let mut sp2 = sport(None, 80, "TCP");
    sp2.node_port = Some(31001);
    let mut aff_svc = service("default", "web", "10.96.0.11", vec![sp2], Some("NodePort"));
    aff_svc.spec.as_mut().unwrap().session_affinity = Some("ClientIP".into());
    let aff = build_desired(&[aff_svc], &slices, Some(node));
    assert!((0..aff.len()).all(|i| aff.value(i).affinity));
    assert!(np.has(&(ip("10.244.0.2"), 8080)));
    // Without a known node IP, only the ClusterIP frontend is emitted.
    assert_eq!(build_desired(&svcs, &slices, None).len(), 1);
}

#[test]
fn programs_host_network_backend_skips_not_ready() {
    let svcs = vec![service(
        "default",
        "kubernetes",
        "10.96.0.1",
        vec![sport(Some("https"), 443, "TCP")],
        None,
    )];
    let slices = vec![slice(
        "default",
        "kubernetes",
        vec![
            endpoint("172.18.0.2", Some(true), None), // API server: host-network, no Pod ref
            endpoint("172.18.0.3", Some(false), None), // not ready — dropped
        ],
        vec![(Some("https"), 6443)],
    )];
    let desired = build_desired(&svcs, &slices, None);
    // The host-network backend IS programmed (the egress reverse-NAT makes its
    // reply return through the data plane).
    let key = (ip("10.96.0.1"), 443u16, TCP);
    let backends = &desired.get(&key).unwrap().backends;
    assert_eq!(backends.len(), 1);
    assert!(backends.has(&(ip("172.18.0.2"), 6443)));
}

#[test]
fn resolves_named_ports_per_slice() {
    let svcs = vec![service(
        "prod",
        "api",
        "10.96.1.1",
        vec![
            sport(Some("http"), 80, "TCP"),
            sport(Some("metrics"), 9100, "TCP"),
        ],
        None,
    )];
    let slices = vec![slice(
        "prod",
        "api",
        vec![endpoint("10.244.1.5", Some(true), Some("Pod"))],
        vec![(Some("http"), 8080), (Some("metrics"), 19100)],
    )];
    let desired = build_desired(&svcs, &slices, None);
    let http = &desired.get(&(ip("10.96.1.1"), 80, TCP)).unwrap().backends;
    assert!(http.has(&(ip("10.244.1.5"), 8080)));
    let metrics = &desired.get(&(ip("10.96.1.1"), 9100, TCP)).unwrap().backends;
    assert!(metrics.has(&(ip("10.244.1.5"), 19100)));
}

#[test]
fn skips_headless_and_external_name() {
    let svcs = vec![
        service("default", "hl", "None", vec![sport(None, 80, "TCP")], None),
        service(
            "default",
            "ext",
            "",
            vec![sport(None, 80, "TCP")],
            Some("ExternalName"),
        ),
    ];
    assert!(build_desired(&svcs, &[], None).is_empty());
}

#[test]
fn svc_id_stable_and_nonzero() {
    let key = (ip("10.96.0.10"), 80u16, TCP);
    assert_eq!(svc_id(&key), svc_id(&key));
    assert_ne!(svc_id(&key), 0);
}

#[test]
fn svc_id_is_the_hash_of_the_key_text() {
    let mut h: u32 = 0x811c_9dc5;
    for b in "10.96.0.10:80/6".bytes() {
        h = (h ^ b as u32).wrapping_mul(0x0100_0193);
    }
    assert_eq!(svc_id(&(ip("10.96.0.10"), 80, TCP)), h);
}

#[test]
fn unusable_ports_and_slices_are_skipped() {
    let ready = || vec![endpoint("10.244.0.2", Some(true), None)];
    let slices = vec![slice("default", "web", ready(), vec![(None, 8080)])];
    let built = |ports: Vec<ServicePort>, s: &[EndpointSlice]| {
        build_desired(&[service("default", "web", "10.96.0.10", ports, None)], s, None).len()
    };
    assert_eq!(built(vec![sport(None, 80, "TCP")], &slices), 1);
    assert_eq!(built(vec![sport(None, 80, "SCTP")], &slices), 0);
    assert_eq!(built(vec![sport(None, 0, "TCP")], &slices), 0);
    assert_eq!(built(vec![sport(None, 70000, "TCP")], &slices), 0);
    // No slice port of the protocol.
    assert_eq!(built(vec![sport(None, 80, "UDP")], &slices), 0);
    // Another namespace, another address type, another service, a port
    // number that does not fit.
    let other = vec![slice("prod", "web", ready(), vec![(None, 8080)])];
    assert_eq!(built(vec![sport(None, 80, "TCP")], &other), 0);
    let mut v6 = slice("default", "web", ready(), vec![(None, 8080)]);
    v6.address_type = "IPv6".to_string();
    assert_eq!(built(vec![sport(None, 80, "TCP")], &[v6]), 0);
    let api = vec![slice("default", "api", ready(), vec![(None, 8080)])];
    assert_eq!(built(vec![sport(None, 80, "TCP")], &api), 0);
    let big = vec![slice("default", "web", ready(), vec![(None, 70000)])];
    assert_eq!(built(vec![sport(None, 80, "TCP")], &big), 0);
    // An address that is no IPv4 address is no backend.
    let bad = vec![slice(
        "default",
        "web",
        vec![endpoint("fd00::1", Some(true), None)],
        vec![(None, 8080)],
    )];
    assert_eq!(built(vec![sport(None, 80, "TCP")], &bad), 0);
    assert_eq!(parse_proto(&None), Some(TCP));
    assert_eq!(parse_proto(&Some("UDP".to_string())), Some(UDP));
    assert_eq!(parse_proto(&Some("SCTP".to_string())), None);
    assert!(name_eq(&None, &Some(String::new())));
    assert!(!name_eq(&None, &Some("x".to_string())));
    assert_eq!(proto_str(UDP), "udp");
    assert_eq!(proto_str(TCP), "tcp");
}

fn svc(backends: &[(&str, u16)], affinity: bool) -> Svc {
    let mut s = Svc { backends: cradle::ordmap::OrdSet::new(), affinity };
    for (a, p) in backends {
        s.backends.insert((ip(a), *p));
    }
    s
}

#[test]
fn rounds_push_the_difference_and_converge() {
    let a: Key = (ip("10.96.0.1"), 443, TCP);
    let b: Key = (ip("10.96.0.2"), 53, UDP);
    let c: Key = (ip("10.96.0.3"), 80, TCP);
    let mut desired = OrdMap::new();
    desired.insert(b, svc(&[("10.0.0.9", 53), ("10.0.0.10", 53)], true));
    desired.insert(a, svc(&[("172.18.0.2", 6443)], false));
    let mut programmed = Programmed::new();
    programmed.added(c, &svc(&[("10.0.0.1", 80)], false));
    let plan = apply(&programmed, &desired);
    assert_eq!(plan.adds.iter().map(|x| x.0).collect::<Vec<Key>>(), vec![a, b]);
    assert_eq!(plan.dels.iter().map(|x| x.0).collect::<Vec<Key>>(), vec![c]);
    let add = &plan.adds[1].1;
    assert_eq!(add.vip, "10.96.0.2");
    assert_eq!(add.port, 53);
    assert_eq!(add.proto, "udp");
    assert!(add.affinity);
    assert_eq!(add.svc_id, svc_id(&b));
    let ips: Vec<&str> = add.backends.iter().map(|x| x.ip.as_str()).collect();
    assert_eq!(ips, vec!["10.0.0.9", "10.0.0.10"]);
    assert_eq!(add.backends[0].port, 53);
    assert_eq!(plan.dels[0].1.vip, "10.96.0.3");
    assert_eq!(plan.dels[0].1.proto, "tcp");
    // A round broken off after the first service resumes with the rest.
    programmed.added(a, desired.get(&a).unwrap());
    let rest = apply(&programmed, &desired);
    assert_eq!(rest.adds.iter().map(|x| x.0).collect::<Vec<Key>>(), vec![b]);
    programmed.added(b, desired.get(&b).unwrap());
    programmed.removed(c);
    let done = apply(&programmed, &desired);
    assert!(done.adds.is_empty() && done.dels.is_empty());
    // A resync pushes everything again.
    programmed.forget();
    assert_eq!(apply(&programmed, &desired).adds.len(), 2);
    // A changed backend set is pushed again.
    programmed.added(a, &svc(&[("172.18.0.9", 6443)], false));
    programmed.added(b, desired.get(&b).unwrap());
    assert_eq!(apply(&programmed, &desired).adds.len(), 1);
}

// ------------------------------------------------------------------- objects

fn ep(pod: &str, ns: &str, ip: &str, ifindex: u32) -> CniEndpoint {
    CniEndpoint {
        container_id: format!("{pod}-cid"),
        ifname: "eth0".into(),
        netns: String::new(),
        host_if: "lxc1".into(),
        host_ifindex: ifindex,
        ip: ip.into(),
        ip6: String::new(),
        vrf_id: 0,
        pod_name: pod.into(),
        pod_namespace: ns.into(),
        chained: false,
    }
}

#[test]
fn cep_carries_printer_columns() {
    let obj = cep_object(
        "node1",
        "10.1.1.1",
        &ep("web-abc", "default", "10.244.0.2", 42),
    );
    let status = obj.get("status").unwrap();
    assert_eq!(text(status.get("state")), "ready");
    let networking = status.get("networking").unwrap();
    assert_eq!(
        text(networking.get("addressing").unwrap().at(0).unwrap().get("ipv4")),
        "10.244.0.2"
    );
    assert_eq!(text(networking.get("node")), "10.1.1.1");
    assert!(matches!(status.get("id"), Some(Json::Number(42))));
    let metadata = obj.get("metadata").unwrap();
    assert_eq!(text(metadata.get("namespace")), "default");
    assert_eq!(text(metadata.get("labels").unwrap().get(NODE_LABEL)), "node1");
}

#[test]
fn desired_skips_non_kubernetes_endpoints() {
    let eps = vec![
        ep("web-abc", "default", "10.244.0.2", 40),
        ep("", "", "10.244.0.3", 41), // no pod identity: manual attach
    ];
    let desired = desired_ceps("node1", "", &eps);
    assert_eq!(desired.len(), 1);
    assert!(desired.has(&("default".to_string(), "web-abc".to_string())));
}

#[test]
fn cilium_node_shape() {
    let obj = cilium_node_object("node1", "10.1.1.1", "10.244.0.0/24");
    let spec = obj.get("spec").unwrap();
    assert_eq!(
        text(spec.get("ipam").unwrap().get("podCIDRs").unwrap().at(0)),
        "10.244.0.0/24"
    );
    assert_eq!(
        text(spec.get("addresses").unwrap().at(0).unwrap().get("type")),
        "InternalIP"
    );
}

#[test]
fn unknown_addresses_are_left_out() {
    let obj = cilium_node_object("node1", "", "");
    let spec = obj.get("spec").unwrap();
    assert!(spec.get("addresses").unwrap().at(0).is_none());
    assert!(spec.get("ipam").unwrap().get("podCIDRs").unwrap().at(0).is_none());
    let cep = cep_object("n", "", &ep("p", "d", "10.0.0.1", 1));
    assert!(cep.get("status").unwrap().get("networking").unwrap().get("node").is_none());
    assert_eq!(text(cep.get("kind")), "CiliumEndpoint");
    assert_eq!(text(cep.get("apiVersion")), "cilium.io/v2");
}

#[test]
fn stale_objects_are_swept() {
    let eps = vec![ep("web", "default", "10.0.0.1", 1)];
    let round = publish("node1", "10.1.1.1", "10.244.0.0/24", &eps, &OrdMap::new());
    let listed = vec![
        ("default".to_string(), "gone".to_string()),
        ("default".to_string(), "web".to_string()),
    ];
    assert_eq!(
        stale_ceps(&round.ceps, &listed),
        vec![("default".to_string(), "gone".to_string())]
    );
    assert_eq!(text(round.node.get("kind")), "CiliumNode");
    assert_eq!(node_selector("node1"), "cradle.io/node=node1");
}

#[test]
fn identities_are_recorded_and_resolved() {
    let web = labels(&[("app", "web")]);
    let obj = cid_object(256, "default", &web);
    assert_eq!(text(obj.get("metadata").unwrap().get("name")), "256");
    let sl = obj.get("security-labels").unwrap();
    assert_eq!(text(sl.get("k8s:app")), "web");
    assert_eq!(text(sl.get("k8s:io.kubernetes.pod.namespace")), "default");
    let pods = vec![pod(Some("default"), "web-1", &[("app", "web")], None)];
    let eps = vec![attached("default", "web-1"), attached("default", "unseen")];
    let m = build_cep_identities(&pods, &Alloc::new(), &eps);
    assert_eq!(m.len(), 1);
    let one = m.get(&("default".to_string(), "web-1".to_string())).unwrap();
    assert_eq!(one.id, identity("default", &web));
    assert_eq!(
        one.labels,
        vec!["k8s:io.kubernetes.pod.namespace=default".to_string(), "k8s:app=web".to_string()]
    );
    // The published object carries the identity where it is known.
    let round = publish("node1", "", "", &eps, &m);
    let status = |name: &str| {
        let key = ("default".to_string(), name.to_string());
        round.ceps.get(&key).unwrap().get("status").unwrap()
    };
    let id = status("web-1").get("identity").unwrap();
    assert!(matches!(id.get("id"), Some(Json::Number(n)) if *n == one.id));
    assert_eq!(text(id.get("labels").unwrap().at(1)), "k8s:app=web");
    assert!(status("unseen").get("identity").is_none());
}

// ---------------------------------------------------------------------- node

fn node(cidrs: &[&str], cidr: Option<&str>) -> Node {
    Node {
        pod_cidr: cidr.map(String::from),
        pod_cidrs: cidrs.iter().map(|s| s.to_string()).collect(),
        addresses: vec![
            NodeAddress { type_: "Hostname".to_string(), address: "n".to_string() },
            NodeAddress { type_: "InternalIP".to_string(), address: "172.18.0.2".to_string() },
        ],
    }
}

#[test]
fn cni_conf_renders_once_the_range_is_known() {
    assert!(render_cni_conf(&node(&[], None), "unix:/s").is_none());
    assert!(render_cni_conf(&node(&["fd00::/64"], Some("fd00::/64")), "unix:/s").is_none());
    let conf = render_cni_conf(&node(&["fd00::/64", "10.244.0.0/24"], None), "unix:/s").unwrap();
    let plugin = conf.get("plugins").unwrap().at(0).unwrap();
    assert_eq!(text(conf.get("cniVersion")), "1.0.0");
    assert_eq!(text(plugin.get("type")), "cradle-cni");
    assert_eq!(text(plugin.get("grpcEndpoint")), "unix:/s");
    assert_eq!(text(plugin.get("nodeIP")), "172.18.0.2");
    assert!(matches!(
        plugin.get("capabilities").unwrap().get("portMappings"),
        Some(Json::Bool(true))
    ));
    assert_eq!(text(plugin.get("ipam").unwrap().get("subnet")), "10.244.0.0/24");
    assert_eq!(text(plugin.get("ipam").unwrap().get("subnet6")), "fd00::/64");
    let single = render_cni_conf(&node(&[], Some("10.244.1.0/24")), "unix:/s").unwrap();
    let ipam = single.get("plugins").unwrap().at(0).unwrap().get("ipam").unwrap();
    assert_eq!(text(ipam.get("subnet")), "10.244.1.0/24");
    assert!(ipam.get("subnet6").is_none());
    assert_eq!(pod_range4(&node(&[], Some("10.244.1.0/24"))).unwrap(), "10.244.1.0/24");
}

#[test]
fn node_addresses_are_found() {
    let n = node(&[], None);
    assert_eq!(node_internal_ip(&n), Some(ip("172.18.0.2")));
    assert_eq!(node_address(&n), "172.18.0.2");
    let none = Node { pod_cidr: None, pod_cidrs: vec![], addresses: vec![] };
    assert_eq!(node_internal_ip(&none), None);
    assert_eq!(node_address(&none), "");
}

#[test]
fn endpoints_become_uris() {
    assert_eq!(connect_uri("unix:/run/x.sock"), "unix:/run/x.sock");
    assert_eq!(connect_uri("tcp:host:50051"), "http://host:50051");
    assert_eq!(connect_uri("host:50051"), "http://host:50051");
    assert_eq!(resync_period(30), 30);
    assert_eq!(resync_period(1), 5);
}

#[test]
fn loops_reconnect_after_failures() {
    assert_eq!(next_policy_step(PolicyStep::Wait, false, true), (PolicyStep::List, false));
    assert_eq!(next_policy_step(PolicyStep::List, false, true), (PolicyStep::Connect, false));
    assert_eq!(next_policy_step(PolicyStep::List, true, true), (PolicyStep::Allocate, true));
    assert_eq!(next_policy_step(PolicyStep::List, true, false), (PolicyStep::Wait, true));
    // Identity and policy listings degrade instead of failing the round.
    assert_eq!(next_policy_step(PolicyStep::Allocate, true, false), (PolicyStep::Cilium, true));
    assert_eq!(next_policy_step(PolicyStep::Cilium, true, false), (PolicyStep::Endpoints, true));
    assert_eq!(next_policy_step(PolicyStep::Push, true, false), (PolicyStep::Wait, false));
    assert_eq!(
        next_publish_step(PublishStep::Endpoints, true, false, true),
        (PublishStep::Wait, false)
    );
    assert_eq!(
        next_publish_step(PublishStep::Publish, true, false, false),
        (PublishStep::Wait, true)
    );
    // Identities are collected after the publication, if at all.
    assert_eq!(
        next_publish_step(PublishStep::Publish, true, false, true),
        (PublishStep::Collect, true)
    );
    assert_eq!(
        next_publish_step(PublishStep::Collect, true, false, true),
        (PublishStep::Wait, true)
    );
    assert_eq!(next_sync_step(SyncStep::Wait, true, false), (SyncStep::Forget, true));
    assert_eq!(next_sync_step(SyncStep::Apply, true, false), (SyncStep::Wait, false));
    assert_eq!(next_sync_step(SyncStep::Address, false, false), (SyncStep::Connect, false));
}

// --------------------------------------------------------------------- texts

#[test]
fn numbers_are_read_and_written() {
    assert_eq!(fmt_u32(0), "0");
    assert_eq!(fmt_u32(4294967295), "4294967295");
    assert_eq!(fmt_hex(0xab, 4), "00ab");
    assert_eq!(fmt_hex(0x1234_5678, 4), "5678");
    assert_eq!(parse_number("65535", 65535), Some(65535));
    assert_eq!(parse_number("65536", 65535), None);
    assert_eq!(parse_number("007", 65535), Some(7));
    assert_eq!(parse_number("+1", 65535), Some(1));
    assert_eq!(parse_number("-1", 65535), None);
    assert_eq!(parse_number("", 65535), None);
    assert_eq!(parse_number("+", 65535), None);
    assert_eq!(parse_number("1a", 65535), None);
    assert_eq!(parse_number("99999999999", 4294967295), None);
}

#[test]
fn addresses_are_read_and_written() {
    assert_eq!(parse_ip4("0.0.0.0"), Some(0));
    assert_eq!(parse_ip4("10.244.0.2"), Some(0x0af4_0002));
    assert_eq!(parse_ip4("255.255.255.255"), Some(0xffff_ffff));
    assert_eq!(parse_ip4("100.99.9.0"), Some(0x6463_0900));
    assert_eq!(fmt_ip4(0x0af4_0002), "10.244.0.2");
    assert_eq!(fmt_ip4(0xffff_ffff), "255.255.255.255");
    for s in [
        "1.2.3", "1.2.3.4.5", "256.1.1.1", "01.2.3.4", "1.2.3.4 ", "", "None", "1..2.3",
        "+1.2.3.4", "a.b.c.d", "1.2.3.1000", "1.2.3.00",
    ] {
        assert_eq!(parse_ip4(s), None, "{}", s);
    }
}

#[test]
fn maps_keep_their_keys_in_order() {
    let l = labels(&[("b", "1"), ("a", "2"), ("ab", "3"), ("b", "4"), ("é", "5"), ("z", "6")]);
    let keys: Vec<&str> = (0..l.len()).map(|i| l.key(i).as_str()).collect();
    assert_eq!(keys, vec!["a", "ab", "b", "z", "é"]);
    assert_eq!(l.get(&"b".to_string()).unwrap(), "4");
    assert!(l.get(&"c".to_string()).is_none());
    let mut m = labels(&[("x", "1"), ("y", "2")]);
    m.remove(&"x".to_string());
    m.remove(&"nothing".to_string());
    assert_eq!(m.len(), 1);
    assert!(!m.has(&"x".to_string()) && m.has(&"y".to_string()));
}
