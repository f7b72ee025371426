//! What the node programs: laws that say, in terms of their inputs, what the
//! daemon is told and what a pod's attachment is.

use vstd::prelude::*;
use crate::admission;
use crate::cni;
use crate::cni::{AttachmentView, CniEnvView, NetConfView};
use crate::cnp::EndpointRules;
use crate::controller;
use crate::digits;
use crate::messages::{
    CidrIdentityView, CniEndpointView, EndpointPolicyView, PolicyRule,
};
use crate::objects::{NodeAddressView, NodeView};
use crate::rounds;
use crate::rounds::{PolicyStep, PublishStep, SyncStep};
use crate::sync::{Key, SvcView};
use crate::text;

verus! {

// ---------------------------------- policies --------------------------------

/// Merging adds to a pod's policy what its other policies say, direction by
/// direction. A direction that they do not speak of stays as it was; one that
/// they newly enforce admits the node first.
pub proof fn merging_adds_rules(np: EndpointPolicyView, r: EndpointRules, e: PolicyRule)
    ensures
        ({
            let m = controller::merged(np, r);
            let node = admission::entry(1, 0, 0, false);
            &&& m.host_if == np.host_if && m.pod_name == np.pod_name && m.pod_namespace
                == np.pod_namespace
            &&& m.enforce <==> np.enforce || r.any_in
            &&& m.enforce_egress <==> np.enforce_egress || r.any_eg
            &&& !r.any_in ==> m.rules == np.rules
            &&& !r.any_eg ==> m.egress_rules == np.egress_rules
            &&& r.any_in ==> (m.rules.contains(e) <==> np.rules.contains(e) || r.ingress.contains(e)
                || (!np.enforce && e == node))
            &&& r.any_eg ==> (m.egress_rules.contains(e) <==> np.egress_rules.contains(e)
                || r.egress.contains(e) || (!np.enforce_egress && e == node))
        }),
{
    let node = admission::entry(1, 0, 0, false);
    either(np.rules, r.ingress, e);
    either(np.rules, seq![node], e);
    either(np.rules + seq![node], r.ingress, e);
    either(np.egress_rules, r.egress, e);
    either(np.egress_rules, seq![node], e);
    either(np.egress_rules + seq![node], r.egress, e);
    assert(seq![node][0] == node);
    assert(seq![node].contains(e) <==> e == node);
}

proof fn either<T>(a: Seq<T>, b: Seq<T>, x: T)
    ensures
        (a + b).contains(x) <==> a.contains(x) || b.contains(x),
{
    if a.contains(x) {
        assert((a + b)[a.index_of(x)] == x);
    }
    if b.contains(x) {
        assert((a + b)[a.len() + b.index_of(x)] == x);
    }
    if (a + b).contains(x) {
        let k = (a + b).index_of(x);
        if k < a.len() {
            assert(a[k] == x);
        } else {
            assert(b[k - a.len()] == x);
        }
    }
}

/// Where enforcement is switched off nothing is enforced; where it is always on, a
/// direction without a policy admits the node alone; else policies decide.
pub proof fn mode_overrides_policies(p: EndpointPolicyView, mode: Seq<char>)
    ensures
        ({
            let r = controller::under_mode(p, mode);
            let node = seq![admission::entry(1, 0, 0, false)];
            &&& r.host_if == p.host_if && r.pod_name == p.pod_name && r.pod_namespace
                == p.pod_namespace
            &&& mode == "never"@ ==> !r.enforce && !r.enforce_egress && r.rules.len() == 0
                && r.egress_rules.len() == 0
            &&& mode == "always"@ ==> r.enforce && r.enforce_egress && r.rules == (if p.enforce {
                p.rules
            } else {
                node
            }) && r.egress_rules == (if p.enforce_egress {
                p.egress_rules
            } else {
                node
            })
            &&& mode != "never"@ && mode != "always"@ ==> r == p
        }),
{
    reveal_strlit("never");
    reveal_strlit("always");
    assert("never"@.len() != "always"@.len());
}

/// Each range that is no longer wanted is taken back, and no other; each wanted one
/// is set, in the global table.
pub proof fn ranges_are_set_and_taken_back(
    last: Seq<(Seq<char>, u32)>,
    cidrs: Seq<(Seq<char>, u32)>,
    cidr: Seq<char>,
    id: u32,
)
    ensures
        ({
            let gone = CidrIdentityView { cidr, identity: id, del: true, vrf_id: 0 };
            controller::vanished(last, cidrs).contains(gone) <==> last.contains((cidr, id))
                && forall|i: int| 0 <= i < cidrs.len() ==> (#[trigger] cidrs[i]).0 != cidr
        }),
        ({
            let set = CidrIdentityView { cidr, identity: id, del: false, vrf_id: 0 };
            &&& controller::set_ranges(cidrs).len() == cidrs.len()
            &&& controller::set_ranges(cidrs).contains(set) <==> cidrs.contains((cidr, id))
        }),
    decreases last.len(),
{
    let set = CidrIdentityView { cidr, identity: id, del: false, vrf_id: 0 };
    let s = controller::set_ranges(cidrs);
    if s.contains(set) {
        assert(cidrs[s.index_of(set)] == (cidr, id));
    }
    if cidrs.contains((cidr, id)) {
        assert(s[cidrs.index_of((cidr, id))] == set);
    }
    if last.len() > 0 {
        let rest = last.drop_last();
        let e = last.last();
        ranges_are_set_and_taken_back(rest, cidrs, cidr, id);
        let gone = CidrIdentityView { cidr, identity: id, del: true, vrf_id: 0 };
        let one = CidrIdentityView { cidr: e.0, identity: e.1, del: true, vrf_id: 0 };
        either(controller::vanished(rest, cidrs), seq![one], gone);
        assert(controller::vanished(rest, cidrs).push(one) =~= controller::vanished(rest, cidrs)
            + seq![one]);
        assert(seq![one][0] == one);
        assert(last[last.len() - 1] == e);
        if rest.contains((cidr, id)) {
            assert(last[rest.index_of((cidr, id))] == (cidr, id));
        }
        if last.contains((cidr, id)) {
            let k = last.index_of((cidr, id));
            assert(k < rest.len() ==> rest[k] == (cidr, id));
        }
    }
}

/// A service is announced with its own address, port and protocol, the key's, and
/// with its backends, one for each.
pub proof fn announcement_tells_the_service(key: Key, svc: SvcView, i: int)
    ensures
        ({
            let a = controller::add_view(key, svc);
            let d = controller::del_view(key);
            let items = crate::ordmap::items_of::<(u32, u16)>(svc.backends);
            let proto = if key.2 == 17 {
                "udp"@
            } else {
                "tcp"@
            };
            &&& a.vip == digits::ip4_text(key.0) && a.port == key.1 && a.proto == proto
            &&& a.svc_id == crate::sync::svc_id_spec(key)
            &&& a.affinity == svc.affinity
            &&& a.backends.len() == items.len()
            &&& 0 <= i < items.len() ==> a.backends[i].ip == digits::ip4_text(items[i].0)
                && a.backends[i].port == items[i].1
            &&& d.vip == a.vip && d.port == a.port && d.proto == a.proto
        }),
{
}

/// Announcing adds the announced services as they are wanted; withdrawing removes
/// the withdrawn ones; all others stay.
pub proof fn programming_changes_the_named_keys(
    p: Map<Key, SvcView>,
    d: Map<Key, SvcView>,
    keys: Seq<Key>,
    k: Key,
)
    ensures
        keys.contains(k) ==> controller::after_adds(p, d, keys).get(k) == Some(d[k]),
        !keys.contains(k) ==> controller::after_adds(p, d, keys).get(k) == p.get(k),
        keys.contains(k) ==> controller::after_dels(p, keys).get(k) is None,
        !keys.contains(k) ==> controller::after_dels(p, keys).get(k) == p.get(k),
    decreases keys.len(),
{
    if keys.len() > 0 {
        let rest = keys.drop_last();
        programming_changes_the_named_keys(p, d, rest, k);
        assert(keys[keys.len() - 1] == keys.last());
        if rest.contains(k) {
            assert(keys[rest.index_of(k)] == k);
        }
        if keys.contains(k) {
            let i = keys.index_of(k);
            assert(i < rest.len() ==> rest[i] == k);
        }
    }
}

// ----------------------------------- the node -------------------------------

/// A node's address is the first internal one of its list.
pub proof fn node_address_is_the_first_internal(addrs: Seq<NodeAddressView>, at: int)
    requires
        0 <= at <= addrs.len(),
        forall|i: int| 0 <= i < at ==> (#[trigger] addrs[i]).type_ != "InternalIP"@,
        at < addrs.len() ==> addrs[at].type_ == "InternalIP"@,
    ensures
        at == addrs.len() ==> controller::internal_ip(addrs) is None,
        at < addrs.len() ==> controller::internal_ip(addrs) == Some(addrs[at].address),
    decreases at,
{
    if at > 0 {
        assert(addrs[0].type_ != "InternalIP"@);
        let rest = addrs.skip(1);
        assert forall|i: int| 0 <= i < at - 1 implies (#[trigger] rest[i]).type_
            != "InternalIP"@ by {
            assert(rest[i] == addrs[i + 1]);
        }
        node_address_is_the_first_internal(rest, at - 1);
    }
}

/// A family's range is the first of the node's ranges that is written with the
/// family's mark.
pub proof fn range_is_the_first_of_its_family(ranges: Seq<Seq<char>>, c: char, at: int)
    requires
        0 <= at <= ranges.len(),
        forall|i: int| 0 <= i < at ==> !(#[trigger] ranges[i]).contains(c),
        at < ranges.len() ==> ranges[at].contains(c),
    ensures
        at == ranges.len() ==> controller::first_with(ranges, c) is None,
        at < ranges.len() ==> controller::first_with(ranges, c) == Some(ranges[at]),
    decreases at,
{
    if at > 0 {
        assert(!ranges[0].contains(c));
        let rest = ranges.skip(1);
        assert forall|i: int| 0 <= i < at - 1 implies !(#[trigger] rest[i]).contains(c) by {
            assert(rest[i] == ranges[i + 1]);
        }
        range_is_the_first_of_its_family(rest, c, at - 1);
    }
}

/// A node's IPv4 range is the first of its list, else its single one if that is of
/// IPv4; a node without one gets no configuration.
pub proof fn node_range_is_ipv4(node: NodeView, grpc: Seq<char>)
    ensures
        controller::first_with(node.pod_cidrs, '.') matches Some(c) ==> controller::range4(node)
            == Some(c),
        controller::first_with(node.pod_cidrs, '.') is None ==> match node.pod_cidr {
            Some(c) => if c.contains('.') {
                controller::range4(node) == Some(c)
            } else {
                controller::range4(node) is None
            },
            None => controller::range4(node) is None,
        },
        controller::conf_doc(node, grpc) is None <==> controller::range4(node) is None,
{
}

/// An endpoint that names a socket is kept; any other is reached over HTTP, without
/// the mark of the transport.
pub proof fn endpoint_becomes_a_uri(rest: Seq<char>, ep: Seq<char>)
    ensures
        controller::uri_of("unix:"@ + rest) == "unix:"@ + rest,
        controller::uri_of("tcp:"@ + rest) == "http://"@ + rest,
        !"unix:"@.is_prefix_of(ep) && !"tcp:"@.is_prefix_of(ep) ==> controller::uri_of(ep)
            == "http://"@ + ep,
{
    reveal_strlit("unix:");
    reveal_strlit("tcp:");
    assert("unix:"@.is_prefix_of("unix:"@ + rest));
    assert("tcp:"@.is_prefix_of("tcp:"@ + rest));
    assert(("tcp:"@ + rest)[0] == 't');
    assert("unix:"@[0] == 'u');
    if "unix:"@.is_prefix_of("tcp:"@ + rest) {
        assert(("tcp:"@ + rest).subrange(0, 5)[0] == "unix:"@[0]);
    }
    assert(("tcp:"@ + rest).skip(4) =~= rest);
}

// --------------------------------- attachments ------------------------------

/// An argument's value is that of the first pair with its name; without one it is
/// empty.
pub proof fn argument_is_the_first_named(pairs: Seq<Seq<char>>, key: Seq<char>, at: int)
    requires
        0 <= at <= pairs.len(),
        forall|i: int|
            0 <= i < at ==> (text::cut(#[trigger] pairs[i], '=') matches Some(kv) ==> kv.0 != key),
        at < pairs.len() ==> (text::cut(pairs[at], '=') matches Some(kv) && kv.0 == key),
    ensures
        at == pairs.len() ==> cni::value_in(pairs, key).len() == 0,
        at < pairs.len() ==> (text::cut(pairs[at], '=') matches Some(kv) && cni::value_in(pairs, key)
            == kv.1),
    decreases at,
{
    if at > 0 {
        let first = pairs[0];
        assert(text::cut(first, '=') matches Some(kv) ==> kv.0 != key);
        let rest = pairs.skip(1);
        assert forall|i: int| 0 <= i < at - 1 implies (text::cut(#[trigger] rest[i], '=') matches Some(
            kv,
        ) ==> kv.0 != key) by {
            assert(rest[i] == pairs[i + 1]);
        }
        argument_is_the_first_named(rest, key, at - 1);
    }
}

/// A cut is at the first mark: the text is what stands before it, the mark, and
/// what stands behind; without a mark there is none.
pub proof fn cut_is_at_the_first_mark(s: Seq<char>, c: char)
    ensures
        match text::cut(s, c) {
            Some((a, b)) => s == a.push(c) + b && !a.contains(c),
            None => !s.contains(c),
        },
{
    first_mark(s, c);
    let p = text::first_at(s, c);
    if p < s.len() {
        assert(s =~= s.take(p).push(c) + s.skip(p + 1));
        assert forall|i: int| 0 <= i < p implies s.take(p)[i] != c by {}
    }
}

proof fn first_mark(s: Seq<char>, c: char)
    ensures
        0 <= text::first_at(s, c) <= s.len(),
        text::first_at(s, c) < s.len() ==> s[text::first_at(s, c)] == c,
        forall|i: int| 0 <= i < text::first_at(s, c) ==> s[i] != c,
    decreases s.len(),
{
    if s.len() > 0 {
        first_mark(s.drop_last(), c);
        assert forall|i: int| 0 <= i < s.len() - 1 implies s.drop_last()[i] == s[i] by {}
    }
}

/// A call's environment must name its container and interface, and, where the verb
/// needs it, its network namespace, each by more than nothing; what is missing
/// first is reported.
pub proof fn environment_must_be_named(name: Seq<char>, value: Option<Seq<char>>)
    ensures
        (value matches Some(v) && v.len() > 0) ==> cni::required(name, value) == Ok::<
            Seq<char>,
            cni::CodedView,
        >(value->0),
        !(value matches Some(v) && v.len() > 0) ==> (cni::required(name, value) matches Err(e)
            && e.code == 4 && e.msg == "required env "@ + name + " missing"@),
{
}

/// A named network namespace is one right under either of the two directories.
pub proof fn namespace_is_named(name: Seq<char>, path: Seq<char>)
    requires
        name.len() > 0,
        !name.contains('/'),
    ensures
        cni::netns_of("/var/run/netns/"@ + name) == Some(name),
        cni::netns_of("/run/netns/"@ + name) == Some(name),
        cni::netns_of(path) matches Some(n) ==> n.len() > 0 && !n.contains('/') && (path
            == "/var/run/netns/"@ + n || path == "/run/netns/"@ + n),
{
    reveal_strlit("/var/run/netns/");
    reveal_strlit("/run/netns/");
    let a = "/var/run/netns/"@;
    let b = "/run/netns/"@;
    assert(a.is_prefix_of(a + name));
    assert(b.is_prefix_of(b + name));
    assert((a + name).skip(15) =~= name);
    assert((b + name).skip(11) =~= name);
    if a.is_prefix_of(b + name) {
        assert((b + name).subrange(0, 15)[1] == a[1]);
        assert((b + name)[1] == b[1]);
    }
    if a.is_prefix_of(path) {
        assert(path =~= a + path.skip(15));
    }
    if b.is_prefix_of(path) {
        assert(path =~= b + path.skip(11));
    }
}

/// An attachment is registered with what its call and configuration say and with
/// the addresses it got.
pub proof fn attachment_is_registered(
    env: CniEnvView,
    conf: NetConfView,
    ip: u32,
    ip6: Option<Seq<char>>,
)
    ensures
        ({
            let e = cni::endpoint_of(env, conf, ip, ip6);
            &&& e.container_id == env.container_id && e.ifname == env.ifname && e.netns == env.netns
            &&& e.pod_name == env.pod_name && e.pod_namespace == env.pod_namespace
            &&& e.host_if == cni::host_if_text(env.container_id, env.ifname)
            &&& e.ip == digits::ip4_text(ip)
            &&& ip6 matches Some(a) ==> e.ip6 == a
            &&& ip6 is None ==> e.ip6.len() == 0
            &&& e.vrf_id == conf.vrf && e.chained == conf.chained
        }),
{
}

/// The interface of an attachment is that of the first endpoint of its container
/// and interface name; one that is not registered has none.
pub proof fn attachment_is_found(
    eps: Seq<CniEndpointView>,
    container: Seq<char>,
    ifname: Seq<char>,
    at: int,
)
    requires
        0 <= at <= eps.len(),
        forall|i: int|
            0 <= i < at ==> (#[trigger] eps[i]).container_id != container || eps[i].ifname
                != ifname,
        at < eps.len() ==> eps[at].container_id == container && eps[at].ifname == ifname,
    ensures
        at == eps.len() ==> cni::attached_if(eps, container, ifname) is None,
        at < eps.len() ==> cni::attached_if(eps, container, ifname) == Some(eps[at].host_if),
    decreases at,
{
    if at > 0 {
        assert(eps[0].container_id != container || eps[0].ifname != ifname);
        let rest = eps.skip(1);
        assert forall|i: int| 0 <= i < at - 1 implies (#[trigger] rest[i]).container_id != container
            || rest[i].ifname != ifname by {
            assert(rest[i] == eps[i + 1]);
        }
        attachment_is_found(rest, container, ifname, at - 1);
    }
}

/// An endpoint is still wanted if the runtime lists its container, with its
/// interface name or with none.
pub proof fn listed_attachment_is_wanted(
    valid: Seq<AttachmentView>,
    more: AttachmentView,
    ep: CniEndpointView,
)
    ensures
        !cni::still_valid(Seq::empty(), ep),
        cni::still_valid(valid.push(more), ep) <==> cni::still_valid(valid, ep) || (
        more.container_id == ep.container_id && (more.ifname.len() == 0 || more.ifname
            == ep.ifname)),
{
    let all = valid.push(more);
    if cni::still_valid(valid, ep) {
        let i = choose|i: int|
            0 <= i < valid.len() && (#[trigger] valid[i]).container_id == ep.container_id && (
            valid[i].ifname.len() == 0 || valid[i].ifname == ep.ifname);
        assert(all[i] == valid[i]);
    }
    assert(all[valid.len() as int] == more);
    if cni::still_valid(all, ep) {
        let i = choose|i: int|
            0 <= i < all.len() && (#[trigger] all[i]).container_id == ep.container_id && (
            all[i].ifname.len() == 0 || all[i].ifname == ep.ifname);
        if i < valid.len() {
            assert(valid[i] == all[i]);
        }
    }
}

// ----------------------------------- rounds ---------------------------------

/// A policy round lists, connects if it has to, allocates, reads the cluster's
/// policies, asks for the endpoints and pushes, in this order; a failure that
/// leaves nothing to go on with ends it.
pub proof fn policy_round_runs_in_order(connected: bool, ok: bool)
    ensures
        rounds::after_policy_step(PolicyStep::Wait, connected, ok).0 == PolicyStep::List,
        rounds::after_policy_step(PolicyStep::List, connected, true).0 == (if connected {
            PolicyStep::Allocate
        } else {
            PolicyStep::Connect
        }),
        rounds::after_policy_step(PolicyStep::Connect, connected, true) == (
            PolicyStep::Allocate,
            true,
        ),
        rounds::after_policy_step(PolicyStep::Allocate, connected, ok).0 == PolicyStep::Cilium,
        rounds::after_policy_step(PolicyStep::Cilium, connected, ok).0 == PolicyStep::Endpoints,
        rounds::after_policy_step(PolicyStep::Endpoints, connected, true).0 == PolicyStep::Push,
        rounds::after_policy_step(PolicyStep::Push, connected, ok) == (
            PolicyStep::Wait,
            connected && ok,
        ),
        rounds::after_policy_step(PolicyStep::List, connected, false) == (
            PolicyStep::Wait,
            connected,
        ),
        rounds::after_policy_step(PolicyStep::Connect, connected, false).0 == PolicyStep::Wait,
        rounds::after_policy_step(PolicyStep::Endpoints, connected, false) == (
            PolicyStep::Wait,
            false,
        ),
{
}

/// A publication round publishes the node, connects if it has to, asks for the
/// endpoints, reads identities, publishes them and, where it collects, collects.
pub proof fn publication_round_runs_in_order(connected: bool, ok: bool, collects: bool)
    ensures
        rounds::after_publish_step(PublishStep::Wait, connected, ok, collects).0
            == PublishStep::Node,
        rounds::after_publish_step(PublishStep::Node, connected, true, collects).0 == (
        if connected {
            PublishStep::Endpoints
        } else {
            PublishStep::Connect
        }),
        rounds::after_publish_step(PublishStep::Connect, connected, true, collects) == (
            PublishStep::Endpoints,
            true,
        ),
        rounds::after_publish_step(PublishStep::Endpoints, connected, true, collects).0
            == PublishStep::Identities,
        rounds::after_publish_step(PublishStep::Identities, connected, ok, collects).0
            == PublishStep::Publish,
        rounds::after_publish_step(PublishStep::Publish, connected, ok, collects).0 == (
        if collects {
            PublishStep::Collect
        } else {
            PublishStep::Wait
        }),
        rounds::after_publish_step(PublishStep::Collect, connected, ok, collects).0
            == PublishStep::Wait,
        rounds::after_publish_step(PublishStep::Node, connected, false, collects).0
            == PublishStep::Wait,
        rounds::after_publish_step(PublishStep::Endpoints, connected, false, collects) == (
            PublishStep::Wait,
            false,
        ),
{
}

/// A service round lists, finds the node's address, connects if it has to and
/// applies; a wait that was not for a change forgets what is programmed first.
pub proof fn service_round_runs_in_order(connected: bool, ok: bool)
    ensures
        rounds::after_sync_step(SyncStep::Wait, connected, true).0 == SyncStep::List,
        rounds::after_sync_step(SyncStep::Wait, connected, false).0 == SyncStep::Forget,
        rounds::after_sync_step(SyncStep::Forget, connected, ok).0 == SyncStep::List,
        rounds::after_sync_step(SyncStep::List, connected, true).0 == SyncStep::Address,
        rounds::after_sync_step(SyncStep::List, connected, false) == (SyncStep::Wait, connected),
        rounds::after_sync_step(SyncStep::Address, connected, ok).0 == (if connected {
            SyncStep::Apply
        } else {
            SyncStep::Connect
        }),
        rounds::after_sync_step(SyncStep::Connect, connected, true) == (SyncStep::Apply, true),
        rounds::after_sync_step(SyncStep::Connect, connected, false).0 == SyncStep::Wait,
        rounds::after_sync_step(SyncStep::Apply, connected, ok) == (
            SyncStep::Wait,
            connected && ok,
        ),
{
}

} // verus!
