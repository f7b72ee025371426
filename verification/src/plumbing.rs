//! How attachments are plumbed and objects swept: laws on the commands of a pod's
//! network, on what is taken down, and on what each endpoint is given.

use vstd::prelude::*;
use crate::cep;
use crate::cep::CepIdentityView;
use crate::cni;
use crate::cni::{AttachmentView, CniEnvView, DelActionView, DelStage, PlumbActionView, Plumbing};
use crate::cnp;
use crate::cnp::CnpView;
use crate::controller;
use crate::digits;
use crate::hash;
use crate::identity;
use crate::json::Doc;
use crate::messages::{CniEndpointKeyView, CniEndpointView, IdentityView};
use crate::netpol;
use crate::objects::{NamespaceView, NetworkPolicyView, PodView};
use crate::ordmap;
use crate::sync;
use crate::sync::Key;
use crate::text;

verus! {

// ---------------------------------- plumbing --------------------------------

/// Whether a step runs a command that must succeed.
pub open spec fn runs(s: cni::IpStepView, argv: Seq<Seq<char>>) -> bool {
    s.argv == argv && s.required
}

/// A pod's pair is made afresh: a leftover of its name is removed if there is one,
/// the pair is made, its inner end moved into the namespace under the pod's name,
/// and both ends brought up; the pod gets its address and a default route through
/// the link-local gateway, which is first made reachable on the link.
pub proof fn pair_is_made_and_addressed(env: CniEnvView, ns: Seq<char>, ip: u32)
    ensures
        ({
            let p = cni::link_plan(env, ns, ip);
            let host = cni::host_if_text(env.container_id, env.ifname);
            let tmp = cni::temp_if_text(host);
            let gw = "169.254.1.1"@;
            &&& p.len() == 9
            &&& p[0].argv == seq!["link"@, "del"@, host] && !p[0].required
            &&& runs(
                p[1],
                seq!["link"@, "add"@, host, "type"@, "veth"@, "peer"@, "name"@, tmp],
            )
            &&& runs(p[2], seq!["link"@, "set"@, tmp, "netns"@, ns, "name"@, env.ifname])
            &&& runs(p[3], seq!["link"@, "set"@, host, "up"@])
            &&& runs(p[4], seq!["-n"@, ns, "link"@, "set"@, "lo"@, "up"@])
            &&& runs(
                p[5],
                seq![
                    "-n"@,
                    ns,
                    "addr"@,
                    "add"@,
                    digits::ip4_text(ip) + "/32"@,
                    "dev"@,
                    env.ifname,
                ],
            )
            &&& runs(p[6], seq!["-n"@, ns, "link"@, "set"@, env.ifname, "up"@])
            &&& runs(
                p[7],
                seq![
                    "-n"@,
                    ns,
                    "route"@,
                    "add"@,
                    gw + "/32"@,
                    "dev"@,
                    env.ifname,
                    "scope"@,
                    "link"@,
                ],
            )
            &&& runs(
                p[8],
                seq!["-n"@, ns, "route"@, "add"@, "default"@, "via"@, gw, "dev"@, env.ifname],
            )
        }),
{
}

/// The gateways are pinned to the node's end, whose hardware address answers for
/// them; with an IPv6 address the pod gets that, and a route through its gateway,
/// in between.
pub proof fn gateways_are_pinned(
    ifname: Seq<char>,
    ns: Seq<char>,
    mac: Seq<char>,
    ip6: Option<Seq<char>>,
)
    ensures
        ({
            let p = cni::neighbor_plan(ifname, ns, mac, ip6);
            let gw6 = "fe80::1"@;
            &&& p.len() == if ip6 is Some {
                5nat
            } else {
                1nat
            }
            &&& runs(
                p[0],
                seq![
                    "-n"@,
                    ns,
                    "neigh"@,
                    "replace"@,
                    "169.254.1.1"@,
                    "lladdr"@,
                    mac,
                    "dev"@,
                    ifname,
                    "nud"@,
                    "permanent"@,
                ],
            )
            &&& ip6 matches Some(a) ==> {
                &&& runs(
                    p[1],
                    seq!["-n"@, ns, "addr"@, "add"@, a + "/128"@, "dev"@, ifname, "nodad"@],
                )
                &&& runs(p[2], seq!["-n"@, ns, "route"@, "add"@, gw6, "dev"@, ifname])
                &&& runs(
                    p[3],
                    seq!["-n"@, ns, "route"@, "add"@, "default"@, "via"@, gw6, "dev"@, ifname],
                )
                &&& runs(
                    p[4],
                    seq![
                        "-n"@,
                        ns,
                        "neigh"@,
                        "replace"@,
                        gw6,
                        "lladdr"@,
                        mac,
                        "dev"@,
                        ifname,
                        "nud"@,
                        "permanent"@,
                    ],
                )
            }
        }),
{
}

/// Plumbing runs the pair's commands, reads the node end's hardware address, pins
/// the gateways, registers the endpoint, reads the pod end's hardware address and
/// is done, in this order.
pub proof fn plumbing_runs_in_order(p: Plumbing)
    ensures
        ({
            let n: int = if p.pod_ip6 is Some {
                5
            } else {
                1
            };
            let first = cni::link_plan(p.env@, p.ns@, p.pod_ip);
            let then_ = cni::neighbor_plan(p.env@.ifname, p.ns@, p.host_mac@, text::opt(p.pod_ip6));
            let a = cni::plumb_spec(p);
            &&& p.done < 9 ==> a == PlumbActionView::Run(first[p.done as int])
            &&& p.done == 9 ==> a == PlumbActionView::ReadHostMac(
                cni::host_if_text(p.env@.container_id, p.env@.ifname),
            )
            &&& 10 <= p.done < 10 + n ==> a == PlumbActionView::Run(then_[p.done - 10])
            &&& p.done == 10 + n ==> a == PlumbActionView::Register(
                cni::endpoint_of(p.env@, p.conf@, p.pod_ip, text::opt(p.pod_ip6)),
            )
            &&& p.done == 11 + n ==> a is ReadPodMac
            &&& p.done > 11 + n ==> a == PlumbActionView::Done(
                cni::add_doc(
                    p.env@,
                    p.conf@,
                    p.pod_ip,
                    text::opt(p.pod_ip6),
                    p.host_mac@,
                    p.pod_mac@,
                ),
            )
        }),
{
}

/// A failed plumbing is undone whole: the endpoint unregistered, the pair removed
/// and the owner's address released.
pub proof fn failed_plumbing_is_undone(env: CniEnvView, ip: Seq<char>)
    ensures
        ({
            let u = cni::undo_of(env, ip);
            &&& u.key.container_id == env.container_id && u.key.ifname == env.ifname
            &&& u.link.argv == seq![
                "link"@,
                "del"@,
                cni::host_if_text(env.container_id, env.ifname),
            ] && !u.link.required
            &&& u.release.owner == env.container_id + "/"@ + env.ifname && u.release.ip == ip
        }),
{
}

/// A removal asks the daemon, if it can be reached, to forget the endpoint, and
/// then removes the pair, whatever came of it.
pub proof fn removal_runs_in_order(env: CniEnvView, ok: bool)
    ensures
        cni::del_action(env, DelStage::Start) is Connect,
        cni::del_stage(DelStage::Start, true) == DelStage::Reached,
        cni::del_stage(DelStage::Start, false) == DelStage::Unlink,
        cni::del_action(env, DelStage::Reached) == DelActionView::Unregister(
            CniEndpointKeyView { container_id: env.container_id, ifname: env.ifname },
        ),
        cni::del_stage(DelStage::Reached, ok) == DelStage::Unlink,
        cni::del_action(env, DelStage::Unlink) matches DelActionView::Run(s) && s.argv == seq![
            "link"@,
            "del"@,
            cni::host_if_text(env.container_id, env.ifname),
        ] && !s.required,
        cni::del_stage(DelStage::Unlink, ok) == DelStage::Done,
        cni::del_action(env, DelStage::Done) is Done,
{
}

/// A sweep takes down each endpoint that the runtime no longer lists: it is
/// unregistered and its node end removed; a listed one adds nothing.
pub proof fn sweep_takes_down_the_unlisted(
    valid: Seq<AttachmentView>,
    eps: Seq<CniEndpointView>,
    ep: CniEndpointView,
)
    ensures
        cni::gc_spec(valid, Seq::empty()).len() == 0,
        cni::still_valid(valid, ep) ==> cni::gc_spec(valid, eps.push(ep)) == cni::gc_spec(
            valid,
            eps,
        ),
        !cni::still_valid(valid, ep) ==> {
            let all = cni::gc_spec(valid, eps.push(ep));
            &&& all == cni::gc_spec(valid, eps).push(all.last())
            &&& all.last().key.container_id == ep.container_id && all.last().key.ifname == ep.ifname
            &&& all.last().link.argv == seq!["link"@, "del"@, ep.host_if] && !all.last().link.required
        },
{
    assert(eps.push(ep).drop_last() =~= eps);
}

// ---------------------------------- sweeping --------------------------------

/// A listed object is stale if it is not wanted; all stale ones are told, in the
/// order of the list.
pub proof fn unwanted_objects_are_stale(
    desired: Map<(Seq<char>, Seq<char>), Doc>,
    listed: Seq<(Seq<char>, Seq<char>)>,
    key: (Seq<char>, Seq<char>),
)
    ensures
        cep::stale_of(desired, Seq::empty()).len() == 0,
        desired.contains_key(key) ==> cep::stale_of(desired, listed.push(key)) == cep::stale_of(
            desired,
            listed,
        ),
        !desired.contains_key(key) ==> cep::stale_of(desired, listed.push(key)) == cep::stale_of(
            desired,
            listed,
        ).push(key),
{
    assert(listed.push(key).drop_last() =~= listed);
}

/// An endpoint of a listed pod is published with the identity of the pod's labels
/// and with those labels; one of no pod, or of a pod that is not listed, with none.
pub proof fn published_identity_is_the_pods(
    pods: Seq<PodView>,
    alloc: Map<Seq<char>, u32>,
    eps: Seq<CniEndpointView>,
    ep: CniEndpointView,
    other: (Seq<char>, Seq<char>),
)
    ensures
        ({
            let before = cep::cep_identities_spec(pods, alloc, eps);
            let after = cep::cep_identities_spec(pods, alloc, eps.push(ep));
            let key = (ep.pod_namespace, ep.pod_name);
            let labels = netpol::pod_labels(pods, ep.pod_namespace, ep.pod_name);
            let of_pod = ep.pod_name.len() > 0 && ep.pod_namespace.len() > 0 && exists|i: int|
                0 <= i < pods.len() && (#[trigger] pods[i]).namespace == Some(ep.pod_namespace)
                    && pods[i].name == ep.pod_name;
            &&& of_pod ==> after.get(key) == Some(
                CepIdentityView {
                    id: identity::resolved(alloc, ep.pod_namespace, labels),
                    labels: identity::label_texts(ep.pod_namespace, labels),
                },
            )
            &&& !of_pod || other != key ==> after.get(other) == before.get(other)
        }),
{
    assert(eps.push(ep).drop_last() =~= eps);
}

// ------------------------------- what is pushed -----------------------------

/// Every endpoint of a pod is given its policy: that of the cluster's policies,
/// with the others merged in, under the node's mode. An endpoint of no pod is
/// given none.
pub proof fn endpoints_are_given_their_policies(
    eps: Seq<CniEndpointView>,
    ep: CniEndpointView,
    policies: Seq<NetworkPolicyView>,
    pods: Seq<PodView>,
    namespaces: Seq<NamespaceView>,
    mode: Seq<char>,
    alloc: Map<Seq<char>, u32>,
    cnps: Seq<CnpView>,
)
    ensures
        ({
            let before = controller::policies_of(
                eps,
                policies,
                pods,
                namespaces,
                mode,
                alloc,
                cnps,
            );
            let after = controller::policies_of(
                eps.push(ep),
                policies,
                pods,
                namespaces,
                mode,
                alloc,
                cnps,
            );
            let labels = netpol::pod_labels(pods, ep.pod_namespace, ep.pod_name);
            let own = controller::under_mode(
                controller::merged(
                    netpol::endpoint_policy_spec(ep, policies, pods, namespaces, alloc),
                    cnp::endpoint_rules_spec(cnps, ep.pod_namespace, labels, pods, alloc),
                ),
                mode,
            );
            &&& ep.pod_name.len() == 0 ==> after == before
            &&& ep.pod_name.len() > 0 ==> after == before.push(own)
        }),
{
    assert(eps.push(ep).drop_last() =~= eps);
}

/// A binding is pushed as its address and identity, in the global table.
pub proof fn bindings_are_pushed(b: Seq<(Seq<char>, u32)>, i: int)
    requires
        0 <= i < b.len(),
    ensures
        controller::identity_views(b).len() == b.len(),
        controller::identity_views(b)[i] == (IdentityView {
            ip: b[i].0,
            identity: b[i].1,
            vrf_id: 0,
        }),
{
}

/// A node's pods get addresses from its range, and IPv6 ones where it has such a
/// range.
pub proof fn node_range_is_configured(cidr: Seq<char>, cidr6: Option<Seq<char>>)
    ensures
        controller::ipam_doc(cidr, cidr6) matches Doc::Object(m) && {
            &&& m[0] == ("type"@, Doc::Text("cradle"@))
            &&& m[1] == ("subnet"@, Doc::Text(cidr))
            &&& cidr6 is None ==> m.len() == 2
            &&& cidr6 matches Some(c) ==> m.len() == 3 && m[2] == ("subnet6"@, Doc::Text(c))
        },
{
}

/// A service's number is the hash of its address, port and protocol as text, and
/// never zero.
pub proof fn service_number_is_its_keys(key: Key)
    ensures
        ({
            let h = hash::fnv32(
                0x811c_9dc5,
                vstd::utf8::encode_utf8(
                    digits::ip4_text(key.0) + ":"@ + digits::dec(key.1 as int) + "/"@ + digits::dec(
                        key.2 as int,
                    ),
                ),
            );
            sync::svc_id_spec(key) == if h == 0 {
                1u32
            } else {
                h
            }
        }),
{
}

/// A label set's own identity is the hash of its namespace and labels, each name
/// and value in the order of the names, and is never a reserved one.
pub proof fn set_identity_is_its_hash(
    ns: Seq<char>,
    labels: Map<Seq<char>, Seq<char>>,
    l: Seq<(Seq<char>, Seq<char>)>,
    e: (Seq<char>, Seq<char>),
)
    ensures
        ({
            let all = ordmap::listing_of::<String, Seq<char>>(labels);
            let h = hash::fnv32(
                0x811c_9dc5,
                vstd::utf8::encode_utf8(ns) + seq![0u8] + netpol::labels_bytes(all),
            );
            netpol::hash_identity(ns, labels) == if h < 3 {
                3u32
            } else {
                h
            }
        }),
        netpol::labels_bytes(Seq::empty()).len() == 0,
        netpol::labels_bytes(l.push(e)) == netpol::labels_bytes(l) + (vstd::utf8::encode_utf8(e.0)
            + seq!['=' as u8] + vstd::utf8::encode_utf8(e.1) + seq![';' as u8]),
{
    assert(l.push(e).drop_last() =~= l);
}

/// Words are what stands between spaces: a space ends a word, and any other
/// character goes on with the one before it, or begins one.
pub proof fn words_stand_between_spaces(s: Seq<char>, c: char)
    ensures
        text::words(Seq::empty()).len() == 0,
        c == ' ' || c == '\t' || c == '\n' || c == '\r' ==> text::words(s.push(c)) == text::words(
            s,
        ),
        '!' <= c <= '~' && (s.len() == 0 || s.last() == ' ' || s.last() == '\n') ==> text::words(
            s.push(c),
        ) == text::words(s).push(seq![c]),
        '!' <= c <= '~' && s.len() > 0 && '!' <= s.last() <= '~' ==> text::words(s.push(c))
            == text::words(s).drop_last().push(text::words(s).last().push(c)),
{
    let t = s.push(c);
    assert(t.drop_last() =~= s);
    assert(t.last() == c);
    if s.len() > 0 {
        assert(t[t.len() - 2] == s.last());
    }
}

} // verus!
