//! The CNI plugin: attaching pods to the data plane.
//!
//! The runtime runs the plugin with the operation in `CNI_COMMAND` and the
//! network configuration on standard input. This module decides: what the
//! environment and the configuration mean, the names of the interfaces, the
//! commands that plumb a pod, and the documents that are printed.

use vstd::prelude::*;
use crate::digits;
use crate::hash;
use crate::json;
use crate::json::{Doc, Json};
use crate::messages::{
    AllocIpRequest, AllocIpRequestView, CniEndpoint, CniEndpointKey, CniEndpointKeyView,
    CniEndpointView, ReleaseIpRequest, ReleaseIpRequestView,
};
use crate::text;

verus! {

/// The pods' virtual point-to-point gateway: link-scoped on every pod's
/// interface, resolved by a permanent neighbor entry to the host veth MAC.
pub const POD_GW: &'static str = "169.254.1.1";
/// The pods' IPv6 gateway: a link-local address on the host veth.
pub const POD_GW6: &'static str = "fe80::1";

/// CNI error result codes.
pub const ERR_UNSUPPORTED_FIELD: u32 = 2;
pub const ERR_BAD_ENV: u32 = 4;
pub const ERR_DECODE: u32 = 6;
pub const ERR_BAD_CONFIG: u32 = 7;
pub const ERR_TRANSIENT: u32 = 11;
pub const ERR_PLUGIN_NOT_AVAILABLE: u32 = 50;
pub const ERR_INTERNAL: u32 = 100;

/// Address management: the pod ranges.
pub struct IpamConf {
    pub plugin_type: String,
    pub subnet: String,
    /// Set for a dual-stack pod.
    pub subnet6: String,
}

/// What a `IpamConf` holds.
#[verifier::ext_equal]
pub struct IpamConfView {
    pub plugin_type: Seq<char>,
    pub subnet: Seq<char>,
    pub subnet6: Seq<char>,
}

impl View for IpamConf {
    type V = IpamConfView;

    open spec fn view(&self) -> IpamConfView {
        IpamConfView {
            plugin_type: self.plugin_type@,
            subnet: self.subnet@,
            subnet6: self.subnet6@,
        }
    }
}

/// An attachment the runtime still considers valid.
pub struct Attachment {
    pub container_id: String,
    /// Empty: every interface of the container.
    pub ifname: String,
}

/// What a `Attachment` holds.
#[verifier::ext_equal]
pub struct AttachmentView {
    pub container_id: Seq<char>,
    pub ifname: Seq<char>,
}

impl View for Attachment {
    type V = AttachmentView;

    open spec fn view(&self) -> AttachmentView {
        AttachmentView {
            container_id: self.container_id@,
            ifname: self.ifname@,
        }
    }
}

/// The network configuration the runtime passes in.
pub struct NetConf {
    pub cni_version: String,
    pub name: String,
    /// The daemon's control socket.
    pub grpc_endpoint: String,
    pub ipam: IpamConf,
    /// VRF table pod endpoints join (0 = global).
    pub vrf: u32,
    /// Leave the veth hook to a chained plugin.
    pub chained: bool,
    /// What a sweep keeps.
    pub valid_attachments: Vec<Attachment>,
}

/// What a `NetConf` holds.
#[verifier::ext_equal]
pub struct NetConfView {
    pub cni_version: Seq<char>,
    pub name: Seq<char>,
    pub grpc_endpoint: Seq<char>,
    pub ipam: IpamConfView,
    pub vrf: u32,
    pub chained: bool,
    pub valid_attachments: Seq<AttachmentView>,
}

impl View for NetConf {
    type V = NetConfView;

    open spec fn view(&self) -> NetConfView {
        NetConfView {
            cni_version: self.cni_version@,
            name: self.name@,
            grpc_endpoint: self.grpc_endpoint@,
            ipam: self.ipam@,
            vrf: self.vrf,
            chained: self.chained,
            valid_attachments: text::views(self.valid_attachments@),
        }
    }
}

/// The environment of an attachment operation.
pub struct CniEnv {
    pub container_id: String,
    pub netns: String,
    pub ifname: String,
    /// Empty outside Kubernetes.
    pub pod_name: String,
    pub pod_namespace: String,
}

/// What a `CniEnv` holds.
#[verifier::ext_equal]
pub struct CniEnvView {
    pub container_id: Seq<char>,
    pub netns: Seq<char>,
    pub ifname: Seq<char>,
    pub pod_name: Seq<char>,
    pub pod_namespace: Seq<char>,
}

impl View for CniEnv {
    type V = CniEnvView;

    open spec fn view(&self) -> CniEnvView {
        CniEnvView {
            container_id: self.container_id@,
            netns: self.netns@,
            ifname: self.ifname@,
            pod_name: self.pod_name@,
            pod_namespace: self.pod_namespace@,
        }
    }
}

/// An error with its CNI result code.
pub struct Coded {
    pub code: u32,
    pub msg: String,
}

/// What a `Coded` holds.
#[verifier::ext_equal]
pub struct CodedView {
    pub code: u32,
    pub msg: Seq<char>,
}

impl View for Coded {
    type V = CodedView;

    open spec fn view(&self) -> CodedView {
        CodedView {
            code: self.code,
            msg: self.msg@,
        }
    }
}

/// An error with a CNI result code.
pub fn coded(code: u32, msg: String) -> (r: Coded)
    ensures
        r@ == (CodedView { code, msg: msg@ }),
{
    Coded { code, msg }
}

/// The version assumed where the configuration names none.
pub fn default_cni_version() -> (r: String)
    ensures
        r@ == "1.1.0"@,
{
    "1.1.0".to_owned()
}

/// The daemon's control socket where the configuration names none.
pub fn default_grpc_endpoint() -> (r: String)
    ensures
        r@ == "unix:/run/cradle/cradle.sock"@,
{
    "unix:/run/cradle/cradle.sock".to_owned()
}

// ------------------------------------------------------------- outside calls

/// What `serde_json` gives for the text member `key` of the document `doc`.
pub uninterp spec fn json_text_member(doc: Seq<char>, key: Seq<char>) -> Option<Seq<char>>;

/// `serde_json::from_str` into a `Value`, then `Value::get` by `key` and
/// `Value::as_str`: the text under `key` at the top of the document, if `doc`
/// is a JSON object that has a text there; none for anything else, malformed
/// documents among it. The result is a function of the two texts.
#[verifier::external_body]
fn top_level_text(doc: &str, key: &str) -> (r: Option<String>)
    ensures
        text::opt(r) == json_text_member(doc@, key@),
{
    let v: serde_json::Value = serde_json::from_str(doc).ok()?;
    let s: &str = v.get(key)?.as_str()?;
    Some(s.to_string())
}

/// What the `Debug` form of a text is.
pub uninterp spec fn debug_text(s: Seq<char>) -> Seq<char>;

/// The `Debug` form of a text, as `std::fmt` writes it: in double quotes, with
/// escapes. The result is a function of the text.
#[verifier::external_body]
fn quoted(s: &str) -> (r: String)
    ensures
        r@ == debug_text(s@),
{
    format!("{:?}", s)
}

// -------------------------------------------------------------- environment

/// The value of the first `key=value` among the pairs.
pub open spec fn value_in(pairs: Seq<Seq<char>>, key: Seq<char>) -> Seq<char>
    decreases pairs.len(),
{
    if pairs.len() == 0 {
        Seq::empty()
    } else {
        match text::cut(pairs[0], '=') {
            Some(kv) if kv.0 == key => kv.1,
            _ => value_in(pairs.skip(1), key),
        }
    }
}

/// Extract one `KEY=VAL` from the `;`-separated CNI_ARGS.
pub fn cni_arg(args: &str, key: &str) -> (r: String)
    ensures
        r@ == value_in(text::split(args@, ';'), key@),
{
    let pairs = text::split_on(args, ';');
    let ghost all = text::views(pairs@);
    let mut i: usize = 0;
    assert(all.skip(0) =~= all);
    while i < pairs.len()
        invariant
            i <= pairs@.len(),
            all == text::views(pairs@),
            all == text::split(args@, ';'),
            value_in(all, key@) == value_in(all.skip(i as int), key@),
        decreases pairs@.len() - i,
    {
        proof {
            assert(all.skip(i as int)[0] == pairs@[i as int]@);
            assert(all.skip(i as int).skip(1) =~= all.skip(i + 1));
        }
        if let Some((k, v)) = text::cut_at(pairs[i].as_str(), '=') {
            if text::same(k, key) {
                return v.to_owned();
            }
        }
        i += 1;
    }
    String::new()
}

/// A required variable of the environment: set and not empty, or an error.
pub open spec fn required(name: Seq<char>, value: Option<Seq<char>>) -> Result<
    Seq<char>,
    CodedView,
> {
    match value {
        Some(v) if v.len() > 0 => Ok(v),
        _ => Err(
            CodedView { code: ERR_BAD_ENV, msg: "required env "@ + name + " missing"@ },
        ),
    }
}

/// A required variable of the environment; `value` is what it is set to.
pub fn require_env(name: &str, value: &Option<String>) -> (r: Result<String, Coded>)
    ensures
        text::res(r) == required(name@, text::opt(*value)),
{
    if let Some(v) = value {
        if !v.as_str().is_empty() {
            return Ok(v.clone());
        }
    }
    let mut msg = "required env ".to_owned();
    msg.append(name);
    msg.append(" missing");
    Err(coded(ERR_BAD_ENV, msg))
}

/// The variables of the environment as they are set.
pub struct EnvVars {
    pub container_id: Option<String>,
    pub netns: Option<String>,
    pub ifname: Option<String>,
    pub args: Option<String>,
}

/// The environment of an operation. The first variable that is missing, in
/// this order, is the error.
pub open spec fn env_spec(vars: EnvVars, netns_required: bool) -> Result<CniEnvView, CodedView> {
    let args = text::split(text::or_empty(text::opt(vars.args)), ';');
    match required("CNI_CONTAINERID"@, text::opt(vars.container_id)) {
        Err(e) => Err(e),
        Ok(container_id) => match if netns_required {
            required("CNI_NETNS"@, text::opt(vars.netns))
        } else {
            Ok(text::or_empty(text::opt(vars.netns)))
        } {
            Err(e) => Err(e),
            Ok(netns) => match required("CNI_IFNAME"@, text::opt(vars.ifname)) {
                Err(e) => Err(e),
                Ok(ifname) => Ok(
                    CniEnvView {
                        container_id,
                        netns,
                        ifname,
                        pod_name: value_in(args, "K8S_POD_NAME"@),
                        pod_namespace: value_in(args, "K8S_POD_NAMESPACE"@),
                    },
                ),
            },
        },
    }
}

impl CniEnv {
    /// Read the environment of an operation.
    pub fn load(vars: &EnvVars, netns_required: bool) -> (r: Result<CniEnv, Coded>)
        ensures
            text::res(r) == env_spec(*vars, netns_required),
    {
        let args = text::text_of(&vars.args);
        let container_id = match require_env("CNI_CONTAINERID", &vars.container_id) {
            Ok(v) => v,
            Err(e) => {
                return Err(e);
            },
        };
        let netns = if netns_required {
            match require_env("CNI_NETNS", &vars.netns) {
                Ok(v) => v,
                Err(e) => {
                    return Err(e);
                },
            }
        } else {
            text::text_of(&vars.netns)
        };
        let ifname = match require_env("CNI_IFNAME", &vars.ifname) {
            Ok(v) => v,
            Err(e) => {
                return Err(e);
            },
        };
        let pod_name = cni_arg(args.as_str(), "K8S_POD_NAME");
        let pod_namespace = cni_arg(args.as_str(), "K8S_POD_NAMESPACE");
        Ok(CniEnv { container_id, netns, ifname, pod_name, pod_namespace })
    }
}

// -------------------------------------------------------------------- names

/// The owner of an attachment's addresses.
pub open spec fn owner_text(container_id: Seq<char>, ifname: Seq<char>) -> Seq<char> {
    container_id + "/"@ + ifname
}

/// The owner of an attachment's addresses.
pub fn owner(container_id: &str, ifname: &str) -> (r: String)
    ensures
        r@ == owner_text(container_id@, ifname@),
{
    let mut s = container_id.to_owned();
    s.append("/");
    s.append(ifname);
    s
}

/// The last ten hexadecimal digits of a text's hash.
pub open spec fn short_hash(s: Seq<char>) -> Seq<char> {
    digits::hex(hash::fnv64(vstd::utf8::encode_utf8(s)) as int, 10)
}

fn hash_digits(s: &str) -> (r: String)
    ensures
        r@ == short_hash(s@),
{
    digits::fmt_hex(hash::fnv1a64(s.as_bytes()), 10)
}

/// Deterministic host-side veth name of an attachment.
pub open spec fn host_if_text(container_id: Seq<char>, ifname: Seq<char>) -> Seq<char> {
    "crdl"@ + short_hash(owner_text(container_id, ifname))
}

/// Deterministic host-side veth name for an attachment: `crdl` + 10 hex chars
/// (14 chars, under IFNAMSIZ). Recomputable on DEL, so the plugin needs no
/// local state.
pub fn host_ifname(container_id: &str, ifname: &str) -> (r: String)
    ensures
        r@ == host_if_text(container_id@, ifname@),
{
    let o = owner(container_id, ifname);
    let mut s = "crdl".to_owned();
    s.append(hash_digits(o.as_str()).as_str());
    s
}

/// The pod end's name until it has moved.
pub open spec fn temp_if_text(host_if: Seq<char>) -> Seq<char> {
    "tmp"@ + short_hash(host_if)
}

/// The pod end's name until it has moved.
pub fn temp_ifname(host_if: &str) -> (r: String)
    ensures
        r@ == temp_if_text(host_if@),
{
    let mut s = "tmp".to_owned();
    s.append(hash_digits(host_if).as_str());
    s
}

/// Interface names fit the kernel's limit of fifteen characters.
pub proof fn interface_names_fit(container_id: Seq<char>, ifname: Seq<char>)
    ensures
        host_if_text(container_id, ifname).len() == 14,
        temp_if_text(host_if_text(container_id, ifname)).len() == 13,
{
    reveal_strlit("crdl");
    reveal_strlit("tmp");
    let o = owner_text(container_id, ifname);
    digits::hex_len(hash::fnv64(vstd::utf8::encode_utf8(o)) as int, 10);
    let h = host_if_text(container_id, ifname);
    digits::hex_len(hash::fnv64(vstd::utf8::encode_utf8(h)) as int, 10);
}

/// Whether `name` is a plain file name.
pub open spec fn plain_name(name: Seq<char>) -> bool {
    name.len() > 0 && !name.contains('/')
}

/// The namespace name that a path under one of the two directories gives.
pub open spec fn netns_of(path: Seq<char>) -> Option<Seq<char>> {
    let a = "/var/run/netns/"@;
    let b = "/run/netns/"@;
    if a.is_prefix_of(path) && plain_name(path.skip(a.len() as int)) {
        Some(path.skip(a.len() as int))
    } else if b.is_prefix_of(path) && plain_name(path.skip(b.len() as int)) {
        Some(path.skip(b.len() as int))
    } else {
        None
    }
}

/// The error of a path that names no namespace.
pub open spec fn netns_error(path: Seq<char>) -> CodedView {
    CodedView {
        code: ERR_UNSUPPORTED_FIELD,
        msg: "unsupported CNI_NETNS path "@ + debug_text(path)
            + " (need a named netns under /run/netns)"@,
    }
}

fn name_under(path: &str, dir: &str) -> (r: Option<String>)
    ensures
        text::opt(r) == (if dir@.is_prefix_of(path@) && plain_name(path@.skip(dir@.len() as int)) {
            Some(path@.skip(dir@.len() as int))
        } else {
            None
        }),
{
    match text::strip(path, dir) {
        Some(name) => {
            proof {
                assert(path@.subrange(0, dir@.len() as int) =~= dir@);
                assert(path@.skip(dir@.len() as int) =~= name@);
            }
            if !name.is_empty() && !text::has_char(name, '/') {
                Some(name.to_owned())
            } else {
                None
            }
        },
        None => None,
    }
}

/// Resolve a CNI_NETNS path to a namespace name. Container runtimes mount
/// named namespaces under /run/netns.
pub fn netns_name(path: &str) -> (r: Result<String, Coded>)
    ensures
        text::res(r) == (match netns_of(path@) {
            Some(name) => Ok(name),
            None => Err(netns_error(path@)),
        }),
{
    if let Some(name) = name_under(path, "/var/run/netns/") {
        return Ok(name);
    }
    if let Some(name) = name_under(path, "/run/netns/") {
        return Ok(name);
    }
    let mut msg = "unsupported CNI_NETNS path ".to_owned();
    msg.append(quoted(path).as_str());
    msg.append(" (need a named netns under /run/netns)");
    Err(coded(ERR_UNSUPPORTED_FIELD, msg))
}

/// The word behind the first `link/ether`, if there is one.
pub open spec fn ether_in(w: Seq<Seq<char>>) -> Option<Seq<char>>
    decreases w.len(),
{
    if w.len() < 2 {
        None
    } else if w[0] == "link/ether"@ {
        Some(w[1])
    } else {
        ether_in(w.skip(1))
    }
}

/// The MAC address in the output of `ip -o link show`.
pub fn link_ether(output: &str) -> (r: Option<String>)
    ensures
        text::opt(r) == ether_in(text::words(output@)),
{
    let w = text::words_of(output);
    let ghost all = text::views(w@);
    let mut i: usize = 0;
    assert(all.skip(0) =~= all);
    while i < w.len() && w.len() - i >= 2
        invariant
            i <= w@.len(),
            all == text::views(w@),
            all == text::words(output@),
            ether_in(all) == ether_in(all.skip(i as int)),
        decreases w@.len() - i,
    {
        proof {
            assert(all.skip(i as int)[0] == w@[i as int]@);
            assert(all.skip(i as int)[1] == w@[i + 1]@);
            assert(all.skip(i as int).skip(1) =~= all.skip(i + 1));
        }
        if text::same(w[i].as_str(), "link/ether") {
            return Some(w[i + 1].clone());
        }
        i += 1;
    }
    None
}

// ------------------------------------------------------------------ plumbing

/// A command line: the words of an `ip` invocation.
pub fn argv<const N: usize>(parts: [&str; N]) -> (r: Vec<String>)
    ensures
        text::views(r@) == Seq::new(N as nat, |i: int| parts@[i]@),
{
    let mut r: Vec<String> = Vec::new();
    let ghost all = Seq::new(N as nat, |i: int| parts@[i]@);
    let mut i: usize = 0;
    assert(text::views(r@) =~= all.take(0));
    while i < N
        invariant
            i <= N,
            all == Seq::new(N as nat, |i: int| parts@[i]@),
            text::views(r@) == all.take(i as int),
        decreases N - i,
    {
        let ghost before = text::views(r@);
        r.push(parts[i].to_owned());
        assert(text::views(r@) =~= before.push(all[i as int]));
        assert(all.take(i + 1) =~= all.take(i as int).push(all[i as int]));
        i += 1;
    }
    assert(all.take(i as int) =~= all);
    r
}

/// One `ip` command; a failure of one that is not required is ignored.
pub struct IpStep {
    pub argv: Vec<String>,
    pub required: bool,
}

/// What an `IpStep` holds.
#[verifier::ext_equal]
pub struct IpStepView {
    pub argv: Seq<Seq<char>>,
    pub required: bool,
}

impl View for IpStep {
    type V = IpStepView;

    open spec fn view(&self) -> IpStepView {
        IpStepView { argv: text::views(self.argv@), required: self.required }
    }
}

/// A required command.
pub open spec fn must(argv: Seq<Seq<char>>) -> IpStepView {
    IpStepView { argv, required: true }
}

/// The command that deletes a link.
pub open spec fn del_link(host_if: Seq<char>) -> IpStepView {
    IpStepView { argv: seq!["link"@, "del"@, host_if], required: false }
}

/// The command that deletes a link. Deleting the host end removes the pair
/// wherever the peer lives; its failure is ignored.
pub fn delete_link(host_if: &str) -> (r: IpStep)
    ensures
        r@ == del_link(host_if@),
{
    let a = argv(["link", "del", host_if]);
    assert(text::views(a@) =~= seq!["link"@, "del"@, host_if@]);
    IpStep { argv: a, required: false }
}

/// The commands that make the pair and configure the pod end, up to the point
/// where the host end's MAC address must be read. A stale pair of an earlier
/// try is deleted first.
pub open spec fn link_plan(env: CniEnvView, ns: Seq<char>, pod_ip: u32) -> Seq<IpStepView> {
    let host_if = host_if_text(env.container_id, env.ifname);
    let tmp = temp_if_text(host_if);
    seq![
        del_link(host_if),
        must(seq!["link"@, "add"@, host_if, "type"@, "veth"@, "peer"@, "name"@, tmp]),
        must(seq!["link"@, "set"@, tmp, "netns"@, ns, "name"@, env.ifname]),
        must(seq!["link"@, "set"@, host_if, "up"@]),
        must(seq!["-n"@, ns, "link"@, "set"@, "lo"@, "up"@]),
        must(
            seq![
                "-n"@,
                ns,
                "addr"@,
                "add"@,
                digits::ip4_text(pod_ip) + "/32"@,
                "dev"@,
                env.ifname,
            ],
        ),
        must(seq!["-n"@, ns, "link"@, "set"@, env.ifname, "up"@]),
        must(
            seq![
                "-n"@,
                ns,
                "route"@,
                "add"@,
                POD_GW@ + "/32"@,
                "dev"@,
                env.ifname,
                "scope"@,
                "link"@,
            ],
        ),
        must(
            seq!["-n"@, ns, "route"@, "add"@, "default"@, "via"@, POD_GW@, "dev"@, env.ifname],
        ),
    ]
}

/// Append a required command.
fn push_step(out: &mut Vec<IpStep>, argv: Vec<String>)
    ensures
        text::views(final(out)@) == text::views(old(out)@).push(must(text::views(argv@))),
{
    let ghost before = text::views(out@);
    let step = IpStep { argv, required: true };
    let ghost v = step@;
    out.push(step);
    assert(v == must(text::views(argv@)));
    assert(text::views(out@) =~= before.push(v));
}

/// The commands up to the point where the host end's MAC address must be read.
pub fn link_steps(env: &CniEnv, ns: &str, pod_ip: u32) -> (r: Vec<IpStep>)
    ensures
        text::views(r@) == link_plan(env@, ns@, pod_ip),
{
    let host_if = host_ifname(env.container_id.as_str(), env.ifname.as_str());
    let tmp = temp_ifname(host_if.as_str());
    let (h, t, ifname) = (host_if.as_str(), tmp.as_str(), env.ifname.as_str());
    let mut pod_addr = digits::fmt_ip4(pod_ip);
    pod_addr.append("/32");
    let addr = pod_addr.as_str();
    let mut gw_route = POD_GW.to_owned();
    gw_route.append("/32");
    let gw = gw_route.as_str();
    let mut out: Vec<IpStep> = Vec::new();
    let first = delete_link(h);
    let ghost v0 = first@;
    out.push(first);
    assert(text::views(out@) =~= seq![v0]);
    let a1 = argv(["link", "add", h, "type", "veth", "peer", "name", t]);
    assert(text::views(a1@) =~= seq![
        "link"@,
        "add"@,
        h@,
        "type"@,
        "veth"@,
        "peer"@,
        "name"@,
        t@,
    ]);
    push_step(&mut out, a1);
    let a2 = argv(["link", "set", t, "netns", ns, "name", ifname]);
    assert(text::views(a2@) =~= seq!["link"@, "set"@, t@, "netns"@, ns@, "name"@, ifname@]);
    push_step(&mut out, a2);
    let a3 = argv(["link", "set", h, "up"]);
    assert(text::views(a3@) =~= seq!["link"@, "set"@, h@, "up"@]);
    push_step(&mut out, a3);
    let a4 = argv(["-n", ns, "link", "set", "lo", "up"]);
    assert(text::views(a4@) =~= seq!["-n"@, ns@, "link"@, "set"@, "lo"@, "up"@]);
    push_step(&mut out, a4);
    let a5 = argv(["-n", ns, "addr", "add", addr, "dev", ifname]);
    assert(text::views(a5@) =~= seq!["-n"@, ns@, "addr"@, "add"@, addr@, "dev"@, ifname@]);
    push_step(&mut out, a5);
    let a6 = argv(["-n", ns, "link", "set", ifname, "up"]);
    assert(text::views(a6@) =~= seq!["-n"@, ns@, "link"@, "set"@, ifname@, "up"@]);
    push_step(&mut out, a6);
    let a7 = argv(["-n", ns, "route", "add", gw, "dev", ifname, "scope", "link"]);
    assert(text::views(a7@) =~= seq![
        "-n"@,
        ns@,
        "route"@,
        "add"@,
        gw@,
        "dev"@,
        ifname@,
        "scope"@,
        "link"@,
    ]);
    push_step(&mut out, a7);
    let a8 = argv(["-n", ns, "route", "add", "default", "via", POD_GW, "dev", ifname]);
    assert(text::views(a8@) =~= seq![
        "-n"@,
        ns@,
        "route"@,
        "add"@,
        "default"@,
        "via"@,
        POD_GW@,
        "dev"@,
        ifname@,
    ]);
    push_step(&mut out, a8);
    assert(text::views(out@) =~= link_plan(env@, ns@, pod_ip));
    out
}

/// The command that pins the gateway to the host end's MAC address.
pub open spec fn pin_gateway(
    ns: Seq<char>,
    gw: Seq<char>,
    mac: Seq<char>,
    ifname: Seq<char>,
) -> IpStepView {
    must(
        seq![
            "-n"@,
            ns,
            "neigh"@,
            "replace"@,
            gw,
            "lladdr"@,
            mac,
            "dev"@,
            ifname,
            "nud"@,
            "permanent"@,
        ],
    )
}

/// The commands that follow once the host end's MAC address is known: the
/// gateway's neighbor entry, and the same setup for IPv6 on a dual-stack pod.
/// `nodad` avoids the detection delay on the address.
pub open spec fn neighbor_plan(
    ifname: Seq<char>,
    ns: Seq<char>,
    mac: Seq<char>,
    pod_ip6: Option<Seq<char>>,
) -> Seq<IpStepView> {
    let v4 = seq![pin_gateway(ns, POD_GW@, mac, ifname)];
    match pod_ip6 {
        None => v4,
        Some(ip6) => v4 + seq![
            must(
                seq![
                    "-n"@,
                    ns,
                    "addr"@,
                    "add"@,
                    ip6 + "/128"@,
                    "dev"@,
                    ifname,
                    "nodad"@,
                ],
            ),
            must(seq!["-n"@, ns, "route"@, "add"@, POD_GW6@, "dev"@, ifname]),
            must(
                seq!["-n"@, ns, "route"@, "add"@, "default"@, "via"@, POD_GW6@, "dev"@, ifname],
            ),
            pin_gateway(ns, POD_GW6@, mac, ifname),
        ],
    }
}

fn gateway_argv(ns: &str, gw: &str, mac: &str, ifname: &str) -> (r: Vec<String>)
    ensures
        must(text::views(r@)) == pin_gateway(ns@, gw@, mac@, ifname@),
{
    let a = argv(
        ["-n", ns, "neigh", "replace", gw, "lladdr", mac, "dev", ifname, "nud", "permanent"],
    );
    assert(text::views(a@) =~= pin_gateway(ns@, gw@, mac@, ifname@).argv);
    a
}

/// The commands that follow once the host end's MAC address is known.
pub fn neighbor_steps(
    env: &CniEnv,
    ns: &str,
    mac: &str,
    pod_ip6: &Option<String>,
) -> (r: Vec<IpStep>)
    ensures
        text::views(r@) == neighbor_plan(env@.ifname, ns@, mac@, text::opt(*pod_ip6)),
{
    let ifname = env.ifname.as_str();
    let mut out: Vec<IpStep> = Vec::new();
    assert(text::views(out@) =~= Seq::empty());
    push_step(&mut out, gateway_argv(ns, POD_GW, mac, ifname));
    assert(text::views(out@) =~= seq![pin_gateway(ns@, POD_GW@, mac@, ifname@)]);
    if let Some(ip6) = pod_ip6 {
        let mut pod_addr = ip6.clone();
        pod_addr.append("/128");
        let addr = pod_addr.as_str();
        let a1 = argv(["-n", ns, "addr", "add", addr, "dev", ifname, "nodad"]);
        assert(text::views(a1@) =~= seq![
            "-n"@,
            ns@,
            "addr"@,
            "add"@,
            addr@,
            "dev"@,
            ifname@,
            "nodad"@,
        ]);
        push_step(&mut out, a1);
        let a2 = argv(["-n", ns, "route", "add", POD_GW6, "dev", ifname]);
        assert(text::views(a2@) =~= seq![
            "-n"@,
            ns@,
            "route"@,
            "add"@,
            POD_GW6@,
            "dev"@,
            ifname@,
        ]);
        push_step(&mut out, a2);
        let a3 = argv(["-n", ns, "route", "add", "default", "via", POD_GW6, "dev", ifname]);
        assert(text::views(a3@) =~= seq![
            "-n"@,
            ns@,
            "route"@,
            "add"@,
            "default"@,
            "via"@,
            POD_GW6@,
            "dev"@,
            ifname@,
        ]);
        push_step(&mut out, a3);
        push_step(&mut out, gateway_argv(ns, POD_GW6, mac, ifname));
        assert(text::views(out@) =~= neighbor_plan(ifname@, ns@, mac@, Some(ip6@)));
    }
    out
}

/// The attachment as it is registered with the daemon.
pub open spec fn endpoint_of(
    env: CniEnvView,
    conf: NetConfView,
    pod_ip: u32,
    pod_ip6: Option<Seq<char>>,
) -> CniEndpointView {
    CniEndpointView {
        container_id: env.container_id,
        ifname: env.ifname,
        netns: env.netns,
        host_if: host_if_text(env.container_id, env.ifname),
        host_ifindex: 0,
        ip: digits::ip4_text(pod_ip),
        ip6: text::or_empty(pod_ip6),
        vrf_id: conf.vrf,
        pod_name: env.pod_name,
        pod_namespace: env.pod_namespace,
        chained: conf.chained,
    }
}

/// The attachment as it is registered with the daemon.
pub fn endpoint_record(
    env: &CniEnv,
    conf: &NetConf,
    pod_ip: u32,
    pod_ip6: &Option<String>,
) -> (r: CniEndpoint)
    ensures
        r@ == endpoint_of(env@, conf@, pod_ip, text::opt(*pod_ip6)),
{
    CniEndpoint {
        container_id: env.container_id.clone(),
        ifname: env.ifname.clone(),
        netns: env.netns.clone(),
        host_if: host_ifname(env.container_id.as_str(), env.ifname.as_str()),
        host_ifindex: 0,
        ip: digits::fmt_ip4(pod_ip),
        ip6: text::text_of(pod_ip6),
        vrf_id: conf.vrf,
        pod_name: env.pod_name.clone(),
        pod_namespace: env.pod_namespace.clone(),
        chained: conf.chained,
    }
}

/// What plumbing a pod asks for next.
pub enum PlumbAction {
    /// Run an `ip` command.
    Run(IpStep),
    /// Read the MAC address of the host interface.
    ReadHostMac(String),
    /// Register the endpoint with the daemon.
    Register(CniEndpoint),
    /// Read the MAC address of the pod interface inside the namespace.
    ReadPodMac,
    /// The pod is plumbed: the result of the ADD.
    Done(Json),
}

/// What a `PlumbAction` holds.
#[verifier::ext_equal]
pub enum PlumbActionView {
    Run(IpStepView),
    ReadHostMac(Seq<char>),
    Register(CniEndpointView),
    ReadPodMac,
    Done(Doc),
}

impl View for PlumbAction {
    type V = PlumbActionView;

    open spec fn view(&self) -> PlumbActionView {
        match self {
            PlumbAction::Run(s) => PlumbActionView::Run(s@),
            PlumbAction::ReadHostMac(h) => PlumbActionView::ReadHostMac(h@),
            PlumbAction::Register(e) => PlumbActionView::Register(e@),
            PlumbAction::ReadPodMac => PlumbActionView::ReadPodMac,
            PlumbAction::Done(j) => PlumbActionView::Done(j@),
        }
    }
}

/// A pod being plumbed: what it is made from, and what has come back so far.
pub struct Plumbing {
    pub env: CniEnv,
    pub conf: NetConf,
    pub ns: String,
    pub pod_ip: u32,
    /// Canonical text of the pod's IPv6 address, if it has one.
    pub pod_ip6: Option<String>,
    /// How many actions are done.
    pub done: usize,
    /// Read by the action that asks for it.
    pub host_mac: String,
    pub pod_mac: String,
}

/// The actions of plumbing, in order: the commands up to the host MAC address,
/// the address itself, the commands that need it, the registration, the pod's
/// MAC address; then the result.
pub open spec fn plumb_spec(p: Plumbing) -> PlumbActionView {
    let first = link_plan(p.env@, p.ns@, p.pod_ip);
    let then_ = neighbor_plan(p.env@.ifname, p.ns@, p.host_mac@, text::opt(p.pod_ip6));
    let n = p.done - first.len() - 1;
    if p.done < first.len() {
        PlumbActionView::Run(first[p.done as int])
    } else if n < 0 {
        PlumbActionView::ReadHostMac(host_if_text(p.env@.container_id, p.env@.ifname))
    } else if n < then_.len() {
        PlumbActionView::Run(then_[n])
    } else if n == then_.len() {
        PlumbActionView::Register(endpoint_of(p.env@, p.conf@, p.pod_ip, text::opt(p.pod_ip6)))
    } else if n == then_.len() + 1 {
        PlumbActionView::ReadPodMac
    } else {
        PlumbActionView::Done(
            add_doc(
                p.env@,
                p.conf@,
                p.pod_ip,
                text::opt(p.pod_ip6),
                p.host_mac@,
                p.pod_mac@,
            ),
        )
    }
}

/// The next action of plumbing a pod: create and configure the veth pair, then
/// register the endpoint with the daemon.
pub fn plumb(p: &Plumbing) -> (r: PlumbAction)
    ensures
        r@ == plumb_spec(*p),
{
    let mut first = link_steps(&p.env, p.ns.as_str(), p.pod_ip);
    let ghost f = text::views(first@);
    assert(f.len() == first@.len());
    if p.done < first.len() {
        assert(f[p.done as int] == first@[p.done as int]@);
        let step = first.swap_remove(p.done);
        return PlumbAction::Run(step);
    }
    let n: usize = p.done - first.len();
    if n == 0 {
        return PlumbAction::ReadHostMac(
            host_ifname(p.env.container_id.as_str(), p.env.ifname.as_str()),
        );
    }
    let n: usize = n - 1;
    let mut next = neighbor_steps(&p.env, p.ns.as_str(), p.host_mac.as_str(), &p.pod_ip6);
    let ghost g = text::views(next@);
    assert(g.len() == next@.len());
    if n < next.len() {
        assert(g[n as int] == next@[n as int]@);
        let step = next.swap_remove(n);
        return PlumbAction::Run(step);
    }
    if n == next.len() {
        return PlumbAction::Register(endpoint_record(&p.env, &p.conf, p.pod_ip, &p.pod_ip6));
    }
    if n - 1 == next.len() {
        return PlumbAction::ReadPodMac;
    }
    PlumbAction::Done(
        add_result(
            &p.env,
            &p.conf,
            p.pod_ip,
            &p.pod_ip6,
            p.host_mac.as_str(),
            p.pod_mac.as_str(),
        ),
    )
}

/// A pod is registered with the daemon only after every command has run.
pub proof fn registration_follows_plumbing(p: Plumbing)
    requires
        plumb_spec(p) is Register,
    ensures
        p.done == link_plan(p.env@, p.ns@, p.pod_ip).len() + 1 + neighbor_plan(
            p.env@.ifname,
            p.ns@,
            p.host_mac@,
            text::opt(p.pod_ip6),
        ).len(),
{
}

// ------------------------------------------------------------------ results

/// An address entry of the result.
pub open spec fn ip_doc(address: Seq<char>, gw: Seq<char>) -> Doc {
    Doc::Object(
        seq![
            ("address"@, Doc::Text(address)),
            ("gateway"@, Doc::Text(gw)),
            ("interface"@, Doc::Number(1)),
        ],
    )
}

fn ip_entry(address: &str, gw: &str) -> (r: Json)
    ensures
        r@ == ip_doc(address@, gw@),
{
    let mut m: Vec<(String, Json)> = Vec::new();
    assert(text::views(m@) =~= Seq::empty());
    json::put(&mut m, "address", json::text_value(address));
    json::put(&mut m, "gateway", json::text_value(gw));
    json::put(&mut m, "interface", Json::Number(1));
    let r = json::object(m);
    assert(r@->Object_0 =~= ip_doc(address@, gw@)->Object_0);
    r
}

/// A route entry of the result.
pub open spec fn route_doc(dst: Seq<char>, gw: Seq<char>) -> Doc {
    Doc::Object(seq![("dst"@, Doc::Text(dst)), ("gw"@, Doc::Text(gw))])
}

fn route_entry(dst: &str, gw: &str) -> (r: Json)
    ensures
        r@ == route_doc(dst@, gw@),
{
    let mut m: Vec<(String, Json)> = Vec::new();
    assert(text::views(m@) =~= Seq::empty());
    json::put(&mut m, "dst", json::text_value(dst));
    json::put(&mut m, "gw", json::text_value(gw));
    let r = json::object(m);
    assert(r@->Object_0 =~= route_doc(dst@, gw@)->Object_0);
    r
}

/// The addresses of the result.
pub open spec fn ips_of(pod_ip: u32, pod_ip6: Option<Seq<char>>) -> Seq<Doc> {
    let v4 = seq![ip_doc(digits::ip4_text(pod_ip) + "/32"@, POD_GW@)];
    match pod_ip6 {
        None => v4,
        Some(ip6) => v4.push(ip_doc(ip6 + "/128"@, POD_GW6@)),
    }
}

/// The routes of the result.
pub open spec fn routes_of(pod_ip6: Option<Seq<char>>) -> Seq<Doc> {
    let v4 = seq![route_doc("0.0.0.0/0"@, POD_GW@)];
    match pod_ip6 {
        None => v4,
        Some(_) => v4.push(route_doc("::/0"@, POD_GW6@)),
    }
}

/// The interfaces of the result: the host end, then the pod end in its
/// sandbox.
pub open spec fn interfaces_of(
    host_if: Seq<char>,
    host_mac: Seq<char>,
    ifname: Seq<char>,
    pod_mac: Seq<char>,
    netns: Seq<char>,
) -> Seq<Doc> {
    seq![
        Doc::Object(seq![("name"@, Doc::Text(host_if)), ("mac"@, Doc::Text(host_mac))]),
        Doc::Object(
            seq![
                ("name"@, Doc::Text(ifname)),
                ("mac"@, Doc::Text(pod_mac)),
                ("sandbox"@, Doc::Text(netns)),
            ],
        ),
    ]
}

/// The result of a successful ADD.
pub open spec fn add_doc(
    env: CniEnvView,
    conf: NetConfView,
    pod_ip: u32,
    pod_ip6: Option<Seq<char>>,
    host_mac: Seq<char>,
    pod_mac: Seq<char>,
) -> Doc {
    Doc::Object(
        seq![
            ("cniVersion"@, Doc::Text(conf.cni_version)),
            (
                "interfaces"@,
                Doc::List(
                    interfaces_of(
                        host_if_text(env.container_id, env.ifname),
                        host_mac,
                        env.ifname,
                        pod_mac,
                        env.netns,
                    ),
                ),
            ),
            ("ips"@, Doc::List(ips_of(pod_ip, pod_ip6))),
            ("routes"@, Doc::List(routes_of(pod_ip6))),
            ("dns"@, Doc::Object(Seq::empty())),
        ],
    )
}

fn interface_list(
    host_if: &str,
    host_mac: &str,
    ifname: &str,
    pod_mac: &str,
    netns: &str,
) -> (r: Json)
    ensures
        r@ == Doc::List(interfaces_of(host_if@, host_mac@, ifname@, pod_mac@, netns@)),
{
    let mut a: Vec<(String, Json)> = Vec::new();
    assert(text::views(a@) =~= Seq::empty());
    json::put(&mut a, "name", json::text_value(host_if));
    json::put(&mut a, "mac", json::text_value(host_mac));
    assert(text::views(a@) =~= seq![
        ("name"@, Doc::Text(host_if@)),
        ("mac"@, Doc::Text(host_mac@)),
    ]);
    let mut b: Vec<(String, Json)> = Vec::new();
    assert(text::views(b@) =~= Seq::empty());
    json::put(&mut b, "name", json::text_value(ifname));
    json::put(&mut b, "mac", json::text_value(pod_mac));
    json::put(&mut b, "sandbox", json::text_value(netns));
    assert(text::views(b@) =~= seq![
        ("name"@, Doc::Text(ifname@)),
        ("mac"@, Doc::Text(pod_mac@)),
        ("sandbox"@, Doc::Text(netns@)),
    ]);
    let mut l: Vec<Json> = Vec::new();
    l.push(json::object(a));
    l.push(json::object(b));
    assert(text::views(l@) =~= interfaces_of(host_if@, host_mac@, ifname@, pod_mac@, netns@));
    json::list(l)
}

/// The result of a successful ADD.
pub fn add_result(
    env: &CniEnv,
    conf: &NetConf,
    pod_ip: u32,
    pod_ip6: &Option<String>,
    host_mac: &str,
    pod_mac: &str,
) -> (r: Json)
    ensures
        r@ == add_doc(env@, conf@, pod_ip, text::opt(*pod_ip6), host_mac@, pod_mac@),
{
    let host_if = host_ifname(env.container_id.as_str(), env.ifname.as_str());
    let mut pod_addr = digits::fmt_ip4(pod_ip);
    pod_addr.append("/32");
    let mut ips: Vec<Json> = Vec::new();
    ips.push(ip_entry(pod_addr.as_str(), POD_GW));
    let mut routes: Vec<Json> = Vec::new();
    routes.push(route_entry("0.0.0.0/0", POD_GW));
    if let Some(ip6) = pod_ip6 {
        let mut addr6 = ip6.clone();
        addr6.append("/128");
        ips.push(ip_entry(addr6.as_str(), POD_GW6));
        routes.push(route_entry("::/0", POD_GW6));
    }
    assert(text::views(ips@) =~= ips_of(pod_ip, text::opt(*pod_ip6)));
    assert(text::views(routes@) =~= routes_of(text::opt(*pod_ip6)));
    let none: Vec<(String, Json)> = Vec::new();
    assert(text::views(none@) =~= Seq::empty());
    let mut m: Vec<(String, Json)> = Vec::new();
    assert(text::views(m@) =~= Seq::empty());
    json::put(&mut m, "cniVersion", json::text_value(conf.cni_version.as_str()));
    json::put(
        &mut m,
        "interfaces",
        interface_list(
            host_if.as_str(),
            host_mac,
            env.ifname.as_str(),
            pod_mac,
            env.netns.as_str(),
        ),
    );
    json::put(&mut m, "ips", json::list(ips));
    json::put(&mut m, "routes", json::list(routes));
    json::put(&mut m, "dns", json::object(none));
    let r = json::object(m);
    assert(r@->Object_0 =~= add_doc(
        env@,
        conf@,
        pod_ip,
        text::opt(*pod_ip6),
        host_mac@,
        pod_mac@,
    )->Object_0);
    r
}

// --------------------------------------------------------------- operations

/// What an ADD starts with: the namespace to enter, and the address request.
pub struct AddStart {
    pub ns: String,
    pub request: AllocIpRequest,
}

/// What an `AddStart` holds.
#[verifier::ext_equal]
pub struct AddStartView {
    pub ns: Seq<char>,
    pub request: AllocIpRequestView,
}

impl View for AddStart {
    type V = AddStartView;

    open spec fn view(&self) -> AddStartView {
        AddStartView { ns: self.ns@, request: self.request@ }
    }
}

/// Begin an ADD: the configuration must name the pod range, and the path a
/// namespace.
pub fn begin_add(env: &CniEnv, conf: &NetConf) -> (r: Result<AddStart, Coded>)
    ensures
        text::res(r) == (if conf@.ipam.subnet.len() == 0 {
            Err(CodedView { code: ERR_BAD_CONFIG, msg: "ipam.subnet missing (pod CIDR)"@ })
        } else {
            match netns_of(env@.netns) {
                None => Err(netns_error(env@.netns)),
                Some(ns) => Ok(
                    AddStartView {
                        ns,
                        request: AllocIpRequestView {
                            pool: conf@.ipam.subnet,
                            owner: owner_text(env@.container_id, env@.ifname),
                            pool6: conf@.ipam.subnet6,
                        },
                    },
                ),
            }
        }),
{
    if conf.ipam.subnet.as_str().is_empty() {
        return Err(coded(ERR_BAD_CONFIG, "ipam.subnet missing (pod CIDR)".to_owned()));
    }
    let ns = match netns_name(env.netns.as_str()) {
        Ok(ns) => ns,
        Err(e) => {
            return Err(e);
        },
    };
    Ok(
        AddStart {
            ns,
            request: AllocIpRequest {
                pool: conf.ipam.subnet.clone(),
                owner: owner(env.container_id.as_str(), env.ifname.as_str()),
                pool6: conf.ipam.subnet6.clone(),
            },
        },
    )
}

/// The allocated address of a reply, or the error it is answered with.
pub fn reply_address(ip: &str) -> (r: Result<u32, Coded>)
    ensures
        text::res(r) == (match digits::ip4_value(ip@) {
            Some(a) => Ok(a),
            None => Err(
                CodedView {
                    code: ERR_INTERNAL,
                    msg: "bad allocated ip "@ + debug_text(ip@)
                        + ": invalid IPv4 address syntax"@,
                },
            ),
        }),
{
    match digits::parse_ip4(ip) {
        Some(a) => Ok(a),
        None => {
            let mut msg = "bad allocated ip ".to_owned();
            msg.append(quoted(ip).as_str());
            msg.append(": invalid IPv4 address syntax");
            Err(coded(ERR_INTERNAL, msg))
        },
    }
}

/// The error of an allocated IPv6 address that cannot be read; `detail` says
/// why.
pub fn bad_address6(ip6: &str, detail: &str) -> (r: Coded)
    ensures
        r@ == (CodedView {
            code: ERR_INTERNAL,
            msg: "bad allocated ip6 "@ + debug_text(ip6@) + ": "@ + detail@,
        }),
{
    let mut msg = "bad allocated ip6 ".to_owned();
    msg.append(quoted(ip6).as_str());
    msg.append(": ");
    msg.append(detail);
    coded(ERR_INTERNAL, msg)
}

/// What undoes a failed ADD.
pub struct RollBack {
    pub key: CniEndpointKey,
    pub link: IpStep,
    pub release: ReleaseIpRequest,
}

/// What a `RollBack` holds.
#[verifier::ext_equal]
pub struct RollBackView {
    pub key: CniEndpointKeyView,
    pub link: IpStepView,
    pub release: ReleaseIpRequestView,
}

impl View for RollBack {
    type V = RollBackView;

    open spec fn view(&self) -> RollBackView {
        RollBackView { key: self.key@, link: self.link@, release: self.release@ }
    }
}

/// The attachment's key at the daemon.
pub open spec fn key_of(env: CniEnvView) -> CniEndpointKeyView {
    CniEndpointKeyView { container_id: env.container_id, ifname: env.ifname }
}

/// What undoes an ADD to which the daemon gave the address `ip`.
pub open spec fn undo_of(env: CniEnvView, ip: Seq<char>) -> RollBackView {
    RollBackView {
        key: key_of(env),
        link: del_link(host_if_text(env.container_id, env.ifname)),
        release: ReleaseIpRequestView { owner: owner_text(env.container_id, env.ifname), ip },
    }
}

fn endpoint_key(env: &CniEnv) -> (r: CniEndpointKey)
    ensures
        r@ == key_of(env@),
{
    CniEndpointKey { container_id: env.container_id.clone(), ifname: env.ifname.clone() }
}

/// Roll a failed ADD back, so that it leaves nothing behind: the runtime is not
/// obliged to DEL an attachment whose ADD errored. `ip` is the address as the
/// daemon gave it, whether or not it can be read.
pub fn roll_back(env: &CniEnv, ip: &str) -> (r: RollBack)
    ensures
        r@ == undo_of(env@, ip@),
{
    let host_if = host_ifname(env.container_id.as_str(), env.ifname.as_str());
    RollBack {
        key: endpoint_key(env),
        link: delete_link(host_if.as_str()),
        release: ReleaseIpRequest {
            owner: owner(env.container_id.as_str(), env.ifname.as_str()),
            ip: ip.to_owned(),
        },
    }
}

/// What attachments hold on a node: veth pairs by their host end, endpoints
/// registered with the daemon, and allocated addresses with their owners.
#[verifier::ext_equal]
pub struct Held {
    pub links: Set<Seq<char>>,
    pub endpoints: Set<CniEndpointKeyView>,
    pub addresses: Set<ReleaseIpRequestView>,
}

/// What is held once an `ip` command has taken effect.
pub open spec fn ran(h: Held, step: IpStepView) -> Held {
    if step.argv.len() >= 3 && step.argv[0] == "link"@ && step.argv[1] == "add"@ {
        Held { links: h.links.insert(step.argv[2]), ..h }
    } else if step.argv.len() >= 3 && step.argv[0] == "link"@ && step.argv[1] == "del"@ {
        Held { links: h.links.remove(step.argv[2]), ..h }
    } else {
        h
    }
}

/// What is held once the daemon has unregistered an endpoint.
pub open spec fn unregistered(h: Held, key: CniEndpointKeyView) -> Held {
    Held { endpoints: h.endpoints.remove(key), ..h }
}

/// What is held once an action of plumbing has taken effect.
pub open spec fn plumbed(h: Held, a: PlumbActionView) -> Held {
    match a {
        PlumbActionView::Run(step) => ran(h, step),
        PlumbActionView::Register(ep) => Held {
            endpoints: h.endpoints.insert(
                CniEndpointKeyView { container_id: ep.container_id, ifname: ep.ifname },
            ),
            ..h
        },
        _ => h,
    }
}

/// What is held after a run of plumbing; `took[i]` says whether the `i`-th
/// action took effect.
pub open spec fn after_plumbing(h: Held, run: Seq<Plumbing>, took: Seq<bool>) -> Held
    decreases run.len(),
{
    if run.len() == 0 {
        h
    } else {
        let before = after_plumbing(h, run.drop_last(), took);
        if took[run.len() - 1] {
            plumbed(before, plumb_spec(run.last()))
        } else {
            before
        }
    }
}

/// What is held after a roll back.
pub open spec fn rolled_back(h: Held, r: RollBackView) -> Held {
    let h = ran(unregistered(h, r.key), r.link);
    Held { addresses: h.addresses.remove(r.release), ..h }
}

/// What is held with nothing of the attachment in it.
pub open spec fn without(h: Held, env: CniEnvView, ip: Seq<char>) -> Held {
    Held {
        links: h.links.remove(host_if_text(env.container_id, env.ifname)),
        endpoints: h.endpoints.remove(key_of(env)),
        addresses: h.addresses.remove(
            ReleaseIpRequestView { owner: owner_text(env.container_id, env.ifname), ip },
        ),
    }
}

proof fn link_words()
    ensures
        "link"@ != "-n"@,
        "add"@ != "del"@,
        "add"@ != "set"@,
        "del"@ != "set"@,
{
    reveal_strlit("link");
    reveal_strlit("-n");
    reveal_strlit("add");
    reveal_strlit("del");
    reveal_strlit("set");
    assert("link"@[0] != "-n"@[0]);
    assert("add"@[0] != "del"@[0]);
    assert("add"@[0] != "set"@[0]);
    assert("del"@[0] != "set"@[0]);
}

/// An action of plumbing touches the attachment's own pair and endpoint alone.
proof fn plumbing_stays_home(h: Held, p: Plumbing, ip: Seq<char>)
    ensures
        without(plumbed(h, plumb_spec(p)), p.env@, ip) == without(h, p.env@, ip),
{
    link_words();
    let first = link_plan(p.env@, p.ns@, p.pod_ip);
    let next = neighbor_plan(p.env@.ifname, p.ns@, p.host_mac@, text::opt(p.pod_ip6));
    let host_if = host_if_text(p.env@.container_id, p.env@.ifname);
    assert forall|i: int| 0 <= i < first.len() implies (#[trigger] first[i]).argv[0] == "-n"@
        || first[i].argv[1] == "set"@ || first[i].argv[2] == host_if by {}
    assert forall|i: int| 0 <= i < next.len() implies (#[trigger] next[i]).argv[0] == "-n"@ by {}
    assert(without(plumbed(h, plumb_spec(p)), p.env@, ip) =~= without(h, p.env@, ip));
}

/// A failed ADD leaves nothing behind: whatever actions it came to and whichever
/// of them took effect, the roll back removes the pair, the endpoint and the
/// address, and touches nothing else.
pub proof fn roll_back_leaves_nothing(
    h: Held,
    env: CniEnvView,
    ip: Seq<char>,
    run: Seq<Plumbing>,
    took: Seq<bool>,
)
    requires
        forall|i: int| 0 <= i < run.len() ==> (#[trigger] run[i]).env@ == env,
    ensures
        ({
            let given = Held {
                addresses: h.addresses.insert(
                    ReleaseIpRequestView {
                        owner: owner_text(env.container_id, env.ifname),
                        ip,
                    },
                ),
                ..h
            };
            rolled_back(after_plumbing(given, run, took), undo_of(env, ip)) == without(h, env, ip)
        }),
{
    let given = Held {
        addresses: h.addresses.insert(undo_of(env, ip).release),
        ..h
    };
    plumbing_all_home(given, env, ip, run, took);
    let end = after_plumbing(given, run, took);
    assert(rolled_back(end, undo_of(env, ip)) =~= without(end, env, ip)) by {
        link_words();
    }
    assert(without(given, env, ip) =~= without(h, env, ip));
}

proof fn plumbing_all_home(
    h: Held,
    env: CniEnvView,
    ip: Seq<char>,
    run: Seq<Plumbing>,
    took: Seq<bool>,
)
    requires
        forall|i: int| 0 <= i < run.len() ==> (#[trigger] run[i]).env@ == env,
    ensures
        without(after_plumbing(h, run, took), env, ip) == without(h, env, ip),
    decreases run.len(),
{
    if run.len() > 0 {
        let head = run.drop_last();
        assert forall|i: int| 0 <= i < head.len() implies (#[trigger] head[i]).env@ == env by {
            assert(head[i] == run[i]);
        }
        plumbing_all_home(h, env, ip, head, took);
        assert(run[run.len() - 1].env@ == env);
        plumbing_stays_home(after_plumbing(h, head, took), run.last(), ip);
    }
}

/// How far a DEL has come.
#[derive(Clone, Copy)]
pub enum DelStage {
    /// The daemon is to be reached.
    Start,
    /// The daemon is reached: the endpoint is to be unregistered.
    Reached,
    /// The pair is to be taken down.
    Unlink,
    /// The DEL has succeeded.
    Done,
}

/// What a DEL asks for next. It has no way to fail.
pub enum DelAction {
    /// Connect to the daemon.
    Connect,
    /// Unregister the endpoint.
    Unregister(CniEndpointKey),
    /// Take the pair down.
    Run(IpStep),
    /// Report success.
    Done,
}

/// What a `DelAction` holds.
#[verifier::ext_equal]
pub enum DelActionView {
    Connect,
    Unregister(CniEndpointKeyView),
    Run(IpStepView),
    Done,
}

impl View for DelAction {
    type V = DelActionView;

    open spec fn view(&self) -> DelActionView {
        match self {
            DelAction::Connect => DelActionView::Connect,
            DelAction::Unregister(k) => DelActionView::Unregister(k@),
            DelAction::Run(s) => DelActionView::Run(s@),
            DelAction::Done => DelActionView::Done,
        }
    }
}

/// The actions of a DEL: the endpoint first, since the daemon is normally still
/// up during pod teardown, then the pair.
pub open spec fn del_action(env: CniEnvView, stage: DelStage) -> DelActionView {
    match stage {
        DelStage::Start => DelActionView::Connect,
        DelStage::Reached => DelActionView::Unregister(key_of(env)),
        DelStage::Unlink => DelActionView::Run(
            del_link(host_if_text(env.container_id, env.ifname)),
        ),
        DelStage::Done => DelActionView::Done,
    }
}

/// The stage after an action that succeeded or not. Without the daemon there is
/// nobody to unregister with; the pair still comes down.
pub open spec fn del_stage(stage: DelStage, ok: bool) -> DelStage {
    match stage {
        DelStage::Start => if ok {
            DelStage::Reached
        } else {
            DelStage::Unlink
        },
        DelStage::Reached => DelStage::Unlink,
        DelStage::Unlink => DelStage::Done,
        DelStage::Done => DelStage::Done,
    }
}

/// The next action of a DEL.
pub fn del_next(env: &CniEnv, stage: DelStage) -> (r: DelAction)
    ensures
        r@ == del_action(env@, stage),
{
    match stage {
        DelStage::Start => DelAction::Connect,
        DelStage::Reached => DelAction::Unregister(endpoint_key(env)),
        DelStage::Unlink => {
            let host_if = host_ifname(env.container_id.as_str(), env.ifname.as_str());
            DelAction::Run(delete_link(host_if.as_str()))
        },
        DelStage::Done => DelAction::Done,
    }
}

/// The stage after the action asked for, which succeeded or not.
pub fn del_after(stage: DelStage, ok: bool) -> (r: DelStage)
    ensures
        r == del_stage(stage, ok),
{
    match stage {
        DelStage::Start => if ok {
            DelStage::Reached
        } else {
            DelStage::Unlink
        },
        DelStage::Reached => DelStage::Unlink,
        DelStage::Unlink => DelStage::Done,
        DelStage::Done => DelStage::Done,
    }
}

/// Which of a DEL's actions succeed, if they are asked for.
pub struct DelOutcomes {
    pub reached: bool,
    pub unregistered: bool,
    pub unlinked: bool,
}

impl DelOutcomes {
    /// Whether the action asked for at `stage` succeeds.
    pub open spec fn at(self, stage: DelStage) -> bool {
        match stage {
            DelStage::Start => self.reached,
            DelStage::Reached => self.unregistered,
            DelStage::Unlink => self.unlinked,
            DelStage::Done => true,
        }
    }
}

/// How many actions are left at most.
pub open spec fn del_left(stage: DelStage) -> nat {
    match stage {
        DelStage::Start => 3,
        DelStage::Reached => 2,
        DelStage::Unlink => 1,
        DelStage::Done => 0,
    }
}

/// What a DEL does from `stage` on: what is held at its end, and the actions
/// that it asked for. It runs until it reports success.
pub open spec fn del_run(env: CniEnvView, h: Held, stage: DelStage, o: DelOutcomes) -> (
    Held,
    Seq<DelActionView>,
)
    decreases del_left(stage),
{
    let a = del_action(env, stage);
    if stage is Done {
        (h, seq![a])
    } else {
        let ok = o.at(stage);
        let next = if !ok {
            h
        } else {
            match a {
                DelActionView::Unregister(k) => unregistered(h, k),
                DelActionView::Run(s) => ran(h, s),
                _ => h,
            }
        };
        let (end, rest) = del_run(env, next, del_stage(stage, ok), o);
        (end, seq![a] + rest)
    }
}

/// A DEL always succeeds, and tries all it can: it asks to unregister exactly
/// where it reached the daemon, and to take the pair down in any case. What it
/// leaves is what the failed actions did not remove: the endpoint, where the
/// daemon could not be reached or refused; the pair, where the deletion failed.
pub proof fn del_always_succeeds(env: CniEnvView, h: Held, o: DelOutcomes)
    ensures
        ({
            let (end, asked) = del_run(env, h, DelStage::Start, o);
            let unlink = DelActionView::Run(del_link(host_if_text(env.container_id, env.ifname)));
            &&& asked == (if o.reached {
                seq![
                    DelActionView::Connect,
                    DelActionView::Unregister(key_of(env)),
                    unlink,
                    DelActionView::Done,
                ]
            } else {
                seq![DelActionView::Connect, unlink, DelActionView::Done]
            })
            &&& end == (Held {
                links: if o.unlinked {
                    h.links.remove(host_if_text(env.container_id, env.ifname))
                } else {
                    h.links
                },
                endpoints: if o.reached && o.unregistered {
                    h.endpoints.remove(key_of(env))
                } else {
                    h.endpoints
                },
                addresses: h.addresses,
            })
        }),
{
    link_words();
    reveal_with_fuel(del_run, 4);
    let (end, asked) = del_run(env, h, DelStage::Start, o);
    let unlink = DelActionView::Run(del_link(host_if_text(env.container_id, env.ifname)));
    if o.reached {
        assert(asked =~= seq![
            DelActionView::Connect,
            DelActionView::Unregister(key_of(env)),
            unlink,
            DelActionView::Done,
        ]);
    } else {
        assert(asked =~= seq![DelActionView::Connect, unlink, DelActionView::Done]);
    }
}

/// A DEL may be repeated: a second one changes nothing that the first did not
/// leave, and one whose actions all succeed makes up for what an earlier one
/// failed to do.
pub proof fn del_repeats(env: CniEnvView, h: Held, o: DelOutcomes)
    ensures
        ({
            let once = del_run(env, h, DelStage::Start, o).0;
            let all = DelOutcomes { reached: true, unregistered: true, unlinked: true };
            &&& del_run(env, once, DelStage::Start, o).0 == once
            &&& del_run(env, once, DelStage::Start, all).0 == del_run(
                env,
                h,
                DelStage::Start,
                all,
            ).0
        }),
{
    let once = del_run(env, h, DelStage::Start, o).0;
    let all = DelOutcomes { reached: true, unregistered: true, unlinked: true };
    del_always_succeeds(env, h, o);
    del_always_succeeds(env, once, o);
    del_always_succeeds(env, h, all);
    del_always_succeeds(env, once, all);
    assert(del_run(env, once, DelStage::Start, o).0 =~= once);
    assert(del_run(env, once, DelStage::Start, all).0 =~= del_run(
        env,
        h,
        DelStage::Start,
        all,
    ).0);
}

/// DEL undoes ADD: however far an ADD came, a DEL whose actions succeed leaves
/// neither its pair nor its endpoint, and touches nothing else. (The address
/// goes with the endpoint, by the daemon's own doing.)
pub proof fn del_undoes_add(h: Held, env: CniEnvView, run: Seq<Plumbing>, took: Seq<bool>)
    requires
        forall|i: int| 0 <= i < run.len() ==> (#[trigger] run[i]).env@ == env,
    ensures
        ({
            let all = DelOutcomes { reached: true, unregistered: true, unlinked: true };
            let end = del_run(env, after_plumbing(h, run, took), DelStage::Start, all).0;
            end == (Held {
                links: h.links.remove(host_if_text(env.container_id, env.ifname)),
                endpoints: h.endpoints.remove(key_of(env)),
                addresses: h.addresses,
            })
        }),
{
    let all = DelOutcomes { reached: true, unregistered: true, unlinked: true };
    let ip = Seq::<char>::empty();
    let added = after_plumbing(h, run, took);
    del_always_succeeds(env, added, all);
    plumbing_all_home(h, env, ip, run, took);
    let end = del_run(env, added, DelStage::Start, all).0;
    assert(end.links == without(added, env, ip).links);
    assert(end.endpoints == without(added, env, ip).endpoints);
    plumbing_keeps_addresses(h, run, took);
}

proof fn plumbing_keeps_addresses(h: Held, run: Seq<Plumbing>, took: Seq<bool>)
    ensures
        after_plumbing(h, run, took).addresses == h.addresses,
    decreases run.len(),
{
    if run.len() > 0 {
        plumbing_keeps_addresses(h, run.drop_last(), took);
    }
}

/// The host interface of the attachment's endpoint.
pub open spec fn attached_if(
    eps: Seq<CniEndpointView>,
    container_id: Seq<char>,
    ifname: Seq<char>,
) -> Option<Seq<char>>
    decreases eps.len(),
{
    if eps.len() == 0 {
        None
    } else if eps[0].container_id == container_id && eps[0].ifname == ifname {
        Some(eps[0].host_if)
    } else {
        attached_if(eps.skip(1), container_id, ifname)
    }
}

/// CHECK, first half: the attachment must have an endpoint.
pub fn check_endpoint(env: &CniEnv, endpoints: &[CniEndpoint]) -> (r: Result<String, Coded>)
    ensures
        text::res(r) == (match attached_if(
            text::views(endpoints@),
            env@.container_id,
            env@.ifname,
        ) {
            Some(host_if) => Ok(host_if),
            None => Err(
                CodedView {
                    code: ERR_INTERNAL,
                    msg: "no endpoint for "@ + owner_text(env@.container_id, env@.ifname),
                },
            ),
        }),
{
    let ghost all = text::views(endpoints@);
    let mut i: usize = 0;
    assert(all.skip(0) =~= all);
    while i < endpoints.len()
        invariant
            i <= endpoints@.len(),
            all == text::views(endpoints@),
            attached_if(all, env@.container_id, env@.ifname) == attached_if(
                all.skip(i as int),
                env@.container_id,
                env@.ifname,
            ),
        decreases endpoints@.len() - i,
    {
        proof {
            assert(all.skip(i as int)[0] == endpoints@[i as int]@);
            assert(all.skip(i as int).skip(1) =~= all.skip(i + 1));
        }
        let ep = &endpoints[i];
        if text::same(ep.container_id.as_str(), env.container_id.as_str()) && text::same(
            ep.ifname.as_str(),
            env.ifname.as_str(),
        ) {
            return Ok(ep.host_if.clone());
        }
        i += 1;
    }
    let mut msg = "no endpoint for ".to_owned();
    let o = owner(env.container_id.as_str(), env.ifname.as_str());
    msg.append(o.as_str());
    Err(coded(ERR_INTERNAL, msg))
}

/// CHECK, second half: the host interface must exist.
pub fn check_interface(host_if: &str, exists: bool) -> (r: Option<Coded>)
    ensures
        text::opt(r) == (if exists {
            None
        } else {
            Some(
                CodedView {
                    code: ERR_INTERNAL,
                    msg: "host interface "@ + host_if@ + " missing"@,
                },
            )
        }),
{
    if exists {
        return None;
    }
    let mut msg = "host interface ".to_owned();
    msg.append(host_if);
    msg.append(" missing");
    Some(coded(ERR_INTERNAL, msg))
}

/// Whether the runtime still considers the endpoint's attachment valid.
pub open spec fn still_valid(valid: Seq<AttachmentView>, ep: CniEndpointView) -> bool {
    exists|i: int|
        0 <= i < valid.len() && (#[trigger] valid[i]).container_id == ep.container_id && (
        valid[i].ifname.len() == 0 || valid[i].ifname == ep.ifname)
}

fn is_valid(valid: &Vec<Attachment>, ep: &CniEndpoint) -> (r: bool)
    ensures
        r == still_valid(text::views(valid@), ep@),
{
    let ghost all = text::views(valid@);
    let mut i: usize = 0;
    while i < valid.len()
        invariant
            i <= valid@.len(),
            all == text::views(valid@),
            forall|j: int|
                0 <= j < i ==> !((#[trigger] all[j]).container_id == ep@.container_id && (
                all[j].ifname.len() == 0 || all[j].ifname == ep@.ifname)),
        decreases valid@.len() - i,
    {
        let a = &valid[i];
        assert(all[i as int] == valid@[i as int]@);
        if text::same(a.container_id.as_str(), ep.container_id.as_str()) && (
        a.ifname.as_str().is_empty() || text::same(a.ifname.as_str(), ep.ifname.as_str())) {
            return true;
        }
        i += 1;
    }
    false
}

/// What a sweep removes: the endpoint's registration, and its link.
pub struct GcStep {
    pub key: CniEndpointKey,
    pub link: IpStep,
}

/// What a `GcStep` holds.
#[verifier::ext_equal]
pub struct GcStepView {
    pub key: CniEndpointKeyView,
    pub link: IpStepView,
}

impl View for GcStep {
    type V = GcStepView;

    open spec fn view(&self) -> GcStepView {
        GcStepView { key: self.key@, link: self.link@ }
    }
}

/// The sweep of the endpoints whose attachment is no longer valid, in order.
pub open spec fn gc_spec(valid: Seq<AttachmentView>, eps: Seq<CniEndpointView>) -> Seq<GcStepView>
    decreases eps.len(),
{
    if eps.len() == 0 {
        Seq::empty()
    } else {
        let head = gc_spec(valid, eps.drop_last());
        let ep = eps.last();
        if still_valid(valid, ep) {
            head
        } else {
            head.push(
                GcStepView {
                    key: CniEndpointKeyView { container_id: ep.container_id, ifname: ep.ifname },
                    link: del_link(ep.host_if),
                },
            )
        }
    }
}

/// Sweep the endpoints whose attachment is no longer valid.
pub fn sweep(conf: &NetConf, endpoints: &[CniEndpoint]) -> (r: Vec<GcStep>)
    ensures
        text::views(r@) == gc_spec(conf@.valid_attachments, text::views(endpoints@)),
{
    let mut out: Vec<GcStep> = Vec::new();
    let ghost valid = conf@.valid_attachments;
    let ghost all = text::views(endpoints@);
    let mut i: usize = 0;
    assert(text::views(out@) =~= gc_spec(valid, all.take(0)));
    while i < endpoints.len()
        invariant
            i <= endpoints@.len(),
            all == text::views(endpoints@),
            valid == conf@.valid_attachments,
            text::views(out@) == gc_spec(valid, all.take(i as int)),
        decreases endpoints@.len() - i,
    {
        proof {
            assert(all.take(i + 1).drop_last() =~= all.take(i as int));
            assert(all.take(i + 1).last() == endpoints@[i as int]@);
        }
        let ep = &endpoints[i];
        if !is_valid(&conf.valid_attachments, ep) {
            let step = GcStep {
                key: CniEndpointKey {
                    container_id: ep.container_id.clone(),
                    ifname: ep.ifname.clone(),
                },
                link: delete_link(ep.host_if.as_str()),
            };
            let ghost before = text::views(out@);
            let ghost v = step@;
            out.push(step);
            assert(text::views(out@) =~= before.push(v));
        }
        i += 1;
    }
    assert(all.take(i as int) =~= all);
    out
}

/// A sweep never removes an attachment that is still valid.
pub proof fn sweep_keeps_valid(valid: Seq<AttachmentView>, eps: Seq<CniEndpointView>, i: int)
    requires
        0 <= i < gc_spec(valid, eps).len(),
    ensures
        exists|j: int|
            0 <= j < eps.len() && !still_valid(valid, #[trigger] eps[j]) && gc_spec(valid, eps)[i]
                == (GcStepView {
                key: CniEndpointKeyView {
                    container_id: eps[j].container_id,
                    ifname: eps[j].ifname,
                },
                link: del_link(eps[j].host_if),
            }),
    decreases eps.len(),
{
    if eps.len() > 0 {
        let head = eps.drop_last();
        if i < gc_spec(valid, head).len() {
            sweep_keeps_valid(valid, head, i);
            let j = choose|j: int|
                0 <= j < head.len() && !still_valid(valid, #[trigger] head[j]) && gc_spec(
                    valid,
                    head,
                )[i] == (GcStepView {
                    key: CniEndpointKeyView {
                        container_id: head[j].container_id,
                        ifname: head[j].ifname,
                    },
                    link: del_link(head[j].host_if),
                });
            assert(eps[j] == head[j]);
        } else {
            assert(eps[eps.len() - 1] == eps.last());
        }
    }
}

/// A sweep removes every attachment that is no longer valid.
pub proof fn sweep_removes_stale(valid: Seq<AttachmentView>, eps: Seq<CniEndpointView>, j: int)
    requires
        0 <= j < eps.len(),
        !still_valid(valid, eps[j]),
    ensures
        gc_spec(valid, eps).contains(
            GcStepView {
                key: CniEndpointKeyView {
                    container_id: eps[j].container_id,
                    ifname: eps[j].ifname,
                },
                link: del_link(eps[j].host_if),
            },
        ),
    decreases eps.len(),
{
    let head = gc_spec(valid, eps.drop_last());
    let all = gc_spec(valid, eps);
    if j == eps.len() - 1 {
        assert(all[all.len() - 1] == head.push(all.last()).last());
    } else {
        sweep_removes_stale(valid, eps.drop_last(), j);
        let step = GcStepView {
            key: CniEndpointKeyView { container_id: eps[j].container_id, ifname: eps[j].ifname },
            link: del_link(eps[j].host_if),
        };
        let i = choose|i: int| 0 <= i < head.len() && head[i] == step;
        assert(all[i] == step);
    }
}

// ------------------------------------------------------------------- errors

/// The error of a configuration that cannot be decoded.
pub fn bad_conf(detail: &str) -> (r: Coded)
    ensures
        r@ == (CodedView { code: ERR_DECODE, msg: "bad network configuration: "@ + detail@ }),
{
    let mut msg = "bad network configuration: ".to_owned();
    msg.append(detail);
    coded(ERR_DECODE, msg)
}

/// The error of a daemon call that failed.
pub fn call_failed(call: &str, detail: &str) -> (r: Coded)
    ensures
        r@ == (CodedView { code: ERR_INTERNAL, msg: call@ + " failed: "@ + detail@ }),
{
    let mut msg = call.to_owned();
    msg.append(" failed: ");
    msg.append(detail);
    coded(ERR_INTERNAL, msg)
}

/// The error of a daemon that cannot be reached.
pub fn unreachable(ep: &str, detail: &str) -> (r: Coded)
    ensures
        r@ == (CodedView {
            code: ERR_TRANSIENT,
            msg: "cradle daemon unreachable at "@ + ep@ + ": "@ + detail@,
        }),
{
    let mut msg = "cradle daemon unreachable at ".to_owned();
    msg.append(ep);
    msg.append(": ");
    msg.append(detail);
    coded(ERR_TRANSIENT, msg)
}

/// The answer of STATUS: none if the daemon is reached and healthy. Of a daemon
/// that is reached, `health` is what it complains of.
pub fn status_error(reached: bool, health: &Option<String>) -> (r: Option<Coded>)
    ensures
        text::opt(r) == (if !reached {
            Some(
                CodedView {
                    code: ERR_PLUGIN_NOT_AVAILABLE,
                    msg: "cradle daemon unreachable"@,
                },
            )
        } else {
            match text::opt(*health) {
                Some(e) => Some(
                    CodedView {
                        code: ERR_PLUGIN_NOT_AVAILABLE,
                        msg: "cradle daemon unhealthy: "@ + e,
                    },
                ),
                None => None,
            }
        }),
{
    if !reached {
        return Some(coded(ERR_PLUGIN_NOT_AVAILABLE, "cradle daemon unreachable".to_owned()));
    }
    match health {
        Some(e) => {
            let mut msg = "cradle daemon unhealthy: ".to_owned();
            msg.append(e.as_str());
            Some(coded(ERR_PLUGIN_NOT_AVAILABLE, msg))
        },
        None => None,
    }
}

/// An error without a code.
pub fn uncoded() -> (r: Coded)
    ensures
        r@ == (CodedView { code: ERR_INTERNAL, msg: "internal error"@ }),
{
    coded(ERR_INTERNAL, "internal error".to_owned())
}

// ----------------------------------------------------------------- commands

/// An operation of the plugin.
#[derive(Clone, Copy, Debug, PartialEq, Eq, Structural)]
pub enum Verb {
    Version,
    Add,
    Del,
    Check,
    Status,
    Gc,
}

/// The operation that `CNI_COMMAND` names.
pub open spec fn verb_of(command: Seq<char>) -> Option<Verb> {
    if command == "VERSION"@ {
        Some(Verb::Version)
    } else if command == "ADD"@ {
        Some(Verb::Add)
    } else if command == "DEL"@ {
        Some(Verb::Del)
    } else if command == "CHECK"@ {
        Some(Verb::Check)
    } else if command == "STATUS"@ {
        Some(Verb::Status)
    } else if command == "GC"@ {
        Some(Verb::Gc)
    } else {
        None
    }
}

/// The operation that `CNI_COMMAND` names; any other word is an error.
pub fn parse_command(command: &str) -> (r: Result<Verb, Coded>)
    ensures
        match r {
            Ok(v) => verb_of(command@) == Some(v),
            Err(e) => verb_of(command@) is None && e@ == (CodedView {
                code: ERR_BAD_ENV,
                msg: "unknown CNI_COMMAND "@ + debug_text(command@),
            }),
        },
{
    if text::same(command, "VERSION") {
        Ok(Verb::Version)
    } else if text::same(command, "ADD") {
        Ok(Verb::Add)
    } else if text::same(command, "DEL") {
        Ok(Verb::Del)
    } else if text::same(command, "CHECK") {
        Ok(Verb::Check)
    } else if text::same(command, "STATUS") {
        Ok(Verb::Status)
    } else if text::same(command, "GC") {
        Ok(Verb::Gc)
    } else {
        let mut msg = "unknown CNI_COMMAND ".to_owned();
        msg.append(quoted(command).as_str());
        Err(coded(ERR_BAD_ENV, msg))
    }
}

impl Verb {
    /// Whether the operation needs the pod's namespace: ADD and CHECK do, DEL
    /// must work after it is gone.
    pub fn needs_netns(&self) -> (r: bool)
        ensures
            r == (*self == Verb::Add || *self == Verb::Check),
    {
        *self == Verb::Add || *self == Verb::Check
    }
}

/// The version a document is answered with: its own, or the default.
pub open spec fn version_for(echo: Option<Seq<char>>) -> Seq<char> {
    match echo {
        Some(v) => v,
        None => "1.1.0"@,
    }
}

/// The version a configuration is answered with: its own when it can be read.
pub fn answer_version(stdin: &str) -> (r: String)
    ensures
        r@ == version_for(json_text_member(stdin@, "cniVersion"@)),
{
    version_or_default(top_level_text(stdin, "cniVersion"))
}

/// The version an echoed one stands for.
pub fn version_or_default(echo: Option<String>) -> (r: String)
    ensures
        r@ == version_for(text::opt(echo)),
{
    match echo {
        Some(v) => v,
        None => default_cni_version(),
    }
}

/// The result of VERSION.
pub open spec fn version_doc(version: Seq<char>) -> Doc {
    Doc::Object(
        seq![
            ("cniVersion"@, Doc::Text(version)),
            (
                "supportedVersions"@,
                Doc::List(seq![Doc::Text("1.0.0"@), Doc::Text("1.1.0"@)]),
            ),
        ],
    )
}

/// The result of VERSION: echoes the input's version when it can be read.
pub fn version_result(stdin: &str) -> (r: Json)
    ensures
        r@ == version_doc(version_for(json_text_member(stdin@, "cniVersion"@))),
{
    let v = answer_version(stdin);
    version_object(v.as_str())
}

/// The result of VERSION for a version to echo.
pub fn version_object(version: &str) -> (r: Json)
    ensures
        r@ == version_doc(version@),
{
    let mut l: Vec<Json> = Vec::new();
    l.push(json::text_value("1.0.0"));
    l.push(json::text_value("1.1.0"));
    assert(text::views(l@) =~= seq![Doc::Text("1.0.0"@), Doc::Text("1.1.0"@)]);
    let mut m: Vec<(String, Json)> = Vec::new();
    assert(text::views(m@) =~= Seq::empty());
    json::put(&mut m, "cniVersion", json::text_value(version));
    json::put(&mut m, "supportedVersions", json::list(l));
    let r = json::object(m);
    assert(r@->Object_0 =~= version_doc(version@)->Object_0);
    r
}

/// The document of an error.
pub open spec fn error_doc(version: Seq<char>, e: CodedView, details: Seq<char>) -> Doc {
    Doc::Object(
        seq![
            ("cniVersion"@, Doc::Text(version)),
            ("code"@, Doc::Number(e.code)),
            ("msg"@, Doc::Text(e.msg)),
            ("details"@, Doc::Text(details)),
        ],
    )
}

/// The document of an error, in the version of the input.
pub fn error_result(stdin: &str, e: &Coded, details: &str) -> (r: Json)
    ensures
        r@ == error_doc(
            version_for(json_text_member(stdin@, "cniVersion"@)),
            e@,
            details@,
        ),
{
    let v = answer_version(stdin);
    error_object(v.as_str(), e, details)
}

/// The document of an error, in a version.
pub fn error_object(version: &str, e: &Coded, details: &str) -> (r: Json)
    ensures
        r@ == error_doc(version@, e@, details@),
{
    let mut m: Vec<(String, Json)> = Vec::new();
    assert(text::views(m@) =~= Seq::empty());
    json::put(&mut m, "cniVersion", json::text_value(version));
    json::put(&mut m, "code", Json::Number(e.code));
    json::put(&mut m, "msg", json::text_value(e.msg.as_str()));
    json::put(&mut m, "details", json::text_value(details));
    let r = json::object(m);
    assert(r@->Object_0 =~= error_doc(version@, e@, details@)->Object_0);
    r
}

} // verus!
