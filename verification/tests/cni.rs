use cradle::cni::{
    add_result, answer_version, bad_address6, bad_conf, begin_add, call_failed, check_endpoint,
    check_interface, cni_arg, default_cni_version, default_grpc_endpoint, del_after, del_next,
    error_result, host_ifname, link_ether, link_steps, neighbor_steps, netns_name,
    parse_command, plumb, reply_address, require_env, roll_back, status_error, sweep,
    temp_ifname, uncoded, version_object, version_or_default, version_result, Attachment,
    CniEnv, DelAction, DelStage, EnvVars, IpamConf, NetConf, PlumbAction, Plumbing, Verb,
    ERR_BAD_CONFIG, ERR_BAD_ENV, ERR_DECODE, ERR_INTERNAL, ERR_PLUGIN_NOT_AVAILABLE,
    ERR_TRANSIENT, ERR_UNSUPPORTED_FIELD,
};
use cradle::digits::parse_ip4;
use cradle::json::Json;
use cradle::messages::CniEndpoint;
use cradle::text::{trim, words_of};

fn env() -> CniEnv {
    CniEnv {
        container_id: "abc".to_string(),
        netns: "/var/run/netns/pod1".to_string(),
        ifname: "eth0".to_string(),
        pod_name: "web".to_string(),
        pod_namespace: "default".to_string(),
    }
}

fn conf() -> NetConf {
    NetConf {
        cni_version: "1.0.0".to_string(),
        name: "cradle".to_string(),
        grpc_endpoint: default_grpc_endpoint(),
        ipam: IpamConf {
            plugin_type: "cradle".to_string(),
            subnet: "10.244.0.0/24".to_string(),
            subnet6: String::new(),
        },
        vrf: 3,
        chained: true,
        valid_attachments: vec![],
    }
}

fn text(j: Option<&Json>) -> &str {
    j.unwrap().as_text().unwrap()
}

fn join(argv: &Vec<String>) -> String {
    argv.join(" ")
}

fn set(v: &str) -> Option<String> {
    Some(v.to_string())
}

fn vars() -> EnvVars {
    EnvVars {
        container_id: set("abc"),
        netns: set("/run/netns/pod1"),
        ifname: set("eth0"),
        args: set("IgnoreUnknown=1;K8S_POD_NAMESPACE=default;K8S_POD_NAME=web=1"),
    }
}

#[test]
fn args_are_found_by_key() {
    assert_eq!(cni_arg("A=1;B=2;A=3", "A"), "1");
    assert_eq!(cni_arg("A=1;B=2", "B"), "2");
    assert_eq!(cni_arg("A=x=y", "A"), "x=y");
    assert_eq!(cni_arg("junk;=;A", "A"), "");
    assert_eq!(cni_arg("", "A"), "");
    assert_eq!(cni_arg("=v", ""), "v");
}

#[test]
fn environment_is_loaded_or_refused() {
    let e = CniEnv::load(&vars(), true).ok().unwrap();
    assert_eq!(e.container_id, "abc");
    assert_eq!(e.netns, "/run/netns/pod1");
    assert_eq!(e.pod_name, "web=1");
    assert_eq!(e.pod_namespace, "default");
    let mut v = vars();
    v.netns = None;
    v.args = None;
    let d = CniEnv::load(&v, false).ok().unwrap();
    assert_eq!(d.netns, "");
    assert_eq!(d.pod_name, "");
    let err = CniEnv::load(&v, true).err().unwrap();
    assert_eq!(err.code, ERR_BAD_ENV);
    assert_eq!(err.msg, "required env CNI_NETNS missing");
    v.container_id = set("");
    assert_eq!(
        CniEnv::load(&v, true).err().unwrap().msg,
        "required env CNI_CONTAINERID missing"
    );
    let mut w = vars();
    w.ifname = None;
    assert_eq!(
        CniEnv::load(&w, true).err().unwrap().msg,
        "required env CNI_IFNAME missing"
    );
    assert_eq!(require_env("X", &set("y")).ok().unwrap(), "y");
}

#[test]
fn interface_names_are_hashes() {
    // FNV-1a/64 of "abc/eth0", its low forty bits.
    let mut h: u64 = 0xcbf2_9ce4_8422_2325;
    for b in "abc/eth0".bytes() {
        h = (h ^ b as u64).wrapping_mul(0x0000_0100_0000_01b3);
    }
    let want = format!("crdl{:010x}", h & 0xff_ffff_ffff);
    assert_eq!(host_ifname("abc", "eth0"), want);
    assert_eq!(want.len(), 14);
    let mut t: u64 = 0xcbf2_9ce4_8422_2325;
    for b in want.bytes() {
        t = (t ^ b as u64).wrapping_mul(0x0000_0100_0000_01b3);
    }
    assert_eq!(temp_ifname(&want), format!("tmp{:010x}", t & 0xff_ffff_ffff));
    assert_ne!(host_ifname("abc", "eth0"), host_ifname("abc", "eth1"));
}

#[test]
fn namespaces_are_named_by_path() {
    assert_eq!(netns_name("/var/run/netns/a").ok().unwrap(), "a");
    assert_eq!(netns_name("/run/netns/cni-1").ok().unwrap(), "cni-1");
    for bad in ["/proc/1/ns/net", "/run/netns/", "/run/netns/a/b", "", "/var/run/netns/x/y"] {
        let e = netns_name(bad).err().unwrap();
        assert_eq!(e.code, ERR_UNSUPPORTED_FIELD);
        assert_eq!(
            e.msg,
            format!("unsupported CNI_NETNS path {bad:?} (need a named netns under /run/netns)")
        );
    }
}

#[test]
fn mac_addresses_are_found() {
    let out = "2: eth0@if3: <BROADCAST> mtu 1500\\    link/ether 0a:1b:2c:3d:4e:5f brd ff:ff";
    assert_eq!(link_ether(out).unwrap(), "0a:1b:2c:3d:4e:5f");
    assert!(link_ether("link/loopback 00:00").is_none());
    assert!(link_ether("x link/ether").is_none());
    assert!(link_ether("").is_none());
    assert_eq!(trim(" \t0a:1b\n"), "0a:1b");
    assert_eq!(trim("\n"), "");
    assert_eq!(words_of("  a \u{3000}b\tc"), vec!["a", "b", "c"]);
}

#[test]
fn plumbing_runs_in_order() {
    let ip = parse_ip4("10.244.0.5").unwrap();
    let mut p = Plumbing {
        env: env(),
        conf: conf(),
        ns: "pod1".to_string(),
        pod_ip: ip,
        pod_ip6: Some("fd00::5".to_string()),
        done: 0,
        host_mac: String::new(),
        pod_mac: String::new(),
    };
    let h = host_ifname("abc", "eth0");
    let t = temp_ifname(&h);
    let mut ran: Vec<String> = vec![];
    let mut registered = false;
    let mut result: Option<Json> = None;
    while result.is_none() {
        match plumb(&p) {
            PlumbAction::Run(s) => {
                assert_eq!(s.required, !ran.is_empty());
                ran.push(join(&s.argv));
            }
            PlumbAction::ReadHostMac(i) => {
                assert_eq!(i, h);
                assert_eq!(ran.len(), 9);
                p.host_mac = "aa:aa".to_string();
            }
            PlumbAction::Register(e) => {
                assert_eq!(ran.len(), 14);
                assert_eq!(e.host_if, h);
                assert_eq!(e.ip, "10.244.0.5");
                assert_eq!(e.ip6, "fd00::5");
                assert_eq!(e.vrf_id, 3);
                assert_eq!(e.host_ifindex, 0);
                assert!(e.chained);
                assert_eq!(e.pod_name, "web");
                registered = true;
            }
            PlumbAction::ReadPodMac => {
                assert!(registered);
                p.pod_mac = "bb:bb".to_string();
            }
            PlumbAction::Done(j) => {
                result = Some(j);
            }
        }
        p.done += 1;
    }
    assert_eq!(
        ran,
        vec![
            format!("link del {h}"),
            format!("link add {h} type veth peer name {t}"),
            format!("link set {t} netns pod1 name eth0"),
            format!("link set {h} up"),
            "-n pod1 link set lo up".to_string(),
            "-n pod1 addr add 10.244.0.5/32 dev eth0".to_string(),
            "-n pod1 link set eth0 up".to_string(),
            "-n pod1 route add 169.254.1.1/32 dev eth0 scope link".to_string(),
            "-n pod1 route add default via 169.254.1.1 dev eth0".to_string(),
            "-n pod1 neigh replace 169.254.1.1 lladdr aa:aa dev eth0 nud permanent".to_string(),
            "-n pod1 addr add fd00::5/128 dev eth0 nodad".to_string(),
            "-n pod1 route add fe80::1 dev eth0".to_string(),
            "-n pod1 route add default via fe80::1 dev eth0".to_string(),
            "-n pod1 neigh replace fe80::1 lladdr aa:aa dev eth0 nud permanent".to_string(),
        ]
    );
    let r = result.unwrap();
    assert_eq!(text(r.get("cniVersion")), "1.0.0");
    let ifs = r.get("interfaces").unwrap();
    assert_eq!(text(ifs.at(0).unwrap().get("name")), h);
    assert_eq!(text(ifs.at(0).unwrap().get("mac")), "aa:aa");
    assert_eq!(text(ifs.at(1).unwrap().get("mac")), "bb:bb");
    assert_eq!(text(ifs.at(1).unwrap().get("sandbox")), "/var/run/netns/pod1");
    assert_eq!(text(r.get("ips").unwrap().at(0).unwrap().get("address")), "10.244.0.5/32");
    assert_eq!(text(r.get("ips").unwrap().at(1).unwrap().get("gateway")), "fe80::1");
    assert_eq!(text(r.get("routes").unwrap().at(1).unwrap().get("dst")), "::/0");
}

#[test]
fn single_stack_pods_have_no_v6_setup() {
    let ip = parse_ip4("10.244.0.5").unwrap();
    assert_eq!(link_steps(&env(), "pod1", ip).len(), 9);
    assert_eq!(neighbor_steps(&env(), "pod1", "aa", &None).len(), 1);
    let r = add_result(&env(), &conf(), ip, &None, "aa", "bb");
    assert!(r.get("ips").unwrap().at(1).is_none());
    assert!(r.get("routes").unwrap().at(1).is_none());
    assert_eq!(text(r.get("routes").unwrap().at(0).unwrap().get("dst")), "0.0.0.0/0");
    assert!(matches!(
        r.get("ips").unwrap().at(0).unwrap().get("interface"),
        Some(Json::Number(1))
    ));
    assert!(matches!(r.get("dns"), Some(Json::Object(_))));
}

#[test]
fn add_begins_with_its_checks() {
    let s = begin_add(&env(), &conf()).ok().unwrap();
    assert_eq!(s.ns, "pod1");
    assert_eq!(s.request.pool, "10.244.0.0/24");
    assert_eq!(s.request.owner, "abc/eth0");
    assert_eq!(s.request.pool6, "");
    let mut c = conf();
    c.ipam.subnet = String::new();
    let e = begin_add(&env(), &c).err().unwrap();
    assert_eq!((e.code, e.msg.as_str()), (ERR_BAD_CONFIG, "ipam.subnet missing (pod CIDR)"));
    let mut v = env();
    v.netns = "/proc/1/ns/net".to_string();
    assert_eq!(begin_add(&v, &conf()).err().unwrap().code, ERR_UNSUPPORTED_FIELD);
}

#[test]
fn replies_are_checked() {
    assert_eq!(reply_address("10.0.0.7").ok().unwrap(), 0x0a00_0007);
    let e = reply_address("10.0.0").err().unwrap();
    assert_eq!(e.code, ERR_INTERNAL);
    assert_eq!(e.msg, "bad allocated ip \"10.0.0\": invalid IPv4 address syntax");
    assert_eq!(
        bad_address6("x\"y", "invalid IPv6 address syntax").msg,
        "bad allocated ip6 \"x\\\"y\": invalid IPv6 address syntax"
    );
}

#[test]
fn failed_add_is_rolled_back() {
    let undo = roll_back(&env(), "10.244.0.5");
    assert_eq!(join(&undo.link.argv), format!("link del {}", host_ifname("abc", "eth0")));
    assert!(!undo.link.required);
    assert_eq!(undo.release.owner, "abc/eth0");
    assert_eq!(undo.release.ip, "10.244.0.5");
    // The registered endpoint goes too.
    assert_eq!((undo.key.container_id.as_str(), undo.key.ifname.as_str()), ("abc", "eth0"));
    // An address that cannot be read is released as it was given.
    assert!(reply_address("10.244.0.300").is_err());
    let undo = roll_back(&env(), "10.244.0.300");
    assert_eq!(undo.release.owner, begin_add(&env(), &conf()).ok().unwrap().request.owner);
    assert_eq!(undo.release.ip, "10.244.0.300");
}

/// The actions of a DEL whose steps succeed as given, up to its success.
fn del_trace(reached: bool, unregistered: bool, unlinked: bool) -> Vec<String> {
    let mut stage = DelStage::Start;
    let mut out = Vec::new();
    loop {
        let ok = match del_next(&env(), stage) {
            DelAction::Connect => {
                out.push("connect".to_string());
                reached
            }
            DelAction::Unregister(k) => {
                out.push(format!("unregister {}/{}", k.container_id, k.ifname));
                unregistered
            }
            DelAction::Run(step) => {
                assert!(!step.required);
                out.push(join(&step.argv));
                unlinked
            }
            DelAction::Done => return out,
        };
        stage = del_after(stage, ok);
    }
}

#[test]
fn del_always_succeeds() {
    let unlink = format!("link del {}", host_ifname("abc", "eth0"));
    let all = vec!["connect".to_string(), "unregister abc/eth0".to_string(), unlink.clone()];
    assert_eq!(del_trace(true, true, true), all);
    // A refused unregistration and a missing link change nothing.
    assert_eq!(del_trace(true, false, true), all);
    assert_eq!(del_trace(true, true, false), all);
    // Without the daemon the pair still comes down.
    assert_eq!(del_trace(false, false, true), vec!["connect".to_string(), unlink.clone()]);
    assert_eq!(del_trace(false, false, false), vec!["connect".to_string(), unlink]);
}

fn endpoint(container_id: &str, ifname: &str, host_if: &str) -> CniEndpoint {
    CniEndpoint {
        container_id: container_id.to_string(),
        ifname: ifname.to_string(),
        netns: String::new(),
        host_if: host_if.to_string(),
        host_ifindex: 4,
        ip: "10.0.0.1".to_string(),
        ip6: String::new(),
        vrf_id: 0,
        pod_name: String::new(),
        pod_namespace: String::new(),
        chained: false,
    }
}

#[test]
fn check_needs_endpoint_and_interface() {
    let eps = vec![endpoint("abc", "eth1", "x"), endpoint("abc", "eth0", "crdl1")];
    assert_eq!(check_endpoint(&env(), &eps).ok().unwrap(), "crdl1");
    let e = check_endpoint(&env(), &eps[..1]).err().unwrap();
    assert_eq!((e.code, e.msg.as_str()), (ERR_INTERNAL, "no endpoint for abc/eth0"));
    assert!(check_interface("crdl1", true).is_none());
    assert_eq!(
        check_interface("crdl1", false).unwrap().msg,
        "host interface crdl1 missing"
    );
}

#[test]
fn sweep_removes_what_is_no_longer_valid() {
    let eps = vec![
        endpoint("a", "eth0", "h1"),
        endpoint("a", "eth1", "h2"),
        endpoint("b", "eth0", "h3"),
        endpoint("b", "eth1", "h4"),
    ];
    let mut c = conf();
    c.valid_attachments = vec![
        Attachment { container_id: "a".to_string(), ifname: String::new() },
        Attachment { container_id: "b".to_string(), ifname: "eth0".to_string() },
    ];
    let steps = sweep(&c, &eps);
    assert_eq!(steps.len(), 1);
    assert_eq!(steps[0].key.container_id, "b");
    assert_eq!(steps[0].key.ifname, "eth1");
    assert_eq!(join(&steps[0].link.argv), "link del h4");
    assert_eq!(sweep(&conf(), &eps).len(), 4);
}

#[test]
fn errors_carry_their_codes() {
    let e = bad_conf("x");
    assert_eq!((e.code, e.msg.as_str()), (ERR_DECODE, "bad network configuration: x"));
    let e = call_failed("AllocIp", "no room");
    assert_eq!((e.code, e.msg.as_str()), (ERR_INTERNAL, "AllocIp failed: no room"));
    let e = cradle::cni::unreachable("unix:/s", "refused");
    assert_eq!(
        (e.code, e.msg.as_str()),
        (ERR_TRANSIENT, "cradle daemon unreachable at unix:/s: refused")
    );
    let e = uncoded();
    assert_eq!((e.code, e.msg.as_str()), (ERR_INTERNAL, "internal error"));
    assert!(status_error(true, &None).is_none());
    let e = status_error(false, &None).unwrap();
    assert_eq!(
        (e.code, e.msg.as_str()),
        (ERR_PLUGIN_NOT_AVAILABLE, "cradle daemon unreachable")
    );
    assert_eq!(
        status_error(true, &set("sick")).unwrap().msg,
        "cradle daemon unhealthy: sick"
    );
}

#[test]
fn commands_are_recognised() {
    assert_eq!(parse_command("VERSION").ok(), Some(Verb::Version));
    assert_eq!(parse_command("ADD").ok(), Some(Verb::Add));
    assert_eq!(parse_command("DEL").ok(), Some(Verb::Del));
    assert_eq!(parse_command("CHECK").ok(), Some(Verb::Check));
    assert_eq!(parse_command("STATUS").ok(), Some(Verb::Status));
    assert_eq!(parse_command("GC").ok(), Some(Verb::Gc));
    let e = parse_command("add\n").err().unwrap();
    assert_eq!((e.code, e.msg.as_str()), (ERR_BAD_ENV, "unknown CNI_COMMAND \"add\\n\""));
    assert!(Verb::Add.needs_netns() && Verb::Check.needs_netns());
    assert!(!Verb::Del.needs_netns());
}

#[test]
fn version_is_echoed_when_readable() {
    assert_eq!(answer_version("{\"cniVersion\": \"0.4.0\", \"name\": 1}"), "0.4.0");
    assert_eq!(answer_version("{\"cniVersion\": 1}"), "1.1.0");
    assert_eq!(answer_version("{\"nested\": {\"cniVersion\": \"0.4.0\"}}"), "1.1.0");
    assert_eq!(answer_version("[\"cniVersion\"]"), "1.1.0");
    assert_eq!(answer_version("not json"), "1.1.0");
    assert_eq!(version_or_default(set("x")), "x");
    assert_eq!(version_or_default(None), default_cni_version());
    let v = version_result("{\"cniVersion\":\"1.0.0\"}");
    assert_eq!(text(v.get("cniVersion")), "1.0.0");
    assert_eq!(text(v.get("supportedVersions").unwrap().at(0)), "1.0.0");
    assert_eq!(text(v.get("supportedVersions").unwrap().at(1)), "1.1.0");
    assert_eq!(text(version_object("z").get("cniVersion")), "z");
}

#[test]
fn errors_are_documents() {
    let e = error_result("{\"cniVersion\":\"1.0.0\"}", &bad_conf("x"), "why");
    assert_eq!(text(e.get("cniVersion")), "1.0.0");
    assert!(matches!(e.get("code"), Some(Json::Number(6))));
    assert_eq!(text(e.get("msg")), "bad network configuration: x");
    assert_eq!(text(e.get("details")), "why");
}
