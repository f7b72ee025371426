//! The messages the node's control plane sends to the data-plane daemon.

use vstd::prelude::*;
use crate::text;

verus! {

/// A pod attachment as the daemon records it.
pub struct CniEndpoint {
    pub container_id: String,
    pub ifname: String,
    pub netns: String,
    pub host_if: String,
    /// Index of the host veth; 0 until the daemon fills it in.
    pub host_ifindex: u32,
    pub ip: String,
    /// Empty for a single-stack pod.
    pub ip6: String,
    pub vrf_id: u32,
    pub pod_name: String,
    pub pod_namespace: String,
    /// Whether a chained plugin owns the veth hook.
    pub chained: bool,
}

/// What a `CniEndpoint` holds.
#[verifier::ext_equal]
pub struct CniEndpointView {
    pub container_id: Seq<char>,
    pub ifname: Seq<char>,
    pub netns: Seq<char>,
    pub host_if: Seq<char>,
    pub host_ifindex: u32,
    pub ip: Seq<char>,
    pub ip6: Seq<char>,
    pub vrf_id: u32,
    pub pod_name: Seq<char>,
    pub pod_namespace: Seq<char>,
    pub chained: bool,
}

impl View for CniEndpoint {
    type V = CniEndpointView;

    open spec fn view(&self) -> CniEndpointView {
        CniEndpointView {
            container_id: self.container_id@,
            ifname: self.ifname@,
            netns: self.netns@,
            host_if: self.host_if@,
            host_ifindex: self.host_ifindex,
            ip: self.ip@,
            ip6: self.ip6@,
            vrf_id: self.vrf_id,
            pod_name: self.pod_name@,
            pod_namespace: self.pod_namespace@,
            chained: self.chained,
        }
    }
}

/// One policy rule; identity, protocol and port 0 are wildcards.
#[derive(Clone, Copy, Debug, PartialEq, Eq)]
pub struct PolicyRule {
    pub identity: u32,
    pub proto: u32,
    pub port: u32,
    pub deny: bool,
}

/// The policy of one local endpoint, found by its pod.
pub struct EndpointPolicy {
    /// Empty: the daemon resolves the pod.
    pub host_if: String,
    pub pod_namespace: String,
    pub pod_name: String,
    pub enforce: bool,
    pub rules: Vec<PolicyRule>,
    pub enforce_egress: bool,
    pub egress_rules: Vec<PolicyRule>,
}

/// What a `EndpointPolicy` holds.
#[verifier::ext_equal]
pub struct EndpointPolicyView {
    pub host_if: Seq<char>,
    pub pod_namespace: Seq<char>,
    pub pod_name: Seq<char>,
    pub enforce: bool,
    pub rules: Seq<PolicyRule>,
    pub enforce_egress: bool,
    pub egress_rules: Seq<PolicyRule>,
}

impl View for EndpointPolicy {
    type V = EndpointPolicyView;

    open spec fn view(&self) -> EndpointPolicyView {
        EndpointPolicyView {
            host_if: self.host_if@,
            pod_namespace: self.pod_namespace@,
            pod_name: self.pod_name@,
            enforce: self.enforce,
            rules: self.rules@,
            enforce_egress: self.enforce_egress,
            egress_rules: self.egress_rules@,
        }
    }
}

/// Binds a pod address to an identity.
pub struct Identity {
    pub ip: String,
    pub identity: u32,
    pub vrf_id: u32,
}

/// What a `Identity` holds.
#[verifier::ext_equal]
pub struct IdentityView {
    pub ip: Seq<char>,
    pub identity: u32,
    pub vrf_id: u32,
}

impl View for Identity {
    type V = IdentityView;

    open spec fn view(&self) -> IdentityView {
        IdentityView {
            ip: self.ip@,
            identity: self.identity,
            vrf_id: self.vrf_id,
        }
    }
}

/// Binds a range to an identity, or takes the binding back.
pub struct CidrIdentity {
    pub cidr: String,
    pub identity: u32,
    pub del: bool,
    pub vrf_id: u32,
}

/// What a `CidrIdentity` holds.
#[verifier::ext_equal]
pub struct CidrIdentityView {
    pub cidr: Seq<char>,
    pub identity: u32,
    pub del: bool,
    pub vrf_id: u32,
}

impl View for CidrIdentity {
    type V = CidrIdentityView;

    open spec fn view(&self) -> CidrIdentityView {
        CidrIdentityView {
            cidr: self.cidr@,
            identity: self.identity,
            del: self.del,
            vrf_id: self.vrf_id,
        }
    }
}

/// One backend of a service.
pub struct Backend {
    pub ip: String,
    pub port: u32,
}

/// What a `Backend` holds.
#[verifier::ext_equal]
pub struct BackendView {
    pub ip: Seq<char>,
    pub port: u32,
}

impl View for Backend {
    type V = BackendView;

    open spec fn view(&self) -> BackendView {
        BackendView {
            ip: self.ip@,
            port: self.port,
        }
    }
}

/// Programs a service; replaces what its key held.
pub struct ServiceAdd {
    pub svc_id: u32,
    pub vip: String,
    pub port: u32,
    pub proto: String,
    pub affinity: bool,
    pub backends: Vec<Backend>,
}

/// What a `ServiceAdd` holds.
#[verifier::ext_equal]
pub struct ServiceAddView {
    pub svc_id: u32,
    pub vip: Seq<char>,
    pub port: u32,
    pub proto: Seq<char>,
    pub affinity: bool,
    pub backends: Seq<BackendView>,
}

impl View for ServiceAdd {
    type V = ServiceAddView;

    open spec fn view(&self) -> ServiceAddView {
        ServiceAddView {
            svc_id: self.svc_id,
            vip: self.vip@,
            port: self.port,
            proto: self.proto@,
            affinity: self.affinity,
            backends: text::views(self.backends@),
        }
    }
}

/// Removes a service.
pub struct ServiceDel {
    pub vip: String,
    pub port: u32,
    pub proto: String,
}

/// What a `ServiceDel` holds.
#[verifier::ext_equal]
pub struct ServiceDelView {
    pub vip: Seq<char>,
    pub port: u32,
    pub proto: Seq<char>,
}

impl View for ServiceDel {
    type V = ServiceDelView;

    open spec fn view(&self) -> ServiceDelView {
        ServiceDelView {
            vip: self.vip@,
            port: self.port,
            proto: self.proto@,
        }
    }
}

/// Asks for an address of the pool for an attachment.
pub struct AllocIpRequest {
    pub pool: String,
    pub owner: String,
    /// Empty for a single-stack pod.
    pub pool6: String,
}

/// What a `AllocIpRequest` holds.
#[verifier::ext_equal]
pub struct AllocIpRequestView {
    pub pool: Seq<char>,
    pub owner: Seq<char>,
    pub pool6: Seq<char>,
}

impl View for AllocIpRequest {
    type V = AllocIpRequestView;

    open spec fn view(&self) -> AllocIpRequestView {
        AllocIpRequestView {
            pool: self.pool@,
            owner: self.owner@,
            pool6: self.pool6@,
        }
    }
}

/// Names an attachment.
pub struct CniEndpointKey {
    pub container_id: String,
    pub ifname: String,
}

/// What a `CniEndpointKey` holds.
#[verifier::ext_equal]
pub struct CniEndpointKeyView {
    pub container_id: Seq<char>,
    pub ifname: Seq<char>,
}

impl View for CniEndpointKey {
    type V = CniEndpointKeyView;

    open spec fn view(&self) -> CniEndpointKeyView {
        CniEndpointKeyView {
            container_id: self.container_id@,
            ifname: self.ifname@,
        }
    }
}

/// Gives an address back.
pub struct ReleaseIpRequest {
    pub owner: String,
    pub ip: String,
}

/// What a `ReleaseIpRequest` holds.
#[verifier::ext_equal]
pub struct ReleaseIpRequestView {
    pub owner: Seq<char>,
    pub ip: Seq<char>,
}

impl View for ReleaseIpRequest {
    type V = ReleaseIpRequestView;

    open spec fn view(&self) -> ReleaseIpRequestView {
        ReleaseIpRequestView {
            owner: self.owner@,
            ip: self.ip@,
        }
    }
}

} // verus!
