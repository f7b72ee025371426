//! The Kubernetes objects the controller reads, reduced to what it reads.

use vstd::prelude::*;
use crate::ordmap::OrdMap;
use crate::text;

verus! {

/// A label set.
pub type Labels = OrdMap<String, String>;

/// A pod, as far as policy and identity read it.
pub struct Pod {
    pub namespace: Option<String>,
    pub name: String,
    pub labels: Labels,
    /// The address its status reports.
    pub ip: Option<String>,
}

/// What a `Pod` holds.
#[verifier::ext_equal]
pub struct PodView {
    pub namespace: Option<Seq<char>>,
    pub name: Seq<char>,
    pub labels: Map<Seq<char>, Seq<char>>,
    pub ip: Option<Seq<char>>,
}

impl View for Pod {
    type V = PodView;

    open spec fn view(&self) -> PodView {
        PodView {
            namespace: text::opt(self.namespace),
            name: self.name@,
            labels: self.labels@,
            ip: text::opt(self.ip),
        }
    }
}

/// A namespace: its name and labels.
pub struct Namespace {
    pub name: String,
    pub labels: Labels,
}

/// What a `Namespace` holds.
#[verifier::ext_equal]
pub struct NamespaceView {
    pub name: Seq<char>,
    pub labels: Map<Seq<char>, Seq<char>>,
}

impl View for Namespace {
    type V = NamespaceView;

    open spec fn view(&self) -> NamespaceView {
        NamespaceView {
            name: self.name@,
            labels: self.labels@,
        }
    }
}

/// A label selector. Without `match_labels` it asks for no label.
pub struct LabelSelector {
    pub match_labels: Option<Labels>,
    /// Whether it carries any match expression.
    pub has_expressions: bool,
}

/// What a `LabelSelector` holds.
#[verifier::ext_equal]
pub struct LabelSelectorView {
    pub match_labels: Option<Map<Seq<char>, Seq<char>>>,
    pub has_expressions: bool,
}

impl View for LabelSelector {
    type V = LabelSelectorView;

    open spec fn view(&self) -> LabelSelectorView {
        LabelSelectorView {
            match_labels: text::opt(self.match_labels),
            has_expressions: self.has_expressions,
        }
    }
}

/// One peer of an ingress rule.
pub struct Peer {
    pub has_ip_block: bool,
    pub namespace_selector: Option<LabelSelector>,
    pub pod_selector: Option<LabelSelector>,
}

/// What a `Peer` holds.
#[verifier::ext_equal]
pub struct PeerView {
    pub has_ip_block: bool,
    pub namespace_selector: Option<LabelSelectorView>,
    pub pod_selector: Option<LabelSelectorView>,
}

impl View for Peer {
    type V = PeerView;

    open spec fn view(&self) -> PeerView {
        PeerView {
            has_ip_block: self.has_ip_block,
            namespace_selector: text::opt(self.namespace_selector),
            pod_selector: text::opt(self.pod_selector),
        }
    }
}

/// One port of an ingress rule; a named port has no number.
pub struct PolicyPort {
    pub number: Option<i32>,
    pub protocol: Option<String>,
}

/// What a `PolicyPort` holds.
#[verifier::ext_equal]
pub struct PolicyPortView {
    pub number: Option<i32>,
    pub protocol: Option<Seq<char>>,
}

impl View for PolicyPort {
    type V = PolicyPortView;

    open spec fn view(&self) -> PolicyPortView {
        PolicyPortView {
            number: self.number,
            protocol: text::opt(self.protocol),
        }
    }
}

/// One ingress rule of a network policy.
pub struct IngressRule {
    pub from: Option<Vec<Peer>>,
    pub ports: Option<Vec<PolicyPort>>,
}

/// What a `IngressRule` holds.
#[verifier::ext_equal]
pub struct IngressRuleView {
    pub from: Option<Seq<PeerView>>,
    pub ports: Option<Seq<PolicyPortView>>,
}

impl View for IngressRule {
    type V = IngressRuleView;

    open spec fn view(&self) -> IngressRuleView {
        IngressRuleView {
            from: text::opt_views(self.from),
            ports: text::opt_views(self.ports),
        }
    }
}

/// What a network policy asks for.
pub struct PolicySpec {
    pub policy_types: Option<Vec<String>>,
    pub pod_selector: Option<LabelSelector>,
    pub ingress: Option<Vec<IngressRule>>,
}

/// What a `PolicySpec` holds.
#[verifier::ext_equal]
pub struct PolicySpecView {
    pub policy_types: Option<Seq<Seq<char>>>,
    pub pod_selector: Option<LabelSelectorView>,
    pub ingress: Option<Seq<IngressRuleView>>,
}

impl View for PolicySpec {
    type V = PolicySpecView;

    open spec fn view(&self) -> PolicySpecView {
        PolicySpecView {
            policy_types: text::opt_views(self.policy_types),
            pod_selector: text::opt(self.pod_selector),
            ingress: text::opt_views(self.ingress),
        }
    }
}

/// A network policy.
pub struct NetworkPolicy {
    pub namespace: Option<String>,
    pub spec: Option<PolicySpec>,
}

/// What a `NetworkPolicy` holds.
#[verifier::ext_equal]
pub struct NetworkPolicyView {
    pub namespace: Option<Seq<char>>,
    pub spec: Option<PolicySpecView>,
}

impl View for NetworkPolicy {
    type V = NetworkPolicyView;

    open spec fn view(&self) -> NetworkPolicyView {
        NetworkPolicyView {
            namespace: text::opt(self.namespace),
            spec: text::opt(self.spec),
        }
    }
}

/// One port of a service.
pub struct ServicePort {
    pub name: Option<String>,
    pub port: i32,
    pub protocol: Option<String>,
    pub node_port: Option<i32>,
}

/// What a `ServicePort` holds.
#[verifier::ext_equal]
pub struct ServicePortView {
    pub name: Option<Seq<char>>,
    pub port: i32,
    pub protocol: Option<Seq<char>>,
    pub node_port: Option<i32>,
}

impl View for ServicePort {
    type V = ServicePortView;

    open spec fn view(&self) -> ServicePortView {
        ServicePortView {
            name: text::opt(self.name),
            port: self.port,
            protocol: text::opt(self.protocol),
            node_port: self.node_port,
        }
    }
}

/// What a service asks for.
pub struct ServiceSpec {
    pub type_: Option<String>,
    pub cluster_ip: Option<String>,
    pub ports: Option<Vec<ServicePort>>,
    pub session_affinity: Option<String>,
}

/// What a `ServiceSpec` holds.
#[verifier::ext_equal]
pub struct ServiceSpecView {
    pub type_: Option<Seq<char>>,
    pub cluster_ip: Option<Seq<char>>,
    pub ports: Option<Seq<ServicePortView>>,
    pub session_affinity: Option<Seq<char>>,
}

impl View for ServiceSpec {
    type V = ServiceSpecView;

    open spec fn view(&self) -> ServiceSpecView {
        ServiceSpecView {
            type_: text::opt(self.type_),
            cluster_ip: text::opt(self.cluster_ip),
            ports: text::opt_views(self.ports),
            session_affinity: text::opt(self.session_affinity),
        }
    }
}

/// A service.
pub struct Service {
    pub namespace: Option<String>,
    pub name: Option<String>,
    pub spec: Option<ServiceSpec>,
}

/// What a `Service` holds.
#[verifier::ext_equal]
pub struct ServiceView {
    pub namespace: Option<Seq<char>>,
    pub name: Option<Seq<char>>,
    pub spec: Option<ServiceSpecView>,
}

impl View for Service {
    type V = ServiceView;

    open spec fn view(&self) -> ServiceView {
        ServiceView {
            namespace: text::opt(self.namespace),
            name: text::opt(self.name),
            spec: text::opt(self.spec),
        }
    }
}

/// One endpoint of a slice; an unknown readiness counts as ready.
pub struct Endpoint {
    pub addresses: Vec<String>,
    pub ready: Option<bool>,
}

/// What a `Endpoint` holds.
#[verifier::ext_equal]
pub struct EndpointView {
    pub addresses: Seq<Seq<char>>,
    pub ready: Option<bool>,
}

impl View for Endpoint {
    type V = EndpointView;

    open spec fn view(&self) -> EndpointView {
        EndpointView {
            addresses: text::views(self.addresses@),
            ready: self.ready,
        }
    }
}

/// One port of a slice: the resolved target port.
pub struct EndpointPort {
    pub name: Option<String>,
    pub port: Option<i32>,
    pub protocol: Option<String>,
}

/// What a `EndpointPort` holds.
#[verifier::ext_equal]
pub struct EndpointPortView {
    pub name: Option<Seq<char>>,
    pub port: Option<i32>,
    pub protocol: Option<Seq<char>>,
}

impl View for EndpointPort {
    type V = EndpointPortView;

    open spec fn view(&self) -> EndpointPortView {
        EndpointPortView {
            name: text::opt(self.name),
            port: self.port,
            protocol: text::opt(self.protocol),
        }
    }
}

/// A slice of the endpoints of a service.
pub struct EndpointSlice {
    pub namespace: Option<String>,
    pub labels: Labels,
    pub address_type: String,
    pub endpoints: Option<Vec<Endpoint>>,
    pub ports: Option<Vec<EndpointPort>>,
}

/// What a `EndpointSlice` holds.
#[verifier::ext_equal]
pub struct EndpointSliceView {
    pub namespace: Option<Seq<char>>,
    pub labels: Map<Seq<char>, Seq<char>>,
    pub address_type: Seq<char>,
    pub endpoints: Option<Seq<EndpointView>>,
    pub ports: Option<Seq<EndpointPortView>>,
}

impl View for EndpointSlice {
    type V = EndpointSliceView;

    open spec fn view(&self) -> EndpointSliceView {
        EndpointSliceView {
            namespace: text::opt(self.namespace),
            labels: self.labels@,
            address_type: self.address_type@,
            endpoints: text::opt_views(self.endpoints),
            ports: text::opt_views(self.ports),
        }
    }
}

/// One address of a node.
pub struct NodeAddress {
    pub type_: String,
    pub address: String,
}

/// What a `NodeAddress` holds.
#[verifier::ext_equal]
pub struct NodeAddressView {
    pub type_: Seq<char>,
    pub address: Seq<char>,
}

impl View for NodeAddress {
    type V = NodeAddressView;

    open spec fn view(&self) -> NodeAddressView {
        NodeAddressView {
            type_: self.type_@,
            address: self.address@,
        }
    }
}

/// A node: its pod ranges and addresses.
pub struct Node {
    pub pod_cidr: Option<String>,
    pub pod_cidrs: Vec<String>,
    pub addresses: Vec<NodeAddress>,
}

/// What a `Node` holds.
#[verifier::ext_equal]
pub struct NodeView {
    pub pod_cidr: Option<Seq<char>>,
    pub pod_cidrs: Seq<Seq<char>>,
    pub addresses: Seq<NodeAddressView>,
}

impl View for Node {
    type V = NodeView;

    open spec fn view(&self) -> NodeView {
        NodeView {
            pod_cidr: text::opt(self.pod_cidr),
            pod_cidrs: text::views(self.pod_cidrs@),
            addresses: text::views(self.addresses@),
        }
    }
}

/// A recorded identity: its name and the label set it stands for.
pub struct CidListing {
    pub name: String,
    pub labels: Labels,
}

/// What a `CidListing` holds.
#[verifier::ext_equal]
pub struct CidListingView {
    pub name: Seq<char>,
    pub labels: Map<Seq<char>, Seq<char>>,
}

impl View for CidListing {
    type V = CidListingView;

    open spec fn view(&self) -> CidListingView {
        CidListingView {
            name: self.name@,
            labels: self.labels@,
        }
    }
}

} // verus!
