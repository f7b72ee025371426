//! A network data plane and its node-level control plane.
//!
//! The data plane is a set of packet stages over read-only tables: the XDP
//! stages ([`xdp`]), the TC stages ([`tc`]), and what they are made of — L2
//! switching, IPv4/IPv6 forwarding, MPLS, SRv6, VXLAN and GTP-U overlays, L4
//! load balancing, identity policy, and BFD. A stage takes the packet and what
//! the kernel answers, and leaves the packet, the requests to the kernel and the
//! verdict.
//!
//! The control plane attaches pods ([`cni`]), maps services to load-balancer
//! entries ([`sync`]), translates policies ([`netpol`], [`cnp`]), allocates
//! identities ([`identity`]), and publishes its endpoints ([`cep`]); the loops
//! around them are [`rounds`] and [`controller`].

pub mod admission;
pub mod bfd;
pub mod bytes;
pub mod carriers;
pub mod cep;
pub mod checksum;
pub mod cluster;
pub mod cni;
pub mod cnp;
pub mod compressed;
pub mod controller;
pub mod csid;
pub mod digits;
pub mod documents;
pub mod endpoint;
pub mod fib;
pub mod frame;
pub mod hash;
pub mod headers;
pub mod identity;
pub mod impose;
pub mod json;
pub mod l2;
pub mod l3;
pub mod l4;
pub mod label;
pub mod lpm;
pub mod messages;
pub mod netpol;
pub mod objects;
pub mod ordmap;
pub mod overlay;
pub mod patches;
pub mod plumbing;
pub mod policy;
pub mod programs;
pub mod rounds;
pub mod routing;
pub mod segments;
pub mod services;
pub mod sids;
pub mod skb;
pub mod stages;
pub mod sync;
pub mod table;
pub mod tables;
pub mod tc;
pub mod text;
pub mod tunnels;
pub mod types;
pub mod verdicts;
pub mod wire;
pub mod words;
pub mod xdp;
