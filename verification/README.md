# cradle

Verified packet and control-plane logic of a container network: an L2/L3/L4
data plane with MPLS, SRv6, VXLAN, GTP-U and BFD, the CNI plugin that attaches
pods to it, and the node agent that keeps it in step with Kubernetes.

`src/` is the library. Every function in it carries a contract that Verus
proves, but for two wrappers around outside calls in `cni`, whose contracts are
stated and not proved. The laws that relate several functions are public proof
functions beside them.

- **Data plane.** `types`, `words` and `wire` hold the table entries and the
  wire constants; `bytes`, `checksum`, `hash`, `table` and `lpm` are the
  building blocks; `tables` is what the control plane programs. A packet is a
  `skb::Tc` (the traffic-control stage) or a `frame::Xdp` (the XDP stage): its
  bytes, its ingress, the answers of the kernel helpers it may ask, and the
  record of what was done to it. `tc` and `xdp` are the entry points; `l2`,
  `l3`, `l4`, `policy`, `fib`, `headers`, `impose`, `label`, `endpoint`, `csid`,
  `sids`, `overlay` and `bfd` are the stages. `tunnels` holds the laws that tie
  what one node imposes to what another takes out, `patches` those that tie the
  checksum patches of a rewrite to what it changed.
- **Control plane.** `objects` and `messages` are the Kubernetes objects and the
  daemon's messages as plain values; `sync`, `netpol`, `cnp`, `identity` and
  `cep` translate the one into the other; `controller` computes what to push and
  `rounds` what to do next; `cni` is the plugin. `text`, `digits`, `ordmap` and
  `json` are their building blocks.

`app/` is ordinary Rust around the library: the plugin and the agent, which run
the commands, make the calls and write the objects that the library computes.
The data plane's stages work on values; the kernel programs that would fill
those values from live packets and maps are not part of this crate.
