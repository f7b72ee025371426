//! The reconcile loops of the controller, as machines: each says which outside
//! call comes next, and what a call's success or failure means for the round
//! and for the connection to the daemon.

use vstd::prelude::*;

verus! {

/// What the policy loop does next.
#[derive(Clone, Copy, Debug, PartialEq, Eq, Structural)]
pub enum PolicyStep {
    /// Wait for a change or the periodic tick.
    Wait,
    /// List the pods, namespaces and network policies.
    List,
    /// Connect to the daemon.
    Connect,
    /// Allocate identities; without the records the hash stands in.
    Allocate,
    /// List the Cilium policies; without them there are none.
    Cilium,
    /// List this node's endpoints from the daemon.
    Endpoints,
    /// Push the identities and the policies.
    Push,
}

/// The step after `step`, and whether the daemon is still connected.
pub open spec fn after_policy_step(step: PolicyStep, connected: bool, ok: bool) -> (
    PolicyStep,
    bool,
) {
    match step {
        PolicyStep::Wait => (PolicyStep::List, connected),
        PolicyStep::List => if !ok {
            (PolicyStep::Wait, connected)
        } else if connected {
            (PolicyStep::Allocate, true)
        } else {
            (PolicyStep::Connect, false)
        },
        PolicyStep::Connect => if ok {
            (PolicyStep::Allocate, true)
        } else {
            (PolicyStep::Wait, false)
        },
        PolicyStep::Allocate => (PolicyStep::Cilium, connected),
        PolicyStep::Cilium => (PolicyStep::Endpoints, connected),
        PolicyStep::Endpoints => if ok {
            (PolicyStep::Push, connected)
        } else {
            (PolicyStep::Wait, false)
        },
        PolicyStep::Push => (PolicyStep::Wait, connected && ok),
    }
}

/// The step after `step`, which succeeded or not, and whether the daemon is
/// still connected.
pub fn next_policy_step(step: PolicyStep, connected: bool, ok: bool) -> (r: (PolicyStep, bool))
    ensures
        r == after_policy_step(step, connected, ok),
{
    match step {
        PolicyStep::Wait => (PolicyStep::List, connected),
        PolicyStep::List => if !ok {
            (PolicyStep::Wait, connected)
        } else if connected {
            (PolicyStep::Allocate, true)
        } else {
            (PolicyStep::Connect, false)
        },
        PolicyStep::Connect => if ok {
            (PolicyStep::Allocate, true)
        } else {
            (PolicyStep::Wait, false)
        },
        PolicyStep::Allocate => (PolicyStep::Cilium, connected),
        PolicyStep::Cilium => (PolicyStep::Endpoints, connected),
        PolicyStep::Endpoints => if ok {
            (PolicyStep::Push, connected)
        } else {
            (PolicyStep::Wait, false)
        },
        PolicyStep::Push => (PolicyStep::Wait, connected && ok),
    }
}

/// What the publication loop does next.
#[derive(Clone, Copy, Debug, PartialEq, Eq, Structural)]
pub enum PublishStep {
    /// Wait for the tick.
    Wait,
    /// Read this node's object.
    Node,
    /// Connect to the daemon.
    Connect,
    /// List this node's endpoints from the daemon.
    Endpoints,
    /// Resolve the endpoints' identities; without the listings there are none.
    Identities,
    /// Publish the objects; a failure only waits for the next tick.
    Publish,
    /// Collect the identities that no published endpoint references.
    Collect,
}

/// The step after `step`, and whether the daemon is still connected. A loop
/// that collects identities does so at the end of each round that came to
/// publish.
pub open spec fn after_publish_step(
    step: PublishStep,
    connected: bool,
    ok: bool,
    collects: bool,
) -> (PublishStep, bool) {
    match step {
        PublishStep::Wait => (PublishStep::Node, connected),
        PublishStep::Node => if !ok {
            (PublishStep::Wait, connected)
        } else if connected {
            (PublishStep::Endpoints, true)
        } else {
            (PublishStep::Connect, false)
        },
        PublishStep::Connect => if ok {
            (PublishStep::Endpoints, true)
        } else {
            (PublishStep::Wait, false)
        },
        PublishStep::Endpoints => if ok {
            (PublishStep::Identities, connected)
        } else {
            (PublishStep::Wait, false)
        },
        PublishStep::Identities => (PublishStep::Publish, connected),
        PublishStep::Publish => if collects {
            (PublishStep::Collect, connected)
        } else {
            (PublishStep::Wait, connected)
        },
        PublishStep::Collect => (PublishStep::Wait, connected),
    }
}

/// The step after `step`, which succeeded or not, and whether the daemon is
/// still connected. `collects` says whether the loop collects identities.
pub fn next_publish_step(step: PublishStep, connected: bool, ok: bool, collects: bool) -> (r: (
    PublishStep,
    bool,
))
    ensures
        r == after_publish_step(step, connected, ok, collects),
{
    match step {
        PublishStep::Wait => (PublishStep::Node, connected),
        PublishStep::Node => if !ok {
            (PublishStep::Wait, connected)
        } else if connected {
            (PublishStep::Endpoints, true)
        } else {
            (PublishStep::Connect, false)
        },
        PublishStep::Connect => if ok {
            (PublishStep::Endpoints, true)
        } else {
            (PublishStep::Wait, false)
        },
        PublishStep::Endpoints => if ok {
            (PublishStep::Identities, connected)
        } else {
            (PublishStep::Wait, false)
        },
        PublishStep::Identities => (PublishStep::Publish, connected),
        PublishStep::Publish => if collects {
            (PublishStep::Collect, connected)
        } else {
            (PublishStep::Wait, connected)
        },
        PublishStep::Collect => (PublishStep::Wait, connected),
    }
}

/// What the service loop does next.
#[derive(Clone, Copy, Debug, PartialEq, Eq, Structural)]
pub enum SyncStep {
    /// Wait for a change or the resync tick.
    Wait,
    /// Forget what was programmed.
    Forget,
    /// List the services and their endpoint slices.
    List,
    /// Read this node's address; it may stay unknown.
    Address,
    /// Connect to the daemon.
    Connect,
    /// Push the difference.
    Apply,
}

/// The step after `step`, and whether the daemon is still connected. Of a
/// wait, `ok` says that a change ended it, and not the resync tick.
pub open spec fn after_sync_step(step: SyncStep, connected: bool, ok: bool) -> (SyncStep, bool) {
    match step {
        SyncStep::Wait => if ok {
            (SyncStep::List, connected)
        } else {
            (SyncStep::Forget, connected)
        },
        SyncStep::Forget => (SyncStep::List, connected),
        SyncStep::List => if ok {
            (SyncStep::Address, connected)
        } else {
            (SyncStep::Wait, connected)
        },
        SyncStep::Address => if connected {
            (SyncStep::Apply, true)
        } else {
            (SyncStep::Connect, false)
        },
        SyncStep::Connect => if ok {
            (SyncStep::Apply, true)
        } else {
            (SyncStep::Wait, false)
        },
        SyncStep::Apply => (SyncStep::Wait, connected && ok),
    }
}

/// The step after `step`, which succeeded or not, and whether the daemon is
/// still connected. Of a wait, `ok` says that a change ended it, and not the
/// resync tick.
pub fn next_sync_step(step: SyncStep, connected: bool, ok: bool) -> (r: (SyncStep, bool))
    ensures
        r == after_sync_step(step, connected, ok),
{
    match step {
        SyncStep::Wait => if ok {
            (SyncStep::List, connected)
        } else {
            (SyncStep::Forget, connected)
        },
        SyncStep::Forget => (SyncStep::List, connected),
        SyncStep::List => if ok {
            (SyncStep::Address, connected)
        } else {
            (SyncStep::Wait, connected)
        },
        SyncStep::Address => if connected {
            (SyncStep::Apply, true)
        } else {
            (SyncStep::Connect, false)
        },
        SyncStep::Connect => if ok {
            (SyncStep::Apply, true)
        } else {
            (SyncStep::Wait, false)
        },
        SyncStep::Apply => (SyncStep::Wait, connected && ok),
    }
}

/// A failed daemon call ends the round and drops the connection, so that the
/// next round reconnects.
pub proof fn failed_call_reconnects(connected: bool, collects: bool)
    ensures
        after_policy_step(PolicyStep::Endpoints, connected, false) == (PolicyStep::Wait, false),
        after_policy_step(PolicyStep::Push, connected, false) == (PolicyStep::Wait, false),
        after_publish_step(PublishStep::Endpoints, connected, false, collects) == (
            PublishStep::Wait,
            false,
        ),
        after_sync_step(SyncStep::Apply, connected, false) == (SyncStep::Wait, false),
{
}

/// Whether the policy loop is past connecting.
pub open spec fn policy_connected(step: PolicyStep) -> bool {
    step != PolicyStep::Wait && step != PolicyStep::List && step != PolicyStep::Connect
}

/// Whether the publication loop is past connecting.
pub open spec fn publish_connected(step: PublishStep) -> bool {
    step != PublishStep::Wait && step != PublishStep::Node && step != PublishStep::Connect
}

/// No loop calls the daemon without a connection: past the connecting step one
/// stands, whatever succeeds or fails.
pub proof fn daemon_is_called_connected(
    policy: PolicyStep,
    publish: PublishStep,
    sync: SyncStep,
    connected: bool,
    ok: bool,
    collects: bool,
)
    ensures
        (policy_connected(policy) ==> connected) ==> ({
            let (s, c) = after_policy_step(policy, connected, ok);
            policy_connected(s) ==> c
        }),
        (publish_connected(publish) ==> connected) ==> ({
            let (s, c) = after_publish_step(publish, connected, ok, collects);
            publish_connected(s) ==> c
        }),
        ({
            let (s, c) = after_sync_step(sync, connected, ok);
            s == SyncStep::Apply ==> c
        }),
{
}

/// A failed listing leaves the connection as it is.
pub proof fn failed_listing_keeps_connection(connected: bool, collects: bool)
    ensures
        after_policy_step(PolicyStep::List, connected, false) == (PolicyStep::Wait, connected),
        after_publish_step(PublishStep::Node, connected, false, collects) == (
            PublishStep::Wait,
            connected,
        ),
        after_sync_step(SyncStep::List, connected, false) == (SyncStep::Wait, connected),
{
}

/// Identities are collected only by a loop that is told to, after it has tried to
/// publish and whatever came of it; the collection leaves the connection as it is.
pub proof fn collection_follows_publication(step: PublishStep, connected: bool, ok: bool)
    ensures
        after_publish_step(step, connected, ok, false).0 != PublishStep::Collect,
        after_publish_step(step, connected, ok, true).0 == PublishStep::Collect <==> step
            == PublishStep::Publish,
        after_publish_step(PublishStep::Collect, connected, ok, true) == (
            PublishStep::Wait,
            connected,
        ),
{
}

} // verus!
