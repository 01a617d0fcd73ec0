//! Per-event decisions of the level-triggered controller loop.
//!
//! The loop itself — watching nodes, listing pods, probing, mutating — is
//! I/O and lives outside this crate. What is decided here: how a node event
//! is classified, how a node's cluster name and private address are read
//! from its metadata, and the fixed requeue delays.

use vstd::prelude::*;

verus! {

/// Fixed requeue delay after a completed or skipped cycle, in seconds.
pub const REQUEUE_SECONDS: u64 = 10;

/// Fixed requeue delay after a failed reconciliation, in seconds.
pub const ERROR_REQUEUE_SECONDS: u64 = 5;

/// What a node-change event asks of the controller.
#[derive(Clone, Copy, PartialEq, Eq, Structural, Debug)]
pub enum NodeAction {
    /// Run the full cycle: resolve targets, probe, reconcile modes.
    Create,
    /// The node is under deletion: stop reconciling, wait for further change.
    Delete,
    /// Any other node state: requeue without touching anything.
    NoOp,
}

/// How a node event is classified from its metadata.
pub open spec fn determine_action_spec(
    marked_for_deletion: bool,
    finalizers_empty: bool,
) -> NodeAction {
    if marked_for_deletion {
        NodeAction::Delete
    } else if finalizers_empty {
        NodeAction::Create
    } else {
        NodeAction::NoOp
    }
}

/// Classify a node event: a node with a deletion timestamp waits for further
/// change; a node with no (or an empty) finalizer list is treated as newly
/// observed and runs the full cycle; any other node is a no-op requeue.
pub fn determine_action(marked_for_deletion: bool, finalizers_empty: bool) -> (a: NodeAction)
    ensures
        a == determine_action_spec(marked_for_deletion, finalizers_empty),
{
    if marked_for_deletion {
        NodeAction::Delete
    } else if finalizers_empty {
        NodeAction::Create
    } else {
        NodeAction::NoOp
    }
}

/// The first value stored under a key in a metadata pair list.
pub open spec fn label_lookup(pairs: Seq<(String, String)>, key: Seq<char>) -> Option<String>
    decreases pairs.len(),
{
    if pairs.len() == 0 {
        None
    } else if pairs[0].0@ == key {
        Some(pairs[0].1)
    } else {
        label_lookup(pairs.drop_first(), key)
    }
}

/// Look a key up in a metadata pair list (labels or annotations), returning
/// the first value stored under it.
pub fn lookup_label(pairs: &Vec<(String, String)>, key: &String) -> (r: Option<String>)
    ensures
        (match r {
            Some(v) => label_lookup(pairs@, key@) matches Some(w) && v == w,
            None => label_lookup(pairs@, key@) is None,
        }),
{
    let n = pairs.len();
    let mut i: usize = 0;
    assert(pairs@.skip(0) =~= pairs@);
    while i < n
        invariant
            n == pairs.len(),
            i <= n,
            label_lookup(pairs@, key@) == label_lookup(pairs@.skip(i as int), key@),
        decreases n - i,
    {
        proof {
            assert(pairs@.skip(i as int).drop_first() =~= pairs@.skip(i + 1));
            assert(pairs@.skip(i as int)[0] == pairs@[i as int]);
        }
        if pairs[i].0 == *key {
            return Some(pairs[i].1.clone());
        }
        i = i + 1;
    }
    None
}

/// The node label that names the cluster a node belongs to. Its value scopes
/// every target and state record of that node's pods.
pub open spec fn cluster_label_key() -> Seq<char> {
    "cluster.x-k8s.io/cluster-name"@
}

/// Read a node's cluster name from its metadata annotations. `None` — the
/// label is missing — is fatal for this node's cycle only: the node is
/// skipped until its metadata is corrected.
pub fn cluster_name_of(annotations: &Vec<(String, String)>) -> (r: Option<String>)
    ensures
        (match r {
            Some(v) => label_lookup(annotations@, cluster_label_key()) matches Some(w) && v == w,
            None => label_lookup(annotations@, cluster_label_key()) is None,
        }),
{
    let key = "cluster.x-k8s.io/cluster-name".to_owned();
    lookup_label(annotations, &key)
}

/// A node was already marked seen by the operator: its annotations hold the
/// marker key.
pub fn seen_before(annotations: &Vec<(String, String)>) -> (r: bool)
    ensures
        r == (label_lookup(annotations@, ""@) is Some),
{
    let key = "".to_owned();
    match lookup_label(annotations, &key) {
        Some(_) => true,
        None => false,
    }
}

/// One address entry of a node's status, as plain values.
pub struct NodeAddressInfo {
    pub type_: String,
    pub address: String,
}

/// The first address entry of type `InternalIP`, if any.
pub open spec fn first_internal_ip(addrs: Seq<NodeAddressInfo>) -> Option<String>
    decreases addrs.len(),
{
    if addrs.len() == 0 {
        None
    } else if addrs[0].type_@ == "InternalIP"@ {
        Some(addrs[0].address)
    } else {
        first_internal_ip(addrs.drop_first())
    }
}

/// A node's private address: the first `InternalIP` entry of its status
/// addresses. `None` means the binding resolver cannot be consulted for this
/// node this cycle.
pub fn find_internal_ip(addresses: &Vec<NodeAddressInfo>) -> (r: Option<String>)
    ensures
        (match r {
            Some(v) => first_internal_ip(addresses@) matches Some(w) && v == w,
            None => first_internal_ip(addresses@) is None,
        }),
{
    let key = "InternalIP".to_owned();
    let n = addresses.len();
    let mut i: usize = 0;
    assert(addresses@.skip(0) =~= addresses@);
    while i < n
        invariant
            n == addresses.len(),
            i <= n,
            key@ == "InternalIP"@,
            first_internal_ip(addresses@) == first_internal_ip(addresses@.skip(i as int)),
        decreases n - i,
    {
        proof {
            assert(addresses@.skip(i as int).drop_first() =~= addresses@.skip(i + 1));
            assert(addresses@.skip(i as int)[0] == addresses@[i as int]);
        }
        if addresses[i].type_ == key {
            return Some(addresses[i].address.clone());
        }
        i = i + 1;
    }
    None
}

} // verus!
