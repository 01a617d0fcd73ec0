//! The target resolver: which pod endpoints a node's cycle must probe.
//!
//! From the pods listed in the health-check namespace, keep those scheduled
//! on the reconciled node, exclude the operator's own pods by name substring,
//! and keep the pod IP of each remaining pod that has one assigned. When
//! nothing remains, a single sentinel address is returned in place of the
//! empty set; callers must treat it as "no eligible targets yet", probe and
//! mutate nothing, and requeue.

use vstd::prelude::*;

use crate::substr::{contains_substr, is_substr_of};

verus! {

/// The name-substring that marks the operator's own pods.
pub open spec fn operator_marker() -> Seq<char> {
    "node-health-check-operator"@
}

/// The sentinel standing for the empty target set. It is not a valid probe
/// address.
pub open spec fn sentinel_view() -> Seq<char> {
    "0.0.0.0"@
}

/// The sentinel address, as a value.
pub fn sentinel_ip() -> (r: String)
    ensures
        r@ == sentinel_view(),
{
    "0.0.0.0".to_owned()
}

/// What the cluster API reports of one listed pod, as plain values: its
/// name, the node it is scheduled on (if any), and its assigned IP (if any).
pub struct PodInfo {
    pub name: String,
    pub node_name: Option<String>,
    pub pod_ip: Option<String>,
}

/// A pod contributes a target: it is scheduled on the reconciled node, it is
/// not one of the operator's own pods, and it has an IP assigned.
pub open spec fn eligible(p: PodInfo, node: Seq<char>) -> bool {
    &&& p.node_name matches Some(n) && n@ == node
    &&& !is_substr_of(p.name@, operator_marker())
    &&& p.pod_ip is Some
}

/// The pod IPs the listed pods contribute for a node, in listing order.
pub open spec fn target_ips(pods: Seq<PodInfo>, node: Seq<char>) -> Seq<String>
    decreases pods.len(),
{
    if pods.len() == 0 {
        Seq::empty()
    } else {
        target_ips(pods.drop_last(), node) + if eligible(pods.last(), node) {
            seq![pods.last().pod_ip->0]
        } else {
            Seq::empty()
        }
    }
}

/// Resolve the pod IPs to health-check for a node: one per eligible listed
/// pod, or the sentinel alone when no pod is eligible yet.
pub fn resolve_targets(pods: &Vec<PodInfo>, node_name: &String) -> (r: Vec<String>)
    ensures
        target_ips(pods@, node_name@).len() > 0 ==> r@ == target_ips(pods@, node_name@),
        target_ips(pods@, node_name@).len() == 0 ==> r@.len() == 1 && r@[0]@ == sentinel_view(),
{
    let mut r: Vec<String> = Vec::new();
    let n = pods.len();
    let mut i: usize = 0;
    while i < n
        invariant
            n == pods.len(),
            i <= n,
            r@ == target_ips(pods@.take(i as int), node_name@),
        decreases n - i,
    {
        proof {
            assert(pods@.take(i + 1).drop_last() =~= pods@.take(i as int));
            assert(pods@.take(i + 1).last() == pods@[i as int]);
        }
        let p = &pods[i];
        let mut keep = false;
        if let Some(on_node) = &p.node_name {
            if *on_node == *node_name {
                if !contains_substr(p.name.as_str(), "node-health-check-operator") {
                    keep = true;
                }
            }
        }
        if keep {
            if let Some(ip) = &p.pod_ip {
                r.push(ip.clone());
            }
        }
        assert(r@ =~= target_ips(pods@.take(i + 1), node_name@));
        i = i + 1;
    }
    assert(pods@.take(n as int) =~= pods@);
    if r.len() == 0 {
        r.push(sentinel_ip());
    }
    r
}

/// The resolved list carries the sentinel, meaning "no eligible targets yet".
pub open spec fn has_sentinel(ips: Seq<String>) -> bool {
    exists|i: int| 0 <= i < ips.len() && (#[trigger] ips[i])@ == sentinel_view()
}

/// Whether a resolved list holds real targets. When it does not — the
/// sentinel is present — the cycle must perform zero probes and zero
/// mutations for this node and requeue it.
pub fn targets_ready(ips: &Vec<String>) -> (r: bool)
    ensures
        r == !has_sentinel(ips@),
{
    let sentinel = sentinel_ip();
    let n = ips.len();
    let mut i: usize = 0;
    while i < n
        invariant
            n == ips.len(),
            i <= n,
            sentinel@ == sentinel_view(),
            forall|m: int| 0 <= m < i ==> (#[trigger] ips@[m])@ != sentinel_view(),
        decreases n - i,
    {
        if ips[i] == sentinel {
            return false;
        }
        i = i + 1;
    }
    true
}

/// The probe list for one cycle. `None` — the resolver handed back the
/// sentinel — means the cycle performs zero probes and zero mutations for
/// this node and requeues it; otherwise the addresses are probed as given.
pub fn plan_probes(ips: Vec<String>) -> (r: Option<Vec<String>>)
    ensures
        has_sentinel(ips@) ==> r is None,
        !has_sentinel(ips@) ==> (r matches Some(v) && v == ips),
{
    if targets_ready(&ips) {
        Some(ips)
    } else {
        None
    }
}

} // verus!
