//! The mode reconciler: one target's cycle, and the guarantees it gives.
//!
//! A cycle combines the probe outcome with the stored state and the resolved
//! bindings: it decides a transition (`decide`), issues one idempotent
//! balancer call per binding when the transition mutates, and persists the
//! decided mode through the state store's upsert. The laws at the bottom are
//! the crate's contract with its operator: the debounce, the self-healing
//! accept, and the baseline no-op.

use vstd::prelude::*;

use crate::mode::{decide, decide_spec, Decision, Mode};
use crate::store::{
    has_key, lookup, prior_mode, record_key, stored_record, unique_keys, upsert_spec,
    lemma_lookup_after_upsert, lemma_upsert_absorb, StateRecord, StateStore,
};
use crate::topology::BalancerBinding;

verus! {

/// One idempotent call asked of the balancer API: set this bound node to
/// this mode.
#[derive(Clone, Copy, PartialEq, Eq, Structural, Debug)]
pub struct MutationCall {
    pub binding: BalancerBinding,
    pub mode: Mode,
}

/// The calls one decision issues: one per resolved binding when the decision
/// mutates, none for a baseline or a skip.
pub open spec fn cycle_calls_spec(bindings: Seq<BalancerBinding>, d: Decision) -> Seq<
    MutationCall,
> {
    match d {
        Decision::Mutate(m) => bindings.map_values(
            |b: BalancerBinding| MutationCall { binding: b, mode: m },
        ),
        _ => Seq::empty(),
    }
}

/// The mode a decision persists, if it persists one: a baseline writes
/// `Unset`, a mutation writes its mode, a skip writes nothing.
pub open spec fn written_mode(d: Decision) -> Option<Mode> {
    match d {
        Decision::Baseline => Some(Mode::Unset),
        Decision::Mutate(m) => Some(m),
        Decision::Skip => None,
    }
}

/// The state table after one target's cycle. A skip — and a cycle with zero
/// resolved bindings — leaves the table untouched; otherwise one upsert per
/// binding lands, all on the same key with the same mode columns, so they
/// collapse to the first: a fresh key stores the first binding's
/// identifiers, a pre-existing row keeps its own, and both mode columns end
/// at the written mode.
pub open spec fn cycle_store_spec(
    s: Seq<StateRecord>,
    bindings: Seq<BalancerBinding>,
    port: i32,
    pod_ip: String,
    cluster_name: String,
    d: Decision,
) -> Seq<StateRecord> {
    match written_mode(d) {
        None => s,
        Some(m) => if bindings.len() == 0 {
            s
        } else {
            upsert_spec(s, stored_record(bindings.first(), port, pod_ip, m, m, cluster_name))
        },
    }
}

/// Run the mode state machine for one target, with every issued mutation
/// taken as delivered: decide from the stored state and the probe outcome,
/// and persist the decided mode per binding. The returned calls are the
/// balancer mutations the cycle issues, in order. On a cycle whose mutation
/// fails partway, the caller must instead persist per delivered call through
/// `StateStore::upsert`, so the next cycle retries from the last recorded
/// state.
pub fn reconcile_target(
    store: &mut StateStore,
    bindings: &Vec<BalancerBinding>,
    port: i32,
    pod_ip: &String,
    cluster_name: &String,
    reachable: bool,
) -> (calls: Vec<MutationCall>)
    requires
        old(store).wf(),
    ensures
        final(store).wf(),
        ({
            let d = decide_spec(
                reachable,
                prior_mode(old(store)@, (port as int, pod_ip@, cluster_name@)),
            );
            &&& calls@ == cycle_calls_spec(bindings@, d)
            &&& final(store)@ == cycle_store_spec(
                old(store)@,
                bindings@,
                port,
                *pod_ip,
                *cluster_name,
                d,
            )
        }),
{
    let prior = store.current_mode(port, pod_ip, cluster_name);
    let d = decide(reachable, prior);
    let mut calls: Vec<MutationCall> = Vec::new();
    match d {
        Decision::Skip => {},
        Decision::Baseline => {
            let n = bindings.len();
            let mut i: usize = 0;
            while i < n
                invariant
                    n == bindings.len(),
                    i <= n,
                    store.wf(),
                    unique_keys(old(store)@),
                    i == 0 ==> store@ == old(store)@,
                    i > 0 ==> store@ == upsert_spec(
                        old(store)@,
                        stored_record(
                            bindings@[0],
                            port,
                            *pod_ip,
                            Mode::Unset,
                            Mode::Unset,
                            *cluster_name,
                        ),
                    ),
                decreases n - i,
            {
                store.upsert(bindings[i], port, pod_ip, Mode::Unset, Mode::Unset, cluster_name);
                proof {
                    if i > 0 {
                        lemma_upsert_absorb(
                            old(store)@,
                            stored_record(
                                bindings@[0],
                                port,
                                *pod_ip,
                                Mode::Unset,
                                Mode::Unset,
                                *cluster_name,
                            ),
                            stored_record(
                                bindings@[i as int],
                                port,
                                *pod_ip,
                                Mode::Unset,
                                Mode::Unset,
                                *cluster_name,
                            ),
                        );
                    }
                }
                i = i + 1;
            }
        },
        Decision::Mutate(m) => {
            let n = bindings.len();
            let mut i: usize = 0;
            while i < n
                invariant
                    n == bindings.len(),
                    i <= n,
                    store.wf(),
                    unique_keys(old(store)@),
                    calls@ == bindings@.take(i as int).map_values(
                        |b: BalancerBinding| MutationCall { binding: b, mode: m },
                    ),
                    i == 0 ==> store@ == old(store)@,
                    i > 0 ==> store@ == upsert_spec(
                        old(store)@,
                        stored_record(bindings@[0], port, *pod_ip, m, m, *cluster_name),
                    ),
                decreases n - i,
            {
                calls.push(MutationCall { binding: bindings[i], mode: m });
                assert(calls@ =~= bindings@.take(i + 1).map_values(
                    |b: BalancerBinding| MutationCall { binding: b, mode: m },
                ));
                store.upsert(bindings[i], port, pod_ip, m, m, cluster_name);
                proof {
                    if i > 0 {
                        lemma_upsert_absorb(
                            old(store)@,
                            stored_record(bindings@[0], port, *pod_ip, m, m, *cluster_name),
                            stored_record(bindings@[i as int], port, *pod_ip, m, m, *cluster_name),
                        );
                    }
                }
                i = i + 1;
            }
            assert(bindings@.take(n as int) =~= bindings@);
        },
    }
    calls
}

/// Debounce: with a drained record stored for the key, an unreachable probe
/// decides a skip — the cycle issues zero calls and leaves the table as it
/// is.
pub proof fn lemma_debounce(
    s: Seq<StateRecord>,
    bindings: Seq<BalancerBinding>,
    port: i32,
    pod_ip: String,
    cluster_name: String,
)
    requires
        lookup(s, (port as int, pod_ip@, cluster_name@)) matches Some(r) && r.current
            == Mode::Drain,
    ensures
        decide_spec(false, prior_mode(s, (port as int, pod_ip@, cluster_name@)))
            == Decision::Skip,
        cycle_calls_spec(
            bindings,
            decide_spec(false, prior_mode(s, (port as int, pod_ip@, cluster_name@))),
        ) == Seq::<MutationCall>::empty(),
        cycle_store_spec(s, bindings, port, pod_ip, cluster_name, Decision::Skip) == s,
{
}

/// The state table after a run of `n` consecutive cycles that all probe the
/// target unreachable.
pub open spec fn store_after_unreachable(
    s: Seq<StateRecord>,
    bindings: Seq<BalancerBinding>,
    port: i32,
    pod_ip: String,
    cluster_name: String,
    n: nat,
) -> Seq<StateRecord>
    decreases n,
{
    if n == 0 {
        s
    } else {
        let prev = store_after_unreachable(s, bindings, port, pod_ip, cluster_name, (n - 1) as nat);
        cycle_store_spec(
            prev,
            bindings,
            port,
            pod_ip,
            cluster_name,
            decide_spec(false, prior_mode(prev, (port as int, pod_ip@, cluster_name@))),
        )
    }
}

/// Debounce invariant: once `current = drain` is stored for a target, any
/// number of further unreachable probes leaves exactly that one stored state
/// — the table never changes again — and every one of those cycles decides
/// a skip, so zero additional mutation calls are issued until the target
/// becomes reachable.
pub proof fn lemma_debounce_repeated(
    s: Seq<StateRecord>,
    bindings: Seq<BalancerBinding>,
    port: i32,
    pod_ip: String,
    cluster_name: String,
    n: nat,
)
    requires
        lookup(s, (port as int, pod_ip@, cluster_name@)) matches Some(r) && r.current
            == Mode::Drain,
    ensures
        store_after_unreachable(s, bindings, port, pod_ip, cluster_name, n) == s,
        decide_spec(false, prior_mode(s, (port as int, pod_ip@, cluster_name@)))
            == Decision::Skip,
        cycle_calls_spec(
            bindings,
            decide_spec(false, prior_mode(s, (port as int, pod_ip@, cluster_name@))),
        ) == Seq::<MutationCall>::empty(),
    decreases n,
{
    if n > 0 {
        lemma_debounce_repeated(s, bindings, port, pod_ip, cluster_name, (n - 1) as nat);
    }
}

/// Self-healing invariant: a target observed reachable always decides an
/// `Accept` mutation — one call per resolved binding — even when the stored
/// mode is already `Accept`, so externally reverted or missed mutations are
/// healed.
pub proof fn lemma_self_healing(
    s: Seq<StateRecord>,
    bindings: Seq<BalancerBinding>,
    k: (int, Seq<char>, Seq<char>),
)
    requires
        lookup(s, k) is Some,
    ensures
        decide_spec(true, prior_mode(s, k)) == Decision::Mutate(Mode::Accept),
        cycle_calls_spec(bindings, decide_spec(true, prior_mode(s, k))).len() == bindings.len(),
        forall|i: int|
            0 <= i < bindings.len() ==> cycle_calls_spec(
                bindings,
                decide_spec(true, prior_mode(s, k)),
            )[i] == (MutationCall { binding: bindings[i], mode: Mode::Accept }),
{
}

/// Baseline no-op: the first observation of a target — no record stored
/// under its key — decides a baseline: the cycle issues zero mutation calls,
/// and when at least one binding is resolved it writes the key's record with
/// both mode columns `Unset`.
pub proof fn lemma_baseline(
    s: Seq<StateRecord>,
    bindings: Seq<BalancerBinding>,
    port: i32,
    pod_ip: String,
    cluster_name: String,
    reachable: bool,
)
    requires
        unique_keys(s),
        !has_key(s, (port as int, pod_ip@, cluster_name@)),
    ensures
        decide_spec(reachable, prior_mode(s, (port as int, pod_ip@, cluster_name@)))
            == Decision::Baseline,
        cycle_calls_spec(bindings, Decision::Baseline) == Seq::<MutationCall>::empty(),
        bindings.len() > 0 ==> (lookup(
            cycle_store_spec(s, bindings, port, pod_ip, cluster_name, Decision::Baseline),
            (port as int, pod_ip@, cluster_name@),
        ) matches Some(r) && r.lastmode == Mode::Unset && r.current == Mode::Unset),
{
    if bindings.len() > 0 {
        let rec = stored_record(
            bindings.first(),
            port,
            pod_ip,
            Mode::Unset,
            Mode::Unset,
            cluster_name,
        );
        assert(record_key(rec) == (port as int, pod_ip@, cluster_name@));
        lemma_lookup_after_upsert(s, rec);
    }
}

} // verus!

