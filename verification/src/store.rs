//! The persisted per-target state, modelled as a keyed record table.
//!
//! One record is kept per `(port, pod_ip, cluster_name)` key: the mode
//! requested by the most recent transition (`lastmode`) and the mode believed
//! currently applied on the balancer (`current`), with the balancer
//! identifiers denormalised for audit. `upsert` is insert-or-update on the
//! key — the single point of truth update: a fresh key stores the submitted
//! record whole, while a conflict overwrites only the two mode columns and
//! keeps the row's key and identifier columns as first written. `get`
//! returns at most one record; absence means the target was never observed.

use vstd::prelude::*;

use crate::mode::Mode;
use crate::topology::BalancerBinding;

verus! {

/// One persisted row of the state table.
pub struct StateRecord {
    pub nodebalancer_id: i32,
    pub config_id: i32,
    pub node_id: i32,
    pub pod_ip: String,
    pub port: i32,
    pub lastmode: Mode,
    pub current: Mode,
    pub cluster_name: String,
}

impl Clone for StateRecord {
    fn clone(&self) -> (r: Self)
        ensures
            r == *self,
    {
        StateRecord {
            nodebalancer_id: self.nodebalancer_id,
            config_id: self.config_id,
            node_id: self.node_id,
            pod_ip: self.pod_ip.clone(),
            port: self.port,
            lastmode: self.lastmode,
            current: self.current,
            cluster_name: self.cluster_name.clone(),
        }
    }
}

/// The identity of a target: its port, pod IP and cluster name.
pub open spec fn record_key(r: StateRecord) -> (int, Seq<char>, Seq<char>) {
    (r.port as int, r.pod_ip@, r.cluster_name@)
}

/// Some record in `s` has the key `k`.
pub open spec fn has_key(s: Seq<StateRecord>, k: (int, Seq<char>, Seq<char>)) -> bool {
    exists|i: int| 0 <= i < s.len() && record_key(#[trigger] s[i]) == k
}

/// The index of a record with key `k`, unique when keys are unique.
pub open spec fn key_index(s: Seq<StateRecord>, k: (int, Seq<char>, Seq<char>)) -> int {
    choose|i: int| 0 <= i < s.len() && record_key(#[trigger] s[i]) == k
}

/// The record stored under key `k`, if any.
pub open spec fn lookup(s: Seq<StateRecord>, k: (int, Seq<char>, Seq<char>)) -> Option<
    StateRecord,
> {
    if has_key(s, k) {
        Some(s[key_index(s, k)])
    } else {
        None
    }
}

/// At most one record exists per `(port, pod_ip, cluster_name)` key.
pub open spec fn unique_keys(s: Seq<StateRecord>) -> bool {
    forall|i: int, j: int|
        0 <= i < j < s.len() ==> #[trigger] record_key(s[i]) != #[trigger] record_key(s[j])
}

/// The row kept when an upsert hits an existing record: the prior row's key
/// and identifier columns, with only the two mode columns overwritten.
pub open spec fn merged_record(prior: StateRecord, r: StateRecord) -> StateRecord {
    StateRecord {
        nodebalancer_id: prior.nodebalancer_id,
        config_id: prior.config_id,
        node_id: prior.node_id,
        pod_ip: prior.pod_ip,
        port: prior.port,
        lastmode: r.lastmode,
        current: r.current,
        cluster_name: prior.cluster_name,
    }
}

/// Insert-or-update on the record's key: a record already stored under the
/// key keeps its place, its key and its identifier columns and takes only
/// the submitted mode columns; otherwise the record is appended whole.
pub open spec fn upsert_spec(s: Seq<StateRecord>, r: StateRecord) -> Seq<StateRecord> {
    if has_key(s, record_key(r)) {
        let i = key_index(s, record_key(r));
        s.update(i, merged_record(s[i], r))
    } else {
        s.push(r)
    }
}

/// The record an upsert submits: the key fields, the balancer identifiers
/// of the binding, and the two mode columns. On a fresh key it is stored
/// whole; on a conflict only its mode columns land.
pub open spec fn stored_record(
    binding: BalancerBinding,
    port: i32,
    pod_ip: String,
    lastmode: Mode,
    current: Mode,
    cluster_name: String,
) -> StateRecord {
    StateRecord {
        nodebalancer_id: binding.nodebalancer_id,
        config_id: binding.config_id,
        node_id: binding.node_id,
        pod_ip: pod_ip,
        port: port,
        lastmode: lastmode,
        current: current,
        cluster_name: cluster_name,
    }
}

/// An upsert never duplicates a key: uniqueness is preserved.
pub proof fn lemma_upsert_preserves_unique_keys(s: Seq<StateRecord>, r: StateRecord)
    requires
        unique_keys(s),
    ensures
        unique_keys(upsert_spec(s, r)),
{
    let k = record_key(r);
    if has_key(s, k) {
        let i = key_index(s, k);
        let t = s.update(i, merged_record(s[i], r));
        assert(forall|m: int| 0 <= m < t.len() ==> record_key(#[trigger] t[m]) == record_key(s[m]));
    }
}

/// Key uniqueness: a table with unique keys still has unique keys after any
/// number of upserts, so at most one record ever exists per key.
pub proof fn lemma_key_uniqueness(s: Seq<StateRecord>, rs: Seq<StateRecord>)
    requires
        unique_keys(s),
    ensures
        unique_keys(upsert_all(s, rs)),
    decreases rs.len(),
{
    if rs.len() > 0 {
        lemma_key_uniqueness(s, rs.drop_last());
        lemma_upsert_preserves_unique_keys(upsert_all(s, rs.drop_last()), rs.last());
    }
}

/// The table after upserting each record of `rs` in order.
pub open spec fn upsert_all(s: Seq<StateRecord>, rs: Seq<StateRecord>) -> Seq<StateRecord>
    decreases rs.len(),
{
    if rs.len() == 0 {
        s
    } else {
        upsert_spec(upsert_all(s, rs.drop_last()), rs.last())
    }
}

/// After an upsert, its key looks up the written row: the submitted record
/// itself on a fresh key; on a conflict, the prior row with only its mode
/// columns overwritten.
pub proof fn lemma_lookup_after_upsert(s: Seq<StateRecord>, r: StateRecord)
    requires
        unique_keys(s),
    ensures
        !has_key(s, record_key(r)) ==> lookup(upsert_spec(s, r), record_key(r)) == Some(r),
        has_key(s, record_key(r)) ==> lookup(upsert_spec(s, r), record_key(r)) == Some(
            merged_record(s[key_index(s, record_key(r))], r),
        ),
{
    let k = record_key(r);
    if has_key(s, k) {
        let i = key_index(s, k);
        assert(0 <= i < s.len() && record_key(s[i]) == k);
        let u = s.update(i, merged_record(s[i], r));
        assert(record_key(u[i]) == k);
        assert(has_key(u, k));
        let j = key_index(u, k);
        assert(0 <= j < u.len() && record_key(u[j]) == k);
        if i != j {
            assert(record_key(u[j]) == record_key(s[j]));
            assert(record_key(s[i]) == record_key(s[j]));
        }
    } else {
        let u = s.push(r);
        assert(record_key(u[s.len() as int]) == k);
        assert(has_key(u, k));
        let j = key_index(u, k);
        assert(0 <= j < u.len() && record_key(u[j]) == k);
        if j != s.len() {
            assert(record_key(s[j]) == k);
        }
    }
}

/// After an upsert, every other key looks up what it did before.
pub proof fn lemma_lookup_other_keys(
    s: Seq<StateRecord>,
    r: StateRecord,
    k: (int, Seq<char>, Seq<char>),
)
    requires
        unique_keys(s),
        k != record_key(r),
    ensures
        lookup(upsert_spec(s, r), k) == lookup(s, k),
{
    let rk = record_key(r);
    if has_key(s, rk) {
        let i = key_index(s, rk);
        let u = s.update(i, merged_record(s[i], r));
        assert(record_key(u[i]) == rk);
        assert(forall|m: int| 0 <= m < u.len() && m != i ==> u[m] == s[m]);
        if has_key(s, k) {
            let j = key_index(s, k);
            assert(0 <= j < s.len() && record_key(s[j]) == k);
            assert(j != i);
            assert(record_key(u[j]) == k);
            assert(has_key(u, k));
            let j2 = key_index(u, k);
            assert(0 <= j2 < u.len() && record_key(u[j2]) == k);
            assert(j2 != i);
            if j2 != j {
                assert(record_key(s[j2]) == record_key(s[j]));
            }
        } else {
            if has_key(u, k) {
                let j2 = key_index(u, k);
                assert(0 <= j2 < u.len() && record_key(u[j2]) == k);
                assert(j2 != i);
                assert(record_key(s[j2]) == k);
            }
        }
    } else {
        let u = s.push(r);
        if has_key(s, k) {
            let j = key_index(s, k);
            assert(record_key(u[j]) == k);
            assert(has_key(u, k));
            let j2 = key_index(u, k);
            assert(0 <= j2 < u.len() && record_key(u[j2]) == k);
            assert(j2 != s.len());
            if j2 != j {
                assert(record_key(s[j2]) == record_key(s[j]));
            }
        } else {
            if has_key(u, k) {
                let j2 = key_index(u, k);
                assert(0 <= j2 < u.len() && record_key(u[j2]) == k);
                assert(j2 != s.len());
                assert(record_key(s[j2]) == k);
            }
        }
    }
}

/// Two upserts on the same key carrying the same mode columns collapse to
/// the first: the second lands on the row the first wrote and overwrites its
/// mode columns with the very same values.
pub proof fn lemma_upsert_absorb(s: Seq<StateRecord>, r1: StateRecord, r2: StateRecord)
    requires
        unique_keys(s),
        record_key(r1) == record_key(r2),
        r1.lastmode == r2.lastmode,
        r1.current == r2.current,
    ensures
        upsert_spec(upsert_spec(s, r1), r2) == upsert_spec(s, r1),
{
    let k = record_key(r1);
    if has_key(s, k) {
        let i = key_index(s, k);
        assert(0 <= i < s.len() && record_key(s[i]) == k);
        let m1 = merged_record(s[i], r1);
        let u = s.update(i, m1);
        assert(record_key(u[i]) == k);
        assert(has_key(u, k));
        let j = key_index(u, k);
        assert(0 <= j < u.len() && record_key(u[j]) == k);
        if j != i {
            assert(record_key(u[j]) == record_key(s[j]));
            assert(record_key(s[i]) == record_key(s[j]));
        }
        assert(merged_record(u[i], r2) == m1);
        assert(u.update(i, merged_record(u[i], r2)) =~= u);
    } else {
        let u = s.push(r1);
        assert(record_key(u[s.len() as int]) == k);
        assert(has_key(u, k));
        let j = key_index(u, k);
        assert(0 <= j < u.len() && record_key(u[j]) == k);
        if j != s.len() {
            assert(record_key(s[j]) == k);
        }
        assert(merged_record(u[s.len() as int], r2) == r1);
        assert(u.update(s.len() as int, merged_record(u[s.len() as int], r2)) =~= u);
    }
}

/// The state table. Its invariant — at most one record per key — is
/// established empty and preserved by `upsert`.
pub struct StateStore {
    records: Vec<StateRecord>,
}

impl View for StateStore {
    type V = Seq<StateRecord>;

    closed spec fn view(&self) -> Seq<StateRecord> {
        self.records@
    }
}

impl StateStore {
    /// The store's invariant: at most one record per key.
    pub open spec fn wf(&self) -> bool {
        unique_keys(self@)
    }

    /// An empty store.
    pub fn new() -> (s: Self)
        ensures
            s@ == Seq::<StateRecord>::empty(),
            s.wf(),
    {
        StateStore { records: Vec::new() }
    }

    /// How many records the store holds.
    pub fn len(&self) -> (n: usize)
        ensures
            n == self@.len(),
    {
        self.records.len()
    }

    /// The record for a key, or `None` when the target was never observed.
    pub fn get<'a>(&'a self, port: i32, pod_ip: &String, cluster_name: &String) -> (r: Option<
        &'a StateRecord,
    >)
        requires
            self.wf(),
        ensures
            (match r {
                Some(rec) => lookup(self@, (port as int, pod_ip@, cluster_name@)) == Some(*rec),
                None => lookup(self@, (port as int, pod_ip@, cluster_name@)) is None,
            }),
    {
        let ghost k = (port as int, pod_ip@, cluster_name@);
        let n = self.records.len();
        let mut i: usize = 0;
        while i < n
            invariant
                n == self.records.len(),
                i <= n,
                unique_keys(self@),
                k == (port as int, pod_ip@, cluster_name@),
                forall|m: int| 0 <= m < i ==> record_key(#[trigger] self.records@[m]) != k,
            decreases n - i,
        {
            let rec = &self.records[i];
            if rec.port == port && rec.pod_ip == *pod_ip && rec.cluster_name == *cluster_name {
                proof {
                    assert(record_key(self.records@[i as int]) == k);
                    assert(has_key(self@, k));
                    let j = key_index(self@, k);
                    assert(0 <= j < self@.len() && record_key(self@[j]) == k);
                    if j != i {
                        assert(record_key(self@[j]) == record_key(self@[i as int]));
                    }
                }
                return Some(rec);
            }
            i = i + 1;
        }
        proof {
            if has_key(self@, k) {
                let j = key_index(self@, k);
                assert(0 <= j < self@.len() && record_key(self@[j]) == k);
            }
        }
        None
    }

    /// The mode currently believed applied for a key, or `None` when the
    /// target was never observed.
    pub fn current_mode(&self, port: i32, pod_ip: &String, cluster_name: &String) -> (r: Option<
        Mode,
    >)
        requires
            self.wf(),
        ensures
            r == prior_mode(self@, (port as int, pod_ip@, cluster_name@)),
    {
        match self.get(port, pod_ip, cluster_name) {
            Some(rec) => Some(rec.current),
            None => None,
        }
    }

    /// Insert-or-update the record for `(port, pod_ip, cluster_name)`: on
    /// conflict only `lastmode` and `current` are overwritten — the key and
    /// the identifier columns keep their prior values — and no second row
    /// appears.
    pub fn upsert(
        &mut self,
        binding: BalancerBinding,
        port: i32,
        pod_ip: &String,
        lastmode: Mode,
        current: Mode,
        cluster_name: &String,
    )
        requires
            old(self).wf(),
        ensures
            final(self).wf(),
            final(self)@ == upsert_spec(
                old(self)@,
                stored_record(binding, port, *pod_ip, lastmode, current, *cluster_name),
            ),
    {
        let rec = StateRecord {
            nodebalancer_id: binding.nodebalancer_id,
            config_id: binding.config_id,
            node_id: binding.node_id,
            pod_ip: pod_ip.clone(),
            port: port,
            lastmode: lastmode,
            current: current,
            cluster_name: cluster_name.clone(),
        };
        let ghost k = record_key(rec);
        let n = self.records.len();
        let mut i: usize = 0;
        while i < n
            invariant
                n == self.records.len(),
                i <= n,
                self@ == old(self)@,
                unique_keys(self@),
                k == record_key(rec),
                forall|m: int| 0 <= m < i ==> record_key(#[trigger] self.records@[m]) != k,
                rec == stored_record(binding, port, *pod_ip, lastmode, current, *cluster_name),
            decreases n - i,
        {
            let at = &self.records[i];
            if at.port == port && at.pod_ip == *pod_ip && at.cluster_name == *cluster_name {
                proof {
                    assert(record_key(self.records@[i as int]) == k);
                    assert(has_key(self@, k));
                    let j = key_index(self@, k);
                    assert(0 <= j < self@.len() && record_key(self@[j]) == k);
                    if j != i {
                        assert(record_key(self@[j]) == record_key(self@[i as int]));
                    }
                    lemma_upsert_preserves_unique_keys(self@, rec);
                }
                let merged = StateRecord {
                    nodebalancer_id: at.nodebalancer_id,
                    config_id: at.config_id,
                    node_id: at.node_id,
                    pod_ip: at.pod_ip.clone(),
                    port: at.port,
                    lastmode: lastmode,
                    current: current,
                    cluster_name: at.cluster_name.clone(),
                };
                assert(merged == merged_record(self.records@[i as int], rec));
                self.records.set(i, merged);
                return ;
            }
            i = i + 1;
        }
        proof {
            if has_key(self@, k) {
                let j = key_index(self@, k);
                assert(0 <= j < self@.len() && record_key(self@[j]) == k);
            }
            lemma_upsert_preserves_unique_keys(self@, rec);
        }
        self.records.push(rec);
    }
}

/// The mode believed applied for a key: the `current` column of its record,
/// or `None` when no record exists.
pub open spec fn prior_mode(s: Seq<StateRecord>, k: (int, Seq<char>, Seq<char>)) -> Option<Mode> {
    match lookup(s, k) {
        Some(rec) => Some(rec.current),
        None => None,
    }
}

} // verus!
