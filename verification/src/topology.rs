//! The locally mirrored balancer topology and the binding resolver.
//!
//! An external sync process keeps a local mirror of the balancer topology:
//! one table of balancers, one of balancer configurations, one of balancer
//! nodes. The resolver answers, for a node's private address and a
//! health-check port, which `(node, balancer, configuration)` triples must be
//! mutated when that node's mode changes. Duplicate-key conflicts on mirror
//! inserts are benign — the row is already there from a prior sync — so the
//! inserts here leave the mirror unchanged when the key is already present.

use vstd::prelude::*;

use crate::substr::{contains_substr, is_substr_of};

verus! {

/// The identifier triple needed to mutate balancer membership for one node:
/// `PUT .../nodebalancers/{nodebalancer_id}/configs/{config_id}/nodes/{node_id}`.
#[derive(Clone, Copy, PartialEq, Eq, Structural, Debug)]
pub struct BalancerBinding {
    pub node_id: i32,
    pub nodebalancer_id: i32,
    pub config_id: i32,
}

/// A balancer endpoint as the balancer API's node objects describe it.
pub struct Nodebalancer {
    pub _id: i32,
    pub ip_address: String,
    pub port: i32,
}

/// A cluster reference attached to a balancer by the balancer API.
pub struct LkeCluster {
    pub id: i32,
    pub label: String,
    pub type_: String,
    pub url: String,
}

impl Default for LkeCluster {
    /// An absent cluster reference: zero id, empty strings.
    fn default() -> (d: Self)
        ensures
            d.id == 0,
            d.label@ == Seq::<char>::empty(),
            d.type_@ == Seq::<char>::empty(),
            d.url@ == Seq::<char>::empty(),
    {
        LkeCluster { id: 0, label: String::new(), type_: String::new(), url: String::new() }
    }
}

/// A balancer as the balancer API lists it.
pub struct NodeBalancerListObject {
    pub client_conn_throttle: i32,
    pub created: String,
    pub hostname: String,
    pub id: i32,
    pub ipv4: String,
    pub ipv6: String,
    pub label: String,
    pub lke_cluster: Option<LkeCluster>,
    pub region: String,
    pub type_: String,
    pub updated: String,
}

/// A row of the mirrored `nodebalancer` table.
pub struct LocalNodeBalancerListObject {
    pub nb_id: i32,
    pub ipv4: String,
    pub region: String,
    pub lke_id: i32,
}

impl Clone for LocalNodeBalancerListObject {
    fn clone(&self) -> (r: Self)
        ensures
            r == *self,
    {
        LocalNodeBalancerListObject {
            nb_id: self.nb_id,
            ipv4: self.ipv4.clone(),
            region: self.region.clone(),
            lke_id: self.lke_id,
        }
    }
}

/// A balancer node as the balancer API lists it.
pub struct NodeObject {
    pub address: String,
    pub config_id: i32,
    pub id: i32,
    pub label: String,
    pub mode: String,
    pub nodebalancer_id: i32,
    pub status: String,
    pub weight: i32,
}

/// Up/down counts of a configuration's nodes.
pub struct NodeStatus {
    pub down: i32,
    pub up: i32,
}

/// A balancer configuration as the balancer API lists it.
pub struct NodeBalancerConfigObject {
    pub algorithm: String,
    pub check: String,
    pub check_attempts: i32,
    pub check_body: String,
    pub check_interval: i32,
    pub check_passive: bool,
    pub check_path: String,
    pub check_timeout: i32,
    pub cipher_suite: String,
    pub id: i32,
    pub nodebalancer_id: i32,
    pub nodes_status: NodeStatus,
    pub port: i32,
    pub protocol: String,
    pub proxy_protocol: String,
    pub stickiness: String,
    pub udp_check_port: i32,
    pub udp_session_timeout: i32,
}

/// A row of the mirrored `nodebalancer_config` table.
pub struct ConfigRow {
    pub id: i32,
    pub nodebalancer_id: i32,
    pub algorithm: String,
    pub port: i32,
    pub up: i32,
    pub down: i32,
}

/// A row of the mirrored `node` table.
pub struct NodeRow {
    pub id: i32,
    pub address: String,
    pub status: String,
    pub config_id: i32,
    pub nodebalancer_id: i32,
}

/// The mirrored `nodebalancer` table holds a row with this balancer id.
pub open spec fn has_nb_id(s: Seq<LocalNodeBalancerListObject>, id: int) -> bool {
    exists|i: int| 0 <= i < s.len() && (#[trigger] s[i]).nb_id == id
}

/// The mirrored `nodebalancer_config` table holds a row with this primary
/// key `(id, nodebalancer_id)`.
pub open spec fn has_config_key(s: Seq<ConfigRow>, id: int, nb: int) -> bool {
    exists|i: int|
        0 <= i < s.len() && (#[trigger] s[i]).id == id && s[i].nodebalancer_id == nb
}

/// The mirrored `node` table holds a row with this primary key
/// `(id, nodebalancer_id)`.
pub open spec fn has_node_key(s: Seq<NodeRow>, id: int, nb: int) -> bool {
    exists|i: int|
        0 <= i < s.len() && (#[trigger] s[i]).id == id && s[i].nodebalancer_id == nb
}

/// The mirror row kept for a listed balancer configuration.
pub open spec fn config_row_of(cfg: NodeBalancerConfigObject) -> ConfigRow {
    ConfigRow {
        id: cfg.id,
        nodebalancer_id: cfg.nodebalancer_id,
        algorithm: cfg.algorithm,
        port: cfg.port,
        up: cfg.nodes_status.up,
        down: cfg.nodes_status.down,
    }
}

/// The mirror row kept for a listed balancer node.
pub open spec fn node_row_of(n: NodeObject) -> NodeRow {
    NodeRow {
        id: n.id,
        address: n.address,
        status: n.status,
        config_id: n.config_id,
        nodebalancer_id: n.nodebalancer_id,
    }
}

/// The node's mirrored address contains the probed private address, the way
/// the store's `LIKE '%address%'` pattern matches it.
pub open spec fn node_matches(n: NodeRow, ip: Seq<char>) -> bool {
    is_substr_of(n.address@, ip)
}

/// The configuration row joins this node row and serves the given port.
pub open spec fn config_joins(c: ConfigRow, n: NodeRow, port: int) -> bool {
    c.id == n.config_id && c.port == port
}

/// The binding triple a matching node row resolves to.
pub open spec fn binding_of(n: NodeRow) -> BalancerBinding {
    BalancerBinding {
        node_id: n.id,
        nodebalancer_id: n.nodebalancer_id,
        config_id: n.config_id,
    }
}

/// The bindings one node row contributes: one per configuration row that
/// joins it on the probed port, provided its address matches.
pub open spec fn node_bindings(
    n: NodeRow,
    configs: Seq<ConfigRow>,
    ip: Seq<char>,
    port: int,
) -> Seq<BalancerBinding>
    decreases configs.len(),
{
    if configs.len() == 0 {
        Seq::empty()
    } else {
        node_bindings(n, configs.drop_last(), ip, port) + if node_matches(n, ip)
            && config_joins(configs.last(), n, port) {
            seq![binding_of(n)]
        } else {
            Seq::empty()
        }
    }
}

/// All bindings the mirror resolves for an address and port: the inner join
/// of the `node` and `nodebalancer_config` tables, filtered by address
/// substring and exact port.
pub open spec fn resolve_spec(
    nodes: Seq<NodeRow>,
    configs: Seq<ConfigRow>,
    ip: Seq<char>,
    port: int,
) -> Seq<BalancerBinding>
    decreases nodes.len(),
{
    if nodes.len() == 0 {
        Seq::empty()
    } else {
        resolve_spec(nodes.drop_last(), configs, ip, port) + node_bindings(
            nodes.last(),
            configs,
            ip,
            port,
        )
    }
}

/// The rows of the mirrored `nodebalancer` table lying in a region.
pub open spec fn nb_rows_in_region(
    s: Seq<LocalNodeBalancerListObject>,
    loc: Seq<char>,
) -> Seq<LocalNodeBalancerListObject>
    decreases s.len(),
{
    if s.len() == 0 {
        Seq::empty()
    } else {
        nb_rows_in_region(s.drop_last(), loc) + if s.last().region@ == loc {
            seq![s.last()]
        } else {
            Seq::empty()
        }
    }
}

/// The locally mirrored balancer topology: the `nodebalancer`,
/// `nodebalancer_config` and `node` tables.
pub struct TopologyMirror {
    nb_rows: Vec<LocalNodeBalancerListObject>,
    config_rows: Vec<ConfigRow>,
    node_rows: Vec<NodeRow>,
}

impl TopologyMirror {
    /// The mirrored `nodebalancer` table.
    pub closed spec fn nodebalancers(&self) -> Seq<LocalNodeBalancerListObject> {
        self.nb_rows@
    }

    /// The mirrored `nodebalancer_config` table.
    pub closed spec fn configs(&self) -> Seq<ConfigRow> {
        self.config_rows@
    }

    /// The mirrored `node` table.
    pub closed spec fn nodes(&self) -> Seq<NodeRow> {
        self.node_rows@
    }

    /// An empty mirror.
    pub fn new() -> (m: Self)
        ensures
            m.nodebalancers() == Seq::<LocalNodeBalancerListObject>::empty(),
            m.configs() == Seq::<ConfigRow>::empty(),
            m.nodes() == Seq::<NodeRow>::empty(),
    {
        TopologyMirror { nb_rows: Vec::new(), config_rows: Vec::new(), node_rows: Vec::new() }
    }

    /// Insert a balancer row; a duplicate `nb_id` is benign and leaves the
    /// mirror unchanged.
    pub fn insert_nodebalancer(&mut self, nb: LocalNodeBalancerListObject)
        ensures
            has_nb_id(old(self).nodebalancers(), nb.nb_id as int) ==> final(self).nodebalancers()
                == old(self).nodebalancers(),
            !has_nb_id(old(self).nodebalancers(), nb.nb_id as int) ==> final(self).nodebalancers()
                == old(self).nodebalancers().push(nb),
            final(self).configs() == old(self).configs(),
            final(self).nodes() == old(self).nodes(),
    {
        let n = self.nb_rows.len();
        let mut i: usize = 0;
        while i < n
            invariant
                n == self.nb_rows.len(),
                i <= n,
                forall|k: int| 0 <= k < i ==> (#[trigger] self.nb_rows@[k]).nb_id != nb.nb_id,
            decreases n - i,
        {
            if self.nb_rows[i].nb_id == nb.nb_id {
                return ;
            }
            i = i + 1;
        }
        self.nb_rows.push(nb);
    }

    /// Insert a configuration row derived from a listed configuration; a
    /// duplicate `(id, nodebalancer_id)` key is benign and leaves the mirror
    /// unchanged.
    pub fn insert_config(&mut self, cfg: NodeBalancerConfigObject)
        ensures
            has_config_key(old(self).configs(), cfg.id as int, cfg.nodebalancer_id as int)
                ==> final(self).configs() == old(self).configs(),
            !has_config_key(old(self).configs(), cfg.id as int, cfg.nodebalancer_id as int)
                ==> final(self).configs() == old(self).configs().push(config_row_of(cfg)),
            final(self).nodebalancers() == old(self).nodebalancers(),
            final(self).nodes() == old(self).nodes(),
    {
        let row = ConfigRow {
            id: cfg.id,
            nodebalancer_id: cfg.nodebalancer_id,
            algorithm: cfg.algorithm,
            port: cfg.port,
            up: cfg.nodes_status.up,
            down: cfg.nodes_status.down,
        };
        self.insert_config_row(row);
    }

    /// Insert a configuration row as stored; a duplicate `(id,
    /// nodebalancer_id)` key is benign and leaves the mirror unchanged.
    pub fn insert_config_row(&mut self, row: ConfigRow)
        ensures
            has_config_key(old(self).configs(), row.id as int, row.nodebalancer_id as int)
                ==> final(self).configs() == old(self).configs(),
            !has_config_key(old(self).configs(), row.id as int, row.nodebalancer_id as int)
                ==> final(self).configs() == old(self).configs().push(row),
            final(self).nodebalancers() == old(self).nodebalancers(),
            final(self).nodes() == old(self).nodes(),
    {
        let n = self.config_rows.len();
        let mut i: usize = 0;
        while i < n
            invariant
                n == self.config_rows.len(),
                i <= n,
                forall|k: int|
                    0 <= k < i ==> !((#[trigger] self.config_rows@[k]).id == row.id
                        && self.config_rows@[k].nodebalancer_id == row.nodebalancer_id),
            decreases n - i,
        {
            if self.config_rows[i].id == row.id && self.config_rows[i].nodebalancer_id
                == row.nodebalancer_id {
                return ;
            }
            i = i + 1;
        }
        self.config_rows.push(row);
    }

    /// Insert a node row derived from a listed balancer node; a duplicate
    /// `(id, nodebalancer_id)` key is benign and leaves the mirror unchanged.
    pub fn insert_node(&mut self, node: NodeObject)
        ensures
            has_node_key(old(self).nodes(), node.id as int, node.nodebalancer_id as int)
                ==> final(self).nodes() == old(self).nodes(),
            !has_node_key(old(self).nodes(), node.id as int, node.nodebalancer_id as int)
                ==> final(self).nodes() == old(self).nodes().push(node_row_of(node)),
            final(self).nodebalancers() == old(self).nodebalancers(),
            final(self).configs() == old(self).configs(),
    {
        let row = NodeRow {
            id: node.id,
            address: node.address,
            status: node.status,
            config_id: node.config_id,
            nodebalancer_id: node.nodebalancer_id,
        };
        self.insert_node_row(row);
    }

    /// Insert a node row as stored; a duplicate `(id, nodebalancer_id)` key
    /// is benign and leaves the mirror unchanged.
    pub fn insert_node_row(&mut self, row: NodeRow)
        ensures
            has_node_key(old(self).nodes(), row.id as int, row.nodebalancer_id as int)
                ==> final(self).nodes() == old(self).nodes(),
            !has_node_key(old(self).nodes(), row.id as int, row.nodebalancer_id as int)
                ==> final(self).nodes() == old(self).nodes().push(row),
            final(self).nodebalancers() == old(self).nodebalancers(),
            final(self).configs() == old(self).configs(),
    {
        let n = self.node_rows.len();
        let mut i: usize = 0;
        while i < n
            invariant
                n == self.node_rows.len(),
                i <= n,
                forall|k: int|
                    0 <= k < i ==> !((#[trigger] self.node_rows@[k]).id == row.id
                        && self.node_rows@[k].nodebalancer_id == row.nodebalancer_id),
            decreases n - i,
        {
            if self.node_rows[i].id == row.id && self.node_rows[i].nodebalancer_id
                == row.nodebalancer_id {
                return ;
            }
            i = i + 1;
        }
        self.node_rows.push(row);
    }

    /// The balancer ids the mirror knows.
    pub fn get_nb_ids(&self) -> (r: Vec<i32>)
        ensures
            r@ == self.nodebalancers().map_values(|x: LocalNodeBalancerListObject| x.nb_id),
    {
        let mut r: Vec<i32> = Vec::new();
        let n = self.nb_rows.len();
        let mut i: usize = 0;
        while i < n
            invariant
                n == self.nb_rows.len(),
                i <= n,
                r@ == self.nb_rows@.take(i as int).map_values(
                    |x: LocalNodeBalancerListObject| x.nb_id,
                ),
            decreases n - i,
        {
            r.push(self.nb_rows[i].nb_id);
            assert(r@ =~= self.nb_rows@.take(i + 1).map_values(
                |x: LocalNodeBalancerListObject| x.nb_id,
            ));
            i = i + 1;
        }
        assert(self.nb_rows@.take(n as int) =~= self.nb_rows@);
        r
    }

    /// The configuration keys `(id, nodebalancer_id)` the mirror knows.
    pub fn get_nbcfg_ids(&self) -> (r: Vec<(i32, i32)>)
        ensures
            r@ == self.configs().map_values(|c: ConfigRow| (c.id, c.nodebalancer_id)),
    {
        let mut r: Vec<(i32, i32)> = Vec::new();
        let n = self.config_rows.len();
        let mut i: usize = 0;
        while i < n
            invariant
                n == self.config_rows.len(),
                i <= n,
                r@ == self.config_rows@.take(i as int).map_values(
                    |c: ConfigRow| (c.id, c.nodebalancer_id),
                ),
            decreases n - i,
        {
            r.push((self.config_rows[i].id, self.config_rows[i].nodebalancer_id));
            assert(r@ =~= self.config_rows@.take(i + 1).map_values(
                |c: ConfigRow| (c.id, c.nodebalancer_id),
            ));
            i = i + 1;
        }
        assert(self.config_rows@.take(n as int) =~= self.config_rows@);
        r
    }

    /// The balancer rows lying in a region.
    pub fn get_nb_by_loc(&self, loc: &String) -> (r: Vec<LocalNodeBalancerListObject>)
        ensures
            r@ == nb_rows_in_region(self.nodebalancers(), loc@),
    {
        let mut r: Vec<LocalNodeBalancerListObject> = Vec::new();
        let n = self.nb_rows.len();
        let mut i: usize = 0;
        while i < n
            invariant
                n == self.nb_rows.len(),
                i <= n,
                r@ == nb_rows_in_region(self.nb_rows@.take(i as int), loc@),
            decreases n - i,
        {
            proof {
                assert(self.nb_rows@.take(i + 1).drop_last() =~= self.nb_rows@.take(i as int));
                assert(self.nb_rows@.take(i + 1).last() == self.nb_rows@[i as int]);
            }
            if self.nb_rows[i].region == *loc {
                r.push(self.nb_rows[i].clone());
            }
            assert(r@ =~= nb_rows_in_region(self.nb_rows@.take(i + 1), loc@));
            i = i + 1;
        }
        assert(self.nb_rows@.take(n as int) =~= self.nb_rows@);
        r
    }

    /// Resolve the bindings for a node's private address and a health-check
    /// port: one binding per `node` row whose mirrored address contains the
    /// private address, joined with each configuration row that serves the
    /// port. Zero bindings is not an error: the node is simply not a member
    /// of any balancer configuration for that port this cycle.
    pub fn resolve(&self, node_private_ip: &String, port: i32) -> (r: Vec<BalancerBinding>)
        ensures
            r@ == resolve_spec(self.nodes(), self.configs(), node_private_ip@, port as int),
    {
        let mut r: Vec<BalancerBinding> = Vec::new();
        let n = self.node_rows.len();
        let m = self.config_rows.len();
        let mut i: usize = 0;
        while i < n
            invariant
                n == self.node_rows.len(),
                m == self.config_rows.len(),
                i <= n,
                r@ == resolve_spec(
                    self.node_rows@.take(i as int),
                    self.config_rows@,
                    node_private_ip@,
                    port as int,
                ),
            decreases n - i,
        {
            let node = &self.node_rows[i];
            let matched = contains_substr(node.address.as_str(), node_private_ip.as_str());
            let mut j: usize = 0;
            while j < m
                invariant
                    n == self.node_rows.len(),
                    m == self.config_rows.len(),
                    i < n,
                    j <= m,
                    node == &self.node_rows@[i as int],
                    matched == node_matches(self.node_rows@[i as int], node_private_ip@),
                    r@ == resolve_spec(
                        self.node_rows@.take(i as int),
                        self.config_rows@,
                        node_private_ip@,
                        port as int,
                    ) + node_bindings(
                        self.node_rows@[i as int],
                        self.config_rows@.take(j as int),
                        node_private_ip@,
                        port as int,
                    ),
                decreases m - j,
            {
                proof {
                    assert(self.config_rows@.take(j + 1).drop_last() =~= self.config_rows@.take(
                        j as int,
                    ));
                    assert(self.config_rows@.take(j + 1).last() == self.config_rows@[j as int]);
                }
                if matched && self.config_rows[j].id == node.config_id && self.config_rows[j].port
                    == port {
                    r.push(
                        BalancerBinding {
                            node_id: node.id,
                            nodebalancer_id: node.nodebalancer_id,
                            config_id: node.config_id,
                        },
                    );
                }
                assert(r@ =~= resolve_spec(
                    self.node_rows@.take(i as int),
                    self.config_rows@,
                    node_private_ip@,
                    port as int,
                ) + node_bindings(
                    self.node_rows@[i as int],
                    self.config_rows@.take(j + 1),
                    node_private_ip@,
                    port as int,
                ));
                j = j + 1;
            }
            proof {
                assert(self.config_rows@.take(m as int) =~= self.config_rows@);
                assert(self.node_rows@.take(i + 1).drop_last() =~= self.node_rows@.take(i as int));
                assert(self.node_rows@.take(i + 1).last() == self.node_rows@[i as int]);
            }
            i = i + 1;
        }
        assert(self.node_rows@.take(n as int) =~= self.node_rows@);
        r
    }
}

} // verus!
