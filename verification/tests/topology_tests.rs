use node_health_check::topology::{
    BalancerBinding, LocalNodeBalancerListObject, NodeBalancerConfigObject, NodeObject,
    NodeStatus, TopologyMirror,
};

fn nb_row(nb_id: i32, ipv4: &str, region: &str, lke_id: i32) -> LocalNodeBalancerListObject {
    LocalNodeBalancerListObject {
        nb_id,
        ipv4: ipv4.to_string(),
        region: region.to_string(),
        lke_id,
    }
}

fn config(id: i32, nodebalancer_id: i32, port: i32) -> NodeBalancerConfigObject {
    NodeBalancerConfigObject {
        algorithm: "roundrobin".to_string(),
        check: "connection".to_string(),
        check_attempts: 3,
        check_body: String::new(),
        check_interval: 5,
        check_passive: true,
        check_path: String::new(),
        check_timeout: 3,
        cipher_suite: "recommended".to_string(),
        id,
        nodebalancer_id,
        nodes_status: NodeStatus { down: 0, up: 1 },
        port,
        protocol: "tcp".to_string(),
        proxy_protocol: "none".to_string(),
        stickiness: "none".to_string(),
        udp_check_port: 80,
        udp_session_timeout: 16,
    }
}

fn node(id: i32, address: &str, config_id: i32, nodebalancer_id: i32) -> NodeObject {
    NodeObject {
        address: address.to_string(),
        config_id,
        id,
        label: format!("node-{}", id),
        mode: "accept".to_string(),
        nodebalancer_id,
        status: "UP".to_string(),
        weight: 100,
    }
}

#[test]
fn duplicate_nodebalancer_insert_is_swallowed() {
    let mut mirror = TopologyMirror::new();
    mirror.insert_nodebalancer(nb_row(100, "203.0.113.5", "us-east", 9));
    mirror.insert_nodebalancer(nb_row(100, "198.51.100.7", "eu-west", 8));
    mirror.insert_nodebalancer(nb_row(101, "198.51.100.7", "eu-west", 8));
    let ids = mirror.get_nb_ids();
    assert_eq!(ids, vec![100, 101]);
}

#[test]
fn duplicate_config_and_node_inserts_are_swallowed() {
    let mut mirror = TopologyMirror::new();
    mirror.insert_config(config(55, 100, 80));
    mirror.insert_config(config(55, 100, 443));
    mirror.insert_config(config(55, 101, 80));
    assert_eq!(mirror.get_nbcfg_ids(), vec![(55, 100), (55, 101)]);
    mirror.insert_node(node(7, "10.2.0.9:80", 55, 100));
    mirror.insert_node(node(7, "10.2.0.9:80", 55, 100));
    // The node row was kept once; the join on configuration id alone still
    // pairs it with both config rows that share id 55.
    let bindings = mirror.resolve(&"10.2.0.9".to_string(), 80);
    assert_eq!(bindings.len(), 2);
}

#[test]
fn nodebalancers_by_region() {
    let mut mirror = TopologyMirror::new();
    mirror.insert_nodebalancer(nb_row(100, "203.0.113.5", "us-east", 9));
    mirror.insert_nodebalancer(nb_row(101, "198.51.100.7", "eu-west", 8));
    mirror.insert_nodebalancer(nb_row(102, "198.51.100.9", "us-east", 9));
    let rows = mirror.get_nb_by_loc(&"us-east".to_string());
    let ids: Vec<i32> = rows.iter().map(|r| r.nb_id).collect();
    assert_eq!(ids, vec![100, 102]);
    assert!(mirror.get_nb_by_loc(&"ap-south".to_string()).is_empty());
}

#[test]
fn resolve_matches_address_substring_and_exact_port() {
    let mut mirror = TopologyMirror::new();
    mirror.insert_config(config(55, 100, 80));
    mirror.insert_config(config(56, 100, 443));
    mirror.insert_node(node(7, "192.0.2.4:80", 55, 100));
    let bindings = mirror.resolve(&"192.0.2.4".to_string(), 80);
    assert_eq!(
        bindings,
        vec![BalancerBinding { node_id: 7, nodebalancer_id: 100, config_id: 55 }]
    );
    // The same address on the wrong port resolves nothing.
    assert!(mirror.resolve(&"192.0.2.4".to_string(), 8080).is_empty());
    // A different address resolves nothing.
    assert!(mirror.resolve(&"192.0.2.5".to_string(), 80).is_empty());
}

#[test]
fn resolve_returns_one_binding_per_matching_configuration() {
    let mut mirror = TopologyMirror::new();
    // Two balancer configurations serve port 80; the node is attached to
    // each through its own node row.
    mirror.insert_config(config(55, 100, 80));
    mirror.insert_config(config(65, 200, 80));
    mirror.insert_node(node(7, "192.0.2.4:80", 55, 100));
    mirror.insert_node(node(9, "192.0.2.4:80", 65, 200));
    let bindings = mirror.resolve(&"192.0.2.4".to_string(), 80);
    assert_eq!(
        bindings,
        vec![
            BalancerBinding { node_id: 7, nodebalancer_id: 100, config_id: 55 },
            BalancerBinding { node_id: 9, nodebalancer_id: 200, config_id: 65 },
        ]
    );
}

#[test]
fn resolve_for_unknown_private_ip_returns_zero_rows() {
    let mut mirror = TopologyMirror::new();
    mirror.insert_config(config(9, 100, 80));
    mirror.insert_node(node(3, "192.168.1.10:80", 9, 100));
    // No mirrored address contains this private IP: zero bindings, which is
    // not an error — the cycle skips mutation and persistence.
    let bindings = mirror.resolve(&"10.2.0.9".to_string(), 80);
    assert!(bindings.is_empty());
}
