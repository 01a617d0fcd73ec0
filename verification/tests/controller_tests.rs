use node_health_check::controller::{
    cluster_name_of, determine_action, find_internal_ip, lookup_label, seen_before,
    NodeAction, NodeAddressInfo, ERROR_REQUEUE_SECONDS, REQUEUE_SECONDS,
};
use node_health_check::crd::HealthCheckSpec;
use node_health_check::topology::LkeCluster;

fn pairs(kv: &[(&str, &str)]) -> Vec<(String, String)> {
    kv.iter().map(|(k, v)| (k.to_string(), v.to_string())).collect()
}

#[test]
fn node_event_classification() {
    // Under deletion: wait for further change, whatever the finalizers say.
    assert_eq!(determine_action(true, true), NodeAction::Delete);
    assert_eq!(determine_action(true, false), NodeAction::Delete);
    // No finalizer: treated as newly observed, full cycle.
    assert_eq!(determine_action(false, true), NodeAction::Create);
    // Any other state: no-op requeue.
    assert_eq!(determine_action(false, false), NodeAction::NoOp);
}

#[test]
fn requeue_delays() {
    assert_eq!(REQUEUE_SECONDS, 10);
    assert_eq!(ERROR_REQUEUE_SECONDS, 5);
}

#[test]
fn cluster_name_is_read_from_the_cluster_label() {
    let annotations = pairs(&[
        ("kubernetes.io/arch", "amd64"),
        ("cluster.x-k8s.io/cluster-name", "c1"),
    ]);
    assert_eq!(cluster_name_of(&annotations), Some("c1".to_string()));
}

#[test]
fn missing_cluster_label_is_reported_not_guessed() {
    let annotations = pairs(&[("kubernetes.io/arch", "amd64")]);
    assert_eq!(cluster_name_of(&annotations), None);
    let empty: Vec<(String, String)> = Vec::new();
    assert_eq!(cluster_name_of(&empty), None);
}

#[test]
fn label_lookup_returns_the_first_match() {
    let annotations = pairs(&[("k", "first"), ("k", "second")]);
    assert_eq!(lookup_label(&annotations, &"k".to_string()), Some("first".to_string()));
    assert_eq!(lookup_label(&annotations, &"other".to_string()), None);
}

#[test]
fn seen_marker_lookup() {
    assert!(!seen_before(&pairs(&[("kubernetes.io/arch", "amd64")])));
    assert!(seen_before(&pairs(&[("", "yes")])));
}

#[test]
fn internal_ip_is_the_first_internal_address() {
    let addresses = vec![
        NodeAddressInfo { type_: "ExternalIP".to_string(), address: "203.0.113.5".to_string() },
        NodeAddressInfo { type_: "InternalIP".to_string(), address: "192.0.2.4".to_string() },
        NodeAddressInfo { type_: "InternalIP".to_string(), address: "192.0.2.9".to_string() },
    ];
    assert_eq!(find_internal_ip(&addresses), Some("192.0.2.4".to_string()));
    let no_internal = vec![NodeAddressInfo {
        type_: "Hostname".to_string(),
        address: "node-a".to_string(),
    }];
    assert_eq!(find_internal_ip(&no_internal), None);
}

#[test]
fn health_check_spec_carries_its_configuration() {
    let spec = HealthCheckSpec { timeout: 3, port: 80, serv_namespace: "default".to_string() };
    let copy = spec.clone();
    assert_eq!(copy.timeout, 3);
    assert_eq!(copy.port, 80);
    assert_eq!(copy.serv_namespace, "default");
}

#[test]
fn lke_cluster_default_is_the_absent_reference() {
    let c = LkeCluster::default();
    assert_eq!(c.id, 0);
    assert!(c.label.is_empty());
    assert!(c.type_.is_empty());
    assert!(c.url.is_empty());
}
