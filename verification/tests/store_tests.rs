use node_health_check::mode::Mode;
use node_health_check::store::StateStore;
use node_health_check::topology::BalancerBinding;

fn binding(node_id: i32, nodebalancer_id: i32, config_id: i32) -> BalancerBinding {
    BalancerBinding { node_id, nodebalancer_id, config_id }
}

#[test]
fn get_on_empty_store_is_none() {
    let store = StateStore::new();
    assert!(store.get(80, &"10.0.0.5".to_string(), &"c1".to_string()).is_none());
    assert_eq!(store.len(), 0);
}

#[test]
fn upsert_then_get_returns_the_record() {
    let mut store = StateStore::new();
    let ip = "10.0.0.5".to_string();
    let cluster = "c1".to_string();
    store.upsert(binding(7, 100, 55), 80, &ip, Mode::Accept, Mode::Accept, &cluster);
    let rec = store.get(80, &ip, &cluster).expect("record should exist");
    assert_eq!(rec.node_id, 7);
    assert_eq!(rec.nodebalancer_id, 100);
    assert_eq!(rec.config_id, 55);
    assert_eq!(rec.port, 80);
    assert_eq!(rec.pod_ip, "10.0.0.5");
    assert_eq!(rec.cluster_name, "c1");
    assert_eq!(rec.lastmode, Mode::Accept);
    assert_eq!(rec.current, Mode::Accept);
}

#[test]
fn repeated_upserts_keep_one_record_per_key() {
    let mut store = StateStore::new();
    let ip = "10.0.0.5".to_string();
    let cluster = "c1".to_string();
    store.upsert(binding(7, 100, 55), 80, &ip, Mode::Unset, Mode::Unset, &cluster);
    store.upsert(binding(7, 100, 55), 80, &ip, Mode::Drain, Mode::Drain, &cluster);
    store.upsert(binding(8, 101, 56), 80, &ip, Mode::Accept, Mode::Accept, &cluster);
    assert_eq!(store.len(), 1);
    let rec = store.get(80, &ip, &cluster).expect("record should exist");
    assert_eq!(rec.current, Mode::Accept);
    assert_eq!(rec.lastmode, Mode::Accept);
    // The conflict path overwrites only the mode columns; the identifier
    // columns keep their first-written values.
    assert_eq!(rec.node_id, 7);
    assert_eq!(rec.nodebalancer_id, 100);
    assert_eq!(rec.config_id, 55);
}

#[test]
fn distinct_keys_keep_distinct_records() {
    let mut store = StateStore::new();
    let ip_a = "10.0.0.5".to_string();
    let ip_b = "10.0.0.6".to_string();
    let c1 = "c1".to_string();
    let c2 = "c2".to_string();
    store.upsert(binding(1, 10, 20), 80, &ip_a, Mode::Accept, Mode::Accept, &c1);
    store.upsert(binding(2, 11, 21), 443, &ip_a, Mode::Drain, Mode::Drain, &c1);
    store.upsert(binding(3, 12, 22), 80, &ip_b, Mode::Drain, Mode::Drain, &c1);
    store.upsert(binding(4, 13, 23), 80, &ip_a, Mode::Unset, Mode::Unset, &c2);
    assert_eq!(store.len(), 4);
    assert_eq!(store.get(80, &ip_a, &c1).unwrap().current, Mode::Accept);
    assert_eq!(store.get(443, &ip_a, &c1).unwrap().current, Mode::Drain);
    assert_eq!(store.get(80, &ip_b, &c1).unwrap().current, Mode::Drain);
    assert_eq!(store.get(80, &ip_a, &c2).unwrap().current, Mode::Unset);
    assert!(store.get(443, &ip_b, &c1).is_none());
}

#[test]
fn current_mode_reads_the_current_column() {
    let mut store = StateStore::new();
    let ip = "10.0.0.5".to_string();
    let cluster = "c1".to_string();
    assert_eq!(store.current_mode(80, &ip, &cluster), None);
    store.upsert(binding(7, 100, 55), 80, &ip, Mode::Drain, Mode::Drain, &cluster);
    assert_eq!(store.current_mode(80, &ip, &cluster), Some(Mode::Drain));
}
