use parmatrix::{AmapMetric, CmapMetric, Metrics, MetricsError};

#[test]
fn metrics_counts_up_and_down() {
    let mut m = Metrics::new();
    let req = String::from("requests");
    let workers = String::from("workers");
    assert!(m.inc(&req).is_ok());
    assert!(m.inc(&req).is_ok());
    assert!(m.inc(&workers).is_ok());
    assert!(m.dec(&workers).is_ok());
    let snap = m.snapshot().unwrap();
    assert_eq!(snap.len(), 2);
    assert_eq!(snap[0], (String::from("requests"), 2));
    assert_eq!(snap[1], (String::from("workers"), 0));
}

#[test]
fn metrics_dec_creates_a_negative_counter() {
    let mut m = Metrics::new();
    let key = String::from("errors");
    assert!(m.dec(&key).is_ok());
    let snap = m.snapshot().unwrap();
    assert_eq!(snap, vec![(String::from("errors"), -1)]);
}

#[test]
fn amap_steps_only_known_names() {
    let mut m = AmapMetric::new(&["calls", "faults"]);
    let calls = String::from("calls");
    let faults = String::from("faults");
    let other = String::from("other");
    assert!(m.inc(&calls).is_ok());
    assert!(m.inc(&calls).is_ok());
    assert!(m.dec(&faults).is_ok());
    let e = m.inc(&other).unwrap_err();
    assert!(matches!(e, MetricsError::KeyNotFound { key } if key == "other"));
    assert_eq!(m.data[0], (String::from("calls"), 2));
    assert_eq!(m.data[1], (String::from("faults"), -1));
}

#[test]
fn amap_collapses_repeated_names() {
    let m = AmapMetric::new(&["a", "b", "a"]);
    assert_eq!(m.data.len(), 2);
    assert_eq!(m.data[0], (String::from("a"), 0));
    assert_eq!(m.data[1], (String::from("b"), 0));
}

#[test]
fn cmap_counts_up_and_down() {
    let mut m = CmapMetric::new();
    let key = String::from("jobs");
    assert_eq!(m.get(&key), None);
    assert!(m.inc(&key).is_ok());
    assert!(m.inc(&key).is_ok());
    assert_eq!(m.get(&key), Some(2));
    assert!(m.dec(&key).is_ok());
    assert_eq!(m.get(&key), Some(1));
    let other = String::from("other");
    assert!(m.dec(&other).is_ok());
    assert_eq!(m.get(&other), Some(-1));
}
