use horology_kernel::graph::{TemporalGraphExecutor, TemporalGraphNode, TemporalGraphSpec};

fn node(id: &str, after: &[&str]) -> TemporalGraphNode {
    TemporalGraphNode {
        id: id.to_string(),
        after: after.iter().map(|s| s.to_string()).collect(),
        offset_ms: Some(50),
        duration_ms: Some(50),
        metadata: None,
        labels: Vec::new(),
        action_bundle: None,
        agent_binding: None,
    }
}

fn sample_spec() -> TemporalGraphSpec {
    TemporalGraphSpec {
        root: "root".to_string(),
        nodes: vec![node("a", &[]), node("b", &["root", "a"])],
    }
}

#[test]
fn register_root_returns_independent_nodes() {
    let mut executor = TemporalGraphExecutor::new();
    let ready = executor.register_root(17, sample_spec(), "root".to_string());
    assert_eq!(ready.len(), 1);
    assert_eq!(ready[0].id, "a");
}

#[test]
fn completing_dependencies_unlocks_nodes() {
    let mut executor = TemporalGraphExecutor::new();
    executor.register_root(17, sample_spec(), "root".to_string());
    // still waiting on node "a"
    let after_root = executor.record_completion(17, "root");
    assert!(after_root.is_empty());

    let ready = executor.record_completion(17, "a");
    assert_eq!(ready.len(), 1);
    assert_eq!(ready[0].id, "b");

    // completed graphs are evicted from internal state
    let nothing_left = executor.record_completion(17, "b");
    assert!(nothing_left.is_empty());
}

#[test]
fn unknown_roots_yield_nothing() {
    let mut executor = TemporalGraphExecutor::new();
    assert!(executor.record_completion(99, "a").is_empty());
}

#[test]
fn default_root_id_is_root() {
    assert_eq!(horology_kernel::graph::default_root_id(), "root");
}
