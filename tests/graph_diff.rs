use cargo_fork::{diff_deps, DepNode, DependencyGraph};

fn node(id: &str, deps: &[&str]) -> DepNode {
    DepNode { id: id.to_string(), deps: deps.iter().map(|d| d.to_string()).collect() }
}

fn sample() -> DependencyGraph {
    DependencyGraph {
        nodes: vec![
            node("app 0.1.0", &["foo 1.2.3", "bar 0.4.0"]),
            node("foo 1.2.3", &["baz 2.0.0"]),
            node("bar 0.4.0", &[]),
            node("baz 2.0.0", &[]),
        ],
    }
}

#[test]
fn diff_of_graph_with_itself_is_empty() {
    let g = sample();
    assert!(g.is_well_formed());
    assert!(diff_deps(&g, &g).is_empty());
}

#[test]
fn diff_reports_removed_and_added_edges() {
    let before = sample();
    let after = DependencyGraph {
        nodes: vec![
            node("app 0.1.0", &["foo 1.2.3", "bar 0.4.0"]),
            node("foo 1.2.3", &["qux 1.0.0"]),
            node("bar 0.4.0", &[]),
            node("qux 1.0.0", &[]),
        ],
    };
    let changes = diff_deps(&before, &after);
    assert_eq!(changes.len(), 2);
    assert_eq!(changes[0].id, "foo 1.2.3");
    assert_eq!(changes[0].removed, vec!["baz 2.0.0".to_string()]);
    assert_eq!(changes[0].added, vec!["qux 1.0.0".to_string()]);
    assert_eq!(changes[1].id, "qux 1.0.0");
    assert!(changes[1].removed.is_empty());
    assert!(changes[1].added.is_empty());
}

#[test]
fn new_node_is_reported_with_all_dependencies_added() {
    let before = DependencyGraph { nodes: vec![node("app 0.1.0", &[])] };
    let after = DependencyGraph {
        nodes: vec![node("app 0.1.0", &[]), node("foo 1.2.3", &["baz 2.0.0", "bar 0.4.0"])],
    };
    let changes = diff_deps(&before, &after);
    assert_eq!(changes.len(), 1);
    assert_eq!(changes[0].id, "foo 1.2.3");
    assert!(changes[0].removed.is_empty());
    assert_eq!(changes[0].added, vec!["baz 2.0.0".to_string(), "bar 0.4.0".to_string()]);
}

#[test]
fn node_only_in_before_is_not_reported() {
    let before = sample();
    let after = DependencyGraph {
        nodes: vec![
            node("app 0.1.0", &["foo 1.2.3", "bar 0.4.0"]),
            node("foo 1.2.3", &["baz 2.0.0"]),
            node("bar 0.4.0", &[]),
        ],
    };
    assert!(diff_deps(&before, &after).is_empty());
}

#[test]
fn reordered_dependencies_are_no_change() {
    let before = DependencyGraph { nodes: vec![node("app 0.1.0", &["a 1.0.0", "b 1.0.0"])] };
    let after = DependencyGraph { nodes: vec![node("app 0.1.0", &["b 1.0.0", "a 1.0.0"])] };
    assert!(diff_deps(&before, &after).is_empty());
}

#[test]
fn well_formedness_rejects_repeats() {
    let repeated_node = DependencyGraph { nodes: vec![node("a 1.0.0", &[]), node("a 1.0.0", &[])] };
    assert!(!repeated_node.is_well_formed());
    let repeated_dep = DependencyGraph { nodes: vec![node("a 1.0.0", &["b 1.0.0", "b 1.0.0"])] };
    assert!(!repeated_dep.is_well_formed());
    let empty = DependencyGraph { nodes: vec![] };
    assert!(empty.is_well_formed());
}
