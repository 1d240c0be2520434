use test_harness::ordering::{prioritized_order, topological_order, DependencyError};

fn names(v: &[&str]) -> Vec<String> {
    v.iter().map(|s| s.to_string()).collect()
}

#[test]
fn topological_order_puts_dependencies_first() {
    let n = names(&["a", "b", "c"]);
    let deps = vec![names(&["b"]), names(&[]), names(&["a"])];
    let order = topological_order(&n, &deps).unwrap();
    assert_eq!(order, vec![1, 0, 2]);
}

#[test]
fn topological_order_reports_unknown_dependency() {
    let n = names(&["a", "b"]);
    let deps = vec![names(&[]), names(&["a", "zzz"])];
    assert_eq!(
        topological_order(&n, &deps),
        Err(DependencyError::UnknownDependency { item: 1, dependency: 1 })
    );
}

#[test]
fn topological_order_reports_cycle() {
    let n = names(&["a", "b"]);
    let deps = vec![names(&["b"]), names(&["a"])];
    assert_eq!(topological_order(&n, &deps), Err(DependencyError::Cycle));
}

#[test]
fn prioritized_order_sorts_each_level_by_priority() {
    // a (low), b (critical), c depends on a (critical), d (high)
    let n = names(&["a", "b", "c", "d"]);
    let deps = vec![names(&[]), names(&[]), names(&["a"]), names(&[])];
    let ranks = vec![3u8, 0, 0, 1];
    let order = prioritized_order(&n, &deps, &ranks).unwrap();
    assert_eq!(order, vec![1, 3, 0, 2]);
}
