use ordo::dag::{topological_sort, MemberDag};
use ordo::strmap::StrMap;

fn strings(v: &[&str]) -> Vec<String> {
    v.iter().map(|s| s.to_string()).collect()
}

fn graph(edges: &[(&str, &[&str])]) -> StrMap<Vec<String>> {
    let mut m = StrMap::new();
    for (k, deps) in edges {
        m.insert(k.to_string(), strings(deps));
    }
    m
}

fn members(edges: &[(&str, &[&str])]) -> Vec<(String, Vec<String>)> {
    edges.iter().map(|(k, d)| (k.to_string(), strings(d))).collect()
}

fn pos(order: &[String], name: &str) -> usize {
    order.iter().position(|n| n == name).unwrap()
}

#[test]
fn dag_topological_order() {
    let dag = MemberDag::build(&members(&[("core", &[]), ("utils", &["core"]), ("myapp", &["utils"])])).unwrap();
    let core_idx = pos(&dag.order, "core");
    let utils_idx = pos(&dag.order, "utils");
    let app_idx = pos(&dag.order, "myapp");
    assert!(core_idx < utils_idx);
    assert!(utils_idx < app_idx);
}

#[test]
fn dag_transitive_deps() {
    let dag = MemberDag::build(&members(&[("core", &[]), ("utils", &["core"]), ("myapp", &["utils"])])).unwrap();
    let deps = dag.transitive_deps("myapp");
    assert!(deps.contains("utils"));
    assert!(deps.contains("core"));
    assert!(!deps.contains("myapp"));
    assert!(dag.transitive_deps("core").is_empty());
}

#[test]
fn dag_cycle_detection() {
    let adjacency = graph(&[("a", &["b"]), ("b", &["a"])]);
    let msg = topological_sort(&adjacency).unwrap_err();
    assert!(msg.contains("circular"), "got: {msg}");
}

#[test]
fn cycle_message_lists_stuck_members() {
    let adjacency = graph(&[("a", &["b"]), ("b", &["a"]), ("c", &[])]);
    let msg = topological_sort(&adjacency).unwrap_err();
    assert_eq!(msg, "circular dependency detected among workspace members: a, b");
}

#[test]
fn sort_puts_greatest_ready_name_first() {
    let adjacency = graph(&[("a", &[]), ("b", &[]), ("c", &["a"])]);
    assert_eq!(topological_sort(&adjacency).unwrap(), vec!["b", "a", "c"]);
}

#[test]
fn sort_waits_forever_on_unknown_dependencies() {
    let adjacency = graph(&[("app", &["external"]), ("lib", &[])]);
    let msg = topological_sort(&adjacency).unwrap_err();
    assert_eq!(msg, "circular dependency detected among workspace members: app");
}

#[test]
fn sort_of_empty_graph_is_empty() {
    assert!(topological_sort(&StrMap::new()).unwrap().is_empty());
}

#[test]
fn build_keeps_only_member_edges() {
    let dag = MemberDag::build(&members(&[("app", &["fmt", "lib"]), ("lib", &[])])).unwrap();
    assert_eq!(dag.deps_of("app"), &["lib".to_string()][..]);
    assert!(dag.deps_of("missing").is_empty());
    assert_eq!(dag.order, vec!["lib", "app"]);
}

#[test]
fn subset_order_keeps_target_and_its_deps() {
    let dag = MemberDag::build(&members(&[
        ("core", &[]),
        ("utils", &["core"]),
        ("myapp", &["utils"]),
        ("other", &["core"]),
    ]))
    .unwrap();
    let sub = dag.subset_order("utils");
    assert_eq!(sub, vec!["core", "utils"]);
    let sub = dag.subset_order("myapp");
    assert_eq!(sub, vec!["core", "utils", "myapp"]);
}

#[test]
fn from_adjacency_rejects_cycle() {
    assert!(MemberDag::from_adjacency(graph(&[("x", &["x"])])).is_err());
    let dag = MemberDag::from_adjacency(graph(&[("x", &[]), ("y", &["x"])])).unwrap();
    assert_eq!(dag.order, vec!["x", "y"]);
}
