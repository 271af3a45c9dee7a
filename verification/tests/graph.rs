use evaldbt::entries::find_latest;
use evaldbt::manifest::neighbours;
use evaldbt::{IdSet, Manifest, Node};
use std::collections::HashMap;

fn strings(items: &[&str]) -> Vec<String> {
    items.iter().map(|s| s.to_string()).collect()
}

fn raw(name: &str, resource_type: &str) -> Node {
    Node {
        name: String::from(name),
        resource_type: String::from(resource_type),
        fqn: vec![String::from("proj"), String::from(name)],
        refs: vec![],
        sources: vec![],
        columns: HashMap::new(),
        child_map: IdSet::new(),
        parent_map: IdSet::new(),
    }
}

fn edges(items: &[(&str, &[&str])]) -> Vec<(String, Vec<String>)> {
    items.iter().map(|(k, l)| (k.to_string(), strings(l))).collect()
}

#[test]
fn unlisted_node_gets_empty_sets() {
    let nodes = vec![(String::from("model.a"), raw("a", "model"))];
    let g = Manifest::build(nodes, &edges(&[("model.b", &["x"])]), &edges(&[]));
    assert_eq!(g.nodes.len(), 1);
    assert_eq!(g.nodes[0].0, "model.a");
    assert_eq!(g.nodes[0].1.parent_map.len(), 0);
    assert_eq!(g.nodes[0].1.child_map.len(), 0);
}

#[test]
fn authored_neighbour_sets_are_dropped() {
    let mut n = raw("a", "model");
    n.child_map = IdSet::from_list(&strings(&["model.z"]));
    n.parent_map = IdSet::from_list(&strings(&["model.y"]));
    let g = Manifest::build(vec![(String::from("model.a"), n)], &edges(&[]), &edges(&[]));
    assert_eq!(g.nodes[0].1.parent_map.len(), 0);
    assert_eq!(g.nodes[0].1.child_map.len(), 0);
}

#[test]
fn build_keeps_every_node_and_resolves_its_edges() {
    let nodes = vec![
        (String::from("source.raw"), raw("raw", "source")),
        (String::from("model.a"), raw("a", "model")),
        (String::from("model.b"), raw("b", "model")),
    ];
    let parents = edges(&[
        ("model.a", &["source.raw"]),
        ("model.b", &["model.a", "source.raw", "model.a"]),
        ("source.raw", &[]),
    ]);
    let children = edges(&[("source.raw", &["model.a", "model.b"]), ("model.a", &["model.b"])]);
    let g = Manifest::build(nodes, &parents, &children);
    assert_eq!(g.nodes.len(), 3);
    let keys: Vec<&str> = g.nodes.iter().map(|e| e.0.as_str()).collect();
    assert_eq!(keys, vec!["source.raw", "model.a", "model.b"]);
    let names: Vec<&str> = g.nodes.iter().map(|e| e.1.name.as_str()).collect();
    assert_eq!(names, vec!["raw", "a", "b"]);
    assert_eq!(g.nodes[0].1.parent_map.len(), 0);
    assert_eq!(g.nodes[0].1.child_map.to_vec(), strings(&["model.a", "model.b"]));
    assert_eq!(g.nodes[1].1.parent_map.to_vec(), strings(&["source.raw"]));
    assert_eq!(g.nodes[1].1.child_map.to_vec(), strings(&["model.b"]));
    assert_eq!(g.nodes[2].1.parent_map.len(), 2);
    assert!(g.nodes[2].1.parent_map.contains("model.a"));
    assert!(g.nodes[2].1.parent_map.contains("source.raw"));
    assert_eq!(g.nodes[2].1.child_map.len(), 0);
    assert_eq!(g.nodes[2].1.fqn, strings(&["proj", "b"]));
    assert_eq!(g.nodes[2].1.resource_type, "model");
}

#[test]
fn dangling_ids_are_kept() {
    let nodes = vec![(String::from("model.a"), raw("a", "model"))];
    let g = Manifest::build(nodes, &edges(&[]), &edges(&[("model.a", &["model.gone", "exposure.x"])]));
    assert_eq!(g.nodes[0].1.child_map.len(), 2);
    assert!(g.nodes[0].1.child_map.contains("model.gone"));
}

#[test]
fn build_of_nothing_is_empty() {
    let g = Manifest::build(vec![], &edges(&[("a", &["b"])]), &edges(&[]));
    assert!(g.nodes.is_empty());
}

#[test]
fn latest_entry_of_a_key_counts() {
    let e = edges(&[("a", &["x"]), ("b", &["y"]), ("a", &["z", "w"])]);
    assert_eq!(find_latest(&e, "a"), Some(2));
    assert_eq!(find_latest(&e, "b"), Some(1));
    assert_eq!(find_latest(&e, "c"), None);
    assert_eq!(neighbours(&e, "a").to_vec(), strings(&["z", "w"]));
    assert_eq!(neighbours(&e, "c").len(), 0);
}
