use evaldbt::{IdSet, Node, NodeTest};
use std::collections::HashMap;

fn strings(items: &[&str]) -> Vec<String> {
    items.iter().map(|s| s.to_string()).collect()
}

fn node(name: &str, resource_type: &str, fqn: &[&str], refs: usize, sources: usize) -> Node {
    Node {
        name: String::from(name),
        resource_type: String::from(resource_type),
        fqn: strings(fqn),
        refs: (0..refs).map(|_| vec![String::from("x")]).collect(),
        sources: (0..sources).map(|_| vec![String::from("y")]).collect(),
        columns: HashMap::new(),
        child_map: IdSet::new(),
        parent_map: IdSet::new(),
    }
}

const ALL: [NodeTest; 12] = [
    NodeTest::DirectJoinSource,
    NodeTest::MartsOrIntermediateOnSource,
    NodeTest::HardCodedReferences,
    NodeTest::ModelFanOut,
    NodeTest::MultipleSourcesJoined,
    NodeTest::NoParents,
    NodeTest::StagingOnDownstream,
    NodeTest::SourceFanOut,
    NodeTest::StagingOnStaging,
    NodeTest::UnusedSources,
    NodeTest::NamingConventions,
    NodeTest::BadDirectory,
];

#[test]
fn invalid_node_when_both_source_and_refs() {
    let node: Node = Node {
        name: String::from("testNode"),
        resource_type: String::from("model"),
        fqn: vec![String::from("marts")],
        refs: vec![vec![String::from("marts")]],
        sources: vec![vec![String::from("marts")]],
        columns: HashMap::new(),
        child_map: IdSet::new(),
        parent_map: IdSet::new(),
    };
    assert!(NodeTest::DirectJoinSource.is_invalid(&node));
}

#[test]
fn valid_node_when_only_on_sources() {
    let node: Node = Node {
        name: String::from("testNode"),
        resource_type: String::from("model"),
        fqn: vec![String::from("marts")],
        refs: vec![],
        sources: vec![vec![String::from("marts")]],
        columns: HashMap::new(),
        child_map: IdSet::new(),
        parent_map: IdSet::new(),
    };

    assert!(!NodeTest::DirectJoinSource.is_invalid(&node));
}

#[test]
fn invalid_node_when_marts_depends_on_source() {
    let node: Node = Node {
        name: String::from("testNode"),
        resource_type: String::from("model"),
        fqn: vec![String::from("marts")],
        refs: vec![],
        sources: vec![vec![String::from("marts")]],
        columns: HashMap::new(),
        child_map: IdSet::new(),
        parent_map: IdSet::new(),
    };
    assert!(NodeTest::MartsOrIntermediateOnSource.is_invalid(&node));
}

#[test]
fn model_without_dependencies_is_flagged_twice() {
    let n = node("orders", "model", &["marts"], 0, 0);
    assert!(NodeTest::HardCodedReferences.is_invalid(&n));
    assert!(NodeTest::NoParents.is_invalid(&n));
}

#[test]
fn hard_coded_and_no_parents_agree() {
    for refs in 0..3 {
        for sources in 0..3 {
            for kind in ["model", "source", "seed"] {
                let n = node("n", kind, &[], refs, sources);
                assert_eq!(
                    NodeTest::HardCodedReferences.is_invalid(&n),
                    NodeTest::NoParents.is_invalid(&n)
                );
            }
        }
    }
}

#[test]
fn marts_model_on_model_and_source() {
    let n = Node {
        name: String::from("orders"),
        resource_type: String::from("model"),
        fqn: vec![String::from("marts")],
        refs: vec![vec![String::from("x")]],
        sources: vec![vec![String::from("y")]],
        columns: HashMap::new(),
        child_map: IdSet::new(),
        parent_map: IdSet::new(),
    };
    assert!(NodeTest::DirectJoinSource.is_invalid(&n));
    assert!(NodeTest::MartsOrIntermediateOnSource.is_invalid(&n));
    assert!(!NodeTest::HardCodedReferences.is_invalid(&n));
}

#[test]
fn source_with_three_model_children_fans_out() {
    let mut n = node("raw_orders", "source", &["raw"], 0, 0);
    n.child_map = IdSet::from_list(&strings(&["model.a", "model.b", "model.c", "seed.d"]));
    assert_eq!(n.child_map.len(), 4);
    assert_eq!(n.child_map.count_with_prefix("model"), 3);
    assert!(NodeTest::SourceFanOut.is_invalid(&n));
}

#[test]
fn source_fan_out_needs_two_model_children() {
    let mut n = node("raw_orders", "source", &["raw"], 0, 0);
    n.child_map = IdSet::from_list(&strings(&["model.a", "seed.b", "seed.c"]));
    assert!(!NodeTest::SourceFanOut.is_invalid(&n));
    n.child_map = IdSet::from_list(&strings(&["model.a", "model.b"]));
    assert!(NodeTest::SourceFanOut.is_invalid(&n));
    n.resource_type = String::from("model");
    assert!(!NodeTest::SourceFanOut.is_invalid(&n));
}

#[test]
fn staging_with_one_staging_parent_passes() {
    let mut n = node("stg_orders", "model", &["staging"], 0, 1);
    n.parent_map = IdSet::from_list(&strings(&["stg_customers", "src_raw"]));
    assert!(!NodeTest::StagingOnStaging.is_invalid(&n));
}

#[test]
fn staging_with_two_staging_parents_is_flagged() {
    let mut n = node("stg_orders", "model", &["staging"], 0, 1);
    n.parent_map = IdSet::from_list(&strings(&["stg_customers", "stg_items", "src_raw"]));
    assert!(NodeTest::StagingOnStaging.is_invalid(&n));
    n.name = String::from("orders");
    assert!(!NodeTest::StagingOnStaging.is_invalid(&n));
}

#[test]
fn prefix_is_not_the_text_itself() {
    let mut n = node("stg", "model", &["staging"], 1, 0);
    assert!(!NodeTest::StagingOnDownstream.is_invalid(&n));
    n.name = String::from("stg_");
    assert!(NodeTest::StagingOnDownstream.is_invalid(&n));
    n.name = String::from("my_stg_orders");
    assert!(!NodeTest::StagingOnDownstream.is_invalid(&n));
}

#[test]
fn staging_on_downstream_needs_a_ref() {
    assert!(NodeTest::StagingOnDownstream.is_invalid(&node("stg_a", "model", &[], 1, 0)));
    assert!(!NodeTest::StagingOnDownstream.is_invalid(&node("stg_a", "model", &[], 0, 1)));
    assert!(!NodeTest::StagingOnDownstream.is_invalid(&node("stg_a", "source", &[], 1, 0)));
}

#[test]
fn unused_sources_never_flags() {
    for kind in ["model", "source", "seed", ""] {
        for refs in 0..2 {
            for sources in 0..3 {
                let mut n = node("stg_x", kind, &["marts", "staging"], refs, sources);
                assert!(!NodeTest::UnusedSources.is_invalid(&n));
                n.child_map = IdSet::new();
                assert!(!NodeTest::UnusedSources.is_invalid(&n));
            }
        }
    }
}

#[test]
fn other_resource_types_match_no_rule() {
    let mut n = node("stg_seed", "seed", &["marts"], 1, 2);
    n.child_map = IdSet::from_list(&strings(&["model.a", "model.b", "model.c", "model.d"]));
    n.parent_map = IdSet::from_list(&strings(&["stg_a", "stg_b"]));
    for rule in ALL {
        assert!(!rule.is_invalid(&n));
    }
}

#[test]
fn verdict_is_repeatable() {
    let mut n = node("stg_orders", "model", &["marts"], 1, 2);
    n.child_map = IdSet::from_list(&strings(&["model.a", "model.b", "model.c", "model.d"]));
    for rule in ALL {
        assert_eq!(rule.is_invalid(&n), rule.is_invalid(&n));
        assert_eq!(rule.is_invalid(&n), rule.is_invalid(&n.clone()));
    }
}

#[test]
fn model_fan_out_needs_more_than_three_children() {
    let mut n = node("orders", "model", &["marts"], 1, 0);
    n.child_map = IdSet::from_list(&strings(&["a", "b", "c"]));
    assert!(!NodeTest::ModelFanOut.is_invalid(&n));
    n.child_map = IdSet::from_list(&strings(&["a", "b", "c", "d"]));
    assert!(NodeTest::ModelFanOut.is_invalid(&n));
    n.child_map = IdSet::from_list(&strings(&["a", "b", "c", "a", "b"]));
    assert!(!NodeTest::ModelFanOut.is_invalid(&n));
}

#[test]
fn multiple_sources_joined_needs_two_sources() {
    assert!(!NodeTest::MultipleSourcesJoined.is_invalid(&node("a", "model", &[], 0, 1)));
    assert!(NodeTest::MultipleSourcesJoined.is_invalid(&node("a", "model", &[], 0, 2)));
    assert!(!NodeTest::MultipleSourcesJoined.is_invalid(&node("a", "source", &[], 0, 2)));
}

#[test]
fn intermediate_on_source_is_flagged() {
    assert!(NodeTest::MartsOrIntermediateOnSource
        .is_invalid(&node("a", "model", &["proj", "intermediate", "a"], 0, 1)));
    assert!(!NodeTest::MartsOrIntermediateOnSource
        .is_invalid(&node("a", "model", &["proj", "staging", "a"], 0, 1)));
    assert!(!NodeTest::MartsOrIntermediateOnSource
        .is_invalid(&node("a", "model", &["proj", "marts", "a"], 1, 0)));
    assert!(!NodeTest::MartsOrIntermediateOnSource
        .is_invalid(&node("a", "model", &["proj", "mart", "a"], 0, 1)));
}

#[test]
fn naming_conventions_rule() {
    assert!(NodeTest::NamingConventions.is_invalid(&node("int_a", "model", &["intermediate"], 0, 0)));
    assert!(NodeTest::NamingConventions.is_invalid(&node("stg_a", "model", &["staging"], 0, 0)));
    assert!(!NodeTest::NamingConventions.is_invalid(&node("stg_a", "model", &["intermediate"], 0, 0)));
    assert!(!NodeTest::NamingConventions.is_invalid(&node("int_a", "model", &["staging"], 0, 0)));
    assert!(!NodeTest::NamingConventions.is_invalid(&node("int_a", "source", &["intermediate"], 0, 0)));
}

#[test]
fn bad_directory_rule() {
    assert!(NodeTest::BadDirectory.is_invalid(&node("stg_a", "model", &["marts"], 0, 0)));
    assert!(NodeTest::BadDirectory.is_invalid(&node("int_a", "model", &["staging"], 0, 0)));
    assert!(!NodeTest::BadDirectory.is_invalid(&node("stg_a", "model", &["staging"], 0, 0)));
    assert!(!NodeTest::BadDirectory.is_invalid(&node("int_a", "model", &["intermediate"], 0, 0)));
    assert!(!NodeTest::BadDirectory.is_invalid(&node("orders", "model", &["marts"], 0, 0)));
    assert!(!NodeTest::BadDirectory.is_invalid(&node("stg_a", "source", &["marts"], 0, 0)));
}

#[test]
fn descriptions_are_fixed() {
    let expected = [
        "Found models with a reference to both a model and a source",
        "Found marts or intermediates with a reference to a source",
        "Found models with hardcoded references",
        "Found models with more than 3 leaf children",
        "Found models with references to more than one source",
        "Found models with 0 direct parents",
        "Found staging models with references to downstream models",
        "Found sources with multiple children",
        "Found staging models with references to other staging models",
        "Found unused sources",
        "Found models with bad naming conventions",
        "Found models not in the appropriate directory",
    ];
    for (rule, text) in ALL.iter().zip(expected.iter()) {
        assert_eq!(rule.description(), *text);
    }
}

#[test]
fn default_selection_leaves_out_the_naming_rules() {
    assert_eq!(
        NodeTest::defaults(),
        vec![
            NodeTest::DirectJoinSource,
            NodeTest::HardCodedReferences,
            NodeTest::MartsOrIntermediateOnSource,
            NodeTest::ModelFanOut,
            NodeTest::SourceFanOut,
            NodeTest::MultipleSourcesJoined,
            NodeTest::NoParents,
            NodeTest::StagingOnStaging,
            NodeTest::StagingOnDownstream,
            NodeTest::UnusedSources,
        ]
    );
}
