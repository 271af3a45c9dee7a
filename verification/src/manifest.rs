//! Building the graph: every node gets its own parent and child sets from
//! the project-wide edge lists.

use vstd::prelude::*;
use crate::entries::{entry_for, find_latest, has_key, lemma_absent_key, list_for};
use crate::idset::IdSet;
use crate::node::Node;
use crate::text::names_of;

verus! {

/// The graph: the nodes of a project by identifier, each with its resolved
/// neighbours. The edge lists it was built from are not kept.
#[derive(Clone, Debug)]
pub struct Manifest {
    pub nodes: Vec<(String, Node)>,
}

/// `node` is `raw` with its neighbour sets replaced by what the edge lists
/// enter under `key`: the identifiers listed there, each once, and nothing
/// where the key is absent.
pub open spec fn resolved(
    raw: &Node,
    key: Seq<char>,
    parents: Seq<(String, Vec<String>)>,
    children: Seq<(String, Vec<String>)>,
    node: &Node,
) -> bool {
    &&& node.name == raw.name
    &&& node.resource_type == raw.resource_type
    &&& node.fqn == raw.fqn
    &&& node.refs == raw.refs
    &&& node.sources == raw.sources
    &&& node.columns == raw.columns
    &&& node.parent_map@ == list_for(parents, key).to_set()
    &&& node.child_map@ == list_for(children, key).to_set()
}

/// The set of the identifiers that `edges` lists under `key`.
pub fn neighbours(edges: &Vec<(String, Vec<String>)>, key: &str) -> (ids: IdSet)
    ensures
        ids@ == list_for(edges@, key@).to_set(),
{
    match find_latest(edges, key) {
        Some(i) => IdSet::from_list(&edges[i].1),
        None => {
            let ids = IdSet::new();
            assert(Seq::<Seq<char>>::empty().to_set() =~= Set::<Seq<char>>::empty());
            ids
        },
    }
}

impl Manifest {
    /// The identifiers of the nodes, in the order of the nodes.
    pub open spec fn ids(&self) -> Seq<Seq<char>> {
        self.nodes@.map_values(|e: (String, Node)| e.0@)
    }

    /// Builds the graph from the raw nodes and the two edge lists. The nodes
    /// stay in the order given and keep their identifiers; whatever neighbour
    /// sets they came with are dropped and resolved anew. Identifiers in an
    /// edge list are taken as they are, whether or not a node carries them.
    pub fn build(
        nodes: Vec<(String, Node)>,
        parent_map: &Vec<(String, Vec<String>)>,
        child_map: &Vec<(String, Vec<String>)>,
    ) -> (graph: Manifest)
        ensures
            graph.nodes@.len() == nodes@.len(),
            graph.ids() == nodes@.map_values(|e: (String, Node)| e.0@),
            forall|i: int|
                0 <= i < nodes@.len() ==> (#[trigger] graph.nodes@[i]).0 == nodes@[i].0
                    && resolved(
                    &nodes@[i].1,
                    nodes@[i].0@,
                    parent_map@,
                    child_map@,
                    &graph.nodes@[i].1,
                ),
    {
        let ghost raw = nodes@;
        let mut rest: Vec<(String, Node)> = nodes;
        let mut reversed: Vec<(String, Node)> = Vec::new();
        while rest.len() > 0
            invariant
                rest@.len() + reversed@.len() == raw.len(),
                rest@ == raw.take(rest@.len() as int),
                forall|k: int|
                    0 <= k < reversed@.len() ==> (#[trigger] reversed@[k]).0 == raw[raw.len() - 1
                        - k].0 && resolved(
                        &raw[raw.len() - 1 - k].1,
                        raw[raw.len() - 1 - k].0@,
                        parent_map@,
                        child_map@,
                        &reversed@[k].1,
                    ),
            decreases rest@.len(),
        {
            let ghost at = rest@.len() - 1;
            let entry = rest.pop();
            if let Some((key, mut node)) = entry {
                assert(rest@ =~= raw.take(at));
                node.parent_map = neighbours(parent_map, key.as_str());
                node.child_map = neighbours(child_map, key.as_str());
                reversed.push((key, node));
            }
        }
        let ghost turned = reversed@;
        let mut ordered: Vec<(String, Node)> = Vec::new();
        while reversed.len() > 0
            invariant
                turned.len() == raw.len(),
                reversed@.len() + ordered@.len() == turned.len(),
                reversed@ == turned.take(reversed@.len() as int),
                forall|k: int|
                    0 <= k < ordered@.len() ==> (#[trigger] ordered@[k]) == turned[turned.len() - 1
                        - k],
            decreases reversed@.len(),
        {
            let ghost at = reversed@.len() - 1;
            let entry = reversed.pop();
            if let Some(e) = entry {
                assert(reversed@ =~= turned.take(at));
                ordered.push(e);
            }
        }
        let graph = Manifest { nodes: ordered };
        assert(graph.ids() =~= raw.map_values(|e: (String, Node)| e.0@));
        graph
    }
}

/// A node whose identifier is in neither edge list has no parents and no
/// children.
pub proof fn lemma_unlisted_node_has_no_neighbours(
    raw: &Node,
    key: Seq<char>,
    parents: Seq<(String, Vec<String>)>,
    children: Seq<(String, Vec<String>)>,
    node: &Node,
)
    requires
        resolved(raw, key, parents, children, node),
        !has_key(parents, key),
        !has_key(children, key),
    ensures
        node.parent_map@ == Set::<Seq<char>>::empty(),
        node.child_map@ == Set::<Seq<char>>::empty(),
{
    lemma_absent_key(parents, key);
    lemma_absent_key(children, key);
    assert(Seq::<Seq<char>>::empty().to_set() =~= Set::<Seq<char>>::empty());
}

/// A resolved node has as many parents and children as its edge lists name
/// different identifiers: never more than the lists are long, and exactly as
/// many where a list names nothing twice.
pub proof fn lemma_neighbour_counts_follow_the_lists(
    raw: &Node,
    key: Seq<char>,
    parents: Seq<(String, Vec<String>)>,
    children: Seq<(String, Vec<String>)>,
    node: &Node,
)
    requires
        resolved(raw, key, parents, children, node),
    ensures
        node.parent_map@.finite(),
        node.child_map@.finite(),
        node.parent_map@.len() == list_for(parents, key).to_set().len(),
        node.child_map@.len() == list_for(children, key).to_set().len(),
        node.parent_map@.len() <= list_for(parents, key).len(),
        node.child_map@.len() <= list_for(children, key).len(),
        list_for(parents, key).no_duplicates() ==> node.parent_map@.len() == list_for(
            parents,
            key,
        ).len(),
        list_for(children, key).no_duplicates() ==> node.child_map@.len() == list_for(
            children,
            key,
        ).len(),
{
    let p = list_for(parents, key);
    let c = list_for(children, key);
    vstd::seq_lib::seq_to_set_is_finite(p);
    vstd::seq_lib::seq_to_set_is_finite(c);
    p.lemma_cardinality_of_set();
    c.lemma_cardinality_of_set();
    if p.no_duplicates() {
        p.unique_seq_to_set();
    }
    if c.no_duplicates() {
        c.unique_seq_to_set();
    }
}

} // verus!
