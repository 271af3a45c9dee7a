//! Running a selection of rules over every node of a graph.

use vstd::prelude::*;
use crate::manifest::Manifest;
use crate::node::Node;
use crate::report::Report;
use crate::rule::NodeTest;

verus! {

/// The rules selected for a run, in the caller's order. A rule selected
/// twice is applied twice.
#[derive(Clone, Debug)]
pub struct ValidationContext {
    pub node_tests: Vec<NodeTest>,
}

/// The name of `node`, once for each rule of `tests` that is reported under
/// `description` and that the node breaks.
pub open spec fn hits(node: &Node, tests: Seq<NodeTest>, description: Seq<char>) -> Seq<Seq<char>> {
    tests.filter(|t: NodeTest| t.description_text() == description && t.violated_by(node))
        .map_values(|t: NodeTest| node.name@)
}

/// What a run of `tests` over `nodes` reports under `description`: the hits
/// of the first node, then those of the second, and so on.
pub open spec fn findings(
    nodes: Seq<(String, Node)>,
    tests: Seq<NodeTest>,
    description: Seq<char>,
) -> Seq<Seq<char>>
    decreases nodes.len(),
{
    if nodes.len() == 0 {
        Seq::empty()
    } else {
        findings(nodes.drop_last(), tests, description) + hits(&nodes.last().1, tests, description)
    }
}

/// The descriptions of the rules of `tests` that `node` breaks, in the order
/// of `tests`.
pub open spec fn trail_of(node: &Node, tests: Seq<NodeTest>) -> Seq<Seq<char>> {
    tests.filter(|t: NodeTest| t.violated_by(node)).map_values(
        |t: NodeTest| t.description_text(),
    )
}

/// The description of every finding of a run of `tests` over `nodes`, in the
/// order in which the findings are made: node by node, and rule by rule
/// within a node.
pub open spec fn trail(nodes: Seq<(String, Node)>, tests: Seq<NodeTest>) -> Seq<Seq<char>>
    decreases nodes.len(),
{
    if nodes.len() == 0 {
        Seq::empty()
    } else {
        trail(nodes.drop_last(), tests) + trail_of(&nodes.last().1, tests)
    }
}

/// The different entries of `trail`, each at the place of its first mention.
pub open spec fn first_mentions(trail: Seq<Seq<char>>) -> Seq<Seq<char>>
    decreases trail.len(),
{
    if trail.len() == 0 {
        Seq::empty()
    } else {
        let earlier = first_mentions(trail.drop_last());
        if earlier.contains(trail.last()) {
            earlier
        } else {
            earlier.push(trail.last())
        }
    }
}

/// The report of a run of `tests` over `nodes`: each description with at
/// least one finding, with its findings.
pub open spec fn outcome(nodes: Seq<(String, Node)>, tests: Seq<NodeTest>) -> Map<
    Seq<char>,
    Seq<Seq<char>>,
> {
    Map::new(
        |d: Seq<char>| findings(nodes, tests, d).len() > 0,
        |d: Seq<char>| findings(nodes, tests, d),
    )
}

/// Taking one more rule into account adds the node's name to the hits under
/// that rule's description if the node breaks the rule, and changes nothing
/// otherwise.
pub proof fn lemma_hits_push(
    node: &Node,
    tests: Seq<NodeTest>,
    test: NodeTest,
    description: Seq<char>,
)
    ensures
        hits(node, tests.push(test), description) == (if test.description_text() == description
            && test.violated_by(node) {
            hits(node, tests, description).push(node.name@)
        } else {
            hits(node, tests, description)
        }),
{
    let p = |t: NodeTest| t.description_text() == description && t.violated_by(node);
    let f = |t: NodeTest| node.name@;
    tests.lemma_filter_push(test, p);
    if p(test) {
        assert(tests.filter(p).push(test).map_values(f) =~= tests.filter(p).map_values(f).push(
            node.name@,
        ));
    }
}

/// Taking one more rule into account adds its description to the node's
/// trail if the node breaks the rule, and changes nothing otherwise.
pub proof fn lemma_trail_push(node: &Node, tests: Seq<NodeTest>, test: NodeTest)
    ensures
        trail_of(node, tests.push(test)) == (if test.violated_by(node) {
            trail_of(node, tests).push(test.description_text())
        } else {
            trail_of(node, tests)
        }),
{
    let p = |t: NodeTest| t.violated_by(node);
    let f = |t: NodeTest| t.description_text();
    tests.lemma_filter_push(test, p);
    if p(test) {
        assert(tests.filter(p).push(test).map_values(f) =~= tests.filter(p).map_values(f).push(
            test.description_text(),
        ));
    }
}

impl ValidationContext {
    /// The context that runs the default selection of rules.
    pub fn new() -> (context: ValidationContext)
        ensures
            context.node_tests@ == NodeTest::default_selection(),
    {
        ValidationContext { node_tests: NodeTest::defaults() }
    }

    /// Holds every node of `manifest`, in order, against every selected rule,
    /// in order, and reports the name of the node under the rule's description
    /// for each rule that the node breaks.
    pub fn check(&self, manifest: &Manifest) -> (report: Report)
        ensures
            report.wf(),
            report@ == outcome(manifest.nodes@, self.node_tests@),
            forall|d: Seq<char>| #[trigger]
                report.names(d) == findings(manifest.nodes@, self.node_tests@, d),
            report.keys() == first_mentions(trail(manifest.nodes@, self.node_tests@)),
    {
        let ghost nodes = manifest.nodes@;
        let ghost tests = self.node_tests@;
        let mut report = Report::new();
        let mut i: usize = 0;
        while i < manifest.nodes.len()
            invariant
                i <= manifest.nodes@.len(),
                nodes == manifest.nodes@,
                tests == self.node_tests@,
                report.wf(),
                forall|d: Seq<char>| #[trigger]
                    report.names(d) == findings(nodes.take(i as int), tests, d),
                report.keys() == first_mentions(trail(nodes.take(i as int), tests)),
            decreases manifest.nodes@.len() - i,
        {
            let node = &manifest.nodes[i].1;
            let ghost done = report;
            let mut j: usize = 0;
            proof {
                reveal(Seq::filter);
                assert forall|d: Seq<char>| #[trigger]
                    report.names(d) == findings(nodes.take(i as int), tests, d) + hits(
                        node,
                        tests.take(0),
                        d,
                    ) by {
                    assert(hits(node, tests.take(0), d) =~= Seq::<Seq<char>>::empty());
                    assert(done.names(d) + Seq::<Seq<char>>::empty() =~= done.names(d));
                }
                assert(trail_of(node, tests.take(0)) =~= Seq::<Seq<char>>::empty());
                assert(trail(nodes.take(i as int), tests) + trail_of(node, tests.take(0)) =~= trail(
                    nodes.take(i as int),
                    tests,
                ));
            }
            while j < self.node_tests.len()
                invariant
                    i < manifest.nodes@.len(),
                    j <= self.node_tests@.len(),
                    nodes == manifest.nodes@,
                    tests == self.node_tests@,
                    *node == nodes[i as int].1,
                    report.wf(),
                    forall|d: Seq<char>| #[trigger]
                        report.names(d) == findings(nodes.take(i as int), tests, d) + hits(
                            node,
                            tests.take(j as int),
                            d,
                        ),
                    report.keys() == first_mentions(
                        trail(nodes.take(i as int), tests) + trail_of(node, tests.take(j as int)),
                    ),
                decreases self.node_tests@.len() - j,
            {
                let test = self.node_tests[j];
                let ghost earlier = report;
                if test.is_invalid(node) {
                    report.record(test.description(), node.name.clone());
                }
                proof {
                    assert(tests.take(j + 1) =~= tests.take(j as int).push(test));
                    assert forall|d: Seq<char>| #[trigger]
                        report.names(d) == findings(nodes.take(i as int), tests, d) + hits(
                            node,
                            tests.take(j + 1),
                            d,
                        ) by {
                        lemma_hits_push(node, tests.take(j as int), test, d);
                        let base = findings(nodes.take(i as int), tests, d);
                        let sofar = hits(node, tests.take(j as int), d);
                        assert(earlier.names(d) == base + sofar);
                        assert((base + sofar).push(node.name@) =~= base + sofar.push(node.name@));
                    }
                    lemma_trail_push(node, tests.take(j as int), test);
                    if test.violated_by(node) {
                        let before = trail(nodes.take(i as int), tests) + trail_of(
                            node,
                            tests.take(j as int),
                        );
                        let after = trail(nodes.take(i as int), tests) + trail_of(
                            node,
                            tests.take(j + 1),
                        );
                        assert(after =~= before.push(test.description_text()));
                        assert(after.drop_last() =~= before);
                    }
                }
                j += 1;
            }
            proof {
                assert(tests.take(j as int) =~= tests);
                assert(nodes.take(i + 1).drop_last() =~= nodes.take(i as int));
                assert(nodes.take(i + 1).last() == nodes[i as int]);
            }
            i += 1;
        }
        proof {
            assert(nodes.take(i as int) =~= nodes);
            assert forall|d: Seq<char>|
                (report@.contains_key(d) <==> #[trigger] outcome(nodes, tests).contains_key(d))
                    && (report@.contains_key(d) ==> report@[d] == outcome(nodes, tests)[d]) by {
                report.lemma_bucket_iff_names(d);
                assert(report.names(d) == findings(nodes, tests, d));
            }
            assert(report@ =~= outcome(nodes, tests));
        }
        report
    }
}

} // verus!
