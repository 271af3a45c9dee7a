//! The closed catalog of rules and what each of them looks for in a node.

use vstd::prelude::*;
use crate::node::Node;
use crate::text::{contains_text, same_text, starts_with};

verus! {

/// A rule of the catalog. Each one is a predicate on a single node and has a
/// fixed description under which its findings are reported.
#[derive(Clone, Copy, Debug, PartialEq, Eq, Structural)]
pub enum NodeTest {
    DirectJoinSource,
    MartsOrIntermediateOnSource,
    HardCodedReferences,
    ModelFanOut,
    MultipleSourcesJoined,
    NoParents,
    StagingOnDownstream,
    SourceFanOut,
    StagingOnStaging,
    UnusedSources,
    NamingConventions,
    BadDirectory,
}

impl NodeTest {
    /// Whether `node` breaks this rule.
    ///
    /// Every rule but `SourceFanOut` and `UnusedSources` concerns models only;
    /// `SourceFanOut` concerns sources only; `UnusedSources` needs the whole
    /// graph and finds nothing in a single node.
    pub open spec fn violated_by(&self, node: &Node) -> bool {
        match self {
            NodeTest::DirectJoinSource => node.is_model() && node.has_sources() && node.has_refs(),
            NodeTest::MartsOrIntermediateOnSource => node.is_model() && node.has_sources() && (
            node.in_directory("marts"@) || node.in_directory("intermediate"@)),
            NodeTest::HardCodedReferences => node.is_model() && !node.has_refs()
                && !node.has_sources(),
            NodeTest::ModelFanOut => node.is_model() && node.child_map@.len() > 3,
            NodeTest::MultipleSourcesJoined => node.is_model() && node.sources@.len() > 1,
            NodeTest::NoParents => node.is_model() && !node.has_sources() && !node.has_refs(),
            NodeTest::StagingOnDownstream => node.is_model() && node.named_with("stg_"@)
                && node.has_refs(),
            NodeTest::SourceFanOut => node.is_source() && node.children_with("model"@) > 1,
            NodeTest::StagingOnStaging => node.is_model() && node.named_with("stg_"@)
                && node.parents_with("stg_"@) > 1,
            NodeTest::UnusedSources => false,
            NodeTest::NamingConventions => node.is_model() && ((node.in_directory(
                "intermediate"@,
            ) && node.named_with("int_"@)) || (node.in_directory("staging"@) && node.named_with(
                "stg_"@,
            ))),
            NodeTest::BadDirectory => node.is_model() && ((!node.in_directory("staging"@)
                && node.named_with("stg_"@)) || (!node.in_directory("intermediate"@)
                && node.named_with("int_"@))),
        }
    }

    /// The text under which the findings of this rule are reported.
    pub open spec fn description_text(&self) -> Seq<char> {
        match self {
            NodeTest::DirectJoinSource => "Found models with a reference to both a model and a source"@,
            NodeTest::MartsOrIntermediateOnSource => "Found marts or intermediates with a reference to a source"@,
            NodeTest::HardCodedReferences => "Found models with hardcoded references"@,
            NodeTest::ModelFanOut => "Found models with more than 3 leaf children"@,
            NodeTest::MultipleSourcesJoined => "Found models with references to more than one source"@,
            NodeTest::NoParents => "Found models with 0 direct parents"@,
            NodeTest::StagingOnDownstream => "Found staging models with references to downstream models"@,
            NodeTest::SourceFanOut => "Found sources with multiple children"@,
            NodeTest::StagingOnStaging => "Found staging models with references to other staging models"@,
            NodeTest::UnusedSources => "Found unused sources"@,
            NodeTest::NamingConventions => "Found models with bad naming conventions"@,
            NodeTest::BadDirectory => "Found models not in the appropriate directory"@,
        }
    }

    /// Decides whether `node` breaks this rule.
    pub fn is_invalid(&self, node: &Node) -> (r: bool)
        ensures
            r == self.violated_by(node),
    {
        let model: bool = same_text(node.resource_type.as_str(), "model");
        match self {
            NodeTest::DirectJoinSource => model && node.sources.len() > 0 && node.refs.len() > 0,
            NodeTest::MartsOrIntermediateOnSource => model && node.sources.len() > 0 && (
            contains_text(&node.fqn, "marts") || contains_text(&node.fqn, "intermediate")),
            NodeTest::HardCodedReferences => model && node.refs.len() == 0 && node.sources.len()
                == 0,
            NodeTest::ModelFanOut => model && node.child_map.len() > 3,
            NodeTest::MultipleSourcesJoined => model && node.sources.len() > 1,
            NodeTest::NoParents => model && node.sources.len() == 0 && node.refs.len() == 0,
            NodeTest::StagingOnDownstream => model && starts_with(node.name.as_str(), "stg_")
                && node.refs.len() > 0,
            NodeTest::SourceFanOut => same_text(node.resource_type.as_str(), "source")
                && node.child_map.count_with_prefix("model") > 1,
            NodeTest::StagingOnStaging => model && starts_with(node.name.as_str(), "stg_")
                && node.parent_map.count_with_prefix("stg_") > 1,
            NodeTest::UnusedSources => false,
            NodeTest::NamingConventions => model && ((contains_text(&node.fqn, "intermediate")
                && starts_with(node.name.as_str(), "int_")) || (contains_text(
                &node.fqn,
                "staging",
            ) && starts_with(node.name.as_str(), "stg_"))),
            NodeTest::BadDirectory => model && ((!contains_text(&node.fqn, "staging")
                && starts_with(node.name.as_str(), "stg_")) || (!contains_text(
                &node.fqn,
                "intermediate",
            ) && starts_with(node.name.as_str(), "int_"))),
        }
    }

    /// The text under which the findings of this rule are reported.
    pub fn description(&self) -> (text: String)
        ensures
            text@ == self.description_text(),
    {
        match self {
            NodeTest::DirectJoinSource => "Found models with a reference to both a model and a source".to_owned(),
            NodeTest::MartsOrIntermediateOnSource => "Found marts or intermediates with a reference to a source".to_owned(),
            NodeTest::HardCodedReferences => "Found models with hardcoded references".to_owned(),
            NodeTest::ModelFanOut => "Found models with more than 3 leaf children".to_owned(),
            NodeTest::MultipleSourcesJoined => "Found models with references to more than one source".to_owned(),
            NodeTest::NoParents => "Found models with 0 direct parents".to_owned(),
            NodeTest::StagingOnDownstream => "Found staging models with references to downstream models".to_owned(),
            NodeTest::SourceFanOut => "Found sources with multiple children".to_owned(),
            NodeTest::StagingOnStaging => "Found staging models with references to other staging models".to_owned(),
            NodeTest::UnusedSources => "Found unused sources".to_owned(),
            NodeTest::NamingConventions => "Found models with bad naming conventions".to_owned(),
            NodeTest::BadDirectory => "Found models not in the appropriate directory".to_owned(),
        }
    }

    /// The rules that run when the caller selects none, in their fixed order.
    /// `NamingConventions` and `BadDirectory` are left to the caller's choice.
    pub open spec fn default_selection() -> Seq<NodeTest> {
        seq![
            NodeTest::DirectJoinSource,
            NodeTest::HardCodedReferences,
            NodeTest::MartsOrIntermediateOnSource,
            NodeTest::ModelFanOut,
            NodeTest::SourceFanOut,
            NodeTest::MultipleSourcesJoined,
            NodeTest::NoParents,
            NodeTest::StagingOnStaging,
            NodeTest::StagingOnDownstream,
            NodeTest::UnusedSources,
        ]
    }

    /// The rules that run when the caller selects none.
    pub fn defaults() -> (rules: Vec<NodeTest>)
        ensures
            rules@ == NodeTest::default_selection(),
    {
        let mut rules: Vec<NodeTest> = Vec::new();
        rules.push(NodeTest::DirectJoinSource);
        rules.push(NodeTest::HardCodedReferences);
        rules.push(NodeTest::MartsOrIntermediateOnSource);
        rules.push(NodeTest::ModelFanOut);
        rules.push(NodeTest::SourceFanOut);
        rules.push(NodeTest::MultipleSourcesJoined);
        rules.push(NodeTest::NoParents);
        rules.push(NodeTest::StagingOnStaging);
        rules.push(NodeTest::StagingOnDownstream);
        rules.push(NodeTest::UnusedSources);
        assert(rules@ =~= NodeTest::default_selection());
        rules
    }
}

/// `UnusedSources` finds nothing in any node.
pub proof fn lemma_unused_sources_never_flags(node: &Node)
    ensures
        !NodeTest::UnusedSources.violated_by(node),
{
}

/// `HardCodedReferences` and `NoParents` agree on every node, and both flag
/// every model that declares neither a model nor a source as a dependency.
pub proof fn lemma_no_dependencies_flagged_twice(node: &Node)
    ensures
        NodeTest::HardCodedReferences.violated_by(node) == NodeTest::NoParents.violated_by(node),
        node.is_model() && node.refs@.len() == 0 && node.sources@.len() == 0 ==> {
            &&& NodeTest::HardCodedReferences.violated_by(node)
            &&& NodeTest::NoParents.violated_by(node)
        },
{
}

/// A rule's verdict is a function of the node's name, resource type, path,
/// number of model and source dependencies and neighbour sets: two nodes that
/// agree on these get the same verdict from every rule, whatever else they
/// hold, and so does one node asked twice.
pub proof fn lemma_verdict_is_a_function_of_the_fields(rule: NodeTest, a: &Node, b: &Node)
    requires
        a.name@ == b.name@,
        a.resource_type@ == b.resource_type@,
        crate::text::names_of(a.fqn@) == crate::text::names_of(b.fqn@),
        a.refs@.len() == b.refs@.len(),
        a.sources@.len() == b.sources@.len(),
        a.child_map@ == b.child_map@,
        a.parent_map@ == b.parent_map@,
    ensures
        rule.violated_by(a) == rule.violated_by(b),
{
}

/// Only models and sources are ever flagged.
pub proof fn lemma_other_resource_types_pass(rule: NodeTest, node: &Node)
    requires
        !node.is_model(),
        !node.is_source(),
    ensures
        !rule.violated_by(node),
{
}

} // verus!
