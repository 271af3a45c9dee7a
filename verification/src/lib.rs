//! Structural checks over the dependency graph of a data-transformation
//! project: every node of the graph is held against a fixed catalog of rules,
//! and the nodes that break a rule are reported under the rule's description.
//!
//! [`Manifest::build`] folds the project-wide edge lists into the nodes,
//! [`NodeTest::is_invalid`] decides one rule for one node, and
//! [`ValidationContext::check`] runs a selection of rules over a graph.

pub mod text;
pub mod idset;
pub mod entries;
pub mod node;
pub mod rule;
pub mod manifest;
pub mod report;
pub mod context;

pub use context::ValidationContext;
pub use idset::IdSet;
pub use manifest::Manifest;
pub use node::{Column, Node};
pub use report::Report;
pub use rule::NodeTest;
