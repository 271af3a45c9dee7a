//! The vertices of the dependency graph.

use vstd::prelude::*;
use std::collections::HashMap;
use crate::idset::{count_prefixed, IdSet};
use crate::text::names_of;

verus! {

/// What the project records about one column of a node.
#[derive(Clone, Debug)]
pub struct Column {
    pub name: String,
    pub description: String,
}

/// One vertex of the graph: a model or a source, with the dependencies it
/// declares and the identifiers of its direct neighbours.
///
/// `child_map` and `parent_map` are never authored: they are derived from the
/// project-wide edge lists when the graph is built.
#[derive(Clone, Debug)]
pub struct Node {
    pub name: String,
    pub resource_type: String,
    pub fqn: Vec<String>,
    pub refs: Vec<Vec<String>>,
    pub sources: Vec<Vec<String>>,
    pub columns: HashMap<String, Column>,
    pub child_map: IdSet,
    pub parent_map: IdSet,
}

impl Node {
    /// The node is a transformation.
    pub open spec fn is_model(&self) -> bool {
        self.resource_type@ == "model"@
    }

    /// The node is a raw source.
    pub open spec fn is_source(&self) -> bool {
        self.resource_type@ == "source"@
    }

    /// The node depends on at least one model.
    pub open spec fn has_refs(&self) -> bool {
        self.refs@.len() > 0
    }

    /// The node depends on at least one source.
    pub open spec fn has_sources(&self) -> bool {
        self.sources@.len() > 0
    }

    /// One of the segments of the node's path is `dir`.
    pub open spec fn in_directory(&self, dir: Seq<char>) -> bool {
        names_of(self.fqn@).contains(dir)
    }

    /// The node's name begins with `prefix`.
    pub open spec fn named_with(&self, prefix: Seq<char>) -> bool {
        prefix.is_prefix_of(self.name@)
    }

    /// How many children have an identifier that begins with `prefix`.
    pub open spec fn children_with(&self, prefix: Seq<char>) -> nat {
        count_prefixed(self.child_map@, prefix)
    }

    /// How many parents have an identifier that begins with `prefix`.
    pub open spec fn parents_with(&self, prefix: Seq<char>) -> nat {
        count_prefixed(self.parent_map@, prefix)
    }
}

} // verus!
