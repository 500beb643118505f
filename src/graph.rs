//! The build graph: a dense, integer-indexed vector of nodes.
use crate::strmap::StrMap;
use vstd::prelude::*;

verus! {

/// The kind of a node, with the payload that later stages need.
#[derive(Debug, Clone, PartialEq, Eq)]
pub enum NodeKind {
    From,
    Workdir,
    Copy { src: String },
    Run,
    Env,
    Other,
}

/// One graph vertex.
#[derive(Debug)]
pub struct Node {
    /// Position of the node in the node list.
    pub id: usize,
    /// Display name of the node.
    pub name: String,
    pub kind: NodeKind,
    /// Canonical textual form of the instruction.
    pub content: String,
    /// Content address of the node, empty until keys are computed.
    pub hash: String,
    /// Whether the node needs materialization in this run.
    pub dirty: bool,
    /// Parent node ids.
    pub deps: Vec<usize>,
    /// Path whose tree digest is part of the key (Copy nodes).
    pub source_path: Option<String>,
    /// Environment overrides introduced by this node.
    pub env: StrMap,
    /// Set when the artifact was served from cache.
    pub cache_hit: bool,
}

#[derive(Debug)]
pub struct BuildGraph {
    pub nodes: Vec<Node>,
}

/// Every dependency of node `i` names an earlier node.
pub open spec fn deps_wf(nodes: Seq<Node>) -> bool {
    forall|i: int, j: int|
        0 <= i < nodes.len() && 0 <= j < nodes[i].deps@.len() ==> #[trigger] nodes[i].deps@[j]
            < i
}

/// `order` lists `0..n`, each once.
pub open spec fn is_permutation(order: Seq<usize>, n: int) -> bool {
    order.len() == n && (forall|i: int| 0 <= i < n ==> #[trigger] order[i] < n) && (forall|
        i: int,
        j: int,
    | 0 <= i < j < n ==> #[trigger] order[i] != #[trigger] order[j])
}

/// Every in-range dependency of a node comes before it in `order`.
pub open spec fn respects_deps(nodes: Seq<Node>, order: Seq<usize>) -> bool {
    forall|p: int, j: int|
        0 <= p < order.len() && 0 <= j < nodes[order[p] as int].deps@.len() && nodes[order[p] as int].deps@[j]
            < nodes.len() ==> exists|q: int|
            0 <= q < p && #[trigger] order[q] == #[trigger] nodes[order[p] as int].deps@[j]
}

impl BuildGraph {
    pub fn new() -> (r: BuildGraph)
        ensures
            r.nodes@.len() == 0,
    {
        BuildGraph { nodes: Vec::new() }
    }

    /// Nodes in an order where each node follows its dependencies. Because
    /// every dependency of a well-formed graph names an earlier node, the
    /// node list itself is such an order.
    pub fn topological_order(&self) -> (r: Vec<usize>)
        requires
            deps_wf(self.nodes@),
        ensures
            is_permutation(r@, self.nodes@.len() as int),
            forall|i: int| 0 <= i < r@.len() ==> #[trigger] r@[i] == i,
            respects_deps(self.nodes@, r@),
    {
        let mut r: Vec<usize> = Vec::new();
        let mut i: usize = 0;
        while i < self.nodes.len()
            invariant
                i <= self.nodes@.len(),
                r@.len() == i,
                forall|k: int| 0 <= k < i ==> #[trigger] r@[k] == k,
            decreases self.nodes@.len() - i,
        {
            r.push(i);
            i = i + 1;
        }
        proof {
            {
                assert forall|p: int, j: int|
                    0 <= p < r@.len() && 0 <= j < self.nodes@[r@[p] as int].deps@.len()
                        && self.nodes@[r@[p] as int].deps@[j] < self.nodes@.len() implies exists|
                    q: int,
                | 0 <= q < p && #[trigger] r@[q] == #[trigger] self.nodes@[r@[p] as int].deps@[j] by {
                    let d = self.nodes@[p].deps@[j];
                    assert(r@[d as int] == d);
                }
            }
        }
        r
    }
}

} // verus!
