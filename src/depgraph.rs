//! The node-dependency graph, kept in petgraph's `GraphMap`.
//!
//! Its contents are described by two names: the set of nodes and the map
//! from each directed edge `(from, to)` to its weight.
use petgraph::graphmap::GraphMap;
use petgraph::Directed;
use std::hash::BuildHasher;
use vstd::prelude::*;

verus! {

#[verifier::external_type_specification]
#[verifier::external_body]
#[verifier::reject_recursive_types(N)]
#[verifier::reject_recursive_types(E)]
#[verifier::reject_recursive_types(Ty)]
#[verifier::reject_recursive_types(S)]
pub struct ExGraphMap<N, E, Ty, S: BuildHasher>(GraphMap<N, E, Ty, S>);

#[verifier::external_type_specification]
#[verifier::external_body]
pub struct ExDirected(Directed);

/// A directed graph over node ids whose edges carry a value id.
pub type DepGraph = GraphMap<usize, usize, Directed>;

/// The nodes of a dependency graph.
pub uninterp spec fn graph_nodes(g: DepGraph) -> Set<usize>;

/// The edges of a dependency graph, each with its weight.
pub uninterp spec fn graph_edges(g: DepGraph) -> Map<(usize, usize), usize>;

/// Relies on `GraphMap::new`: the graph starts with no nodes and no edges.
#[verifier::external_body]
pub(crate) fn graph_new() -> (r: DepGraph)
    ensures
        graph_nodes(r).is_empty(),
        graph_edges(r).dom().is_empty(),
{
    GraphMap::new()
}

/// Relies on `GraphMap::add_node`: adds `n` if absent, edges unchanged.
#[verifier::external_body]
pub(crate) fn graph_add_node(g: &mut DepGraph, n: usize)
    ensures
        graph_nodes(*final(g)) == graph_nodes(*old(g)).insert(n),
        graph_edges(*final(g)) == graph_edges(*old(g)),
{
    g.add_node(n);
}

/// Relies on `GraphMap::add_edge`: inserts both end nodes if absent, and
/// adds the edge or replaces the weight of the existing one, returning the
/// old weight.
#[verifier::external_body]
pub(crate) fn graph_add_edge(g: &mut DepGraph, a: usize, b: usize, w: usize) -> (r: Option<usize>)
    ensures
        graph_nodes(*final(g)) == graph_nodes(*old(g)).insert(a).insert(b),
        graph_edges(*final(g)) == graph_edges(*old(g)).insert((a, b), w),
        r == (if graph_edges(*old(g)).contains_key((a, b)) {
            Some(graph_edges(*old(g))[(a, b)])
        } else {
            None
        }),
{
    g.add_edge(a, b, w)
}

/// Relies on `GraphMap::edge_count`: the number of edges.
#[verifier::external_body]
pub(crate) fn graph_edge_count(g: &DepGraph) -> (r: usize)
    ensures
        r == graph_edges(*g).dom().len(),
{
    g.edge_count()
}

/// Relies on `GraphMap::node_count`: the number of nodes.
#[verifier::external_body]
pub(crate) fn graph_node_count(g: &DepGraph) -> (r: usize)
    ensures
        r == graph_nodes(*g).len(),
{
    g.node_count()
}

/// Relies on `GraphMap::edge_weight`: the weight of edge `a -> b`, if present.
#[verifier::external_body]
pub(crate) fn graph_edge_weight(g: &DepGraph, a: usize, b: usize) -> (r: Option<usize>)
    ensures
        r == (if graph_edges(*g).contains_key((a, b)) {
            Some(graph_edges(*g)[(a, b)])
        } else {
            None
        }),
{
    g.edge_weight(a, b).copied()
}

} // verus!
