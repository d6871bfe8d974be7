//! The family graph itself: a `petgraph` directed graph of [`Person`] nodes
//! and [`Relationship`] edges, held behind a small trusted layer.
//!
//! Two names stand for what the graph holds: [`graph_nodes`], the node
//! weights in index order, and [`graph_edges`], the edges in index order,
//! each as source index, target index and tag.  The builder only ever adds
//! nodes and edges — nothing is removed — so indices are stable and both
//! sequences grow by one element per insertion.

use vstd::prelude::*;
use crate::person::Person;
use crate::relation::Relationship;

verus! {

#[verifier::external_type_specification]
#[verifier::external_body]
#[verifier::reject_recursive_types(N)]
#[verifier::reject_recursive_types(E)]
#[verifier::reject_recursive_types(Ty)]
#[verifier::reject_recursive_types(Ix)]
pub struct ExGraph<N, E, Ty, Ix>(petgraph::graph::Graph<N, E, Ty, Ix>);

#[verifier::external_type_specification]
#[verifier::external_body]
pub struct ExDirected(petgraph::Directed);

/// The graph type of this crate: directed, `Person` weights on the nodes,
/// `Relationship` tags on the edges.
pub type FamilyGraph = petgraph::graph::Graph<Person, Relationship, petgraph::Directed, u32>;

/// The node weights of `g`, in node-index order (insertion order).
pub uninterp spec fn graph_nodes(g: FamilyGraph) -> Seq<Person>;

/// The edges of `g`, in edge-index order (insertion order): source node
/// index, target node index, and tag.
pub uninterp spec fn graph_edges(g: FamilyGraph) -> Seq<(int, int, Relationship)>;

/// The source of the most recently added edge into node `n`, if any.
pub open spec fn last_incoming(edges: Seq<(int, int, Relationship)>, n: int) -> Option<int>
    decreases edges.len(),
{
    if edges.len() == 0 {
        None
    } else if edges.last().1 == n {
        Some(edges.last().0)
    } else {
        last_incoming(edges.drop_last(), n)
    }
}

/// Relies on `Graph::new`: the new graph has no nodes and no edges.
#[verifier::external_body]
pub(crate) fn graph_new() -> (g: FamilyGraph)
    ensures
        graph_nodes(g) == Seq::<Person>::empty(),
        graph_edges(g) == Seq::<(int, int, Relationship)>::empty(),
{
    petgraph::graph::Graph::new()
}

/// Relies on `Graph::add_node`: the weight is appended to the node list and
/// its index — the previous node count — is returned.  The node-index bound
/// keeps the call from its one panic, reaching the index type's maximum.
#[verifier::external_body]
pub(crate) fn graph_add_node(g: &mut FamilyGraph, p: Person) -> (i: usize)
    requires
        graph_nodes(*old(g)).len() < u32::MAX as usize,
    ensures
        graph_nodes(*final(g)) == graph_nodes(*old(g)).push(p),
        graph_edges(*final(g)) == graph_edges(*old(g)),
        i == graph_nodes(*old(g)).len(),
{
    g.add_node(p).index()
}

/// Relies on `Graph::add_edge`: the edge is appended to the edge list.  The
/// bounds keep the call from its two panics: an endpoint that does not exist,
/// and an edge count at the index type's maximum.
#[verifier::external_body]
pub(crate) fn graph_add_edge(g: &mut FamilyGraph, a: usize, b: usize, rel: Relationship)
    requires
        a < graph_nodes(*old(g)).len(),
        b < graph_nodes(*old(g)).len(),
        graph_edges(*old(g)).len() < u32::MAX as usize,
    ensures
        graph_nodes(*final(g)) == graph_nodes(*old(g)),
        graph_edges(*final(g)) == graph_edges(*old(g)).push((a as int, b as int, rel)),
{
    g.add_edge(
        petgraph::graph::NodeIndex::new(a),
        petgraph::graph::NodeIndex::new(b),
        rel,
    );
}

/// Relies on `Graph::neighbors_directed` with `Direction::Incoming`: on a
/// directed graph the iterator yields the sources of the edges into `n`,
/// most recently added first, and is empty when no edge ends at `n`.  The
/// uniqueness bound makes "most recent" the node's one incoming edge.  The
/// edge-count bound keeps the iterator's end sentinel — the index type's
/// maximum — out of the edge list.
#[verifier::external_body]
pub(crate) fn graph_first_incoming(g: &FamilyGraph, n: usize) -> (r: Option<usize>)
    requires
        n < graph_nodes(*g).len(),
        graph_nodes(*g).len() <= u32::MAX as usize,
        graph_edges(*g).len() < u32::MAX as usize,
        forall|e: int|
            0 <= e < graph_edges(*g).len() ==> 0 <= (#[trigger] graph_edges(*g)[e]).0
                < graph_nodes(*g).len() && 0 <= graph_edges(*g)[e].1 < graph_nodes(*g).len(),
        forall|e1: int, e2: int|
            0 <= e1 < graph_edges(*g).len() && 0 <= e2 < graph_edges(*g).len()
                && (#[trigger] graph_edges(*g)[e1]).1 == n && (#[trigger] graph_edges(*g)[e2]).1
                == n ==> e1 == e2,
    ensures
        match last_incoming(graph_edges(*g), n as int) {
            None => r is None,
            Some(p) => r == Some(p as usize),
        },
{
    g.neighbors_directed(petgraph::graph::NodeIndex::new(n), petgraph::Direction::Incoming)
        .next()
        .map(|ix| ix.index())
}

/// Relies on `Graph::node_count`: the length of the node list.
#[verifier::external_body]
pub(crate) fn graph_node_count(g: &FamilyGraph) -> (n: usize)
    ensures
        n == graph_nodes(*g).len(),
{
    g.node_count()
}

/// Relies on `Graph::edge_count`: the length of the edge list.
#[verifier::external_body]
pub(crate) fn graph_edge_count(g: &FamilyGraph) -> (n: usize)
    ensures
        n == graph_edges(*g).len(),
{
    g.edge_count()
}

/// Relies on `Graph::node_weight`: the weight stored at a valid node index.
#[verifier::external_body]
pub(crate) fn graph_node_at(g: &FamilyGraph, i: usize) -> (p: &Person)
    requires
        i < graph_nodes(*g).len(),
    ensures
        *p == graph_nodes(*g)[i as int],
{
    g.node_weight(petgraph::graph::NodeIndex::new(i)).unwrap()
}

/// Relies on `Graph::edge_endpoints`: the source and target stored at a
/// valid edge index.
#[verifier::external_body]
pub(crate) fn graph_edge_endpoints_at(g: &FamilyGraph, i: usize) -> (r: (usize, usize))
    requires
        i < graph_edges(*g).len(),
    ensures
        r.0 as int == graph_edges(*g)[i as int].0,
        r.1 as int == graph_edges(*g)[i as int].1,
{
    let (a, b) = g.edge_endpoints(petgraph::graph::EdgeIndex::new(i)).unwrap();
    (a.index(), b.index())
}

/// Relies on `Graph::edge_weight`: the tag stored at a valid edge index.
#[verifier::external_body]
pub(crate) fn graph_edge_rel_at(g: &FamilyGraph, i: usize) -> (r: Relationship)
    requires
        i < graph_edges(*g).len(),
    ensures
        r == graph_edges(*g)[i as int].2,
{
    *g.edge_weight(petgraph::graph::EdgeIndex::new(i)).unwrap()
}

} // verus!
