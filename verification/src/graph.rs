//! Directed graphs: walks, cycles and orders, and the graph collection
//! that sorts topologically.

use vstd::prelude::*;
use petgraph::graph::Graph;
use petgraph::Directed;

verus! {

/// A walk along a relation: at least two nodes, each related to the next.
pub open spec fn is_walk<T>(edge: spec_fn(T, T) -> bool, walk: Seq<T>) -> bool {
    &&& walk.len() >= 2
    &&& forall|i: int| 0 <= i < walk.len() - 1 ==> edge(#[trigger] walk[i], walk[i + 1])
}

/// A relation has a cycle when some walk along it ends where it began. A
/// node related to itself is a cycle.
pub open spec fn has_cycle<T>(edge: spec_fn(T, T) -> bool) -> bool {
    exists|walk: Seq<T>| #[trigger] is_walk(edge, walk) && walk.first() == walk.last()
}

/// A node lies on a cycle when some walk leads from it back to it.
pub open spec fn on_cycle<T>(edge: spec_fn(T, T) -> bool, node: T) -> bool {
    exists|walk: Seq<T>| #[trigger] is_walk(edge, walk) && walk.first() == node && walk.last() == node
}

/// An order respects a relation when, of two related nodes, the first
/// stands before the second.
pub open spec fn respects<T>(edge: spec_fn(T, T) -> bool, order: Seq<T>) -> bool {
    forall|i: int, j: int|
        0 <= i < order.len() && 0 <= j < order.len() && edge(#[trigger] order[i], #[trigger] order[j])
            ==> i < j
}

/// The relation that a list of edges stands for.
pub open spec fn edge_relation(edges: Seq<(int, int)>) -> spec_fn(int, int) -> bool {
    |a: int, b: int| edges.contains((a, b))
}

/// No walk along an order-respecting relation returns to where it began,
/// if the order holds every node.
pub proof fn lemma_ordered_relation_has_no_cycle<T>(edge: spec_fn(T, T) -> bool, order: Seq<T>)
    requires
        respects(edge, order),
        forall|a: T, b: T| #[trigger] edge(a, b) ==> order.contains(a) && order.contains(b),
    ensures
        !has_cycle(edge),
{
    if has_cycle(edge) {
        let walk = choose|walk: Seq<T>| #[trigger] is_walk(edge, walk) && walk.first() == walk.last();
        lemma_walk_moves_forward(edge, order, walk, walk.len() - 1);
        let i = order.index_of(walk[0]);
        let j = order.index_of(walk[walk.len() - 1]);
        assert(edge(walk[0], walk[1]));
        assert(order.contains(walk[0]));
    }
}

/// Along a walk, the position in a respected order grows with each step.
proof fn lemma_walk_moves_forward<T>(
    edge: spec_fn(T, T) -> bool,
    order: Seq<T>,
    walk: Seq<T>,
    k: int,
)
    requires
        respects(edge, order),
        forall|a: T, b: T| #[trigger] edge(a, b) ==> order.contains(a) && order.contains(b),
        is_walk(edge, walk),
        1 <= k < walk.len(),
    ensures
        forall|i: int, j: int|
            0 <= i < order.len() && 0 <= j < order.len() && order[i] == walk[0] && order[j]
                == walk[k] ==> i < j,
    decreases k,
{
    assert(edge(walk[k - 1], walk[k]));
    if k == 1 {
    } else {
        lemma_walk_moves_forward(edge, order, walk, k - 1);
        assert forall|i: int, j: int|
            0 <= i < order.len() && 0 <= j < order.len() && order[i] == walk[0] && order[j]
                == walk[k] implies i < j by {
            let m = order.index_of(walk[k - 1]);
            assert(order.contains(walk[k - 1]));
            assert(order[m] == walk[k - 1]);
            assert(edge(order[m], order[j]));
        }
    }
}

#[verifier::external_type_specification]
#[verifier::external_body]
pub struct ExDirected(Directed);

#[verifier::external_type_specification]
#[verifier::external_body]
#[verifier::reject_recursive_types(N)]
#[verifier::reject_recursive_types(E)]
#[verifier::reject_recursive_types(Ty)]
#[verifier::reject_recursive_types(Ix)]
pub struct ExGraph<N, E, Ty, Ix>(Graph<N, E, Ty, Ix>);

/// The edges of a graph, each as the indices of its source and its
/// target, in the order in which they were added.
pub uninterp spec fn graph_edges(graph: Graph<(), (), Directed, usize>) -> Seq<(int, int)>;

/// The number of nodes of a graph. Its nodes are the indices below it.
pub uninterp spec fn graph_node_count(graph: Graph<(), (), Directed, usize>) -> nat;

/// Calls `Graph::with_capacity`: a graph without nodes and edges.
#[verifier::external_body]
pub(crate) fn graph_new() -> (graph: Graph<(), (), Directed, usize>)
    ensures
        graph_node_count(graph) == 0,
        graph_edges(graph) == Seq::<(int, int)>::empty(),
{
    Graph::with_capacity(0, 0)
}

/// Calls `Graph::add_node`: the new node gets the next index, the edges
/// stay. With `usize` indices the graph has no maximum to panic at.
#[verifier::external_body]
pub(crate) fn graph_add_node(graph: &mut Graph<(), (), Directed, usize>) -> (index: usize)
    ensures
        index == graph_node_count(*old(graph)),
        graph_node_count(*final(graph)) == graph_node_count(*old(graph)) + 1,
        graph_edges(*final(graph)) == graph_edges(*old(graph)),
{
    graph.add_node(()).index()
}

/// Calls `Graph::add_edge`, which panics unless both nodes exist: one
/// more edge, also where the same edge is there already.
#[verifier::external_body]
pub(crate) fn graph_add_edge(graph: &mut Graph<(), (), Directed, usize>, source: usize, target: usize)
    requires
        source < graph_node_count(*old(graph)),
        target < graph_node_count(*old(graph)),
    ensures
        graph_node_count(*final(graph)) == graph_node_count(*old(graph)),
        graph_edges(*final(graph)) == graph_edges(*old(graph)).push((source as int, target as int)),
{
    graph.add_edge(petgraph::graph::NodeIndex::new(source), petgraph::graph::NodeIndex::new(target), ());
}

/// What the topological sort returns for a graph with this many nodes
/// and these edges, added in this order: the nodes in their order, or a
/// node of the error.
pub uninterp spec fn topological_order(node_count: nat, edges: Seq<(int, int)>) -> Result<
    Seq<usize>,
    usize,
>;

/// Calls `petgraph::algo::toposort`. For a graph without a cycle it
/// returns every node once, each before its successors; for a graph with
/// a cycle (a self loop is one) it returns an error with a node that
/// lies on a cycle. Which of the possible orders or nodes it returns
/// depends on the nodes and the edges alone, in the order in which they
/// were added; the contract gives that result its name.
#[verifier::external_body]
pub(crate) fn graph_toposort(graph: &Graph<(), (), Directed, usize>) -> (order: Result<
    Vec<usize>,
    usize,
>)
    ensures
        match order {
            Ok(nodes) => topological_order(graph_node_count(*graph), graph_edges(*graph)) == Ok::<
                Seq<usize>,
                usize,
            >(nodes@),
            Err(node) => topological_order(graph_node_count(*graph), graph_edges(*graph)) == Err::<
                Seq<usize>,
                usize,
            >(node),
        },
        order is Ok <==> !has_cycle(edge_relation(graph_edges(*graph))),
        order matches Ok(nodes) ==> {
            &&& nodes@.len() == graph_node_count(*graph)
            &&& nodes@.no_duplicates()
            &&& forall|i: int| 0 <= i < nodes@.len() ==> nodes@[i] < graph_node_count(*graph)
            &&& forall|i: int, j: int|
                0 <= i < nodes@.len() && 0 <= j < nodes@.len() && graph_edges(*graph).contains(
                    (#[trigger] nodes@[i] as int, #[trigger] nodes@[j] as int),
                ) ==> i < j
        },
        order matches Err(node) ==> node < graph_node_count(*graph) && on_cycle(
            edge_relation(graph_edges(*graph)),
            node as int,
        ),
{
    match petgraph::algo::toposort(graph, None) {
        Ok(nodes) => Ok(nodes.into_iter().map(|node| node.index()).collect()),
        Err(cycle) => Err(cycle.node_id().index()),
    }
}

} // verus!
