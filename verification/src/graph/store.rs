//! The node and edge store of the entity graph: a `petgraph` graph, seen as
//! the sequence of its nodes and the sequence of its edges, both in the order
//! in which they were added.

use vstd::prelude::*;
use petgraph::graph::{Graph, NodeIndex};
use petgraph::visit::EdgeRef;
use petgraph::Directed;
use crate::entity::Entity;
use crate::graph::{Direction, Relationship};

verus! {

/// `petgraph::graph::Graph`, an opaque value to the verifier; what it holds is
/// told by `store_nodes` and `store_edges`.
#[verifier::external_type_specification]
#[verifier::external_body]
#[verifier::reject_recursive_types(N)]
#[verifier::reject_recursive_types(E)]
#[verifier::reject_recursive_types(Ty)]
#[verifier::reject_recursive_types(Ix)]
pub struct ExGraph<N, E, Ty, Ix>(Graph<N, E, Ty, Ix>);

/// `petgraph::Directed`, the marker of graphs with directed edges.
#[verifier::external_type_specification]
#[verifier::external_body]
pub struct ExDirected(Directed);

/// An edge: the positions of its two nodes and what it stands for.
pub struct Link {
    pub source: int,
    pub target: int,
    pub relationship: Relationship,
}

/// The nodes of a store, in the order in which they were added. A node's
/// position is its index in the store.
pub uninterp spec fn store_nodes(store: Graph<Entity, Relationship, Directed, usize>) -> Seq<Entity>;

/// The edges of a store, in the order in which they were added.
pub uninterp spec fn store_edges(store: Graph<Entity, Relationship, Directed, usize>) -> Seq<Link>;

/// The nodes at the other end of the edges that leave `node` (`Outgoing`) or
/// arrive at it (`Incoming`), the edge that was added last first.
pub open spec fn neighbors_of(edges: Seq<Link>, node: int, direction: Direction) -> Seq<int>
    decreases edges.len(),
{
    if edges.len() == 0 {
        Seq::empty()
    } else {
        let last = edges.last();
        let rest = neighbors_of(edges.drop_last(), node, direction);
        match direction {
            Direction::Outgoing => if last.source == node {
                seq![last.target] + rest
            } else {
                rest
            },
            Direction::Incoming => if last.target == node {
                seq![last.source] + rest
            } else {
                rest
            },
        }
    }
}

/// What the edges from `source` to `target` stand for, the edge that was
/// added last first.
pub open spec fn links_between(edges: Seq<Link>, source: int, target: int) -> Seq<Relationship>
    decreases edges.len(),
{
    if edges.len() == 0 {
        Seq::empty()
    } else {
        let last = edges.last();
        let rest = links_between(edges.drop_last(), source, target);
        if last.source == source && last.target == target {
            seq![last.relationship] + rest
        } else {
            rest
        }
    }
}

/// `petgraph::Graph::default`: a store without nodes or edges.
#[verifier::external_body]
pub(crate) fn store_new() -> (store: Graph<Entity, Relationship, Directed, usize>)
    ensures
        store_nodes(store) == Seq::<Entity>::empty(),
        store_edges(store) == Seq::<Link>::empty(),
{
    Graph::default()
}

/// `petgraph::Graph::node_count`.
#[verifier::external_body]
pub(crate) fn store_node_count(store: &Graph<Entity, Relationship, Directed, usize>) -> (count:
    usize)
    ensures
        count == store_nodes(*store).len(),
{
    store.node_count()
}

/// `petgraph::Graph::edge_count`.
#[verifier::external_body]
pub(crate) fn store_edge_count(store: &Graph<Entity, Relationship, Directed, usize>) -> (count:
    usize)
    ensures
        count == store_edges(*store).len(),
{
    store.edge_count()
}

/// `petgraph::Graph::add_node`: the node goes to the end of the nodes and its
/// position is handed back; the edges stay. With `usize` indices the store
/// has no limit of its own.
#[verifier::external_body]
pub(crate) fn store_add_node(
    store: &mut Graph<Entity, Relationship, Directed, usize>,
    entity: Entity,
) -> (index: usize)
    ensures
        store_nodes(*final(store)) == store_nodes(*old(store)).push(entity),
        store_edges(*final(store)) == store_edges(*old(store)),
        index == store_nodes(*old(store)).len(),
{
    store.add_node(entity).index()
}

/// `petgraph::Graph::add_edge`: the edge goes to the end of the edges; the
/// nodes stay. Both ends must be nodes of the store.
#[verifier::external_body]
pub(crate) fn store_add_edge(
    store: &mut Graph<Entity, Relationship, Directed, usize>,
    source: usize,
    target: usize,
    relationship: Relationship,
)
    requires
        source < store_nodes(*old(store)).len(),
        target < store_nodes(*old(store)).len(),
    ensures
        store_nodes(*final(store)) == store_nodes(*old(store)),
        store_edges(*final(store)) == store_edges(*old(store)).push(
            Link { source: source as int, target: target as int, relationship },
        ),
{
    store.add_edge(NodeIndex::new(source), NodeIndex::new(target), relationship);
}

/// `petgraph::Graph::clear_edges`: the edges go, the nodes stay.
#[verifier::external_body]
pub(crate) fn store_clear_edges(store: &mut Graph<Entity, Relationship, Directed, usize>)
    ensures
        store_nodes(*final(store)) == store_nodes(*old(store)),
        store_edges(*final(store)) == Seq::<Link>::empty(),
{
    store.clear_edges()
}

/// `petgraph::Graph::node_weight`: the node at a position, if there is one.
#[verifier::external_body]
pub(crate) fn store_node(store: &Graph<Entity, Relationship, Directed, usize>, index: usize) -> (node:
    Option<&Entity>)
    ensures
        node is Some <==> index < store_nodes(*store).len(),
        node is Some ==> *node->0 == store_nodes(*store)[index as int],
{
    store.node_weight(NodeIndex::new(index))
}

/// `petgraph::Graph::edges_directed` on a directed graph, each edge mapped to
/// the position of the node at its other end: the edges that leave `node` or
/// arrive at it, the one that was added last first.
#[verifier::external_body]
pub(crate) fn store_neighbors(
    store: &Graph<Entity, Relationship, Directed, usize>,
    node: usize,
    direction: Direction,
) -> (neighbors: Vec<usize>)
    ensures
        neighbors@.len() == neighbors_of(store_edges(*store), node as int, direction).len(),
        forall|i: int|
            0 <= i < neighbors@.len() ==> (#[trigger] neighbors@[i]) == neighbors_of(
                store_edges(*store),
                node as int,
                direction,
            )[i],
{
    let at = NodeIndex::new(node);
    match direction {
        Direction::Outgoing => store.edges_directed(at, petgraph::Direction::Outgoing).map(
            |edge| edge.target().index(),
        ).collect(),
        Direction::Incoming => store.edges_directed(at, petgraph::Direction::Incoming).map(
            |edge| edge.source().index(),
        ).collect(),
    }
}

/// `petgraph::Graph::edges_connecting` on a directed graph, each edge mapped
/// to what it stands for: the edges from `source` to `target`, the one that
/// was added last first.
#[verifier::external_body]
pub(crate) fn store_links<'a>(
    store: &'a Graph<Entity, Relationship, Directed, usize>,
    source: usize,
    target: usize,
) -> (links: Vec<&'a Relationship>)
    ensures
        links@.len() == links_between(store_edges(*store), source as int, target as int).len(),
        forall|i: int|
            0 <= i < links@.len() ==> *(#[trigger] links@[i]) == links_between(
                store_edges(*store),
                source as int,
                target as int,
            )[i],
{
    store.edges_connecting(NodeIndex::new(source), NodeIndex::new(target)).map(
        |edge| edge.weight(),
    ).collect()
}

/// `petgraph::Graph::raw_edges`, each edge mapped to the positions of its
/// ends and a copy of what it stands for: all edges, in the order in which
/// they were added.
#[verifier::external_body]
pub(crate) fn store_edge_list(store: &Graph<Entity, Relationship, Directed, usize>) -> (edges: Vec<
    (usize, usize, Relationship),
>)
    ensures
        edges@.len() == store_edges(*store).len(),
        forall|i: int|
            0 <= i < edges@.len() ==> (#[trigger] edges@[i]).0 == store_edges(*store)[i].source
                && edges@[i].1 == store_edges(*store)[i].target && edges@[i].2 == store_edges(
                *store,
            )[i].relationship,
{
    store.raw_edges().iter().map(
        |edge| (edge.source().index(), edge.target().index(), edge.weight.clone()),
    ).collect()
}

} // verus!
