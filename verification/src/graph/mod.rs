//! The entity graph: entities as nodes, references between them as edges.
//!
//! Entities are added first, one at a time or in bulk; `build` then derives
//! the edges from the reference fields of all entities; after that the graph
//! is read.

use vstd::prelude::*;
use petgraph::graph::Graph;
use petgraph::Directed;
use crate::entity::Entity;
use crate::field::{FieldValue, ReferenceValue};
use crate::field_map::{distinct, lemma_position_in, lemma_position_in_is, position_in};
use crate::id::{EntityId, EntityType, FieldId};

pub mod graph_errors;
pub mod query;
pub mod store;

pub use graph_errors::GraphError;
use store::{
    links_between, neighbors_of, store_add_edge, store_add_node, store_clear_edges, store_edges,
    store_new, store_node, store_node_count, store_nodes, Link,
};

verus! {

/// The direction of an edge, seen from a node.
#[derive(Debug, Clone, Copy, PartialEq, Eq, Structural)]
pub enum Direction {
    /// From the node to another.
    Outgoing,
    /// From another node to the node.
    Incoming,
}

/// What an edge stands for: the reference in a field of the source entity.
#[derive(Debug, PartialEq)]
pub enum Relationship {
    /// The field `from_field` refers to the target entity.
    EntityReference { from_field: FieldId },
    /// The field `from_field` refers to the field `to_field` of the target.
    FieldReference { from_field: FieldId, to_field: FieldId },
}

impl Clone for Relationship {
    fn clone(&self) -> (r: Self)
        ensures
            r == *self,
    {
        match self {
            Relationship::EntityReference { from_field } => Relationship::EntityReference {
                from_field: from_field.clone(),
            },
            Relationship::FieldReference { from_field, to_field } => Relationship::FieldReference {
                from_field: from_field.clone(),
                to_field: to_field.clone(),
            },
        }
    }
}

/// The ids of a sequence of entities.
pub open spec fn node_ids(nodes: Seq<Entity>) -> Seq<Seq<char>> {
    Seq::new(nodes.len(), |i: int| nodes[i].id@)
}

/// The positions of the entities of a type, in ascending order.
pub open spec fn positions_of_type(nodes: Seq<Entity>, entity_type: Seq<char>) -> Seq<int>
    decreases nodes.len(),
{
    if nodes.len() == 0 {
        Seq::empty()
    } else {
        let before = positions_of_type(nodes.drop_last(), entity_type);
        if nodes.last().entity_type@ == entity_type {
            before.push(nodes.len() - 1)
        } else {
            before
        }
    }
}

/// The edges that the items `0..upto` of a list value give rise to, in the
/// order of the items.
pub open spec fn links_of_items(
    ids: Seq<Seq<char>>,
    source: int,
    from_field: FieldId,
    list: FieldValue,
    upto: nat,
) -> Seq<Link>
    decreases list, 0nat, upto,
{
    if list is List && 0 < upto <= list->List_0.len() {
        links_of_items(ids, source, from_field, list, (upto - 1) as nat) + links_of_value(
            ids,
            source,
            from_field,
            list->List_0[upto - 1],
        )
    } else {
        Seq::empty()
    }
}

/// The edges that a field value gives rise to: one for a reference whose
/// target is among `ids`, none for one whose target is not; for a list, those
/// of its items, lists within lists included.
pub open spec fn links_of_value(
    ids: Seq<Seq<char>>,
    source: int,
    from_field: FieldId,
    value: FieldValue,
) -> Seq<Link>
    decreases value, 1nat, 0nat,
{
    match value {
        FieldValue::Reference(ReferenceValue::Entity(target)) => {
            let at = position_in(ids, target@);
            if at < ids.len() {
                seq![
                    Link {
                        source,
                        target: at,
                        relationship: Relationship::EntityReference { from_field },
                    },
                ]
            } else {
                Seq::empty()
            }
        },
        FieldValue::Reference(ReferenceValue::Field(target, to_field)) => {
            let at = position_in(ids, target@);
            if at < ids.len() {
                seq![
                    Link {
                        source,
                        target: at,
                        relationship: Relationship::FieldReference { from_field, to_field },
                    },
                ]
            } else {
                Seq::empty()
            }
        },
        FieldValue::List(items) => links_of_items(ids, source, from_field, value, items.len() as nat),
        _ => Seq::empty(),
    }
}

/// The edges that the fields `0..upto` of the entity at position `source`
/// give rise to, in the order of the fields.
pub open spec fn links_of_fields(nodes: Seq<Entity>, source: int, upto: nat) -> Seq<Link>
    decreases upto,
{
    if 0 <= source < nodes.len() && 0 < upto <= nodes[source].fields.entries().len() {
        let entry = nodes[source].fields.entries()[upto - 1];
        links_of_fields(nodes, source, (upto - 1) as nat) + links_of_value(
            node_ids(nodes),
            source,
            entry.0,
            entry.1,
        )
    } else {
        Seq::empty()
    }
}

/// The edges that the entities at positions `0..upto` give rise to, in the
/// order of the entities.
pub open spec fn links_of_nodes(nodes: Seq<Entity>, upto: nat) -> Seq<Link>
    decreases upto,
{
    if 0 < upto <= nodes.len() {
        links_of_nodes(nodes, (upto - 1) as nat) + links_of_fields(
            nodes,
            upto - 1,
            nodes[upto - 1].fields.entries().len(),
        )
    } else {
        Seq::empty()
    }
}

/// The edges of a graph with the given nodes once it is built: for every
/// entity and every one of its fields, one edge for each reference in the
/// field's value whose target is a node.
pub open spec fn links_of(nodes: Seq<Entity>) -> Seq<Link> {
    links_of_nodes(nodes, nodes.len())
}

/// How many entities of a batch are added to a graph that holds `ids`: those
/// before the first whose id is in the graph or was added before it.
pub open spec fn accepted(ids: Seq<Seq<char>>, batch: Seq<Entity>) -> int
    decreases batch.len(),
{
    if batch.len() == 0 {
        0
    } else if position_in(ids, batch[0].id@) < ids.len() {
        0
    } else {
        1 + accepted(ids.push(batch[0].id@), batch.drop_first())
    }
}

/// Every edge ends at positions below `count`.
pub open spec fn links_within(links: Seq<Link>, count: int) -> bool {
    forall|k: int|
        0 <= k < links.len() ==> 0 <= (#[trigger] links[k]).source < count && 0 <= links[k].target
            < count
}

/// The edges that a list of gathered triples stands for.
pub open spec fn as_links(found: Seq<(usize, usize, Relationship)>) -> Seq<Link> {
    Seq::new(
        found.len(),
        |k: int|
            Link {
                source: found[k].0 as int,
                target: found[k].1 as int,
                relationship: found[k].2,
            },
    )
}

/// The entity graph.
#[derive(Debug)]
pub struct EntityGraph {
    graph: Graph<Entity, Relationship, Directed, usize>,
    entity_map: Vec<(EntityId, usize)>,
    entity_type_map: Vec<(EntityType, Vec<usize>)>,
}

/// The keys of an index of entity ids.
pub open spec fn id_keys(index: Seq<(EntityId, usize)>) -> Seq<Seq<char>> {
    Seq::new(index.len(), |i: int| index[i].0@)
}

/// The keys of an index of entity types.
pub open spec fn type_keys(index: Seq<(EntityType, Vec<usize>)>) -> Seq<Seq<char>> {
    Seq::new(index.len(), |i: int| index[i].0@)
}

/// Whether the two indices say what the nodes say: the id index lists every
/// node's id with its position, no id occurs twice, and the type index lists
/// for every type that occurs the positions of its entities; and whether
/// every edge joins two nodes.
pub open spec fn consistent(
    nodes: Seq<Entity>,
    edges: Seq<Link>,
    ids: Seq<(EntityId, usize)>,
    types: Seq<(EntityType, Vec<usize>)>,
) -> bool {
    &&& ids.len() == nodes.len()
    &&& forall|i: int| 0 <= i < nodes.len() ==> (#[trigger] ids[i]).0@ == nodes[i].id@ && ids[i].1 == i
    &&& distinct(node_ids(nodes))
    &&& distinct(type_keys(types))
    &&& forall|k: int|
        0 <= k < types.len() ==> {
            let positions = positions_of_type(nodes, (#[trigger] types[k]).0@);
            &&& positions.len() > 0
            &&& types[k].1@.len() == positions.len()
            &&& forall|j: int| 0 <= j < positions.len() ==> types[k].1@[j] == positions[j]
        }
    &&& forall|i: int|
        0 <= i < nodes.len() ==> position_in(type_keys(types), (#[trigger] nodes[i]).entity_type@)
            < types.len()
    &&& links_within(edges, nodes.len() as int)
}

/// A position of the right type holds the type; the positions are below the
/// number of nodes and ascend.
pub proof fn lemma_positions_of_type(nodes: Seq<Entity>, entity_type: Seq<char>)
    ensures
        forall|j: int|
            0 <= j < positions_of_type(nodes, entity_type).len() ==> {
                let at = #[trigger] positions_of_type(nodes, entity_type)[j];
                0 <= at < nodes.len() && nodes[at].entity_type@ == entity_type
            },
        forall|i: int|
            0 <= i < nodes.len() && (#[trigger] nodes[i]).entity_type@ == entity_type
                ==> positions_of_type(nodes, entity_type).contains(i),
        forall|i: int, j: int|
            0 <= i < j < positions_of_type(nodes, entity_type).len() ==> positions_of_type(
                nodes,
                entity_type,
            )[i] < positions_of_type(nodes, entity_type)[j],
    decreases nodes.len(),
{
    if nodes.len() > 0 {
        let shorter = nodes.drop_last();
        lemma_positions_of_type(shorter, entity_type);
        let before = positions_of_type(shorter, entity_type);
        let all = positions_of_type(nodes, entity_type);
        assert forall|i: int|
            0 <= i < nodes.len() && (#[trigger] nodes[i]).entity_type@ == entity_type implies all.contains(
            i,
        ) by {
            if i < nodes.len() - 1 {
                assert(shorter[i] == nodes[i]);
                assert(before.contains(i));
                let j = choose|j: int| 0 <= j < before.len() && before[j] == i;
                assert(all[j] == i);
            } else {
                assert(all[all.len() - 1] == i);
            }
        }
        assert forall|j: int| 0 <= j < all.len() implies {
            let at = #[trigger] all[j];
            0 <= at < nodes.len() && nodes[at].entity_type@ == entity_type
        } by {
            if j < before.len() {
                assert(all[j] == before[j]);
                assert(shorter[before[j]] == nodes[before[j]]);
            }
        }
    }
}

/// The graph as nodes, edges and the two indices.
pub struct GraphModel {
    /// The entities, in the order in which they were added.
    pub nodes: Seq<Entity>,
    /// The edges, in the order in which they were added.
    pub edges: Seq<Link>,
    /// The index from entity id to position.
    pub id_index: Seq<(EntityId, usize)>,
    /// The index from entity type to the positions of its entities.
    pub type_index: Seq<(EntityType, Vec<usize>)>,
}

impl View for EntityGraph {
    type V = GraphModel;

    open spec fn view(&self) -> GraphModel {
        GraphModel {
            nodes: self.nodes(),
            edges: self.edges(),
            id_index: self.id_index(),
            type_index: self.type_index(),
        }
    }
}

impl EntityGraph {
    /// What holds of every graph: the indices agree with the nodes, and the
    /// edges join nodes.
    #[verifier::type_invariant]
    spec fn sound(self) -> bool {
        consistent(
            store_nodes(self.graph),
            store_edges(self.graph),
            self.entity_map@,
            self.entity_type_map@,
        )
    }

    /// The entities, in the order in which they were added.
    pub closed spec fn nodes(self) -> Seq<Entity> {
        store_nodes(self.graph)
    }

    /// The edges, in the order in which they were added.
    pub closed spec fn edges(self) -> Seq<Link> {
        store_edges(self.graph)
    }

    /// The index from entity id to position.
    pub closed spec fn id_index(self) -> Seq<(EntityId, usize)> {
        self.entity_map@
    }

    /// The index from entity type to the positions of its entities.
    pub closed spec fn type_index(self) -> Seq<(EntityType, Vec<usize>)> {
        self.entity_type_map@
    }

    /// The entity types that occur, in the order in which they first came.
    pub closed spec fn types(self) -> Seq<Seq<char>> {
        type_keys(self.entity_type_map@)
    }

    /// Whether the indices agree with the nodes and the edges join nodes.
    /// Every graph that executable code holds is well formed.
    pub open spec fn wf(self) -> bool {
        consistent(self.nodes(), self.edges(), self.id_index(), self.type_index())
    }

    /// The position of the entity with the given id, or the number of nodes
    /// where there is none.
    pub open spec fn position(self, id: Seq<char>) -> int {
        position_in(node_ids(self.nodes()), id)
    }

    /// Whether an entity with the given id is in the graph.
    pub open spec fn contains_id(self, id: Seq<char>) -> bool {
        self.position(id) < self.nodes().len()
    }

    /// The entity with the given id, where the graph holds one.
    pub open spec fn entity(self, id: Seq<char>) -> Entity
        recommends
            self.contains_id(id),
    {
        self.nodes()[self.position(id)]
    }

    /// Whether `after` is what `build` makes of `before`: the same nodes and
    /// indices, and the edges that the nodes' reference fields give rise to.
    pub open spec fn built_from(after: Self, before: Self) -> bool {
        &&& after.nodes() == before.nodes()
        &&& after.id_index() == before.id_index()
        &&& after.type_index() == before.type_index()
        &&& after.edges() == links_of(before.nodes())
    }

    /// Creates an empty graph, ready to be populated and built.
    pub fn new() -> (r: Self)
        ensures
            r.nodes() == Seq::<Entity>::empty(),
            r.edges() == Seq::<Link>::empty(),
            r.id_index().len() == 0,
            r.type_index().len() == 0,
            r.wf(),
    {
        EntityGraph { graph: store_new(), entity_map: Vec::new(), entity_type_map: Vec::new() }
    }

    /// Removes all entities and edges.
    pub fn clear(&mut self)
        ensures
            final(self).nodes() == Seq::<Entity>::empty(),
            final(self).edges() == Seq::<Link>::empty(),
            final(self).id_index().len() == 0,
            final(self).type_index().len() == 0,
            final(self).wf(),
    {
        *self = EntityGraph::new();
    }

    /// The number of entities.
    pub fn node_count(&self) -> (r: usize)
        ensures
            r == self.nodes().len(),
    {
        store_node_count(&self.graph)
    }

    /// The number of edges.
    pub fn edge_count(&self) -> (r: usize)
        ensures
            r == self.edges().len(),
    {
        store::store_edge_count(&self.graph)
    }

    /// All entities, in the order in which they were added.
    pub fn entities(&self) -> (r: Vec<&Entity>)
        ensures
            r@.len() == self.nodes().len(),
            forall|i: int| 0 <= i < r@.len() ==> *(#[trigger] r@[i]) == self.nodes()[i],
    {
        let count = store_node_count(&self.graph);
        let mut all: Vec<&Entity> = Vec::new();
        let mut i: usize = 0;
        while i < count
            invariant
                i <= count,
                count == self.nodes().len(),
                all@.len() == i,
                forall|j: int| 0 <= j < i ==> *(#[trigger] all@[j]) == self.nodes()[j],
            decreases count - i,
        {
            all.push(store_node(&self.graph, i).unwrap());
            i += 1;
        }
        all
    }

    /// All edges, in the order in which they were added: the positions of
    /// source and target, and what the edge stands for.
    pub fn relationships(&self) -> (r: Vec<(usize, usize, Relationship)>)
        ensures
            as_links(r@) == self.edges(),
    {
        let edges = store::store_edge_list(&self.graph);
        assert(as_links(edges@) =~= self.edges());
        edges
    }

    /// Whether an entity with the given id is in the graph.
    pub fn contains_entity(&self, id: &EntityId) -> (r: bool)
        ensures
            r == self.contains_id(id@),
    {
        proof {
            use_type_invariant(self);
            assert(id_keys(self.entity_map@) =~= node_ids(self.nodes()));
        }
        find_id(&self.entity_map, id) < self.entity_map.len()
    }

    /// Adds an entity. An entity whose id is in the graph already is
    /// rejected, and the graph stays as it was. After entities were added,
    /// the edges are out of date until the graph is built again.
    pub fn add_entity(&mut self, entity: Entity) -> (r: Result<(), GraphError>)
        ensures
            old(self).contains_id(entity.id@) ==> {
                &&& r == Err::<(), GraphError>(GraphError::EntityAlreadyExists(entity.id))
                &&& *final(self) == *old(self)
                &&& final(self)@ == old(self)@
                &&& final(self).nodes() == old(self).nodes()
                &&& final(self).edges() == old(self).edges()
                &&& final(self).id_index() == old(self).id_index()
                &&& final(self).type_index() == old(self).type_index()
            },
            !old(self).contains_id(entity.id@) ==> {
                &&& r == Ok::<(), GraphError>(())
                &&& final(self).nodes() == old(self).nodes().push(entity)
                &&& final(self).edges() == old(self).edges()
            },
            final(self).wf(),
    {
        proof {
            use_type_invariant(&*self);
        }
        assert(id_keys(self.entity_map@) =~= node_ids(self.nodes()));
        if find_id(&self.entity_map, &entity.id) < self.entity_map.len() {
            return Err(GraphError::EntityAlreadyExists(entity.id));
        }
        let mut taken = EntityGraph::new();
        core::mem::swap(self, &mut taken);
        let EntityGraph { graph, entity_map, entity_type_map } = taken;
        let mut graph = graph;
        let mut entity_map = entity_map;
        let mut entity_type_map = entity_type_map;
        let ghost nodes = store_nodes(graph);
        let ghost types = entity_type_map@;
        let id = entity.id.clone();
        let entity_type = entity.entity_type.clone();
        let index = store_add_node(&mut graph, entity);
        entity_map.push((id, index));
        let at = find_type(&entity_type_map, &entity_type);
        proof {
            lemma_position_in(type_keys(types), entity_type@);
            lemma_added_node(nodes, entity);
        }
        if at < entity_type_map.len() {
            let (key, positions) = entity_type_map.remove(at);
            let mut positions = positions;
            positions.push(index);
            entity_type_map.insert(at, (key, positions));
            proof {
                assert(entity_type_map@ =~= types.update(at as int, (key, positions)));
                assert(type_keys(entity_type_map@) =~= type_keys(types));
                assert(type_keys(types)[at as int] == entity_type@);
                assert forall|k: int| 0 <= k < entity_type_map@.len() implies {
                    let positions = positions_of_type(
                        nodes.push(entity),
                        (#[trigger] entity_type_map@[k]).0@,
                    );
                    &&& positions.len() > 0
                    &&& entity_type_map@[k].1@.len() == positions.len()
                    &&& forall|j: int|
                        0 <= j < positions.len() ==> entity_type_map@[k].1@[j] == positions[j]
                } by {
                    assert(type_keys(types)[k] == types[k].0@);
                    if k != at {
                        assert(entity_type_map@[k] == types[k]);
                        assert(types[k].0@ != entity_type@);
                    } else {
                        assert(key == types[at as int].0);
                    }
                }
                assert forall|i: int| 0 <= i < nodes.len() + 1 implies position_in(
                    type_keys(entity_type_map@),
                    (#[trigger] nodes.push(entity)[i]).entity_type@,
                ) < entity_type_map@.len() by {
                    if i < nodes.len() {
                        assert(nodes.push(entity)[i] == nodes[i]);
                    }
                }
            }
        } else {
            let mut positions: Vec<usize> = Vec::new();
            positions.push(index);
            entity_type_map.push((entity_type, positions));
            proof {
                assert(type_keys(entity_type_map@) =~= type_keys(types).push(entity_type@));
                lemma_positions_of_type(nodes, entity_type@);
                let none = positions_of_type(nodes, entity_type@);
                if none.len() > 0 {
                    let holder = none[0];
                    assert(nodes[holder].entity_type@ == entity_type@);
                    assert(position_in(type_keys(types), nodes[holder].entity_type@) < types.len());
                }
                assert forall|k: int| 0 <= k < entity_type_map@.len() implies {
                    let positions = positions_of_type(
                        nodes.push(entity),
                        (#[trigger] entity_type_map@[k]).0@,
                    );
                    &&& positions.len() > 0
                    &&& entity_type_map@[k].1@.len() == positions.len()
                    &&& forall|j: int|
                        0 <= j < positions.len() ==> entity_type_map@[k].1@[j] == positions[j]
                } by {
                    if k < types.len() {
                        assert(type_keys(types)[k] == types[k].0@);
                        assert(entity_type_map@[k] == types[k]);
                        assert(types[k].0@ != entity_type@);
                    }
                }
                assert forall|i: int| 0 <= i < nodes.len() + 1 implies position_in(
                    type_keys(entity_type_map@),
                    (#[trigger] nodes.push(entity)[i]).entity_type@,
                ) < entity_type_map@.len() by {
                    let wanted = nodes.push(entity)[i].entity_type@;
                    lemma_position_in(type_keys(entity_type_map@), wanted);
                    if i < nodes.len() {
                        lemma_position_in(type_keys(types), wanted);
                        let p = position_in(type_keys(types), wanted);
                        assert(type_keys(entity_type_map@)[p] == wanted);
                    } else {
                        assert(type_keys(entity_type_map@)[types.len() as int] == wanted);
                    }
                }
            }
        }
        proof {
            let after = nodes.push(entity);
            assert(node_ids(after) =~= node_ids(nodes).push(entity.id@));
            lemma_position_in(node_ids(nodes), entity.id@);
            assert(links_within(store_edges(graph), after.len() as int));
        }
        *self = EntityGraph { graph, entity_map, entity_type_map };
        Ok(())
    }

    /// Adds entities in order and stops at the first whose id is in the graph
    /// already or was added before it. The entities before that one stay in
    /// the graph.
    pub fn add_entities(&mut self, entities: Vec<Entity>) -> (r: Result<(), GraphError>)
        ensures
            ({
                let n = accepted(node_ids(old(self).nodes()), entities@);
                &&& 0 <= n <= entities@.len()
                &&& final(self).nodes() == old(self).nodes() + entities@.take(n)
                &&& final(self).edges() == old(self).edges()
                &&& n == entities@.len() ==> r == Ok::<(), GraphError>(())
                &&& n < entities@.len() ==> r == Err::<(), GraphError>(
                    GraphError::EntityAlreadyExists(entities@[n].id),
                )
            }),
            final(self).wf(),
    {
        let ghost batch = entities@;
        let ghost before = self.nodes();
        let total = entities.len();
        let mut rest = entities;
        let mut reversed: Vec<Entity> = Vec::new();
        while rest.len() > 0
            invariant
                rest@.len() + reversed@.len() == total,
                total == batch.len(),
                forall|j: int| 0 <= j < rest@.len() ==> rest@[j] == batch[j],
                forall|j: int| 0 <= j < reversed@.len() ==> reversed@[j] == batch[total - 1 - j],
            decreases rest.len(),
        {
            let entity = rest.pop().unwrap();
            reversed.push(entity);
        }
        let mut done: usize = 0;
        proof {
            assert(batch.take(0) =~= Seq::<Entity>::empty());
            assert(before + batch.take(0) =~= before);
            assert(batch.skip(0) =~= batch);
            use_type_invariant(&*self);
        }
        while reversed.len() > 0
            invariant
                done + reversed@.len() == total,
                total == batch.len(),
                batch == entities@,
                before == old(self).nodes(),
                forall|j: int| 0 <= j < reversed@.len() ==> reversed@[j] == batch[total - 1 - j],
                self.nodes() == before + batch.take(done as int),
                self.edges() == old(self).edges(),
                accepted(node_ids(before), batch) == done + accepted(
                    node_ids(self.nodes()),
                    batch.skip(done as int),
                ),
                self.wf(),
            decreases reversed.len(),
        {
            let entity = reversed.pop().unwrap();
            let ghost ids = node_ids(self.nodes());
            let ghost tail = batch.skip(done as int);
            proof {
                assert(entity == batch[done as int]);
                assert(tail[0] == entity);
                assert(tail.drop_first() =~= batch.skip(done + 1));
            }
            match self.add_entity(entity) {
                Ok(_) => {
                    proof {
                        assert(node_ids(self.nodes()) =~= ids.push(entity.id@));
                        assert(accepted(ids, tail) == 1 + accepted(
                            ids.push(entity.id@),
                            tail.drop_first(),
                        ));
                        assert(before + batch.take(done + 1) =~= (before + batch.take(
                            done as int,
                        )).push(entity));
                    }
                    done += 1;
                },
                Err(error) => {
                    proof {
                        assert(accepted(ids, tail) == 0);
                    }
                    return Err(error);
                },
            }
        }
        proof {
            assert(batch.skip(total as int) =~= Seq::<Entity>::empty());
        }
        Ok(())
    }

    /// Gathers the edges that a field value gives rise to at the end of
    /// `found`: one for each reference in it whose target is in the graph.
    /// Lists are searched to any depth; references to entities that the
    /// graph does not hold are passed over.
    fn collect_relationships_from_field(
        &self,
        from_node: usize,
        field_name: &FieldId,
        field_value: &FieldValue,
        found: &mut Vec<(usize, usize, Relationship)>,
    )
        requires
            from_node < self.nodes().len(),
            links_within(as_links(old(found)@), self.nodes().len() as int),
        ensures
            as_links(final(found)@) == as_links(old(found)@) + links_of_value(
                node_ids(self.nodes()),
                from_node as int,
                *field_name,
                *field_value,
            ),
            links_within(as_links(final(found)@), self.nodes().len() as int),
        decreases field_value,
    {
        proof {
            use_type_invariant(self);
            assert(id_keys(self.entity_map@) =~= node_ids(self.nodes()));
        }
        let ghost ids = node_ids(self.nodes());
        let ghost start = as_links(found@);
        match field_value {
            FieldValue::Reference(ReferenceValue::Entity(target_id)) => {
                let to_node = find_id(&self.entity_map, target_id);
                if to_node < self.entity_map.len() {
                    let relationship = Relationship::EntityReference {
                        from_field: field_name.clone(),
                    };
                    found.push((from_node, to_node, relationship));
                    proof {
                        assert(as_links(found@) =~= start + links_of_value(
                            ids,
                            from_node as int,
                            *field_name,
                            *field_value,
                        ));
                    }
                } else {
                    assert(as_links(found@) =~= start + Seq::<Link>::empty());
                }
            },
            FieldValue::Reference(ReferenceValue::Field(target_entity_id, target_field_id)) => {
                let to_node = find_id(&self.entity_map, target_entity_id);
                if to_node < self.entity_map.len() {
                    let relationship = Relationship::FieldReference {
                        from_field: field_name.clone(),
                        to_field: target_field_id.clone(),
                    };
                    found.push((from_node, to_node, relationship));
                    proof {
                        assert(as_links(found@) =~= start + links_of_value(
                            ids,
                            from_node as int,
                            *field_name,
                            *field_value,
                        ));
                    }
                } else {
                    assert(as_links(found@) =~= start + Seq::<Link>::empty());
                }
            },
            FieldValue::List(items) => {
                let mut i: usize = 0;
                proof {
                    assert(as_links(found@) =~= start + Seq::<Link>::empty());
                }
                while i < items.len()
                    invariant
                        i <= items.len(),
                        *field_value == FieldValue::List(*items),
                        from_node < self.nodes().len(),
                        ids == node_ids(self.nodes()),
                        as_links(found@) == start + links_of_items(
                            ids,
                            from_node as int,
                            *field_name,
                            *field_value,
                            i as nat,
                        ),
                        links_within(as_links(found@), self.nodes().len() as int),
                    decreases items.len() - i,
                {
                    let ghost so_far = links_of_items(
                        ids,
                        from_node as int,
                        *field_name,
                        *field_value,
                        i as nat,
                    );
                    proof {
                        vstd::std_specs::vec::axiom_vec_index_decreases(*items, i as int);
                        assert(field_value->List_0 == *items);
                        assert(decreases_to!(*field_value => field_value->List_0));
                    }
                    self.collect_relationships_from_field(from_node, field_name, &items[i], found);
                    proof {
                        let step = links_of_value(ids, from_node as int, *field_name, items[i as int]);
                        assert(links_of_items(
                            ids,
                            from_node as int,
                            *field_name,
                            *field_value,
                            (i + 1) as nat,
                        ) == so_far + step);
                        assert((start + so_far) + step =~= start + (so_far + step));
                    }
                    i += 1;
                }
            },
            _ => {
                assert(as_links(found@) =~= start + Seq::<Link>::empty());
            },
        }
    }

    /// Builds the edges for all entities in the graph. The edges that were
    /// there are dropped and all are derived anew from the fields of the
    /// entities, so it is best to add all entities first and build then.
    pub fn build(&mut self)
        ensures
            EntityGraph::built_from(*final(self), *old(self)),
            final(self).wf(),
    {
        proof {
            use_type_invariant(&*self);
        }
        let ghost nodes = self.nodes();
        let count = self.node_count();
        let mut found: Vec<(usize, usize, Relationship)> = Vec::new();
        let mut i: usize = 0;
        proof {
            assert(as_links(found@) =~= Seq::<Link>::empty());
        }
        while i < count
            invariant
                i <= count,
                count == nodes.len(),
                nodes == self.nodes(),
                as_links(found@) == links_of_nodes(nodes, i as nat),
                links_within(as_links(found@), count as int),
            decreases count - i,
        {
            let entity = store_node(&self.graph, i).unwrap();
            let fields = entity.fields.len();
            let ghost start = as_links(found@);
            let mut j: usize = 0;
            proof {
                assert(start + links_of_fields(nodes, i as int, 0) =~= start);
            }
            while j < fields
                invariant
                    j <= fields,
                    i < count,
                    count == nodes.len(),
                    nodes == self.nodes(),
                    *entity == nodes[i as int],
                    fields == entity.fields.entries().len(),
                    as_links(found@) == start + links_of_fields(nodes, i as int, j as nat),
                    links_within(as_links(found@), count as int),
                decreases fields - j,
            {
                let ghost so_far = links_of_fields(nodes, i as int, j as nat);
                self.collect_relationships_from_field(
                    i,
                    entity.fields.key_at(j),
                    entity.fields.value_at(j),
                    &mut found,
                );
                proof {
                    let entry = nodes[i as int].fields.entries()[j as int];
                    let step = links_of_value(node_ids(nodes), i as int, entry.0, entry.1);
                    assert(links_of_fields(nodes, i as int, (j + 1) as nat) == so_far + step);
                    assert((start + so_far) + step =~= start + (so_far + step));
                }
                j += 1;
            }
            i += 1;
        }
        let mut taken = EntityGraph::new();
        core::mem::swap(self, &mut taken);
        let EntityGraph { graph, entity_map, entity_type_map } = taken;
        let mut graph = graph;
        store_clear_edges(&mut graph);
        let mut k: usize = 0;
        proof {
            assert(as_links(found@).take(0) =~= Seq::<Link>::empty());
        }
        while k < found.len()
            invariant
                k <= found.len(),
                store_nodes(graph) == nodes,
                store_edges(graph) == as_links(found@).take(k as int),
                links_within(as_links(found@), nodes.len() as int),
            decreases found.len() - k,
        {
            let ghost link = as_links(found@)[k as int];
            let source = found[k].0;
            let target = found[k].1;
            let relationship = found[k].2.clone();
            store_add_edge(&mut graph, source, target, relationship);
            proof {
                assert(as_links(found@).take(k + 1) =~= as_links(found@).take(k as int).push(link));
            }
            k += 1;
        }
        proof {
            assert(as_links(found@).take(found@.len() as int) =~= as_links(found@));
        }
        *self = EntityGraph { graph, entity_map, entity_type_map };
    }

    /// The position of the entity with the given id, or the number of nodes
    /// where there is none.
    pub(crate) fn position_of(&self, id: &EntityId) -> (r: usize)
        ensures
            r == self.position(id@),
            r <= self.nodes().len(),
            self.wf(),
    {
        proof {
            use_type_invariant(self);
            assert(id_keys(self.entity_map@) =~= node_ids(self.nodes()));
        }
        find_id(&self.entity_map, id)
    }

    /// The entity at a position.
    pub(crate) fn node_at(&self, index: usize) -> (r: &Entity)
        requires
            index < self.nodes().len(),
        ensures
            *r == self.nodes()[index as int],
    {
        store_node(&self.graph, index).unwrap()
    }

    /// The positions at the other end of the edges that leave a node or
    /// arrive at it, the edge that was added last first.
    pub(crate) fn neighbors(&self, node: usize, direction: Direction) -> (r: Vec<usize>)
        ensures
            r@.len() == neighbors_of(self.edges(), node as int, direction).len(),
            forall|i: int|
                0 <= i < r@.len() ==> (#[trigger] r@[i]) == neighbors_of(
                    self.edges(),
                    node as int,
                    direction,
                )[i] && r@[i] < self.nodes().len(),
    {
        proof {
            use_type_invariant(self);
            lemma_neighbors_within(
                self.edges(),
                node as int,
                direction,
                self.nodes().len() as int,
            );
        }
        store::store_neighbors(&self.graph, node, direction)
    }

    /// What the edges from one node to another stand for.
    pub(crate) fn links(&self, source: usize, target: usize) -> (r: Vec<&Relationship>)
        ensures
            r@.len() == links_between(self.edges(), source as int, target as int).len(),
            forall|i: int|
                0 <= i < r@.len() ==> *(#[trigger] r@[i]) == links_between(
                    self.edges(),
                    source as int,
                    target as int,
                )[i],
    {
        store::store_links(&self.graph, source, target)
    }

    /// The positions of the entities of a type, ascending.
    pub(crate) fn positions_by_type(&self, entity_type: &EntityType) -> (r: Vec<usize>)
        ensures
            r@.len() == positions_of_type(self.nodes(), entity_type@).len(),
            forall|j: int|
                0 <= j < r@.len() ==> (#[trigger] r@[j]) == positions_of_type(
                    self.nodes(),
                    entity_type@,
                )[j] && r@[j] < self.nodes().len(),
    {
        proof {
            use_type_invariant(self);
            lemma_positions_of_type(self.nodes(), entity_type@);
            lemma_position_in(type_keys(self.entity_type_map@), entity_type@);
        }
        let at = find_type(&self.entity_type_map, entity_type);
        let mut out: Vec<usize> = Vec::new();
        if at < self.entity_type_map.len() {
            let listed = &self.entity_type_map[at].1;
            assert(type_keys(self.entity_type_map@)[at as int] == self.entity_type_map@[at as int].0@);
            let mut j: usize = 0;
            while j < listed.len()
                invariant
                    j <= listed.len(),
                    out@ == listed@.take(j as int),
                decreases listed.len() - j,
            {
                out.push(listed[j]);
                assert(listed@.take(j + 1) =~= listed@.take(j as int).push(listed@[j as int]));
                j += 1;
            }
            proof {
                assert(listed@.take(listed@.len() as int) =~= listed@);
                let entry = self.entity_type_map@[at as int];
                let positions = positions_of_type(self.nodes(), entry.0@);
                assert(entry.0@ == entity_type@);
                assert(entry.1@.len() == positions.len());
                assert forall|j: int| 0 <= j < out@.len() implies (#[trigger] out@[j])
                    == positions_of_type(self.nodes(), entity_type@)[j] && out@[j]
                    < self.nodes().len() by {
                    assert(entry.1@[j] == positions[j]);
                    assert(0 <= positions[j] < self.nodes().len());
                }
            }
        } else {
            proof {
                let positions = positions_of_type(self.nodes(), entity_type@);
                if positions.len() > 0 {
                    let holder = positions[0];
                    assert(self.nodes()[holder].entity_type@ == entity_type@);
                    assert(position_in(
                        type_keys(self.entity_type_map@),
                        self.nodes()[holder].entity_type@,
                    ) < self.entity_type_map@.len());
                }
            }
        }
        out
    }

    /// The types in the type index, in the order in which they first came.
    pub(crate) fn type_names(&self) -> (r: Vec<EntityType>)
        ensures
            Seq::new(r@.len(), |k: int| r@[k]@) == self.types(),
            distinct(Seq::new(r@.len(), |k: int| r@[k]@)),
            forall|i: int|
                0 <= i < self.nodes().len() ==> type_listed(
                    r@,
                    (#[trigger] self.nodes()[i]).entity_type@,
                ),
            forall|k: int| 0 <= k < r@.len() ==> type_occurs(self.nodes(), (#[trigger] r@[k])@),
    {
        proof {
            use_type_invariant(self);
        }
        let ghost keys = type_keys(self.entity_type_map@);
        let mut out: Vec<EntityType> = Vec::new();
        let mut k: usize = 0;
        while k < self.entity_type_map.len()
            invariant
                k <= self.entity_type_map.len(),
                out@.len() == k,
                forall|m: int| 0 <= m < k ==> out@[m] == self.entity_type_map@[m].0,
            decreases self.entity_type_map.len() - k,
        {
            out.push(self.entity_type_map[k].0.clone());
            k += 1;
        }
        proof {
            assert(Seq::new(out@.len(), |k: int| out@[k]@) =~= keys);
            assert forall|i: int| 0 <= i < self.nodes().len() implies type_listed(
                out@,
                (#[trigger] self.nodes()[i]).entity_type@,
            ) by {
                let wanted = self.nodes()[i].entity_type@;
                lemma_position_in(keys, wanted);
                let at = position_in(keys, wanted);
                assert(out@[at]@ == wanted);
            }
            assert forall|k: int| 0 <= k < out@.len() implies type_occurs(
                self.nodes(),
                (#[trigger] out@[k])@,
            ) by {
                let listed = self.entity_type_map@[k];
                lemma_positions_of_type(self.nodes(), listed.0@);
                let holder = positions_of_type(self.nodes(), listed.0@)[0];
                assert(self.nodes()[holder].entity_type@ == out@[k]@);
            }
        }
        out
    }
}

/// Whether a type is among the listed names.
pub open spec fn type_listed(names: Seq<EntityType>, entity_type: Seq<char>) -> bool {
    exists|k: int| 0 <= k < names.len() && (#[trigger] names[k])@ == entity_type
}

/// Whether some entity has the type.
pub open spec fn type_occurs(nodes: Seq<Entity>, entity_type: Seq<char>) -> bool {
    exists|i: int| 0 <= i < nodes.len() && (#[trigger] nodes[i]).entity_type@ == entity_type
}

/// The neighbours of a node lie among the nodes where the edges do.
pub proof fn lemma_neighbors_within(edges: Seq<Link>, node: int, direction: Direction, count: int)
    requires
        links_within(edges, count),
    ensures
        forall|i: int|
            0 <= i < neighbors_of(edges, node, direction).len() ==> 0 <= #[trigger] neighbors_of(
                edges,
                node,
                direction,
            )[i] < count,
    decreases edges.len(),
{
    if edges.len() > 0 {
        let shorter = edges.drop_last();
        assert forall|k: int| 0 <= k < shorter.len() implies 0 <= (#[trigger] shorter[k]).source
            < count && 0 <= shorter[k].target < count by {
            assert(shorter[k] == edges[k]);
        }
        lemma_neighbors_within(shorter, node, direction, count);
        let last = edges.last();
        assert(last == edges[edges.len() - 1]);
        let rest = neighbors_of(shorter, node, direction);
        let all = neighbors_of(edges, node, direction);
        assert forall|i: int| 0 <= i < all.len() implies 0 <= #[trigger] all[i] < count by {
            if all.len() == rest.len() {
                assert(all == rest);
            } else {
                if i > 0 {
                    assert(all[i] == rest[i - 1]);
                }
            }
        }
    }
}

/// Building a graph that was just built changes nothing: the edges depend on
/// the nodes alone, so a second build gives the same edges in the same
/// order, and with that the same multiset of edges.
pub proof fn lemma_build_is_idempotent(first: EntityGraph, second: EntityGraph, third: EntityGraph)
    requires
        EntityGraph::built_from(second, first),
        EntityGraph::built_from(third, second),
    ensures
        third.nodes() == second.nodes(),
        third.edges() == second.edges(),
        third.edges().to_multiset() == second.edges().to_multiset(),
{
}

/// What adding an entity does to the positions of each type: those of the
/// entity's own type gain the new position, the others stay.
proof fn lemma_added_node(nodes: Seq<Entity>, entity: Entity)
    ensures
        forall|t: Seq<char>|
            t != entity.entity_type@ ==> #[trigger] positions_of_type(nodes.push(entity), t)
                == positions_of_type(nodes, t),
        positions_of_type(nodes.push(entity), entity.entity_type@) == positions_of_type(
            nodes,
            entity.entity_type@,
        ).push(nodes.len() as int),
{
    let after = nodes.push(entity);
    assert(after.drop_last() =~= nodes);
    assert(after.last() == entity);
}

/// The position of an id in the id index, or its length.
fn find_id(index: &Vec<(EntityId, usize)>, id: &EntityId) -> (r: usize)
    ensures
        r == position_in(id_keys(index@), id@),
        r <= index.len(),
{
    let mut i: usize = 0;
    while i < index.len() && !index[i].0.same_as(id)
        invariant
            i <= index.len(),
            forall|j: int| 0 <= j < i ==> id_keys(index@)[j] != id@,
        decreases index.len() - i,
    {
        i += 1;
    }
    proof {
        lemma_position_in_is(id_keys(index@), id@, i as int);
    }
    i
}

/// The position of a type in the type index, or its length.
fn find_type(index: &Vec<(EntityType, Vec<usize>)>, entity_type: &EntityType) -> (r: usize)
    ensures
        r == position_in(type_keys(index@), entity_type@),
        r <= index.len(),
{
    let mut i: usize = 0;
    while i < index.len() && !index[i].0.same_as(entity_type)
        invariant
            i <= index.len(),
            forall|j: int| 0 <= j < i ==> type_keys(index@)[j] != entity_type@,
        decreases index.len() - i,
    {
        i += 1;
    }
    proof {
        lemma_position_in_is(type_keys(index@), entity_type@, i as int);
    }
    i
}

} // verus!
