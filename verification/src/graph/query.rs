//! Reading the graph: lookup, listing by type, related entities and the
//! resolution of references.

use vstd::prelude::*;
use crate::entity::Entity;
use crate::field::{FieldValue, ReferenceValue};
use crate::graph::store::{links_between, neighbors_of, Link};
use crate::graph::{
    positions_of_type, type_listed, type_occurs, Direction, EntityGraph, GraphError, Relationship,
};
use crate::field_map::{distinct, lemma_position_in};
use crate::graph::node_ids;
use crate::id::{EntityId, EntityType, FieldId};
use crate::text::{lemma_less_total, lemma_less_transitive, seq_less, str_less};

verus! {

/// How many links a chain of field references may have at most.
pub const MAX_REFERENCE_DEPTH: usize = 10;

/// Whether an edge says that the field `from_field` of its source refers to
/// the field `to_field` of its target.
pub open spec fn is_field_link(relationship: Relationship, from_field: Seq<char>, to_field: Seq<char>) -> bool {
    match relationship {
        Relationship::FieldReference { from_field: from, to_field: to } => from@ == from_field
            && to@ == to_field,
        _ => false,
    }
}

/// Whether there is an edge from `source` to `target` for a reference from
/// the field `from_field` to the field `to_field`.
pub open spec fn has_field_link(
    edges: Seq<Link>,
    source: int,
    target: int,
    from_field: Seq<char>,
    to_field: Seq<char>,
) -> bool {
    exists|k: int|
        0 <= k < edges.len() && (#[trigger] edges[k]).source == source && edges[k].target == target
            && is_field_link(edges[k].relationship, from_field, to_field)
}

/// Whether one of `links` is for a reference from `from_field` to `to_field`.
pub open spec fn some_field_link(links: Seq<Relationship>, from_field: Seq<char>, to_field: Seq<char>) -> bool {
    exists|k: int| 0 <= k < links.len() && is_field_link(#[trigger] links[k], from_field, to_field)
}

/// The edges between two nodes hold a link for a field reference exactly
/// where the edges of the graph do.
pub proof fn lemma_links_between(
    edges: Seq<Link>,
    source: int,
    target: int,
    from_field: Seq<char>,
    to_field: Seq<char>,
)
    ensures
        some_field_link(links_between(edges, source, target), from_field, to_field)
            == has_field_link(edges, source, target, from_field, to_field),
    decreases edges.len(),
{
    let links = links_between(edges, source, target);
    if edges.len() > 0 {
        let shorter = edges.drop_last();
        let last = edges.last();
        let rest = links_between(shorter, source, target);
        lemma_links_between(shorter, source, target, from_field, to_field);
        let joins = last.source == source && last.target == target;
        if some_field_link(links, from_field, to_field) {
            let k = choose|k: int|
                0 <= k < links.len() && is_field_link(#[trigger] links[k], from_field, to_field);
            if joins && k == 0 {
                assert(edges[edges.len() - 1] == last);
            } else {
                let at = if joins {
                    k - 1
                } else {
                    k
                };
                assert(rest[at] == links[k]);
                assert(some_field_link(rest, from_field, to_field));
                let e = choose|e: int|
                    0 <= e < shorter.len() && (#[trigger] shorter[e]).source == source
                        && shorter[e].target == target && is_field_link(
                        shorter[e].relationship,
                        from_field,
                        to_field,
                    );
                assert(edges[e] == shorter[e]);
            }
        }
        if has_field_link(edges, source, target, from_field, to_field) {
            let e = choose|e: int|
                0 <= e < edges.len() && (#[trigger] edges[e]).source == source && edges[e].target
                    == target && is_field_link(edges[e].relationship, from_field, to_field);
            if e == edges.len() - 1 {
                assert(links[0] == last.relationship);
            } else {
                assert(shorter[e] == edges[e]);
                assert(has_field_link(shorter, source, target, from_field, to_field));
                let k = choose|k: int|
                    0 <= k < rest.len() && is_field_link(#[trigger] rest[k], from_field, to_field);
                let at = if joins {
                    k + 1
                } else {
                    k
                };
                assert(links[at] == rest[k]);
            }
        }
    }
}

/// In a graph without edges no reference to a field can be followed: a field
/// that holds a reference to a field of an entity of the graph resolves to
/// `GraphNotBuilt`, also where the fields by themselves would lead to a value.
pub proof fn lemma_unbuilt_graph_resolves_nothing(
    graph: EntityGraph,
    entity_id: EntityId,
    field_id: FieldId,
    depth: nat,
)
    requires
        graph.edges().len() == 0,
        depth > 0,
        graph.contains_id(entity_id@),
        graph.entity(entity_id@).fields.has(field_id@),
        graph.entity(entity_id@).fields.value(field_id@) matches FieldValue::Reference(
            ReferenceValue::Field(target, _),
        ) && graph.contains_id(target@),
    ensures
        graph.resolution(entity_id, field_id, depth, Seq::empty()) == Err::<
            FieldValue,
            GraphError,
        >(GraphError::GraphNotBuilt),
{
}

/// A field that holds anything but a reference to a field resolves to what it
/// holds.
pub proof fn lemma_value_resolves_to_itself(
    graph: EntityGraph,
    entity_id: EntityId,
    field_id: FieldId,
    depth: nat,
    visited: Seq<(EntityId, FieldId)>,
)
    requires
        depth > 0,
        !was_visited(visited, entity_id@, field_id@),
        graph.contains_id(entity_id@),
        graph.entity(entity_id@).fields.has(field_id@),
        !graph.entity(entity_id@).fields.value(field_id@).is_field_reference(),
    ensures
        graph.resolution(entity_id, field_id, depth, visited) == Ok::<FieldValue, GraphError>(
            graph.entity(entity_id@).fields.value(field_id@),
        ),
{
}

/// A field that refers to itself resolves to `CyclicReference` in a graph
/// that has the edge for the reference, whatever else the graph holds.
pub proof fn lemma_self_reference_is_cyclic(
    graph: EntityGraph,
    entity_id: EntityId,
    field_id: FieldId,
    depth: nat,
)
    requires
        depth > 1,
        graph.contains_id(entity_id@),
        graph.entity(entity_id@).fields.has(field_id@),
        graph.entity(entity_id@).fields.value(field_id@) matches FieldValue::Reference(
            ReferenceValue::Field(target, target_field),
        ) && target@ == entity_id@ && target_field@ == field_id@,
        has_field_link(
            graph.edges(),
            graph.position(entity_id@),
            graph.position(entity_id@),
            field_id@,
            field_id@,
        ),
    ensures
        graph.resolution(entity_id, field_id, depth, Seq::empty()) == Err::<
            FieldValue,
            GraphError,
        >(GraphError::CyclicReference),
{
    let value = graph.entity(entity_id@).fields.value(field_id@);
    match value {
        FieldValue::Reference(ReferenceValue::Field(target, target_field)) => {
            let seen = Seq::<(EntityId, FieldId)>::empty().push((entity_id, field_id));
            assert(seen[0] == (entity_id, field_id));
            assert(was_visited(seen, target@, target_field@));
            assert(graph.resolution(target, target_field, (depth - 1) as nat, seen) == Err::<
                FieldValue,
                GraphError,
            >(GraphError::CyclicReference));
        },
        _ => {},
    }
}

/// A chain of field references that starts with nothing left to spend
/// resolves to `MaxDepthExceeded`, and one that meets a field that it has
/// seen to `CyclicReference`.
pub proof fn lemma_resolution_guards(
    graph: EntityGraph,
    entity_id: EntityId,
    field_id: FieldId,
    depth: nat,
    visited: Seq<(EntityId, FieldId)>,
)
    ensures
        depth == 0 ==> graph.resolution(entity_id, field_id, depth, visited) == Err::<
            FieldValue,
            GraphError,
        >(GraphError::MaxDepthExceeded),
        depth > 0 && was_visited(visited, entity_id@, field_id@) ==> graph.resolution(
            entity_id,
            field_id,
            depth,
            visited,
        ) == Err::<FieldValue, GraphError>(GraphError::CyclicReference),
{
}

/// Whether a pair of entity id and field id is among those visited.
pub open spec fn was_visited(visited: Seq<(EntityId, FieldId)>, entity_id: Seq<char>, field_id: Seq<char>) -> bool {
    exists|i: int|
        0 <= i < visited.len() && (#[trigger] visited[i]).0@ == entity_id && visited[i].1@
            == field_id
}

/// The positions of the entities related to the node at `node`: the targets
/// of its outgoing edges, the sources of its incoming edges, or both where no
/// direction is given.
pub open spec fn related_positions(edges: Seq<Link>, node: int, direction: Option<Direction>) -> Seq<int> {
    match direction {
        Some(direction) => neighbors_of(edges, node, direction),
        None => neighbors_of(edges, node, Direction::Outgoing) + neighbors_of(
            edges,
            node,
            Direction::Incoming,
        ),
    }
}

/// Whether an entity stands at one of the positions `wanted`.
pub open spec fn is_wanted(nodes: Seq<Entity>, wanted: Seq<int>, entity: Entity) -> bool {
    exists|q: int|
        0 <= q < wanted.len() && 0 <= #[trigger] wanted[q] < nodes.len() && entity
            == nodes[wanted[q]]
}

/// Whether `found` lists the entity at a position.
pub open spec fn lists_position(found: Seq<&Entity>, nodes: Seq<Entity>, position: int) -> bool {
    exists|k: int| 0 <= k < found.len() && *(#[trigger] found[k]) == nodes[position]
}

/// Whether `found` lists the entities at the positions `wanted`, each once,
/// in ascending order of their ids.
pub open spec fn lists_related(found: Seq<&Entity>, nodes: Seq<Entity>, wanted: Seq<int>) -> bool {
    &&& forall|k: int| 0 <= k < found.len() ==> is_wanted(nodes, wanted, *(#[trigger] found[k]))
    &&& forall|q: int|
        0 <= q < wanted.len() ==> lists_position(found, nodes, #[trigger] wanted[q])
    &&& forall|i: int, j: int|
        0 <= i < j < found.len() ==> seq_less((#[trigger] found[i]).id@, (#[trigger] found[j]).id@)
}

/// Whether the positions in `sorted` are nodes and stand in ascending order
/// of the ids of their entities.
pub open spec fn ascending(nodes: Seq<Entity>, sorted: Seq<usize>) -> bool {
    &&& forall|m: int| 0 <= m < sorted.len() ==> (#[trigger] sorted[m]) < nodes.len()
    &&& forall|a: int, b: int|
        0 <= a < b < sorted.len() ==> seq_less(
            nodes[(#[trigger] sorted[a]) as int].id@,
            nodes[(#[trigger] sorted[b]) as int].id@,
        )
}

/// Whether `position` is among the first `upto` of `positions`.
pub open spec fn among(positions: Seq<usize>, upto: int, position: usize) -> bool {
    exists|q: int| 0 <= q < upto && q < positions.len() && #[trigger] positions[q] == position
}

/// Whether `sorted` holds the first `upto` of `positions` and nothing else.
pub open spec fn covers(sorted: Seq<usize>, positions: Seq<usize>, upto: int) -> bool {
    &&& forall|m: int| 0 <= m < sorted.len() ==> among(positions, upto, #[trigger] sorted[m])
    &&& forall|q: int|
        0 <= q < upto && q < positions.len() ==> sorted.contains(#[trigger] positions[q])
}

/// A list that ascends by id still does after a node is inserted at the
/// first place whose id is not less than the node's, where the node is not
/// the one that stands there.
pub proof fn lemma_insert_ascending(nodes: Seq<Entity>, before: Seq<usize>, at: int, position: usize)
    requires
        ascending(nodes, before),
        distinct(node_ids(nodes)),
        position < nodes.len(),
        0 <= at <= before.len(),
        forall|m: int|
            0 <= m < at ==> seq_less(
                nodes[(#[trigger] before[m]) as int].id@,
                nodes[position as int].id@,
            ),
        at < before.len() ==> before[at] != position && !seq_less(
            nodes[before[at] as int].id@,
            nodes[position as int].id@,
        ),
    ensures
        ascending(nodes, before.insert(at, position)),
{
    let after = before.insert(at, position);
    let wanted_id = nodes[position as int].id@;
    assert forall|b: int| at <= b < before.len() implies seq_less(
        wanted_id,
        nodes[(#[trigger] before[b]) as int].id@,
    ) by {
        let there = before[at];
        let there_id = nodes[there as int].id@;
        assert(node_ids(nodes)[there as int] == there_id);
        assert(node_ids(nodes)[position as int] == wanted_id);
        lemma_less_total(wanted_id, there_id);
        if b > at {
            assert(seq_less(there_id, nodes[before[b] as int].id@));
            lemma_less_transitive(wanted_id, there_id, nodes[before[b] as int].id@);
        }
    }
    assert forall|m: int| 0 <= m < after.len() implies (#[trigger] after[m]) < nodes.len() by {
        if m < at {
            assert(after[m] == before[m]);
        } else if m > at {
            assert(after[m] == before[m - 1]);
        }
    }
    assert forall|a: int, b: int| 0 <= a < b < after.len() implies seq_less(
        nodes[(#[trigger] after[a]) as int].id@,
        nodes[(#[trigger] after[b]) as int].id@,
    ) by {
        let old_a = if a < at {
            a
        } else {
            a - 1
        };
        let old_b = if b < at {
            b
        } else {
            b - 1
        };
        if a != at {
            assert(after[a] == before[old_a]);
        }
        if b != at {
            assert(after[b] == before[old_b]);
        }
        if a != at && b != at {
            assert(seq_less(nodes[before[old_a] as int].id@, nodes[before[old_b] as int].id@));
        }
    }
}

/// A list that covers the first `upto` positions covers one more after the
/// next position is inserted.
pub proof fn lemma_insert_covers(before: Seq<usize>, positions: Seq<usize>, upto: int, at: int)
    requires
        covers(before, positions, upto),
        0 <= upto < positions.len(),
        0 <= at <= before.len(),
    ensures
        covers(before.insert(at, positions[upto]), positions, upto + 1),
{
    let after = before.insert(at, positions[upto]);
    assert forall|m: int| 0 <= m < after.len() implies among(
        positions,
        upto + 1,
        #[trigger] after[m],
    ) by {
        if m == at {
            assert(positions[upto] == after[m]);
        } else {
            let old_m = if m < at {
                m
            } else {
                m - 1
            };
            assert(after[m] == before[old_m]);
            assert(among(positions, upto, before[old_m]));
            let q = choose|q: int|
                0 <= q < upto && q < positions.len() && #[trigger] positions[q] == before[old_m];
            assert(positions[q] == after[m]);
        }
    }
    assert forall|q: int| 0 <= q < upto + 1 && q < positions.len() implies after.contains(
        #[trigger] positions[q],
    ) by {
        if q == upto {
            assert(after[at] == positions[q]);
        } else {
            assert(before.contains(positions[q]));
            let m = choose|m: int| 0 <= m < before.len() && before[m] == positions[q];
            let new_m = if m < at {
                m
            } else {
                m + 1
            };
            assert(after[new_m] == positions[q]);
        }
    }
}

/// A list that covers the first `upto` positions and holds the next one
/// covers one more.
pub proof fn lemma_keep_covers(sorted: Seq<usize>, positions: Seq<usize>, upto: int, at: int)
    requires
        covers(sorted, positions, upto),
        0 <= upto < positions.len(),
        0 <= at < sorted.len(),
        sorted[at] == positions[upto],
    ensures
        covers(sorted, positions, upto + 1),
{
    assert forall|m: int| 0 <= m < sorted.len() implies among(
        positions,
        upto + 1,
        #[trigger] sorted[m],
    ) by {
        assert(among(positions, upto, sorted[m]));
        let q = choose|q: int|
            0 <= q < upto && q < positions.len() && #[trigger] positions[q] == sorted[m];
        assert(positions[q] == sorted[m]);
    }
    assert forall|q: int| 0 <= q < upto + 1 && q < positions.len() implies sorted.contains(
        #[trigger] positions[q],
    ) by {
        if q == upto {
            assert(sorted[at] == positions[q]);
        }
    }
}

/// A list of entities read off a list of positions that ascends by id and
/// covers the wanted positions lists the related entities.
pub proof fn lemma_lists_related(
    found: Seq<&Entity>,
    nodes: Seq<Entity>,
    sorted: Seq<usize>,
    positions: Seq<usize>,
    wanted: Seq<int>,
)
    requires
        ascending(nodes, sorted),
        covers(sorted, positions, positions.len() as int),
        positions.len() == wanted.len(),
        forall|q: int|
            0 <= q < positions.len() ==> (#[trigger] positions[q]) == wanted[q] && positions[q]
                < nodes.len(),
        found.len() == sorted.len(),
        forall|m: int| 0 <= m < found.len() ==> *(#[trigger] found[m]) == nodes[sorted[m] as int],
    ensures
        lists_related(found, nodes, wanted),
{
    assert forall|k: int| 0 <= k < found.len() implies is_wanted(
        nodes,
        wanted,
        *(#[trigger] found[k]),
    ) by {
        assert(among(positions, positions.len() as int, sorted[k]));
        let q = choose|q: int|
            0 <= q < positions.len() && q < positions.len() && #[trigger] positions[q]
                == sorted[k];
        assert(wanted[q] == positions[q]);
    }
    assert forall|q: int| 0 <= q < wanted.len() implies lists_position(
        found,
        nodes,
        #[trigger] wanted[q],
    ) by {
        assert(positions[q] == wanted[q]);
        assert(sorted.contains(positions[q]));
        let m = choose|m: int| 0 <= m < sorted.len() && sorted[m] == positions[q];
        assert(*found[m] == nodes[wanted[q]]);
    }
    assert forall|i: int, j: int| 0 <= i < j < found.len() implies seq_less(
        (#[trigger] found[i]).id@,
        (#[trigger] found[j]).id@,
    ) by {
        assert(seq_less(nodes[sorted[i] as int].id@, nodes[sorted[j] as int].id@));
    }
}

impl EntityGraph {
    /// What a chain of field references that starts at the given field leads
    /// to, with `depth` links allowed and the fields in `visited` seen.
    ///
    /// A field that holds anything but a reference to a field ends the chain
    /// and is the result. A reference to a field is followed only where the
    /// graph has the edge for it.
    pub open spec fn resolution(
        self,
        entity_id: EntityId,
        field_id: FieldId,
        depth: nat,
        visited: Seq<(EntityId, FieldId)>,
    ) -> Result<FieldValue, GraphError>
        decreases depth,
    {
        if depth == 0 {
            Err(GraphError::MaxDepthExceeded)
        } else if was_visited(visited, entity_id@, field_id@) {
            Err(GraphError::CyclicReference)
        } else if !self.contains_id(entity_id@) {
            Err(GraphError::EntityNotFound(entity_id))
        } else if !self.entity(entity_id@).fields.has(field_id@) {
            Err(GraphError::FieldNotFound(entity_id, field_id))
        } else {
            let value = self.entity(entity_id@).fields.value(field_id@);
            match value {
                FieldValue::Reference(ReferenceValue::Field(target_entity, target_field)) => {
                    if !self.contains_id(target_entity@) {
                        Err(GraphError::EntityNotFound(target_entity))
                    } else if has_field_link(
                        self.edges(),
                        self.position(entity_id@),
                        self.position(target_entity@),
                        field_id@,
                        target_field@,
                    ) {
                        self.resolution(
                            target_entity,
                            target_field,
                            (depth - 1) as nat,
                            visited.push((entity_id, field_id)),
                        )
                    } else {
                        Err(GraphError::GraphNotBuilt)
                    }
                },
                _ => Ok(value),
            }
        }
    }

    /// Gets an entity by its id.
    pub fn get_entity(&self, id: &EntityId) -> (r: Option<&Entity>)
        ensures
            r is Some <==> self.contains_id(id@),
            r is Some ==> *r->0 == self.entity(id@) && r->0.id@ == id@,
    {
        let at = self.position_of(id);
        proof {
            lemma_position_in(node_ids(self.nodes()), id@);
        }
        if at < self.node_count() {
            Some(self.node_at(at))
        } else {
            None
        }
    }

    /// Resolves a reference to an entity to the entity itself.
    pub fn resolve_entity_reference(&self, field_value: &FieldValue) -> (r: Result<
        &Entity,
        GraphError,
    >)
        ensures
            match *field_value {
                FieldValue::Reference(ReferenceValue::Entity(entity_id)) => {
                    if self.contains_id(entity_id@) {
                        r is Ok && *r->Ok_0 == self.entity(entity_id@)
                    } else {
                        r == Err::<&Entity, GraphError>(GraphError::EntityNotFound(entity_id))
                    }
                },
                _ => r == Err::<&Entity, GraphError>(GraphError::NotAnEntityReference),
            },
    {
        match field_value {
            FieldValue::Reference(ReferenceValue::Entity(entity_id)) => {
                match self.get_entity(entity_id) {
                    Some(entity) => Ok(entity),
                    None => Err(GraphError::EntityNotFound(entity_id.clone())),
                }
            },
            _ => Err(GraphError::NotAnEntityReference),
        }
    }

    /// Resolves a reference to a field to the value at the end of the chain
    /// of field references that starts there.
    pub fn resolve_field_reference(&self, field_value: &FieldValue) -> (r: Result<
        &FieldValue,
        GraphError,
    >)
        ensures
            match *field_value {
                FieldValue::Reference(ReferenceValue::Field(entity_id, field_id)) => {
                    match self.resolution(
                        entity_id,
                        field_id,
                        MAX_REFERENCE_DEPTH as nat,
                        Seq::empty(),
                    ) {
                        Ok(value) => r is Ok && *r->Ok_0 == value,
                        Err(error) => r == Err::<&FieldValue, GraphError>(error),
                    }
                },
                _ => r == Err::<&FieldValue, GraphError>(GraphError::NotAFieldReference),
            },
    {
        match field_value {
            FieldValue::Reference(ReferenceValue::Field(entity_id, field_id)) => {
                let mut visited: Vec<(EntityId, FieldId)> = Vec::new();
                self.search_field_reference(entity_id, field_id, MAX_REFERENCE_DEPTH, &mut visited)
            },
            _ => Err(GraphError::NotAFieldReference),
        }
    }

    /// Gets all entity types that occur in the graph, each once.
    pub fn get_all_entity_types(&self) -> (r: Vec<EntityType>)
        ensures
            Seq::new(r@.len(), |k: int| r@[k]@) == self.types(),
            distinct(Seq::new(r@.len(), |k: int| r@[k]@)),
            forall|i: int|
                0 <= i < self.nodes().len() ==> type_listed(
                    r@,
                    (#[trigger] self.nodes()[i]).entity_type@,
                ),
            forall|k: int| 0 <= k < r@.len() ==> type_occurs(self.nodes(), (#[trigger] r@[k])@),
    {
        self.type_names()
    }

    /// Gets all entities of a type, in the order in which they were added.
    pub fn list_by_type(&self, entity_type: &EntityType) -> (r: Vec<&Entity>)
        ensures
            r@.len() == positions_of_type(self.nodes(), entity_type@).len(),
            forall|j: int|
                0 <= j < r@.len() ==> *(#[trigger] r@[j]) == self.nodes()[positions_of_type(
                    self.nodes(),
                    entity_type@,
                )[j]],
    {
        let positions = self.positions_by_type(entity_type);
        let mut out: Vec<&Entity> = Vec::new();
        let mut j: usize = 0;
        while j < positions.len()
            invariant
                j <= positions.len(),
                out@.len() == j,
                forall|m: int|
                    0 <= m < positions@.len() ==> (#[trigger] positions@[m]) < self.nodes().len(),
                forall|m: int| 0 <= m < j ==> *(#[trigger] out@[m]) == self.nodes()[positions@[m] as int],
            decreases positions.len() - j,
        {
            out.push(self.node_at(positions[j]));
            j += 1;
        }
        out
    }

    /// Gets the entities that an entity is related to: those it refers to
    /// (`Outgoing`), those that refer to it (`Incoming`), or both where no
    /// direction is given. Each entity is listed once, in ascending order of
    /// the ids. `None` for an id that is not in the graph.
    pub fn get_related(&self, id: &EntityId, direction: Option<Direction>) -> (r: Option<
        Vec<&Entity>,
    >)
        ensures
            r is Some <==> self.contains_id(id@),
            r is Some ==> lists_related(
                r->0@,
                self.nodes(),
                related_positions(self.edges(), self.position(id@), direction),
            ),
    {
        let node = self.position_of(id);
        if node >= self.node_count() {
            return None;
        }
        let ghost nodes = self.nodes();
        let ghost wanted = related_positions(self.edges(), node as int, direction);
        let positions: Vec<usize> = match direction {
            Some(direction) => self.neighbors(node, direction),
            None => {
                let mut all = self.neighbors(node, Direction::Outgoing);
                let incoming = self.neighbors(node, Direction::Incoming);
                let ghost outgoing = all@;
                let mut j: usize = 0;
                while j < incoming.len()
                    invariant
                        j <= incoming.len(),
                        all@ == outgoing + incoming@.take(j as int),
                    decreases incoming.len() - j,
                {
                    all.push(incoming[j]);
                    assert(incoming@.take(j + 1) =~= incoming@.take(j as int).push(
                        incoming@[j as int],
                    ));
                    assert(outgoing + incoming@.take(j + 1) =~= (outgoing + incoming@.take(
                        j as int,
                    )).push(incoming@[j as int]));
                    j += 1;
                }
                assert(incoming@.take(incoming@.len() as int) =~= incoming@);
                all
            },
        };
        assert(positions@.len() == wanted.len());
        assert forall|q: int| 0 <= q < positions@.len() implies (#[trigger] positions@[q])
            == wanted[q] && positions@[q] < nodes.len() by {
            if direction is None {
                let outgoing = neighbors_of(self.edges(), node as int, Direction::Outgoing);
                if q >= outgoing.len() {
                    let incoming = neighbors_of(self.edges(), node as int, Direction::Incoming);
                    assert(wanted[q] == incoming[q - outgoing.len()]);
                }
            }
        }
        let mut sorted: Vec<usize> = Vec::new();
        let mut i: usize = 0;
        while i < positions.len()
            invariant
                i <= positions.len(),
                nodes == self.nodes(),
                self.wf(),
                forall|q: int|
                    0 <= q < positions@.len() ==> (#[trigger] positions@[q]) < nodes.len(),
                ascending(nodes, sorted@),
                covers(sorted@, positions@, i as int),
            decreases positions.len() - i,
        {
            let position = positions[i];
            let at = self.insertion_point(&sorted, position);
            let ghost before = sorted@;
            if at < sorted.len() && sorted[at] == position {
                proof {
                    lemma_keep_covers(sorted@, positions@, i as int, at as int);
                }
            } else {
                sorted.insert(at, position);
                proof {
                    lemma_insert_ascending(nodes, before, at as int, position);
                    lemma_insert_covers(before, positions@, i as int, at as int);
                }
            }
            i += 1;
        }
        let mut found: Vec<&Entity> = Vec::new();
        let mut k: usize = 0;
        while k < sorted.len()
            invariant
                k <= sorted.len(),
                nodes == self.nodes(),
                ascending(nodes, sorted@),
                sorted@.len() == sorted.len(),
                found@.len() == k,
                forall|m: int| 0 <= m < k ==> *(#[trigger] found@[m]) == nodes[sorted@[m] as int],
            decreases sorted.len() - k,
        {
            found.push(self.node_at(sorted[k]));
            k += 1;
        }
        proof {
            lemma_lists_related(found@, nodes, sorted@, positions@, wanted);
        }
        Some(found)
    }

    /// The place of a node in a list of positions that ascends by id: the
    /// first place whose entity's id is not less than the node's.
    fn insertion_point(&self, sorted: &Vec<usize>, position: usize) -> (r: usize)
        requires
            position < self.nodes().len(),
            ascending(self.nodes(), sorted@),
        ensures
            r <= sorted@.len(),
            forall|m: int|
                0 <= m < r ==> seq_less(
                    self.nodes()[(#[trigger] sorted@[m]) as int].id@,
                    self.nodes()[position as int].id@,
                ),
            r < sorted@.len() ==> !seq_less(
                self.nodes()[sorted@[r as int] as int].id@,
                self.nodes()[position as int].id@,
            ),
    {
        let wanted = self.node_at(position);
        let mut at: usize = 0;
        while at < sorted.len()
            invariant
                at <= sorted.len(),
                ascending(self.nodes(), sorted@),
                *wanted == self.nodes()[position as int],
                forall|m: int|
                    0 <= m < at ==> seq_less(
                        self.nodes()[(#[trigger] sorted@[m]) as int].id@,
                        self.nodes()[position as int].id@,
                    ),
            decreases sorted.len() - at,
        {
            let there = self.node_at(sorted[at]);
            if !str_less(there.id.as_str(), wanted.id.as_str()) {
                return at;
            }
            at += 1;
        }
        at
    }

    /// Searches for the value that a reference to a field leads to.
    fn search_field_reference(
        &self,
        entity_id: &EntityId,
        field_id: &FieldId,
        max_depth: usize,
        visited: &mut Vec<(EntityId, FieldId)>,
    ) -> (r: Result<&FieldValue, GraphError>)
        ensures
            match self.resolution(*entity_id, *field_id, max_depth as nat, old(visited)@) {
                Ok(value) => r is Ok && *r->Ok_0 == value,
                Err(error) => r == Err::<&FieldValue, GraphError>(error),
            },
        decreases max_depth,
    {
        if max_depth == 0 {
            return Err(GraphError::MaxDepthExceeded);
        }
        if seen(visited, entity_id, field_id) {
            return Err(GraphError::CyclicReference);
        }
        let ghost before = visited@;
        visited.push((entity_id.clone(), field_id.clone()));
        let source_node = self.position_of(entity_id);
        proof {
            lemma_position_in(node_ids(self.nodes()), entity_id@);
        }
        if source_node >= self.node_count() {
            return Err(GraphError::EntityNotFound(entity_id.clone()));
        }
        let entity = self.node_at(source_node);
        let field = match entity.get_field(field_id) {
            Some(field) => field,
            None => {
                return Err(GraphError::FieldNotFound(entity_id.clone(), field_id.clone()));
            },
        };
        match field {
            FieldValue::Reference(ReferenceValue::Field(target_entity_id, target_field_id)) => {
                let target_node = self.position_of(target_entity_id);
                if target_node >= self.node_count() {
                    return Err(GraphError::EntityNotFound(target_entity_id.clone()));
                }
                let links = self.links(source_node, target_node);
                let ghost between = links_between(
                    self.edges(),
                    source_node as int,
                    target_node as int,
                );
                let mut edge_found = false;
                let mut k: usize = 0;
                while k < links.len() && !edge_found
                    invariant
                        k <= links.len(),
                        links@.len() == between.len(),
                        forall|i: int| 0 <= i < links@.len() ==> *(#[trigger] links@[i]) == between[i],
                        edge_found ==> some_field_link(between, field_id@, target_field_id@),
                        !edge_found ==> forall|i: int|
                            0 <= i < k ==> !is_field_link(
                                #[trigger] between[i],
                                field_id@,
                                target_field_id@,
                            ),
                    decreases links.len() - k + (if edge_found { 0int } else { 1int }),
                {
                    match links[k] {
                        Relationship::FieldReference { from_field, to_field } => {
                            if from_field.same_as(field_id) && to_field.same_as(target_field_id) {
                                edge_found = true;
                                assert(is_field_link(between[k as int], field_id@, target_field_id@));
                            }
                        },
                        _ => {},
                    }
                    if !edge_found {
                        k += 1;
                    }
                }
                proof {
                    lemma_links_between(
                        self.edges(),
                        source_node as int,
                        target_node as int,
                        field_id@,
                        target_field_id@,
                    );
                }
                if edge_found {
                    self.search_field_reference(
                        target_entity_id,
                        target_field_id,
                        max_depth - 1,
                        visited,
                    )
                } else {
                    Err(GraphError::GraphNotBuilt)
                }
            },
            _ => Ok(field),
        }
    }
}

/// Whether a pair of entity id and field id was visited.
fn seen(visited: &Vec<(EntityId, FieldId)>, entity_id: &EntityId, field_id: &FieldId) -> (r: bool)
    ensures
        r == was_visited(visited@, entity_id@, field_id@),
{
    let mut i: usize = 0;
    while i < visited.len()
        invariant
            i <= visited.len(),
            forall|j: int|
                0 <= j < i ==> !((#[trigger] visited@[j]).0@ == entity_id@ && visited@[j].1@
                    == field_id@),
        decreases visited.len() - i,
    {
        if visited[i].0.same_as(entity_id) && visited[i].1.same_as(field_id) {
            return true;
        }
        i += 1;
    }
    false
}

impl FieldValue {
    /// Resolves this value, a reference to an entity, in a graph.
    pub fn resolve_entity_reference<'a>(&'a self, graph: &'a EntityGraph) -> (r: Result<
        &'a Entity,
        GraphError,
    >)
        ensures
            match *self {
                FieldValue::Reference(ReferenceValue::Entity(entity_id)) => {
                    if graph.contains_id(entity_id@) {
                        r is Ok && *r->Ok_0 == graph.entity(entity_id@)
                    } else {
                        r == Err::<&Entity, GraphError>(GraphError::EntityNotFound(entity_id))
                    }
                },
                _ => r == Err::<&Entity, GraphError>(GraphError::NotAnEntityReference),
            },
    {
        graph.resolve_entity_reference(self)
    }

    /// Resolves this value, a reference to a field, in a graph.
    pub fn resolve_field_reference<'a>(&'a self, graph: &'a EntityGraph) -> (r: Result<
        &'a FieldValue,
        GraphError,
    >)
        ensures
            match *self {
                FieldValue::Reference(ReferenceValue::Field(entity_id, field_id)) => {
                    match graph.resolution(
                        entity_id,
                        field_id,
                        MAX_REFERENCE_DEPTH as nat,
                        Seq::empty(),
                    ) {
                        Ok(value) => r is Ok && *r->Ok_0 == value,
                        Err(error) => r == Err::<&FieldValue, GraphError>(error),
                    }
                },
                _ => r == Err::<&FieldValue, GraphError>(GraphError::NotAFieldReference),
            },
    {
        graph.resolve_field_reference(self)
    }
}

} // verus!
