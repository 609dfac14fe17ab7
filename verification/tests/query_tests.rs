use firm::graph::{Direction, EntityGraph, GraphError};
use firm::{Entity, EntityId, EntityType, FieldId, FieldValue, ReferenceValue};

#[test]
fn test_get_entity_by_id() {
    let mut graph = EntityGraph::new();

    let organization = Entity::new(EntityId::new("megacorp"), EntityType::new("organization"))
        .with_field(FieldId::new("name"), "MegaCorp Inc.".into());

    let person = Entity::new(EntityId::new("john_doe"), EntityType::new("person"))
        .with_field(FieldId::new("name"), "John Doe".into());

    graph
        .add_entities(vec![organization.clone(), person.clone()])
        .unwrap();

    // Test existing entities
    let retrieved_organization = graph.get_entity(&EntityId::new("megacorp"));
    assert!(retrieved_organization.is_some());
    assert_eq!(
        retrieved_organization.unwrap().id,
        EntityId::new("megacorp")
    );

    let retrieved_person = graph.get_entity(&EntityId::new("john_doe"));
    assert!(retrieved_person.is_some());
    assert_eq!(retrieved_person.unwrap().id, EntityId::new("john_doe"));

    // Test non-existing entity
    let non_existing = graph.get_entity(&EntityId::new("non_existing"));
    assert!(non_existing.is_none());
}

#[test]
fn test_resolve_entity_reference_from_graph() {
    let mut graph = EntityGraph::new();

    let organization = Entity::new(EntityId::new("megacorp"), EntityType::new("organization"))
        .with_field(FieldId::new("name"), "MegaCorp Inc.".into());

    graph.add_entity(organization).unwrap();

    // Test valid entity reference
    let entity_ref = FieldValue::Reference(ReferenceValue::Entity(EntityId::new("megacorp")));
    let resolved = graph.resolve_entity_reference(&entity_ref);
    assert!(resolved.is_ok());
    assert_eq!(resolved.unwrap().id, EntityId::new("megacorp"));

    // Test invalid entity reference
    let invalid_ref =
        FieldValue::Reference(ReferenceValue::Entity(EntityId::new("non_existing")));
    let resolved_invalid = graph.resolve_entity_reference(&invalid_ref);
    assert!(resolved_invalid.is_err());
    assert_eq!(
        resolved_invalid.unwrap_err(),
        GraphError::EntityNotFound(EntityId::new("non_existing"))
    );

    // Test non-entity-reference field value
    let string_field = FieldValue::String("not a reference".to_string());
    let resolved_string = graph.resolve_entity_reference(&string_field);
    assert!(resolved_string.is_err());
    assert_eq!(
        resolved_string.unwrap_err(),
        GraphError::NotAnEntityReference
    );

    let bool_field = FieldValue::Boolean(true);
    let resolved_bool = graph.resolve_entity_reference(&bool_field);
    assert!(resolved_bool.is_err());
    assert_eq!(resolved_bool.unwrap_err(), GraphError::NotAnEntityReference);
}

#[test]
fn test_resolve_field_reference_simple() {
    let mut graph = EntityGraph::new();

    let entity = Entity::new(EntityId::new("test_entity"), EntityType::new("person"))
        .with_field(FieldId::new("name"), "John Doe".into())
        .with_field(
            FieldId::new("name_ref"),
            FieldValue::Reference(ReferenceValue::Field(
                EntityId::new("test_entity"),
                FieldId::new("name"),
            )),
        );

    graph.add_entity(entity).unwrap();
    graph.build(); // Build the graph edges

    // Test resolving field reference
    let field_ref = FieldValue::Reference(ReferenceValue::Field(
        EntityId::new("test_entity"),
        FieldId::new("name_ref"),
    ));
    let resolved = graph.resolve_field_reference(&field_ref);
    assert!(resolved.is_ok());
    assert_eq!(
        resolved.unwrap(),
        &FieldValue::String("John Doe".to_string())
    );
}

#[test]
fn test_resolve_field_reference_chain() {
    let mut graph = EntityGraph::new();

    let entity = Entity::new(EntityId::new("test_entity"), EntityType::new("person"))
        .with_field(FieldId::new("name"), "John Doe".into())
        .with_field(
            FieldId::new("name_ref1"),
            FieldValue::Reference(ReferenceValue::Field(
                EntityId::new("test_entity"),
                FieldId::new("name"),
            )),
        )
        .with_field(
            FieldId::new("name_ref2"),
            FieldValue::Reference(ReferenceValue::Field(
                EntityId::new("test_entity"),
                FieldId::new("name_ref1"),
            )),
        );

    graph.add_entity(entity).unwrap();
    graph.build(); // Build the graph edges

    // Test resolving chained field reference
    let field_ref = FieldValue::Reference(ReferenceValue::Field(
        EntityId::new("test_entity"),
        FieldId::new("name_ref2"),
    ));
    let resolved = graph.resolve_field_reference(&field_ref);
    assert!(resolved.is_ok());
    assert_eq!(
        resolved.unwrap(),
        &FieldValue::String("John Doe".to_string())
    );
}

#[test]
fn test_resolve_field_reference_cycle_detection() {
    let mut graph = EntityGraph::new();

    let entity = Entity::new(EntityId::new("test_entity"), EntityType::new("person"))
        .with_field(
            FieldId::new("ref1"),
            FieldValue::Reference(ReferenceValue::Field(
                EntityId::new("test_entity"),
                FieldId::new("ref2"),
            )),
        )
        .with_field(
            FieldId::new("ref2"),
            FieldValue::Reference(ReferenceValue::Field(
                EntityId::new("test_entity"),
                FieldId::new("ref1"),
            )),
        );

    graph.add_entity(entity).unwrap();
    graph.build(); // Build the graph edges

    // Test cycle detection
    let field_ref = FieldValue::Reference(ReferenceValue::Field(
        EntityId::new("test_entity"),
        FieldId::new("ref1"),
    ));
    let resolved = graph.resolve_field_reference(&field_ref);
    assert!(resolved.is_err());
    assert_eq!(resolved.unwrap_err(), GraphError::CyclicReference);
}

#[test]
fn test_resolve_field_reference_max_depth() {
    let mut graph = EntityGraph::new();

    // Create a chain of 15 field references (exceeds default limit of 10)
    let mut entity = Entity::new(EntityId::new("test_entity"), EntityType::new("person"))
        .with_field(FieldId::new("final"), "Final Value".into());

    for i in 0..15 {
        let field_name = format!("ref{}", i);
        let next_field = if i == 14 {
            FieldId::new("final")
        } else {
            FieldId::new(&format!("ref{}", i + 1))
        };

        entity = entity.with_field(
            FieldId::new(&field_name),
            FieldValue::Reference(ReferenceValue::Field(
                EntityId::new("test_entity"),
                next_field,
            )),
        );
    }

    graph.add_entity(entity).unwrap();
    graph.build(); // Build the graph edges

    // Test max depth exceeded
    let field_ref = FieldValue::Reference(ReferenceValue::Field(
        EntityId::new("test_entity"),
        FieldId::new("ref0"),
    ));
    let resolved = graph.resolve_field_reference(&field_ref);
    assert!(resolved.is_err());
    assert_eq!(resolved.unwrap_err(), GraphError::MaxDepthExceeded);
}

#[test]
fn test_resolve_field_reference_entity_not_found() {
    let graph = EntityGraph::new();

    let field_ref = FieldValue::Reference(ReferenceValue::Field(
        EntityId::new("missing_entity"),
        FieldId::new("field"),
    ));
    let resolved = graph.resolve_field_reference(&field_ref);
    assert!(resolved.is_err());
    assert_eq!(
        resolved.unwrap_err(),
        GraphError::EntityNotFound(EntityId::new("missing_entity"))
    );
}

#[test]
fn test_resolve_field_reference_field_not_found() {
    let mut graph = EntityGraph::new();

    let entity = Entity::new(EntityId::new("test_entity"), EntityType::new("person"))
        .with_field(FieldId::new("existing_field"), "value".into());

    graph.add_entity(entity).unwrap();

    let field_ref = FieldValue::Reference(ReferenceValue::Field(
        EntityId::new("test_entity"),
        FieldId::new("missing_field"),
    ));
    let resolved = graph.resolve_field_reference(&field_ref);
    assert!(resolved.is_err());
    assert_eq!(
        resolved.unwrap_err(),
        GraphError::FieldNotFound(EntityId::new("test_entity"), FieldId::new("missing_field"))
    );
}

#[test]
fn test_resolve_field_reference_not_a_reference() {
    let graph = EntityGraph::new();

    // Test with non-field-reference values
    let string_field = FieldValue::String("not a reference".to_string());
    let resolved = graph.resolve_field_reference(&string_field);
    assert!(resolved.is_err());
    assert_eq!(resolved.unwrap_err(), GraphError::NotAFieldReference);

    let bool_field = FieldValue::Boolean(true);
    let resolved = graph.resolve_field_reference(&bool_field);
    assert!(resolved.is_err());
    assert_eq!(resolved.unwrap_err(), GraphError::NotAFieldReference);

    let entity_ref = FieldValue::Reference(ReferenceValue::Entity(EntityId::new("entity")));
    let resolved = graph.resolve_field_reference(&entity_ref);
    assert!(resolved.is_err());
    assert_eq!(resolved.unwrap_err(), GraphError::NotAFieldReference);
}

#[test]
fn test_resolve_field_reference_graph_not_built() {
    let mut graph = EntityGraph::new();

    let entity1 = Entity::new(EntityId::new("entity1"), EntityType::new("person"))
        .with_field(FieldId::new("name"), "Entity 1".into())
        .with_field(
            FieldId::new("ref_to_2"),
            FieldValue::Reference(ReferenceValue::Field(
                EntityId::new("entity2"),
                FieldId::new("value"),
            )),
        );

    let entity2 = Entity::new(EntityId::new("entity2"), EntityType::new("person"))
        .with_field(FieldId::new("value"), "Entity 2 Value".into());

    graph.add_entities(vec![entity1, entity2]).unwrap();
    // Intentionally NOT calling graph.build()

    let field_ref = FieldValue::Reference(ReferenceValue::Field(
        EntityId::new("entity1"),
        FieldId::new("ref_to_2"),
    ));
    let resolved = graph.resolve_field_reference(&field_ref);
    assert!(resolved.is_err());
    assert_eq!(resolved.unwrap_err(), GraphError::GraphNotBuilt);
}

#[test]
fn test_field_value_resolve_entity_reference_convenience() {
    let mut graph = EntityGraph::new();

    let organization = Entity::new(EntityId::new("megacorp"), EntityType::new("organization"))
        .with_field(FieldId::new("name"), "MegaCorp Inc.".into());

    graph.add_entity(organization).unwrap();

    // Test convenience method on EntityReference
    let entity_ref = FieldValue::Reference(ReferenceValue::Entity(EntityId::new("megacorp")));
    let resolved = entity_ref.resolve_entity_reference(&graph);
    assert!(resolved.is_ok());
    assert_eq!(resolved.unwrap().id, EntityId::new("megacorp"));

    // Test convenience method on non-EntityReference
    let string_field = FieldValue::String("not a reference".to_string());
    let resolved = string_field.resolve_entity_reference(&graph);
    assert!(resolved.is_err());
    assert_eq!(resolved.unwrap_err(), GraphError::NotAnEntityReference);
}

#[test]
fn test_field_value_resolve_field_reference_convenience() {
    let mut graph = EntityGraph::new();

    let entity = Entity::new(EntityId::new("test_entity"), EntityType::new("person"))
        .with_field(FieldId::new("name"), "John Doe".into())
        .with_field(
            FieldId::new("name_ref"),
            FieldValue::Reference(ReferenceValue::Field(
                EntityId::new("test_entity"),
                FieldId::new("name"),
            )),
        );

    graph.add_entity(entity).unwrap();
    graph.build();

    // Test convenience method on FieldReference
    let field_ref = FieldValue::Reference(ReferenceValue::Field(
        EntityId::new("test_entity"),
        FieldId::new("name_ref"),
    ));
    let resolved = field_ref.resolve_field_reference(&graph);
    assert!(resolved.is_ok());
    assert_eq!(
        resolved.unwrap(),
        &FieldValue::String("John Doe".to_string())
    );

    // Test convenience method on non-FieldReference
    let string_field = FieldValue::String("not a reference".to_string());
    let resolved = string_field.resolve_field_reference(&graph);
    assert!(resolved.is_err());
}

#[test]
fn test_list_by_type() {
    let mut graph = EntityGraph::new();

    // Create entities of different types
    let organization1 = Entity::new(EntityId::new("megacorp"), EntityType::new("organization"))
        .with_field(FieldId::new("name"), "MegaCorp Inc.".into());

    let organization2 = Entity::new(EntityId::new("techcorp"), EntityType::new("organization"))
        .with_field(FieldId::new("name"), "TechCorp Ltd.".into());

    let person1 = Entity::new(EntityId::new("john_doe"), EntityType::new("person"))
        .with_field(FieldId::new("name"), "John Doe".into());

    let person2 = Entity::new(EntityId::new("jane_smith"), EntityType::new("person"))
        .with_field(FieldId::new("name"), "Jane Smith".into());

    graph
        .add_entities(vec![
            organization1.clone(),
            organization2.clone(),
            person1.clone(),
            person2.clone(),
        ])
        .unwrap();

    // Test listing organizations
    let organizations = graph.list_by_type(&EntityType::new("organization"));
    assert_eq!(organizations.len(), 2);
    let org_ids: Vec<&EntityId> = organizations.iter().map(|e| &e.id).collect();
    assert!(org_ids.contains(&&EntityId::new("megacorp")));
    assert!(org_ids.contains(&&EntityId::new("techcorp")));

    // Test listing persons
    let persons = graph.list_by_type(&EntityType::new("person"));
    assert_eq!(persons.len(), 2);
    let person_ids: Vec<&EntityId> = persons.iter().map(|e| &e.id).collect();
    assert!(person_ids.contains(&&EntityId::new("john_doe")));
    assert!(person_ids.contains(&&EntityId::new("jane_smith")));

    // Test non-existing type
    let projects = graph.list_by_type(&EntityType::new("missing_project"));
    assert_eq!(projects.len(), 0);
}

#[test]
fn test_get_related() {
    let mut graph = EntityGraph::new();

    // Create entities with relationships
    let organization = Entity::new(EntityId::new("megacorp"), EntityType::new("organization"))
        .with_field(FieldId::new("name"), "MegaCorp Inc.".into());

    let person1 = Entity::new(EntityId::new("john_doe"), EntityType::new("person"))
        .with_field(FieldId::new("name"), "John Doe".into())
        .with_field(
            FieldId::new("employer"),
            FieldValue::Reference(ReferenceValue::Entity(EntityId::new("megacorp"))),
        );

    let person2 = Entity::new(EntityId::new("jane_smith"), EntityType::new("person"))
        .with_field(FieldId::new("name"), "Jane Smith".into())
        .with_field(
            FieldId::new("employer"),
            FieldValue::Reference(ReferenceValue::Entity(EntityId::new("megacorp"))),
        );

    graph
        .add_entities(vec![organization.clone(), person1.clone(), person2.clone()])
        .unwrap();
    graph.build();

    // Test getting all related entities (both directions)
    let related_to_megacorp = graph.get_related(&EntityId::new("megacorp"), None);
    assert!(related_to_megacorp.is_some());
    let related = related_to_megacorp.unwrap();
    assert_eq!(related.len(), 2);

    let related_ids: Vec<&EntityId> = related.iter().map(|e| &e.id).collect();
    assert!(related_ids.contains(&&EntityId::new("john_doe")));
    assert!(related_ids.contains(&&EntityId::new("jane_smith")));

    // Test getting related entities in specific direction
    let incoming = graph.get_related(&EntityId::new("megacorp"), Some(Direction::Incoming));
    assert!(incoming.is_some());
    let incoming_entities = incoming.unwrap();
    assert_eq!(incoming_entities.len(), 2);

    let outgoing = graph.get_related(&EntityId::new("john_doe"), Some(Direction::Outgoing));
    assert!(outgoing.is_some());
    let outgoing_entities = outgoing.unwrap();
    assert_eq!(outgoing_entities.len(), 1);
    assert_eq!(outgoing_entities[0].id, EntityId::new("megacorp"));

    // Test non-existing entity
    let non_existing = graph.get_related(&EntityId::new("non_existing"), None);
    assert!(non_existing.is_none());
}

#[test]
fn test_related_entities_by_direction() {
    let mut graph = EntityGraph::new();
    let organization = Entity::new(EntityId::new("organization.megacorp"), EntityType::new("organization"));
    let person = Entity::new(EntityId::new("person.john_doe"), EntityType::new("person")).with_field(
        FieldId::new("employer"),
        FieldValue::Reference(ReferenceValue::Entity(EntityId::new("organization.megacorp"))),
    );
    graph.add_entities(vec![organization, person]).unwrap();
    graph.build();

    let megacorp = EntityId::new("organization.megacorp");
    let john = EntityId::new("person.john_doe");
    let incoming = graph.get_related(&megacorp, Some(Direction::Incoming)).unwrap();
    assert_eq!(incoming.len(), 1);
    assert_eq!(incoming[0].id, john);
    let outgoing = graph.get_related(&john, Some(Direction::Outgoing)).unwrap();
    assert_eq!(outgoing.len(), 1);
    assert_eq!(outgoing[0].id, megacorp);
    assert_eq!(graph.get_related(&megacorp, None).unwrap().len(), 1);
    assert!(graph.get_related(&megacorp, Some(Direction::Outgoing)).unwrap().is_empty());
}

#[test]
fn test_related_entities_are_sorted_and_unique() {
    let mut graph = EntityGraph::new();
    let hub = Entity::new(EntityId::new("hub"), EntityType::new("organization"))
        .with_field(
            FieldId::new("first"),
            FieldValue::Reference(ReferenceValue::Entity(EntityId::new("zeta"))),
        )
        .with_field(
            FieldId::new("second"),
            FieldValue::Reference(ReferenceValue::Entity(EntityId::new("alpha"))),
        )
        .with_field(
            FieldId::new("third"),
            FieldValue::Reference(ReferenceValue::Entity(EntityId::new("zeta"))),
        )
        .with_field(
            FieldId::new("own"),
            FieldValue::Reference(ReferenceValue::Entity(EntityId::new("hub"))),
        );
    let zeta = Entity::new(EntityId::new("zeta"), EntityType::new("person")).with_field(
        FieldId::new("back"),
        FieldValue::Reference(ReferenceValue::Entity(EntityId::new("hub"))),
    );
    let alpha = Entity::new(EntityId::new("alpha"), EntityType::new("person"));
    let mid = Entity::new(EntityId::new("mid"), EntityType::new("person")).with_field(
        FieldId::new("to_hub"),
        FieldValue::Reference(ReferenceValue::Entity(EntityId::new("hub"))),
    );
    graph.add_entities(vec![hub, zeta, alpha, mid]).unwrap();
    graph.build();

    let ids = |direction| -> Vec<String> {
        graph
            .get_related(&EntityId::new("hub"), direction)
            .unwrap()
            .iter()
            .map(|e| e.id.to_string())
            .collect()
    };
    assert_eq!(ids(Some(Direction::Outgoing)), vec!["alpha", "hub", "zeta"]);
    assert_eq!(ids(Some(Direction::Incoming)), vec!["hub", "mid", "zeta"]);
    assert_eq!(ids(None), vec!["alpha", "hub", "mid", "zeta"]);
}

#[test]
fn test_resolve_field_reference_across_entities() {
    let mut graph = EntityGraph::new();
    let a = Entity::new(EntityId::new("a"), EntityType::new("person")).with_field(
        FieldId::new("value"),
        FieldValue::Reference(ReferenceValue::Field(EntityId::new("b"), FieldId::new("value"))),
    );
    let b = Entity::new(EntityId::new("b"), EntityType::new("person")).with_field(
        FieldId::new("value"),
        FieldValue::Reference(ReferenceValue::Field(EntityId::new("c"), FieldId::new("value"))),
    );
    let c = Entity::new(EntityId::new("c"), EntityType::new("person"))
        .with_field(FieldId::new("value"), "literal".into());
    graph.add_entities(vec![a, b, c]).unwrap();

    let start = FieldValue::Reference(ReferenceValue::Field(
        EntityId::new("a"),
        FieldId::new("value"),
    ));
    assert_eq!(
        graph.resolve_field_reference(&start),
        Err(GraphError::GraphNotBuilt)
    );
    graph.build();
    assert_eq!(
        graph.resolve_field_reference(&start),
        Ok(&FieldValue::String("literal".to_string()))
    );
}

#[test]
fn test_resolve_field_reference_to_itself() {
    let mut graph = EntityGraph::new();
    let entity = Entity::new(EntityId::new("loop"), EntityType::new("person")).with_field(
        FieldId::new("me"),
        FieldValue::Reference(ReferenceValue::Field(EntityId::new("loop"), FieldId::new("me"))),
    );
    graph.add_entity(entity).unwrap();
    graph.build();
    let start = FieldValue::Reference(ReferenceValue::Field(
        EntityId::new("loop"),
        FieldId::new("me"),
    ));
    assert_eq!(
        graph.resolve_field_reference(&start),
        Err(GraphError::CyclicReference)
    );
}

#[test]
fn test_resolve_field_reference_depth_budget() {
    let chain = |links: usize| -> Result<FieldValue, GraphError> {
        let mut graph = EntityGraph::new();
        let mut entity = Entity::new(EntityId::new("e"), EntityType::new("person"))
            .with_field(FieldId::new("end"), "Final Value".into());
        for i in 0..links {
            let next = if i + 1 == links {
                FieldId::new("end")
            } else {
                FieldId::new(&format!("r{}", i + 1))
            };
            entity = entity.with_field(
                FieldId::new(&format!("r{}", i)),
                FieldValue::Reference(ReferenceValue::Field(EntityId::new("e"), next)),
            );
        }
        graph.add_entity(entity).unwrap();
        graph.build();
        let start = FieldValue::Reference(ReferenceValue::Field(
            EntityId::new("e"),
            FieldId::new("r0"),
        ));
        graph.resolve_field_reference(&start).map(|v| v.clone())
    };
    assert_eq!(chain(9), Ok(FieldValue::String("Final Value".to_string())));
    assert_eq!(chain(10), Err(GraphError::MaxDepthExceeded));
    assert_eq!(chain(15), Err(GraphError::MaxDepthExceeded));
}

#[test]
fn test_resolve_field_reference_target_entity_missing() {
    let mut graph = EntityGraph::new();
    let entity = Entity::new(EntityId::new("a"), EntityType::new("person")).with_field(
        FieldId::new("value"),
        FieldValue::Reference(ReferenceValue::Field(EntityId::new("gone"), FieldId::new("x"))),
    );
    graph.add_entity(entity).unwrap();
    graph.build();
    let start = FieldValue::Reference(ReferenceValue::Field(
        EntityId::new("a"),
        FieldId::new("value"),
    ));
    assert_eq!(
        graph.resolve_field_reference(&start),
        Err(GraphError::EntityNotFound(EntityId::new("gone")))
    );
}

#[test]
fn test_list_by_type_keeps_insertion_order() {
    let mut graph = EntityGraph::new();
    for id in ["c", "a", "b"] {
        graph
            .add_entity(Entity::new(EntityId::new(id), EntityType::new("person")))
            .unwrap();
    }
    graph
        .add_entity(Entity::new(EntityId::new("o"), EntityType::new("organization")))
        .unwrap();
    let ids: Vec<String> = graph
        .list_by_type(&EntityType::new("person"))
        .iter()
        .map(|e| e.id.to_string())
        .collect();
    assert_eq!(ids, vec!["c", "a", "b"]);
    assert_eq!(
        graph.get_all_entity_types(),
        vec![EntityType::new("person"), EntityType::new("organization")]
    );
}
