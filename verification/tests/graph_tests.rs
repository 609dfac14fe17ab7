use firm::graph::{EntityGraph, GraphError};
use firm::{Entity, EntityId, EntityType, FieldId, FieldValue, ReferenceValue};

fn create_organization(id: &str, name: &str) -> Entity {
    Entity::new(EntityId::new(id), EntityType::new("organization"))
        .with_field(FieldId::new("name"), name.into())
}

fn create_person(id: &str, name: &str) -> Entity {
    Entity::new(EntityId::new(id), EntityType::new("person"))
        .with_field(FieldId::new("name"), name.into())
}

fn create_person_with_employer(id: &str, name: &str, employer_id: &str) -> Entity {
    Entity::new(EntityId::new(id), EntityType::new("person"))
        .with_field(FieldId::new("name"), name.into())
        .with_field(
            FieldId::new("employer"),
            FieldValue::Reference(ReferenceValue::Entity(EntityId::new(employer_id))),
        )
}

fn setup_basic_graph() -> (EntityGraph, Entity, Entity) {
    let graph = EntityGraph::new();
    let organization = create_organization("megacorp", "MegaCorp Inc.");
    let person = create_person_with_employer("john_doe", "John Doe", "megacorp");
    (graph, organization, person)
}

fn assert_basic_graph_structure(graph: &EntityGraph) {
    assert!(graph.contains_entity(&EntityId::new("megacorp")));
    assert!(graph.contains_entity(&EntityId::new("john_doe")));
    assert_eq!(graph.edge_count(), 1);
}

#[test]
fn test_build_graph_iteratively() {
    let (mut graph, organization, person) = setup_basic_graph();

    graph.add_entity(organization).unwrap();
    graph.add_entity(person).unwrap();
    graph.build();

    assert_basic_graph_structure(&graph);
}

#[test]
fn test_build_graph_bulk() {
    let (mut graph, organization, person) = setup_basic_graph();

    graph.add_entities(vec![organization, person]).unwrap();
    graph.build();

    assert_basic_graph_structure(&graph);
}

#[test]
fn test_add_duplicate_entity_returns_error() {
    let mut graph = EntityGraph::new();
    let entity1 = create_person("duplicate_id", "First Entity");

    assert!(graph.add_entity(entity1).is_ok());

    let entity2 = create_organization("duplicate_id", "Second Entity");
    let result = graph.add_entity(entity2);

    assert!(result.is_err());
    if let Err(GraphError::EntityAlreadyExists(entity_id)) = result {
        assert_eq!(entity_id, EntityId::new("duplicate_id"));
    }

    assert_eq!(graph.node_count(), 1);
}

#[test]
fn test_add_entities_stops_on_duplicate() {
    let mut graph = EntityGraph::new();
    graph.add_entity(create_person("first", "First")).unwrap();

    let entities = vec![
        create_person("second", "Second"),
        create_organization("first", "Duplicate"),
        create_person("third", "Third"),
    ];

    assert!(graph.add_entities(entities).is_err());
    assert_eq!(graph.node_count(), 2);
    assert!(graph.contains_entity(&EntityId::new("first")));
    assert!(graph.contains_entity(&EntityId::new("second")));
    assert!(!graph.contains_entity(&EntityId::new("third")));
}

#[test]
fn test_list_field_references() {
    let mut graph = EntityGraph::new();

    let person1 = create_person("john", "John Doe")
        .with_field(FieldId::new("email"), "john@example.com".into());
    let person2 = create_person("jane", "Jane Smith")
        .with_field(FieldId::new("email"), "jane@example.com".into());

    let email_campaign = create_organization("campaign1", "Newsletter Campaign").with_field(
        FieldId::new("recipient_emails"),
        FieldValue::List(vec![
            FieldValue::Reference(ReferenceValue::Field(
                EntityId::new("john"),
                FieldId::new("email"),
            )),
            FieldValue::Reference(ReferenceValue::Field(
                EntityId::new("jane"),
                FieldId::new("email"),
            )),
        ]),
    );

    graph
        .add_entities(vec![person1, person2, email_campaign])
        .unwrap();
    graph.build();

    assert_eq!(graph.edge_count(), 2);
    assert_eq!(graph.node_count(), 3);
}

#[test]
fn test_rejected_duplicate_leaves_graph_unchanged() {
    let (mut graph, organization, person) = setup_basic_graph();
    graph.add_entities(vec![organization, person]).unwrap();
    graph.build();

    let types_before = graph.get_all_entity_types();
    let result = graph.add_entity(create_person("megacorp", "Impostor"));

    assert_eq!(
        result,
        Err(GraphError::EntityAlreadyExists(EntityId::new("megacorp")))
    );
    assert_eq!(graph.node_count(), 2);
    assert_eq!(graph.edge_count(), 1);
    assert_eq!(graph.get_all_entity_types(), types_before);
    assert_eq!(graph.list_by_type(&EntityType::new("person")).len(), 1);
    assert_eq!(
        graph.get_entity(&EntityId::new("megacorp")).unwrap().entity_type,
        EntityType::new("organization")
    );
}

#[test]
fn test_build_twice_gives_the_same_edges() {
    let (mut graph, organization, person) = setup_basic_graph();
    graph.add_entities(vec![organization, person]).unwrap();
    graph.build();
    let once = graph.edge_count();
    let related_once: Vec<EntityId> = graph
        .get_related(&EntityId::new("megacorp"), None)
        .unwrap()
        .iter()
        .map(|e| e.id.clone())
        .collect();
    graph.build();
    assert_eq!(graph.edge_count(), once);
    let related_twice: Vec<EntityId> = graph
        .get_related(&EntityId::new("megacorp"), None)
        .unwrap()
        .iter()
        .map(|e| e.id.clone())
        .collect();
    assert_eq!(related_once, related_twice);
}

#[test]
fn test_dangling_references_are_dropped() {
    let mut graph = EntityGraph::new();
    graph
        .add_entity(create_person_with_employer("john_doe", "John Doe", "nowhere"))
        .unwrap();
    graph.build();
    assert_eq!(graph.edge_count(), 0);
}

#[test]
fn test_nested_lists_are_searched_for_references() {
    let mut graph = EntityGraph::new();
    let target = create_person("target", "Target");
    let source = create_organization("source", "Source").with_field(
        FieldId::new("refs"),
        FieldValue::List(vec![FieldValue::List(vec![
            FieldValue::Reference(ReferenceValue::Entity(EntityId::new("target"))),
            FieldValue::Reference(ReferenceValue::Entity(EntityId::new("missing"))),
            FieldValue::Reference(ReferenceValue::Entity(EntityId::new("source"))),
        ])]),
    );
    graph.add_entities(vec![target, source]).unwrap();
    assert_eq!(graph.edge_count(), 0);
    graph.build();
    assert_eq!(graph.edge_count(), 2);
}

#[test]
fn test_clear_empties_the_graph() {
    let (mut graph, organization, person) = setup_basic_graph();
    graph.add_entities(vec![organization, person]).unwrap();
    graph.build();
    graph.clear();
    assert_eq!(graph.node_count(), 0);
    assert_eq!(graph.edge_count(), 0);
    assert!(graph.get_all_entity_types().is_empty());
    assert!(graph.get_entity(&EntityId::new("megacorp")).is_none());
}
