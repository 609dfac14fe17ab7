use firm::{Entity, EntityId, EntityType, FieldId, FieldValue};

#[test]
fn test_entity_create_new() {
    let person = Entity::new(EntityId::new("john_doe"), EntityType::new("person"));

    assert_eq!(person.id, EntityId::new("john_doe"));
    assert_eq!(person.entity_type, EntityType::new("person"));
    assert!(person.fields.is_empty());
}

#[test]
fn test_entity_with_fields() {
    let person = Entity::new(EntityId::new("john_doe"), EntityType::new("person"))
        .with_field(FieldId::new("name"), "John Doe".into())
        .with_field(FieldId::new("email"), "john@example.com".into());

    assert_eq!(
        person.get_field(&FieldId::new("name")),
        Some(&FieldValue::String(String::from("John Doe")))
    );
    assert_eq!(
        person.get_field(&FieldId::new("email")),
        Some(&FieldValue::String(String::from("john@example.com")))
    );
    assert_eq!(person.get_field(&FieldId::new("nonexistant")), None);
}

#[test]
fn test_entity_different_types() {
    let person = Entity::new(EntityId::new("john_doe"), EntityType::new("person"));
    let organization = Entity::new(EntityId::new("megacorp"), EntityType::new("organization"));

    assert_eq!(person.entity_type, EntityType::new("person"));
    assert_eq!(organization.entity_type, EntityType::new("organization"));
}

#[test]
fn test_entity_field_is_replaced_in_place() {
    let person = Entity::new(EntityId::new("john_doe"), EntityType::new("person"))
        .with_field(FieldId::new("name"), "John".into())
        .with_field(FieldId::new("age"), FieldValue::Integer(41))
        .with_field(FieldId::new("name"), "John Doe".into());

    assert_eq!(person.fields.len(), 2);
    assert_eq!(person.fields.key_at(0), &FieldId::new("name"));
    assert_eq!(
        person.fields.value_at(0),
        &FieldValue::String("John Doe".to_string())
    );
    assert_eq!(person.fields.key_at(1), &FieldId::new("age"));
    assert!(person.fields.contains_key(&FieldId::new("age")));
    assert!(!person.fields.contains_key(&FieldId::new("email")));
}

#[test]
fn test_entity_clone_is_equal() {
    let person = Entity::new(EntityId::new("john_doe"), EntityType::new("person"))
        .with_field(
            FieldId::new("tags"),
            FieldValue::List(vec![
                FieldValue::String("a".to_string()),
                FieldValue::List(vec![FieldValue::Integer(1)]),
            ]),
        );
    assert_eq!(person.clone(), person);
}
