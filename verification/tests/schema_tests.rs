use firm::schema::{FieldMode, FieldSchema, ValidationErrorType};
use firm::{Entity, EntityId, EntitySchema, EntityType, FieldId, FieldType, FieldValue};

#[test]
fn test_schema_create_new() {
    let schema = EntitySchema::new(EntityType::new("person"))
        .with_required_field(FieldId::new("name"), FieldType::String)
        .with_optional_field(FieldId::new("email"), FieldType::String);

    assert_eq!(schema.entity_type, EntityType::new("person"));
    let name_field = schema.fields.get(&FieldId::new("name")).unwrap();
    assert_eq!(name_field.field_type, FieldType::String);
    assert_eq!(name_field.field_mode, FieldMode::Required);

    let email_field = schema.fields.get(&FieldId::new("email")).unwrap();
    assert_eq!(email_field.field_type, FieldType::String);
    assert_eq!(email_field.field_mode, FieldMode::Optional);
}

#[test]
fn test_validate_ok() {
    let schema = EntitySchema::new(EntityType::new("person"))
        .with_required_field(FieldId::new("name"), FieldType::String)
        .with_optional_field(FieldId::new("email"), FieldType::String);

    let entity = Entity::new(EntityId::new("test_person"), EntityType::new("person")).with_field(
        FieldId::new("name"),
        FieldValue::String(String::from("John Doe")),
    );

    let result = schema.validate(&entity);

    assert!(result.is_ok());
}

#[test]
fn test_validate_error_mismatched_entity_types() {
    let schema = EntitySchema::new(EntityType::new("test_a"));
    let entity = Entity::new(EntityId::new("test"), EntityType::new("test_b"));

    let result = schema.validate(&entity);

    assert!(result.is_err());

    let errors = result.unwrap_err();
    assert_eq!(errors.len(), 1);

    assert!(matches!(
        &errors[0].error_type,
        ValidationErrorType::MismatchedEntityType { expected, actual } if expected == &EntityType::new("test_a") && actual == &EntityType::new("test_b")
    ));
}

#[test]
fn test_validate_error_missing_field() {
    let schema = EntitySchema::new(EntityType::new("person"))
        .with_required_field(FieldId::new("name"), FieldType::String)
        .with_required_field(FieldId::new("email"), FieldType::String);

    let entity = Entity::new(EntityId::new("test_person"), EntityType::new("person")).with_field(
        FieldId::new("name"),
        FieldValue::String(String::from("John Doe")),
    );

    let result = schema.validate(&entity);

    assert!(result.is_err());

    let errors = result.unwrap_err();
    assert_eq!(errors.len(), 1);

    assert!(matches!(
        &errors[0].error_type,
        ValidationErrorType::MissingRequiredField { required } if required == &FieldId::new("email")
    ));
}

#[test]
fn test_validate_error_mismatched_field_types() {
    let schema = EntitySchema::new(EntityType::new("person"))
        .with_required_field(FieldId::new("is_nice"), FieldType::Boolean);

    let entity = Entity::new(EntityId::new("test_person"), EntityType::new("person")).with_field(
        FieldId::new("is_nice"),
        FieldValue::String("Sure".to_string()),
    );

    let result = schema.validate(&entity);

    assert!(result.is_err());

    let errors = result.unwrap_err();
    assert_eq!(errors.len(), 1);

    assert!(matches!(
        &errors[0].error_type,
        ValidationErrorType::MismatchedFieldType { expected, actual } if expected == &FieldType::Boolean && actual == &FieldType::String
    ));
}

#[test]
fn test_validate_reports_all_violations() {
    let schema = EntitySchema::new(EntityType::new("person"))
        .with_required_field(FieldId::new("name"), FieldType::String)
        .with_required_field(FieldId::new("age"), FieldType::Integer)
        .with_optional_field(FieldId::new("email"), FieldType::String);

    let entity = Entity::new(EntityId::new("test_person"), EntityType::new("person"))
        .with_field(FieldId::new("age"), FieldValue::String("old".to_string()))
        .with_field(FieldId::new("shoe_size"), FieldValue::Integer(43));

    let errors = schema.validate(&entity).unwrap_err();
    assert_eq!(errors.len(), 2);
    assert_eq!(
        errors[0].error_type,
        ValidationErrorType::MissingRequiredField {
            required: FieldId::new("name")
        }
    );
    assert_eq!(errors[0].entity_id, Some(EntityId::new("test_person")));
    assert_eq!(errors[0].field, Some(FieldId::new("name")));
    assert_eq!(
        errors[0].message,
        "Missing required field 'name' for entity 'test_person'"
    );
    assert_eq!(
        errors[1].error_type,
        ValidationErrorType::MismatchedFieldType {
            expected: FieldType::Integer,
            actual: FieldType::String
        }
    );
    assert_eq!(
        errors[1].message,
        "Expected field 'age' for entity 'test_person' to be of type 'Integer' but it was 'String'"
    );
}

#[test]
fn test_validate_wrong_type_comes_first() {
    let schema = EntitySchema::new(EntityType::new("person"))
        .with_required_field(FieldId::new("name"), FieldType::String);
    let entity = Entity::new(EntityId::new("acme"), EntityType::new("organization"));
    let errors = schema.validate(&entity).unwrap_err();
    assert_eq!(errors.len(), 2);
    assert_eq!(errors[0].field, None);
    assert_eq!(
        errors[0].message,
        "Expected entity 'acme' to be of type 'person' but it was 'organization'"
    );
    assert_eq!(errors[1].field, Some(FieldId::new("name")));
}

#[test]
fn test_field_schema_accessors() {
    let required = FieldSchema::new(FieldType::Path, FieldMode::Required, 7);
    assert_eq!(required.expected_type(), &FieldType::Path);
    assert!(required.is_required());
    assert_eq!(required.order, 7);
    let optional = FieldSchema::new(FieldType::List, FieldMode::Optional, 0);
    assert!(!optional.is_required());
}

#[test]
fn test_ordered_fields() {
    let schema = EntitySchema::new(EntityType::new("thing"))
        .with_metadata()
        .with_required_field(FieldId::new("name"), FieldType::String)
        .with_raw_field(
            FieldId::new("tie"),
            FieldSchema::new(FieldType::Integer, FieldMode::Optional, 3),
        )
        .with_optional_field(FieldId::new("email"), FieldType::String);
    let names: Vec<String> = schema
        .ordered_fields()
        .iter()
        .map(|(id, _)| id.to_string())
        .collect();
    assert_eq!(
        names,
        vec!["name", "tie", "email", "notes", "created_at", "updated_at"]
    );
    let orders: Vec<usize> = schema
        .ordered_fields()
        .iter()
        .map(|(_, field)| field.order)
        .collect();
    assert_eq!(orders, vec![3, 3, 5, 100, 101, 102]);
}

#[test]
fn test_builtin_schemas() {
    let all = EntitySchema::all_builtin();
    let names: Vec<String> = all.iter().map(|s| s.entity_type.to_string()).collect();
    assert_eq!(
        names,
        vec![
            "person",
            "organization",
            "industry",
            "account",
            "channel",
            "lead",
            "contact",
            "interaction",
            "opportunity",
            "strategy",
            "objective",
            "key_result",
            "project",
            "task",
            "review",
            "file_asset"
        ]
    );
    for schema in &all {
        for common in ["notes", "created_at", "updated_at"] {
            assert!(!schema.fields.get(&FieldId::new(common)).unwrap().is_required());
        }
    }
}

#[test]
fn test_builtin_person_and_interaction() {
    let person = EntitySchema::person();
    assert_eq!(person.fields.len(), 7);
    let name = person.fields.get(&FieldId::new("name")).unwrap();
    assert_eq!(
        name,
        &FieldSchema::new(FieldType::String, FieldMode::Required, 3)
    );
    let urls = person.fields.get(&FieldId::new("urls")).unwrap();
    assert_eq!(
        urls,
        &FieldSchema::new(FieldType::List, FieldMode::Optional, 6)
    );

    let interaction = EntitySchema::interaction();
    let required: Vec<String> = interaction
        .ordered_fields()
        .iter()
        .filter(|(_, field)| field.is_required())
        .map(|(id, _)| id.to_string())
        .collect();
    assert_eq!(
        required,
        vec![
            "type",
            "subject",
            "initiator_ref",
            "primary_contact_ref",
            "interaction_date"
        ]
    );
    assert_eq!(
        EntitySchema::file_asset()
            .fields
            .get(&FieldId::new("path"))
            .unwrap()
            .field_type,
        FieldType::Path
    );
    assert_eq!(
        EntitySchema::key_result()
            .fields
            .get(&FieldId::new("target_value"))
            .unwrap()
            .field_type,
        FieldType::Float
    );
}
