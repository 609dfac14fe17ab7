use firm::{compose_entity_id, decompose_entity_id, EntityId, EntityType, FieldId};

#[test]
fn test_preserves_snake_case() {
    let id = EntityId::new("john_doe");
    assert_eq!(id.to_string(), "john_doe");
}

#[test]
fn test_preserves_period() {
    let id = EntityId::new("person.john_doe");
    assert_eq!(id.to_string(), "person.john_doe");
}

#[test]
fn test_converts_to_snake_case() {
    let sentence_case_id = EntityId::new("John Doe");
    assert_eq!(sentence_case_id.to_string(), "john_doe");

    let pascal_case_id = EntityId::new("JohnDoe");
    assert_eq!(pascal_case_id.to_string(), "john_doe");

    let camel_case_id = EntityId::new("johnDoe");
    assert_eq!(camel_case_id.to_string(), "john_doe");
}

#[test]
fn test_preserves_period_when_converted_to_snake_case() {
    let sentence_case_id = EntityId::new("Person.John Doe");
    assert_eq!(sentence_case_id.to_string(), "person.john_doe");

    let pascal_case_id = EntityId::new("Person.JohnDoe");
    assert_eq!(pascal_case_id.to_string(), "person.john_doe");

    let camel_case_id = EntityId::new("person.johnDoe");
    assert_eq!(camel_case_id.to_string(), "person.john_doe");
}

#[test]
fn test_settled_text_is_kept() {
    for text in [
        "",
        "a",
        "john_doe",
        "_a",
        "a_",
        "a__b",
        "a.b",
        ".",
        "..a_.b",
        "task_1",
        "1_a",
        "2024",
        "a_1.b_22_c",
        "abcdefghijklmnopqrstuvwxyz",
        "0123456789",
    ] {
        assert_eq!(EntityId::new(text).as_str(), text);
        assert_eq!(FieldId::new(text).as_str(), text);
        assert_eq!(EntityType::new(text).as_str(), text);
    }
}

#[test]
fn test_letter_beside_digit_is_parted() {
    assert_eq!(EntityId::new("q1").as_str(), "q_1");
    assert_eq!(EntityId::new("1q").as_str(), "1_q");
    assert_eq!(EntityId::new("a.b2").as_str(), "a.b_2");
}

#[test]
fn test_settled_parts_round_trip() {
    for (entity_type, local_id) in [
        ("person", "john_doe"),
        ("key_result", "q_1"),
        ("a", ""),
        ("", "a"),
        ("task_2", "_x_"),
        ("person", "a.b"),
        ("t", "1.2.3"),
    ] {
        let id = compose_entity_id(entity_type, local_id);
        assert_eq!(id.as_str(), format!("{}.{}", entity_type, local_id));
        assert_eq!(decompose_entity_id(id.as_str()), (entity_type, local_id));
    }
}
