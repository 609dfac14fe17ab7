use firm::amount::{CurrencyCode, DecimalValue};
use firm::datetime::DateTimeValue;
use firm::generate::{
    generate_datetime, generate_dsl, generate_dsl_with_options, generate_entity, generate_field,
    generate_float, generate_list, generate_path, generate_reference, generate_string,
    generate_value, GeneratorOptions, IndentStyle,
};
use firm::{Entity, EntityId, EntityType, FieldId, FieldValue, FloatValue, ReferenceValue};

fn local(year: i32, month: u32, day: u32, hour: u32, minute: u32, second: u32, offset: i32) -> DateTimeValue {
    DateTimeValue::from_local(year, month, day, hour, minute, second, offset).unwrap()
}

fn entity_with(id: &str, entity_type: &str, fields: Vec<(FieldId, FieldValue)>) -> Entity {
    let mut entity = Entity::new(EntityId(id.to_string()), EntityType::new(entity_type));
    for (field_id, value) in fields {
        entity = entity.with_field(field_id, value);
    }
    entity
}

#[test]
fn test_generate_boolean_true() {
    let options = GeneratorOptions::default();
    let result = generate_value(&FieldValue::Boolean(true), &options);
    assert_eq!(result, "true");
}

#[test]
fn test_generate_boolean_false() {
    let options = GeneratorOptions::default();
    let result = generate_value(&FieldValue::Boolean(false), &options);
    assert_eq!(result, "false");
}

#[test]
fn test_generate_string_single_line() {
    let options = GeneratorOptions::default();
    let result = generate_string("Hello World", &options);
    assert_eq!(result, "\"Hello World\"");
}

#[test]
fn test_generate_string_with_quotes() {
    let options = GeneratorOptions::default();
    let result = generate_string("Say \"Hello\"", &options);
    assert_eq!(result, "\"Say \\\"Hello\\\"\"");
}

#[test]
fn test_generate_string_multiline() {
    let options = GeneratorOptions::default();
    let multiline = "Line 1\nLine 2\nLine 3";
    let result = generate_string(multiline, &options);

    let expected = "\"\"\"\n    Line 1\n    Line 2\n    Line 3\n    \"\"\"";
    assert_eq!(result, expected);
}

#[test]
fn test_generate_string_empty() {
    let options = GeneratorOptions::default();
    let result = generate_string("", &options);
    assert_eq!(result, "\"\"");
}

#[test]
fn test_generate_integer_positive() {
    let options = GeneratorOptions::default();
    let result = generate_value(&FieldValue::Integer(42), &options);
    assert_eq!(result, "42");
}

#[test]
fn test_generate_integer_negative() {
    let options = GeneratorOptions::default();
    let result = generate_value(&FieldValue::Integer(-123), &options);
    assert_eq!(result, "-123");
}

#[test]
fn test_generate_integer_zero() {
    let options = GeneratorOptions::default();
    let result = generate_value(&FieldValue::Integer(0), &options);
    assert_eq!(result, "0");
}

#[test]
fn test_generate_float_positive() {
    let options = GeneratorOptions::default();
    let result = generate_value(&FieldValue::Float(FloatValue::parse("3.14159").unwrap()), &options);
    assert_eq!(result, "3.14159");
}

#[test]
fn test_generate_float_negative() {
    let options = GeneratorOptions::default();
    let result = generate_value(&FieldValue::Float(FloatValue::parse("-2.5").unwrap()), &options);
    assert_eq!(result, "-2.5");
}

#[test]
fn test_generate_float_zero() {
    let options = GeneratorOptions::default();
    let result = generate_value(&FieldValue::Float(FloatValue::parse("0.0").unwrap()), &options);
    assert_eq!(result, "0.0");
}

#[test]
fn test_generate_currency_usd() {
    let options = GeneratorOptions::default();
    let result = generate_value(
        &FieldValue::Currency {
            amount: DecimalValue::parse("1000.50").unwrap(),
            currency: CurrencyCode::parse("USD").unwrap(),
        },
        &options,
    );
    assert_eq!(result, "1000.50 USD");
}

#[test]
fn test_generate_currency_eur() {
    let options = GeneratorOptions::default();
    let result = generate_value(
        &FieldValue::Currency {
            amount: DecimalValue::parse("750").unwrap(),
            currency: CurrencyCode::parse("EUR").unwrap(),
        },
        &options,
    );
    assert_eq!(result, "750 EUR");
}

#[test]
fn test_generate_currency_zero() {
    let options = GeneratorOptions::default();
    let result = generate_value(
        &FieldValue::Currency {
            amount: DecimalValue::new(0, 0),
            currency: CurrencyCode::parse("DKK").unwrap(),
        },
        &options,
    );
    assert_eq!(result, "0 DKK");
}

#[test]
fn test_generate_reference_entity() {
    let reference = ReferenceValue::Entity(EntityId("person.john".to_string()));
    let result = generate_reference(&reference);
    assert_eq!(result, "person.john");
}

#[test]
fn test_generate_reference_field() {
    let reference = ReferenceValue::Field(
        EntityId("person.john".to_string()),
        FieldId("name".to_string()),
    );
    let result = generate_reference(&reference);
    assert_eq!(result, "person.john.name");
}

#[test]
fn test_generate_empty_list() {
    let options = GeneratorOptions::default();
    let result = generate_list(&vec![], &options);
    assert_eq!(result, "[]");
}

#[test]
fn test_generate_string_list() {
    let options = GeneratorOptions::default();
    let values = vec![
        FieldValue::String("first".to_string()),
        FieldValue::String("second".to_string()),
    ];
    let result = generate_list(&values, &options);
    assert_eq!(result, "[\"first\", \"second\"]");
}

#[test]
fn test_generate_integer_list() {
    let options = GeneratorOptions::default();
    let values = vec![
        FieldValue::Integer(1),
        FieldValue::Integer(2),
        FieldValue::Integer(3),
    ];
    let result = generate_list(&values, &options);
    assert_eq!(result, "[1, 2, 3]");
}

#[test]
fn test_generate_boolean_list() {
    let options = GeneratorOptions::default();
    let values = vec![
        FieldValue::Boolean(true),
        FieldValue::Boolean(false),
        FieldValue::Boolean(true),
    ];
    let result = generate_list(&values, &options);
    assert_eq!(result, "[true, false, true]");
}

#[test]
fn test_generate_nested_lists() {
    let options = GeneratorOptions::default();

    // Create nested list: [["a", "b"], ["c", "d"]]
    let inner_list1 = vec![
        FieldValue::String("a".to_string()),
        FieldValue::String("b".to_string()),
    ];
    let inner_list2 = vec![
        FieldValue::String("c".to_string()),
        FieldValue::String("d".to_string()),
    ];

    let nested_list = vec![FieldValue::List(inner_list1), FieldValue::List(inner_list2)];

    let result = generate_list(&nested_list, &options);
    assert_eq!(result, "[[\"a\", \"b\"], [\"c\", \"d\"]]");
}

#[test]
fn test_generate_datetime_utc() {
    let dt = local(2024, 3, 20, 14, 30, 0, 0);
    let result = generate_datetime(&dt);
    assert_eq!(result, "2024-03-20 at 14:30 UTC");
}

#[test]
fn test_generate_datetime_positive_offset() {
    let dt = local(2024, 3, 20, 14, 30, 0, 3 * 3600);
    let result = generate_datetime(&dt);
    assert_eq!(result, "2024-03-20 at 14:30 UTC+3");
}

#[test]
fn test_generate_datetime_negative_offset() {
    let dt = local(2024, 3, 20, 14, 30, 0, -(5 * 3600));
    let result = generate_datetime(&dt);
    assert_eq!(result, "2024-03-20 at 14:30 UTC-5");
}

#[test]
fn test_generate_datetime_single_digit_hour() {
    let dt = local(2024, 3, 20, 9, 5, 0, 0);
    let result = generate_datetime(&dt);
    assert_eq!(result, "2024-03-20 at 09:05 UTC");
}

#[test]
fn test_generate_datetime_midnight() {
    let dt = local(2024, 12, 31, 0, 0, 0, 0);
    let result = generate_datetime(&dt);
    assert_eq!(result, "2024-12-31 at 00:00 UTC");
}

#[test]
fn test_generate_path() {
    let result = generate_path("./relative/path.txt");
    assert_eq!(result, "path\"./relative/path.txt\"");
}

#[test]
fn test_generate_simple_field() {
    let options = GeneratorOptions::default();
    let result = generate_field("name", &FieldValue::String("test".to_string()), &options);
    assert_eq!(result, "name = \"test\"");
}

#[test]
fn test_generate_boolean_field() {
    let options = GeneratorOptions::default();
    let result = generate_field("active", &FieldValue::Boolean(true), &options);
    assert_eq!(result, "active = true");
}

#[test]
fn test_generate_simple_person_entity() {
    let mut fields = Vec::new();
    fields.push((
        FieldId("name".to_string()),
        FieldValue::String("John Doe".to_string()),
    ));
    fields.push((FieldId("age".to_string()), FieldValue::Integer(42)));

    let entity = entity_with("person.john_doe", "person", fields);

    let result = generate_entity(&entity, &GeneratorOptions::default());

    let expected = r#"person john_doe {
    name = "John Doe"
    age = 42
}
"#;
    assert_eq!(result, expected);
}

#[test]
fn test_generate_organization_with_multiple_fields() {
    let mut fields = Vec::new();
    fields.push((
        FieldId("name".to_string()),
        FieldValue::String("ACME Corp".to_string()),
    ));
    fields.push((
        FieldId("primary_email".to_string()),
        FieldValue::String("contact@acme.com".to_string()),
    ));
    fields.push((FieldId("active".to_string()), FieldValue::Boolean(true)));
    fields.push((
        FieldId("employee_count".to_string()),
        FieldValue::Integer(150),
    ));

    let entity = entity_with("organization.acme_corp", "organization", fields);

    let result = generate_entity(&entity, &GeneratorOptions::default());

    let expected = r#"organization acme_corp {
    name = "ACME Corp"
    primary_email = "contact@acme.com"
    active = true
    employee_count = 150
}
"#;
    assert_eq!(result, expected);
}

#[test]
fn test_generate_entity_with_references() {
    let mut fields = Vec::new();
    fields.push((
        FieldId("name".to_string()),
        FieldValue::String("Jane Smith".to_string()),
    ));
    fields.push((
        FieldId("manager".to_string()),
        FieldValue::Reference(ReferenceValue::Entity(EntityId(
            "person.john_doe".to_string(),
        ))),
    ));
    fields.push((
        FieldId("manager_email".to_string()),
        FieldValue::Reference(ReferenceValue::Field(
            EntityId("person.john_doe".to_string()),
            FieldId("email".to_string()),
        )),
    ));

    let entity = entity_with("person.jane_smith", "person", fields);

    let result = generate_entity(&entity, &GeneratorOptions::default());

    let expected = r#"person jane_smith {
    name = "Jane Smith"
    manager = person.john_doe
    manager_email = person.john_doe.email
}
"#;
    assert_eq!(result, expected);
}

#[test]
fn test_generate_entity_with_multiline_string() {
    let mut fields = Vec::new();
    fields.push((
        FieldId("title".to_string()),
        FieldValue::String("Code Review".to_string()),
    ));
    fields.push((
        FieldId("description".to_string()),
        FieldValue::String(
            "Review the pull request:\n- Check logic\n- Verify tests\n- Approve changes"
                .to_string(),
        ),
    ));

    let entity = entity_with("task.code_review", "task", fields);

    let result = generate_entity(&entity, &GeneratorOptions::default());

    let expected = r#"task code_review {
    title = "Code Review"
    description = """
    Review the pull request:
    - Check logic
    - Verify tests
    - Approve changes
    """
}
"#;
    assert_eq!(result, expected);
}

#[test]
fn test_generate_with_custom_indent() {
    let mut fields = Vec::new();
    fields.push((
        FieldId("name".to_string()),
        FieldValue::String("Test".to_string()),
    ));

    let entity = entity_with("person.test", "person", fields);

    let options = GeneratorOptions {
        indent_style: IndentStyle::Spaces(2),
        ..Default::default()
    };

    let result = generate_entity(&entity, &options);

    let expected = r#"person test {
  name = "Test"
}
"#;
    assert_eq!(result, expected);
}

#[test]
fn test_generate_with_tab_indent() {
    let mut fields = Vec::new();
    fields.push((
        FieldId("name".to_string()),
        FieldValue::String("Test".to_string()),
    ));

    let entity = entity_with("person.test", "person", fields);

    let options = GeneratorOptions {
        indent_style: IndentStyle::Tabs,
        ..Default::default()
    };

    let result = generate_entity(&entity, &options);

    let expected = "person test {\n\tname = \"Test\"\n}\n";
    assert_eq!(result, expected);
}

#[test]
fn test_generate_empty_entities_list() {
    let result = generate_dsl(&[]);
    assert_eq!(result, "");
}

#[test]
fn test_generate_multiple_entities() {
    // Create a person
    let person = entity_with(
        "person.daniel_rothmann",
        "person",
        vec![
            (
                FieldId("first_name".to_string()),
                FieldValue::String("Daniel".to_string()),
            ),
            (
                FieldId("last_name".to_string()),
                FieldValue::String("Rothmann".to_string()),
            ),
            (
                FieldId("primary_email".to_string()),
                FieldValue::String("daniel@42futures.com".to_string()),
            ),
        ],
    );

    // Create an organization
    let organization = entity_with(
        "organization.main",
        "organization",
        vec![
            (
                FieldId("name".to_string()),
                FieldValue::String("42futures".to_string()),
            ),
            (
                FieldId("primary_email".to_string()),
                FieldValue::String("hello@42futures.com".to_string()),
            ),
        ],
    );

    // Create a project with references
    let project = entity_with(
        "project.firm_language",
        "project",
        vec![
            (
                FieldId("budget".to_string()),
                FieldValue::Currency {
                    amount: DecimalValue::parse("150000").unwrap(),
                    currency: CurrencyCode::parse("EUR").unwrap(),
                },
            ),
            (
                FieldId("name".to_string()),
                FieldValue::String("Firm Language Development".to_string()),
            ),
            (
                FieldId("organization_ref".to_string()),
                FieldValue::Reference(ReferenceValue::Entity(EntityId(
                    "organization.main".to_string(),
                ))),
            ),
            (
                FieldId("owner_ref".to_string()),
                FieldValue::Reference(ReferenceValue::Entity(EntityId(
                    "person.daniel_rothmann".to_string(),
                ))),
            ),
            (
                FieldId("technologies".to_string()),
                FieldValue::List(vec![
                    FieldValue::String("Rust".to_string()),
                    FieldValue::String("Tree-sitter".to_string()),
                    FieldValue::String("WASM".to_string()),
                ]),
            ),
        ],
    );

    let result = generate_dsl(&[person, organization, project]);

    let expected = r#"person daniel_rothmann {
    first_name = "Daniel"
    last_name = "Rothmann"
    primary_email = "daniel@42futures.com"
}

organization main {
    name = "42futures"
    primary_email = "hello@42futures.com"
}

project firm_language {
    budget = 150000 EUR
    name = "Firm Language Development"
    organization_ref = organization.main
    owner_ref = person.daniel_rothmann
    technologies = ["Rust", "Tree-sitter", "WASM"]
}
"#;
    assert_eq!(result, expected);
}

#[test]
fn test_generate_with_custom_options() {
    let entities = vec![
        entity_with(
        "person.alice",
        "person",
        vec![(
                FieldId("name".to_string()),
                FieldValue::String("Alice".to_string()),
            )],
    ),
        entity_with(
        "person.bob",
        "person",
        vec![(
                FieldId("name".to_string()),
                FieldValue::String("Bob".to_string()),
            )],
    ),
    ];

    let options = GeneratorOptions {
        indent_style: IndentStyle::Spaces(2),
        blank_lines_between_entities: false,
        ..Default::default()
    };

    let result = generate_dsl_with_options(&entities, &options);

    let expected = r#"person alice {
  name = "Alice"
}
person bob {
  name = "Bob"
}
"#;
    assert_eq!(result, expected);
}
