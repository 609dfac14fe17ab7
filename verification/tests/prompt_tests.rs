use firm::cli::{CliDirection, CliError, FirmCli, FirmCliCommand, OutputFormat};
use firm::graph::{Direction, EntityGraph};
use firm::paths::{
    compute_dsl_path, get_path_suggestions, is_firm_file, relative_path_for, search_directory,
    DirectoryEntry,
};
use firm::prompt::{
    compute_unique_entity_id, get_reference_suggestions, get_skippable_prompt, parse_reference,
    ReferenceCheck,
};
use firm::{compose_entity_id, Entity, EntityId, EntityType, FieldId, FieldValue};

fn graph() -> EntityGraph {
    let mut graph = EntityGraph::new();
    graph
        .add_entities(vec![
            Entity::new(compose_entity_id("person", "john_doe"), EntityType::new("person"))
                .with_field(FieldId::new("name"), "John".into())
                .with_field(FieldId::new("nickname"), "J".into())
                .with_field(FieldId::new("email"), "j@example.com".into()),
            Entity::new(compose_entity_id("person", "jane"), EntityType::new("person")),
            Entity::new(compose_entity_id("project", "john_deere"), EntityType::new("project")),
        ])
        .unwrap();
    graph
}

#[test]
fn test_skippable_prompt() {
    assert_eq!(get_skippable_prompt(true), " (esc to skip)");
    assert_eq!(get_skippable_prompt(false), "");
}

#[test]
fn test_reference_checks() {
    let graph = graph();
    assert_eq!(parse_reference("person.john_doe", &graph), ReferenceCheck::Valid);
    assert_eq!(parse_reference("Person.john_doe", &graph), ReferenceCheck::Valid);
    assert_eq!(parse_reference("person.nobody", &graph), ReferenceCheck::NoEntity);
    assert_eq!(parse_reference("person.john_doe.email", &graph), ReferenceCheck::Valid);
    assert_eq!(parse_reference("person.john_doe.phone", &graph), ReferenceCheck::NoField);
    assert_eq!(parse_reference("person.nobody.email", &graph), ReferenceCheck::NoEntity);
    assert_eq!(parse_reference("person", &graph), ReferenceCheck::BadFormat);
    assert_eq!(parse_reference("", &graph), ReferenceCheck::BadFormat);
    assert_eq!(parse_reference("a.b.c.d", &graph), ReferenceCheck::BadFormat);
    assert_eq!(
        ReferenceCheck::NoField.to_string(),
        "There is no field matching this ID"
    );
    assert_eq!(
        ReferenceCheck::BadFormat.to_string(),
        "References should have 2 or 3 parts separated by '.'"
    );
}

#[test]
fn test_reference_suggestions() {
    let graph = graph();
    assert_eq!(get_reference_suggestions("p", &graph), vec!["person.", "project."]);
    assert_eq!(get_reference_suggestions("", &graph), vec!["person.", "project."]);
    assert_eq!(get_reference_suggestions("pe", &graph), vec!["person."]);
    assert!(get_reference_suggestions("x", &graph).is_empty());
    assert_eq!(
        get_reference_suggestions("person.j", &graph),
        vec!["person.john_doe", "person.jane"]
    );
    assert_eq!(
        get_reference_suggestions("person.jo", &graph),
        vec!["person.john_doe"]
    );
    assert!(get_reference_suggestions("robot.j", &graph).is_empty());
    assert_eq!(
        get_reference_suggestions("person.john_doe.n", &graph),
        vec!["person.john_doe.name", "person.john_doe.nickname"]
    );
    assert_eq!(
        get_reference_suggestions("person.john_doe.", &graph).len(),
        3
    );
    assert!(get_reference_suggestions("person.nobody.n", &graph).is_empty());
    assert!(get_reference_suggestions("a.b.c.d", &graph).is_empty());
}

#[test]
fn test_unique_entity_id() {
    let mut graph = graph();
    assert_eq!(
        compute_unique_entity_id(&graph, "person", "Mary Ann!".to_string()),
        "mary_ann"
    );
    assert_eq!(
        compute_unique_entity_id(&graph, "person", "John! Doe?".to_string()),
        "john_doe_1"
    );
    assert_eq!(
        compute_unique_entity_id(&graph, "project", "John Doe".to_string()),
        "john_doe"
    );
    graph
        .add_entity(Entity::new(
            compose_entity_id("person", "john_doe_1"),
            EntityType::new("person"),
        ))
        .unwrap();
    assert_eq!(
        compute_unique_entity_id(&graph, "person", "John Doe".to_string()),
        "john_doe_2"
    );
}

#[test]
fn test_unique_entity_id_gives_up_after_a_thousand() {
    let mut graph = EntityGraph::new();
    graph
        .add_entity(Entity::new(compose_entity_id("t", "x"), EntityType::new("t")))
        .unwrap();
    for n in 1..1200 {
        graph
            .add_entity(Entity::new(
                compose_entity_id("t", &format!("x_{}", n)),
                EntityType::new("t"),
            ))
            .unwrap();
    }
    assert_eq!(compute_unique_entity_id(&graph, "t", "x".to_string()), "x_999");
}

#[test]
fn test_paths() {
    assert_eq!(
        compute_dsl_path("/work", None, "person".to_string()),
        "/work/generated/person.firm"
    );
    assert_eq!(
        compute_dsl_path("/work", Some("people/all.txt".to_string()), "person".to_string()),
        "/work/people/all.firm"
    );
    assert_eq!(
        compute_dsl_path("/work", Some("/elsewhere/all".to_string()), "person".to_string()),
        "/elsewhere/all.firm"
    );
    assert!(is_firm_file("a/b/c.firm"));
    assert!(!is_firm_file("a/b/c.firm.bak"));
    assert!(!is_firm_file("a/b/firm"));
    assert!(!is_firm_file(".firm"));
    assert!(!is_firm_file("c.FIRM"));
    assert_eq!(
        firm::paths::current_graph_path("/work"),
        "/work/current.firm.graph"
    );
    assert_eq!(
        firm::paths::backup_graph_path("/work"),
        "/work/backup.firm.graph"
    );
}

#[test]
fn test_command_line_values() {
    assert_eq!(Direction::from(CliDirection::To), Direction::Incoming);
    assert_eq!(Direction::from(CliDirection::From), Direction::Outgoing);
    assert_eq!(OutputFormat::default(), OutputFormat::Pretty);
    assert_eq!(OutputFormat::Pretty.to_string(), "pretty");
    assert_eq!(OutputFormat::Json.to_string(), "json");
    assert_ne!(CliError::BuildError, CliError::QueryError);
    let cli = |cached: bool, command: FirmCliCommand| FirmCli {
        workspace: None,
        cached,
        verbose: false,
        format: OutputFormat::Pretty,
        command,
    };
    let list = |name: &str| FirmCliCommand::List {
        entity_type: name.to_string(),
    };
    assert!(cli(false, list("person")).builds_first());
    assert!(!cli(true, list("person")).builds_first());
    assert!(!cli(false, FirmCliCommand::Build).builds_first());
    assert!(cli(false, list("schema")).lists_schemas());
    assert!(!cli(false, list("person")).lists_schemas());
    assert!(!cli(false, FirmCliCommand::Build).lists_schemas());
}

#[test]
fn test_values_as_shown() {
    let list = FieldValue::List(vec![
        FieldValue::Integer(-3),
        FieldValue::Boolean(true),
        FieldValue::List(vec![]),
        FieldValue::String("x".to_string()),
    ]);
    assert_eq!(list.to_string(), "[-3,true,[],x]");
    let money = FieldValue::Currency {
        amount: firm::amount::DecimalValue::new(12345, 2),
        currency: firm::amount::CurrencyCode::parse("EUR").unwrap(),
    };
    assert_eq!(money.to_string(), "123.45 Euro");
    let at = firm::datetime::DateTimeValue::from_local(2023, 1, 1, 12, 0, 0, 5 * 3600).unwrap();
    assert_eq!(
        FieldValue::DateTime(at).to_string(),
        "2023-01-01 12:00:00 +05:00"
    );
    assert_eq!(FieldValue::Integer(i64::MIN).to_string(), "-9223372036854775808");
    assert_eq!(
        FieldValue::Reference(firm::ReferenceValue::Field(
            EntityId::new("a.b"),
            FieldId::new("c")
        ))
        .to_string(),
        "a.b.c"
    );
}

#[test]
fn test_schema_as_shown() {
    let schema = firm::EntitySchema::new(EntityType::new("gadget"))
        .with_required_field(FieldId::new("name"), firm::FieldType::String)
        .with_optional_field(FieldId::new("price"), firm::FieldType::Currency);
    assert_eq!(
        schema.to_string(),
        "gadget\n\nname\n- Type: String\n- Required: true\n\nprice\n- Type: Currency\n- Required: false\n"
    );
}

#[test]
fn test_answers() {
    assert!(firm::prompt::is_blank_answer(""));
    assert!(firm::prompt::is_blank_answer(" \t\n"));
    assert!(!firm::prompt::is_blank_answer("  x "));
    assert_eq!(
        firm::prompt::reference_from_answer("Person.john_doe"),
        Some(FieldValue::Reference(firm::ReferenceValue::Entity(EntityId(
            "person.john_doe".to_string()
        ))))
    );
    assert_eq!(
        firm::prompt::reference_from_answer("person.john_doe.Email"),
        Some(FieldValue::Reference(firm::ReferenceValue::Field(
            EntityId("person.john_doe".to_string()),
            FieldId("Email".to_string())
        )))
    );
    assert_eq!(firm::prompt::reference_from_answer("person"), None);
    assert_eq!(firm::prompt::reference_from_answer("a.b.c.d"), None);
    assert_eq!(firm::prompt::offset_hours(7200), 2);
    assert_eq!(firm::prompt::offset_hours(-5400), -1);
    assert_eq!(firm::prompt::offset_hours(5400), 1);
    assert_eq!(firm::prompt::offset_hours(0), 0);
    let at = firm::prompt::moment_from_answers(2024, 3, 20, 14, 30, 14).unwrap();
    assert_eq!(at.offset_seconds, 14 * 3600);
    assert_eq!(at.format("%Y-%m-%d %H:%M"), "2024-03-20 14:30");
    assert!(firm::prompt::moment_from_answers(2024, 3, 20, 14, 30, -12).is_some());
    assert!(firm::prompt::moment_from_answers(2024, 3, 20, 14, 30, 15).is_none());
    assert!(firm::prompt::moment_from_answers(2024, 3, 20, 14, 30, -13).is_none());
    assert!(firm::prompt::moment_from_answers(2024, 2, 30, 14, 30, 0).is_none());
    assert_eq!(
        firm::prompt::list_item_types(),
        vec![
            firm::FieldType::String,
            firm::FieldType::Integer,
            firm::FieldType::Float,
            firm::FieldType::Boolean,
            firm::FieldType::DateTime,
            firm::FieldType::Currency
        ]
    );
}

#[test]
fn test_prompt_order() {
    let schema = firm::EntitySchema::new(EntityType::new("gadget"))
        .with_required_field(FieldId::new("name"), firm::FieldType::String)
        .with_optional_field(FieldId::new("zone"), firm::FieldType::String)
        .with_required_field(FieldId::new("age"), firm::FieldType::Integer)
        .with_optional_field(FieldId::new("brand"), firm::FieldType::String)
        .with_required_field(FieldId::new("maker"), firm::FieldType::Reference);
    let names = |required: bool| -> Vec<String> {
        firm::prompt::fields_in_prompt_order(&schema, required)
            .into_iter()
            .map(|at| schema.fields.key_at(at).to_string())
            .collect()
    };
    assert_eq!(names(true), vec!["age", "maker", "name"]);
    assert_eq!(names(false), vec!["brand", "zone"]);

    let schemas = firm::EntitySchema::all_builtin();
    let order = firm::prompt::schemas_in_prompt_order(&schemas);
    let types: Vec<String> = order
        .iter()
        .map(|at| schemas[*at].entity_type.to_string())
        .collect();
    let mut expected = types.clone();
    expected.sort();
    assert_eq!(types, expected);
    assert_eq!(types.len(), 16);
    assert_eq!(types[0], "account");
}

#[test]
fn test_path_answers() {
    assert_eq!(relative_path_for("/work", "/work/generated/person.firm", "docs/a.txt"), "../docs/a.txt");
    assert_eq!(relative_path_for("/work", "/work/root.firm", "docs/a.txt"), "docs/a.txt");
    assert_eq!(search_directory("", "/work"), "/work/");
    assert_eq!(search_directory("docs/", "/work"), "/work/docs/");
    assert_eq!(search_directory("docs/re", "/work"), "/work/docs");
    assert_eq!(search_directory("re", "/work"), "/work");
    let entries = vec![
        DirectoryEntry { path: "/work/docs/readme.md".to_string(), is_dir: false },
        DirectoryEntry { path: "/work/docs/reports".to_string(), is_dir: true },
        DirectoryEntry { path: "/work/docs/other".to_string(), is_dir: true },
    ];
    assert_eq!(
        get_path_suggestions("docs/re", "/work", &entries),
        vec!["docs/readme.md", "docs/reports/"]
    );
    assert_eq!(get_path_suggestions("docs/", "/work", &entries).len(), 3);
    assert!(get_path_suggestions("x", "/work", &entries).is_empty());
}

#[test]
fn test_entity_as_shown() {
    let entity = Entity::new(EntityId::new("person.john"), EntityType::new("person"))
        .with_field(FieldId::new("name"), "John".into())
        .with_field(FieldId::new("age"), FieldValue::Integer(42));
    assert_eq!(entity.to_string(), "person.john (person)\n- name: John\n- age: 42\n");
    let bare = Entity::new(EntityId::new("x"), EntityType::new("y"));
    assert_eq!(bare.to_string(), "x (y)\n");
}

#[test]
fn test_log_levels() {
    let levels = [
        firm::cli::LogLevel::Error,
        firm::cli::LogLevel::Warn,
        firm::cli::LogLevel::Info,
        firm::cli::LogLevel::Debug,
        firm::cli::LogLevel::Trace,
    ];
    let shown = |verbose: bool, target: &str| -> Vec<bool> {
        levels
            .iter()
            .map(|level| firm::cli::log_enabled(verbose, target, *level))
            .collect()
    };
    assert_eq!(shown(false, "firm::graph"), vec![true, true, false, false, false]);
    assert_eq!(shown(true, "firm::graph"), vec![true, true, true, true, false]);
    assert_eq!(shown(true, "my_firm_tools"), vec![true, true, true, true, false]);
    assert_eq!(shown(true, "hyper::client"), vec![true, true, false, false, false]);
}

#[test]
fn test_command_lookups() {
    let mut graph = graph();
    graph
        .add_entity(
            Entity::new(compose_entity_id("task", "write"), EntityType::new("task")).with_field(
                FieldId::new("assignee_ref"),
                FieldValue::Reference(firm::ReferenceValue::Entity(compose_entity_id(
                    "person", "jane",
                ))),
            ),
        )
        .unwrap();
    graph.build();
    assert_eq!(
        firm::cli::entity_or_error(&graph, "Person", "jane").map(|e| e.id.to_string()),
        Ok("person.jane".to_string())
    );
    assert_eq!(
        firm::cli::entity_or_error(&graph, "person", "nobody").map(|e| e.id.to_string()),
        Err(CliError::QueryError)
    );
    let related = |entity_type: &str, id: &str, direction| -> Result<Vec<String>, CliError> {
        firm::cli::related_or_error(&graph, entity_type, id, direction)
            .map(|found| found.iter().map(|e| e.id.to_string()).collect())
    };
    assert_eq!(related("person", "jane", Some(CliDirection::To)), Ok(vec!["task.write".to_string()]));
    assert_eq!(related("person", "jane", Some(CliDirection::From)), Ok(vec![]));
    assert_eq!(related("task", "write", Some(CliDirection::From)), Ok(vec!["person.jane".to_string()]));
    assert_eq!(related("task", "write", None), Ok(vec!["person.jane".to_string()]));
    assert_eq!(related("task", "read", None), Err(CliError::QueryError));
}
