use firm::amount::{CurrencyCode, DecimalValue};
use firm::datetime::DateTimeValue;
use firm::{EntityId, FieldId, FieldType, FieldValue, FloatValue, ReferenceValue};

#[test]
fn test_field_value_get_type() {
    let string_value = FieldValue::String("test".to_string());
    assert_eq!(string_value.get_type(), FieldType::String);
}

#[test]
fn test_field_value_is_type() {
    let string_value = FieldValue::String("test".to_string());
    assert!(string_value.is_type(&FieldType::String));
}

#[test]
fn test_field_from_bool() {
    let field: FieldValue = true.into();
    assert_eq!(field, FieldValue::Boolean(true));
}

#[test]
fn test_field_from_str() {
    let field: FieldValue = "Test".into();
    assert_eq!(field, FieldValue::String("Test".to_string()));
}

#[test]
fn test_field_from_string() {
    let field: FieldValue = String::from("Test").into();
    assert_eq!(field, FieldValue::String(String::from("Test")));
}

#[test]
fn test_field_from_i64() {
    let field: FieldValue = 42i64.into();
    assert_eq!(field, FieldValue::Integer(42));
}

#[test]
fn test_field_from_datetime() {
    let dt = DateTimeValue::from_local(2023, 1, 1, 12, 0, 0, 5 * 3600).unwrap();
    let field: FieldValue = dt.into();
    assert_eq!(field, FieldValue::DateTime(dt));
}

#[test]
fn test_field_from_vec() {
    let values = vec![
        FieldValue::String("test1".to_string()),
        FieldValue::String("test2".to_string()),
    ];
    let field: FieldValue = values.clone().into();
    assert_eq!(field, FieldValue::List(values));
}

#[test]
fn test_currency_field_value() {
    let currency_field = FieldValue::Currency {
        amount: DecimalValue::new(12345, 2), // $123.45
        currency: CurrencyCode::parse("USD").unwrap(),
    };
    assert_eq!(currency_field.get_type(), FieldType::Currency);
    assert!(currency_field.is_type(&FieldType::Currency));
}

#[test]
fn test_entity_reference_field_value() {
    let entity_ref = FieldValue::Reference(ReferenceValue::Entity(EntityId::new("test_entity")));
    assert_eq!(entity_ref.get_type(), FieldType::Reference);
    assert!(entity_ref.is_type(&FieldType::Reference));
}

#[test]
fn test_field_reference_field_value() {
    let field_ref = FieldValue::Reference(ReferenceValue::Field(
        EntityId::new("test_entity"),
        FieldId::new("test_field"),
    ));
    assert_eq!(field_ref.get_type(), FieldType::Reference);
    assert!(field_ref.is_type(&FieldType::Reference));
}

#[test]
fn test_list_field_value() {
    let list_field = FieldValue::List(vec![
        FieldValue::String("item1".to_string()),
        FieldValue::String("item2".to_string()),
    ]);
    assert_eq!(list_field.get_type(), FieldType::List);
    assert!(list_field.is_type(&FieldType::List));
}

#[test]
fn test_every_value_has_its_type() {
    let at = DateTimeValue::from_local(2024, 3, 20, 14, 30, 0, 0).unwrap();
    assert_eq!(FieldValue::Boolean(false).get_type(), FieldType::Boolean);
    assert_eq!(FieldValue::Integer(-1).get_type(), FieldType::Integer);
    assert_eq!(
        FieldValue::Float(FloatValue::parse("3.14").unwrap()).get_type(),
        FieldType::Float
    );
    assert_eq!(FieldValue::DateTime(at).get_type(), FieldType::DateTime);
    assert_eq!(
        FieldValue::Path("./a.txt".to_string()).get_type(),
        FieldType::Path
    );
    assert!(!FieldValue::Integer(1).is_type(&FieldType::Float));
}

#[test]
fn test_field_type_names() {
    let names: Vec<String> = [
        FieldType::Boolean,
        FieldType::String,
        FieldType::Integer,
        FieldType::Float,
        FieldType::Currency,
        FieldType::Reference,
        FieldType::List,
        FieldType::DateTime,
        FieldType::Path,
    ]
    .iter()
    .map(|t| t.to_string())
    .collect();
    assert_eq!(
        names,
        vec![
            "Boolean", "String", "Integer", "Float", "Currency", "Reference", "List", "DateTime",
            "Path"
        ]
    );
}

#[test]
fn test_reference_to_string() {
    let entity = ReferenceValue::Entity(EntityId::new("person.john"));
    assert_eq!(entity.to_string(), "person.john");
    let field = ReferenceValue::Field(EntityId::new("person.john"), FieldId::new("name"));
    assert_eq!(field.to_string(), "person.john.name");
}

#[test]
fn test_float_literals() {
    for good in ["3.14", "-3.14", "2.5E10", "2.5e-10", "5.", ".5", "inf", "-inf", "+infinity", "NaN", "42"] {
        assert!(FloatValue::parse(good).is_some(), "{}", good);
        assert!(good.parse::<f64>().is_ok(), "{}", good);
    }
    for bad in ["", ".", "5.9.2", "1e", "e5", " 1.0", "1.0 ", "1.0f", "+", "--1", "1,5", "infinit"] {
        assert!(FloatValue::parse(bad).is_none(), "{}", bad);
        assert!(bad.parse::<f64>().is_err(), "{}", bad);
    }
}

#[test]
fn test_decimal_values() {
    let amount = DecimalValue::parse("1000.50").unwrap();
    assert_eq!(amount.mantissa, 100050);
    assert_eq!(amount.scale, 2);
    assert_eq!(amount.to_string(), "1000.50");
    assert_eq!(DecimalValue::new(12345, 2).to_string(), "123.45");
    assert_eq!(DecimalValue::new(-5, 1).to_string(), "-0.5");
    assert!(DecimalValue::parse("abc").is_none());
    assert!(DecimalValue::parse("").is_none());
    let out_of_range = DecimalValue { mantissa: 1, scale: 29 };
    assert_eq!(out_of_range.to_string(), "");
}

#[test]
fn test_currency_codes() {
    assert_eq!(CurrencyCode::parse("EUR").unwrap().code(), "EUR");
    assert!(CurrencyCode::parse("eur").is_none());
    assert!(CurrencyCode::parse("DOLLARS").is_none());
    assert!(CurrencyCode::parse("US").is_none());
    assert!(CurrencyCode::parse("AAA").is_none());
}

#[test]
fn test_datetime_values() {
    let at = DateTimeValue::from_local(2024, 3, 20, 14, 30, 0, 3 * 3600).unwrap();
    assert_eq!(at.offset_seconds, 10800);
    assert_eq!(at.timestamp, 1710934200);
    assert_eq!(at.format("%Y-%m-%d"), "2024-03-20");
    assert_eq!(at.format("%H:%M"), "14:30");
    assert!(DateTimeValue::from_local(2023, 2, 30, 0, 0, 0, 0).is_none());
    assert!(DateTimeValue::from_local(2023, 1, 1, 25, 0, 0, 0).is_none());
    assert!(DateTimeValue::from_local(2023, 1, 1, 0, 0, 0, 86400).is_none());
    let broken = DateTimeValue { timestamp: 0, offset_seconds: 100000 };
    assert_eq!(broken.format("%Y"), "");
}
