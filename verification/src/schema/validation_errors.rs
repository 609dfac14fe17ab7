//! What validation reports.

use vstd::prelude::*;
use vstd::string::StringExecFns;
use crate::field::FieldType;
use crate::id::{EntityId, EntityType, FieldId};

verus! {

/// The kinds of violations of a schema.
#[allow(inconsistent_fields)]
#[derive(Debug, Clone, PartialEq)]
pub enum ValidationErrorType {
    /// The entity type did not match the schema.
    MismatchedEntityType { expected: EntityType, actual: EntityType },
    /// The entity is missing a required field.
    MissingRequiredField { required: FieldId },
    /// The entity has a field whose type did not match the schema.
    MismatchedFieldType { expected: FieldType, actual: FieldType },
}

/// A violation of a schema by an entity.
#[derive(Debug, Clone, PartialEq)]
pub struct ValidationError {
    pub entity_id: Option<EntityId>,
    pub field: Option<FieldId>,
    pub message: String,
    pub error_type: ValidationErrorType,
}

/// The message for an entity of the wrong type.
pub open spec fn entity_type_message(
    entity_id: Seq<char>,
    expected: Seq<char>,
    actual: Seq<char>,
) -> Seq<char> {
    "Expected entity '"@ + entity_id + "' to be of type '"@ + expected + "' but it was '"@ + actual
        + "'"@
}

/// The message for a missing required field.
pub open spec fn missing_field_message(entity_id: Seq<char>, field_id: Seq<char>) -> Seq<char> {
    "Missing required field '"@ + field_id + "' for entity '"@ + entity_id + "'"@
}

/// The message for a field of the wrong type.
pub open spec fn field_type_message(
    entity_id: Seq<char>,
    field_id: Seq<char>,
    expected: FieldType,
    actual: FieldType,
) -> Seq<char> {
    "Expected field '"@ + field_id + "' for entity '"@ + entity_id + "' to be of type '"@
        + expected.name_spec() + "' but it was '"@ + actual.name_spec() + "'"@
}

impl ValidationError {
    /// Whether this error reports an entity of type `actual` where the schema
    /// is for `expected`.
    pub open spec fn is_mismatched_entity_type(
        self,
        entity_id: Seq<char>,
        expected: Seq<char>,
        actual: Seq<char>,
    ) -> bool {
        &&& self.entity_id is Some
        &&& self.entity_id->0@ == entity_id
        &&& self.field is None
        &&& self.message@ == entity_type_message(entity_id, expected, actual)
        &&& match self.error_type {
            ValidationErrorType::MismatchedEntityType { expected: e, actual: a } => e@ == expected
                && a@ == actual,
            _ => false,
        }
    }

    /// Whether this error reports that a required field is missing.
    pub open spec fn is_missing_field(self, entity_id: Seq<char>, field_id: Seq<char>) -> bool {
        &&& self.entity_id is Some
        &&& self.entity_id->0@ == entity_id
        &&& self.field is Some
        &&& self.field->0@ == field_id
        &&& self.message@ == missing_field_message(entity_id, field_id)
        &&& match self.error_type {
            ValidationErrorType::MissingRequiredField { required } => required@ == field_id,
            _ => false,
        }
    }

    /// Whether this error reports a field of type `actual` where the schema
    /// expects `expected`.
    pub open spec fn is_mismatched_field_type(
        self,
        entity_id: Seq<char>,
        field_id: Seq<char>,
        expected: FieldType,
        actual: FieldType,
    ) -> bool {
        &&& self.entity_id is Some
        &&& self.entity_id->0@ == entity_id
        &&& self.field is Some
        &&& self.field->0@ == field_id
        &&& self.message@ == field_type_message(entity_id, field_id, expected, actual)
        &&& self.error_type == (ValidationErrorType::MismatchedFieldType { expected, actual })
    }

    /// The error for an entity whose type is not the schema's.
    pub fn mismatched_entity_type(
        entity_id: &EntityId,
        expected: &EntityType,
        actual: &EntityType,
    ) -> (r: Self)
        ensures
            r.is_mismatched_entity_type(entity_id@, expected@, actual@),
    {
        let mut message = String::from_str("Expected entity '");
        message.append(entity_id.as_str());
        message.append("' to be of type '");
        message.append(expected.as_str());
        message.append("' but it was '");
        message.append(actual.as_str());
        message.append("'");
        ValidationError {
            entity_id: Some(entity_id.clone()),
            field: None,
            message,
            error_type: ValidationErrorType::MismatchedEntityType {
                expected: expected.clone(),
                actual: actual.clone(),
            },
        }
    }

    /// The error for a required field that an entity does not have.
    pub fn missing_field(entity_id: &EntityId, field_id: &FieldId) -> (r: Self)
        ensures
            r.is_missing_field(entity_id@, field_id@),
    {
        let mut message = String::from_str("Missing required field '");
        message.append(field_id.as_str());
        message.append("' for entity '");
        message.append(entity_id.as_str());
        message.append("'");
        ValidationError {
            entity_id: Some(entity_id.clone()),
            field: Some(field_id.clone()),
            message,
            error_type: ValidationErrorType::MissingRequiredField { required: field_id.clone() },
        }
    }

    /// The error for a field whose value is not of the type that the schema
    /// expects.
    pub fn mismatched_field_type(
        entity_id: &EntityId,
        field_id: &FieldId,
        expected: &FieldType,
        actual: &FieldType,
    ) -> (r: Self)
        ensures
            r.is_mismatched_field_type(entity_id@, field_id@, *expected, *actual),
    {
        let mut message = String::from_str("Expected field '");
        message.append(field_id.as_str());
        message.append("' for entity '");
        message.append(entity_id.as_str());
        message.append("' to be of type '");
        message.append(expected.name());
        message.append("' but it was '");
        message.append(actual.name());
        message.append("'");
        ValidationError {
            entity_id: Some(entity_id.clone()),
            field: Some(field_id.clone()),
            message,
            error_type: ValidationErrorType::MismatchedFieldType {
                expected: *expected,
                actual: *actual,
            },
        }
    }
}

} // verus!
