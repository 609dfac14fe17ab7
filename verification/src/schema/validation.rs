//! Validating an entity against a schema.

use vstd::prelude::*;
use crate::entity::{Entity, EntityModel};
use crate::field::{model_type, FieldModel};
use crate::field_map::{lemma_position_in, model_keys, position_in};
use crate::schema::validation_errors::{
    entity_type_message, field_type_message, missing_field_message,
};
use crate::schema::{EntitySchema, FieldMode, SchemaModel, ValidationError};

verus! {

/// The outcome of a validation: all violations that were found, if any.
pub type ValidationResult = Result<(), Vec<ValidationError>>;

/// A violation of a schema by an entity.
pub enum Violation {
    /// The entity is not of the schema's type.
    EntityType,
    /// The entity lacks the required field at this position of the schema.
    MissingField(int),
    /// The entity's value for the field at this position of the schema is
    /// not of the expected type.
    FieldType(int),
}

/// Whether a field is among the fields of an entity.
pub open spec fn has_field(fields: Seq<(Seq<char>, FieldModel)>, name: Seq<char>) -> bool {
    position_in(model_keys(fields), name) < fields.len()
}

/// The value of a field of an entity, where the entity has it.
pub open spec fn field_of(fields: Seq<(Seq<char>, FieldModel)>, name: Seq<char>) -> FieldModel {
    fields[position_in(model_keys(fields), name)].1
}

/// The violations of the schema's fields `0..upto` by an entity, in the
/// order of the schema's fields: a required field that is not there, or a
/// field whose value has another type than the schema says.
pub open spec fn field_violations(schema: SchemaModel, entity: EntityModel, upto: nat) -> Seq<
    Violation,
>
    decreases upto,
{
    if 0 < upto <= schema.fields.len() {
        let at = upto - 1;
        let entry = schema.fields[at];
        let before = field_violations(schema, entity, at as nat);
        if has_field(entity.fields, entry.0) {
            if model_type(field_of(entity.fields, entry.0)) != entry.1.field_type {
                before.push(Violation::FieldType(at))
            } else {
                before
            }
        } else if entry.1.field_mode == FieldMode::Required {
            before.push(Violation::MissingField(at))
        } else {
            before
        }
    } else {
        Seq::empty()
    }
}

/// All violations of a schema by an entity: a wrong entity type first, then
/// those of the fields. Fields of the entity that the schema does not name
/// are no violation.
pub open spec fn violations(schema: SchemaModel, entity: EntityModel) -> Seq<Violation> {
    let of_type = if entity.entity_type != schema.entity_type {
        seq![Violation::EntityType]
    } else {
        Seq::empty()
    };
    of_type + field_violations(schema, entity, schema.fields.len())
}

/// Whether an entity meets a schema.
pub open spec fn is_valid(schema: SchemaModel, entity: EntityModel) -> bool {
    violations(schema, entity).len() == 0
}

/// The message that reports a violation.
pub open spec fn violation_message(
    schema: SchemaModel,
    entity: EntityModel,
    violation: Violation,
) -> Seq<char> {
    match violation {
        Violation::EntityType => entity_type_message(
            entity.id,
            schema.entity_type,
            entity.entity_type,
        ),
        Violation::MissingField(at) => missing_field_message(entity.id, schema.fields[at].0),
        Violation::FieldType(at) => field_type_message(
            entity.id,
            schema.fields[at].0,
            schema.fields[at].1.field_type,
            model_type(field_of(entity.fields, schema.fields[at].0)),
        ),
    }
}

/// Whether an error reports a violation.
pub open spec fn reports(
    error: ValidationError,
    schema: SchemaModel,
    entity: EntityModel,
    violation: Violation,
) -> bool {
    &&& error.message@ == violation_message(schema, entity, violation)
    &&& match violation {
        Violation::EntityType => error.is_mismatched_entity_type(
            entity.id,
            schema.entity_type,
            entity.entity_type,
        ),
        Violation::MissingField(at) => error.is_missing_field(entity.id, schema.fields[at].0),
        Violation::FieldType(at) => error.is_mismatched_field_type(
            entity.id,
            schema.fields[at].0,
            schema.fields[at].1.field_type,
            model_type(field_of(entity.fields, schema.fields[at].0)),
        ),
    }
}

/// Whether the errors report the violations, one for one.
pub open spec fn report_all(
    errors: Seq<ValidationError>,
    schema: SchemaModel,
    entity: EntityModel,
    found: Seq<Violation>,
) -> bool {
    &&& errors.len() == found.len()
    &&& forall|i: int| 0 <= i < errors.len() ==> reports(#[trigger] errors[i], schema, entity, found[i])
}

impl EntitySchema {
    /// Validates an entity against the schema and reports every violation:
    /// an entity of another type, each required field that is missing and
    /// each field whose value is of another type than the schema says.
    pub fn validate(&self, entity: &Entity) -> (r: ValidationResult)
        ensures
            r is Ok <==> is_valid(self@, entity@),
            r is Err ==> report_all(r->Err_0@, self@, entity@, violations(self@, entity@)),
    {
        let mut errors: Vec<ValidationError> = Vec::new();
        let ghost mut found: Seq<Violation> = Seq::empty();
        if !entity.entity_type.same_as(&self.entity_type) {
            errors.push(
                ValidationError::mismatched_entity_type(
                    &entity.id,
                    &self.entity_type,
                    &entity.entity_type,
                ),
            );
            proof {
                found = seq![Violation::EntityType];
            }
        }
        let ghost of_type = found;
        let count = self.fields.len();
        let mut i: usize = 0;
        proof {
            assert(of_type + field_violations(self@, entity@, 0) =~= of_type);
            assert(model_keys(entity@.fields) =~= entity.fields.keys());
        }
        while i < count
            invariant
                i <= count,
                count == self.fields.entries().len(),
                model_keys(entity@.fields) == entity.fields.keys(),
                found == of_type + field_violations(self@, entity@, i as nat),
                report_all(errors@, self@, entity@, found),
            decreases count - i,
        {
            let field_name = self.fields.key_at(i);
            let field_schema = self.fields.value_at(i);
            let ghost before = field_violations(self@, entity@, i as nat);
            let ghost old_errors = errors@;
            let ghost old_found = found;
            proof {
                assert(self@.fields[i as int] == (field_name@, *field_schema));
                lemma_position_in(entity.fields.keys(), field_name@);
            }
            match entity.fields.get(field_name) {
                Some(field_value) => {
                    let expected_type = field_schema.expected_type();
                    if !field_value.is_type(expected_type) {
                        errors.push(
                            ValidationError::mismatched_field_type(
                                &entity.id,
                                field_name,
                                expected_type,
                                &field_value.get_type(),
                            ),
                        );
                        proof {
                            found = found.push(Violation::FieldType(i as int));
                        }
                    }
                },
                None => {
                    if field_schema.is_required() {
                        errors.push(ValidationError::missing_field(&entity.id, field_name));
                        proof {
                            found = found.push(Violation::MissingField(i as int));
                        }
                    }
                },
            }
            proof {
                let after = field_violations(self@, entity@, (i + 1) as nat);
                if after.len() != before.len() {
                    assert(of_type + after =~= (of_type + before).push(after.last()));
                }
                assert forall|k: int| 0 <= k < errors@.len() implies reports(
                    #[trigger] errors@[k],
                    self@,
                    entity@,
                    found[k],
                ) by {
                    if k < old_errors.len() {
                        assert(errors@[k] == old_errors[k]);
                        assert(found[k] == old_found[k]);
                    }
                }
            }
            i += 1;
        }
        if errors.len() == 0 {
            Ok(())
        } else {
            Err(errors)
        }
    }
}

} // verus!
