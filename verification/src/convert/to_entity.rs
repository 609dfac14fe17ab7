//! From parsed entity blocks to entities.

use vstd::prelude::*;
use vstd::string::StringExecFns;
use crate::convert::conversion_errors::EntityConversionError;
use crate::datetime::{is_offset, local_offset_now};
use crate::entity::{deep_fields, lemma_deep_with, Entity, EntityModel};
use crate::field::{lemma_list_model, FieldModel, FieldValue, ReferenceModel, ReferenceValue};
use crate::field_map::model_with;
use crate::id::{compose_entity_id, compose_spec, EntityType, FieldId};
use crate::parser::parsed_entity::{field_nodes, ParsedEntity, ENTITY_ID_KIND, ENTITY_TYPE_KIND};
use crate::parser::parsed_field::{field_value_of, text_of_kind, FIELD_ID_KIND};
use crate::parser::parsed_value::{lemma_models_of, models_of, ParsedValue, ValueModel};
use crate::parser::tree::SyntaxNode;

verus! {

/// The field values that the first `upto` items of a parsed list become.
pub open spec fn converted_items(list: ValueModel, upto: nat) -> Seq<FieldModel>
    decreases list, 0nat, upto,
{
    if list is List && 0 < upto <= list->List_0.len() {
        converted_items(list, (upto - 1) as nat).push(converted(list->List_0[upto - 1]))
    } else {
        Seq::empty()
    }
}

/// The field value that a parsed value becomes. References get the composite
/// id of the entity they point at; everything else is taken as it is.
pub open spec fn converted(value: ValueModel) -> FieldModel
    decreases value, 1nat, 0nat,
{
    match value {
        ValueModel::Boolean(flag) => FieldModel::Boolean(flag),
        ValueModel::String(text) => FieldModel::String(text),
        ValueModel::Integer(number) => FieldModel::Integer(number),
        ValueModel::Float(number) => FieldModel::Float(number),
        ValueModel::Currency { mantissa, scale, code } => FieldModel::Currency {
            mantissa,
            scale,
            code,
        },
        ValueModel::EntityReference { entity_type, entity_id } => FieldModel::Reference(
            ReferenceModel::Entity(compose_spec(entity_type, entity_id)),
        ),
        ValueModel::FieldReference { entity_type, entity_id, field_id } => FieldModel::Reference(
            ReferenceModel::Field(compose_spec(entity_type, entity_id), field_id),
        ),
        ValueModel::List(items) => FieldModel::List(converted_items(value, items.len())),
        ValueModel::DateTime { timestamp, offset_seconds } => FieldModel::DateTime {
            timestamp,
            offset_seconds,
        },
        ValueModel::Path(path) => FieldModel::Path(path),
    }
}

/// The items of a converted list are the converted items, one for one.
pub proof fn lemma_converted_items(items: Seq<ValueModel>, upto: nat)
    requires
        upto <= items.len(),
    ensures
        converted_items(ValueModel::List(items), upto).len() == upto,
        forall|i: int|
            0 <= i < upto ==> #[trigger] converted_items(ValueModel::List(items), upto)[i]
                == converted(items[i]),
    decreases upto,
{
    if upto > 0 {
        lemma_converted_items(items, (upto - 1) as nat);
    }
}

/// The fields that the first `upto` field nodes of an entity block give:
/// each sets its name to its converted value, a later assignment to a name
/// replacing an earlier one. A node without a name or with a value that
/// cannot be read is an error, and the first error counts.
pub open spec fn fields_of(nodes: Seq<SyntaxNode>, upto: nat, local_offset: i32) -> Result<
    Seq<(Seq<char>, FieldModel)>,
    EntityConversionError,
>
    decreases upto,
{
    if 0 < upto <= nodes.len() {
        match fields_of(nodes, (upto - 1) as nat, local_offset) {
            Ok(fields) => match text_of_kind(nodes[upto - 1], FIELD_ID_KIND@) {
                Some(name) => match field_value_of(nodes[upto - 1], local_offset) {
                    Ok(value) => Ok(model_with(fields, name, converted(value))),
                    Err(_) => Err(EntityConversionError::InvalidFieldValue),
                },
                None => Err(EntityConversionError::MissingFieldId),
            },
            Err(error) => Err(error),
        }
    } else {
        Ok(Seq::empty())
    }
}

/// The entity that an entity block denotes. Its id is the composite of type
/// and local id; its type is the type as written.
pub open spec fn entity_of(node: SyntaxNode, local_offset: i32) -> Result<
    EntityModel,
    EntityConversionError,
> {
    match text_of_kind(node, ENTITY_TYPE_KIND@) {
        Some(entity_type) => match text_of_kind(node, ENTITY_ID_KIND@) {
            Some(local_id) => match fields_of(
                field_nodes(node),
                field_nodes(node).len(),
                local_offset,
            ) {
                Ok(fields) => Ok(
                    EntityModel { id: compose_spec(entity_type, local_id), entity_type, fields },
                ),
                Err(error) => Err(error),
            },
            None => Err(EntityConversionError::MissingEntityId),
        },
        None => Err(EntityConversionError::MissingEntityType),
    }
}

/// Once a field of an entity block has failed, the error stays.
pub proof fn lemma_field_error_stays(
    nodes: Seq<SyntaxNode>,
    failed: nat,
    upto: nat,
    local_offset: i32,
)
    requires
        fields_of(nodes, failed, local_offset) is Err,
        failed <= upto <= nodes.len(),
    ensures
        fields_of(nodes, upto, local_offset) == fields_of(nodes, failed, local_offset),
    decreases upto,
{
    if upto > failed {
        lemma_field_error_stays(nodes, failed, (upto - 1) as nat, local_offset);
    }
}

impl FieldValue {
    /// Makes a field value of a parsed value.
    pub fn from_parsed(parsed: &ParsedValue) -> (r: FieldValue)
        ensures
            r@ == converted(parsed@),
        decreases parsed,
    {
        match parsed {
            ParsedValue::Boolean(value) => FieldValue::Boolean(*value),
            ParsedValue::String(value) => FieldValue::String(value.clone()),
            ParsedValue::Integer(value) => FieldValue::Integer(*value),
            ParsedValue::Float(value) => FieldValue::Float(value.clone()),
            ParsedValue::Currency { amount, currency } => FieldValue::Currency {
                amount: *amount,
                currency: currency.clone(),
            },
            ParsedValue::EntityReference { entity_type, entity_id } => {
                let composite_id = compose_entity_id(entity_type.as_str(), entity_id.as_str());
                FieldValue::Reference(ReferenceValue::Entity(composite_id))
            },
            ParsedValue::FieldReference { entity_type, entity_id, field_id } => {
                let composite_id = compose_entity_id(entity_type.as_str(), entity_id.as_str());
                FieldValue::Reference(ReferenceValue::Field(composite_id, FieldId(field_id.clone())))
            },
            ParsedValue::List(values) => {
                let mut converted_values: Vec<FieldValue> = Vec::new();
                let mut i: usize = 0;
                while i < values.len()
                    invariant
                        i <= values.len(),
                        *parsed == ParsedValue::List(*values),
                        converted_values@.len() == i,
                        forall|j: int|
                            0 <= j < i ==> (#[trigger] converted_values@[j])@ == converted(
                                values@[j]@,
                            ),
                    decreases values.len() - i,
                {
                    proof {
                        vstd::std_specs::vec::axiom_vec_index_decreases(*values, i as int);
                        assert(parsed->List_0 == *values);
                        assert(decreases_to!(*parsed => parsed->List_0));
                    }
                    converted_values.push(FieldValue::from_parsed(&values[i]));
                    i += 1;
                }
                proof {
                    let models = models_of(*parsed, values.len() as nat);
                    lemma_models_of(*values, values.len() as nat);
                    lemma_converted_items(models, models.len());
                    lemma_list_model(
                        converted_values,
                        converted_items(ValueModel::List(models), models.len()),
                    );
                }
                FieldValue::List(converted_values)
            },
            ParsedValue::DateTime(value) => FieldValue::DateTime(*value),
            ParsedValue::Path(value) => FieldValue::Path(value.clone()),
        }
    }

    /// Makes a field value of a parsed value. This never fails.
    pub fn try_from(parsed: ParsedValue) -> (r: Result<FieldValue, EntityConversionError>)
        ensures
            r is Ok,
            r->Ok_0@ == converted(parsed@),
    {
        Ok(FieldValue::from_parsed(&parsed))
    }
}

impl Entity {
    /// Makes an entity of an entity block, dates and times without a zone
    /// taken at the given offset from UTC.
    pub fn try_from_at(parsed: &ParsedEntity, local_offset: i32) -> (r: Result<
        Entity,
        EntityConversionError,
    >)
        ensures
            match entity_of(*parsed.node, local_offset) {
                Ok(entity) => r is Ok && r->Ok_0@ == entity && r->Ok_0.fields.wf(),
                Err(error) => r == Err::<Entity, EntityConversionError>(error),
            },
    {
        let entity_type_str = match parsed.entity_type() {
            Some(text) => text,
            None => {
                return Err(EntityConversionError::MissingEntityType);
            },
        };
        let entity_id = match parsed.id() {
            Some(text) => text,
            None => {
                return Err(EntityConversionError::MissingEntityId);
            },
        };
        let composite_id = compose_entity_id(entity_type_str, entity_id);
        let mut entity = Entity::new(composite_id, EntityType(String::from_str(entity_type_str)));
        let fields = parsed.fields();
        let ghost nodes = field_nodes(*parsed.node);
        let mut i: usize = 0;
        proof {
            assert(deep_fields(entity.fields@) =~= Seq::<(Seq<char>, FieldModel)>::empty());
        }
        while i < fields.len()
            invariant
                i <= fields.len(),
                fields@.len() == nodes.len(),
                nodes == field_nodes(*parsed.node),
                text_of_kind(*parsed.node, ENTITY_TYPE_KIND@) == Some(entity_type_str@),
                text_of_kind(*parsed.node, ENTITY_ID_KIND@) == Some(entity_id@),
                forall|j: int| 0 <= j < fields@.len() ==> *(#[trigger] fields@[j]).node == nodes[j],
                entity.id@ == compose_spec(entity_type_str@, entity_id@),
                entity.entity_type@ == entity_type_str@,
                entity.fields.wf(),
                fields_of(nodes, i as nat, local_offset) == Ok::<
                    Seq<(Seq<char>, FieldModel)>,
                    EntityConversionError,
                >(deep_fields(entity.fields@)),
            decreases fields.len() - i,
        {
            let field = &fields[i];
            let field_id = match field.id() {
                Some(text) => text,
                None => {
                    proof {
                        lemma_field_error_stays(nodes, (i + 1) as nat, nodes.len(), local_offset);
                    }
                    return Err(EntityConversionError::MissingFieldId);
                },
            };
            let parsed_value = match field.value_at(local_offset) {
                Ok(value) => value,
                Err(_) => {
                    proof {
                        lemma_field_error_stays(nodes, (i + 1) as nat, nodes.len(), local_offset);
                    }
                    return Err(EntityConversionError::InvalidFieldValue);
                },
            };
            let field_value = FieldValue::from_parsed(&parsed_value);
            proof {
                lemma_deep_with(entity.fields@, field_id@, field_value);
            }
            entity.fields.insert(FieldId(String::from_str(field_id)), field_value);
            i += 1;
        }
        Ok(entity)
    }

    /// Makes an entity of an entity block, dates and times without a zone
    /// taken at the machine's present offset from UTC.
    pub fn try_from(parsed: &ParsedEntity) -> (r: Result<Entity, EntityConversionError>)
        ensures
            exists|offset: i32|
                is_offset(offset as int) && match #[trigger] entity_of(*parsed.node, offset) {
                    Ok(entity) => r is Ok && r->Ok_0@ == entity && r->Ok_0.fields.wf(),
                    Err(error) => r == Err::<Entity, EntityConversionError>(error),
                },
    {
        let offset = local_offset_now();
        Entity::try_from_at(parsed, offset)
    }
}

} // verus!
