//! From parsed schema blocks to schemas.

use vstd::prelude::*;
use crate::convert::conversion_errors::{SchemaConversionError, SchemaErrorModel};
use crate::field::FieldType;
use crate::field_map::model_with;
use crate::id::{snake_case_of, EntityType, FieldId};
use crate::parser::parsed_field::text_of_kind;
use crate::parser::parsed_schema::{definition_nodes, ParsedSchema, SCHEMA_NAME_KIND};
use crate::parser::parsed_schema_field::{assigned_string, says_required};
use crate::parser::tree::SyntaxNode;
use crate::schema::{EntitySchema, FieldMode, FieldSchema, SchemaModel};
use crate::text::str_equal;

verus! {

/// The field type that a name in a schema stands for.
pub open spec fn field_type_of(name: Seq<char>) -> Option<FieldType> {
    if name == "boolean"@ {
        Some(FieldType::Boolean)
    } else if name == "string"@ {
        Some(FieldType::String)
    } else if name == "integer"@ {
        Some(FieldType::Integer)
    } else if name == "float"@ {
        Some(FieldType::Float)
    } else if name == "currency"@ {
        Some(FieldType::Currency)
    } else if name == "reference"@ {
        Some(FieldType::Reference)
    } else if name == "list"@ {
        Some(FieldType::List)
    } else if name == "datetime"@ {
        Some(FieldType::DateTime)
    } else if name == "path"@ {
        Some(FieldType::Path)
    } else {
        None
    }
}

/// The fields that the first `upto` field definitions of a schema block
/// give, each listed after those before it. A definition without a name or
/// a type, or with a type that is not known, is an error, and the first
/// error counts.
pub open spec fn schema_fields_of(nodes: Seq<SyntaxNode>, upto: nat) -> Result<
    Seq<(Seq<char>, FieldSchema)>,
    SchemaErrorModel,
>
    decreases upto,
{
    if 0 < upto <= nodes.len() {
        match schema_fields_of(nodes, (upto - 1) as nat) {
            Ok(fields) => match assigned_string(nodes[upto - 1], "name"@) {
                Ok(name) => match assigned_string(nodes[upto - 1], "type"@) {
                    Ok(type_text) => match field_type_of(type_text) {
                        Some(field_type) => Ok(
                            model_with(
                                fields,
                                name,
                                FieldSchema {
                                    field_type,
                                    field_mode: if says_required(nodes[upto - 1]) {
                                        FieldMode::Required
                                    } else {
                                        FieldMode::Optional
                                    },
                                    order: fields.len() as usize,
                                },
                            ),
                        ),
                        None => Err(SchemaErrorModel::UnknownFieldType(type_text)),
                    },
                    Err(_) => Err(SchemaErrorModel::MissingFieldType),
                },
                Err(_) => Err(SchemaErrorModel::MissingFieldName),
            },
            Err(error) => Err(error),
        }
    } else {
        Ok(Seq::empty())
    }
}

/// The schema that a schema block denotes: its name in normal form as the
/// entity type, and the fields of its definitions.
pub open spec fn schema_of(node: SyntaxNode) -> Result<SchemaModel, SchemaErrorModel> {
    match text_of_kind(node, SCHEMA_NAME_KIND@) {
        Some(name) => match schema_fields_of(definition_nodes(node), definition_nodes(node).len()) {
            Ok(fields) => Ok(SchemaModel { entity_type: snake_case_of(name), fields }),
            Err(error) => Err(error),
        },
        None => Err(SchemaErrorModel::MissingSchemaName),
    }
}

/// Once a field definition has failed, the error stays.
pub proof fn lemma_definition_error_stays(nodes: Seq<SyntaxNode>, failed: nat, upto: nat)
    requires
        schema_fields_of(nodes, failed) is Err,
        failed <= upto <= nodes.len(),
    ensures
        schema_fields_of(nodes, upto) == schema_fields_of(nodes, failed),
    decreases upto,
{
    if upto > failed {
        lemma_definition_error_stays(nodes, failed, (upto - 1) as nat);
    }
}

/// Reads the name of a field type.
pub fn convert_field_type(type_str: &str) -> (r: Result<FieldType, SchemaConversionError>)
    ensures
        match field_type_of(type_str@) {
            Some(field_type) => r == Ok::<FieldType, SchemaConversionError>(field_type),
            None => r is Err && r->Err_0@ == SchemaErrorModel::UnknownFieldType(type_str@),
        },
{
    if str_equal(type_str, "boolean") {
        Ok(FieldType::Boolean)
    } else if str_equal(type_str, "string") {
        Ok(FieldType::String)
    } else if str_equal(type_str, "integer") {
        Ok(FieldType::Integer)
    } else if str_equal(type_str, "float") {
        Ok(FieldType::Float)
    } else if str_equal(type_str, "currency") {
        Ok(FieldType::Currency)
    } else if str_equal(type_str, "reference") {
        Ok(FieldType::Reference)
    } else if str_equal(type_str, "list") {
        Ok(FieldType::List)
    } else if str_equal(type_str, "datetime") {
        Ok(FieldType::DateTime)
    } else if str_equal(type_str, "path") {
        Ok(FieldType::Path)
    } else {
        Err(SchemaConversionError::UnknownFieldType(type_str.to_owned()))
    }
}

impl EntitySchema {
    /// Makes a schema of a schema block. The name of the schema is brought
    /// into normal form and becomes the entity type.
    pub fn try_from(parsed: &ParsedSchema) -> (r: Result<EntitySchema, SchemaConversionError>)
        ensures
            match schema_of(*parsed.node) {
                Ok(schema) => r is Ok && r->Ok_0@ == schema && r->Ok_0.fields.wf(),
                Err(error) => r is Err && r->Err_0@ == error,
            },
    {
        let schema_name = match parsed.name() {
            Some(name) => name,
            None => {
                return Err(SchemaConversionError::MissingSchemaName);
            },
        };
        let mut schema = EntitySchema::new(EntityType::new(schema_name));
        let fields = parsed.fields();
        let ghost nodes = definition_nodes(*parsed.node);
        let mut i: usize = 0;
        while i < fields.len()
            invariant
                i <= fields.len(),
                fields@.len() == nodes.len(),
                nodes == definition_nodes(*parsed.node),
                text_of_kind(*parsed.node, SCHEMA_NAME_KIND@) == Some(schema_name@),
                forall|j: int| 0 <= j < fields@.len() ==> *(#[trigger] fields@[j]).node == nodes[j],
                schema.entity_type@ == snake_case_of(schema_name@),
                schema.fields.wf(),
                schema_fields_of(nodes, i as nat) == Ok::<
                    Seq<(Seq<char>, FieldSchema)>,
                    SchemaErrorModel,
                >(schema.fields@),
            decreases fields.len() - i,
        {
            let field = &fields[i];
            let field_name = match field.name() {
                Ok(name) => name,
                Err(_) => {
                    proof {
                        lemma_definition_error_stays(nodes, (i + 1) as nat, nodes.len());
                    }
                    return Err(SchemaConversionError::MissingFieldName);
                },
            };
            let field_type_str = match field.field_type() {
                Ok(name) => name,
                Err(_) => {
                    proof {
                        lemma_definition_error_stays(nodes, (i + 1) as nat, nodes.len());
                    }
                    return Err(SchemaConversionError::MissingFieldType);
                },
            };
            let field_type = match convert_field_type(field_type_str.as_str()) {
                Ok(field_type) => field_type,
                Err(error) => {
                    proof {
                        lemma_definition_error_stays(nodes, (i + 1) as nat, nodes.len());
                    }
                    return Err(error);
                },
            };
            let order = schema.next_order();
            let field_schema = if field.required() {
                FieldSchema::new(field_type, FieldMode::Required, order)
            } else {
                FieldSchema::new(field_type, FieldMode::Optional, order)
            };
            schema.fields.insert(FieldId(field_name), field_schema);
            i += 1;
        }
        Ok(schema)
    }
}

} // verus!
