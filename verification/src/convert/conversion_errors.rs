//! What can go wrong when turning parsed blocks into entities and schemas.

use vstd::prelude::*;
use vstd::string::StringExecFns;

verus! {

/// A problem with an entity block.
#[derive(Debug, Clone, Copy, PartialEq, Eq, Structural)]
pub enum EntityConversionError {
    MissingEntityType,
    MissingEntityId,
    MissingFieldId,
    InvalidFieldValue,
}

impl EntityConversionError {
    /// The message of the error.
    pub open spec fn message(self) -> Seq<char> {
        match self {
            EntityConversionError::MissingEntityType => "Entity is missing required type"@,
            EntityConversionError::MissingEntityId => "Entity is missing required id"@,
            EntityConversionError::MissingFieldId => "Entity field is missing required id"@,
            EntityConversionError::InvalidFieldValue => "Entity field contains an invalid value"@,
        }
    }

    /// The message of the error.
    pub fn to_string(&self) -> (r: String)
        ensures
            r@ == self.message(),
    {
        match self {
            EntityConversionError::MissingEntityType => String::from_str(
                "Entity is missing required type",
            ),
            EntityConversionError::MissingEntityId => String::from_str(
                "Entity is missing required id",
            ),
            EntityConversionError::MissingFieldId => String::from_str(
                "Entity field is missing required id",
            ),
            EntityConversionError::InvalidFieldValue => String::from_str(
                "Entity field contains an invalid value",
            ),
        }
    }
}

/// A problem with a schema block.
#[derive(Debug, Clone, PartialEq, Eq)]
pub enum SchemaConversionError {
    MissingSchemaName,
    MissingFieldName,
    MissingFieldType,
    UnknownFieldType(String),
    InvalidFieldDefinition,
}

/// A problem with a schema block, its text as a character sequence.
pub enum SchemaErrorModel {
    MissingSchemaName,
    MissingFieldName,
    MissingFieldType,
    UnknownFieldType(Seq<char>),
    InvalidFieldDefinition,
}

impl View for SchemaConversionError {
    type V = SchemaErrorModel;

    open spec fn view(&self) -> SchemaErrorModel {
        match *self {
            SchemaConversionError::MissingSchemaName => SchemaErrorModel::MissingSchemaName,
            SchemaConversionError::MissingFieldName => SchemaErrorModel::MissingFieldName,
            SchemaConversionError::MissingFieldType => SchemaErrorModel::MissingFieldType,
            SchemaConversionError::UnknownFieldType(name) => SchemaErrorModel::UnknownFieldType(
                name@,
            ),
            SchemaConversionError::InvalidFieldDefinition => {
                SchemaErrorModel::InvalidFieldDefinition
            },
        }
    }
}

/// The message of a problem with a schema block.
pub open spec fn schema_error_message(error: SchemaErrorModel) -> Seq<char> {
    match error {
        SchemaErrorModel::MissingSchemaName => "Schema is missing required name"@,
        SchemaErrorModel::MissingFieldName => "Schema field is missing required name"@,
        SchemaErrorModel::MissingFieldType => "Schema field is missing required type"@,
        SchemaErrorModel::UnknownFieldType(name) => "Unknown field type: '"@ + name + "'"@,
        SchemaErrorModel::InvalidFieldDefinition => "Schema field definition is invalid"@,
    }
}

impl SchemaConversionError {
    /// The message of the error.
    pub fn to_string(&self) -> (r: String)
        ensures
            r@ == schema_error_message(self@),
    {
        match self {
            SchemaConversionError::MissingSchemaName => String::from_str(
                "Schema is missing required name",
            ),
            SchemaConversionError::MissingFieldName => String::from_str(
                "Schema field is missing required name",
            ),
            SchemaConversionError::MissingFieldType => String::from_str(
                "Schema field is missing required type",
            ),
            SchemaConversionError::UnknownFieldType(name) => {
                let mut message = String::from_str("Unknown field type: '");
                message.append(name.as_str());
                message.append("'");
                message
            },
            SchemaConversionError::InvalidFieldDefinition => String::from_str(
                "Schema field definition is invalid",
            ),
        }
    }
}

} // verus!
