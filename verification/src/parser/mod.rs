//! Reading a syntax tree: entities, schemas, fields and their typed values.

pub mod parsed_entity;
pub mod parsed_field;
pub mod parsed_schema;
pub mod parsed_schema_field;
pub mod parsed_source;
pub mod parsed_value;
pub mod parser_errors;
pub mod parser_utils;
pub mod source;
pub mod tree;

pub use parsed_entity::ParsedEntity;
pub use parsed_field::ParsedField;
pub use parsed_schema::ParsedSchema;
pub use parsed_schema_field::ParsedSchemaField;
pub use parsed_source::ParsedSource;
pub use parsed_value::ParsedValue;
pub use parser_errors::{LanguageError, ValueParseError};
pub use parser_utils::{find_child_of_kind, get_node_text};
pub use source::parse_source;
pub use tree::SyntaxNode;
