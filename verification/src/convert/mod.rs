//! Turning parsed blocks into entities and schemas.

pub mod conversion_errors;
pub mod to_entity;
pub mod to_schema;

pub use conversion_errors::{EntityConversionError, SchemaConversionError};
pub use to_schema::convert_field_type;
