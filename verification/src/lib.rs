//! Typed business records: identifiers, field values, schemas, the entity
//! graph with reference resolution, and the reader that turns a syntax tree
//! into those values.

pub mod amount;
pub mod cli;
pub mod convert;
pub mod datetime;
pub mod entity;
pub mod field;
pub mod field_map;
pub mod generate;
pub mod graph;
pub mod id;
pub mod number;
pub mod parser;
pub mod paths;
pub mod prompt;
pub mod scan;
pub mod schema;
pub mod text;
pub mod workspace;

pub use entity::Entity;
pub use field::{FieldType, FieldValue, FloatValue, ReferenceValue};
pub use id::{compose_entity_id, decompose_entity_id, EntityId, EntityType, FieldId};
pub use schema::EntitySchema;
