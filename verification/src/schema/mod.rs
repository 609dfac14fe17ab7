//! Schemas: which fields the entities of a type have, of which type, and
//! which of them are required.

use vstd::prelude::*;
use crate::field::FieldType;
use crate::field_map::{model_with, FieldMap};
use crate::id::snake_case_of;
use crate::id::{EntityType, FieldId};

pub mod builtin;
pub mod validation;
pub mod validation_errors;

pub use validation::ValidationResult;
pub use validation_errors::{ValidationError, ValidationErrorType};

verus! {

/// Whether a field must be there.
#[derive(Debug, Clone, Copy, PartialEq, Eq, Structural)]
pub enum FieldMode {
    Required,
    Optional,
}

/// The schema of a field: its type, whether it is required, and its place
/// in listings.
#[derive(Debug, Clone, Copy, PartialEq, Eq, Structural)]
pub struct FieldSchema {
    pub field_type: FieldType,
    pub field_mode: FieldMode,
    pub order: usize,
}

impl FieldSchema {
    /// Makes the schema of a field.
    pub fn new(field_type: FieldType, field_mode: FieldMode, order: usize) -> (r: Self)
        ensures
            r == (FieldSchema { field_type, field_mode, order }),
    {
        FieldSchema { field_type, field_mode, order }
    }

    /// The type that the field's value must have.
    pub fn expected_type(&self) -> (r: &FieldType)
        ensures
            *r == self.field_type,
    {
        &self.field_type
    }

    /// Whether the field is required.
    pub fn is_required(&self) -> (r: bool)
        ensures
            r == (self.field_mode == FieldMode::Required),
    {
        self.field_mode == FieldMode::Required
    }
}

/// The schema of an entity type.
#[derive(Debug, Clone, PartialEq)]
pub struct EntitySchema {
    pub entity_type: EntityType,
    pub fields: FieldMap<FieldSchema>,
}

/// A schema, its texts as character sequences.
pub struct SchemaModel {
    pub entity_type: Seq<char>,
    pub fields: Seq<(Seq<char>, FieldSchema)>,
}

impl View for EntitySchema {
    type V = SchemaModel;

    open spec fn view(&self) -> SchemaModel {
        SchemaModel { entity_type: self.entity_type@, fields: self.fields@ }
    }
}

/// Whether the field at `a` comes before the field at `b` in a listing by
/// order: its order is less, or the orders are the same and it was set first.
pub open spec fn listed_before(entries: Seq<(FieldId, FieldSchema)>, a: int, b: int) -> bool {
    entries[a].1.order < entries[b].1.order || (entries[a].1.order == entries[b].1.order && a < b)
}

/// Whether `listing` names every field once, in ascending order, fields of
/// the same order in the order in which they were set.
pub open spec fn lists_by_order(entries: Seq<(FieldId, FieldSchema)>, listing: Seq<usize>) -> bool {
    &&& listing.len() == entries.len()
    &&& forall|i: int| 0 <= i < listing.len() ==> (#[trigger] listing[i]) < entries.len()
    &&& forall|i: int, j: int|
        0 <= i < j < listing.len() ==> listed_before(
            entries,
            (#[trigger] listing[i]) as int,
            (#[trigger] listing[j]) as int,
        )
}

/// The fields of a schema after the common fields were added to it.
pub open spec fn with_metadata_fields(fields: Seq<(Seq<char>, FieldSchema)>) -> Seq<
    (Seq<char>, FieldSchema),
> {
    model_with(
        model_with(
            model_with(
                fields,
                snake_case_of("notes"@),
                FieldSchema {
                    field_type: FieldType::String,
                    field_mode: FieldMode::Optional,
                    order: 100,
                },
            ),
            snake_case_of("created_at"@),
            FieldSchema {
                field_type: FieldType::DateTime,
                field_mode: FieldMode::Optional,
                order: 101,
            },
        ),
        snake_case_of("updated_at"@),
        FieldSchema { field_type: FieldType::DateTime, field_mode: FieldMode::Optional, order: 102 },
    )
}

/// A schema as it is shown to a reader: the entity type on a line, then for
/// each of the first `upto` fields of the listing a blank line, the field's
/// id, its type and whether it is required.
pub open spec fn schema_text(schema: SchemaModel, listing: Seq<usize>, upto: nat) -> Seq<char>
    decreases upto,
{
    if 0 < upto <= listing.len() {
        let field = schema.fields[listing[upto - 1] as int];
        schema_text(schema, listing, (upto - 1) as nat) + "\n"@ + field.0 + "\n- Type: "@
            + field.1.field_type.name_spec() + "\n- Required: "@ + (if field.1.field_mode
            == FieldMode::Required {
            "true"@
        } else {
            "false"@
        }) + "\n"@
    } else {
        schema.entity_type + "\n"@
    }
}

impl EntitySchema {
    /// Creates a schema without fields for an entity type.
    pub fn new(entity_type: EntityType) -> (r: Self)
        ensures
            r.entity_type == entity_type,
            r.fields.entries().len() == 0,
            r.fields@ == Seq::<(Seq<char>, FieldSchema)>::empty(),
            r.fields.wf(),
    {
        EntitySchema { entity_type, fields: FieldMap::new() }
    }

    /// Sets the schema of a field and hands the schema back.
    pub fn add_field_schema(self, id: FieldId, field_schema: FieldSchema) -> (r: Self)
        ensures
            r.entity_type == self.entity_type,
            r.fields.entries() == self.fields.with(id, field_schema),
            r.fields@ == model_with(self.fields@, id@, field_schema),
            r.fields.has(id@),
            r.fields.value(id@) == field_schema,
            self.fields.wf() ==> r.fields.wf(),
    {
        let mut schema = self;
        schema.fields.insert(id, field_schema);
        schema
    }

    /// Sets the schema of a field as given, with its order.
    pub fn with_raw_field(self, id: FieldId, schema: FieldSchema) -> (r: Self)
        ensures
            r.entity_type == self.entity_type,
            r.fields.entries() == self.fields.with(id, schema),
            r.fields@ == model_with(self.fields@, id@, schema),
            r.fields.has(id@),
            r.fields.value(id@) == schema,
            self.fields.wf() ==> r.fields.wf(),
    {
        self.add_field_schema(id, schema)
    }

    /// Adds a required field; its order is the number of fields so far.
    pub fn with_required_field(self, id: FieldId, field_type: FieldType) -> (r: Self)
        ensures
            r.entity_type == self.entity_type,
            r.fields.entries() == self.fields.with(
                id,
                FieldSchema {
                    field_type,
                    field_mode: FieldMode::Required,
                    order: self.fields.entries().len() as usize,
                },
            ),
            r.fields@ == model_with(
                self.fields@,
                id@,
                FieldSchema {
                    field_type,
                    field_mode: FieldMode::Required,
                    order: self.fields@.len() as usize,
                },
            ),
            r.fields.has(id@),
            self.fields.wf() ==> r.fields.wf(),
    {
        let order = self.next_order();
        self.add_field_schema(id, FieldSchema::new(field_type, FieldMode::Required, order))
    }

    /// Adds an optional field; its order is the number of fields so far.
    pub fn with_optional_field(self, id: FieldId, field_type: FieldType) -> (r: Self)
        ensures
            r.entity_type == self.entity_type,
            r.fields.entries() == self.fields.with(
                id,
                FieldSchema {
                    field_type,
                    field_mode: FieldMode::Optional,
                    order: self.fields.entries().len() as usize,
                },
            ),
            r.fields@ == model_with(
                self.fields@,
                id@,
                FieldSchema {
                    field_type,
                    field_mode: FieldMode::Optional,
                    order: self.fields@.len() as usize,
                },
            ),
            r.fields.has(id@),
            self.fields.wf() ==> r.fields.wf(),
    {
        let order = self.next_order();
        self.add_field_schema(id, FieldSchema::new(field_type, FieldMode::Optional, order))
    }

    /// Adds the fields that every built-in schema has: optional `notes`,
    /// `created_at` and `updated_at`, listed after all others.
    pub fn with_metadata(self) -> (r: Self)
        ensures
            r.entity_type == self.entity_type,
            r.fields@ == with_metadata_fields(self.fields@),
            self.fields.wf() ==> r.fields.wf(),
    {
        self.with_raw_field(
            FieldId::new("notes"),
            FieldSchema::new(FieldType::String, FieldMode::Optional, 100),
        ).with_raw_field(
            FieldId::new("created_at"),
            FieldSchema::new(FieldType::DateTime, FieldMode::Optional, 101),
        ).with_raw_field(
            FieldId::new("updated_at"),
            FieldSchema::new(FieldType::DateTime, FieldMode::Optional, 102),
        )
    }

    /// The positions of the fields, listed by order.
    pub fn order_listing(&self) -> (r: Vec<usize>)
        ensures
            lists_by_order(self.fields.entries(), r@),
    {
        let count = self.fields.len();
        let mut listing: Vec<usize> = Vec::new();
        let mut i: usize = 0;
        while i < count
            invariant
                i <= count,
                count == self.fields.entries().len(),
                listing@.len() == i,
                forall|m: int| 0 <= m < listing@.len() ==> (#[trigger] listing@[m]) < i,
                forall|a: int, b: int|
                    0 <= a < b < listing@.len() ==> listed_before(
                        self.fields.entries(),
                        (#[trigger] listing@[a]) as int,
                        (#[trigger] listing@[b]) as int,
                    ),
            decreases count - i,
        {
            let order = self.fields.value_at(i).order;
            let mut at: usize = 0;
            while at < listing.len() && self.fields.value_at(listing[at]).order <= order
                invariant
                    at <= listing@.len(),
                    i < count,
                    count == self.fields.entries().len(),
                    order == self.fields.entries()[i as int].1.order,
                    forall|m: int| 0 <= m < listing@.len() ==> (#[trigger] listing@[m]) < i,
                    forall|m: int|
                        0 <= m < at ==> self.fields.entries()[(#[trigger] listing@[m]) as int].1.order
                            <= order,
                decreases listing@.len() - at,
            {
                at += 1;
            }
            let ghost before = listing@;
            listing.insert(at, i);
            proof {
                let after = listing@;
                let entries = self.fields.entries();
                assert forall|m: int| 0 <= m < after.len() implies (#[trigger] after[m]) < i + 1 by {
                    if m < at {
                        assert(after[m] == before[m]);
                    } else if m > at {
                        assert(after[m] == before[m - 1]);
                    }
                }
                assert forall|b: int| at <= b < before.len() implies order < entries[(
                #[trigger] before[b]) as int].1.order by {
                    if b > at {
                        assert(listed_before(entries, before[at as int] as int, before[b] as int));
                    }
                }
                assert forall|a: int, b: int| 0 <= a < b < after.len() implies listed_before(
                    entries,
                    (#[trigger] after[a]) as int,
                    (#[trigger] after[b]) as int,
                ) by {
                    let old_a = if a < at {
                        a
                    } else {
                        a - 1
                    };
                    let old_b = if b < at {
                        b
                    } else {
                        b - 1
                    };
                    if a != at {
                        assert(after[a] == before[old_a]);
                    }
                    if b != at {
                        assert(after[b] == before[old_b]);
                    }
                    if a != at && b != at {
                        assert(listed_before(entries, before[old_a] as int, before[old_b] as int));
                    }
                }
            }
            i += 1;
        }
        listing
    }

    /// The fields with their schemas, listed by order.
    pub fn ordered_fields(&self) -> (r: Vec<(&FieldId, &FieldSchema)>)
        ensures
            exists|listing: Seq<usize>|
                {
                    &&& lists_by_order(self.fields.entries(), listing)
                    &&& r@.len() == listing.len()
                    &&& forall|i: int|
                        0 <= i < r@.len() ==> *(#[trigger] r@[i]).0 == self.fields.entries()[listing[i] as int].0
                            && *r@[i].1 == self.fields.entries()[listing[i] as int].1
                },
    {
        let listing = self.order_listing();
        let mut ordered: Vec<(&FieldId, &FieldSchema)> = Vec::new();
        let mut i: usize = 0;
        while i < listing.len()
            invariant
                i <= listing@.len(),
                lists_by_order(self.fields.entries(), listing@),
                ordered@.len() == i,
                forall|m: int|
                    0 <= m < i ==> *(#[trigger] ordered@[m]).0 == self.fields.entries()[listing@[m] as int].0
                        && *ordered@[m].1 == self.fields.entries()[listing@[m] as int].1,
            decreases listing@.len() - i,
        {
            let at = listing[i];
            ordered.push((self.fields.key_at(at), self.fields.value_at(at)));
            i += 1;
        }
        ordered
    }

    /// Writes the schema for a reader: the entity type, then each field in
    /// listing order with its type and whether it is required.
    pub fn to_string(&self) -> (r: String)
        ensures
            exists|listing: Seq<usize>|
                lists_by_order(self.fields.entries(), listing) && r@ == schema_text(
                    self@,
                    listing,
                    listing.len(),
                ),
    {
        let listing = self.order_listing();
        let mut text = self.entity_type.to_string();
        vstd::string::StringExecFns::append(&mut text, "\n");
        let mut i: usize = 0;
        while i < listing.len()
            invariant
                i <= listing@.len(),
                lists_by_order(self.fields.entries(), listing@),
                text@ == schema_text(self@, listing@, i as nat),
            decreases listing@.len() - i,
        {
            let at = listing[i];
            let field_id = self.fields.key_at(at);
            let field_schema = self.fields.value_at(at);
            let ghost before = text@;
            assert(self@.fields[at as int] == (field_id@, *field_schema));
            vstd::string::StringExecFns::append(&mut text, "\n");
            vstd::string::StringExecFns::append(&mut text, field_id.as_str());
            vstd::string::StringExecFns::append(&mut text, "\n- Type: ");
            vstd::string::StringExecFns::append(&mut text, field_schema.expected_type().name());
            vstd::string::StringExecFns::append(&mut text, "\n- Required: ");
            vstd::string::StringExecFns::append(
                &mut text,
                if field_schema.is_required() {
                    "true"
                } else {
                    "false"
                },
            );
            vstd::string::StringExecFns::append(&mut text, "\n");
            i += 1;
        }
        text
    }

    /// The order that the next field gets: the number of fields so far.
    pub fn next_order(&self) -> (r: usize)
        ensures
            r == self.fields.entries().len(),
    {
        self.fields.len()
    }
}

} // verus!
