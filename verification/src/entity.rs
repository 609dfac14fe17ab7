//! Entities: typed records with a unique id and a map of field values.

use vstd::prelude::*;
use vstd::string::StringExecFns;
use crate::field::{shown, FieldModel, FieldValue};
use crate::field_map::{lemma_position_in, model_keys, model_with, FieldMap};
use crate::id::{EntityId, EntityType, FieldId};

verus! {

/// A business entity.
#[derive(Debug, Clone, PartialEq)]
pub struct Entity {
    pub id: EntityId,
    pub entity_type: EntityType,
    pub fields: FieldMap<FieldValue>,
}

/// An entity, its texts as character sequences.
pub struct EntityModel {
    pub id: Seq<char>,
    pub entity_type: Seq<char>,
    pub fields: Seq<(Seq<char>, FieldModel)>,
}

/// Pairs of field id and value, the values as models.
pub open spec fn deep_fields(fields: Seq<(Seq<char>, FieldValue)>) -> Seq<(Seq<char>, FieldModel)> {
    Seq::new(fields.len(), |i: int| (fields[i].0, fields[i].1@))
}

/// Setting a field and taking models can be done in either order.
pub proof fn lemma_deep_with(fields: Seq<(Seq<char>, FieldValue)>, key: Seq<char>, value: FieldValue)
    ensures
        deep_fields(model_with(fields, key, value)) == model_with(deep_fields(fields), key, value@),
{
    assert(model_keys(deep_fields(fields)) =~= model_keys(fields));
    lemma_position_in(model_keys(fields), key);
    assert(deep_fields(model_with(fields, key, value)) =~= model_with(
        deep_fields(fields),
        key,
        value@,
    ));
}

impl View for Entity {
    type V = EntityModel;

    open spec fn view(&self) -> EntityModel {
        EntityModel {
            id: self.id@,
            entity_type: self.entity_type@,
            fields: deep_fields(self.fields@),
        }
    }
}

/// The fields `0..upto` of an entity as they are shown to a reader, one line
/// each.
pub open spec fn shown_fields(entity: Entity, upto: nat) -> Seq<char>
    decreases upto,
{
    if 0 < upto <= entity.fields.entries().len() {
        let entry = entity.fields.entries()[upto - 1];
        shown_fields(entity, (upto - 1) as nat) + "- "@ + entry.0@ + ": "@ + shown(entry.1) + "\n"@
    } else {
        Seq::empty()
    }
}

/// An entity as it is shown to a reader: id and type on a line, then the
/// fields in the order in which they were set.
pub open spec fn shown_entity(entity: Entity) -> Seq<char> {
    entity.id@ + " ("@ + entity.entity_type@ + ")\n"@ + shown_fields(
        entity,
        entity.fields.entries().len(),
    )
}

impl Entity {
    /// Writes the entity as it is shown to a reader.
    pub fn to_string(&self) -> (r: String)
        ensures
            r@ == shown_entity(*self),
    {
        let mut text = self.id.to_string();
        text.append(" (");
        text.append(self.entity_type.as_str());
        text.append(")\n");
        let ghost head = text@;
        let count = self.fields.len();
        let mut i: usize = 0;
        proof {
            assert(head + shown_fields(*self, 0) =~= head);
        }
        while i < count
            invariant
                i <= count,
                count == self.fields.entries().len(),
                text@ == head + shown_fields(*self, i as nat),
            decreases count - i,
        {
            let ghost before = shown_fields(*self, i as nat);
            let value = self.fields.value_at(i).to_string();
            text.append("- ");
            text.append(self.fields.key_at(i).as_str());
            text.append(": ");
            text.append(value.as_str());
            text.append("\n");
            proof {
                let entry = self.fields.entries()[i as int];
                assert(((((head + before) + "- "@) + entry.0@) + ": "@) + value@ + "\n"@ =~= head + (
                before + "- "@ + entry.0@ + ": "@ + shown(entry.1) + "\n"@));
            }
            i += 1;
        }
        text
    }

    /// Creates an entity with the given id and type and no fields.
    pub fn new(id: EntityId, entity_type: EntityType) -> (r: Self)
        ensures
            r.id == id,
            r.entity_type == entity_type,
            r.fields.entries().len() == 0,
            r.fields.wf(),
    {
        Entity { id, entity_type, fields: FieldMap::new() }
    }

    /// Sets a field and hands the entity back.
    pub fn with_field(self, id: FieldId, value: FieldValue) -> (r: Self)
        ensures
            r.id == self.id,
            r.entity_type == self.entity_type,
            r.fields.entries() == self.fields.with(id, value),
            r.fields@ == model_with(self.fields@, id@, value),
            r.fields.has(id@),
            r.fields.value(id@) == value,
            self.fields.wf() ==> r.fields.wf(),
    {
        let mut entity = self;
        entity.fields.insert(id, value);
        entity
    }

    /// The value of a field, if the entity has it.
    pub fn get_field(&self, id: &FieldId) -> (r: Option<&FieldValue>)
        ensures
            r is Some <==> self.fields.has(id@),
            r is Some ==> *r->0 == self.fields.value(id@),
    {
        self.fields.get(id)
    }
}

} // verus!
