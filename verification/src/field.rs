//! Field values and their types.

use vstd::prelude::*;
use vstd::string::StringExecFns;
use crate::amount::{CurrencyCode, DecimalValue};
use crate::datetime::DateTimeValue;
use crate::id::{EntityId, FieldId};
use crate::number::{is_float_literal, is_float_text};

verus! {

/// The type of a field value.
#[derive(Debug, Clone, Copy, PartialEq, Eq, Structural)]
pub enum FieldType {
    Boolean,
    String,
    Integer,
    Float,
    Currency,
    Reference,
    List,
    DateTime,
    Path,
}

impl FieldType {
    /// The name of the type.
    pub open spec fn name_spec(self) -> Seq<char> {
        match self {
            FieldType::Boolean => "Boolean"@,
            FieldType::String => "String"@,
            FieldType::Integer => "Integer"@,
            FieldType::Float => "Float"@,
            FieldType::Currency => "Currency"@,
            FieldType::Reference => "Reference"@,
            FieldType::List => "List"@,
            FieldType::DateTime => "DateTime"@,
            FieldType::Path => "Path"@,
        }
    }

    /// The name of the type.
    pub fn name(&self) -> (r: &'static str)
        ensures
            r@ == self.name_spec(),
    {
        match self {
            FieldType::Boolean => "Boolean",
            FieldType::String => "String",
            FieldType::Integer => "Integer",
            FieldType::Float => "Float",
            FieldType::Currency => "Currency",
            FieldType::Reference => "Reference",
            FieldType::List => "List",
            FieldType::DateTime => "DateTime",
            FieldType::Path => "Path",
        }
    }

    /// The name of the type, as an owned string.
    pub fn to_string(&self) -> (r: String)
        ensures
            r@ == self.name_spec(),
    {
        String::from_str(self.name())
    }
}

/// A number with a fraction, kept as the literal that denotes it.
///
/// The library compares and prints such numbers and never computes with
/// them, so it keeps the digits as they were written.
#[derive(Debug, PartialEq, Eq, Hash)]
pub struct FloatValue(pub String);

impl View for FloatValue {
    type V = Seq<char>;

    open spec fn view(&self) -> Seq<char> {
        self.0@
    }
}

impl Clone for FloatValue {
    fn clone(&self) -> (r: Self)
        ensures
            r == *self,
    {
        FloatValue(self.0.clone())
    }
}

impl FloatValue {
    /// Reads a literal; `None` for a text that is no floating-point literal.
    pub fn parse(literal: &str) -> (r: Option<Self>)
        ensures
            r is Some <==> is_float_text(literal@),
            r is Some ==> r->0@ == literal@,
    {
        if is_float_literal(literal) {
            Some(FloatValue(literal.to_owned()))
        } else {
            None
        }
    }

    /// The literal.
    pub fn as_str(&self) -> (r: &str)
        ensures
            r@ == self@,
    {
        self.0.as_str()
    }
}

/// A reference to an entity or to one of its fields.
#[derive(Debug, Clone, PartialEq)]
pub enum ReferenceValue {
    Entity(EntityId),
    Field(EntityId, FieldId),
}

impl ReferenceValue {
    /// The reference as text: the entity id, then a dot and the field id for
    /// a reference to a field.
    pub open spec fn text(self) -> Seq<char> {
        match self {
            ReferenceValue::Entity(entity_id) => entity_id@,
            ReferenceValue::Field(entity_id, field_id) => entity_id@ + seq!['.'] + field_id@,
        }
    }

    /// Writes the reference as text.
    pub fn to_string(&self) -> (r: String)
        ensures
            r@ == self.text(),
    {
        match self {
            ReferenceValue::Entity(entity_id) => entity_id.to_string(),
            ReferenceValue::Field(entity_id, field_id) => {
                let mut text = entity_id.to_string();
                proof {
                    reveal_strlit(".");
                    assert("."@ =~= seq!['.']);
                }
                text.append(".");
                text.append(field_id.as_str());
                text
            },
        }
    }
}

/// The value of a field of an entity.
#[derive(Debug, PartialEq)]
pub enum FieldValue {
    Boolean(bool),
    String(String),
    Integer(i64),
    Float(FloatValue),
    Currency { amount: DecimalValue, currency: CurrencyCode },
    Reference(ReferenceValue),
    List(Vec<FieldValue>),
    DateTime(DateTimeValue),
    Path(String),
}

/// A reference, its ids as character sequences.
pub enum ReferenceModel {
    Entity(Seq<char>),
    Field(Seq<char>, Seq<char>),
}

/// A field value, its texts as character sequences.
pub enum FieldModel {
    Boolean(bool),
    String(Seq<char>),
    Integer(i64),
    Float(Seq<char>),
    Currency { mantissa: i128, scale: u32, code: Seq<char> },
    Reference(ReferenceModel),
    List(Seq<FieldModel>),
    DateTime { timestamp: i64, offset_seconds: i32 },
    Path(Seq<char>),
}

impl View for ReferenceValue {
    type V = ReferenceModel;

    open spec fn view(&self) -> ReferenceModel {
        match *self {
            ReferenceValue::Entity(entity_id) => ReferenceModel::Entity(entity_id@),
            ReferenceValue::Field(entity_id, field_id) => ReferenceModel::Field(
                entity_id@,
                field_id@,
            ),
        }
    }
}

/// The models of the first `upto` items of a list value.
pub open spec fn field_models_of(list: FieldValue, upto: nat) -> Seq<FieldModel>
    decreases list, 0nat, upto,
{
    if list is List && 0 < upto <= list->List_0.len() {
        field_models_of(list, (upto - 1) as nat).push(field_model_of(list->List_0[upto - 1]))
    } else {
        Seq::empty()
    }
}

/// The model of a field value.
pub open spec fn field_model_of(value: FieldValue) -> FieldModel
    decreases value, 1nat, 0nat,
{
    match value {
        FieldValue::Boolean(flag) => FieldModel::Boolean(flag),
        FieldValue::String(text) => FieldModel::String(text@),
        FieldValue::Integer(number) => FieldModel::Integer(number),
        FieldValue::Float(number) => FieldModel::Float(number@),
        FieldValue::Currency { amount, currency } => FieldModel::Currency {
            mantissa: amount.mantissa,
            scale: amount.scale,
            code: currency@,
        },
        FieldValue::Reference(reference) => FieldModel::Reference(reference@),
        FieldValue::List(items) => FieldModel::List(field_models_of(value, items.len() as nat)),
        FieldValue::DateTime(at) => FieldModel::DateTime {
            timestamp: at.timestamp,
            offset_seconds: at.offset_seconds,
        },
        FieldValue::Path(path) => FieldModel::Path(path@),
    }
}

/// The type of a field value.
pub open spec fn model_type(value: FieldModel) -> FieldType {
    match value {
        FieldModel::Boolean(_) => FieldType::Boolean,
        FieldModel::String(_) => FieldType::String,
        FieldModel::Integer(_) => FieldType::Integer,
        FieldModel::Float(_) => FieldType::Float,
        FieldModel::Currency { .. } => FieldType::Currency,
        FieldModel::Reference(_) => FieldType::Reference,
        FieldModel::List(_) => FieldType::List,
        FieldModel::DateTime { .. } => FieldType::DateTime,
        FieldModel::Path(_) => FieldType::Path,
    }
}

impl View for FieldValue {
    type V = FieldModel;

    open spec fn view(&self) -> FieldModel {
        field_model_of(*self)
    }
}

/// The models of the items of a list are those of its items, one for one.
pub proof fn lemma_field_models_of(items: Vec<FieldValue>, upto: nat)
    requires
        upto <= items.len(),
    ensures
        field_models_of(FieldValue::List(items), upto).len() == upto,
        forall|i: int|
            0 <= i < upto ==> #[trigger] field_models_of(FieldValue::List(items), upto)[i]
                == field_model_of(items[i]),
    decreases upto,
{
    if upto > 0 {
        lemma_field_models_of(items, (upto - 1) as nat);
    }
}

/// A list value whose items have the given models has the list of them as
/// its model.
pub proof fn lemma_list_model(items: Vec<FieldValue>, models: Seq<FieldModel>)
    requires
        models.len() == items.len(),
        forall|i: int| 0 <= i < models.len() ==> (#[trigger] items[i])@ == models[i],
    ensures
        FieldValue::List(items)@ == FieldModel::List(models),
{
    lemma_field_models_of(items, items.len() as nat);
    assert(field_models_of(FieldValue::List(items), items.len() as nat) =~= models);
}

impl FieldValue {
    /// The type of the value.
    pub open spec fn type_of(self) -> FieldType {
        match self {
            FieldValue::Boolean(_) => FieldType::Boolean,
            FieldValue::String(_) => FieldType::String,
            FieldValue::Integer(_) => FieldType::Integer,
            FieldValue::Float(_) => FieldType::Float,
            FieldValue::Currency { .. } => FieldType::Currency,
            FieldValue::Reference(_) => FieldType::Reference,
            FieldValue::List(_) => FieldType::List,
            FieldValue::DateTime(_) => FieldType::DateTime,
            FieldValue::Path(_) => FieldType::Path,
        }
    }

    /// Whether the value is a reference to a field.
    pub open spec fn is_field_reference(self) -> bool {
        self matches FieldValue::Reference(ReferenceValue::Field(_, _))
    }

    /// Gets the type of the value.
    pub fn get_type(&self) -> (r: FieldType)
        ensures
            r == self.type_of(),
            r == model_type(self@),
    {
        match self {
            FieldValue::Boolean(_) => FieldType::Boolean,
            FieldValue::String(_) => FieldType::String,
            FieldValue::Integer(_) => FieldType::Integer,
            FieldValue::Float(_) => FieldType::Float,
            FieldValue::Currency { .. } => FieldType::Currency,
            FieldValue::Reference(_) => FieldType::Reference,
            FieldValue::List(_) => FieldType::List,
            FieldValue::DateTime(_) => FieldType::DateTime,
            FieldValue::Path(_) => FieldType::Path,
        }
    }

    /// Checks whether the value has the expected type.
    pub fn is_type(&self, expected: &FieldType) -> (r: bool)
        ensures
            r == (self.type_of() == *expected),
            r == (model_type(self@) == *expected),
    {
        self.get_type() == *expected
    }
}

impl FieldValue {
    /// Makes a copy of the value, lists included.
    pub fn duplicate(&self) -> (r: Self)
        ensures
            r@ == self@,
            r.type_of() == self.type_of(),
        decreases self,
    {
        match self {
            FieldValue::Boolean(value) => FieldValue::Boolean(*value),
            FieldValue::String(value) => FieldValue::String(value.clone()),
            FieldValue::Integer(value) => FieldValue::Integer(*value),
            FieldValue::Float(value) => FieldValue::Float(value.clone()),
            FieldValue::Currency { amount, currency } => FieldValue::Currency {
                amount: *amount,
                currency: currency.clone(),
            },
            FieldValue::Reference(ReferenceValue::Entity(entity_id)) => FieldValue::Reference(
                ReferenceValue::Entity(entity_id.clone()),
            ),
            FieldValue::Reference(ReferenceValue::Field(entity_id, field_id)) => {
                FieldValue::Reference(ReferenceValue::Field(entity_id.clone(), field_id.clone()))
            },
            FieldValue::List(items) => {
                let mut copies: Vec<FieldValue> = Vec::new();
                let mut i: usize = 0;
                while i < items.len()
                    invariant
                        i <= items.len(),
                        *self == FieldValue::List(*items),
                        copies@.len() == i,
                        forall|j: int| 0 <= j < i ==> (#[trigger] copies@[j])@ == items@[j]@,
                    decreases items.len() - i,
                {
                    proof {
                        vstd::std_specs::vec::axiom_vec_index_decreases(*items, i as int);
                        assert(self->List_0 == *items);
                        assert(decreases_to!(*self => self->List_0));
                    }
                    copies.push(items[i].duplicate());
                    i += 1;
                }
                proof {
                    lemma_field_models_of(*items, items.len() as nat);
                    lemma_list_model(
                        copies,
                        field_models_of(FieldValue::List(*items), items.len() as nat),
                    );
                }
                FieldValue::List(copies)
            },
            FieldValue::DateTime(value) => FieldValue::DateTime(*value),
            FieldValue::Path(value) => FieldValue::Path(value.clone()),
        }
    }
}

impl Clone for FieldValue {
    fn clone(&self) -> (r: Self)
        ensures
            r@ == self@,
            r.type_of() == self.type_of(),
    {
        self.duplicate()
    }
}

impl From<bool> for FieldValue {
    fn from(value: bool) -> (r: Self) {
        FieldValue::Boolean(value)
    }
}

impl vstd::std_specs::convert::FromSpecImpl<bool> for FieldValue {
    open spec fn obeys_from_spec() -> bool {
        true
    }

    open spec fn from_spec(value: bool) -> Self {
        FieldValue::Boolean(value)
    }
}

/// The format in which a point in time is shown: date, time of day with
/// seconds, and offset from UTC.
pub const DISPLAY_FORMAT: &'static str = "%Y-%m-%d %H:%M:%S %:z";

/// The items `0..upto` of a list as they are shown, with a comma between
/// each two.
pub open spec fn shown_items(list: FieldValue, upto: nat) -> Seq<char>
    decreases list, 0nat, upto,
{
    if list is List && 0 < upto <= list->List_0.len() {
        if upto == 1 {
            shown(list->List_0[0])
        } else {
            shown_items(list, (upto - 1) as nat) + ","@ + shown(list->List_0[upto - 1])
        }
    } else {
        Seq::empty()
    }
}

/// A field value as it is shown to a reader.
pub open spec fn shown(value: FieldValue) -> Seq<char>
    decreases value, 1nat, 0nat,
{
    match value {
        FieldValue::Boolean(flag) => if flag {
            "true"@
        } else {
            "false"@
        },
        FieldValue::String(text) => text@,
        FieldValue::Integer(number) => crate::number::integer_text(number as int),
        FieldValue::Float(number) => number@,
        FieldValue::Currency { amount, currency } => amount.text() + " "@ + currency.name_text(),
        FieldValue::Reference(reference) => reference.text(),
        FieldValue::List(items) => "["@ + shown_items(value, items.len() as nat) + "]"@,
        FieldValue::DateTime(at) => at.text(DISPLAY_FORMAT@),
        FieldValue::Path(path) => path@,
    }
}

impl FieldValue {
    /// Writes the value as it is shown to a reader.
    pub fn to_string(&self) -> (r: String)
        ensures
            r@ == shown(*self),
        decreases self,
    {
        match self {
            FieldValue::Boolean(flag) => {
                if *flag {
                    String::from_str("true")
                } else {
                    String::from_str("false")
                }
            },
            FieldValue::String(text) => text.clone(),
            FieldValue::Integer(number) => crate::text::from_chars(
                &crate::number::integer_chars(*number),
            ),
            FieldValue::Float(number) => number.0.clone(),
            FieldValue::Currency { amount, currency } => {
                let mut text = amount.to_string();
                text.append(" ");
                text.append(currency.name().as_str());
                text
            },
            FieldValue::Reference(reference) => reference.to_string(),
            FieldValue::List(items) => {
                let mut text = String::from_str("[");
                let mut i: usize = 0;
                proof {
                    assert("["@ + shown_items(*self, 0) =~= "["@);
                }
                while i < items.len()
                    invariant
                        i <= items.len(),
                        *self == FieldValue::List(*items),
                        text@ == "["@ + shown_items(*self, i as nat),
                    decreases items.len() - i,
                {
                    let ghost before = shown_items(*self, i as nat);
                    if i > 0 {
                        text.append(",");
                    }
                    proof {
                        vstd::std_specs::vec::axiom_vec_index_decreases(*items, i as int);
                        assert(self->List_0 == *items);
                        assert(decreases_to!(*self => self->List_0));
                    }
                    let item = items[i].to_string();
                    text.append(item.as_str());
                    proof {
                        let step = shown(items@[i as int]);
                        if i == 0 {
                            assert("["@ + before + step =~= "["@ + step);
                        } else {
                            assert(("["@ + before) + ","@ + step =~= "["@ + (before + ","@ + step));
                        }
                    }
                    i += 1;
                }
                text.append("]");
                text
            },
            FieldValue::DateTime(at) => at.format(DISPLAY_FORMAT),
            FieldValue::Path(path) => path.clone(),
        }
    }
}

impl<'a> From<&'a str> for FieldValue {
    fn from(value: &'a str) -> (r: Self)
        ensures
            r@ == FieldModel::String(value@),
    {
        FieldValue::String(value.to_owned())
    }
}

impl<'a> vstd::std_specs::convert::FromSpecImpl<&'a str> for FieldValue {
    open spec fn obeys_from_spec() -> bool {
        false
    }

    open spec fn from_spec(value: &'a str) -> Self {
        arbitrary()
    }
}

impl From<String> for FieldValue {
    fn from(value: String) -> (r: Self) {
        FieldValue::String(value)
    }
}

impl vstd::std_specs::convert::FromSpecImpl<String> for FieldValue {
    open spec fn obeys_from_spec() -> bool {
        true
    }

    open spec fn from_spec(value: String) -> Self {
        FieldValue::String(value)
    }
}

impl From<i64> for FieldValue {
    fn from(value: i64) -> (r: Self) {
        FieldValue::Integer(value)
    }
}

impl vstd::std_specs::convert::FromSpecImpl<i64> for FieldValue {
    open spec fn obeys_from_spec() -> bool {
        true
    }

    open spec fn from_spec(value: i64) -> Self {
        FieldValue::Integer(value)
    }
}

impl From<DateTimeValue> for FieldValue {
    fn from(value: DateTimeValue) -> (r: Self) {
        FieldValue::DateTime(value)
    }
}

impl vstd::std_specs::convert::FromSpecImpl<DateTimeValue> for FieldValue {
    open spec fn obeys_from_spec() -> bool {
        true
    }

    open spec fn from_spec(value: DateTimeValue) -> Self {
        FieldValue::DateTime(value)
    }
}

impl From<Vec<FieldValue>> for FieldValue {
    fn from(value: Vec<FieldValue>) -> (r: Self) {
        FieldValue::List(value)
    }
}

impl vstd::std_specs::convert::FromSpecImpl<Vec<FieldValue>> for FieldValue {
    open spec fn obeys_from_spec() -> bool {
        true
    }

    open spec fn from_spec(value: Vec<FieldValue>) -> Self {
        FieldValue::List(value)
    }
}

} // verus!
