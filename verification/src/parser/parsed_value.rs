//! Typed values, read from the value nodes of a syntax tree.

use vstd::prelude::*;
use vstd::string::StringExecFns;
use crate::amount::{decimal_of_text, is_currency_code, CurrencyCode, DecimalValue};
use crate::datetime::{
    date_of_text, is_offset, naive_date_from_str, naive_time_from_str, time_of_text, timestamp_of_local, DateTimeValue,
};
use crate::field::FloatValue;
use crate::number::{integer_of_text, is_float_text, parse_integer};
use crate::parser::parser_errors::{ParseErrorModel, ValueParseError};
use crate::parser::parser_utils::get_node_text;
use crate::parser::tree::SyntaxNode;
use crate::scan::{
    contains, contains_text, ends_with, occurs_at, remove_all, split, split_text, starts_with,
    strip_end, strip_start, trim_char, trim_common_indentation, trim_end_matches, trim_matches,
    trim_start_matches, views, without_common_indent, without_text,
};
use crate::text::{from_chars, str_equal, to_chars};

verus! {

/// The kind of node that holds a value.
pub const VALUE_KIND: &'static str = "value";

/// The format of a calendar date.
pub const DATE_FORMAT: &'static str = "%Y-%m-%d";

/// The format of a time of day with two digits for the hour.
pub const TIME_FORMAT: &'static str = "%H:%M";

/// The format of a time of day with one or two digits for the hour.
pub const SHORT_TIME_FORMAT: &'static str = "%k:%M";

/// The kinds of values that the grammar knows.
enum ValueKind {
    Boolean,
    String,
    Number,
    Currency,
    Reference,
    List,
    DateTime,
    Date,
    Path,
    Unknown(String),
}

impl ValueKind {
    /// The kind that a name of the grammar stands for.
    fn from(kind: &str) -> (r: ValueKind)
        ensures
            (r is Boolean) == (kind@ == "boolean"@),
            (r is String) == (kind@ != "boolean"@ && kind@ == "string"@),
            (r is Number) == (kind@ != "boolean"@ && kind@ != "string"@ && kind@ == "number"@),
            (r is Currency) == (kind@ != "boolean"@ && kind@ != "string"@ && kind@ != "number"@
                && kind@ == "currency"@),
            (r is Reference) == (kind@ != "boolean"@ && kind@ != "string"@ && kind@ != "number"@
                && kind@ != "currency"@ && kind@ == "reference"@),
            (r is List) == (kind@ != "boolean"@ && kind@ != "string"@ && kind@ != "number"@
                && kind@ != "currency"@ && kind@ != "reference"@ && kind@ == "list"@),
            (r is DateTime) == (kind@ != "boolean"@ && kind@ != "string"@ && kind@ != "number"@
                && kind@ != "currency"@ && kind@ != "reference"@ && kind@ != "list"@ && kind@
                == "datetime"@),
            (r is Date) == (kind@ != "boolean"@ && kind@ != "string"@ && kind@ != "number"@
                && kind@ != "currency"@ && kind@ != "reference"@ && kind@ != "list"@ && kind@
                != "datetime"@ && kind@ == "date"@),
            (r is Path) == (kind@ != "boolean"@ && kind@ != "string"@ && kind@ != "number"@
                && kind@ != "currency"@ && kind@ != "reference"@ && kind@ != "list"@ && kind@
                != "datetime"@ && kind@ != "date"@ && kind@ == "path"@),
    {
        if str_equal(kind, "boolean") {
            ValueKind::Boolean
        } else if str_equal(kind, "string") {
            ValueKind::String
        } else if str_equal(kind, "number") {
            ValueKind::Number
        } else if str_equal(kind, "currency") {
            ValueKind::Currency
        } else if str_equal(kind, "reference") {
            ValueKind::Reference
        } else if str_equal(kind, "list") {
            ValueKind::List
        } else if str_equal(kind, "datetime") {
            ValueKind::DateTime
        } else if str_equal(kind, "date") {
            ValueKind::Date
        } else if str_equal(kind, "path") {
            ValueKind::Path
        } else {
            ValueKind::Unknown(kind.to_owned())
        }
    }
}

/// A typed value read from source.
#[derive(Debug, PartialEq)]
pub enum ParsedValue {
    /// `true` or `false`.
    Boolean(bool),
    /// A string, written on one line or on several.
    String(String),
    /// A whole number.
    Integer(i64),
    /// A number with a fraction.
    Float(FloatValue),
    /// An amount of money.
    Currency { amount: DecimalValue, currency: CurrencyCode },
    /// A reference to an entity, as `contact.john_doe`.
    EntityReference { entity_type: String, entity_id: String },
    /// A reference to a field of an entity, as `contact.john_doe.name`.
    FieldReference { entity_type: String, entity_id: String, field_id: String },
    /// A list of values of one type.
    List(Vec<ParsedValue>),
    /// A date or a date with a time of day.
    DateTime(DateTimeValue),
    /// A path to a file or directory, as written.
    Path(String),
}

/// A typed value, its texts as character sequences.
pub enum ValueModel {
    Boolean(bool),
    String(Seq<char>),
    Integer(i64),
    Float(Seq<char>),
    Currency { mantissa: i128, scale: u32, code: Seq<char> },
    EntityReference { entity_type: Seq<char>, entity_id: Seq<char> },
    FieldReference { entity_type: Seq<char>, entity_id: Seq<char>, field_id: Seq<char> },
    List(Seq<ValueModel>),
    DateTime { timestamp: i64, offset_seconds: i32 },
    Path(Seq<char>),
}

/// The models of the first `upto` items of a list value.
pub open spec fn models_of(list: ParsedValue, upto: nat) -> Seq<ValueModel>
    decreases list, 0nat, upto,
{
    if list is List && 0 < upto <= list->List_0.len() {
        models_of(list, (upto - 1) as nat).push(model_of(list->List_0[upto - 1]))
    } else {
        Seq::empty()
    }
}

/// The model of a value.
pub open spec fn model_of(value: ParsedValue) -> ValueModel
    decreases value, 1nat, 0nat,
{
    match value {
        ParsedValue::Boolean(flag) => ValueModel::Boolean(flag),
        ParsedValue::String(text) => ValueModel::String(text@),
        ParsedValue::Integer(number) => ValueModel::Integer(number),
        ParsedValue::Float(number) => ValueModel::Float(number@),
        ParsedValue::Currency { amount, currency } => ValueModel::Currency {
            mantissa: amount.mantissa,
            scale: amount.scale,
            code: currency@,
        },
        ParsedValue::EntityReference { entity_type, entity_id } => ValueModel::EntityReference {
            entity_type: entity_type@,
            entity_id: entity_id@,
        },
        ParsedValue::FieldReference { entity_type, entity_id, field_id } => {
            ValueModel::FieldReference {
                entity_type: entity_type@,
                entity_id: entity_id@,
                field_id: field_id@,
            }
        },
        ParsedValue::List(items) => ValueModel::List(models_of(value, items.len() as nat)),
        ParsedValue::DateTime(at) => ValueModel::DateTime {
            timestamp: at.timestamp,
            offset_seconds: at.offset_seconds,
        },
        ParsedValue::Path(path) => ValueModel::Path(path@),
    }
}

impl View for ParsedValue {
    type V = ValueModel;

    open spec fn view(&self) -> ValueModel {
        model_of(*self)
    }
}

/// The models of the items of a list are those of its items, one for one.
pub proof fn lemma_models_of(items: Vec<ParsedValue>, upto: nat)
    requires
        upto <= items.len(),
    ensures
        models_of(ParsedValue::List(items), upto).len() == upto,
        forall|i: int|
            0 <= i < upto ==> #[trigger] models_of(ParsedValue::List(items), upto)[i] == model_of(
                items[i],
            ),
    decreases upto,
{
    if upto > 0 {
        lemma_models_of(items, (upto - 1) as nat);
    }
}

/// The name of the type of a value.
pub open spec fn type_name_of(value: ValueModel) -> Seq<char> {
    match value {
        ValueModel::Boolean(_) => "Boolean"@,
        ValueModel::String(_) => "String"@,
        ValueModel::Integer(_) => "Integer"@,
        ValueModel::Float(_) => "Float"@,
        ValueModel::Currency { .. } => "Currency"@,
        ValueModel::EntityReference { .. } => "EntityReference"@,
        ValueModel::FieldReference { .. } => "FieldReference"@,
        ValueModel::List(_) => "List"@,
        ValueModel::DateTime { .. } => "DateTime"@,
        ValueModel::Path(_) => "Path"@,
    }
}

/// What reading yields: a value or an error.
pub open spec fn outcome(r: Result<ParsedValue, ValueParseError>) -> Result<
    ValueModel,
    ParseErrorModel,
> {
    match r {
        Ok(value) => Ok(value@),
        Err(error) => Err(error@),
    }
}

/// The boolean that a text denotes: exactly `true` or `false`.
pub open spec fn boolean_of(raw: Seq<char>) -> Result<ValueModel, ParseErrorModel> {
    if raw == "true"@ {
        Ok(ValueModel::Boolean(true))
    } else if raw == "false"@ {
        Ok(ValueModel::Boolean(false))
    } else {
        Err(ParseErrorModel::InvalidBoolean(raw))
    }
}

/// The string that a literal denotes. A literal between triple quotes is a
/// string of several lines: it loses the quotes, the indentation that its
/// lines share and the blank lines before its first and after its last line
/// that is not blank. Any other literal loses the quotes at its ends.
pub open spec fn string_of(raw: Seq<char>) -> ValueModel {
    let quotes = "\"\"\""@;
    if occurs_at(raw, quotes, 0) && occurs_at(raw, quotes, raw.len() - quotes.len()) {
        ValueModel::String(without_common_indent(strip_end(strip_start(raw, quotes), quotes)))
    } else {
        ValueModel::String(trim_char(raw, '"'))
    }
}

/// The number that a literal denotes: one with a decimal point is a number
/// with a fraction, any other a whole number. The whole literal must be the
/// number.
pub open spec fn number_of(raw: Seq<char>) -> Result<ValueModel, ParseErrorModel> {
    if contains_text(raw, "."@) {
        if is_float_text(raw) {
            Ok(ValueModel::Float(raw))
        } else {
            Err(ParseErrorModel::InvalidFloat(raw))
        }
    } else {
        match integer_of_text(raw) {
            Some(number) => Ok(ValueModel::Integer(number)),
            None => Err(ParseErrorModel::InvalidInteger(raw)),
        }
    }
}

/// The amount of money that a literal denotes: a decimal amount, one space,
/// the code of a currency.
pub open spec fn currency_of(raw: Seq<char>) -> Result<ValueModel, ParseErrorModel> {
    let parts = split_text(raw, " "@);
    if parts.len() == 2 {
        match decimal_of_text(parts[0]) {
            Some((mantissa, scale)) => {
                if is_currency_code(parts[1]) {
                    Ok(ValueModel::Currency { mantissa, scale, code: parts[1] })
                } else {
                    Err(ParseErrorModel::InvalidCurrencyCode(parts[1]))
                }
            },
            None => Err(ParseErrorModel::InvalidCurrencyAmount(parts[0])),
        }
    } else {
        Err(
            ParseErrorModel::InvalidCurrencyFormat {
                source: raw,
                parts_count: parts.len() as usize,
            },
        )
    }
}

/// The reference that a literal denotes: two parts between dots refer to an
/// entity, three to a field.
pub open spec fn reference_of(raw: Seq<char>) -> Result<ValueModel, ParseErrorModel> {
    let parts = split_text(raw, "."@);
    if parts.len() == 2 {
        Ok(ValueModel::EntityReference { entity_type: parts[0], entity_id: parts[1] })
    } else if parts.len() == 3 {
        Ok(
            ValueModel::FieldReference {
                entity_type: parts[0],
                entity_id: parts[1],
                field_id: parts[2],
            },
        )
    } else {
        Err(
            ParseErrorModel::InvalidReferenceFormat {
                source: raw,
                parts_count: parts.len() as usize,
            },
        )
    }
}

/// The offset from UTC, in seconds, that the text after `UTC` denotes:
/// nothing stands for UTC itself, a whole number for that many hours. The
/// offset must be less than a day.
pub open spec fn utc_offset_of(text: Seq<char>) -> Result<i32, ParseErrorModel> {
    if text.len() == 0 {
        Ok(0i32)
    } else {
        match integer_of_text(text) {
            Some(hours) => if -24 < hours < 24 {
                Ok((hours * 3600) as i32)
            } else {
                Err(ParseErrorModel::InvalidTimezone(text))
            },
            None => Err(ParseErrorModel::InvalidTimezone(text)),
        }
    }
}

/// The point in time that a date denotes: midnight of that day at the local
/// offset.
pub open spec fn date_of(raw: Seq<char>, local_offset: i32) -> Result<ValueModel, ParseErrorModel> {
    match date_of_text(raw, DATE_FORMAT@) {
        Some((year, month, day)) => match timestamp_of_local(
            year,
            month,
            day,
            0,
            0,
            0,
            local_offset,
        ) {
            Some(timestamp) => Ok(
                ValueModel::DateTime { timestamp, offset_seconds: local_offset },
            ),
            None => Err(ParseErrorModel::InvalidDate(raw)),
        },
        None => Err(ParseErrorModel::InvalidDate(raw)),
    }
}

/// The time of day that a text denotes, the hour written with two digits or
/// with one.
pub open spec fn clock_of(text: Seq<char>) -> Option<(u32, u32, u32)> {
    match time_of_text(text, TIME_FORMAT@) {
        Some(time) => Some(time),
        None => time_of_text(text, SHORT_TIME_FORMAT@),
    }
}

/// The point in time that a literal of the form `date at time` or
/// `date at time UTC±hours` denotes. Without `UTC` the time is local.
pub open spec fn datetime_of(raw: Seq<char>, local_offset: i32) -> Result<
    ValueModel,
    ParseErrorModel,
> {
    let parts = split_text(raw, " at "@);
    if parts.len() == 2 {
        match date_of_text(parts[0], DATE_FORMAT@) {
            Some((year, month, day)) => {
                let zoned = contains_text(parts[1], " UTC"@);
                let pieces = split_text(parts[1], " UTC"@);
                let clock = if zoned {
                    pieces[0]
                } else {
                    parts[1]
                };
                let offset = if zoned {
                    utc_offset_of(
                        if pieces.len() > 1 {
                            pieces[1]
                        } else {
                            Seq::empty()
                        },
                    )
                } else {
                    Ok(local_offset)
                };
                match offset {
                    Ok(offset_seconds) => match clock_of(clock) {
                        Some((hour, minute, second)) => match timestamp_of_local(
                            year,
                            month,
                            day,
                            hour,
                            minute,
                            second,
                            offset_seconds,
                        ) {
                            Some(timestamp) => Ok(
                                ValueModel::DateTime { timestamp, offset_seconds },
                            ),
                            None => Err(ParseErrorModel::InvalidDateTime(raw)),
                        },
                        None => Err(ParseErrorModel::InvalidDateTime(raw)),
                    },
                    Err(error) => Err(error),
                }
            },
            None => Err(ParseErrorModel::InvalidDateTime(raw)),
        }
    } else {
        Err(ParseErrorModel::InvalidDateTime(raw))
    }
}

/// The path that a literal denotes: the literal without its marker and
/// without the quotes at its ends.
pub open spec fn path_of(raw: Seq<char>) -> ValueModel {
    ValueModel::Path(trim_char(without_text(raw, "path\""@), '"'))
}

/// The items that the first `upto` children of a list node denote: each
/// child that is a value node gives one item. The first item sets the type
/// of the list; an item of another type is an error, and so is an item that
/// cannot be read. The first error counts.
pub open spec fn items_of(list: SyntaxNode, upto: nat, local_offset: i32) -> Result<
    Seq<ValueModel>,
    ParseErrorModel,
>
    decreases list, 0nat, upto,
{
    if 0 < upto <= list.children.len() {
        match items_of(list, (upto - 1) as nat, local_offset) {
            Ok(items) => {
                let child = list.children[upto - 1];
                if child.kind@ == VALUE_KIND@ {
                    match value_of(child, local_offset) {
                        Ok(item) => {
                            if items.len() > 0 && type_name_of(item) != type_name_of(items[0]) {
                                Err(
                                    ParseErrorModel::HeterogeneousList {
                                        expected_type: type_name_of(items[0]),
                                        found_type: type_name_of(item),
                                        index: items.len() as usize,
                                    },
                                )
                            } else {
                                Ok(items.push(item))
                            }
                        },
                        Err(error) => Err(error),
                    }
                } else {
                    Ok(items)
                }
            },
            Err(error) => Err(error),
        }
    } else {
        Ok(Seq::empty())
    }
}

/// The list that a value node denotes: the items of the list node below it,
/// or no items where there is no list node.
pub open spec fn list_of(node: SyntaxNode, local_offset: i32) -> Result<ValueModel, ParseErrorModel>
    decreases node, 0nat, 0nat,
{
    if node.children.len() == 0 {
        Ok(ValueModel::List(Seq::empty()))
    } else {
        match items_of(node.children[0], node.children[0].children.len() as nat, local_offset) {
            Ok(items) => Ok(ValueModel::List(items)),
            Err(error) => Err(error),
        }
    }
}

/// The value that a value node denotes. The kind of the node's first child
/// says how the node's text is read; `local_offset` is the offset from UTC
/// at which dates and times without a zone are taken.
pub open spec fn value_of(node: SyntaxNode, local_offset: i32) -> Result<
    ValueModel,
    ParseErrorModel,
>
    decreases node, 1nat, 0nat,
{
    if node.children.len() == 0 {
        Err(ParseErrorModel::UnknownValueKind)
    } else {
        let kind = node.children[0].kind@;
        let raw = node.text@;
        if kind == "boolean"@ {
            boolean_of(raw)
        } else if kind == "string"@ {
            Ok(string_of(raw))
        } else if kind == "number"@ {
            number_of(raw)
        } else if kind == "currency"@ {
            currency_of(raw)
        } else if kind == "reference"@ {
            reference_of(raw)
        } else if kind == "list"@ {
            list_of(node, local_offset)
        } else if kind == "datetime"@ {
            datetime_of(raw, local_offset)
        } else if kind == "date"@ {
            date_of(raw, local_offset)
        } else if kind == "path"@ {
            Ok(path_of(raw))
        } else {
            Err(ParseErrorModel::MissingParseMethod)
        }
    }
}

/// Once reading the items of a list has failed, the error stays: the items
/// that follow are not looked at.
pub proof fn lemma_first_error_stays(list: SyntaxNode, failed: nat, upto: nat, local_offset: i32)
    requires
        items_of(list, failed, local_offset) is Err,
        failed <= upto <= list.children.len(),
    ensures
        items_of(list, upto, local_offset) == items_of(list, failed, local_offset),
    decreases upto,
{
    if upto > failed {
        lemma_first_error_stays(list, failed, (upto - 1) as nat, local_offset);
    }
}

impl ParsedValue {
    /// The name of the type of this value.
    pub fn get_type_name(&self) -> (r: &'static str)
        ensures
            r@ == type_name_of(self@),
    {
        match self {
            ParsedValue::Boolean(_) => "Boolean",
            ParsedValue::String(_) => "String",
            ParsedValue::Integer(_) => "Integer",
            ParsedValue::Float(_) => "Float",
            ParsedValue::Currency { .. } => "Currency",
            ParsedValue::EntityReference { .. } => "EntityReference",
            ParsedValue::FieldReference { .. } => "FieldReference",
            ParsedValue::List(_) => "List",
            ParsedValue::DateTime(_) => "DateTime",
            ParsedValue::Path(_) => "Path",
        }
    }

    /// Reads the value of a value node, dates and times without a zone taken
    /// at the given offset from UTC.
    pub fn from_node(node: &SyntaxNode, local_offset: i32) -> (r: Result<
        ParsedValue,
        ValueParseError,
    >)
        ensures
            outcome(r) == value_of(*node, local_offset),
        decreases node, 1nat,
    {
        let kind = match Self::get_value_kind(node) {
            Some(kind) => kind,
            None => {
                return Err(ValueParseError::UnknownValueKind);
            },
        };
        let raw = get_node_text(node);
        match kind {
            ValueKind::Boolean => Self::parse_boolean(raw),
            ValueKind::String => Self::parse_string(raw),
            ValueKind::Number => Self::parse_number(raw),
            ValueKind::Currency => Self::parse_currency(raw),
            ValueKind::Reference => Self::parse_reference(raw),
            ValueKind::List => Self::parse_list(node, local_offset),
            ValueKind::Date => Self::parse_date(raw, local_offset),
            ValueKind::DateTime => Self::parse_datetime(raw, local_offset),
            ValueKind::Path => Self::parse_path(raw),
            _ => Err(ValueParseError::MissingParseMethod),
        }
    }

    /// The kind of value that a value node holds: that of its first child.
    fn get_value_kind(value_node: &SyntaxNode) -> (r: Option<ValueKind>)
        ensures
            r is Some <==> value_node.children@.len() > 0,
            r is Some ==> {
                let kind = value_node.children@[0].kind@;
                let found = r->0;
                &&& (found is Boolean) == (kind == "boolean"@)
                &&& (found is String) == (kind != "boolean"@ && kind == "string"@)
                &&& (found is Number) == (kind != "boolean"@ && kind != "string"@ && kind
                    == "number"@)
                &&& (found is Currency) == (kind != "boolean"@ && kind != "string"@ && kind
                    != "number"@ && kind == "currency"@)
                &&& (found is Reference) == (kind != "boolean"@ && kind != "string"@ && kind
                    != "number"@ && kind != "currency"@ && kind == "reference"@)
                &&& (found is List) == (kind != "boolean"@ && kind != "string"@ && kind
                    != "number"@ && kind != "currency"@ && kind != "reference"@ && kind == "list"@)
                &&& (found is DateTime) == (kind != "boolean"@ && kind != "string"@ && kind
                    != "number"@ && kind != "currency"@ && kind != "reference"@ && kind != "list"@
                    && kind == "datetime"@)
                &&& (found is Date) == (kind != "boolean"@ && kind != "string"@ && kind
                    != "number"@ && kind != "currency"@ && kind != "reference"@ && kind != "list"@
                    && kind != "datetime"@ && kind == "date"@)
                &&& (found is Path) == (kind != "boolean"@ && kind != "string"@ && kind
                    != "number"@ && kind != "currency"@ && kind != "reference"@ && kind != "list"@
                    && kind != "datetime"@ && kind != "date"@ && kind == "path"@)
            },
    {
        if value_node.children.len() == 0 {
            None
        } else {
            Some(ValueKind::from(value_node.children[0].kind.as_str()))
        }
    }

    /// Reads a boolean.
    pub fn parse_boolean(raw: &str) -> (r: Result<ParsedValue, ValueParseError>)
        ensures
            outcome(r) == boolean_of(raw@),
    {
        if str_equal(raw, "true") {
            Ok(ParsedValue::Boolean(true))
        } else if str_equal(raw, "false") {
            Ok(ParsedValue::Boolean(false))
        } else {
            Err(ValueParseError::InvalidBoolean(raw.to_owned()))
        }
    }

    /// Reads a string, written on one line or on several.
    pub fn parse_string(raw: &str) -> (r: Result<ParsedValue, ValueParseError>)
        ensures
            outcome(r) == Ok::<ValueModel, ParseErrorModel>(string_of(raw@)),
    {
        let chars = to_chars(raw);
        let quotes = to_chars("\"\"\"");
        if starts_with(&chars, &quotes) && ends_with(&chars, &quotes) {
            let inner = trim_end_matches(&trim_start_matches(&chars, &quotes), &quotes);
            let trimmed = trim_common_indentation(&inner);
            Ok(ParsedValue::String(from_chars(&trimmed)))
        } else {
            let inner = trim_matches(&chars, '"');
            Ok(ParsedValue::String(from_chars(&inner)))
        }
    }

    /// Reads a number: one with a decimal point as a number with a fraction,
    /// any other as a whole number.
    pub fn parse_number(raw: &str) -> (r: Result<ParsedValue, ValueParseError>)
        ensures
            outcome(r) == number_of(raw@),
    {
        let chars = to_chars(raw);
        let dot = to_chars(".");
        proof {
            reveal_strlit(".");
        }
        if contains(&chars, &dot) {
            match FloatValue::parse(raw) {
                Some(number) => Ok(ParsedValue::Float(number)),
                None => Err(ValueParseError::InvalidFloat(raw.to_owned())),
            }
        } else {
            match parse_integer(raw) {
                Some(number) => Ok(ParsedValue::Integer(number)),
                None => Err(ValueParseError::InvalidInteger(raw.to_owned())),
            }
        }
    }

    /// Reads an amount of money: an amount and the code of a currency.
    pub fn parse_currency(raw: &str) -> (r: Result<ParsedValue, ValueParseError>)
        ensures
            outcome(r) == currency_of(raw@),
    {
        let chars = to_chars(raw);
        let space = to_chars(" ");
        proof {
            reveal_strlit(" ");
        }
        let parts = split(&chars, &space);
        let ghost texts = split_text(raw@, " "@);
        assert(forall|i: int| 0 <= i < parts@.len() ==> (#[trigger] parts@[i])@ == texts[i]) by {
            assert(views(parts@) == texts);
            assert forall|i: int| 0 <= i < parts@.len() implies (#[trigger] parts@[i])@ == texts[i] by {
                assert(views(parts@)[i] == parts@[i]@);
            }
        }
        if parts.len() == 2 {
            let raw_amount = from_chars(&parts[0]);
            match DecimalValue::parse(raw_amount.as_str()) {
                Some(amount) => {
                    let raw_currency = from_chars(&parts[1]);
                    match CurrencyCode::parse(raw_currency.as_str()) {
                        Some(currency) => Ok(ParsedValue::Currency { amount, currency }),
                        None => Err(ValueParseError::InvalidCurrencyCode(raw_currency)),
                    }
                },
                None => Err(ValueParseError::InvalidCurrencyAmount(raw_amount)),
            }
        } else {
            Err(
                ValueParseError::InvalidCurrencyFormat {
                    source: raw.to_owned(),
                    parts_count: parts.len(),
                },
            )
        }
    }

    /// Reads a reference to an entity or to a field.
    pub fn parse_reference(raw: &str) -> (r: Result<ParsedValue, ValueParseError>)
        ensures
            outcome(r) == reference_of(raw@),
    {
        let chars = to_chars(raw);
        let dot = to_chars(".");
        proof {
            reveal_strlit(".");
        }
        let parts = split(&chars, &dot);
        let ghost texts = split_text(raw@, "."@);
        assert(forall|i: int| 0 <= i < parts@.len() ==> (#[trigger] parts@[i])@ == texts[i]) by {
            assert(views(parts@) == texts);
            assert forall|i: int| 0 <= i < parts@.len() implies (#[trigger] parts@[i])@ == texts[i] by {
                assert(views(parts@)[i] == parts@[i]@);
            }
        }
        if parts.len() == 2 {
            Ok(
                ParsedValue::EntityReference {
                    entity_type: from_chars(&parts[0]),
                    entity_id: from_chars(&parts[1]),
                },
            )
        } else if parts.len() == 3 {
            Ok(
                ParsedValue::FieldReference {
                    entity_type: from_chars(&parts[0]),
                    entity_id: from_chars(&parts[1]),
                    field_id: from_chars(&parts[2]),
                },
            )
        } else {
            Err(
                ValueParseError::InvalidReferenceFormat {
                    source: raw.to_owned(),
                    parts_count: parts.len(),
                },
            )
        }
    }

    /// Reads a list: the value nodes below the list node, all of one type.
    /// A value node without a list node below it gives the empty list.
    fn parse_list(node: &SyntaxNode, local_offset: i32) -> (r: Result<ParsedValue, ValueParseError>)
        ensures
            outcome(r) == list_of(*node, local_offset),
        decreases node, 0nat,
    {
        let mut items: Vec<ParsedValue> = Vec::new();
        if node.children.len() == 0 {
            proof {
                lemma_models_of(items, 0);
                assert(models_of(ParsedValue::List(items), 0) =~= Seq::<ValueModel>::empty());
            }
            return Ok(ParsedValue::List(items));
        }
        let list_node = &node.children[0];
        let mut i: usize = 0;
        proof {
            vstd::std_specs::vec::axiom_vec_index_decreases(node.children, 0);
        }
        while i < list_node.children.len()
            invariant
                i <= list_node.children@.len(),
                node.children@.len() > 0,
                *list_node == node.children@[0],
                decreases_to!(node => list_node),
                items_of(*list_node, i as nat, local_offset) is Ok,
                items@.len() == items_of(*list_node, i as nat, local_offset)->Ok_0.len(),
                forall|j: int|
                    0 <= j < items@.len() ==> (#[trigger] items@[j])@ == items_of(
                        *list_node,
                        i as nat,
                        local_offset,
                    )->Ok_0[j],
            decreases list_node.children@.len() - i,
        {
            let child = &list_node.children[i];
            let ghost before = items_of(*list_node, i as nat, local_offset)->Ok_0;
            if str_equal(child.kind.as_str(), VALUE_KIND) {
                proof {
                    vstd::std_specs::vec::axiom_vec_index_decreases(list_node.children, i as int);
                }
                let item = match Self::from_node(child, local_offset) {
                    Ok(item) => item,
                    Err(error) => {
                        proof {
                            lemma_first_error_stays(
                                *list_node,
                                (i + 1) as nat,
                                list_node.children@.len() as nat,
                                local_offset,
                            );
                        }
                        return Err(error);
                    },
                };
                if items.len() > 0 {
                    let item_type = item.get_type_name();
                    let expected = items[0].get_type_name();
                    if !str_equal(item_type, expected) {
                        proof {
                            assert(items@[0]@ == before[0]);
                            lemma_first_error_stays(
                                *list_node,
                                (i + 1) as nat,
                                list_node.children@.len() as nat,
                                local_offset,
                            );
                        }
                        return Err(
                            ValueParseError::HeterogeneousList {
                                expected_type: String::from_str(expected),
                                found_type: String::from_str(item_type),
                                index: items.len(),
                            },
                        );
                    }
                }
                items.push(item);
                proof {
                    let after = items_of(*list_node, (i + 1) as nat, local_offset)->Ok_0;
                    assert(after == before.push(item@));
                    assert forall|j: int| 0 <= j < items@.len() implies (#[trigger] items@[j])@
                        == after[j] by {
                        if j < before.len() {
                            assert(after[j] == before[j]);
                        }
                    }
                }
            }
            i += 1;
        }
        proof {
            let found = items_of(*list_node, i as nat, local_offset)->Ok_0;
            lemma_models_of(items, items.len() as nat);
            assert(models_of(ParsedValue::List(items), items.len() as nat) =~= found);
        }
        Ok(ParsedValue::List(items))
    }

    /// Reads the offset from UTC that follows `UTC`.
    pub fn parse_utc_offset(offset_str: &str) -> (r: Result<i32, ValueParseError>)
        ensures
            match utc_offset_of(offset_str@) {
                Ok(seconds) => r == Ok::<i32, ValueParseError>(seconds) && is_offset(seconds as int),
                Err(error) => r is Err && r->Err_0@ == error,
            },
    {
        if offset_str.unicode_len() == 0 {
            return Ok(0);
        }
        match parse_integer(offset_str) {
            Some(hours) => {
                if -24 < hours && hours < 24 {
                    let seconds: i64 = hours * 3600;
                    Ok(seconds as i32)
                } else {
                    Err(ValueParseError::InvalidTimezone(offset_str.to_owned()))
                }
            },
            None => Err(ValueParseError::InvalidTimezone(offset_str.to_owned())),
        }
    }

    /// Reads a date as midnight of that day at the given offset from UTC.
    pub fn parse_date(raw: &str, local_offset: i32) -> (r: Result<ParsedValue, ValueParseError>)
        ensures
            outcome(r) == date_of(raw@, local_offset),
    {
        let (year, month, day) = match naive_date_from_str(raw, DATE_FORMAT) {
            Some(date) => date,
            None => {
                return Err(ValueParseError::InvalidDate(raw.to_owned()));
            },
        };
        match DateTimeValue::from_local(year, month, day, 0, 0, 0, local_offset) {
            Some(at) => Ok(ParsedValue::DateTime(at)),
            None => Err(ValueParseError::InvalidDate(raw.to_owned())),
        }
    }

    /// Reads a date with a time of day and an optional offset from UTC; a
    /// time without an offset is taken at the given one.
    pub fn parse_datetime(raw: &str, local_offset: i32) -> (r: Result<
        ParsedValue,
        ValueParseError,
    >)
        ensures
            outcome(r) == datetime_of(raw@, local_offset),
    {
        let chars = to_chars(raw);
        let at = to_chars(" at ");
        let utc = to_chars(" UTC");
        proof {
            reveal_strlit(" at ");
            reveal_strlit(" UTC");
        }
        let parts = split(&chars, &at);
        let ghost texts = split_text(raw@, " at "@);
        assert(forall|i: int| 0 <= i < parts@.len() ==> (#[trigger] parts@[i])@ == texts[i]) by {
            assert(views(parts@) == texts);
            assert forall|i: int| 0 <= i < parts@.len() implies (#[trigger] parts@[i])@ == texts[i] by {
                assert(views(parts@)[i] == parts@[i]@);
            }
        }
        if parts.len() != 2 {
            return Err(ValueParseError::InvalidDateTime(raw.to_owned()));
        }
        let date_part = from_chars(&parts[0]);
        let (year, month, day) = match naive_date_from_str(date_part.as_str(), DATE_FORMAT) {
            Some(date) => date,
            None => {
                return Err(ValueParseError::InvalidDateTime(raw.to_owned()));
            },
        };
        let time_and_tz = &parts[1];
        let zoned = contains(time_and_tz, &utc);
        let pieces = split(time_and_tz, &utc);
        let ghost piece_texts = split_text(time_and_tz@, " UTC"@);
        assert(forall|i: int| 0 <= i < pieces@.len() ==> (#[trigger] pieces@[i])@ == piece_texts[i]) by {
            assert(views(pieces@) == piece_texts);
            assert forall|i: int| 0 <= i < pieces@.len() implies (#[trigger] pieces@[i])@
                == piece_texts[i] by {
                assert(views(pieces@)[i] == pieces@[i]@);
            }
        }
        let time_part = if zoned {
            from_chars(&pieces[0])
        } else {
            from_chars(time_and_tz)
        };
        let tz_offset: i32 = if zoned {
            let offset_str = if pieces.len() > 1 {
                from_chars(&pieces[1])
            } else {
                String::new()
            };
            match Self::parse_utc_offset(offset_str.as_str()) {
                Ok(seconds) => seconds,
                Err(error) => {
                    return Err(error);
                },
            }
        } else {
            local_offset
        };
        let (hour, minute, second) = match naive_time_from_str(time_part.as_str(), TIME_FORMAT) {
            Some(time) => time,
            None => match naive_time_from_str(time_part.as_str(), SHORT_TIME_FORMAT) {
                Some(time) => time,
                None => {
                    return Err(ValueParseError::InvalidDateTime(raw.to_owned()));
                },
            },
        };
        match DateTimeValue::from_local(year, month, day, hour, minute, second, tz_offset) {
            Some(at) => Ok(ParsedValue::DateTime(at)),
            None => Err(ValueParseError::InvalidDateTime(raw.to_owned())),
        }
    }

    /// Reads a path: the text between the marker and the closing quote.
    pub fn parse_path(raw: &str) -> (r: Result<ParsedValue, ValueParseError>)
        ensures
            outcome(r) == Ok::<ValueModel, ParseErrorModel>(path_of(raw@)),
    {
        let chars = to_chars(raw);
        let marker = to_chars("path\"");
        proof {
            reveal_strlit("path\"");
        }
        let bare = remove_all(&chars, &marker);
        let inner = trim_matches(&bare, '"');
        Ok(ParsedValue::Path(from_chars(&inner)))
    }
}

} // verus!
