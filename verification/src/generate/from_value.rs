//! Writing field values as source.

use vstd::prelude::*;
use vstd::string::StringExecFns;
use crate::amount::decimal_text;
use crate::datetime::{time_text_of, DateTimeValue};
use crate::field::{FieldModel, FieldValue, FloatValue, ReferenceModel, ReferenceValue};
use crate::generate::generator_options::GeneratorOptions;
use crate::number::{integer_chars, integer_text};
use crate::parser::parsed_value::{DATE_FORMAT, TIME_FORMAT};
use crate::scan::{
    contains, contains_text, join, join_text, lines, lines_of, split, split_text, views,
};
use crate::text::{from_chars, to_chars};

verus! {

/// A text with every occurrence of `pattern` replaced by `with`.
pub open spec fn replaced(s: Seq<char>, pattern: Seq<char>, with: Seq<char>) -> Seq<char> {
    join_text(split_text(s, pattern), with)
}

/// The lines `0..upto`, each after the indentation and followed by a line
/// feed.
pub open spec fn indented_lines(lines: Seq<Seq<char>>, indent: Seq<char>, upto: nat) -> Seq<char>
    decreases upto,
{
    if 0 < upto <= lines.len() {
        indented_lines(lines, indent, (upto - 1) as nat) + indent + lines[upto - 1] + seq!['\n']
    } else {
        Seq::empty()
    }
}

/// A string as source: a string of several lines between triple quotes, one
/// indented line each; any other between quotes, its quotes escaped.
pub open spec fn string_text(s: Seq<char>, indent: Seq<char>) -> Seq<char> {
    if contains_text(s, seq!['\n']) {
        "\"\"\"\n"@ + indented_lines(lines_of(s), indent, lines_of(s).len()) + indent + "\"\"\""@
    } else {
        "\""@ + replaced(s, "\""@, "\\\""@) + "\""@
    }
}

/// A number with a fraction as source: its literal, with `.0` added where it
/// has no decimal point.
pub open spec fn float_text(literal: Seq<char>) -> Seq<char> {
    if contains_text(literal, "."@) {
        literal
    } else {
        literal + ".0"@
    }
}

/// A reference as source: the entity id, and the field id after a dot for a
/// reference to a field.
pub open spec fn reference_text(reference: ReferenceModel) -> Seq<char> {
    match reference {
        ReferenceModel::Entity(entity_id) => entity_id,
        ReferenceModel::Field(entity_id, field_id) => entity_id + "."@ + field_id,
    }
}

/// The whole hours of an offset from UTC, rounded towards zero.
pub open spec fn offset_hours(offset_seconds: int) -> int {
    if offset_seconds >= 0 {
        offset_seconds / 3600
    } else {
        -((-offset_seconds) / 3600)
    }
}

/// The zone of an offset from UTC as source: `UTC`, or `UTC` with the whole
/// hours, signed.
pub open spec fn zone_text(offset_seconds: int) -> Seq<char> {
    if offset_seconds == 0 {
        "UTC"@
    } else if offset_hours(offset_seconds) > 0 {
        "UTC+"@ + integer_text(offset_hours(offset_seconds))
    } else {
        "UTC"@ + integer_text(offset_hours(offset_seconds))
    }
}

/// A text that `chrono` has for a time, or nothing.
pub open spec fn time_text(timestamp: i64, offset_seconds: i32, format: Seq<char>) -> Seq<char> {
    match time_text_of(timestamp, offset_seconds, format) {
        Some(text) => text,
        None => Seq::empty(),
    }
}

/// A point in time as source: date, `at`, time of day and zone.
pub open spec fn datetime_text(timestamp: i64, offset_seconds: i32) -> Seq<char> {
    time_text(timestamp, offset_seconds, DATE_FORMAT@) + " at "@ + time_text(
        timestamp,
        offset_seconds,
        TIME_FORMAT@,
    ) + " "@ + zone_text(offset_seconds as int)
}

/// A path as source.
pub open spec fn path_text(path: Seq<char>) -> Seq<char> {
    "path\""@ + path + "\""@
}

/// An amount of money as source.
pub open spec fn currency_text(mantissa: i128, scale: u32, code: Seq<char>) -> Seq<char> {
    decimal_text(mantissa, scale) + " "@ + code
}

/// The items `0..upto` of a list as source, with `, ` between each two.
pub open spec fn items_text(list: FieldModel, indent: Seq<char>, upto: nat) -> Seq<char>
    decreases list, 0nat, upto,
{
    if list is List && 0 < upto <= list->List_0.len() {
        if upto == 1 {
            value_text(list->List_0[0], indent)
        } else {
            items_text(list, indent, (upto - 1) as nat) + ", "@ + value_text(
                list->List_0[upto - 1],
                indent,
            )
        }
    } else {
        Seq::empty()
    }
}

/// A field value as source.
pub open spec fn value_text(value: FieldModel, indent: Seq<char>) -> Seq<char>
    decreases value, 1nat, 0nat,
{
    match value {
        FieldModel::Boolean(flag) => if flag {
            "true"@
        } else {
            "false"@
        },
        FieldModel::String(text) => string_text(text, indent),
        FieldModel::Integer(number) => integer_text(number as int),
        FieldModel::Float(number) => float_text(number),
        FieldModel::Currency { mantissa, scale, code } => currency_text(mantissa, scale, code),
        FieldModel::Reference(reference) => reference_text(reference),
        FieldModel::List(items) => "["@ + items_text(value, indent, items.len()) + "]"@,
        FieldModel::DateTime { timestamp, offset_seconds } => datetime_text(
            timestamp,
            offset_seconds,
        ),
        FieldModel::Path(path) => path_text(path),
    }
}

/// Writes a field value as source.
pub fn generate_value(value: &FieldValue, options: &GeneratorOptions) -> (r: String)
    ensures
        r@ == value_text(value@, options.indent_style.indent(1)),
    decreases value,
{
    match value {
        FieldValue::Boolean(flag) => {
            if *flag {
                String::from_str("true")
            } else {
                String::from_str("false")
            }
        },
        FieldValue::String(text) => generate_string(text.as_str(), options),
        FieldValue::Integer(number) => from_chars(&integer_chars(*number)),
        FieldValue::Float(number) => generate_float(number),
        FieldValue::Currency { amount, currency } => {
            let mut text = amount.to_string();
            text.append(" ");
            text.append(currency.code());
            text
        },
        FieldValue::Reference(reference) => generate_reference(reference),
        FieldValue::List(values) => {
            let mut text = String::from_str("[");
            let ghost indent = options.indent_style.indent(1);
            let mut i: usize = 0;
            proof {
                assert("["@ + items_text(value@, indent, 0) =~= "["@);
                crate::field::lemma_field_models_of(*values, values.len() as nat);
            }
            while i < values.len()
                invariant
                    i <= values.len(),
                    indent == options.indent_style.indent(1),
                    *value == FieldValue::List(*values),
                    value@ is List,
                    value@->List_0.len() == values.len(),
                    forall|j: int|
                        0 <= j < values.len() ==> #[trigger] value@->List_0[j] == values@[j]@,
                    text@ == "["@ + items_text(value@, indent, i as nat),
                decreases values.len() - i,
            {
                let ghost before = items_text(value@, indent, i as nat);
                if i > 0 {
                    text.append(", ");
                }
                proof {
                    vstd::std_specs::vec::axiom_vec_index_decreases(*values, i as int);
                    assert(value->List_0 == *values);
                    assert(decreases_to!(*value => value->List_0));
                }
                let item = generate_value(&values[i], options);
                text.append(item.as_str());
                proof {
                    let step = value_text(values@[i as int]@, indent);
                    assert(value@->List_0[i as int] == values@[i as int]@);
                    if i == 0 {
                        assert("["@ + before + step =~= "["@ + step);
                    } else {
                        assert(("["@ + before) + ", "@ + step =~= "["@ + (before + ", "@ + step));
                    }
                }
                i += 1;
            }
            text.append("]");
            text
        },
        FieldValue::DateTime(at) => generate_datetime(at),
        FieldValue::Path(path) => generate_path(path.as_str()),
    }
}

/// Writes a string as source.
pub fn generate_string(s: &str, options: &GeneratorOptions) -> (r: String)
    ensures
        r@ == string_text(s@, options.indent_style.indent(1)),
{
    let chars = to_chars(s);
    let feed: Vec<char> = vec!['\n'];
    assert(feed@ =~= seq!['\n']);
    if contains(&chars, &feed) {
        let indent = options.indent_style.indent_string(1);
        let all = lines(&chars);
        let ghost texts = lines_of(s@);
        let mut result = String::from_str("\"\"\"\n");
        let mut i: usize = 0;
        proof {
            assert("\"\"\"\n"@ + indented_lines(texts, indent@, 0) =~= "\"\"\"\n"@);
        }
        while i < all.len()
            invariant
                i <= all.len(),
                views(all@) == texts,
                result@ == "\"\"\"\n"@ + indented_lines(texts, indent@, i as nat),
            decreases all.len() - i,
        {
            let ghost before = indented_lines(texts, indent@, i as nat);
            let line = from_chars(&all[i]);
            assert(texts[i as int] == all@[i as int]@);
            result.append(indent.as_str());
            result.append(line.as_str());
            result.append("\n");
            proof {
                reveal_strlit("\n");
                assert("\n"@ =~= seq!['\n']);
                assert((("\"\"\"\n"@ + before) + indent@ + line@) + "\n"@ =~= "\"\"\"\n"@ + (before
                    + indent@ + line@ + seq!['\n']));
            }
            i += 1;
        }
        result.append(indent.as_str());
        result.append("\"\"\"");
        result
    } else {
        let quote = to_chars("\"");
        let escaped = to_chars("\\\"");
        proof {
            reveal_strlit("\"");
        }
        let pieces = split(&chars, &quote);
        let inner = join(&pieces, &escaped);
        let mut result = String::from_str("\"");
        result.append(from_chars(&inner).as_str());
        result.append("\"");
        result
    }
}

/// Writes a number with a fraction as source, always with a decimal point.
pub fn generate_float(number: &FloatValue) -> (r: String)
    ensures
        r@ == float_text(number@),
{
    let chars = to_chars(number.as_str());
    let dot = to_chars(".");
    proof {
        reveal_strlit(".");
    }
    let mut formatted = number.0.clone();
    if !contains(&chars, &dot) {
        formatted.append(".0");
    }
    formatted
}

/// Writes a reference as source.
pub fn generate_reference(reference: &ReferenceValue) -> (r: String)
    ensures
        r@ == reference_text(reference@),
{
    match reference {
        ReferenceValue::Entity(entity_id) => entity_id.to_string(),
        ReferenceValue::Field(entity_id, field_id) => {
            let mut text = entity_id.to_string();
            text.append(".");
            text.append(field_id.as_str());
            text
        },
    }
}

/// Writes a list of values as source.
pub fn generate_list(values: &Vec<FieldValue>, options: &GeneratorOptions) -> (r: String)
    ensures
        r@ == "["@ + list_text(*values, options.indent_style.indent(1)) + "]"@,
{
    let mut text = String::from_str("[");
    let ghost indent = options.indent_style.indent(1);
    let mut i: usize = 0;
    proof {
        assert("["@ + list_items_text(values@, indent, 0) =~= "["@);
    }
    while i < values.len()
        invariant
            i <= values.len(),
            indent == options.indent_style.indent(1),
            text@ == "["@ + list_items_text(values@, indent, i as nat),
        decreases values.len() - i,
    {
        let ghost before = list_items_text(values@, indent, i as nat);
        if i > 0 {
            text.append(", ");
        }
        let item = generate_value(&values[i], options);
        text.append(item.as_str());
        proof {
            let step = value_text(values@[i as int]@, indent);
            if i == 0 {
                assert("["@ + before + step =~= "["@ + step);
            } else {
                assert(("["@ + before) + ", "@ + step =~= "["@ + (before + ", "@ + step));
            }
        }
        i += 1;
    }
    text.append("]");
    text
}

/// The values `0..upto` as source, with `, ` between each two.
pub open spec fn list_items_text(values: Seq<FieldValue>, indent: Seq<char>, upto: nat) -> Seq<char>
    decreases upto,
{
    if 0 < upto <= values.len() {
        if upto == 1 {
            value_text(values[0]@, indent)
        } else {
            list_items_text(values, indent, (upto - 1) as nat) + ", "@ + value_text(
                values[upto - 1]@,
                indent,
            )
        }
    } else {
        Seq::empty()
    }
}

/// The values of a list as source, with `, ` between each two.
pub open spec fn list_text(values: Vec<FieldValue>, indent: Seq<char>) -> Seq<char> {
    list_items_text(values@, indent, values.len() as nat)
}

/// Writes a point in time as source.
pub fn generate_datetime(dt: &DateTimeValue) -> (r: String)
    ensures
        r@ == datetime_text(dt.timestamp, dt.offset_seconds),
{
    let mut text = dt.format(DATE_FORMAT);
    text.append(" at ");
    text.append(dt.format(TIME_FORMAT).as_str());
    text.append(" ");
    let offset_seconds = dt.offset_seconds;
    if offset_seconds == 0 {
        text.append("UTC");
    } else {
        let hours: i64 = if offset_seconds >= 0 {
            (offset_seconds as i64) / 3600
        } else {
            -((-(offset_seconds as i64)) / 3600)
        };
        if hours > 0 {
            text.append("UTC+");
        } else {
            text.append("UTC");
        }
        text.append(from_chars(&integer_chars(hours)).as_str());
    }
    text
}

/// Writes a path as source.
pub fn generate_path(path: &str) -> (r: String)
    ensures
        r@ == path_text(path@),
{
    let mut text = String::from_str("path\"");
    text.append(path);
    text.append("\"");
    text
}

} // verus!
