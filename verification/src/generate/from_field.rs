//! Writing field assignments as source.

use vstd::prelude::*;
use vstd::string::StringExecFns;
use crate::field::{FieldModel, FieldValue};
use crate::generate::from_value::{generate_value, value_text};
use crate::generate::generator_options::GeneratorOptions;

verus! {

/// A field assignment as source: name, ` = `, value.
pub open spec fn field_text(name: Seq<char>, value: FieldModel, indent: Seq<char>) -> Seq<char> {
    name + " = "@ + value_text(value, indent)
}

/// Writes a field assignment as source.
pub fn generate_field(field_name: &str, field_value: &FieldValue, options: &GeneratorOptions) -> (r:
    String)
    ensures
        r@ == field_text(field_name@, field_value@, options.indent_style.indent(1)),
{
    let value_str = generate_value(field_value, options);
    let mut text = String::from_str(field_name);
    text.append(" = ");
    text.append(value_str.as_str());
    text
}

} // verus!
