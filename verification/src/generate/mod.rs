//! Writing entities back as source.

use vstd::prelude::*;
use crate::entity::Entity;

pub mod from_entity;
pub mod from_field;
pub mod from_value;
pub mod generator_options;

pub use from_entity::generate_entity;
pub use from_field::generate_field;
pub use from_value::{
    generate_datetime, generate_float, generate_list, generate_path, generate_reference,
    generate_string, generate_value,
};
pub use generator_options::{GeneratorOptions, IndentStyle};

use from_entity::entity_text;

verus! {

/// The entities `0..upto` as source, one after another, with a blank line
/// between each two where `blank_lines` says so.
pub open spec fn entities_text(
    entities: Seq<Entity>,
    indent: Seq<char>,
    blank_lines: bool,
    upto: nat,
) -> Seq<char>
    decreases upto,
{
    if 0 < upto <= entities.len() {
        let before = entities_text(entities, indent, blank_lines, (upto - 1) as nat);
        let gap = if upto > 1 && blank_lines {
            "\n"@
        } else {
            Seq::empty()
        };
        before + gap + entity_text(entities[upto - 1]@, indent)
    } else {
        Seq::empty()
    }
}

/// Writes entities as source, with four spaces of indentation and a blank
/// line between each two.
pub fn generate_dsl(entities: &[Entity]) -> (r: String)
    ensures
        r@ == entities_text(entities@, generator_options::repeated(' ', 4), true, entities@.len()),
{
    let options = GeneratorOptions {
        indent_style: IndentStyle::Spaces(4),
        blank_lines_between_entities: true,
    };
    assert(options.indent_style.indent(1) =~= generator_options::repeated(' ', 4));
    generate_dsl_with_options(entities, &options)
}

/// Writes entities as source.
pub fn generate_dsl_with_options(entities: &[Entity], options: &GeneratorOptions) -> (r: String)
    ensures
        r@ == entities_text(
            entities@,
            options.indent_style.indent(1),
            options.blank_lines_between_entities,
            entities@.len(),
        ),
{
    let mut output = String::new();
    let ghost indent = options.indent_style.indent(1);
    let blank_lines = options.blank_lines_between_entities;
    let mut i: usize = 0;
    while i < entities.len()
        invariant
            i <= entities@.len(),
            indent == options.indent_style.indent(1),
            blank_lines == options.blank_lines_between_entities,
            output@ == entities_text(entities@, indent, blank_lines, i as nat),
        decreases entities@.len() - i,
    {
        let ghost before = output@;
        if i > 0 && blank_lines {
            vstd::string::StringExecFns::append(&mut output, "\n");
        } else {
            assert(before + Seq::<char>::empty() =~= before);
        }
        let text = generate_entity(&entities[i], options);
        vstd::string::StringExecFns::append(&mut output, text.as_str());
        i += 1;
    }
    output
}

} // verus!
