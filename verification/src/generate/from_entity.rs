//! Writing entities as source.

use vstd::prelude::*;
use vstd::string::StringExecFns;
use crate::entity::{deep_fields, Entity, EntityModel};
use crate::field::FieldModel;
use crate::generate::from_field::{field_text, generate_field};
use crate::generate::generator_options::GeneratorOptions;
use crate::id::{decompose_entity_id, decompose_spec, to_lowercase, lowercase_of};

verus! {

/// The lines of the fields `0..upto` as source: each field on a line of its
/// own, after the indentation.
pub open spec fn field_lines(fields: Seq<(Seq<char>, FieldModel)>, indent: Seq<char>, upto: nat) -> Seq<
    char,
>
    decreases upto,
{
    if 0 < upto <= fields.len() {
        field_lines(fields, indent, (upto - 1) as nat) + indent + field_text(
            fields[upto - 1].0,
            fields[upto - 1].1,
            indent,
        ) + "\n"@
    } else {
        Seq::empty()
    }
}

/// An entity as source: the type in lowercase, the local id, and the fields
/// between braces, in the order in which they were set.
pub open spec fn entity_text(entity: EntityModel, indent: Seq<char>) -> Seq<char> {
    lowercase_of(entity.entity_type) + " "@ + decompose_spec(entity.id).1 + " {\n"@ + field_lines(
        entity.fields,
        indent,
        entity.fields.len(),
    ) + "}\n"@
}

/// Writes an entity as source.
pub fn generate_entity(entity: &Entity, options: &GeneratorOptions) -> (r: String)
    ensures
        r@ == entity_text(entity@, options.indent_style.indent(1)),
{
    let (_, entity_id) = decompose_entity_id(entity.id.as_str());
    let mut output = to_lowercase(entity.entity_type.as_str());
    output.append(" ");
    output.append(entity_id);
    output.append(" {\n");
    let ghost head = output@;
    let ghost fields = deep_fields(entity.fields@);
    let indent = options.indent_style.indent_string(1);
    let count = entity.fields.len();
    let mut i: usize = 0;
    proof {
        assert(head + field_lines(fields, indent@, 0) =~= head);
    }
    while i < count
        invariant
            i <= count,
            count == entity.fields.entries().len(),
            indent@ == options.indent_style.indent(1),
            fields == deep_fields(entity.fields@),
            output@ == head + field_lines(fields, indent@, i as nat),
        decreases count - i,
    {
        let ghost before = field_lines(fields, indent@, i as nat);
        let field_line = generate_field(
            entity.fields.key_at(i).as_str(),
            entity.fields.value_at(i),
            options,
        );
        output.append(indent.as_str());
        output.append(field_line.as_str());
        output.append("\n");
        proof {
            assert(fields[i as int] == (
                entity.fields.entries()[i as int].0@,
                entity.fields.entries()[i as int].1@,
            ));
            assert(((head + before) + indent@ + field_line@) + "\n"@ =~= head + (before + indent@
                + field_line@ + "\n"@));
        }
        i += 1;
    }
    output.append("}\n");
    output
}

} // verus!
