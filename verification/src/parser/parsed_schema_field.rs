//! A field definition of a schema block:
//!
//! ```text
//! field {
//!     name = "title"
//!     type = "string"
//!     required = true
//! }
//! ```

use vstd::prelude::*;
use vstd::string::StringExecFns;
use crate::parser::parsed_entity::{BLOCK_KIND, FIELD_KIND};
use crate::parser::parsed_field::{field_value_of, text_of_kind, ParsedField, FIELD_ID_KIND};
use crate::parser::parsed_value::{ParsedValue, ValueModel};
use crate::parser::parser_errors::{ParseErrorModel, ValueParseError};
use crate::parser::parser_utils::find_child_of_kind;
use crate::parser::tree::{first_of_kind, SyntaxNode};
use crate::text::str_equal;

verus! {

/// The position of the first of `children` that assigns the field `name`,
/// or their number where none does.
pub open spec fn assignment_of(children: Seq<SyntaxNode>, name: Seq<char>) -> int
    decreases children.len(),
{
    if children.len() == 0 {
        0
    } else if children[0].kind@ == FIELD_KIND@ && text_of_kind(children[0], FIELD_ID_KIND@) == Some(
        name,
    ) {
        0
    } else {
        1 + assignment_of(children.drop_first(), name)
    }
}

/// The node that assigns `name` in the block of a field definition, if there
/// is one.
pub open spec fn assignment_node(node: SyntaxNode, name: Seq<char>) -> Option<SyntaxNode> {
    let at = first_of_kind(node.children@, BLOCK_KIND@);
    if at < node.children@.len() {
        let block = node.children@[at];
        let found = assignment_of(block.children@, name);
        if found < block.children@.len() {
            Some(block.children@[found])
        } else {
            None
        }
    } else {
        None
    }
}

/// The string that a field definition assigns to `name`. Dates in the
/// definition are read at UTC; only a string counts.
pub open spec fn assigned_string(node: SyntaxNode, name: Seq<char>) -> Result<
    Seq<char>,
    ParseErrorModel,
> {
    match assignment_node(node, name) {
        Some(field) => match field_value_of(field, 0) {
            Ok(ValueModel::String(text)) => Ok(text),
            Ok(_) => Err(ParseErrorModel::UnknownValueKind),
            Err(error) => Err(error),
        },
        None => Err(ParseErrorModel::MissingValue),
    }
}

/// Whether a field definition says that the field is required: it assigns
/// `true` to `required`. Anything else leaves the field optional.
pub open spec fn says_required(node: SyntaxNode) -> bool {
    match assignment_node(node, "required"@) {
        Some(field) => field_value_of(field, 0) == Ok::<ValueModel, ParseErrorModel>(
            ValueModel::Boolean(true),
        ),
        None => false,
    }
}

/// A position that assigns the name with no earlier one that does is
/// `assignment_of`.
proof fn lemma_assignment_of_is(children: Seq<SyntaxNode>, name: Seq<char>, k: int)
    requires
        0 <= k <= children.len(),
        forall|i: int|
            0 <= i < k ==> !((#[trigger] children[i]).kind@ == FIELD_KIND@ && text_of_kind(
                children[i],
                FIELD_ID_KIND@,
            ) == Some(name)),
        k < children.len() ==> children[k].kind@ == FIELD_KIND@ && text_of_kind(
            children[k],
            FIELD_ID_KIND@,
        ) == Some(name),
    ensures
        assignment_of(children, name) == k,
    decreases children.len(),
{
    if children.len() > 0 && k > 0 {
        let rest = children.drop_first();
        assert(children[0] == children[0]);
        assert forall|i: int| 0 <= i < k - 1 implies !((#[trigger] rest[i]).kind@ == FIELD_KIND@
            && text_of_kind(rest[i], FIELD_ID_KIND@) == Some(name)) by {
            assert(rest[i] == children[i + 1]);
        }
        if k < children.len() {
            assert(rest[k - 1] == children[k]);
        }
        lemma_assignment_of_is(rest, name, k - 1);
    }
}

/// A field definition in a schema block.
#[derive(Debug)]
pub struct ParsedSchemaField<'a> {
    pub node: &'a SyntaxNode,
    pub path: &'a str,
}

impl<'a> ParsedSchemaField<'a> {
    /// A field definition at a node of the file at `path`.
    pub fn new(node: &'a SyntaxNode, path: &'a str) -> (r: Self)
        ensures
            r.node == node,
            r.path == path,
    {
        ParsedSchemaField { node, path }
    }

    /// The name of the field: the string assigned to `name`.
    pub fn name(&self) -> (r: Result<String, ValueParseError>)
        ensures
            match assigned_string(*self.node, "name"@) {
                Ok(text) => r is Ok && r->Ok_0@ == text,
                Err(error) => r is Err && r->Err_0@ == error,
            },
    {
        self.string_of("name")
    }

    /// The type of the field: the string assigned to `type`.
    pub fn field_type(&self) -> (r: Result<String, ValueParseError>)
        ensures
            match assigned_string(*self.node, "type"@) {
                Ok(text) => r is Ok && r->Ok_0@ == text,
                Err(error) => r is Err && r->Err_0@ == error,
            },
    {
        self.string_of("type")
    }

    /// Whether the field is required. A definition that does not say so
    /// leaves it optional.
    pub fn required(&self) -> (r: bool)
        ensures
            r == says_required(*self.node),
    {
        match self.find_field_by_name("required") {
            Some(required_field) => match required_field.value_at(0) {
                Ok(ParsedValue::Boolean(flag)) => flag,
                _ => false,
            },
            None => false,
        }
    }

    /// The string assigned to a name in this definition.
    fn string_of(&self, name: &str) -> (r: Result<String, ValueParseError>)
        ensures
            match assigned_string(*self.node, name@) {
                Ok(text) => r is Ok && r->Ok_0@ == text,
                Err(error) => r is Err && r->Err_0@ == error,
            },
    {
        let field = match self.find_field_by_name(name) {
            Some(field) => field,
            None => {
                return Err(ValueParseError::MissingValue);
            },
        };
        match field.value_at(0) {
            Ok(ParsedValue::String(text)) => Ok(text),
            Ok(_) => Err(ValueParseError::UnknownValueKind),
            Err(error) => Err(error),
        }
    }

    /// The assignment to a name in the block of this definition.
    fn find_field_by_name(&self, field_name: &str) -> (r: Option<ParsedField<'a>>)
        ensures
            match assignment_node(*self.node, field_name@) {
                Some(node) => r is Some && *r->0.node == node,
                None => r is None,
            },
    {
        let block_node = match find_child_of_kind(self.node, BLOCK_KIND) {
            Some(block_node) => block_node,
            None => {
                return None;
            },
        };
        let mut i: usize = 0;
        while i < block_node.children.len()
            invariant
                i <= block_node.children.len(),
                first_of_kind(self.node.children@, BLOCK_KIND@) < self.node.children@.len(),
                *block_node == self.node.children@[first_of_kind(
                    self.node.children@,
                    BLOCK_KIND@,
                )],
                forall|j: int|
                    0 <= j < i ==> !((#[trigger] block_node.children@[j]).kind@ == FIELD_KIND@
                        && text_of_kind(block_node.children@[j], FIELD_ID_KIND@) == Some(
                        field_name@,
                    )),
            decreases block_node.children.len() - i,
        {
            let child = &block_node.children[i];
            if str_equal(child.kind.as_str(), FIELD_KIND) {
                let field = ParsedField::new(child, self.path);
                match field.id() {
                    Some(id) => {
                        if str_equal(id, field_name) {
                            proof {
                                lemma_assignment_of_is(
                                    block_node.children@,
                                    field_name@,
                                    i as int,
                                );
                            }
                            return Some(field);
                        }
                    },
                    None => {},
                }
            }
            i += 1;
        }
        proof {
            lemma_assignment_of_is(block_node.children@, field_name@, i as int);
        }
        None
    }
}

} // verus!
