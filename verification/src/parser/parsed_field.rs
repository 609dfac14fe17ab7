//! A field assignment, as `name = "John Doe"`.

use vstd::prelude::*;
use crate::datetime::{is_offset, local_offset_now};
use crate::parser::parsed_value::{outcome, value_of, ParsedValue, ValueModel, VALUE_KIND};
use crate::parser::parser_errors::{ParseErrorModel, ValueParseError};
use crate::parser::parser_utils::{find_child_of_kind, get_node_text};
use crate::parser::tree::{first_of_kind, SyntaxNode};

verus! {

/// The kind of node that holds the name of a field.
pub const FIELD_ID_KIND: &'static str = "field_name";

/// The text of the first child of a kind, if there is such a child.
pub open spec fn text_of_kind(node: SyntaxNode, kind: Seq<char>) -> Option<Seq<char>> {
    let at = first_of_kind(node.children@, kind);
    if at < node.children@.len() {
        Some(node.children@[at].text@)
    } else {
        None
    }
}

/// The value that a field node assigns: that of its first value node.
pub open spec fn field_value_of(node: SyntaxNode, local_offset: i32) -> Result<
    ValueModel,
    ParseErrorModel,
> {
    let at = first_of_kind(node.children@, VALUE_KIND@);
    if at < node.children@.len() {
        value_of(node.children@[at], local_offset)
    } else {
        Err(ParseErrorModel::MissingValue)
    }
}

/// A field assignment in an entity or schema block.
#[derive(Debug)]
pub struct ParsedField<'a> {
    pub node: &'a SyntaxNode,
    pub path: &'a str,
}

impl<'a> ParsedField<'a> {
    /// A field assignment at a node of the file at `path`.
    pub fn new(node: &'a SyntaxNode, path: &'a str) -> (r: Self)
        ensures
            r.node == node,
            r.path == path,
    {
        ParsedField { node, path }
    }

    /// The name of the field.
    pub fn id(&self) -> (r: Option<&'a str>)
        ensures
            match text_of_kind(*self.node, FIELD_ID_KIND@) {
                Some(text) => r is Some && r->0@ == text,
                None => r is None,
            },
    {
        match find_child_of_kind(self.node, FIELD_ID_KIND) {
            Some(id_node) => Some(get_node_text(id_node)),
            None => None,
        }
    }

    /// Reads the value of the field, dates and times without a zone taken at
    /// the given offset from UTC.
    pub fn value_at(&self, local_offset: i32) -> (r: Result<ParsedValue, ValueParseError>)
        ensures
            outcome(r) == field_value_of(*self.node, local_offset),
    {
        match find_child_of_kind(self.node, VALUE_KIND) {
            Some(value_node) => ParsedValue::from_node(value_node, local_offset),
            None => Err(ValueParseError::MissingValue),
        }
    }

    /// Reads the value of the field, dates and times without a zone taken at
    /// the machine's present offset from UTC.
    pub fn value(&self) -> (r: Result<ParsedValue, ValueParseError>)
        ensures
            exists|offset: i32|
                is_offset(offset as int) && outcome(r) == #[trigger] field_value_of(
                    *self.node,
                    offset,
                ),
    {
        let offset = local_offset_now();
        self.value_at(offset)
    }
}

} // verus!
