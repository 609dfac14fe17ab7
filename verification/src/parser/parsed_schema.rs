//! A schema block, as `schema project { ... }`.

use vstd::prelude::*;
use crate::parser::parsed_entity::BLOCK_KIND;
use crate::parser::parsed_field::text_of_kind;
use crate::parser::parsed_schema_field::ParsedSchemaField;
use crate::parser::parser_utils::{find_child_of_kind, get_node_text};
use crate::parser::tree::{first_of_kind, SyntaxNode};
use crate::text::str_equal;

verus! {

/// The kind of node that holds the name of a schema.
pub const SCHEMA_NAME_KIND: &'static str = "schema_name";

/// The kind of node that holds a block within a block.
pub const NESTED_BLOCK_KIND: &'static str = "nested_block";

/// The kind of node that holds the type of a nested block.
pub const BLOCK_TYPE_KIND: &'static str = "block_type";

/// Whether a node is a field definition: a nested block of type `field`.
pub open spec fn is_field_definition(node: SyntaxNode) -> bool {
    node.kind@ == NESTED_BLOCK_KIND@ && text_of_kind(node, BLOCK_TYPE_KIND@) == Some("field"@)
}

/// The positions of the field definitions among the first `upto` children.
pub open spec fn definitions_in(children: Seq<SyntaxNode>, upto: nat) -> Seq<int>
    decreases upto,
{
    if 0 < upto <= children.len() {
        let before = definitions_in(children, (upto - 1) as nat);
        if is_field_definition(children[upto - 1]) {
            before.push(upto - 1)
        } else {
            before
        }
    } else {
        Seq::empty()
    }
}

/// The field definitions of a schema node: the nested blocks of type `field`
/// in its first block, in source order; none where it has no block.
pub open spec fn definition_nodes(node: SyntaxNode) -> Seq<SyntaxNode> {
    let at = first_of_kind(node.children@, BLOCK_KIND@);
    if at < node.children@.len() {
        let block = node.children@[at];
        let positions = definitions_in(block.children@, block.children@.len());
        Seq::new(positions.len(), |i: int| block.children@[positions[i]])
    } else {
        Seq::empty()
    }
}

/// A schema block.
#[derive(Debug)]
pub struct ParsedSchema<'a> {
    pub node: &'a SyntaxNode,
    pub path: &'a str,
}

impl<'a> ParsedSchema<'a> {
    /// A schema block at a node of the file at `path`.
    pub fn new(node: &'a SyntaxNode, path: &'a str) -> (r: Self)
        ensures
            r.node == node,
            r.path == path,
    {
        ParsedSchema { node, path }
    }

    /// The name of the schema, as `project`.
    pub fn name(&self) -> (r: Option<&'a str>)
        ensures
            match text_of_kind(*self.node, SCHEMA_NAME_KIND@) {
                Some(text) => r is Some && r->0@ == text,
                None => r is None,
            },
    {
        match find_child_of_kind(self.node, SCHEMA_NAME_KIND) {
            Some(name_node) => Some(get_node_text(name_node)),
            None => None,
        }
    }

    /// The field definitions of the schema block, in source order.
    pub fn fields(&self) -> (r: Vec<ParsedSchemaField<'a>>)
        ensures
            r@.len() == definition_nodes(*self.node).len(),
            forall|i: int|
                0 <= i < r@.len() ==> *(#[trigger] r@[i]).node == definition_nodes(*self.node)[i]
                    && r@[i].path == self.path,
    {
        let mut fields: Vec<ParsedSchemaField<'a>> = Vec::new();
        let block_node = match find_child_of_kind(self.node, BLOCK_KIND) {
            Some(block_node) => block_node,
            None => {
                return fields;
            },
        };
        let mut i: usize = 0;
        while i < block_node.children.len()
            invariant
                i <= block_node.children.len(),
                fields@.len() == definitions_in(block_node.children@, i as nat).len(),
                forall|j: int|
                    0 <= j < fields@.len() ==> *(#[trigger] fields@[j]).node
                        == block_node.children@[definitions_in(block_node.children@, i as nat)[j]]
                        && fields@[j].path == self.path,
            decreases block_node.children.len() - i,
        {
            let child = &block_node.children[i];
            let ghost before = definitions_in(block_node.children@, i as nat);
            let mut is_definition = false;
            if str_equal(child.kind.as_str(), NESTED_BLOCK_KIND) {
                match find_child_of_kind(child, BLOCK_TYPE_KIND) {
                    Some(block_type_node) => {
                        if str_equal(get_node_text(block_type_node), "field") {
                            is_definition = true;
                        }
                    },
                    None => {},
                }
            }
            assert(is_definition == is_field_definition(*child));
            if is_definition {
                fields.push(ParsedSchemaField::new(child, self.path));
            }
            proof {
                let after = definitions_in(block_node.children@, (i + 1) as nat);
                assert forall|j: int| 0 <= j < fields@.len() implies *(#[trigger] fields@[j]).node
                    == block_node.children@[after[j]] && fields@[j].path == self.path by {
                    if j < before.len() {
                        assert(after[j] == before[j]);
                    }
                }
            }
            i += 1;
        }
        fields
    }
}

} // verus!
