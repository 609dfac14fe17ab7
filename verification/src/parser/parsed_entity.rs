//! An entity block, as `contact john_doe { ... }`.

use vstd::prelude::*;
use crate::parser::parsed_field::{text_of_kind, ParsedField};
use crate::parser::parser_utils::{find_child_of_kind, get_node_text};
use crate::parser::tree::{all_of_kind, first_of_kind, SyntaxNode};
use crate::text::str_equal;

verus! {

/// The kind of node that holds the type of an entity.
pub const ENTITY_TYPE_KIND: &'static str = "entity_type";

/// The kind of node that holds the id of an entity.
pub const ENTITY_ID_KIND: &'static str = "entity_id";

/// The kind of node that holds a field assignment.
pub const FIELD_KIND: &'static str = "field";

/// The kind of node that holds the body of a block.
pub const BLOCK_KIND: &'static str = "block";

/// The field nodes of an entity node: the children of kind `field` of its
/// first block, in source order; none where it has no block.
pub open spec fn field_nodes(node: SyntaxNode) -> Seq<SyntaxNode> {
    let at = first_of_kind(node.children@, BLOCK_KIND@);
    if at < node.children@.len() {
        let block = node.children@[at];
        let positions = all_of_kind(block.children@, FIELD_KIND@, block.children@.len());
        Seq::new(positions.len(), |i: int| block.children@[positions[i]])
    } else {
        Seq::empty()
    }
}

/// Gathers the children of a kind, in source order.
pub fn children_of_kind<'a>(node: &'a SyntaxNode, kind: &str) -> (r: Vec<&'a SyntaxNode>)
    ensures
        r@.len() == all_of_kind(node.children@, kind@, node.children@.len()).len(),
        forall|i: int|
            0 <= i < r@.len() ==> *(#[trigger] r@[i]) == node.children@[all_of_kind(
                node.children@,
                kind@,
                node.children@.len(),
            )[i]],
{
    let mut found: Vec<&SyntaxNode> = Vec::new();
    let mut i: usize = 0;
    while i < node.children.len()
        invariant
            i <= node.children.len(),
            found@.len() == all_of_kind(node.children@, kind@, i as nat).len(),
            forall|j: int|
                0 <= j < found@.len() ==> *(#[trigger] found@[j]) == node.children@[all_of_kind(
                    node.children@,
                    kind@,
                    i as nat,
                )[j]],
        decreases node.children.len() - i,
    {
        let ghost before = all_of_kind(node.children@, kind@, i as nat);
        if str_equal(node.children[i].kind.as_str(), kind) {
            found.push(&node.children[i]);
        }
        proof {
            let after = all_of_kind(node.children@, kind@, (i + 1) as nat);
            assert forall|j: int| 0 <= j < found@.len() implies *(#[trigger] found@[j])
                == node.children@[after[j]] by {
                if j < before.len() {
                    assert(after[j] == before[j]);
                }
            }
        }
        i += 1;
    }
    found
}

/// An entity block.
#[derive(Debug)]
pub struct ParsedEntity<'a> {
    pub node: &'a SyntaxNode,
    pub path: &'a str,
}

impl<'a> ParsedEntity<'a> {
    /// An entity block at a node of the file at `path`.
    pub fn new(node: &'a SyntaxNode, path: &'a str) -> (r: Self)
        ensures
            r.node == node,
            r.path == path,
    {
        ParsedEntity { node, path }
    }

    /// The type of the entity, as `contact`.
    pub fn entity_type(&self) -> (r: Option<&'a str>)
        ensures
            match text_of_kind(*self.node, ENTITY_TYPE_KIND@) {
                Some(text) => r is Some && r->0@ == text,
                None => r is None,
            },
    {
        match find_child_of_kind(self.node, ENTITY_TYPE_KIND) {
            Some(type_node) => Some(get_node_text(type_node)),
            None => None,
        }
    }

    /// The local id of the entity, as `john_doe`.
    pub fn id(&self) -> (r: Option<&'a str>)
        ensures
            match text_of_kind(*self.node, ENTITY_ID_KIND@) {
                Some(text) => r is Some && r->0@ == text,
                None => r is None,
            },
    {
        match find_child_of_kind(self.node, ENTITY_ID_KIND) {
            Some(id_node) => Some(get_node_text(id_node)),
            None => None,
        }
    }

    /// The field assignments of the entity block, in source order.
    pub fn fields(&self) -> (r: Vec<ParsedField<'a>>)
        ensures
            r@.len() == field_nodes(*self.node).len(),
            forall|i: int|
                0 <= i < r@.len() ==> *(#[trigger] r@[i]).node == field_nodes(*self.node)[i]
                    && r@[i].path == self.path,
    {
        let mut fields: Vec<ParsedField<'a>> = Vec::new();
        match find_child_of_kind(self.node, BLOCK_KIND) {
            Some(block_node) => {
                let nodes = children_of_kind(block_node, FIELD_KIND);
                let mut i: usize = 0;
                while i < nodes.len()
                    invariant
                        i <= nodes.len(),
                        fields@.len() == i,
                        forall|j: int|
                            0 <= j < i ==> (#[trigger] fields@[j]).node == nodes@[j] && fields@[j].path
                                == self.path,
                    decreases nodes.len() - i,
                {
                    fields.push(ParsedField::new(nodes[i], self.path));
                    i += 1;
                }
            },
            None => {},
        }
        fields
    }
}

} // verus!
