//! Helpers for walking the syntax tree.

use vstd::prelude::*;
use crate::parser::tree::{first_of_kind, lemma_first_of_kind_is, SyntaxNode};
use crate::text::str_equal;

verus! {

/// Finds the first child of a node of a kind.
pub fn find_child_of_kind<'a>(node: &'a SyntaxNode, kind: &str) -> (r: Option<&'a SyntaxNode>)
    ensures
        r is Some <==> first_of_kind(node.children@, kind@) < node.children@.len(),
        r is Some ==> *r->0 == node.children@[first_of_kind(node.children@, kind@)],
{
    let mut i: usize = 0;
    while i < node.children.len()
        invariant
            i <= node.children.len(),
            forall|j: int| 0 <= j < i ==> node.children@[j].kind@ != kind@,
        decreases node.children.len() - i,
    {
        if str_equal(node.children[i].kind.as_str(), kind) {
            proof {
                lemma_first_of_kind_is(node.children@, kind@, i as int);
            }
            return Some(&node.children[i]);
        }
        i += 1;
    }
    proof {
        lemma_first_of_kind_is(node.children@, kind@, i as int);
    }
    None
}

/// The source text that a node spans.
pub fn get_node_text<'a>(node: &'a SyntaxNode) -> (r: &'a str)
    ensures
        r@ == node.text@,
{
    node.text.as_str()
}

} // verus!
