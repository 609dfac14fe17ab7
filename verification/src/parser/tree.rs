//! The syntax tree that the reader walks.
//!
//! Any parser can produce it: a node has a kind, the source text that it
//! spans, and its children in source order.

use vstd::prelude::*;
use vstd::string::StringExecFns;

verus! {

/// A node of a syntax tree.
#[derive(Debug, PartialEq)]
pub struct SyntaxNode {
    /// The kind of the node, as the grammar names it.
    pub kind: String,
    /// The source text that the node spans.
    pub text: String,
    /// Whether the node or one below it could not be parsed.
    pub has_error: bool,
    /// The children, in source order.
    pub children: Vec<SyntaxNode>,
}

impl SyntaxNode {
    /// A node without errors.
    pub fn new(kind: &str, text: &str, children: Vec<SyntaxNode>) -> (r: Self)
        ensures
            r.kind@ == kind@,
            r.text@ == text@,
            !r.has_error,
            r.children == children,
    {
        SyntaxNode {
            kind: String::from_str(kind),
            text: String::from_str(text),
            has_error: false,
            children,
        }
    }

    /// A node without children and without errors.
    pub fn leaf(kind: &str, text: &str) -> (r: Self)
        ensures
            r.kind@ == kind@,
            r.text@ == text@,
            !r.has_error,
            r.children@.len() == 0,
    {
        SyntaxNode::new(kind, text, Vec::new())
    }
}

/// The position of the first of `children` of the given kind, or their
/// number where there is none.
pub open spec fn first_of_kind(children: Seq<SyntaxNode>, kind: Seq<char>) -> int
    decreases children.len(),
{
    if children.len() == 0 {
        0
    } else if children[0].kind@ == kind {
        0
    } else {
        1 + first_of_kind(children.drop_first(), kind)
    }
}

/// The positions of those of the first `upto` children that are of the given
/// kind, ascending.
pub open spec fn all_of_kind(children: Seq<SyntaxNode>, kind: Seq<char>, upto: nat) -> Seq<int>
    decreases upto,
{
    if 0 < upto <= children.len() {
        let before = all_of_kind(children, kind, (upto - 1) as nat);
        if children[upto - 1].kind@ == kind {
            before.push(upto - 1)
        } else {
            before
        }
    } else {
        Seq::empty()
    }
}

/// `first_of_kind` lies among the children or at their end, no earlier child
/// is of the kind, and the child it points at is.
pub proof fn lemma_first_of_kind(children: Seq<SyntaxNode>, kind: Seq<char>)
    ensures
        0 <= first_of_kind(children, kind) <= children.len(),
        forall|i: int| 0 <= i < first_of_kind(children, kind) ==> children[i].kind@ != kind,
        first_of_kind(children, kind) < children.len() ==> children[first_of_kind(
            children,
            kind,
        )].kind@ == kind,
    decreases children.len(),
{
    if children.len() > 0 && children[0].kind@ != kind {
        lemma_first_of_kind(children.drop_first(), kind);
        assert forall|i: int| 0 <= i < first_of_kind(children, kind) implies children[i].kind@
            != kind by {
            if i > 0 {
                assert(children[i] == children.drop_first()[i - 1]);
            }
        }
    }
}

/// A child of the kind with no earlier one of the kind is `first_of_kind`.
pub proof fn lemma_first_of_kind_is(children: Seq<SyntaxNode>, kind: Seq<char>, k: int)
    requires
        0 <= k <= children.len(),
        forall|i: int| 0 <= i < k ==> children[i].kind@ != kind,
        k < children.len() ==> children[k].kind@ == kind,
    ensures
        first_of_kind(children, kind) == k,
{
    lemma_first_of_kind(children, kind);
    let j = first_of_kind(children, kind);
    if j < k {
        assert(children[j].kind@ != kind);
    } else if j > k {
        assert(k < children.len());
    }
}

} // verus!
