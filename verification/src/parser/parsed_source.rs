//! A parsed source document: the text, its syntax tree and where it lies.

use vstd::prelude::*;
use crate::parser::parsed_entity::{children_of_kind, ParsedEntity};
use crate::parser::parsed_schema::ParsedSchema;
use crate::parser::parser_errors::LanguageError;
use crate::parser::tree::{all_of_kind, SyntaxNode};

verus! {

/// The kind of node that holds an entity block.
pub const ENTITY_BLOCK_KIND: &'static str = "entity_block";

/// The kind of node that holds a schema block.
pub const SCHEMA_BLOCK_KIND: &'static str = "schema_block";

/// The children of a kind of the root of a tree, in source order.
pub open spec fn blocks_of(tree: SyntaxNode, kind: Seq<char>) -> Seq<SyntaxNode> {
    let positions = all_of_kind(tree.children@, kind, tree.children@.len());
    Seq::new(positions.len(), |i: int| tree.children@[positions[i]])
}

/// The path that a parsed source gets: the one given, or the empty path.
pub open spec fn path_text(path: Option<String>) -> Seq<char> {
    match path {
        Some(path) => path@,
        None => Seq::empty(),
    }
}

/// Whether `r` is what the outcome of a parse makes of a source text and a
/// path: a tree gives the parsed source of text, tree and path; an error is
/// handed on as it is.
pub open spec fn assembled_from(
    r: Result<ParsedSource, LanguageError>,
    outcome: Result<SyntaxNode, LanguageError>,
    source: String,
    path: Option<String>,
) -> bool {
    match outcome {
        Ok(tree) => r is Ok && r->Ok_0.source == source && r->Ok_0.tree == tree && r->Ok_0.path@
            == path_text(path),
        Err(error) => r == Err::<ParsedSource, LanguageError>(error),
    }
}

/// A parsed source document.
#[derive(Debug)]
pub struct ParsedSource {
    /// The text of the source file.
    pub source: String,
    /// The syntax tree of the text.
    pub tree: SyntaxNode,
    /// The path of the source file, relative to the workspace.
    pub path: String,
}

impl ParsedSource {
    /// A parsed source of text, tree and path.
    pub fn new(source: String, tree: SyntaxNode, path: String) -> (r: Self)
        ensures
            r.source == source,
            r.tree == tree,
            r.path == path,
    {
        ParsedSource { source, tree, path }
    }

    /// Makes the parsed source of the outcome of a parse: the tree that a
    /// parser gave, or the error with which it failed. A source without a
    /// path gets the empty path.
    pub fn from_outcome(
        outcome: Result<SyntaxNode, LanguageError>,
        source: String,
        path: Option<String>,
    ) -> (r: Result<ParsedSource, LanguageError>)
        ensures
            assembled_from(r, outcome, source, path),
    {
        match outcome {
            Ok(tree) => {
                let path = match path {
                    Some(path) => path,
                    None => String::new(),
                };
                Ok(ParsedSource::new(source, tree, path))
            },
            Err(error) => Err(error),
        }
    }

    /// Whether the source has syntax errors.
    pub fn has_error(&self) -> (r: bool)
        ensures
            r == self.tree.has_error,
    {
        self.tree.has_error
    }

    /// The entity blocks of the source, in source order.
    pub fn entities(&self) -> (r: Vec<ParsedEntity<'_>>)
        ensures
            r@.len() == blocks_of(self.tree, ENTITY_BLOCK_KIND@).len(),
            forall|i: int|
                0 <= i < r@.len() ==> *(#[trigger] r@[i]).node == blocks_of(
                    self.tree,
                    ENTITY_BLOCK_KIND@,
                )[i] && r@[i].path@ == self.path@,
    {
        let nodes = children_of_kind(&self.tree, ENTITY_BLOCK_KIND);
        let mut entities: Vec<ParsedEntity<'_>> = Vec::new();
        let mut i: usize = 0;
        while i < nodes.len()
            invariant
                i <= nodes.len(),
                entities@.len() == i,
                forall|j: int|
                    0 <= j < i ==> (#[trigger] entities@[j]).node == nodes@[j] && entities@[j].path@
                        == self.path@,
            decreases nodes.len() - i,
        {
            entities.push(ParsedEntity::new(nodes[i], self.path.as_str()));
            i += 1;
        }
        entities
    }

    /// The schema blocks of the source, in source order.
    pub fn schemas(&self) -> (r: Vec<ParsedSchema<'_>>)
        ensures
            r@.len() == blocks_of(self.tree, SCHEMA_BLOCK_KIND@).len(),
            forall|i: int|
                0 <= i < r@.len() ==> *(#[trigger] r@[i]).node == blocks_of(
                    self.tree,
                    SCHEMA_BLOCK_KIND@,
                )[i] && r@[i].path@ == self.path@,
    {
        let nodes = children_of_kind(&self.tree, SCHEMA_BLOCK_KIND);
        let mut schemas: Vec<ParsedSchema<'_>> = Vec::new();
        let mut i: usize = 0;
        while i < nodes.len()
            invariant
                i <= nodes.len(),
                schemas@.len() == i,
                forall|j: int|
                    0 <= j < i ==> (#[trigger] schemas@[j]).node == nodes@[j] && schemas@[j].path@
                        == self.path@,
            decreases nodes.len() - i,
        {
            schemas.push(ParsedSchema::new(nodes[i], self.path.as_str()));
            i += 1;
        }
        schemas
    }
}

} // verus!
