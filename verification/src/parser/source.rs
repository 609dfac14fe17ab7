//! Parsing source text into a syntax tree with `tree_sitter`.
//!
//! The grammar is handed in by the caller; the library does the parsing and
//! keeps the result as a tree of its own.

use vstd::prelude::*;
use tree_sitter::{Language, Node, Parser};
use crate::parser::parsed_source::ParsedSource;
use crate::parser::parser_errors::LanguageError;
use crate::parser::tree::SyntaxNode;

verus! {

/// `tree_sitter::Language`: a grammar, an opaque value to the verifier.
#[verifier::external_type_specification]
#[verifier::external_body]
pub struct ExLanguage(Language);

/// `tree_sitter::Node`: a node of a parsed tree, an opaque value to the
/// verifier.
#[verifier::external_type_specification]
#[verifier::external_body]
pub struct ExNode<'tree>(Node<'tree>);

/// `tree_sitter::Node::kind`, `byte_range`, `has_error` and `children`, taken
/// over into a tree of the library, node for node. The text of a node is
/// what its byte range holds of `source`; it is empty where the range does
/// not lie in `source` or does not hold UTF-8. Nothing is claimed of the tree.
#[verifier::external_body]
fn tree_of_node(node: Node, source: &str) -> (tree: SyntaxNode) {
    let mut cursor = node.walk();
    let bytes = source.as_bytes().get(node.byte_range());
    SyntaxNode {
        kind: node.kind().to_string(),
        text: bytes.and_then(|held| std::str::from_utf8(held).ok()).unwrap_or_default().to_string(),
        has_error: node.has_error(),
        children: node.children(&mut cursor).map(|child| tree_of_node(child, source)).collect(),
    }
}

/// `tree_sitter::Parser::set_language` and `Parser::parse` on a new parser.
/// A grammar that the parser cannot use and a parse that yields no tree are
/// the two errors; nothing is claimed of when they arise or of the tree.
#[verifier::external_body]
fn parse_with(language: &Language, source: &str) -> (r: Result<SyntaxNode, LanguageError>) {
    let mut parser = Parser::new();
    if parser.set_language(language).is_err() {
        return Err(LanguageError::IncompatibleLanguageVersion);
    }
    match parser.parse(source, None) {
        Some(tree) => Ok(tree_of_node(tree.root_node(), source)),
        None => Err(LanguageError::LanguageNotInitialized),
    }
}

/// Parses source text with a grammar: the parsed source is what
/// `ParsedSource::from_outcome` makes of the parser's outcome.
pub fn parse_source(language: &Language, source: String, path: Option<String>) -> (r: Result<
    ParsedSource,
    LanguageError,
>)
    ensures
        r is Ok ==> r->Ok_0.source == source && r->Ok_0.path@ == (match path {
            Some(path) => path@,
            None => Seq::<char>::empty(),
        }),
{
    let outcome = parse_with(language, source.as_str());
    ParsedSource::from_outcome(outcome, source, path)
}

} // verus!
