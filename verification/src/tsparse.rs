//! The trusted boundary to the tree-sitter parser.
//!
//! Everything the library learns about a parser's tree comes through
//! `parse_tree`, which parses a file with the grammar for its language and
//! converts the resulting native tree, node for node, into the library's own
//! `SynNode`.  Parsing is a deterministic function of the grammar and the
//! text, so the converted result is given the name `tree_of`; every
//! extraction pass is verified code over that value.

use vstd::prelude::*;
use crate::lang::Language;
use crate::tree::SynNode;

verus! {

#[verifier::external_type_specification]
#[verifier::external_body]
pub struct ExParser(tree_sitter::Parser);

#[verifier::external_type_specification]
#[verifier::external_body]
pub struct ExNode<'tree>(tree_sitter::Node<'tree>);

/// The tree that parsing a text with a language's grammar yields, already
/// converted to `SynNode`; `None` for a grammar or parse failure.
pub uninterp spec fn tree_of(lang: Language, text: Seq<char>) -> Option<SynNode>;

/// Relies on the grammar crates' `LANGUAGE` constants and on
/// `tree_sitter::Parser::{new, set_language}`: yields a parser configured
/// with the named language's grammar, or `None` if the grammar is rejected.
#[verifier::external_body]
fn parser_for(lang: &Language) -> Option<tree_sitter::Parser>
    requires
        *lang != Language::Unknown,
{
    let mut p = tree_sitter::Parser::new();
    let g = tree_sitter::Language::new(match lang {
        Language::Python | Language::Unknown => tree_sitter_python::LANGUAGE,
        Language::TypeScript => tree_sitter_typescript::LANGUAGE_TYPESCRIPT,
        Language::JavaScript => tree_sitter_javascript::LANGUAGE,
        Language::Rust => tree_sitter_rust::LANGUAGE,
        Language::Go => tree_sitter_go::LANGUAGE,
        Language::Java => tree_sitter_java::LANGUAGE,
        Language::Cpp => tree_sitter_cpp::LANGUAGE,
        Language::Ruby => tree_sitter_ruby::LANGUAGE,
        Language::Php => tree_sitter_php::LANGUAGE_PHP,
    });
    p.set_language(&g).ok()?;
    Some(p)
}

/// Relies on `tree_sitter::Node`'s accessors (`kind`, `is_named`, byte and
/// row spans, `utf8_text`, `children`, `field_name_for_child`): copies the
/// parser's tree into the library's own `SynNode`, one node for one node.
#[verifier::external_body]
fn convert_node(node: tree_sitter::Node<'_>, src: &str) -> (r: SynNode) {
    let mut children: Vec<SynNode> = Vec::new();
    let mut cursor = node.walk();
    for (i, ch) in node.children(&mut cursor).enumerate() {
        let mut c = convert_node(ch, src);
        c.field = node.field_name_for_child(i as u32).map(|f| f.to_string());
        children.push(c);
    }
    SynNode {
        kind: node.kind().to_string(), field: None, named: node.is_named(),
        start_byte: node.start_byte(), end_byte: node.end_byte(),
        start_row: node.start_position().row, end_row: node.end_position().row,
        text: node.utf8_text(src.as_bytes()).unwrap_or("").chars().collect(), children,
    }
}

/// Relies on `tree_sitter::Parser::{new, set_language, parse}`: parsing is
/// deterministic in the grammar and the text, so the converted result is
/// exactly `tree_of`; a grammar or parse failure yields `None`.
#[verifier::external_body]
pub fn parse_tree(lang: &Language, content: &str) -> (r: Option<SynNode>)
    requires
        *lang != Language::Unknown,
    ensures
        r == tree_of(*lang, content@),
{
    let mut parser = parser_for(lang)?;
    let tree = parser.parse(content, None)?;
    Some(convert_node(tree.root_node(), content))
}

} // verus!
