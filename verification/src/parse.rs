//! Parsing source text into the library's tree, through the Python grammar.

use vstd::prelude::*;

verus! {

use crate::tree::PyNode;

#[verifier::external_type_specification]
#[verifier::external_body]
pub struct ExTsNode<'a>(tree_sitter::Node<'a>);

/// The tree that parsing a source text with the Python grammar yields,
/// rendered as the library's node type, or nothing when no tree is
/// produced. Parsing is a fixed function of the text alone; its value is
/// left unstated, and the contracts above speak of it through this name.
pub uninterp spec fn parse_of(code: Seq<char>) -> Option<PyNode>;

/// Relies on tree_sitter::Parser::parse with tree_sitter_python's grammar:
/// the tree is a deterministic function of the source text alone. Yields
/// nothing when the grammar cannot be loaded or the parser returns no tree.
#[verifier::external_body]
pub fn parse_python_module(code: &str) -> (r: Option<PyNode>)
    ensures
        r == parse_of(code@),
{
    let mut parser = tree_sitter::Parser::new();
    let language = tree_sitter::Language::from(tree_sitter_python::LANGUAGE);
    if parser.set_language(&language).is_err() {
        return None;
    }
    let tree = parser.parse(code, None)?;
    Some(convert_node(tree.root_node(), code.as_bytes(), None))
}

/// Relies on tree_sitter::Node's accessors: copies each node's kind name,
/// field name, text span, positions and children into the library's tree
/// type, one for one.
#[verifier::external_body]
fn convert_node(node: tree_sitter::Node<'_>, src: &[u8], field: Option<String>) -> (r: PyNode) {
    let mut children = Vec::new();
    for i in 0..node.child_count() {
        let f = node.field_name_for_child(i).map(|s| s.to_string());
        children.push(convert_node(node.child(i).unwrap(), src, f));
    }
    let (sp, ep) = (node.start_position(), node.end_position());
    let text = String::from_utf8_lossy(&src[node.start_byte()..node.end_byte()]).into_owned();
    let (kind, is_named) = (node.kind().to_string(), node.is_named());
    PyNode { kind, field, is_named, text, start_row: sp.row, start_col: sp.column,
        end_row: ep.row, end_col: ep.column, children }
}

} // verus!
