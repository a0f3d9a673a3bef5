//! The syntax trees of tree-sitter, as far as the library reads them.
//!
//! Trees, nodes and parsers stay opaque. What a call into tree-sitter
//! returns is a function of its arguments; each such result has a name, and
//! the contracts below equate the call's result with that name. None of
//! these contracts is proved.

use vstd::prelude::*;
use tree_sitter::{Node, Parser, Query, QueryCursor, Tree};
use crate::init_hx::LangType;
use crate::position::{Capture, CaptureView, Point};
use crate::queries::{HX_JS_TAGS, HX_NAME, HX_RUST_TAGS, HX_VALUE, QUICK_QUERY};
use crate::text::bytes_of;

verus! {

/// `tree_sitter::Node`: a node of a syntax tree.
#[verifier::external_type_specification]
#[verifier::external_body]
pub struct ExNode<'a>(Node<'a>);

/// `tree_sitter::Tree`: a syntax tree.
#[verifier::external_type_specification]
#[verifier::external_body]
pub struct ExTree(Tree);

/// `tree_sitter::Parser`: a parser with the grammar it was given.
#[verifier::external_type_specification]
#[verifier::external_body]
pub struct ExParser(Parser);

/// `tree_sitter::Query`: a compiled pattern.
#[verifier::external_type_specification]
#[verifier::external_body]
pub struct ExQuery(Query);

/// The node's type, as `Node::kind` gives it.
pub uninterp spec fn kind_of(node: Node<'_>) -> Seq<char>;

/// The node's immediate parent, as `Node::parent` gives it.
pub uninterp spec fn parent_of(node: Node<'_>) -> Option<Node<'_>>;

/// The number of the node's ancestors.
pub uninterp spec fn depth_of(node: Node<'_>) -> nat;

/// The byte offset at which the node ends, as `Node::end_byte` gives it.
pub uninterp spec fn end_byte_of(node: Node<'_>) -> nat;

/// The grammar of the tree that the node belongs to, where it is one of the
/// three that the library links.
pub uninterp spec fn grammar_of(node: Node<'_>) -> Option<LangType>;

/// The smallest node within `node` that spans `point`, as
/// `Node::descendant_for_point_range` gives it.
pub uninterp spec fn descendant_at(node: Node<'_>, point: Point) -> Option<Node<'_>>;

/// The pattern compiled for the grammar, as `Query::new` gives it; `None`
/// where it refuses the pattern.
pub uninterp spec fn compiled(grammar: LangType, pattern: Seq<char>) -> Option<Query>;

/// The grammar that the query was compiled for.
pub uninterp spec fn grammar_for(query: Query) -> LangType;

/// The matches of the query within `node`, in the order in which
/// `QueryCursor::matches` finds them, each with its captures in their order,
/// and each capture with its label, the text that its node spans in
/// `source`, and the node's span.
pub uninterp spec fn matches_of(query: Query, node: Node<'_>, source: Seq<char>) -> Seq<
    Seq<CaptureView>,
>;

/// The grammar that the parser was made for.
pub uninterp spec fn grammar_in(parser: Parser) -> LangType;

/// The tree that a parser for `grammar` makes of `text`, as `Parser::parse`
/// gives it without an earlier tree.
pub uninterp spec fn parsed(grammar: LangType, text: Seq<char>) -> Option<Tree>;

/// The tree's root, as `Tree::root_node` gives it.
pub uninterp spec fn root_of(tree: Tree) -> Node<'static>;

/// Calls `Node::kind`. Claims that the result is the node's kind.
#[verifier::external_body]
pub(crate) fn node_kind(node: Node<'_>) -> (kind: String)
    ensures
        kind@ == kind_of(node),
{
    node.kind().to_owned()
}

/// Calls `Node::parent`. Claims that the result is the node's parent, and
/// that a parent has one ancestor fewer than its child: a node's chain of
/// parents ends at the root.
#[verifier::external_body]
pub(crate) fn node_parent<'a>(node: Node<'a>) -> (parent: Option<Node<'a>>)
    ensures
        parent == parent_of(node),
        match parent {
            Some(p) => depth_of(node) == depth_of(p) + 1,
            None => depth_of(node) == 0,
        },
{
    node.parent()
}

/// Calls `Node::end_byte`.
#[verifier::external_body]
pub(crate) fn node_end_byte(node: Node<'_>) -> (end: usize)
    ensures
        end == end_byte_of(node),
{
    node.end_byte()
}

/// Calls `Node::language` and compares the result with the grammar that
/// stands for `grammar`.
#[verifier::external_body]
pub(crate) fn node_parsed_as(node: Node<'_>, grammar: LangType) -> (same: bool)
    ensures
        same == (grammar_of(node) == Some(grammar)),
{
    node.language() == match grammar {
        LangType::Template => tree_sitter_html::language(),
        LangType::JavaScript => tree_sitter_javascript::language(),
        LangType::Backend => tree_sitter_rust::language(),
    }
}

/// Calls `Node::descendant_for_point_range` with `point` as both ends of
/// the range.
#[verifier::external_body]
pub(crate) fn smallest_node_at<'a>(node: Node<'a>, point: Point) -> (found: Option<Node<'a>>)
    ensures
        found == descendant_at(node, point),
{
    let at = tree_sitter::Point::new(point.row, point.column);
    node.descendant_for_point_range(at, at)
}

/// The patterns of the library. None of them ends in a name: each ends
/// behind a closing bracket.
pub open spec fn is_library_pattern(pattern: Seq<char>) -> bool {
    pattern == HX_NAME@ || pattern == HX_VALUE@ || pattern == QUICK_QUERY@ || pattern
        == HX_JS_TAGS@ || pattern == HX_RUST_TAGS@
}

/// Calls `Query::new` with the grammar that stands for `grammar`.
///
/// Only the library's patterns are handed over: where a pattern ends in a
/// name that the grammar does not know, `Query::new` cuts its error message
/// behind the end of the text and panics. A pattern that does not end in a
/// name is compiled or refused.
#[verifier::external_body]
pub(crate) fn compile_query(grammar: LangType, pattern: &str) -> (query: Option<Query>)
    requires
        is_library_pattern(pattern@),
    ensures
        query == compiled(grammar, pattern@),
        match query {
            Some(q) => grammar_for(q) == grammar,
            None => true,
        },
{
    let language = match grammar {
        LangType::Template => tree_sitter_html::language(),
        LangType::JavaScript => tree_sitter_javascript::language(),
        LangType::Backend => tree_sitter_rust::language(),
    };
    Query::new(language, pattern).ok()
}

/// Walks `QueryCursor::matches` over `node`, with the bytes of `source` as
/// the text, and hands out every match in order with its captures, as plain
/// values. The text of a capture whose bytes are no UTF-8 is empty.
///
/// tree-sitter slices `source` by the byte ranges of the nodes within
/// `node`, so `source` must reach to the end of `node`; and a query of one
/// grammar is run only on a tree of that grammar.
#[verifier::external_body]
pub(crate) fn matches_in(query: &Query, node: Node<'_>, source: &str) -> (found: Vec<
    Vec<Capture>,
>)
    requires
        grammar_of(node) == Some(grammar_for(*query)),
        end_byte_of(node) <= bytes_of(source@).len(),
    ensures
        found.deep_view() == matches_of(*query, node, source@),
{
    let (names, text) = (query.capture_names(), source.as_bytes());
    let mut cursor = QueryCursor::new();
    cursor.matches(query, node, text).map(|m| m.captures.iter().map(|c| {
        let (start, end) = (c.node.start_position(), c.node.end_position());
        Capture {
            name: names[c.index as usize].clone(),
            text: c.node.utf8_text(text).unwrap_or("").to_owned(),
            start: Point::new(start.row, start.column),
            end: Point::new(end.row, end.column),
        }
    }).collect()).collect()
}

/// Makes a parser with `Parser::new` and gives it the grammar with
/// `Parser::set_language`. Where tree-sitter refuses the grammar the parser
/// has none, and parses nothing.
#[verifier::external_body]
pub(crate) fn new_parser(grammar: LangType) -> (parser: Parser)
    ensures
        grammar_in(parser) == grammar,
{
    let mut parser = Parser::new();
    let _ = parser.set_language(match grammar {
        LangType::Template => tree_sitter_html::language(),
        LangType::JavaScript => tree_sitter_javascript::language(),
        LangType::Backend => tree_sitter_rust::language(),
    });
    parser
}

/// Calls `Parser::parse` on the text, without an earlier tree. The parser
/// keeps its grammar.
#[verifier::external_body]
pub(crate) fn parse_text(parser: &mut Parser, text: &str) -> (tree: Option<Tree>)
    ensures
        tree == parsed(grammar_in(*old(parser)), text@),
        grammar_in(*final(parser)) == grammar_in(*old(parser)),
{
    parser.parse(text, None)
}

/// Calls `Tree::root_node`.
#[verifier::external_body]
pub(crate) fn tree_root<'a>(tree: &'a Tree) -> (root: Node<'a>)
    ensures
        root == root_of(*tree),
{
    tree.root_node()
}

} // verus!
