//! The boundary with the tree-sitter Java grammar: parsing and pattern queries.

use vstd::prelude::*;
use crate::types::string_seq_view;

verus! {

#[verifier::external_type_specification]
#[verifier::external_body]
pub struct ExTree(tree_sitter::Tree);

/// Why a source file yielded no class.
#[derive(PartialEq, Eq, Structural, Clone, Copy, Debug)]
pub enum ExtractError {
    /// The file could not be read.
    Io,
    /// A captured slice of the source is not valid UTF-8.
    Decode,
    /// The file holds no top-level type declaration.
    NoDeclarationFound,
    /// A declaration of a kind that no extractor handles.
    UnsupportedDeclaration,
    /// The Java grammar or one of the patterns could not be loaded.
    GrammarInit,
}

/// One captured node of a pattern match: the capture's index in its pattern, the node's text
/// and the byte offset where the node starts.
pub struct Capture {
    pub index: u32,
    pub text: String,
    pub start: usize,
}

impl View for Capture {
    type V = (u32, Seq<char>, usize);

    open spec fn view(&self) -> (u32, Seq<char>, usize) {
        (self.index, self.text@, self.start)
    }
}

pub open spec fn match_view(m: Vec<Capture>) -> Seq<(u32, Seq<char>, usize)> {
    m@.map_values(|c: Capture| c@)
}

pub open spec fn matches_view(ms: Seq<Vec<Capture>>) -> Seq<Seq<(u32, Seq<char>, usize)>> {
    ms.map_values(|m: Vec<Capture>| match_view(m))
}

/// Java source text together with the syntax tree parsed from it. The fields are private so
/// that `parse_java` is the only way to make one: the tree is always that of the text.
pub struct SyntaxTree {
    source: String,
    tree: tree_sitter::Tree,
}

impl SyntaxTree {
    /// The source text that the tree was parsed from.
    pub closed spec fn text(&self) -> Seq<char> {
        self.source@
    }
}

/// The node kinds of the top-level children of the Java syntax tree of a source text.
pub uninterp spec fn java_top_level_kinds(source: Seq<char>) -> Seq<Seq<char>>;

/// The matches of a tree-sitter pattern over the Java syntax tree of a source text,
/// each as its captures in order.
pub uninterp spec fn java_query_captures(source: Seq<char>, pattern: Seq<char>) -> Seq<Seq<(u32, Seq<char>, usize)>>;

/// Relies on tree_sitter::Parser::set_language with tree_sitter_java::language(), which fails
/// only on a grammar version mismatch (this grammar is version 14, which the binding accepts),
/// and on Parser::parse, which returns a tree for any text once a language is set and no
/// timeout or cancellation flag is configured.
#[verifier::external_body]
pub(crate) fn parse_java(source: &String) -> (r: Result<SyntaxTree, ExtractError>)
    ensures
        r is Ok,
        r is Ok ==> r->Ok_0.text() == source@,
{
    let mut parser = tree_sitter::Parser::new();
    parser.set_language(tree_sitter_java::language()).map_err(|_| ExtractError::GrammarInit)?;
    let tree = parser.parse(source.as_str(), None).ok_or(ExtractError::GrammarInit)?;
    Ok(SyntaxTree { source: source.clone(), tree })
}

/// Relies on tree_sitter::Node::child and Node::kind: the kinds of the root's children in
/// source order, which depend on the source text alone.
#[verifier::external_body]
pub(crate) fn top_level_kinds(t: &SyntaxTree) -> (r: Vec<String>)
    ensures
        string_seq_view(r@) == java_top_level_kinds(t.text()),
{
    let root = t.tree.root_node();
    (0..root.child_count()).map(|i| root.child(i).map_or(String::new(), |n| n.kind().to_string())).collect()
}

/// Relies on tree_sitter::Query::new, whose outcome depends on the pattern alone and which
/// accepts each of the library's own patterns; on QueryCursor::matches over the root node: the
/// matches of `pattern` over the whole tree, each as (capture index, node text, start byte) in
/// order, which depend on the source text and pattern alone; and on Node::utf8_text, which fails
/// only on a slice that is not UTF-8, while a node of a tree parsed from a `String` spans whole
/// characters.
#[verifier::external_body]
pub(crate) fn run_query(t: &SyntaxTree, pattern: &str) -> (r: Result<Vec<Vec<Capture>>, ExtractError>)
    requires
        crate::extract::is_library_pattern(pattern@),
    ensures
        r is Ok,
        r is Ok ==> matches_view(r->Ok_0@) == java_query_captures(t.text(), pattern@),
{
    let query = tree_sitter::Query::new(tree_sitter_java::language(), pattern)
        .map_err(|_| ExtractError::GrammarInit)?;
    let mut cursor = tree_sitter::QueryCursor::new();
    let bytes = t.source.as_bytes();
    cursor.matches(&query, t.tree.root_node(), bytes).map(|m| m.captures.iter().map(|c| Ok(Capture {
        index: c.index,
        text: c.node.utf8_text(bytes).map_err(|_| ExtractError::Decode)?.to_string(),
        start: c.node.start_byte(),
    })).collect::<Result<Vec<Capture>, ExtractError>>()).collect()
}

} // verus!
