//! The tree-sitter grammars the engine parses with, the map of parsers it
//! keeps by file extension, and the walk that lists a syntax tree's nodes in
//! pre-order.

use vstd::prelude::*;

use crate::syntax::{is_preorder_shape, nodes_view, NodeView, SyntaxNode};
use vstd::string::StringExecFns;

verus! {

/// `tree_sitter::Parser`, opaque to proofs.
#[verifier::external_type_specification]
#[verifier::external_body]
pub struct ExParser(tree_sitter::Parser);

/// `tree_sitter::Tree`, opaque to proofs; its nodes are named by `tree_nodes`.
#[verifier::external_type_specification]
#[verifier::external_body]
pub struct ExTree(tree_sitter::Tree);

/// `dashmap::DashMap`, opaque to proofs; the parser map's contents are named by
/// `parser_languages`.
#[verifier::external_type_specification]
#[verifier::external_body]
#[verifier::reject_recursive_types(K)]
#[verifier::reject_recursive_types(V)]
#[verifier::reject_recursive_types(S)]
pub struct ExDashMap<K, V, S>(dashmap::DashMap<K, V, S>);

/// The languages the engine has grammars for.
#[derive(Debug, Clone, Copy, PartialEq, Eq, Structural)]
pub enum SourceLanguage {
    /// Rust (`.rs`)
    Rust,
    /// Python (`.py`)
    Python,
    /// JavaScript (`.js`)
    JavaScript,
    /// TypeScript (`.ts`)
    TypeScript,
    /// TypeScript with JSX (`.tsx`)
    Tsx,
    /// Go (`.go`)
    Go,
}

/// The file extension that selects a language's grammar.
pub open spec fn language_extension(lang: SourceLanguage) -> Seq<char> {
    match lang {
        SourceLanguage::Rust => "rs"@,
        SourceLanguage::Python => "py"@,
        SourceLanguage::JavaScript => "js"@,
        SourceLanguage::TypeScript => "ts"@,
        SourceLanguage::Tsx => "tsx"@,
        SourceLanguage::Go => "go"@,
    }
}

/// The extensions that have a grammar.
pub open spec fn grammar_extensions() -> Set<Seq<char>> {
    set!["rs"@, "py"@, "js"@, "ts"@, "tsx"@, "go"@]
}

/// The parsers the engine keeps: each extension that has a grammar, with the
/// language of that grammar.
pub open spec fn grammar_parsers() -> Map<Seq<char>, SourceLanguage> {
    map![
        "rs"@ => SourceLanguage::Rust,
        "py"@ => SourceLanguage::Python,
        "js"@ => SourceLanguage::JavaScript,
        "ts"@ => SourceLanguage::TypeScript,
        "tsx"@ => SourceLanguage::Tsx,
        "go"@ => SourceLanguage::Go,
    ]
}

/// The extension of `lang` as a `String`.
pub fn extension_for_language(lang: SourceLanguage) -> (r: String)
    ensures
        r@ == language_extension(lang),
{
    match lang {
        SourceLanguage::Rust => String::from_str("rs"),
        SourceLanguage::Python => String::from_str("py"),
        SourceLanguage::JavaScript => String::from_str("js"),
        SourceLanguage::TypeScript => String::from_str("ts"),
        SourceLanguage::Tsx => String::from_str("tsx"),
        SourceLanguage::Go => String::from_str("go"),
    }
}

/// `tree_sitter::Parser::new`: a parser with no language yet.
#[verifier::external_body]
fn new_parser() -> tree_sitter::Parser {
    tree_sitter::Parser::new()
}

/// `tree_sitter::Parser::set_language` with the grammar of `lang` (from the
/// `tree-sitter-<language>` crates). The library accepts a grammar whose ABI
/// version lies in `MIN_COMPATIBLE_LANGUAGE_VERSION..=LANGUAGE_VERSION`
/// (13 to 14 in this version of the library); each of the six grammars brought
/// here declares version 14, so the call always succeeds.
#[verifier::external_body]
fn set_parser_language(parser: &mut tree_sitter::Parser, lang: SourceLanguage) -> (accepted: bool)
    ensures
        accepted,
{
    let language: tree_sitter::Language = match lang {
        SourceLanguage::Rust => tree_sitter_rust::LANGUAGE.into(),
        SourceLanguage::Python => tree_sitter_python::LANGUAGE.into(),
        SourceLanguage::JavaScript => tree_sitter_javascript::LANGUAGE.into(),
        SourceLanguage::TypeScript => tree_sitter_typescript::LANGUAGE_TYPESCRIPT.into(),
        SourceLanguage::Tsx => tree_sitter_typescript::LANGUAGE_TSX.into(),
        SourceLanguage::Go => tree_sitter_go::LANGUAGE.into(),
    };
    parser.set_language(&language).is_ok()
}

/// A tree-sitter parser together with the language whose grammar it was given.
/// Only `GrammarParser::new` makes one, so the parser always holds the grammar
/// of `language`.
pub struct GrammarParser {
    language: SourceLanguage,
    parser: tree_sitter::Parser,
}

impl GrammarParser {
    /// The language whose grammar the parser holds.
    pub closed spec fn spec_language(self) -> SourceLanguage {
        self.language
    }

    /// A parser for `lang`, when the library accepts its grammar (it accepts
    /// all of them).
    pub fn new(lang: SourceLanguage) -> (r: Option<Self>)
        ensures
            r matches Some(p) && p.spec_language() == lang,
    {
        let mut parser = new_parser();
        if set_parser_language(&mut parser, lang) {
            Some(GrammarParser { language: lang, parser })
        } else {
            None
        }
    }
}

/// The nodes of a syntax tree in pre-order, the order of tree-sitter's
/// descendant indices (index 0 is the root): for each node its kind, whether it
/// is named, the row it starts on and its depth below the root.
pub uninterp spec fn tree_nodes(tree: tree_sitter::Tree) -> Seq<NodeView>;

/// The nodes, as `tree_nodes` lists them, of the tree that
/// `tree_sitter::Parser::parse` builds from `source` with the grammar of `lang`.
pub uninterp spec fn syntax_tree_nodes(lang: SourceLanguage, source: Seq<char>) -> Seq<NodeView>;

/// `tree_sitter::Tree::root_node` and `Node::descendant_count`: the number of
/// nodes of the tree, "including one for the node itself", so at least 1. The
/// library reads it from a 32-bit C counter, so it fits in a `u32`.
#[verifier::external_body]
fn tree_node_count(tree: &tree_sitter::Tree) -> (n: usize)
    ensures
        n == tree_nodes(*tree).len(),
        1 <= n <= u32::MAX,
{
    tree.root_node().descendant_count()
}

/// The node of `tree` with descendant index `index`: a cursor on the root
/// (`Node::walk`) is moved there with `TreeCursor::goto_descendant`, and the
/// node is read with `Node::kind`, `Node::is_named`, the row of
/// `Node::start_position` and `TreeCursor::depth` (depth below the root).
/// Descendant indices number the nodes in pre-order from the root, which is
/// index 0 at depth 0; the next node in pre-order is a child of the one before
/// it or lies beside one of its ancestors, so it is below the root and at most
/// one level deeper than the one before it.
#[verifier::external_body]
fn tree_node_at(tree: &tree_sitter::Tree, index: usize) -> (r: (&'static str, bool, usize, u32))
    requires
        index < tree_nodes(*tree).len(),
    ensures
        (r.0@, r.1, r.2, r.3) == tree_nodes(*tree)[index as int],
        index == 0 ==> r.3 == 0,
        index > 0 ==> 1 <= r.3 <= tree_nodes(*tree)[index - 1].3 + 1,
{
    let root = tree.root_node();
    let mut cursor = root.walk();
    cursor.goto_descendant(index);
    let node = cursor.node();
    (node.kind(), node.is_named(), node.start_position().row, cursor.depth())
}

/// Lists every node of `tree` in pre-order with its depth below the root.
pub fn syntax_nodes(tree: &tree_sitter::Tree) -> (r: Vec<SyntaxNode>)
    ensures
        nodes_view(r@) == tree_nodes(*tree),
        r.len() <= u32::MAX,
        is_preorder_shape(nodes_view(r@)),
{
    let count = tree_node_count(tree);
    let ghost nodes = tree_nodes(*tree);
    let mut r: Vec<SyntaxNode> = Vec::new();
    let mut i: usize = 0;
    while i < count
        invariant
            i <= count <= u32::MAX,
            count == nodes.len(),
            nodes == tree_nodes(*tree),
            r.len() == i,
            forall|k: int| 0 <= k < i ==> #[trigger] r@[k]@ == nodes[k],
            i > 0 ==> nodes[0].3 == 0,
            forall|k: int| 1 <= k < i ==> 1 <= #[trigger] nodes[k].3 <= nodes[k - 1].3 + 1,
        decreases count - i,
    {
        let (kind, is_named, start_row, depth) = tree_node_at(tree, i);
        r.push(SyntaxNode { kind: String::from_str(kind), is_named, start_row, depth });
        i = i + 1;
    }
    assert(nodes_view(r@) =~= nodes);
    r
}

/// The parser map of the engine: extension to parser.
pub type ParserMap = dashmap::DashMap<String, GrammarParser>;

/// What a parser map holds: for each extension, the language of its parser.
pub uninterp spec fn parser_languages(m: ParserMap) -> Map<Seq<char>, SourceLanguage>;

/// `DashMap::new`: an empty map.
#[verifier::external_body]
pub(crate) fn new_parser_map() -> (m: ParserMap)
    ensures
        parser_languages(m).dom() == Set::<Seq<char>>::empty(),
{
    dashmap::DashMap::new()
}

/// `DashMap::insert`: afterwards `key` maps to `parser` and no other key
/// changed. Taken through `&mut` so that the change is visible.
#[verifier::external_body]
pub(crate) fn insert_parser(m: &mut ParserMap, key: String, parser: GrammarParser)
    ensures
        parser_languages(*final(m)) == parser_languages(*old(m)).insert(key@, parser.spec_language()),
{
    m.insert(key, parser);
}

/// `DashMap::get_mut` for `key` and, when the map holds a parser for it,
/// `tree_sitter::Parser::parse` of `content` with that parser (no old tree).
/// The outer `Option` is present exactly when the map holds `key`. Parsing
/// returns `None` only when the parser has no language, a timeout expired or a
/// cancellation flag was set; every parser here holds a grammar and none has a
/// timeout or a flag, so a tree comes back, whose nodes are those of the parse
/// of `content` with the parser's grammar.
#[verifier::external_body]
pub(crate) fn parse_with_map_parser(m: &ParserMap, key: &str, content: &str) -> (r: Option<
    Option<tree_sitter::Tree>,
>)
    ensures
        r is Some <==> parser_languages(*m).contains_key(key@),
        r matches Some(t) ==> (t matches Some(tree) && tree_nodes(tree) == syntax_tree_nodes(
            parser_languages(*m)[key@],
            content@,
        )),
{
    match m.get_mut(key) {
        Some(mut entry) => Some(entry.parser.parse(content, None)),
        None => None,
    }
}

} // verus!
