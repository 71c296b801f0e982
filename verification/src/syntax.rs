//! The parser. A source file is parsed by tree-sitter with the grammar of
//! its language; the tree that comes back is copied into a list of plain
//! nodes, which is what the rest of the library reads.
//!
//! The small functions in the first half of this file only hand a call on
//! to tree-sitter. What they state of it is not proved.

use crate::comment_detection::{SyntaxNode, SyntaxNodeView, SyntaxTree, SyntaxTreeView};
use crate::types::Language;
use vstd::prelude::*;

verus! {

/// A parser, as `tree_sitter::Parser` holds it.
#[verifier::external_type_specification]
#[verifier::external_body]
pub struct ExParser(tree_sitter::Parser);

/// A parsed file, as `tree_sitter::Tree` holds it.
#[verifier::external_type_specification]
#[verifier::external_body]
pub struct ExTree(tree_sitter::Tree);

/// What tree-sitter tells of one node of a tree.
#[derive(Debug, Clone)]
pub struct Descendant {
    /// The grammar's name for the node.
    pub kind: String,
    /// The byte offset at which the node starts.
    pub start_byte: usize,
    /// The byte offset at which the node ends.
    pub end_byte: usize,
    /// The row of the node's start, counted from 0.
    pub start_row: usize,
    /// How many nodes stand above the node; 0 for the root.
    pub depth: u32,
}

/// The value of a [`Descendant`].
pub ghost struct DescendantView {
    pub kind: Seq<char>,
    pub start_byte: usize,
    pub end_byte: usize,
    pub start_row: usize,
    pub depth: u32,
}

impl View for Descendant {
    type V = DescendantView;

    open spec fn view(&self) -> DescendantView {
        DescendantView {
            kind: self.kind@,
            start_byte: self.start_byte,
            end_byte: self.end_byte,
            start_row: self.start_row,
            depth: self.depth,
        }
    }
}

/// Whether tree-sitter's parser takes the grammar of a language.
pub uninterp spec fn parser_takes(language: Language) -> bool;

/// The language whose grammar a parser holds: the one it was last given
/// with success, none while it was given none. The parsers of this file
/// are changed in no other way.
pub uninterp spec fn parser_grammar(parser: tree_sitter::Parser) -> Option<Language>;

/// What a parser that holds the grammar of `language` makes of `source`:
/// the nodes of the tree and whether it holds a syntax error, or nothing
/// if the parser gives no tree.
pub uninterp spec fn parsed(source: Seq<char>, language: Language) -> Option<
    (Seq<DescendantView>, bool),
>;

/// The nodes of a tree as tree-sitter numbers them, the root first: each
/// node before its children, the children in their order.
pub uninterp spec fn tree_descendants(tree: tree_sitter::Tree) -> Seq<DescendantView>;

/// Whether a syntax error lies anywhere in a tree.
pub uninterp spec fn tree_has_error(tree: tree_sitter::Tree) -> bool;

/// A fresh parser from `tree_sitter::Parser::new`. It holds no grammar yet.
#[verifier::external_body]
fn new_parser() -> (res: tree_sitter::Parser)
    ensures
        parser_grammar(res) is None,
{
    tree_sitter::Parser::new()
}

/// Hands `tree_sitter_python::LANGUAGE` to `Parser::set_language` and says
/// whether the parser took it. That depends on the grammar alone: on the
/// version it was generated for. A parser that refuses is left as it was.
#[verifier::external_body]
fn set_python(parser: &mut tree_sitter::Parser) -> (res: bool)
    ensures
        res == parser_takes(Language::Python),
        parser_grammar(*final(parser)) == if res {
            Some(Language::Python)
        } else {
            parser_grammar(*old(parser))
        },
{
    parser.set_language(&tree_sitter_python::LANGUAGE.into()).is_ok()
}

/// Hands `tree_sitter_javascript::LANGUAGE` to `Parser::set_language` and
/// says whether the parser took it. That depends on the grammar alone. A
/// parser that refuses is left as it was.
#[verifier::external_body]
fn set_javascript(parser: &mut tree_sitter::Parser) -> (res: bool)
    ensures
        res == parser_takes(Language::JavaScript),
        parser_grammar(*final(parser)) == if res {
            Some(Language::JavaScript)
        } else {
            parser_grammar(*old(parser))
        },
{
    parser.set_language(&tree_sitter_javascript::LANGUAGE.into()).is_ok()
}

/// Hands `tree_sitter_typescript::LANGUAGE_TYPESCRIPT` to
/// `Parser::set_language` and says whether the parser took it. That depends
/// on the grammar alone. A parser that refuses is left as it was.
#[verifier::external_body]
fn set_typescript(parser: &mut tree_sitter::Parser) -> (res: bool)
    ensures
        res == parser_takes(Language::TypeScript),
        parser_grammar(*final(parser)) == if res {
            Some(Language::TypeScript)
        } else {
            parser_grammar(*old(parser))
        },
{
    parser.set_language(&tree_sitter_typescript::LANGUAGE_TYPESCRIPT.into()).is_ok()
}

/// Hands `tree_sitter_rust::LANGUAGE` to `Parser::set_language` and says
/// whether the parser took it. That depends on the grammar alone. A parser
/// that refuses is left as it was.
#[verifier::external_body]
fn set_rust(parser: &mut tree_sitter::Parser) -> (res: bool)
    ensures
        res == parser_takes(Language::Rust),
        parser_grammar(*final(parser)) == if res {
            Some(Language::Rust)
        } else {
            parser_grammar(*old(parser))
        },
{
    parser.set_language(&tree_sitter_rust::LANGUAGE.into()).is_ok()
}

/// Calls `Parser::parse` on the whole text, with no earlier tree. What
/// comes back depends on the grammar that the parser holds and on the text
/// alone; the parser keeps its grammar.
#[verifier::external_body]
fn parse(parser: &mut tree_sitter::Parser, source: &str) -> (res: Option<tree_sitter::Tree>)
    ensures
        parser_grammar(*final(parser)) == parser_grammar(*old(parser)),
        parser_grammar(*old(parser)) matches Some(language) ==> match res {
            Some(tree) => parsed(source@, language) == Some(
                (tree_descendants(tree), tree_has_error(tree)),
            ),
            None => parsed(source@, language) is None,
        },
{
    parser.parse(source, None)
}

/// The number of a tree's nodes: `Node::descendant_count` of its root,
/// which counts the root too.
#[verifier::external_body]
fn descendant_count(tree: &tree_sitter::Tree) -> (res: usize)
    ensures
        res == tree_descendants(*tree).len(),
{
    tree.root_node().descendant_count()
}

/// The node with the number `i`: a cursor from `Tree::walk` is moved there
/// with `TreeCursor::goto_descendant`, and the node's kind, span, row and
/// the cursor's depth are read.
#[verifier::external_body]
fn descendant(tree: &tree_sitter::Tree, i: usize) -> (res: Descendant)
    requires
        i < tree_descendants(*tree).len(),
    ensures
        res@ == tree_descendants(*tree)[i as int],
{
    let mut cursor = tree.walk();
    cursor.goto_descendant(i);
    let node = cursor.node();
    Descendant {
        kind: node.kind().to_string(),
        start_byte: node.start_byte(),
        end_byte: node.end_byte(),
        start_row: node.start_position().row,
        depth: cursor.depth(),
    }
}

/// Whether a syntax error lies in the tree: `Node::has_error` of its root.
#[verifier::external_body]
fn has_error(tree: &tree_sitter::Tree) -> (res: bool)
    ensures
        res == tree_has_error(*tree),
{
    tree.root_node().has_error()
}

/// Gives the parser the grammar of a language, and says whether the parser
/// took it.
fn set_language(parser: &mut tree_sitter::Parser, language: Language) -> (res: bool)
    ensures
        res == parser_takes(language),
        parser_grammar(*final(parser)) == if res {
            Some(language)
        } else {
            parser_grammar(*old(parser))
        },
{
    match language {
        Language::Python => set_python(parser),
        Language::JavaScript => set_javascript(parser),
        Language::TypeScript => set_typescript(parser),
        Language::Rust => set_rust(parser),
    }
}

/// Every node that names a parent names a node that stands before it.
pub open spec fn parents_precede(nodes: Seq<SyntaxNodeView>) -> bool {
    forall|i: int|
        0 <= i < nodes.len() ==> match (#[trigger] nodes[i]).parent {
            Some(p) => p < i,
            None => true,
        }
}

/// The last of the first `i` nodes that stands at the given depth.
pub open spec fn latest_at(nodes: Seq<DescendantView>, i: int, depth: int) -> Option<usize>
    decreases i,
{
    if i <= 0 {
        None
    } else if nodes[i - 1].depth == depth {
        Some((i - 1) as usize)
    } else {
        latest_at(nodes, i - 1, depth)
    }
}

/// The parent of node `i`: the last node before it that stands one level
/// higher. The root has none.
pub open spec fn parent_in(nodes: Seq<DescendantView>, i: int) -> Option<usize> {
    latest_at(nodes, i, nodes[i].depth - 1)
}

/// The copy of the node with the number `i`, with its parent.
pub open spec fn copy_of(nodes: Seq<DescendantView>, i: int) -> SyntaxNodeView {
    SyntaxNodeView {
        kind: nodes[i].kind,
        start_byte: nodes[i].start_byte,
        end_byte: nodes[i].end_byte,
        start_row: nodes[i].start_row,
        parent: parent_in(nodes, i),
    }
}

/// The copy of a tree: every node of the tree, in the tree's order and
/// with its parent, and whether the tree holds a syntax error.
pub open spec fn flat_view(nodes: Seq<DescendantView>, has_error: bool) -> SyntaxTreeView {
    SyntaxTreeView { nodes: Seq::new(nodes.len(), |i: int| copy_of(nodes, i)), has_error }
}

/// `flat` is the copy of `tree`.
pub open spec fn is_flattened(flat: SyntaxTree, tree: tree_sitter::Tree) -> bool {
    flat@ == flat_view(tree_descendants(tree), tree_has_error(tree))
}

/// The tree that parsing gives for a source in a language, as the library
/// holds it: none if the parser does not take the grammar of the language
/// or gives no tree.
pub open spec fn parsed_tree(source: Seq<char>, language: Language) -> Option<SyntaxTreeView> {
    if parser_takes(language) {
        match parsed(source, language) {
            Some((nodes, has_error)) => Some(flat_view(nodes, has_error)),
            None => None,
        }
    } else {
        None
    }
}

/// The last node at a depth among the first `i` is one of the first `i`.
pub proof fn lemma_latest_precedes(nodes: Seq<DescendantView>, i: int, depth: int)
    ensures
        latest_at(nodes, i, depth) matches Some(p) ==> p < i,
    decreases i,
{
    if i > 0 && nodes[i - 1].depth != depth {
        lemma_latest_precedes(nodes, i - 1, depth);
    }
}

/// In the copy of a tree every parent stands before its children.
pub proof fn lemma_flat_parents_precede(nodes: Seq<DescendantView>, has_error: bool)
    ensures
        parents_precede(flat_view(nodes, has_error).nodes),
{
    let flat = flat_view(nodes, has_error).nodes;
    assert forall|i: int| 0 <= i < flat.len() implies match (#[trigger] flat[i]).parent {
        Some(p) => p < i,
        None => true,
    } by {
        lemma_latest_precedes(nodes, i, nodes[i].depth - 1);
    }
}

/// Copies a tree into a list of nodes in the tree's order: each node before
/// its children, the children in their order. Each node names as its
/// parent the last node before it that stands one level higher; the root
/// comes first and names none.
pub fn flatten(tree: &tree_sitter::Tree) -> (res: SyntaxTree)
    ensures
        is_flattened(res, *tree),
        parents_precede(res@.nodes),
        res.nodes@.len() > 0 ==> res.nodes@[0].parent is None,
{
    let ghost all = tree_descendants(*tree);
    let count = descendant_count(tree);
    let mut nodes: Vec<SyntaxNode> = Vec::new();
    let mut last: Vec<Option<usize>> = Vec::new();
    let mut i: usize = 0;
    while i < count
        invariant
            all == tree_descendants(*tree),
            i <= count == all.len(),
            nodes@.len() == i,
            forall|j: int| 0 <= j < i ==> (#[trigger] nodes@[j])@ == copy_of(all, j),
            forall|k: int| 0 <= k < last@.len() ==> #[trigger] last@[k] == latest_at(all, i as int, k),
            forall|k: int|
                k < 0 || k >= last@.len() ==> (#[trigger] latest_at(all, i as int, k)) is None,
        decreases count - i,
    {
        let facts = descendant(tree, i);
        let depth: usize = facts.depth as usize;
        let parent: Option<usize> = if depth > 0 && depth - 1 < last.len() {
            last[depth - 1]
        } else {
            None
        };
        assert(parent == parent_in(all, i as int));
        nodes.push(
            SyntaxNode {
                kind: facts.kind,
                start_byte: facts.start_byte,
                end_byte: facts.end_byte,
                start_row: facts.start_row,
                parent,
            },
        );
        while last.len() <= depth
            invariant
                forall|k: int|
                    0 <= k < last@.len() ==> #[trigger] last@[k] == latest_at(all, i as int, k),
                forall|k: int|
                    k < 0 || k >= last@.len() ==> (#[trigger] latest_at(all, i as int, k)) is None,
            decreases depth + 1 - last.len(),
        {
            last.push(None);
        }
        last.set(depth, Some(i));
        proof {
            assert forall|k: int| 0 <= k < last@.len() implies #[trigger] last@[k] == latest_at(
                all,
                i + 1,
                k,
            ) by {
                if k != depth {
                    assert(latest_at(all, i + 1, k) == latest_at(all, i as int, k));
                }
            }
            assert forall|k: int| k < 0 || k >= last@.len() implies (#[trigger] latest_at(
                all,
                i + 1,
                k,
            )) is None by {
                assert(latest_at(all, i + 1, k) == latest_at(all, i as int, k));
            }
        }
        i += 1;
    }
    let flat = SyntaxTree { nodes, has_error: has_error(tree) };
    proof {
        assert(flat@.nodes =~= flat_view(all, tree_has_error(*tree)).nodes);
        lemma_flat_parents_precede(all, tree_has_error(*tree));
        if flat.nodes@.len() > 0 {
            assert(flat.nodes@[0]@ == copy_of(all, 0));
        }
    }
    flat
}

/// Parses a source file with the grammar of its language.
///
/// There is a result exactly if the parser takes the grammar and gives a
/// tree for the source; the result is the copy of that tree.
pub fn parse_source(source: &str, language: Language) -> (res: Option<SyntaxTree>)
    ensures
        match res {
            Some(flat) => parsed_tree(source@, language) == Some(flat@),
            None => parsed_tree(source@, language) is None,
        },
        res matches Some(flat) ==> parents_precede(flat@.nodes),
{
    let mut parser = new_parser();
    if !set_language(&mut parser, language) {
        return None;
    }
    match parse(&mut parser, source) {
        Some(tree) => Some(flatten(&tree)),
        None => None,
    }
}

} // verus!
