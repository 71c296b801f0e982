//! Finds the comments of a parsed source file.
//!
//! The syntax tree comes as the list of its nodes in pre-order, the root
//! first, each with the index of its parent. Every node below the root whose
//! kind names a comment yields a comment, unless its text opens with a
//! documentation marker or it lies inside such a documentation comment.

use crate::text::{
    char_index, char_index_at, chars_of, copy_range, find_first, first_occurrence,
    lemma_trimmed_occurs, occurs_at, on_boundary, skip_spaces, starts_with, string_of, trimmed,
    trimmed_range,
};
use crate::syntax::{parse_source, parsed_tree};
use crate::types::{comments_view, CommentInfo, CommentInfoView, Language};
use vstd::prelude::*;
use vstd::string::*;

verus! {

/// One node of a syntax tree.
#[derive(Debug, Clone)]
pub struct SyntaxNode {
    /// The grammar's name for the node.
    pub kind: String,
    /// The byte offset in the source at which the node starts.
    pub start_byte: usize,
    /// The byte offset in the source at which the node ends.
    pub end_byte: usize,
    /// The row of the node's start, counted from 0.
    pub start_row: usize,
    /// The index of the parent node; `None` for the root.
    pub parent: Option<usize>,
}

/// The value of a [`SyntaxNode`].
pub ghost struct SyntaxNodeView {
    pub kind: Seq<char>,
    pub start_byte: usize,
    pub end_byte: usize,
    pub start_row: usize,
    pub parent: Option<usize>,
}

impl View for SyntaxNode {
    type V = SyntaxNodeView;

    open spec fn view(&self) -> SyntaxNodeView {
        SyntaxNodeView {
            kind: self.kind@,
            start_byte: self.start_byte,
            end_byte: self.end_byte,
            start_row: self.start_row,
            parent: self.parent,
        }
    }
}

/// The values of a list of nodes, in order.
pub open spec fn nodes_view(nodes: Seq<SyntaxNode>) -> Seq<SyntaxNodeView> {
    Seq::new(nodes.len(), |i: int| nodes[i]@)
}

/// A parsed source file: its nodes in pre-order, and whether the parser met
/// a syntax error anywhere.
#[derive(Debug, Clone)]
pub struct SyntaxTree {
    pub nodes: Vec<SyntaxNode>,
    pub has_error: bool,
}

/// The value of a [`SyntaxTree`].
pub ghost struct SyntaxTreeView {
    pub nodes: Seq<SyntaxNodeView>,
    pub has_error: bool,
}

impl View for SyntaxTree {
    type V = SyntaxTreeView;

    open spec fn view(&self) -> SyntaxTreeView {
        SyntaxTreeView { nodes: nodes_view(self.nodes@), has_error: self.has_error }
    }
}

/// The value of a tree that may be missing.
pub open spec fn tree_view(tree: Option<SyntaxTree>) -> Option<SyntaxTreeView> {
    match tree {
        Some(t) => Some(t@),
        None => None,
    }
}

/// `word` occurs somewhere in `text`.
pub open spec fn contains(text: Seq<char>, word: Seq<char>) -> bool {
    first_occurrence(text, word) is Some
}

/// The kind of a node that is a comment.
pub open spec fn is_comment_kind(kind: Seq<char>) -> bool {
    contains(kind, "comment"@)
}

/// The kind of a node that gives a comment its context.
pub open spec fn is_scope_kind(kind: Seq<char>) -> bool {
    contains(kind, "function"@) || contains(kind, "class"@) || contains(kind, "method"@)
}

/// A comment that opens with a documentation marker.
pub open spec fn is_doc_comment(text: Seq<char>) -> bool {
    ||| occurs_at(text, "///"@, 0)
    ||| occurs_at(text, "//!"@, 0)
    ||| occurs_at(text, "/**"@, 0)
    ||| occurs_at(text, "/*!"@, 0)
    ||| occurs_at(text, "\"\"\""@, 0)
    ||| occurs_at(text, "'''"@, 0)
}

/// The part of `source` between two byte offsets, if both fall between
/// characters and the first does not come after the second.
pub open spec fn span_text(source: Seq<char>, start: usize, end: usize) -> Option<Seq<char>> {
    match (char_index(source, start as int), char_index(source, end as int)) {
        (Some(a), Some(b)) => if a <= b {
            Some(source.subrange(a, b))
        } else {
            None
        },
        _ => None,
    }
}

/// The parent of node `i`, if it has one that comes before it in the list.
pub open spec fn parent_of(nodes: Seq<SyntaxNodeView>, i: int) -> Option<int> {
    match nodes[i].parent {
        Some(p) => if p < i {
            Some(p as int)
        } else {
            None
        },
        None => None,
    }
}

/// The context of node `i`: the whole text of the nearest node above it
/// that is a function, a class or a method; empty if there is none or its
/// text cannot be taken from the source.
pub open spec fn context_of(source: Seq<char>, nodes: Seq<SyntaxNodeView>, i: int) -> Seq<char>
    decreases i,
{
    if 0 <= i < nodes.len() {
        match parent_of(nodes, i) {
            Some(p) => if is_scope_kind(nodes[p].kind) {
                match span_text(source, nodes[p].start_byte, nodes[p].end_byte) {
                    Some(text) => text,
                    None => Seq::empty(),
                }
            } else {
                context_of(source, nodes, p)
            },
            None => Seq::empty(),
        }
    } else {
        Seq::empty()
    }
}

/// The line of a node: its row counted from 1.
pub open spec fn line_of(row: usize) -> nat {
    if row < usize::MAX {
        (row + 1) as nat
    } else {
        row as nat
    }
}

/// Node `i` is a documentation comment: a comment node whose text opens
/// with a documentation marker.
pub open spec fn is_documentation(source: Seq<char>, nodes: Seq<SyntaxNodeView>, i: int) -> bool {
    is_comment_kind(nodes[i].kind) && match span_text(
        source,
        nodes[i].start_byte,
        nodes[i].end_byte,
    ) {
        Some(raw) => is_doc_comment(trimmed(raw)),
        None => false,
    }
}

/// Node `i` is a part of a documentation comment: one of the nodes above
/// it, the root aside, is one.
pub open spec fn inside_documentation(
    source: Seq<char>,
    nodes: Seq<SyntaxNodeView>,
    i: int,
) -> bool
    decreases i,
{
    if 0 <= i < nodes.len() {
        match parent_of(nodes, i) {
            Some(p) => (p > 0 && is_documentation(source, nodes, p)) || inside_documentation(
                source,
                nodes,
                p,
            ),
            None => false,
        }
    } else {
        false
    }
}

/// The comment that node `i` yields, if it is a comment node whose text can
/// be taken from the source and that neither is documentation nor a part
/// of it.
pub open spec fn comment_of(source: Seq<char>, nodes: Seq<SyntaxNodeView>, i: int) -> Option<
    CommentInfoView,
> {
    if is_comment_kind(nodes[i].kind) && !inside_documentation(source, nodes, i) {
        match span_text(source, nodes[i].start_byte, nodes[i].end_byte) {
            Some(raw) => if is_doc_comment(trimmed(raw)) {
                None
            } else {
                Some(
                    CommentInfoView {
                        text: trimmed(raw),
                        line_number: line_of(nodes[i].start_row),
                        context: context_of(source, nodes, i),
                        explanation: Some("This comment may be redundant"@),
                    },
                )
            },
            None => None,
        }
    } else {
        None
    }
}

/// The comments of the nodes `1..n`, in the order of the nodes.
pub open spec fn comments_among(source: Seq<char>, nodes: Seq<SyntaxNodeView>, n: int) -> Seq<
    CommentInfoView,
>
    decreases n,
{
    if n <= 1 {
        Seq::empty()
    } else {
        match comment_of(source, nodes, n - 1) {
            Some(c) => comments_among(source, nodes, n - 1).push(c),
            None => comments_among(source, nodes, n - 1),
        }
    }
}

/// The comments of a source file: those of all nodes below the root, but
/// for documentation and what lies inside it. No tree, or a tree with a
/// syntax error, gives none.
pub open spec fn extracted(source: Seq<char>, tree: Option<SyntaxTreeView>) -> Seq<
    CommentInfoView,
> {
    match tree {
        Some(t) => if t.has_error {
            Seq::empty()
        } else {
            comments_among(source, t.nodes, t.nodes.len() as int)
        },
        None => Seq::empty(),
    }
}

/// No comment that extraction yields opens with a documentation marker.
pub proof fn lemma_no_doc_comment_extracted(
    source: Seq<char>,
    nodes: Seq<SyntaxNodeView>,
    n: int,
    k: int,
)
    requires
        0 <= k < comments_among(source, nodes, n).len(),
    ensures
        !is_doc_comment(comments_among(source, nodes, n)[k].text),
    decreases n,
{
    if n > 1 {
        let shorter = comments_among(source, nodes, n - 1);
        if k < shorter.len() {
            lemma_no_doc_comment_extracted(source, nodes, n - 1, k);
        }
    }
}

/// Every comment that extraction yields stands word for word in the source.
pub proof fn lemma_extracted_text_occurs(
    source: Seq<char>,
    nodes: Seq<SyntaxNodeView>,
    n: int,
    k: int,
)
    requires
        0 <= k < comments_among(source, nodes, n).len(),
    ensures
        contains(source, comments_among(source, nodes, n)[k].text),
    decreases n,
{
    if n > 1 {
        let shorter = comments_among(source, nodes, n - 1);
        if k < shorter.len() {
            lemma_extracted_text_occurs(source, nodes, n - 1, k);
        } else {
            let node = nodes[n - 1];
            let a = char_index(source, node.start_byte as int)->0;
            let b = char_index(source, node.end_byte as int)->0;
            assert(on_boundary(source, node.start_byte as int, a));
            assert(on_boundary(source, node.end_byte as int, b));
            let raw = source.subrange(a, b);
            let text = trimmed(raw);
            lemma_trimmed_occurs(raw);
            let p = skip_spaces(raw, 0);
            assert(source.subrange(a + p, a + p + text.len()) =~= raw.subrange(p, p + text.len()));
            assert(occurs_at(source, text, a + p));
        }
    }
}

/// A documentation comment yields no comment, and neither does any node
/// inside one.
pub proof fn lemma_documentation_yields_nothing(
    source: Seq<char>,
    nodes: Seq<SyntaxNodeView>,
    i: int,
)
    requires
        is_documentation(source, nodes, i) || inside_documentation(source, nodes, i),
    ensures
        comment_of(source, nodes, i) is None,
{
}

/// Whether `word` occurs in `text`.
pub fn contains_word(text: &str, word: &str) -> (res: bool)
    ensures
        res == contains(text@, word@),
{
    let t = chars_of(text);
    let w = chars_of(word);
    find_first(&t, &w).is_some()
}

/// Whether a comment's text opens with a documentation marker.
pub fn opens_documentation(text: &Vec<char>) -> (res: bool)
    ensures
        res == is_doc_comment(text@),
{
    starts_with(text, &chars_of("///")) || starts_with(text, &chars_of("//!")) || starts_with(
        text,
        &chars_of("/**"),
    ) || starts_with(text, &chars_of("/*!")) || starts_with(text, &chars_of("\"\"\""))
        || starts_with(text, &chars_of("'''"))
}

/// The character range of a byte span of `source`.
pub fn span_range(source: &Vec<char>, start: usize, end: usize) -> (res: Option<(usize, usize)>)
    ensures
        match res {
            Some((a, b)) => a <= b <= source.len() && span_text(source@, start, end) == Some(
                source@.subrange(a as int, b as int),
            ),
            None => span_text(source@, start, end) is None,
        },
{
    match char_index_at(source, start) {
        Some(a) => match char_index_at(source, end) {
            Some(b) => if a <= b {
                Some((a, b))
            } else {
                None
            },
            None => None,
        },
        None => None,
    }
}

/// The context of the node at `index`: the text of the nearest enclosing
/// function, class or method, or nothing.
pub fn find_context(nodes: &Vec<SyntaxNode>, index: usize, source: &Vec<char>) -> (res: String)
    ensures
        res@ == context_of(source@, nodes_view(nodes@), index as int),
{
    let ghost views = nodes_view(nodes@);
    let mut current: usize = index;
    loop
        invariant
            views == nodes_view(nodes@),
            context_of(source@, views, current as int) == context_of(source@, views, index as int),
        decreases current,
    {
        if current >= nodes.len() {
            return String::new();
        }
        assert(views[current as int] == nodes@[current as int]@);
        match nodes[current].parent {
            Some(p) => {
                if p >= current {
                    return String::new();
                }
                assert(views[p as int] == nodes@[p as int]@);
                let kind = nodes[p].kind.as_str();
                if contains_word(kind, "function") || contains_word(kind, "class") || contains_word(
                    kind,
                    "method",
                ) {
                    return match span_range(source, nodes[p].start_byte, nodes[p].end_byte) {
                        Some((a, b)) => string_of(copy_range(source, a, b)),
                        None => String::new(),
                    };
                }
                current = p;
            },
            None => {
                return String::new();
            },
        }
    }
}

/// Whether the node at `index` is a documentation comment.
pub fn is_documentation_node(nodes: &Vec<SyntaxNode>, index: usize, source: &Vec<char>) -> (res:
    bool)
    requires
        index < nodes.len(),
    ensures
        res == is_documentation(source@, nodes_view(nodes@), index as int),
{
    assert(nodes_view(nodes@)[index as int] == nodes@[index as int]@);
    let node = &nodes[index];
    if !contains_word(node.kind.as_str(), "comment") {
        return false;
    }
    match span_range(source, node.start_byte, node.end_byte) {
        None => false,
        Some((a, b)) => {
            let text = trimmed_range(source, a, b);
            opens_documentation(&text)
        },
    }
}

/// Whether the node at `index` lies inside a documentation comment.
pub fn stands_in_documentation(nodes: &Vec<SyntaxNode>, index: usize, source: &Vec<char>) -> (res:
    bool)
    ensures
        res == inside_documentation(source@, nodes_view(nodes@), index as int),
{
    let ghost views = nodes_view(nodes@);
    let mut current: usize = index;
    loop
        invariant
            views == nodes_view(nodes@),
            inside_documentation(source@, views, current as int) == inside_documentation(
                source@,
                views,
                index as int,
            ),
        decreases current,
    {
        if current >= nodes.len() {
            return false;
        }
        assert(views[current as int] == nodes@[current as int]@);
        match nodes[current].parent {
            Some(p) => {
                if p >= current {
                    return false;
                }
                if p > 0 && is_documentation_node(nodes, p, source) {
                    return true;
                }
                current = p;
            },
            None => {
                return false;
            },
        }
    }
}

/// The comment of the node at `index`, if it yields one.
pub fn comment_at(nodes: &Vec<SyntaxNode>, index: usize, source: &Vec<char>) -> (res: Option<
    CommentInfo,
>)
    requires
        index < nodes.len(),
    ensures
        match res {
            Some(c) => comment_of(source@, nodes_view(nodes@), index as int) == Some(c@),
            None => comment_of(source@, nodes_view(nodes@), index as int) is None,
        },
{
    assert(nodes_view(nodes@)[index as int] == nodes@[index as int]@);
    let node = &nodes[index];
    if !contains_word(node.kind.as_str(), "comment") {
        return None;
    }
    if stands_in_documentation(nodes, index, source) {
        return None;
    }
    match span_range(source, node.start_byte, node.end_byte) {
        None => None,
        Some((a, b)) => {
            let text = trimmed_range(source, a, b);
            if opens_documentation(&text) {
                None
            } else {
                let line_number: usize = if node.start_row < usize::MAX {
                    node.start_row + 1
                } else {
                    node.start_row
                };
                Some(
                    CommentInfo {
                        text: string_of(text),
                        line_number,
                        context: find_context(nodes, index, source),
                        explanation: Some(String::from_str("This comment may be redundant")),
                    },
                )
            }
        },
    }
}

/// Extracts the comments of a parsed source file, in source order.
///
/// A documentation comment yields nothing, and neither does any node
/// inside it. No tree, or a tree that holds a syntax error, gives no
/// comments.
pub fn comments_in_tree(source: &str, tree: &Option<SyntaxTree>) -> (res: Vec<CommentInfo>)
    ensures
        comments_view(res@) == extracted(source@, tree_view(*tree)),
        forall|k: int| 0 <= k < res@.len() ==> !is_doc_comment((#[trigger] res@[k]).text@),
        forall|k: int| 0 <= k < res@.len() ==> contains(source@, (#[trigger] res@[k]).text@),
{
    let mut out: Vec<CommentInfo> = Vec::new();
    match tree {
        None => {
            assert(comments_view(out@) =~= extracted(source@, tree_view(*tree)));
            out
        },
        Some(t) => {
            let ghost views = nodes_view(t.nodes@);
            if t.has_error || t.nodes.len() == 0 {
                assert(comments_view(out@) =~= extracted(source@, tree_view(*tree)));
                return out;
            }
            let chars = chars_of(source);
            let mut i: usize = 1;
            assert(comments_view(out@) =~= comments_among(source@, views, 1));
            while i < t.nodes.len()
                invariant
                    1 <= i <= t.nodes.len(),
                    chars@ == source@,
                    views == nodes_view(t.nodes@),
                    comments_view(out@) == comments_among(source@, views, i as int),
                    forall|k: int|
                        0 <= k < out@.len() ==> !is_doc_comment((#[trigger] out@[k]).text@),
                decreases t.nodes.len() - i,
            {
                let ghost before = out@;
                match comment_at(&t.nodes, i, &chars) {
                    Some(c) => {
                        out.push(c);
                        assert(comments_view(out@) =~= comments_view(before).push(c@));
                    },
                    None => {},
                }
                i += 1;
            }
            proof {
                assert forall|k: int| 0 <= k < out@.len() implies contains(
                    source@,
                    (#[trigger] out@[k]).text@,
                ) by {
                    assert(comments_view(out@)[k] == out@[k]@);
                    lemma_extracted_text_occurs(source@, views, views.len() as int, k);
                }
            }
            out
        },
    }
}

/// Finds the comments of a source file: parses it with the grammar of its
/// language and extracts the comments of the tree.
///
/// The result is never an error. The comments are those that [`extracted`]
/// names for the tree that the parser gives for this source in this
/// language; none of them opens with a documentation marker, and each
/// stands word for word in the source. A file that cannot be parsed, or
/// only with a syntax error, has none.
pub fn detect_comments(source: &str, language: Language) -> (res: Result<Vec<CommentInfo>, String>)
    ensures
        res matches Ok(found) && comments_view(found@) == extracted(
            source@,
            parsed_tree(source@, language),
        ) && forall|k: int|
            0 <= k < found@.len() ==> !is_doc_comment((#[trigger] found@[k]).text@) && contains(
                source@,
                found@[k].text@,
            ),
{
    let tree = parse_source(source, language);
    let found = comments_in_tree(source, &tree);
    Ok(found)
}

} // verus!
