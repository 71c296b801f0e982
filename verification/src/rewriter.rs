//! Deletes confirmed comments from source text.
//!
//! Each comment is found again by its exact text in the text as it stands
//! after the deletions before it, so no stored position can go stale. A
//! comment whose first occurrence lies inside a documentation block is left
//! alone. What is deleted depends on where the comment stands on its line.

use crate::regex_support::{
    escape, escaped, lemma_untouched_part_stays, lemma_without_spans_grows, match_spans,
    regex_match_spans, regex_without_matches, untouched, without_matches, without_spans,
};
use crate::text::{
    byte_offset, byte_offset_of, chars_of, find_first, first_occurrence, is_space, is_whitespace,
    lemma_tidy_idempotent, no_cr_before_lf, occurs_at, starts_with, string_of, tidy, tidy_text,
};
use crate::types::{comments_view, CommentInfo, CommentInfoView, Language};
use vstd::prelude::*;
use vstd::string::*;

verus! {

/// The pattern of a documentation block: text between two triple quotes of
/// one kind, with the indentation before it.
pub open spec fn docstring_pattern() -> Seq<char> {
    "(?m)[\t ]*'''[^']*'''|[\t ]*\"\"\"[^\"]*\"\"\""@
}

/// The byte spans of the documentation blocks of `source`: those that the
/// docstring pattern matches where the language has such blocks, none elsewhere.
pub open spec fn protected_zones(source: Seq<char>, language: Language) -> Seq<(usize, usize)> {
    if language.has_docstrings() {
        match regex_match_spans(docstring_pattern(), source) {
            Some(spans) => spans,
            None => Seq::empty(),
        }
    } else {
        Seq::empty()
    }
}

/// `offset` lies inside one of the spans: at or after its start, before its end.
pub open spec fn in_zone(offset: int, zones: Seq<(usize, usize)>) -> bool {
    exists|k: int| 0 <= k < zones.len() && (#[trigger] zones[k]).0 <= offset < zones[k].1
}

/// A comment that runs to the end of its line: it opens with `#` or `//`.
pub open spec fn is_line_comment(comment: Seq<char>) -> bool {
    occurs_at(comment, seq!['#'], 0) || occurs_at(comment, seq!['/', '/'], 0)
}

/// The last character before `pos` on the same line that is not white
/// space, if the line has one there.
pub open spec fn visible_before(text: Seq<char>, pos: int) -> Option<char>
    decreases pos,
{
    if pos <= 0 || text[pos - 1] == '\n' {
        None
    } else if !is_space(text[pos - 1]) {
        Some(text[pos - 1])
    } else {
        visible_before(text, pos - 1)
    }
}

/// A comment at `pos` is inline when code stands before it on its line and
/// that code does not end in an opening brace. Every other comment counts
/// as standing at the start of its line.
pub open spec fn is_inline(text: Seq<char>, pos: int) -> bool {
    match visible_before(text, pos) {
        Some(c) => c != '{',
        None => false,
    }
}

/// The comment as a literal pattern, with the blanks and tabs around it.
pub open spec fn padded(comment: Seq<char>) -> Seq<char> {
    "[ \t]*"@ + escaped(comment) + "[ \t]*"@
}

/// The pattern whose matches are deleted for a comment that was found at
/// character index `pos` of `text`.
///
/// A line comment takes its line ending with it; one at the start of its
/// line is anchored there, so that the whole line goes and nothing that
/// follows a brace or code is touched. Any other comment goes alone.
pub open spec fn deletion_pattern(text: Seq<char>, pos: int, comment: Seq<char>) -> Seq<char> {
    if !is_line_comment(comment) {
        padded(comment)
    } else if is_inline(text, pos) {
        padded(comment) + "(?:\r?\n|$)"@
    } else {
        "(?m)^"@ + padded(comment) + "(?:\r?\n|$)"@
    }
}

/// `text` after the deletion of one comment.
///
/// Nothing changes if the comment's text does not occur, if its first
/// occurrence starts inside a protected zone, or if no pattern can be
/// compiled for it.
pub open spec fn without_comment(
    text: Seq<char>,
    comment: Seq<char>,
    zones: Seq<(usize, usize)>,
) -> Seq<char> {
    match first_occurrence(text, comment) {
        None => text,
        Some(pos) => if in_zone(byte_offset(text, pos), zones) {
            text
        } else {
            match regex_without_matches(deletion_pattern(text, pos, comment), text) {
                Some(shorter) => shorter,
                None => text,
            }
        },
    }
}

/// `text` after the deletion of each comment in turn, in list order.
pub open spec fn without_comments(
    text: Seq<char>,
    comments: Seq<CommentInfoView>,
    zones: Seq<(usize, usize)>,
) -> Seq<char>
    decreases comments.len(),
{
    if comments.len() == 0 {
        text
    } else {
        without_comment(
            without_comments(text, comments.drop_last(), zones),
            comments.last().text,
            zones,
        )
    }
}

/// The rewritten source: the comments deleted in turn, with the protected
/// zones taken from the source as it was given, then tidied.
pub open spec fn rewritten(
    source: Seq<char>,
    comments: Seq<CommentInfoView>,
    language: Language,
) -> Seq<char> {
    tidy(without_comments(source, comments, protected_zones(source, language)))
}

/// Finds the documentation blocks of `source`.
pub fn find_protected_zones(source: &str, language: Language) -> (res: Vec<(usize, usize)>)
    ensures
        res@ == protected_zones(source@, language),
{
    match language {
        Language::Python => {
            match match_spans("(?m)[\t ]*'''[^']*'''|[\t ]*\"\"\"[^\"]*\"\"\"", source) {
                Some(spans) => spans,
                None => Vec::new(),
            }
        },
        _ => Vec::new(),
    }
}

/// Whether a byte offset lies inside one of the zones.
pub fn is_protected(offset: u128, zones: &Vec<(usize, usize)>) -> (res: bool)
    ensures
        res == in_zone(offset as int, zones@),
{
    let mut k: usize = 0;
    while k < zones.len()
        invariant
            k <= zones.len(),
            forall|j: int| 0 <= j < k ==> !((#[trigger] zones@[j]).0 <= offset < zones@[j].1),
        decreases zones.len() - k,
    {
        let lo: u128 = zones[k].0 as u128;
        let hi: u128 = zones[k].1 as u128;
        if lo <= offset && offset < hi {
            return true;
        }
        k += 1;
    }
    false
}

/// Whether the comment found at `pos` has code before it on its line that
/// does not end in an opening brace.
pub fn stands_inline(text: &Vec<char>, pos: usize) -> (res: bool)
    requires
        pos <= text.len(),
    ensures
        res == is_inline(text@, pos as int),
{
    let mut k: usize = pos;
    while k > 0 && text[k - 1] != '\n' && is_whitespace(text[k - 1])
        invariant
            k <= pos,
            pos <= text.len(),
            visible_before(text@, k as int) == visible_before(text@, pos as int),
        decreases k,
    {
        k -= 1;
    }
    if k == 0 || text[k - 1] == '\n' {
        false
    } else {
        text[k - 1] != '{'
    }
}

/// Builds the pattern that deletes the comment found at `pos`.
pub fn build_deletion_pattern(text: &Vec<char>, pos: usize, comment: &str) -> (res: String)
    requires
        pos <= text.len(),
    ensures
        res@ == deletion_pattern(text@, pos as int, comment@),
{
    let needle = chars_of(comment);
    let mut hash: Vec<char> = Vec::new();
    hash.push('#');
    let mut slashes: Vec<char> = Vec::new();
    slashes.push('/');
    slashes.push('/');
    assert(hash@ =~= seq!['#']);
    assert(slashes@ =~= seq!['/', '/']);
    let line_comment = starts_with(&needle, &hash) || starts_with(&needle, &slashes);
    let quoted = escape(comment);
    let core = String::from_str("[ \t]*").concat(quoted.as_str()).concat("[ \t]*");
    if !line_comment {
        core
    } else if stands_inline(text, pos) {
        core.concat("(?:\r?\n|$)")
    } else {
        String::from_str("(?m)^").concat(core.as_str()).concat("(?:\r?\n|$)")
    }
}

/// Deletes one comment from `text`, if it is found outside the zones.
pub fn remove_comment(text: String, comment: &str, zones: &Vec<(usize, usize)>) -> (res: String)
    ensures
        res@ == without_comment(text@, comment@, zones@),
{
    let chars = chars_of(text.as_str());
    let needle = chars_of(comment);
    match find_first(&chars, &needle) {
        None => text,
        Some(pos) => {
            let offset = byte_offset_of(&chars, pos);
            if is_protected(offset, zones) {
                text
            } else {
                let pattern = build_deletion_pattern(&chars, pos, comment);
                match without_matches(pattern.as_str(), text.as_str()) {
                    Some(shorter) => shorter,
                    None => text,
                }
            }
        },
    }
}

/// Deletes the given comments from `source` and tidies the result: no blank
/// line stays, and the text ends in exactly one line feed.
pub fn remove_redundant_comments(
    source: &str,
    redundant_comments: &[CommentInfo],
    language: Language,
) -> (res: String)
    ensures
        res@ == rewritten(source@, comments_view(redundant_comments@), language),
{
    let zones = find_protected_zones(source, language);
    let mut current = String::from_str(source);
    let ghost all = comments_view(redundant_comments@);
    let mut i: usize = 0;
    while i < redundant_comments.len()
        invariant
            i <= redundant_comments.len(),
            all == comments_view(redundant_comments@),
            current@ == without_comments(source@, all.take(i as int), zones@),
        decreases redundant_comments.len() - i,
    {
        proof {
            assert(all.take(i + 1).drop_last() =~= all.take(i as int));
            assert(all.take(i + 1).last() == redundant_comments@[i as int]@);
        }
        current = remove_comment(current, redundant_comments[i].text.as_str(), &zones);
        i += 1;
    }
    assert(all.take(i as int) =~= all);
    let chars = chars_of(current.as_str());
    let tidied = tidy_text(&chars);
    string_of(tidied)
}

/// Rewriting what was rewritten changes nothing more, for the same list of
/// comments, provided that the first pass left nothing to do: none of the
/// comments can still be deleted from its result, and no line of the result
/// ends in a carriage return.
pub proof fn lemma_rewrite_idempotent(
    source: Seq<char>,
    comments: Seq<CommentInfoView>,
    language: Language,
)
    requires
        forall|i: int|
            0 <= i < comments.len() ==> without_comment(
                rewritten(source, comments, language),
                (#[trigger] comments[i]).text,
                protected_zones(rewritten(source, comments, language), language),
            ) == rewritten(source, comments, language),
        no_cr_before_lf(rewritten(source, comments, language)),
    ensures
        rewritten(rewritten(source, comments, language), comments, language) == rewritten(
            source,
            comments,
            language,
        ),
{
    let once = rewritten(source, comments, language);
    lemma_nothing_deleted(once, comments, protected_zones(once, language), comments.len() as int);
    assert(comments.take(comments.len() as int) =~= comments);
    lemma_tidy_idempotent(without_comments(source, comments, protected_zones(source, language)));
}

/// Where no comment of a list can be deleted from a text, deleting the
/// first `n` of them in turn leaves the text as it is.
proof fn lemma_nothing_deleted(
    text: Seq<char>,
    comments: Seq<CommentInfoView>,
    zones: Seq<(usize, usize)>,
    n: int,
)
    requires
        0 <= n <= comments.len(),
        forall|i: int|
            0 <= i < comments.len() ==> without_comment(text, (#[trigger] comments[i]).text, zones)
                == text,
    ensures
        without_comments(text, comments.take(n), zones) == text,
    decreases n,
{
    if n > 0 {
        lemma_nothing_deleted(text, comments, zones, n - 1);
        assert(comments.take(n).drop_last() =~= comments.take(n - 1));
        assert(comments.take(n).last() == comments[n - 1]);
    }
}

/// Rewriting what was rewritten changes nothing more when the first pass
/// removed every occurrence of every comment of the list and left no line
/// that ends in a carriage return.
pub proof fn lemma_rewrite_idempotent_once_removed(
    source: Seq<char>,
    comments: Seq<CommentInfoView>,
    language: Language,
)
    requires
        forall|i: int|
            0 <= i < comments.len() ==> first_occurrence(
                rewritten(source, comments, language),
                (#[trigger] comments[i]).text,
            ) is None,
        no_cr_before_lf(rewritten(source, comments, language)),
    ensures
        rewritten(rewritten(source, comments, language), comments, language) == rewritten(
            source,
            comments,
            language,
        ),
{
    let once = rewritten(source, comments, language);
    assert forall|i: int| 0 <= i < comments.len() implies without_comment(
        once,
        (#[trigger] comments[i]).text,
        protected_zones(once, language),
    ) == once by {
        lemma_absent_comment_stays(once, comments[i].text, protected_zones(once, language));
    }
    lemma_rewrite_idempotent(source, comments, language);
}

/// A comment whose text does not occur in a text cannot be deleted from it.
pub proof fn lemma_absent_comment_stays(
    text: Seq<char>,
    comment: Seq<char>,
    zones: Seq<(usize, usize)>,
)
    requires
        first_occurrence(text, comment) is None,
    ensures
        without_comment(text, comment, zones) == text,
{
}

/// Deleting a comment leaves every part of the text as it stands that no
/// match of the deletion pattern touches: the part occurs in what is left.
pub proof fn lemma_deletion_keeps_untouched(
    text: Seq<char>,
    comment: Seq<char>,
    zones: Seq<(usize, usize)>,
    from: int,
    to: int,
)
    requires
        0 <= from <= to <= text.len(),
        first_occurrence(text, comment) matches Some(pos) ==> (regex_match_spans(
            deletion_pattern(text, pos, comment),
            text,
        ) matches Some(spans) ==> untouched(text, spans, from, to)),
    ensures
        first_occurrence(without_comment(text, comment, zones), text.subrange(from, to)) is Some,
{
    let part = text.subrange(from, to);
    let left = without_comment(text, comment, zones);
    if left == text {
        assert(occurs_at(text, part, from));
    } else {
        let pos = first_occurrence(text, comment)->0;
        let spans = regex_match_spans(deletion_pattern(text, pos, comment), text)->0;
        lemma_untouched_part_stays(text, spans, from, to);
        lemma_without_spans_grows(text, spans, to, text.len() as int);
        let before = without_spans(text, spans, from);
        let upto = without_spans(text, spans, to);
        assert(left == without_spans(text, spans, text.len() as int));
        assert(upto == before + part);
        assert(left.subrange(0, upto.len() as int) == upto);
        assert(upto.subrange(before.len() as int, upto.len() as int) =~= part);
        assert(left.subrange(before.len() as int, (before.len() + part.len()) as int)
            =~= left.subrange(0, upto.len() as int).subrange(
            before.len() as int,
            upto.len() as int,
        ));
        assert(occurs_at(left, part, before.len() as int));
    }
}

} // verus!
