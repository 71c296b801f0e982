//! The regular-expression engine that the rewriter leans on. Nothing in this
//! file is proved: each function states what the `regex` crate does.

use crate::rewriter::in_zone;
use crate::text::byte_offset;
use vstd::prelude::*;

verus! {

/// The characters that carry meaning in a pattern.
pub open spec fn is_meta(c: char) -> bool {
    ||| c == '\\'
    ||| c == '.'
    ||| c == '+'
    ||| c == '*'
    ||| c == '?'
    ||| c == '('
    ||| c == ')'
    ||| c == '|'
    ||| c == '['
    ||| c == ']'
    ||| c == '{'
    ||| c == '}'
    ||| c == '^'
    ||| c == '$'
    ||| c == '#'
    ||| c == '&'
    ||| c == '-'
    ||| c == '~'
}

/// `text` with a backslash in front of every character that carries meaning
/// in a pattern, so that the whole matches itself and nothing else.
pub open spec fn escaped(text: Seq<char>) -> Seq<char>
    decreases text.len(),
{
    if text.len() == 0 {
        Seq::empty()
    } else if is_meta(text.last()) {
        escaped(text.drop_last()).push('\\').push(text.last())
    } else {
        escaped(text.drop_last()).push(text.last())
    }
}

/// The byte spans of the successive non-overlapping matches of `pattern` in
/// `haystack`, each as start and end; `None` if the pattern does not compile.
pub uninterp spec fn regex_match_spans(pattern: Seq<char>, haystack: Seq<char>) -> Option<
    Seq<(usize, usize)>,
>;

/// The first `n` characters of `text` without those that start inside one
/// of the byte spans.
pub open spec fn without_spans(text: Seq<char>, spans: Seq<(usize, usize)>, n: int) -> Seq<char>
    decreases n,
{
    if n <= 0 {
        Seq::empty()
    } else if in_zone(byte_offset(text, n - 1), spans) {
        without_spans(text, spans, n - 1)
    } else {
        without_spans(text, spans, n - 1).push(text[n - 1])
    }
}

/// The characters `from..to` of `text` all start outside the spans.
pub open spec fn untouched(text: Seq<char>, spans: Seq<(usize, usize)>, from: int, to: int) -> bool {
    forall|i: int| from <= i < to ==> !in_zone(#[trigger] byte_offset(text, i), spans)
}

/// Taking spans out of a longer start of a text only adds to what is left
/// of a shorter start.
pub proof fn lemma_without_spans_grows(
    text: Seq<char>,
    spans: Seq<(usize, usize)>,
    m: int,
    n: int,
)
    requires
        0 <= m <= n,
    ensures
        without_spans(text, spans, m).len() <= without_spans(text, spans, n).len(),
        without_spans(text, spans, n).subrange(0, without_spans(text, spans, m).len() as int)
            == without_spans(text, spans, m),
    decreases n - m,
{
    let short = without_spans(text, spans, m);
    if m < n {
        lemma_without_spans_grows(text, spans, m, n - 1);
        let mid = without_spans(text, spans, n - 1);
        assert(without_spans(text, spans, n).subrange(0, short.len() as int) =~= mid.subrange(
            0,
            short.len() as int,
        ));
    } else {
        assert(short.subrange(0, short.len() as int) =~= short);
    }
}

/// A part of a text that no span touches is left as it stands, at the
/// place where what is left of the text before it ends.
pub proof fn lemma_untouched_part_stays(
    text: Seq<char>,
    spans: Seq<(usize, usize)>,
    from: int,
    to: int,
)
    requires
        0 <= from <= to <= text.len(),
        untouched(text, spans, from, to),
    ensures
        without_spans(text, spans, to) == without_spans(text, spans, from) + text.subrange(
            from,
            to,
        ),
    decreases to - from,
{
    if from < to {
        assert(untouched(text, spans, from, to - 1));
        lemma_untouched_part_stays(text, spans, from, to - 1);
        assert(!in_zone(byte_offset(text, to - 1), spans));
        assert(text.subrange(from, to) =~= text.subrange(from, to - 1).push(text[to - 1]));
        assert(without_spans(text, spans, to) =~= without_spans(text, spans, from) + text.subrange(
            from,
            to,
        ));
    } else {
        assert(text.subrange(from, to) =~= Seq::<char>::empty());
        assert(without_spans(text, spans, from) + Seq::<char>::empty() =~= without_spans(
            text,
            spans,
            from,
        ));
    }
}

/// `haystack` with every non-overlapping match of `pattern` taken out; `None`
/// if the pattern does not compile.
pub open spec fn regex_without_matches(pattern: Seq<char>, haystack: Seq<char>) -> Option<
    Seq<char>,
> {
    match regex_match_spans(pattern, haystack) {
        Some(spans) => Some(without_spans(haystack, spans, haystack.len() as int)),
        None => None,
    }
}

/// Calls `regex::escape`, which copies the text and puts a backslash before
/// each of the eighteen characters of [`is_meta`].
#[verifier::external_body]
pub(crate) fn escape(text: &str) -> (res: String)
    ensures
        res@ == escaped(text@),
{
    regex::escape(text)
}

/// Compiles `pattern` with `regex::Regex::new` and collects the start and end
/// of every match that `Regex::find_iter` yields on `haystack`. The claim is
/// only that the outcome depends on the two texts alone.
#[verifier::external_body]
pub(crate) fn match_spans(pattern: &str, haystack: &str) -> (res: Option<Vec<(usize, usize)>>)
    ensures
        match res {
            Some(spans) => regex_match_spans(pattern@, haystack@) == Some(spans@),
            None => regex_match_spans(pattern@, haystack@) is None,
        },
{
    match regex::Regex::new(pattern) {
        Ok(re) => Some(re.find_iter(haystack).map(|m| (m.start(), m.end())).collect()),
        Err(_) => None,
    }
}

/// Compiles `pattern` with `regex::Regex::new` and replaces every match in
/// `haystack` by nothing with `Regex::replace_all`, which copies the
/// haystack but for the spans of the matches that `find_iter` yields.
#[verifier::external_body]
pub(crate) fn without_matches(pattern: &str, haystack: &str) -> (res: Option<String>)
    ensures
        match res {
            Some(text) => regex_without_matches(pattern@, haystack@) == Some(text@),
            None => regex_without_matches(pattern@, haystack@) is None,
        },
{
    match regex::Regex::new(pattern) {
        Ok(re) => Some(re.replace_all(haystack, "").into_owned()),
        Err(_) => None,
    }
}

} // verus!
