//! Text as a sequence of characters: comparison, search, whitespace and the
//! byte offsets that a character index stands for in UTF-8.

use vstd::prelude::*;
use vstd::std_specs::iter::IteratorSpec;
use vstd::string::*;
use vstd::utf8::*;

verus! {

/// Whether two string slices hold the same characters.
pub fn str_equal(a: &str, b: &str) -> (res: bool)
    ensures
        res == (a@ == b@),
{
    let x = a.as_bytes();
    let y = b.as_bytes();
    proof {
        encode_utf8_decode_utf8(a@);
        encode_utf8_decode_utf8(b@);
    }
    if x.len() != y.len() {
        return false;
    }
    let mut i: usize = 0;
    while i < x.len()
        invariant
            i <= x.len(),
            x.len() == y.len(),
            forall|j: int| 0 <= j < i ==> x@[j] == y@[j],
            x@ == a.spec_bytes(),
            y@ == b.spec_bytes(),
            decode_utf8(a.spec_bytes()) == a@,
            decode_utf8(b.spec_bytes()) == b@,
        decreases x.len() - i,
    {
        if x[i] != y[i] {
            return false;
        }
        i += 1;
    }
    assert(x@ =~= y@);
    true
}

/// The characters of a string slice, in order.
pub fn chars_of(s: &str) -> (res: Vec<char>)
    ensures
        res@ == s@,
{
    broadcast use vstd::string::group_string_axioms;

    let mut out: Vec<char> = Vec::new();
    let mut it = s.chars();
    loop
        invariant
            out@ + it.remaining() == s@,
            it.decrease() is Some,
        decreases it.decrease()->0,
    {
        let ghost before = it.remaining();
        match it.next() {
            Some(c) => {
                assert(before =~= seq![c] + it.remaining());
                assert(out@.push(c) + it.remaining() =~= out@ + before);
                out.push(c);
            },
            None => {
                assert(out@ + it.remaining() =~= out@);
                return out;
            },
        }
    }
}

/// Builds a `String` from characters with `String::from_iter`, which
/// appends each character in turn: the result holds exactly the given
/// characters in the given order.
#[verifier::external_body]
pub(crate) fn string_of(chars: Vec<char>) -> (res: String)
    ensures
        res@ == chars@,
{
    String::from_iter(chars)
}

/// White space as `char::is_whitespace` knows it: the code points with the
/// Unicode property `White_Space`.
pub open spec fn is_space(c: char) -> bool {
    let u = c as u32;
    ||| 0x09 <= u <= 0x0D
    ||| u == 0x20
    ||| u == 0x85
    ||| u == 0xA0
    ||| u == 0x1680
    ||| 0x2000 <= u <= 0x200A
    ||| u == 0x2028
    ||| u == 0x2029
    ||| u == 0x202F
    ||| u == 0x205F
    ||| u == 0x3000
}

/// Tests a character for white space.
pub fn is_whitespace(c: char) -> (res: bool)
    ensures
        res == is_space(c),
{
    let u: u32 = c as u32;
    (0x09 <= u && u <= 0x0D) || u == 0x20 || u == 0x85 || u == 0xA0 || u == 0x1680 || (0x2000 <= u
        && u <= 0x200A) || u == 0x2028 || u == 0x2029 || u == 0x202F || u == 0x205F || u == 0x3000
}

/// `needle` stands in `text` at character index `i`.
pub open spec fn occurs_at(text: Seq<char>, needle: Seq<char>, i: int) -> bool {
    &&& 0 <= i
    &&& i + needle.len() <= text.len()
    &&& text.subrange(i, i + needle.len()) == needle
}

/// `needle` stands in `text` at `i` and nowhere before.
pub open spec fn is_first_occurrence(text: Seq<char>, needle: Seq<char>, i: int) -> bool {
    &&& occurs_at(text, needle, i)
    &&& forall|j: int| 0 <= j < i ==> !occurs_at(text, needle, j)
}

/// The first character index at which `needle` stands in `text`, if any.
pub open spec fn first_occurrence(text: Seq<char>, needle: Seq<char>) -> Option<int> {
    if exists|i: int| occurs_at(text, needle, i) {
        Some(choose|i: int| is_first_occurrence(text, needle, i))
    } else {
        None
    }
}

/// The first occurrence is the only index that satisfies
/// [`is_first_occurrence`].
pub proof fn lemma_first_occurrence_unique(text: Seq<char>, needle: Seq<char>, i: int)
    requires
        is_first_occurrence(text, needle, i),
    ensures
        first_occurrence(text, needle) == Some(i),
{
    let k = choose|k: int| is_first_occurrence(text, needle, k);
    assert(occurs_at(text, needle, i));
    if k < i {
        assert(occurs_at(text, needle, k));
    }
    if i < k {
        assert(!occurs_at(text, needle, i));
    }
}

/// Whether `needle` stands in `text` at index `i`.
pub fn matches_at(text: &Vec<char>, needle: &Vec<char>, i: usize) -> (res: bool)
    ensures
        res == occurs_at(text@, needle@, i as int),
{
    if needle.len() > text.len() || i > text.len() - needle.len() {
        return false;
    }
    let mut k: usize = 0;
    while k < needle.len()
        invariant
            k <= needle.len(),
            i + needle.len() <= text.len(),
            forall|j: int| 0 <= j < k ==> text@[i + j] == needle@[j],
        decreases needle.len() - k,
    {
        if text[i + k] != needle[k] {
            assert(text@.subrange(i as int, i + needle.len())[k as int] == text@[i + k]);
            return false;
        }
        k += 1;
    }
    assert(text@.subrange(i as int, i + needle.len()) =~= needle@);
    true
}

/// Whether `text` begins with `prefix`.
pub fn starts_with(text: &Vec<char>, prefix: &Vec<char>) -> (res: bool)
    ensures
        res == occurs_at(text@, prefix@, 0),
{
    matches_at(text, prefix, 0)
}

/// Finds the first place where `needle` stands in `text`.
pub fn find_first(text: &Vec<char>, needle: &Vec<char>) -> (res: Option<usize>)
    ensures
        match res {
            Some(i) => first_occurrence(text@, needle@) == Some(i as int) && i + needle.len()
                <= text.len(),
            None => first_occurrence(text@, needle@) is None,
        },
{
    if needle.len() > text.len() {
        return None;
    }
    let last: usize = text.len() - needle.len();
    let mut i: usize = 0;
    loop
        invariant
            i <= last,
            last == text.len() - needle.len(),
            needle.len() <= text.len(),
            forall|j: int| 0 <= j < i ==> !occurs_at(text@, needle@, j),
        decreases last - i,
    {
        if matches_at(text, needle, i) {
            proof {
                lemma_first_occurrence_unique(text@, needle@, i as int);
            }
            return Some(i);
        }
        if i == last {
            return None;
        }
        i += 1;
    }
}

/// The number of bytes that a character takes in UTF-8.
pub open spec fn utf8_width(c: char) -> int {
    let u = c as u32;
    if u < 0x80 {
        1
    } else if u < 0x800 {
        2
    } else if u < 0x10000 {
        3
    } else {
        4
    }
}

/// The byte offset, in the UTF-8 form of `text`, of the character at index
/// `i`: the widths of all characters before it.
pub open spec fn byte_offset(text: Seq<char>, i: int) -> int
    decreases i,
{
    if i <= 0 {
        0
    } else {
        byte_offset(text, i - 1) + utf8_width(text[i - 1])
    }
}

/// Computes the byte offset of the character at index `i`.
pub fn byte_offset_of(text: &Vec<char>, i: usize) -> (res: u128)
    requires
        i <= text.len(),
    ensures
        res == byte_offset(text@, i as int),
{
    let mut total: u128 = 0;
    let mut k: usize = 0;
    while k < i
        invariant
            k <= i,
            i <= text.len(),
            total == byte_offset(text@, k as int),
            total <= 4 * k,
        decreases i - k,
    {
        let u: u32 = text[k] as u32;
        let w: u128 = if u < 0x80 {
            1
        } else if u < 0x800 {
            2
        } else if u < 0x10000 {
            3
        } else {
            4
        };
        total = total + w;
        k += 1;
    }
    total
}

/// Byte offsets grow with the character index.
pub proof fn lemma_byte_offset_increasing(text: Seq<char>, i: int, j: int)
    requires
        0 <= i <= j,
    ensures
        byte_offset(text, i) + (j - i) <= byte_offset(text, j),
    decreases j - i,
{
    if i < j {
        lemma_byte_offset_increasing(text, i, j - 1);
    }
}

/// The character at index `i` of `text` starts at byte `offset`, or `i` is
/// the end of the text and `offset` its length in bytes.
pub open spec fn on_boundary(text: Seq<char>, offset: int, i: int) -> bool {
    0 <= i <= text.len() && byte_offset(text, i) == offset
}

/// The character index that a byte offset stands for, if it falls on the
/// start of a character or on the end of the text.
pub open spec fn char_index(text: Seq<char>, offset: int) -> Option<int> {
    if exists|i: int| on_boundary(text, offset, i) {
        Some(choose|i: int| on_boundary(text, offset, i))
    } else {
        None
    }
}

/// Finds the character index of a byte offset.
pub fn char_index_at(text: &Vec<char>, offset: usize) -> (res: Option<usize>)
    ensures
        match res {
            Some(i) => char_index(text@, offset as int) == Some(i as int) && i <= text.len(),
            None => char_index(text@, offset as int) is None,
        },
{
    let mut k: usize = 0;
    let mut total: u128 = 0;
    loop
        invariant
            k <= text.len(),
            total == byte_offset(text@, k as int),
            total <= 4 * k,
            total <= offset,
        decreases text.len() - k,
    {
        if total == offset as u128 {
            proof {
                assert(on_boundary(text@, offset as int, k as int));
                let c = choose|i: int| on_boundary(text@, offset as int, i);
                if c < k {
                    lemma_byte_offset_increasing(text@, c, k as int);
                }
                if k < c {
                    lemma_byte_offset_increasing(text@, k as int, c);
                }
            }
            return Some(k);
        }
        if k == text.len() {
            proof {
                assert forall|i: int| !on_boundary(text@, offset as int, i) by {
                    if 0 <= i <= text.len() {
                        lemma_byte_offset_increasing(text@, i, k as int);
                    }
                }
            }
            return None;
        }
        let u: u32 = text[k] as u32;
        let w: u128 = if u < 0x80 {
            1
        } else if u < 0x800 {
            2
        } else if u < 0x10000 {
            3
        } else {
            4
        };
        if total + w > offset as u128 {
            proof {
                assert forall|i: int| !on_boundary(text@, offset as int, i) by {
                    if 0 <= i <= k {
                        lemma_byte_offset_increasing(text@, i, k as int);
                    } else if k < i {
                        lemma_byte_offset_increasing(text@, k + 1, i);
                    }
                }
            }
            return None;
        }
        total = total + w;
        k += 1;
    }
}

/// The first index at or after `i` that holds no white space, or the end.
pub open spec fn skip_spaces(text: Seq<char>, i: int) -> int
    decreases text.len() - i,
{
    if 0 <= i < text.len() && is_space(text[i]) {
        skip_spaces(text, i + 1)
    } else {
        i
    }
}

/// The end of `text[from..to]` once the white space at its end is dropped.
pub open spec fn drop_spaces(text: Seq<char>, from: int, to: int) -> int
    decreases to,
{
    if from < to && 0 < to <= text.len() && is_space(text[to - 1]) {
        drop_spaces(text, from, to - 1)
    } else {
        to
    }
}

/// `text` without the white space at its start and at its end.
pub open spec fn trimmed(text: Seq<char>) -> Seq<char> {
    let from = skip_spaces(text, 0);
    text.subrange(from, drop_spaces(text, from, text.len() as int))
}

/// Where the white space at the start of a text ends.
pub proof fn lemma_skip_spaces_bounds(text: Seq<char>, i: int)
    requires
        0 <= i <= text.len(),
    ensures
        i <= skip_spaces(text, i) <= text.len(),
    decreases text.len() - i,
{
    if i < text.len() && is_space(text[i]) {
        lemma_skip_spaces_bounds(text, i + 1);
    }
}

/// Where the white space at the end of a text starts.
pub proof fn lemma_drop_spaces_bounds(text: Seq<char>, from: int, to: int)
    requires
        0 <= from <= to <= text.len(),
    ensures
        from <= drop_spaces(text, from, to) <= to,
    decreases to,
{
    if from < to && is_space(text[to - 1]) {
        lemma_drop_spaces_bounds(text, from, to - 1);
    }
}

/// A trimmed text stands in the text it was trimmed from.
pub proof fn lemma_trimmed_occurs(text: Seq<char>)
    ensures
        occurs_at(text, trimmed(text), skip_spaces(text, 0)),
{
    lemma_skip_spaces_bounds(text, 0);
    let from = skip_spaces(text, 0);
    lemma_drop_spaces_bounds(text, from, text.len() as int);
    let to = drop_spaces(text, from, text.len() as int);
    assert(text.subrange(from, from + trimmed(text).len()) =~= trimmed(text));
}

/// Copies `text[from..to]` without the white space at its two ends.
pub fn trimmed_range(text: &Vec<char>, from: usize, to: usize) -> (res: Vec<char>)
    requires
        from <= to <= text.len(),
    ensures
        res@ == trimmed(text@.subrange(from as int, to as int)),
{
    let ghost part = text@.subrange(from as int, to as int);
    let mut a: usize = from;
    while a < to && is_whitespace(text[a])
        invariant
            from <= a <= to,
            to <= text.len(),
            part == text@.subrange(from as int, to as int),
            skip_spaces(part, a - from) == skip_spaces(part, 0),
        decreases to - a,
    {
        assert(part[a - from] == text@[a as int]);
        a += 1;
    }
    proof {
        if a < to {
            assert(part[a - from] == text@[a as int]);
        }
    }
    let mut b: usize = to;
    while b > a && is_whitespace(text[b - 1])
        invariant
            a <= b <= to,
            from <= a,
            to <= text.len(),
            part == text@.subrange(from as int, to as int),
            drop_spaces(part, a - from, b - from) == drop_spaces(part, a - from, to - from),
        decreases b,
    {
        assert(part[b - 1 - from] == text@[b - 1]);
        b -= 1;
    }
    proof {
        if b > a {
            assert(part[b - 1 - from] == text@[b - 1]);
        }
    }
    let out = copy_range(text, a, b);
    assert(part.subrange(a - from, b - from) =~= text@.subrange(a as int, b as int));
    out
}

/// Copies `text[from..to]`.
pub fn copy_range(text: &Vec<char>, from: usize, to: usize) -> (res: Vec<char>)
    requires
        from <= to <= text.len(),
    ensures
        res@ == text@.subrange(from as int, to as int),
{
    let mut out: Vec<char> = Vec::new();
    let mut k: usize = from;
    while k < to
        invariant
            from <= k <= to,
            to <= text.len(),
            out@ == text@.subrange(from as int, k as int),
        decreases to - k,
    {
        out.push(text[k]);
        assert(text@.subrange(from as int, k + 1) =~= text@.subrange(from as int, k as int).push(
            text@[k as int],
        ));
        k += 1;
    }
    out
}

/// `n` is where the first line of `text` ends: no line feed stands before
/// `n`, and at `n` stands a line feed or the end of the text.
pub open spec fn is_line_end(text: Seq<char>, n: int) -> bool {
    &&& 0 <= n <= text.len()
    &&& forall|k: int| 0 <= k < n ==> text[k] != '\n'
    &&& (n == text.len() || text[n] == '\n')
}

/// The length of the first line of `text`, its line feed not counted.
pub open spec fn first_line_len(text: Seq<char>) -> int {
    choose|n: int| is_line_end(text, n)
}

/// A text has one first line only.
pub proof fn lemma_line_end_unique(text: Seq<char>, n: int)
    requires
        is_line_end(text, n),
    ensures
        first_line_len(text) == n,
{
    let m = first_line_len(text);
    assert(is_line_end(text, m));
    if m < n {
        assert(text[m] != '\n');
    }
    if n < m {
        assert(text[n] != '\n');
    }
}

/// A line without the carriage return that ended it, if one did.
pub open spec fn strip_cr(line: Seq<char>) -> Seq<char> {
    if line.len() > 0 && line.last() == '\r' {
        line.drop_last()
    } else {
        line
    }
}

/// A line that holds nothing but white space.
pub open spec fn is_blank(line: Seq<char>) -> bool {
    forall|i: int| 0 <= i < line.len() ==> is_space(#[trigger] line[i])
}

/// What a line contributes to tidied text: nothing if it is blank, else the
/// line and a line feed.
pub open spec fn emit(line: Seq<char>) -> Seq<char> {
    if is_blank(line) {
        Seq::empty()
    } else {
        line.push('\n')
    }
}

/// The lines of `text` that are not blank, each closed by one line feed.
///
/// Lines end at a line feed; a carriage return directly before that line
/// feed belongs to the line ending. A last line without a line feed is a
/// line as it stands.
pub open spec fn kept_lines(text: Seq<char>) -> Seq<char>
    decreases text.len(),
{
    if text.len() == 0 {
        Seq::empty()
    } else {
        let n = first_line_len(text);
        if 0 <= n < text.len() {
            emit(strip_cr(text.subrange(0, n))) + kept_lines(
                text.subrange(n + 1, text.len() as int),
            )
        } else {
            emit(text)
        }
    }
}

/// Tidied text: the lines that are not blank, and exactly one line feed at
/// the end. Text without such a line becomes a single line feed.
pub open spec fn tidy(text: Seq<char>) -> Seq<char> {
    let kept = kept_lines(text);
    if kept.len() == 0 {
        seq!['\n']
    } else {
        kept
    }
}

/// Whether the characters of `text` in `from..to` are all white space.
pub fn blank_range(text: &Vec<char>, from: usize, to: usize) -> (res: bool)
    requires
        from <= to <= text.len(),
    ensures
        res == is_blank(text@.subrange(from as int, to as int)),
{
    let mut k: usize = from;
    while k < to
        invariant
            from <= k <= to,
            to <= text.len(),
            forall|j: int| from <= j < k ==> is_space(text@[j]),
        decreases to - k,
    {
        if !is_whitespace(text[k]) {
            assert(text@.subrange(from as int, to as int)[k - from] == text@[k as int]);
            return false;
        }
        k += 1;
    }
    assert forall|i: int| 0 <= i < to - from implies is_space(
        #[trigger] text@.subrange(from as int, to as int)[i],
    ) by {
        assert(text@.subrange(from as int, to as int)[i] == text@[from + i]);
    }
    true
}

/// Removes the blank lines of `text` and closes every remaining line, the
/// last one too, with a single line feed.
pub fn tidy_text(text: &Vec<char>) -> (res: Vec<char>)
    ensures
        res@ == tidy(text@),
{
    let len: usize = text.len();
    let mut out: Vec<char> = Vec::new();
    let mut start: usize = 0;
    proof {
        assert(text@.subrange(0, len as int) =~= text@);
        assert(out@ + kept_lines(text@) =~= kept_lines(text@));
    }
    while start < len
        invariant
            start <= len,
            len == text.len(),
            out@ + kept_lines(text@.subrange(start as int, len as int)) == kept_lines(text@),
        decreases len - start,
    {
        let ghost rest = text@.subrange(start as int, len as int);
        let mut end: usize = start;
        while end < len && text[end] != '\n'
            invariant
                start <= end <= len,
                len == text.len(),
                forall|k: int| start <= k < end ==> text@[k] != '\n',
            decreases len - end,
        {
            end += 1;
        }
        proof {
            assert(is_line_end(rest, end - start));
            lemma_line_end_unique(rest, end - start);
        }
        let terminated: bool = end < len;
        let mut stop: usize = end;
        if terminated && end > start && text[end - 1] == '\r' {
            stop = end - 1;
        }
        let ghost line = text@.subrange(start as int, stop as int);
        proof {
            if terminated {
                assert(rest.subrange(0, end - start) =~= text@.subrange(start as int, end as int));
                assert(strip_cr(text@.subrange(start as int, end as int)) =~= line);
                assert(rest.subrange(end - start + 1, rest.len() as int) =~= text@.subrange(
                    end + 1,
                    len as int,
                ));
            } else {
                assert(line =~= rest);
                assert(text@.subrange(len as int, len as int) =~= Seq::<char>::empty());
            }
        }
        let ghost before = out@;
        if !blank_range(text, start, stop) {
            let mut k: usize = start;
            while k < stop
                invariant
                    start <= k <= stop,
                    stop <= text.len(),
                    out@ == before + text@.subrange(start as int, k as int),
                decreases stop - k,
            {
                out.push(text[k]);
                assert(text@.subrange(start as int, k + 1) =~= text@.subrange(
                    start as int,
                    k as int,
                ).push(text@[k as int]));
                k += 1;
            }
            out.push('\n');
            assert(out@ =~= before + emit(line));
        } else {
            assert(out@ =~= before + emit(line));
        }
        let next: usize = if terminated {
            end + 1
        } else {
            len
        };
        proof {
            let tail = kept_lines(text@.subrange(next as int, len as int));
            assert(kept_lines(rest) == emit(line) + tail);
            assert(out@ + tail =~= before + kept_lines(rest));
        }
        start = next;
    }
    proof {
        assert(text@.subrange(len as int, len as int) =~= Seq::<char>::empty());
        assert(out@ + Seq::<char>::empty() =~= out@);
    }
    if out.len() == 0 {
        out.push('\n');
        assert(out@ =~= seq!['\n']);
    }
    out
}

/// The first index at or after `i` that holds a line feed, or the end.
pub open spec fn scan_line(text: Seq<char>, i: int) -> int
    decreases text.len() - i,
{
    if 0 <= i < text.len() && text[i] != '\n' {
        scan_line(text, i + 1)
    } else {
        i
    }
}

proof fn lemma_scan_line(text: Seq<char>, i: int)
    requires
        0 <= i <= text.len(),
        forall|k: int| 0 <= k < i ==> text[k] != '\n',
    ensures
        is_line_end(text, scan_line(text, i)),
    decreases text.len() - i,
{
    if i < text.len() && text[i] != '\n' {
        lemma_scan_line(text, i + 1);
    }
}

/// Every text has a first line.
pub proof fn lemma_line_end_exists(text: Seq<char>)
    ensures
        is_line_end(text, first_line_len(text)),
{
    lemma_scan_line(text, 0);
}

/// No line feed of `text` has a carriage return directly before it.
pub open spec fn no_cr_before_lf(text: Seq<char>) -> bool {
    forall|k: int| 0 < k < text.len() && #[trigger] text[k] == '\n' ==> text[k - 1] != '\r'
}

/// The kept lines of a text are their own kept lines, unless one of them
/// ends in a carriage return.
pub proof fn lemma_kept_lines_stable(text: Seq<char>)
    requires
        no_cr_before_lf(kept_lines(text)),
    ensures
        kept_lines(kept_lines(text)) == kept_lines(text),
    decreases text.len(),
{
    if text.len() > 0 {
        lemma_line_end_exists(text);
        let n = first_line_len(text);
        let whole = kept_lines(text);
        if n < text.len() {
            let line = strip_cr(text.subrange(0, n));
            let rest = text.subrange(n + 1, text.len() as int);
            let tail = kept_lines(rest);
            assert(whole == emit(line) + tail);
            if is_blank(line) {
                assert(whole =~= tail);
                lemma_kept_lines_stable(rest);
            } else {
                lemma_closed_line_first(line, tail);
                assert(no_cr_before_lf(tail)) by {
                    assert forall|k: int| 0 < k < tail.len() && #[trigger] tail[k] == '\n' implies tail[k - 1]
                        != '\r' by {
                        assert(whole[k + line.len() + 1] == tail[k]);
                        assert(whole[k + line.len()] == tail[k - 1]);
                    }
                }
                lemma_kept_lines_stable(rest);
            }
        } else {
            if !is_blank(text) {
                lemma_closed_line_first(text, Seq::empty());
                assert(text.push('\n') + Seq::<char>::empty() =~= text.push('\n'));
            }
        }
    }
}

/// A line that is not blank, holds no line feed and is closed by one is
/// the first line of whatever text it opens, and is kept as it stands
/// unless it ends in a carriage return.
proof fn lemma_closed_line_first(line: Seq<char>, tail: Seq<char>)
    requires
        !is_blank(line),
        forall|k: int| 0 <= k < line.len() ==> line[k] != '\n',
        no_cr_before_lf(line.push('\n') + tail),
    ensures
        kept_lines(line.push('\n') + tail) == line.push('\n') + kept_lines(tail),
{
    let whole = line.push('\n') + tail;
    let n = line.len() as int;
    assert(n > 0);
    assert(whole[n] == '\n');
    assert forall|k: int| 0 <= k < n implies whole[k] != '\n' by {
        assert(whole[k] == line[k]);
    }
    assert(is_line_end(whole, n));
    lemma_line_end_unique(whole, n);
    assert(whole.subrange(0, n) =~= line);
    assert(whole[n - 1] == line.last());
    assert(strip_cr(line) == line);
    assert(whole.subrange(n + 1, whole.len() as int) =~= tail);
}

/// Tidying twice gives what tidying once gives, unless a kept line ends in
/// a carriage return: the second pass would take that for a line ending.
pub proof fn lemma_tidy_idempotent(text: Seq<char>)
    requires
        no_cr_before_lf(tidy(text)),
    ensures
        tidy(tidy(text)) == tidy(text),
{
    let kept = kept_lines(text);
    if kept.len() == 0 {
        let lone = seq!['\n'];
        assert(is_line_end(lone, 0));
        lemma_line_end_unique(lone, 0);
        assert(lone.subrange(0, 0) =~= Seq::<char>::empty());
        assert(is_blank(strip_cr(lone.subrange(0, 0))));
        assert(lone.subrange(1, 1) =~= Seq::<char>::empty());
        assert(kept_lines(lone.subrange(1, 1)) =~= Seq::<char>::empty());
        assert(kept_lines(lone) =~= Seq::<char>::empty());
    } else {
        lemma_kept_lines_stable(text);
    }
}

} // verus!
