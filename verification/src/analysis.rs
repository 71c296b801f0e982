//! The steps of analysing one file, without the work that only the outside
//! world can do.
//!
//! The caller reads the file and its modification time. Then
//! [`analyze_file`] answers from the cache or names the comments to put to
//! the judge; [`finish_analysis`] takes the judge's answers and stores what
//! they confirm; [`plan_fix`] gives the text to write back, if any.

use crate::cache::{cached, Cache};
use crate::client::{analyze_comments, confirmed};
use crate::comment_detection::{contains, detect_comments, extracted, is_doc_comment};
use crate::syntax::parsed_tree;
use crate::rewriter::{remove_redundant_comments, rewritten};
use crate::types::{
    comments_view, duplicate_comments, AnalysisResult, CacheEntryView, CommentAnalysis, CommentInfo,
    CommentInfoView, Language,
};
use vstd::prelude::*;
use vstd::string::*;

verus! {

/// What the first step of an analysis found.
#[derive(Debug, Clone)]
pub enum Lookup {
    /// The redundant comments are known without asking the judge.
    Known(Vec<CommentInfo>),
    /// These comments have to be put to the judge.
    Classify(Vec<CommentInfo>),
}

/// The judge has to be asked: the cache has no answer for the file as it
/// is now, and the file holds comments.
pub open spec fn needs_classification(
    map: Map<Seq<char>, CacheEntryView>,
    path: Seq<char>,
    last_modified: u64,
    found: Seq<CommentInfoView>,
) -> bool {
    cached(map, path, last_modified) is None && found.len() > 0
}

/// `res` and the cache `after` are the first step for a file whose
/// comments, should they be needed, are `found`.
///
/// A cache entry of the file's modification time answers at once. On a
/// miss, a file without comments is done, with an empty result that is
/// stored. Otherwise the comments are handed out for classification and
/// the cache stays as it is.
pub open spec fn is_first_step(
    before: Map<Seq<char>, CacheEntryView>,
    after: Map<Seq<char>, CacheEntryView>,
    path: Seq<char>,
    last_modified: u64,
    found: Seq<CommentInfoView>,
    res: Lookup,
) -> bool {
    match cached(before, path, last_modified) {
        Some(list) => res matches Lookup::Known(known) && comments_view(known@) == list && after
            == before,
        None => if found.len() == 0 {
            res matches Lookup::Known(known) && known@.len() == 0 && after == before.insert(
                path,
                CacheEntryView { last_modified, redundant_comments: Seq::empty() },
            )
        } else {
            res matches Lookup::Classify(ask) && comments_view(ask@) == found && after == before
        },
    }
}

/// The first step for a file whose comments have been extracted.
pub fn begin_analysis(
    cache: &mut Cache,
    path: &str,
    last_modified: u64,
    found: Vec<CommentInfo>,
) -> (res: Lookup)
    ensures
        is_first_step(
            old(cache)@,
            final(cache)@,
            path@,
            last_modified,
            comments_view(found@),
            res,
        ),
        res is Classify <==> needs_classification(
            old(cache)@,
            path@,
            last_modified,
            comments_view(found@),
        ),
{
    match cache.get(path, last_modified) {
        Some(known) => Lookup::Known(known),
        None => {
            if found.len() == 0 {
                let nothing: Vec<CommentInfo> = Vec::new();
                assert(comments_view(nothing@) =~= Seq::<CommentInfoView>::empty());
                cache.put(String::from_str(path), last_modified, nothing);
                Lookup::Known(Vec::new())
            } else {
                Lookup::Classify(found)
            }
        },
    }
}

/// The comments of a source that are candidates for classification: those
/// that extraction finds in the tree that parsing gives in the language of
/// the extension, and none where the extension names no supported language.
pub open spec fn candidates(source: Seq<char>, extension: Option<Seq<char>>) -> Seq<
    CommentInfoView,
> {
    match extension {
        Some(ext) => match Language::of_extension(ext) {
            Some(language) => extracted(source, parsed_tree(source, language)),
            None => Seq::empty(),
        },
        None => Seq::empty(),
    }
}

/// The characters of an extension that may be missing.
pub open spec fn extension_view(extension: Option<&str>) -> Option<Seq<char>> {
    match extension {
        Some(ext) => Some(ext@),
        None => None,
    }
}

/// The comments of a source file that are candidates for classification:
/// those found in the language of the file's extension, and none where the
/// extension names no supported language.
pub fn analyze_source(source: &str, extension: Option<&str>) -> (res: Vec<CommentInfo>)
    ensures
        comments_view(res@) == candidates(source@, extension_view(extension)),
        forall|k: int|
            0 <= k < res@.len() ==> !is_doc_comment((#[trigger] res@[k]).text@) && contains(
                source@,
                res@[k].text@,
            ),
{
    let language = match extension {
        Some(ext) => Language::from_extension(ext),
        None => None,
    };
    match language {
        Some(language) => {
            match detect_comments(source, language) {
                Ok(found) => found,
                Err(_) => Vec::new(),
            }
        },
        None => {
            let none: Vec<CommentInfo> = Vec::new();
            assert(comments_view(none@) =~= Seq::<CommentInfoView>::empty());
            none
        },
    }
}

/// The first step for one file: answers from the cache, or parses the
/// source in the language of the file's extension and extracts its comments.
///
/// The judge is never to be asked about a file that the cache answers for,
/// nor about one without comments. A file in no supported language has no
/// comments.
pub fn analyze_file(
    cache: &mut Cache,
    path: &str,
    extension: Option<&str>,
    last_modified: u64,
    source: &str,
) -> (res: Lookup)
    ensures
        is_first_step(
            old(cache)@,
            final(cache)@,
            path@,
            last_modified,
            candidates(source@, extension_view(extension)),
            res,
        ),
        res is Classify <==> needs_classification(
            old(cache)@,
            path@,
            last_modified,
            candidates(source@, extension_view(extension)),
        ),
        res matches Lookup::Classify(ask) ==> forall|k: int|
            0 <= k < ask@.len() ==> !is_doc_comment((#[trigger] ask@[k]).text@) && contains(
                source@,
                ask@[k].text@,
            ),
{
    match cache.get(path, last_modified) {
        Some(known) => Lookup::Known(known),
        None => {
            let found = analyze_source(source, extension);
            let ghost views = comments_view(found@);
            let ghost asked = found@;
            let res = begin_analysis(cache, path, last_modified, found);
            proof {
                if res is Classify {
                    let ask = res->Classify_0;
                    assert(comments_view(ask@).len() == views.len());
                    assert forall|k: int| 0 <= k < ask@.len() implies !is_doc_comment(
                        (#[trigger] ask@[k]).text@,
                    ) && contains(source@, ask@[k].text@) by {
                        assert(comments_view(ask@)[k] == views[k]);
                        assert(views[k] == asked[k]@);
                    }
                }
            }
            res
        },
    }
}

/// Stores the comments that were found redundant in a file for the file's
/// modification time, and hands them back.
pub fn record_analysis(
    cache: &mut Cache,
    path: &str,
    last_modified: u64,
    redundant: Vec<CommentInfo>,
) -> (res: Vec<CommentInfo>)
    ensures
        res == redundant,
        final(cache)@ == old(cache)@.insert(
            path@,
            CacheEntryView { last_modified, redundant_comments: comments_view(redundant@) },
        ),
{
    cache.put(String::from_str(path), last_modified, duplicate_comments(&redundant));
    redundant
}

/// The last step for a file that was put to the judge: keeps the comments
/// that the answers confirm, in the order of the answers, and stores them
/// for the file's modification time.
pub fn finish_analysis(
    cache: &mut Cache,
    path: &str,
    last_modified: u64,
    answers: Vec<(CommentInfo, Option<CommentAnalysis>)>,
) -> (res: Vec<CommentInfo>)
    ensures
        comments_view(res@) == confirmed(answers@, answers@.len() as int),
        final(cache)@ == old(cache)@.insert(
            path@,
            CacheEntryView { last_modified, redundant_comments: comments_view(res@) },
        ),
{
    let redundant = match analyze_comments(answers) {
        Ok(redundant) => redundant,
        Err(_) => Vec::new(),
    };
    record_analysis(cache, path, last_modified, redundant)
}

/// The text to write back to the file: the rewritten source if a fix was
/// asked for and there is something to remove, else nothing.
pub fn plan_fix(
    source: &str,
    redundant_comments: &Vec<CommentInfo>,
    fix: bool,
    language: Language,
) -> (res: Option<String>)
    ensures
        match res {
            Some(text) => fix && redundant_comments@.len() > 0 && text@ == rewritten(
                source@,
                comments_view(redundant_comments@),
                language,
            ),
            None => !(fix && redundant_comments@.len() > 0),
        },
{
    if fix && redundant_comments.len() > 0 {
        Some(remove_redundant_comments(source, redundant_comments.as_slice(), language))
    } else {
        None
    }
}

/// The record of a text that belongs to no file, such as the one open in
/// an editor: the comments that the judge's answers confirm, under an empty path.
pub fn analyze_current_file(answers: Vec<(CommentInfo, Option<CommentAnalysis>)>) -> (res:
    AnalysisResult)
    ensures
        res.path@.len() == 0,
        comments_view(res.redundant_comments@) == confirmed(answers@, answers@.len() as int),
        res.errors@.len() == 0,
{
    let redundant = match analyze_comments(answers) {
        Ok(redundant) => redundant,
        Err(_) => Vec::new(),
    };
    AnalysisResult { path: String::new(), redundant_comments: redundant, errors: Vec::new() }
}

/// The record of one analysed file. It carries no errors: a failure to
/// write a fix does not change what the analysis found.
pub fn analysis_result(path: &str, redundant_comments: Vec<CommentInfo>) -> (res: AnalysisResult)
    ensures
        res.path@ == path@,
        res.redundant_comments == redundant_comments,
        res.errors@.len() == 0,
{
    AnalysisResult { path: String::from_str(path), redundant_comments, errors: Vec::new() }
}

/// A file that was stored and has not changed since is never put to the
/// judge again, whatever comments it holds.
pub proof fn lemma_unchanged_file_not_classified_again(
    map: Map<Seq<char>, CacheEntryView>,
    path: Seq<char>,
    last_modified: u64,
    results: Seq<CommentInfoView>,
    found: Seq<CommentInfoView>,
)
    ensures
        !needs_classification(
            map.insert(path, CacheEntryView { last_modified, redundant_comments: results }),
            path,
            last_modified,
            found,
        ),
{
}

/// A file whose modification time differs from the stored one is put to
/// the judge again as soon as it holds a comment.
pub proof fn lemma_changed_file_classified_again(
    map: Map<Seq<char>, CacheEntryView>,
    path: Seq<char>,
    stored_at: u64,
    results: Seq<CommentInfoView>,
    now: u64,
    found: Seq<CommentInfoView>,
)
    requires
        now != stored_at,
        found.len() > 0,
    ensures
        needs_classification(
            map.insert(path, CacheEntryView { last_modified: stored_at, redundant_comments: results }),
            path,
            now,
            found,
        ),
{
}

/// The figures of a run over many files.
#[derive(Debug, Clone, Copy, PartialEq, Eq, Structural)]
pub struct Summary {
    pub total_files: usize,
    pub files_with_comments: usize,
    pub files_with_errors: usize,
    pub total_redundant_comments: u128,
}

/// How many of the first `n` results hold a redundant comment.
pub open spec fn count_with_comments(results: Seq<AnalysisResult>, n: int) -> int
    decreases n,
{
    if n <= 0 {
        0
    } else if results[n - 1].redundant_comments@.len() > 0 {
        count_with_comments(results, n - 1) + 1
    } else {
        count_with_comments(results, n - 1)
    }
}

/// How many of the first `n` results hold an error.
pub open spec fn count_with_errors(results: Seq<AnalysisResult>, n: int) -> int
    decreases n,
{
    if n <= 0 {
        0
    } else if results[n - 1].errors@.len() > 0 {
        count_with_errors(results, n - 1) + 1
    } else {
        count_with_errors(results, n - 1)
    }
}

/// How many redundant comments the first `n` results hold together.
pub open spec fn count_comments(results: Seq<AnalysisResult>, n: int) -> int
    decreases n,
{
    if n <= 0 {
        0
    } else {
        count_comments(results, n - 1) + results[n - 1].redundant_comments@.len()
    }
}

/// Counts the files, those with redundant comments, those with errors, and
/// the redundant comments of all files.
pub fn summarize(results: &Vec<AnalysisResult>) -> (res: Summary)
    ensures
        res.total_files == results@.len(),
        res.files_with_comments == count_with_comments(results@, results@.len() as int),
        res.files_with_errors == count_with_errors(results@, results@.len() as int),
        res.total_redundant_comments == count_comments(results@, results@.len() as int),
{
    let mut with_comments: usize = 0;
    let mut with_errors: usize = 0;
    let mut comments: u128 = 0;
    let mut i: usize = 0;
    while i < results.len()
        invariant
            i <= results.len(),
            with_comments == count_with_comments(results@, i as int),
            with_errors == count_with_errors(results@, i as int),
            comments == count_comments(results@, i as int),
            with_comments <= i,
            with_errors <= i,
            comments <= i * usize::MAX,
        decreases results.len() - i,
    {
        let n: usize = results[i].redundant_comments.len();
        if n > 0 {
            with_comments += 1;
        }
        if results[i].errors.len() > 0 {
            with_errors += 1;
        }
        assert(i * usize::MAX + usize::MAX == (i + 1) * usize::MAX) by (nonlinear_arith);
        assert((i + 1) * usize::MAX <= usize::MAX * usize::MAX) by (nonlinear_arith)
            requires
                i < usize::MAX,
        ;
        assert(usize::MAX * usize::MAX < u128::MAX) by (nonlinear_arith)
            requires
                usize::MAX <= u64::MAX,
        ;
        comments = comments + n as u128;
        i += 1;
    }
    Summary {
        total_files: results.len(),
        files_with_comments: with_comments,
        files_with_errors: with_errors,
        total_redundant_comments: comments,
    }
}

} // verus!
