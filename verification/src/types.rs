//! The records that travel between extraction, classification, caching and
//! rewriting, each with the mathematical value its contracts speak of.

use vstd::prelude::*;
use vstd::string::*;

verus! {

/// A source language whose comments can be analysed.
#[derive(Debug, Clone, Copy, PartialEq, Eq, Structural)]
pub enum Language {
    Python,
    JavaScript,
    TypeScript,
    Rust,
}

impl Language {
    /// The language that a file extension (without its dot) stands for.
    pub open spec fn of_extension(ext: Seq<char>) -> Option<Language> {
        if ext == seq!['p', 'y'] {
            Some(Language::Python)
        } else if ext == seq!['j', 's'] {
            Some(Language::JavaScript)
        } else if ext == seq!['t', 's'] {
            Some(Language::TypeScript)
        } else if ext == seq!['r', 's'] {
            Some(Language::Rust)
        } else {
            None
        }
    }

    /// Maps `py`, `js`, `ts` and `rs` to their language; every other
    /// extension is unsupported.
    pub fn from_extension(ext: &str) -> (res: Option<Language>)
        ensures
            res == Language::of_extension(ext@),
    {
        proof {
            reveal_strlit("py");
            reveal_strlit("js");
            reveal_strlit("ts");
            reveal_strlit("rs");
            assert("py"@ =~= seq!['p', 'y']);
            assert("js"@ =~= seq!['j', 's']);
            assert("ts"@ =~= seq!['t', 's']);
            assert("rs"@ =~= seq!['r', 's']);
        }
        if crate::text::str_equal(ext, "py") {
            Some(Language::Python)
        } else if crate::text::str_equal(ext, "js") {
            Some(Language::JavaScript)
        } else if crate::text::str_equal(ext, "ts") {
            Some(Language::TypeScript)
        } else if crate::text::str_equal(ext, "rs") {
            Some(Language::Rust)
        } else {
            None
        }
    }

    /// Whether the language writes documentation as triple-quoted blocks.
    pub open spec fn has_docstrings(self) -> bool {
        self == Language::Python
    }
}

/// The value of a [`CommentInfo`].
pub ghost struct CommentInfoView {
    pub text: Seq<char>,
    pub line_number: nat,
    pub context: Seq<char>,
    pub explanation: Option<Seq<char>>,
}

/// One comment found in a source file.
///
/// `text` is the comment token with its delimiters, exactly as it stands in
/// the source; `line_number` counts from 1; `context` is the text of the
/// nearest enclosing function, class or method, or empty.
#[derive(Debug, Clone)]
pub struct CommentInfo {
    pub text: String,
    pub line_number: usize,
    pub context: String,
    pub explanation: Option<String>,
}

impl View for CommentInfo {
    type V = CommentInfoView;

    open spec fn view(&self) -> CommentInfoView {
        CommentInfoView {
            text: self.text@,
            line_number: self.line_number as nat,
            context: self.context@,
            explanation: match self.explanation {
                Some(e) => Some(e@),
                None => None,
            },
        }
    }
}

impl DeepView for CommentInfo {
    type V = CommentInfoView;

    open spec fn deep_view(&self) -> CommentInfoView {
        self@
    }
}

impl CommentInfo {
    /// A copy with the same value.
    pub fn duplicate(&self) -> (res: CommentInfo)
        ensures
            res@ == self@,
    {
        let explanation = match &self.explanation {
            Some(e) => Some(e.clone()),
            None => None,
        };
        CommentInfo {
            text: self.text.clone(),
            line_number: self.line_number,
            context: self.context.clone(),
            explanation,
        }
    }
}

/// The values of a list of comments, in order.
pub open spec fn comments_view(comments: Seq<CommentInfo>) -> Seq<CommentInfoView> {
    Seq::new(comments.len(), |i: int| comments[i]@)
}

/// A copy of a list of comments with the same values in the same order.
pub fn duplicate_comments(comments: &Vec<CommentInfo>) -> (res: Vec<CommentInfo>)
    ensures
        comments_view(res@) == comments_view(comments@),
{
    let mut out: Vec<CommentInfo> = Vec::new();
    let mut i: usize = 0;
    while i < comments.len()
        invariant
            i <= comments.len(),
            out@.len() == i,
            forall|j: int| 0 <= j < i ==> out@[j]@ == comments@[j]@,
        decreases comments.len() - i,
    {
        out.push(comments[i].duplicate());
        i += 1;
    }
    assert(comments_view(out@) =~= comments_view(comments@));
    out
}

/// The judge's answer about one comment.
#[derive(Debug, Clone)]
pub struct CommentAnalysis {
    pub is_redundant: bool,
    pub comment_line_number: usize,
    pub explanation: String,
}

/// What the cache remembers of one file: its modification time in whole
/// seconds and the comments that were confirmed redundant at that time.
#[derive(Debug, Clone)]
pub struct CacheEntry {
    pub last_modified: u64,
    pub redundant_comments: Vec<CommentInfo>,
}

/// The value of a [`CacheEntry`].
pub ghost struct CacheEntryView {
    pub last_modified: u64,
    pub redundant_comments: Seq<CommentInfoView>,
}

impl View for CacheEntry {
    type V = CacheEntryView;

    open spec fn view(&self) -> CacheEntryView {
        CacheEntryView {
            last_modified: self.last_modified,
            redundant_comments: comments_view(self.redundant_comments@),
        }
    }
}

/// The outcome of analysing one file.
#[derive(Debug, Clone)]
pub struct AnalysisResult {
    pub path: String,
    pub redundant_comments: Vec<CommentInfo>,
    pub errors: Vec<String>,
}

/// Why a classification request failed for good.
#[derive(Debug, Clone)]
pub enum ApiError {
    RateLimit(String),
    Timeout(String),
    Network(String),
    Other(String),
}

impl ApiError {
    /// The detail carried by the error.
    pub open spec fn detail(self) -> Seq<char> {
        match self {
            ApiError::RateLimit(m) => m@,
            ApiError::Timeout(m) => m@,
            ApiError::Network(m) => m@,
            ApiError::Other(m) => m@,
        }
    }

    /// The heading that introduces each kind of error in a message.
    pub open spec fn heading(self) -> Seq<char> {
        match self {
            ApiError::RateLimit(_) => "Rate limit exceeded: "@,
            ApiError::Timeout(_) => "Request timeout: "@,
            ApiError::Network(_) => "Network error: "@,
            ApiError::Other(_) => "API error: "@,
        }
    }

    /// The error as a line of text: its heading followed by its detail.
    pub fn message(&self) -> (res: String)
        ensures
            res@ == self.heading() + self.detail(),
    {
        match self {
            ApiError::RateLimit(m) => String::from_str("Rate limit exceeded: ").concat(m.as_str()),
            ApiError::Timeout(m) => String::from_str("Request timeout: ").concat(m.as_str()),
            ApiError::Network(m) => String::from_str("Network error: ").concat(m.as_str()),
            ApiError::Other(m) => String::from_str("API error: ").concat(m.as_str()),
        }
    }
}

} // verus!
