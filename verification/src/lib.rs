//! Finds comments that an external judge calls uninformative, caches the
//! verdicts per file, and deletes confirmed comments from source text while
//! leaving documentation alone.

pub mod analysis;
pub mod cache;
pub mod client;
pub mod comment_detection;
pub mod json_support;
pub mod regex_support;
pub mod rewriter;
pub mod services;
pub mod syntax;
pub mod text;
pub mod types;

pub use crate::analysis::{
    analysis_result, analyze_current_file, analyze_file, analyze_source, begin_analysis,
    finish_analysis, plan_fix, record_analysis, summarize, Lookup, Summary,
};
pub use crate::cache::Cache;
pub use crate::client::{
    analyze_comments, build_prompt, confirms_redundancy, next_action, read_verdict, request_body,
    Attempt, Outcome, Step,
};
pub use crate::comment_detection::{
    comments_in_tree, detect_comments, find_context, SyntaxNode, SyntaxTree,
};
pub use crate::rewriter::remove_redundant_comments;
pub use crate::services::{
    choose_judge, create_analysis_service, get_proxy_endpoint, AnalysisService, Judge,
    ProxyAnalysisService, ProxyReply, CACHE_FILE_NAME, DEFAULT_PROXY_ENDPOINT, OPENAI_MODEL,
};
pub use crate::types::{
    AnalysisResult, ApiError, CacheEntry, CommentAnalysis, CommentInfo, Language,
};
