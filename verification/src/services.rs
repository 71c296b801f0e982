//! The two ways to reach a judge: the classification endpoint itself, or a
//! proxy that takes a whole batch of comments.

use crate::types::CommentInfo;
use vstd::prelude::*;
use vstd::string::*;

verus! {

/// The model that the classification endpoint is asked for.
pub const OPENAI_MODEL: &'static str = "ft:gpt-4o-mini-2024-07-18:personal:unremark:Aq45wBQq";

/// The name of the cache file in the cache directory.
pub const CACHE_FILE_NAME: &'static str = "unremark_cache.json";

/// The endpoint of a proxy on this machine.
pub const DEFAULT_PROXY_ENDPOINT: &'static str = "http://localhost:5000";

/// A judge that takes a batch of comments and returns the redundant ones.
pub trait AnalysisService {
    fn analyze_comments_with_proxy(&self, comments: Vec<CommentInfo>) -> Result<
        Vec<CommentInfo>,
        String,
    >;
}

/// A proxy reached over HTTP.
#[derive(Debug, Clone)]
pub struct ProxyAnalysisService {
    pub endpoint: String,
}

/// What a request to the proxy brought back.
#[derive(Debug, Clone)]
pub enum ProxyReply {
    /// The request could not be sent; the reason.
    Unsent(String),
    /// The proxy answered with a status that is no success; the status as text.
    Refused(String),
    /// The answer could not be read; the reason.
    Unreadable(String),
    /// The comments that the proxy calls redundant.
    Comments(Vec<CommentInfo>),
}

/// The endpoint of a proxy on this machine.
pub open spec fn default_proxy_endpoint() -> Seq<char> {
    "http://localhost:5000"@
}

/// The endpoint to use: the configured one, or the default.
pub fn get_proxy_endpoint(configured: Option<String>) -> (res: String)
    ensures
        res@ == match configured {
            Some(endpoint) => endpoint@,
            None => default_proxy_endpoint(),
        },
{
    match configured {
        Some(endpoint) => endpoint,
        None => String::from_str("http://localhost:5000"),
    }
}

/// The proxy service for the configured endpoint, or for the default one.
pub fn create_analysis_service(configured: Option<String>) -> (res: ProxyAnalysisService)
    ensures
        res.endpoint@ == match configured {
            Some(endpoint) => endpoint@,
            None => default_proxy_endpoint(),
        },
{
    ProxyAnalysisService { endpoint: get_proxy_endpoint(configured) }
}

/// Which judge is asked.
#[derive(Debug, Clone, Copy, PartialEq, Eq, Structural)]
pub enum Judge {
    /// The classification endpoint, one request per comment.
    Direct,
    /// The proxy, one request per batch.
    Proxy,
}

/// The classification endpoint is asked where a credential for it is set,
/// the proxy where none is.
pub fn choose_judge(has_credential: bool) -> (res: Judge)
    ensures
        res == if has_credential {
            Judge::Direct
        } else {
            Judge::Proxy
        },
{
    if has_credential {
        Judge::Direct
    } else {
        Judge::Proxy
    }
}

impl ProxyAnalysisService {
    /// The address that a batch is posted to.
    pub fn request_url(&self) -> (res: String)
        ensures
            res@ == self.endpoint@ + "/api/analyze/"@,
    {
        self.endpoint.clone().concat("/api/analyze/")
    }

    /// The message of the error that a failed request ends in.
    pub open spec fn error_text(reply: ProxyReply) -> Seq<char> {
        match reply {
            ProxyReply::Unsent(reason) => "Proxy request failed: "@ + reason@,
            ProxyReply::Refused(status) => "Proxy error: "@ + status@,
            ProxyReply::Unreadable(reason) => "Failed to parse proxy response: "@ + reason@,
            ProxyReply::Comments(_) => Seq::empty(),
        }
    }

    /// Turns what came back from the proxy into the result of the request:
    /// the comments, or the error that says what went wrong.
    pub fn outcome(reply: ProxyReply) -> (res: Result<Vec<CommentInfo>, String>)
        ensures
            match reply {
                ProxyReply::Comments(comments) => res == Ok::<Vec<CommentInfo>, String>(comments),
                _ => res matches Err(message) && message@ == Self::error_text(reply),
            },
    {
        match reply {
            ProxyReply::Unsent(reason) => Err(
                String::from_str("Proxy request failed: ").concat(reason.as_str()),
            ),
            ProxyReply::Refused(status) => Err(
                String::from_str("Proxy error: ").concat(status.as_str()),
            ),
            ProxyReply::Unreadable(reason) => Err(
                String::from_str("Failed to parse proxy response: ").concat(reason.as_str()),
            ),
            ProxyReply::Comments(comments) => Ok(comments),
        }
    }
}

} // verus!
