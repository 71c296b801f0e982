//! The decisions of the classification client: what to ask, what to do
//! after each response, and which answers confirm a comment as redundant.
//!
//! Sending a request and waiting are left to the caller. It performs one
//! attempt, reports what came back as an [`Outcome`], and does what
//! [`next_action`] says.

use crate::json_support::{
    bool_at, json_bool_at, json_number_at, json_quoted, json_string_at, number_at, quoted,
    string_at,
};
use crate::types::{ApiError, CommentAnalysis, CommentInfo, CommentInfoView};
use vstd::prelude::*;
use vstd::string::*;

verus! {

/// How often one request is tried at most.
pub const MAX_ATTEMPTS: u32 = 3;

/// The wait before the first retry, in milliseconds, unless the server names one.
pub const BASE_DELAY_MS: u64 = 1000;

/// One attempt of a request: its number, counted from 0, and the wait that
/// a retry after it starts with.
#[derive(Debug, Clone, Copy, PartialEq, Eq, Structural)]
pub struct Attempt {
    pub number: u32,
    pub delay_ms: u64,
}

/// What one attempt brought back.
#[derive(Debug, Clone)]
pub enum Outcome {
    /// Status 200 with a body that could be read.
    Success(String),
    /// Status 200 with a body that could not be read; the reason.
    Unreadable(String),
    /// Status 429, with the whole seconds of a `retry-after` header if it held a number.
    RateLimited { retry_after: Option<u64> },
    /// Any other status, as text.
    Status(String),
    /// The request ran out of time.
    TimedOut,
    /// No connection could be made.
    ConnectFailed,
    /// The request failed in another way; the reason.
    Failed(String),
}

/// What the caller does next.
#[derive(Debug, Clone)]
pub enum Step {
    /// Hand the body on.
    Succeed(String),
    /// Wait `wait_ms` milliseconds, then make the attempt `next`.
    Retry { wait_ms: u64, next: Attempt },
    /// Give up with this error.
    Fail(ApiError),
}

/// `2 * ms`, or the largest wait that can be expressed.
pub open spec fn doubled(ms: u64) -> u64 {
    if 2 * ms <= u64::MAX {
        (2 * ms) as u64
    } else {
        u64::MAX
    }
}

/// Whole seconds as milliseconds, or the largest wait that can be expressed.
pub open spec fn seconds_as_ms(secs: u64) -> u64 {
    if 1000 * secs <= u64::MAX {
        (1000 * secs) as u64
    } else {
        u64::MAX
    }
}

impl Attempt {
    /// The first attempt of a request.
    pub fn first() -> (res: Attempt)
        ensures
            res == (Attempt { number: 0, delay_ms: BASE_DELAY_MS }),
    {
        Attempt { number: 0, delay_ms: BASE_DELAY_MS }
    }

    /// No attempt follows this one.
    pub open spec fn is_last(self) -> bool {
        self.number + 1 >= MAX_ATTEMPTS
    }

    /// The wait before the retry that follows `outcome`: what the server
    /// asked for on a rate limit, else the attempt's own delay.
    pub open spec fn wait_after(self, outcome: Outcome) -> u64 {
        match outcome {
            Outcome::RateLimited { retry_after: Some(secs) } => seconds_as_ms(secs),
            _ => self.delay_ms,
        }
    }

    /// The attempt that follows after a retry: its delay is twice the wait
    /// that was just served.
    pub open spec fn successor(self, outcome: Outcome) -> Attempt {
        Attempt { number: (self.number + 1) as u32, delay_ms: doubled(self.wait_after(outcome)) }
    }
}

/// `error` is the error that `outcome` ends a request with.
pub open spec fn is_error_of(outcome: Outcome, error: ApiError) -> bool {
    match outcome {
        Outcome::Success(_) => false,
        Outcome::Unreadable(reason) => error is Other && error.detail()
            == "Failed to parse response: "@ + reason@,
        Outcome::RateLimited { .. } => error is RateLimit && error.detail()
            == "Rate limit exceeded after all retries"@,
        Outcome::Status(status) => error is Other && error.detail()
            == "Request failed with status: "@ + status@,
        Outcome::TimedOut => error is Timeout && error.detail()
            == "Request timed out after all retries"@,
        Outcome::ConnectFailed => error is Network && error.detail()
            == "Failed to connect after all retries"@,
        Outcome::Failed(reason) => error is Other && error.detail() == "Request failed: "@
            + reason@,
    }
}

/// Decides what follows an attempt.
///
/// A readable body ends the request with success and an unreadable one with
/// an error, at once. Everything else is retried until the last attempt,
/// which ends the request with the error that belongs to its outcome.
pub fn next_action(attempt: Attempt, outcome: Outcome) -> (step: Step)
    ensures
        match outcome {
            Outcome::Success(body) => step matches Step::Succeed(b) && b@ == body@,
            Outcome::Unreadable(_) => step matches Step::Fail(e) && is_error_of(outcome, e),
            _ => if attempt.is_last() {
                step matches Step::Fail(e) && is_error_of(outcome, e)
            } else {
                step == (Step::Retry {
                    wait_ms: attempt.wait_after(outcome),
                    next: attempt.successor(outcome),
                })
            },
        },
        step matches Step::Retry { next, .. } ==> next.number < MAX_ATTEMPTS,
{
    let last: bool = attempt.number >= MAX_ATTEMPTS - 1;
    match outcome {
        Outcome::Success(body) => Step::Succeed(body),
        Outcome::Unreadable(reason) => Step::Fail(
            ApiError::Other(String::from_str("Failed to parse response: ").concat(reason.as_str())),
        ),
        Outcome::RateLimited { retry_after } => {
            if last {
                Step::Fail(
                    ApiError::RateLimit(String::from_str("Rate limit exceeded after all retries")),
                )
            } else {
                let wait: u64 = match retry_after {
                    Some(secs) => if secs <= u64::MAX / 1000 {
                        secs * 1000
                    } else {
                        u64::MAX
                    },
                    None => attempt.delay_ms,
                };
                retry_after_wait(attempt, wait)
            }
        },
        Outcome::Status(status) => {
            if last {
                Step::Fail(
                    ApiError::Other(
                        String::from_str("Request failed with status: ").concat(status.as_str()),
                    ),
                )
            } else {
                retry_after_wait(attempt, attempt.delay_ms)
            }
        },
        Outcome::TimedOut => {
            if last {
                Step::Fail(
                    ApiError::Timeout(String::from_str("Request timed out after all retries")),
                )
            } else {
                retry_after_wait(attempt, attempt.delay_ms)
            }
        },
        Outcome::ConnectFailed => {
            if last {
                Step::Fail(
                    ApiError::Network(String::from_str("Failed to connect after all retries")),
                )
            } else {
                retry_after_wait(attempt, attempt.delay_ms)
            }
        },
        Outcome::Failed(reason) => {
            if last {
                Step::Fail(
                    ApiError::Other(String::from_str("Request failed: ").concat(reason.as_str())),
                )
            } else {
                retry_after_wait(attempt, attempt.delay_ms)
            }
        },
    }
}

/// The retry that waits `wait` milliseconds after `attempt`.
fn retry_after_wait(attempt: Attempt, wait: u64) -> (step: Step)
    requires
        attempt.number + 1 < MAX_ATTEMPTS,
    ensures
        step == (Step::Retry {
            wait_ms: wait,
            next: Attempt { number: (attempt.number + 1) as u32, delay_ms: doubled(wait) },
        }),
{
    let delay: u64 = if wait <= u64::MAX / 2 {
        wait * 2
    } else {
        u64::MAX
    };
    Step::Retry { wait_ms: wait, next: Attempt { number: attempt.number + 1, delay_ms: delay } }
}

/// The character of a decimal digit.
pub open spec fn digit_char(d: nat) -> char {
    if d == 0 {
        '0'
    } else if d == 1 {
        '1'
    } else if d == 2 {
        '2'
    } else if d == 3 {
        '3'
    } else if d == 4 {
        '4'
    } else if d == 5 {
        '5'
    } else if d == 6 {
        '6'
    } else if d == 7 {
        '7'
    } else if d == 8 {
        '8'
    } else {
        '9'
    }
}

/// A number in decimal, without sign or leading zeros.
pub open spec fn decimal(n: nat) -> Seq<char>
    decreases n,
{
    if n < 10 {
        seq![digit_char(n)]
    } else {
        decimal(n / 10).push(digit_char(n % 10))
    }
}

fn digit_of(d: usize) -> (c: char)
    requires
        d < 10,
    ensures
        c == digit_char(d as nat),
{
    if d == 0 {
        '0'
    } else if d == 1 {
        '1'
    } else if d == 2 {
        '2'
    } else if d == 3 {
        '3'
    } else if d == 4 {
        '4'
    } else if d == 5 {
        '5'
    } else if d == 6 {
        '6'
    } else if d == 7 {
        '7'
    } else if d == 8 {
        '8'
    } else {
        '9'
    }
}

/// Writes a number in decimal.
pub fn decimal_string(n: usize) -> (res: String)
    ensures
        res@ == decimal(n as nat),
{
    let mut low: Vec<char> = Vec::new();
    let mut rest: usize = n;
    while rest >= 10
        invariant
            decimal(n as nat) == decimal(rest as nat) + low@.reverse(),
        decreases rest,
    {
        let c = digit_of(rest % 10);
        proof {
            assert(decimal(rest as nat) == decimal((rest / 10) as nat).push(c));
            assert(low@.push(c).reverse() =~= seq![c] + low@.reverse());
            assert(decimal((rest / 10) as nat).push(c) + low@.reverse() =~= decimal(
                (rest / 10) as nat,
            ) + low@.push(c).reverse());
        }
        low.push(c);
        rest = rest / 10;
    }
    let mut out: Vec<char> = Vec::new();
    out.push(digit_of(rest));
    assert(out@ =~= decimal(rest as nat));
    let mut k: usize = low.len();
    while k > 0
        invariant
            k <= low.len(),
            out@ == decimal(rest as nat) + low@.reverse().subrange(0, low.len() - k),
        decreases k,
    {
        k -= 1;
        assert(low@.reverse().subrange(0, low.len() - k) =~= low@.reverse().subrange(
            0,
            low.len() - k - 1,
        ).push(low@[k as int]));
        out.push(low[k]);
    }
    assert(low@.reverse().subrange(0, low.len() as int) =~= low@.reverse());
    crate::text::string_of(out)
}

/// The question put to the judge about one comment.
pub open spec fn prompt(comment: CommentInfoView) -> Seq<char> {
    "Comment: '"@ + comment.text + "'\nContext: '"@ + comment.context + "'\nLine Number: "@
        + decimal(comment.line_number)
        + "\nIs this comment redundant or useful? Please respond with a JSON object containing the following fields: is_redundant, comment_line_number, comment_text, explanation"@
}

/// Builds the question about one comment: its text, its context and its line.
pub fn build_prompt(comment: &CommentInfo) -> (res: String)
    ensures
        res@ == prompt(comment@),
{
    let line = decimal_string(comment.line_number);
    String::from_str("Comment: '").concat(comment.text.as_str()).concat("'\nContext: '").concat(
        comment.context.as_str(),
    ).concat("'\nLine Number: ").concat(line.as_str()).concat(
        "\nIs this comment redundant or useful? Please respond with a JSON object containing the following fields: is_redundant, comment_line_number, comment_text, explanation",
    )
}

/// The body of the request that puts a question to the judge: one user
/// message with the question, for one answer of at most 500 tokens.
pub open spec fn request_text(question: Seq<char>) -> Seq<char> {
    "{\"model\":\"ft:gpt-4o-mini-2024-07-18:personal:unremark:Aq45wBQq\",\"messages\":[{\"role\":\"user\",\"content\":"@
        + json_quoted(question)
        + "}],\"max_tokens\":500,\"temperature\":0.0,\"top_p\":1.0,\"n\":1,\"stream\":false}"@
}

/// Builds the body of the request about one comment.
pub fn request_body(comment: &CommentInfo) -> (res: String)
    ensures
        res@ == request_text(prompt(comment@)),
{
    let question = build_prompt(comment);
    let content = quoted(question.as_str());
    String::from_str(
        "{\"model\":\"ft:gpt-4o-mini-2024-07-18:personal:unremark:Aq45wBQq\",\"messages\":[{\"role\":\"user\",\"content\":",
    ).concat(content.as_str()).concat(
        "}],\"max_tokens\":500,\"temperature\":0.0,\"top_p\":1.0,\"n\":1,\"stream\":false}",
    )
}

/// The verdict that a response holds: the content of the first choice's
/// message, read as a JSON document of its own, must hold a truth value
/// `is_redundant`, a line number `comment_line_number` and a string
/// `explanation`. Whatever else it holds is passed over; if one of the three
/// is missing or of another type, there is no verdict.
pub open spec fn verdict_in(body: Seq<char>) -> Option<(bool, usize, Seq<char>)> {
    match json_string_at(body, "/choices/0/message/content"@) {
        Some(content) => match (
            json_bool_at(content, "/is_redundant"@),
            json_number_at(content, "/comment_line_number"@),
            json_string_at(content, "/explanation"@),
        ) {
            (Some(is_redundant), Some(line), Some(explanation)) => if line <= usize::MAX {
                Some((is_redundant, line as usize, explanation))
            } else {
                None
            },
            _ => None,
        },
        None => None,
    }
}

/// Reads the verdict out of the body of a response.
pub fn read_verdict(body: &str) -> (res: Option<CommentAnalysis>)
    ensures
        match res {
            Some(v) => verdict_in(body@) == Some(
                (v.is_redundant, v.comment_line_number, v.explanation@),
            ),
            None => verdict_in(body@) is None,
        },
{
    let content = match string_at(body, "/choices/0/message/content") {
        Some(content) => content,
        None => {
            return None;
        },
    };
    let is_redundant = bool_at(content.as_str(), "/is_redundant");
    let line = number_at(content.as_str(), "/comment_line_number");
    let explanation = string_at(content.as_str(), "/explanation");
    match (is_redundant, line, explanation) {
        (Some(is_redundant), Some(line), Some(explanation)) => {
            if line <= usize::MAX as u64 {
                Some(
                    CommentAnalysis {
                        is_redundant,
                        comment_line_number: line as usize,
                        explanation,
                    },
                )
            } else {
                None
            }
        },
        _ => None,
    }
}

/// A verdict confirms a comment as redundant only if it says so and names
/// the comment's own line.
pub open spec fn confirms(comment: CommentInfoView, verdict: CommentAnalysis) -> bool {
    verdict.is_redundant && verdict.comment_line_number as nat == comment.line_number
}

/// Whether `verdict` confirms `comment` as redundant.
pub fn confirms_redundancy(comment: &CommentInfo, verdict: &CommentAnalysis) -> (res: bool)
    ensures
        res == confirms(comment@, *verdict),
        verdict.comment_line_number != comment.line_number ==> !res,
{
    verdict.comment_line_number == comment.line_number && verdict.is_redundant
}

/// A comment and the verdict on it, if one could be read, confirm redundancy.
pub open spec fn is_confirmed(answer: (CommentInfo, Option<CommentAnalysis>)) -> bool {
    match answer.1 {
        Some(verdict) => confirms(answer.0@, verdict),
        None => false,
    }
}

/// The comments among the first `n` answers that are confirmed, in order.
pub open spec fn confirmed(answers: Seq<(CommentInfo, Option<CommentAnalysis>)>, n: int) -> Seq<
    CommentInfoView,
>
    decreases n,
{
    if n <= 0 {
        Seq::empty()
    } else if is_confirmed(answers[n - 1]) {
        confirmed(answers, n - 1).push(answers[n - 1].0@)
    } else {
        confirmed(answers, n - 1)
    }
}

/// Takes the judge's answers, one for each comment that was asked about,
/// and keeps the comments whose verdict confirms them, in the order of the
/// answers. A comment without a readable verdict is dropped, and so is one
/// whose verdict names another line. The result is never an error.
pub fn analyze_comments(answers: Vec<(CommentInfo, Option<CommentAnalysis>)>) -> (res: Result<
    Vec<CommentInfo>,
    String,
>)
    ensures
        res matches Ok(kept) && crate::types::comments_view(kept@) == confirmed(
            answers@,
            answers@.len() as int,
        ),
{
    let mut out: Vec<CommentInfo> = Vec::new();
    let mut i: usize = 0;
    while i < answers.len()
        invariant
            i <= answers.len(),
            crate::types::comments_view(out@) == confirmed(answers@, i as int),
        decreases answers.len() - i,
    {
        let keep = match &answers[i].1 {
            Some(verdict) => confirms_redundancy(&answers[i].0, verdict),
            None => false,
        };
        if keep {
            let ghost before = out@;
            out.push(answers[i].0.duplicate());
            assert(crate::types::comments_view(out@) =~= crate::types::comments_view(before).push(
                answers@[i as int].0@,
            ));
        }
        i += 1;
    }
    Ok(out)
}

/// Every confirmed comment was asked about and has a verdict that calls it
/// redundant on its own line: a verdict for another line confirms nothing.
pub proof fn lemma_confirmed_match_their_line(
    answers: Seq<(CommentInfo, Option<CommentAnalysis>)>,
    n: int,
    k: int,
)
    requires
        0 <= n <= answers.len(),
        0 <= k < confirmed(answers, n).len(),
    ensures
        exists|i: int|
            0 <= i < n && (#[trigger] answers[i]).0@ == confirmed(answers, n)[k] && is_confirmed(
                answers[i],
            ),
    decreases n,
{
    if n > 0 {
        let shorter = confirmed(answers, n - 1);
        if is_confirmed(answers[n - 1]) && k == shorter.len() {
            assert(answers[n - 1].0@ == confirmed(answers, n)[k]);
        } else {
            lemma_confirmed_match_their_line(answers, n - 1, k);
            let i = choose|i: int|
                0 <= i < n - 1 && (#[trigger] answers[i]).0@ == shorter[k] && is_confirmed(
                    answers[i],
                );
            assert(answers[i].0@ == confirmed(answers, n)[k]);
        }
    }
}

} // verus!
