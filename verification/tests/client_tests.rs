use unremark::client::{decimal_string, BASE_DELAY_MS, MAX_ATTEMPTS};
use unremark::{
    analyze_comments, build_prompt, confirms_redundancy, next_action, read_verdict, request_body,
    ApiError, Attempt, CommentAnalysis, CommentInfo, Outcome, Step, OPENAI_MODEL,
};

fn comment(text: &str, line_number: usize) -> CommentInfo {
    CommentInfo {
        text: text.to_string(),
        line_number,
        context: "Test context".to_string(),
        explanation: None,
    }
}

fn verdict(is_redundant: bool, line: usize) -> CommentAnalysis {
    CommentAnalysis {
        is_redundant,
        comment_line_number: line,
        explanation: "Test explanation".to_string(),
    }
}

fn retry_of(step: Step) -> (u64, Attempt) {
    match step {
        Step::Retry { wait_ms, next } => (wait_ms, next),
        other => panic!("no retry: {:?}", other),
    }
}

fn error_of(step: Step) -> ApiError {
    match step {
        Step::Fail(e) => e,
        other => panic!("no failure: {:?}", other),
    }
}

#[test]
fn first_attempt_starts_with_the_base_delay() {
    assert_eq!(MAX_ATTEMPTS, 3);
    assert_eq!(BASE_DELAY_MS, 1000);
    assert_eq!(Attempt::first(), Attempt { number: 0, delay_ms: 1000 });
}

#[test]
fn rate_limit_with_retry_after_then_success() {
    let (wait, next) = retry_of(next_action(
        Attempt::first(),
        Outcome::RateLimited { retry_after: Some(1) },
    ));
    assert_eq!(wait, 1000);
    assert_eq!(next, Attempt { number: 1, delay_ms: 2000 });
    match next_action(next, Outcome::Success("{}".to_string())) {
        Step::Succeed(body) => assert_eq!(body, "{}"),
        other => panic!("no success: {:?}", other),
    }
}

#[test]
fn retry_after_overrides_the_backoff() {
    let (wait, next) = retry_of(next_action(
        Attempt { number: 1, delay_ms: 2000 },
        Outcome::RateLimited { retry_after: Some(7) },
    ));
    assert_eq!(wait, 7000);
    assert_eq!(next, Attempt { number: 2, delay_ms: 14000 });
}

#[test]
fn backoff_doubles_without_retry_after() {
    let (wait, next) =
        retry_of(next_action(Attempt::first(), Outcome::RateLimited { retry_after: None }));
    assert_eq!((wait, next), (1000, Attempt { number: 1, delay_ms: 2000 }));
    let (wait, next) = retry_of(next_action(next, Outcome::Status("500".to_string())));
    assert_eq!((wait, next), (2000, Attempt { number: 2, delay_ms: 4000 }));
}

#[test]
fn waits_saturate() {
    let (wait, next) = retry_of(next_action(
        Attempt::first(),
        Outcome::RateLimited { retry_after: Some(u64::MAX) },
    ));
    assert_eq!(wait, u64::MAX);
    assert_eq!(next.delay_ms, u64::MAX);
    let (wait, next) =
        retry_of(next_action(Attempt { number: 0, delay_ms: u64::MAX / 2 + 1 }, Outcome::TimedOut));
    assert_eq!(wait, u64::MAX / 2 + 1);
    assert_eq!(next.delay_ms, u64::MAX);
}

#[test]
fn timeouts_and_connection_failures_are_retried() {
    for outcome in [Outcome::TimedOut, Outcome::ConnectFailed, Outcome::Failed("x".to_string())] {
        let (wait, next) = retry_of(next_action(Attempt::first(), outcome));
        assert_eq!((wait, next), (1000, Attempt { number: 1, delay_ms: 2000 }));
    }
}

#[test]
fn last_attempt_gives_each_error_kind() {
    let last = Attempt { number: 2, delay_ms: 4000 };
    match error_of(next_action(last, Outcome::RateLimited { retry_after: Some(1) })) {
        ApiError::RateLimit(m) => assert_eq!(m, "Rate limit exceeded after all retries"),
        e => panic!("{:?}", e),
    }
    match error_of(next_action(last, Outcome::TimedOut)) {
        ApiError::Timeout(m) => assert_eq!(m, "Request timed out after all retries"),
        e => panic!("{:?}", e),
    }
    match error_of(next_action(last, Outcome::ConnectFailed)) {
        ApiError::Network(m) => assert_eq!(m, "Failed to connect after all retries"),
        e => panic!("{:?}", e),
    }
    match error_of(next_action(last, Outcome::Status("503 Service Unavailable".to_string()))) {
        ApiError::Other(m) => assert_eq!(m, "Request failed with status: 503 Service Unavailable"),
        e => panic!("{:?}", e),
    }
    match error_of(next_action(last, Outcome::Failed("broken pipe".to_string()))) {
        ApiError::Other(m) => assert_eq!(m, "Request failed: broken pipe"),
        e => panic!("{:?}", e),
    }
}

#[test]
fn unreadable_body_fails_at_once() {
    match error_of(next_action(Attempt::first(), Outcome::Unreadable("eof".to_string()))) {
        ApiError::Other(m) => assert_eq!(m, "Failed to parse response: eof"),
        e => panic!("{:?}", e),
    }
}

#[test]
fn a_request_is_tried_three_times_at_most() {
    let mut attempt = Attempt::first();
    let mut tries = 1;
    loop {
        match next_action(attempt, Outcome::TimedOut) {
            Step::Retry { next, .. } => {
                attempt = next;
                tries += 1;
            }
            Step::Fail(ApiError::Timeout(_)) => break,
            other => panic!("{:?}", other),
        }
    }
    assert_eq!(tries, 3);
}

#[test]
fn error_messages_carry_their_heading() {
    assert_eq!(ApiError::RateLimit("a".to_string()).message(), "Rate limit exceeded: a");
    assert_eq!(ApiError::Timeout("b".to_string()).message(), "Request timeout: b");
    assert_eq!(ApiError::Network("c".to_string()).message(), "Network error: c");
    assert_eq!(ApiError::Other("d".to_string()).message(), "API error: d");
}

#[test]
fn decimal_of_numbers() {
    assert_eq!(decimal_string(0), "0");
    assert_eq!(decimal_string(7), "7");
    assert_eq!(decimal_string(10), "10");
    assert_eq!(decimal_string(1234567890), "1234567890");
    assert_eq!(decimal_string(usize::MAX), usize::MAX.to_string());
}

#[test]
fn prompt_holds_text_context_and_line() {
    let c = comment("// Test comment", 12);
    assert_eq!(
        build_prompt(&c),
        "Comment: '// Test comment'\nContext: 'Test context'\nLine Number: 12\nIs this comment redundant or useful? Please respond with a JSON object containing the following fields: is_redundant, comment_line_number, comment_text, explanation"
    );
}

#[test]
fn verdict_for_another_line_confirms_nothing() {
    let c = comment("// Test comment", 1);
    assert!(confirms_redundancy(&c, &verdict(true, 1)));
    assert!(!confirms_redundancy(&c, &verdict(true, 2)));
    assert!(!confirms_redundancy(&c, &verdict(false, 1)));
    assert!(!confirms_redundancy(&c, &verdict(false, 2)));
}

#[test]
fn confirmed_comments_keep_their_order() {
    let answers = vec![
        (comment("// a", 1), Some(verdict(true, 1))),
        (comment("// b", 2), None),
        (comment("// c", 3), Some(verdict(true, 4))),
        (comment("// d", 4), Some(verdict(false, 4))),
        (comment("// e", 5), Some(verdict(true, 5))),
    ];
    let kept = analyze_comments(answers).unwrap();
    let texts: Vec<&str> = kept.iter().map(|c| c.text.as_str()).collect();
    assert_eq!(texts, vec!["// a", "// e"]);
    assert_eq!(kept[1].line_number, 5);
    assert_eq!(kept[1].context, "Test context");
    assert!(analyze_comments(vec![]).unwrap().is_empty());
}

const RESPONSE: &str = r#"{"id":"test-id","object":"chat.completion","created":1234567890,"choices":[{"index":0,"message":{"role":"assistant","content":"{\"is_redundant\": true, \"comment_line_number\": 1, \"comment_text\": \"Test comment\", \"explanation\": \"Test explanation\"}"},"finish_reason":"stop"}]}"#;

#[test]
fn verdict_is_read_from_the_first_choice() {
    let v = read_verdict(RESPONSE).expect("a verdict");
    assert!(v.is_redundant);
    assert_eq!(v.comment_line_number, 1);
    assert_eq!(v.explanation, "Test explanation");
}

#[test]
fn retried_request_ends_with_a_confirmed_comment() {
    let c = comment("// Test comment", 1);
    let (wait, next) = retry_of(next_action(
        Attempt::first(),
        Outcome::RateLimited { retry_after: Some(1) },
    ));
    assert_eq!(wait, 1000);
    let body = match next_action(next, Outcome::Success(RESPONSE.to_string())) {
        Step::Succeed(body) => body,
        other => panic!("{:?}", other),
    };
    let kept = analyze_comments(vec![(c, read_verdict(&body))]).unwrap();
    assert_eq!(kept.len(), 1);
    assert_eq!(kept[0].text, "// Test comment");
}

#[test]
fn response_without_a_full_verdict_holds_none() {
    let wrap = |content: &str| {
        let quoted = serde_json::Value::String(content.to_string()).to_string();
        format!("{{\"choices\":[{{\"message\":{{\"content\":{}}}}}]}}", quoted)
    };
    let full = r#"{"is_redundant": false, "comment_line_number": 7, "explanation": "x"}"#;
    let v = read_verdict(&wrap(full)).expect("a verdict");
    assert!(!v.is_redundant);
    assert_eq!(v.comment_line_number, 7);
    assert_eq!(v.explanation, "x");
    for content in [
        r#"{"comment_line_number": 7, "explanation": "x"}"#,
        r#"{"is_redundant": true, "explanation": "x"}"#,
        r#"{"is_redundant": true, "comment_line_number": 7}"#,
        r#"{"is_redundant": "true", "comment_line_number": 7, "explanation": "x"}"#,
        r#"{"is_redundant": true, "comment_line_number": "7", "explanation": "x"}"#,
        r#"{"is_redundant": true, "comment_line_number": -7, "explanation": "x"}"#,
        r#"{"is_redundant": true, "comment_line_number": 7.5, "explanation": "x"}"#,
        r#"{"is_redundant": true, "comment_line_number": 7, "explanation": null}"#,
        "The comment is redundant.",
        "",
    ] {
        assert!(read_verdict(&wrap(content)).is_none(), "{}", content);
    }
    for body in ["", "not json", "{}", r#"{"choices":[]}"#, r#"{"choices":[{"message":{}}]}"#,
        r#"{"choices":[{"message":{"content":7}}]}"#]
    {
        assert!(read_verdict(body).is_none(), "{}", body);
    }
}

#[test]
fn request_body_is_the_question_in_json() {
    let c = CommentInfo {
        text: "// say \"hi\"\t\\".to_string(),
        line_number: 3,
        context: "fn f() {\n}".to_string(),
        explanation: None,
    };
    let body = request_body(&c);
    let value: serde_json::Value = serde_json::from_str(&body).expect("json");
    assert_eq!(value["model"].as_str(), Some(OPENAI_MODEL));
    assert_eq!(value["messages"].as_array().map(|a| a.len()), Some(1));
    assert_eq!(value["messages"][0]["role"].as_str(), Some("user"));
    assert_eq!(value["messages"][0]["content"].as_str(), Some(build_prompt(&c).as_str()));
    assert_eq!(value["max_tokens"].as_u64(), Some(500));
    assert_eq!(value["temperature"].as_f64(), Some(0.0));
    assert_eq!(value["top_p"].as_f64(), Some(1.0));
    assert_eq!(value["n"].as_u64(), Some(1));
    assert_eq!(value["stream"].as_bool(), Some(false));
    assert_eq!(value.as_object().map(|o| o.len()), Some(7));
}
