use unremark::services::get_proxy_endpoint;
use unremark::{
    choose_judge, create_analysis_service, CommentInfo, Judge, Language, ProxyAnalysisService,
    ProxyReply, CACHE_FILE_NAME, DEFAULT_PROXY_ENDPOINT, OPENAI_MODEL,
};

#[test]
fn extensions_of_the_four_languages() {
    assert_eq!(Language::from_extension("py"), Some(Language::Python));
    assert_eq!(Language::from_extension("js"), Some(Language::JavaScript));
    assert_eq!(Language::from_extension("ts"), Some(Language::TypeScript));
    assert_eq!(Language::from_extension("rs"), Some(Language::Rust));
}

#[test]
fn other_extensions_are_unsupported() {
    for ext in ["", "p", "pyc", "PY", ".py", "txt", "r", "rss", "tsx"] {
        assert_eq!(Language::from_extension(ext), None);
    }
}

#[test]
fn duplicate_keeps_every_field() {
    let c = CommentInfo {
        text: "// a".to_string(),
        line_number: 3,
        context: "fn f() {}".to_string(),
        explanation: Some("e".to_string()),
    };
    let d = c.duplicate();
    assert_eq!(d.text, "// a");
    assert_eq!(d.line_number, 3);
    assert_eq!(d.context, "fn f() {}");
    assert_eq!(d.explanation, Some("e".to_string()));
}

#[test]
fn proxy_endpoint_defaults_to_this_machine() {
    assert_eq!(get_proxy_endpoint(None), "http://localhost:5000");
    assert_eq!(get_proxy_endpoint(None), DEFAULT_PROXY_ENDPOINT);
    assert_eq!(CACHE_FILE_NAME, "unremark_cache.json");
    assert!(OPENAI_MODEL.starts_with("ft:gpt-4o-mini"));
    assert_eq!(get_proxy_endpoint(Some("http://proxy:1".to_string())), "http://proxy:1");
    assert_eq!(create_analysis_service(None).endpoint, "http://localhost:5000");
    let service = create_analysis_service(Some("http://proxy:1".to_string()));
    assert_eq!(service.endpoint, "http://proxy:1");
    assert_eq!(service.request_url(), "http://proxy:1/api/analyze/");
}

#[test]
fn credential_selects_the_direct_judge() {
    assert_eq!(choose_judge(true), Judge::Direct);
    assert_eq!(choose_judge(false), Judge::Proxy);
}

#[test]
fn proxy_replies_become_results() {
    assert_eq!(
        ProxyAnalysisService::outcome(ProxyReply::Unsent("refused".to_string())).unwrap_err(),
        "Proxy request failed: refused"
    );
    assert_eq!(
        ProxyAnalysisService::outcome(ProxyReply::Refused("500".to_string())).unwrap_err(),
        "Proxy error: 500"
    );
    assert_eq!(
        ProxyAnalysisService::outcome(ProxyReply::Unreadable("eof".to_string())).unwrap_err(),
        "Failed to parse proxy response: eof"
    );
    let comments = vec![CommentInfo {
        text: "// Adds two numbers".to_string(),
        line_number: 1,
        context: "fn add(a: i32, b: i32) -> i32 { a + b }".to_string(),
        explanation: None,
    }];
    let ok = ProxyAnalysisService::outcome(ProxyReply::Comments(comments)).unwrap();
    assert_eq!(ok.len(), 1);
    assert_eq!(ok[0].text, "// Adds two numbers");
}
