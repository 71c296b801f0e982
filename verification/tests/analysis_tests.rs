use unremark::{
    analysis_result, analyze_current_file, analyze_file, analyze_source, begin_analysis,
    finish_analysis, plan_fix, record_analysis, summarize, AnalysisResult, Cache, CommentAnalysis,
    CommentInfo, Language, Lookup, Summary,
};

fn comment(text: &str, line_number: usize) -> CommentInfo {
    CommentInfo {
        text: text.to_string(),
        line_number,
        context: String::new(),
        explanation: None,
    }
}

/// A judge that calls every comment redundant, and counts how often it is asked.
struct Stub {
    calls: usize,
}

impl Stub {
    fn classify(&mut self, comments: Vec<CommentInfo>) -> Vec<(CommentInfo, Option<CommentAnalysis>)> {
        self.calls += 1;
        comments
            .into_iter()
            .map(|c| {
                let verdict = CommentAnalysis {
                    is_redundant: true,
                    comment_line_number: c.line_number,
                    explanation: "restates the code".to_string(),
                };
                (c, Some(verdict))
            })
            .collect()
    }
}

fn run(
    cache: &mut Cache,
    stub: &mut Stub,
    path: &str,
    last_modified: u64,
    source: &str,
    fix: bool,
) -> (Vec<CommentInfo>, Option<String>) {
    let extension = path.rsplit('.').next();
    let language = extension.and_then(Language::from_extension);
    let redundant = match analyze_file(cache, path, extension, last_modified, source) {
        Lookup::Known(list) => list,
        Lookup::Classify(ask) => {
            let answers = stub.classify(ask);
            finish_analysis(cache, path, last_modified, answers)
        }
    };
    let fixed = match language {
        Some(language) => plan_fix(source, &redundant, fix, language),
        None => None,
    };
    (redundant, fixed)
}

#[test]
fn fix_removes_the_flagged_first_line() {
    let mut cache = Cache::new();
    let mut stub = Stub { calls: 0 };
    let source = "# This is a test file\ndef f():\n    pass";
    let (redundant, fixed) = run(&mut cache, &mut stub, "/t/test.py", 10, source, true);
    assert_eq!(redundant.len(), 1);
    assert_eq!(redundant[0].text, "# This is a test file");
    assert_eq!(redundant[0].line_number, 1);
    assert_eq!(fixed, Some("def f():\n    pass\n".to_string()));
}

#[test]
fn fix_keeps_the_docstring() {
    let mut cache = Cache::new();
    let mut stub = Stub { calls: 0 };
    let source = "def f():\n    \"\"\"Adds.\n\n    # redundant\n    \"\"\"\n    # redundant\n    return 1\n";
    let (redundant, fixed) = run(&mut cache, &mut stub, "/t/doc.py", 10, source, true);
    assert_eq!(redundant.len(), 1);
    let fixed = fixed.expect("a fix");
    assert!(fixed.contains("\"\"\"Adds."));
    assert!(fixed.contains("    # redundant\n    \"\"\""));

    let source = "def f():\n    '''Docstring'''\n    # redundant\n    return 1\n";
    let (_, fixed) = run(&mut cache, &mut stub, "/t/doc2.py", 10, source, true);
    assert_eq!(fixed, Some("def f():\n    '''Docstring'''\n    return 1\n".to_string()));
}

#[test]
fn unmodified_file_is_classified_once() {
    let mut cache = Cache::new();
    let mut stub = Stub { calls: 0 };
    let source = "# Test comment\ndef test():\n    pass";
    let (first, _) = run(&mut cache, &mut stub, "/t/test.py", 10, source, false);
    let (second, _) = run(&mut cache, &mut stub, "/t/test.py", 10, source, false);
    assert_eq!(stub.calls, 1);
    assert_eq!(first.len(), 1);
    assert_eq!(second.len(), 1);
    assert_eq!(first[0].text, second[0].text);
    assert_eq!(first[0].line_number, second[0].line_number);
}

#[test]
fn modified_file_is_classified_again() {
    let mut cache = Cache::new();
    let mut stub = Stub { calls: 0 };
    let (first, _) = run(
        &mut cache,
        &mut stub,
        "/t/test.py",
        10,
        "# This is a test file\ndef calculate_sum(a, b):\n    return a + b",
        false,
    );
    let (second, _) = run(
        &mut cache,
        &mut stub,
        "/t/test.py",
        11,
        "# This is a test file\ndef calculate_sum(a, b):\n    # Adds\n    return a + b",
        false,
    );
    assert_eq!(stub.calls, 2);
    assert_eq!(first.len(), 1);
    assert_eq!(second.len(), 2);
    assert!(cache.get("/t/test.py", 10).is_none());
    assert_eq!(cache.get("/t/test.py", 11).unwrap().len(), 2);
}

#[test]
fn fix_works_from_the_cache() {
    let mut cache = Cache::new();
    let mut stub = Stub { calls: 0 };
    let source = "# Another test comment\ndef add(a, b):\n    # Performs addition\n    return a + b\n";
    let (first, none) = run(&mut cache, &mut stub, "/t/test.py", 10, source, false);
    assert_eq!(first.len(), 2);
    assert_eq!(none, None);
    let (second, fixed) = run(&mut cache, &mut stub, "/t/test.py", 10, source, true);
    assert_eq!(stub.calls, 1);
    assert_eq!(second.len(), 2);
    assert_eq!(fixed, Some("def add(a, b):\n    return a + b\n".to_string()));
}

#[test]
fn comment_free_file_never_reaches_the_judge() {
    let mut cache = Cache::new();
    let mut stub = Stub { calls: 0 };
    let (redundant, fixed) = run(&mut cache, &mut stub, "/t/plain.py", 10, "def f():\n    pass\n", true);
    assert!(redundant.is_empty());
    assert_eq!(fixed, None);
    assert_eq!(stub.calls, 0);
    assert!(cache.get("/t/plain.py", 10).unwrap().is_empty());
}

#[test]
fn unsupported_or_unparsable_file_has_no_comments() {
    let mut cache = Cache::new();
    let mut stub = Stub { calls: 0 };
    let (redundant, _) = run(&mut cache, &mut stub, "/t/notes.txt", 10, "# a comment\n", true);
    assert!(redundant.is_empty());
    let (redundant, _) = run(&mut cache, &mut stub, "/t/broken.rs", 10, "fn f( {\n// c\n", true);
    assert!(redundant.is_empty());
    match analyze_file(&mut cache, "/t/none", None, 3, "// c\n") {
        Lookup::Known(list) => assert!(list.is_empty()),
        other => panic!("{:?}", other),
    }
    assert_eq!(stub.calls, 0);
}

#[test]
fn first_step_with_given_comments() {
    let mut cache = Cache::new();
    match begin_analysis(&mut cache, "/a.rs", 5, vec![comment("// a", 1)]) {
        Lookup::Classify(ask) => {
            assert_eq!(ask.len(), 1);
            assert_eq!(ask[0].text, "// a");
        }
        other => panic!("{:?}", other),
    }
    assert_eq!(cache.len(), 0);
    match begin_analysis(&mut cache, "/a.rs", 5, vec![]) {
        Lookup::Known(list) => assert!(list.is_empty()),
        other => panic!("{:?}", other),
    }
    assert!(cache.get("/a.rs", 5).unwrap().is_empty());
    cache.put("/a.rs".to_string(), 6, vec![comment("// kept", 2)]);
    match begin_analysis(&mut cache, "/a.rs", 6, vec![comment("// a", 1)]) {
        Lookup::Known(list) => assert_eq!(list[0].text, "// kept"),
        other => panic!("{:?}", other),
    }
}

#[test]
fn answers_for_other_lines_are_not_stored() {
    let mut cache = Cache::new();
    let answers = vec![
        (
            comment("// a", 1),
            Some(CommentAnalysis { is_redundant: true, comment_line_number: 2, explanation: String::new() }),
        ),
        (
            comment("// b", 2),
            Some(CommentAnalysis { is_redundant: true, comment_line_number: 2, explanation: String::new() }),
        ),
        (comment("// c", 3), None),
    ];
    let kept = finish_analysis(&mut cache, "/a.rs", 9, answers);
    assert_eq!(kept.len(), 1);
    assert_eq!(kept[0].text, "// b");
    let stored = cache.get("/a.rs", 9).unwrap();
    assert_eq!(stored.len(), 1);
    assert_eq!(stored[0].text, "// b");
}

#[test]
fn no_fix_without_request_or_without_comments() {
    let list = vec![comment("// a", 1)];
    assert_eq!(plan_fix("// a\nx\n", &list, false, Language::Rust), None);
    assert_eq!(plan_fix("// a\nx\n", &vec![], true, Language::Rust), None);
    assert_eq!(plan_fix("// a\nx\n", &list, true, Language::Rust), Some("x\n".to_string()));
}

#[test]
fn result_record_has_no_errors() {
    let r = analysis_result("/a.rs", vec![comment("// a", 1)]);
    assert_eq!(r.path, "/a.rs");
    assert_eq!(r.redundant_comments.len(), 1);
    assert!(r.errors.is_empty());
}

#[test]
fn summary_counts_files_and_comments() {
    let results = vec![
        AnalysisResult { path: "a".to_string(), redundant_comments: vec![comment("// a", 1), comment("// b", 2)], errors: vec![] },
        AnalysisResult { path: "b".to_string(), redundant_comments: vec![], errors: vec!["e".to_string()] },
        AnalysisResult { path: "c".to_string(), redundant_comments: vec![comment("// c", 1)], errors: vec!["e".to_string()] },
        AnalysisResult { path: "d".to_string(), redundant_comments: vec![], errors: vec![] },
    ];
    assert_eq!(
        summarize(&results),
        Summary { total_files: 4, files_with_comments: 2, files_with_errors: 2, total_redundant_comments: 3 }
    );
    assert_eq!(
        summarize(&vec![]),
        Summary { total_files: 0, files_with_comments: 0, files_with_errors: 0, total_redundant_comments: 0 }
    );
}

#[test]
fn candidates_come_from_the_language_of_the_extension() {
    let source = "# a\nx = 1\n";
    let found = analyze_source(source, Some("py"));
    assert_eq!(found.len(), 1);
    assert_eq!(found[0].text, "# a");
    assert!(analyze_source(source, Some("txt")).is_empty());
    assert!(analyze_source(source, None).is_empty());
    assert!(analyze_source("// a\nlet x = 1;\n", Some("rs")).len() == 1);
}

#[test]
fn current_file_record_has_an_empty_path() {
    let answers = vec![
        (
            comment("// a", 1),
            Some(CommentAnalysis { is_redundant: true, comment_line_number: 1, explanation: String::new() }),
        ),
        (
            comment("// b", 2),
            Some(CommentAnalysis { is_redundant: false, comment_line_number: 2, explanation: String::new() }),
        ),
    ];
    let r = analyze_current_file(answers);
    assert_eq!(r.path, "");
    assert_eq!(r.redundant_comments.len(), 1);
    assert_eq!(r.redundant_comments[0].text, "// a");
    assert!(r.errors.is_empty());
}

#[test]
fn recorded_comments_are_stored_as_given() {
    let mut cache = Cache::new();
    let kept = record_analysis(&mut cache, "/a.rs", 4, vec![comment("// a", 1), comment("// b", 2)]);
    assert_eq!(kept.len(), 2);
    let stored = cache.get("/a.rs", 4).unwrap();
    assert_eq!(stored.len(), 2);
    assert_eq!(stored[1].text, "// b");
    assert_eq!(stored[1].line_number, 2);
    assert!(cache.get("/a.rs", 5).is_none());
}

#[test]
fn documentation_is_never_put_to_the_judge() {
    let mut cache = Cache::new();
    let source = "/// Doc\nfn f() {}\n";
    match analyze_file(&mut cache, "/t/doc.rs", Some("rs"), 1, source) {
        Lookup::Known(list) => assert!(list.is_empty()),
        other => panic!("{:?}", other),
    }
    assert!(cache.get("/t/doc.rs", 1).unwrap().is_empty());
}
