use unremark::{remove_redundant_comments, CommentInfo, Language};

fn comment(text: &str, line_number: usize) -> CommentInfo {
    CommentInfo {
        text: text.to_string(),
        line_number,
        context: String::new(),
        explanation: None,
    }
}

#[test]
fn removes_file_comment_from_python() {
    let source = "# This is a test file\ndef f():\n    pass";
    let out = remove_redundant_comments(
        source,
        &vec![comment("# This is a test file", 1)],
        Language::Python,
    );
    assert_eq!(out, "def f():\n    pass\n");
}

#[test]
fn keeps_docstring_and_removes_comment_after_it() {
    let source = "def f():\n    '''Function level docstring'''\n    # redundant\n    return 1\n";
    let out = remove_redundant_comments(source, &vec![comment("# redundant", 3)], Language::Python);
    assert_eq!(out, "def f():\n    '''Function level docstring'''\n    return 1\n");
    assert!(out.contains("'''Function level docstring'''"));
}

#[test]
fn comment_first_found_inside_docstring_is_left_alone() {
    let source = "def f():\n    \"\"\"\n    # note\n    \"\"\"\n    # note\n    return 1\n";
    let out = remove_redundant_comments(source, &vec![comment("# note", 5)], Language::Python);
    assert_eq!(out, "def f():\n    \"\"\"\n    # note\n    \"\"\"\n    # note\n    return 1\n");
}

#[test]
fn triple_quotes_protect_nothing_outside_python() {
    let source = "let s = '''\n// note\n''';\n";
    let out = remove_redundant_comments(source, &vec![comment("// note", 2)], Language::Rust);
    assert_eq!(out, "let s = '''\n''';\n");
}

#[test]
fn offsets_of_protected_zones_are_bytes() {
    // The two-byte letters move the docstring one byte per letter to the right of
    // its character index.
    let source = "s = 'ééé'\n'''# c'''\n";
    let out = remove_redundant_comments(source, &vec![comment("# c", 2)], Language::Python);
    assert_eq!(out, source);
}

#[test]
fn inline_comment_goes_with_its_line_ending() {
    let source = "x = 1  # set x\ny = 2\n";
    let out = remove_redundant_comments(source, &vec![comment("# set x", 1)], Language::Python);
    assert_eq!(out, "x = 1y = 2\n");
}

#[test]
fn inline_comment_at_end_of_text() {
    let source = "fn f() -> i32 {\n    a + b // Returns the sum\n}";
    let out =
        remove_redundant_comments(source, &vec![comment("// Returns the sum", 2)], Language::Rust);
    assert_eq!(out, "fn f() -> i32 {\n    a + b}\n");
}

#[test]
fn comment_on_its_own_line_takes_the_line() {
    let source = "fn f() {\n    // Adds\n    x\n}\n";
    let out = remove_redundant_comments(source, &vec![comment("// Adds", 2)], Language::Rust);
    assert_eq!(out, "fn f() {\n    x\n}\n");
}

#[test]
fn comment_after_opening_brace_stays() {
    let source = "fn f() { // why\n    x\n}\n";
    let out = remove_redundant_comments(source, &vec![comment("// why", 1)], Language::Rust);
    assert_eq!(out, "fn f() { // why\n    x\n}\n");
}

#[test]
fn block_comment_goes_alone() {
    let source = "let a = 1; /* one */\nlet b = 2;\n";
    let out = remove_redundant_comments(source, &vec![comment("/* one */", 1)], Language::Rust);
    assert_eq!(out, "let a = 1;\nlet b = 2;\n");
}

#[test]
fn comment_text_is_matched_literally() {
    let source = "# a+b (c) [d] $e\n# ab (c) [d] $e\nx = 1\n";
    let out =
        remove_redundant_comments(source, &vec![comment("# a+b (c) [d] $e", 1)], Language::Python);
    assert_eq!(out, "# ab (c) [d] $e\nx = 1\n");
}

#[test]
fn every_line_start_occurrence_goes() {
    let source = "# a\nx = 1\n  # a\ny = 2\n";
    let out = remove_redundant_comments(source, &vec![comment("# a", 1)], Language::Python);
    assert_eq!(out, "x = 1\ny = 2\n");
}

#[test]
fn repeated_text_needs_a_second_pass() {
    let source = "# a\nx = 1 # a\n";
    let list = vec![comment("# a", 1)];
    let once = remove_redundant_comments(source, &list, Language::Python);
    assert_eq!(once, "x = 1 # a\n");
    let twice = remove_redundant_comments(&once, &list, Language::Python);
    assert_eq!(twice, "x = 1\n");
}

#[test]
fn rewriting_twice_is_rewriting_once() {
    let source = "// This is a test file\nfn calculate_sum(a: i32, b: i32) -> i32 {\n    // Adds two numbers together\n    a + b\n}\n\nstruct Point {\n    x: i32,\n    y: i32,\n}\n";
    let list = vec![
        comment("// This is a test file", 1),
        comment("// Adds two numbers together", 3),
    ];
    let once = remove_redundant_comments(source, &list, Language::Rust);
    assert_eq!(
        once,
        "fn calculate_sum(a: i32, b: i32) -> i32 {\n    a + b\n}\nstruct Point {\n    x: i32,\n    y: i32,\n}\n"
    );
    let twice = remove_redundant_comments(&once, &list, Language::Rust);
    assert_eq!(twice, once);
}

#[test]
fn comments_are_removed_in_list_order() {
    let source = "# b\n# a # b\nx\n";
    let out = remove_redundant_comments(
        source,
        &vec![comment("# a # b", 2), comment("# b", 1)],
        Language::Python,
    );
    assert_eq!(out, "x\n");
}

#[test]
fn absent_comment_changes_nothing_but_tidies() {
    let source = "a\n\n   \n\tb";
    let out = remove_redundant_comments(source, &vec![comment("# gone", 1)], Language::Python);
    assert_eq!(out, "a\n\tb\n");
}

#[test]
fn empty_source_becomes_one_line_feed() {
    assert_eq!(remove_redundant_comments("", &vec![], Language::Rust), "\n");
    assert_eq!(remove_redundant_comments("\n\n \n", &vec![], Language::Rust), "\n");
}

#[test]
fn carriage_return_before_line_feed_is_part_of_the_line_ending() {
    assert_eq!(remove_redundant_comments("a\r\nb\r\n", &vec![], Language::Rust), "a\nb\n");
    assert_eq!(remove_redundant_comments("a\r", &vec![], Language::Rust), "a\r\n");
    assert_eq!(remove_redundant_comments("a\r\r\n", &vec![], Language::Rust), "a\r\n");
}

#[test]
fn lines_of_unicode_white_space_are_blank() {
    assert_eq!(remove_redundant_comments("a\n\u{a0}\u{2003}\nb\n", &vec![], Language::Rust), "a\nb\n");
}

#[test]
fn tidying_matches_the_standard_line_splitting() {
    let inputs = ["", "\n", "a", "a\n", "a\r\n\r\nb", " \n\ta \n\n", "x\r", "\r\n", "a\n\nb\n\n"];
    for input in inputs {
        let expected = input
            .lines()
            .filter(|line| !line.trim().is_empty())
            .collect::<Vec<&str>>()
            .join("\n")
            + "\n";
        assert_eq!(remove_redundant_comments(input, &vec![], Language::Rust), expected);
    }
}
