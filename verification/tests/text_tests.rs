use slopc::doctests::{doctest_harness, extract_doctests};
use slopc::fences::strip_fences;
use slopc::lint::{contains_outside_string, lint_panics};
use slopc::prompt::{build_system_prompt, build_user_prompt, prettify_source, SYSTEM_PROMPT};

fn strings(v: &[&str]) -> Vec<String> {
    v.iter().map(|s| s.to_string()).collect()
}

#[test]
fn strip_fences_removes_rust_fence() {
    assert_eq!(strip_fences("```rust\nfn f() -> i32 { 1 }\n```"), "fn f() -> i32 { 1 }");
}

#[test]
fn strip_fences_trims_unfenced_reply() {
    assert_eq!(strip_fences("  \n fn f() {}\t\n"), "fn f() {}");
}

#[test]
fn strip_fences_without_tag() {
    assert_eq!(strip_fences("```\nfn g() {}\n```\n"), "fn g() {}");
}

#[test]
fn strip_fences_longer_opening_closed_by_three() {
    assert_eq!(strip_fences("````rs\nfn h() {}\n```"), "fn h() {}");
}

#[test]
fn strip_fences_longer_fence_matching() {
    assert_eq!(strip_fences("````\nlet a = 1;\n````"), "let a = 1;");
}

#[test]
fn strip_fences_single_line_fence_kept() {
    assert_eq!(strip_fences("```fn f() {}```"), "```fn f() {}```");
}

#[test]
fn strip_fences_unclosed_fence_kept() {
    assert_eq!(strip_fences("```rust\nfn f() {}"), "```rust\nfn f() {}");
}

#[test]
fn strip_fences_two_backticks_not_a_fence() {
    assert_eq!(strip_fences("``x``"), "``x``");
}

#[test]
fn strip_fences_inner_code_trimmed() {
    assert_eq!(strip_fences("```rust\n\n   fn f() {}   \n\n```"), "fn f() {}");
}

#[test]
fn strip_fences_unicode_whitespace_trimmed() {
    assert_eq!(strip_fences("\u{3000}\u{a0}fn f() {}\u{2003}"), "fn f() {}");
}

#[test]
fn contains_outside_string_plain_hit() {
    assert!(contains_outside_string("let x = y.unwrap();", ".unwrap()"));
}

#[test]
fn contains_outside_string_ignores_string_literal() {
    assert!(!contains_outside_string("let s = \"call .unwrap() here\";", ".unwrap()"));
}

#[test]
fn contains_outside_string_after_literal_closes() {
    assert!(contains_outside_string("let s = \"x\"; s.unwrap();", ".unwrap()"));
}

#[test]
fn contains_outside_string_escaped_quote_stays_inside() {
    assert!(!contains_outside_string("let s = \"a\\\" .unwrap() b\";", ".unwrap()"));
}

#[test]
fn contains_outside_string_escape_then_close() {
    assert!(contains_outside_string("\"a\\\\\".unwrap()", ".unwrap()"));
}

#[test]
fn contains_outside_string_absent() {
    assert!(!contains_outside_string("let x = 1;", "panic!("));
}

#[test]
fn contains_outside_string_empty_line() {
    assert!(!contains_outside_string("", ""));
    assert!(contains_outside_string("a", ""));
}

#[test]
fn contains_outside_string_no_quotes_is_substring_search() {
    for (line, pat) in [("abc.expect(x)", ".expect("), ("todo!()", "todo!("), ("ab", "abc")] {
        assert_eq!(contains_outside_string(line, pat), line.contains(pat));
    }
}

#[test]
fn contains_outside_string_char_literal_quote_is_not_a_string() {
    assert!(contains_outside_string(r#"let q = '"'; x.unwrap()"#, ".unwrap()"));
    assert!(contains_outside_string(r#"let q = '\"'; x.unwrap()"#, ".unwrap()"));
    assert!(contains_outside_string(r#"let q = '\''; x.unwrap()"#, ".unwrap()"));
}

#[test]
fn contains_outside_string_char_literal_is_skipped() {
    assert!(!contains_outside_string("let c = 'x';", "x"));
    assert!(contains_outside_string("fn f<'a>(s: &'a str) { s.unwrap() }", ".unwrap()"));
}

#[test]
fn contains_outside_string_append_keeps_hit() {
    let line = "let v = a.unwrap(); \"";
    assert!(contains_outside_string(line, ".unwrap()"));
    for more in ["", "\" tail", "'x'", ".unwrap() \\ \""] {
        assert!(contains_outside_string(&format!("{line}{more}"), ".unwrap()"));
    }
}

#[test]
fn contains_outside_string_pending_char_literal_can_hide_hit() {
    assert!(contains_outside_string("'x", "x"));
    assert!(!contains_outside_string("'x'", "x"));
}

#[test]
fn lint_panics_char_literal_quote_does_not_hide_unwrap() {
    let code = "fn f(x: Option<char>) -> bool {\n    let q = '\"'; x.unwrap() == q\n}";
    assert_eq!(
        lint_panics(code),
        Err("Code contains panic-prone patterns:\n  line 2: .unwrap() — use pattern matching or .unwrap_or() instead".to_string())
    );
}

#[test]
fn lint_panics_accepts_clean_code() {
    assert_eq!(lint_panics("fn f(x: Option<i32>) -> i32 {\n    x.unwrap_or(0)\n}"), Ok(()));
}

#[test]
fn lint_panics_reports_lines() {
    let code = "fn f(x: Option<i32>) -> i32 {\n    x.unwrap()\n}\nfn g() { panic!(\"no\"); todo!() }";
    assert_eq!(
        lint_panics(code),
        Err("Code contains panic-prone patterns:\n  line 2: .unwrap() — use pattern matching or .unwrap_or() instead\n  line 4: panic!() — handle the error gracefully instead\n  line 4: todo!() — provide a real implementation".to_string())
    );
}

#[test]
fn lint_panics_skips_comments_and_strings() {
    let code = "// x.unwrap()\n   /// y.expect(\"z\")\nlet s = \"unimplemented!()\";";
    assert_eq!(lint_panics(code), Ok(()));
}

#[test]
fn lint_panics_all_patterns_in_order() {
    let code = "a.expect(1); b.unwrap(); unimplemented!(); todo!(); panic!();";
    assert_eq!(
        lint_panics(code),
        Err("Code contains panic-prone patterns:\n  line 1: .unwrap() — use pattern matching or .unwrap_or() instead\n  line 1: .expect() — use pattern matching or .unwrap_or() instead\n  line 1: panic!() — handle the error gracefully instead\n  line 1: todo!() — provide a real implementation\n  line 1: unimplemented!() — provide a real implementation".to_string())
    );
}

#[test]
fn lint_panics_crlf_and_line_numbers_above_nine() {
    let mut code = String::new();
    for _ in 0..11 {
        code.push_str("ok();\r\n");
    }
    code.push_str("x.unwrap();\r\n");
    assert_eq!(
        lint_panics(&code),
        Err("Code contains panic-prone patterns:\n  line 12: .unwrap() — use pattern matching or .unwrap_or() instead".to_string())
    );
}

#[test]
fn extract_doctests_single_block() {
    let docs = strings(&[" Adds one.", "", " ```", " assert_eq!(inc(1), 2);", " ```"]);
    assert_eq!(extract_doctests(&docs), Some("assert_eq!(inc(1), 2);".to_string()));
}

#[test]
fn extract_doctests_blocks_joined() {
    let docs = strings(&[" ```rust", " let a = 1;", "  assert!(a == 1);", " ```", " text", " ```rs", "assert!(true);", " ```"]);
    assert_eq!(
        extract_doctests(&docs),
        Some("let a = 1;\n assert!(a == 1);\nassert!(true);".to_string())
    );
}

#[test]
fn extract_doctests_none_without_blocks() {
    let docs = strings(&[" Just prose.", " ```text", " not a test", " ```"]);
    assert_eq!(extract_doctests(&docs), None);
}

#[test]
fn extract_doctests_empty_and_unclosed_blocks() {
    let docs = strings(&[" ```", " ```", " ```", " open();"]);
    assert_eq!(extract_doctests(&docs), None);
}

#[test]
fn doctest_harness_wraps_in_main() {
    assert_eq!(
        doctest_harness("fn f() -> i32 { 1 }", "assert_eq!(f(), 1);"),
        "fn f() -> i32 { 1 }\n\nfn main() {\nassert_eq!(f(), 1);\n}\n"
    );
}

#[test]
fn prettify_source_with_docs() {
    let docs = strings(&[" Adds one.", " More."]);
    assert_eq!(
        prettify_source(&docs, "fn inc (x : i32) -> i32 { todo ! () }"),
        "/// Adds one.\n/// More.\nfn inc (x : i32) -> i32 { todo ! () }"
    );
}

#[test]
fn prettify_source_without_docs() {
    assert_eq!(prettify_source(&Vec::new(), "fn f () { }"), "fn f () { }");
}

#[test]
fn system_prompt_without_deps() {
    assert_eq!(build_system_prompt(""), SYSTEM_PROMPT);
    assert!(SYSTEM_PROMPT.starts_with("You are a Rust expert code generator. You receive a Rust function with doc comments"));
    assert!(SYSTEM_PROMPT.ends_with("the function MUST pass them. Make no Mistakes."));
}

#[test]
fn system_prompt_with_deps() {
    assert_eq!(
        build_system_prompt("serde, syn"),
        format!("{SYSTEM_PROMPT}\n\nThe crate has these dependencies available:\nserde, syn")
    );
}

#[test]
fn user_prompt_all_parts() {
    assert_eq!(
        build_user_prompt("fn f() {}", Some("struct A;"), "struct B;", Some("be quick")),
        "Implement this Rust function. The doc comments and body are context hints:\n\nfn f() {}\n\nThe following type definitions are used in the signature:\n\nstruct B;\n\nHere are additional type definitions and context from the project:\n\nstruct A;\n\nHint: be quick"
    );
}

#[test]
fn user_prompt_minimal() {
    assert_eq!(
        build_user_prompt("fn f() {}", Some(""), "", None),
        "Implement this Rust function. The doc comments and body are context hints:\n\nfn f() {}"
    );
}
