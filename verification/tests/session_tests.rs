use slopc::session::{is_function_source, Outcome, Phase, Retry, Role, Session, Step};

fn new_session(retries: usize, run_doctests: bool, doctests: Option<&str>, type_context: &str) -> Session {
    Session::new(
        retries,
        run_doctests,
        doctests.map(|s| s.to_string()),
        type_context.to_string(),
        "sys".to_string(),
        "user".to_string(),
    )
}

fn contents(s: &Session) -> Vec<(Role, String)> {
    s.messages().iter().map(|m| (m.role, m.content.clone())).collect()
}

#[test]
fn function_source_recognised() {
    assert!(is_function_source("fn f() -> i32 { 1 }"));
    assert!(!is_function_source("fn f( {"));
    assert!(!is_function_source("struct A;"));
}

#[test]
fn session_accepts_clean_reply() {
    let s = new_session(3, false, None, "");
    assert_eq!(s.phase(), Phase::Idle);
    assert_eq!(contents(&s), vec![(Role::System, "sys".to_string()), (Role::User, "user".to_string())]);
    let (s, step) = s.start();
    assert!(matches!(step, Step::CallModel));
    assert_eq!(s.attempt(), 1);
    let (s, step, retry) = s.on_reply("```rust\nfn f() -> i32 { 1 }\n```".to_string());
    assert!(retry.is_none());
    assert!(matches!(step, Step::Compile(ref c) if c == "fn f() -> i32 { 1 }"));
    let (s, step, retry) = s.on_compile_result(None);
    assert!(retry.is_none());
    assert!(matches!(step, Step::Finish(Outcome::Generated(ref c)) if c == "fn f() -> i32 { 1 }"));
    assert_eq!(s.phase(), Phase::Done);
}

#[test]
fn session_syntax_error_is_fed_back() {
    let (s, _) = new_session(2, false, None, "").start();
    let (s, step, retry) = s.on_reply("fn broken( {".to_string());
    assert_eq!(retry, Some(Retry::Syntax));
    assert!(matches!(step, Step::CallModel));
    assert_eq!(s.attempt(), 2);
    let msgs = contents(&s);
    assert_eq!(msgs.len(), 4);
    assert_eq!(msgs[2], (Role::Assistant, "fn broken( {".to_string()));
    assert_eq!(msgs[3].0, Role::User);
    assert!(msgs[3].1.starts_with("Syntax error:\n\n"));
    assert!(msgs[3].1.ends_with("\n\nFix the function. Return ONLY the complete corrected function."));
    // Out of attempts: the stub is kept.
    let (s, step, retry) = s.on_reply("still not rust".to_string());
    assert_eq!(retry, Some(Retry::Syntax));
    assert!(matches!(step, Step::Finish(Outcome::KeepStub)));
    assert_eq!(s.phase(), Phase::Done);
    assert_eq!(s.messages().len(), 6);
}

#[test]
fn session_lint_failure_then_fallback() {
    let (s, _) = new_session(1, false, None, "").start();
    let (s, step, retry) = s.on_reply("fn f(x: Option<i32>) -> i32 { x.unwrap() }".to_string());
    assert_eq!(retry, Some(Retry::Lint));
    assert!(matches!(step, Step::Finish(Outcome::LastParseable(ref c)) if c == "fn f(x: Option<i32>) -> i32 { x.unwrap() }"));
    let msgs = contents(&s);
    assert_eq!(
        msgs[3].1,
        "Code contains panic-prone patterns:\n  line 1: .unwrap() — use pattern matching or .unwrap_or() instead\n\nNEVER use .unwrap(), .expect(), or panic!(). Use pattern matching, .unwrap_or(), or .unwrap_or_default() instead.\n\nFix the function. Return ONLY the complete corrected function."
    );
}

#[test]
fn session_compile_errors_with_type_context() {
    let (s, _) = new_session(2, false, None, "struct P;").start();
    let (s, step, _) = s.on_reply("fn f() -> P { P }".to_string());
    assert!(matches!(step, Step::Compile(ref c) if c == "struct P;\n\nfn f() -> P { P }"));
    let (s, step, retry) = s.on_compile_result(Some("error[E0412]".to_string()));
    assert_eq!(retry, Some(Retry::Compile));
    assert!(matches!(step, Step::CallModel));
    assert_eq!(
        contents(&s)[3].1,
        "The code has compile errors:\n\nerror[E0412]\n\nRemember: these types are already in scope (use them directly, no module paths):\n\nstruct P;\n\nFix the function. Return ONLY the complete corrected function."
    );
}

#[test]
fn session_compile_errors_without_type_context() {
    let (s, _) = new_session(1, false, None, "").start();
    let (s, _, _) = s.on_reply("fn f() -> i32 { \"x\" }".to_string());
    let (s, step, _) = s.on_compile_result(Some("mismatched types".to_string()));
    assert!(matches!(step, Step::Finish(Outcome::LastParseable(_))));
    assert_eq!(
        contents(&s)[3].1,
        "The code has compile errors:\n\nmismatched types\n\nFix the function. Return ONLY the complete corrected function."
    );
}

#[test]
fn session_runs_doctests_when_enabled() {
    let (s, _) = new_session(2, true, Some("assert_eq!(f(), 1);"), "").start();
    let (s, _, _) = s.on_reply("fn f() -> i32 { 2 }".to_string());
    let (s, step, _) = s.on_compile_result(None);
    assert!(matches!(step, Step::RunDoctests(ref c, ref t) if c == "fn f() -> i32 { 2 }" && t == "assert_eq!(f(), 1);"));
    let (s, step, retry) = s.on_doctest_result(Some("assertion failed".to_string()));
    assert_eq!(retry, Some(Retry::Doctests));
    assert!(matches!(step, Step::CallModel));
    assert_eq!(
        contents(&s)[3].1,
        "The code compiles but fails at runtime. The following doctests failed:\n\n```\nassert_eq!(f(), 1);\n```\n\nRuntime error:\n\nassertion failed\n\nFix the function so it passes these tests. Return ONLY the complete corrected function."
    );
    let (s, _, _) = s.on_reply("fn f() -> i32 { 1 }".to_string());
    let (s, _, _) = s.on_compile_result(None);
    let (s, step, retry) = s.on_doctest_result(None);
    assert!(retry.is_none());
    assert!(matches!(step, Step::Finish(Outcome::Generated(ref c)) if c == "fn f() -> i32 { 1 }"));
    assert_eq!(s.phase(), Phase::Done);
}

#[test]
fn session_skips_doctests_when_disabled_or_absent() {
    let (s, _) = new_session(2, false, Some("assert!(true);"), "").start();
    let (s, _, _) = s.on_reply("fn f() {}".to_string());
    let (_, step, _) = s.on_compile_result(None);
    assert!(matches!(step, Step::Finish(Outcome::Generated(_))));
    let (s, _) = new_session(2, true, None, "").start();
    let (s, _, _) = s.on_reply("fn f() {}".to_string());
    let (_, step, _) = s.on_compile_result(None);
    assert!(matches!(step, Step::Finish(Outcome::Generated(_))));
}

#[test]
fn session_zero_retries_keeps_stub() {
    let (s, step) = new_session(0, false, None, "").start();
    assert!(matches!(step, Step::Finish(Outcome::KeepStub)));
    assert_eq!(s.attempt(), 0);
}

#[test]
fn session_model_failure_ends() {
    let (s, _) = new_session(3, false, None, "").start();
    let (s, _, _) = s.on_reply("fn f() { x.unwrap() }".to_string());
    let (s, step) = s.reply_failed();
    assert!(matches!(step, Step::Finish(Outcome::LastParseable(ref c)) if c == "fn f() { x.unwrap() }"));
    assert_eq!(s.phase(), Phase::Done);
}

#[test]
fn session_after_parse_with_given_error() {
    let (s, _) = new_session(2, false, None, "").start();
    let (s, step, retry) = s.after_parse("raw".to_string(), "raw".to_string(), Some("expected `fn`".to_string()));
    assert_eq!(retry, Some(Retry::Syntax));
    assert!(matches!(step, Step::CallModel));
    assert_eq!(
        contents(&s)[3].1,
        "Syntax error:\n\nexpected `fn`\n\nFix the function. Return ONLY the complete corrected function."
    );
}

#[test]
fn session_attempts_never_exceed_allowance() {
    let (mut s, mut step) = new_session(4, false, None, "").start();
    let mut calls = 0;
    while matches!(step, Step::CallModel) {
        calls += 1;
        assert!(s.attempt() <= s.retries());
        let (n, st, _) = s.on_reply("nope".to_string());
        s = n;
        step = st;
    }
    assert_eq!(calls, 4);
}
