use std::hash::{Hash, Hasher};

use slopc::cache::{cache_contents, cache_file_name, cache_tag, check_cache, compute_cache_key, CacheUse};
use slopc::config::{usable_api_key, ResolvedConfig, SlopArgs, SlopConfig};

fn no_args() -> SlopArgs {
    SlopArgs {
        model: None,
        retries: None,
        provider: None,
        api_key_env: None,
        nocache: false,
        run_doctests: None,
        dump: None,
        context_file: None,
        hint: None,
    }
}

#[test]
fn default_config_values() {
    let c = SlopConfig::default();
    assert_eq!(c.model, "gpt-4o-mini");
    assert_eq!(c.retries, 5);
    assert_eq!(c.provider, "https://openrouter.ai/api/v1/chat/completions");
    assert_eq!(c.api_key_env, "OPEN_ROUTER_API_KEY");
    assert!(!c.run_doctests);
}

#[test]
fn resolved_config_keeps_config_without_args() {
    let rc = ResolvedConfig::from(SlopConfig::default(), &no_args());
    assert_eq!(rc.model, "gpt-4o-mini");
    assert_eq!(rc.retries, 5);
    assert_eq!(rc.provider, "https://openrouter.ai/api/v1/chat/completions");
    assert_eq!(rc.api_key_env, "OPEN_ROUTER_API_KEY");
    assert!(!rc.run_doctests);
}

#[test]
fn resolved_config_args_override() {
    let mut args = no_args();
    args.model = Some("z-ai/glm-5v-turbo".to_string());
    args.retries = Some(2);
    args.provider = Some("https://api.mistral.ai/v1/chat/completions".to_string());
    args.api_key_env = Some("MISTRAL_API_KEY".to_string());
    args.run_doctests = Some(true);
    let rc = ResolvedConfig::from(SlopConfig::default(), &args);
    assert_eq!(rc.model, "z-ai/glm-5v-turbo");
    assert_eq!(rc.retries, 2);
    assert_eq!(rc.provider, "https://api.mistral.ai/v1/chat/completions");
    assert_eq!(rc.api_key_env, "MISTRAL_API_KEY");
    assert!(rc.run_doctests);
}

#[test]
fn api_key_must_be_non_empty() {
    assert_eq!(usable_api_key(Some("k-123".to_string())), Some("k-123".to_string()));
    assert_eq!(usable_api_key(Some(String::new())), None);
    assert_eq!(usable_api_key(None), None);
}

fn std_key(source: &str, model: &str, provider: &str) -> u64 {
    let mut h = std::collections::hash_map::DefaultHasher::new();
    source.hash(&mut h);
    model.hash(&mut h);
    provider.hash(&mut h);
    h.finish()
}

#[test]
fn cache_key_matches_std_string_hashing() {
    for (s, m, p) in [("fn f() {}", "gpt-4o-mini", "https://x"), ("", "", ""), ("ü", "m", "p")] {
        assert_eq!(compute_cache_key(s, m, p), std_key(s, m, p));
    }
}

#[test]
fn cache_key_depends_on_each_input() {
    let k = compute_cache_key("fn f() {}", "a", "b");
    assert_eq!(k, compute_cache_key("fn f() {}", "a", "b"));
    assert_ne!(k, compute_cache_key("fn f() {}", "ab", ""));
    assert_ne!(k, compute_cache_key("fn g() {}", "a", "b"));
}

#[test]
fn cache_tag_is_zero_padded_hex() {
    assert_eq!(cache_tag("eval_expr", 0x1234abcd), "eval_expr_000000001234abcd");
    assert_eq!(cache_tag("f", u64::MAX), "f_ffffffffffffffff");
    assert_eq!(cache_tag("f", 0), "f_0000000000000000");
    let k = 0x0123_4567_89ab_cdefu64;
    assert_eq!(cache_tag("g", k), format!("g_{k:016x}"));
}

#[test]
fn cache_file_name_adds_extension() {
    assert_eq!(cache_file_name("f_0000000000000001"), "f_0000000000000001.rs");
}

#[test]
fn cache_contents_layout() {
    assert_eq!(
        cache_contents("fn f() {}", "line one\nline two", "user\r\nprompt\n"),
        "// ── system prompt ──\n// line one\n// line two\n//\n// ── user prompt ──\n// user\n// prompt\n//\n// ── generated ──\n\nfn f() {}\n"
    );
}

#[test]
fn cache_contents_empty_prompts() {
    assert_eq!(
        cache_contents("x", "", ""),
        "// ── system prompt ──\n//\n// ── user prompt ──\n//\n// ── generated ──\n\nx\n"
    );
}

#[test]
fn cache_use_decisions() {
    assert_eq!(check_cache(false, Some("fn f() -> i32 { 1 }")), CacheUse::Hit);
    assert_eq!(check_cache(false, Some("// header\n\nfn f() {}\n")), CacheUse::Hit);
    assert_eq!(check_cache(false, Some("garbage {")), CacheUse::Corrupt);
    assert_eq!(check_cache(false, None), CacheUse::Miss);
    assert_eq!(check_cache(true, Some("fn f() {}")), CacheUse::Miss);
}

#[test]
fn cache_file_round_trips_through_cache_check() {
    let text = cache_contents("fn f() -> u8 { 7 }", "sys\nprompt", "user");
    assert_eq!(check_cache(false, Some(&text)), CacheUse::Hit);
}
