//! Configuration: the defaults, the attribute arguments, and how they merge.

use vstd::prelude::*;

verus! {

/// Configuration from the defaults, `slop.toml` and `SLOP_*` variables.
pub struct SlopConfig {
    pub model: String,
    pub retries: usize,
    pub provider: String,
    pub api_key_env: String,
    pub run_doctests: bool,
}

impl Default for SlopConfig {
    fn default() -> (res: Self)
        ensures
            res.model@ == "gpt-4o-mini"@,
            res.retries == 5,
            res.provider@ == "https://openrouter.ai/api/v1/chat/completions"@,
            res.api_key_env@ == "OPEN_ROUTER_API_KEY"@,
            !res.run_doctests,
    {
        SlopConfig {
            model: String::from_str("gpt-4o-mini"),
            retries: 5,
            provider: String::from_str("https://openrouter.ai/api/v1/chat/completions"),
            api_key_env: String::from_str("OPEN_ROUTER_API_KEY"),
            run_doctests: false,
        }
    }
}

/// The arguments of the attribute; each one given overrides the
/// configuration.
pub struct SlopArgs {
    pub model: Option<String>,
    pub retries: Option<usize>,
    pub provider: Option<String>,
    pub api_key_env: Option<String>,
    pub nocache: bool,
    pub run_doctests: Option<bool>,
    pub dump: Option<String>,
    pub context_file: Option<String>,
    pub hint: Option<String>,
}

/// The settings in force: each attribute argument given, else the
/// configuration's value.
pub struct ResolvedConfig {
    pub model: String,
    pub retries: usize,
    pub provider: String,
    pub api_key_env: String,
    pub run_doctests: bool,
}

/// The text of `arg` when given, else `fallback`.
pub open spec fn or_text(arg: Option<String>, fallback: Seq<char>) -> Seq<char> {
    match arg {
        Some(s) => s@,
        None => fallback,
    }
}

fn pick_text(arg: &Option<String>, fallback: String) -> (res: String)
    ensures
        res@ == or_text(*arg, fallback@),
{
    match arg {
        Some(s) => s.clone(),
        None => fallback,
    }
}

impl ResolvedConfig {
    /// Merges attribute arguments on top of the configuration.
    pub fn from(cfg: SlopConfig, args: &SlopArgs) -> (res: Self)
        ensures
            res.model@ == or_text(args.model, cfg.model@),
            res.retries == match args.retries {
                Some(r) => r,
                None => cfg.retries,
            },
            res.provider@ == or_text(args.provider, cfg.provider@),
            res.api_key_env@ == or_text(args.api_key_env, cfg.api_key_env@),
            res.run_doctests == match args.run_doctests {
                Some(b) => b,
                None => cfg.run_doctests,
            },
    {
        ResolvedConfig {
            model: pick_text(&args.model, cfg.model),
            retries: match args.retries {
                Some(r) => r,
                None => cfg.retries,
            },
            provider: pick_text(&args.provider, cfg.provider),
            api_key_env: pick_text(&args.api_key_env, cfg.api_key_env),
            run_doctests: match args.run_doctests {
                Some(b) => b,
                None => cfg.run_doctests,
            },
        }
    }
}

/// The API key read from the environment is used only when it is set and
/// not empty.
pub fn usable_api_key(value: Option<String>) -> (res: Option<String>)
    ensures
        match value {
            Some(k) => if k@.len() > 0 {
                res == Some(k)
            } else {
                res is None
            },
            None => res is None,
        },
{
    match value {
        Some(k) => if !k.as_str().is_empty() {
            Some(k)
        } else {
            None
        },
        None => None,
    }
}

} // verus!
