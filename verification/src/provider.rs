//! Provider identities and their rate-limit configuration.

use vstd::prelude::*;
use vstd::string::StringExecFns;

verus! {

/// A backend that can execute or decompose work.
#[derive(Clone, Copy, Debug, PartialEq, Eq, Structural)]
pub enum Provider {
    Nova,
    Codex,
    Gemini,
    DeepSeek,
    Ollama,
}

impl Provider {
    /// All remote providers (excludes the local Ollama backend).
    pub fn remote() -> (r: Vec<Provider>)
        ensures
            r@ == seq![Provider::Nova, Provider::Codex, Provider::Gemini, Provider::DeepSeek],
    {
        let mut v: Vec<Provider> = Vec::new();
        v.push(Provider::Nova);
        v.push(Provider::Codex);
        v.push(Provider::Gemini);
        v.push(Provider::DeepSeek);
        proof {
            assert(v@ =~= seq![
                Provider::Nova,
                Provider::Codex,
                Provider::Gemini,
                Provider::DeepSeek,
            ]);
        }
        v
    }

    /// The providers that execute beads.
    pub fn execution() -> (r: Vec<Provider>)
        ensures
            r@ == seq![Provider::Nova, Provider::Codex, Provider::Gemini],
    {
        let mut v: Vec<Provider> = Vec::new();
        v.push(Provider::Nova);
        v.push(Provider::Codex);
        v.push(Provider::Gemini);
        proof {
            assert(v@ =~= seq![Provider::Nova, Provider::Codex, Provider::Gemini]);
        }
        v
    }

    /// The providers used for decomposition and optimization.
    pub fn assayer() -> (r: Vec<Provider>)
        ensures
            r@ == seq![Provider::DeepSeek, Provider::Ollama],
    {
        let mut v: Vec<Provider> = Vec::new();
        v.push(Provider::DeepSeek);
        v.push(Provider::Ollama);
        proof {
            assert(v@ =~= seq![Provider::DeepSeek, Provider::Ollama]);
        }
        v
    }

    /// The human-readable name, as a spec-level sequence of characters.
    pub open spec fn spec_display_name(self) -> Seq<char> {
        match self {
            Provider::Nova => "Nova"@,
            Provider::Codex => "Codex"@,
            Provider::Gemini => "Gemini"@,
            Provider::DeepSeek => "DeepSeek"@,
            Provider::Ollama => "Ollama"@,
        }
    }

    /// Human-readable display name.
    pub fn display_name(&self) -> (r: &'static str)
        ensures
            r@ == self.spec_display_name(),
    {
        match self {
            Provider::Nova => "Nova",
            Provider::Codex => "Codex",
            Provider::Gemini => "Gemini",
            Provider::DeepSeek => "DeepSeek",
            Provider::Ollama => "Ollama",
        }
    }

    /// The default model served by this provider, as a spec-level sequence.
    pub open spec fn spec_default_model(self) -> Seq<char> {
        match self {
            Provider::Nova => "nova-4-20250514"@,
            Provider::Codex => "codex"@,
            Provider::Gemini => "gemini-2.5-pro"@,
            Provider::DeepSeek => "deepseek-chat"@,
            Provider::Ollama => "deepseek-r1:7b"@,
        }
    }

    /// Default model for this provider.
    pub fn default_model(&self) -> (r: &'static str)
        ensures
            r@ == self.spec_default_model(),
    {
        match self {
            Provider::Nova => "nova-4-20250514",
            Provider::Codex => "codex",
            Provider::Gemini => "gemini-2.5-pro",
            Provider::DeepSeek => "deepseek-chat",
            Provider::Ollama => "deepseek-r1:7b",
        }
    }
}

/// Rate limits configured for a provider. Thresholds elsewhere are given in
/// thousandths of remaining capacity, so the same numbers apply to providers
/// of very different absolute capacity.
#[derive(Clone, Debug)]
pub struct ProviderLimits {
    /// Maximum tokens per window.
    pub tokens_per_window: u64,
    /// Window duration in hours.
    pub window_hours: u32,
    /// Requests per minute limit, if any.
    pub requests_per_minute: Option<u32>,
    /// Weekly token cap, if any.
    pub weekly_cap: Option<u64>,
    /// Daily token cap, if any.
    pub daily_cap: Option<u64>,
}

/// Full configuration for one provider. The health thresholds are ratios of
/// remaining capacity, in thousandths (500 means one half).
#[derive(Clone, Debug)]
pub struct ProviderConfig {
    pub provider: Provider,
    pub enabled: bool,
    pub model: String,
    pub limits: ProviderLimits,
    pub threshold_yellow: u32,
    pub threshold_red: u32,
    pub fallback_model: Option<String>,
    pub api_key_env: Option<String>,
}

impl ProviderConfig {
    /// Default configuration for Nova.
    pub fn nova_default() -> (r: Self)
        ensures
            r.provider == Provider::Nova,
            r.enabled,
            r.model@ == "nova-4-20250514"@,
            r.limits.tokens_per_window == 88000,
            r.limits.window_hours == 5,
            r.limits.requests_per_minute is None,
            r.limits.weekly_cap == Some(500000u64),
            r.limits.daily_cap is None,
            r.threshold_yellow == 500,
            r.threshold_red == 200,
            r.fallback_model matches Some(m) && m@ == "nova-lite-4-20250514"@,
            r.api_key_env is None,
    {
        ProviderConfig {
            provider: Provider::Nova,
            enabled: true,
            model: String::from_str("nova-4-20250514"),
            limits: ProviderLimits {
                tokens_per_window: 88000,
                window_hours: 5,
                requests_per_minute: None,
                weekly_cap: Some(500000),
                daily_cap: None,
            },
            threshold_yellow: 500,
            threshold_red: 200,
            fallback_model: Some(String::from_str("nova-lite-4-20250514")),
            api_key_env: None,
        }
    }

    /// Default configuration for Codex.
    pub fn codex_default() -> (r: Self)
        ensures
            r.provider == Provider::Codex,
            r.enabled,
            r.model@ == "codex"@,
            r.limits.tokens_per_window == 50000,
            r.limits.window_hours == 5,
            r.limits.requests_per_minute == Some(60u32),
            r.limits.weekly_cap is None,
            r.limits.daily_cap is None,
            r.threshold_yellow == 400,
            r.threshold_red == 150,
            r.fallback_model is None,
            r.api_key_env is None,
    {
        ProviderConfig {
            provider: Provider::Codex,
            enabled: true,
            model: String::from_str("codex"),
            limits: ProviderLimits {
                tokens_per_window: 50000,
                window_hours: 5,
                requests_per_minute: Some(60),
                weekly_cap: None,
                daily_cap: None,
            },
            threshold_yellow: 400,
            threshold_red: 150,
            fallback_model: None,
            api_key_env: None,
        }
    }

    /// Default configuration for Gemini.
    pub fn gemini_default() -> (r: Self)
        ensures
            r.provider == Provider::Gemini,
            r.enabled,
            r.model@ == "gemini-2.5-pro"@,
            r.limits.tokens_per_window == 1000000,
            r.limits.window_hours == 24,
            r.limits.requests_per_minute == Some(15u32),
            r.limits.weekly_cap is None,
            r.limits.daily_cap == Some(1000000u64),
            r.threshold_yellow == 300,
            r.threshold_red == 100,
            r.fallback_model matches Some(m) && m@ == "gemini-2.5-flash"@,
            r.api_key_env matches Some(k) && k@ == "GEMINI_API_KEY"@,
    {
        ProviderConfig {
            provider: Provider::Gemini,
            enabled: true,
            model: String::from_str("gemini-2.5-pro"),
            limits: ProviderLimits {
                tokens_per_window: 1000000,
                window_hours: 24,
                requests_per_minute: Some(15),
                weekly_cap: None,
                daily_cap: Some(1000000),
            },
            threshold_yellow: 300,
            threshold_red: 100,
            fallback_model: Some(String::from_str("gemini-2.5-flash")),
            api_key_env: Some(String::from_str("GEMINI_API_KEY")),
        }
    }

    /// Default configuration for DeepSeek.
    pub fn deepseek_default() -> (r: Self)
        ensures
            r.provider == Provider::DeepSeek,
            r.enabled,
            r.model@ == "deepseek-chat"@,
            r.limits.tokens_per_window == 10000000,
            r.limits.window_hours == 24,
            r.limits.requests_per_minute == Some(60u32),
            r.limits.weekly_cap is None,
            r.limits.daily_cap is None,
            r.threshold_yellow == 300,
            r.threshold_red == 100,
            r.fallback_model matches Some(m) && m@ == "deepseek-coder"@,
            r.api_key_env matches Some(k) && k@ == "DEEPSEEK_API_KEY"@,
    {
        ProviderConfig {
            provider: Provider::DeepSeek,
            enabled: true,
            model: String::from_str("deepseek-chat"),
            limits: ProviderLimits {
                tokens_per_window: 10000000,
                window_hours: 24,
                requests_per_minute: Some(60),
                weekly_cap: None,
                daily_cap: None,
            },
            threshold_yellow: 300,
            threshold_red: 100,
            fallback_model: Some(String::from_str("deepseek-coder")),
            api_key_env: Some(String::from_str("DEEPSEEK_API_KEY")),
        }
    }

    /// Default configuration for the local Ollama backend.
    pub fn ollama_default() -> (r: Self)
        ensures
            r.provider == Provider::Ollama,
            r.enabled,
            r.model@ == "deepseek-r1:7b"@,
            r.limits.tokens_per_window == u64::MAX,
            r.limits.window_hours == 24,
            r.limits.requests_per_minute is None,
            r.limits.weekly_cap is None,
            r.limits.daily_cap is None,
            r.threshold_yellow == 0,
            r.threshold_red == 0,
            r.fallback_model matches Some(m) && m@ == "llama3.2:3b"@,
            r.api_key_env is None,
    {
        ProviderConfig {
            provider: Provider::Ollama,
            enabled: true,
            model: String::from_str("deepseek-r1:7b"),
            limits: ProviderLimits {
                tokens_per_window: u64::MAX,
                window_hours: 24,
                requests_per_minute: None,
                weekly_cap: None,
                daily_cap: None,
            },
            threshold_yellow: 0,
            threshold_red: 0,
            fallback_model: Some(String::from_str("llama3.2:3b")),
            api_key_env: None,
        }
    }
}

} // verus!
