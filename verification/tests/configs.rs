use rigs::config::Config;
use rigs::provider::{Provider, ProviderConfig};

#[test]
fn test_default_config() {
    let config = Config::default();
    assert_eq!(config.general.workspace, "~/.rigs");
    assert_eq!(config.general.log_level, "info");
    assert!(config.providers.nova.enabled);
    assert_eq!(config.routing.strategy, "balanced");
}

#[test]
fn test_default_configs() {
    let nova = ProviderConfig::nova_default();
    assert!(nova.enabled);
    assert_eq!(nova.limits.window_hours, 5);

    let deepseek = ProviderConfig::deepseek_default();
    assert!(deepseek.api_key_env.is_some());
}

#[test]
fn test_provider_defaults_details() {
    let nova = ProviderConfig::nova_default();
    assert_eq!(nova.limits.tokens_per_window, 88_000);
    assert_eq!(nova.threshold_yellow, 500);
    assert_eq!(nova.threshold_red, 200);
    assert_eq!(nova.fallback_model.as_deref(), Some("nova-lite-4-20250514"));

    let codex = ProviderConfig::codex_default();
    assert_eq!(codex.limits.tokens_per_window, 50_000);
    assert_eq!(codex.limits.requests_per_minute, Some(60));

    let gemini = ProviderConfig::gemini_default();
    assert_eq!(gemini.limits.window_hours, 24);
    assert_eq!(gemini.api_key_env.as_deref(), Some("GEMINI_API_KEY"));

    let ollama = ProviderConfig::ollama_default();
    assert_eq!(ollama.limits.tokens_per_window, u64::MAX);
    assert!(ollama.api_key_env.is_none());
}

#[test]
fn test_foreman_defaults() {
    let config = Config::default();
    assert_eq!(config.foreman.poll_interval, 5);
    assert_eq!(config.foreman.max_concurrent, 1);
    assert!(!config.foreman.auto_start);
    assert_eq!(config.database.path, "~/.rigs/db/rigs.db");
    assert!(config.database.wal_mode);
}

#[test]
fn test_provider_queries() {
    let mut config = Config::default();
    assert!(config.is_provider_enabled(Provider::Nova));
    config.providers.nova.enabled = false;
    assert!(!config.is_provider_enabled(Provider::Nova));
    config.providers.gemini.model = "gemini-2.5-pro".to_string();
    assert_eq!(config.get_model(Provider::Gemini), "gemini-2.5-pro");
}

#[test]
fn test_provider_display() {
    assert_eq!(Provider::Nova.display_name(), "Nova");
    assert_eq!(Provider::DeepSeek.display_name(), "DeepSeek");
}

#[test]
fn test_provider_groups() {
    let execution = Provider::execution();
    assert_eq!(execution, vec![Provider::Nova, Provider::Codex, Provider::Gemini]);
    let assayer = Provider::assayer();
    assert_eq!(assayer, vec![Provider::DeepSeek, Provider::Ollama]);
    let remote = Provider::remote();
    assert_eq!(remote.len(), 4);
    assert!(!remote.contains(&Provider::Ollama));
}
