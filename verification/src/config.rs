//! The configuration data model and its defaults. Loading the file and
//! expanding filesystem paths are left to the surrounding program; the
//! values and their defaults live here. Ratio thresholds are given in
//! thousandths of remaining capacity.

use vstd::prelude::*;
use vstd::string::StringExecFns;

use crate::provider::Provider;

verus! {

/// The default workspace directory.
pub fn default_workspace() -> (r: String)
    ensures
        r@ == "~/.rigs"@,
{
    String::from_str("~/.rigs")
}

/// The default log level.
pub fn default_log_level() -> (r: String)
    ensures
        r@ == "info"@,
{
    String::from_str("info")
}

/// The default for boolean settings that start enabled.
pub fn default_true() -> (r: bool)
    ensures
        r,
{
    true
}

/// The default base URL of the local Ollama backend.
pub fn default_ollama_url() -> (r: String)
    ensures
        r@ == "http://localhost:11434"@,
{
    String::from_str("http://localhost:11434")
}

/// The default local model.
pub fn default_ollama_model() -> (r: String)
    ensures
        r@ == "deepseek-r1:7b"@,
{
    String::from_str("deepseek-r1:7b")
}

/// The default model for goal planning.
pub fn default_planner_model() -> (r: String)
    ensures
        r@ == "deepseek-r1:7b"@,
{
    String::from_str("deepseek-r1:7b")
}

/// The default model for prompt optimization.
pub fn default_optimizer_model() -> (r: String)
    ensures
        r@ == "qwen3:8b"@,
{
    String::from_str("qwen3:8b")
}

/// The default model for token estimation.
pub fn default_estimator_model() -> (r: String)
    ensures
        r@ == "llama3.2:3b"@,
{
    String::from_str("llama3.2:3b")
}

/// The default model for the quality gate.
pub fn default_quality_model() -> (r: String)
    ensures
        r@ == "llama3.2:3b"@,
{
    String::from_str("llama3.2:3b")
}

/// The default routing strategy.
pub fn default_strategy() -> (r: String)
    ensures
        r@ == "balanced"@,
{
    String::from_str("balanced")
}

/// The default poll interval of the scheduler loop, in seconds.
pub fn default_poll_interval() -> (r: u64)
    ensures
        r == 5,
{
    5
}

/// The default bound on concurrently executing beads.
pub fn default_max_concurrent() -> (r: u32)
    ensures
        r == 1,
{
    1
}

/// The default database path.
pub fn default_db_path() -> (r: String)
    ensures
        r@ == "~/.rigs/db/rigs.db"@,
{
    String::from_str("~/.rigs/db/rigs.db")
}

/// The default yellow health threshold, in thousandths.
pub fn default_threshold_yellow() -> (r: u32)
    ensures
        r == 500,
{
    500
}

/// The default red health threshold, in thousandths.
pub fn default_threshold_red() -> (r: u32)
    ensures
        r == 200,
{
    200
}

/// General settings.
#[derive(Clone, Debug)]
pub struct GeneralConfig {
    pub workspace: String,
    pub log_level: String,
}

impl Default for GeneralConfig {
    /// The default general settings.
    fn default() -> (r: Self)
        ensures
            r.workspace@ == "~/.rigs"@,
            r.log_level@ == "info"@,
    {
        GeneralConfig { workspace: default_workspace(), log_level: default_log_level() }
    }
}

/// Settings for one remote provider.
#[derive(Clone, Debug)]
pub struct ProviderEntry {
    pub enabled: bool,
    pub model: String,
    pub threshold_yellow: u32,
    pub threshold_red: u32,
    pub fallback_model: Option<String>,
    pub api_key_env: Option<String>,
}

impl Default for ProviderEntry {
    /// The default provider entry: enabled, with the standard thresholds.
    fn default() -> (r: Self)
        ensures
            r.enabled,
            r.model@.len() == 0,
            r.threshold_yellow == 500,
            r.threshold_red == 200,
            r.fallback_model is None,
            r.api_key_env is None,
    {
        ProviderEntry {
            enabled: true,
            model: String::new(),
            threshold_yellow: default_threshold_yellow(),
            threshold_red: default_threshold_red(),
            fallback_model: None,
            api_key_env: None,
        }
    }
}

/// Settings for the local Ollama backend.
#[derive(Clone, Debug)]
pub struct OllamaEntry {
    pub enabled: bool,
    pub base_url: String,
    pub model: String,
    pub fallback_model: Option<String>,
}

impl Default for OllamaEntry {
    /// The default local-backend entry.
    fn default() -> (r: Self)
        ensures
            r.enabled,
            r.base_url@ == "http://localhost:11434"@,
            r.model@ == "deepseek-r1:7b"@,
            r.fallback_model matches Some(m) && m@ == "llama3.2:3b"@,
    {
        OllamaEntry {
            enabled: true,
            base_url: default_ollama_url(),
            model: default_ollama_model(),
            fallback_model: Some(String::from_str("llama3.2:3b")),
        }
    }
}

/// Settings for all providers.
#[derive(Clone, Debug)]
pub struct ProvidersConfig {
    pub nova: ProviderEntry,
    pub codex: ProviderEntry,
    pub gemini: ProviderEntry,
    pub deepseek: ProviderEntry,
    pub ollama: OllamaEntry,
}

impl Default for ProvidersConfig {
    /// Every provider defaults to its standard entry.
    fn default() -> (r: Self)
        ensures
            r.nova.enabled,
            r.codex.enabled,
            r.gemini.enabled,
            r.deepseek.enabled,
            r.ollama.enabled,
    {
        ProvidersConfig {
            nova: ProviderEntry::default(),
            codex: ProviderEntry::default(),
            gemini: ProviderEntry::default(),
            deepseek: ProviderEntry::default(),
            ollama: OllamaEntry::default(),
        }
    }
}

/// Settings for the decomposition and optimization backends.
#[derive(Clone, Debug)]
pub struct AssayerConfig {
    pub use_ollama: bool,
    pub planner_model: String,
    pub optimizer_model: String,
    pub estimator_model: String,
    pub quality_model: String,
    pub fallback_to_api: bool,
}

impl Default for AssayerConfig {
    /// The default decomposition settings.
    fn default() -> (r: Self)
        ensures
            r.use_ollama,
            r.planner_model@ == "deepseek-r1:7b"@,
            r.optimizer_model@ == "qwen3:8b"@,
            r.estimator_model@ == "llama3.2:3b"@,
            r.quality_model@ == "llama3.2:3b"@,
            r.fallback_to_api,
    {
        AssayerConfig {
            use_ollama: true,
            planner_model: default_planner_model(),
            optimizer_model: default_optimizer_model(),
            estimator_model: default_estimator_model(),
            quality_model: default_quality_model(),
            fallback_to_api: true,
        }
    }
}

/// Settings for routing beads to providers. The affinity table maps a
/// task-type name to provider weights in thousandths.
#[derive(Clone, Debug)]
pub struct RoutingConfig {
    pub strategy: String,
    pub affinity: Vec<(String, Vec<(String, u32)>)>,
}

impl Default for RoutingConfig {
    /// The default routing settings: a balanced strategy with no
    /// overrides.
    fn default() -> (r: Self)
        ensures
            r.strategy@ == "balanced"@,
            r.affinity@.len() == 0,
    {
        RoutingConfig { strategy: default_strategy(), affinity: Vec::new() }
    }
}

/// Settings for the scheduler loop.
#[derive(Clone, Debug)]
pub struct ForemanConfig {
    pub poll_interval: u64,
    pub max_concurrent: u32,
    pub auto_start: bool,
}

impl Default for ForemanConfig {
    /// The default scheduler settings.
    fn default() -> (r: Self)
        ensures
            r.poll_interval == 5,
            r.max_concurrent == 1,
            !r.auto_start,
    {
        ForemanConfig {
            poll_interval: default_poll_interval(),
            max_concurrent: default_max_concurrent(),
            auto_start: false,
        }
    }
}

/// Settings for the database.
#[derive(Clone, Debug)]
pub struct DatabaseConfig {
    pub path: String,
    pub wal_mode: bool,
}

impl Default for DatabaseConfig {
    /// The default database settings.
    fn default() -> (r: Self)
        ensures
            r.path@ == "~/.rigs/db/rigs.db"@,
            r.wal_mode,
    {
        DatabaseConfig { path: default_db_path(), wal_mode: true }
    }
}

/// The whole configuration.
#[derive(Clone, Debug)]
pub struct Config {
    pub general: GeneralConfig,
    pub providers: ProvidersConfig,
    pub assayer: AssayerConfig,
    pub routing: RoutingConfig,
    pub foreman: ForemanConfig,
    pub database: DatabaseConfig,
}

impl Default for Config {
    /// The default configuration.
    fn default() -> (r: Self)
        ensures
            r.general.workspace@ == "~/.rigs"@,
            r.general.log_level@ == "info"@,
            r.providers.nova.enabled,
            r.providers.codex.enabled,
            r.providers.gemini.enabled,
            r.providers.deepseek.enabled,
            r.providers.ollama.enabled,
            r.routing.strategy@ == "balanced"@,
            r.foreman.poll_interval == 5,
            r.foreman.max_concurrent == 1,
            r.database.path@ == "~/.rigs/db/rigs.db"@,
    {
        Config {
            general: GeneralConfig::default(),
            providers: ProvidersConfig::default(),
            assayer: AssayerConfig::default(),
            routing: RoutingConfig::default(),
            foreman: ForemanConfig::default(),
            database: DatabaseConfig::default(),
        }
    }
}

impl Config {
    /// Check if a provider is enabled.
    pub fn is_provider_enabled(&self, provider: Provider) -> (r: bool)
        ensures
            r == match provider {
                Provider::Nova => self.providers.nova.enabled,
                Provider::Codex => self.providers.codex.enabled,
                Provider::Gemini => self.providers.gemini.enabled,
                Provider::DeepSeek => self.providers.deepseek.enabled,
                Provider::Ollama => self.providers.ollama.enabled,
            },
    {
        match provider {
            Provider::Nova => self.providers.nova.enabled,
            Provider::Codex => self.providers.codex.enabled,
            Provider::Gemini => self.providers.gemini.enabled,
            Provider::DeepSeek => self.providers.deepseek.enabled,
            Provider::Ollama => self.providers.ollama.enabled,
        }
    }

    /// Get the configured model name for a provider.
    pub fn get_model(&self, provider: Provider) -> (r: &str)
        ensures
            r@ == match provider {
                Provider::Nova => self.providers.nova.model@,
                Provider::Codex => self.providers.codex.model@,
                Provider::Gemini => self.providers.gemini.model@,
                Provider::DeepSeek => self.providers.deepseek.model@,
                Provider::Ollama => self.providers.ollama.model@,
            },
    {
        match provider {
            Provider::Nova => self.providers.nova.model.as_str(),
            Provider::Codex => self.providers.codex.model.as_str(),
            Provider::Gemini => self.providers.gemini.model.as_str(),
            Provider::DeepSeek => self.providers.deepseek.model.as_str(),
            Provider::Ollama => self.providers.ollama.model.as_str(),
        }
    }
}

} // verus!
