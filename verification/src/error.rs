//! The error taxonomy: which failures are recoverable, what wait each kind
//! suggests, and the human-readable message each carries.

use vstd::prelude::*;
use vstd::string::StringExecFns;

use crate::bead::{BeadId, BeadStatus};
use crate::provider::Provider;
use crate::text::{i64_to_string, spec_decimal, spec_decimal_i64, u64_to_string};

verus! {

/// Wait suggested after a single-provider rate limit, in milliseconds.
pub const RATE_LIMIT_WAIT_MS: u64 = 300000;

/// Wait suggested when the local backend is unavailable, in milliseconds.
pub const OLLAMA_WAIT_MS: u64 = 10000;

/// Wait suggested after a transient network failure, in milliseconds.
pub const HTTP_WAIT_MS: u64 = 5000;

/// Fallback wait when an exhausted-providers reset time has already
/// passed, in milliseconds.
pub const EXHAUSTED_FALLBACK_MS: u64 = 60000;

/// Main error type: each variant names one failure kind of the scheduler's
/// taxonomy. Failures reported by outside systems carry their text.
#[derive(Clone, Debug)]
pub enum RigsError {
    /// The provider has no configuration.
    ProviderNotConfigured(Provider),
    /// The provider is configured but disabled.
    ProviderDisabled(Provider),
    /// One provider's capacity window cannot cover the request.
    RateLimitExceeded { provider: Provider, remaining: u64, requested: u64 },
    /// Every execution provider is exhausted; carries the earliest reset
    /// time in milliseconds since the epoch.
    AllProvidersExhausted(i64),
    /// The provider reported an API error.
    ProviderApiError(Provider, String),
    /// No bead with this id.
    BeadNotFound(BeadId),
    /// The string is not a well-formed bead id.
    InvalidBeadId(String),
    /// The lifecycle state machine does not allow this move.
    InvalidStateTransition { from: BeadStatus, to: BeadStatus },
    /// The bead has dependencies that are not completed.
    UnmetDependencies(BeadId),
    /// No convoy with this id.
    ConvoyNotFound(String),
    /// The dependency relation contains this cycle.
    DependencyCycle(Vec<BeadId>),
    /// The decomposition backend failed.
    AssayerError(String),
    /// The local backend is not reachable.
    OllamaNotAvailable(String),
    /// A backend's response could not be parsed.
    LlmParseError(String),
    /// The configuration is unusable.
    ConfigError(String),
    /// No workspace has been initialized.
    WorkspaceNotInitialized,
    /// The configuration file is invalid.
    InvalidConfig(String),
    /// The persistence layer failed.
    DatabaseError(String),
    /// A persistence migration failed.
    MigrationError(String),
    /// An input/output operation failed.
    IoError(String),
    /// JSON serialization failed.
    JsonError(String),
    /// The configuration file could not be parsed.
    TomlError(String),
    /// A network request failed.
    HttpError(String),
    /// Any other failure.
    Other(String),
}

/// The recoverable kinds: rate limits, global exhaustion, and transient
/// network or local-backend failures.
pub open spec fn spec_is_recoverable(e: RigsError) -> bool {
    ||| e matches RigsError::RateLimitExceeded { .. }
    ||| e matches RigsError::AllProvidersExhausted(_)
    ||| e matches RigsError::OllamaNotAvailable(_)
    ||| e matches RigsError::HttpError(_)
}

/// The kinds caused by hitting a rate limit.
pub open spec fn spec_is_rate_limit(e: RigsError) -> bool {
    ||| e matches RigsError::RateLimitExceeded { .. }
    ||| e matches RigsError::AllProvidersExhausted(_)
}

/// The wait suggested at time `now` for each kind, in milliseconds: time
/// until the nearest reset for global exhaustion (with a fixed fallback if
/// that time has passed), fixed cooldowns for the other recoverable kinds,
/// nothing for the rest.
pub open spec fn spec_suggested_wait(e: RigsError, now: i64) -> Option<u64> {
    match e {
        RigsError::AllProvidersExhausted(reset) => Some(
            if reset > now {
                (reset - now) as u64
            } else {
                EXHAUSTED_FALLBACK_MS
            },
        ),
        RigsError::RateLimitExceeded { .. } => Some(RATE_LIMIT_WAIT_MS),
        RigsError::OllamaNotAvailable(_) => Some(OLLAMA_WAIT_MS),
        RigsError::HttpError(_) => Some(HTTP_WAIT_MS),
        _ => None,
    }
}

impl RigsError {
    /// Check if this error is recoverable (the bead can retry).
    pub fn is_recoverable(&self) -> (r: bool)
        ensures
            r == spec_is_recoverable(*self),
    {
        matches!(
            self,
            RigsError::RateLimitExceeded { .. } | RigsError::AllProvidersExhausted(_)
                | RigsError::OllamaNotAvailable(_) | RigsError::HttpError(_)
        )
    }

    /// Check if this is a rate-limit error.
    pub fn is_rate_limit(&self) -> (r: bool)
        ensures
            r == spec_is_rate_limit(*self),
    {
        matches!(
            self,
            RigsError::RateLimitExceeded { .. } | RigsError::AllProvidersExhausted(_)
        )
    }

    /// Suggested wait before retrying, judged at time `now` (milliseconds
    /// since the epoch); `None` for non-recoverable kinds.
    pub fn suggested_wait(&self, now: i64) -> (r: Option<u64>)
        requires
            0 <= now,
        ensures
            r == spec_suggested_wait(*self, now),
    {
        match self {
            RigsError::AllProvidersExhausted(reset) => {
                if *reset > now {
                    Some((*reset - now) as u64)
                } else {
                    Some(EXHAUSTED_FALLBACK_MS)
                }
            },
            RigsError::RateLimitExceeded { .. } => Some(RATE_LIMIT_WAIT_MS),
            RigsError::OllamaNotAvailable(_) => Some(OLLAMA_WAIT_MS),
            RigsError::HttpError(_) => Some(HTTP_WAIT_MS),
            _ => None,
        }
    }
}

// ---------------------------------------------------------------------------
// Human-readable messages
// ---------------------------------------------------------------------------

/// The name of a status, as written in transition error messages.
pub open spec fn spec_status_name(s: BeadStatus) -> Seq<char> {
    match s {
        BeadStatus::Pending => "Pending"@,
        BeadStatus::Optimizing => "Optimizing"@,
        BeadStatus::Queued => "Queued"@,
        BeadStatus::Assigned => "Assigned"@,
        BeadStatus::InProgress => "InProgress"@,
        BeadStatus::Deferred => "Deferred"@,
        BeadStatus::Reviewing => "Reviewing"@,
        BeadStatus::Completed => "Completed"@,
        BeadStatus::Failed => "Failed"@,
        BeadStatus::Cancelled => "Cancelled"@,
    }
}

/// The name of a status, as written in transition error messages.
pub fn status_name(s: BeadStatus) -> (r: &'static str)
    ensures
        r@ == spec_status_name(s),
{
    match s {
        BeadStatus::Pending => "Pending",
        BeadStatus::Optimizing => "Optimizing",
        BeadStatus::Queued => "Queued",
        BeadStatus::Assigned => "Assigned",
        BeadStatus::InProgress => "InProgress",
        BeadStatus::Deferred => "Deferred",
        BeadStatus::Reviewing => "Reviewing",
        BeadStatus::Completed => "Completed",
        BeadStatus::Failed => "Failed",
        BeadStatus::Cancelled => "Cancelled",
    }
}

/// The ids of a cycle joined with ", ".
pub open spec fn spec_join_ids(ids: Seq<BeadId>) -> Seq<char>
    decreases ids.len(),
{
    if ids.len() == 0 {
        Seq::<char>::empty()
    } else if ids.len() == 1 {
        ids[0]@
    } else {
        spec_join_ids(ids.drop_last()) + ", "@ + ids.last()@
    }
}

/// Join the ids of a cycle with ", ".
fn join_ids(ids: &Vec<BeadId>) -> (r: String)
    ensures
        r@ == spec_join_ids(ids@),
{
    let mut out = String::new();
    let mut i: usize = 0;
    while i < ids.len()
        invariant
            i <= ids@.len(),
            out@ == spec_join_ids(ids@.take(i as int)),
        decreases ids@.len() - i,
    {
        if i > 0 {
            out.append(", ");
        }
        out.append(ids[i].as_str());
        proof {
            let t = ids@.take(i + 1 as int);
            assert(t.drop_last() =~= ids@.take(i as int));
            assert(t.last() == ids@[i as int]);
            assert(out@ =~= spec_join_ids(t));
        }
        i += 1;
    }
    proof {
        assert(ids@.take(ids@.len() as int) =~= ids@);
    }
    out
}

/// The full message text for each error kind.
pub open spec fn spec_message(e: RigsError) -> Seq<char> {
    match e {
        RigsError::ProviderNotConfigured(p) => "Provider "@ + p.spec_display_name()
            + " is not configured"@,
        RigsError::ProviderDisabled(p) => "Provider "@ + p.spec_display_name() + " is disabled"@,
        RigsError::RateLimitExceeded { provider, remaining, requested } => "Rate limit exceeded for "@
            + provider.spec_display_name() + ": "@ + spec_decimal(remaining as nat)
            + " tokens remaining, need "@ + spec_decimal(requested as nat),
        RigsError::AllProvidersExhausted(reset) => "All providers exhausted, next reset at "@
            + spec_decimal_i64(reset),
        RigsError::ProviderApiError(p, s) => "Provider "@ + p.spec_display_name() + " API error: "@
            + s@,
        RigsError::BeadNotFound(id) => "Bead "@ + id@ + " not found"@,
        RigsError::InvalidBeadId(s) => "Invalid bead ID: "@ + s@,
        RigsError::InvalidStateTransition { from, to } => "Invalid state transition: "@
            + spec_status_name(from) + " -> "@ + spec_status_name(to),
        RigsError::UnmetDependencies(id) => "Bead "@ + id@ + " has unmet dependencies"@,
        RigsError::ConvoyNotFound(s) => "Convoy "@ + s@ + " not found"@,
        RigsError::DependencyCycle(ids) => "Dependency cycle detected: "@ + spec_join_ids(ids@),
        RigsError::AssayerError(s) => "Assayer error: "@ + s@,
        RigsError::OllamaNotAvailable(s) => "Ollama not available: "@ + s@,
        RigsError::LlmParseError(s) => "Failed to parse LLM response: "@ + s@,
        RigsError::ConfigError(s) => "Configuration error: "@ + s@,
        RigsError::WorkspaceNotInitialized => "Workspace not initialized. Run `rigs init` first."@,
        RigsError::InvalidConfig(s) => "Invalid configuration file: "@ + s@,
        RigsError::DatabaseError(s) => "Database error: "@ + s@,
        RigsError::MigrationError(s) => "Migration error: "@ + s@,
        RigsError::IoError(s) => "IO error: "@ + s@,
        RigsError::JsonError(s) => "JSON error: "@ + s@,
        RigsError::TomlError(s) => "TOML parse error: "@ + s@,
        RigsError::HttpError(s) => "HTTP error: "@ + s@,
        RigsError::Other(s) => s@,
    }
}

impl RigsError {
    /// The human-readable message for this error.
    pub fn message(&self) -> (r: String)
        ensures
            r@ == spec_message(*self),
    {
        match self {
            RigsError::ProviderNotConfigured(p) => {
                let mut out = String::from_str("Provider ");
                out.append(p.display_name());
                out.append(" is not configured");
                proof {
                    assert(out@ =~= spec_message(*self));
                }
                out
            },
            RigsError::ProviderDisabled(p) => {
                let mut out = String::from_str("Provider ");
                out.append(p.display_name());
                out.append(" is disabled");
                proof {
                    assert(out@ =~= spec_message(*self));
                }
                out
            },
            RigsError::RateLimitExceeded { provider, remaining, requested } => {
                let mut out = String::from_str("Rate limit exceeded for ");
                out.append(provider.display_name());
                out.append(": ");
                let rem = u64_to_string(*remaining);
                out.append(rem.as_str());
                out.append(" tokens remaining, need ");
                let req = u64_to_string(*requested);
                out.append(req.as_str());
                proof {
                    assert(out@ =~= spec_message(*self));
                }
                out
            },
            RigsError::AllProvidersExhausted(reset) => {
                let mut out = String::from_str("All providers exhausted, next reset at ");
                let t = i64_to_string(*reset);
                out.append(t.as_str());
                proof {
                    assert(out@ =~= spec_message(*self));
                }
                out
            },
            RigsError::ProviderApiError(p, s) => {
                let mut out = String::from_str("Provider ");
                out.append(p.display_name());
                out.append(" API error: ");
                out.append(s.as_str());
                proof {
                    assert(out@ =~= spec_message(*self));
                }
                out
            },
            RigsError::BeadNotFound(id) => {
                let mut out = String::from_str("Bead ");
                out.append(id.as_str());
                out.append(" not found");
                proof {
                    assert(out@ =~= spec_message(*self));
                }
                out
            },
            RigsError::InvalidBeadId(s) => {
                let mut out = String::from_str("Invalid bead ID: ");
                out.append(s.as_str());
                proof {
                    assert(out@ =~= spec_message(*self));
                }
                out
            },
            RigsError::InvalidStateTransition { from, to } => {
                let mut out = String::from_str("Invalid state transition: ");
                out.append(status_name(*from));
                out.append(" -> ");
                out.append(status_name(*to));
                proof {
                    assert(out@ =~= spec_message(*self));
                }
                out
            },
            RigsError::UnmetDependencies(id) => {
                let mut out = String::from_str("Bead ");
                out.append(id.as_str());
                out.append(" has unmet dependencies");
                proof {
                    assert(out@ =~= spec_message(*self));
                }
                out
            },
            RigsError::ConvoyNotFound(s) => {
                let mut out = String::from_str("Convoy ");
                out.append(s.as_str());
                out.append(" not found");
                proof {
                    assert(out@ =~= spec_message(*self));
                }
                out
            },
            RigsError::DependencyCycle(ids) => {
                let mut out = String::from_str("Dependency cycle detected: ");
                let joined = join_ids(ids);
                out.append(joined.as_str());
                proof {
                    assert(out@ =~= spec_message(*self));
                }
                out
            },
            RigsError::AssayerError(s) => {
                let mut out = String::from_str("Assayer error: ");
                out.append(s.as_str());
                proof {
                    assert(out@ =~= spec_message(*self));
                }
                out
            },
            RigsError::OllamaNotAvailable(s) => {
                let mut out = String::from_str("Ollama not available: ");
                out.append(s.as_str());
                proof {
                    assert(out@ =~= spec_message(*self));
                }
                out
            },
            RigsError::LlmParseError(s) => {
                let mut out = String::from_str("Failed to parse LLM response: ");
                out.append(s.as_str());
                proof {
                    assert(out@ =~= spec_message(*self));
                }
                out
            },
            RigsError::ConfigError(s) => {
                let mut out = String::from_str("Configuration error: ");
                out.append(s.as_str());
                proof {
                    assert(out@ =~= spec_message(*self));
                }
                out
            },
            RigsError::WorkspaceNotInitialized => {
                String::from_str("Workspace not initialized. Run `rigs init` first.")
            },
            RigsError::InvalidConfig(s) => {
                let mut out = String::from_str("Invalid configuration file: ");
                out.append(s.as_str());
                proof {
                    assert(out@ =~= spec_message(*self));
                }
                out
            },
            RigsError::DatabaseError(s) => {
                let mut out = String::from_str("Database error: ");
                out.append(s.as_str());
                proof {
                    assert(out@ =~= spec_message(*self));
                }
                out
            },
            RigsError::MigrationError(s) => {
                let mut out = String::from_str("Migration error: ");
                out.append(s.as_str());
                proof {
                    assert(out@ =~= spec_message(*self));
                }
                out
            },
            RigsError::IoError(s) => {
                let mut out = String::from_str("IO error: ");
                out.append(s.as_str());
                proof {
                    assert(out@ =~= spec_message(*self));
                }
                out
            },
            RigsError::JsonError(s) => {
                let mut out = String::from_str("JSON error: ");
                out.append(s.as_str());
                proof {
                    assert(out@ =~= spec_message(*self));
                }
                out
            },
            RigsError::TomlError(s) => {
                let mut out = String::from_str("TOML parse error: ");
                out.append(s.as_str());
                proof {
                    assert(out@ =~= spec_message(*self));
                }
                out
            },
            RigsError::HttpError(s) => {
                let mut out = String::from_str("HTTP error: ");
                out.append(s.as_str());
                proof {
                    assert(out@ =~= spec_message(*self));
                }
                out
            },
            RigsError::Other(s) => {
                let mut out = String::new();
                out.append(s.as_str());
                proof {
                    assert(out@ =~= spec_message(*self));
                }
                out
            },
        }
    }
}

} // verus!
