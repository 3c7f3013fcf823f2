use rigs::bead::{BeadId, BeadStatus};
use rigs::error::RigsError;
use rigs::provider::Provider;

#[test]
fn test_error_is_recoverable() {
    let rate_limit = RigsError::RateLimitExceeded {
        provider: Provider::Nova,
        remaining: 0,
        requested: 1000,
    };
    assert!(rate_limit.is_recoverable());
    assert!(rate_limit.is_rate_limit());

    let not_found = RigsError::BeadNotFound(BeadId::new());
    assert!(!not_found.is_recoverable());
}

#[test]
fn test_error_display() {
    let err = RigsError::ProviderNotConfigured(Provider::Nova);
    assert!(err.message().contains("Nova"));
}

#[test]
fn test_error_messages_exact() {
    let err = RigsError::RateLimitExceeded {
        provider: Provider::Nova,
        remaining: 0,
        requested: 1000,
    };
    assert_eq!(
        err.message(),
        "Rate limit exceeded for Nova: 0 tokens remaining, need 1000"
    );
    let ex = RigsError::AllProvidersExhausted(1234);
    assert_eq!(ex.message(), "All providers exhausted, next reset at 1234");
    let tr = RigsError::InvalidStateTransition {
        from: BeadStatus::Pending,
        to: BeadStatus::Completed,
    };
    assert_eq!(tr.message(), "Invalid state transition: Pending -> Completed");
    let ws = RigsError::WorkspaceNotInitialized;
    assert_eq!(ws.message(), "Workspace not initialized. Run `rigs init` first.");
}

#[test]
fn test_cycle_message_lists_ids() {
    let ids = vec![
        BeadId::parse("gt-aaaaa").unwrap(),
        BeadId::parse("gt-bbbbb").unwrap(),
    ];
    let err = RigsError::DependencyCycle(ids);
    assert_eq!(err.message(), "Dependency cycle detected: gt-aaaaa, gt-bbbbb");
}

#[test]
fn test_suggested_wait_values() {
    let now = 1_000_000i64;
    let rl = RigsError::RateLimitExceeded {
        provider: Provider::Codex,
        remaining: 1,
        requested: 2,
    };
    assert_eq!(rl.suggested_wait(now), Some(300_000));

    let future = RigsError::AllProvidersExhausted(now + 5_000);
    assert_eq!(future.suggested_wait(now), Some(5_000));
    let past = RigsError::AllProvidersExhausted(now - 5_000);
    assert_eq!(past.suggested_wait(now), Some(60_000));

    let ollama = RigsError::OllamaNotAvailable("down".to_string());
    assert_eq!(ollama.suggested_wait(now), Some(10_000));
    let http = RigsError::HttpError("timeout".to_string());
    assert_eq!(http.suggested_wait(now), Some(5_000));

    let cfg = RigsError::ConfigError("bad".to_string());
    assert_eq!(cfg.suggested_wait(now), None);
    let tr = RigsError::InvalidStateTransition {
        from: BeadStatus::Pending,
        to: BeadStatus::Completed,
    };
    assert_eq!(tr.suggested_wait(now), None);
}

#[test]
fn test_recoverable_kinds() {
    let now = 0i64;
    let recoverable: Vec<RigsError> = vec![
        RigsError::RateLimitExceeded { provider: Provider::Nova, remaining: 0, requested: 1 },
        RigsError::AllProvidersExhausted(10),
        RigsError::OllamaNotAvailable("x".to_string()),
        RigsError::HttpError("x".to_string()),
    ];
    for e in &recoverable {
        assert!(e.is_recoverable());
        assert!(e.suggested_wait(now).is_some());
    }
    let fatal: Vec<RigsError> = vec![
        RigsError::ProviderNotConfigured(Provider::Gemini),
        RigsError::ProviderDisabled(Provider::Gemini),
        RigsError::BeadNotFound(BeadId::new()),
        RigsError::ConfigError("x".to_string()),
        RigsError::DependencyCycle(vec![]),
    ];
    for e in &fatal {
        assert!(!e.is_recoverable());
        assert!(e.suggested_wait(now).is_none());
    }
}

#[test]
fn test_decimal_rendering() {
    assert_eq!(rigs::text::u64_to_string(0), "0");
    assert_eq!(rigs::text::u64_to_string(7), "7");
    assert_eq!(rigs::text::u64_to_string(10), "10");
    assert_eq!(rigs::text::u64_to_string(90210), "90210");
    assert_eq!(rigs::text::u64_to_string(u64::MAX), "18446744073709551615");
    assert_eq!(rigs::text::i64_to_string(-42), "-42");
    assert_eq!(rigs::text::i64_to_string(i64::MIN), "-9223372036854775808");
}
