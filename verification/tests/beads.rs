use rigs::bead::{Bead, BeadId, BeadStatus, Priority, TaskType};
use rigs::provider::Provider;

#[test]
fn test_bead_id_generation() {
    let id1 = BeadId::new();
    let id2 = BeadId::new();
    assert_ne!(id1, id2);
    assert!(id1.as_str().starts_with("gt-"));
    assert_eq!(id1.as_str().len(), 8);
}

#[test]
fn test_bead_id_parsing() {
    assert!(BeadId::parse("gt-abc12").is_ok());
    assert!(BeadId::parse("gt-ABC12").is_ok()); // Should lowercase
    assert!(BeadId::parse("invalid").is_err());
    assert!(BeadId::parse("gt-abc").is_err()); // Too short
    assert!(BeadId::parse("gt-abc123").is_err()); // Too long
}

#[test]
fn test_bead_id_case_folding() {
    let id = BeadId::parse("gt-ABC12").unwrap();
    assert_eq!(id.as_str(), "gt-abc12");
    let same = BeadId::parse("gt-abc12").unwrap();
    assert_eq!(id, same);
}

#[test]
fn test_bead_id_rejects_bad_charset() {
    assert!(BeadId::parse("gt-ab!12").is_err());
    assert!(BeadId::parse("xx-abc12").is_err());
    assert!(BeadId::parse("").is_err());
    assert!(BeadId::parse("gt-ab¢12").is_err());
}

#[test]
fn test_generated_id_round_trips() {
    for _ in 0..50 {
        let id = BeadId::new();
        let parsed = BeadId::parse(id.as_str()).unwrap();
        assert_eq!(parsed, id);
    }
}

#[test]
fn test_bead_builder() {
    let bead = Bead::new(
        "Test task".to_string(),
        "Do the thing".to_string(),
        TaskType::Implementation,
    )
    .with_priority(Priority::High)
    .with_provider(Provider::Nova)
    .with_estimate(5000);

    assert_eq!(bead.title, "Test task");
    assert_eq!(bead.priority, Priority::High);
    assert_eq!(bead.preferred_provider, Some(Provider::Nova));
    assert_eq!(bead.estimated_tokens, 5000);
}

#[test]
fn test_new_bead_defaults() {
    let bead = Bead::new("t".to_string(), "d".to_string(), TaskType::Review);
    assert_eq!(bead.status, BeadStatus::Pending);
    assert_eq!(bead.priority, Priority::Normal);
    assert_eq!(bead.estimated_tokens, 0);
    assert!(bead.dependencies.is_empty());
    assert!(bead.assigned_provider.is_none());
}

#[test]
fn test_task_type_affinities() {
    let affinities = TaskType::Implementation.provider_affinities();
    assert_eq!(affinities[0].0, Provider::Nova);
    assert_eq!(affinities[0].1, 1000);

    let research_affinities = TaskType::Research.provider_affinities();
    assert_eq!(research_affinities[0].0, Provider::Gemini);
}

#[test]
fn test_preferred_provider_tops_affinities() {
    for t in [
        TaskType::Implementation,
        TaskType::Review,
        TaskType::Research,
        TaskType::Refactor,
        TaskType::Test,
        TaskType::Documentation,
        TaskType::Debug,
        TaskType::Design,
    ] {
        let affs = t.provider_affinities();
        assert_eq!(affs.len(), 3);
        assert_eq!(affs[0].0, t.preferred_provider());
        assert_eq!(affs[0].1, 1000);
    }
}

#[test]
fn test_status_predicates() {
    assert!(BeadStatus::Completed.is_terminal());
    assert!(BeadStatus::Failed.is_terminal());
    assert!(BeadStatus::Cancelled.is_terminal());
    assert!(!BeadStatus::Pending.is_terminal());
    assert!(BeadStatus::InProgress.is_active());
    assert!(BeadStatus::Reviewing.is_active());
    assert!(!BeadStatus::Deferred.is_active());
}

#[test]
fn test_legal_transitions() {
    let mut b = Bead::new("t".to_string(), "d".to_string(), TaskType::Debug);
    assert!(b.transition(BeadStatus::Optimizing, 10).is_ok());
    assert!(b.transition(BeadStatus::Queued, 20).is_ok());
    assert!(b.transition(BeadStatus::Assigned, 30).is_ok());
    assert!(b.transition(BeadStatus::InProgress, 40).is_ok());
    assert_eq!(b.started_at, Some(40));
    assert!(b.transition(BeadStatus::Reviewing, 50).is_ok());
    assert!(b.transition(BeadStatus::Completed, 60).is_ok());
    assert_eq!(b.completed_at, Some(60));
}

#[test]
fn test_illegal_transition_rejected() {
    let mut b = Bead::new("t".to_string(), "d".to_string(), TaskType::Debug);
    let before = b.status;
    let r = b.transition(BeadStatus::Completed, 10);
    assert!(r.is_err());
    assert_eq!(b.status, before);
}

#[test]
fn test_cancel_is_idempotent() {
    let mut b = Bead::new("t".to_string(), "d".to_string(), TaskType::Test);
    assert!(b.cancel(5).is_ok());
    assert_eq!(b.status, BeadStatus::Cancelled);
    let completed_at = b.completed_at;
    // cancelling again is a no-op, not an error
    assert!(b.cancel(99).is_ok());
    assert_eq!(b.status, BeadStatus::Cancelled);
    assert_eq!(b.completed_at, completed_at);
}

#[test]
fn test_cancel_after_terminal_is_error() {
    let mut b = Bead::new("t".to_string(), "d".to_string(), TaskType::Test);
    b.status = BeadStatus::Completed;
    assert!(b.cancel(5).is_err());
    let mut f = Bead::new("t".to_string(), "d".to_string(), TaskType::Test);
    f.status = BeadStatus::Failed;
    assert!(f.cancel(5).is_err());
}

#[test]
fn test_effective_prompt_prefers_optimized() {
    let mut b = Bead::new("t".to_string(), "raw description".to_string(), TaskType::Design);
    assert_eq!(b.effective_prompt(), "raw description");
    b.optimized_prompt = Some("tuned prompt".to_string());
    assert_eq!(b.effective_prompt(), "tuned prompt");
}

#[test]
fn test_dependencies_met() {
    let a = BeadId::parse("gt-aaaaa").unwrap();
    let b = BeadId::parse("gt-bbbbb").unwrap();
    let bead = Bead::new("t".to_string(), "d".to_string(), TaskType::Test)
        .with_dependencies(vec![a.clone(), b.clone()]);
    assert!(!bead.dependencies_met(&vec![a.clone()]));
    assert!(bead.dependencies_met(&vec![a, b]));
}
