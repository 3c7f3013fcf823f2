use rigs::bead::{Bead, BeadId, BeadStatus, Priority, TaskType};
use rigs::provider::Provider;
use rigs::sched::{
    dispatch_one, is_ready, order_candidates, plan_dispatch, select_provider, DispatchOutcome,
};
use rigs::tank::{Tank, TankHealth};

fn bead(title: &str, task: TaskType, priority: Priority, created: i64) -> Bead {
    let mut b = Bead::new(title.to_string(), "desc".to_string(), task)
        .with_priority(priority)
        .with_estimate(1_000);
    b.created_at = created;
    b
}

#[test]
fn test_dispatch_order_priority_first() {
    // three candidates with equal creation order: the critical one first
    let beads = vec![
        bead("c", TaskType::Implementation, Priority::Critical, 100),
        bead("l", TaskType::Implementation, Priority::Low, 100),
        bead("n", TaskType::Implementation, Priority::Normal, 100),
    ];
    let ordered = order_candidates(beads);
    assert_eq!(ordered[0].priority, Priority::Critical);
    assert_eq!(ordered[1].priority, Priority::Normal);
    assert_eq!(ordered[2].priority, Priority::Low);
}

#[test]
fn test_dispatch_order_fifo_within_band() {
    let beads = vec![
        bead("late", TaskType::Review, Priority::Normal, 300),
        bead("early", TaskType::Review, Priority::Normal, 100),
        bead("mid", TaskType::Review, Priority::Normal, 200),
    ];
    let ordered = order_candidates(beads);
    assert_eq!(ordered[0].title, "early");
    assert_eq!(ordered[1].title, "mid");
    assert_eq!(ordered[2].title, "late");
}

#[test]
fn test_dispatch_order_deterministic() {
    let make = || {
        vec![
            bead("a", TaskType::Test, Priority::Low, 5),
            bead("b", TaskType::Test, Priority::Critical, 9),
            bead("c", TaskType::Test, Priority::High, 1),
        ]
    };
    let o1: Vec<String> = order_candidates(make()).into_iter().map(|b| b.title).collect();
    let o2: Vec<String> = order_candidates(make()).into_iter().map(|b| b.title).collect();
    assert_eq!(o1, o2);
    assert_eq!(o1, vec!["b".to_string(), "c".to_string(), "a".to_string()]);
}

#[test]
fn test_research_falls_back_to_nova() {
    // Gemini's tank is empty; Nova and Codex are available. Research
    // prefers Gemini, then Nova by affinity weight.
    let mut gemini = Tank::new_at(Provider::Gemini, 100_000, 24, 0);
    gemini.update_remaining(0, 500, 200);
    assert_eq!(gemini.health, TankHealth::Empty);
    let nova = Tank::new_at(Provider::Nova, 100_000, 5, 0);
    let codex = Tank::new_at(Provider::Codex, 100_000, 5, 0);
    let tanks = vec![gemini, nova, codex];

    let chosen = select_provider(TaskType::Research, None, &tanks, 5_000);
    assert_eq!(chosen, Some(Provider::Nova));
}

#[test]
fn test_preferred_provider_tried_first() {
    let nova = Tank::new_at(Provider::Nova, 100_000, 5, 0);
    let codex = Tank::new_at(Provider::Codex, 100_000, 5, 0);
    let tanks = vec![nova, codex];
    // research's affinity list starts with Gemini, but the user preference wins
    let chosen = select_provider(TaskType::Research, Some(Provider::Codex), &tanks, 1_000);
    assert_eq!(chosen, Some(Provider::Codex));
}

#[test]
fn test_no_provider_eligible() {
    let mut nova = Tank::new_at(Provider::Nova, 1_000, 5, 0);
    nova.update_remaining(0, 500, 200);
    let tanks = vec![nova];
    assert_eq!(select_provider(TaskType::Implementation, None, &tanks, 500), None);
}

#[test]
fn test_is_ready_depends_on_completed_deps() {
    let dep = BeadId::parse("gt-aaaaa").unwrap();
    let mut b = Bead::new("t".to_string(), "d".to_string(), TaskType::Test)
        .with_dependencies(vec![dep.clone()]);
    b.status = BeadStatus::Queued;

    let mut statuses: Vec<(BeadId, BeadStatus)> = Vec::new();
    statuses.push((dep.clone(), BeadStatus::InProgress));
    assert!(!is_ready(&b, &statuses, 100));

    statuses[0] = (dep.clone(), BeadStatus::Completed);
    assert!(is_ready(&b, &statuses, 100));
}

#[test]
fn test_is_ready_deferred_until() {
    let mut b = Bead::new("t".to_string(), "d".to_string(), TaskType::Test);
    b.status = BeadStatus::Deferred;
    b.deferred_until = Some(500);
    let statuses: Vec<(BeadId, BeadStatus)> = Vec::new();
    assert!(!is_ready(&b, &statuses, 499));
    assert!(is_ready(&b, &statuses, 500));
}

#[test]
fn test_dispatch_one_reserves_tokens() {
    let mut b = bead("t", TaskType::Implementation, Priority::Normal, 10);
    b.status = BeadStatus::Queued;
    let statuses: Vec<(BeadId, BeadStatus)> = Vec::new();
    let mut tanks = vec![Tank::new_at(Provider::Nova, 100_000, 5, 0)];
    let outcome = dispatch_one(&mut b, &statuses, &mut tanks, 1_000);
    assert_eq!(outcome, DispatchOutcome::Dispatched(Provider::Nova));
    assert_eq!(b.status, BeadStatus::InProgress);
    assert_eq!(b.assigned_provider, Some(Provider::Nova));
    assert_eq!(b.started_at, Some(1_000));
    assert_eq!(tanks[0].remaining, 99_000);
}

#[test]
fn test_dispatch_one_defers_to_window_end() {
    let mut b = bead("t", TaskType::Implementation, Priority::Normal, 10);
    b.status = BeadStatus::Queued;
    let statuses: Vec<(BeadId, BeadStatus)> = Vec::new();
    let mut empty = Tank::new_at(Provider::Nova, 1_000, 5, 0);
    empty.update_remaining(0, 500, 200);
    let window_end = empty.window_end;
    let mut tanks = vec![empty];
    let outcome = dispatch_one(&mut b, &statuses, &mut tanks, 1_000);
    assert_eq!(outcome, DispatchOutcome::DeferredUntil(window_end));
    assert_eq!(b.status, BeadStatus::Deferred);
    assert_eq!(b.deferred_until, Some(window_end));
}

#[test]
fn test_plan_respects_concurrency_bound() {
    let mut b1 = bead("one", TaskType::Implementation, Priority::Normal, 10);
    let mut b2 = bead("two", TaskType::Implementation, Priority::Normal, 20);
    b1.status = BeadStatus::Queued;
    b2.status = BeadStatus::Queued;
    let mut tanks = vec![Tank::new_at(Provider::Nova, 100_000, 5, 0)];
    let statuses: Vec<(BeadId, BeadStatus)> = Vec::new();

    let (planned, outcomes) = plan_dispatch(vec![b1, b2], &statuses, &mut tanks, 1, 1_000);
    assert_eq!(outcomes.len(), 2);
    assert!(matches!(outcomes[0], DispatchOutcome::Dispatched(_)));
    assert_eq!(outcomes[1], DispatchOutcome::Skipped);
    assert_eq!(planned[0].status, BeadStatus::InProgress);
    assert_eq!(planned[1].status, BeadStatus::Queued);
}

#[test]
fn test_plan_skips_unready() {
    let mut done = bead("done", TaskType::Implementation, Priority::Normal, 10);
    done.status = BeadStatus::Completed;
    let mut tanks = vec![Tank::new_at(Provider::Nova, 100_000, 5, 0)];
    let statuses: Vec<(BeadId, BeadStatus)> = Vec::new();
    let (planned, outcomes) = plan_dispatch(vec![done], &statuses, &mut tanks, 4, 1_000);
    assert_eq!(outcomes[0], DispatchOutcome::Skipped);
    assert_eq!(planned[0].status, BeadStatus::Completed);
    assert_eq!(tanks[0].remaining, 100_000);
}

#[test]
fn test_bead_with_unmet_deps_never_dispatched() {
    let dep = BeadId::parse("gt-zzzzz").unwrap();
    let mut b = bead("blocked", TaskType::Implementation, Priority::Critical, 10);
    b.status = BeadStatus::Queued;
    b.dependencies = vec![dep.clone()];
    let mut tanks = vec![Tank::new_at(Provider::Nova, 100_000, 5, 0)];
    let mut statuses: Vec<(BeadId, BeadStatus)> = Vec::new();
    statuses.push((dep.clone(), BeadStatus::Pending));
    let (planned, outcomes) = plan_dispatch(vec![b], &statuses, &mut tanks, 4, 1_000);
    assert_eq!(outcomes[0], DispatchOutcome::Skipped);
    assert_eq!(planned[0].status, BeadStatus::Queued);
    assert_eq!(tanks[0].remaining, 100_000);
}
