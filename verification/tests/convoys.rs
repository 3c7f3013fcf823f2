use rigs::bead::{BeadId, BeadStatus};
use rigs::convoy::{Convoy, ConvoyStatus};

#[test]
fn test_convoy_creation() {
    let convoy = Convoy::new("Test convoy".to_string());
    assert!(!convoy.id.is_empty());
    assert_eq!(convoy.name, "Test convoy");
    assert_eq!(convoy.status, ConvoyStatus::Planning);
}

#[test]
fn test_convoy_progress() {
    let mut convoy = Convoy::new("Test".to_string());
    let id1 = BeadId::new();
    let id2 = BeadId::new();
    convoy.beads = vec![id1.clone(), id2.clone()];

    let mut statuses: Vec<(BeadId, BeadStatus)> = Vec::new();
    statuses.push((id1.clone(), BeadStatus::Completed));
    statuses.push((id2.clone(), BeadStatus::Pending));

    let (completed, total) = convoy.progress(&statuses);
    let ratio = completed as f32 / total as f32;
    assert!((ratio - 0.5).abs() < 0.001);
}

#[test]
fn test_convoy_progress_empty() {
    let convoy = Convoy::new("Empty".to_string());
    let statuses: Vec<(BeadId, BeadStatus)> = Vec::new();
    let (completed, total) = convoy.progress(&statuses);
    assert_eq!(completed, 0);
    assert_eq!(total, 0);
}

#[test]
fn test_convoy_from_goal() {
    let a = BeadId::parse("gt-aaaaa").unwrap();
    let b = BeadId::parse("gt-bbbbb").unwrap();
    let convoy = Convoy::from_goal(
        "Build it".to_string(),
        "the goal text".to_string(),
        vec![a, b],
    );
    assert_eq!(convoy.status, ConvoyStatus::Queued);
    assert_eq!(convoy.goal.as_deref(), Some("the goal text"));
    assert_eq!(convoy.beads.len(), 2);
    assert_eq!(convoy.id.len(), 36);
}

#[test]
fn test_convoy_add_bead_dedupes() {
    let mut convoy = Convoy::new("Test".to_string());
    let id = BeadId::parse("gt-aaaaa").unwrap();
    convoy.add_bead(id.clone());
    convoy.add_bead(id.clone());
    assert_eq!(convoy.beads.len(), 1);
    let other = BeadId::parse("gt-bbbbb").unwrap();
    convoy.add_bead(other);
    assert_eq!(convoy.beads.len(), 2);
}

#[test]
fn test_convoy_status_counts() {
    let mut convoy = Convoy::new("Test".to_string());
    let ids: Vec<BeadId> = vec![
        BeadId::parse("gt-aaaaa").unwrap(),
        BeadId::parse("gt-bbbbb").unwrap(),
        BeadId::parse("gt-ccccc").unwrap(),
        BeadId::parse("gt-ddddd").unwrap(),
        BeadId::parse("gt-eeeee").unwrap(),
    ];
    for id in &ids {
        convoy.add_bead(id.clone());
    }
    let mut statuses: Vec<(BeadId, BeadStatus)> = Vec::new();
    statuses.push((ids[0].clone(), BeadStatus::Completed));
    statuses.push((ids[1].clone(), BeadStatus::Failed));
    statuses.push((ids[2].clone(), BeadStatus::InProgress));
    statuses.push((ids[3].clone(), BeadStatus::Deferred));
    // ids[4] has no recorded status: counts as pending

    let counts = convoy.status_counts(&statuses);
    assert_eq!(counts.completed, 1);
    assert_eq!(counts.failed, 1);
    assert_eq!(counts.in_progress, 1);
    assert_eq!(counts.deferred, 1);
    assert_eq!(counts.pending, 1);
    assert_eq!(counts.total(), 5);
}

#[test]
fn test_convoy_is_complete_and_failures() {
    let mut convoy = Convoy::new("Test".to_string());
    let a = BeadId::parse("gt-aaaaa").unwrap();
    let b = BeadId::parse("gt-bbbbb").unwrap();
    convoy.add_bead(a.clone());
    convoy.add_bead(b.clone());

    let mut statuses: Vec<(BeadId, BeadStatus)> = Vec::new();
    statuses.push((a.clone(), BeadStatus::Completed));
    statuses.push((b.clone(), BeadStatus::InProgress));
    assert!(!convoy.is_complete(&statuses));
    assert!(!convoy.has_failures(&statuses));

    statuses[1] = (b.clone(), BeadStatus::Failed);
    assert!(convoy.is_complete(&statuses));
    assert!(convoy.has_failures(&statuses));
}

#[test]
fn test_convoy_derive_status() {
    let mut convoy = Convoy::new("Test".to_string());
    convoy.status = ConvoyStatus::InProgress;
    let a = BeadId::parse("gt-aaaaa").unwrap();
    let b = BeadId::parse("gt-bbbbb").unwrap();
    convoy.add_bead(a.clone());
    convoy.add_bead(b.clone());

    let mut statuses: Vec<(BeadId, BeadStatus)> = Vec::new();
    statuses.push((a.clone(), BeadStatus::Completed));
    statuses.push((b.clone(), BeadStatus::InProgress));
    assert_eq!(convoy.derive_status(&statuses), ConvoyStatus::InProgress);

    statuses[1] = (b.clone(), BeadStatus::Completed);
    assert_eq!(convoy.derive_status(&statuses), ConvoyStatus::Completed);

    statuses[1] = (b.clone(), BeadStatus::Failed);
    assert_eq!(convoy.derive_status(&statuses), ConvoyStatus::Failed);
}

#[test]
fn test_convoy_metadata() {
    let mut convoy = Convoy::new("Test".to_string());
    convoy.set_metadata("origin".to_string(), "decomposition".to_string());
    convoy.set_metadata("origin".to_string(), "manual".to_string());
    convoy.set_metadata("owner".to_string(), "someone".to_string());
    assert_eq!(convoy.metadata.len(), 2);
    assert_eq!(convoy.metadata[0].0, "origin");
    assert_eq!(convoy.metadata[0].1, "manual");
    assert_eq!(convoy.metadata[1].1, "someone");
}

#[test]
fn test_convoy_status_terminal() {
    assert!(ConvoyStatus::Completed.is_terminal());
    assert!(ConvoyStatus::Failed.is_terminal());
    assert!(!ConvoyStatus::Planning.is_terminal());
    assert!(!ConvoyStatus::Paused.is_terminal());
}
