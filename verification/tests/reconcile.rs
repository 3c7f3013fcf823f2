use rigs::bead::{Bead, BeadStatus, TaskType};
use rigs::error::RigsError;
use rigs::provider::Provider;
use rigs::sched::{complete_bead, fail_bead};
use rigs::tank::Tank;

fn executing_bead(est: u64) -> Bead {
    let mut b = Bead::new("t".to_string(), "d".to_string(), TaskType::Implementation)
        .with_estimate(est);
    b.status = BeadStatus::InProgress;
    b.assigned_provider = Some(Provider::Nova);
    b
}

#[test]
fn test_complete_credits_over_reservation() {
    let mut b = executing_bead(5_000);
    let mut tank = Tank::new_at(Provider::Nova, 100_000, 5, 0);
    assert!(tank.consume_at(5_000, 10).is_ok());
    assert_eq!(tank.remaining, 95_000);

    // actual use was lower: the difference is credited back
    let r = complete_bead(&mut b, &mut tank, 3_000, "done".to_string(), 1_000);
    assert!(r.is_ok());
    assert_eq!(tank.remaining, 97_000);
    assert_eq!(b.status, BeadStatus::Completed);
    assert_eq!(b.actual_tokens, Some(3_000));
    assert_eq!(b.completed_at, Some(1_000));
    assert_eq!(b.output.as_deref(), Some("done"));
}

#[test]
fn test_complete_charges_under_reservation() {
    let mut b = executing_bead(1_000);
    let mut tank = Tank::new_at(Provider::Nova, 100_000, 5, 0);
    assert!(tank.consume_at(1_000, 10).is_ok());

    // actual use was higher: the extra is charged on top
    let r = complete_bead(&mut b, &mut tank, 4_000, "done".to_string(), 1_000);
    assert!(r.is_ok());
    assert_eq!(tank.remaining, 96_000);
}

#[test]
fn test_complete_refund_clamps_to_capacity() {
    let mut b = executing_bead(50);
    let mut tank = Tank::new_at(Provider::Nova, 1_000, 5, 0);
    // nothing was actually consumed from this tank, yet a refund arrives
    let r = complete_bead(&mut b, &mut tank, 0, "done".to_string(), 1_000);
    assert!(r.is_ok());
    assert_eq!(tank.remaining, 1_000);
    assert!(tank.remaining <= tank.capacity);
}

#[test]
fn test_complete_rejects_non_executing() {
    let mut b = executing_bead(100);
    b.status = BeadStatus::Pending;
    let mut tank = Tank::new_at(Provider::Nova, 1_000, 5, 0);
    let r = complete_bead(&mut b, &mut tank, 10, "out".to_string(), 5);
    assert!(r.is_err());
    assert_eq!(b.status, BeadStatus::Pending);
}

#[test]
fn test_fail_recoverable_defers_and_refunds() {
    let mut b = executing_bead(2_000);
    let mut tank = Tank::new_at(Provider::Nova, 10_000, 5, 0);
    assert!(tank.consume_at(2_000, 10).is_ok());
    assert_eq!(tank.remaining, 8_000);

    let err = RigsError::HttpError("timeout".to_string());
    let now = 1_000_000i64;
    let r = fail_bead(&mut b, &mut tank, &err, 0, 3, now);
    assert!(r.is_ok());
    assert_eq!(b.status, BeadStatus::Deferred);
    // transient network failures back off by a short fixed cooldown
    assert_eq!(b.deferred_until, Some(now + 5_000));
    // the reservation was refunded
    assert_eq!(tank.remaining, 10_000);
}

#[test]
fn test_fail_rate_limit_waits_for_later_bound() {
    let mut b = executing_bead(2_000);
    // the window ends far beyond the fixed cooldown: the later bound wins
    let mut tank = Tank::new_at(Provider::Nova, 10_000, 5, 1_000_000);
    assert!(tank.consume_at(2_000, 10).is_ok());
    let err = RigsError::RateLimitExceeded {
        provider: Provider::Nova,
        remaining: 0,
        requested: 2_000,
    };
    let now = 1_000_000i64;
    let r = fail_bead(&mut b, &mut tank, &err, 0, 3, now);
    assert!(r.is_ok());
    assert_eq!(b.status, BeadStatus::Deferred);
    assert_eq!(b.deferred_until, Some(tank.window_end));
}

#[test]
fn test_fail_fatal_persists_error_without_refund() {
    let mut b = executing_bead(2_000);
    let mut tank = Tank::new_at(Provider::Nova, 10_000, 5, 0);
    assert!(tank.consume_at(2_000, 10).is_ok());

    let err = RigsError::ConfigError("broken".to_string());
    let r = fail_bead(&mut b, &mut tank, &err, 0, 3, 500);
    assert!(r.is_ok());
    assert_eq!(b.status, BeadStatus::Failed);
    assert_eq!(b.completed_at, Some(500));
    assert_eq!(b.error.as_deref(), Some("Configuration error: broken"));
    // capacity genuinely spent attempting the task is not refunded
    assert_eq!(tank.remaining, 8_000);
}

#[test]
fn test_fail_exhausted_budget_fails() {
    let mut b = executing_bead(1_000);
    let mut tank = Tank::new_at(Provider::Nova, 10_000, 5, 0);
    assert!(tank.consume_at(1_000, 10).is_ok());
    let err = RigsError::HttpError("timeout".to_string());
    // retries already used up: recoverable kind still fails
    let r = fail_bead(&mut b, &mut tank, &err, 3, 3, 500);
    assert!(r.is_ok());
    assert_eq!(b.status, BeadStatus::Failed);
    assert_eq!(tank.remaining, 9_000);
}

#[test]
fn test_cancel_refunds_reservation() {
    let mut b = executing_bead(2_000);
    let mut tank = Tank::new_at(Provider::Nova, 10_000, 5, 0);
    assert!(tank.consume_at(2_000, 10).is_ok());
    assert_eq!(tank.remaining, 8_000);

    let r = rigs::sched::cancel_bead(&mut b, &mut tank, 700);
    assert!(r.is_ok());
    assert_eq!(b.status, BeadStatus::Cancelled);
    assert_eq!(b.completed_at, Some(700));
    assert_eq!(tank.remaining, 10_000);
}

#[test]
fn test_cancel_pending_touches_no_tank() {
    let mut b = executing_bead(2_000);
    b.status = BeadStatus::Pending;
    let mut tank = Tank::new_at(Provider::Nova, 10_000, 5, 0);
    assert!(tank.consume_at(2_000, 10).is_ok());
    let r = rigs::sched::cancel_bead(&mut b, &mut tank, 700);
    assert!(r.is_ok());
    assert_eq!(b.status, BeadStatus::Cancelled);
    assert_eq!(tank.remaining, 8_000);
}
