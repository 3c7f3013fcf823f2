use rigs::provider::Provider;
use rigs::tank::{Tank, TankHealth};

#[test]
fn test_tank_creation() {
    let tank = Tank::new(Provider::Nova, 100_000, 5);
    assert_eq!(tank.capacity, 100_000);
    assert_eq!(tank.remaining, 100_000);
    assert_eq!(tank.health, TankHealth::Green);
}

#[test]
fn test_tank_consumption() {
    let mut tank = Tank::new(Provider::Nova, 100_000, 5);

    assert!(tank.consume(50_000).is_ok());
    assert_eq!(tank.remaining, 50_000);
    assert_eq!(tank.health, TankHealth::Yellow);

    assert!(tank.consume(40_000).is_ok());
    assert_eq!(tank.remaining, 10_000);
    assert_eq!(tank.health, TankHealth::Red);

    // Can't consume more than available
    assert!(tank.consume(20_000).is_err());
    assert_eq!(tank.remaining, 10_000);
}

#[test]
fn test_tank_insufficient_capacity_error() {
    let mut tank = Tank::new(Provider::Codex, 1_000, 5);
    assert!(tank.consume(990).is_ok());
    let err = tank.consume(20).unwrap_err();
    assert_eq!(err.requested, 20);
    assert_eq!(err.available, 10);
    assert_eq!(err.provider, Provider::Codex);
    assert_eq!(tank.remaining, 10);
}

#[test]
fn test_tank_health() {
    // ratios in thousandths of capacity
    assert_eq!(TankHealth::from_ratio(600, 1000, 500, 200), TankHealth::Green);
    assert_eq!(TankHealth::from_ratio(300, 1000, 500, 200), TankHealth::Yellow);
    assert_eq!(TankHealth::from_ratio(100, 1000, 500, 200), TankHealth::Red);
    assert_eq!(TankHealth::from_ratio(0, 1000, 500, 200), TankHealth::Empty);
}

#[test]
fn test_tank_health_boundaries() {
    // both threshold boundaries fall in the yellow band
    assert_eq!(TankHealth::from_ratio(500, 1000, 500, 200), TankHealth::Yellow);
    assert_eq!(TankHealth::from_ratio(200, 1000, 500, 200), TankHealth::Yellow);
    assert_eq!(TankHealth::from_ratio(199, 1000, 500, 200), TankHealth::Red);
    assert_eq!(TankHealth::from_ratio(501, 1000, 500, 200), TankHealth::Green);
}

#[test]
fn test_tank_empty_locks_out() {
    let mut tank = Tank::new(Provider::Gemini, 100, 5);
    assert!(tank.consume(100).is_ok());
    assert_eq!(tank.health, TankHealth::Empty);
    assert!(!tank.can_consume(0));
    assert!(tank.consume(0).is_err());
}

#[test]
fn test_tank_reset_window() {
    let mut tank = Tank::new(Provider::Nova, 1_000, 5);
    assert!(tank.consume(900).is_ok());
    tank.reset_window(5);
    assert_eq!(tank.remaining, 1_000);
    assert_eq!(tank.tokens_this_window, 0);
    assert_eq!(tank.requests_this_window, 0);
    assert_eq!(tank.health, TankHealth::Green);
    assert_eq!(tank.window_end - tank.window_start, 5 * 3_600_000);
}

#[test]
fn test_tank_update_remaining_clamps() {
    let mut tank = Tank::new(Provider::Nova, 1_000, 5);
    tank.update_remaining(5_000, 500, 200);
    assert_eq!(tank.remaining, 1_000);
    tank.update_remaining(100, 500, 200);
    assert_eq!(tank.remaining, 100);
    assert_eq!(tank.health, TankHealth::Red);
}

#[test]
fn test_tank_time_until_reset() {
    let tank = Tank::new_at(Provider::Nova, 1_000, 1, 1_000_000);
    assert_eq!(tank.window_end, 1_000_000 + 3_600_000);
    assert_eq!(tank.time_until_reset(1_000_000), 3_600_000);
    assert_eq!(tank.time_until_reset(4_600_000), 0);
    assert_eq!(tank.time_until_reset(5_000_000), 0);
    assert!(tank.needs_refresh(4_600_000));
    assert!(!tank.needs_refresh(1_000_000));
}

#[test]
fn test_tank_counters_accumulate() {
    let mut tank = Tank::new(Provider::Nova, 10_000, 5);
    assert!(tank.consume(1_000).is_ok());
    assert!(tank.consume(2_000).is_ok());
    assert_eq!(tank.tokens_this_window, 3_000);
    assert_eq!(tank.requests_this_window, 2);
    assert!(tank.last_request.is_some());
}

#[test]
fn test_zero_capacity_tank_starts_empty() {
    // health is a pure function of the remaining/capacity ratio, so a
    // tank with no capacity is empty from the start and locked out
    let tank = Tank::new_at(Provider::Nova, 0, 5, 0);
    assert_eq!(tank.health, TankHealth::Empty);
    assert!(!tank.can_consume(0));
    let fresh = Tank::new(Provider::Gemini, 1, 5);
    assert_eq!(fresh.health, TankHealth::Green);
}
