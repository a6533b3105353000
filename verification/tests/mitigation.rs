use ddos_mitigation_tool::mitigation::{MitigationAction, MitigationManager};

#[test]
fn mod_manager_starts_empty() {
    let mut manager = MitigationManager::new(60);

    assert_eq!(manager.blocked_count(), 0);
}

#[test]
fn blocks_ip() {
    let mut manager = MitigationManager::new(60);

    let action = manager.block_ip("192.168.1.100");

    assert_eq!(action, MitigationAction::Block);
    assert!(manager.is_blocked("192.168.1.100"));
}

#[test]
fn blocking_already_blocked_ip_does_not_duplicate_entry() {
    let mut manager = MitigationManager::new(60);
    manager.block_ip("192.168.1.100");
    manager.block_ip("192.168.1.100");

    assert_eq!(manager.blocked_count(), 1);
    assert!(manager.is_blocked("192.168.1.100"));
}

#[test]
fn different_ip_is_not_blocked() {
    let mut manager = MitigationManager::new(60);

    manager.block_ip("192.168.1.100");

    assert!(!manager.is_blocked("192.168.1.200"));
}

#[test]
fn unblock_removes_ip() {
    let mut manager = MitigationManager::new(60);

    manager.block_ip("192.168.1.100");

    let action = manager.unblock_ip("192.168.1.100");

    assert_eq!(action, Some(MitigationAction::Unblock));
    assert!(!manager.is_blocked("192.168.1.100"));
}

#[test]
fn unblocking_unknown_ip_returns_none() {
    let mut manager = MitigationManager::new(60);

    assert_eq!(manager.unblock_ip("192.168.1.100"), None);
}

#[test]
fn multiple_ips_can_be_blocked() {
    let mut manager = MitigationManager::new(60);

    manager.block_ip("192.168.1.100");
    manager.block_ip("192.168.1.101");
    manager.block_ip("192.168.1.102");

    assert_eq!(manager.blocked_count(), 3);
}

#[test]
fn score_below_threshold_does_not_trigger_mitigation() {
    let manager = MitigationManager::new(60);
    assert!(!manager.should_mitigate(0.50f64.to_bits(), 0.75f64.to_bits()));
}

#[test]
fn score_at_threshold_triggers_mitigation() {
    let manager = MitigationManager::new(60);

    assert!(manager.should_mitigate(0.75f64.to_bits(), 0.75f64.to_bits()));
}

#[test]
fn score_above_threshold_triggers_mitigation() {
    let manager = MitigationManager::new(60);

    assert!(manager.should_mitigate(0.90f64.to_bits(), 0.75f64.to_bits()));
}

#[test]
fn blocks_end_when_their_time_is_up() {
    let mut manager = MitigationManager::new(2);
    let second: u128 = 1_000_000_000;

    assert_eq!(manager.block_ip_at("10.0.0.1", 0), MitigationAction::Block);
    assert!(manager.is_blocked_at("10.0.0.1", second));
    assert!(manager.is_blocked_at("10.0.0.1", 2 * second - 1));
    assert_eq!(manager.blocked_count_at(2 * second - 1), 1);
    assert!(!manager.is_blocked_at("10.0.0.1", 2 * second));
    assert_eq!(manager.blocked_count_at(2 * second), 0);
}

#[test]
fn blocking_again_does_not_renew_the_block() {
    let mut manager = MitigationManager::new(2);
    let second: u128 = 1_000_000_000;

    manager.block_ip_at("10.0.0.1", 0);
    manager.block_ip_at("10.0.0.1", second);
    assert!(!manager.is_blocked_at("10.0.0.1", 2 * second));

    manager.block_ip_at("10.0.0.1", 2 * second);
    assert!(manager.is_blocked_at("10.0.0.1", 3 * second));
}

#[test]
fn zero_duration_blocks_end_at_once() {
    let mut manager = MitigationManager::new(0);

    manager.block_ip_at("10.0.0.1", 5);
    assert!(!manager.is_blocked_at("10.0.0.1", 5));
}

#[test]
fn unblocking_a_lapsed_block_still_reports_it() {
    let mut manager = MitigationManager::new(1);

    manager.block_ip_at("10.0.0.1", 0);
    assert_eq!(manager.unblock_ip("10.0.0.1"), Some(MitigationAction::Unblock));
    assert_eq!(manager.unblock_ip("10.0.0.1"), None);
}

#[test]
fn blocks_near_the_end_of_the_clock_saturate() {
    let mut manager = MitigationManager::new(u64::MAX);

    manager.block_ip_at("10.0.0.1", u128::MAX - 5);
    assert!(manager.is_blocked_at("10.0.0.1", u128::MAX - 1));
    assert!(!manager.is_blocked_at("10.0.0.1", u128::MAX));
}

#[test]
fn removing_expired_blocks_keeps_live_ones() {
    let mut manager = MitigationManager::new(10);
    let second: u128 = 1_000_000_000;

    manager.block_ip_at("10.0.0.1", 0);
    manager.block_ip_at("10.0.0.2", 5 * second);
    manager.remove_expired_at(12 * second);
    assert_eq!(manager.blocked_count_at(12 * second), 1);
    assert!(manager.is_blocked_at("10.0.0.2", 12 * second));
    manager.remove_expired();
    assert_eq!(manager.blocked_count(), 1);
}

#[test]
fn clock_block_holds_on_every_later_reading_within_its_duration() {
    let mut manager = MitigationManager::new(3600);

    manager.block_ip("10.1.1.1");

    for _ in 0..5 {
        assert!(manager.is_blocked("10.1.1.1"));
        assert_eq!(manager.blocked_count(), 1);
        manager.remove_expired();
    }
    assert!(!manager.is_blocked("10.1.1.2"));
}
