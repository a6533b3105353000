use ddos_mitigation_tool::alerts::{Alert, AlertManager, AlertSeverity, AlertType};
use ddos_mitigation_tool::detection::detector::AnomalyResult;

fn bits(x: f64) -> u64 {
    x.to_bits()
}

fn test_alert(severity: AlertSeverity) -> Alert {
    Alert::new(
        severity,
        AlertType::TrafficAnomaly,
        Some("192.168.1.100".to_string()),
        bits(500.0),
        bits(0.85),
        "Test alert",
    )
}

fn test_anomaly(score: f64) -> AnomalyResult {
    AnomalyResult {
        current_value: bits(500.0),
        z_score: bits(5.0),
        source_concentration: bits(0.75),
        destination_port_concentration: bits(0.70),
        anomaly_score: bits(score),
        anomalous: score >= 0.80,
    }
}

#[test]
fn creates_alert_successfully() {
    let alert = Alert::new(
        AlertSeverity::High,
        AlertType::TrafficAnomaly,
        Some("192.168.1.100".to_string()),
        bits(500.0),
        bits(0.85),
        "Abnormal traffic detected",
    );

    assert_eq!(alert.severity, AlertSeverity::High);
    assert_eq!(alert.alert_type, AlertType::TrafficAnomaly);
    assert_eq!(alert.source_ip.as_deref(), Some("192.168.1.100"));
    assert_eq!(f64::from_bits(alert.packets_per_second), 500.0);
    assert_eq!(f64::from_bits(alert.anomaly_score), 0.85);
    assert_eq!(alert.message, "Abnormal traffic detected");
}

#[test]
fn critical_alert_has_critical_severity() {
    let alert = Alert::critical(
        AlertType::PotentialDDoS,
        Some("10.0.0.50".to_string()),
        bits(1000.0),
        bits(0.95),
        "Potential DDoS attack detected",
    );

    assert_eq!(alert.severity, AlertSeverity::Critical);
}

#[test]
fn high_alert_has_high_severity() {
    let alert = Alert::high(AlertType::TrafficAnomaly, None, bits(400.0), bits(0.75), "High traffic anomaly");

    assert_eq!(alert.severity, AlertSeverity::High);
}

#[test]
fn medium_alert_has_medium_severity() {
    let alert = Alert::medium(AlertType::TrafficAnomaly, None, bits(300.0), bits(0.6), "Medium anomaly");

    assert_eq!(alert.severity, AlertSeverity::Medium);
    assert_eq!(alert.message, "Medium anomaly");
}

#[test]
fn alert_can_have_no_source_ip() {
    let alert = Alert::low(AlertType::TrafficAnomaly, None, bits(100.0), bits(0.20), "Low severity anomaly");

    assert_eq!(alert.source_ip, None);
    assert_eq!(alert.severity, AlertSeverity::Low);
}

#[test]
fn severity_is_critical_for_very_high_score() {
    assert_eq!(AlertSeverity::from_anomaly_score(bits(0.95)), AlertSeverity::Critical);
}

#[test]
fn severity_is_high_for_anomalous_score() {
    assert_eq!(AlertSeverity::from_anomaly_score(bits(0.85)), AlertSeverity::High);
}

#[test]
fn severity_is_medium_for_moderate_score() {
    assert_eq!(AlertSeverity::from_anomaly_score(bits(0.60)), AlertSeverity::Medium);
}

#[test]
fn severity_is_low_for_low_score() {
    assert_eq!(AlertSeverity::from_anomaly_score(bits(0.30)), AlertSeverity::Low);
}

#[test]
fn severity_boundaries_are_inclusive() {
    assert_eq!(AlertSeverity::from_anomaly_score(bits(0.90)), AlertSeverity::Critical);
    assert_eq!(AlertSeverity::from_anomaly_score(bits(0.80)), AlertSeverity::High);
    assert_eq!(AlertSeverity::from_anomaly_score(bits(0.50)), AlertSeverity::Medium);
    assert_eq!(AlertSeverity::from_anomaly_score(bits(0.8999999999999999)), AlertSeverity::High);
    assert_eq!(AlertSeverity::from_anomaly_score(bits(0.7999999999999999)), AlertSeverity::Medium);
    assert_eq!(AlertSeverity::from_anomaly_score(bits(0.49999999999999994)), AlertSeverity::Low);
}

#[test]
fn severity_of_unusual_scores() {
    assert_eq!(AlertSeverity::from_anomaly_score(bits(f64::NAN)), AlertSeverity::Low);
    assert_eq!(AlertSeverity::from_anomaly_score(bits(-0.95)), AlertSeverity::Low);
    assert_eq!(AlertSeverity::from_anomaly_score(bits(-0.0)), AlertSeverity::Low);
    assert_eq!(AlertSeverity::from_anomaly_score(bits(f64::INFINITY)), AlertSeverity::Critical);
    assert_eq!(AlertSeverity::from_anomaly_score(bits(f64::NEG_INFINITY)), AlertSeverity::Low);
    assert_eq!(AlertSeverity::from_anomaly_score(bits(7.5)), AlertSeverity::Critical);
}

#[test]
fn severity_thresholds_are_the_documented_numbers() {
    assert_eq!(ddos_mitigation_tool::alerts::CRITICAL_SCORE_BITS, bits(0.90));
    assert_eq!(ddos_mitigation_tool::alerts::HIGH_SCORE_BITS, bits(0.80));
    assert_eq!(ddos_mitigation_tool::alerts::MEDIUM_SCORE_BITS, bits(0.50));
}

#[test]
fn alert_can_be_created_from_anomaly_result() {
    let result = test_anomaly(0.85);

    let alert = Alert::from_anomaly(&result, Some("192.168.1.100".to_string()));

    assert_eq!(alert.severity, AlertSeverity::High);
    assert_eq!(alert.alert_type, AlertType::TrafficAnomaly);
    assert_eq!(alert.source_ip.as_deref(), Some("192.168.1.100"));
    assert_eq!(f64::from_bits(alert.packets_per_second), 500.0);
    assert_eq!(f64::from_bits(alert.anomaly_score), 0.85);
    assert_eq!(alert.message, "Abnormal network traffic detected");
}

#[test]
fn very_high_anomaly_is_potential_ddos() {
    let result = test_anomaly(0.95);

    let alert = Alert::from_anomaly(&result, None);

    assert_eq!(alert.severity, AlertSeverity::Critical);
    assert_eq!(alert.alert_type, AlertType::PotentialDDoS);
    assert_eq!(alert.message, "Potential DDoS traffic pattern detected");
}

#[test]
fn ddos_type_goes_with_critical_severity() {
    for score in [0.0, 0.3, 0.5, 0.79, 0.8, 0.85, 0.8999, 0.9, 0.95, 1.0, 2.0] {
        let alert = Alert::from_anomaly(&test_anomaly(score), None);
        assert_eq!(
            alert.alert_type == AlertType::PotentialDDoS,
            alert.severity == AlertSeverity::Critical
        );
    }
}

#[test]
fn manager_starts_empty() {
    let manager = AlertManager::new(100);

    assert_eq!(manager.count(), 0);
    assert!(manager.is_empty());
    assert!(manager.latest().is_none());
}

#[test]
fn manager_stores_alert() {
    let mut manager = AlertManager::new(100);

    manager.add(test_alert(AlertSeverity::High));

    assert_eq!(manager.count(), 1);
    assert!(!manager.is_empty());
    assert!(manager.latest().is_some());
}

#[test]
fn latest_returns_most_recent_alert() {
    let mut manager = AlertManager::new(100);

    manager.add(test_alert(AlertSeverity::Low));
    manager.add(test_alert(AlertSeverity::Critical));

    assert_eq!(manager.latest().unwrap().severity, AlertSeverity::Critical);
}

#[test]
fn manager_limits_alert_storage() {
    let mut manager = AlertManager::new(2);

    manager.add(test_alert(AlertSeverity::Low));
    manager.add(test_alert(AlertSeverity::Medium));
    manager.add(test_alert(AlertSeverity::Critical));

    assert_eq!(manager.count(), 2);
    assert_eq!(manager.recent(2)[0].severity, AlertSeverity::Critical);
    assert_eq!(manager.recent(2)[1].severity, AlertSeverity::Medium);
}

#[test]
fn recent_returns_newest_first() {
    let mut manager = AlertManager::new(10);

    manager.add(test_alert(AlertSeverity::Low));
    manager.add(test_alert(AlertSeverity::High));
    manager.add(test_alert(AlertSeverity::Critical));

    let recent = manager.recent(2);

    assert_eq!(recent.len(), 2);
    assert_eq!(recent[0].severity, AlertSeverity::Critical);
    assert_eq!(recent[1].severity, AlertSeverity::High);
}

#[test]
fn recent_limit_can_be_smaller_than_total() {
    let mut manager = AlertManager::new(10);

    manager.add(test_alert(AlertSeverity::Low));
    manager.add(test_alert(AlertSeverity::Medium));
    manager.add(test_alert(AlertSeverity::High));

    assert_eq!(manager.recent(1).len(), 1);
    assert_eq!(manager.recent(5).len(), 3);
}

#[test]
fn counts_alerts_by_severity() {
    let mut manager = AlertManager::new(10);

    manager.add(test_alert(AlertSeverity::Critical));
    manager.add(test_alert(AlertSeverity::Critical));
    manager.add(test_alert(AlertSeverity::High));
    manager.add(test_alert(AlertSeverity::Medium));
    manager.add(test_alert(AlertSeverity::Low));

    assert_eq!(manager.critical_count(), 2);
    assert_eq!(manager.high_count(), 1);
    assert_eq!(manager.medium_count(), 1);
    assert_eq!(manager.low_count(), 1);
    assert_eq!(manager.count_by_severity(AlertSeverity::Critical), 2);
}

#[test]
fn clear_removes_all_alerts() {
    let mut manager = AlertManager::new(10);

    manager.add(test_alert(AlertSeverity::High));
    manager.add(test_alert(AlertSeverity::Critical));

    manager.clear();

    assert_eq!(manager.count(), 0);
    assert!(manager.is_empty());
    assert!(manager.latest().is_none());
}

#[test]
fn zero_capacity_manager_stays_empty() {
    let mut manager = AlertManager::new(0);

    manager.add(test_alert(AlertSeverity::Critical));

    assert_eq!(manager.count(), 0);
    assert!(manager.is_empty());
}

#[test]
fn history_keeps_newest_alerts_in_order() {
    let mut manager = AlertManager::new(3);
    let severities = [
        AlertSeverity::Low,
        AlertSeverity::Medium,
        AlertSeverity::High,
        AlertSeverity::Critical,
        AlertSeverity::Low,
    ];
    for s in severities {
        manager.add(test_alert(s));
        assert!(manager.count() <= 3);
    }
    let held: Vec<AlertSeverity> = manager.alerts().iter().map(|a| a.severity).collect();
    assert_eq!(held, vec![AlertSeverity::High, AlertSeverity::Critical, AlertSeverity::Low]);
}

#[test]
fn history_from_stored_alerts_matches_adding_them() {
    let stored: Vec<Alert> = [
        AlertSeverity::Low,
        AlertSeverity::Medium,
        AlertSeverity::High,
        AlertSeverity::Critical,
    ]
    .iter()
    .map(|s| test_alert(*s))
    .collect();
    let manager = AlertManager::from_alerts(stored, 2);
    assert_eq!(manager.count(), 2);
    assert_eq!(manager.recent(2)[0].severity, AlertSeverity::Critical);
    assert_eq!(manager.recent(2)[1].severity, AlertSeverity::High);

    let empty = AlertManager::from_alerts(vec![test_alert(AlertSeverity::Low)], 0);
    assert!(empty.is_empty());
}
