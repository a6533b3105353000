use ddos_mitigation_tool::alerts::{Alert, AlertManager, AlertSeverity, AlertType};
use ddos_mitigation_tool::analysis::AnalysisEngine;

fn alert(severity: AlertSeverity, alert_type: AlertType, source_ip: Option<&str>) -> Alert {
    Alert::new(
        severity,
        alert_type,
        source_ip.map(|ip| ip.to_string()),
        500.0f64.to_bits(),
        0.85f64.to_bits(),
        "Test security alert",
    )
}

#[test]
fn empty_alert_manager_produces_empty_report() {
    let manager = AlertManager::new(100);
    let engine = AnalysisEngine::new();

    let report = engine.analyze(&manager);

    assert_eq!(report.total_alerts, 0);
    assert_eq!(report.critical_alerts, 0);
    assert_eq!(report.high_alerts, 0);
    assert_eq!(report.medium_alerts, 0);
    assert_eq!(report.low_alerts, 0);
    assert_eq!(report.most_common_alert_type, None);
    assert_eq!(report.top_source_ip, None);
    assert_eq!(report.top_source_count, 0);
}

#[test]
fn report_counts_alerts_by_severity() {
    let mut manager = AlertManager::new(100);

    manager.add(alert(AlertSeverity::Critical, AlertType::PotentialDDoS, Some("192.168.1.10")));
    manager.add(alert(AlertSeverity::Critical, AlertType::PotentialDDoS, Some("192.168.1.10")));
    manager.add(alert(AlertSeverity::High, AlertType::TrafficAnomaly, Some("192.168.1.20")));
    manager.add(alert(AlertSeverity::Medium, AlertType::TrafficAnomaly, Some("192.168.1.30")));
    manager.add(alert(AlertSeverity::Low, AlertType::TrafficAnomaly, Some("192.168.1.30")));

    let engine = AnalysisEngine::new();
    let report = engine.analyze(&manager);

    assert_eq!(report.total_alerts, 5);
    assert_eq!(report.critical_alerts, 2);
    assert_eq!(report.high_alerts, 1);
    assert_eq!(report.medium_alerts, 1);
    assert_eq!(report.low_alerts, 1);
}

#[test]
fn identifies_most_common_alert_type() {
    let mut manager = AlertManager::new(100);

    manager.add(alert(AlertSeverity::High, AlertType::TrafficAnomaly, Some("192.168.1.10")));
    manager.add(alert(AlertSeverity::High, AlertType::TrafficAnomaly, Some("192.168.1.20")));
    manager.add(alert(AlertSeverity::Critical, AlertType::PotentialDDoS, Some("192.168.1.30")));

    let engine = AnalysisEngine::new();
    let report = engine.analyze(&manager);

    assert_eq!(report.most_common_alert_type, Some(AlertType::TrafficAnomaly));
}

#[test]
fn identifies_top_source_ip() {
    let mut manager = AlertManager::new(100);

    manager.add(alert(AlertSeverity::High, AlertType::TrafficAnomaly, Some("192.168.1.10")));
    manager.add(alert(AlertSeverity::Critical, AlertType::PotentialDDoS, Some("192.168.1.10")));
    manager.add(alert(AlertSeverity::Medium, AlertType::TrafficAnomaly, Some("192.168.1.20")));

    let engine = AnalysisEngine::new();
    let report = engine.analyze(&manager);

    assert_eq!(report.top_source_ip, Some("192.168.1.10".to_string()));

    assert_eq!(report.top_source_count, 2);
}

#[test]
fn handles_alerts_without_source_ip() {
    let mut manager = AlertManager::new(100);

    manager.add(Alert::new(
        AlertSeverity::High,
        AlertType::TrafficAnomaly,
        None,
        500.0f64.to_bits(),
        0.85f64.to_bits(),
        "Unknown source",
    ));

    let engine = AnalysisEngine::new();
    let report = engine.analyze(&manager);

    assert_eq!(report.total_alerts, 1);
    assert_eq!(report.top_source_ip, None);
    assert_eq!(report.top_source_count, 0);
}

#[test]
fn report_severity_counts_add_up() {
    let mut manager = AlertManager::new(4);
    manager.add(alert(AlertSeverity::Low, AlertType::MitigationTriggered, None));
    manager.add(alert(AlertSeverity::High, AlertType::MitigationTriggered, Some("10.0.0.1")));
    manager.add(alert(AlertSeverity::Critical, AlertType::PotentialDDoS, Some("10.0.0.2")));
    manager.add(alert(AlertSeverity::Medium, AlertType::MitigationTriggered, Some("10.0.0.2")));
    manager.add(alert(AlertSeverity::Medium, AlertType::TrafficAnomaly, Some("10.0.0.3")));

    let report = AnalysisEngine::new().analyze(&manager);

    assert_eq!(report.total_alerts, 4);
    assert_eq!(
        report.critical_alerts + report.high_alerts + report.medium_alerts + report.low_alerts,
        report.total_alerts
    );
    assert_eq!(report.most_common_alert_type, Some(AlertType::MitigationTriggered));
    assert_eq!(report.top_source_ip, Some("10.0.0.2".to_string()));
    assert_eq!(report.top_source_count, 2);
}
