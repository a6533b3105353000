use ddos_mitigation_tool::metrics::Metrics;

#[test]
fn metrics_start_empty() {
    let metrics = Metrics::new();

    assert_eq!(metrics.total_packets, 0);
    assert_eq!(metrics.total_bytes, 0);
    assert_eq!(metrics.total_alerts, 0);
    assert_eq!(metrics.anomalies_detected, 0);
    assert_eq!(metrics.mitigation_actions, 0);
    assert_eq!(metrics.blocked_ips, 0);
    assert_eq!(Metrics::default(), metrics);
}

#[test]
fn records_packets_and_bytes() {
    let mut metrics = Metrics::new();

    metrics.record_packet(100);
    metrics.record_packet(200);

    assert_eq!(metrics.total_packets, 2);
    assert_eq!(metrics.total_bytes, 300);
}

#[test]
fn records_alert_severities() {
    let mut metrics = Metrics::new();

    metrics.record_critical_alert();
    metrics.record_high_alert();
    metrics.record_high_alert();
    metrics.record_medium_alert();
    metrics.record_low_alert();

    assert_eq!(metrics.total_alerts, 5);
    assert_eq!(metrics.critical_alerts, 1);
    assert_eq!(metrics.high_alerts, 2);
    assert_eq!(metrics.medium_alerts, 1);
    assert_eq!(metrics.low_alerts, 1);
}

#[test]
fn records_generic_alert() {
    let mut metrics = Metrics::new();

    metrics.record_alert();

    assert_eq!(metrics.total_alerts, 1);
    assert_eq!(metrics.critical_alerts + metrics.high_alerts + metrics.medium_alerts + metrics.low_alerts, 0);
}

#[test]
fn records_anomalies() {
    let mut metrics = Metrics::new();

    metrics.record_anomaly();
    metrics.record_anomaly();

    assert_eq!(metrics.anomalies_detected, 2);
}

#[test]
fn records_mitigations() {
    let mut metrics = Metrics::new();

    metrics.record_mitigation();
    metrics.record_mitigation();

    assert_eq!(metrics.mitigation_actions, 2);
}

#[test]
fn tracks_blocked_ips() {
    let mut metrics = Metrics::new();

    metrics.set_blocked_ips(5);

    assert_eq!(metrics.blocked_ips, 5);
}

#[test]
fn reset_clears_metrics() {
    let mut metrics = Metrics::new();

    metrics.record_packet(500);
    metrics.record_anomaly();
    metrics.record_high_alert();
    metrics.record_mitigation();
    metrics.set_blocked_ips(2);

    metrics.reset();

    assert_eq!(metrics.total_packets, 0);
    assert_eq!(metrics.total_bytes, 0);
    assert_eq!(metrics.total_alerts, 0);
    assert_eq!(metrics.anomalies_detected, 0);
    assert_eq!(metrics.mitigation_actions, 0);
    assert_eq!(metrics.blocked_ips, 0);
    assert_eq!(metrics.high_alerts, 0);
}
