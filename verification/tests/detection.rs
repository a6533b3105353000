use ddos_mitigation_tool::detection::detector::{AnomalyResult, DetectionEngine, TrafficBaseline, ANOMALOUS_SCORE_BITS};

fn mean_of(samples: &[u64]) -> f64 {
    samples.iter().map(|s| *s as f64).sum::<f64>() / samples.len() as f64
}

#[test]
fn baseline_becomes_ready_after_required_samples() {
    let mut baseline = TrafficBaseline::new(3);

    baseline.add_sample(100);
    baseline.add_sample(110);

    assert!(!baseline.is_ready());

    baseline.add_sample(120);

    assert!(baseline.is_ready());
    assert_eq!(baseline.sample_count(), 3);
}

#[test]
fn baseline_keeps_only_recent_samples() {
    let mut baseline = TrafficBaseline::new(3);

    baseline.add_sample(100);
    baseline.add_sample(110);
    baseline.add_sample(120);
    baseline.add_sample(200);

    assert_eq!(baseline.samples(), &[110, 120, 200]);
    assert_eq!(mean_of(baseline.samples()), 143.33333333333334);
}

#[test]
fn detection_engine_learns_until_the_baseline_is_full() {
    let mut engine = DetectionEngine::new(3, 3.0f64.to_bits());

    assert!(!engine.baseline_ready());
    assert_eq!(engine.sample_count(), 0);

    engine.learn(100);
    assert!(!engine.baseline_ready());
    assert_eq!(engine.sample_count(), 1);

    engine.learn(105);
    assert_eq!(engine.sample_count(), 2);

    engine.learn(110);
    assert!(engine.baseline_ready());
    assert_eq!(engine.sample_count(), 3);

    engine.learn(105);
    assert!(engine.baseline_ready());
    assert_eq!(engine.sample_count(), 3);
    assert_eq!(engine.baseline().samples(), &[105, 110, 105]);
    assert_eq!(f64::from_bits(engine.threshold()), 3.0);
}

#[test]
fn anomalous_from_a_combined_score_of_point_eight() {
    let make = |score: f64| {
        AnomalyResult::new(
            200.0f64.to_bits(),
            4.0f64.to_bits(),
            0.5f64.to_bits(),
            0.8f64.to_bits(),
            score.to_bits(),
        )
    };
    assert!(make(0.80).anomalous);
    assert!(make(0.86).anomalous);
    assert!(!make(0.7999999999999999).anomalous);
    assert!(!make(0.3).anomalous);
    assert!(!make(f64::NAN).anomalous);
    assert_eq!(ANOMALOUS_SCORE_BITS, 0.8f64.to_bits());
    let r = make(0.9);
    assert_eq!(f64::from_bits(r.current_value), 200.0);
    assert_eq!(f64::from_bits(r.destination_port_concentration), 0.8);
}

// What the evaluation of a window of 105 packets/s gives against the
// baseline [100, 105, 110] with source and port concentrations 0.50 and
// 0.40: the rate equals the mean, so the z-score is 0.
fn evaluation_of_105() -> AnomalyResult {
    let anomaly_score = (0.0f64 * 0.60) + (0.50f64 * 0.20) + (0.40f64 * 0.20);
    AnomalyResult::new(
        105.0f64.to_bits(),
        0.0f64.to_bits(),
        0.50f64.to_bits(),
        0.40f64.to_bits(),
        anomaly_score.to_bits(),
    )
}

#[test]
fn detection_engine_learns_before_detecting() {
    let mut engine = DetectionEngine::new(3, 3.0f64.to_bits());

    assert!(!engine.baseline_ready());
    assert_eq!(engine.sample_count(), 0);

    assert!(engine.process(100, Some(evaluation_of_105())).is_none());
    assert_eq!(engine.sample_count(), 1);

    assert!(engine.process(105, Some(evaluation_of_105())).is_none());
    assert_eq!(engine.sample_count(), 2);

    assert!(engine.process(110, Some(evaluation_of_105())).is_none());
    assert!(engine.baseline_ready());
    assert_eq!(engine.sample_count(), 3);

    let result = engine.process(105, Some(evaluation_of_105()));

    assert!(result.is_some());
    let result = result.unwrap();
    assert!(!result.anomalous);
    assert_eq!(engine.baseline().samples(), &[105, 110, 105]);
}
