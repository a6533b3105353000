//! The decisions that the capture loop takes at the end of a statistics
//! window: raising and recording an alert for an anomalous window, and
//! choosing whether and whom to block.

use vstd::prelude::*;
use crate::alerts::{
    Alert, AlertManager, AlertSeverity, AlertType, spec_add, spec_message_for, spec_severity_for,
    spec_type_for,
};
use crate::capture::stats::TrafficStats;
use crate::config::Config;
use crate::detection::detector::AnomalyResult;
use crate::ieee754;
use crate::metrics::Metrics;
use crate::capture::parser::spec_opt_view;
use crate::mitigation::{MitigationManager, spec_after_block, spec_unexpired, lemma_block_leaves_others};

verus! {

/// What came of a window's mitigation decision.
#[derive(Debug, Clone, PartialEq, Eq)]
pub enum MitigationOutcome {
    /// The anomaly score is below the configured threshold.
    BelowThreshold,
    /// No packet of the window named a source address.
    NoSource,
    /// The busiest source is protected and was left alone.
    Protected(String),
    /// The busiest source was blocked.
    Blocked(String),
}

/// The busiest source address of the window, if any packet named one.
pub fn busiest_source(stats: &TrafficStats) -> (r: Option<String>)
    requires
        stats.wf(),
    ensures
        match r {
            None => forall|k: Seq<char>| !stats.spec_source_counts().contains_key(k),
            Some(ip) => {
                &&& stats.spec_source_counts().contains_key(ip@)
                &&& forall|k: Seq<char>| #[trigger]
                    stats.spec_source_counts().contains_key(k) ==> stats.spec_source_counts()[k]
                        <= stats.spec_source_counts()[ip@]
            },
        },
{
    let top = stats.top_source_ips(1);
    proof {
        stats.lemma_tables_finite();
    }
    if top.len() == 0 {
        proof {
            assert forall|k: Seq<char>| !stats.spec_source_counts().contains_key(k) by {
                if stats.spec_source_counts().contains_key(k) {
                    assert(stats.spec_source_counts().dom().contains(k));
                }
            }
        }
        None
    } else {
        let (ip, _) = top[0];
        proof {
            let rv = top@.map_values(|p: (&str, u64)| (p.0@, p.1));
            assert(stats.spec_source_counts().contains_key(rv[0].0));
            assert(rv[0].0 == ip@);
            assert forall|k: Seq<char>| #[trigger]
                stats.spec_source_counts().contains_key(k) implies stats.spec_source_counts()[k]
                <= stats.spec_source_counts()[ip@] by {
                if k != ip@ {
                    assert(stats.spec_source_counts()[k] <= rv[0].1);
                }
            }
        }
        Some(ip.to_owned())
    }
}

/// The totals after counting one anomaly and one alert of `severity`.
pub open spec fn spec_count_anomaly_alert(m: Metrics, severity: AlertSeverity) -> Metrics {
    let m1 = Metrics { anomalies_detected: (m.anomalies_detected + 1) as u64, total_alerts: (m.total_alerts + 1) as u64, ..m };
    match severity {
        AlertSeverity::Critical => Metrics { critical_alerts: (m.critical_alerts + 1) as u64, ..m1 },
        AlertSeverity::High => Metrics { high_alerts: (m.high_alerts + 1) as u64, ..m1 },
        AlertSeverity::Medium => Metrics { medium_alerts: (m.medium_alerts + 1) as u64, ..m1 },
        AlertSeverity::Low => Metrics { low_alerts: (m.low_alerts + 1) as u64, ..m1 },
    }
}

/// The counter of `m` that counts alerts of `severity`.
pub open spec fn spec_severity_counter(m: Metrics, severity: AlertSeverity) -> u64 {
    match severity {
        AlertSeverity::Critical => m.critical_alerts,
        AlertSeverity::High => m.high_alerts,
        AlertSeverity::Medium => m.medium_alerts,
        AlertSeverity::Low => m.low_alerts,
    }
}

/// The counters that recording an anomalous `result` raises have room.
pub open spec fn spec_alert_room(result: AnomalyResult, m: Metrics) -> bool {
    &&& m.anomalies_detected < u64::MAX
    &&& m.total_alerts < u64::MAX
    &&& spec_severity_counter(m, spec_severity_for(result.anomaly_score)) < u64::MAX
}

/// `ip` is one of the configured protected addresses.
pub open spec fn spec_is_protected(config: Config, ip: Seq<char>) -> bool {
    exists|j: int|
        0 <= j < config.mitigation_protected_ips@.len()
            && #[trigger] config.mitigation_protected_ips@[j]@ == ip
}

/// The mitigation of a window with score `score` and busiest source
/// `top_source` would block that source: the score reaches the threshold
/// and the source is named and not protected.
pub open spec fn spec_would_block(score: u64, top_source: Option<Seq<char>>, config: Config) -> bool {
    &&& ieee754::spec_ge(score, config.mitigation_score_threshold)
    &&& top_source matches Some(ip) && !spec_is_protected(config, ip)
}

/// The view of an optional string slice.
pub open spec fn spec_opt_str(o: Option<&str>) -> Option<Seq<char>> {
    match o {
        Some(s) => Some(s@),
        None => None,
    }
}

/// `outcome`, taking the block list from `before` to `after` and the
/// totals from `m0` to `m1`, is the mitigation of a window with score
/// `score` and busiest source `top_source`: nothing below the threshold,
/// nothing without a source, nothing for a protected address; otherwise
/// the source is blocked at a clock reading, the action is counted and the
/// number of blocked addresses at a later reading is recorded.
pub open spec fn spec_mitigates(
    score: u64,
    top_source: Option<Seq<char>>,
    config: Config,
    before: MitigationManager,
    after: MitigationManager,
    m0: Metrics,
    m1: Metrics,
    outcome: MitigationOutcome,
) -> bool {
    let unchanged = after.spec_blocks() == before.spec_blocks() && after.spec_clock()
        == before.spec_clock() && m1 == m0;
    match outcome {
        MitigationOutcome::BelowThreshold => {
            &&& !ieee754::spec_ge(score, config.mitigation_score_threshold)
            &&& unchanged
        },
        MitigationOutcome::NoSource => {
            &&& ieee754::spec_ge(score, config.mitigation_score_threshold)
            &&& top_source is None
            &&& unchanged
        },
        MitigationOutcome::Protected(ip) => {
            &&& ieee754::spec_ge(score, config.mitigation_score_threshold)
            &&& top_source == Some(ip@)
            &&& spec_is_protected(config, ip@)
            &&& unchanged
        },
        MitigationOutcome::Blocked(ip) => {
            &&& spec_would_block(score, top_source, config)
            &&& top_source == Some(ip@)
            &&& before.spec_clock() <= after.spec_clock()
            &&& exists|blocked_at: u128|
                before.spec_clock() <= blocked_at <= after.spec_clock() && after.spec_blocks()
                    == #[trigger] spec_unexpired(
                    spec_after_block(
                        before.spec_blocks(),
                        ip@,
                        blocked_at,
                        before.spec_block_duration_secs(),
                    ),
                    after.spec_clock(),
                )
            &&& m1 == (Metrics {
                mitigation_actions: (m0.mitigation_actions + 1) as u64,
                blocked_ips: after.spec_blocks().dom().len() as u64,
                ..m0
            })
        },
    }
}

/// `r`, taking the totals from `m0` to `m1` and the alert history from
/// `h0` (keeping `max` alerts) to `h1`, records the evaluation `result` of
/// a window whose busiest source is `source_ip`: nothing for a window that
/// is not anomalous; otherwise the anomaly and the alert raised for it are
/// counted, and the alert is stored.
pub open spec fn spec_records(
    result: AnomalyResult,
    source_ip: Option<String>,
    m0: Metrics,
    m1: Metrics,
    h0: Seq<Alert>,
    max: nat,
    h1: Seq<Alert>,
    r: Option<(AlertSeverity, AlertType)>,
) -> bool {
    match r {
        None => {
            &&& !result.anomalous
            &&& m1 == m0
            &&& h1 == h0
        },
        Some((severity, alert_type)) => {
            &&& result.anomalous
            &&& severity == spec_severity_for(result.anomaly_score)
            &&& alert_type == spec_type_for(result.anomaly_score)
            &&& m1 == spec_count_anomaly_alert(m0, severity)
            &&& exists|a: Alert|
                {
                    &&& a.severity == severity
                    &&& a.alert_type == alert_type
                    &&& a.source_ip == source_ip
                    &&& a.packets_per_second == result.current_value
                    &&& a.anomaly_score == result.anomaly_score
                    &&& a.message@ == spec_message_for(alert_type)
                    &&& h1 == #[trigger] spec_add(h0, max, a)
                }
        },
    }
}

/// Records the outcome of a window's evaluation. A window that is not
/// anomalous is left alone (`None`). An anomalous one counts as an anomaly,
/// raises the alert for it, counts the alert by severity and stores it; the
/// alert's severity and type are returned.
pub fn record_anomaly(
    result: &AnomalyResult,
    source_ip: Option<String>,
    metrics: &mut Metrics,
    alerts: &mut AlertManager,
) -> (r: Option<(AlertSeverity, AlertType)>)
    requires
        old(alerts).wf(),
        result.anomalous ==> spec_alert_room(*result, *old(metrics)),
    ensures
        final(alerts).wf(),
        final(alerts).spec_max() == old(alerts).spec_max(),
        spec_records(
            *result,
            source_ip,
            *old(metrics),
            *final(metrics),
            old(alerts).spec_alerts(),
            old(alerts).spec_max(),
            final(alerts).spec_alerts(),
            r,
        ),
{
    if !result.anomalous {
        return None;
    }
    metrics.record_anomaly();
    let alert = Alert::from_anomaly(result, source_ip);
    let severity = alert.severity;
    let alert_type = alert.alert_type;
    match severity {
        AlertSeverity::Critical => metrics.record_critical_alert(),
        AlertSeverity::High => metrics.record_high_alert(),
        AlertSeverity::Medium => metrics.record_medium_alert(),
        AlertSeverity::Low => metrics.record_low_alert(),
    }
    alerts.add(alert);
    Some((severity, alert_type))
}

/// Decides the mitigation for an anomalous window whose busiest source is
/// `top_source`: nothing below the threshold, nothing without a source,
/// nothing for a protected address; otherwise the source is blocked, the
/// action is counted and the number of blocked addresses is recorded.
pub fn apply_mitigation(
    anomaly_score: u64,
    top_source: Option<&str>,
    config: &Config,
    mitigation: &mut MitigationManager,
    metrics: &mut Metrics,
) -> (outcome: MitigationOutcome)
    requires
        old(mitigation).wf(),
        spec_would_block(anomaly_score, spec_opt_str(top_source), *config) ==> old(
            metrics,
        ).mitigation_actions < u64::MAX,
    ensures
        final(mitigation).wf(),
        final(mitigation).spec_block_duration_secs() == old(mitigation).spec_block_duration_secs(),
        spec_mitigates(
            anomaly_score,
            spec_opt_str(top_source),
            *config,
            *old(mitigation),
            *final(mitigation),
            *old(metrics),
            *final(metrics),
            outcome,
        ),
{
    if !ieee754::ge(anomaly_score, config.mitigation_score_threshold) {
        return MitigationOutcome::BelowThreshold;
    }
    match top_source {
        None => MitigationOutcome::NoSource,
        Some(ip) => {
            if config.is_protected(ip) {
                MitigationOutcome::Protected(ip.to_owned())
            } else {
                mitigation.block_ip(ip);
                metrics.record_mitigation();
                let count = mitigation.blocked_count();
                metrics.set_blocked_ips(count);
                MitigationOutcome::Blocked(ip.to_owned())
            }
        },
    }
}

/// The address on which a firewall rule is to be placed after a window's
/// mitigation: the blocked address when enforcement is enabled, and none
/// otherwise.
pub fn enforcement_target(outcome: &MitigationOutcome, config: &Config) -> (r: Option<String>)
    ensures
        match outcome {
            MitigationOutcome::Blocked(ip) => if config.mitigation_enforcement_enabled {
                r matches Some(t) && t@ == ip@
            } else {
                r is None
            },
            _ => r is None,
        },
{
    match outcome {
        MitigationOutcome::Blocked(ip) => {
            if config.mitigation_enforcement_enabled {
                Some(ip.clone())
            } else {
                None
            }
        },
        _ => None,
    }
}

/// A mitigation never puts a protected address on the block list: any
/// protected address listed afterwards was listed before.
pub proof fn lemma_protected_never_blocked(
    score: u64,
    top_source: Option<Seq<char>>,
    config: Config,
    before: MitigationManager,
    after: MitigationManager,
    m0: Metrics,
    m1: Metrics,
    outcome: MitigationOutcome,
    protected: Seq<char>,
)
    requires
        spec_mitigates(score, top_source, config, before, after, m0, m1, outcome),
        spec_is_protected(config, protected),
        after.spec_blocks().contains_key(protected),
    ensures
        before.spec_blocks().contains_key(protected),
{
    if let MitigationOutcome::Blocked(ip) = outcome {
        let blocked_at = choose|blocked_at: u128|
            before.spec_clock() <= blocked_at <= after.spec_clock() && after.spec_blocks()
                == #[trigger] spec_unexpired(
                spec_after_block(
                    before.spec_blocks(),
                    ip@,
                    blocked_at,
                    before.spec_block_duration_secs(),
                ),
                after.spec_clock(),
            );
        assert(ip@ != protected);
        lemma_block_leaves_others(
            before.spec_blocks(),
            ip@,
            protected,
            blocked_at,
            before.spec_block_duration_secs(),
        );
    }
}

/// What a window's evaluation led to.
#[derive(Debug, Clone, PartialEq, Eq)]
pub struct WindowActions {
    /// The severity and type of the alert raised for an anomalous window.
    pub alert: Option<(AlertSeverity, AlertType)>,
    /// The mitigation decided for an anomalous window.
    pub mitigation: Option<MitigationOutcome>,
    /// The address on which to place a firewall rule.
    pub firewall: Option<String>,
}

/// The totals after recording an evaluation that raised `alert`.
pub open spec fn spec_after_record(m: Metrics, alert: Option<(AlertSeverity, AlertType)>) -> Metrics {
    match alert {
        None => m,
        Some((severity, _)) => spec_count_anomaly_alert(m, severity),
    }
}

/// Acts on the evaluation `result` of a window whose busiest source is
/// `source_ip`, in the order the capture loop takes: a window that is not
/// anomalous is left alone; an anomalous one is recorded and alerted, then
/// mitigated; a firewall rule is called for only when its source was
/// blocked and enforcement is enabled.
pub fn act_on_evaluation(
    result: &AnomalyResult,
    source_ip: Option<String>,
    config: &Config,
    metrics: &mut Metrics,
    alerts: &mut AlertManager,
    mitigation: &mut MitigationManager,
) -> (w: WindowActions)
    requires
        old(alerts).wf(),
        old(mitigation).wf(),
        result.anomalous ==> spec_alert_room(*result, *old(metrics)),
        result.anomalous && spec_would_block(
            result.anomaly_score,
            spec_opt_view(source_ip),
            *config,
        ) ==> old(metrics).mitigation_actions < u64::MAX,
    ensures
        final(alerts).wf(),
        final(alerts).spec_max() == old(alerts).spec_max(),
        final(mitigation).wf(),
        final(mitigation).spec_block_duration_secs() == old(mitigation).spec_block_duration_secs(),
        spec_records(
            *result,
            source_ip,
            *old(metrics),
            spec_after_record(*old(metrics), w.alert),
            old(alerts).spec_alerts(),
            old(alerts).spec_max(),
            final(alerts).spec_alerts(),
            w.alert,
        ),
        match w.mitigation {
            None => {
                &&& !result.anomalous
                &&& final(mitigation).spec_blocks() == old(mitigation).spec_blocks()
                &&& final(mitigation).spec_clock() == old(mitigation).spec_clock()
                &&& *final(metrics) == *old(metrics)
            },
            Some(outcome) => {
                &&& result.anomalous
                &&& spec_mitigates(
                    result.anomaly_score,
                    spec_opt_view(source_ip),
                    *config,
                    *old(mitigation),
                    *final(mitigation),
                    spec_after_record(*old(metrics), w.alert),
                    *final(metrics),
                    outcome,
                )
            },
        },
        match w.firewall {
            Some(ip) => {
                &&& config.mitigation_enforcement_enabled
                &&& w.mitigation matches Some(MitigationOutcome::Blocked(b)) && b@ == ip@
            },
            None => !(config.mitigation_enforcement_enabled && w.mitigation matches Some(
                MitigationOutcome::Blocked(_),
            )),
        },
        forall|p: Seq<char>|
            spec_is_protected(*config, p) && #[trigger] final(mitigation).spec_blocks().contains_key(p)
                ==> old(mitigation).spec_blocks().contains_key(p),
        w.firewall matches Some(ip) ==> {
            &&& result.anomalous
            &&& config.mitigation_enforcement_enabled
            &&& spec_would_block(result.anomaly_score, spec_opt_view(source_ip), *config)
            &&& spec_opt_view(source_ip) == Some(ip@)
        },
{
    let top: Option<String> = match &source_ip {
        Some(ip) => Some(ip.clone()),
        None => None,
    };
    let alert = record_anomaly(result, source_ip, metrics, alerts);
    if alert.is_none() {
        return WindowActions { alert, mitigation: None, firewall: None };
    }
    let top_ref: Option<&str> = match &top {
        Some(ip) => Some(ip.as_str()),
        None => None,
    };
    let ghost before = *mitigation;
    let ghost m_mid = *metrics;
    let outcome = apply_mitigation(result.anomaly_score, top_ref, config, mitigation, metrics);
    proof {
        assert forall|p: Seq<char>|
            spec_is_protected(*config, p) && #[trigger] mitigation.spec_blocks().contains_key(p)
                implies before.spec_blocks().contains_key(p) by {
            lemma_protected_never_blocked(
                result.anomaly_score,
                spec_opt_str(top_ref),
                *config,
                before,
                *mitigation,
                m_mid,
                *metrics,
                outcome,
                p,
            );
        }
    }
    let firewall = enforcement_target(&outcome, config);
    WindowActions { alert, mitigation: Some(outcome), firewall }
}

} // verus!
