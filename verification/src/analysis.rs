//! Summaries of the alert history: counts per severity, the most common
//! alert type and the source address that raised the most alerts.

use vstd::prelude::*;
use crate::alerts::{Alert, AlertManager, AlertSeverity, AlertType, spec_count_severity};
use crate::capture::ranking::spec_is_ranking;
use crate::tables::NameCounts;

verus! {

/// How many alerts of `s` have the given type.
pub open spec fn spec_count_type(s: Seq<Alert>, t: AlertType) -> nat
    decreases s.len(),
{
    if s.len() == 0 {
        0
    } else {
        spec_count_type(s.drop_last(), t) + if s.last().alert_type == t {
            1nat
        } else {
            0nat
        }
    }
}

/// How many alerts of `s` name `ip` as their source.
pub open spec fn spec_count_source(s: Seq<Alert>, ip: Seq<char>) -> nat
    decreases s.len(),
{
    if s.len() == 0 {
        0
    } else {
        spec_count_source(s.drop_last(), ip) + match s.last().source_ip {
            Some(x) => if x@ == ip {
                1nat
            } else {
                0nat
            },
            None => 0nat,
        }
    }
}

#[derive(Debug, Clone, PartialEq, Eq)]
pub struct AnalysisReport {
    pub total_alerts: usize,
    pub critical_alerts: usize,
    pub high_alerts: usize,
    pub medium_alerts: usize,
    pub low_alerts: usize,
    pub most_common_alert_type: Option<AlertType>,
    pub top_source_ip: Option<String>,
    pub top_source_count: usize,
}

/// `report` summarises the alerts `s`. Among equally common alert types,
/// and among equally frequent sources, any may be reported.
pub open spec fn spec_is_report_of(report: AnalysisReport, s: Seq<Alert>) -> bool {
    &&& report.total_alerts == s.len()
    &&& report.critical_alerts == spec_count_severity(s, AlertSeverity::Critical)
    &&& report.high_alerts == spec_count_severity(s, AlertSeverity::High)
    &&& report.medium_alerts == spec_count_severity(s, AlertSeverity::Medium)
    &&& report.low_alerts == spec_count_severity(s, AlertSeverity::Low)
    &&& (report.most_common_alert_type is None) == (s.len() == 0)
    &&& (report.most_common_alert_type matches Some(t) ==> forall|u: AlertType|
        spec_count_type(s, u) <= spec_count_type(s, t))
    &&& match report.top_source_ip {
        None => {
            &&& report.top_source_count == 0
            &&& forall|ip: Seq<char>| spec_count_source(s, ip) == 0
        },
        Some(ip) => {
            &&& report.top_source_count == spec_count_source(s, ip@)
            &&& report.top_source_count >= 1
            &&& forall|k: Seq<char>| spec_count_source(s, k) <= report.top_source_count
        },
    }
}

#[derive(Debug, Default)]
pub struct AnalysisEngine;

impl AnalysisEngine {
    pub fn new() -> Self {
        AnalysisEngine
    }

    /// Summarises the alerts held by `alerts`.
    pub fn analyze(&self, alerts: &AlertManager) -> (report: AnalysisReport)
        requires
            alerts.wf(),
        ensures
            spec_is_report_of(report, alerts.spec_alerts()),
    {
        let total_alerts = alerts.count();
        let critical_alerts = alerts.critical_count();
        let high_alerts = alerts.high_count();
        let medium_alerts = alerts.medium_count();
        let low_alerts = alerts.low_count();
        let held = alerts.alerts();
        let ghost s = alerts.spec_alerts();
        let n = held.len();
        let mut anomaly_count: usize = 0;
        let mut ddos_count: usize = 0;
        let mut mitigation_count: usize = 0;
        let mut sources = NameCounts::new();
        let mut i: usize = 0;
        while i < n
            invariant
                n == s.len(),
                held@.len() == n,
                forall|j: int| 0 <= j < n ==> *held@[j] == s[j],
                i <= n,
                anomaly_count == spec_count_type(s.take(i as int), AlertType::TrafficAnomaly),
                ddos_count == spec_count_type(s.take(i as int), AlertType::PotentialDDoS),
                mitigation_count == spec_count_type(
                    s.take(i as int),
                    AlertType::MitigationTriggered,
                ),
                anomaly_count + ddos_count + mitigation_count == i,
                sources.wf(),
                forall|k: Seq<char>|
                    #![trigger sources.spec_map().contains_key(k)]
                    #![trigger spec_count_source(s.take(i as int), k)]
                    (sources.spec_map().contains_key(k) ==> sources.spec_map()[k]
                        == spec_count_source(s.take(i as int), k) && 1 <= sources.spec_map()[k] <= i)
                        && (sources.spec_map().contains_key(k) <== spec_count_source(
                        s.take(i as int),
                        k,
                    ) > 0),
            decreases n - i,
        {
            let a = held[i];
            let ghost prefix = s.take(i as int);
            assert(s.take(i + 1).drop_last() =~= prefix);
            assert(s.take(i + 1).last() == *a);
            match a.alert_type {
                AlertType::TrafficAnomaly => {
                    anomaly_count = anomaly_count + 1;
                },
                AlertType::PotentialDDoS => {
                    ddos_count = ddos_count + 1;
                },
                AlertType::MitigationTriggered => {
                    mitigation_count = mitigation_count + 1;
                },
            }
            let ghost before = sources.spec_map();
            match &a.source_ip {
                Some(ip) => {
                    sources.bump(ip.as_str(), (i + 1) as u64);
                },
                None => {},
            }
            assert forall|k: Seq<char>|
                #![trigger sources.spec_map().contains_key(k)]
                #![trigger spec_count_source(s.take(i + 1), k)]
                (sources.spec_map().contains_key(k) ==> sources.spec_map()[k] == spec_count_source(
                    s.take(i + 1),
                    k,
                ) && 1 <= sources.spec_map()[k] <= i + 1) && (sources.spec_map().contains_key(k)
                    <== spec_count_source(s.take(i + 1), k) > 0) by {
                assert(before.contains_key(k) ==> before[k] == spec_count_source(prefix, k) && 1
                    <= before[k]);
                assert(spec_count_source(prefix, k) > 0 ==> before.contains_key(k));
            }
            i = i + 1;
        }
        assert(s.take(n as int) =~= s);
        proof {
            lemma_type_counts_sum(s);
        }
        let most_common_alert_type = if n == 0 {
            None
        } else {
            let mut best = AlertType::TrafficAnomaly;
            let mut best_count = anomaly_count;
            if ddos_count > best_count {
                best = AlertType::PotentialDDoS;
                best_count = ddos_count;
            }
            if mitigation_count > best_count {
                best = AlertType::MitigationTriggered;
                best_count = mitigation_count;
            }
            proof {
                assert forall|u: AlertType| spec_count_type(s, u) <= spec_count_type(s, best) by {
                    match u {
                        AlertType::TrafficAnomaly => {},
                        AlertType::PotentialDDoS => {},
                        AlertType::MitigationTriggered => {},
                    }
                }
            }
            Some(best)
        };
        let top = sources.top(1);
        proof {
            sources.lemma_finite();
        }
        let (top_source_ip, top_source_count) = if top.len() == 0 {
            proof {
                assert forall|ip: Seq<char>| spec_count_source(s, ip) == 0 by {
                    if spec_count_source(s, ip) > 0 {
                        assert(sources.spec_map().contains_key(ip));
                        assert(sources.spec_map().dom().contains(ip));
                    }
                }
            }
            (None, 0)
        } else {
            let (name, count) = top[0];
            let ghost rv = top@.map_values(|p: (&str, u64)| (p.0@, p.1));
            proof {
                assert(0 < rv.len());
                assert(sources.spec_map().contains_key(rv[0].0));
                assert(rv[0] == (name@, count));
                assert(sources.spec_map().contains_key(name@));
                assert(count <= n);
                assert forall|k: Seq<char>| spec_count_source(s, k) <= count by {
                    if sources.spec_map().contains_key(k) && k != name@ {
                        assert(sources.spec_map()[k] <= rv[0].1);
                    }
                }
            }
            (Some(name.to_owned()), count as usize)
        };
        AnalysisReport {
            total_alerts,
            critical_alerts,
            high_alerts,
            medium_alerts,
            low_alerts,
            most_common_alert_type,
            top_source_ip,
            top_source_count,
        }
    }
}

/// Every alert has exactly one type: the counts per type add up to the
/// number of alerts.
pub proof fn lemma_type_counts_sum(s: Seq<Alert>)
    ensures
        spec_count_type(s, AlertType::TrafficAnomaly) + spec_count_type(s, AlertType::PotentialDDoS)
            + spec_count_type(s, AlertType::MitigationTriggered) == s.len(),
    decreases s.len(),
{
    if s.len() > 0 {
        lemma_type_counts_sum(s.drop_last());
    }
}

/// Every alert has exactly one severity: the counts per severity add up to
/// the number of alerts.
pub proof fn lemma_severity_counts_sum(s: Seq<Alert>)
    ensures
        spec_count_severity(s, AlertSeverity::Critical) + spec_count_severity(s, AlertSeverity::High)
            + spec_count_severity(s, AlertSeverity::Medium) + spec_count_severity(
            s,
            AlertSeverity::Low,
        ) == s.len(),
    decreases s.len(),
{
    if s.len() > 0 {
        lemma_severity_counts_sum(s.drop_last());
    }
}

/// In every report the severity counts add up to the total, and a most
/// common type is named exactly when there is an alert.
pub proof fn lemma_report_totals(report: AnalysisReport, s: Seq<Alert>)
    requires
        spec_is_report_of(report, s),
    ensures
        report.critical_alerts + report.high_alerts + report.medium_alerts + report.low_alerts
            == report.total_alerts,
        report.top_source_count <= report.total_alerts,
{
    lemma_severity_counts_sum(s);
    match report.top_source_ip {
        Some(ip) => {
            lemma_source_count_bounded(s, ip@);
        },
        None => {},
    }
}

/// No source raises more alerts than there are.
pub proof fn lemma_source_count_bounded(s: Seq<Alert>, ip: Seq<char>)
    ensures
        spec_count_source(s, ip) <= s.len(),
    decreases s.len(),
{
    if s.len() > 0 {
        lemma_source_count_bounded(s.drop_last(), ip);
    }
}

} // verus!
