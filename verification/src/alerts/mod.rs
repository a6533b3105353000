//! Security alerts raised from anomaly evaluations, and the bounded history
//! that keeps the newest of them.

use std::collections::VecDeque;
use vstd::prelude::*;
use crate::detection::detector::{AnomalyResult, ANOMALOUS_SCORE_BITS, spec_keep_last};
use crate::ieee754;

verus! {

/// Pattern of the binary64 number 0.90: scores from here on are critical
/// and suggest a DDoS.
pub const CRITICAL_SCORE_BITS: u64 = 0x3FEC_CCCC_CCCC_CCCD;

/// Pattern of the binary64 number 0.80: scores from here on are high.
pub const HIGH_SCORE_BITS: u64 = ANOMALOUS_SCORE_BITS;

/// Pattern of the binary64 number 0.50: scores from here on are medium.
pub const MEDIUM_SCORE_BITS: u64 = 0x3FE0_0000_0000_0000;

#[derive(Debug, Clone, Copy, PartialEq, Eq, Structural)]
pub enum AlertSeverity {
    Low,
    Medium,
    High,
    Critical,
}

#[derive(Debug, Clone, Copy, PartialEq, Eq, Structural, Hash)]
pub enum AlertType {
    TrafficAnomaly,
    PotentialDDoS,
    MitigationTriggered,
}

/// The rank of a severity, from `Low` (0) to `Critical` (3).
pub open spec fn severity_rank(s: AlertSeverity) -> int {
    match s {
        AlertSeverity::Low => 0,
        AlertSeverity::Medium => 1,
        AlertSeverity::High => 2,
        AlertSeverity::Critical => 3,
    }
}

/// The severity that an anomaly score (a binary64 pattern) maps to.
pub open spec fn spec_severity_for(score: u64) -> AlertSeverity {
    if ieee754::spec_ge(score, CRITICAL_SCORE_BITS) {
        AlertSeverity::Critical
    } else if ieee754::spec_ge(score, HIGH_SCORE_BITS) {
        AlertSeverity::High
    } else if ieee754::spec_ge(score, MEDIUM_SCORE_BITS) {
        AlertSeverity::Medium
    } else {
        AlertSeverity::Low
    }
}

/// The alert type that an anomaly score (a binary64 pattern) maps to.
pub open spec fn spec_type_for(score: u64) -> AlertType {
    if ieee754::spec_ge(score, CRITICAL_SCORE_BITS) {
        AlertType::PotentialDDoS
    } else {
        AlertType::TrafficAnomaly
    }
}

/// The message that describes an alert of the given type.
pub open spec fn spec_message_for(t: AlertType) -> Seq<char> {
    match t {
        AlertType::PotentialDDoS => "Potential DDoS traffic pattern detected"@,
        AlertType::TrafficAnomaly => "Abnormal network traffic detected"@,
        AlertType::MitigationTriggered => "Network mitigation was triggered"@,
    }
}

impl AlertSeverity {
    /// Critical from 0.90, high from 0.80, medium from 0.50, low below
    /// (and for NaN). The score is a binary64 bit pattern.
    pub fn from_anomaly_score(score: u64) -> (s: Self)
        ensures
            s == spec_severity_for(score),
    {
        if ieee754::ge(score, CRITICAL_SCORE_BITS) {
            AlertSeverity::Critical
        } else if ieee754::ge(score, HIGH_SCORE_BITS) {
            AlertSeverity::High
        } else if ieee754::ge(score, MEDIUM_SCORE_BITS) {
            AlertSeverity::Medium
        } else {
            AlertSeverity::Low
        }
    }
}

/// A higher anomaly score never gives a lower severity.
pub proof fn lemma_severity_monotone(a: u64, b: u64)
    requires
        ieee754::spec_ge(a, b),
    ensures
        severity_rank(spec_severity_for(a)) >= severity_rank(spec_severity_for(b)),
{
    if ieee754::spec_ge(b, CRITICAL_SCORE_BITS) {
        ieee754::lemma_ge_transitive(a, b, CRITICAL_SCORE_BITS);
    }
    if ieee754::spec_ge(b, HIGH_SCORE_BITS) {
        ieee754::lemma_ge_transitive(a, b, HIGH_SCORE_BITS);
    }
    if ieee754::spec_ge(b, MEDIUM_SCORE_BITS) {
        ieee754::lemma_ge_transitive(a, b, MEDIUM_SCORE_BITS);
    }
}

/// An alert raised from an anomaly score is a potential DDoS exactly when
/// its severity is critical, and it is at least high exactly when the
/// evaluation that produced the score was anomalous.
pub proof fn lemma_alert_classes_agree(score: u64)
    ensures
        (spec_type_for(score) == AlertType::PotentialDDoS) == (spec_severity_for(score)
            == AlertSeverity::Critical),
        (severity_rank(spec_severity_for(score)) >= 2) == ieee754::spec_ge(
            score,
            ANOMALOUS_SCORE_BITS,
        ),
{
    if ieee754::spec_ge(score, CRITICAL_SCORE_BITS) {
        ieee754::lemma_ge_transitive(score, CRITICAL_SCORE_BITS, HIGH_SCORE_BITS);
    }
}

/// A security alert. The packet rate and the anomaly score are binary64
/// bit patterns.
#[derive(Debug, Clone, PartialEq)]
pub struct Alert {
    pub severity: AlertSeverity,
    pub alert_type: AlertType,
    pub source_ip: Option<String>,
    pub packets_per_second: u64,
    pub anomaly_score: u64,
    pub message: String,
}

impl Alert {
    pub fn new(
        severity: AlertSeverity,
        alert_type: AlertType,
        source_ip: Option<String>,
        packets_per_second: u64,
        anomaly_score: u64,
        message: &str,
    ) -> (a: Self)
        ensures
            a.severity == severity,
            a.alert_type == alert_type,
            a.source_ip == source_ip,
            a.packets_per_second == packets_per_second,
            a.anomaly_score == anomaly_score,
            a.message@ == message@,
    {
        Alert {
            severity,
            alert_type,
            source_ip,
            packets_per_second,
            anomaly_score,
            message: message.to_owned(),
        }
    }

    /// The alert for an anomaly evaluation: severity and type follow from
    /// the combined score, the message from the type.
    pub fn from_anomaly(result: &AnomalyResult, source_ip: Option<String>) -> (a: Self)
        ensures
            a.severity == spec_severity_for(result.anomaly_score),
            a.alert_type == spec_type_for(result.anomaly_score),
            a.source_ip == source_ip,
            a.packets_per_second == result.current_value,
            a.anomaly_score == result.anomaly_score,
            a.message@ == spec_message_for(a.alert_type),
    {
        let severity = AlertSeverity::from_anomaly_score(result.anomaly_score);
        let alert_type = if ieee754::ge(result.anomaly_score, CRITICAL_SCORE_BITS) {
            AlertType::PotentialDDoS
        } else {
            AlertType::TrafficAnomaly
        };
        let message = match alert_type {
            AlertType::PotentialDDoS => "Potential DDoS traffic pattern detected",
            AlertType::TrafficAnomaly => "Abnormal network traffic detected",
            AlertType::MitigationTriggered => "Network mitigation was triggered",
        };
        Alert {
            severity,
            alert_type,
            source_ip,
            packets_per_second: result.current_value,
            anomaly_score: result.anomaly_score,
            message: message.to_owned(),
        }
    }

    pub fn critical(
        alert_type: AlertType,
        source_ip: Option<String>,
        packets_per_second: u64,
        anomaly_score: u64,
        message: &str,
    ) -> (a: Self)
        ensures
            a.severity == AlertSeverity::Critical,
            a.alert_type == alert_type,
            a.source_ip == source_ip,
            a.packets_per_second == packets_per_second,
            a.anomaly_score == anomaly_score,
            a.message@ == message@,
    {
        Self::new(
            AlertSeverity::Critical,
            alert_type,
            source_ip,
            packets_per_second,
            anomaly_score,
            message,
        )
    }

    pub fn high(
        alert_type: AlertType,
        source_ip: Option<String>,
        packets_per_second: u64,
        anomaly_score: u64,
        message: &str,
    ) -> (a: Self)
        ensures
            a.severity == AlertSeverity::High,
            a.alert_type == alert_type,
            a.source_ip == source_ip,
            a.packets_per_second == packets_per_second,
            a.anomaly_score == anomaly_score,
            a.message@ == message@,
    {
        Self::new(AlertSeverity::High, alert_type, source_ip, packets_per_second, anomaly_score, message)
    }

    pub fn medium(
        alert_type: AlertType,
        source_ip: Option<String>,
        packets_per_second: u64,
        anomaly_score: u64,
        message: &str,
    ) -> (a: Self)
        ensures
            a.severity == AlertSeverity::Medium,
            a.alert_type == alert_type,
            a.source_ip == source_ip,
            a.packets_per_second == packets_per_second,
            a.anomaly_score == anomaly_score,
            a.message@ == message@,
    {
        Self::new(AlertSeverity::Medium, alert_type, source_ip, packets_per_second, anomaly_score, message)
    }

    pub fn low(
        alert_type: AlertType,
        source_ip: Option<String>,
        packets_per_second: u64,
        anomaly_score: u64,
        message: &str,
    ) -> (a: Self)
        ensures
            a.severity == AlertSeverity::Low,
            a.alert_type == alert_type,
            a.source_ip == source_ip,
            a.packets_per_second == packets_per_second,
            a.anomaly_score == anomaly_score,
            a.message@ == message@,
    {
        Self::new(AlertSeverity::Low, alert_type, source_ip, packets_per_second, anomaly_score, message)
    }
}

/// How many alerts of `s` have the given severity.
pub open spec fn spec_count_severity(s: Seq<Alert>, severity: AlertSeverity) -> nat
    decreases s.len(),
{
    if s.len() == 0 {
        0
    } else {
        spec_count_severity(s.drop_last(), severity) + if s.last().severity == severity {
            1nat
        } else {
            0nat
        }
    }
}

/// The history after adding `a`: nothing is kept when the capacity is 0;
/// otherwise the newest `max` alerts.
pub open spec fn spec_add(s: Seq<Alert>, max: nat, a: Alert) -> Seq<Alert> {
    if max == 0 {
        s
    } else {
        spec_keep_last(s.push(a), max)
    }
}

/// A bounded history of alerts, oldest first.
#[derive(Debug)]
pub struct AlertManager {
    alerts: VecDeque<Alert>,
    max_alerts: usize,
}

impl AlertManager {
    /// The alerts held, oldest first.
    pub closed spec fn spec_alerts(&self) -> Seq<Alert> {
        self.alerts@
    }

    /// How many alerts the history keeps.
    pub closed spec fn spec_max(&self) -> nat {
        self.max_alerts as nat
    }

    /// The history never holds more alerts than it keeps.
    pub closed spec fn wf(&self) -> bool {
        self.alerts@.len() <= self.max_alerts
    }

    /// A well-formed history holds at most as many alerts as it keeps.
    pub proof fn lemma_within_capacity(&self)
        requires
            self.wf(),
        ensures
            self.spec_alerts().len() <= self.spec_max(),
    {
    }

    pub fn new(max_alerts: usize) -> (m: Self)
        ensures
            m.wf(),
            m.spec_alerts() == Seq::<Alert>::empty(),
            m.spec_max() == max_alerts,
    {
        AlertManager { alerts: VecDeque::with_capacity(max_alerts), max_alerts }
    }

    /// Appends an alert; when the history is full the oldest one leaves.
    /// A history of capacity 0 stays empty.
    pub fn add(&mut self, alert: Alert)
        requires
            old(self).wf(),
        ensures
            final(self).wf(),
            final(self).spec_max() == old(self).spec_max(),
            final(self).spec_alerts() == spec_add(
                old(self).spec_alerts(),
                old(self).spec_max(),
                alert,
            ),
    {
        if self.max_alerts == 0 {
            return;
        }
        if self.alerts.len() >= self.max_alerts {
            self.alerts.pop_front();
        }
        self.alerts.push_back(alert);
        assert(self.alerts@ =~= spec_add(old(self).spec_alerts(), old(self).spec_max(), alert));
    }

    /// A history holding the newest `max_alerts` of `stored`, in order, as
    /// adding them one by one would leave it.
    pub fn from_alerts(stored: Vec<Alert>, max_alerts: usize) -> (m: Self)
        ensures
            m.wf(),
            m.spec_max() == max_alerts,
            m.spec_alerts() == (if max_alerts == 0 {
                Seq::<Alert>::empty()
            } else {
                spec_keep_last(stored@, max_alerts as nat)
            }),
    {
        let mut manager = Self::new(max_alerts);
        let mut rest = stored;
        let ghost all = rest@;
        let mut i: usize = 0;
        let n = rest.len();
        while i < n
            invariant
                n == all.len(),
                rest@ == all.skip(i as int),
                0 <= i <= n,
                manager.wf(),
                manager.spec_max() == max_alerts,
                manager.spec_alerts() == (if max_alerts == 0 {
                    Seq::<Alert>::empty()
                } else {
                    spec_keep_last(all.take(i as int), max_alerts as nat)
                }),
            decreases n - i,
        {
            let a = rest.remove(0);
            proof {
                if max_alerts > 0 {
                    lemma_keep_last_push(all.take(i as int), max_alerts as nat, a);
                }
                assert(all.take(i as int).push(a) =~= all.take(i + 1));
                assert(rest@ =~= all.skip(i + 1));
            }
            manager.add(a);
            i = i + 1;
        }
        assert(all.take(n as int) =~= all);
        manager
    }

    pub fn count(&self) -> (n: usize)
        ensures
            n == self.spec_alerts().len(),
    {
        self.alerts.len()
    }

    pub fn is_empty(&self) -> (b: bool)
        ensures
            b == (self.spec_alerts().len() == 0),
    {
        self.alerts.len() == 0
    }

    /// The newest alert, if any.
    pub fn latest(&self) -> (a: Option<&Alert>)
        ensures
            a == (if self.spec_alerts().len() == 0 {
                None
            } else {
                Some(&self.spec_alerts().last())
            }),
    {
        let n = self.alerts.len();
        if n == 0 {
            None
        } else {
            Some(&self.alerts[n - 1])
        }
    }

    /// Up to `limit` alerts, newest first.
    pub fn recent(&self, limit: usize) -> (r: Vec<&Alert>)
        ensures
            r@.len() == (if limit < self.spec_alerts().len() {
                limit as nat
            } else {
                self.spec_alerts().len()
            }),
            forall|i: int|
                0 <= i < r@.len() ==> *r@[i] == self.spec_alerts()[self.spec_alerts().len() - 1
                    - i],
    {
        let n = self.alerts.len();
        let mut r: Vec<&Alert> = Vec::new();
        let mut i: usize = 0;
        while i < n && i < limit
            invariant
                n == self.spec_alerts().len(),
                i <= n,
                i <= limit,
                r@.len() == i,
                forall|j: int|
                    0 <= j < i ==> *r@[j] == self.spec_alerts()[self.spec_alerts().len() - 1 - j],
            decreases n - i,
        {
            r.push(&self.alerts[n - 1 - i]);
            i = i + 1;
        }
        r
    }

    /// How many held alerts have the given severity.
    pub fn count_by_severity(&self, severity: AlertSeverity) -> (n: usize)
        ensures
            n == spec_count_severity(self.spec_alerts(), severity),
    {
        let n = self.alerts.len();
        let mut count: usize = 0;
        let mut i: usize = 0;
        while i < n
            invariant
                n == self.spec_alerts().len(),
                i <= n,
                count <= i,
                count == spec_count_severity(self.spec_alerts().take(i as int), severity),
            decreases n - i,
        {
            assert(self.spec_alerts().take(i + 1).drop_last() =~= self.spec_alerts().take(
                i as int,
            ));
            if self.alerts[i].severity == severity {
                count = count + 1;
            }
            i = i + 1;
        }
        assert(self.spec_alerts().take(n as int) =~= self.spec_alerts());
        count
    }

    pub fn critical_count(&self) -> (n: usize)
        ensures
            n == spec_count_severity(self.spec_alerts(), AlertSeverity::Critical),
    {
        self.count_by_severity(AlertSeverity::Critical)
    }

    pub fn high_count(&self) -> (n: usize)
        ensures
            n == spec_count_severity(self.spec_alerts(), AlertSeverity::High),
    {
        self.count_by_severity(AlertSeverity::High)
    }

    pub fn medium_count(&self) -> (n: usize)
        ensures
            n == spec_count_severity(self.spec_alerts(), AlertSeverity::Medium),
    {
        self.count_by_severity(AlertSeverity::Medium)
    }

    pub fn low_count(&self) -> (n: usize)
        ensures
            n == spec_count_severity(self.spec_alerts(), AlertSeverity::Low),
    {
        self.count_by_severity(AlertSeverity::Low)
    }

    pub fn clear(&mut self)
        requires
            old(self).wf(),
        ensures
            final(self).wf(),
            final(self).spec_max() == old(self).spec_max(),
            final(self).spec_alerts() == Seq::<Alert>::empty(),
    {
        self.alerts.clear();
    }

    /// The alerts held, oldest first (what is written to the alert file).
    pub fn alerts(&self) -> (r: Vec<&Alert>)
        ensures
            r@.len() == self.spec_alerts().len(),
            forall|i: int| 0 <= i < r@.len() ==> *r@[i] == self.spec_alerts()[i],
    {
        let n = self.alerts.len();
        let mut r: Vec<&Alert> = Vec::new();
        let mut i: usize = 0;
        while i < n
            invariant
                n == self.spec_alerts().len(),
                i <= n,
                r@.len() == i,
                forall|j: int| 0 <= j < i ==> *r@[j] == self.spec_alerts()[j],
            decreases n - i,
        {
            r.push(&self.alerts[i]);
            i = i + 1;
        }
        r
    }
}

/// Keeping the newest `max` after every push is keeping the newest `max`
/// of everything pushed.
pub proof fn lemma_keep_last_push(s: Seq<Alert>, max: nat, a: Alert)
    requires
        max > 0,
    ensures
        spec_keep_last(spec_keep_last(s, max).push(a), max) == spec_keep_last(s.push(a), max),
{
    let k = spec_keep_last(s, max);
    assert(spec_keep_last(k.push(a), max) =~= spec_keep_last(s.push(a), max));
}

/// The history never grows past its capacity, however many alerts are added.
pub proof fn lemma_history_bounded(s: Seq<Alert>, max: nat, a: Alert)
    requires
        s.len() <= max,
    ensures
        spec_add(s, max, a).len() <= max,
        max > 0 ==> spec_add(s, max, a).last() == a,
{
}

} // verus!
