//! Running totals of the traffic, alerts and mitigations seen.

use vstd::prelude::*;

verus! {

#[derive(Debug, Clone, Copy, PartialEq, Eq, Structural)]
pub struct Metrics {
    pub total_packets: u64,
    pub total_bytes: u64,
    pub total_alerts: u64,
    pub critical_alerts: u64,
    pub high_alerts: u64,
    pub medium_alerts: u64,
    pub low_alerts: u64,
    pub anomalies_detected: u64,
    pub mitigation_actions: u64,
    pub blocked_ips: u64,
}

/// All totals at zero.
pub open spec fn spec_zero_metrics() -> Metrics {
    Metrics {
        total_packets: 0,
        total_bytes: 0,
        total_alerts: 0,
        critical_alerts: 0,
        high_alerts: 0,
        medium_alerts: 0,
        low_alerts: 0,
        anomalies_detected: 0,
        mitigation_actions: 0,
        blocked_ips: 0,
    }
}

/// Every alert counted by severity is also counted in the alert total.
pub open spec fn spec_alert_totals_consistent(m: Metrics) -> bool {
    m.critical_alerts + m.high_alerts + m.medium_alerts + m.low_alerts <= m.total_alerts
}

impl Default for Metrics {
    fn default() -> (m: Self)
        ensures
            m == spec_zero_metrics(),
    {
        Metrics::new()
    }
}

impl Metrics {
    pub fn new() -> (m: Self)
        ensures
            m == spec_zero_metrics(),
    {
        Metrics {
            total_packets: 0,
            total_bytes: 0,
            total_alerts: 0,
            critical_alerts: 0,
            high_alerts: 0,
            medium_alerts: 0,
            low_alerts: 0,
            anomalies_detected: 0,
            mitigation_actions: 0,
            blocked_ips: 0,
        }
    }

    /// Counts one packet of `bytes` bytes.
    pub fn record_packet(&mut self, bytes: u64)
        requires
            old(self).total_packets < u64::MAX,
            old(self).total_bytes + bytes <= u64::MAX,
        ensures
            *final(self) == (Metrics {
                total_packets: (old(self).total_packets + 1) as u64,
                total_bytes: (old(self).total_bytes + bytes) as u64,
                ..*old(self)
            }),
    {
        self.total_packets = self.total_packets + 1;
        self.total_bytes = self.total_bytes + bytes;
    }

    /// Counts an alert of no particular severity.
    pub fn record_alert(&mut self)
        requires
            old(self).total_alerts < u64::MAX,
        ensures
            spec_alert_totals_consistent(*old(self)) ==> spec_alert_totals_consistent(
                *final(self),
            ),
            *final(self) == (Metrics {
                total_alerts: (old(self).total_alerts + 1) as u64,
                ..*old(self)
            }),
    {
        self.total_alerts = self.total_alerts + 1;
    }

    pub fn record_critical_alert(&mut self)
        requires
            old(self).total_alerts < u64::MAX,
            old(self).critical_alerts < u64::MAX,
        ensures
            spec_alert_totals_consistent(*old(self)) ==> spec_alert_totals_consistent(
                *final(self),
            ),
            *final(self) == (Metrics {
                critical_alerts: (old(self).critical_alerts + 1) as u64,
                total_alerts: (old(self).total_alerts + 1) as u64,
                ..*old(self)
            }),
    {
        self.critical_alerts = self.critical_alerts + 1;
        self.total_alerts = self.total_alerts + 1;
    }

    pub fn record_high_alert(&mut self)
        requires
            old(self).total_alerts < u64::MAX,
            old(self).high_alerts < u64::MAX,
        ensures
            spec_alert_totals_consistent(*old(self)) ==> spec_alert_totals_consistent(
                *final(self),
            ),
            *final(self) == (Metrics {
                high_alerts: (old(self).high_alerts + 1) as u64,
                total_alerts: (old(self).total_alerts + 1) as u64,
                ..*old(self)
            }),
    {
        self.high_alerts = self.high_alerts + 1;
        self.total_alerts = self.total_alerts + 1;
    }

    pub fn record_medium_alert(&mut self)
        requires
            old(self).total_alerts < u64::MAX,
            old(self).medium_alerts < u64::MAX,
        ensures
            spec_alert_totals_consistent(*old(self)) ==> spec_alert_totals_consistent(
                *final(self),
            ),
            *final(self) == (Metrics {
                medium_alerts: (old(self).medium_alerts + 1) as u64,
                total_alerts: (old(self).total_alerts + 1) as u64,
                ..*old(self)
            }),
    {
        self.medium_alerts = self.medium_alerts + 1;
        self.total_alerts = self.total_alerts + 1;
    }

    pub fn record_low_alert(&mut self)
        requires
            old(self).total_alerts < u64::MAX,
            old(self).low_alerts < u64::MAX,
        ensures
            spec_alert_totals_consistent(*old(self)) ==> spec_alert_totals_consistent(
                *final(self),
            ),
            *final(self) == (Metrics {
                low_alerts: (old(self).low_alerts + 1) as u64,
                total_alerts: (old(self).total_alerts + 1) as u64,
                ..*old(self)
            }),
    {
        self.low_alerts = self.low_alerts + 1;
        self.total_alerts = self.total_alerts + 1;
    }

    pub fn record_anomaly(&mut self)
        requires
            old(self).anomalies_detected < u64::MAX,
        ensures
            *final(self) == (Metrics {
                anomalies_detected: (old(self).anomalies_detected + 1) as u64,
                ..*old(self)
            }),
    {
        self.anomalies_detected = self.anomalies_detected + 1;
    }

    pub fn record_mitigation(&mut self)
        requires
            old(self).mitigation_actions < u64::MAX,
        ensures
            *final(self) == (Metrics {
                mitigation_actions: (old(self).mitigation_actions + 1) as u64,
                ..*old(self)
            }),
    {
        self.mitigation_actions = self.mitigation_actions + 1;
    }

    pub fn set_blocked_ips(&mut self, count: usize)
        ensures
            *final(self) == (Metrics { blocked_ips: count as u64, ..*old(self) }),
    {
        self.blocked_ips = count as u64;
    }

    /// Sets every total back to zero.
    pub fn reset(&mut self)
        ensures
            *final(self) == spec_zero_metrics(),
    {
        *self = Metrics::new();
    }
}

/// The zero state counts no alerts, so its totals are consistent.
pub proof fn lemma_zero_consistent()
    ensures
        spec_alert_totals_consistent(spec_zero_metrics()),
{
}

} // verus!
