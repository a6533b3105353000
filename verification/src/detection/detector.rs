//! The traffic baseline that anomaly detection learns, and the record of
//! one evaluation against it.

use vstd::prelude::*;
use crate::ieee754;

verus! {

/// Pattern of the binary64 number 0.80: the combined score at which
/// traffic counts as anomalous.
pub const ANOMALOUS_SCORE_BITS: u64 = 0x3FE9_9999_9999_999A;

/// A sliding window of packets-per-second samples.
#[derive(Debug)]
pub struct TrafficBaseline {
    samples: Vec<u64>,
    max_samples: usize,
}

impl TrafficBaseline {
    /// The samples held, oldest first.
    pub closed spec fn spec_samples(&self) -> Seq<u64> {
        self.samples@
    }

    /// How many samples the window keeps.
    pub closed spec fn spec_capacity(&self) -> nat {
        self.max_samples as nat
    }

    /// The window never holds more samples than it keeps.
    pub closed spec fn wf(&self) -> bool {
        self.samples@.len() <= self.max_samples
    }

    /// A well-formed window holds at most as many samples as it keeps.
    pub proof fn lemma_within_capacity(&self)
        requires
            self.wf(),
        ensures
            self.spec_samples().len() <= self.spec_capacity(),
    {
    }

    /// An empty window that keeps `max_samples` samples.
    pub fn new(max_samples: usize) -> (b: Self)
        ensures
            b.wf(),
            b.spec_samples() == Seq::<u64>::empty(),
            b.spec_capacity() == max_samples,
    {
        TrafficBaseline { samples: Vec::new(), max_samples }
    }

    /// Adds a sample; when the window is full the oldest sample leaves it.
    pub fn add_sample(&mut self, packets_per_second: u64)
        requires
            old(self).wf(),
            old(self).spec_capacity() > 0,
        ensures
            final(self).wf(),
            final(self).spec_capacity() == old(self).spec_capacity(),
            final(self).spec_samples() == spec_window_push(
                old(self).spec_samples(),
                old(self).spec_capacity(),
                packets_per_second,
            ),
    {
        if self.samples.len() >= self.max_samples {
            self.samples.remove(0);
        }
        self.samples.push(packets_per_second);
    }

    /// The window is full.
    pub fn is_ready(&self) -> (r: bool)
        ensures
            r == (self.spec_samples().len() >= self.spec_capacity()),
    {
        self.samples.len() >= self.max_samples
    }

    /// How many samples the window holds.
    pub fn sample_count(&self) -> (n: usize)
        ensures
            n == self.spec_samples().len(),
    {
        self.samples.len()
    }

    /// How many samples the window keeps.
    pub fn capacity(&self) -> (n: usize)
        ensures
            n == self.spec_capacity(),
    {
        self.max_samples
    }

    /// The samples held, oldest first.
    pub fn samples(&self) -> (s: &[u64])
        ensures
            s@ == self.spec_samples(),
    {
        self.samples.as_slice()
    }
}

/// The last `capacity` elements of `s` (all of them when it is shorter).
pub open spec fn spec_keep_last<T>(s: Seq<T>, capacity: nat) -> Seq<T> {
    if s.len() <= capacity {
        s
    } else {
        s.subrange(s.len() - capacity, s.len() as int)
    }
}

/// A full window drops its oldest sample before taking a new one.
pub open spec fn spec_window_push(s: Seq<u64>, capacity: nat, v: u64) -> Seq<u64> {
    if s.len() >= capacity {
        s.drop_first().push(v)
    } else {
        s.push(v)
    }
}

/// Adding samples one by one to a window that keeps `capacity` samples
/// leaves exactly the newest `capacity` of all samples added, in order.
pub proof fn lemma_window_keeps_newest(s: Seq<u64>, capacity: nat, v: u64)
    requires
        capacity > 0,
    ensures
        spec_window_push(spec_keep_last(s, capacity), capacity, v) == spec_keep_last(
            s.push(v),
            capacity,
        ),
{
    let k = spec_keep_last(s, capacity);
    if s.len() < capacity {
        assert(spec_window_push(k, capacity, v) =~= s.push(v));
    } else {
        assert(spec_window_push(k, capacity, v) =~= spec_keep_last(s.push(v), capacity));
    }
}

/// One evaluation of current traffic against the baseline.
///
/// The measurements are carried as binary64 bit patterns; `anomalous`
/// holds when the combined score is at least 0.80.
#[derive(Debug, Clone, Copy)]
pub struct AnomalyResult {
    pub current_value: u64,
    pub z_score: u64,
    pub source_concentration: u64,
    pub destination_port_concentration: u64,
    pub anomaly_score: u64,
    pub anomalous: bool,
}

impl AnomalyResult {
    /// Records an evaluation and decides whether its combined score makes
    /// the traffic anomalous.
    pub fn new(
        current_value: u64,
        z_score: u64,
        source_concentration: u64,
        destination_port_concentration: u64,
        anomaly_score: u64,
    ) -> (r: Self)
        ensures
            r.current_value == current_value,
            r.z_score == z_score,
            r.source_concentration == source_concentration,
            r.destination_port_concentration == destination_port_concentration,
            r.anomaly_score == anomaly_score,
            r.anomalous == ieee754::spec_ge(anomaly_score, ANOMALOUS_SCORE_BITS),
    {
        AnomalyResult {
            current_value,
            z_score,
            source_concentration,
            destination_port_concentration,
            anomaly_score,
            anomalous: ieee754::ge(anomaly_score, ANOMALOUS_SCORE_BITS),
        }
    }
}

/// Learns the traffic baseline and decides when current traffic is to be
/// evaluated against it. The threshold is a binary64 pattern: the
/// z-score at which traffic counts as fully anomalous.
#[derive(Debug)]
pub struct DetectionEngine {
    baseline: TrafficBaseline,
    threshold: u64,
}

impl DetectionEngine {
    /// The baseline learnt so far.
    pub closed spec fn spec_baseline(&self) -> TrafficBaseline {
        self.baseline
    }

    /// The z-score threshold (a binary64 pattern).
    pub closed spec fn spec_threshold(&self) -> u64 {
        self.threshold
    }

    pub closed spec fn wf(&self) -> bool {
        self.baseline.wf()
    }

    /// The baseline of a well-formed engine is well-formed.
    pub proof fn lemma_baseline_wf(&self)
        requires
            self.wf(),
        ensures
            self.spec_baseline().wf(),
            self.spec_baseline().spec_samples().len() <= self.spec_baseline().spec_capacity(),
    {
    }

    pub fn new(baseline_samples: usize, threshold: u64) -> (e: Self)
        ensures
            e.wf(),
            e.spec_baseline().spec_samples() == Seq::<u64>::empty(),
            e.spec_baseline().spec_capacity() == baseline_samples,
            e.spec_threshold() == threshold,
    {
        DetectionEngine { baseline: TrafficBaseline::new(baseline_samples), threshold }
    }

    /// Adds a window's packet rate to the baseline. A window is evaluated
    /// against the baseline as it stands before its own rate is added, and
    /// only once the baseline is complete (`baseline_ready`).
    pub fn learn(&mut self, packets_per_second: u64)
        requires
            old(self).wf(),
            old(self).spec_baseline().spec_capacity() > 0,
        ensures
            final(self).wf(),
            final(self).spec_threshold() == old(self).spec_threshold(),
            final(self).spec_baseline().spec_capacity() == old(self).spec_baseline().spec_capacity(),
            final(self).spec_baseline().spec_samples() == spec_window_push(
                old(self).spec_baseline().spec_samples(),
                old(self).spec_baseline().spec_capacity(),
                packets_per_second,
            ),
    {
        self.baseline.add_sample(packets_per_second);
    }

    /// Handles one window's packet rate. While the baseline is not yet
    /// full the rate is learnt and nothing is reported. Once it is full,
    /// `evaluation` (the window evaluated against the baseline as it stands
    /// before this rate is added) is reported, and the rate is learnt.
    pub fn process(&mut self, packets_per_second: u64, evaluation: Option<AnomalyResult>) -> (r:
        Option<AnomalyResult>)
        requires
            old(self).wf(),
            old(self).spec_baseline().spec_capacity() > 0,
        ensures
            final(self).wf(),
            final(self).spec_threshold() == old(self).spec_threshold(),
            final(self).spec_baseline().spec_capacity() == old(self).spec_baseline().spec_capacity(),
            final(self).spec_baseline().spec_samples() == spec_window_push(
                old(self).spec_baseline().spec_samples(),
                old(self).spec_baseline().spec_capacity(),
                packets_per_second,
            ),
            r == (if old(self).spec_baseline().spec_samples().len()
                >= old(self).spec_baseline().spec_capacity() {
                evaluation
            } else {
                None
            }),
    {
        if !self.baseline.is_ready() {
            self.baseline.add_sample(packets_per_second);
            return None;
        }
        self.baseline.add_sample(packets_per_second);
        evaluation
    }

    pub fn baseline_ready(&self) -> (b: bool)
        ensures
            b == (self.spec_baseline().spec_samples().len() >= self.spec_baseline().spec_capacity()),
    {
        self.baseline.is_ready()
    }

    pub fn sample_count(&self) -> (n: usize)
        ensures
            n == self.spec_baseline().spec_samples().len(),
    {
        self.baseline.sample_count()
    }

    pub fn baseline(&self) -> (b: &TrafficBaseline)
        ensures
            *b == self.spec_baseline(),
    {
        &self.baseline
    }

    pub fn threshold(&self) -> (t: u64)
        ensures
            t == self.spec_threshold(),
    {
        self.threshold
    }
}

/// Once the baseline has filled, it stays full: every later window is
/// evaluated.
pub proof fn lemma_ready_stays_ready(s: Seq<u64>, capacity: nat, v: u64)
    requires
        capacity > 0,
        s.len() >= capacity,
        s.len() <= capacity,
    ensures
        spec_window_push(s, capacity, v).len() == capacity,
{
}

/// Before the baseline is full, each window adds one sample; the
/// baseline fills after exactly `capacity` windows.
pub proof fn lemma_learning_counts_windows(s: Seq<u64>, capacity: nat, v: u64)
    requires
        s.len() < capacity,
    ensures
        spec_window_push(s, capacity, v).len() == s.len() + 1,
{
}

} // verus!
