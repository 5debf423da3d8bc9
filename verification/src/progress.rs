//! Progress aggregation.
//!
//! Producers, one per active stream, report how many bytes they moved;
//! a `ProgressReporter` folds those reports into one non-decreasing total
//! for a single consumer.  Reports coalesce into a bounded accumulator, so
//! a slow or absent consumer can never stall a transfer and memory stays
//! constant no matter how fast producers report.

use vstd::prelude::*;

verus! {

/// One producer's report: how many bytes it has moved since its last
/// report.  Ephemeral; consumed by a progress display or a test probe and
/// then discarded.
#[derive(Debug, Clone, Copy, PartialEq, Eq, Structural)]
pub struct ProgressSample {
    pub bytes_delta: usize,
}

/// A progress update of one transfer: an optional total so a consumer can
/// scale, and the increment since the last update.
#[derive(Debug, Clone, Copy)]
pub struct ProgressStat {
    pub total_len: Option<u64>,
    pub increment: usize,
}

impl Default for ProgressStat {
    /// No total known yet, nothing moved yet.
    fn default() -> (r: Self)
        ensures
            r.total_len is None,
            r.increment == 0,
    {
        ProgressStat { total_len: None, increment: 0 }
    }
}

impl ProgressStat {
    /// The same update, carrying the transfer's total length.
    pub fn with_total_len(self, total_len: u64) -> (r: Self)
        ensures
            r.total_len == Some(total_len),
            r.increment == self.increment,
    {
        ProgressStat { total_len: Some(total_len), ..self }
    }

    /// The same update, carrying a byte increment.
    pub fn with_increment(self, inc: usize) -> (r: Self)
        ensures
            r.total_len == self.total_len,
            r.increment == inc,
    {
        ProgressStat { increment: inc, ..self }
    }
}

/// `a + b`, capped at the largest representable total.
pub open spec fn observe(a: u64, b: u64) -> u64 {
    if a + b > u64::MAX {
        u64::MAX
    } else {
        (a + b) as u64
    }
}

/// Order-independence law: the total a reporter observes does not depend on
/// the order in which concurrent producers' reports arrive.
pub proof fn lemma_observe_commutes(t: u64, a: u64, b: u64)
    ensures
        observe(observe(t, a), b) == observe(observe(t, b), a),
{
}

/// Aggregates byte-count reports from any number of producers into one
/// observable, non-decreasing total; reports coalesce while the consumer is
/// away.
pub struct ProgressReporter {
    total: u64,
    pending: u64,
}

impl ProgressReporter {
    /// Total bytes observed so far.
    pub closed spec fn spec_total(self) -> u64 {
        self.total
    }

    /// Bytes observed but not yet handed to the consumer.
    pub closed spec fn spec_pending(self) -> u64 {
        self.pending
    }

    pub closed spec fn wf(self) -> bool {
        self.pending <= self.total
    }

    /// A fresh reporter: nothing observed.
    pub fn new() -> (r: ProgressReporter)
        ensures
            r.wf(),
            r.spec_total() == 0,
            r.spec_pending() == 0,
    {
        ProgressReporter { total: 0, pending: 0 }
    }

    /// Take one producer's report.  Never blocks and never waits on the
    /// consumer: the delta coalesces into the pending accumulator.  The
    /// observed total never decreases.
    pub fn offer(&mut self, sample: ProgressSample) -> (r: ())
        requires
            old(self).wf(),
        ensures
            final (self).wf(),
            final (self).spec_total() == observe(old(self).spec_total(), sample.bytes_delta as u64),
            final (self).spec_pending() == observe(
                old(self).spec_pending(),
                sample.bytes_delta as u64,
            ),
            final (self).spec_total() >= old(self).spec_total(),
    {
        let delta = sample.bytes_delta as u64;
        self.total = if delta > u64::MAX - self.total {
            u64::MAX
        } else {
            self.total + delta
        };
        self.pending = if delta > u64::MAX - self.pending {
            u64::MAX
        } else {
            self.pending + delta
        };
    }

    /// Hand the consumer everything observed since its last visit, as one
    /// coalesced sample.
    pub fn take_pending(&mut self) -> (r: u64)
        requires
            old(self).wf(),
        ensures
            final (self).wf(),
            r == old(self).spec_pending(),
            final (self).spec_pending() == 0,
            final (self).spec_total() == old(self).spec_total(),
    {
        let r = self.pending;
        self.pending = 0;
        r
    }

    /// The running total, for a display that shows absolute progress.
    pub fn total_observed(&self) -> (r: u64)
        ensures
            r == self.spec_total(),
    {
        self.total
    }
}

} // verus!
