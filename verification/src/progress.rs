//! Progress accounting: the shared byte counter the writer stage bumps,
//! the monitor state that turns it into reported deltas, and the
//! classification of a copy operation.

use vstd::prelude::*;

verus! {

/// Represents different types of progress tracking.  The kind drives the
/// numeric target and the completion message; it is computed once, before
/// the pipeline starts, and never changes.
#[derive(Clone, Copy, Debug, PartialEq, Eq, Structural)]
pub enum ProgressType {
    FileTransfer,
    StreamTransfer,
    FillWithZeros,
    FillWithRandom,
}

impl ProgressType {
    /// The completion message keyed by the kind of copy.
    pub open spec fn spec_completion_message(self) -> Seq<char> {
        match self {
            ProgressType::FileTransfer => "File copy complete!"@,
            ProgressType::StreamTransfer => "Stream complete!"@,
            ProgressType::FillWithZeros => "Data has been overwritten with zeros!"@,
            ProgressType::FillWithRandom => "Data has been overwritten with random data!"@,
        }
    }

    /// The completion message keyed by the kind of copy.
    pub fn completion_message(&self) -> (m: String)
        ensures
            m@ == self.spec_completion_message(),
    {
        match self {
            ProgressType::FileTransfer => "File copy complete!".to_owned(),
            ProgressType::StreamTransfer => "Stream complete!".to_owned(),
            ProgressType::FillWithZeros => "Data has been overwritten with zeros!".to_owned(),
            ProgressType::FillWithRandom => "Data has been overwritten with random data!".to_owned(),
        }
    }
}

/// Whether the progress display can be a bounded bar: only a copy with a
/// known target that is not a stream gets one; everything else is shown
/// as an unbounded spinner.
pub fn uses_bounded_bar(total_size: Option<u64>, progress_type: &ProgressType) -> (r: bool)
    ensures
        r == (total_size is Some && !(progress_type is StreamTransfer)),
{
    match (total_size, progress_type) {
        (Some(_), ProgressType::FileTransfer) => true,
        (Some(_), ProgressType::FillWithZeros) => true,
        (Some(_), ProgressType::FillWithRandom) => true,
        _ => false,
    }
}

/// Addition on a `u64` total that stops at the largest representable
/// value instead of wrapping.
pub open spec fn sat_add(total: u64, n: nat) -> u64 {
    if total + n <= u64::MAX {
        (total + n) as u64
    } else {
        u64::MAX
    }
}

/// The cumulative byte total of one copy operation.  Only the writer
/// stage adds to it, only the monitor reads it, and it never decreases
/// while a copy runs.
pub struct TransferCounter {
    pub total: u64,
}

impl TransferCounter {
    /// A counter that has seen no bytes yet.
    pub fn new() -> (c: TransferCounter)
        ensures
            c.total == 0,
    {
        TransferCounter { total: 0 }
    }

    /// Add the byte count of a drained buffer, saturating at the largest
    /// representable total.
    pub fn add(&mut self, n: usize)
        ensures
            final(self).total == sat_add(old(self).total, n as nat),
            old(self).total <= final(self).total,
    {
        let m = n as u64;
        if self.total <= u64::MAX - m {
            self.total = self.total + m;
        } else {
            self.total = u64::MAX;
        }
    }

    /// The current total.
    pub fn get(&self) -> (t: u64)
        ensures
            t == self.total,
    {
        self.total
    }
}

/// The monitor's view of the transfer counter: how much of the total it
/// has already handed to the reporting callback.
pub struct ProgressTracker {
    pub last_reported: u64,
}

impl ProgressTracker {
    /// A monitor that has reported nothing yet.
    pub fn new() -> (t: ProgressTracker)
        ensures
            t.last_reported == 0,
    {
        ProgressTracker { last_reported: 0 }
    }

    /// One monitor sample: the delta since the last report, which the
    /// caller hands to the reporting callback when it is positive.  The
    /// whole current total then counts as reported.
    pub fn sample(&mut self, current: u64) -> (delta: u64)
        requires
            old(self).last_reported <= current,
        ensures
            delta == current - old(self).last_reported,
            final(self).last_reported == current,
    {
        let delta = current - self.last_reported;
        self.last_reported = current;
        delta
    }
}

/// The deltas a monitor whose last report was `prev` hands out across a
/// run of counter samples, summed.
pub open spec fn delta_sum(prev: int, samples: Seq<u64>) -> int
    decreases samples.len(),
{
    if samples.len() == 0 {
        0
    } else {
        (samples[0] - prev) + delta_sum(samples[0] as int, samples.drop_first())
    }
}

/// Law: across an entire copy, the monitor's summed deltas equal the
/// final value of the transfer counter — every transferred byte is
/// eventually reported, exactly once, whatever the sampling cadence.
pub proof fn lemma_deltas_sum_to_total(prev: int, samples: Seq<u64>)
    requires
        samples.len() > 0,
        forall|i: int, j: int| 0 <= i <= j < samples.len() ==> samples[i] <= samples[j],
    ensures
        delta_sum(prev, samples) == samples.last() - prev,
    decreases samples.len(),
{
    assert(delta_sum(prev, samples) == (samples[0] - prev) + delta_sum(
        samples[0] as int,
        samples.drop_first(),
    ));
    if samples.len() == 1 {
        assert(delta_sum(samples[0] as int, samples.drop_first()) == 0);
    } else {
        let rest = samples.drop_first();
        assert(forall|i: int, j: int|
            0 <= i <= j < rest.len() ==> rest[i] == samples[i + 1] && rest[j] == samples[j + 1]
                && samples[i + 1] <= samples[j + 1]);
        lemma_deltas_sum_to_total(samples[0] as int, rest);
        assert(rest.last() == samples.last());
    }
}

} // verus!
