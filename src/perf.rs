//! Timing of repeated work, summarised at most once per period.
use std::time::{Duration, Instant};
use vstd::prelude::*;

verus! {

#[verifier::external_type_specification]
#[verifier::external_body]
pub struct ExInstant(Instant);

/// Relies on `Instant::now`: the current instant; nothing is promised of its value.
pub assume_specification[ Instant::now ]() -> Instant;

/// Relies on `Instant::elapsed`: the time since the instant; nothing is
/// promised of its value.
pub assume_specification[ Instant::elapsed ](i: &Instant) -> Duration;

/// Relies on `Duration::as_nanos`: the whole nanoseconds of a duration.
pub assume_specification[ Duration::as_nanos ](d: &Duration) -> u128;

/// A duration in nanoseconds, capped at `u64::MAX` (about 584 years).
fn nanos_of(d: &Duration) -> (r: u64) {
    let n = d.as_nanos();
    if n > u64::MAX as u128 {
        u64::MAX
    } else {
        n as u64
    }
}

pub open spec fn seq_sum(s: Seq<u64>) -> int
    decreases s.len(),
{
    if s.len() == 0 {
        0
    } else {
        seq_sum(s.drop_last()) + s.last()
    }
}

pub open spec fn seq_min(s: Seq<u64>) -> u64
    decreases s.len(),
{
    if s.len() == 0 {
        0
    } else if s.len() == 1 || s.last() < seq_min(s.drop_last()) {
        s.last()
    } else {
        seq_min(s.drop_last())
    }
}

pub open spec fn seq_max(s: Seq<u64>) -> u64
    decreases s.len(),
{
    if s.len() == 0 {
        0
    } else if s.last() > seq_max(s.drop_last()) {
        s.last()
    } else {
        seq_max(s.drop_last())
    }
}

proof fn lemma_sum_bound(s: Seq<u64>)
    ensures
        0 <= seq_sum(s) <= s.len() * 0xffff_ffff_ffff_ffff,
    decreases s.len(),
{
    if s.len() > 0 {
        lemma_sum_bound(s.drop_last());
    }
}

/// A summary of the timed runs since the last report. With no runs the
/// minimum and maximum are zero.
#[derive(Debug, PartialEq, Eq)]
pub struct PerfReport {
    pub description: String,
    pub count: usize,
    pub total_nanos: u128,
    pub min_nanos: u64,
    pub max_nanos: u64,
}

impl PerfReport {
    /// The mean run time in whole nanoseconds, rounded down; none without runs.
    pub fn mean_nanos(&self) -> (r: Option<u128>)
        ensures
            self.count == 0 ==> r is None,
            self.count > 0 ==> r == Some((self.total_nanos / self.count as u128) as u128),
    {
        if self.count == 0 {
            None
        } else {
            Some(self.total_nanos / self.count as u128)
        }
    }
}

/// Count, total, minimum and maximum of the given run times.
pub fn summarize(description: &str, durations: &Vec<u64>) -> (r: PerfReport)
    ensures
        r.description@ == description@,
        r.count == durations@.len(),
        r.total_nanos == seq_sum(durations@),
        r.min_nanos == seq_min(durations@),
        r.max_nanos == seq_max(durations@),
{
    let mut total: u128 = 0;
    let mut min: u64 = 0;
    let mut max: u64 = 0;
    let n = durations.len();
    for i in 0..n
        invariant
            n == durations@.len(),
            total == seq_sum(durations@.take(i as int)),
            min == seq_min(durations@.take(i as int)),
            max == seq_max(durations@.take(i as int)),
    {
        let ghost s = durations@.take(i + 1);
        proof {
            assert(s.drop_last() == durations@.take(i as int));
            lemma_sum_bound(s);
        }
        let d = durations[i];
        total = total + d as u128;
        if i == 0 || d < min {
            min = d;
        }
        if d > max {
            max = d;
        }
    }
    proof {
        assert(durations@.take(n as int) == durations@);
    }
    PerfReport { description: description.to_owned(), count: n, total_nanos: total, min_nanos: min, max_nanos: max }
}

/// Times repeated runs of some work and reports on them now and then.
pub struct Perf {
    start: Instant,
    durations: Vec<u64>,
    last_report: Instant,
    description: String,
}

impl Perf {
    /// The run times recorded since the last report, in nanoseconds.
    pub closed spec fn samples(&self) -> Seq<u64> {
        self.durations@
    }

    pub closed spec fn label(&self) -> Seq<char> {
        self.description@
    }

    pub fn new(description: &str) -> (r: Self)
        ensures
            r.samples() == Seq::<u64>::empty(),
            r.label() == description@,
    {
        Perf {
            start: Instant::now(),
            durations: Vec::new(),
            last_report: Instant::now(),
            description: description.to_owned(),
        }
    }

    /// Marks the start of a run.
    pub fn start(&mut self)
        ensures
            final(self).samples() == old(self).samples(),
            final(self).label() == old(self).label(),
    {
        self.start = Instant::now();
    }

    /// Records the time since the last `start` as one run.
    pub fn stop(&mut self)
        ensures
            final(self).samples().len() == old(self).samples().len() + 1,
            final(self).samples().drop_last() == old(self).samples(),
            final(self).label() == old(self).label(),
    {
        let d = self.start.elapsed();
        self.durations.push(nanos_of(&d));
        proof {
            assert(self.durations@.drop_last() == old(self).durations@);
        }
    }

    /// Once at least `period` has passed since the last report, summarises the
    /// runs recorded since then and starts over; before that, does nothing.
    pub fn report_after(&mut self, period: Duration) -> (r: Option<PerfReport>)
        ensures
            final(self).label() == old(self).label(),
            r is None ==> final(self).samples() == old(self).samples(),
            r matches Some(rep) ==> rep.description@ == old(self).label() && rep.count
                == old(self).samples().len() && rep.total_nanos == seq_sum(old(self).samples())
                && rep.min_nanos == seq_min(old(self).samples()) && rep.max_nanos == seq_max(
                old(self).samples(),
            ) && final(self).samples() == Seq::<u64>::empty(),
    {
        let since = self.last_report.elapsed();
        if nanos_of(&since) < nanos_of(&period) {
            return None;
        }
        self.last_report = Instant::now();
        let report = summarize(self.description.as_str(), &self.durations);
        self.durations.clear();
        Some(report)
    }
}

} // verus!
