//! Aggregation of per-iteration timings into the run's summary statistics.
//!
//! Each successful iteration contributes one wall-clock duration in
//! milliseconds.  The summary reports the run count, the total of the
//! recorded durations, and their average, minimum and maximum.  The average
//! is the integer floor of total over count — the truncation is part of the
//! design, accepted and stated, not an accident.

use vstd::prelude::*;

verus! {

/// Aggregate statistics over the recorded iteration durations.
#[derive(Clone, Copy, Debug, PartialEq, Eq, Structural)]
pub struct RunSummary {
    pub total_runs: usize,
    pub total_duration_ms: u128,
    pub avg_ms: u128,
    pub min_ms: u64,
    pub max_ms: u64,
}

/// Sum of the recorded durations.
pub open spec fn spec_sum(s: Seq<u64>) -> int
    decreases s.len(),
{
    if s.len() == 0 {
        0
    } else {
        spec_sum(s.drop_last()) + s.last()
    }
}

/// Smallest recorded duration.
pub open spec fn spec_min(s: Seq<u64>) -> int
    recommends
        s.len() > 0,
    decreases s.len(),
{
    if s.len() <= 1 {
        s[0] as int
    } else if s.last() < spec_min(s.drop_last()) {
        s.last() as int
    } else {
        spec_min(s.drop_last())
    }
}

/// Largest recorded duration.
pub open spec fn spec_max(s: Seq<u64>) -> int
    recommends
        s.len() > 0,
    decreases s.len(),
{
    if s.len() <= 1 {
        s[0] as int
    } else if s.last() > spec_max(s.drop_last()) {
        s.last() as int
    } else {
        spec_max(s.drop_last())
    }
}

/// The sum of durations is bounded by count times the largest duration a
/// cell can hold, so it always fits the summary's wider total field.
proof fn lemma_sum_bounds(s: Seq<u64>)
    ensures
        0 <= spec_sum(s) <= s.len() * u64::MAX,
    decreases s.len(),
{
    if s.len() > 0 {
        lemma_sum_bounds(s.drop_last());
    }
}

/// Computes the summary of a recorded duration sequence: its length, total,
/// floor average, minimum and maximum.  An empty recording has no summary.
pub fn summarize(durations: &Vec<u64>) -> (r: Option<RunSummary>)
    ensures
        r is None <==> durations@.len() == 0,
        r matches Some(summary) ==> {
            &&& summary.total_runs == durations@.len()
            &&& summary.total_duration_ms == spec_sum(durations@)
            &&& summary.avg_ms == spec_sum(durations@) / (durations@.len() as int)
            &&& summary.min_ms == spec_min(durations@)
            &&& summary.max_ms == spec_max(durations@)
        },
{
    let n = durations.len();
    if n == 0 {
        return None;
    }
    let mut total: u128 = durations[0] as u128;
    let mut min: u64 = durations[0];
    let mut max: u64 = durations[0];
    let mut i: usize = 1;
    proof {
        assert(durations@.take(1).len() == 1);
        assert(durations@.take(1).drop_last() =~= Seq::<u64>::empty());
        assert(spec_sum(Seq::<u64>::empty()) == 0);
        assert(durations@.take(1)[0] == durations@[0]);
        assert(durations@.take(1).last() == durations@[0]);
        assert(spec_sum(durations@.take(1)) == durations@[0]);
    }
    while i < n
        invariant
            1 <= i <= n,
            n == durations@.len(),
            total == spec_sum(durations@.take(i as int)),
            total <= i * (u64::MAX as int),
            min == spec_min(durations@.take(i as int)),
            max == spec_max(durations@.take(i as int)),
        decreases n - i,
    {
        let d = durations[i];
        proof {
            let p = durations@.take(i as int);
            let q = durations@.take(i + 1 as int);
            assert(q.drop_last() =~= p);
            assert(q.last() == durations@[i as int]);
            lemma_sum_bounds(p);
        }
        total = total + d as u128;
        if d < min {
            min = d;
        }
        if d > max {
            max = d;
        }
        i += 1;
    }
    proof {
        assert(durations@.take(n as int) =~= durations@);
        lemma_sum_bounds(durations@);
    }
    let avg: u128 = total / (n as u128);
    Some(RunSummary { total_runs: n, total_duration_ms: total, avg_ms: avg, min_ms: min, max_ms: max })
}

} // verus!
