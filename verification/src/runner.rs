//! The benchmark run's bookkeeping: how many iterations to run, which
//! durations were recorded, and when to emit progress marks.
//!
//! Iterations run strictly one at a time.  The caller performs one
//! iteration's protocol work — navigate, wait, extract, validate, close —
//! and on success records its wall-clock duration here; any failure aborts
//! the whole run, so nothing is recorded for a failed iteration.  The
//! recorded sequence therefore has exactly one entry per successful
//! iteration, in order.

use vstd::prelude::*;
use crate::metrics::{summarize, RunSummary};
use crate::metrics::{spec_max, spec_min, spec_sum};

verus! {

/// Bound on how long each condition-poller wait may keep retrying, in
/// milliseconds.
pub const WAIT_TIMEOUT_MS: u64 = 5000;

/// How long the caller sleeps between two polls of a condition, in
/// milliseconds.
pub const POLL_INTERVAL_MS: u64 = 10;

/// How many iterations to run when the environment does not say otherwise.
pub const DEFAULT_RUNS: usize = 100;

/// Progress marks per output row: after this many completed iterations a
/// line break keeps the marker stream readable.
pub const PROGRESS_ROW: usize = 80;

/// Fixed path of the page under test, appended to the deployment's base
/// URL.
pub fn target_path_suffix() -> (s: String)
    ensures
        s@ == "/campfire-commerce/"@,
{
    "/campfire-commerce/".to_owned()
}

/// The URL of the page under test for a given deployment base URL.
pub fn target_url(base_url: &str) -> (s: String)
    ensures
        s@ == base_url@ + "/campfire-commerce/"@,
{
    let mut url = base_url.to_owned();
    url.append("/campfire-commerce/");
    url
}

/// State of one benchmark run: the iteration target and the durations of
/// the successful iterations so far, in order.
pub struct BenchmarkRun {
    target: usize,
    durations: Vec<u64>,
}

impl BenchmarkRun {
    /// The number of iterations this run is to perform.
    pub closed spec fn spec_target(&self) -> usize {
        self.target
    }

    /// The durations recorded so far, one per successful iteration.
    pub closed spec fn recorded(&self) -> Seq<u64> {
        self.durations@
    }

    /// A fresh run that is to perform `target` iterations.
    pub fn new(target: usize) -> (r: BenchmarkRun)
        ensures
            r.spec_target() == target,
            r.recorded() == Seq::<u64>::empty(),
    {
        BenchmarkRun { target, durations: Vec::new() }
    }

    /// The iteration target.
    pub fn target(&self) -> (t: usize)
        ensures
            t == self.spec_target(),
    {
        self.target
    }

    /// How many iterations have completed successfully.
    pub fn completed(&self) -> (c: usize)
        ensures
            c == self.recorded().len(),
    {
        self.durations.len()
    }

    /// Whether another iteration is still owed: true until the target is
    /// reached.
    pub fn should_continue(&self) -> (b: bool)
        ensures
            b == (self.recorded().len() < self.spec_target()),
    {
        self.durations.len() < self.target
    }

    /// Records the duration of one successful iteration.  Failed iterations
    /// record nothing: they abort the run.
    pub fn record_iteration(&mut self, duration_ms: u64)
        requires
            old(self).recorded().len() < old(self).spec_target(),
        ensures
            final(self).spec_target() == old(self).spec_target(),
            final(self).recorded() == old(self).recorded().push(duration_ms),
    {
        self.durations.push(duration_ms);
    }

    /// The summary statistics over the recorded durations, or `None` when
    /// no iteration has completed.
    pub fn summary(&self) -> (r: Option<RunSummary>)
        ensures
            r is None <==> self.recorded().len() == 0,
            r matches Some(summary) ==> {
                &&& summary.total_runs == self.recorded().len()
                &&& summary.total_duration_ms == spec_sum(self.recorded())
                &&& summary.avg_ms == spec_sum(self.recorded()) / (self.recorded().len() as int)
                &&& summary.min_ms == spec_min(self.recorded())
                &&& summary.max_ms == spec_max(self.recorded())
            },
    {
        summarize(&self.durations)
    }
}

/// Whether to break the progress-marker line after this completed
/// iteration: after every `PROGRESS_ROW`-th one, but never before the
/// first.
pub fn progress_line_break(completed_runs: usize) -> (b: bool)
    ensures
        b == (completed_runs > 0 && completed_runs % PROGRESS_ROW == 0),
{
    completed_runs > 0 && completed_runs % PROGRESS_ROW == 0
}

} // verus!
