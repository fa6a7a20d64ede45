//! The condition poller: wait until a remotely evaluated predicate holds or
//! a deadline elapses.
//!
//! Each poll evaluates a predicate in the remote page.  The evaluation can
//! fail or return a malformed value; either is treated as "condition not yet
//! satisfied", never as success, so a spurious response cannot cause a false
//! pass.  A single step of the shared algorithm is pure: given the observed
//! value and the elapsed time it decides whether the wait is satisfied, has
//! timed out, or should sleep and retry.  The caller performs the remote
//! evaluation and the sleep, and feeds every observation back through the
//! step function.  The whole-wait functions replay a recorded sequence of
//! probes through the same step, which is how the timing laws are stated and
//! proved.

use vstd::prelude::*;

verus! {

/// What one poll of the condition decides.
#[derive(Clone, Copy, Debug, PartialEq, Eq, Structural)]
pub enum StepOutcome {
    /// The condition is satisfied: the wait succeeds now.
    Done,
    /// The condition is unsatisfied and the deadline has been reached.
    Expired,
    /// The condition is unsatisfied but there is time left: sleep and retry.
    Again,
}

/// One observation of the "element text is non-empty" predicate.
/// `value` is `None` when the remote evaluation failed or returned a
/// non-boolean.
#[derive(Clone, Copy, Debug, PartialEq, Eq, Structural)]
pub struct BoolProbe {
    pub elapsed_ms: u64,
    pub value: Option<bool>,
}

/// One observation of the "matching element count" predicate.
/// `value` is `None` when the remote evaluation failed or returned a
/// non-numeric value.
#[derive(Clone, Copy, Debug, PartialEq, Eq, Structural)]
pub struct CountProbe {
    pub elapsed_ms: u64,
    pub value: Option<u64>,
}

/// A wait that ran out of time, carrying the locator it was watching and,
/// for count-based waits, the last observed count.
#[derive(Clone, Debug, PartialEq, Eq)]
pub struct TimeoutError {
    pub selector: String,
    pub last_count: Option<u64>,
}

/// Outcome of replaying a whole wait over a recorded probe sequence.
#[derive(Clone, Debug, PartialEq, Eq)]
pub enum WaitVerdict {
    /// The condition was observed satisfied at this probe index.
    Satisfied { probe_index: usize },
    /// The deadline passed while the condition was still unsatisfied.
    TimedOut { error: TimeoutError },
    /// Every recorded probe asked for a retry.
    Undecided,
}

/// The count a poll observed: a failed or malformed evaluation counts as 0.
pub open spec fn spec_observed_count(v: Option<u64>) -> u64 {
    match v {
        Some(c) => c,
        None => 0,
    }
}

/// Decision of one poll of the non-empty-text predicate.  The deadline is
/// tested first: a poll taken at or past the deadline expires even when it
/// observes the predicate true, so a predicate that becomes true only at or
/// after the deadline fails.  Before the deadline, only an explicit `true`
/// satisfies the wait.
pub open spec fn spec_nonempty_step(observed: Option<bool>, elapsed_ms: u64, timeout_ms: u64) -> StepOutcome {
    if elapsed_ms >= timeout_ms {
        StepOutcome::Expired
    } else if observed == Some(true) {
        StepOutcome::Done
    } else {
        StepOutcome::Again
    }
}

/// Decision of one poll of the element-count predicate.  As with the
/// non-empty wait, the deadline is tested first: a poll at or past the
/// deadline expires even when it observes enough elements — so a wait whose
/// very first poll already falls past the deadline times out, even with a
/// `min_count` of zero.
pub open spec fn spec_count_step(observed: Option<u64>, min_count: u64, elapsed_ms: u64, timeout_ms: u64) -> StepOutcome {
    if elapsed_ms >= timeout_ms {
        StepOutcome::Expired
    } else if spec_observed_count(observed) >= min_count {
        StepOutcome::Done
    } else {
        StepOutcome::Again
    }
}

/// One step of `wait_for_nonempty`: decide from the observed evaluation
/// result and the elapsed time.  The deadline wins over the observation,
/// and before it only an explicit `true` satisfies the wait.
pub fn nonempty_step(observed: Option<bool>, elapsed_ms: u64, timeout_ms: u64) -> (d: StepOutcome)
    ensures
        d == spec_nonempty_step(observed, elapsed_ms, timeout_ms),
{
    if elapsed_ms >= timeout_ms {
        StepOutcome::Expired
    } else {
        match observed {
            Some(true) => StepOutcome::Done,
            _ => StepOutcome::Again,
        }
    }
}

/// One step of `wait_for_count`: decide from the observed count and the
/// elapsed time.  The deadline wins over the observation, and before it
/// only an observed count of at least `min_count` satisfies the wait.
pub fn count_step(observed: Option<u64>, min_count: u64, elapsed_ms: u64, timeout_ms: u64) -> (d: StepOutcome)
    ensures
        d == spec_count_step(observed, min_count, elapsed_ms, timeout_ms),
{
    if elapsed_ms >= timeout_ms {
        return StepOutcome::Expired;
    }
    let c = match observed {
        Some(c) => c,
        None => 0,
    };
    if c >= min_count {
        StepOutcome::Done
    } else {
        StepOutcome::Again
    }
}

/// Index of the first probe whose step is not `Again`, or `probes.len()`.
pub open spec fn spec_first_nonempty_decision(probes: Seq<BoolProbe>, timeout_ms: u64) -> int
    decreases probes.len(),
{
    if probes.len() == 0 {
        0
    } else if spec_nonempty_step(probes[0].value, probes[0].elapsed_ms, timeout_ms)
        != StepOutcome::Again {
        0
    } else {
        1 + spec_first_nonempty_decision(probes.drop_first(), timeout_ms)
    }
}

/// Index of the first probe whose step is not `Again`, or `probes.len()`.
pub open spec fn spec_first_count_decision(probes: Seq<CountProbe>, min_count: u64, timeout_ms: u64) -> int
    decreases probes.len(),
{
    if probes.len() == 0 {
        0
    } else if spec_count_step(probes[0].value, min_count, probes[0].elapsed_ms, timeout_ms)
        != StepOutcome::Again {
        0
    } else {
        1 + spec_first_count_decision(probes.drop_first(), min_count, timeout_ms)
    }
}

proof fn lemma_first_nonempty_decision_props(probes: Seq<BoolProbe>, timeout_ms: u64)
    ensures
        0 <= spec_first_nonempty_decision(probes, timeout_ms) <= probes.len(),
        forall|i: int|
            0 <= i < spec_first_nonempty_decision(probes, timeout_ms) ==> spec_nonempty_step(
                probes[i].value,
                probes[i].elapsed_ms,
                timeout_ms,
            ) == StepOutcome::Again,
        spec_first_nonempty_decision(probes, timeout_ms) < probes.len() ==> spec_nonempty_step(
            probes[spec_first_nonempty_decision(probes, timeout_ms)].value,
            probes[spec_first_nonempty_decision(probes, timeout_ms)].elapsed_ms,
            timeout_ms,
        ) != StepOutcome::Again,
    decreases probes.len(),
{
    if probes.len() > 0 && spec_nonempty_step(probes[0].value, probes[0].elapsed_ms, timeout_ms)
        == StepOutcome::Again {
        lemma_first_nonempty_decision_props(probes.drop_first(), timeout_ms);
        let k = spec_first_nonempty_decision(probes, timeout_ms);
        assert forall|i: int|
            0 <= i < k implies spec_nonempty_step(
            probes[i].value,
            probes[i].elapsed_ms,
            timeout_ms,
        ) == StepOutcome::Again by {
            if i > 0 {
                assert(probes.drop_first()[i - 1] == probes[i]);
            }
        }
        if k < probes.len() {
            assert(probes.drop_first()[k - 1] == probes[k]);
        }
    }
}

proof fn lemma_first_count_decision_props(probes: Seq<CountProbe>, min_count: u64, timeout_ms: u64)
    ensures
        0 <= spec_first_count_decision(probes, min_count, timeout_ms) <= probes.len(),
        forall|i: int|
            0 <= i < spec_first_count_decision(probes, min_count, timeout_ms) ==> spec_count_step(
                probes[i].value,
                min_count,
                probes[i].elapsed_ms,
                timeout_ms,
            ) == StepOutcome::Again,
        spec_first_count_decision(probes, min_count, timeout_ms) < probes.len() ==> spec_count_step(
            probes[spec_first_count_decision(probes, min_count, timeout_ms)].value,
            min_count,
            probes[spec_first_count_decision(probes, min_count, timeout_ms)].elapsed_ms,
            timeout_ms,
        ) != StepOutcome::Again,
    decreases probes.len(),
{
    if probes.len() > 0 && spec_count_step(
        probes[0].value,
        min_count,
        probes[0].elapsed_ms,
        timeout_ms,
    ) == StepOutcome::Again {
        lemma_first_count_decision_props(probes.drop_first(), min_count, timeout_ms);
        let k = spec_first_count_decision(probes, min_count, timeout_ms);
        assert forall|i: int|
            0 <= i < k implies spec_count_step(
            probes[i].value,
            min_count,
            probes[i].elapsed_ms,
            timeout_ms,
        ) == StepOutcome::Again by {
            if i > 0 {
                assert(probes.drop_first()[i - 1] == probes[i]);
            }
        }
        if k < probes.len() {
            assert(probes.drop_first()[k - 1] == probes[k]);
        }
    }
}

/// Replays a whole "element text is non-empty" wait over a recorded probe
/// sequence: the verdict is decided by the first probe whose step is not
/// `Again`.  A timeout verdict carries the watched selector.
pub fn wait_for_nonempty(selector: &str, probes: &Vec<BoolProbe>, timeout_ms: u64) -> (r: WaitVerdict)
    ensures
        ({
            let k = spec_first_nonempty_decision(probes@, timeout_ms);
            match r {
                WaitVerdict::Satisfied { probe_index } => probe_index == k && k < probes@.len()
                    && spec_nonempty_step(probes@[k].value, probes@[k].elapsed_ms, timeout_ms)
                    == StepOutcome::Done,
                WaitVerdict::TimedOut { error } => k < probes@.len() && spec_nonempty_step(
                    probes@[k].value,
                    probes@[k].elapsed_ms,
                    timeout_ms,
                ) == StepOutcome::Expired && error.selector@ == selector@ && error.last_count
                    is None,
                WaitVerdict::Undecided => k == probes@.len(),
            }
        }),
{
    proof {
        lemma_first_nonempty_decision_props(probes@, timeout_ms);
    }
    let n = probes.len();
    let mut i: usize = 0;
    while i < n
        invariant
            0 <= i <= n,
            n == probes@.len(),
            forall|j: int|
                0 <= j < i ==> spec_nonempty_step(
                    probes@[j].value,
                    probes@[j].elapsed_ms,
                    timeout_ms,
                ) == StepOutcome::Again,
            i <= spec_first_nonempty_decision(probes@, timeout_ms),
        decreases n - i,
    {
        let p = probes[i];
        proof {
            lemma_first_decision_bound_nonempty(probes@, timeout_ms, i as int);
        }
        match nonempty_step(p.value, p.elapsed_ms, timeout_ms) {
            StepOutcome::Done => {
                return WaitVerdict::Satisfied { probe_index: i };
            },
            StepOutcome::Expired => {
                return WaitVerdict::TimedOut {
                    error: TimeoutError { selector: selector.to_owned(), last_count: None },
                };
            },
            StepOutcome::Again => {
                i += 1;
            },
        }
    }
    WaitVerdict::Undecided
}

/// Replays a whole "at least `min_count` matching elements" wait over a
/// recorded probe sequence.  A timeout verdict carries the watched selector
/// and the last observed count.
pub fn wait_for_count(selector: &str, probes: &Vec<CountProbe>, min_count: u64, timeout_ms: u64) -> (r: WaitVerdict)
    ensures
        ({
            let k = spec_first_count_decision(probes@, min_count, timeout_ms);
            match r {
                WaitVerdict::Satisfied { probe_index } => probe_index == k && k < probes@.len()
                    && spec_count_step(
                    probes@[k].value,
                    min_count,
                    probes@[k].elapsed_ms,
                    timeout_ms,
                ) == StepOutcome::Done,
                WaitVerdict::TimedOut { error } => k < probes@.len() && spec_count_step(
                    probes@[k].value,
                    min_count,
                    probes@[k].elapsed_ms,
                    timeout_ms,
                ) == StepOutcome::Expired && error.selector@ == selector@ && error.last_count
                    == Some(spec_observed_count(probes@[k].value)),
                WaitVerdict::Undecided => k == probes@.len(),
            }
        }),
{
    proof {
        lemma_first_count_decision_props(probes@, min_count, timeout_ms);
    }
    let n = probes.len();
    let mut i: usize = 0;
    while i < n
        invariant
            0 <= i <= n,
            n == probes@.len(),
            forall|j: int|
                0 <= j < i ==> spec_count_step(
                    probes@[j].value,
                    min_count,
                    probes@[j].elapsed_ms,
                    timeout_ms,
                ) == StepOutcome::Again,
            i <= spec_first_count_decision(probes@, min_count, timeout_ms),
        decreases n - i,
    {
        let p = probes[i];
        proof {
            lemma_first_decision_bound_count(probes@, min_count, timeout_ms, i as int);
        }
        let observed = match p.value {
            Some(c) => c,
            None => 0,
        };
        match count_step(p.value, min_count, p.elapsed_ms, timeout_ms) {
            StepOutcome::Done => {
                return WaitVerdict::Satisfied { probe_index: i };
            },
            StepOutcome::Expired => {
                return WaitVerdict::TimedOut {
                    error: TimeoutError {
                        selector: selector.to_owned(),
                        last_count: Some(observed),
                    },
                };
            },
            StepOutcome::Again => {
                i += 1;
            },
        }
    }
    WaitVerdict::Undecided
}

/// If every probe below `i` retries and probe `i` decides, then `i` is the
/// first decision index.
proof fn lemma_first_decision_bound_nonempty(probes: Seq<BoolProbe>, timeout_ms: u64, i: int)
    requires
        0 <= i < probes.len(),
        forall|j: int|
            0 <= j < i ==> spec_nonempty_step(probes[j].value, probes[j].elapsed_ms, timeout_ms)
                == StepOutcome::Again,
    ensures
        spec_nonempty_step(probes[i].value, probes[i].elapsed_ms, timeout_ms) != StepOutcome::Again
            ==> spec_first_nonempty_decision(probes, timeout_ms) == i,
        spec_nonempty_step(probes[i].value, probes[i].elapsed_ms, timeout_ms) == StepOutcome::Again
            ==> spec_first_nonempty_decision(probes, timeout_ms) >= i + 1,
{
    lemma_first_nonempty_decision_props(probes, timeout_ms);
    let k = spec_first_nonempty_decision(probes, timeout_ms);
    if spec_nonempty_step(probes[i].value, probes[i].elapsed_ms, timeout_ms) != StepOutcome::Again {
        if k < i {
            assert(spec_nonempty_step(probes[k].value, probes[k].elapsed_ms, timeout_ms)
                == StepOutcome::Again);
        }
        if k > i {
            assert(spec_nonempty_step(probes[i].value, probes[i].elapsed_ms, timeout_ms)
                == StepOutcome::Again);
        }
    } else {
        if k <= i {
            assert(k < probes.len());
        }
    }
}

/// If every probe below `i` retries and probe `i` decides, then `i` is the
/// first decision index.
proof fn lemma_first_decision_bound_count(probes: Seq<CountProbe>, min_count: u64, timeout_ms: u64, i: int)
    requires
        0 <= i < probes.len(),
        forall|j: int|
            0 <= j < i ==> spec_count_step(
                probes[j].value,
                min_count,
                probes[j].elapsed_ms,
                timeout_ms,
            ) == StepOutcome::Again,
    ensures
        spec_count_step(probes[i].value, min_count, probes[i].elapsed_ms, timeout_ms)
            != StepOutcome::Again ==> spec_first_count_decision(probes, min_count, timeout_ms)
            == i,
        spec_count_step(probes[i].value, min_count, probes[i].elapsed_ms, timeout_ms)
            == StepOutcome::Again ==> spec_first_count_decision(probes, min_count, timeout_ms) >= i
            + 1,
{
    lemma_first_count_decision_props(probes, min_count, timeout_ms);
    let k = spec_first_count_decision(probes, min_count, timeout_ms);
    if spec_count_step(probes[i].value, min_count, probes[i].elapsed_ms, timeout_ms)
        != StepOutcome::Again {
        if k < i {
            assert(spec_count_step(probes[k].value, min_count, probes[k].elapsed_ms, timeout_ms)
                == StepOutcome::Again);
        }
        if k > i {
            assert(spec_count_step(probes[i].value, min_count, probes[i].elapsed_ms, timeout_ms)
                == StepOutcome::Again);
        }
    } else {
        if k <= i {
            assert(k < probes.len());
        }
    }
}

/// Probes are in the order they were taken: elapsed time never decreases.
pub open spec fn spec_probes_ordered(probes: Seq<BoolProbe>) -> bool {
    forall|a: int, b: int| 0 <= a <= b < probes.len() ==> probes[a].elapsed_ms <= probes[b].elapsed_ms
}

/// Law: whenever some probe observes the predicate true strictly before the
/// deadline, the wait succeeds, and it succeeds at a probe taken strictly
/// before the deadline — never by timing out, and never past the deadline.
pub proof fn lemma_wait_succeeds_before_deadline(probes: Seq<BoolProbe>, timeout_ms: u64, i: int)
    requires
        spec_probes_ordered(probes),
        0 <= i < probes.len(),
        probes[i].value == Some(true),
        probes[i].elapsed_ms < timeout_ms,
    ensures
        ({
            let k = spec_first_nonempty_decision(probes, timeout_ms);
            k < probes.len() && spec_nonempty_step(probes[k].value, probes[k].elapsed_ms, timeout_ms)
                == StepOutcome::Done && probes[k].elapsed_ms < timeout_ms
        }),
{
    lemma_first_nonempty_decision_props(probes, timeout_ms);
    let k = spec_first_nonempty_decision(probes, timeout_ms);
    assert(spec_nonempty_step(probes[i].value, probes[i].elapsed_ms, timeout_ms)
        == StepOutcome::Done);
    assert(k <= i);
    assert(probes[k].elapsed_ms <= probes[i].elapsed_ms);
}

/// Law: when no poll strictly before the deadline observes the predicate
/// true, and some poll is taken at or after the deadline, the wait fails by
/// timeout.  In particular a predicate that becomes true only at or after
/// the deadline fails: the deadline is tested before the observation, so
/// even the poll that first observes it true expires.
pub proof fn lemma_wait_times_out(probes: Seq<BoolProbe>, timeout_ms: u64, i: int)
    requires
        0 <= i < probes.len(),
        forall|j: int|
            0 <= j < probes.len() && probes[j].elapsed_ms < timeout_ms ==> probes[j].value
                != Some(true),
        probes[i].elapsed_ms >= timeout_ms,
    ensures
        ({
            let k = spec_first_nonempty_decision(probes, timeout_ms);
            k < probes.len() && spec_nonempty_step(probes[k].value, probes[k].elapsed_ms, timeout_ms)
                == StepOutcome::Expired
        }),
{
    lemma_first_nonempty_decision_props(probes, timeout_ms);
    let k = spec_first_nonempty_decision(probes, timeout_ms);
    assert(spec_nonempty_step(probes[i].value, probes[i].elapsed_ms, timeout_ms)
        == StepOutcome::Expired);
    assert(k <= i);
}

/// Law: the exactness of a timeout.  Whenever the wait's deciding probe is a
/// timeout, every earlier probe was taken strictly before the deadline and
/// never observed the predicate true, and the deciding probe itself was
/// taken at or after the deadline.
pub proof fn lemma_timeout_exactness(probes: Seq<BoolProbe>, timeout_ms: u64)
    requires
        ({
            let k = spec_first_nonempty_decision(probes, timeout_ms);
            k < probes.len() && spec_nonempty_step(probes[k].value, probes[k].elapsed_ms, timeout_ms)
                == StepOutcome::Expired
        }),
    ensures
        ({
            let k = spec_first_nonempty_decision(probes, timeout_ms);
            &&& forall|j: int|
                0 <= j < k ==> probes[j].value != Some(true) && probes[j].elapsed_ms < timeout_ms
            &&& probes[k].elapsed_ms >= timeout_ms
        }),
{
    lemma_first_nonempty_decision_props(probes, timeout_ms);
    let k = spec_first_nonempty_decision(probes, timeout_ms);
    assert forall|j: int|
        0 <= j < k implies probes[j].value != Some(true) && probes[j].elapsed_ms
        < timeout_ms by {
        assert(spec_nonempty_step(probes[j].value, probes[j].elapsed_ms, timeout_ms)
            == StepOutcome::Again);
    }
}

/// Law: the count wait is monotonic in its success condition.  Once some
/// probe observes a count at least `min_count`, every later probe of the
/// same call taken before the deadline also satisfies the wait, provided
/// the observed counts never decrease across polls.  (A later poll at or
/// past the deadline expires instead: the deadline wins over the
/// observation.)
pub proof fn lemma_count_success_monotonic(probes: Seq<CountProbe>, min_count: u64, timeout_ms: u64, i: int, j: int)
    requires
        forall|a: int, b: int|
            0 <= a <= b < probes.len() ==> spec_observed_count(probes[a].value)
                <= spec_observed_count(probes[b].value),
        0 <= i <= j < probes.len(),
        spec_observed_count(probes[i].value) >= min_count,
        probes[j].elapsed_ms < timeout_ms,
    ensures
        spec_count_step(probes[j].value, min_count, probes[j].elapsed_ms, timeout_ms)
            == StepOutcome::Done,
{
    assert(spec_observed_count(probes[i].value) <= spec_observed_count(probes[j].value));
}

} // verus!
