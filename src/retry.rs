//! The job-level retry policy around one extraction attempt.
use vstd::prelude::*;

verus! {

/// Extraction attempts made for one scheduled job before it fails.
pub const MAX_ATTEMPTS: u32 = 3;

/// Pause between two attempts, in seconds.
pub const BACKOFF_SECS: u64 = 300;

/// What to do after one extraction attempt.
#[derive(Clone, Copy, Debug, PartialEq, Eq, Structural)]
pub enum RetryStep {
    /// The attempt succeeded: its records are the job's result.
    Done,
    /// Sleep this long, then attempt again.
    Backoff { secs: u64 },
    /// The last allowed attempt failed: the job fails.
    GiveUp,
}

/// Why a job produced no records.
#[derive(Clone, Copy, Debug, PartialEq, Eq, Structural)]
pub enum JobError {
    /// Every allowed attempt failed.
    MaxRetries { attempts: u32 },
}

/// The state of one job: how many attempts have failed.
#[derive(Clone, Copy, Debug, PartialEq, Eq, Structural)]
pub struct JobRetry {
    pub failures: u32,
}

/// The step after an attempt, given the failures before it.
pub open spec fn retry_step(failures: nat, succeeded: bool) -> RetryStep {
    if succeeded {
        RetryStep::Done
    } else if failures + 1 < MAX_ATTEMPTS {
        RetryStep::Backoff { secs: BACKOFF_SECS }
    } else {
        RetryStep::GiveUp
    }
}

/// The steps taken when attempts come out as `outcomes`, from `failures` on.
pub open spec fn retry_trace(outcomes: Seq<bool>, failures: nat) -> Seq<RetryStep>
    decreases outcomes.len(),
{
    if outcomes.len() == 0 {
        Seq::empty()
    } else {
        let s = retry_step(failures, outcomes[0]);
        if s is Backoff {
            seq![s] + retry_trace(outcomes.drop_first(), failures + 1)
        } else {
            seq![s]
        }
    }
}

/// One call of `record_attempt` that answered `succeeded` with `r`, moving `before` to `after`.
pub open spec fn attempt_step(before: JobRetry, succeeded: bool, r: RetryStep, after: JobRetry) -> bool {
    &&& r == retry_step(before.failures as nat, succeeded)
    &&& after.failures == (if succeeded { before.failures } else { (before.failures + 1) as u32 })
}

impl JobRetry {
    /// A job that has made no attempt yet.
    pub fn new() -> (r: JobRetry)
        ensures
            r.failures == 0,
    {
        JobRetry { failures: 0 }
    }

    /// Records the outcome of one attempt and says what comes next.
    pub fn record_attempt(&mut self, succeeded: bool) -> (r: RetryStep)
        requires
            old(self).failures < MAX_ATTEMPTS,
        ensures
            attempt_step(*old(self), succeeded, r, *final(self)),
            r == retry_step(old(self).failures as nat, succeeded),
            final(self).failures == (if succeeded { old(self).failures } else { (old(self).failures + 1) as u32 }),
            r is Backoff ==> final(self).failures < MAX_ATTEMPTS,
    {
        if succeeded {
            RetryStep::Done
        } else {
            self.failures = self.failures + 1;
            if self.failures < MAX_ATTEMPTS {
                RetryStep::Backoff { secs: BACKOFF_SECS }
            } else {
                RetryStep::GiveUp
            }
        }
    }

    /// The error a job reports once it gives up.
    pub fn give_up_error(&self) -> (r: JobError)
        ensures
            r == (JobError::MaxRetries { attempts: self.failures }),
    {
        JobError::MaxRetries { attempts: self.failures }
    }
}

/// When the first successful attempt is attempt `n` (counting from one) and
/// `n <= MAX_ATTEMPTS`, the job backs off once after each of the `n - 1`
/// failures and returns attempt `n`'s result; when the first `MAX_ATTEMPTS`
/// attempts fail, the job gives up after the last of them, so no further
/// attempt is made.
pub proof fn job_retry_is_bounded(outcomes: Seq<bool>, failures: nat)
    requires
        failures < MAX_ATTEMPTS,
    ensures
        forall|n: int|
            #![trigger outcomes[n - 1]]
            1 <= n <= outcomes.len() && n + failures <= MAX_ATTEMPTS && outcomes[n - 1] && (forall|k: int|
                0 <= k < n - 1 ==> !outcomes[k]) ==> {
                &&& retry_trace(outcomes, failures).len() == n
                &&& retry_trace(outcomes, failures)[n - 1] == RetryStep::Done
                &&& forall|k: int| 0 <= k < n - 1 ==> retry_trace(outcomes, failures)[k] == RetryStep::Backoff { secs: BACKOFF_SECS }
            },
        outcomes.len() + failures >= MAX_ATTEMPTS && (forall|k: int| 0 <= k < MAX_ATTEMPTS - failures ==> !outcomes[k]) ==> {
            &&& retry_trace(outcomes, failures).len() == MAX_ATTEMPTS - failures
            &&& retry_trace(outcomes, failures).last() == RetryStep::GiveUp
            &&& forall|k: int| 0 <= k < MAX_ATTEMPTS - failures - 1 ==> retry_trace(outcomes, failures)[k] == RetryStep::Backoff { secs: BACKOFF_SECS }
        },
    decreases outcomes.len(),
{
    if outcomes.len() > 0 {
        let rest = outcomes.drop_first();
        if failures + 1 < MAX_ATTEMPTS {
            job_retry_is_bounded(rest, failures + 1);
        }
        assert forall|n: int|
            #![trigger outcomes[n - 1]]
            1 <= n <= outcomes.len() && n + failures <= MAX_ATTEMPTS && outcomes[n - 1] && (forall|k: int|
                0 <= k < n - 1 ==> !outcomes[k]) implies {
                &&& retry_trace(outcomes, failures).len() == n
                &&& retry_trace(outcomes, failures)[n - 1] == RetryStep::Done
                &&& forall|k: int| 0 <= k < n - 1 ==> retry_trace(outcomes, failures)[k] == RetryStep::Backoff { secs: BACKOFF_SECS }
            } by {
            if n > 1 {
                assert(!outcomes[0]);
                assert(rest[n - 2] == outcomes[n - 1]);
                assert forall|k: int| 0 <= k < n - 2 implies !rest[k] by {
                    assert(rest[k] == outcomes[k + 1]);
                }
                let t = retry_trace(outcomes, failures);
                let tr = retry_trace(rest, failures + 1);
                assert(t == seq![RetryStep::Backoff { secs: BACKOFF_SECS }] + tr);
                assert forall|k: int| 0 <= k < n - 1 implies t[k] == RetryStep::Backoff { secs: BACKOFF_SECS } by {
                    if k > 0 {
                        assert(t[k] == tr[k - 1]);
                    }
                }
            }
        }
        if outcomes.len() + failures >= MAX_ATTEMPTS && (forall|k: int| 0 <= k < MAX_ATTEMPTS - failures ==> !outcomes[k]) {
            assert(!outcomes[0]);
            if failures + 1 < MAX_ATTEMPTS {
                assert forall|k: int| 0 <= k < MAX_ATTEMPTS - (failures + 1) implies !rest[k] by {
                    assert(rest[k] == outcomes[k + 1]);
                }
                let t = retry_trace(outcomes, failures);
                let tr = retry_trace(rest, failures + 1);
                assert(t == seq![RetryStep::Backoff { secs: BACKOFF_SECS }] + tr);
                assert forall|k: int| 0 <= k < MAX_ATTEMPTS - failures - 1 implies t[k] == RetryStep::Backoff { secs: BACKOFF_SECS } by {
                    if k > 0 {
                        assert(t[k] == tr[k - 1]);
                    }
                }
            }
        }
    }
}

/// A job that calls `record_attempt` once per attempt and attempts again
/// only after a backoff takes exactly the steps of `retry_trace` over the
/// attempt outcomes, so `job_retry_is_bounded` describes every such run.
pub proof fn attempts_follow_the_trace(states: Seq<JobRetry>, results: Seq<bool>, steps: Seq<RetryStep>)
    requires
        states.len() == steps.len() + 1,
        results.len() >= steps.len(),
        forall|i: int| 0 <= i < steps.len() ==> attempt_step(states[i], results[i], #[trigger] steps[i], states[i + 1]),
        forall|i: int| 0 <= i < steps.len() - 1 ==> (#[trigger] steps[i]) is Backoff,
    ensures
        retry_trace(results, states[0].failures as nat).len() >= steps.len(),
        forall|i: int| 0 <= i < steps.len() ==> #[trigger] steps[i] == retry_trace(results, states[0].failures as nat)[i],
        steps.len() > 0 && !(steps.last() is Backoff) ==> retry_trace(results, states[0].failures as nat).len() == steps.len(),
    decreases steps.len(),
{
    if steps.len() > 0 {
        let m = states[0].failures as nat;
        assert(attempt_step(states[0], results[0], steps[0], states[1]));
        if steps.len() > 1 {
            assert(steps[0] is Backoff);
            attempts_follow_the_trace(states.drop_first(), results.drop_first(), steps.drop_first());
            let t = retry_trace(results, m);
            let tr = retry_trace(results.drop_first(), (m + 1) as nat);
            assert(states.drop_first()[0] == states[1]);
            assert(t == seq![steps[0]] + tr);
            assert forall|i: int| 0 <= i < steps.len() implies #[trigger] steps[i] == t[i] by {
                if i > 0 {
                    assert(steps.drop_first()[i - 1] == steps[i]);
                    assert(t[i] == tr[i - 1]);
                }
            }
        }
    }
}

} // verus!
