use vanguard::retry::{JobError, JobRetry, RetryStep, BACKOFF_SECS, MAX_ATTEMPTS};
use vanguard::wait::{ElementWait, WaitStep, MAX_POLLS, POLL_INTERVAL_SECS};

fn run_wait(first_found: Option<u32>) -> Vec<WaitStep> {
    let mut w = ElementWait::new();
    let mut steps = vec![];
    let mut poll = 1;
    loop {
        let step = w.record_poll(Some(poll) == first_found);
        steps.push(step);
        if !matches!(step, WaitStep::Sleep { .. }) {
            return steps;
        }
        poll += 1;
    }
}

#[test]
fn wait_succeeds_at_the_nth_poll() {
    for n in 1..=MAX_POLLS {
        let steps = run_wait(Some(n));
        assert_eq!(steps.len(), n as usize);
        assert_eq!(*steps.last().unwrap(), WaitStep::Found);
        assert!(steps[..steps.len() - 1].iter().all(|s| *s == WaitStep::Sleep { secs: 1 }));
    }
}

#[test]
fn wait_fails_after_ten_polls() {
    let steps = run_wait(None);
    assert_eq!(steps.len(), 10);
    assert_eq!(*steps.last().unwrap(), WaitStep::NotFound);
    let slept: u64 = steps
        .iter()
        .map(|s| match s {
            WaitStep::Sleep { secs } => *secs,
            _ => 0,
        })
        .sum();
    assert_eq!(slept, 9 * POLL_INTERVAL_SECS);
    assert_eq!(run_wait(Some(11)).len(), 10);
}

#[test]
fn two_failures_then_success() {
    let mut job = JobRetry::new();
    assert_eq!(job.record_attempt(false), RetryStep::Backoff { secs: 300 });
    assert_eq!(job.record_attempt(false), RetryStep::Backoff { secs: BACKOFF_SECS });
    assert_eq!(job.record_attempt(true), RetryStep::Done);
    assert_eq!(job.failures, 2);
}

#[test]
fn always_failing_gives_up_after_three_attempts() {
    let mut job = JobRetry::new();
    let mut attempts = 0;
    let mut sleeps = 0;
    loop {
        attempts += 1;
        match job.record_attempt(false) {
            RetryStep::Backoff { .. } => sleeps += 1,
            RetryStep::GiveUp => break,
            RetryStep::Done => unreachable!(),
        }
    }
    assert_eq!(attempts, MAX_ATTEMPTS);
    assert_eq!(sleeps, 2);
    assert_eq!(job.give_up_error(), JobError::MaxRetries { attempts: 3 });
}
