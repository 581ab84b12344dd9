//! Planning the recurring job's trigger instants from a cron schedule.
use std::str::FromStr;

use chrono::{DateTime, Utc};
use cron::Schedule;
use vstd::prelude::*;

verus! {

/// 2101-01-01T00:00:00Z in Unix seconds: cron searches the years 1970 to 2100.
pub const SCHEDULE_END: i64 = 4133980800;

/// The first instant after `after` that the cron expression `expr` matches,
/// if the expression parses and such an instant exists.
pub uninterp spec fn cron_next_after(expr: Seq<char>, after: i64) -> Option<i64>;

/// Relies on cron's `Schedule::from_str` and `Schedule::after`: the first
/// instant `after` yields is a match strictly later than the given one (it
/// searches from one second on) and lies in the years 1970 to 2100. Instants
/// are Unix seconds in UTC. The bound on `after` keeps cron's added second in
/// chrono's range.
#[verifier::external_body]
fn next_match_after(expr: &str, after: i64) -> (r: Option<i64>)
    requires
        after < SCHEDULE_END,
    ensures
        r == cron_next_after(expr@, after),
        r matches Some(t) ==> after < t && t < SCHEDULE_END,
{
    let schedule = Schedule::from_str(expr).ok()?;
    let start = DateTime::<Utc>::from_timestamp(after, 0)?;
    schedule.after(&start).next().map(|t| t.timestamp())
}

/// One planned run of the job.
#[derive(Clone, Copy, Debug, PartialEq, Eq, Structural)]
pub struct Trigger {
    /// The instant, in Unix seconds.
    pub at: i64,
    /// Seconds to sleep from now until then (zero when it has passed).
    pub delay_secs: u64,
}

/// Walks a schedule's instants in order; a job's outcome never enters it.
#[derive(Clone, Copy, Debug, PartialEq, Eq, Structural)]
pub struct Scheduler {
    /// The last instant handed out, or the start time.
    pub cursor: i64,
}

/// Seconds from `now` until `at`, or zero once `at` has passed.
pub open spec fn delay_until(now: i64, at: i64) -> u64 {
    if at > now {
        (at - now) as u64
    } else {
        0
    }
}

/// Seconds from `now` until `at`, or zero once `at` has passed.
pub fn delay_secs_until(now: i64, at: i64) -> (r: u64)
    ensures
        r == delay_until(now, at),
{
    if at > now {
        (at as i128 - now as i128) as u64
    } else {
        0
    }
}

/// One call of `next_trigger` on `expr` that handed out `t`, moving `before`
/// to `after`.
pub open spec fn trigger_step(expr: Seq<char>, before: Scheduler, t: Trigger, after: Scheduler, now: i64) -> bool {
    &&& cron_next_after(expr, before.cursor) == Some(t.at)
    &&& t.at > before.cursor
    &&& after.cursor == t.at
    &&& t.delay_secs == delay_until(now, t.at)
}

impl Scheduler {
    /// The cursor lies where cron can search from.
    pub open spec fn wf(&self) -> bool {
        self.cursor < SCHEDULE_END
    }

    /// A scheduler whose first trigger comes after `now`.
    pub fn starting_at(now: i64) -> (r: Scheduler)
        requires
            now < SCHEDULE_END,
        ensures
            r.cursor == now,
            r.wf(),
    {
        Scheduler { cursor: now }
    }

    /// The next trigger: the first instant after the last one handed out that
    /// the cron expression matches, with the wait from `now`. No job outcome
    /// enters, so a failed or late job neither skips nor delays a trigger.
    pub fn next_trigger(&mut self, expr: &str, now: i64) -> (r: Option<Trigger>)
        requires
            old(self).wf(),
        ensures
            final(self).wf(),
            match cron_next_after(expr@, old(self).cursor) {
                Some(at) => r == Some(Trigger { at, delay_secs: delay_until(now, at) })
                    && final(self).cursor == at,
                None => r is None && *final(self) == *old(self),
            },
            r matches Some(t) ==> trigger_step(expr@, *old(self), t, *final(self), now),
    {
        match next_match_after(expr, self.cursor) {
            Some(at) => {
                self.cursor = at;
                Some(Trigger { at, delay_secs: delay_secs_until(now, at) })
            },
            None => None,
        }
    }
}

/// Over any run of the scheduler on one cron expression, the job is
/// triggered at strictly increasing instants, each the expression's first
/// match after the one before, so none is skipped; each wait depends only on
/// the clock and the instant, so nothing a job does (failing, or running
/// late) delays or skips a later trigger.
pub proof fn triggers_strictly_increase(
    expr: Seq<char>,
    states: Seq<Scheduler>,
    triggers: Seq<Trigger>,
    nows: Seq<i64>,
)
    requires
        states.len() == triggers.len() + 1,
        nows.len() == triggers.len(),
        forall|i: int| 0 <= i < triggers.len() ==> trigger_step(expr, states[i], #[trigger] triggers[i], states[i + 1], nows[i]),
    ensures
        triggers.len() > 0 ==> cron_next_after(expr, states[0].cursor) == Some(triggers[0].at),
        forall|i: int| 0 < i < triggers.len() ==> cron_next_after(expr, triggers[i - 1].at) == Some((#[trigger] triggers[i]).at),
        forall|i: int, j: int| 0 <= i < j < triggers.len() ==> (#[trigger] triggers[i]).at < (#[trigger] triggers[j]).at,
        forall|i: int| 0 <= i < triggers.len() ==> (#[trigger] triggers[i]).delay_secs == delay_until(nows[i], triggers[i].at),
    decreases triggers.len(),
{
    if triggers.len() > 0 {
        let k = triggers.len() - 1;
        triggers_strictly_increase(expr, states.drop_last(), triggers.drop_last(), nows.drop_last());
        assert forall|i: int| 0 < i < triggers.len() implies cron_next_after(expr, triggers[i - 1].at) == Some((#[trigger] triggers[i]).at) by {
            assert(trigger_step(expr, states[i - 1], triggers[i - 1], states[i], nows[i - 1]));
            assert(trigger_step(expr, states[i], triggers[i], states[i + 1], nows[i]));
        }
        assert forall|i: int| 0 <= i < k implies (#[trigger] triggers[i]).at < triggers[k].at by {
            assert(triggers.drop_last()[i] == triggers[i]);
            lemma_cursor_grows(expr, states, triggers, nows, i + 1, k);
        }
        assert forall|i: int, j: int| 0 <= i < j < triggers.len() implies (#[trigger] triggers[i]).at < (#[trigger] triggers[j]).at by {
            if j < k {
                assert(triggers.drop_last()[i] == triggers[i]);
                assert(triggers.drop_last()[j] == triggers[j]);
            }
        }
    }
}

proof fn lemma_cursor_grows(expr: Seq<char>, states: Seq<Scheduler>, triggers: Seq<Trigger>, nows: Seq<i64>, a: int, b: int)
    requires
        states.len() == triggers.len() + 1,
        nows.len() == triggers.len(),
        forall|i: int| 0 <= i < triggers.len() ==> trigger_step(expr, states[i], #[trigger] triggers[i], states[i + 1], nows[i]),
        0 < a <= b < triggers.len(),
    ensures
        triggers[a - 1].at <= states[a].cursor < triggers[b].at,
    decreases b - a,
{
    assert(trigger_step(expr, states[a - 1], triggers[a - 1], states[a], nows[a - 1]));
    assert(trigger_step(expr, states[b], triggers[b], states[b + 1], nows[b]));
    if a < b {
        lemma_cursor_grows(expr, states, triggers, nows, a + 1, b);
        assert(trigger_step(expr, states[a], triggers[a], states[a + 1], nows[a]));
    }
}

} // verus!
