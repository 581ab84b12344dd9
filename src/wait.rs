//! Bounded polling for an element that the page renders late.
use vstd::prelude::*;

verus! {

/// Polls made before the wait gives up.
pub const MAX_POLLS: u32 = 10;

/// Pause between two polls, in seconds.
pub const POLL_INTERVAL_SECS: u64 = 1;

/// What to do after one poll.
#[derive(Clone, Copy, Debug, PartialEq, Eq, Structural)]
pub enum WaitStep {
    /// The element is there.
    Found,
    /// Sleep this long, then poll again.
    Sleep { secs: u64 },
    /// The element never came: the wait failed.
    NotFound,
}

/// The state of one element wait: how many polls have missed.
#[derive(Clone, Copy, Debug, PartialEq, Eq, Structural)]
pub struct ElementWait {
    pub missed: u32,
}

/// The step after a poll, given the polls missed before it.
pub open spec fn wait_step(missed: nat, found: bool) -> WaitStep {
    if found {
        WaitStep::Found
    } else if missed + 1 >= MAX_POLLS {
        WaitStep::NotFound
    } else {
        WaitStep::Sleep { secs: POLL_INTERVAL_SECS }
    }
}

/// The steps taken when the polls come out as `polls`, from `missed` misses on.
pub open spec fn wait_trace(polls: Seq<bool>, missed: nat) -> Seq<WaitStep>
    decreases polls.len(),
{
    if polls.len() == 0 {
        Seq::empty()
    } else {
        let s = wait_step(missed, polls[0]);
        if s is Sleep {
            seq![s] + wait_trace(polls.drop_first(), missed + 1)
        } else {
            seq![s]
        }
    }
}

/// One call of `record_poll` that answered `found` with `r`, moving `before` to `after`.
pub open spec fn poll_step(before: ElementWait, found: bool, r: WaitStep, after: ElementWait) -> bool {
    &&& r == wait_step(before.missed as nat, found)
    &&& after.missed == (if found { before.missed } else { (before.missed + 1) as u32 })
}

impl ElementWait {
    /// A wait that has not polled yet.
    pub fn new() -> (r: ElementWait)
        ensures
            r.missed == 0,
    {
        ElementWait { missed: 0 }
    }

    /// Records the result of one poll and says what comes next.
    pub fn record_poll(&mut self, found: bool) -> (r: WaitStep)
        requires
            old(self).missed < MAX_POLLS,
        ensures
            poll_step(*old(self), found, r, *final(self)),
            r == wait_step(old(self).missed as nat, found),
            final(self).missed == (if found { old(self).missed } else { (old(self).missed + 1) as u32 }),
            r is Sleep ==> final(self).missed < MAX_POLLS,
    {
        if found {
            WaitStep::Found
        } else {
            self.missed = self.missed + 1;
            if self.missed >= MAX_POLLS {
                WaitStep::NotFound
            } else {
                WaitStep::Sleep { secs: POLL_INTERVAL_SECS }
            }
        }
    }
}

/// When the element first shows at poll `n` (counting from one) and
/// `n <= MAX_POLLS`, the wait sleeps one interval after each of the `n - 1`
/// misses and succeeds at poll `n`; when it misses `MAX_POLLS` polls, the wait
/// fails at the last of them after `MAX_POLLS - 1` sleeps of one interval.
pub proof fn element_wait_is_bounded(polls: Seq<bool>, missed: nat)
    requires
        missed < MAX_POLLS,
    ensures
        forall|n: int|
            #![trigger polls[n - 1]]
            1 <= n <= polls.len() && n + missed <= MAX_POLLS && polls[n - 1] && (forall|k: int|
                0 <= k < n - 1 ==> !polls[k]) ==> {
                &&& wait_trace(polls, missed).len() == n
                &&& wait_trace(polls, missed)[n - 1] == WaitStep::Found
                &&& forall|k: int| 0 <= k < n - 1 ==> wait_trace(polls, missed)[k] == WaitStep::Sleep { secs: POLL_INTERVAL_SECS }
            },
        polls.len() + missed >= MAX_POLLS && (forall|k: int| 0 <= k < MAX_POLLS - missed ==> !polls[k]) ==> {
            &&& wait_trace(polls, missed).len() == MAX_POLLS - missed
            &&& wait_trace(polls, missed).last() == WaitStep::NotFound
            &&& forall|k: int| 0 <= k < MAX_POLLS - missed - 1 ==> wait_trace(polls, missed)[k] == WaitStep::Sleep { secs: POLL_INTERVAL_SECS }
        },
    decreases polls.len(),
{
    if polls.len() > 0 {
        let rest = polls.drop_first();
        if missed + 1 < MAX_POLLS {
            element_wait_is_bounded(rest, missed + 1);
        }
        assert forall|n: int|
            #![trigger polls[n - 1]]
            1 <= n <= polls.len() && n + missed <= MAX_POLLS && polls[n - 1] && (forall|k: int|
                0 <= k < n - 1 ==> !polls[k]) implies {
                &&& wait_trace(polls, missed).len() == n
                &&& wait_trace(polls, missed)[n - 1] == WaitStep::Found
                &&& forall|k: int| 0 <= k < n - 1 ==> wait_trace(polls, missed)[k] == WaitStep::Sleep { secs: POLL_INTERVAL_SECS }
            } by {
            if n > 1 {
                assert(!polls[0]);
                let m = n - 1;
                assert(rest[m - 1] == polls[n - 1]);
                assert forall|k: int| 0 <= k < m - 1 implies !rest[k] by {
                    assert(rest[k] == polls[k + 1]);
                }
                assert(wait_trace(rest, missed + 1).len() == m);
                let t = wait_trace(polls, missed);
                let tr = wait_trace(rest, missed + 1);
                assert(t == seq![WaitStep::Sleep { secs: POLL_INTERVAL_SECS }] + tr);
                assert forall|k: int| 0 <= k < n - 1 implies t[k] == WaitStep::Sleep { secs: POLL_INTERVAL_SECS } by {
                    if k > 0 {
                        assert(t[k] == tr[k - 1]);
                    }
                }
            }
        }
        if polls.len() + missed >= MAX_POLLS && (forall|k: int| 0 <= k < MAX_POLLS - missed ==> !polls[k]) {
            assert(!polls[0]);
            if missed + 1 < MAX_POLLS {
                assert forall|k: int| 0 <= k < MAX_POLLS - (missed + 1) implies !rest[k] by {
                    assert(rest[k] == polls[k + 1]);
                }
                let t = wait_trace(polls, missed);
                let tr = wait_trace(rest, missed + 1);
                assert(t == seq![WaitStep::Sleep { secs: POLL_INTERVAL_SECS }] + tr);
                assert forall|k: int| 0 <= k < MAX_POLLS - missed - 1 implies t[k] == WaitStep::Sleep { secs: POLL_INTERVAL_SECS } by {
                    if k > 0 {
                        assert(t[k] == tr[k - 1]);
                    }
                }
            }
        }
    }
}

/// A driver that calls `record_poll` once per poll and polls again only
/// after a sleep takes exactly the steps of `wait_trace` over the poll
/// results, so `element_wait_is_bounded` describes every such run.
pub proof fn polling_follows_the_trace(states: Seq<ElementWait>, results: Seq<bool>, steps: Seq<WaitStep>)
    requires
        states.len() == steps.len() + 1,
        results.len() >= steps.len(),
        forall|i: int| 0 <= i < steps.len() ==> poll_step(states[i], results[i], #[trigger] steps[i], states[i + 1]),
        forall|i: int| 0 <= i < steps.len() - 1 ==> (#[trigger] steps[i]) is Sleep,
    ensures
        wait_trace(results, states[0].missed as nat).len() >= steps.len(),
        forall|i: int| 0 <= i < steps.len() ==> #[trigger] steps[i] == wait_trace(results, states[0].missed as nat)[i],
        steps.len() > 0 && !(steps.last() is Sleep) ==> wait_trace(results, states[0].missed as nat).len() == steps.len(),
    decreases steps.len(),
{
    if steps.len() > 0 {
        let m = states[0].missed as nat;
        assert(poll_step(states[0], results[0], steps[0], states[1]));
        if steps.len() > 1 {
            assert(steps[0] is Sleep);
            polling_follows_the_trace(states.drop_first(), results.drop_first(), steps.drop_first());
            let t = wait_trace(results, m);
            let tr = wait_trace(results.drop_first(), (m + 1) as nat);
            assert(states.drop_first()[0] == states[1]);
            assert(t == seq![steps[0]] + tr);
            assert forall|i: int| 0 <= i < steps.len() implies #[trigger] steps[i] == t[i] by {
                if i > 0 {
                    assert(steps.drop_first()[i - 1] == steps[i]);
                    assert(t[i] == tr[i - 1]);
                }
            }
        }
    }
}

} // verus!
