//! The generic wait-with-timeout primitive.
//!
//! A [`Waiter`] repeatedly evaluates a caller-supplied operation until it
//! yields a value, fails, or a timeout elapses.  The decision logic is here
//! and is exact: [`Waiter::step`] maps the outcome of one poll and the time
//! accumulated so far to the one action the polling loop must take next.
//! The loop itself — invoking the real operation and sleeping between polls
//! — runs outside, performing exactly what `step` returns.
//! [`Waiter::replay`] runs the same decisions over a pre-recorded sequence
//! of outcomes, which is how the loop's behaviour is exercised
//! deterministically.

use vstd::prelude::*;

use crate::errors::WaitError;

verus! {

/// What one evaluation of the polled operation yielded.
#[derive(Clone)]
pub enum Poll<T, E> {
    /// The awaited value: the wait succeeds immediately.
    Ready(T),
    /// Nothing yet: sleep one interval and retry, unless the timeout is
    /// spent.
    Pending,
    /// The operation itself failed: the wait fails immediately, without
    /// another sleep or poll.  This is how a connection closed mid-wait
    /// surfaces promptly.
    Failed(E),
}

/// The one action the polling loop must take after a poll.
pub enum StepAction<T, E> {
    /// Stop and hand this to the caller.
    Finish(Result<T, WaitError<E>>),
    /// Sleep one poll interval, note the accumulated time, and poll again.
    SleepRetry { next_elapsed_ms: u64 },
}

/// How a replayed script of poll outcomes ended.
#[derive(PartialEq, Eq, Structural, Debug)]
pub enum Replay {
    /// The script's poll at `index` yielded the value; nothing after it was
    /// polled.
    DoneAt { index: usize },
    /// The script's poll at `index` failed; nothing after it was polled.
    FailedAt { index: usize },
    /// The timeout was spent after `polls` polls.
    TimedOut { polls: usize },
    /// The script ended before the wait did, `elapsed_ms` into the timeout.
    Exhausted { polls: usize, elapsed_ms: u64 },
}

/// `a + b`, stopped at the top of `u64`.
pub open spec fn sat_add(a: u64, b: u64) -> u64 {
    if a + b > u64::MAX {
        u64::MAX
    } else {
        (a + b) as u64
    }
}

/// A timeout-bounded retry policy: the total time budget and the fixed
/// interval slept between polls, both in milliseconds.
pub struct Waiter {
    pub timeout_ms: u64,
    pub poll_ms: u64,
}

/// Where a replay of `polls` ends when started at poll `i` with `elapsed`
/// milliseconds already accumulated.
pub open spec fn replay_from<T, E>(w: Waiter, polls: Seq<Poll<T, E>>, i: int, elapsed: u64) -> Replay
    decreases polls.len() - i,
    when 0 <= i <= polls.len()
{
    if i == polls.len() {
        Replay::Exhausted { polls: i as usize, elapsed_ms: elapsed }
    } else {
        match polls[i] {
            Poll::Ready(_) => Replay::DoneAt { index: i as usize },
            Poll::Failed(_) => Replay::FailedAt { index: i as usize },
            Poll::Pending => {
                let next = sat_add(elapsed, w.poll_ms);
                if next >= w.timeout_ms {
                    Replay::TimedOut { polls: (i + 1) as usize }
                } else {
                    replay_from(w, polls, i + 1, next)
                }
            },
        }
    }
}

impl Waiter {
    /// A policy with the given budget and poll interval.
    pub fn new(timeout_ms: u64, poll_ms: u64) -> (w: Waiter)
        ensures
            w.timeout_ms == timeout_ms,
            w.poll_ms == poll_ms,
    {
        Waiter { timeout_ms, poll_ms }
    }

    /// Decide the next action after one poll.  A value ends the wait at once
    /// with that value — success is never delayed by the interval.  A
    /// failure ends it at once with the error — errors are never swallowed
    /// by retry, and no sleep precedes the propagation.  Otherwise the
    /// interval is charged against the budget: the loop is told to sleep
    /// and retry only while the accumulated time stays under the timeout,
    /// so no poll is ever instructed past the deadline.
    pub fn step<T, E>(&self, elapsed_ms: u64, outcome: Poll<T, E>) -> (a: StepAction<T, E>)
        ensures
            (outcome matches Poll::Ready(v) ==> a == StepAction::<T, E>::Finish(Ok(v))),
            (outcome matches Poll::Failed(e) ==> a == StepAction::<T, E>::Finish(
                Err(WaitError::Inner(e)),
            )),
            outcome is Pending ==> ({
                let next = sat_add(elapsed_ms, self.poll_ms);
                if next >= self.timeout_ms {
                    a == StepAction::<T, E>::Finish(Err(WaitError::Timeout))
                } else {
                    a == StepAction::<T, E>::SleepRetry { next_elapsed_ms: next }
                }
            }),
    {
        match outcome {
            Poll::Ready(v) => StepAction::Finish(Ok(v)),
            Poll::Failed(e) => StepAction::Finish(Err(WaitError::Inner(e))),
            Poll::Pending => {
                let next = if elapsed_ms <= u64::MAX - self.poll_ms {
                    elapsed_ms + self.poll_ms
                } else {
                    u64::MAX
                };
                if next >= self.timeout_ms {
                    StepAction::Finish(Err(WaitError::Timeout))
                } else {
                    StepAction::SleepRetry { next_elapsed_ms: next }
                }
            },
        }
    }

    /// Run the wait's decisions over a pre-recorded script of poll
    /// outcomes: exactly the loop the owner runs, with the sleeps taken
    /// out.
    pub fn replay<T, E>(&self, polls: &Vec<Poll<T, E>>) -> (r: Replay)
        ensures
            r == replay_from(*self, polls@, 0, 0u64),
    {
        let len = polls.len();
        let mut i: usize = 0;
        let mut elapsed: u64 = 0;
        while i < len
            invariant
                len == polls@.len(),
                i <= len,
                replay_from(*self, polls@, 0, 0u64) == replay_from(
                    *self,
                    polls@,
                    i as int,
                    elapsed,
                ),
            decreases len - i,
        {
            match &polls[i] {
                Poll::Ready(_) => {
                    return Replay::DoneAt { index: i };
                },
                Poll::Failed(_) => {
                    return Replay::FailedAt { index: i };
                },
                Poll::Pending => {
                    let next = if elapsed <= u64::MAX - self.poll_ms {
                        elapsed + self.poll_ms
                    } else {
                        u64::MAX
                    };
                    if next >= self.timeout_ms {
                        return Replay::TimedOut { polls: i + 1 };
                    }
                    elapsed = next;
                    i += 1;
                },
            }
        }
        Replay::Exhausted { polls: i, elapsed_ms: elapsed }
    }
}

/// Law: the first poll that yields a value ends the wait with exactly that
/// poll, provided the budget lets the wait live that long.  Polls before it
/// that yielded nothing only cost their interval; nothing after it is
/// polled.
pub proof fn lemma_success_is_immediate<T, E>(
    w: Waiter,
    polls: Seq<Poll<T, E>>,
    j: int,
    e: u64,
    n: int,
)
    requires
        0 <= j <= n < polls.len(),
        polls[n] is Ready,
        forall|k: int| j <= k < n ==> (#[trigger] polls[k]) is Pending,
        e + (n - j) * w.poll_ms < w.timeout_ms,
    ensures
        replay_from(w, polls, j, e) == (Replay::DoneAt { index: n as usize }),
    decreases n - j,
{
    if j == n {
    } else {
        assert((n - j) * w.poll_ms == w.poll_ms + (n - j - 1) * w.poll_ms) by (nonlinear_arith);
        assert((n - j - 1) * w.poll_ms >= 0) by (nonlinear_arith)
            requires
                n - j - 1 >= 0 && w.poll_ms >= 0,
        ;
        let next = sat_add(e, w.poll_ms);
        assert(next == e + w.poll_ms);
        lemma_success_is_immediate(w, polls, j + 1, next, n);
    }
}

/// Law: a wait whose polls all yield nothing times out rather than polling
/// for ever: with a positive interval, a script at least as long as the
/// timeout's millisecond count is never exhausted — the wait declares
/// `TimedOut` first.
pub proof fn lemma_all_pending_times_out<T, E>(w: Waiter, polls: Seq<Poll<T, E>>)
    requires
        w.poll_ms >= 1,
        forall|k: int| 0 <= k < polls.len() ==> (#[trigger] polls[k]) is Pending,
        polls.len() >= w.timeout_ms,
        polls.len() >= 1,
    ensures
        replay_from(w, polls, 0, 0u64) is TimedOut,
{
    if w.timeout_ms == 0 {
        assert(sat_add(0u64, w.poll_ms) >= 0);
    } else {
        lemma_pending_run_times_out(w, polls, 0, 0u64);
    }
}

/// Law: a timeout is never declared early.  Whenever a replay ends in
/// `TimedOut` after `k` polls, the time those polls accumulated — `k`
/// intervals — reaches the timeout: the wait runs for its full budget
/// before giving up.
pub proof fn lemma_timeout_spends_the_budget<T, E>(
    w: Waiter,
    polls: Seq<Poll<T, E>>,
    j: int,
    e: u64,
)
    requires
        0 <= j <= polls.len(),
        polls.len() <= usize::MAX,
    ensures
        replay_from(w, polls, j, e) matches Replay::TimedOut { polls: k } ==> (j < k
            <= polls.len() && e + (k - j) * w.poll_ms >= w.timeout_ms),
    decreases polls.len() - j,
{
    if j == polls.len() {
    } else {
        match polls[j] {
            Poll::Ready(_) => {},
            Poll::Failed(_) => {},
            Poll::Pending => {
                let next = sat_add(e, w.poll_ms);
                if next >= w.timeout_ms {
                    assert((j + 1 - j) * w.poll_ms == w.poll_ms) by (nonlinear_arith);
                } else {
                    lemma_timeout_spends_the_budget(w, polls, j + 1, next);
                    match replay_from(w, polls, j, e) {
                        Replay::TimedOut { polls: k } => {
                            assert((k - j) * w.poll_ms == w.poll_ms + (k - j - 1) * w.poll_ms)
                                by (nonlinear_arith);
                        },
                        _ => {},
                    }
                }
            },
        }
    }
}

/// Helper for [`lemma_all_pending_times_out`]: from any point still under
/// the deadline, enough all-pending polls remain to spend the budget.
proof fn lemma_pending_run_times_out<T, E>(w: Waiter, polls: Seq<Poll<T, E>>, j: int, e: u64)
    requires
        w.poll_ms >= 1,
        forall|k: int| 0 <= k < polls.len() ==> (#[trigger] polls[k]) is Pending,
        0 <= j <= polls.len(),
        e < w.timeout_ms,
        polls.len() - j >= w.timeout_ms - e,
    ensures
        replay_from(w, polls, j, e) is TimedOut,
    decreases polls.len() - j,
{
    let next = sat_add(e, w.poll_ms);
    if next >= w.timeout_ms {
    } else {
        lemma_pending_run_times_out(w, polls, j + 1, next);
    }
}

} // verus!
