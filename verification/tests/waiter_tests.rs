use headless_chrome::errors::WaitError;
use headless_chrome::waiter::Poll;
use headless_chrome::waiter::Replay;
use headless_chrome::waiter::StepAction;
use headless_chrome::waiter::Waiter;

type P = Poll<u32, String>;

#[test]
fn success_on_third_poll_returns_that_value_exactly() {
    // Timeout larger than three poll intervals: the wait must end at the
    // third poll — not earlier, not after further polling.
    let w = Waiter::new(100, 10);
    let polls: Vec<P> = vec![Poll::Pending, Poll::Pending, Poll::Ready(42)];
    let r = w.replay(&polls);
    assert_eq!(r, Replay::DoneAt { index: 2 });
    match &polls[2] {
        Poll::Ready(v) => assert_eq!(*v, 42),
        _ => unreachable!(),
    }
}

#[test]
fn success_is_not_delayed_by_the_interval() {
    let w = Waiter::new(100, 10);
    match w.step(0, P::Ready(7)) {
        StepAction::Finish(Ok(7)) => {},
        _ => panic!("a ready poll must finish the wait at once"),
    }
    // Even with the budget already spent, a value that arrived is returned.
    match w.step(100, P::Ready(8)) {
        StepAction::Finish(Ok(8)) => {},
        _ => panic!("a ready poll must finish the wait even at the deadline"),
    }
}

#[test]
fn all_pending_polls_time_out_at_the_deadline() {
    // Timeout 100 ms, interval 10 ms: the tenth pending poll spends the
    // budget; the script is long enough that polling past it would show.
    let w = Waiter::new(100, 10);
    let polls: Vec<P> = vec![Poll::Pending; 50];
    assert_eq!(w.replay(&polls), Replay::TimedOut { polls: 10 });
}

#[test]
fn step_never_retries_once_the_budget_is_spent() {
    let w = Waiter::new(100, 10);
    match w.step(90, P::Pending) {
        StepAction::Finish(Err(WaitError::Timeout)) => {},
        _ => panic!("90 + 10 reaches the 100 ms budget"),
    }
    match w.step(80, P::Pending) {
        StepAction::SleepRetry { next_elapsed_ms: 90 } => {},
        _ => panic!("80 + 10 stays under the 100 ms budget"),
    }
}

#[test]
fn errors_propagate_immediately_without_a_sleep() {
    let w = Waiter::new(1_000_000, 50);
    // The very first poll fails: the error comes back at once, and the
    // action is a finish, never a sleep-and-retry.
    match w.step(0, P::Failed("boom".to_string())) {
        StepAction::Finish(Err(WaitError::Inner(e))) => assert_eq!(e, "boom"),
        _ => panic!("a failed poll must propagate its error immediately"),
    }
    let polls: Vec<P> = vec![Poll::Failed("boom".to_string()), Poll::Ready(1)];
    assert_eq!(w.replay(&polls), Replay::FailedAt { index: 0 });
}

#[test]
fn a_script_can_end_before_the_wait_does() {
    let w = Waiter::new(1000, 10);
    let polls: Vec<P> = vec![Poll::Pending, Poll::Pending];
    assert_eq!(w.replay(&polls), Replay::Exhausted { polls: 2, elapsed_ms: 20 });
}

#[test]
fn zero_timeout_times_out_on_the_first_pending_poll() {
    let w = Waiter::new(0, 10);
    let polls: Vec<P> = vec![Poll::Pending; 3];
    assert_eq!(w.replay(&polls), Replay::TimedOut { polls: 1 });
}
