use yolo_pipeline::backoff::{
    ConnectRetry, ConnectStep, PollAction, PollEvent, PollingConfig, PredictionPoller, StopReason,
    CONNECT_MAX_ATTEMPTS,
};
use yolo_pipeline::pool::{session_index, RoundRobin};

#[test]
fn connect_delays_double_up_to_one_second() {
    let mut r = ConnectRetry::new();
    let mut delays = Vec::new();
    loop {
        match r.on_failure(1000) {
            ConnectStep::RetryAfter(d) => delays.push(d),
            ConnectStep::GiveUp => break,
        }
    }
    assert_eq!(delays, vec![50, 100, 200, 400, 800, 1000, 1000, 1000, 1000]);
    assert_eq!(r.attempts, CONNECT_MAX_ATTEMPTS);
}

#[test]
fn connect_delays_with_jitter_stay_in_bounds() {
    for _ in 0..20 {
        let mut r = ConnectRetry::new();
        let mut i = 0u32;
        let mut attempts = 1;
        loop {
            match r.on_failure_random() {
                ConnectStep::RetryAfter(d) => {
                    let base = (50u64 << i).min(1000);
                    assert!(d >= base * 9 / 10 && d <= base * 11 / 10, "delay {} for base {}", d, base);
                    i += 1;
                    attempts += 1;
                }
                ConnectStep::GiveUp => break,
            }
        }
        assert_eq!(attempts, 10);
    }
}

#[test]
fn connect_jitter_extremes() {
    let mut r = ConnectRetry::new();
    assert_eq!(r.on_failure(900), ConnectStep::RetryAfter(45));
    assert_eq!(r.on_failure(1099), ConnectStep::RetryAfter(109));
}

fn polling(max_retries: u64, max_consecutive_failures: u64) -> PollingConfig {
    PollingConfig {
        poll_interval_ms: 50,
        max_retries,
        initial_delay_ms: 100,
        backoff_factor: 2,
        max_consecutive_failures,
    }
}

#[test]
fn persistent_failure_stops_after_three_failed_polls() {
    let mut p = PredictionPoller::new(polling(2, 3));
    let mut actions = Vec::new();
    loop {
        let a = p.on_event(PollEvent::Failed);
        actions.push(a);
        if let PollAction::Stop(_) = a {
            break;
        }
    }
    // each failed poll: the poll and two retries
    assert_eq!(actions.len(), 9);
    assert_eq!(
        actions,
        vec![
            PollAction::RetryAfter(100),
            PollAction::RetryAfter(200),
            PollAction::PollAfter(50),
            PollAction::RetryAfter(100),
            PollAction::RetryAfter(200),
            PollAction::PollAfter(50),
            PollAction::RetryAfter(100),
            PollAction::RetryAfter(200),
            PollAction::Stop(StopReason::PersistentFailure),
        ]
    );
    assert_eq!(p.state.consecutive_failures, 3);
    assert!(p.state.stopped);
}

#[test]
fn successful_retry_clears_the_failure_count() {
    let mut p = PredictionPoller::new(polling(1, 2));
    assert_eq!(p.on_event(PollEvent::Failed), PollAction::RetryAfter(100));
    assert_eq!(p.on_event(PollEvent::Failed), PollAction::PollAfter(50));
    assert_eq!(p.state.consecutive_failures, 1);
    assert_eq!(p.on_event(PollEvent::Failed), PollAction::RetryAfter(100));
    assert_eq!(p.on_event(PollEvent::Succeeded), PollAction::PollAfter(50));
    assert_eq!(p.state.consecutive_failures, 0);
    assert_eq!(p.on_event(PollEvent::Shutdown), PollAction::Stop(StopReason::Shutdown));
}

#[test]
fn no_retries_counts_each_failed_poll() {
    let mut p = PredictionPoller::new(polling(0, 2));
    assert_eq!(p.on_event(PollEvent::Failed), PollAction::PollAfter(50));
    assert_eq!(p.on_event(PollEvent::Failed), PollAction::Stop(StopReason::PersistentFailure));
}

#[test]
fn retry_delay_saturates() {
    let mut c = polling(3, 1);
    c.initial_delay_ms = u64::MAX / 2 + 1;
    let mut p = PredictionPoller::new(c);
    assert_eq!(p.on_event(PollEvent::Failed), PollAction::RetryAfter(u64::MAX / 2 + 1));
    assert_eq!(p.on_event(PollEvent::Failed), PollAction::RetryAfter(u64::MAX));
}

#[test]
fn round_robin_is_fair() {
    let mut rr = RoundRobin::new(3);
    let mut counts = [0usize; 3];
    for _ in 0..100 {
        counts[rr.next_session()] += 1;
    }
    assert_eq!(counts, [34, 33, 33]);
    assert_eq!(session_index(7, 4), 3);
    let mut w = RoundRobin { counter: usize::MAX, sessions: 2 };
    assert_eq!(w.next_session(), usize::MAX % 2);
    assert_eq!(w.counter, 0);
}

#[test]
fn round_robin_window_from_any_counter() {
    let mut rr = RoundRobin { counter: 1_000_003, sessions: 4 };
    let mut counts = [0usize; 4];
    for _ in 0..10 {
        counts[rr.next_session()] += 1;
    }
    // calls 1_000_003 .. 1_000_012 go to sessions 3, 0, 1, 2, 3, 0, 1, 2, 3, 0
    assert_eq!(counts, [3, 2, 2, 3]);
}
