use qoget::transport::{
    failure_message, remaining_wait, replay, RateLimiter, RetryEnd, RetryState, RetryStep,
    DEFAULT_MIN_INTERVAL, INITIAL_BACKOFF, MAX_RETRIES, NANOS_PER_SEC, RATE_LIMIT_BACKOFF,
};

#[test]
fn retry_after_two_failures_waits_twice_with_doubling() {
    let trace = replay(&vec![503, 503, 200]);
    assert_eq!(trace.end, RetryEnd::Delivered { at: 2 });
    assert_eq!(trace.waits, vec![1, 2]);
    assert_eq!(trace.waits[1], 2 * trace.waits[0]);
}

#[test]
fn unauthorized_fails_at_once_without_a_wait() {
    let trace = replay(&vec![401]);
    assert_eq!(trace.end, RetryEnd::Failed { at: 0 });
    assert!(trace.waits.is_empty());
    let trace = replay(&vec![400, 200]);
    assert_eq!(trace.end, RetryEnd::Failed { at: 0 });
    assert!(trace.waits.is_empty());
    let trace = replay(&vec![404]);
    assert_eq!(trace.end, RetryEnd::Failed { at: 0 });
}

#[test]
fn success_is_delivered_at_once() {
    let trace = replay(&vec![200]);
    assert_eq!(trace.end, RetryEnd::Delivered { at: 0 });
    assert!(trace.waits.is_empty());
    let trace = replay(&vec![204, 500]);
    assert_eq!(trace.end, RetryEnd::Delivered { at: 0 });
}

#[test]
fn retries_are_exhausted_after_four_attempts() {
    let trace = replay(&vec![500, 502, 503, 504, 200]);
    assert_eq!(trace.end, RetryEnd::Failed { at: 3 });
    assert_eq!(trace.waits, vec![1, 2, 4]);
    assert_eq!(trace.waits.len() as u32, MAX_RETRIES);
}

#[test]
fn rate_limit_waits_the_cooldown_and_counts_as_an_attempt() {
    let trace = replay(&vec![429, 429, 429, 429, 200]);
    assert_eq!(trace.end, RetryEnd::Failed { at: 3 });
    assert_eq!(trace.waits, vec![10, 10, 10]);

    // the cooldown does not double the backoff of the other kind
    let trace = replay(&vec![429, 503, 429, 200]);
    assert_eq!(trace.end, RetryEnd::Delivered { at: 3 });
    assert_eq!(trace.waits, vec![10, 1, 10]);

    let trace = replay(&vec![503, 429, 503, 200]);
    assert_eq!(trace.waits, vec![1, 10, 2]);
}

#[test]
fn unfinished_request_reports_the_waits_so_far() {
    let trace = replay(&vec![503, 503]);
    assert_eq!(trace.end, RetryEnd::Unfinished);
    assert_eq!(trace.waits, vec![1, 2]);
    let trace = replay(&vec![]);
    assert_eq!(trace.end, RetryEnd::Unfinished);
    assert!(trace.waits.is_empty());
}

#[test]
fn steps_follow_the_policy() {
    let mut state = RetryState::start();
    assert_eq!(state, RetryState { attempt: 0, backoff: INITIAL_BACKOFF });
    assert!(state.is_valid());
    assert_eq!(state.on_response(503), RetryStep::Wait { seconds: 1 });
    assert_eq!(state, RetryState { attempt: 1, backoff: 2 });
    assert_eq!(state.on_response(429), RetryStep::Wait { seconds: RATE_LIMIT_BACKOFF });
    assert_eq!(state, RetryState { attempt: 2, backoff: 2 });
    assert_eq!(state.on_response(500), RetryStep::Wait { seconds: 2 });
    assert_eq!(state, RetryState { attempt: 3, backoff: 4 });
    assert_eq!(state.on_response(500), RetryStep::Fail);
    assert_eq!(state.on_response(429), RetryStep::Fail);
    assert_eq!(state.on_response(200), RetryStep::Deliver);
    assert_eq!(state, RetryState { attempt: 3, backoff: 4 });
    assert!(!RetryState { attempt: 0, backoff: 2 }.is_valid());
    assert!(!RetryState { attempt: 4, backoff: 8 }.is_valid());
}

#[test]
fn failure_message_holds_status_and_body() {
    assert_eq!(
        failure_message("503 Service Unavailable", "try later"),
        "HTTP 503 Service Unavailable \u{2014} try later"
    );
    assert_eq!(failure_message("401", ""), "HTTP 401 \u{2014} ");
}

#[test]
fn limiter_spaces_requests_by_the_interval() {
    let start = 10 * NANOS_PER_SEC;
    let mut limiter = RateLimiter::new(start, DEFAULT_MIN_INTERVAL);
    // the last request counts as one second ago: the first goes out at once
    let first = limiter.reserve(start);
    assert_eq!(first, start - NANOS_PER_SEC + DEFAULT_MIN_INTERVAL);
    assert_eq!(remaining_wait(first, start), 0);
    // three callers at the same instant are sent one interval apart
    let second = limiter.reserve(start);
    assert_eq!(second, start + DEFAULT_MIN_INTERVAL);
    assert_eq!(remaining_wait(second, start), DEFAULT_MIN_INTERVAL);
    let third = limiter.reserve(start);
    assert_eq!(third, start + 2 * DEFAULT_MIN_INTERVAL);
    // a caller that comes late is sent at once, and the next one after it
    let late = start + 5 * NANOS_PER_SEC;
    let fourth = limiter.reserve(late);
    assert_eq!(fourth, start + 3 * DEFAULT_MIN_INTERVAL);
    assert_eq!(remaining_wait(fourth, late), 0);
    let fifth = limiter.reserve(late);
    assert_eq!(fifth, late + DEFAULT_MIN_INTERVAL);
}

#[test]
fn limiter_refuses_an_instant_that_cannot_be_represented() {
    let mut limiter = RateLimiter::new(u64::MAX, 10);
    assert_eq!(limiter.try_reserve(u64::MAX), Some(u64::MAX - NANOS_PER_SEC + 10));
    let mut limiter = RateLimiter::new(u64::MAX, u64::MAX);
    assert_eq!(limiter.try_reserve(5), None);
    assert_eq!(limiter.try_reserve(5), None);
}
