//! The cadence of outbound requests and the policy for repeating one that
//! failed.
//!
//! Instants are nanoseconds on a monotonic clock whose origin the caller
//! picks; waits between attempts are whole seconds.

use vstd::prelude::*;
use crate::text::{push_str, string_of};

verus! {

pub const NANOS_PER_SEC: u64 = 1_000_000_000;

/// The interval that gives three requests per second.
pub const DEFAULT_MIN_INTERVAL: u64 = 333_333_333;

/// Keeps the requests of one client apart by a minimum interval. It holds
/// the instant of the last request granted.
pub struct RateLimiter {
    last_request: u64,
    min_interval: u64,
}

pub struct LimiterView {
    pub last_request: int,
    pub min_interval: int,
}

impl View for RateLimiter {
    type V = LimiterView;

    closed spec fn view(&self) -> LimiterView {
        LimiterView {
            last_request: self.last_request as int,
            min_interval: self.min_interval as int,
        }
    }
}

/// The instant from which the next request may go out.
pub open spec fn earliest(limiter: LimiterView) -> int {
    limiter.last_request + limiter.min_interval
}

/// The limiter after it has granted a request asked for at `now`: the
/// request goes out at the earliest instant allowed, or at `now` where that
/// is later.
pub open spec fn granted(limiter: LimiterView, now: int) -> LimiterView {
    LimiterView {
        last_request: if earliest(limiter) >= now {
            earliest(limiter)
        } else {
            now
        },
        min_interval: limiter.min_interval,
    }
}

impl RateLimiter {
    /// A limiter whose last request lies one second before `now`.
    pub fn new(now: u64, min_interval: u64) -> (r: Self)
        requires
            now >= NANOS_PER_SEC,
        ensures
            r@ == (LimiterView {
                last_request: now - NANOS_PER_SEC,
                min_interval: min_interval as int,
            }),
    {
        RateLimiter { last_request: now - NANOS_PER_SEC, min_interval }
    }

    /// Grants the next request to a caller that asks at `now`, and returns
    /// the instant until which the caller has to wait before it sends. The
    /// instant of the last request moves on in the same step, so that the
    /// next caller is kept apart from this one.
    pub fn reserve(&mut self, now: u64) -> (wait_until: u64)
        requires
            earliest(old(self)@) <= u64::MAX,
        ensures
            wait_until == earliest(old(self)@),
            final(self)@ == granted(old(self)@, now as int),
    {
        let at = self.last_request + self.min_interval;
        self.last_request = if at >= now {
            at
        } else {
            now
        };
        at
    }

    /// Grants the next request as `reserve` does, unless the instant cannot
    /// be represented: then nothing changes and `None` is returned.
    pub fn try_reserve(&mut self, now: u64) -> (wait_until: Option<u64>)
        ensures
            earliest(old(self)@) <= u64::MAX ==> wait_until == Some(earliest(old(self)@) as u64)
                && final(self)@ == granted(old(self)@, now as int),
            earliest(old(self)@) > u64::MAX ==> wait_until is None && final(self)@ == old(self)@,
    {
        if self.min_interval <= u64::MAX - self.last_request {
            Some(self.reserve(now))
        } else {
            None
        }
    }
}

/// How long a caller that reads the clock at `now` still has to wait for
/// the instant `wait_until`.
pub fn remaining_wait(wait_until: u64, now: u64) -> (nanos: u64)
    ensures
        nanos == (if wait_until > now {
            wait_until - now
        } else {
            0
        }),
{
    if wait_until > now {
        wait_until - now
    } else {
        0
    }
}

/// The instants at which requests go out when callers ask at the instants
/// `asked`, one after the other.
pub open spec fn sent_at(limiter: LimiterView, asked: Seq<int>) -> Seq<int>
    decreases asked.len(),
{
    if asked.len() == 0 {
        Seq::empty()
    } else {
        seq![granted(limiter, asked[0]).last_request] + sent_at(
            granted(limiter, asked[0]),
            asked.drop_first(),
        )
    }
}

/// No two requests of one client go out less than the minimum interval
/// apart, and none goes out before it was asked for, whenever the callers
/// ask.
pub proof fn requests_are_spaced(limiter: LimiterView, asked: Seq<int>)
    requires
        limiter.min_interval >= 0,
    ensures
        sent_at(limiter, asked).len() == asked.len(),
        forall|i: int| 0 <= i < asked.len() ==> #[trigger] sent_at(limiter, asked)[i] >= asked[i],
        forall|i: int|
            0 <= i < asked.len() ==> #[trigger] sent_at(limiter, asked)[i]
                >= limiter.last_request + (i + 1) * limiter.min_interval,
        forall|i: int, j: int|
            0 <= i < j < asked.len() ==> sent_at(limiter, asked)[j] - sent_at(limiter, asked)[i]
                >= (j - i) * limiter.min_interval,
    decreases asked.len(),
{
    if asked.len() > 0 {
        let next = granted(limiter, asked[0]);
        let rest = asked.drop_first();
        requests_are_spaced(next, rest);
        let all = sent_at(limiter, asked);
        let tail = sent_at(next, rest);
        let d = limiter.min_interval;
        assert forall|i: int| 0 <= i < asked.len() implies #[trigger] all[i] >= asked[i] && all[i]
            >= limiter.last_request + (i + 1) * d by {
            if i > 0 {
                assert(all[i] == tail[i - 1]);
                assert(rest[i - 1] == asked[i]);
                assert((i + 1) * d == i * d + d) by (nonlinear_arith);
            } else {
                assert((0 + 1) * d == d) by (nonlinear_arith);
            }
        }
        assert forall|i: int, j: int| 0 <= i < j < asked.len() implies all[j] - all[i] >= (j - i)
            * d by {
            assert(all[j] == tail[j - 1]);
            if i > 0 {
                assert(all[i] == tail[i - 1]);
            } else {
                assert(tail[j - 1] >= next.last_request + j * d);
                assert((j - 0) * d == j * d);
            }
        }
    }
}

/// How often a request is sent again after it failed.
pub const MAX_RETRIES: u32 = 3;

/// The wait before the first retry, in seconds; each later one is twice as
/// long.
pub const INITIAL_BACKOFF: u64 = 1;

/// The wait after the service has asked for fewer requests, in seconds.
pub const RATE_LIMIT_BACKOFF: u64 = 10;

/// Whether a status reports success.
pub open spec fn is_success(status: u16) -> bool {
    200 <= status < 300
}

/// Whether a status asks for fewer requests.
pub open spec fn is_rate_limited(status: u16) -> bool {
    status == 429
}

/// Whether a request that met this status may be sent again.
pub open spec fn is_retryable(status: u16) -> bool {
    status == 429 || status == 500 || status == 502 || status == 503 || status == 504
}

/// Where one logical request stands: how many attempts have failed, and
/// how long the next wait of the doubling kind will be.
#[derive(Debug, Clone, Copy, PartialEq, Eq, Structural)]
pub struct RetryState {
    pub attempt: u32,
    pub backoff: u64,
}

/// What to do with a response.
#[derive(Debug, Clone, Copy, PartialEq, Eq, Structural)]
pub enum RetryStep {
    /// The response is the result.
    Deliver,
    /// The request has failed for good, with this response's status and
    /// body.
    Fail,
    /// Wait for so many seconds, then send again.
    Wait { seconds: u64 },
}

/// The step that a response with `status` calls for. Success is delivered.
/// A rate limit waits for the fixed cooldown as long as retries are left.
/// Any other status fails at once unless it is retryable and retries are
/// left; then the wait is the current backoff.
pub open spec fn step_for(state: RetryState, status: u16) -> RetryStep {
    if is_success(status) {
        RetryStep::Deliver
    } else if is_rate_limited(status) && state.attempt < MAX_RETRIES {
        RetryStep::Wait { seconds: RATE_LIMIT_BACKOFF }
    } else if !is_retryable(status) || state.attempt >= MAX_RETRIES {
        RetryStep::Fail
    } else {
        RetryStep::Wait { seconds: state.backoff }
    }
}

/// The state after a response with `status`: every wait uses up one
/// attempt, and a wait of the doubling kind doubles the next one.
pub open spec fn state_after(state: RetryState, status: u16) -> RetryState {
    match step_for(state, status) {
        RetryStep::Wait { .. } => RetryState {
            attempt: (state.attempt + 1) as u32,
            backoff: if is_rate_limited(status) {
                state.backoff
            } else {
                (2 * state.backoff) as u64
            },
        },
        _ => state,
    }
}

/// Whether a state can be reached from the start: the backoff has doubled
/// at most once for each failed attempt.
pub open spec fn is_reachable(state: RetryState) -> bool {
    state.attempt <= MAX_RETRIES && 1 <= state.backoff <= 8 && (state.attempt == 0
        ==> state.backoff == 1) && (state.attempt == 1 ==> state.backoff <= 2) && (state.attempt
        == 2 ==> state.backoff <= 4)
}

impl RetryState {
    /// The state before the first attempt.
    pub fn start() -> (r: Self)
        ensures
            r == (RetryState { attempt: 0, backoff: INITIAL_BACKOFF }),
            is_reachable(r),
    {
        RetryState { attempt: 0, backoff: INITIAL_BACKOFF }
    }

    /// Whether the state can be reached from the start.
    pub fn is_valid(&self) -> (r: bool)
        ensures
            r == is_reachable(*self),
    {
        self.attempt <= MAX_RETRIES && 1 <= self.backoff && self.backoff <= 8 && (self.attempt != 0
            || self.backoff == 1) && (self.attempt != 1 || self.backoff <= 2) && (self.attempt != 2
            || self.backoff <= 4)
    }

    /// Decides what to do with a response and moves to the next state.
    pub fn on_response(&mut self, status: u16) -> (step: RetryStep)
        requires
            is_reachable(*old(self)),
        ensures
            step == step_for(*old(self), status),
            *final(self) == state_after(*old(self), status),
            is_reachable(*final(self)),
    {
        if 200 <= status && status < 300 {
            return RetryStep::Deliver;
        }
        if status == 429 && self.attempt < MAX_RETRIES {
            self.attempt = self.attempt + 1;
            return RetryStep::Wait { seconds: RATE_LIMIT_BACKOFF };
        }
        let retryable = status == 429 || status == 500 || status == 502 || status == 503 || status
            == 504;
        if !retryable || self.attempt >= MAX_RETRIES {
            return RetryStep::Fail;
        }
        let seconds = self.backoff;
        self.attempt = self.attempt + 1;
        self.backoff = 2 * self.backoff;
        RetryStep::Wait { seconds }
    }
}

/// How a logical request ended.
#[derive(Debug, Clone, Copy, PartialEq, Eq, Structural)]
pub enum RetryEnd {
    /// The response at this position was delivered.
    Delivered { at: usize },
    /// The response at this position made the request fail.
    Failed { at: usize },
    /// Every response so far called for another attempt.
    Unfinished,
}

/// The course of one logical request: how it ended and the waits made
/// between its attempts, in seconds.
pub struct RetryTrace {
    pub end: RetryEnd,
    pub waits: Vec<u64>,
}

pub struct TraceView {
    pub end: RetryEnd,
    pub waits: Seq<u64>,
}

impl View for RetryTrace {
    type V = TraceView;

    open spec fn view(&self) -> TraceView {
        TraceView { end: self.end, waits: self.waits@ }
    }
}

/// The course of a request that is in `state` when it meets the responses
/// `statuses[from..]` in turn, after the waits `waits`.
pub open spec fn course_from(state: RetryState, statuses: Seq<u16>, from: int, waits: Seq<u64>) -> TraceView
    decreases statuses.len() - from,
{
    if from < 0 || from >= statuses.len() {
        TraceView { end: RetryEnd::Unfinished, waits }
    } else {
        match step_for(state, statuses[from]) {
            RetryStep::Deliver => TraceView { end: RetryEnd::Delivered { at: from as usize }, waits },
            RetryStep::Fail => TraceView { end: RetryEnd::Failed { at: from as usize }, waits },
            RetryStep::Wait { seconds } => course_from(
                state_after(state, statuses[from]),
                statuses,
                from + 1,
                waits.push(seconds),
            ),
        }
    }
}

/// The course of a request that meets the responses `statuses` in turn.
pub open spec fn course(statuses: Seq<u16>) -> TraceView {
    course_from(RetryState { attempt: 0, backoff: INITIAL_BACKOFF }, statuses, 0, Seq::empty())
}

/// Follows one logical request through the responses that its attempts
/// meet, and reports how it ended and which waits it made.
pub fn replay(statuses: &Vec<u16>) -> (trace: RetryTrace)
    ensures
        trace@ == course(statuses@),
{
    let mut state = RetryState::start();
    let mut waits: Vec<u64> = Vec::new();
    let mut i: usize = 0;
    while i < statuses.len()
        invariant
            i <= statuses.len(),
            is_reachable(state),
            course(statuses@) == course_from(state, statuses@, i as int, waits@),
        decreases statuses.len() - i,
    {
        match state.on_response(statuses[i]) {
            RetryStep::Deliver => {
                return RetryTrace { end: RetryEnd::Delivered { at: i }, waits };
            },
            RetryStep::Fail => {
                return RetryTrace { end: RetryEnd::Failed { at: i }, waits };
            },
            RetryStep::Wait { seconds } => {
                waits.push(seconds);
            },
        }
        i += 1;
    }
    RetryTrace { end: RetryEnd::Unfinished, waits }
}

proof fn course_is_bounded(state: RetryState, statuses: Seq<u16>, from: int, waits: Seq<u64>)
    requires
        is_reachable(state),
        0 <= from <= statuses.len() <= usize::MAX,
        waits.len() == state.attempt,
    ensures
        course_from(state, statuses, from, waits).waits.len() <= MAX_RETRIES,
        waits.is_prefix_of(course_from(state, statuses, from, waits).waits),
        match course_from(state, statuses, from, waits).end {
            RetryEnd::Delivered { at } => from <= at < statuses.len() && is_success(
                statuses[at as int],
            ) && at - from == course_from(state, statuses, from, waits).waits.len() - waits.len(),
            RetryEnd::Failed { at } => from <= at < statuses.len() && !is_success(
                statuses[at as int],
            ) && at - from == course_from(state, statuses, from, waits).waits.len() - waits.len()
                && (is_retryable(statuses[at as int]) ==> at - from + state.attempt
                == MAX_RETRIES),
            RetryEnd::Unfinished => statuses.len() - from == course_from(
                state,
                statuses,
                from,
                waits,
            ).waits.len() - waits.len(),
        },
    decreases statuses.len() - from,
{
    if from < statuses.len() {
        match step_for(state, statuses[from]) {
            RetryStep::Wait { seconds } => {
                course_is_bounded(
                    state_after(state, statuses[from]),
                    statuses,
                    from + 1,
                    waits.push(seconds),
                );
            },
            _ => {},
        }
    }
}

/// A logical request makes at most four attempts, with a wait before each
/// but the first. It is delivered with the first successful response; it
/// fails with the first response that is neither successful nor retryable,
/// without a wait of its own, or with the fourth response where that is
/// no success.
pub proof fn attempts_are_bounded(statuses: Seq<u16>)
    requires
        statuses.len() <= usize::MAX,
    ensures
        course(statuses).waits.len() <= MAX_RETRIES,
        match course(statuses).end {
            RetryEnd::Delivered { at } => at < statuses.len() && is_success(statuses[at as int])
                && course(statuses).waits.len() == at,
            RetryEnd::Failed { at } => at < statuses.len() && !is_success(statuses[at as int])
                && course(statuses).waits.len() == at && (is_retryable(statuses[at as int])
                ==> at == MAX_RETRIES),
            RetryEnd::Unfinished => course(statuses).waits.len() == statuses.len(),
        },
{
    course_is_bounded(
        RetryState { attempt: 0, backoff: INITIAL_BACKOFF },
        statuses,
        0,
        Seq::empty(),
    );
}

proof fn waits_double_from(state: RetryState, statuses: Seq<u16>, from: int, waits: Seq<u64>)
    requires
        is_reachable(state),
        0 <= from <= statuses.len() <= usize::MAX,
        waits.len() == state.attempt,
        forall|i: int| from <= i < statuses.len() ==> !is_rate_limited(#[trigger] statuses[i]),
    ensures
        waits.len() < course_from(state, statuses, from, waits).waits.len() ==> course_from(
            state,
            statuses,
            from,
            waits,
        ).waits[waits.len() as int] == state.backoff,
        forall|i: int|
            waits.len() <= i && i + 1 < course_from(state, statuses, from, waits).waits.len()
                ==> #[trigger] course_from(state, statuses, from, waits).waits[i + 1] == 2
                * course_from(state, statuses, from, waits).waits[i],
    decreases statuses.len() - from,
{
    if from < statuses.len() {
        match step_for(state, statuses[from]) {
            RetryStep::Wait { seconds } => {
                let next = state_after(state, statuses[from]);
                waits_double_from(next, statuses, from + 1, waits.push(seconds));
                course_is_bounded(next, statuses, from + 1, waits.push(seconds));
                let all = course_from(state, statuses, from, waits).waits;
                assert(all[waits.len() as int] == waits.push(seconds)[waits.len() as int]);
            },
            _ => {},
        }
    }
}

/// Where the service never asks for fewer requests, the waits between the
/// attempts double: the first is one second, and each later one is twice
/// the one before.
pub proof fn waits_double(statuses: Seq<u16>)
    requires
        statuses.len() <= usize::MAX,
        forall|i: int| 0 <= i < statuses.len() ==> !is_rate_limited(#[trigger] statuses[i]),
    ensures
        course(statuses).waits.len() > 0 ==> course(statuses).waits[0] == INITIAL_BACKOFF,
        forall|i: int|
            0 <= i && i + 1 < course(statuses).waits.len() ==> #[trigger] course(statuses).waits[i
                + 1] == 2 * course(statuses).waits[i],
{
    waits_double_from(
        RetryState { attempt: 0, backoff: INITIAL_BACKOFF },
        statuses,
        0,
        Seq::empty(),
    );
}

/// The message of a request that failed for good: the status as the
/// transport prints it, and the body of the last response.
pub open spec fn failure_message_of(status: Seq<char>, body: Seq<char>) -> Seq<char> {
    "HTTP "@ + status + " \u{2014} "@ + body
}

/// Words the failure of a request.
pub fn failure_message(status: &str, body: &str) -> (r: String)
    ensures
        r@ == failure_message_of(status@, body@),
{
    let mut out: Vec<char> = Vec::new();
    push_str(&mut out, "HTTP ");
    push_str(&mut out, status);
    push_str(&mut out, " \u{2014} ");
    push_str(&mut out, body);
    assert(out@ =~= failure_message_of(status@, body@));
    string_of(&out)
}

} // verus!
