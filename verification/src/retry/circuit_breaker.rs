//! A circuit breaker: after repeated failures it blocks calls for a while,
//! then lets a few trial calls through before closing again.

use vstd::prelude::*;
use crate::time::unix_time_millis;

verus! {

/// The state of a circuit breaker.
#[derive(Debug, Clone, Copy, PartialEq, Eq, Structural)]
pub enum CircuitState {
    /// Calls flow through and failures are counted.
    Closed,
    /// Calls are blocked until the reset timeout has passed.
    Open,
    /// A limited number of trial calls are let through.
    HalfOpen,
}

impl Default for CircuitState {
    fn default() -> (s: Self)
        ensures
            s == CircuitState::Closed,
    {
        CircuitState::Closed
    }
}

/// Settings of a circuit breaker.
#[derive(Debug, Clone)]
pub struct CircuitBreakerConfig {
    /// Failures within the window that open the circuit.
    pub failure_threshold: u32,
    /// Window, in seconds, after which an old failure count starts over.
    pub failure_window_secs: u64,
    /// Time, in seconds, an open circuit waits before trial calls.
    pub reset_timeout_secs: u64,
    /// Number of trial calls let through while half-open.
    pub half_open_max_calls: u32,
    /// Time to wait in the half-open state, in seconds.
    pub half_open_timeout_secs: u64,
}

impl Default for CircuitBreakerConfig {
    fn default() -> (c: Self)
        ensures
            c.failure_threshold == 5,
            c.failure_window_secs == 60,
            c.reset_timeout_secs == 30,
            c.half_open_max_calls == 3,
            c.half_open_timeout_secs == 10,
    {
        CircuitBreakerConfig {
            failure_threshold: 5,
            failure_window_secs: 60,
            reset_timeout_secs: 30,
            half_open_max_calls: 3,
            half_open_timeout_secs: 10,
        }
    }
}

/// The abstract state of a circuit breaker.
pub struct CircuitBreakerView {
    pub state: CircuitState,
    pub failure_count: u32,
    /// Time of the last failure in Unix milliseconds; 0 when none was recorded.
    pub last_failure_time: u64,
    pub half_open_calls: u32,
}

/// A circuit breaker guarding calls to an unreliable service.
pub struct CircuitBreaker {
    state: CircuitState,
    failure_count: u32,
    last_failure_time: u64,
    half_open_calls: u32,
    config: CircuitBreakerConfig,
}

impl View for CircuitBreaker {
    type V = CircuitBreakerView;

    closed spec fn view(&self) -> CircuitBreakerView {
        CircuitBreakerView {
            state: self.state,
            failure_count: self.failure_count,
            last_failure_time: self.last_failure_time,
            half_open_calls: self.half_open_calls,
        }
    }
}

/// Whether, at time `now`, the open circuit has waited out its reset timeout.
pub open spec fn reset_timeout_passed(v: CircuitBreakerView, c: CircuitBreakerConfig, now: u64) -> bool {
    v.last_failure_time > 0 && now - v.last_failure_time > c.reset_timeout_secs * 1000
}

/// Whether, at time `now`, the last failure lies outside the failure window.
pub open spec fn failure_window_passed(v: CircuitBreakerView, c: CircuitBreakerConfig, now: u64) -> bool {
    v.last_failure_time > 0 && now - v.last_failure_time > c.failure_window_secs * 1000
}

/// The breaker after a call is asked for at time `now`, and whether it is allowed.
pub open spec fn call_allowed_step(v: CircuitBreakerView, c: CircuitBreakerConfig, now: u64) -> (CircuitBreakerView, bool) {
    match v.state {
        CircuitState::Closed => (v, true),
        CircuitState::Open => {
            if reset_timeout_passed(v, c, now) {
                (CircuitBreakerView { state: CircuitState::HalfOpen, half_open_calls: 0, ..v }, false)
            } else {
                (v, false)
            }
        },
        CircuitState::HalfOpen => (
            CircuitBreakerView { half_open_calls: (if v.half_open_calls == u32::MAX { 0 } else { (v.half_open_calls + 1) as u32 }), ..v },
            v.half_open_calls < c.half_open_max_calls,
        ),
    }
}

/// The breaker after a success is recorded.
pub open spec fn success_step(v: CircuitBreakerView, c: CircuitBreakerConfig) -> CircuitBreakerView {
    match v.state {
        CircuitState::HalfOpen => {
            let calls = if v.half_open_calls == u32::MAX { 0 } else { (v.half_open_calls + 1) as u32 };
            if v.half_open_calls >= c.half_open_max_calls {
                CircuitBreakerView { state: CircuitState::Closed, failure_count: 0, half_open_calls: calls, ..v }
            } else {
                CircuitBreakerView { half_open_calls: calls, ..v }
            }
        },
        CircuitState::Open => CircuitBreakerView { failure_count: 0, ..v },
        CircuitState::Closed => v,
    }
}

/// The failure count after a failure at time `now`: one more, or one when the
/// last failure lies outside the window.
pub open spec fn next_failure_count(v: CircuitBreakerView, c: CircuitBreakerConfig, now: u64) -> int {
    if failure_window_passed(v, c, now) { 1 } else { v.failure_count + 1 }
}

/// The breaker after a failure is recorded at time `now`.
pub open spec fn failure_step(v: CircuitBreakerView, c: CircuitBreakerConfig, now: u64) -> CircuitBreakerView {
    let count = next_failure_count(v, c, now) as u32;
    let opens = (v.state == CircuitState::Closed || v.state == CircuitState::HalfOpen) && count >= c.failure_threshold;
    CircuitBreakerView {
        state: if opens { CircuitState::Open } else { v.state },
        failure_count: count,
        last_failure_time: now,
        half_open_calls: v.half_open_calls,
    }
}

impl CircuitBreaker {
    pub closed spec fn spec_config(&self) -> CircuitBreakerConfig {
        self.config
    }

    /// The reset timeout, in milliseconds, fits in a `u64` wherever an open
    /// breaker with a recorded failure needs it.
    pub open spec fn reset_timeout_fits(&self) -> bool {
        self@.state == CircuitState::Open && self@.last_failure_time > 0
            ==> self.spec_config().reset_timeout_secs * 1000 <= u64::MAX
    }

    /// The failure window, in milliseconds, fits in a `u64` wherever a
    /// recorded failure needs it.
    pub open spec fn window_fits(&self) -> bool {
        self@.last_failure_time > 0 ==> self.spec_config().failure_window_secs * 1000 <= u64::MAX
    }

    /// A closed breaker with no failures recorded.
    pub fn new(config: CircuitBreakerConfig) -> (cb: Self)
        ensures
            cb.spec_config() == config,
            cb@ == (CircuitBreakerView { state: CircuitState::Closed, failure_count: 0, last_failure_time: 0, half_open_calls: 0 }),
    {
        CircuitBreaker { state: CircuitState::Closed, failure_count: 0, last_failure_time: 0, half_open_calls: 0, config }
    }

    /// A closed breaker with the default settings: open after 5 failures in
    /// 60 s, trial calls after 30 s, 3 trial calls, a 10 s half-open timeout.
    pub fn with_defaults() -> (cb: Self)
        ensures
            cb.spec_config().failure_threshold == 5,
            cb.spec_config().failure_window_secs == 60,
            cb.spec_config().reset_timeout_secs == 30,
            cb.spec_config().half_open_max_calls == 3,
            cb.spec_config().half_open_timeout_secs == 10,
            cb@ == (CircuitBreakerView { state: CircuitState::Closed, failure_count: 0, last_failure_time: 0, half_open_calls: 0 }),
    {
        CircuitBreaker::new(CircuitBreakerConfig::default())
    }

    /// The current state.
    pub fn state(&self) -> (s: CircuitState)
        ensures
            s == self@.state,
    {
        self.state
    }

    /// Decides whether a call may go through at time `now` (Unix
    /// milliseconds): always when closed; never when open, though an open
    /// breaker whose reset timeout has passed turns half-open; when half-open,
    /// while fewer than the allowed trial calls have been let through.
    pub fn is_call_allowed_at(&mut self, now: u64) -> (allowed: bool)
        requires
            old(self).reset_timeout_fits(),
            old(self)@.last_failure_time > 0 ==> now >= old(self)@.last_failure_time,
        ensures
            final(self).spec_config() == old(self).spec_config(),
            (final(self)@, allowed) == call_allowed_step(old(self)@, old(self).spec_config(), now),
    {
        match self.state {
            CircuitState::Closed => true,
            CircuitState::Open => {
                let last = self.last_failure_time;
                if last > 0 {
                    let elapsed = now - last;
                    if elapsed > self.config.reset_timeout_secs * 1000 {
                        self.state = CircuitState::HalfOpen;
                        self.half_open_calls = 0;
                    }
                }
                false
            },
            CircuitState::HalfOpen => {
                let calls = self.half_open_calls;
                self.half_open_calls = calls.wrapping_add(1);
                calls < self.config.half_open_max_calls
            },
        }
    }

    /// `is_call_allowed_at` with the current time. A clock reading earlier
    /// than the last recorded failure counts as the time of that failure.
    pub fn is_call_allowed(&mut self) -> (allowed: bool)
        requires
            old(self).reset_timeout_fits(),
        ensures
            final(self).spec_config() == old(self).spec_config(),
            exists|now: u64| (final(self)@, allowed) == call_allowed_step(old(self)@, old(self).spec_config(), now),
    {
        let now = self.clamped_now();
        self.is_call_allowed_at(now)
    }

    fn clamped_now(&self) -> (now: u64)
        ensures
            self@.last_failure_time > 0 ==> now >= self@.last_failure_time,
    {
        let now = unix_time_millis();
        if now < self.last_failure_time { self.last_failure_time } else { now }
    }

    /// Records a successful call: while half-open, it counts as a trial call
    /// and closes the circuit once the allowed trial calls are used up; while
    /// open, it clears the failure count; while closed, it changes nothing.
    pub fn record_success(&mut self)
        ensures
            final(self).spec_config() == old(self).spec_config(),
            final(self)@ == success_step(old(self)@, old(self).spec_config()),
    {
        match self.state {
            CircuitState::HalfOpen => {
                let calls = self.half_open_calls;
                self.half_open_calls = calls.wrapping_add(1);
                if calls >= self.config.half_open_max_calls {
                    self.state = CircuitState::Closed;
                    self.failure_count = 0;
                }
            },
            CircuitState::Open => {
                self.failure_count = 0;
            },
            CircuitState::Closed => {},
        }
    }

    /// Records a failed call at time `now` (Unix milliseconds): the failure
    /// count grows by one (starting over when the last failure lies outside
    /// the window), and a closed or half-open circuit opens once the count
    /// reaches the threshold.
    pub fn record_failure_at(&mut self, now: u64)
        requires
            old(self).window_fits(),
            old(self)@.last_failure_time > 0 ==> now >= old(self)@.last_failure_time,
            old(self)@.failure_count < u32::MAX,
        ensures
            final(self).spec_config() == old(self).spec_config(),
            final(self)@ == failure_step(old(self)@, old(self).spec_config(), now),
    {
        let last = self.last_failure_time;
        let mut count = self.failure_count;
        if last > 0 && (now - last) > self.config.failure_window_secs * 1000 {
            count = 0;
        }
        count = count + 1;
        self.failure_count = count;
        self.last_failure_time = now;
        if self.state == CircuitState::Closed && count >= self.config.failure_threshold {
            self.state = CircuitState::Open;
        } else if self.state == CircuitState::HalfOpen {
            if count >= self.config.failure_threshold {
                self.state = CircuitState::Open;
            }
        }
    }

    /// `record_failure_at` with the current time. A clock reading earlier than
    /// the last recorded failure counts as the time of that failure.
    pub fn record_failure(&mut self)
        requires
            old(self).window_fits(),
            old(self)@.failure_count < u32::MAX,
        ensures
            final(self).spec_config() == old(self).spec_config(),
            exists|now: u64| final(self)@ == failure_step(old(self)@, old(self).spec_config(), now),
    {
        let now = self.clamped_now();
        self.record_failure_at(now);
    }

    /// The breaker's settings.
    pub fn config(&self) -> (c: &CircuitBreakerConfig)
        ensures
            *c == self.spec_config(),
    {
        &self.config
    }

    /// The time of the last recorded failure (Unix milliseconds), 0 when none.
    pub fn last_failure_time(&self) -> (t: u64)
        ensures
            t == self@.last_failure_time,
    {
        self.last_failure_time
    }

    /// The failures counted in the current window.
    pub fn failure_count(&self) -> (n: u32)
        ensures
            n == self@.failure_count,
    {
        self.failure_count
    }

    /// Closes the circuit and forgets all failures and trial calls.
    pub fn reset(&mut self)
        ensures
            final(self).spec_config() == old(self).spec_config(),
            final(self)@ == (CircuitBreakerView { state: CircuitState::Closed, failure_count: 0, last_failure_time: 0, half_open_calls: 0 }),
    {
        self.state = CircuitState::Closed;
        self.failure_count = 0;
        self.last_failure_time = 0;
        self.half_open_calls = 0;
    }
}


/// A closed breaker lets every call through and stays as it is.
pub proof fn law_closed_allows_calls(v: CircuitBreakerView, c: CircuitBreakerConfig, now: u64)
    requires
        v.state == CircuitState::Closed,
    ensures
        call_allowed_step(v, c, now) == (v, true),
{
}

/// An open breaker blocks every call; once the reset timeout has passed it
/// turns half-open for the calls that follow.
pub proof fn law_open_blocks_calls(v: CircuitBreakerView, c: CircuitBreakerConfig, now: u64)
    requires
        v.state == CircuitState::Open,
    ensures
        !call_allowed_step(v, c, now).1,
        call_allowed_step(v, c, now).0.state == (if reset_timeout_passed(v, c, now) { CircuitState::HalfOpen } else { CircuitState::Open }),
{
}

/// A half-open breaker lets through at most `half_open_max_calls` trial calls.
pub proof fn law_half_open_limits_trials(v: CircuitBreakerView, c: CircuitBreakerConfig, now: u64)
    requires
        v.state == CircuitState::HalfOpen,
    ensures
        call_allowed_step(v, c, now).1 <==> v.half_open_calls < c.half_open_max_calls,
{
}

/// Failures that reach the threshold open a closed or half-open breaker.
pub proof fn law_threshold_opens(v: CircuitBreakerView, c: CircuitBreakerConfig, now: u64)
    requires
        v.state == CircuitState::Closed || v.state == CircuitState::HalfOpen,
        next_failure_count(v, c, now) >= c.failure_threshold,
        next_failure_count(v, c, now) <= u32::MAX,
    ensures
        failure_step(v, c, now).state == CircuitState::Open,
{
}

/// A success after the trial calls closes a half-open breaker and forgets
/// the failures.
pub proof fn law_success_after_trials_closes(v: CircuitBreakerView, c: CircuitBreakerConfig)
    requires
        v.state == CircuitState::HalfOpen,
        v.half_open_calls >= c.half_open_max_calls,
    ensures
        success_step(v, c).state == CircuitState::Closed,
        success_step(v, c).failure_count == 0,
{
}

/// A failure recorded on a closed breaker at time `now` counts one more
/// failure, or starts the count over at one when the previous failure lies
/// outside the window; the breaker opens, and every later call is refused,
/// exactly when that count reaches the threshold.
pub proof fn law_closed_failure_count(v: CircuitBreakerView, c: CircuitBreakerConfig, now: u64, later: u64)
    requires
        v.state == CircuitState::Closed,
        v.last_failure_time > 0 ==> now >= v.last_failure_time,
        v.failure_count < u32::MAX,
    ensures
        failure_step(v, c, now).failure_count == (if v.last_failure_time > 0
            && now - v.last_failure_time > c.failure_window_secs * 1000 { 1 } else { v.failure_count + 1 }),
        failure_step(v, c, now).last_failure_time == now,
        (failure_step(v, c, now).state == CircuitState::Open) <==> failure_step(v, c, now).failure_count >= c.failure_threshold,
        !call_allowed_step(failure_step(v, c, now), c, later).1 <==> failure_step(v, c, now).failure_count >= c.failure_threshold,
{
}

/// The breaker after `k` successes in a row.
pub open spec fn successes(v: CircuitBreakerView, c: CircuitBreakerConfig, k: nat) -> CircuitBreakerView
    decreases k,
{
    if k == 0 { v } else { success_step(successes(v, c, (k - 1) as nat), c) }
}

proof fn lemma_half_open_successes(v: CircuitBreakerView, c: CircuitBreakerConfig, i: nat)
    requires
        v.state == CircuitState::HalfOpen,
        v.half_open_calls == 0,
        i <= c.half_open_max_calls,
    ensures
        successes(v, c, i) == (CircuitBreakerView { half_open_calls: i as u32, ..v }),
    decreases i,
{
    if i > 0 {
        lemma_half_open_successes(v, c, (i - 1) as nat);
    }
}

/// Recovery: once an open breaker's reset timeout has passed, the next call
/// is refused and turns it half-open; `half_open_max_calls + 1` successes in
/// a row then close it, with no failures counted, and calls go through again.
pub proof fn law_half_open_recovers(v: CircuitBreakerView, c: CircuitBreakerConfig, now: u64, later: u64)
    requires
        v.state == CircuitState::Open,
        reset_timeout_passed(v, c, now),
    ensures
        !call_allowed_step(v, c, now).1,
        call_allowed_step(v, c, now).0.state == CircuitState::HalfOpen,
        successes(call_allowed_step(v, c, now).0, c, (c.half_open_max_calls + 1) as nat).state == CircuitState::Closed,
        successes(call_allowed_step(v, c, now).0, c, (c.half_open_max_calls + 1) as nat).failure_count == 0,
        call_allowed_step(successes(call_allowed_step(v, c, now).0, c, (c.half_open_max_calls + 1) as nat), c, later).1,
{
    let h = call_allowed_step(v, c, now).0;
    lemma_half_open_successes(h, c, c.half_open_max_calls as nat);
}

} // verus!
