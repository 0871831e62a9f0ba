//! Retry configuration and backoff delays, and a policy that counts retries.

use vstd::prelude::*;
use std::time::Duration;
use crate::error::AgentError;
use crate::time::{duration_from_millis, duration_of_millis, millis_of};

verus! {

pub open spec fn u64_max() -> int {
    0xffff_ffff_ffff_ffff
}

/// `x`, or `u64::MAX` where `x` exceeds it.
pub open spec fn sat(x: int) -> u64 {
    if x > u64_max() { u64::MAX } else { x as u64 }
}

/// `2` to the power `e`.
pub open spec fn two_pow(e: nat) -> nat
    decreases e,
{
    if e == 0 { 1 } else { 2 * two_pow((e - 1) as nat) }
}

pub proof fn lemma_two_pow_monotone(a: nat, b: nat)
    requires
        a <= b,
    ensures
        1 <= two_pow(a) <= two_pow(b),
    decreases b,
{
    if b > a {
        lemma_two_pow_monotone(a, (b - 1) as nat);
    } else if a > 0 {
        lemma_two_pow_monotone((a - 1) as nat, (a - 1) as nat);
    }
}

/// `a.saturating_mul(b)`.
pub fn saturating_mul(a: u64, b: u64) -> (r: u64)
    ensures
        r == sat(a * b),
{
    if b != 0 && a > u64::MAX / b {
        proof {
            assert(a * b > u64_max()) by (nonlinear_arith)
                requires
                    b != 0,
                    a > u64::MAX / b,
            ;
        }
        u64::MAX
    } else {
        proof {
            if b != 0 {
                assert(a * b <= u64_max()) by (nonlinear_arith)
                    requires
                        b != 0,
                        a <= u64::MAX / b,
                ;
            }
        }
        a * b
    }
}

/// `2u64.saturating_pow(e)`.
pub fn saturating_pow2(e: u32) -> (r: u64)
    ensures
        r == sat(two_pow(e as nat) as int),
{
    let mut r: u64 = 1;
    let mut i: u32 = 0;
    while i < e && r < u64::MAX
        invariant
            i <= e,
            r == sat(two_pow(i as nat) as int),
        decreases e - i,
    {
        if r > u64::MAX / 2 {
            r = u64::MAX;
        } else {
            r = r * 2;
        }
        i = i + 1;
        assert(two_pow(i as nat) == 2 * two_pow((i - 1) as nat));
    }
    proof {
        if i < e {
            lemma_two_pow_monotone(i as nat, e as nat);
        }
    }
    r
}

/// How the delay between retries grows.
#[derive(Debug, Clone, Copy, PartialEq, Eq, Structural)]
pub enum BackoffStrategy {
    /// The same delay before every retry.
    Fixed,
    /// The base delay times the attempt number.
    Linear,
    /// The base delay times two to the attempt number.
    Exponential,
    /// Exponential, moved by up to a fifth of itself so that clients retrying
    /// together spread out.
    ExponentialWithJitter,
    /// A delay for each attempt, taken from a list.
    Custom,
}

impl Default for BackoffStrategy {
    fn default() -> (s: Self)
        ensures
            s == BackoffStrategy::ExponentialWithJitter,
    {
        BackoffStrategy::ExponentialWithJitter
    }
}

/// Settings for retrying a failing operation.
#[derive(Debug, Clone)]
pub struct RetryConfig {
    /// Maximum number of retry attempts.
    pub max_retries: u32,
    /// Base delay between retries, in milliseconds.
    pub base_delay_ms: u64,
    /// Cap on any delay, in milliseconds.
    pub max_delay_ms: u64,
    pub backoff_strategy: BackoffStrategy,
    /// Delays for the `Custom` strategy, by attempt number.
    pub custom_delays_ms: Vec<u64>,
    /// Whether timeouts are retried.
    pub retry_on_timeout: bool,
    /// Whether transient (recoverable) errors are retried.
    pub retry_on_transient: bool,
    /// Time limit for each attempt; 0 means none.
    pub attempt_timeout_ms: u64,
}

impl Default for RetryConfig {
    fn default() -> (c: Self)
        ensures
            c.is_default(),
    {
        RetryConfig {
            max_retries: 3,
            base_delay_ms: 100,
            max_delay_ms: 30_000,
            backoff_strategy: BackoffStrategy::ExponentialWithJitter,
            custom_delays_ms: Vec::new(),
            retry_on_timeout: true,
            retry_on_transient: true,
            attempt_timeout_ms: 0,
        }
    }
}

/// The delay before retry number `attempt`, before the cap.
pub open spec fn uncapped_delay_ms(c: RetryConfig, attempt: u32) -> u64 {
    match c.backoff_strategy {
        BackoffStrategy::Fixed => c.base_delay_ms,
        BackoffStrategy::Linear => sat(c.base_delay_ms * attempt),
        BackoffStrategy::Exponential => sat(c.base_delay_ms * sat(two_pow(attempt as nat) as int)),
        BackoffStrategy::ExponentialWithJitter => {
            let base = sat(c.base_delay_ms * sat(two_pow(attempt as nat) as int));
            let jitter = base / 5;
            let spread = if jitter > 1 { jitter } else { 1 };
            let offset = (attempt * 17) % (spread * 2);
            if offset > jitter {
                sat(base + (offset - jitter))
            } else {
                if base >= jitter - offset { (base - (jitter - offset)) as u64 } else { 0 }
            }
        },
        BackoffStrategy::Custom => {
            if attempt < c.custom_delays_ms@.len() {
                c.custom_delays_ms@[attempt as int]
            } else {
                c.base_delay_ms
            }
        },
    }
}

/// The delay before retry number `attempt`, in milliseconds: none before the
/// first attempt, otherwise the strategy's delay capped at `max_delay_ms`.
pub open spec fn delay_ms(c: RetryConfig, attempt: u32) -> u64 {
    if attempt == 0 {
        0
    } else {
        let d = uncapped_delay_ms(c, attempt);
        if d < c.max_delay_ms { d } else { c.max_delay_ms }
    }
}

/// Whether the configuration retries `e`: a timeout exactly when
/// `retry_on_timeout` holds; any other error when it asks for a retry, or
/// when it is recoverable and `retry_on_transient` holds.
pub open spec fn retries_error(c: RetryConfig, e: AgentError) -> bool {
    if e is Timeout {
        c.retry_on_timeout
    } else {
        e.spec_should_retry() || (c.retry_on_transient && e.spec_is_recoverable())
    }
}

impl RetryConfig {
    pub open spec fn is_default(&self) -> bool {
        &&& self.max_retries == 3
        &&& self.base_delay_ms == 100
        &&& self.max_delay_ms == 30_000
        &&& self.backoff_strategy == BackoffStrategy::ExponentialWithJitter
        &&& self.custom_delays_ms@.len() == 0
        &&& self.retry_on_timeout
        &&& self.retry_on_transient
        &&& self.attempt_timeout_ms == 0
    }

    /// The default configuration: three retries, exponential backoff with
    /// jitter from 100 ms, capped at 30 s, retrying timeouts and transient errors.
    pub fn new() -> (c: Self)
        ensures
            c.is_default(),
    {
        RetryConfig::default()
    }

    /// A field-by-field copy.
    pub fn copy(&self) -> (c: Self)
        ensures
            c.max_retries == self.max_retries,
            c.base_delay_ms == self.base_delay_ms,
            c.max_delay_ms == self.max_delay_ms,
            c.backoff_strategy == self.backoff_strategy,
            c.custom_delays_ms@ == self.custom_delays_ms@,
            c.retry_on_timeout == self.retry_on_timeout,
            c.retry_on_transient == self.retry_on_transient,
            c.attempt_timeout_ms == self.attempt_timeout_ms,
    {
        let mut delays: Vec<u64> = Vec::new();
        let n = self.custom_delays_ms.len();
        let mut i: usize = 0;
        while i < n
            invariant
                n == self.custom_delays_ms@.len(),
                i <= n,
                delays@ == self.custom_delays_ms@.subrange(0, i as int),
            decreases n - i,
        {
            delays.push(self.custom_delays_ms[i]);
            i = i + 1;
            assert(delays@ =~= self.custom_delays_ms@.subrange(0, i as int));
        }
        assert(delays@ =~= self.custom_delays_ms@);
        RetryConfig {
            max_retries: self.max_retries,
            base_delay_ms: self.base_delay_ms,
            max_delay_ms: self.max_delay_ms,
            backoff_strategy: self.backoff_strategy,
            custom_delays_ms: delays,
            retry_on_timeout: self.retry_on_timeout,
            retry_on_transient: self.retry_on_transient,
            attempt_timeout_ms: self.attempt_timeout_ms,
        }
    }

    pub fn with_max_retries(self, max_retries: u32) -> (c: Self)
        ensures
            c == (RetryConfig { max_retries, ..self }),
    {
        RetryConfig { max_retries, ..self }
    }

    pub fn with_base_delay(self, delay_ms: u64) -> (c: Self)
        ensures
            c == (RetryConfig { base_delay_ms: delay_ms, ..self }),
    {
        RetryConfig { base_delay_ms: delay_ms, ..self }
    }

    pub fn with_max_delay(self, delay_ms: u64) -> (c: Self)
        ensures
            c == (RetryConfig { max_delay_ms: delay_ms, ..self }),
    {
        RetryConfig { max_delay_ms: delay_ms, ..self }
    }

    pub fn with_backoff(self, strategy: BackoffStrategy) -> (c: Self)
        ensures
            c == (RetryConfig { backoff_strategy: strategy, ..self }),
    {
        RetryConfig { backoff_strategy: strategy, ..self }
    }

    pub fn with_retry_on_timeout(self, retry: bool) -> (c: Self)
        ensures
            c == (RetryConfig { retry_on_timeout: retry, ..self }),
    {
        RetryConfig { retry_on_timeout: retry, ..self }
    }

    pub fn with_attempt_timeout(self, timeout_ms: u64) -> (c: Self)
        ensures
            c == (RetryConfig { attempt_timeout_ms: timeout_ms, ..self }),
    {
        RetryConfig { attempt_timeout_ms: timeout_ms, ..self }
    }

    fn jittered(base: u64, attempt: u32) -> (r: u64)
        ensures
            ({
                let jitter = base / 5;
                let spread = if jitter > 1 { jitter } else { 1 };
                let offset = (attempt * 17) % (spread * 2);
                r == if offset > jitter {
                    sat(base + (offset - jitter))
                } else {
                    if base >= jitter - offset { (base - (jitter - offset)) as u64 } else { 0 }
                }
            }),
    {
        let jitter = base / 5;
        let spread: u64 = if jitter > 1 { jitter } else { 1 };
        let offset: u64 = (attempt as u64 * 17) % (spread * 2);
        if offset > jitter {
            base.saturating_add(offset - jitter)
        } else {
            base.saturating_sub(jitter - offset)
        }
    }

    /// The delay before retry number `attempt` (counting from 1), in milliseconds.
    pub fn calculate_delay_ms(&self, attempt: u32) -> (d: u64)
        ensures
            d == delay_ms(*self, attempt),
    {
        if attempt == 0 {
            return 0;
        }
        let d = match self.backoff_strategy {
            BackoffStrategy::Fixed => self.base_delay_ms,
            BackoffStrategy::Linear => saturating_mul(self.base_delay_ms, attempt as u64),
            BackoffStrategy::Exponential => {
                let m = saturating_pow2(attempt);
                saturating_mul(self.base_delay_ms, m)
            },
            BackoffStrategy::ExponentialWithJitter => {
                let m = saturating_pow2(attempt);
                let base = saturating_mul(self.base_delay_ms, m);
                Self::jittered(base, attempt)
            },
            BackoffStrategy::Custom => {
                if (attempt as usize) < self.custom_delays_ms.len() {
                    self.custom_delays_ms[attempt as usize]
                } else {
                    self.base_delay_ms
                }
            },
        };
        if d < self.max_delay_ms { d } else { self.max_delay_ms }
    }

    /// The delay before retry number `attempt` (counting from 1).
    pub fn calculate_delay(&self, attempt: u32) -> (d: Duration)
        ensures
            d == duration_of_millis(delay_ms(*self, attempt)),
            millis_of(d) == delay_ms(*self, attempt),
    {
        duration_from_millis(self.calculate_delay_ms(attempt))
    }

    /// Whether `error` is worth retrying under this configuration.
    pub fn should_retry(&self, error: &AgentError) -> (b: bool)
        ensures
            b == retries_error(*self, *error),
    {
        if let AgentError::Timeout { .. } = error {
            return self.retry_on_timeout;
        }
        if error.should_retry() {
            return true;
        }
        self.retry_on_transient && error.is_recoverable()
    }
}

/// The abstract state of a retry policy.
pub struct RetryPolicyView {
    pub current_attempt: u32,
    pub total_retries: u32,
    pub last_error: Option<Seq<char>>,
}

/// The policy's state after a failed attempt with `e`: while retries remain
/// and `e` is retried, one more retry is counted and `e`'s message kept;
/// otherwise nothing changes.
pub open spec fn attempt_step(v: RetryPolicyView, c: RetryConfig, e: AgentError) -> RetryPolicyView {
    if v.current_attempt < c.max_retries && retries_error(c, e) {
        RetryPolicyView {
            current_attempt: (v.current_attempt + 1) as u32,
            total_retries: (v.total_retries + 1) as u32,
            last_error: Some(e.spec_message()),
        }
    } else {
        v
    }
}

/// The policy's state after starting over: the total is kept.
pub open spec fn reset_step(v: RetryPolicyView) -> RetryPolicyView {
    RetryPolicyView { current_attempt: 0, last_error: None, ..v }
}

/// The policy's state after `k` failed attempts with `e`.
pub open spec fn attempts(v: RetryPolicyView, c: RetryConfig, e: AgentError, k: nat) -> RetryPolicyView
    decreases k,
{
    if k == 0 { v } else { attempt_step(attempts(v, c, e, (k - 1) as nat), c, e) }
}

/// A fresh policy's state.
pub open spec fn fresh_policy() -> RetryPolicyView {
    RetryPolicyView { current_attempt: 0, total_retries: 0, last_error: None }
}

/// Counts the retries of an operation against a configuration.
#[derive(Debug)]
pub struct RetryPolicy {
    config: RetryConfig,
    current_attempt: u32,
    total_retries: u32,
    last_error: Option<String>,
}

impl View for RetryPolicy {
    type V = RetryPolicyView;

    closed spec fn view(&self) -> RetryPolicyView {
        RetryPolicyView {
            current_attempt: self.current_attempt,
            total_retries: self.total_retries,
            last_error: match self.last_error {
                Some(s) => Some(s@),
                None => None,
            },
        }
    }
}

impl RetryPolicy {
    /// The configuration the policy follows.
    pub closed spec fn spec_config(&self) -> RetryConfig {
        self.config
    }

    /// Whether the policy would retry `e` now: retries remain and the
    /// configuration retries `e`.
    pub open spec fn spec_should_retry(&self, e: AgentError) -> bool {
        self@.current_attempt < self.spec_config().max_retries && retries_error(self.spec_config(), e)
    }

    pub fn new(config: RetryConfig) -> (p: Self)
        ensures
            p.spec_config() == config,
            p@.current_attempt == 0,
            p@.total_retries == 0,
            p@.last_error is None,
    {
        RetryPolicy { config, current_attempt: 0, total_retries: 0, last_error: None }
    }

    pub fn with_defaults() -> (p: Self)
        ensures
            p.spec_config().is_default(),
            p@.current_attempt == 0,
            p@.total_retries == 0,
            p@.last_error is None,
    {
        RetryPolicy::new(RetryConfig::default())
    }

    /// Whether another retry of `error` is due.
    pub fn should_retry(&self, error: &AgentError) -> (b: bool)
        ensures
            b == self.spec_should_retry(*error),
    {
        if self.current_attempt >= self.config.max_retries {
            return false;
        }
        self.config.should_retry(error)
    }

    /// Records a failed attempt. When a retry is due, counts it, keeps the
    /// error's message and returns the delay before the retry; otherwise
    /// changes nothing and returns `None`.
    pub fn record_attempt(&mut self, error: &AgentError) -> (d: Option<Duration>)
        requires
            old(self)@.total_retries < u32::MAX,
        ensures
            final(self).spec_config() == old(self).spec_config(),
            d is Some <==> old(self).spec_should_retry(*error),
            old(self).spec_should_retry(*error) ==> {
                &&& final(self)@.current_attempt == old(self)@.current_attempt + 1
                &&& final(self)@.total_retries == old(self)@.total_retries + 1
                &&& final(self)@.last_error == Some(error.spec_message())
                &&& d == Some(duration_of_millis(
                    delay_ms(old(self).spec_config(), (old(self)@.current_attempt + 1) as u32)))
                &&& millis_of(d->0) == delay_ms(old(self).spec_config(), (old(self)@.current_attempt + 1) as u32)
            },
            !old(self).spec_should_retry(*error) ==> final(self)@ == old(self)@,
            final(self)@ == attempt_step(old(self)@, old(self).spec_config(), *error),
    {
        if !self.should_retry(error) {
            return None;
        }
        self.current_attempt = self.current_attempt + 1;
        self.total_retries = self.total_retries + 1;
        self.last_error = Some(error.message());
        Some(self.config.calculate_delay(self.current_attempt))
    }

    /// Starts over for a new operation; the total retry count is kept.
    pub fn reset(&mut self)
        ensures
            final(self).spec_config() == old(self).spec_config(),
            final(self)@.current_attempt == 0,
            final(self)@.last_error is None,
            final(self)@.total_retries == old(self)@.total_retries,
            final(self)@ == reset_step(old(self)@),
    {
        self.current_attempt = 0;
        self.last_error = None;
    }

    pub fn current_attempt(&self) -> (n: u32)
        ensures
            n == self@.current_attempt,
    {
        self.current_attempt
    }

    /// Retries counted across all operations.
    pub fn total_retries(&self) -> (n: u32)
        ensures
            n == self@.total_retries,
    {
        self.total_retries
    }

    pub fn last_error(&self) -> (m: Option<&str>)
        ensures
            m matches Some(s) ==> self@.last_error == Some(s@),
            m is None <==> self@.last_error is None,
    {
        match &self.last_error {
            Some(s) => Some(s.as_str()),
            None => None,
        }
    }

    pub fn config(&self) -> (c: &RetryConfig)
        ensures
            *c == self.spec_config(),
    {
        &self.config
    }
}


/// No delay exceeds the configured cap.
pub proof fn law_delay_capped(c: RetryConfig, attempt: u32)
    ensures
        delay_ms(c, attempt) <= c.max_delay_ms,
{
}

/// There is no delay before the first attempt.
pub proof fn law_no_delay_before_first_attempt(c: RetryConfig)
    ensures
        delay_ms(c, 0) == 0,
{
}

/// The fixed strategy waits the same time before every retry.
pub proof fn law_fixed_delay_constant(c: RetryConfig, a: u32, b: u32)
    requires
        c.backoff_strategy == BackoffStrategy::Fixed,
        a >= 1,
        b >= 1,
    ensures
        delay_ms(c, a) == delay_ms(c, b),
{
}

/// `sat` is monotone.
pub proof fn lemma_sat_monotone(x: int, y: int)
    requires
        0 <= x <= y,
    ensures
        sat(x) <= sat(y),
{
}

/// The linear strategy never waits less before a later retry.
pub proof fn law_linear_delay_monotone(c: RetryConfig, a: u32, b: u32)
    requires
        c.backoff_strategy == BackoffStrategy::Linear,
        1 <= a <= b,
    ensures
        delay_ms(c, a) <= delay_ms(c, b),
{
    assert(c.base_delay_ms * a <= c.base_delay_ms * b) by (nonlinear_arith)
        requires
            a <= b,
    ;
    lemma_sat_monotone(c.base_delay_ms * a, c.base_delay_ms * b);
}

/// The exponential strategy never waits less before a later retry.
pub proof fn law_exponential_delay_monotone(c: RetryConfig, a: u32, b: u32)
    requires
        c.backoff_strategy == BackoffStrategy::Exponential,
        1 <= a <= b,
    ensures
        delay_ms(c, a) <= delay_ms(c, b),
{
    lemma_two_pow_monotone(a as nat, b as nat);
    let pa = sat(two_pow(a as nat) as int);
    let pb = sat(two_pow(b as nat) as int);
    lemma_sat_monotone(two_pow(a as nat) as int, two_pow(b as nat) as int);
    assert(c.base_delay_ms * pa <= c.base_delay_ms * pb) by (nonlinear_arith)
        requires
            pa <= pb,
    ;
    lemma_sat_monotone(c.base_delay_ms * pa, c.base_delay_ms * pb);
}

/// With jitter, the exponential delay moves by at most a fifth of itself
/// (by at most one millisecond for delays under five).
pub proof fn law_jitter_within_a_fifth(c: RetryConfig, attempt: u32)
    requires
        c.backoff_strategy == BackoffStrategy::ExponentialWithJitter,
    ensures
        ({
            let base = sat(c.base_delay_ms * sat(two_pow(attempt as nat) as int));
            let d = uncapped_delay_ms(c, attempt);
            &&& base - base / 5 <= d
            &&& d <= base + base / 5 + 1
        }),
{
    let base = sat(c.base_delay_ms * sat(two_pow(attempt as nat) as int));
    let jitter = base / 5;
    let spread: u64 = if jitter > 1 { jitter } else { 1 };
    let offset = (attempt * 17) % (spread * 2);
    assert(offset < spread * 2);
}

/// A policy retries only while retries remain, so its attempt count never
/// passes `max_retries`.
pub proof fn law_policy_attempts_bounded(p: RetryPolicy, e: AgentError)
    requires
        p@.current_attempt <= p.spec_config().max_retries,
    ensures
        p.spec_should_retry(e) ==> p@.current_attempt + 1 <= p.spec_config().max_retries,
{
}

/// Repeated retried failures each count once: after `k` of them the current
/// and total counts have grown by `k`, and the last error is the retried one.
pub proof fn law_attempts_accumulate(v: RetryPolicyView, c: RetryConfig, e: AgentError, k: nat)
    requires
        retries_error(c, e),
        v.current_attempt + k <= c.max_retries,
        v.total_retries + k <= u32::MAX,
    ensures
        attempts(v, c, e, k).current_attempt == v.current_attempt + k,
        attempts(v, c, e, k).total_retries == v.total_retries + k,
        k > 0 ==> attempts(v, c, e, k).last_error == Some(e.spec_message()),
        k == 0 ==> attempts(v, c, e, k) == v,
    decreases k,
{
    if k > 0 {
        law_attempts_accumulate(v, c, e, (k - 1) as nat);
    }
}

/// The total counts retries across operations: `k` retried failures, a
/// reset, and `j` more leave a total of `k + j`, with `j` in the current
/// operation.
pub proof fn law_total_retries_across_reset(c: RetryConfig, e: AgentError, k: nat, j: nat)
    requires
        retries_error(c, e),
        k <= c.max_retries,
        j <= c.max_retries,
        k + j <= u32::MAX,
    ensures
        attempts(reset_step(attempts(fresh_policy(), c, e, k)), c, e, j).total_retries == k + j,
        attempts(reset_step(attempts(fresh_policy(), c, e, k)), c, e, j).current_attempt == j,
{
    law_attempts_accumulate(fresh_policy(), c, e, k);
    law_attempts_accumulate(reset_step(attempts(fresh_policy(), c, e, k)), c, e, j);
}

/// The last error is the message of the last retried failure: a retried
/// failure records its message, any other failure leaves it, and a reset
/// clears it.
pub proof fn law_last_error_tracks_retries(v: RetryPolicyView, c: RetryConfig, e: AgentError)
    ensures
        attempt_step(v, c, e).last_error == (if v.current_attempt < c.max_retries && retries_error(c, e) {
            Some(e.spec_message())
        } else {
            v.last_error
        }),
        reset_step(v).last_error is None,
        fresh_policy().last_error is None,
{
}

/// Under the custom strategy the delay for retry `attempt` is the listed
/// delay at that position, capped at `max_delay_ms`; past the end of the
/// list it is the base delay, capped likewise.
pub proof fn law_custom_delays_follow_the_list(c: RetryConfig, attempt: u32)
    requires
        c.backoff_strategy == BackoffStrategy::Custom,
        attempt >= 1,
    ensures
        attempt < c.custom_delays_ms@.len() ==> delay_ms(c, attempt) == (if c.custom_delays_ms@[attempt as int] < c.max_delay_ms {
            c.custom_delays_ms@[attempt as int]
        } else {
            c.max_delay_ms
        }),
        attempt >= c.custom_delays_ms@.len() ==> delay_ms(c, attempt) == (if c.base_delay_ms < c.max_delay_ms {
            c.base_delay_ms
        } else {
            c.max_delay_ms
        }),
{
}

/// Under the fixed strategy every retry waits the base delay, capped at
/// `max_delay_ms`.
pub proof fn law_fixed_delay_is_base(c: RetryConfig, attempt: u32)
    requires
        c.backoff_strategy == BackoffStrategy::Fixed,
        attempt >= 1,
    ensures
        delay_ms(c, attempt) == (if c.base_delay_ms < c.max_delay_ms { c.base_delay_ms } else { c.max_delay_ms }),
{
}

/// Under the linear strategy retry `attempt` waits `attempt` times the base
/// delay, capped at `max_delay_ms`.
pub proof fn law_linear_delay_is_proportional(c: RetryConfig, attempt: u32)
    requires
        c.backoff_strategy == BackoffStrategy::Linear,
        attempt >= 1,
        c.base_delay_ms * attempt <= u64::MAX,
    ensures
        delay_ms(c, attempt) == (if c.base_delay_ms * attempt < c.max_delay_ms {
            (c.base_delay_ms * attempt) as u64
        } else {
            c.max_delay_ms
        }),
{
}

pub proof fn lemma_two_pow_is_pow2(e: nat)
    ensures
        two_pow(e) == vstd::arithmetic::power::pow(2, e),
        two_pow(e) == vstd::arithmetic::power2::pow2(e),
    decreases e,
{
    reveal(vstd::arithmetic::power::pow);
    if e > 0 {
        lemma_two_pow_is_pow2((e - 1) as nat);
    }
}

/// Under the exponential strategy retry `attempt` waits the base delay times
/// `2^attempt`, capped at `max_delay_ms`.
pub proof fn law_exponential_delay_doubles(c: RetryConfig, attempt: u32)
    requires
        c.backoff_strategy == BackoffStrategy::Exponential,
        attempt >= 1,
        c.base_delay_ms * vstd::arithmetic::power2::pow2(attempt as nat) <= u64::MAX,
    ensures
        delay_ms(c, attempt) == (if c.base_delay_ms * vstd::arithmetic::power2::pow2(attempt as nat) < c.max_delay_ms {
            (c.base_delay_ms * vstd::arithmetic::power2::pow2(attempt as nat)) as u64
        } else {
            c.max_delay_ms
        }),
{
    lemma_two_pow_is_pow2(attempt as nat);
    let p = two_pow(attempt as nat);
    let b = c.base_delay_ms;
    if b > 0 {
        assert(p <= b * p) by (nonlinear_arith)
            requires b >= 1, p >= 0;
        assert(sat(p as int) == p);
    } else {
        let q = sat(p as int);
        assert(b * q == 0 && b * p == 0) by (nonlinear_arith)
            requires b == 0;
    }
}

} // verus!
