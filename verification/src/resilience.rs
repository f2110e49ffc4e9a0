//! Resilience layer: circuit breaking, retry with exponential backoff, and
//! error aggregation.
//!
//! Nothing here reads the clock or sleeps: every operation takes the current
//! time in epoch milliseconds, and the retry machinery only decides — the
//! caller performs the operation and the waiting.

use vstd::prelude::*;
use crate::errors::{ErrorCategory, ErrorCode, spec_category, spec_severity, spec_is_recoverable};

verus! {

/// State of a circuit breaker.
#[derive(Debug, Clone, Copy, PartialEq, Eq, Structural)]
pub enum CircuitState {
    /// Calls pass; consecutive failures are counted.
    Closed,
    /// Calls are rejected until the recovery timeout has elapsed.
    Open,
    /// One trial call is allowed to probe recovery.
    HalfOpen,
}

/// A per-category guard that stops issuing calls after repeated failures and
/// later allows a trial call to test recovery.
#[derive(Debug, Clone, Copy, PartialEq, Eq, Structural)]
pub struct CircuitBreaker {
    /// Current state.
    pub state: CircuitState,
    /// Consecutive failures seen while closed.
    pub failure_count: u32,
    /// Failures that open the breaker.
    pub threshold: u32,
    /// When the last failure was recorded, epoch milliseconds.
    pub last_failure_time: Option<u64>,
    /// How long an open breaker rejects calls, milliseconds.
    pub recovery_timeout_ms: u64,
}

/// Whether `can_execute` permits a call at time `now_ms`.
pub open spec fn spec_can_execute(cb: CircuitBreaker, now_ms: u64) -> bool {
    match cb.state {
        CircuitState::Closed => true,
        CircuitState::Open => match cb.last_failure_time {
            Some(t) => now_ms >= t + cb.recovery_timeout_ms,
            None => true,
        },
        CircuitState::HalfOpen => true,
    }
}

/// The breaker after a `can_execute` call at time `now_ms`: an open breaker
/// whose recovery timeout has elapsed becomes half-open, all else is kept.
pub open spec fn spec_after_can_execute(cb: CircuitBreaker, now_ms: u64) -> CircuitBreaker {
    if cb.state == CircuitState::Open && (match cb.last_failure_time {
        Some(t) => now_ms >= t + cb.recovery_timeout_ms,
        None => false,
    }) {
        CircuitBreaker { state: CircuitState::HalfOpen, ..cb }
    } else {
        cb
    }
}

/// The breaker after a recorded success: closed, with the count cleared.
pub open spec fn spec_after_success(cb: CircuitBreaker) -> CircuitBreaker {
    CircuitBreaker {
        state: CircuitState::Closed,
        failure_count: 0,
        last_failure_time: None,
        ..cb
    }
}

/// The breaker after a failure recorded at time `now_ms`.
pub open spec fn spec_after_failure(cb: CircuitBreaker, now_ms: u64) -> CircuitBreaker {
    CircuitBreaker {
        state: if cb.failure_count + 1 >= cb.threshold {
            CircuitState::Open
        } else {
            cb.state
        },
        failure_count: (cb.failure_count + 1) as u32,
        last_failure_time: Some(now_ms),
        ..cb
    }
}

impl CircuitBreaker {
    /// A closed breaker that opens after `threshold` consecutive failures and
    /// allows a trial call `recovery_timeout_ms` after the last failure.
    pub fn new(threshold: u32, recovery_timeout_ms: u64) -> (r: CircuitBreaker)
        ensures
            r.state == CircuitState::Closed,
            r.failure_count == 0,
            r.threshold == threshold,
            r.last_failure_time is None,
            r.recovery_timeout_ms == recovery_timeout_ms,
    {
        CircuitBreaker {
            state: CircuitState::Closed,
            failure_count: 0,
            threshold,
            last_failure_time: None,
            recovery_timeout_ms,
        }
    }

    /// Whether a call may be issued now; moves an open breaker whose timeout
    /// has elapsed to half-open.
    pub fn can_execute(&mut self, now_ms: u64) -> (r: bool)
        ensures
            r == spec_can_execute(*old(self), now_ms),
            *final(self) == spec_after_can_execute(*old(self), now_ms),
    {
        match self.state {
            CircuitState::Closed => true,
            CircuitState::Open => {
                match self.last_failure_time {
                    Some(t) => {
                        if now_ms >= t && now_ms - t >= self.recovery_timeout_ms {
                            self.state = CircuitState::HalfOpen;
                            true
                        } else {
                            false
                        }
                    },
                    None => true,
                }
            },
            CircuitState::HalfOpen => true,
        }
    }

    /// Records a success: the breaker closes and the failure count clears.
    pub fn record_success(&mut self)
        ensures
            *final(self) == spec_after_success(*old(self)),
    {
        self.failure_count = 0;
        self.state = CircuitState::Closed;
        self.last_failure_time = None;
    }

    /// Records a failure at `now_ms`; reaching the threshold opens the breaker.
    pub fn record_failure(&mut self, now_ms: u64)
        requires
            old(self).failure_count < u32::MAX,
        ensures
            *final(self) == spec_after_failure(*old(self), now_ms),
    {
        self.failure_count = self.failure_count + 1;
        self.last_failure_time = Some(now_ms);
        if self.failure_count >= self.threshold {
            self.state = CircuitState::Open;
        }
    }

    /// The current state.
    pub fn state(&self) -> (r: &CircuitState)
        ensures
            *r == self.state,
    {
        &self.state
    }

    /// The configured failure threshold.
    pub fn threshold(&self) -> (r: u32)
        ensures
            r == self.threshold,
    {
        self.threshold
    }

    /// The current consecutive-failure count.
    pub fn failure_count(&self) -> (r: u32)
        ensures
            r == self.failure_count,
    {
        self.failure_count
    }
}

/// The breaker after `times` consecutive failures, recorded in order.
pub open spec fn spec_apply_failures(cb: CircuitBreaker, times: Seq<u64>) -> CircuitBreaker
    decreases times.len(),
{
    if times.len() == 0 {
        cb
    } else {
        spec_after_failure(spec_apply_failures(cb, times.drop_last()), times.last())
    }
}

/// After `threshold` consecutive failures the breaker is open and rejects
/// calls; once the recovery timeout has elapsed the next `can_execute` permits
/// a call and leaves the breaker half-open; a success from there closes it
/// with a cleared failure count.
pub proof fn lemma_breaker_trips_and_recovers(cb: CircuitBreaker, times: Seq<u64>)
    requires
        cb.state == CircuitState::Closed,
        cb.failure_count == 0,
        times.len() == cb.threshold,
        cb.threshold >= 1,
    ensures
        spec_apply_failures(cb, times).state == CircuitState::Open,
        spec_apply_failures(cb, times).failure_count == cb.threshold,
        spec_apply_failures(cb, times).last_failure_time == Some(times.last()),
        forall|now: u64|
            (now as int) < times.last() + cb.recovery_timeout_ms ==> !spec_can_execute(
                spec_apply_failures(cb, times),
                now,
            ) && spec_after_can_execute(spec_apply_failures(cb, times), now).state
                == CircuitState::Open,
        forall|now: u64|
            (now as int) >= times.last() + cb.recovery_timeout_ms ==> spec_can_execute(
                spec_apply_failures(cb, times),
                now,
            ) && spec_after_can_execute(spec_apply_failures(cb, times), now).state
                == CircuitState::HalfOpen,
        forall|any: CircuitBreaker|
            (#[trigger] spec_after_success(any)).state == CircuitState::Closed
                && spec_after_success(any).failure_count == 0,
{
    lemma_apply_failures_counts(cb, times);
}

/// Recording `times.len()` further failures adds that many to the count, stamps
/// the last time, and leaves the breaker open exactly when the count has
/// reached the threshold.
proof fn lemma_apply_failures_counts(cb: CircuitBreaker, times: Seq<u64>)
    requires
        cb.state == CircuitState::Closed,
        cb.failure_count + times.len() <= u32::MAX,
        times.len() >= 1,
    ensures
        spec_apply_failures(cb, times).threshold == cb.threshold,
        spec_apply_failures(cb, times).recovery_timeout_ms == cb.recovery_timeout_ms,
        spec_apply_failures(cb, times).failure_count == cb.failure_count + times.len(),
        spec_apply_failures(cb, times).last_failure_time == Some(times.last()),
        spec_apply_failures(cb, times).state == if cb.failure_count + times.len()
            >= cb.threshold {
            CircuitState::Open
        } else {
            CircuitState::Closed
        },
    decreases times.len(),
{
    if times.len() > 1 {
        lemma_apply_failures_counts(cb, times.drop_last());
    } else {
        assert(spec_apply_failures(cb, times.drop_last()) == cb);
    }
}

/// Configuration of the resilience layer. Multipliers are in thousandths
/// (2000 means doubling), durations in the unit their name gives.
#[derive(Debug, Clone, Copy, PartialEq)]
pub struct ErrorHandlerConfig {
    /// Whether failed operations are retried at all.
    pub enable_recovery: bool,
    /// Attempts after which an operation is given up.
    pub max_retries: u32,
    /// Delay before the first retry, in milliseconds.
    pub retry_delay_ms: u64,
    /// Whether the delay grows between attempts.
    pub exponential_backoff: bool,
    /// Per-attempt delay multiplier, in thousandths.
    pub backoff_multiplier: u64,
    /// Upper bound on any retry delay, in milliseconds.
    pub max_retry_delay_ms: u64,
    /// Whether circuit breakers guard calls.
    pub enable_circuit_breaker: bool,
    /// Consecutive failures that open a breaker.
    pub circuit_breaker_threshold: u32,
    /// Seconds an open breaker rejects calls.
    pub circuit_breaker_recovery_time: u64,
    /// Whether errors are aggregated.
    pub enable_error_aggregation: bool,
    /// Length of the aggregation window, in seconds.
    pub aggregation_window_seconds: u64,
}

impl Default for ErrorHandlerConfig {
    /// Three retries starting at one second and doubling up to thirty seconds;
    /// breakers open after five failures for a minute; a five-minute
    /// aggregation window.
    fn default() -> (r: ErrorHandlerConfig)
        ensures
            r.enable_recovery && r.max_retries == 3 && r.retry_delay_ms == 1000,
            r.exponential_backoff && r.backoff_multiplier == 2000,
            r.max_retry_delay_ms == 30000,
            r.enable_circuit_breaker && r.circuit_breaker_threshold == 5,
            r.circuit_breaker_recovery_time == 60,
            r.enable_error_aggregation && r.aggregation_window_seconds == 300,
    {
        ErrorHandlerConfig {
            enable_recovery: true,
            max_retries: 3,
            retry_delay_ms: 1000,
            exponential_backoff: true,
            backoff_multiplier: 2000,
            max_retry_delay_ms: 30000,
            enable_circuit_breaker: true,
            circuit_breaker_threshold: 5,
            circuit_breaker_recovery_time: 60,
            enable_error_aggregation: true,
            aggregation_window_seconds: 300,
        }
    }
}

/// The delay that follows `d` under the backoff rule: multiplied and capped,
/// or unchanged when backoff is off.
pub open spec fn spec_next_delay(cfg: ErrorHandlerConfig, d: u64) -> u64 {
    if !cfg.exponential_backoff {
        d
    } else if d * cfg.backoff_multiplier / 1000 < cfg.max_retry_delay_ms {
        (d * cfg.backoff_multiplier / 1000) as u64
    } else {
        cfg.max_retry_delay_ms
    }
}

/// The delay before the `n + 1`-th retry.
pub open spec fn spec_nth_delay(cfg: ErrorHandlerConfig, n: nat) -> u64
    decreases n,
{
    if n == 0 {
        cfg.retry_delay_ms
    } else {
        spec_next_delay(cfg, spec_nth_delay(cfg, (n - 1) as nat))
    }
}

/// Codes that never retry: malformed user input and configuration errors.
pub open spec fn spec_code_never_retries(code: ErrorCode) -> bool {
    code == ErrorCode::UserInputTooLong || code == ErrorCode::UserInputInvalidFormat || code
        == ErrorCode::UserInputContainsForbidden || code == ErrorCode::UserInputEmpty || code
        == ErrorCode::ConfigParseError || code == ErrorCode::ConfigValidationError
}

/// Codes that always retry while attempts remain: transient resource,
/// network and database conditions.
pub open spec fn spec_code_always_retries(code: ErrorCode) -> bool {
    code == ErrorCode::SystemOutOfMemory || code == ErrorCode::SystemDiskFull || code
        == ErrorCode::SystemResourceExhausted || code == ErrorCode::NetworkTimeout || code
        == ErrorCode::NetworkConnectionFailed || code == ErrorCode::DatabaseTimeout || code
        == ErrorCode::DatabaseConnectionFailed
}

/// Whether a failed attempt is retried: attempts must remain, permanent
/// errors never retry, known transient ones always do, the rest go by
/// recoverability.
pub open spec fn spec_should_retry(cfg: ErrorHandlerConfig, code: ErrorCode, attempts: u32) -> bool {
    if attempts >= cfg.max_retries {
        false
    } else if spec_code_never_retries(code) {
        false
    } else if spec_code_always_retries(code) {
        true
    } else {
        spec_is_recoverable(spec_severity(code))
    }
}

/// The retry state of one operation: how many attempts failed so far and the
/// delay the next retry would wait.
#[derive(Debug, Clone, Copy, PartialEq)]
pub struct RetrySession {
    /// The governing configuration.
    pub config: ErrorHandlerConfig,
    /// Failed attempts so far.
    pub attempts: u32,
    /// Delay the next retry would wait, milliseconds.
    pub delay_ms: u64,
}

impl RetrySession {
    /// A fresh session under `config`: no attempts yet, first delay configured.
    pub fn new(config: ErrorHandlerConfig) -> (r: RetrySession)
        ensures
            r.config == config,
            r.attempts == 0,
            r.delay_ms == spec_nth_delay(config, 0),
    {
        let delay_ms = config.retry_delay_ms;
        RetrySession { config, attempts: 0, delay_ms }
    }

    /// How many attempts have failed.
    pub fn attempts(&self) -> (r: u32)
        ensures
            r == self.attempts,
    {
        self.attempts
    }

    /// The delay the session keeps equals the delay sequence at its attempt
    /// count, as long as every attempt was answered through `on_failure`.
    pub open spec fn wf(self) -> bool {
        self.delay_ms == spec_nth_delay(self.config, self.attempts as nat)
    }

    /// Decides what follows a failed attempt: `Some(delay_ms)` to wait and
    /// retry, `None` to give up and surface the error.
    pub fn on_failure(&mut self, code: ErrorCode) -> (r: Option<u64>)
        requires
            old(self).attempts < u32::MAX,
        ensures
            final(self).config == old(self).config,
            final(self).attempts == old(self).attempts + 1,
            r is Some <==> spec_should_retry(old(self).config, code, (old(self).attempts
                + 1) as u32),
            r is Some ==> r == Some(old(self).delay_ms) && final(self).delay_ms
                == spec_next_delay(old(self).config, old(self).delay_ms),
            r is None ==> final(self).delay_ms == old(self).delay_ms,
            old(self).wf() && r is Some ==> final(self).wf(),
    {
        self.attempts = self.attempts + 1;
        if !should_retry(&self.config, code, self.attempts) {
            return None;
        }
        let d = self.delay_ms;
        if self.config.exponential_backoff {
            proof {
                vstd::arithmetic::mul::lemma_mul_upper_bound(
                    d as int,
                    u64::MAX as int,
                    self.config.backoff_multiplier as int,
                    u64::MAX as int,
                );
                assert((u64::MAX as int) * (u64::MAX as int) <= u128::MAX as int)
                    by (nonlinear_arith);
            }
            let grown = (d as u128) * (self.config.backoff_multiplier as u128) / 1000;
            if grown < self.config.max_retry_delay_ms as u128 {
                self.delay_ms = grown as u64;
            } else {
                self.delay_ms = self.config.max_retry_delay_ms;
            }
        }
        Some(d)
    }
}

/// Whether a failed attempt is retried, per [`spec_should_retry`].
pub fn should_retry(cfg: &ErrorHandlerConfig, code: ErrorCode, attempts: u32) -> (r: bool)
    ensures
        r == spec_should_retry(*cfg, code, attempts),
{
    if attempts >= cfg.max_retries {
        return false;
    }
    match code {
        ErrorCode::UserInputTooLong
        | ErrorCode::UserInputInvalidFormat
        | ErrorCode::UserInputContainsForbidden
        | ErrorCode::UserInputEmpty
        | ErrorCode::ConfigParseError
        | ErrorCode::ConfigValidationError => false,
        ErrorCode::SystemOutOfMemory
        | ErrorCode::SystemDiskFull
        | ErrorCode::SystemResourceExhausted => true,
        ErrorCode::NetworkTimeout
        | ErrorCode::NetworkConnectionFailed
        | ErrorCode::DatabaseTimeout
        | ErrorCode::DatabaseConnectionFailed => true,
        _ => {
            let s = code.severity();
            s == crate::errors::ErrorSeverity::Low || s == crate::errors::ErrorSeverity::Medium
        },
    }
}

/// One backoff step never shrinks a delay and never exceeds the cap.
proof fn lemma_next_delay_step(cfg: ErrorHandlerConfig, d: u64)
    requires
        cfg.backoff_multiplier >= 1000,
        d <= cfg.max_retry_delay_ms,
    ensures
        d <= spec_next_delay(cfg, d) <= cfg.max_retry_delay_ms,
{
    if cfg.exponential_backoff {
        assert(d * cfg.backoff_multiplier >= d * 1000) by (nonlinear_arith)
            requires cfg.backoff_multiplier >= 1000,
        ;
        assert(d * cfg.backoff_multiplier / 1000 >= d * 1000 / 1000) by {
            vstd::arithmetic::div_mod::lemma_div_is_ordered(
                d * 1000,
                d * cfg.backoff_multiplier,
                1000,
            );
        }
        assert(d * 1000 / 1000 == d) by (nonlinear_arith);
    }
}

/// The retry delays form a non-decreasing sequence bounded by the configured
/// maximum: each induced delay is at least the previous one and never exceeds
/// `max_retry_delay_ms`.
pub proof fn lemma_retry_delays_monotone(cfg: ErrorHandlerConfig, i: nat, j: nat)
    requires
        cfg.backoff_multiplier >= 1000,
        cfg.retry_delay_ms <= cfg.max_retry_delay_ms,
        i <= j,
    ensures
        spec_nth_delay(cfg, i) <= spec_nth_delay(cfg, j),
        spec_nth_delay(cfg, j) <= cfg.max_retry_delay_ms,
    decreases j,
{
    if j == 0 {
    } else if i == j {
        lemma_retry_delays_monotone(cfg, (i - 1) as nat, (j - 1) as nat);
        lemma_next_delay_step(cfg, spec_nth_delay(cfg, (j - 1) as nat));
    } else {
        lemma_retry_delays_monotone(cfg, i, (j - 1) as nat);
        lemma_next_delay_step(cfg, spec_nth_delay(cfg, (j - 1) as nat));
    }
}

/// Rolling statistics of one error code within the aggregation window.
#[derive(Debug, Clone, Copy, PartialEq)]
pub struct ErrorStats {
    /// The code these numbers describe.
    pub error_code: ErrorCode,
    /// How often it occurred.
    pub count: u64,
    /// First occurrence, epoch milliseconds.
    pub first_occurrence: u64,
    /// Latest occurrence, epoch milliseconds.
    pub last_occurrence: u64,
    /// Running average of the time between occurrences, milliseconds.
    pub average_interval_ms: u64,
}

/// Per-code rolling counts with first/last occurrence and average
/// inter-arrival time, pruned to a trailing window on a cadence.
#[derive(Debug)]
pub struct ErrorAggregator {
    stats: Vec<ErrorStats>,
    window_ms: u64,
    last_cleanup: u64,
}

/// Whether some entry carries `code` with `now_ms` as its latest occurrence.
pub open spec fn spec_has_entry(stats: Seq<ErrorStats>, code: ErrorCode, now_ms: u64) -> bool {
    exists|i: int|
        0 <= i < stats.len() && (#[trigger] stats[i]).error_code == code
            && stats[i].last_occurrence == now_ms
}

/// At most one entry per code.
pub open spec fn spec_codes_unique(stats: Seq<ErrorStats>) -> bool {
    forall|i: int, j: int|
        0 <= i < j < stats.len() ==> stats[i].error_code != stats[j].error_code
}

/// Index of the entry carrying `code`, when one exists.
pub open spec fn spec_stats_index(stats: Seq<ErrorStats>, code: ErrorCode) -> Option<int> {
    if exists|i: int| 0 <= i < stats.len() && (#[trigger] stats[i]).error_code == code {
        Some(choose|i: int| 0 <= i < stats.len() && (#[trigger] stats[i]).error_code == code)
    } else {
        None
    }
}

/// An entry after one more occurrence at `now_ms`: the count grows by one
/// (saturated), the first occurrence is kept, the latest is stamped, and the
/// average interval becomes the running mean of the inter-arrival times.
pub open spec fn spec_stats_bumped(s: ErrorStats, now_ms: u64) -> ErrorStats {
    let interval: int = if now_ms >= s.last_occurrence {
        now_ms - s.last_occurrence
    } else {
        0
    };
    ErrorStats {
        error_code: s.error_code,
        count: if s.count < u64::MAX {
            (s.count + 1) as u64
        } else {
            s.count
        },
        first_occurrence: s.first_occurrence,
        last_occurrence: now_ms,
        average_interval_ms: ((s.average_interval_ms * s.count + interval) / (s.count + 1)) as u64,
    }
}

/// The fresh entry of a code first seen at `now_ms`.
pub open spec fn spec_stats_fresh(code: ErrorCode, now_ms: u64) -> ErrorStats {
    ErrorStats {
        error_code: code,
        count: 1,
        first_occurrence: now_ms,
        last_occurrence: now_ms,
        average_interval_ms: 0,
    }
}

/// The statistics after recording `code` at `now_ms`, before any pruning: the
/// known code's entry is bumped, an unknown code's fresh entry is appended,
/// and every other entry is untouched.
pub open spec fn spec_stats_recorded(stats: Seq<ErrorStats>, code: ErrorCode, now_ms: u64) -> Seq<
    ErrorStats,
> {
    match spec_stats_index(stats, code) {
        Some(i) => stats.update(i, spec_stats_bumped(stats[i], now_ms)),
        None => stats.push(spec_stats_fresh(code, now_ms)),
    }
}

/// The entries a prune at `now_ms` keeps: those whose latest occurrence still
/// falls inside the trailing window.
pub open spec fn spec_stats_pruned(stats: Seq<ErrorStats>, window_ms: u64, now_ms: u64) -> Seq<
    ErrorStats,
> {
    stats.filter(|s: ErrorStats| s.last_occurrence + window_ms >= now_ms)
}

impl ErrorAggregator {
    /// The rolling statistics, one entry per code seen.
    pub closed spec fn stats_seq(self) -> Seq<ErrorStats> {
        self.stats@
    }

    /// The configured window in milliseconds.
    pub closed spec fn spec_window_ms(self) -> u64 {
        self.window_ms
    }

    /// When entries were last pruned (or the aggregator created), epoch
    /// milliseconds; the next prune runs once a full window has passed.
    pub closed spec fn spec_last_cleanup(self) -> u64 {
        self.last_cleanup
    }

    /// No code appears twice.
    pub open spec fn wf(self) -> bool {
        spec_codes_unique(self.stats_seq())
    }

    /// An empty aggregator over a window of `window_ms`, created at `now_ms`.
    pub fn new(window_ms: u64, now_ms: u64) -> (r: ErrorAggregator)
        ensures
            r.stats_seq() == Seq::<ErrorStats>::empty(),
            r.spec_window_ms() == window_ms,
            r.spec_last_cleanup() == now_ms,
            r.wf(),
    {
        ErrorAggregator { stats: Vec::new(), window_ms, last_cleanup: now_ms }
    }

    /// Records one occurrence of `code` at `now_ms`: a known code's count,
    /// last occurrence and average interval are updated, an unknown code gets
    /// a fresh entry; entries older than the window are pruned on a cadence.
    pub fn record_error(&mut self, code: ErrorCode, now_ms: u64)
        requires
            old(self).wf(),
        ensures
            final(self).wf(),
            final(self).spec_window_ms() == old(self).spec_window_ms(),
            spec_has_entry(final(self).stats_seq(), code, now_ms),
            ({
                let mid = spec_stats_recorded(old(self).stats_seq(), code, now_ms);
                if now_ms >= old(self).spec_last_cleanup() + old(self).spec_window_ms() {
                    final(self).stats_seq() == spec_stats_pruned(
                        mid,
                        old(self).spec_window_ms(),
                        now_ms,
                    ) && final(self).spec_last_cleanup() == now_ms
                } else {
                    final(self).stats_seq() == mid && final(self).spec_last_cleanup() == old(
                        self,
                    ).spec_last_cleanup()
                }
            }),
    {
        let mut idx: usize = 0;
        let mut found: bool = false;
        while idx < self.stats.len() && !found
            invariant
                idx <= self.stats@.len(),
                found ==> idx < self.stats@.len() && self.stats@[idx as int].error_code == code,
                !found ==> forall|k: int| 0 <= k < idx ==> self.stats@[k].error_code != code,
            decreases self.stats@.len() - idx + (if found { 0int } else { 1int }),
        {
            if self.stats[idx].error_code == code {
                found = true;
            } else {
                idx += 1;
            }
        }
        if found {
            let st = &self.stats[idx];
            let interval: u64 = if now_ms >= st.last_occurrence {
                now_ms - st.last_occurrence
            } else {
                0
            };
            let c = st.count;
            let avg = st.average_interval_ms;
            proof {
                vstd::arithmetic::mul::lemma_mul_upper_bound(
                    avg as int,
                    u64::MAX as int,
                    c as int,
                    u64::MAX as int,
                );
                assert((u64::MAX as int) * (u64::MAX as int) + u64::MAX < u128::MAX as int)
                    by (nonlinear_arith);
                let m: int = if avg >= interval {
                    avg as int
                } else {
                    interval as int
                };
                assert((avg as int) * (c as int) + interval <= m * (c as int) + m)
                    by (nonlinear_arith)
                    requires avg <= m && interval <= m && c >= 0,
                ;
                assert(m * (c as int) + m == m * ((c as int) + 1)) by (nonlinear_arith);
                assert((m * ((c as int) + 1)) / ((c as int) + 1) == m) by (nonlinear_arith)
                    requires (c as int) + 1 > 0,
                ;
                vstd::arithmetic::div_mod::lemma_div_is_ordered(
                    (avg as int) * (c as int) + interval,
                    m * ((c as int) + 1),
                    (c as int) + 1,
                );
            }
            // The weighted mean of two u64 quantities stays within u64.
            let wide: u128 = ((avg as u128) * (c as u128) + (interval as u128)) / ((c as u128) + 1);
            let new_avg: u64 = wide as u64;
            let new_count: u64 = if c < u64::MAX {
                c + 1
            } else {
                c
            };
            let code0 = st.error_code;
            let first0 = st.first_occurrence;
            self.stats[idx] = ErrorStats {
                error_code: code0,
                count: new_count,
                first_occurrence: first0,
                last_occurrence: now_ms,
                average_interval_ms: new_avg,
            };
            proof {
                assert(self.stats@[idx as int].error_code == code);
                assert(spec_stats_index(old(self).stats_seq(), code) == Some(idx as int)) by {
                    let s = old(self).stats_seq();
                    assert(0 <= idx < s.len() && s[idx as int].error_code == code);
                    let c = choose|i: int|
                        0 <= i < s.len() && (#[trigger] s[i]).error_code == code;
                    if c != idx {
                        assert(s[c].error_code != s[idx as int].error_code);
                    }
                }
                assert(self.stats@[idx as int] == spec_stats_bumped(
                    old(self).stats_seq()[idx as int],
                    now_ms,
                ));
                assert(self.stats@ =~= spec_stats_recorded(old(self).stats_seq(), code, now_ms));
                assert(forall|k: int|
                    0 <= k < self.stats@.len() && k != idx ==> self.stats@[k] == old(
                        self,
                    ).stats_seq()[k]);
                assert(spec_codes_unique(self.stats@)) by {
                    assert forall|a: int, b: int| 0 <= a < b < self.stats@.len() implies self.stats@[a].error_code
                        != self.stats@[b].error_code by {
                        assert(old(self).stats_seq()[a].error_code != old(
                            self,
                        ).stats_seq()[b].error_code);
                    }
                }
            }
        } else {
            self.stats.push(
                ErrorStats {
                    error_code: code,
                    count: 1,
                    first_occurrence: now_ms,
                    last_occurrence: now_ms,
                    average_interval_ms: 0,
                },
            );
            proof {
                assert(forall|k: int|
                    0 <= k < self.stats@.len() - 1 ==> self.stats@[k] == old(self).stats_seq()[k]);
                assert(spec_stats_index(old(self).stats_seq(), code) is None);
                assert(self.stats@ =~= spec_stats_recorded(old(self).stats_seq(), code, now_ms));
                assert(spec_codes_unique(self.stats@)) by {
                    assert forall|a: int, b: int| 0 <= a < b < self.stats@.len() implies self.stats@[a].error_code
                        != self.stats@[b].error_code by {
                        if b < self.stats@.len() - 1 {
                            assert(old(self).stats_seq()[a].error_code != old(
                                self,
                            ).stats_seq()[b].error_code);
                        }
                    }
                }
            }
        }
        let ghost mid = self.stats@;
        let ghost widx: int = if found {
            idx as int
        } else {
            mid.len() - 1
        };
        proof {
            assert(0 <= widx < mid.len());
            assert(mid[widx].error_code == code && mid[widx].last_occurrence == now_ms);
            assert(mid == spec_stats_recorded(old(self).stats_seq(), code, now_ms));
            assert(self.last_cleanup == old(self).spec_last_cleanup());
            assert(self.window_ms == old(self).spec_window_ms());
        }
        if now_ms >= self.last_cleanup && now_ms - self.last_cleanup >= self.window_ms {
            self.cleanup_expired_stats(now_ms);
            proof {
                assert(self.stats@.contains(mid[widx]));
                let j = choose|j: int| 0 <= j < self.stats@.len() && self.stats@[j] == mid[widx];
                assert(spec_has_entry(self.stats@, code, now_ms)) by {
                    assert(0 <= j < self.stats@.len() && self.stats@[j].error_code == code
                        && self.stats@[j].last_occurrence == now_ms);
                }
            }
        } else {
            proof {
                assert(spec_has_entry(self.stats@, code, now_ms)) by {
                    assert(0 <= widx < self.stats@.len() && self.stats@[widx].error_code == code
                        && self.stats@[widx].last_occurrence == now_ms);
                }
            }
        }
    }

    /// Drops every entry whose last occurrence is older than the window.
    fn cleanup_expired_stats(&mut self, now_ms: u64)
        requires
            old(self).wf(),
        ensures
            final(self).wf(),
            final(self).spec_window_ms() == old(self).spec_window_ms(),
            final(self).spec_last_cleanup() == now_ms,
            final(self).stats_seq() == spec_stats_pruned(
                old(self).stats_seq(),
                old(self).spec_window_ms(),
                now_ms,
            ),
            forall|i: int|
                0 <= i < old(self).stats_seq().len() && old(self).stats_seq()[i].last_occurrence
                    + old(self).spec_window_ms() >= now_ms ==> final(self).stats_seq().contains(
                    old(self).stats_seq()[i],
                ),
            forall|i: int|
                0 <= i < final(self).stats_seq().len()
                    ==> final(self).stats_seq()[i].last_occurrence + old(self).spec_window_ms()
                    >= now_ms && old(self).stats_seq().contains(final(self).stats_seq()[i]),
    {
        let cutoff: u64 = if now_ms >= self.window_ms {
            now_ms - self.window_ms
        } else {
            0
        };
        let mut kept: Vec<ErrorStats> = Vec::new();
        let mut i: usize = 0;
        proof {
            reveal(Seq::filter);
            assert(self.stats@.subrange(0, 0) =~= Seq::<ErrorStats>::empty());
        }
        while i < self.stats.len()
            invariant
                i <= self.stats@.len(),
                cutoff == (if now_ms >= self.window_ms {
                    (now_ms - self.window_ms) as int
                } else {
                    0int
                }),
                spec_codes_unique(self.stats@),
                kept@ == spec_stats_pruned(
                    self.stats@.subrange(0, i as int),
                    self.window_ms,
                    now_ms,
                ),
                forall|k: int|
                    0 <= k < kept@.len() ==> kept@[k].last_occurrence >= cutoff
                        && self.stats@.contains(#[trigger] kept@[k]),
                forall|k: int|
                    0 <= k < i && self.stats@[k].last_occurrence >= cutoff ==> kept@.contains(
                        self.stats@[k],
                    ),
                forall|k1: int, k2: int|
                    0 <= k1 < k2 < kept@.len() ==> kept@[k1].error_code != kept@[k2].error_code,
                forall|k: int|
                    0 <= k < kept@.len() ==> exists|m: int|
                        0 <= m < i && self.stats@[m] == #[trigger] kept@[k],
            decreases self.stats@.len() - i,
        {
            let ghost pre_taken = self.stats@.subrange(0, i as int);
            let st = &self.stats[i];
            proof {
                assert((st.last_occurrence >= cutoff) == (st.last_occurrence + self.window_ms
                    >= now_ms));
            }
            if st.last_occurrence >= cutoff {
                let ghost prev = kept@;
                kept.push(st.clone());
                proof {
                    assert(kept@.last() == self.stats@[i as int]);
                    assert forall|k1: int, k2: int|
                        0 <= k1 < k2 < kept@.len() implies kept@[k1].error_code
                        != kept@[k2].error_code by {
                        if k2 == kept@.len() - 1 {
                            let m = choose|m: int| 0 <= m < i && self.stats@[m] == kept@[k1];
                            assert(self.stats@[m].error_code != self.stats@[i as int].error_code);
                        }
                    }
                    assert forall|k: int|
                        0 <= k < i + 1 && self.stats@[k].last_occurrence
                        >= cutoff implies kept@.contains(self.stats@[k]) by {
                        if k < i {
                            let w = choose|w: int|
                                0 <= w < prev.len() && prev[w] == self.stats@[k];
                            assert(kept@[w] == self.stats@[k]);
                        } else {
                            assert(kept@[kept@.len() - 1] == self.stats@[k]);
                        }
                    }
                }
            }
            proof {
                reveal(Seq::filter);
                let post = self.stats@.subrange(0, i + 1);
                assert(post.drop_last() =~= pre_taken);
                assert(post.last() == self.stats@[i as int]);
            }
            i += 1;
        }
        proof {
            assert(self.stats@.subrange(0, self.stats@.len() as int) =~= self.stats@);
        }
        self.stats = kept;
        self.last_cleanup = now_ms;
    }

    /// A copy of every entry.
    pub fn get_stats(&self) -> (r: Vec<ErrorStats>)
        ensures
            r@ == self.stats_seq(),
    {
        let mut out: Vec<ErrorStats> = Vec::new();
        let mut i: usize = 0;
        while i < self.stats.len()
            invariant
                i <= self.stats@.len(),
                out@ =~= self.stats@.subrange(0, i as int),
            decreases self.stats@.len() - i,
        {
            out.push(self.stats[i].clone());
            i += 1;
        }
        proof {
            assert(out@ =~= self.stats@);
        }
        out
    }

    /// The entries whose count has reached `threshold`.
    pub fn get_frequent_errors(&self, threshold: u64) -> (r: Vec<ErrorStats>)
        ensures
            r@ == self.stats_seq().filter(|s: ErrorStats| s.count >= threshold),
    {
        let mut out: Vec<ErrorStats> = Vec::new();
        let mut i: usize = 0;
        proof {
            reveal(Seq::filter);
            assert(self.stats@.subrange(0, 0) =~= Seq::<ErrorStats>::empty());
        }
        while i < self.stats.len()
            invariant
                i <= self.stats@.len(),
                out@ == self.stats@.subrange(0, i as int).filter(
                    |s: ErrorStats| s.count >= threshold,
                ),
            decreases self.stats@.len() - i,
        {
            let ghost pre = self.stats@.subrange(0, i as int);
            if self.stats[i].count >= threshold {
                out.push(self.stats[i].clone());
            }
            proof {
                reveal(Seq::filter);
                let post = self.stats@.subrange(0, i + 1);
                assert(post.drop_last() =~= pre);
                assert(post.last() == self.stats@[i as int]);
            }
            i += 1;
        }
        proof {
            assert(self.stats@.subrange(0, self.stats@.len() as int) =~= self.stats@);
        }
        out
    }
}


/// The resilience layer's hub: one circuit breaker per error category, and
/// the error aggregator, both updated as failures are handled. Running
/// operations and sleeping between retries is the caller's side; this state
/// only decides.
#[derive(Debug)]
pub struct ErrorHandler {
    /// The governing configuration.
    pub config: ErrorHandlerConfig,
    /// One breaker per category that has failed.
    pub breakers: Vec<(ErrorCategory, CircuitBreaker)>,
    /// The rolling error statistics.
    pub aggregator: ErrorAggregator,
}

/// At most one breaker per category.
pub open spec fn spec_categories_unique(breakers: Seq<(ErrorCategory, CircuitBreaker)>) -> bool {
    forall|i: int, j: int| 0 <= i < j < breakers.len() ==> breakers[i].0 != breakers[j].0
}

/// Index of a category's breaker, when one exists.
pub open spec fn spec_breaker_index(
    breakers: Seq<(ErrorCategory, CircuitBreaker)>,
    category: ErrorCategory,
) -> Option<int> {
    if exists|i: int| 0 <= i < breakers.len() && (#[trigger] breakers[i]).0 == category {
        Some(choose|i: int| 0 <= i < breakers.len() && (#[trigger] breakers[i]).0 == category)
    } else {
        None
    }
}

/// The recovery timeout a fresh breaker is configured with: the configured
/// seconds in milliseconds, saturated at the integer range.
pub open spec fn spec_breaker_recovery_ms(cfg: ErrorHandlerConfig) -> u64 {
    if cfg.circuit_breaker_recovery_time <= u64::MAX / 1000 {
        (cfg.circuit_breaker_recovery_time * 1000) as u64
    } else {
        u64::MAX
    }
}

/// The breaker a category starts with, before its first failure is recorded.
pub open spec fn spec_fresh_breaker(cfg: ErrorHandlerConfig) -> CircuitBreaker {
    CircuitBreaker {
        state: CircuitState::Closed,
        failure_count: 0,
        threshold: cfg.circuit_breaker_threshold,
        last_failure_time: None,
        recovery_timeout_ms: spec_breaker_recovery_ms(cfg),
    }
}

/// A breaker pair after the failure at `now_ms` is recorded into it: the
/// breaker's failure is recorded unless its count is already saturated.
pub open spec fn spec_pair_after_failure(
    pair: (ErrorCategory, CircuitBreaker),
    now_ms: u64,
) -> (ErrorCategory, CircuitBreaker) {
    if pair.1.failure_count < u32::MAX {
        (pair.0, spec_after_failure(pair.1, now_ms))
    } else {
        pair
    }
}

impl ErrorHandler {
    /// The per-category breakers.
    pub open spec fn breakers_seq(self) -> Seq<(ErrorCategory, CircuitBreaker)> {
        self.breakers@
    }

    /// The aggregator's statistics.
    pub open spec fn stats_seq(self) -> Seq<ErrorStats> {
        self.aggregator.stats_seq()
    }

    /// Each category has at most one breaker and the aggregator holds each
    /// code once.
    pub open spec fn wf(self) -> bool {
        &&& spec_categories_unique(self.breakers_seq())
        &&& self.aggregator.wf()
    }

    /// A handler with no failures recorded yet.
    pub fn new(config: ErrorHandlerConfig, now_ms: u64) -> (r: ErrorHandler)
        ensures
            r.wf(),
            r.config == config,
            r.breakers_seq().len() == 0,
            r.stats_seq().len() == 0,
    {
        let window_ms: u64 = if config.aggregation_window_seconds <= u64::MAX / 1000 {
            config.aggregation_window_seconds * 1000
        } else {
            u64::MAX
        };
        ErrorHandler {
            config,
            breakers: Vec::new(),
            aggregator: ErrorAggregator::new(window_ms, now_ms),
        }
    }

    /// Handles one failure at `now_ms`: the aggregator records it when
    /// aggregation is on, and the failing category's breaker — created on
    /// first use — records it when breaking is on.
    pub fn handle_error(&mut self, code: ErrorCode, now_ms: u64)
        requires
            old(self).wf(),
        ensures
            final(self).wf(),
            final(self).config == old(self).config,
            old(self).config.enable_error_aggregation ==> spec_has_entry(
                final(self).stats_seq(),
                code,
                now_ms,
            ),
            !old(self).config.enable_error_aggregation ==> final(self).stats_seq() == old(
                self,
            ).stats_seq(),
            old(self).config.enable_circuit_breaker ==> spec_breaker_index(
                final(self).breakers_seq(),
                spec_category(code),
            ) is Some,
            !old(self).config.enable_circuit_breaker ==> final(self).breakers_seq() == old(
                self,
            ).breakers_seq(),
            old(self).config.enable_error_aggregation ==> ({
                let mid = spec_stats_recorded(old(self).stats_seq(), code, now_ms);
                let window = old(self).aggregator.spec_window_ms();
                if now_ms >= old(self).aggregator.spec_last_cleanup() + window {
                    final(self).stats_seq() == spec_stats_pruned(mid, window, now_ms)
                } else {
                    final(self).stats_seq() == mid
                }
            }),
            old(self).config.enable_circuit_breaker ==> ({
                let cat = spec_category(code);
                match spec_breaker_index(old(self).breakers_seq(), cat) {
                    Some(i) => final(self).breakers_seq() == old(self).breakers_seq().update(
                        i,
                        spec_pair_after_failure(old(self).breakers_seq()[i], now_ms),
                    ),
                    None => final(self).breakers_seq() == old(self).breakers_seq().push(
                        (cat, spec_after_failure(spec_fresh_breaker(old(self).config), now_ms)),
                    ),
                }
            }),
    {
        if self.config.enable_error_aggregation {
            self.aggregator.record_error(code, now_ms);
        }
        if self.config.enable_circuit_breaker {
            let category = code.category();
            let n = self.breakers.len();
            let mut idx: usize = 0;
            let mut found = false;
            while idx < n && !found
                invariant
                    n == self.breakers@.len(),
                    idx <= n,
                    *self == *old(self) || (self.breakers == old(self).breakers
                        && self.config == old(self).config),
                    spec_categories_unique(self.breakers@),
                    found ==> idx < n && self.breakers@[idx as int].0 == category,
                    !found ==> forall|k: int| 0 <= k < idx ==> self.breakers@[k].0 != category,
                decreases n - idx + (if found { 0int } else { 1int }),
            {
                if self.breakers[idx].0 == category {
                    found = true;
                } else {
                    idx += 1;
                }
            }
            if found {
                let ghost pre_pair = self.breakers@[idx as int];
                if self.breakers[idx].1.failure_count() < u32::MAX {
                    let now = now_ms;
                    let pair = &mut self.breakers[idx];
                    pair.1.record_failure(now);
                }
                proof {
                    assert(self.breakers@[idx as int].0 == category);
                    assert(forall|k: int|
                        0 <= k < self.breakers@.len() && k != idx ==> self.breakers@[k] == old(
                            self,
                        ).breakers@[k]);
                    assert(spec_categories_unique(self.breakers@)) by {
                        assert forall|a: int, b: int|
                            0 <= a < b < self.breakers@.len() implies self.breakers@[a].0
                            != self.breakers@[b].0 by {
                            assert(old(self).breakers@[a].0 != old(self).breakers@[b].0);
                        }
                    }
                    assert(spec_breaker_index(self.breakers@, category) is Some) by {
                        assert(0 <= idx < self.breakers@.len() && self.breakers@[idx as int].0
                            == category);
                    }
                    assert(spec_breaker_index(old(self).breakers@, category) == Some(
                        idx as int,
                    )) by {
                        let s = old(self).breakers@;
                        assert(0 <= idx < s.len() && s[idx as int].0 == category);
                        let c = choose|i: int| 0 <= i < s.len() && (#[trigger] s[i]).0 == category;
                        if c != idx {
                            assert(s[c].0 != s[idx as int].0);
                        }
                    }
                    assert(self.breakers@[idx as int] == spec_pair_after_failure(
                        pre_pair,
                        now_ms,
                    ));
                    assert(self.breakers@ =~= old(self).breakers@.update(
                        idx as int,
                        spec_pair_after_failure(old(self).breakers@[idx as int], now_ms),
                    ));
                }
            } else {
                let mut breaker = CircuitBreaker::new(
                    self.config.circuit_breaker_threshold,
                    if self.config.circuit_breaker_recovery_time <= u64::MAX / 1000 {
                        self.config.circuit_breaker_recovery_time * 1000
                    } else {
                        u64::MAX
                    },
                );
                proof {
                    assert(breaker == spec_fresh_breaker(self.config));
                }
                breaker.record_failure(now_ms);
                self.breakers.push((category, breaker));
                proof {
                    assert(spec_breaker_index(old(self).breakers@, category) is None);
                    assert(self.breakers@ =~= old(self).breakers@.push(
                        (category, spec_after_failure(spec_fresh_breaker(old(self).config), now_ms)),
                    ));
                    assert(self.breakers@.last().0 == category);
                    assert(forall|k: int|
                        0 <= k < self.breakers@.len() - 1 ==> self.breakers@[k] == old(
                            self,
                        ).breakers@[k]);
                    assert(spec_categories_unique(self.breakers@)) by {
                        assert forall|a: int, b: int|
                            0 <= a < b < self.breakers@.len() implies self.breakers@[a].0
                            != self.breakers@[b].0 by {
                            if b < self.breakers@.len() - 1 {
                                assert(old(self).breakers@[a].0 != old(self).breakers@[b].0);
                            }
                        }
                    }
                    assert(spec_breaker_index(self.breakers@, category) is Some) by {
                        let w = self.breakers@.len() - 1;
                        assert(0 <= w < self.breakers@.len() && self.breakers@[w].0 == category);
                    }
                }
            }
        }
    }

    /// Whether the category's breaker lets a call pass at `now_ms`; a
    /// category with no breaker yet always may. An open breaker whose timeout
    /// has elapsed moves to half-open.
    pub fn can_execute_for(&mut self, category: ErrorCategory, now_ms: u64) -> (r: bool)
        requires
            old(self).wf(),
        ensures
            final(self).wf(),
            final(self).config == old(self).config,
            final(self).stats_seq() == old(self).stats_seq(),
            match spec_breaker_index(old(self).breakers_seq(), category) {
                Some(i) => r == spec_can_execute(old(self).breakers_seq()[i].1, now_ms)
                    && final(self).breakers_seq() == old(self).breakers_seq().update(
                    i,
                    (
                        old(self).breakers_seq()[i].0,
                        spec_after_can_execute(old(self).breakers_seq()[i].1, now_ms),
                    ),
                ),
                None => r && final(self).breakers_seq() == old(self).breakers_seq(),
            },
    {
        let n = self.breakers.len();
        let mut idx: usize = 0;
        while idx < n
            invariant
                n == self.breakers@.len(),
                idx <= n,
                *self == *old(self),
                self.wf(),
                forall|k: int| 0 <= k < idx ==> self.breakers@[k].0 != category,
            decreases n - idx,
        {
            if self.breakers[idx].0 == category {
                proof {
                    let s = self.breakers@;
                    let c = choose|k: int| 0 <= k < s.len() && (#[trigger] s[k]).0 == category;
                    if c != idx {
                        assert(s[c].0 != s[idx as int].0);
                    }
                }
                let pair = &mut self.breakers[idx];
                let r = pair.1.can_execute(now_ms);
                proof {
                    assert(forall|k: int|
                        0 <= k < self.breakers@.len() && k != idx ==> self.breakers@[k] == old(
                            self,
                        ).breakers@[k]);
                    assert(self.breakers@[idx as int].0 == old(self).breakers@[idx as int].0);
                    assert(spec_categories_unique(self.breakers@)) by {
                        assert forall|a: int, b: int|
                            0 <= a < b < self.breakers@.len() implies self.breakers@[a].0
                            != self.breakers@[b].0 by {
                            assert(old(self).breakers@[a].0 != old(self).breakers@[b].0);
                        }
                    }
                    assert(spec_breaker_index(old(self).breakers@, category) == Some(
                        idx as int,
                    )) by {
                        let s = old(self).breakers@;
                        assert(0 <= idx < s.len() && s[idx as int].0 == category);
                        let c = choose|i: int| 0 <= i < s.len() && (#[trigger] s[i]).0 == category;
                        if c != idx {
                            assert(s[c].0 != s[idx as int].0);
                        }
                    }
                    assert(self.breakers@ =~= old(self).breakers@.update(
                        idx as int,
                        (
                            old(self).breakers@[idx as int].0,
                            spec_after_can_execute(old(self).breakers@[idx as int].1, now_ms),
                        ),
                    ));
                }
                return r;
            }
            idx += 1;
        }
        proof {
            assert(spec_breaker_index(old(self).breakers@, category) is None);
        }
        true
    }

    /// The state of every category's breaker.
    pub fn get_circuit_breaker_status(&self) -> (r: Vec<(ErrorCategory, CircuitState)>)
        ensures
            r@.len() == self.breakers_seq().len(),
            forall|i: int|
                0 <= i < r@.len() ==> (#[trigger] r@[i]).0 == self.breakers_seq()[i].0 && r@[i].1
                    == self.breakers_seq()[i].1.state,
    {
        let mut out: Vec<(ErrorCategory, CircuitState)> = Vec::new();
        let mut i: usize = 0;
        while i < self.breakers.len()
            invariant
                i <= self.breakers@.len(),
                out@.len() == i,
                forall|k: int|
                    0 <= k < i ==> (#[trigger] out@[k]).0 == self.breakers@[k].0 && out@[k].1
                        == self.breakers@[k].1.state,
            decreases self.breakers@.len() - i,
        {
            let pair = &self.breakers[i];
            out.push((pair.0, pair.1.state));
            i += 1;
        }
        out
    }

    /// Resets the category's breaker, as a recorded success does; a category
    /// with no breaker is untouched.
    pub fn reset_circuit_breaker(&mut self, category: ErrorCategory)
        requires
            old(self).wf(),
        ensures
            final(self).wf(),
            final(self).config == old(self).config,
            final(self).stats_seq() == old(self).stats_seq(),
            final(self).breakers_seq().len() == old(self).breakers_seq().len(),
            forall|i: int|
                0 <= i < old(self).breakers_seq().len() ==> final(self).breakers_seq()[i] == (if
                old(self).breakers_seq()[i].0 == category {
                    (
                        #[trigger] old(self).breakers_seq()[i].0,
                        spec_after_success(old(self).breakers_seq()[i].1),
                    )
                } else {
                    old(self).breakers_seq()[i]
                }),
    {
        let n = self.breakers.len();
        let mut i: usize = 0;
        while i < n
            invariant
                n == self.breakers@.len(),
                i <= n,
                self.config == old(self).config,
                self.aggregator == old(self).aggregator,
                forall|k: int|
                    0 <= k < i ==> self.breakers@[k] == (if old(self).breakers@[k].0 == category {
                        (
                            #[trigger] old(self).breakers@[k].0,
                            spec_after_success(old(self).breakers@[k].1),
                        )
                    } else {
                        old(self).breakers@[k]
                    }),
                forall|k: int| i <= k < n ==> self.breakers@[k] == old(self).breakers@[k],
            decreases n - i,
        {
            if self.breakers[i].0 == category {
                let pair = &mut self.breakers[i];
                pair.1.record_success();
            }
            i += 1;
        }
        proof {
            assert(spec_categories_unique(self.breakers@)) by {
                assert forall|a: int, b: int|
                    0 <= a < b < self.breakers@.len() implies self.breakers@[a].0
                    != self.breakers@[b].0 by {
                    assert(old(self).breakers@[a].0 != old(self).breakers@[b].0);
                }
            }
        }
    }

    /// Resets every breaker, as recorded successes do.
    pub fn reset_all_circuit_breakers(&mut self)
        requires
            old(self).wf(),
        ensures
            final(self).wf(),
            final(self).config == old(self).config,
            final(self).stats_seq() == old(self).stats_seq(),
            final(self).breakers_seq().len() == old(self).breakers_seq().len(),
            forall|i: int|
                0 <= i < old(self).breakers_seq().len() ==> final(self).breakers_seq()[i] == (
                    (#[trigger] old(self).breakers_seq()[i]).0,
                    spec_after_success(old(self).breakers_seq()[i].1),
                ),
    {
        let n = self.breakers.len();
        let mut i: usize = 0;
        while i < n
            invariant
                n == self.breakers@.len(),
                i <= n,
                self.config == old(self).config,
                self.aggregator == old(self).aggregator,
                forall|k: int|
                    0 <= k < i ==> self.breakers@[k] == (
                        (#[trigger] old(self).breakers@[k]).0,
                        spec_after_success(old(self).breakers@[k].1),
                    ),
                forall|k: int| i <= k < n ==> self.breakers@[k] == old(self).breakers@[k],
            decreases n - i,
        {
            let pair = &mut self.breakers[i];
            pair.1.record_success();
            i += 1;
        }
        proof {
            assert(spec_categories_unique(self.breakers@)) by {
                assert forall|a: int, b: int|
                    0 <= a < b < self.breakers@.len() implies self.breakers@[a].0
                    != self.breakers@[b].0 by {
                    assert(old(self).breakers@[a].0 != old(self).breakers@[b].0);
                }
            }
        }
    }

    /// A copy of the aggregator's statistics.
    pub fn get_error_stats(&self) -> (r: Vec<ErrorStats>)
        ensures
            r@ == self.stats_seq(),
    {
        self.aggregator.get_stats()
    }

    /// The aggregator's entries whose count has reached `threshold`.
    pub fn get_frequent_errors(&self, threshold: u64) -> (r: Vec<ErrorStats>)
        ensures
            r@ == self.stats_seq().filter(|s: ErrorStats| s.count >= threshold),
    {
        self.aggregator.get_frequent_errors(threshold)
    }
}

} // verus!
