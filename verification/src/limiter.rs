//! Process-wide request-volume tracking.
//!
//! [`GlobalRateLimiter`] counts every accepted request against a rolling
//! window.  When the window rolls over it recomputes the observed
//! request rate and raises the attack flag if that rate exceeds 80% of
//! the configured capacity; within a window, exceeding the hard request
//! cap raises the flag immediately, without waiting for the rollover.
//! The flag clears only at a rollover whose recomputed rate is back
//! under the threshold: deliberate damping, so isolated bursts do not
//! flip the flag on and off.
//!
//! Rates are kept as exact integer ratios (request count over elapsed
//! milliseconds); the 80% threshold comparison `count / elapsed_s >
//! 0.8 * max / window_s` is evaluated by cross-multiplication, so no
//! rounding is involved.

use vstd::prelude::*;

use crate::clock::{elapsed_ms, time_since};

verus! {

/// The bound that [`GlobalRateLimiter::new`] places on the window
/// length, so that the threshold cross-multiplication fits in `u128`.
pub const MAX_WINDOW_SECONDS: u64 = 0xFFFF_FFFF;

/// Mathematical state of a [`GlobalRateLimiter`].
pub struct LimiterModel {
    /// Requests counted against the current window.
    pub count: nat,
    /// Numerator of the last computed rate: requests in the last
    /// completed window.
    pub rate_count: nat,
    /// Denominator of the last computed rate: length in milliseconds
    /// of the last completed window.
    pub rate_elapsed_ms: nat,
    /// When the current window started.
    pub window_start_ms: nat,
    /// Hard cap on requests per window.
    pub max_requests: nat,
    /// Window length.
    pub window_ms: nat,
    /// Whether aggregate traffic currently looks like an attack.
    pub under_attack: bool,
}

/// Time elapsed in the model's current window at `now`.
pub open spec fn spec_elapsed(m: LimiterModel, now: nat) -> nat {
    if now >= m.window_start_ms {
        (now - m.window_start_ms) as nat
    } else {
        0
    }
}

/// Whether a call at `now` closes the current window.
pub open spec fn spec_is_rollover(m: LimiterModel, now: nat) -> bool {
    spec_elapsed(m, now) >= m.window_ms
}

/// The rate test applied at a rollover: `count / elapsed_s` exceeds
/// `0.8 * max_requests / window_s`, compared by cross-multiplication.
pub open spec fn spec_rate_exceeded(count: nat, elapsed: nat, max_requests: nat, window_ms: nat) -> bool {
    10 * count * window_ms > 8 * max_requests * elapsed
}

/// One `track_request` transition: the state after a call at `now`,
/// and the call's return value.
pub open spec fn limiter_step(m: LimiterModel, now: nat) -> (LimiterModel, bool) {
    if spec_is_rollover(m, now) {
        let elapsed = spec_elapsed(m, now);
        let attacked = spec_rate_exceeded(m.count, elapsed, m.max_requests, m.window_ms);
        (
            LimiterModel {
                count: 1,
                rate_count: m.count,
                rate_elapsed_ms: elapsed,
                window_start_ms: now,
                under_attack: attacked,
                ..m
            },
            attacked,
        )
    } else {
        let c: nat = if m.count < u64::MAX { m.count + 1 } else { m.count };
        let attacked = m.under_attack || c > m.max_requests;
        (LimiterModel { count: c, under_attack: attacked, ..m }, attacked)
    }
}

/// Tracks aggregate request volume across all clients and raises a
/// process-wide attack flag.
pub struct GlobalRateLimiter {
    total_requests: u64,
    rate_count: u64,
    rate_elapsed_ms: u64,
    last_reset_ms: u64,
    max_requests: u32,
    window_ms: u64,
    under_attack: bool,
}

impl View for GlobalRateLimiter {
    type V = LimiterModel;

    closed spec fn view(&self) -> LimiterModel {
        LimiterModel {
            count: self.total_requests as nat,
            rate_count: self.rate_count as nat,
            rate_elapsed_ms: self.rate_elapsed_ms as nat,
            window_start_ms: self.last_reset_ms as nat,
            max_requests: self.max_requests as nat,
            window_ms: self.window_ms as nat,
            under_attack: self.under_attack,
        }
    }
}

impl GlobalRateLimiter {
    #[verifier::type_invariant]
    spec fn bounds_inv(self) -> bool {
        self.window_ms <= MAX_WINDOW_SECONDS * 1000
    }

    /// A limiter accepting up to `max_requests` per `window_seconds`,
    /// with its first window starting at `now_ms`.
    pub fn new(max_requests: u32, window_seconds: u64, now_ms: u64) -> (r: Self)
        requires
            window_seconds <= MAX_WINDOW_SECONDS,
        ensures
            r@ == (LimiterModel {
                count: 0,
                rate_count: 0,
                rate_elapsed_ms: 0,
                window_start_ms: now_ms as nat,
                max_requests: max_requests as nat,
                window_ms: (window_seconds * 1000) as nat,
                under_attack: false,
            }),
    {
        GlobalRateLimiter {
            total_requests: 0,
            rate_count: 0,
            rate_elapsed_ms: 0,
            last_reset_ms: now_ms,
            max_requests,
            window_ms: window_seconds * 1000,
            under_attack: false,
        }
    }

    /// Count a request arriving at `now_ms` and report whether the
    /// process currently considers itself under attack.
    pub fn track_request(&mut self, now_ms: u64) -> (r: bool)
        ensures
            final(self)@ == limiter_step(old(self)@, now_ms as nat).0,
            r == limiter_step(old(self)@, now_ms as nat).1,
    {
        proof {
            use_type_invariant(&*self);
        }
        let elapsed = elapsed_ms(now_ms, self.last_reset_ms);
        if elapsed >= self.window_ms {
            let exceeded = rate_exceeded(self.total_requests, elapsed, self.max_requests, self.window_ms);
            self.rate_count = self.total_requests;
            self.rate_elapsed_ms = elapsed;
            self.total_requests = 1;
            self.last_reset_ms = now_ms;
            self.under_attack = exceeded;
            exceeded
        } else {
            if self.total_requests < u64::MAX {
                self.total_requests = self.total_requests + 1;
            }
            if self.total_requests > self.max_requests as u64 {
                self.under_attack = true;
            }
            self.under_attack
        }
    }

    /// Whether the attack flag is currently raised.
    pub fn is_under_attack(&self) -> (r: bool)
        ensures
            r == self@.under_attack,
    {
        self.under_attack
    }

    /// The last computed rate, as the exact ratio of a request count
    /// over an elapsed time in milliseconds.
    pub fn get_current_rate(&self) -> (r: (u64, u64))
        ensures
            r.0 == self@.rate_count,
            r.1 == self@.rate_elapsed_ms,
    {
        (self.rate_count, self.rate_elapsed_ms)
    }
}

/// Executable counterpart of [`spec_rate_exceeded`], evaluated in
/// `u128` so the products cannot wrap.
fn rate_exceeded(count: u64, elapsed: u64, max_requests: u32, window_ms: u64) -> (r: bool)
    requires
        window_ms <= MAX_WINDOW_SECONDS * 1000,
    ensures
        r == spec_rate_exceeded(count as nat, elapsed as nat, max_requests as nat, window_ms as nat),
{
    proof {
        vstd::arithmetic::mul::lemma_mul_upper_bound(
            10 * count as int,
            10 * u64::MAX as int,
            window_ms as int,
            MAX_WINDOW_SECONDS * 1000,
        );
        vstd::arithmetic::mul::lemma_mul_upper_bound(
            8 * max_requests as int,
            8 * u32::MAX as int,
            elapsed as int,
            u64::MAX as int,
        );
    }
    let lhs: u128 = 10u128 * (count as u128) * (window_ms as u128);
    let rhs: u128 = 8u128 * (max_requests as u128) * (elapsed as u128);
    lhs > rhs
}

/// The requests counted so far in the model's current window exceed
/// the hard cap.
pub open spec fn cap_exceeded(m: LimiterModel) -> bool {
    m.count > m.max_requests
}

/// Every call of the run returns `true`.
pub open spec fn limiter_all_flagged(m: LimiterModel, times: Seq<nat>) -> bool
    decreases times.len(),
{
    times.len() == 0 || {
        let (next, flagged) = limiter_step(m, times[0]);
        flagged && limiter_all_flagged(next, times.skip(1))
    }
}

/// Once the request count exceeds the hard cap within a window,
/// `track_request` returns `true` for every subsequent call until the
/// next window rollover, regardless of rate: each call before the
/// rollover instant reports an attack and leaves the count over the
/// cap with the window unchanged.
pub proof fn lemma_cap_exceeded_denies_until_rollover(m: LimiterModel, times: Seq<nat>)
    requires
        m.window_ms > 0,
        cap_exceeded(m),
        forall|i: int| 0 <= i < times.len() ==> times[i] < m.window_start_ms + m.window_ms,
    ensures
        limiter_all_flagged(m, times),
    decreases times.len(),
{
    if times.len() > 0 {
        let (next, flagged) = limiter_step(m, times[0]);
        assert(!spec_is_rollover(m, times[0]));
        assert(flagged);
        assert(cap_exceeded(next));
        assert(next.window_start_ms == m.window_start_ms && next.window_ms == m.window_ms);
        assert(forall|i: int|
            0 <= i < times.skip(1).len() ==> times.skip(1)[i] < next.window_start_ms
                + next.window_ms);
        lemma_cap_exceeded_denies_until_rollover(next, times.skip(1));
    }
}

} // verus!
