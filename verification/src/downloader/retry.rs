//! Retry counts and back-off delays.
use std::time::Duration;
use vstd::prelude::*;

use crate::time::{
    as_nanos, duration_from_millis, duration_from_nanos, duration_nanos, max_duration_nanos,
};

verus! {

/// The default number of retries.
pub const DEFAULT_MAX_RETRIES: usize = 3;

/// How many times a failed request is retried, and how long to wait between tries.
#[derive(Clone, Copy, Debug)]
pub struct RetryPolicy {
    pub max_retries: usize,
    pub base_delay: Duration,
    pub max_delay: Duration,
    pub jitter: bool,
}

impl Default for RetryPolicy {
    /// Three retries, 300 ms base delay, 5 s cap, with jitter.
    fn default() -> (p: Self)
        ensures
            p.max_retries == DEFAULT_MAX_RETRIES,
            duration_nanos(p.base_delay) == 300_000_000,
            duration_nanos(p.max_delay) == 5_000_000_000,
            p.jitter,
    {
        RetryPolicy {
            max_retries: DEFAULT_MAX_RETRIES,
            base_delay: duration_from_millis(300),
            max_delay: duration_from_millis(5000),
            jitter: true,
        }
    }
}

/// `2^k` as a natural number.
pub open spec fn pow2_nat(k: nat) -> nat
    decreases k,
{
    if k == 0 {
        1
    } else {
        2 * pow2_nat((k - 1) as nat)
    }
}

/// `2u32.saturating_pow(k)`.
pub open spec fn pow2_saturating_u32(k: nat) -> nat {
    if k >= 32 {
        4294967295
    } else {
        pow2_nat(k)
    }
}

/// A nanosecond count saturated at `Duration::MAX`.
pub open spec fn saturate_duration(n: int) -> nat {
    if n > max_duration_nanos() {
        max_duration_nanos()
    } else if n < 0 {
        0
    } else {
        n as nat
    }
}

/// The delay before retry `attempt`, in nanoseconds: `base * 2^attempt` (saturating), plus half
/// the base delay in whole milliseconds when jitter is on, capped at `max`.
pub open spec fn retry_delay_nanos(base: nat, max: nat, jitter: bool, attempt: nat) -> nat {
    let multiplier = pow2_saturating_u32(attempt % 4294967296);
    let scaled = saturate_duration((base * multiplier) as int);
    let jitter_ms = ((base / 1_000_000) % 18446744073709551616) / 2;
    let jittered = if jitter {
        saturate_duration((scaled + jitter_ms * 1_000_000) as int)
    } else {
        scaled
    };
    if jittered <= max {
        jittered
    } else {
        max
    }
}

/// `2u32.saturating_pow(k)`, executable.
fn pow2_saturating(k: u32) -> (r: u32)
    ensures
        r == pow2_saturating_u32(k as nat),
{
    if k >= 32 {
        return u32::MAX;
    }
    let mut r: u32 = 1;
    let mut i: u32 = 0;
    proof {
        lemma_pow2_mono(0, 31);
    }
    while i < k
        invariant
            i <= k < 32,
            r == pow2_nat(i as nat),
            pow2_nat(i as nat) <= pow2_nat(31),
        decreases k - i,
    {
        proof {
            lemma_pow2_mono((i + 1) as nat, 31);
        }
        r = r * 2;
        i = i + 1;
    }
    r
}

/// `pow2_nat` is monotonic, and `2^31` fits in a `u32`.
proof fn lemma_pow2_mono(a: nat, b: nat)
    requires
        a <= b,
    ensures
        pow2_nat(a) <= pow2_nat(b),
        pow2_nat(31) == 2147483648,
    decreases b,
{
    reveal_with_fuel(pow2_nat, 32);
    if a < b {
        lemma_pow2_mono(a, (b - 1) as nat);
    }
}

/// Back-off never shrinks: a later retry (within the `u32` range of attempt numbers that the
/// multiplier is computed from) waits at least as long as an earlier one.
pub proof fn law_retry_delay_grows(base: nat, max: nat, jitter: bool, a: nat, b: nat)
    requires
        a <= b < 4294967296,
    ensures
        retry_delay_nanos(base, max, jitter, a) <= retry_delay_nanos(base, max, jitter, b),
{
    assert(a % 4294967296 == a);
    assert(b % 4294967296 == b);
    let ma = pow2_saturating_u32(a);
    let mb = pow2_saturating_u32(b);
    if b < 32 {
        lemma_pow2_mono(a, b);
    } else if a < 32 {
        lemma_pow2_mono(a, 31);
    }
    assert(ma <= mb);
    assert(base * ma <= base * mb) by (nonlinear_arith)
        requires
            ma <= mb,
    ;
}

impl RetryPolicy {
    /// A policy with the given number of retries and the default delays.
    pub fn new(max_retries: usize) -> (p: Self)
        ensures
            p.max_retries == max_retries,
            duration_nanos(p.base_delay) == 300_000_000,
            duration_nanos(p.max_delay) == 5_000_000_000,
            p.jitter,
    {
        let d = Self::default();
        RetryPolicy { max_retries, ..d }
    }

    /// Sets the base back-off delay.
    pub fn with_base_delay(self, base_delay: Duration) -> (p: Self)
        ensures
            p.base_delay == base_delay,
            p.max_delay == self.max_delay,
            p.max_retries == self.max_retries,
            p.jitter == self.jitter,
    {
        RetryPolicy { base_delay, ..self }
    }

    /// Sets the largest back-off delay.
    pub fn with_max_delay(self, max_delay: Duration) -> (p: Self)
        ensures
            p.max_delay == max_delay,
            p.base_delay == self.base_delay,
            p.max_retries == self.max_retries,
            p.jitter == self.jitter,
    {
        RetryPolicy { max_delay, ..self }
    }

    /// Turns the light jitter on or off.
    pub fn with_jitter(self, jitter: bool) -> (p: Self)
        ensures
            p.jitter == jitter,
            p.base_delay == self.base_delay,
            p.max_delay == self.max_delay,
            p.max_retries == self.max_retries,
    {
        RetryPolicy { jitter, ..self }
    }

    /// Whether a response status is worth retrying: 408, 429 and every 5xx.
    pub fn should_retry_status(&self, status: u16) -> (r: bool)
        ensures
            r == (status == 408 || status == 429 || (500 <= status && status <= 599)),
    {
        status == 408 || status == 429 || (500 <= status && status <= 599)
    }

    /// The delay before retry number `attempt` (counted from zero).
    pub fn delay_for_attempt(&self, attempt: usize) -> (d: Duration)
        ensures
            duration_nanos(d) == retry_delay_nanos(
                duration_nanos(self.base_delay),
                duration_nanos(self.max_delay),
                self.jitter,
                attempt as nat,
            ),
            duration_nanos(d) <= duration_nanos(self.max_delay),
    {
        let base: u128 = as_nanos(&self.base_delay);
        let max: u128 = as_nanos(&self.max_delay);
        let k: u32 = (attempt as u64 % 4294967296u64) as u32;
        assert(k as nat == (attempt as nat) % 4294967296);
        let multiplier: u32 = pow2_saturating(k);
        let cap: u128 = 18446744073709551615u128 * 1_000_000_000u128 + 999_999_999u128;
        assert(cap == max_duration_nanos());
        assert(base * (multiplier as u128) <= cap * 4294967295) by (nonlinear_arith)
            requires
                base <= cap,
                multiplier <= 4294967295u32,
        ;
        let product: u128 = base * (multiplier as u128);
        let mut delay: u128 = if product > cap {
            cap
        } else {
            product
        };
        if self.jitter {
            let millis: u128 = base / 1_000_000;
            let jitter_ms: u64 = (millis % 18446744073709551616u128) as u64 / 2;
            let extra: u128 = (jitter_ms as u128) * 1_000_000;
            let sum: u128 = delay + extra;
            delay = if sum > cap {
                cap
            } else {
                sum
            };
        }
        if delay > max {
            delay = max;
        }
        duration_from_nanos(delay)
    }
}

/// What one try of a request came back with.
#[derive(Clone, Copy, Debug, PartialEq, Eq, Structural)]
pub enum AttemptOutcome {
    /// A response with this status.
    Response(u16),
    /// No response: the request failed.
    Failed,
}

/// What to do after a try.
#[derive(Clone, Copy, Debug, PartialEq, Eq)]
pub enum RetryStep {
    /// Hand the response to the caller.
    Accept,
    /// Wait this long, then try again.
    Wait(Duration),
    /// Stop and report the last error.
    GiveUp,
}

/// A status worth retrying: 408, 429 and every 5xx.
pub open spec fn retryable_status(s: u16) -> bool {
    s == 408 || s == 429 || (500 <= s && s <= 599)
}

/// A try that is worth repeating: a failure, or a response with a retryable status.
pub open spec fn wants_retry(o: AttemptOutcome) -> bool {
    match o {
        AttemptOutcome::Response(s) => retryable_status(s),
        AttemptOutcome::Failed => true,
    }
}

impl RetryPolicy {
    /// The decision after try number `attempt` (counted from zero): a response whose status is
    /// not worth retrying is accepted; otherwise the request is tried again after
    /// `delay_for_attempt(attempt)`, until the last try, after which a response is accepted
    /// as it is and a failure is reported.
    pub fn after_attempt(&self, attempt: usize, outcome: AttemptOutcome) -> (step: RetryStep)
        requires
            attempt <= self.max_retries,
        ensures
            !wants_retry(outcome) ==> step == RetryStep::Accept,
            wants_retry(outcome) && attempt == self.max_retries ==> step == (match outcome {
                AttemptOutcome::Response(_) => RetryStep::Accept,
                AttemptOutcome::Failed => RetryStep::GiveUp,
            }),
            wants_retry(outcome) && attempt < self.max_retries ==> (step matches RetryStep::Wait(
                d,
            ) && duration_nanos(d) == retry_delay_nanos(
                duration_nanos(self.base_delay),
                duration_nanos(self.max_delay),
                self.jitter,
                attempt as nat,
            )),
    {
        match outcome {
            AttemptOutcome::Response(status) => {
                if !self.should_retry_status(status) || attempt == self.max_retries {
                    RetryStep::Accept
                } else {
                    RetryStep::Wait(self.delay_for_attempt(attempt))
                }
            },
            AttemptOutcome::Failed => {
                if attempt == self.max_retries {
                    RetryStep::GiveUp
                } else {
                    RetryStep::Wait(self.delay_for_attempt(attempt))
                }
            },
        }
    }
}

} // verus!
