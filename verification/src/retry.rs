//! Retry/backoff controller: one polling cycle makes up to `max_attempts`
//! fetch attempts. Attempt 1 fires immediately; before attempt `k` (k >= 2)
//! the caller sleeps `base^(k-2)` seconds — exponential backoff, base 2 in
//! the default configuration, without jitter. `Success` and `Unsuccessful`
//! outcomes are terminal; only transport errors are retried, and after the
//! last allowed attempt the last transport error is returned.
//!
//! The attempt budget and the backoff base are configuration, not
//! constants. The controller decides; the caller performs the fetch and
//! the sleep, and feeds each outcome back through
//! [`RetryController::record`].
use vstd::prelude::*;

use crate::model::PollOutcome;

verus! {

/// `base^k`.
pub open spec fn pow_nat(base: nat, k: nat) -> nat
    decreases k,
{
    if k == 0 {
        1
    } else {
        base * pow_nat(base, (k - 1) as nat)
    }
}

/// The seconds slept before attempt `attempt` (numbered from 1):
/// `base^(attempt-2)`.
pub open spec fn backoff_secs(base: nat, attempt: nat) -> nat
    recommends
        attempt >= 2,
{
    pow_nat(base, (attempt - 2) as nat)
}

/// The total seconds slept by a cycle that reaches attempt `n` (the sleeps
/// before attempts 2 through `n`).
pub open spec fn total_backoff(base: nat, n: nat) -> nat
    decreases n,
{
    if n <= 1 {
        0
    } else {
        total_backoff(base, (n - 1) as nat) + backoff_secs(base, n)
    }
}

pub proof fn lemma_pow_nat_monotonic(base: nat, a: nat, b: nat)
    requires
        base >= 1,
        a <= b,
    ensures
        pow_nat(base, a) <= pow_nat(base, b),
    decreases b,
{
    if a < b {
        lemma_pow_nat_monotonic(base, a, (b - 1) as nat);
        let prev = pow_nat(base, (b - 1) as nat);
        assert(base * prev >= 1 * prev) by (nonlinear_arith)
            requires
                base >= 1,
                prev >= 0,
        ;
    }
}

/// Retry bound: a cycle that is allowed `n` attempts with the default
/// base-2 backoff and sees only transport errors sleeps
/// `1 + 2 + ... + 2^(n-2) == 2^(n-1) - 1` seconds in total. (That it makes
/// exactly `n` attempts is the contract of [`RetryController::record`]:
/// the decision on a transport error is `Done` exactly when the attempt
/// just recorded was the last allowed one.)
pub proof fn lemma_retry_total_backoff(n: nat)
    requires
        n >= 2,
    ensures
        total_backoff(2, n) == pow_nat(2, (n - 1) as nat) - 1,
    decreases n,
{
    if n == 2 {
        assert(total_backoff(2, 2) == total_backoff(2, 1) + backoff_secs(2, 2));
        assert(pow_nat(2, 0) == 1);
        assert(pow_nat(2, 1) == 2);
    } else {
        lemma_retry_total_backoff((n - 1) as nat);
        assert(pow_nat(2, (n - 1) as nat) == 2 * pow_nat(2, (n - 2) as nat));
    }
}

/// Backoff sequence: with the default base 2, the sleeps before attempts
/// 2, 3 and 4 are 1, 2 and 4 seconds.
pub proof fn lemma_backoff_sequence()
    ensures
        backoff_secs(2, 2) == 1,
        backoff_secs(2, 3) == 2,
        backoff_secs(2, 4) == 4,
{
    reveal_with_fuel(pow_nat, 3);
}

/// What the caller must do next with the outcome it has just recorded.
pub enum RetryDecision {
    /// The cycle is over: hand this outcome on.
    Done(PollOutcome),
    /// Sleep this many seconds, then make the next attempt.
    RetryAfterSecs(u64),
}

/// Decides, after each attempt of one polling cycle, whether to retry.
pub struct RetryController {
    /// The configured maximum number of attempts.
    pub max_attempts: u32,
    /// The configured backoff base.
    pub backoff_base: u32,
    /// How many attempts have been recorded so far.
    pub attempts_made: u32,
}

impl RetryController {
    /// At least one attempt, a base of at least 2, and every possible
    /// backoff fitting in a `u64` of seconds.
    pub open spec fn wf(self) -> bool {
        1 <= self.max_attempts && 2 <= self.backoff_base && self.attempts_made
            <= self.max_attempts && pow_nat(
            self.backoff_base as nat,
            (self.max_attempts - 1) as nat,
        ) <= u64::MAX
    }

    /// A fresh controller for one cycle, with the default backoff base 2.
    /// At most 63 attempts, so that every backoff fits in a `u64`.
    pub fn new(max_attempts: u32) -> (r: RetryController)
        requires
            1 <= max_attempts <= 63,
        ensures
            r.wf(),
            r.max_attempts == max_attempts,
            r.backoff_base == 2,
            r.attempts_made == 0,
    {
        proof {
            lemma_pow_nat_monotonic(2, (max_attempts - 1) as nat, 62);
            lemma_pow_nat_2_62();
        }
        RetryController { max_attempts, backoff_base: 2, attempts_made: 0 }
    }

    /// A fresh controller with a configured backoff base, or `None` when
    /// the configuration cannot be carried: no attempt budget, a base
    /// under 2, or a backoff that could not fit in a `u64` of seconds.
    pub fn new_with_base(max_attempts: u32, backoff_base: u32) -> (r: Option<RetryController>)
        ensures
            match r {
                Some(c) => c.wf() && c.max_attempts == max_attempts && c.backoff_base
                    == backoff_base && c.attempts_made == 0,
                None => !(1 <= max_attempts && 2 <= backoff_base && pow_nat(
                    backoff_base as nat,
                    (max_attempts - 1) as nat,
                ) <= u64::MAX),
            },
    {
        if max_attempts < 1 || backoff_base < 2 {
            return None;
        }
        match pow_checked(backoff_base as u64, max_attempts - 1) {
            Some(_) => Some(
                RetryController { max_attempts, backoff_base, attempts_made: 0 },
            ),
            None => None,
        }
    }

    /// Record the outcome of the attempt that was just made and decide:
    /// terminal outcomes and the last allowed attempt end the cycle with
    /// `Done`; any earlier transport error asks for a backoff sleep of
    /// `backoff_secs(base, k)` seconds, `k` being the number of the next
    /// attempt.
    pub fn record(&mut self, outcome: PollOutcome) -> (r: RetryDecision)
        requires
            old(self).wf(),
            old(self).attempts_made < old(self).max_attempts,
        ensures
            final(self).wf(),
            final(self).max_attempts == old(self).max_attempts,
            final(self).backoff_base == old(self).backoff_base,
            final(self).attempts_made == old(self).attempts_made + 1,
            match r {
                RetryDecision::Done(o) => o == outcome && (!outcome.is_retryable()
                    || final(self).attempts_made == final(self).max_attempts),
                RetryDecision::RetryAfterSecs(s) => outcome.is_retryable()
                    && final(self).attempts_made < final(self).max_attempts
                    && s == backoff_secs(
                    final(self).backoff_base as nat,
                    (final(self).attempts_made + 1) as nat,
                ),
            },
    {
        self.attempts_made = self.attempts_made + 1;
        let retryable = match &outcome {
            PollOutcome::TransportError(_) => true,
            _ => false,
        };
        if !retryable || self.attempts_made == self.max_attempts {
            RetryDecision::Done(outcome)
        } else {
            proof {
                lemma_pow_nat_monotonic(
                    self.backoff_base as nat,
                    (self.attempts_made - 1) as nat,
                    (self.max_attempts - 1) as nat,
                );
            }
            let secs = pow_u64(self.backoff_base as u64, self.attempts_made - 1);
            RetryDecision::RetryAfterSecs(secs)
        }
    }
}

proof fn lemma_pow_nat_2_62()
    ensures
        pow_nat(2, 62) == 0x4000_0000_0000_0000,
{
    reveal_with_fuel(pow_nat, 64);
}

/// `base^k` as a `u64`, or `None` when it does not fit.
fn pow_checked(base: u64, k: u32) -> (r: Option<u64>)
    requires
        base >= 1,
    ensures
        match r {
            Some(v) => v == pow_nat(base as nat, k as nat),
            None => pow_nat(base as nat, k as nat) > u64::MAX,
        },
{
    let mut acc: u64 = 1;
    let mut i: u32 = 0;
    while i < k
        invariant
            i <= k,
            base >= 1,
            acc == pow_nat(base as nat, i as nat),
        decreases k - i,
    {
        acc = match acc.checked_mul(base) {
            Some(next) => next,
            None => {
                proof {
                    assert(pow_nat(base as nat, (i + 1) as nat) == base * pow_nat(
                        base as nat,
                        i as nat,
                    ));
                    lemma_pow_nat_monotonic(base as nat, (i + 1) as nat, k as nat);
                }
                return None;
            },
        };
        i = i + 1;
    }
    Some(acc)
}

/// `base^k` as a `u64`, under the promise that it fits.
fn pow_u64(base: u64, k: u32) -> (r: u64)
    requires
        base >= 1,
        pow_nat(base as nat, k as nat) <= u64::MAX,
    ensures
        r == pow_nat(base as nat, k as nat),
{
    let mut acc: u64 = 1;
    let mut i: u32 = 0;
    while i < k
        invariant
            i <= k,
            base >= 1,
            pow_nat(base as nat, k as nat) <= u64::MAX,
            acc == pow_nat(base as nat, i as nat),
        decreases k - i,
    {
        proof {
            assert(pow_nat(base as nat, (i + 1) as nat) == base * pow_nat(base as nat, i as nat));
            lemma_pow_nat_monotonic(base as nat, (i + 1) as nat, k as nat);
        }
        acc = acc * base;
        i = i + 1;
    }
    acc
}

} // verus!
