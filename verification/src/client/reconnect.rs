//! When a client connects again.

use vstd::arithmetic::power2::{lemma2_to64, lemma_pow2_unfold, pow2};
use vstd::prelude::*;

verus! {

/// The longest wait between two attempts, in seconds.
pub const MAX_BACKOFF: u64 = 300;

/// What follows an attempt to connect and serve.
#[derive(Debug, Clone, Copy, PartialEq, Eq, Structural)]
pub enum ReconnectStep {
    /// The client was told to stop.
    Shutdown,
    /// Connecting again is switched off.
    Disabled,
    /// Connect again after so many seconds.
    Wait(u64),
}

/// The wait after so many failures in a row: the interval, and from the second
/// failure on twice the wait before, up to the longest.
pub open spec fn backoff_after(interval: u64, failures: nat) -> int
    decreases failures,
{
    if failures <= 1 {
        interval as int
    } else {
        let twice = 2 * backoff_after(interval, (failures - 1) as nat);
        if twice < MAX_BACKOFF {
            twice
        } else {
            MAX_BACKOFF as int
        }
    }
}

/// Another attempt is allowed after so many failures in a row: always without
/// a limit, else as long as they are fewer.
pub open spec fn is_allowed(max_attempts: u32, failures: int) -> bool {
    max_attempts == 0 || failures < max_attempts
}

/// Keeps count of failures.
#[derive(Debug)]
pub struct ReconnectPolicy {
    pub interval: u64,
    pub max_attempts: u32,
    /// Failures in a row.
    pub count: u32,
    /// The wait before the next attempt, in seconds.
    pub backoff: u64,
}

impl ReconnectPolicy {
    /// The wait is the one that the failures call for.
    pub open spec fn wf(self) -> bool {
        self.backoff == backoff_after(self.interval, self.count as nat)
    }

    /// The policy after an attempt, and what follows.
    pub open spec fn next(self, failed: bool, running: bool) -> (ReconnectPolicy, ReconnectStep) {
        let count = if failed {
            (self.count + 1) as u32
        } else {
            0u32
        };
        let backoff = backoff_after(self.interval, count as nat) as u64;
        (
            ReconnectPolicy { count, backoff, ..self },
            if !running {
                ReconnectStep::Shutdown
            } else if self.interval == 0 {
                ReconnectStep::Disabled
            } else {
                ReconnectStep::Wait(backoff)
            },
        )
    }

    /// A policy that has seen no failure.
    pub open spec fn fresh(interval: u64, max_attempts: u32) -> ReconnectPolicy {
        ReconnectPolicy { interval, max_attempts, count: 0, backoff: interval }
    }

    /// A policy that has seen no failure.
    pub fn new(interval: u64, max_attempts: u32) -> (r: Self)
        ensures
            r.wf(),
            r.interval == interval,
            r.max_attempts == max_attempts,
            r.count == 0,
            r == ReconnectPolicy::fresh(interval, max_attempts),
    {
        ReconnectPolicy { interval, max_attempts, count: 0, backoff: interval }
    }

    /// Whether another attempt is allowed.
    pub fn may_attempt(&self) -> (r: bool)
        ensures
            r == is_allowed(self.max_attempts, self.count as int),
    {
        !(self.max_attempts > 0 && self.count >= self.max_attempts)
    }

    /// Takes note of how an attempt went and tells what follows.
    pub fn after_attempt(&mut self, failed: bool, running: bool) -> (r: ReconnectStep)
        requires
            old(self).wf(),
            failed ==> old(self).count < u32::MAX,
        ensures
            final(self).wf(),
            final(self).interval == old(self).interval,
            final(self).max_attempts == old(self).max_attempts,
            final(self).count == (if failed {
                old(self).count + 1
            } else {
                0
            }),
            r == (if !running {
                ReconnectStep::Shutdown
            } else if old(self).interval == 0 {
                ReconnectStep::Disabled
            } else {
                ReconnectStep::Wait(final(self).backoff)
            }),
            (*final(self), r) == old(self).next(failed, running),
    {
        if failed {
            self.count = self.count + 1;
            if self.count > 1 {
                if self.backoff < MAX_BACKOFF / 2 {
                    self.backoff = self.backoff * 2;
                } else {
                    self.backoff = MAX_BACKOFF;
                }
            }
        } else {
            self.backoff = self.interval;
            self.count = 0;
        }
        if !running {
            ReconnectStep::Shutdown
        } else if self.interval == 0 {
            ReconnectStep::Disabled
        } else {
            ReconnectStep::Wait(self.backoff)
        }
    }
}

// ---------------------------------------------------------------------------
// Laws
// ---------------------------------------------------------------------------

/// From the second failure on the wait is never above the longest.
pub proof fn backoff_is_capped(interval: u64, failures: nat)
    requires
        failures >= 2,
    ensures
        0 <= backoff_after(interval, failures) <= MAX_BACKOFF,
    decreases failures,
{
    if failures > 2 {
        backoff_is_capped(interval, (failures - 1) as nat);
    } else {
        assert(backoff_after(interval, 1) == interval);
    }
}

/// The wait doubles with every failure after the first, up to the longest.
pub proof fn backoff_doubles(interval: u64, failures: nat)
    requires
        failures >= 2,
    ensures
        backoff_after(interval, failures) == (if interval * pow2((failures - 1) as nat)
            < MAX_BACKOFF {
            interval * pow2((failures - 1) as nat)
        } else {
            MAX_BACKOFF as int
        }),
    decreases failures,
{
    let i = interval as int;
    let p = pow2((failures - 2) as nat) as int;
    lemma_pow2_unfold((failures - 1) as nat);
    assert(i * (2 * p) == 2 * (i * p)) by (nonlinear_arith);
    assert(interval * pow2((failures - 1) as nat) == 2 * (i * p));
    if failures == 2 {
        lemma2_to64();
        assert(i * p == i) by (nonlinear_arith)
            requires
                p == 1,
        ;
        assert(backoff_after(interval, 1) == interval);
    } else {
        backoff_doubles(interval, (failures - 1) as nat);
        assert(interval * pow2((failures - 2) as nat) == i * p);
    }
}

/// The failures in a row at the end of a history of attempts, where `true`
/// stands for one that failed.
pub open spec fn failures_in_a_row(history: Seq<bool>) -> int
    decreases history.len(),
{
    if history.len() == 0 || !history.last() {
        0
    } else {
        1 + failures_in_a_row(history.drop_last())
    }
}

/// Every attempt of a history was allowed when it was made.
pub open spec fn is_allowed_history(max_attempts: u32, history: Seq<bool>) -> bool
    decreases history.len(),
{
    history.len() == 0 || {
        &&& is_allowed_history(max_attempts, history.drop_last())
        &&& is_allowed(max_attempts, failures_in_a_row(history.drop_last()))
    }
}

/// With a limit, no more attempts than that fail in a row.
pub proof fn failures_are_limited(max_attempts: u32, history: Seq<bool>)
    requires
        max_attempts > 0,
        is_allowed_history(max_attempts, history),
    ensures
        0 <= failures_in_a_row(history) <= max_attempts,
    decreases history.len(),
{
    if history.len() > 0 {
        failures_are_limited(max_attempts, history.drop_last());
    }
}

/// The wait after the first failure, and after an attempt that went well, is the
/// interval, whatever it is. From the second failure on it is the interval doubled
/// for every failure after the first, but never above five minutes.
pub proof fn waits_double_up_to_five_minutes(interval: u64, failures: nat)
    ensures
        failures <= 1 ==> backoff_after(interval, failures) == interval,
        failures >= 2 && interval * pow2((failures - 1) as nat) <= 300 ==> backoff_after(
            interval,
            failures,
        ) == interval * pow2((failures - 1) as nat),
        failures >= 2 && interval * pow2((failures - 1) as nat) > 300 ==> backoff_after(
            interval,
            failures,
        ) == 300,
{
    if failures >= 2 {
        backoff_doubles(interval, failures);
    }
}

/// Without a limit every attempt is allowed; with one, exactly those before which
/// fewer failed in a row.
pub proof fn attempts_are_allowed_up_to_the_limit(max_attempts: u32, failures: int)
    requires
        0 <= failures,
    ensures
        max_attempts == 0 ==> is_allowed(max_attempts, failures),
        max_attempts > 0 && failures + 1 <= max_attempts ==> is_allowed(max_attempts, failures),
        max_attempts > 0 && failures >= max_attempts ==> !is_allowed(max_attempts, failures),
{
}

/// The policy that a history of attempts leads to, where `true` stands for one that
/// failed.
pub open spec fn policy_of(start: ReconnectPolicy, history: Seq<bool>) -> ReconnectPolicy
    decreases history.len(),
{
    if history.len() == 0 {
        start
    } else {
        policy_of(start, history.drop_last()).next(history.last(), true).0
    }
}

/// Over a whole history of attempts the failures in a row are counted, an attempt
/// that went well starts anew, and the settings stay. As long as it runs and
/// connecting again is not switched off, a client waits as long as these failures
/// call for.
pub proof fn waits_follow_the_failures(
    start: ReconnectPolicy,
    history: Seq<bool>,
    failed: bool,
)
    requires
        start.count == 0,
        start.wf(),
        history.len() < u32::MAX,
    ensures
        ({
            let policy = policy_of(start, history);
            let (after, step) = policy.next(failed, true);
            let failures = if failed {
                failures_in_a_row(history) + 1
            } else {
                0
            };
            &&& policy.count == failures_in_a_row(history)
            &&& 0 <= failures_in_a_row(history) <= history.len()
            &&& policy.interval == start.interval
            &&& policy.max_attempts == start.max_attempts
            &&& after.count == failures
            &&& start.interval > 0 ==> (step matches ReconnectStep::Wait(seconds) && seconds
                == backoff_after(start.interval, failures as nat))
            &&& start.interval == 0 ==> step == ReconnectStep::Disabled
            &&& policy.next(failed, false).1 == ReconnectStep::Shutdown
        }),
    decreases history.len(),
{
    if history.len() > 0 {
        waits_follow_the_failures(start, history.drop_last(), history.last());
    }
    let failures: nat = if failed {
        (failures_in_a_row(history) + 1) as nat
    } else {
        0
    };
    if failures >= 2 {
        backoff_is_capped(start.interval, failures);
    }
}

/// A client that has seen no failure may attempt, and waits as long as it was set up
/// with after the first.
pub proof fn fresh_policies_may_attempt(interval: u64, max_attempts: u32)
    ensures
        ({
            let start = ReconnectPolicy::fresh(interval, max_attempts);
            &&& start.wf()
            &&& start.count == 0
            &&& start.max_attempts == max_attempts
            &&& is_allowed(start.max_attempts, start.count as int)
            &&& interval > 0 ==> start.next(true, true).1 == ReconnectStep::Wait(interval)
            &&& interval > 0 ==> start.next(false, true).1 == ReconnectStep::Wait(interval)
        }),
{
}

} // verus!
