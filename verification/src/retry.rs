//! The retry executor: a bounded number of attempts with a growing pause.
//!
//! The executor never runs the operation itself. The caller runs it, shows
//! the outcome to [`RetryExecutor::decide`] and does what the decision says:
//! hand the outcome on, or pause and run the operation again. Whatever the
//! operation did before it failed stays done.

use crate::error::Error;
use vstd::prelude::*;

verus! {

/// `base`, doubled `times` times.
pub open spec fn doubled(base: nat, times: nat) -> nat
    decreases times,
{
    if times == 0 {
        base
    } else {
        2 * doubled(base, (times - 1) as nat)
    }
}

proof fn lemma_doubled_grows(base: nat, m: nat, n: nat)
    requires
        m <= n,
    ensures
        doubled(base, m) <= doubled(base, n),
    decreases n,
{
    if m < n {
        lemma_doubled_grows(base, m, (n - 1) as nat);
    }
}

proof fn lemma_doubled_zero(times: nat)
    ensures
        doubled(0, times) == 0,
    decreases times,
{
    if times > 0 {
        lemma_doubled_zero((times - 1) as nat);
    }
}

/// How often an operation is attempted and how long the pauses between the
/// attempts are.
#[derive(Clone, Copy, Debug, PartialEq, Eq, Structural)]
pub struct RetryPolicy {
    /// The attempt ceiling. An operation is attempted once even where this is 0.
    pub max_attempts: u32,
    /// The pause after the first failure, in milliseconds.
    pub base_delay_ms: u64,
    /// The longest pause, in milliseconds.
    pub max_delay_ms: u64,
}

impl RetryPolicy {
    pub fn new(max_attempts: u32, base_delay_ms: u64, max_delay_ms: u64) -> (p: RetryPolicy)
        ensures
            p.max_attempts == max_attempts,
            p.base_delay_ms == base_delay_ms,
            p.max_delay_ms == max_delay_ms,
    {
        RetryPolicy { max_attempts, base_delay_ms, max_delay_ms }
    }

    /// The number of attempts after which the executor gives up: the
    /// configured ceiling, and 1 where that is 0.
    pub open spec fn spec_ceiling(&self) -> u32 {
        if self.max_attempts == 0 {
            1
        } else {
            self.max_attempts
        }
    }

    pub fn ceiling(&self) -> (c: u32)
        ensures
            c == self.spec_ceiling(),
    {
        if self.max_attempts == 0 {
            1
        } else {
            self.max_attempts
        }
    }

    /// The pause after the given number of failures: the base pause, doubled
    /// with every failure after the first, and never longer than the longest
    /// pause.
    pub open spec fn spec_delay_ms(&self, failures: u32) -> u64 {
        let times = if failures == 0 {
            0
        } else {
            (failures - 1) as nat
        };
        let raw = doubled(self.base_delay_ms as nat, times);
        if raw > self.max_delay_ms {
            self.max_delay_ms
        } else {
            raw as u64
        }
    }

    pub fn delay_ms(&self, failures: u32) -> (d: u64)
        ensures
            d == self.spec_delay_ms(failures),
    {
        let cap: u64 = self.max_delay_ms;
        let times: u32 = if failures == 0 {
            0
        } else {
            failures - 1
        };
        if self.base_delay_ms == 0 {
            proof {
                lemma_doubled_zero(times as nat);
            }
            return 0;
        }
        let mut d: u64 = self.base_delay_ms;
        let mut i: u32 = 0;
        while i < times && d <= cap / 2
            invariant
                i <= times,
                d == doubled(self.base_delay_ms as nat, i as nat),
                cap == self.max_delay_ms,
            decreases times - i,
        {
            d = d * 2;
            i += 1;
        }
        if i == times {
            if d > cap {
                cap
            } else {
                d
            }
        } else {
            proof {
                lemma_doubled_grows(self.base_delay_ms as nat, (i + 1) as nat, times as nat);
            }
            cap
        }
    }
}

/// The outcome ends the run whatever the ceiling: a success, or a failure
/// that is not worth another attempt.
pub open spec fn settles<T>(outcome: Result<T, Error>) -> bool {
    match outcome {
        Ok(_) => true,
        Err(e) => !e.spec_is_retryable(),
    }
}

/// What to do with the outcome of an attempt.
pub enum RetryDecision {
    /// Hand the outcome to the caller as it is; `attempts` were made.
    Finish { attempts: u32 },
    /// Pause for `delay_ms` milliseconds, run the operation again and show
    /// its outcome to `next`.
    Retry { next: RetryExecutor, delay_ms: u64 },
}

/// The state of one retried operation: its policy and the attempts made.
pub struct RetryExecutor {
    policy: RetryPolicy,
    attempts: u32,
}

impl RetryExecutor {
    pub closed spec fn spec_policy(&self) -> RetryPolicy {
        self.policy
    }

    /// The attempts whose outcome has been seen.
    pub closed spec fn spec_attempts(&self) -> u32 {
        self.attempts
    }

    #[verifier::type_invariant]
    spec fn inv(&self) -> bool {
        self.attempts < self.policy.spec_ceiling()
    }

    /// An executor that has seen no attempt yet.
    pub fn start(policy: RetryPolicy) -> (ex: RetryExecutor)
        ensures
            ex.spec_policy() == policy,
            ex.spec_attempts() == 0,
    {
        RetryExecutor { policy, attempts: 0 }
    }

    pub fn policy(&self) -> (p: RetryPolicy)
        ensures
            p == self.spec_policy(),
    {
        self.policy
    }

    pub fn attempts(&self) -> (n: u32)
        ensures
            n == self.spec_attempts(),
            n < self.spec_policy().spec_ceiling(),
    {
        proof {
            use_type_invariant(self);
        }
        self.attempts
    }

    /// Decides on the outcome of the attempt that has just ended.
    ///
    /// A success and a failure that is not retryable finish the run at once.
    /// A retryable failure finishes it when the ceiling is reached; before
    /// that it asks for a pause and another attempt.
    pub fn decide<T>(self, outcome: &Result<T, Error>) -> (d: RetryDecision)
        ensures
            match d {
                RetryDecision::Finish { attempts } => {
                    &&& attempts == self.spec_attempts() + 1
                    &&& (settles(*outcome) || attempts == self.spec_policy().spec_ceiling())
                },
                RetryDecision::Retry { next, delay_ms } => {
                    &&& !settles(*outcome)
                    &&& self.spec_attempts() + 1 < self.spec_policy().spec_ceiling()
                    &&& next.spec_policy() == self.spec_policy()
                    &&& next.spec_attempts() == self.spec_attempts() + 1
                    &&& delay_ms == self.spec_policy().spec_delay_ms(next.spec_attempts())
                },
            },
    {
        proof {
            use_type_invariant(&self);
        }
        let made: u32 = self.attempts + 1;
        let settled = match outcome {
            Ok(_) => true,
            Err(e) => !e.is_retryable(),
        };
        if settled || made >= self.policy.ceiling() {
            RetryDecision::Finish { attempts: made }
        } else {
            let delay_ms = self.policy.delay_ms(made);
            RetryDecision::Retry {
                next: RetryExecutor { policy: self.policy, attempts: made },
                delay_ms,
            }
        }
    }
}

/// An operation whose successive invocations have the outcomes of `script`
/// is invoked exactly `n` times under the given ceiling, and the outcome of
/// its `n`-th invocation is the overall result.
pub open spec fn decided_at<T>(script: Seq<Result<T, Error>>, ceiling: nat, n: nat) -> bool {
    &&& 1 <= n <= script.len()
    &&& n <= ceiling
    &&& forall|i: int| 0 <= i < n - 1 ==> !settles(#[trigger] script[i])
    &&& (settles(script[n - 1]) || n == ceiling)
}

/// Runs the retry policy against an operation that is given by the outcomes
/// of its successive invocations.
///
/// Returns the number of invocations made; the outcome of the last of them
/// is the overall result. Returns `None` where the script ends before the
/// policy has decided.
pub fn retry<T>(policy: &RetryPolicy, script: &Vec<Result<T, Error>>) -> (r: Option<u32>)
    ensures
        match r {
            Some(n) => decided_at(script@, policy.spec_ceiling() as nat, n as nat),
            None => forall|n: nat| !decided_at(script@, policy.spec_ceiling() as nat, n),
        },
{
    let mut ex = RetryExecutor::start(*policy);
    let mut i: usize = 0;
    while i < script.len()
        invariant
            i <= script.len(),
            ex.spec_policy() == *policy,
            ex.spec_attempts() == i,
            i < policy.spec_ceiling(),
            forall|j: int| 0 <= j < i ==> !settles(#[trigger] script@[j]),
        decreases script.len() - i,
    {
        match ex.decide(&script[i]) {
            RetryDecision::Finish { attempts } => {
                return Some(attempts);
            },
            RetryDecision::Retry { next, delay_ms: _ } => {
                ex = next;
                i += 1;
            },
        }
    }
    proof {
        assert forall|n: nat| !decided_at(script@, policy.spec_ceiling() as nat, n) by {
            if 1 <= n <= script@.len() {
                assert(!settles(script@[n - 1]));
            }
        }
    }
    None
}

/// Under one ceiling a script is decided at one invocation only.
pub proof fn lemma_decided_once<T>(script: Seq<Result<T, Error>>, ceiling: nat, m: nat, n: nat)
    requires
        decided_at(script, ceiling, m),
        decided_at(script, ceiling, n),
    ensures
        m == n,
{
    if m < n {
        assert(!settles(script[m - 1]));
    }
    if n < m {
        assert(!settles(script[n - 1]));
    }
}

/// An operation that succeeds at once is invoked exactly once.
pub proof fn lemma_first_success_is_one_invocation<T>(
    script: Seq<Result<T, Error>>,
    policy: RetryPolicy,
)
    requires
        script.len() >= 1,
        script[0] is Ok,
    ensures
        decided_at(script, policy.spec_ceiling() as nat, 1),
{
}

/// An operation that fails `k` times with a retryable failure and then
/// succeeds is, under a ceiling of at least `k + 1`, invoked exactly `k + 1`
/// times, and the overall result is the success.
pub proof fn lemma_succeeds_after_failures<T>(
    script: Seq<Result<T, Error>>,
    policy: RetryPolicy,
    k: nat,
)
    requires
        script.len() > k,
        forall|i: int| 0 <= i < k ==> !settles(#[trigger] script[i]),
        script[k as int] is Ok,
        policy.max_attempts >= k + 1,
    ensures
        decided_at(script, policy.spec_ceiling() as nat, k + 1),
        script[k as int] is Ok,
{
}

/// An operation that fails `k` times with a retryable failure is, under a
/// ceiling of at most `k`, invoked exactly as often as the ceiling says, and
/// the overall result is the failure of the last of these invocations.
pub proof fn lemma_gives_up_at_ceiling<T>(
    script: Seq<Result<T, Error>>,
    policy: RetryPolicy,
    k: nat,
)
    requires
        script.len() >= k,
        forall|i: int| 0 <= i < k ==> !settles(#[trigger] script[i]),
        1 <= policy.max_attempts <= k,
    ensures
        decided_at(script, policy.max_attempts as nat, policy.max_attempts as nat),
        policy.spec_ceiling() == policy.max_attempts,
        script[policy.max_attempts - 1] is Err,
        script[policy.max_attempts - 1]->Err_0.spec_is_retryable(),
{
    assert(!settles(script[policy.max_attempts - 1]));
}

} // verus!
