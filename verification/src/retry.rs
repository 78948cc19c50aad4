//! How long to wait before each new attempt to connect.

use vstd::prelude::*;

verus! {

/// A policy of growing delays. The first retry waits `initial_delay_ms`;
/// each further one waits the last delay times `multiplier_percent`
/// hundredths, rounded down to whole milliseconds, and at most
/// `max_delay_ms`. After `max_attempts` failures in a row, if that is set,
/// there is no further retry.
#[derive(Clone, Copy, Debug, PartialEq, Eq, Structural)]
pub struct BackoffPolicy {
    pub initial_delay_ms: u64,
    pub multiplier_percent: u64,
    pub max_delay_ms: u64,
    pub max_attempts: Option<u64>,
}

impl BackoffPolicy {
    /// The delays do not shrink, and the first is within the limit.
    pub open spec fn wf(self) -> bool {
        self.multiplier_percent >= 100 && self.initial_delay_ms <= self.max_delay_ms
    }

    /// The delay that follows `delay_ms`.
    pub open spec fn grown(self, delay_ms: nat) -> nat {
        let next = (delay_ms * self.multiplier_percent / 100) as nat;
        if next <= self.max_delay_ms {
            next
        } else {
            self.max_delay_ms as nat
        }
    }

    /// The delay before the retry that follows `failures + 1` failures in a
    /// row.
    pub open spec fn delay_after(self, failures: nat) -> nat
        decreases failures,
    {
        if failures == 0 {
            self.initial_delay_ms as nat
        } else {
            self.grown(self.delay_after((failures - 1) as nat))
        }
    }

    /// Whether a further retry is due after `failures` failures in a row.
    pub open spec fn allows(self, failures: nat) -> bool {
        match self.max_attempts {
            Some(limit) => failures <= limit,
            None => true,
        }
    }

    /// Half a second at first, half as much again each time, a minute at
    /// most, and no end to the retries.
    pub fn standard() -> (policy: BackoffPolicy)
        ensures
            policy.wf(),
            policy == (BackoffPolicy {
                initial_delay_ms: 500,
                multiplier_percent: 150,
                max_delay_ms: 60_000,
                max_attempts: None,
            }),
    {
        BackoffPolicy {
            initial_delay_ms: 500,
            multiplier_percent: 150,
            max_delay_ms: 60_000,
            max_attempts: None,
        }
    }

    /// No waiting at all, and no end to the retries.
    pub fn immediate() -> (policy: BackoffPolicy)
        ensures
            policy.wf(),
            policy == (BackoffPolicy {
                initial_delay_ms: 0,
                multiplier_percent: 100,
                max_delay_ms: 0,
                max_attempts: None,
            }),
    {
        BackoffPolicy {
            initial_delay_ms: 0,
            multiplier_percent: 100,
            max_delay_ms: 0,
            max_attempts: None,
        }
    }

    /// Whether the policy is one whose delays do not shrink.
    pub fn is_wf(&self) -> (ok: bool)
        ensures
            ok == self.wf(),
    {
        self.multiplier_percent >= 100 && self.initial_delay_ms <= self.max_delay_ms
    }

    /// The delay that follows `delay_ms`.
    pub fn next_delay(&self, delay_ms: u64) -> (next: u64)
        ensures
            next == self.grown(delay_ms as nat),
            next <= self.max_delay_ms,
            self.wf() && delay_ms <= self.max_delay_ms ==> delay_ms <= next,
    {
        let delay: u128 = delay_ms as u128;
        let percent: u128 = self.multiplier_percent as u128;
        proof {
            if self.multiplier_percent >= 100 {
                lemma_growth(delay_ms as nat, self.multiplier_percent as nat);
            }
            assert(delay * percent <= 0xffff_ffff_ffff_ffff * 0xffff_ffff_ffff_ffff)
                by (nonlinear_arith)
                requires
                    0 <= delay <= 0xffff_ffff_ffff_ffff,
                    0 <= percent <= 0xffff_ffff_ffff_ffff,
            ;
        }
        let product: u128 = delay * percent;
        let grown: u128 = product / 100;
        if grown <= self.max_delay_ms as u128 {
            grown as u64
        } else {
            self.max_delay_ms
        }
    }
}

/// A delay times at least a hundred hundredths is no shorter.
proof fn lemma_growth(delay_ms: nat, percent: nat)
    requires
        percent >= 100,
    ensures
        delay_ms * percent / 100 >= delay_ms,
{
    assert(delay_ms * percent >= delay_ms * 100) by (nonlinear_arith)
        requires
            percent >= 100,
    ;
}

/// Under a policy whose delays do not shrink, each delay is at least the one
/// before it and at most the limit.
pub proof fn lemma_delays_grow_to_limit(policy: BackoffPolicy, failures: nat)
    requires
        policy.wf(),
    ensures
        policy.delay_after(failures) <= policy.delay_after(failures + 1) <= policy.max_delay_ms,
        policy.delay_after(failures) <= policy.max_delay_ms,
    decreases failures,
{
    if failures > 0 {
        lemma_delays_grow_to_limit(policy, (failures - 1) as nat);
    }
    lemma_growth(policy.delay_after(failures), policy.multiplier_percent as nat);
    assert(policy.delay_after(failures + 1) == policy.grown(policy.delay_after(failures)));
}

/// Under a policy whose delays do not shrink, a later retry never waits
/// less than an earlier one of the same run of failures.
pub proof fn lemma_delays_never_shrink(policy: BackoffPolicy, earlier: nat, later: nat)
    requires
        policy.wf(),
        earlier <= later,
    ensures
        policy.delay_after(earlier) <= policy.delay_after(later) <= policy.max_delay_ms,
    decreases later - earlier,
{
    lemma_delays_grow_to_limit(policy, later);
    if earlier < later {
        lemma_delays_never_shrink(policy, earlier, (later - 1) as nat);
        lemma_delays_grow_to_limit(policy, (later - 1) as nat);
    }
}

/// Where a run of failures stands: how long the next retry waits, and how
/// many retries are left.
pub struct Retry {
    policy: BackoffPolicy,
    delay_ms: u64,
    remaining: Option<u64>,
    failures: Ghost<nat>,
}

impl Retry {
    /// The policy.
    pub closed spec fn policy(self) -> BackoffPolicy {
        self.policy
    }

    /// The failures in a row so far.
    pub closed spec fn failures(self) -> nat {
        self.failures@
    }

    /// The policy's delays do not shrink; the next delay is the one that the
    /// policy gives after the failures so far, and the retries left are
    /// those that the policy still allows.
    pub closed spec fn wf(self) -> bool {
        &&& self.policy.wf()
        &&& self.delay_ms == self.policy.delay_after(self.failures@)
        &&& self.remaining == match self.policy.max_attempts {
            Some(limit) => Some(
                if self.failures@ <= limit {
                    (limit - self.failures@) as u64
                } else {
                    0u64
                },
            ),
            None => None,
        }
    }

    /// The policy of a run of failures in order is one whose delays do not
    /// shrink, and the next wait is within its limit.
    pub proof fn lemma_policy_wf(self)
        requires
            self.wf(),
        ensures
            self.policy().wf(),
            self.policy().delay_after(self.failures()) <= self.policy().max_delay_ms,
    {
        lemma_delays_grow_to_limit(self.policy, self.failures@);
    }

    /// No failure yet.
    pub fn new(policy: BackoffPolicy) -> (retry: Retry)
        requires
            policy.wf(),
        ensures
            retry.wf(),
            retry.policy() == policy,
            retry.failures() == 0,
    {
        Retry {
            policy,
            delay_ms: policy.initial_delay_ms,
            remaining: policy.max_attempts,
            failures: Ghost(0),
        }
    }

    /// Forgets the failures: the next one is again the first of its run.
    pub fn reset(&mut self)
        requires
            old(self).wf(),
        ensures
            final(self).wf(),
            final(self).policy() == old(self).policy(),
            final(self).failures() == 0,
    {
        self.delay_ms = self.policy.initial_delay_ms;
        self.remaining = self.policy.max_attempts;
        self.failures = Ghost(0);
    }

    /// Takes note of a failure. The answer is how many milliseconds to wait
    /// before the retry, or `None` where the policy allows no further one.
    pub fn on_failure(&mut self) -> (wait: Option<u64>)
        requires
            old(self).wf(),
        ensures
            final(self).wf(),
            final(self).policy() == old(self).policy(),
            final(self).failures() == old(self).failures() + 1,
            wait == if old(self).policy().allows(old(self).failures() + 1) {
                Some(old(self).policy().delay_after(old(self).failures()) as u64)
            } else {
                None
            },
            wait matches Some(ms) ==> ms <= old(self).policy().max_delay_ms,
    {
        let wait = self.delay_ms;
        proof {
            lemma_delays_grow_to_limit(self.policy, self.failures@);
        }
        self.delay_ms = self.policy.next_delay(wait);
        self.failures = Ghost((self.failures@ + 1) as nat);
        match self.remaining {
            Some(left) => if left > 0 {
                self.remaining = Some(left - 1);
                Some(wait)
            } else {
                None
            },
            None => Some(wait),
        }
    }
}

} // verus!
