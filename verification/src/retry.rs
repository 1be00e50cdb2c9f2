//! Retrying a failed request with a doubling wait.
use vstd::prelude::*;

verus! {

/// How many times a failed request is tried again.
pub const MAX_RETRIES: u64 = 3;

/// The number of retries made so far and the seconds to wait before the next.
pub struct RetryPolicy {
    retries: u64,
    backoff: u64,
}

pub enum RetryDecision {
    /// Wait this many seconds, then try again.
    Wait(u64),
    /// Stop trying.
    GiveUp,
}

pub open spec fn pow2(n: nat) -> nat
    decreases n,
{
    if n == 0 {
        1
    } else {
        2 * pow2((n - 1) as nat)
    }
}

impl View for RetryPolicy {
    /// (retries made, seconds of the next wait)
    type V = (nat, nat);

    closed spec fn view(&self) -> (nat, nat) {
        (self.retries as nat, self.backoff as nat)
    }
}

/// The policy after one more failure, and what it decides.
pub open spec fn after_failure_spec(p: (nat, nat)) -> ((nat, nat), RetryDecision) {
    if p.0 >= MAX_RETRIES {
        (p, RetryDecision::GiveUp)
    } else {
        ((p.0 + 1, p.1 * 2), RetryDecision::Wait(p.1 as u64))
    }
}

/// The policy after `n` failures of a fresh policy that did not give up.
pub open spec fn after_failures(n: nat) -> (nat, nat) {
    (n, pow2(n))
}

impl RetryPolicy {
    /// The retries made are at most `MAX_RETRIES`, and the next wait is 2 to their number.
    pub open spec fn wf(self) -> bool {
        self@.0 <= MAX_RETRIES && self@.1 == pow2(self@.0)
    }

    pub fn new() -> (r: RetryPolicy)
        ensures
            r@ == (0nat, 1nat),
            r.wf(),
    {
        RetryPolicy { retries: 0, backoff: 1 }
    }

    /// Records a failure: gives up when `MAX_RETRIES` retries were made, and
    /// otherwise waits the current backoff and doubles it.
    pub fn after_failure(&mut self) -> (d: RetryDecision)
        requires
            old(self).wf(),
        ensures
            (final(self)@, d) == after_failure_spec(old(self)@),
            final(self).wf(),
    {
        if self.retries >= MAX_RETRIES {
            RetryDecision::GiveUp
        } else {
            let wait = self.backoff;
            assert(self.backoff <= 4) by {
                reveal_with_fuel(pow2, 3);
            }
            self.retries = self.retries + 1;
            self.backoff = self.backoff * 2;
            RetryDecision::Wait(wait)
        }
    }
}

/// A fresh policy waits 1, 2 and 4 seconds after its first three failures and
/// gives up at the fourth: a request is sent at most four times.
pub proof fn lemma_retry_schedule(n: nat)
    requires
        n <= MAX_RETRIES,
    ensures
        n < MAX_RETRIES ==> after_failure_spec(after_failures(n)) == (
            after_failures(n + 1),
            RetryDecision::Wait(pow2(n) as u64),
        ),
        n == MAX_RETRIES ==> after_failure_spec(after_failures(n)) == (
            after_failures(n),
            RetryDecision::GiveUp,
        ),
        pow2(0) == 1 && pow2(1) == 2 && pow2(2) == 4 && pow2(3) == 8,
{
    reveal_with_fuel(pow2, 4);
    if n < MAX_RETRIES {
        assert(pow2(n + 1) == 2 * pow2(n));
    }
}

} // verus!
