//! Exponential backoff: the delay doubles with each failed attempt until it
//! reaches a ceiling.

use vstd::prelude::*;

verus! {

/// `base` doubled `attempt` times.
pub open spec fn doubled(base: nat, attempt: nat) -> nat
    decreases attempt,
{
    if attempt == 0 {
        base
    } else {
        2 * doubled(base, (attempt - 1) as nat)
    }
}

/// The delay before the retry that follows `attempt` earlier retries: `base`
/// doubled `attempt` times, but no more than `ceiling`.
pub open spec fn backoff_delay(base: u64, ceiling: u64, attempt: nat) -> u64 {
    if doubled(base as nat, attempt) >= ceiling {
        ceiling
    } else {
        doubled(base as nat, attempt) as u64
    }
}

/// Doubling never makes a delay smaller.
pub proof fn lemma_doubled_monotone(base: nat, i: nat, j: nat)
    requires
        i <= j,
    ensures
        doubled(base, i) <= doubled(base, j),
    decreases j,
{
    if i < j {
        lemma_doubled_monotone(base, i, (j - 1) as nat);
    }
}

/// The delay never exceeds the ceiling and never shrinks from one attempt to
/// a later one.
pub proof fn lemma_backoff_bounded_and_monotone(base: u64, ceiling: u64, i: nat, j: nat)
    requires
        i <= j,
    ensures
        backoff_delay(base, ceiling, i) <= backoff_delay(base, ceiling, j) <= ceiling,
{
    lemma_doubled_monotone(base as nat, i, j);
}

/// How long to wait between retries.
#[derive(Clone, Copy, Debug, PartialEq, Eq, Structural)]
pub struct Backoff {
    /// The delay before the first retry, in seconds.
    pub base_secs: u64,
    /// The longest delay, in seconds.
    pub ceiling_secs: u64,
}

impl Backoff {
    /// The delay before the retry that follows `attempt` earlier retries.
    pub open spec fn spec_delay(&self, attempt: nat) -> u64 {
        backoff_delay(self.base_secs, self.ceiling_secs, attempt)
    }

    /// The delay, in seconds, before the retry that follows `attempt` earlier
    /// retries.
    pub fn delay(&self, attempt: u32) -> (r: u64)
        ensures
            r == self.spec_delay(attempt as nat),
    {
        let base = self.base_secs;
        let ceiling = self.ceiling_secs;
        if base == 0 {
            proof {
                lemma_doubled_zero(attempt as nat);
            }
            return 0;
        }
        let mut delay: u64 = base;
        let mut k: u32 = 0;
        while k < attempt && delay < ceiling
            invariant
                base == self.base_secs,
                ceiling == self.ceiling_secs,
                k <= attempt,
                delay == doubled(base as nat, k as nat),
            decreases attempt - k,
        {
            if delay > ceiling / 2 {
                proof {
                    assert(doubled(base as nat, (k + 1) as nat) == 2 * delay);
                    lemma_doubled_monotone(base as nat, (k + 1) as nat, attempt as nat);
                }
                return ceiling;
            }
            delay = 2 * delay;
            k += 1;
        }
        proof {
            lemma_doubled_monotone(base as nat, k as nat, attempt as nat);
        }
        if delay >= ceiling {
            ceiling
        } else {
            delay
        }
    }
}

proof fn lemma_doubled_zero(attempt: nat)
    ensures
        doubled(0, attempt) == 0,
    decreases attempt,
{
    if attempt > 0 {
        lemma_doubled_zero((attempt - 1) as nat);
    }
}

} // verus!
