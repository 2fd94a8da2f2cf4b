//! How long a daemon that keeps failing waits before it is launched again.

use vstd::arithmetic::power2::{lemma_pow2_pos, lemma_pow2_unfold, pow2};
use vstd::prelude::*;

verus! {

/// The pacing of restarts: the pause doubles with every short run in a row,
/// up to a cap, and starts over after a run that lasted.
#[derive(Debug, Copy, Clone, PartialEq, Eq, Structural)]
pub struct RestartPolicy {
    /// The pause before a restart that follows no short run, in milliseconds.
    pub base_ms: u64,
    /// No pause is longer than this.
    pub cap_ms: u64,
    /// A run of at least this length is not a short run.
    pub min_uptime_ms: u64,
}

impl RestartPolicy {
    /// The pause before a restart that follows `failures` short runs in a row:
    /// the base doubled that many times, but no more than the cap.
    pub open spec fn pause(self, failures: nat) -> int {
        if self.base_ms * pow2(failures) < self.cap_ms {
            self.base_ms * pow2(failures)
        } else {
            self.cap_ms as int
        }
    }

    /// A tenth of a second at first, half a minute at most, and ten seconds
    /// of uptime to start over.
    pub open spec fn usual() -> RestartPolicy {
        RestartPolicy { base_ms: 100, cap_ms: 30_000, min_uptime_ms: 10_000 }
    }

    /// The usual pacing.
    pub fn standard() -> (r: RestartPolicy)
        ensures
            r == RestartPolicy::usual(),
    {
        RestartPolicy { base_ms: 100, cap_ms: 30_000, min_uptime_ms: 10_000 }
    }

    /// The pause before a restart that follows `failures` short runs in a row.
    pub fn delay(&self, failures: u32) -> (r: u64)
        ensures
            r == self.pause(failures as nat),
    {
        let mut d: u64 = if self.base_ms < self.cap_ms {
            self.base_ms
        } else {
            self.cap_ms
        };
        let mut i: u32 = 0;
        proof {
            vstd::arithmetic::power2::lemma2_to64();
            assert(self.base_ms * pow2(0) == self.base_ms) by (nonlinear_arith)
                requires
                    pow2(0) == 1,
            ;
        }
        while i < failures && d < self.cap_ms
            invariant
                i <= failures,
                d == self.pause(i as nat),
            decreases failures - i,
        {
            proof {
                lemma_pause_step(*self, i as nat);
            }
            d = if d > self.cap_ms / 2 {
                self.cap_ms
            } else {
                d * 2
            };
            i += 1;
        }
        proof {
            pause_is_capped(*self, failures as nat);
            pause_is_monotone(*self, i as nat, failures as nat);
        }
        d
    }
}

impl Default for RestartPolicy {
    fn default() -> (r: RestartPolicy)
        ensures
            r == RestartPolicy::usual(),
    {
        RestartPolicy::standard()
    }
}

proof fn lemma_pause_step(policy: RestartPolicy, n: nat)
    ensures
        policy.pause(n + 1) == if 2 * policy.pause(n) < policy.cap_ms {
            2 * policy.pause(n)
        } else {
            policy.cap_ms as int
        },
{
    lemma_pow2_unfold(n + 1);
    lemma_pow2_pos(n);
    let x = policy.base_ms * pow2(n);
    assert(policy.base_ms * pow2(n + 1) == 2 * x) by (nonlinear_arith)
        requires
            pow2(n + 1) == 2 * pow2(n),
            x == policy.base_ms * pow2(n),
    ;
    assert(0 <= x) by (nonlinear_arith)
        requires
            x == policy.base_ms * pow2(n),
            pow2(n) > 0,
    ;
}

/// No pause is longer than the cap.
pub proof fn pause_is_capped(policy: RestartPolicy, failures: nat)
    ensures
        policy.pause(failures) <= policy.cap_ms,
{
}

/// More short runs in a row never shorten the pause.
pub proof fn pause_is_monotone(policy: RestartPolicy, fewer: nat, more: nat)
    requires
        fewer <= more,
    ensures
        policy.pause(fewer) <= policy.pause(more),
    decreases more - fewer,
{
    if fewer < more {
        pause_is_monotone(policy, fewer, (more - 1) as nat);
        lemma_pause_step(policy, (more - 1) as nat);
    }
}

} // verus!
