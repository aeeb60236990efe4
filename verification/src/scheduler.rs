//! Refresh scheduling decisions: the consecutive-failure counter and the
//! exponential backoff that lengthens the refresh interval while a remote
//! resource keeps failing, capped at one hour and reset by any success.

use vstd::prelude::*;

verus! {

/// Consecutive failures tolerated before backoff begins.
pub const MAX_CONSECUTIVE_FAILURES: u32 = 5;

/// Longest backoff interval, in seconds (one hour).
pub const MAX_BACKOFF_SECS: u64 = 3600;

/// Two to the power `e`.
pub open spec fn spec_pow2(e: nat) -> int
    decreases e,
{
    if e == 0 {
        1
    } else {
        2 * spec_pow2((e - 1) as nat)
    }
}

/// The effective refresh interval in seconds for a failure count and a
/// base interval: the base unchanged below the threshold; above it,
/// the base times `2 ^ min(failures - threshold + 1, 6)`, capped at one
/// hour.
pub open spec fn spec_effective_interval(failures: u32, base_secs: u64) -> int {
    if failures < MAX_CONSECUTIVE_FAILURES {
        base_secs as int
    } else {
        let e = if failures - MAX_CONSECUTIVE_FAILURES + 1 < 6 {
            failures - MAX_CONSECUTIVE_FAILURES + 1
        } else {
            6
        };
        let v = base_secs * spec_pow2(e as nat);
        if v < MAX_BACKOFF_SECS {
            v
        } else {
            MAX_BACKOFF_SECS as int
        }
    }
}

/// The consecutive-failure counter the scheduler keeps: reset by any
/// successful refresh, raised by any failed one.
#[derive(Debug, Clone, Copy, PartialEq, Eq, Structural)]
pub struct FailureCounter {
    pub consecutive_failures: u32,
}

impl FailureCounter {
    /// A fresh counter: no failures yet.
    pub fn new() -> (c: FailureCounter)
        ensures
            c.consecutive_failures == 0,
    {
        FailureCounter { consecutive_failures: 0 }
    }

    /// A successful refresh resets the count to zero.
    pub fn record_success(&mut self)
        ensures
            final(self).consecutive_failures == 0,
    {
        self.consecutive_failures = 0;
    }

    /// A failed refresh raises the count by one; the count saturates
    /// rather than wrapping.
    pub fn record_failure(&mut self)
        ensures
            final(self).consecutive_failures == if old(self).consecutive_failures < u32::MAX {
                old(self).consecutive_failures + 1
            } else {
                u32::MAX as int
            },
    {
        if self.consecutive_failures < u32::MAX {
            self.consecutive_failures = self.consecutive_failures + 1;
        }
    }

    /// Calculate the effective refresh interval with backoff applied.
    pub fn get_effective_interval(&self, base_secs: u64) -> (r: u64)
        ensures
            r == spec_effective_interval(self.consecutive_failures, base_secs),
    {
        effective_interval_secs(self.consecutive_failures, base_secs)
    }
}

/// Calculate the effective interval for a failure count and base interval.
pub fn effective_interval_secs(failures: u32, base_secs: u64) -> (r: u64)
    ensures
        r == spec_effective_interval(failures, base_secs),
{
    if failures < MAX_CONSECUTIVE_FAILURES {
        return base_secs;
    }
    let e: u32 = if failures - MAX_CONSECUTIVE_FAILURES + 1 < 6 {
        failures - MAX_CONSECUTIVE_FAILURES + 1
    } else {
        6
    };
    let mult: u64 = match e {
        1 => 2,
        2 => 4,
        3 => 8,
        4 => 16,
        5 => 32,
        _ => 64,
    };
    proof {
        assert(spec_pow2(0) == 1);
        assert(spec_pow2(1) == 2);
        assert(spec_pow2(2) == 4);
        assert(spec_pow2(3) == 8);
        assert(spec_pow2(4) == 16);
        assert(spec_pow2(5) == 32);
        assert(spec_pow2(6) == 64);
        assert(mult == spec_pow2(e as nat));
    }
    if base_secs >= MAX_BACKOFF_SECS {
        proof {
            assert(base_secs * spec_pow2(e as nat) >= MAX_BACKOFF_SECS) by (nonlinear_arith)
                requires
                    base_secs >= 3600,
                    spec_pow2(e as nat) >= 2,
                    MAX_BACKOFF_SECS == 3600,
            ;
        }
        return MAX_BACKOFF_SECS;
    }
    proof {
        assert(base_secs * mult < 3600 * 64) by (nonlinear_arith)
            requires
                base_secs < 3600,
                0 < mult <= 64,
        ;
    }
    let v: u64 = base_secs * mult;
    if v < MAX_BACKOFF_SECS {
        v
    } else {
        MAX_BACKOFF_SECS
    }
}

/// Powers of two are positive.
pub proof fn lemma_pow2_pos(e: nat)
    ensures
        spec_pow2(e) >= 1,
    decreases e,
{
    if e > 0 {
        lemma_pow2_pos((e - 1) as nat);
    }
}

/// Doubling never shrinks a power of two.
pub proof fn lemma_pow2_mono(e1: nat, e2: nat)
    requires
        e1 <= e2,
    ensures
        1 <= spec_pow2(e1) <= spec_pow2(e2),
    decreases e2,
{
    lemma_pow2_pos(e1);
    if e1 < e2 {
        lemma_pow2_mono(e1, (e2 - 1) as nat);
        lemma_pow2_pos((e2 - 1) as nat);
    }
}

/// Backoff monotonicity: below the failure threshold the effective
/// interval is the base interval unchanged; at or above the threshold it
/// never decreases as the failure count grows, up to the one-hour cap;
/// and a success resets the count to zero, where the effective interval
/// is the base interval again.
pub proof fn lemma_backoff_monotonic(f1: u32, f2: u32, base_secs: u64)
    requires
        f1 <= f2,
    ensures
        f2 < MAX_CONSECUTIVE_FAILURES ==> spec_effective_interval(f2, base_secs) == base_secs,
        MAX_CONSECUTIVE_FAILURES <= f1 ==> spec_effective_interval(f1, base_secs)
            <= spec_effective_interval(f2, base_secs),
        spec_effective_interval(0, base_secs) == base_secs,
{
    if MAX_CONSECUTIVE_FAILURES <= f1 {
        let e1: u32 = if f1 - MAX_CONSECUTIVE_FAILURES + 1 < 6 {
            (f1 - MAX_CONSECUTIVE_FAILURES + 1) as u32
        } else {
            6
        };
        let e2: u32 = if f2 - MAX_CONSECUTIVE_FAILURES + 1 < 6 {
            (f2 - MAX_CONSECUTIVE_FAILURES + 1) as u32
        } else {
            6
        };
        lemma_pow2_mono(e1 as nat, e2 as nat);
        assert(base_secs * spec_pow2(e1 as nat) <= base_secs * spec_pow2(e2 as nat))
            by (nonlinear_arith)
            requires
                spec_pow2(e1 as nat) <= spec_pow2(e2 as nat),
                base_secs >= 0,
        ;
    }
}

} // verus!
