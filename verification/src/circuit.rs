//! A circuit breaker guarding the upstream lookup API: trips open after a
//! run of consecutive failures, stays open for a cooling-off window, and
//! re-closes after enough successful probe calls while half-open.
//! Transitions take the current time as a plain value, so they are
//! deterministic and fully verified.

use vstd::prelude::*;

verus! {

/// The breaker's phase together with the data it needs: consecutive
/// failures while closed, the deadline while open, successful probes
/// while half-open.
#[derive(Debug, Clone, Copy, PartialEq, Eq, Structural)]
pub enum BreakerPhase {
    Closed { failures: u32 },
    Open { until_ms: u64 },
    HalfOpen { successes: u32 },
}

/// Circuit breaker with configurable thresholds.
#[derive(Debug, Clone)]
pub struct CircuitBreaker {
    pub failure_threshold: u32,
    pub success_threshold: u32,
    pub open_duration_ms: u64,
    pub phase: BreakerPhase,
}

/// The phase after recording a failure at time `now_ms`.
pub open spec fn spec_on_failure(cb: CircuitBreaker, now_ms: u64) -> BreakerPhase {
    match cb.phase {
        BreakerPhase::Closed { failures } => {
            if failures + 1 >= cb.failure_threshold {
                BreakerPhase::Open { until_ms: (now_ms + cb.open_duration_ms) as u64 }
            } else {
                BreakerPhase::Closed { failures: (failures + 1) as u32 }
            }
        },
        BreakerPhase::HalfOpen { .. } => BreakerPhase::Open {
            until_ms: (now_ms + cb.open_duration_ms) as u64,
        },
        BreakerPhase::Open { until_ms } => BreakerPhase::Open { until_ms },
    }
}

/// The phase after recording a success.
pub open spec fn spec_on_success(cb: CircuitBreaker) -> BreakerPhase {
    match cb.phase {
        BreakerPhase::Closed { .. } => BreakerPhase::Closed { failures: 0 },
        BreakerPhase::HalfOpen { successes } => {
            if successes + 1 >= cb.success_threshold {
                BreakerPhase::Closed { failures: 0 }
            } else {
                BreakerPhase::HalfOpen { successes: (successes + 1) as u32 }
            }
        },
        BreakerPhase::Open { until_ms } => BreakerPhase::Open { until_ms },
    }
}

/// Whether a call may go through at time `now_ms`: always, except while
/// open and before the deadline. At the deadline the breaker moves to
/// its half-open probe window.
pub open spec fn spec_call_allowed(cb: CircuitBreaker, now_ms: u64) -> bool {
    match cb.phase {
        BreakerPhase::Open { until_ms } => now_ms >= until_ms,
        _ => true,
    }
}

/// The phase after asking whether a call may go through: only an open
/// breaker whose window has elapsed changes, to half-open.
pub open spec fn spec_after_allowed(cb: CircuitBreaker, now_ms: u64) -> BreakerPhase {
    match cb.phase {
        BreakerPhase::Open { until_ms } => {
            if now_ms >= until_ms {
                BreakerPhase::HalfOpen { successes: 0u32 }
            } else {
                cb.phase
            }
        },
        _ => cb.phase,
    }
}

impl CircuitBreaker {
    /// A closed breaker with the given thresholds.
    pub fn new(failure_threshold: u32, success_threshold: u32, open_duration_ms: u64) -> (r: Self)
        ensures
            r.failure_threshold == failure_threshold,
            r.success_threshold == success_threshold,
            r.open_duration_ms == open_duration_ms,
            r.phase == (BreakerPhase::Closed { failures: 0u32 }),
    {
        CircuitBreaker {
            failure_threshold,
            success_threshold,
            open_duration_ms,
            phase: BreakerPhase::Closed { failures: 0 },
        }
    }

    /// Record a failed upstream call.
    pub fn handle_failure(&mut self, now_ms: u64)
        requires
            now_ms + old(self).open_duration_ms <= u64::MAX,
            old(self).failure_threshold >= 1,
        ensures
            final(self).phase == spec_on_failure(*old(self), now_ms),
            final(self).failure_threshold == old(self).failure_threshold,
            final(self).success_threshold == old(self).success_threshold,
            final(self).open_duration_ms == old(self).open_duration_ms,
    {
        match self.phase {
            BreakerPhase::Closed { failures } => {
                if failures >= self.failure_threshold - 1 {
                    self.phase = BreakerPhase::Open { until_ms: now_ms + self.open_duration_ms };
                } else {
                    self.phase = BreakerPhase::Closed { failures: failures + 1 };
                }
            },
            BreakerPhase::HalfOpen { .. } => {
                self.phase = BreakerPhase::Open { until_ms: now_ms + self.open_duration_ms };
            },
            BreakerPhase::Open { .. } => {},
        }
    }

    /// Record a successful upstream call.
    pub fn handle_success(&mut self)
        requires
            old(self).success_threshold >= 1,
        ensures
            final(self).phase == spec_on_success(*old(self)),
            final(self).failure_threshold == old(self).failure_threshold,
            final(self).success_threshold == old(self).success_threshold,
            final(self).open_duration_ms == old(self).open_duration_ms,
    {
        match self.phase {
            BreakerPhase::Closed { .. } => {
                self.phase = BreakerPhase::Closed { failures: 0 };
            },
            BreakerPhase::HalfOpen { successes } => {
                if successes >= self.success_threshold - 1 {
                    self.phase = BreakerPhase::Closed { failures: 0 };
                } else {
                    self.phase = BreakerPhase::HalfOpen { successes: successes + 1 };
                }
            },
            BreakerPhase::Open { .. } => {},
        }
    }

    /// Whether a call may proceed now. When the open window has elapsed,
    /// the breaker moves into its half-open probe window and lets the
    /// call through.
    pub fn call_allowed(&mut self, now_ms: u64) -> (r: bool)
        ensures
            r == spec_call_allowed(*old(self), now_ms),
            final(self).phase == spec_after_allowed(*old(self), now_ms),
            final(self).failure_threshold == old(self).failure_threshold,
            final(self).success_threshold == old(self).success_threshold,
            final(self).open_duration_ms == old(self).open_duration_ms,
    {
        match self.phase {
            BreakerPhase::Open { until_ms } => {
                if now_ms >= until_ms {
                    self.phase = BreakerPhase::HalfOpen { successes: 0 };
                    true
                } else {
                    false
                }
            },
            _ => true,
        }
    }
}

/// Repeated failures starting from the given breaker.
pub open spec fn spec_after_failures(cb: CircuitBreaker, now_ms: u64, n: nat) -> CircuitBreaker
    decreases n,
{
    if n == 0 {
        cb
    } else {
        let prev = spec_after_failures(cb, now_ms, (n - 1) as nat);
        CircuitBreaker { phase: spec_on_failure(prev, now_ms), ..prev }
    }
}

/// Law: from a fresh breaker with failure threshold 5, five consecutive
/// failures trip it open until `now + open duration`; while open, no call
/// is allowed before the deadline, so the next call short-circuits
/// without reaching the upstream. Once the window has elapsed, a probe
/// call is allowed, and with success threshold 2, two successful probes
/// re-close the breaker.
pub proof fn lemma_breaker_trip_and_recover(cb0: CircuitBreaker, now_ms: u64, probe_ms: u64)
    requires
        cb0.phase == (BreakerPhase::Closed { failures: 0u32 }),
        cb0.failure_threshold == 5,
        cb0.success_threshold == 2,
        now_ms + cb0.open_duration_ms <= u64::MAX,
        probe_ms >= now_ms + cb0.open_duration_ms,
    ensures
        ({
            let tripped = spec_after_failures(cb0, now_ms, 5);
            &&& tripped.phase == (BreakerPhase::Open {
                until_ms: (now_ms + cb0.open_duration_ms) as u64,
            })
            &&& forall|t: u64|
                t < now_ms + cb0.open_duration_ms ==> !spec_call_allowed(tripped, t)
            &&& spec_call_allowed(tripped, probe_ms)
            &&& ({
                let probing = CircuitBreaker {
                    phase: BreakerPhase::HalfOpen { successes: 0u32 },
                    ..tripped
                };
                let once = CircuitBreaker { phase: spec_on_success(probing), ..probing };
                let twice = CircuitBreaker { phase: spec_on_success(once), ..once };
                twice.phase == (BreakerPhase::Closed { failures: 0u32 })
            })
        }),
{
    reveal_with_fuel(spec_after_failures, 6);
    let c1 = spec_after_failures(cb0, now_ms, 1);
    let c2 = spec_after_failures(cb0, now_ms, 2);
    let c3 = spec_after_failures(cb0, now_ms, 3);
    let c4 = spec_after_failures(cb0, now_ms, 4);
    let c5 = spec_after_failures(cb0, now_ms, 5);
    assert(c1.phase == (BreakerPhase::Closed { failures: 1u32 }));
    assert(c2.phase == (BreakerPhase::Closed { failures: 2u32 }));
    assert(c3.phase == (BreakerPhase::Closed { failures: 3u32 }));
    assert(c4.phase == (BreakerPhase::Closed { failures: 4u32 }));
    assert(c5.phase == (BreakerPhase::Open {
        until_ms: (now_ms + cb0.open_duration_ms) as u64,
    }));
}

} // verus!
