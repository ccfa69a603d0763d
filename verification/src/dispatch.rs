//! The push-dispatch decisions: retry with doubling backoff on transport
//! errors only (a non-2xx gateway response is final: logged and dropped),
//! the stale-token signal that deletes a device, and the periodic counter
//! log. The gateway send itself happens in the embedding program.

use vstd::prelude::*;

verus! {

/// What one attempt to hand a payload to the push gateway produced.
#[derive(Debug, Clone, Copy, PartialEq, Eq, Structural)]
pub enum SendOutcome {
    /// The gateway accepted the request (any status code).
    Accepted { status: u16 },
    /// The gateway answered with an error response.
    ErrorResponse { status: u16 },
    /// The request did not reach the gateway.
    TransportError,
}

/// Per-notification retry state: failed attempts so far and the next
/// backoff delay.
pub struct RetryState {
    pub attempt: u8,
    pub backoff_ms: u64,
}

/// What to do after one send attempt.
#[derive(Debug, Clone, Copy, PartialEq, Eq, Structural)]
pub enum DispatchDecision {
    /// The payload was delivered (or accepted); move on.
    Done,
    /// Sleep this long, then send again.
    RetryAfter { delay_ms: u64 },
    /// Final failure — a gateway error response, or the third transport
    /// error in a row; log and drop the payload.
    GiveUp,
}

impl RetryState {
    /// The backoff follows the doubling schedule: 100 ms, 200 ms, then
    /// 400 ms before the third failure gives up.
    pub open spec fn wf(&self) -> bool {
        &&& self.attempt <= 3
        &&& self.backoff_ms == (if self.attempt == 0 {
            100int
        } else if self.attempt == 1 {
            200int
        } else {
            400int
        })
    }

    /// Fresh retry state: no failures, 100 ms initial backoff.
    pub fn new() -> (r: Self)
        ensures
            r.wf(),
            r.attempt == 0,
            r.backoff_ms == 100,
    {
        RetryState { attempt: 0, backoff_ms: 100 }
    }

    /// Decide after one send attempt: an accepted response finishes the
    /// payload, and a gateway error response is final — logged and
    /// dropped, never retried. Only transport errors retry, with the
    /// current delay doubled each time; the third one gives up.
    pub fn on_send_outcome(&mut self, outcome: &SendOutcome) -> (r: DispatchDecision)
        requires
            old(self).wf(),
            old(self).attempt < 3,
        ensures
            final(self).wf(),
            outcome is Accepted ==> r == DispatchDecision::Done && *final(self) == *old(self),
            outcome is ErrorResponse ==> r == DispatchDecision::GiveUp && *final(self) == *old(
                self,
            ),
            outcome is TransportError ==> {
                &&& final(self).attempt == old(self).attempt + 1
                &&& (r == DispatchDecision::GiveUp) == (old(self).attempt + 1 >= 3)
                &&& (old(self).attempt + 1 >= 3 ==> final(self).backoff_ms == old(
                    self,
                ).backoff_ms)
                &&& (old(self).attempt + 1 < 3 ==> r == (DispatchDecision::RetryAfter {
                    delay_ms: old(self).backoff_ms,
                }) && final(self).backoff_ms == old(self).backoff_ms * 2)
            },
    {
        match outcome {
            SendOutcome::Accepted { .. } => DispatchDecision::Done,
            SendOutcome::ErrorResponse { .. } => DispatchDecision::GiveUp,
            SendOutcome::TransportError => {
                self.attempt = self.attempt + 1;
                if self.attempt >= 3 {
                    DispatchDecision::GiveUp
                } else {
                    let delay = self.backoff_ms;
                    self.backoff_ms = self.backoff_ms * 2;
                    DispatchDecision::RetryAfter { delay_ms: delay }
                }
            },
        }
    }
}

/// The gateway reported the device token is no longer active (status
/// 410); the device row must be deleted.
pub fn is_stale_token_signal(outcome: &SendOutcome) -> (r: bool)
    ensures
        r == (outcome matches SendOutcome::ErrorResponse { status } && status == 410),
{
    match outcome {
        SendOutcome::ErrorResponse { status } => *status == 410,
        _ => false,
    }
}

/// Dispatcher counters: processed, succeeded and failed payloads.
pub struct SenderStats {
    pub processed: u64,
    pub succeeded: u64,
    pub failed: u64,
}

impl SenderStats {
    /// Fresh counters.
    pub fn new() -> (r: Self)
        ensures
            r.processed == 0 && r.succeeded == 0 && r.failed == 0,
    {
        SenderStats { processed: 0, succeeded: 0, failed: 0 }
    }

    /// Count one delivered payload.
    pub fn record_success(&mut self)
        requires
            old(self).processed < u64::MAX,
            old(self).succeeded < u64::MAX,
        ensures
            final(self).processed == old(self).processed + 1,
            final(self).succeeded == old(self).succeeded + 1,
            final(self).failed == old(self).failed,
    {
        self.processed = self.processed + 1;
        self.succeeded = self.succeeded + 1;
    }

    /// Count one dropped payload.
    pub fn record_failure(&mut self)
        requires
            old(self).processed < u64::MAX,
            old(self).failed < u64::MAX,
        ensures
            final(self).processed == old(self).processed + 1,
            final(self).failed == old(self).failed + 1,
            final(self).succeeded == old(self).succeeded,
    {
        self.processed = self.processed + 1;
        self.failed = self.failed + 1;
    }

    /// The structured counter log is written every ten payloads.
    pub fn should_log(&self) -> (r: bool)
        ensures
            r == (self.processed % 10 == 0),
    {
        self.processed % 10 == 0
    }
}

} // verus!
