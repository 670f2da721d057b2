//! Retry policy of the command dispatcher.
//!
//! The dispatcher sends a framed request and awaits the matching reply.
//! A reply that reports a cancellation (connection reset mid-flight, or an
//! explicit server cancel) is the only condition that is retried: the same
//! request is re-issued until a fixed ceiling of attempts is reached, then
//! the caller gets a request-timeout error. Every other outcome, success
//! or failure, is delivered to the caller at once. The asynchronous send
//! and await live outside; every decision between attempts is taken here.
use vstd::prelude::*;

use crate::error::Error;

verus! {

/// The fixed ceiling of attempts for one request.
pub const RETRY_COUNT: u32 = 3;

/// How one attempt of a request ended.
#[derive(Debug)]
pub enum AttemptOutcome {
    /// The reply arrived, with the payload bytes.
    Success(Vec<u8>),
    /// The request was cancelled in flight.
    Cancelled,
    /// The attempt failed for any other reason.
    Failed(Error),
}

/// What the dispatcher does after an attempt.
#[derive(Debug)]
pub enum RetryStep {
    /// Re-issue the same request.
    Resend,
    /// Hand this result to the caller.
    Deliver(Result<Vec<u8>, Error>),
}

/// Progress of one request through its attempts.
pub struct RetryState {
    /// Attempts completed so far.
    pub attempts: u32,
    /// Ceiling of attempts for this request.
    pub limit: u32,
}

impl RetryState {
    /// A fresh request that has not been attempted yet.
    pub fn new(limit: u32) -> (r: Self)
        requires
            limit >= 1,
        ensures
            r.attempts == 0,
            r.limit == limit,
    {
        RetryState { attempts: 0, limit }
    }

    /// Decide what to do after one attempt: deliver a success or a plain
    /// failure at once; after a cancellation, resend while attempts are
    /// left, otherwise deliver a request-timeout error.
    pub fn on_outcome(&mut self, outcome: AttemptOutcome) -> (r: RetryStep)
        requires
            old(self).attempts < old(self).limit,
        ensures
            final(self).limit == old(self).limit,
            final(self).attempts == old(self).attempts + 1,
            match outcome {
                AttemptOutcome::Success(b) => r == RetryStep::Deliver(Result::<
                    Vec<u8>,
                    Error,
                >::Ok(b)),
                AttemptOutcome::Failed(e) => r == RetryStep::Deliver(Result::<
                    Vec<u8>,
                    Error,
                >::Err(e)),
                AttemptOutcome::Cancelled => r == if old(self).attempts + 1 < old(self).limit {
                    RetryStep::Resend
                } else {
                    RetryStep::Deliver(Result::<Vec<u8>, Error>::Err(Error::RequestTimeout))
                },
            },
    {
        self.attempts = self.attempts + 1;
        match outcome {
            AttemptOutcome::Success(b) => RetryStep::Deliver(Ok(b)),
            AttemptOutcome::Failed(e) => RetryStep::Deliver(Err(e)),
            AttemptOutcome::Cancelled => {
                if self.attempts < self.limit {
                    RetryStep::Resend
                } else {
                    RetryStep::Deliver(Err(Error::RequestTimeout))
                }
            },
        }
    }
}

/// Run one request against the attempt outcomes a transport produces, in
/// order, and report the delivered result together with the number of
/// attempts used.
///
/// The contract carries the retry-then-timeout law: when every attempt
/// reports a cancellation the dispatcher uses exactly the ceiling of
/// attempts and fails with a request timeout, and when the first attempt
/// succeeds there is exactly one attempt and no retry.
pub fn run_request(outcomes: Vec<AttemptOutcome>, limit: u32) -> (r: (Result<Vec<u8>, Error>, u32))
    requires
        limit >= 1,
        outcomes@.len() >= limit,
    ensures
        1 <= r.1 <= limit,
        forall|i: int| 0 <= i < r.1 - 1 ==> outcomes@[i] is Cancelled,
        match outcomes@[r.1 - 1] {
            AttemptOutcome::Success(b) => r.0 == Result::<Vec<u8>, Error>::Ok(b),
            AttemptOutcome::Failed(e) => r.0 == Result::<Vec<u8>, Error>::Err(e),
            AttemptOutcome::Cancelled => r.1 == limit && r.0 == Result::<Vec<u8>, Error>::Err(
                Error::RequestTimeout,
            ),
        },
        (forall|i: int| 0 <= i < limit ==> outcomes@[i] is Cancelled) ==> r.1 == limit && r.0
            == Result::<Vec<u8>, Error>::Err(Error::RequestTimeout),
        outcomes@[0] matches AttemptOutcome::Success(b) ==> r.1 == 1 && r.0 == Result::<
            Vec<u8>,
            Error,
        >::Ok(b),
{
    let ghost orig = outcomes@;
    let mut rest = outcomes;
    let mut state = RetryState::new(limit);
    loop
        invariant
            orig == outcomes@,
            1 <= limit,
            orig.len() >= limit,
            state.limit == limit,
            state.attempts < limit,
            rest@ == orig.skip(state.attempts as int),
            forall|i: int| 0 <= i < state.attempts ==> orig[i] is Cancelled,
        decreases limit - state.attempts,
    {
        let outcome = rest.remove(0);
        proof {
            assert(orig.skip(state.attempts as int)[0] == orig[state.attempts as int]);
            assert(rest@ =~= orig.skip(state.attempts as int + 1));
        }
        match state.on_outcome(outcome) {
            RetryStep::Deliver(res) => {
                return (res, state.attempts);
            },
            RetryStep::Resend => {},
        }
    }
}

} // verus!
